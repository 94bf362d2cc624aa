//! The template catalog: a store of template files keyed by their path under
//! the template root, resolved by artifact kind and runtime into the entries
//! of one template group.
use vstd::prelude::*;
use vstd::string::StringExecFns;
use vstd::string::StrSliceExecFns;
use crate::error::ScaffoldError;
use crate::runtime::{Runtime, storage_key};

verus! {

/// One template file of the store: its path below the template root, with
/// `/` between components, and its raw text.
#[derive(Debug, Clone)]
pub struct TemplateFile {
    pub path: String,
    pub body: String,
}

/// One entry of a resolved group: the key the template is known by (its file
/// name without the final extension), the name of the file it renders to
/// (the template's own file name), and its unrendered text.
#[derive(Debug, Clone)]
pub struct TemplateEntry {
    pub key: String,
    pub output_name: String,
    pub body: String,
}

/// Directory of the group for a context tag and a runtime:
/// `<context>_templates/<runtime key>`.
pub open spec fn group_dir(context: Seq<char>, runtime: Runtime) -> Seq<char> {
    context + "_templates/"@ + storage_key(runtime)
}

/// A path names a file that lies directly in the directory `group`.
pub open spec fn is_member(path: Seq<char>, group: Seq<char>) -> bool {
    &&& path.len() > group.len()
    &&& path.subrange(0, group.len() as int) == group
    &&& path[group.len() as int] == '/'
    &&& forall|j: int| group.len() < j < path.len() ==> path[j] != '/'
}

/// The file name of a member of `group`: what follows the directory.
pub open spec fn name_in_group(path: Seq<char>, group: Seq<char>) -> Seq<char> {
    path.subrange(group.len() + 1int, path.len() as int)
}

/// A file name that can be both written and looked up.
pub open spec fn valid_name(name: Seq<char>) -> bool {
    name.len() > 0 && name != "."@ && name != ".."@
}

/// Index of the last occurrence of `c` in `s`, or -1.
pub open spec fn last_index_of(s: Seq<char>, c: char) -> int
    decreases s.len(),
{
    if s.len() == 0 {
        -1
    } else if s.last() == c {
        s.len() - 1
    } else {
        last_index_of(s.drop_last(), c)
    }
}

/// A file name without its final extension. A name whose only dot leads it
/// (`.gitignore`), or that has no dot, is its own stem.
pub open spec fn stem(name: Seq<char>) -> Seq<char> {
    let i = last_index_of(name, '.');
    if i <= 0 {
        name
    } else {
        name.subrange(0, i)
    }
}

/// The files of a store that lie directly in `group`, in store order.
pub open spec fn members(files: Seq<TemplateFile>, group: Seq<char>) -> Seq<TemplateFile>
    decreases files.len(),
{
    if files.len() == 0 {
        Seq::empty()
    } else {
        let rest = members(files.drop_last(), group);
        if is_member(files.last().path@, group) {
            rest.push(files.last())
        } else {
            rest
        }
    }
}

/// The entry that a member of `group` resolves to.
pub open spec fn entry_matches(e: TemplateEntry, f: TemplateFile, group: Seq<char>) -> bool {
    &&& e.output_name@ == name_in_group(f.path@, group)
    &&& e.key@ == stem(name_in_group(f.path@, group))
    &&& e.body@ == f.body@
}

/// Paths of a sequence of files are pairwise distinct.
pub open spec fn paths_unique(files: Seq<TemplateFile>) -> bool {
    forall|i: int, j: int| 0 <= i < j < files.len() ==> files[i].path@ != files[j].path@
}

/// Members of a sequence of files all have names that can be used.
pub open spec fn names_valid(ms: Seq<TemplateFile>, group: Seq<char>) -> bool {
    forall|k: int| 0 <= k < ms.len() ==> valid_name(name_in_group(#[trigger] ms[k].path@, group))
}

proof fn lemma_last_index_of(s: Seq<char>, c: char, idx: int)
    requires
        -1 <= idx < s.len(),
        idx >= 0 ==> s[idx] == c,
        forall|k: int| idx < k < s.len() ==> s[k] != c,
    ensures
        last_index_of(s, c) == idx,
    decreases s.len(),
{
    if s.len() > 0 && idx != s.len() - 1 {
        lemma_last_index_of(s.drop_last(), c, idx);
    }
}

/// The members of a prefix of the files are a prefix of the members.
proof fn lemma_members_prefix(files: Seq<TemplateFile>, group: Seq<char>, i: int)
    requires
        0 <= i <= files.len(),
    ensures
        members(files.subrange(0, i), group).len() <= members(files, group).len(),
        forall|k: int|
            0 <= k < members(files.subrange(0, i), group).len() ==> members(
                files.subrange(0, i),
                group,
            )[k] == members(files, group)[k],
    decreases files.len(),
{
    if i == files.len() {
        assert(files.subrange(0, i) =~= files);
    } else {
        assert(files.drop_last().subrange(0, i) =~= files.subrange(0, i));
        lemma_members_prefix(files.drop_last(), group, i);
    }
}

/// The directory of the group for a context tag and a runtime.
pub fn group_directory(context: &str, runtime: Runtime) -> (r: String)
    ensures
        r@ == group_dir(context@, runtime),
{
    let mut s = String::from_str(context);
    s.append("_templates/");
    let key = runtime.runtime_to_lowercase();
    s.append(key.as_str());
    s
}

/// The file name of `path` if it lies directly in `group`.
pub fn member_name(path: &str, group: &str) -> (r: Option<String>)
    ensures
        r is Some <==> is_member(path@, group@),
        r is Some ==> r->0@ == name_in_group(path@, group@),
{
    let plen = path.unicode_len();
    let glen = group.unicode_len();
    if plen <= glen {
        return None;
    }
    let mut j: usize = 0;
    while j < glen
        invariant
            j <= glen < plen,
            glen == group@.len(),
            plen == path@.len(),
            forall|k: int| 0 <= k < j ==> path@[k] == group@[k],
        decreases glen - j,
    {
        if path.get_char(j) != group.get_char(j) {
            assert(path@.subrange(0, glen as int)[j as int] != group@[j as int]);
            return None;
        }
        j = j + 1;
    }
    assert(path@.subrange(0, glen as int) =~= group@);
    if path.get_char(glen) != '/' {
        return None;
    }
    let mut k: usize = glen + 1;
    while k < plen
        invariant
            glen < k <= plen,
            plen == path@.len(),
            glen == group@.len(),
            forall|m: int| glen < m < k ==> path@[m] != '/',
        decreases plen - k,
    {
        if path.get_char(k) == '/' {
            return None;
        }
        k = k + 1;
    }
    Some(String::from_str(path.substring_char(glen + 1, plen)))
}

/// Whether a file name can be both written and looked up.
pub fn is_valid_name(name: &str) -> (r: bool)
    ensures
        r == valid_name(name@),
{
    proof {
        reveal_strlit(".");
        reveal_strlit("..");
    }
    let n = name.unicode_len();
    if n == 0 {
        false
    } else if n == 1 {
        if name.get_char(0) == '.' {
            assert(name@ =~= "."@);
            false
        } else {
            assert(name@[0] != "."@[0]);
            true
        }
    } else if n == 2 {
        if name.get_char(0) == '.' && name.get_char(1) == '.' {
            assert(name@ =~= ".."@);
            false
        } else {
            assert(name@[0] != ".."@[0] || name@[1] != ".."@[1]);
            true
        }
    } else {
        true
    }
}

/// The lookup key of a file name: the name without its final extension.
pub fn file_stem(name: &str) -> (r: String)
    ensures
        r@ == stem(name@),
{
    let n = name.unicode_len();
    let mut i: usize = n;
    while i > 0 && name.get_char(i - 1) != '.'
        invariant
            i <= n,
            n == name@.len(),
            forall|k: int| i <= k < n ==> name@[k] != '.',
        decreases i,
    {
        i = i - 1;
    }
    proof {
        lemma_last_index_of(name@, '.', i - 1);
    }
    if i <= 1 {
        String::from_str(name)
    } else {
        String::from_str(name.substring_char(0, i - 1))
    }
}

/// The members of the group for `context` and `runtime` in `store`.
pub open spec fn group_members(store: TemplateStore, context: Seq<char>, runtime: Runtime) -> Seq<
    TemplateFile,
> {
    members(store.files(), group_dir(context, runtime))
}

/// `entries` is what the group for `context` and `runtime` resolves to.
pub open spec fn resolves_to(
    store: TemplateStore,
    context: Seq<char>,
    runtime: Runtime,
    entries: Seq<TemplateEntry>,
) -> bool {
    let g = group_dir(context, runtime);
    let ms = group_members(store, context, runtime);
    &&& ms.len() > 0
    &&& names_valid(ms, g)
    &&& entries.len() == ms.len()
    &&& forall|k: int| 0 <= k < ms.len() ==> entry_matches(#[trigger] entries[k], ms[k], g)
}

proof fn lemma_member_path(p: Seq<char>, g: Seq<char>)
    requires
        is_member(p, g),
    ensures
        p == g + seq!['/'] + name_in_group(p, g),
{
    assert(p =~= g + seq!['/'] + name_in_group(p, g));
}

/// The members of a store are files of it, lie in the group, and keep
/// their paths distinct.
proof fn lemma_members_unique(files: Seq<TemplateFile>, g: Seq<char>)
    requires
        paths_unique(files),
    ensures
        paths_unique(members(files, g)),
        forall|k: int|
            0 <= k < members(files, g).len() ==> is_member(#[trigger] members(files, g)[k].path@, g),
        forall|k: int|
            0 <= k < members(files, g).len() ==> exists|j: int|
                0 <= j < files.len() && #[trigger] members(files, g)[k] == files[j],
    decreases files.len(),
{
    if files.len() > 0 {
        let rest = files.drop_last();
        assert(paths_unique(rest));
        lemma_members_unique(rest, g);
        let ms = members(files, g);
        let mr = members(rest, g);
        assert forall|k: int| 0 <= k < mr.len() implies exists|j: int|
            0 <= j < files.len() && #[trigger] mr[k] == files[j] by {
            let j = choose|j: int| 0 <= j < rest.len() && mr[k] == rest[j];
            assert(mr[k] == files[j]);
        }
        if is_member(files.last().path@, g) {
            assert forall|a: int, b: int| 0 <= a < b < ms.len() implies ms[a].path@ != ms[b].path@ by {
                if b == ms.len() - 1 {
                    let j = choose|j: int| 0 <= j < rest.len() && mr[a] == rest[j];
                    assert(files[j] == mr[a]);
                    assert(files[files.len() - 1] == ms[b]);
                } else {
                    assert(ms[a] == mr[a] && ms[b] == mr[b]);
                }
            }
            assert forall|k: int| 0 <= k < ms.len() implies exists|j: int|
                0 <= j < files.len() && #[trigger] ms[k] == files[j] by {
                if k == ms.len() - 1 {
                    assert(ms[k] == files[files.len() - 1]);
                } else {
                    assert(ms[k] == mr[k]);
                }
            }
        }
    }
}

/// A group that resolves has at least one entry, and no two of its entries
/// are written to the same file name.
pub proof fn lemma_resolved_names_unique(
    store: TemplateStore,
    context: Seq<char>,
    runtime: Runtime,
    entries: Seq<TemplateEntry>,
)
    requires
        store.wf(),
        resolves_to(store, context, runtime, entries),
    ensures
        entries.len() > 0,
        forall|i: int, j: int|
            0 <= i < j < entries.len() ==> entries[i].output_name@ != entries[j].output_name@,
{
    let g = group_dir(context, runtime);
    let ms = group_members(store, context, runtime);
    lemma_members_unique(store.files(), g);
    assert forall|i: int, j: int| 0 <= i < j < entries.len() implies entries[i].output_name@
        != entries[j].output_name@ by {
        assert(entry_matches(entries[i], ms[i], g));
        assert(entry_matches(entries[j], ms[j], g));
        assert(is_member(ms[i].path@, g));
        assert(is_member(ms[j].path@, g));
        lemma_member_path(ms[i].path@, g);
        lemma_member_path(ms[j].path@, g);
    }
}

/// Resolves the group for `context` and `runtime` into its entries, one per
/// file that lies directly in the group's directory, in store order.
///
/// A group with no such file is not packaged: `CatalogNotFound`, with the
/// group's directory. A member whose name is empty, `.` or `..` makes the
/// whole resolution fail with `InvalidTemplateName`, carrying the path of
/// the first such member.
pub fn load_templates(store: &TemplateStore, runtime: Runtime, context: &str) -> (r: Result<
    Vec<TemplateEntry>,
    ScaffoldError,
>)
    ensures
        ({
            let g = group_dir(context@, runtime);
            let ms = group_members(*store, context@, runtime);
            &&& ms.len() == 0 ==> r is Err && r->Err_0 is CatalogNotFound
                && r->Err_0->CatalogNotFound_0@ == g
            &&& (ms.len() > 0 && !names_valid(ms, g)) ==> r is Err
                && r->Err_0 is InvalidTemplateName && exists|k: int|
                0 <= k < ms.len() && r->Err_0->InvalidTemplateName_0@ == ms[k].path@
                    && !valid_name(name_in_group(ms[k].path@, g))
                    && names_valid(ms.subrange(0, k), g)
            &&& r is Ok <==> (ms.len() > 0 && names_valid(ms, g))
            &&& r is Ok ==> resolves_to(*store, context@, runtime, r->Ok_0@) && r->Ok_0@.len() > 0
        }),
{
    let group = group_directory(context, runtime);
    let ghost g = group@;
    let ghost files = store.files@;
    let mut entries: Vec<TemplateEntry> = Vec::new();
    let mut i: usize = 0;
    while i < store.files.len()
        invariant
            i <= files.len(),
            files == store.files@,
            g == group@,
            g == group_dir(context@, runtime),
            entries@.len() == members(files.subrange(0, i as int), g).len(),
            names_valid(members(files.subrange(0, i as int), g), g),
            forall|k: int|
                0 <= k < entries@.len() ==> entry_matches(
                    #[trigger] entries@[k],
                    members(files.subrange(0, i as int), g)[k],
                    g,
                ),
        decreases files.len() - i,
    {
        let ghost before = members(files.subrange(0, i as int), g);
        proof {
            assert(files.subrange(0, i + 1).drop_last() =~= files.subrange(0, i as int));
        }
        let f = &store.files[i];
        match member_name(f.path.as_str(), group.as_str()) {
            Some(name) => {
                if !is_valid_name(name.as_str()) {
                    proof {
                        let after = members(files.subrange(0, i + 1), g);
                        lemma_members_prefix(files, g, i + 1);
                        let ms = members(files, g);
                        assert(after[before.len() as int] == ms[before.len() as int]);
                        assert(ms.subrange(0, before.len() as int) =~= before);
                    }
                    return Err(ScaffoldError::InvalidTemplateName(f.path.clone()));
                }
                let key = file_stem(name.as_str());
                entries.push(TemplateEntry { key, output_name: name, body: f.body.clone() });
            },
            None => {},
        }
        i = i + 1;
    }
    proof {
        assert(files.subrange(0, files.len() as int) =~= files);
    }
    if entries.len() == 0 {
        return Err(ScaffoldError::CatalogNotFound(group));
    }
    Ok(entries)
}

/// A read-only collection of template files, each path present once.
pub struct TemplateStore {
    files: Vec<TemplateFile>,
}

impl TemplateStore {
    pub closed spec fn files(&self) -> Seq<TemplateFile> {
        self.files@
    }

    pub open spec fn wf(&self) -> bool {
        paths_unique(self.files())
    }

    /// An empty store.
    pub fn new() -> (r: Self)
        ensures
            r.wf(),
            r.files().len() == 0,
    {
        TemplateStore { files: Vec::new() }
    }

    /// Number of files in the store.
    pub fn len(&self) -> (r: usize)
        ensures
            r == self.files().len(),
    {
        self.files.len()
    }

    /// Adds a file unless its path is already present. Returns whether it
    /// was added.
    pub fn insert(&mut self, path: String, body: String) -> (added: bool)
        requires
            old(self).wf(),
        ensures
            final(self).wf(),
            added <==> forall|i: int|
                0 <= i < old(self).files().len() ==> old(self).files()[i].path@ != path@,
            added ==> final(self).files() == old(self).files().push(
                TemplateFile { path, body },
            ),
            !added ==> final(self).files() == old(self).files(),
    {
        let mut i: usize = 0;
        while i < self.files.len()
            invariant
                i <= self.files@.len(),
                self.files@ == old(self).files@,
                paths_unique(self.files@),
                forall|k: int| 0 <= k < i ==> self.files@[k].path@ != path@,
            decreases self.files@.len() - i,
        {
            if self.files[i].path == path {
                assert(old(self).files()[i as int].path@ == path@);
                return false;
            }
            i = i + 1;
        }
        self.files.push(TemplateFile { path, body });
        true
    }
}

} // verus!
