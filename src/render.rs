//! The render step: substitutes a render context into each entry of a
//! resolved group and says which file each result belongs in.
use vstd::prelude::*;
use vstd::string::StringExecFns;
use crate::catalog::{TemplateEntry, entry_matches, name_in_group, names_valid, valid_name, TemplateStore, load_templates, group_dir, group_members};
use crate::error::ScaffoldError;
use crate::runtime::{Runtime, display_label};
use crate::template::{is_plain_template, plain_template};

verus! {

/// What the template engine produces from a template text and a list of
/// variable bindings: the rendered text, or `Err(Some(v))` where it reports
/// a variable without a binding (`v` being the variable's path, where it
/// gives one), or `Err(None)` where it rejects the template otherwise.
pub uninterp spec fn handlebars_render(body: Seq<char>, vars: Seq<(Seq<char>, Seq<char>)>) -> Result<
    Seq<char>,
    Option<Option<Seq<char>>>,
>;

/// The variable bindings seen as text.
pub open spec fn vars_view(vars: Seq<(String, String)>) -> Seq<(Seq<char>, Seq<char>)> {
    vars.map_values(|p: (String, String)| (p.0@, p.1@))
}

/// An optional text seen as text.
pub open spec fn opt_view(o: Option<String>) -> Option<Seq<char>> {
    match o {
        Some(v) => Some(v@),
        None => None,
    }
}

/// Relies on `handlebars::Handlebars::render_template`, on a fresh registry
/// put in strict mode by `set_strict_mode(true)`: the output depends on the
/// template text and the bindings alone, and a variable with no binding is
/// reported as `RenderErrorReason::MissingVariable`. Only plain templates
/// are handed over: they hold no partial, so rendering does not recurse.
#[verifier::external_body]
fn render_with_handlebars(body: &str, vars: &Vec<(String, String)>) -> (r: Result<String, ScaffoldError>)
    requires
        plain_template(body@),
    ensures
        r is Ok <==> handlebars_render(body@, vars_view(vars@)) is Ok,
        r is Ok ==> r->Ok_0@ == handlebars_render(body@, vars_view(vars@))->Ok_0,
        r is Err ==> match handlebars_render(body@, vars_view(vars@)) {
            Err(Some(v)) => r->Err_0 is UndefinedVariable && opt_view(r->Err_0->UndefinedVariable_0) == v,
            _ => r->Err_0 is RenderFailed,
        },
{
    let mut registry = handlebars::Handlebars::new();
    registry.set_strict_mode(true);
    let data: serde_json::Map<String, serde_json::Value> = vars.iter().map(
        |(k, v)| (k.clone(), serde_json::Value::String(v.clone())),
    ).collect();
    match registry.render_template(body, &data) {
        Ok(s) => Ok(s),
        Err(e) => match handlebars::RenderErrorReason::from(e) {
            handlebars::RenderErrorReason::MissingVariable(v) => Err(ScaffoldError::UndefinedVariable(v)),
            other => Err(ScaffoldError::RenderFailed(other.to_string())),
        },
    }
}

/// What a template text renders to under the bindings `vars`: `None` where
/// it is not a plain template or the engine rejects it.
pub open spec fn render_text(body: Seq<char>, vars: Seq<(Seq<char>, Seq<char>)>) -> Option<Seq<char>> {
    if plain_template(body) && handlebars_render(body, vars) is Ok {
        Some(handlebars_render(body, vars)->Ok_0)
    } else {
        None
    }
}

/// `e` is the error for the template `body` of the entry written to `name`,
/// under `vars`.
pub open spec fn render_error_matches(
    e: ScaffoldError,
    name: Seq<char>,
    body: Seq<char>,
    vars: Seq<(Seq<char>, Seq<char>)>,
) -> bool {
    if !plain_template(body) {
        e is UnsupportedTemplate && e->UnsupportedTemplate_0@ == name
    } else {
        match handlebars_render(body, vars) {
            Err(Some(v)) => e is UndefinedVariable && opt_view(e->UndefinedVariable_0) == v,
            Err(None) => e is RenderFailed,
            Ok(_) => false,
        }
    }
}

/// The bindings visible to every template of one render pass.
#[derive(Debug, Clone)]
pub struct RenderContext {
    pub project_name: String,
    pub runtime_label: String,
}

/// The variables every template sees: `project_name` and `runtime`.
pub open spec fn render_vars(project_name: Seq<char>, runtime_label: Seq<char>) -> Seq<
    (Seq<char>, Seq<char>),
> {
    seq![("project_name"@, project_name), ("runtime"@, runtime_label)]
}

/// The variables a render context binds.
pub open spec fn context_vars(ctx: RenderContext) -> Seq<(Seq<char>, Seq<char>)> {
    render_vars(ctx.project_name@, ctx.runtime_label@)
}

/// What a template text renders to under a context.
pub open spec fn rendered(body: Seq<char>, ctx: RenderContext) -> Option<Seq<char>> {
    render_text(body, context_vars(ctx))
}

/// `name` placed in directory `dir`: a separator is added unless `dir` is
/// empty or already ends in one.
pub open spec fn join_path(dir: Seq<char>, name: Seq<char>) -> Seq<char> {
    if dir.len() == 0 {
        name
    } else if dir.last() == '/' {
        dir + name
    } else {
        dir + "/"@ + name
    }
}

impl RenderContext {
    /// The context for a project name and a runtime, whose label it shows.
    pub fn new(project_name: &str, runtime: Runtime) -> (r: Self)
        ensures
            r.project_name@ == project_name@,
            r.runtime_label@ == display_label(runtime),
    {
        RenderContext { project_name: String::from_str(project_name), runtime_label: runtime.to_string() }
    }

    /// The bindings of this context, in the form the engine takes.
    pub fn variables(&self) -> (r: Vec<(String, String)>)
        ensures
            vars_view(r@) == context_vars(*self),
    {
        let mut v: Vec<(String, String)> = Vec::new();
        v.push((String::from_str("project_name"), self.project_name.clone()));
        v.push((String::from_str("runtime"), self.runtime_label.clone()));
        assert(vars_view(v@) =~= context_vars(*self));
        v
    }
}

/// A rendered file: where it goes and what it holds.
#[derive(Debug, Clone)]
pub struct RenderedFile {
    pub path: String,
    pub content: String,
}

/// The path of file `name` in directory `dir`.
pub fn join_output_path(dir: &str, name: &str) -> (r: String)
    ensures
        r@ == join_path(dir@, name@),
{
    let n = dir.unicode_len();
    let mut s = String::from_str(dir);
    if n == 0 {
        String::from_str(name)
    } else if dir.get_char(n - 1) == '/' {
        s.append(name);
        s
    } else {
        s.append("/");
        s.append(name);
        s
    }
}

/// Renders one entry's text under a context. A text that is not a plain
/// template is refused with `UnsupportedTemplate`, carrying the entry's
/// output name.
pub fn render_entry(entry: &TemplateEntry, ctx: &RenderContext) -> (r: Result<String, ScaffoldError>)
    ensures
        r is Ok <==> rendered(entry.body@, *ctx) is Some,
        r is Ok ==> r->Ok_0@ == rendered(entry.body@, *ctx)->0,
        r is Err ==> render_error_matches(r->Err_0, entry.output_name@, entry.body@, context_vars(*ctx)),
{
    if !is_plain_template(entry.body.as_str()) {
        return Err(ScaffoldError::UnsupportedTemplate(entry.output_name.clone()));
    }
    let vars = ctx.variables();
    render_with_handlebars(entry.body.as_str(), &vars)
}

/// The file that an entry's rendered text becomes under `output_directory`.
pub fn rendered_file(entry: &TemplateEntry, output_directory: &str, content: String) -> (r:
    RenderedFile)
    ensures
        r.path@ == join_path(output_directory@, entry.output_name@),
        r.content@ == content@,
{
    RenderedFile { path: join_output_path(output_directory, entry.output_name.as_str()), content }
}

/// `file` is entry `e` rendered under `ctx` and placed in `dir`.
pub open spec fn file_matches(
    file: RenderedFile,
    e: TemplateEntry,
    ctx: RenderContext,
    dir: Seq<char>,
) -> bool {
    &&& rendered(e.body@, ctx) is Some
    &&& file.path@ == join_path(dir, e.output_name@)
    &&& file.content@ == rendered(e.body@, ctx)->0
}

/// Every entry renders under `ctx`.
pub open spec fn all_render(entries: Seq<TemplateEntry>, ctx: RenderContext) -> bool {
    forall|k: int| 0 <= k < entries.len() ==> (#[trigger] rendered(entries[k].body@, ctx)) is Some
}

/// `files` is, entry by entry, the render of `entries` placed in `dir`.
pub open spec fn renders_to(
    entries: Seq<TemplateEntry>,
    ctx: RenderContext,
    dir: Seq<char>,
    files: Seq<RenderedFile>,
) -> bool {
    &&& files.len() == entries.len()
    &&& forall|k: int| 0 <= k < entries.len() ==> file_matches(#[trigger] files[k], entries[k], ctx, dir)
}

/// Rendering is deterministic: two passes over the same entries with the
/// same context and output directory give the same files, byte for byte.
pub proof fn lemma_render_deterministic(
    entries: Seq<TemplateEntry>,
    ctx: RenderContext,
    dir: Seq<char>,
    first: Seq<RenderedFile>,
    second: Seq<RenderedFile>,
)
    requires
        renders_to(entries, ctx, dir, first),
        renders_to(entries, ctx, dir, second),
    ensures
        first.len() == second.len(),
        forall|k: int|
            0 <= k < first.len() ==> (#[trigger] first[k]).path@ == second[k].path@
                && first[k].content@ == second[k].content@,
{
    assert forall|k: int| 0 <= k < first.len() implies (#[trigger] first[k]).path@ == second[k].path@
        && first[k].content@ == second[k].content@ by {
        assert(file_matches(first[k], entries[k], ctx, dir));
        assert(file_matches(second[k], entries[k], ctx, dir));
    }
}

/// Renders every entry in order, stopping at the first that fails, and
/// places each result in `output_directory` under the entry's output name.
pub fn render_entries(entries: &Vec<TemplateEntry>, ctx: &RenderContext, output_directory: &str) -> (r:
    Result<Vec<RenderedFile>, ScaffoldError>)
    ensures
        r is Ok <==> all_render(entries@, *ctx),
        r is Ok ==> renders_to(entries@, *ctx, output_directory@, r->Ok_0@),
        r is Err ==> exists|k: int|
            0 <= k < entries@.len() && rendered(entries@[k].body@, *ctx) is None
                && all_render(entries@.subrange(0, k), *ctx) && render_error_matches(
                r->Err_0,
                entries@[k].output_name@,
                entries@[k].body@,
                context_vars(*ctx),
            ),
{
    let mut files: Vec<RenderedFile> = Vec::new();
    let mut i: usize = 0;
    while i < entries.len()
        invariant
            i <= entries@.len(),
            renders_to(entries@.subrange(0, i as int), *ctx, output_directory@, files@),
        decreases entries@.len() - i,
    {
        let entry = &entries[i];
        match render_entry(entry, ctx) {
            Ok(content) => {
                let f = rendered_file(entry, output_directory, content);
                files.push(f);
            },
            Err(e) => {
                assert(all_render(entries@.subrange(0, i as int), *ctx)) by {
                    assert forall|k: int| 0 <= k < i implies (#[trigger] rendered(
                        entries@.subrange(0, i as int)[k].body@,
                        *ctx,
                    )) is Some by {
                        assert(file_matches(files@[k], entries@.subrange(0, i as int)[k], *ctx, output_directory@));
                    }
                }
                assert(!all_render(entries@, *ctx));
                return Err(e);
            },
        }
        proof {
            assert forall|k: int| 0 <= k < i + 1 implies file_matches(
                #[trigger] files@[k],
                entries@.subrange(0, i + 1)[k],
                *ctx,
                output_directory@,
            ) by {
                if k < i {
                    assert(entries@.subrange(0, i + 1)[k] == entries@.subrange(0, i as int)[k]);
                }
            }
        }
        i = i + 1;
    }
    assert(entries@.subrange(0, entries@.len() as int) =~= entries@);
    assert(all_render(entries@, *ctx)) by {
        assert forall|k: int| 0 <= k < entries@.len() implies (#[trigger] rendered(
            entries@[k].body@,
            *ctx,
        )) is Some by {
            assert(file_matches(files@[k], entries@[k], *ctx, output_directory@));
        }
    }
    Ok(files)
}

/// Resolves the group for `context` and `runtime` and renders it for the
/// project `project_name`, placing every file in `output_directory`.
/// Resolution errors come first; then the first entry that does not render
/// stops the pass.
pub fn plan_project_files(
    store: &TemplateStore,
    project_name: &str,
    runtime: Runtime,
    context: &str,
    output_directory: &str,
) -> (r: Result<Vec<RenderedFile>, ScaffoldError>)
    ensures
        ({
            let g = group_dir(context@, runtime);
            let ms = group_members(*store, context@, runtime);
            let vars = render_vars(project_name@, display_label(runtime));
            &&& ms.len() == 0 ==> r is Err && r->Err_0 is CatalogNotFound
                && r->Err_0->CatalogNotFound_0@ == g
            &&& (ms.len() > 0 && !names_valid(ms, g)) ==> r is Err
                && r->Err_0 is InvalidTemplateName && exists|k: int|
                0 <= k < ms.len() && r->Err_0->InvalidTemplateName_0@ == ms[k].path@
                    && !valid_name(name_in_group(ms[k].path@, g))
                    && names_valid(ms.subrange(0, k), g)
            &&& (ms.len() > 0 && names_valid(ms, g)) ==> {
                &&& r is Ok <==> forall|k: int|
                    0 <= k < ms.len() ==> (#[trigger] render_text(ms[k].body@, vars)) is Some
                &&& r is Ok ==> r->Ok_0@.len() == ms.len() && forall|k: int|
                    0 <= k < ms.len() ==> {
                        &&& (#[trigger] r->Ok_0@[k]).path@ == join_path(
                            output_directory@,
                            name_in_group(ms[k].path@, g),
                        )
                        &&& r->Ok_0@[k].content@ == render_text(ms[k].body@, vars)->0
                    }
                &&& r is Err ==> exists|k: int|
                    0 <= k < ms.len() && render_text(ms[k].body@, vars) is None
                        && (forall|j: int| 0 <= j < k ==> (#[trigger] render_text(ms[j].body@, vars)) is Some)
                        && render_error_matches(r->Err_0, name_in_group(ms[k].path@, g), ms[k].body@, vars)
            }
        }),
{
    let entries = load_templates(store, runtime, context)?;
    let ctx = RenderContext::new(project_name, runtime);
    let r = render_entries(&entries, &ctx, output_directory);
    proof {
        let g = group_dir(context@, runtime);
        let ms = group_members(*store, context@, runtime);
        assert(context_vars(ctx) == render_vars(project_name@, display_label(runtime)));
        assert forall|k: int| 0 <= k < ms.len() implies entry_matches(
            #[trigger] entries@[k],
            ms[k],
            g,
        ) by {}
        if r is Ok {
            assert(renders_to(entries@, ctx, output_directory@, r->Ok_0@));
            assert forall|k: int| 0 <= k < ms.len() implies (#[trigger] render_text(
                ms[k].body@,
                context_vars(ctx),
            )) is Some by {
                assert(file_matches(r->Ok_0@[k], entries@[k], ctx, output_directory@));
            }
        } else {
            let k = choose|k: int|
                0 <= k < entries@.len() && rendered(entries@[k].body@, ctx) is None
                    && all_render(entries@.subrange(0, k), ctx) && render_error_matches(
                    r->Err_0,
                    entries@[k].output_name@,
                    entries@[k].body@,
                    context_vars(ctx),
                );
            assert(entry_matches(entries@[k], ms[k], g));
            assert forall|j: int| 0 <= j < k implies (#[trigger] render_text(
                ms[j].body@,
                context_vars(ctx),
            )) is Some by {
                assert(entries@.subrange(0, k)[j] == entries@[j]);
                assert(rendered(entries@.subrange(0, k)[j].body@, ctx) is Some);
                assert(entry_matches(entries@[j], ms[j], g));
            }
        }
    }
    r
}

} // verus!
