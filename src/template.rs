//! The template language this library renders: text with plain variable
//! tags `{{name}}`, a name being ASCII letters, digits and `_`. Blocks,
//! partials, comments, helper arguments and triple braces fall outside it.
use vstd::prelude::*;
use vstd::string::StrSliceExecFns;

verus! {

/// A character that may stand in a variable name.
pub open spec fn is_name_char(c: char) -> bool {
    ('a' <= c && c <= 'z') || ('A' <= c && c <= 'Z') || ('0' <= c && c <= '9') || c == '_'
}

/// The first index at or after `i` that does not hold a name character.
pub open spec fn name_end(s: Seq<char>, i: int) -> int
    decreases s.len() - i,
{
    if 0 <= i < s.len() && is_name_char(s[i]) {
        name_end(s, i + 1)
    } else {
        i
    }
}

/// Every `{{` in `s` opens a tag `{{name}}` with a non-empty name.
pub open spec fn plain_template(s: Seq<char>) -> bool
    decreases s.len(),
{
    if s.len() == 0 {
        true
    } else if s.len() >= 2 && s[0] == '{' && s[1] == '{' {
        let j = name_end(s, 2);
        &&& 2 < j
        &&& j + 1 < s.len()
        &&& s[j] == '}'
        &&& s[j + 1] == '}'
        &&& plain_template(s.subrange(j + 2, s.len() as int))
    } else {
        plain_template(s.drop_first())
    }
}

proof fn lemma_name_end(s: Seq<char>, k: int, e: int)
    requires
        0 <= k <= e <= s.len(),
        forall|m: int| k <= m < e ==> is_name_char(s[m]),
        e == s.len() || !is_name_char(s[e]),
    ensures
        name_end(s, k) == e,
    decreases e - k,
{
    if k < e {
        lemma_name_end(s, k + 1, e);
    }
}

fn is_name_char_exec(c: char) -> (r: bool)
    ensures
        r == is_name_char(c),
{
    ('a' <= c && c <= 'z') || ('A' <= c && c <= 'Z') || ('0' <= c && c <= '9') || c == '_'
}

/// Whether `body` uses no template feature beyond plain variable tags.
pub fn is_plain_template(body: &str) -> (r: bool)
    ensures
        r == plain_template(body@),
{
    let n = body.unicode_len();
    let ghost s = body@;
    let mut i: usize = 0;
    assert(s.subrange(0, n as int) =~= s);
    while i < n
        invariant
            i <= n,
            n == s.len(),
            s == body@,
            plain_template(s) == plain_template(s.subrange(i as int, n as int)),
        decreases n - i,
    {
        let ghost t = s.subrange(i as int, n as int);
        if i + 1 < n && body.get_char(i) == '{' && body.get_char(i + 1) == '{' {
            let mut j: usize = i + 2;
            while j < n && is_name_char_exec(body.get_char(j))
                invariant
                    i + 2 <= j <= n,
                    n == s.len(),
                    s == body@,
                    forall|m: int| i + 2 <= m < j ==> is_name_char(s[m]),
                decreases n - j,
            {
                j = j + 1;
            }
            proof {
                lemma_name_end(t, 2, j - i);
            }
            if j == i + 2 || j >= n - 1 {
                return false;
            }
            if body.get_char(j) != '}' || body.get_char(j + 1) != '}' {
                return false;
            }
            proof {
                assert(t.subrange(j - i + 2, t.len() as int) =~= s.subrange(j + 2, n as int));
            }
            i = j + 2;
        } else {
            proof {
                assert(t.drop_first() =~= s.subrange(i + 1, n as int));
            }
            i = i + 1;
        }
    }
    proof {
        assert(s.subrange(n as int, n as int) =~= Seq::<char>::empty());
    }
    true
}

} // verus!
