//! Slash-separated paths as plain strings.
use vstd::prelude::*;
use crate::label::{chars_of, last_slash_before};

verus! {

/// The directory holding `p`: `p` without its last component, `/` for a
/// component right under the root, and `None` for the root itself or the
/// empty path.
pub open spec fn parent_of(p: Seq<char>) -> Option<Seq<char>> {
    let k = last_slash_before(p, p.len() as int);
    if p.len() == 0 || p == seq!['/'] {
        None
    } else if k < 0 {
        Some(Seq::empty())
    } else if k == 0 {
        Some(seq!['/'])
    } else {
        Some(p.subrange(0, k))
    }
}

/// `rel` resolved against the directory `base`.
pub open spec fn joined(base: Seq<char>, rel: Seq<char>) -> Seq<char> {
    if rel.len() > 0 && rel[0] == '/' {
        rel
    } else if base.len() == 0 {
        rel
    } else if base.last() == '/' {
        base + rel
    } else {
        base + seq!['/'] + rel
    }
}

proof fn lemma_last_slash_range(s: Seq<char>, i: int)
    requires
        0 <= i <= s.len(),
    ensures
        -1 <= last_slash_before(s, i) < i,
        last_slash_before(s, i) >= 0 ==> s[last_slash_before(s, i)] == '/',
    decreases i,
{
    if i > 0 && s[i - 1] != '/' {
        lemma_last_slash_range(s, i - 1);
    }
}

/// The directory holding `path`; the result is always shorter.
pub fn parent_dir(path: &str) -> (r: Option<String>)
    ensures
        r matches Some(d) ==> parent_of(path@) == Some(d@) && d@.len() < path@.len(),
        r is None <==> parent_of(path@) is None,
{
    proof {
        reveal_strlit("/");
        lemma_last_slash_range(path@, path@.len() as int);
    }
    let cs = chars_of(path);
    let n = cs.len();
    if n == 0 || (n == 1 && cs[0] == '/') {
        assert(n == 1 && cs[0] == '/' ==> path@ =~= seq!['/']);
        return None;
    }
    assert(path@ != seq!['/']) by {
        if path@ == seq!['/'] {
            assert(path@.len() == 1 && path@[0] == '/');
        }
    }
    assert(cs@.subrange(0, n as int) =~= path@);
    match crate::label::last_slash_in(&cs, 0, n) {
        None => Some(String::new()),
        Some(0) => Some("/".to_owned()),
        Some(k) => Some(path.substring_char(0, k).to_owned()),
    }
}

/// `rel` resolved against the directory `base`: `rel` itself where it is
/// absolute or `base` is empty, else the two joined by one `/`.
pub fn join_path(base: &str, rel: &str) -> (r: String)
    ensures
        r@ == joined(base@, rel@),
{
    proof {
        reveal_strlit("/");
    }
    let rn = rel.unicode_len();
    if rn > 0 && rel.get_char(0) == '/' {
        return rel.to_owned();
    }
    let bn = base.unicode_len();
    if bn == 0 {
        return rel.to_owned();
    }
    let mut out = base.to_owned();
    if base.get_char(bn - 1) != '/' {
        out.append("/");
    }
    out.append(rel);
    out
}

} // verus!
