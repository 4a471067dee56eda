use vstd::prelude::*;

verus! {

/// The path separator.
pub open spec fn separator() -> char {
    '/'
}

/// The path reached from `base` by `component`, as a path is extended on Unix:
/// an absolute component replaces the path; otherwise it is appended, after a
/// separator unless the path is empty or already ends with one.
pub open spec fn spec_join(base: Seq<char>, component: Seq<char>) -> Seq<char> {
    if component.len() > 0 && component[0] == separator() {
        component
    } else if base.len() == 0 || base.last() == separator() {
        base + component
    } else {
        base + seq![separator()] + component
    }
}

/// A non-empty component is always the end of the joined path.
pub proof fn lemma_join_ends_with(base: Seq<char>, component: Seq<char>)
    requires
        component.len() > 0,
    ensures
        component.is_suffix_of(spec_join(base, component)),
{
    let j = spec_join(base, component);
    assert(j.subrange(j.len() - component.len(), j.len() as int) =~= component);
}

/// Extends the path `base` by `component`.
pub fn join_path(base: &str, component: &str) -> (joined: String)
    ensures
        joined@ == spec_join(base@, component@),
{
    let clen = component.unicode_len();
    if clen > 0 && component.get_char(0) == '/' {
        return component.to_string();
    }
    let blen = base.unicode_len();
    let mut joined = base.to_string();
    if !(blen == 0 || base.get_char(blen - 1) == '/') {
        joined.append("/");
        proof {
            reveal_strlit("/");
        }
    }
    joined.append(component);
    joined
}

} // verus!
