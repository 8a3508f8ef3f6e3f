use vstd::prelude::*;

verus! {

/// Tells whether two pieces of text hold the same characters.
pub fn same_text(a: &str, b: &str) -> (r: bool)
    ensures
        r == (a@ == b@),
{
    let a_owned = a.to_owned();
    let b_owned = b.to_owned();
    a_owned == b_owned
}

/// Appends one character to a string: `String::push` of std, which adds the
/// character at the end and leaves the characters before it as they were.
#[verifier::external_body]
fn push_char(s: &mut String, c: char)
    ensures
        final(s)@ == old(s)@.push(c),
{
    s.push(c);
}

/// The character that stands for `c` in a path handed to GDB, which wants
/// forward slashes on every platform.
pub open spec fn forward_slash(c: char) -> char {
    if c == '\\' {
        '/'
    } else {
        c
    }
}

/// `s` with each backslash replaced by a forward slash.
pub open spec fn with_forward_slashes(s: Seq<char>) -> Seq<char> {
    s.map_values(|c: char| forward_slash(c))
}

/// Replaces every backslash of `path` by a forward slash and keeps every
/// other character.
pub fn to_forward_slashes(path: &str) -> (r: String)
    ensures
        r@ == with_forward_slashes(path@),
        r@.len() == path@.len(),
        forall|i: int| 0 <= i < path@.len() ==> #[trigger] r@[i] == if path@[i] == '\\' {
            '/'
        } else {
            path@[i]
        },
{
    broadcast use vstd::string::group_string_axioms;
    let mut out = String::new();
    for c in it: path.chars()
        invariant
            it.seq() == path@,
            out@ == with_forward_slashes(path@.take(it.index() as int)),
    {
        assert(path@.take(it.index() + 1) == path@.take(it.index() as int).push(c));
        if c == '\\' {
            push_char(&mut out, '/');
        } else {
            push_char(&mut out, c);
        }
    }
    assert(path@.take(path@.len() as int) == path@);
    out
}

/// A path in forward slashes holds no backslash, and has as many characters
/// as the path it was made from.
pub proof fn law_forward_slashes_leave_no_backslash(s: Seq<char>)
    ensures
        !with_forward_slashes(s).contains('\\'),
        with_forward_slashes(s).len() == s.len(),
{
}

/// Turning a path into forward slashes a second time changes nothing.
pub proof fn law_forward_slashes_idempotent(s: Seq<char>)
    ensures
        with_forward_slashes(with_forward_slashes(s)) == with_forward_slashes(s),
{
    assert(with_forward_slashes(with_forward_slashes(s)) =~= with_forward_slashes(s));
}

/// Turning a path into forward slashes turns each backslash into a forward
/// slash and keeps every other character where it stands.
pub proof fn law_forward_slashes_replace_only_backslashes(s: Seq<char>)
    ensures
        with_forward_slashes(s).len() == s.len(),
        forall|i: int| 0 <= i < s.len() && s[i] == '\\' ==> #[trigger] with_forward_slashes(s)[i] == '/',
        forall|i: int| 0 <= i < s.len() && s[i] != '\\' ==> #[trigger] with_forward_slashes(s)[i] == s[i],
{
}
} // verus!
