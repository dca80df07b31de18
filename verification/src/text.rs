//! The two questions the library asks of names: does one occur inside
//! another, and which of two comes first in the order of `str`.
use vstd::prelude::*;

verus! {

/// Whether `needle` occurs in `hay` as a run of consecutive characters; the
/// empty sequence occurs in every sequence.
pub open spec fn occurs_in(needle: Seq<char>, hay: Seq<char>) -> bool {
    exists|i: int| 0 <= i && i + needle.len() <= hay.len() && #[trigger] hay.subrange(i, i + needle.len()) == needle
}

/// The order of `str`: lexicographic, comparing characters by their code
/// points, a proper prefix coming first.
pub open spec fn name_less(a: Seq<char>, b: Seq<char>) -> bool
    decreases a.len(),
{
    if b.len() == 0 {
        false
    } else if a.len() == 0 {
        true
    } else if a[0] != b[0] {
        (a[0] as u32) < (b[0] as u32)
    } else {
        name_less(a.drop_first(), b.drop_first())
    }
}

/// No name comes before itself, and of two names at most one comes first.
pub proof fn lemma_name_less_asymmetric(a: Seq<char>, b: Seq<char>)
    ensures
        !(name_less(a, b) && name_less(b, a)),
    decreases a.len(),
{
    if a.len() > 0 && b.len() > 0 && a[0] == b[0] {
        lemma_name_less_asymmetric(a.drop_first(), b.drop_first());
    }
}

/// The order of names is transitive.
pub proof fn lemma_name_less_transitive(a: Seq<char>, b: Seq<char>, c: Seq<char>)
    requires
        name_less(a, b),
        name_less(b, c),
    ensures
        name_less(a, c),
    decreases a.len(),
{
    if a.len() > 0 && b.len() > 0 && c.len() > 0 && a[0] == b[0] && b[0] == c[0] {
        lemma_name_less_transitive(a.drop_first(), b.drop_first(), c.drop_first());
    }
}

/// `str::contains` with a `&str` pattern: whether `needle` occurs in `hay`.
/// Trusted: its documentation says it returns whether the pattern matches a
/// sub-slice of `hay`, and a `&str` pattern matches exactly its own characters.
#[verifier::external_body]
pub(crate) fn str_contains(hay: &str, needle: &str) -> (r: bool)
    ensures
        r == occurs_in(needle@, hay@),
{
    hay.contains(needle)
}

/// `<` on `str` (`PartialOrd::lt`). Trusted: its documentation says strings
/// are ordered lexicographically by their bytes, which in UTF-8 is the order of
/// the characters' code points.
#[verifier::external_body]
pub(crate) fn str_less(a: &str, b: &str) -> (r: bool)
    ensures
        r == name_less(a@, b@),
{
    a < b
}


/// Whether `c` has the Unicode `White_Space` property, which is what
/// `char::is_whitespace` tests.
pub open spec fn is_white_space(c: char) -> bool {
    let n = c as u32;
    (0x9 <= n <= 0xD) || n == 0x20 || n == 0x85 || n == 0xA0 || n == 0x1680 || (0x2000 <= n <= 0x200A)
        || n == 0x2028 || n == 0x2029 || n == 0x202F || n == 0x205F || n == 0x3000
}

/// `t` is `s` without its leading and trailing white space.
pub open spec fn trimmed(s: Seq<char>, t: Seq<char>) -> bool {
    exists|i: int, j: int| {
        &&& 0 <= i <= j <= s.len()
        &&& t == s.subrange(i, j)
        &&& forall|k: int| 0 <= k < i ==> is_white_space(#[trigger] s[k])
        &&& forall|k: int| j <= k < s.len() ==> is_white_space(#[trigger] s[k])
        &&& i < j ==> !is_white_space(s[i]) && !is_white_space(s[j - 1])
    }
}

/// `str::trim`. Trusted: its documentation says it returns the string slice
/// with leading and trailing whitespace removed, whitespace being the
/// characters with the Unicode `White_Space` property.
#[verifier::external_body]
pub(crate) fn str_trim(s: &str) -> (r: &str)
    ensures
        trimmed(s@, r@),
{
    s.trim()
}

} // verus!
