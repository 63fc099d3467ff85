use vstd::prelude::*;

verus! {

/// `needle` occurs somewhere in `hay` as a contiguous run of characters.
pub open spec fn spec_contains_substring(hay: Seq<char>, needle: Seq<char>) -> bool {
    exists|i: int|
        0 <= i && i + needle.len() <= hay.len() && #[trigger] hay.subrange(i, i + needle.len())
            == needle
}

/// Relies on str::contains with a string pattern: true exactly when the
/// pattern occurs as a contiguous substring. UTF-8 is self-synchronizing, so
/// byte-level occurrence and character-level occurrence coincide.
#[verifier::external_body]
pub(crate) fn str_contains(hay: &str, needle: &str) -> (r: bool)
    ensures
        r == spec_contains_substring(hay@, needle@),
{
    hay.contains(needle)
}

/// Relies on str::starts_with with a string pattern: true exactly when the
/// pattern is a prefix of the string.
#[verifier::external_body]
pub(crate) fn str_starts_with(hay: &str, prefix: &str) -> (r: bool)
    ensures
        r == prefix@.is_prefix_of(hay@),
{
    hay.starts_with(prefix)
}

/// Relies on str's PartialEq: string slices are equal exactly when their
/// character sequences are.
#[verifier::external_body]
pub(crate) fn str_eq(a: &str, b: &str) -> (r: bool)
    ensures
        r == (a@ == b@),
{
    a == b
}

} // verus!
