//! Text primitives: substring containment, upper-casing, and the search for
//! a dollar term.

use vstd::prelude::*;

verus! {

/// `needle` occurs in `hay` as a contiguous run of characters.
pub open spec fn seq_contains(hay: Seq<char>, needle: Seq<char>) -> bool {
    exists|i: int|
        0 <= i && i + needle.len() <= hay.len() && #[trigger] hay.subrange(i, i + needle.len())
            == needle
}

/// What `str::to_uppercase` makes of a text: the Unicode upper-case mapping
/// of each character, which depends on the text alone.
pub uninterp spec fn upper_of(s: Seq<char>) -> Seq<char>;

/// The pattern that marks a dollar-denominated line: any of three literals.
pub open spec fn dollar_pattern() -> Seq<char> {
    "DOLLAR|USD|\\$"@
}

/// The text names dollars: it holds `DOLLAR`, `USD` or `$`.
pub open spec fn has_dollar_term(s: Seq<char>) -> bool {
    seq_contains(s, "DOLLAR"@) || seq_contains(s, "USD"@) || seq_contains(s, "$"@)
}

/// Relies on `str::to_uppercase`: the result depends on the characters alone.
#[verifier::external_body]
pub(crate) fn to_upper(s: &str) -> (r: String)
    ensures
        r@ == upper_of(s@),
{
    s.to_uppercase()
}

/// Relies on `str::contains` with a `&str` pattern: true exactly when
/// `needle` is a substring of `hay`.
#[verifier::external_body]
pub(crate) fn str_contains(hay: &str, needle: &str) -> (r: bool)
    ensures
        r == seq_contains(hay@, needle@),
{
    hay.contains(needle)
}

/// Relies on `regex::Regex::new` and `regex::Regex::is_match`. The pattern
/// `DOLLAR|USD|\$` is a valid alternation of three literals (`\$` is an
/// escaped dollar sign), so it compiles, and `is_match` reports whether any
/// of the three occurs anywhere in the haystack.
#[verifier::external_body]
pub(crate) fn regex_is_match(pattern: &str, hay: &str) -> (r: bool)
    requires
        pattern@ == dollar_pattern(),
    ensures
        r == has_dollar_term(hay@),
{
    regex::Regex::new(pattern).map_or(false, |re| re.is_match(hay))
}

} // verus!
