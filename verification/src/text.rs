//! The few operations on text that this library takes from `std` and for
//! which Verus has no specification.
//!
//! Each function here calls one method of `str`. None of the contracts is
//! proved: they restate what the documentation of `std` says. Where the
//! result is settled by rules of Unicode, it is only given a name.

use vstd::prelude::*;

verus! {

/// A text without the white space at its start and at its end, as
/// `str::trim` gives it.
pub uninterp spec fn trimmed(text: Seq<char>) -> Seq<char>;

/// A text in lower case, as `str::to_lowercase` gives it.
pub uninterp spec fn lowercase(text: Seq<char>) -> Seq<char>;

/// The lines of a text, as `str::lines` gives them: without their line
/// endings, and without an empty last line.
pub uninterp spec fn lines_of(text: Seq<char>) -> Seq<Seq<char>>;

/// A text with every occurrence of `from` replaced by `to`, as
/// `str::replace` gives it.
pub uninterp spec fn replaced(text: Seq<char>, from: Seq<char>, to: Seq<char>) -> Seq<char>;

/// The parts of a text between the occurrences of `at`, as `str::split`
/// gives them.
pub uninterp spec fn split_at(text: Seq<char>, at: char) -> Seq<Seq<char>>;

/// `text` begins with `prefix`.
pub open spec fn has_prefix(text: Seq<char>, prefix: Seq<char>) -> bool {
    prefix.len() <= text.len() && text.subrange(0, prefix.len() as int) == prefix
}

/// `pattern` stands somewhere in `text`.
pub open spec fn occurs_in(text: Seq<char>, pattern: Seq<char>) -> bool {
    exists|i: int|
        0 <= i <= text.len() - pattern.len() && #[trigger] text.subrange(i, i + pattern.len())
            == pattern
}

/// A list of texts, each as a sequence of characters.
pub open spec fn texts(list: Seq<String>) -> Seq<Seq<char>> {
    list.map_values(|s: String| s@)
}

/// `str::trim`: the text between leading and trailing white space.
#[verifier::external_body]
pub(crate) fn trim_text(text: &str) -> (r: &str)
    ensures
        r@ == trimmed(text@),
{
    text.trim()
}

/// `str::to_lowercase`: the text with every character in lower case, by
/// the rules of Unicode.
#[verifier::external_body]
pub(crate) fn to_lowercase(text: &str) -> (r: String)
    ensures
        r@ == lowercase(text@),
{
    text.to_lowercase()
}

/// `str::contains` with a string as pattern: whether the pattern stands
/// somewhere in the text.
#[verifier::external_body]
pub(crate) fn contains_text(text: &str, pattern: &str) -> (r: bool)
    ensures
        r == occurs_in(text@, pattern@),
{
    text.contains(pattern)
}

/// `str::starts_with` with a string as pattern: whether the text begins
/// with it.
#[verifier::external_body]
pub(crate) fn starts_with_text(text: &str, prefix: &str) -> (r: bool)
    ensures
        r == has_prefix(text@, prefix@),
{
    text.starts_with(prefix)
}

/// `str::lines`: the lines of the text, in order.
#[verifier::external_body]
pub(crate) fn lines_of_text(text: &str) -> (r: Vec<String>)
    ensures
        texts(r@) == lines_of(text@),
{
    text.lines().map(String::from).collect()
}

/// `str::replace` with strings as pattern and replacement.
#[verifier::external_body]
pub(crate) fn replace_text(text: &str, from: &str, to: &str) -> (r: String)
    ensures
        r@ == replaced(text@, from@, to@),
{
    text.replace(from, to)
}

/// `str::split` with a character as pattern: the parts of the text between
/// its occurrences, in order.
#[verifier::external_body]
pub(crate) fn split_text(text: &str, at: char) -> (r: Vec<String>)
    ensures
        texts(r@) == split_at(text@, at),
{
    text.split(at).map(String::from).collect()
}

} // verus!
