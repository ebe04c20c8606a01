//! Calls into outside crates. Each wrapper states only what the called
//! function's documentation promises.
use vstd::prelude::*;
use rand::seq::SliceRandom;

verus! {

/// Relies on rand's `SliceRandom::shuffle` (with the thread-local generator
/// `rand::rng`): it permutes the elements in place, uniformly at random.
#[verifier::external_body]
pub(crate) fn shuffle_in_place(v: &mut Vec<usize>)
    ensures
        final(v)@.to_multiset() == old(v)@.to_multiset(),
{
    v.shuffle(&mut rand::rng());
}

/// Relies on `rand::random_range` over `0..len`: a value in that range,
/// uniformly at random. It panics on an empty range, hence the `requires`.
#[verifier::external_body]
pub(crate) fn random_below(len: usize) -> (r: usize)
    requires
        len > 0,
    ensures
        r < len,
{
    rand::random_range(0..len)
}

/// The text `text` with every match of `word` replaced by `by`, as
/// `str::replace` computes it: matches are taken left to right without
/// overlapping; an empty `word` matches at every character boundary,
/// including both ends.
pub open spec fn replaced(text: Seq<char>, word: Seq<char>, by: Seq<char>) -> Seq<char>
    decreases text.len(),
{
    if word.len() == 0 {
        if text.len() == 0 {
            by
        } else {
            by + seq![text[0]] + replaced(text.drop_first(), word, by)
        }
    } else if text.len() < word.len() {
        text
    } else if text.subrange(0, word.len() as int) == word {
        by + replaced(text.subrange(word.len() as int, text.len() as int), word, by)
    } else {
        seq![text[0]] + replaced(text.drop_first(), word, by)
    }
}

/// `text` without its leading and trailing white space, as `str::trim`
/// computes it.
pub uninterp spec fn trimmed(text: Seq<char>) -> Seq<char>;

/// `word` occurs in `text` as a run of consecutive characters.
pub open spec fn occurs_in(text: Seq<char>, word: Seq<char>) -> bool {
    exists|i: int| 0 <= i && i + word.len() <= text.len() && #[trigger] text.subrange(i, i + word.len()) == word
}

/// Relies on `str::contains` with a `&str` pattern: true exactly when the
/// pattern matches a sub-slice of the text.
#[verifier::external_body]
pub(crate) fn text_contains(text: &str, word: &str) -> (r: bool)
    ensures
        r == occurs_in(text@, word@),
{
    text.contains(word)
}

/// Relies on `str::replace` with a `&str` pattern: every match, found left
/// to right without overlap, replaced (see [`replaced`]).
#[verifier::external_body]
pub(crate) fn replace_all(text: &str, word: &str, by: &str) -> (r: String)
    ensures
        r@ == replaced(text@, word@, by@),
{
    text.replace(word, by)
}

/// Relies on `str::trim`: the text without leading and trailing white
/// space; the result depends on the text alone, and an empty text stays
/// empty.
#[verifier::external_body]
pub(crate) fn trim_text(text: &str) -> (r: &str)
    ensures
        r@ == trimmed(text@),
        text@.len() == 0 ==> r@.len() == 0,
{
    text.trim()
}

/// Whether `c` is alphabetic or numeric, as `char::is_alphanumeric` decides
/// it from the Unicode tables.
pub uninterp spec fn alphanumeric(c: char) -> bool;

/// Relies on `char::is_alphanumeric`: the answer depends on the character
/// alone; ASCII letters and digits qualify.
#[verifier::external_body]
pub(crate) fn is_alphanumeric(c: char) -> (r: bool)
    ensures
        r == alphanumeric(c),
        ('a' <= c <= 'z') || ('A' <= c <= 'Z') || ('0' <= c <= '9') ==> r,
{
    c.is_alphanumeric()
}

/// Relies on `String::from_iter` over characters: the string of those
/// characters, in order.
#[verifier::external_body]
pub(crate) fn string_from_chars(chars: Vec<char>) -> (r: String)
    ensures
        r@ == chars@,
{
    String::from_iter(chars)
}

} // verus!
