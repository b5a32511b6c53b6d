//! The few operations on text that the library takes from the standard
//! library, with the meaning it gives them.

use vstd::prelude::*;
use vstd::string::StringExecFns;

verus! {

/// Whether `c` is white space: one of the 25 characters that Unicode gives
/// the property `White_Space`.
pub open spec fn is_white_space(c: char) -> bool {
    let code = c as u32;
    ||| 0x09 <= code <= 0x0d
    ||| code == 0x20
    ||| code == 0x85
    ||| code == 0xa0
    ||| code == 0x1680
    ||| 0x2000 <= code <= 0x200a
    ||| code == 0x2028
    ||| code == 0x2029
    ||| code == 0x202f
    ||| code == 0x205f
    ||| code == 0x3000
}

/// `text` without the white space at its start.
pub open spec fn without_leading_space(text: Seq<char>) -> Seq<char>
    decreases text.len(),
{
    if text.len() > 0 && is_white_space(text.first()) {
        without_leading_space(text.drop_first())
    } else {
        text
    }
}

/// `text` without the white space at its end.
pub open spec fn without_trailing_space(text: Seq<char>) -> Seq<char>
    decreases text.len(),
{
    if text.len() > 0 && is_white_space(text.last()) {
        without_trailing_space(text.drop_last())
    } else {
        text
    }
}

/// `text` without the white space at its start and at its end.
pub open spec fn trimmed(text: Seq<char>) -> Seq<char> {
    without_trailing_space(without_leading_space(text))
}

/// The lower-case form of `text`, as `str::to_lowercase` returns it.
pub uninterp spec fn lowercased(text: Seq<char>) -> Seq<char>;

/// Whether `text` is empty or holds nothing but whitespace.
pub open spec fn is_blank(text: Seq<char>) -> bool {
    trimmed(text).len() == 0
}

/// `str::eq` compares two texts character by character.
pub assume_specification[ <str as PartialEq>::eq ](a: &str, b: &str) -> (same: bool)
    ensures
        same == (a@ == b@),
;

/// `str::trim` returns the sub-slice of `text` that is left when leading and
/// trailing white space is removed, where white space is what Unicode gives
/// the property `White_Space`.
pub assume_specification<'a>[ str::trim ](text: &'a str) -> (inner: &'a str)
    ensures
        inner@ == trimmed(text@),
;

/// `str::to_lowercase` returns a new string with each character of `text`
/// replaced by its lower-case form; the contract only gives that result its
/// name.
pub assume_specification[ str::to_lowercase ](text: &str) -> (lower: String)
    ensures
        lower@ == lowercased(text@),
;

/// Tells whether `text` is empty or holds nothing but whitespace.
pub fn blank(text: &str) -> (b: bool)
    ensures
        b == is_blank(text@),
{
    text.trim().is_empty()
}

/// `text` trimmed and in lower case: the form in which configured names are
/// compared.
pub fn normalized(text: &str) -> (name: String)
    ensures
        name@ == lowercased(trimmed(text@)),
{
    text.trim().to_lowercase()
}

/// `text` with every occurrence of `from` replaced by `to`, as
/// `str::replace` returns it.
pub uninterp spec fn replaced(text: Seq<char>, from: Seq<char>, to: Seq<char>) -> Seq<char>;

/// `text` without the run of `c` at its end.
pub open spec fn strip_trailing(text: Seq<char>, c: char) -> Seq<char>
    decreases text.len(),
{
    if text.len() > 0 && text.last() == c {
        strip_trailing(text.drop_last(), c)
    } else {
        text
    }
}

/// `str::replace` with a string pattern: a new string in which every
/// non-overlapping match of `from` in `text` is replaced by `to`; the
/// contract only gives that result its name.
#[verifier::external_body]
pub(crate) fn replace_all(text: &str, from: &str, to: &str) -> (changed: String)
    ensures
        changed@ == replaced(text@, from@, to@),
{
    text.replace(from, to)
}

/// `str::trim_end_matches` with a character pattern: the sub-slice of `text`
/// that is left when the character is removed from the end for as long as
/// it stands there.
#[verifier::external_body]
pub(crate) fn trim_trailing(text: &str, c: char) -> (inner: &str)
    ensures
        inner@ == strip_trailing(text@, c),
{
    text.trim_end_matches(c)
}

/// Appends `tail` to `head`.
pub fn join(head: &str, tail: &str) -> (whole: String)
    ensures
        whole@ == head@ + tail@,
{
    head.to_string().concat(tail)
}

/// Puts `middle` between `head` and `tail`.
pub fn enclose(head: &str, middle: &str, tail: &str) -> (whole: String)
    ensures
        whole@ == head@ + middle@ + tail@,
{
    head.to_string().concat(middle).concat(tail)
}

/// Whether `pattern` stands in `text` from position `at` on.
pub open spec fn occurs_at(text: Seq<char>, pattern: Seq<char>, at: int) -> bool {
    0 <= at && at + pattern.len() <= text.len() && text.subrange(at, at + pattern.len())
        == pattern
}

/// Whether `pattern` stands somewhere in `text`.
pub open spec fn has_substring(text: Seq<char>, pattern: Seq<char>) -> bool {
    exists|at: int| occurs_at(text, pattern, at)
}

/// `str::contains` with a string pattern: whether `pattern` matches a
/// sub-slice of `text`.
#[verifier::external_body]
pub(crate) fn contains_text(text: &str, pattern: &str) -> (found: bool)
    ensures
        found == has_substring(text@, pattern@),
{
    text.contains(pattern)
}

/// Text that holds nothing but white space is blank, and so is the empty
/// text.
pub proof fn lemma_white_space_is_blank(text: Seq<char>)
    requires
        forall|i: int| 0 <= i < text.len() ==> is_white_space(#[trigger] text[i]),
    ensures
        is_blank(text),
        trimmed(text) == Seq::<char>::empty(),
    decreases text.len(),
{
    if text.len() > 0 {
        let rest = text.drop_first();
        assert forall|i: int| 0 <= i < rest.len() implies is_white_space(#[trigger] rest[i]) by {
            assert(rest[i] == text[i + 1]);
        }
        lemma_white_space_is_blank(rest);
    } else {
        assert(text == Seq::<char>::empty());
    }
}

/// Text that neither starts nor ends in white space is trimmed already.
pub proof fn lemma_trimmed_text_stays(text: Seq<char>)
    requires
        text.len() > 0,
        !is_white_space(text.first()),
        !is_white_space(text.last()),
    ensures
        trimmed(text) == text,
        !is_blank(text),
{
}

} // verus!
