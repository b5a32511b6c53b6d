//! Reading of stored interface state.

use vstd::prelude::*;
use crate::store::{str_view, text_view};
use crate::text::{lowercased, normalized, trimmed};

verus! {

/// What a trimmed, lower-case word says about a switch: `1`, `true`, `yes`
/// and `on` say that it is on, `0`, `false`, `no` and `off` that it is off,
/// and any other word says nothing.
pub open spec fn switch_named(word: Seq<char>) -> Option<bool> {
    if word == "1"@ || word == "true"@ || word == "yes"@ || word == "on"@ {
        Some(true)
    } else if word == "0"@ || word == "false"@ || word == "no"@ || word == "off"@ {
        Some(false)
    } else {
        None
    }
}

/// Reads a trimmed, lower-case word as a switch.
pub fn switch_from_word(word: &str) -> (switch: Option<bool>)
    ensures
        switch == switch_named(word@),
{
    if *word == *"1" || *word == *"true" || *word == *"yes" || *word == *"on" {
        Some(true)
    } else if *word == *"0" || *word == *"false" || *word == *"no" || *word == *"off" {
        Some(false)
    } else {
        None
    }
}

/// Reads a stored value as a switch, whatever its case and the whitespace
/// around it; a value that says nothing gives `fallback`.
pub fn parse_bool(value: &str, fallback: bool) -> (switch: bool)
    ensures
        switch == match switch_named(lowercased(trimmed(value@))) {
            Some(said) => said,
            None => fallback,
        },
{
    let word = normalized(value);
    match switch_from_word(word.as_str()) {
        Some(said) => said,
        None => fallback,
    }
}

/// The conversation that was open last: the stored identifier, unless
/// nothing or nothing but the empty text was stored.
pub fn active_conversation(stored: Option<String>) -> (active: Option<String>)
    ensures
        text_view(active) == match stored {
            Some(id) => if id@.len() > 0 {
                Some(id@)
            } else {
                None
            },
            None => None,
        },
{
    match stored {
        Some(id) => if id.as_str().is_empty() {
            None
        } else {
            Some(id)
        },
        None => None,
    }
}

/// Whether the history was collapsed last: what the stored value says as a
/// switch, and not collapsed where nothing was stored or it says nothing.
pub fn history_collapsed(stored: Option<&str>) -> (collapsed: bool)
    ensures
        collapsed == match str_view(stored) {
            Some(value) => switch_named(lowercased(trimmed(value))) == Some(true),
            None => false,
        },
{
    match stored {
        Some(value) => parse_bool(value, false),
        None => false,
    }
}

/// The value that is stored for a switch: `1` for on, `0` for off.
pub fn switch_word(on: bool) -> (word: &'static str)
    ensures
        word@ == if on {
            "1"@
        } else {
            "0"@
        },
{
    if on {
        "1"
    } else {
        "0"
    }
}

} // verus!
