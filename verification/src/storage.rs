//! The persisted form of the remaining seconds: one decimal numeral under one
//! key. Reading and writing the store is the caller's business; what to make
//! of the stored text, and what text to store, is decided here.

use crate::config::INITIAL_SECONDS;
use crate::text::{
    chars_of, decimal_digits, lemma_decimal_digits_value, parse_u32, parse_u32_spec, push_decimal,
};
use vstd::prelude::*;

verus! {

/// The key under which the remaining seconds are stored.
pub fn storage_key() -> (key: &'static str)
    ensures
        key@ == "countdown_timer_remaining_seconds"@,
{
    "countdown_timer_remaining_seconds"
}

/// The seconds to start from, given what the store holds under the key: the
/// stored number where there is one and it reads as a `u32`, the configured
/// start value otherwise.
pub open spec fn stored_seconds(stored: Option<Seq<char>>) -> u32 {
    match stored {
        Some(text) => match parse_u32_spec(text) {
            Some(seconds) => seconds,
            None => INITIAL_SECONDS as u32,
        },
        None => INITIAL_SECONDS as u32,
    }
}

/// The view of an optional stored text.
pub open spec fn stored_view(stored: Option<&str>) -> Option<Seq<char>> {
    match stored {
        Some(text) => Some(text@),
        None => None,
    }
}

/// Decides the seconds to start from, from the text found in the store.
pub fn load_remaining_seconds(stored: Option<&str>) -> (seconds: u32)
    ensures
        seconds == stored_seconds(stored_view(stored)),
{
    match stored {
        Some(text) => {
            let chars = chars_of(text);
            assert(chars@.subrange(0, chars@.len() as int) =~= text@);
            match parse_u32(&chars, 0, chars.len()) {
                Some(seconds) => seconds,
                None => INITIAL_SECONDS as u32,
            }
        },
        None => INITIAL_SECONDS as u32,
    }
}

/// The remaining time to start from, given what the store holds: the stored
/// seconds, or the configured start value where they are more than a
/// remaining time can hold.
pub open spec fn startup_seconds_spec(stored: Option<Seq<char>>) -> i32 {
    if stored_seconds(stored) <= i32::MAX {
        stored_seconds(stored) as i32
    } else {
        INITIAL_SECONDS
    }
}

/// Decides the remaining time to start from, from the text found in the
/// store.
pub fn startup_seconds(stored: Option<&str>) -> (remaining: i32)
    ensures
        remaining == startup_seconds_spec(stored_view(stored)),
        remaining >= 0,
{
    let seconds = load_remaining_seconds(stored);
    if seconds <= 0x7fff_ffff {
        seconds as i32
    } else {
        INITIAL_SECONDS
    }
}

/// Gives the text to put in the store for `seconds`.
pub fn save_remaining_seconds(seconds: u32) -> (text: String)
    ensures
        text@ == decimal_digits(seconds as nat),
{
    let mut text = String::new();
    push_decimal(&mut text, seconds);
    assert(text@ =~= decimal_digits(seconds as nat));
    text
}

/// What was saved is what is loaded: the text stored for `seconds` reads
/// back as `seconds`.
pub proof fn lemma_save_then_load(seconds: u32)
    ensures
        stored_seconds(Some(decimal_digits(seconds as nat))) == seconds,
{
    lemma_decimal_digits_value(seconds as nat);
}

} // verus!
