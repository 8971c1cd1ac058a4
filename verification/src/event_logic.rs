//! What a click resets, and how typed time text is tidied and validated.

use crate::config::INITIAL_SECONDS;
use crate::text::{
    chars_of, decimal_digits, decimal_value, digit_char, digit_of, digit_str, find_char, find_from,
    is_digit, is_digit_char, is_numeral, is_whitespace, parse_i32, parse_i32_spec, trim,
    trim_bounds, trim_end_index, trim_start_index,
};
use crate::time_format::{format_time_spec, two_digits};
use vstd::prelude::*;
use vstd::string::StringExecFns;

verus! {

/// What a click on the timer display resets.
#[derive(Clone, Copy, Debug, PartialEq, Eq)]
pub struct ClickResult {
    /// Remaining seconds after the reset.
    pub reset_remaining: i32,
    /// Whether a running blink schedule has to be cancelled.
    pub should_cancel_blink: bool,
    /// Blinking flag after the click: always off.
    pub is_blinking: bool,
    /// Visibility after the click: always on.
    pub is_visible: bool,
}

/// The seconds a reset goes back to: the custom target where one is set, the
/// configured start value otherwise.
pub open spec fn reset_value(reset_time: Option<i32>) -> i32 {
    match reset_time {
        Some(target) => target,
        None => INITIAL_SECONDS,
    }
}

/// Decides what a click does. The timer always goes back to its reset value
/// and the alert is always cleared; the blink schedule needs cancelling
/// exactly when it was running. The current remaining time plays no part.
pub fn handle_click(_current_remaining: i32, is_blinking: bool, reset_time: Option<i32>) -> (result:
    ClickResult)
    ensures
        result.reset_remaining == reset_value(reset_time),
        result.should_cancel_blink == is_blinking,
        result.is_blinking == false,
        result.is_visible == true,
{
    let reset_remaining = match reset_time {
        Some(target) => target,
        None => INITIAL_SECONDS,
    };
    ClickResult {
        reset_remaining,
        should_cancel_blink: is_blinking,
        is_blinking: false,
        is_visible: true,
    }
}

/// The digits of `raw`, in order, everything else dropped.
pub open spec fn digits_of(raw: Seq<char>) -> Seq<char> {
    raw.filter(|c: char| is_digit(c))
}

/// The text shown while a time is being typed: up to two digits stay as they
/// are; three are split after the first, four after the second; digits past
/// the fourth are dropped.
pub open spec fn format_time_input_spec(raw: Seq<char>) -> Seq<char> {
    let digits = digits_of(raw);
    if digits.len() <= 2 {
        digits
    } else if digits.len() == 3 {
        digits.take(1) + seq![':'] + digits.skip(1)
    } else {
        digits.take(2) + seq![':'] + digits.subrange(2, 4)
    }
}

/// Appends the digits of `digits` from `from` up to `to` to `out`.
fn push_digits(out: &mut String, digits: &Vec<char>, from: usize, to: usize)
    requires
        from <= to <= digits@.len(),
        forall|i: int| 0 <= i < digits@.len() ==> is_digit(#[trigger] digits@[i]),
    ensures
        final(out)@ == old(out)@ + digits@.subrange(from as int, to as int),
{
    let mut i: usize = from;
    assert(out@ =~= old(out)@ + digits@.subrange(from as int, i as int));
    while i < to
        invariant
            from <= i <= to <= digits@.len(),
            forall|k: int| 0 <= k < digits@.len() ==> is_digit(#[trigger] digits@[k]),
            out@ == old(out)@ + digits@.subrange(from as int, i as int),
        decreases to - i,
    {
        out.append(digit_str(digit_of(digits[i])));
        i = i + 1;
        assert(out@ =~= old(out)@ + digits@.subrange(from as int, i as int));
    }
}

/// Rewrites text typed into the time field: keeps the digits only and puts
/// the colon where it belongs.
pub fn format_time_input(value: &str) -> (text: String)
    ensures
        text@ == format_time_input_spec(value@),
{
    let raw = chars_of(value);
    let mut digits: Vec<char> = Vec::new();
    let mut i: usize = 0;
    proof {
        reveal(Seq::filter);
        assert(raw@.take(0) =~= Seq::<char>::empty());
    }
    while i < raw.len()
        invariant
            i <= raw@.len(),
            digits@ == digits_of(raw@.take(i as int)),
            forall|k: int| 0 <= k < digits@.len() ==> is_digit(#[trigger] digits@[k]),
        decreases raw@.len() - i,
    {
        let c = raw[i];
        proof {
            reveal(Seq::filter);
            assert(raw@.take(i + 1).drop_last() =~= raw@.take(i as int));
            assert(raw@.take(i + 1).last() == c);
        }
        if is_digit_char(c) {
            digits.push(c);
        }
        i = i + 1;
    }
    assert(raw@.take(i as int) =~= raw@);
    proof {
        reveal_strlit(":");
    }
    let mut text = String::new();
    let n = digits.len();
    if n <= 2 {
        push_digits(&mut text, &digits, 0, n);
        assert(text@ =~= digits@);
    } else if n == 3 {
        push_digits(&mut text, &digits, 0, 1);
        text.append(":");
        push_digits(&mut text, &digits, 1, 3);
        assert(text@ =~= digits@.take(1) + seq![':'] + digits@.skip(1));
    } else {
        push_digits(&mut text, &digits, 0, 2);
        text.append(":");
        push_digits(&mut text, &digits, 2, 4);
        assert(text@ =~= digits@.take(2) + seq![':'] + digits@.subrange(2, 4));
    }
    text
}

/// Dropping the non-digits from digits drops nothing.
proof fn lemma_digits_of_digits(s: Seq<char>)
    requires
        forall|i: int| 0 <= i < s.len() ==> is_digit(#[trigger] s[i]),
    ensures
        digits_of(s) == s,
    decreases s.len(),
{
    reveal(Seq::filter);
    if s.len() > 0 {
        lemma_digits_of_digits(s.drop_last());
        assert(s.drop_last().push(s.last()) =~= s);
    }
}

/// What is left of `raw` is digits.
proof fn lemma_digits_of_are_digits(raw: Seq<char>)
    ensures
        forall|i: int| 0 <= i < digits_of(raw).len() ==> is_digit(#[trigger] digits_of(raw)[i]),
        digits_of(raw).len() <= raw.len(),
    decreases raw.len(),
{
    reveal(Seq::filter);
    if raw.len() > 0 {
        lemma_digits_of_are_digits(raw.drop_last());
    }
}

/// Tidying typed text twice is tidying it once: text that has been tidied
/// stays as it is when the user types on and it is tidied again.
pub proof fn lemma_format_time_input_idempotent(raw: Seq<char>)
    ensures
        format_time_input_spec(format_time_input_spec(raw)) == format_time_input_spec(raw),
{
    let keep = |c: char| is_digit(c);
    let digits = digits_of(raw);
    let once = format_time_input_spec(raw);
    let colon = seq![':'];
    lemma_digits_of_are_digits(raw);
    assert(digits_of(colon) =~= Seq::<char>::empty()) by {
        reveal_with_fuel(Seq::filter, 2);
        assert(colon.drop_last() =~= Seq::<char>::empty());
    }
    if digits.len() <= 2 {
        lemma_digits_of_digits(digits);
    } else {
        let cut: int = if digits.len() == 3 {
            1
        } else {
            2
        };
        let head = digits.take(cut);
        let tail = digits.subrange(cut, cut + 2);
        assert(digits.len() == 3 ==> digits.skip(1) =~= tail);
        assert(once == head + colon + tail);
        lemma_digits_of_digits(head);
        lemma_digits_of_digits(tail);
        Seq::filter_distributes_over_add(head + colon, tail, keep);
        Seq::filter_distributes_over_add(head, colon, keep);
        let again = digits_of(once);
        assert(again =~= head + tail);
        assert(again.take(cut) =~= head);
        assert(again.subrange(cut, cut + 2) =~= tail);
        assert(again.len() == 3 ==> again.skip(1) =~= tail);
    }
}

/// The display text of a time from 00:00 to 59:59 is tidy already: put into
/// the time field, it stays as it is.
pub proof fn lemma_format_time_is_tidy(total_secs: int)
    requires
        0 <= total_secs <= 3599,
    ensures
        format_time_input_spec(format_time_spec(total_secs)) == format_time_spec(total_secs),
{
    let keep = |c: char| is_digit(c);
    let minutes = two_digits((total_secs / 60) as nat);
    let seconds = two_digits((total_secs % 60) as nat);
    let colon = seq![':'];
    lemma_two_digits((total_secs / 60) as nat);
    lemma_two_digits((total_secs % 60) as nat);
    assert(digits_of(colon) =~= Seq::<char>::empty()) by {
        reveal_with_fuel(Seq::filter, 2);
        assert(colon.drop_last() =~= Seq::<char>::empty());
    }
    lemma_digits_of_digits(minutes);
    lemma_digits_of_digits(seconds);
    Seq::filter_distributes_over_add(minutes + colon, seconds, keep);
    Seq::filter_distributes_over_add(minutes, colon, keep);
    let digits = digits_of(format_time_spec(total_secs));
    assert(digits =~= minutes + seconds);
    assert(digits.take(2) =~= minutes);
    assert(digits.subrange(2, 4) =~= seconds);
}

/// Why typed time text was turned down.
#[derive(Clone, Copy, Debug, PartialEq, Eq)]
pub enum ParseError {
    /// The text is not two parts around one colon.
    BadFormat,
    /// The part before the colon is not an integer.
    BadMinutes,
    /// The part behind the colon is not an integer.
    BadSeconds,
    /// The minutes are not within 0 to 59.
    MinutesRange,
    /// The seconds are not within 0 to 59.
    SecondsRange,
}

impl ParseError {
    /// The message shown to the user for this error.
    pub open spec fn message_spec(self) -> Seq<char> {
        match self {
            ParseError::BadFormat => "Invalid format. Please use MM:SS"@,
            ParseError::BadMinutes => "Minutes must be a valid number"@,
            ParseError::BadSeconds => "Seconds must be a valid number"@,
            ParseError::MinutesRange => "Minutes must be greater than or equal to 0 and less than 60"@,
            ParseError::SecondsRange => "Seconds must be greater than or equal to 0 and less than 60"@,
        }
    }

    /// The message shown to the user for this error.
    pub fn message(&self) -> (text: String)
        ensures
            text@ == self.message_spec(),
    {
        match self {
            ParseError::BadFormat => String::from_str("Invalid format. Please use MM:SS"),
            ParseError::BadMinutes => String::from_str("Minutes must be a valid number"),
            ParseError::BadSeconds => String::from_str("Seconds must be a valid number"),
            ParseError::MinutesRange => String::from_str(
                "Minutes must be greater than or equal to 0 and less than 60",
            ),
            ParseError::SecondsRange => String::from_str(
                "Seconds must be greater than or equal to 0 and less than 60",
            ),
        }
    }
}

/// The total seconds of minutes and seconds that have been read, or the
/// range error. The seconds are checked before the minutes.
pub open spec fn checked_total(minutes: int, seconds: int) -> Result<i32, ParseError> {
    if seconds < 0 || seconds > 59 {
        Err(ParseError::SecondsRange)
    } else if minutes < 0 || minutes > 59 {
        Err(ParseError::MinutesRange)
    } else {
        Ok((minutes * 60 + seconds) as i32)
    }
}

/// What typed time text means. The text is trimmed; it must then hold exactly
/// one colon, with an `i32` numeral on either side: minutes and seconds, each
/// from 0 to 59. A sign is read as part of the number, so a negative part is
/// a range error, not a malformed number.
pub open spec fn parse_time_spec(input: Seq<char>) -> Result<i32, ParseError> {
    let text = trim(input);
    let colon = find_from(text, ':', 0);
    if colon >= text.len() || find_from(text, ':', colon + 1) < text.len() {
        Err(ParseError::BadFormat)
    } else {
        match parse_i32_spec(text.take(colon)) {
            None => Err(ParseError::BadMinutes),
            Some(minutes) => match parse_i32_spec(text.skip(colon + 1)) {
                None => Err(ParseError::BadSeconds),
                Some(seconds) => checked_total(minutes as int, seconds as int),
            },
        }
    }
}

/// Validates typed `MM:SS` text and converts it to seconds.
pub fn parse_time_input(input: &str) -> (parsed: Result<i32, ParseError>)
    ensures
        parsed == parse_time_spec(input@),
        parsed matches Ok(total) ==> 0 <= total <= 3599,
{
    let chars = chars_of(input);
    let (start, end) = trim_bounds(&chars);
    let ghost text = trim(input@);
    let colon = find_char(&chars, ':', start, end);
    if colon >= end {
        return Err(ParseError::BadFormat);
    }
    let second_colon = find_char(&chars, ':', colon + 1, end);
    proof {
        let rest = chars@.subrange(colon + 1, end as int);
        assert(text.skip(colon - start + 1) =~= rest);
        assert(text.take(colon - start) =~= chars@.subrange(start as int, colon as int));
        lemma_find_from_shift(text, ':', colon - start + 1, 0);
    }
    if second_colon < end {
        return Err(ParseError::BadFormat);
    }
    let minutes = match parse_i32(&chars, start, colon) {
        Some(minutes) => minutes,
        None => {
            return Err(ParseError::BadMinutes);
        },
    };
    let seconds = match parse_i32(&chars, colon + 1, end) {
        Some(seconds) => seconds,
        None => {
            return Err(ParseError::BadSeconds);
        },
    };
    if seconds < 0 || seconds > 59 {
        return Err(ParseError::SecondsRange);
    }
    if minutes < 0 || minutes > 59 {
        return Err(ParseError::MinutesRange);
    }
    Ok(minutes * 60 + seconds)
}

/// Searching `s` from `base + i` on finds what searching the rest of `s`
/// behind `base` finds from `i` on.
proof fn lemma_find_from_shift(s: Seq<char>, c: char, base: int, i: int)
    requires
        0 <= base <= s.len(),
        0 <= i <= s.len() - base,
    ensures
        find_from(s, c, base + i) == base + find_from(s.skip(base), c, i),
    decreases s.len() - base - i,
{
    if i < s.len() - base && s[base + i] != c {
        assert(s.skip(base)[i] == s[base + i]);
        lemma_find_from_shift(s, c, base, i + 1);
    }
}

/// A number below 100 in two digits is its tens digit and its units digit,
/// and reads back as the number.
proof fn lemma_two_digits(n: nat)
    requires
        n < 100,
    ensures
        two_digits(n) == seq![digit_char((n / 10) as int), digit_char((n % 10) as int)],
        parse_i32_spec(two_digits(n)) == Some(n as i32),
{
    let pair = seq![digit_char((n / 10) as int), digit_char((n % 10) as int)];
    reveal_with_fuel(decimal_digits, 2);
    assert(two_digits(n) =~= pair);
    reveal_with_fuel(decimal_value, 3);
    assert(pair.drop_last() =~= seq![pair[0]]);
    assert(pair.drop_last().drop_last() =~= Seq::<char>::empty());
    assert(decimal_value(pair) == n);
    assert(is_numeral(pair));
}

/// Round trip: the display text of a time from 00:00 to 59:59 is accepted as
/// input, and reads back as that time.
pub proof fn lemma_format_then_parse(total_secs: int)
    requires
        0 <= total_secs <= 3599,
    ensures
        parse_time_spec(format_time_spec(total_secs)) == Ok::<i32, ParseError>(total_secs as i32),
{
    let minutes = (total_secs / 60) as nat;
    let seconds = (total_secs % 60) as nat;
    lemma_two_digits(minutes);
    lemma_two_digits(seconds);
    let text = format_time_spec(total_secs);
    let shown = seq![
        digit_char((minutes / 10) as int),
        digit_char((minutes % 10) as int),
        ':',
        digit_char((seconds / 10) as int),
        digit_char((seconds % 10) as int),
    ];
    assert(text =~= shown);
    assert(!is_whitespace(text[0]) && !is_whitespace(text[4]));
    assert(trim_start_index(text, 0) == 0);
    assert(trim_end_index(text, 0, 5) == 5);
    assert(trim(text) =~= text);
    reveal_with_fuel(find_from, 4);
    assert(find_from(text, ':', 0) == 2);
    assert(find_from(text, ':', 3) == 5);
    assert(text.take(2) =~= two_digits(minutes));
    assert(text.skip(3) =~= two_digits(seconds));
}

} // verus!
