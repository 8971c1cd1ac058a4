//! The clock text of a number of seconds: `MM:SS`, with a `-` in front for
//! overtime.

use crate::text::{decimal_digits, digit_char, digit_str, push_decimal};
use vstd::prelude::*;
use vstd::string::StringExecFns;

verus! {

/// The numeral of `n`, padded with a zero to two digits. Numbers of three
/// digits and more keep all their digits.
pub open spec fn two_digits(n: nat) -> Seq<char> {
    if n < 10 {
        seq!['0', digit_char(n as int)]
    } else {
        decimal_digits(n)
    }
}

/// Minutes, a colon, seconds: the text of `secs` seconds.
pub open spec fn clock_text(secs: nat) -> Seq<char> {
    two_digits(secs / 60) + seq![':'] + two_digits(secs % 60)
}

/// The display text of `total_secs`: the clock text of its magnitude, behind
/// a `-` where it is negative.
pub open spec fn format_time_spec(total_secs: int) -> Seq<char> {
    if total_secs >= 0 {
        clock_text(total_secs as nat)
    } else {
        seq!['-'] + clock_text((-total_secs) as nat)
    }
}

/// Appends `n` in at least two digits to `out`.
fn push_two_digits(out: &mut String, n: u32)
    ensures
        final(out)@ == old(out)@ + two_digits(n as nat),
{
    if n < 10 {
        out.append(digit_str(0));
        out.append(digit_str(n as u8));
        assert(final(out)@ =~= old(out)@ + two_digits(n as nat));
    } else {
        push_decimal(out, n);
    }
}

/// Formats a number of seconds as `MM:SS`, or `-MM:SS` for a negative one.
pub fn format_time(total_secs: i32) -> (text: String)
    ensures
        text@ == format_time_spec(total_secs as int),
{
    let wide: i64 = total_secs as i64;
    let mut text = String::new();
    let magnitude: u32 = if wide < 0 {
        proof {
            reveal_strlit("-");
        }
        text.append("-");
        (-wide) as u32
    } else {
        wide as u32
    };
    proof {
        reveal_strlit(":");
    }
    push_two_digits(&mut text, magnitude / 60);
    text.append(":");
    push_two_digits(&mut text, magnitude % 60);
    assert(text@ =~= format_time_spec(total_secs as int));
    text
}

} // verus!
