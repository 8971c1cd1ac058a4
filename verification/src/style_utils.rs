//! The inline style of the timer display.

use vstd::prelude::*;
use vstd::string::StringExecFns;

verus! {

/// The colour rule: turquoise while paused, red while the alert blinks,
/// white otherwise. A pause wins over the alert.
pub open spec fn color_rule(is_blinking: bool, is_paused: bool) -> Seq<char> {
    if is_paused {
        "color: darkturquoise;"@
    } else if is_blinking {
        "color: red;"@
    } else {
        "color: white;"@
    }
}

/// The opacity rule: the display is hidden only in the off half of a blink.
pub open spec fn opacity_rule(is_blinking: bool, is_visible: bool) -> Seq<char> {
    if is_blinking && !is_visible {
        "opacity: 0;"@
    } else {
        "opacity: 1;"@
    }
}

/// The whole style: the fixed rules, the colour rule and the opacity rule,
/// one space between them.
pub open spec fn timer_style_spec(is_blinking: bool, is_visible: bool, is_paused: bool) -> Seq<
    char,
> {
    "cursor: pointer; user-select: none;"@ + " "@ + color_rule(is_blinking, is_paused) + " "@
        + opacity_rule(is_blinking, is_visible)
}

/// Computes the inline style of the timer display.
pub fn compute_timer_style(is_blinking: bool, is_visible: bool, is_paused: bool) -> (style: String)
    ensures
        style@ == timer_style_spec(is_blinking, is_visible, is_paused),
{
    let color = if is_paused {
        "color: darkturquoise;"
    } else if is_blinking {
        "color: red;"
    } else {
        "color: white;"
    };
    let opacity = if is_blinking && !is_visible {
        "opacity: 0;"
    } else {
        "opacity: 1;"
    };
    let mut style = String::from_str("cursor: pointer; user-select: none;");
    style.append(" ");
    style.append(color);
    style.append(" ");
    style.append(opacity);
    style
}

} // verus!
