//! Characters, decimal numerals and the small string tools the rest of the
//! library is built on.

use vstd::prelude::*;
use vstd::std_specs::iter::IteratorSpec;

verus! {

/// `c` is one of the ten ASCII decimal digits.
pub open spec fn is_digit(c: char) -> bool {
    '0' <= c && c <= '9'
}

/// The number that the digit `c` stands for.
pub open spec fn digit_value(c: char) -> int {
    c as u32 as int - 48
}

/// The digit that stands for `d`, for `d` from 0 to 9.
pub open spec fn digit_char(d: int) -> char {
    if d == 0 {
        '0'
    } else if d == 1 {
        '1'
    } else if d == 2 {
        '2'
    } else if d == 3 {
        '3'
    } else if d == 4 {
        '4'
    } else if d == 5 {
        '5'
    } else if d == 6 {
        '6'
    } else if d == 7 {
        '7'
    } else if d == 8 {
        '8'
    } else {
        '9'
    }
}

/// `s` is a decimal numeral: one or more digits and nothing else.
pub open spec fn is_numeral(s: Seq<char>) -> bool {
    s.len() > 0 && forall|i: int| 0 <= i < s.len() ==> is_digit(#[trigger] s[i])
}

/// The number that the digits of `s` denote, most significant digit first.
pub open spec fn decimal_value(s: Seq<char>) -> int
    decreases s.len(),
{
    if s.len() == 0 {
        0
    } else {
        decimal_value(s.drop_last()) * 10 + digit_value(s.last())
    }
}

/// The shortest decimal numeral that denotes `n`.
pub open spec fn decimal_digits(n: nat) -> Seq<char>
    decreases n,
{
    if n < 10 {
        seq![digit_char(n as int)]
    } else {
        decimal_digits(n / 10).push(digit_char((n % 10) as int))
    }
}

/// The integer that `s` denotes as an optionally signed decimal numeral:
/// an optional `+` or `-`, then at least one digit, then nothing.
pub open spec fn signed_value(s: Seq<char>) -> Option<int> {
    if s.len() > 0 && s[0] == '-' {
        if is_numeral(s.skip(1)) {
            Some(-decimal_value(s.skip(1)))
        } else {
            None
        }
    } else {
        unsigned_value(s)
    }
}

/// The integer that `s` denotes as a decimal numeral with an optional `+`
/// in front. A `-` is not accepted.
pub open spec fn unsigned_value(s: Seq<char>) -> Option<int> {
    if s.len() > 0 && s[0] == '+' {
        if is_numeral(s.skip(1)) {
            Some(decimal_value(s.skip(1)))
        } else {
            None
        }
    } else if is_numeral(s) {
        Some(decimal_value(s))
    } else {
        None
    }
}

/// What reading `s` as an `i32` gives: its value where `s` is a signed
/// numeral whose value fits, nothing otherwise.
pub open spec fn parse_i32_spec(s: Seq<char>) -> Option<i32> {
    match signed_value(s) {
        Some(v) => if i32::MIN <= v <= i32::MAX {
            Some(v as i32)
        } else {
            None
        },
        None => None,
    }
}

/// What reading `s` as a `u32` gives: its value where `s` is an unsigned
/// numeral whose value fits, nothing otherwise.
pub open spec fn parse_u32_spec(s: Seq<char>) -> Option<u32> {
    match unsigned_value(s) {
        Some(v) => if v <= u32::MAX {
            Some(v as u32)
        } else {
            None
        },
        None => None,
    }
}

/// `c` is a white-space character: one with Unicode's `White_Space` property.
pub open spec fn is_whitespace(c: char) -> bool {
    let code = c as u32;
    ||| 0x09 <= code <= 0x0d
    ||| code == 0x20
    ||| code == 0x85
    ||| code == 0xa0
    ||| code == 0x1680
    ||| 0x2000 <= code <= 0x200a
    ||| code == 0x2028
    ||| code == 0x2029
    ||| code == 0x202f
    ||| code == 0x205f
    ||| code == 0x3000
}

/// Index of the first character of `s` at or after `i` that is not white
/// space; `s.len()` where there is none.
pub open spec fn trim_start_index(s: Seq<char>, i: int) -> int
    decreases s.len() - i,
{
    if 0 <= i < s.len() && is_whitespace(s[i]) {
        trim_start_index(s, i + 1)
    } else {
        i
    }
}

/// End of the part of `s` that is left when the white space before index `n`
/// is cut off, going no further back than `lo`.
pub open spec fn trim_end_index(s: Seq<char>, lo: int, n: int) -> int
    decreases n,
{
    if 0 <= lo < n <= s.len() && is_whitespace(s[n - 1]) {
        trim_end_index(s, lo, n - 1)
    } else {
        n
    }
}

/// `s` without the white space at its start and at its end.
pub open spec fn trim(s: Seq<char>) -> Seq<char> {
    let start = trim_start_index(s, 0);
    s.subrange(start, trim_end_index(s, start, s.len() as int))
}

/// Index of the first `c` in `s` at or after `i`; `s.len()` where there is
/// none.
pub open spec fn find_from(s: Seq<char>, c: char, i: int) -> int
    decreases s.len() - i,
{
    if 0 <= i < s.len() && s[i] != c {
        find_from(s, c, i + 1)
    } else {
        i
    }
}

/// What [`find_from`] finds: the place of the first `c` at or after `i`, with
/// no `c` before it; the length where there is none.
pub proof fn lemma_find_from(s: Seq<char>, c: char, i: int)
    requires
        0 <= i <= s.len(),
    ensures
        i <= find_from(s, c, i) <= s.len(),
        find_from(s, c, i) < s.len() ==> s[find_from(s, c, i)] == c,
        forall|j: int| i <= j < find_from(s, c, i) ==> s[j] != c,
    decreases s.len() - i,
{
    if i < s.len() && s[i] != c {
        lemma_find_from(s, c, i + 1);
    }
}

/// What [`trim`] cuts off: white space and nothing else, as much of it as
/// stands at either end.
pub proof fn lemma_trim(s: Seq<char>)
    ensures
        ({
            let start = trim_start_index(s, 0);
            let end = trim_end_index(s, start, s.len() as int);
            &&& 0 <= start <= end <= s.len()
            &&& trim(s) == s.subrange(start, end)
            &&& forall|j: int| 0 <= j < start ==> is_whitespace(s[j])
            &&& forall|j: int| end <= j < s.len() ==> is_whitespace(s[j])
            &&& start < end ==> !is_whitespace(s[start]) && !is_whitespace(s[end - 1])
        }),
{
    lemma_trim_start(s, 0);
    let start = trim_start_index(s, 0);
    lemma_trim_end(s, start, s.len() as int);
}

/// The characters from `i` up to [`trim_start_index`] are white space, and
/// the one it stops at is not.
proof fn lemma_trim_start(s: Seq<char>, i: int)
    requires
        0 <= i <= s.len(),
    ensures
        i <= trim_start_index(s, i) <= s.len(),
        forall|j: int| i <= j < trim_start_index(s, i) ==> is_whitespace(s[j]),
        trim_start_index(s, i) < s.len() ==> !is_whitespace(s[trim_start_index(s, i)]),
    decreases s.len() - i,
{
    if i < s.len() && is_whitespace(s[i]) {
        lemma_trim_start(s, i + 1);
    }
}

/// The characters from [`trim_end_index`] up to `n` are white space, and the
/// one before it is not, unless it stopped at `lo`.
proof fn lemma_trim_end(s: Seq<char>, lo: int, n: int)
    requires
        0 <= lo <= n <= s.len(),
    ensures
        lo <= trim_end_index(s, lo, n) <= n,
        forall|j: int| trim_end_index(s, lo, n) <= j < n ==> is_whitespace(s[j]),
        lo < trim_end_index(s, lo, n) ==> !is_whitespace(s[trim_end_index(s, lo, n) - 1]),
    decreases n,
{
    if lo < n && is_whitespace(s[n - 1]) {
        lemma_trim_end(s, lo, n - 1);
    }
}

/// The shortest numeral of `n` is a numeral without a sign, and it denotes
/// `n`.
pub proof fn lemma_decimal_digits_value(n: nat)
    ensures
        is_numeral(decimal_digits(n)),
        decimal_value(decimal_digits(n)) == n,
        unsigned_value(decimal_digits(n)) == Some(n as int),
        signed_value(decimal_digits(n)) == Some(n as int),
    decreases n,
{
    let digits = decimal_digits(n);
    if n < 10 {
        assert(digits.drop_last() =~= Seq::<char>::empty());
        assert(decimal_value(digits.drop_last()) == 0);
    } else {
        lemma_decimal_digits_value(n / 10);
        assert(digits.drop_last() =~= decimal_digits(n / 10));
        assert forall|i: int| 0 <= i < digits.len() implies is_digit(#[trigger] digits[i]) by {
            if i < digits.len() - 1 {
                assert(digits[i] == decimal_digits(n / 10)[i]);
            }
        }
    }
    assert(is_digit(digits[0]));
}

/// Copies the characters of `s` into a vector.
pub(crate) fn chars_of(s: &str) -> (chars: Vec<char>)
    ensures
        chars@ == s@,
{
    broadcast use vstd::string::group_string_axioms;

    let mut chars: Vec<char> = Vec::new();
    let mut it = s.chars();
    loop
        invariant
            it.obeys_prophetic_iter_laws(),
            it.decrease() is Some,
            chars@ + it.remaining() == s@,
        ensures
            chars@ == s@,
        decreases it.decrease()->0,
    {
        match it.next() {
            Some(c) => {
                chars.push(c);
            },
            None => {
                break ;
            },
        }
    }
    chars
}


/// Tells whether two texts hold the same characters.
pub(crate) fn str_equals(a: &str, b: &str) -> (same: bool)
    ensures
        same == (a@ == b@),
{
    let left = chars_of(a);
    let right = chars_of(b);
    if left.len() != right.len() {
        return false;
    }
    let mut i: usize = 0;
    while i < left.len()
        invariant
            i <= left@.len() == right@.len(),
            left@ == a@,
            right@ == b@,
            forall|k: int| 0 <= k < i ==> left@[k] == right@[k],
        decreases left@.len() - i,
    {
        if left[i] != right[i] {
            assert(a@[i as int] != b@[i as int]);
            return false;
        }
        i = i + 1;
    }
    assert(left@ =~= right@);
    true
}

/// Tells whether `c` is a decimal digit.
pub(crate) fn is_digit_char(c: char) -> (yes: bool)
    ensures
        yes == is_digit(c),
{
    '0' <= c && c <= '9'
}

/// The one-character text of the digit `d`.
pub(crate) fn digit_str(d: u8) -> (s: &'static str)
    requires
        d <= 9,
    ensures
        s@ == seq![digit_char(d as int)],
{
    proof {
        reveal_strlit("0");
        reveal_strlit("1");
        reveal_strlit("2");
        reveal_strlit("3");
        reveal_strlit("4");
        reveal_strlit("5");
        reveal_strlit("6");
        reveal_strlit("7");
        reveal_strlit("8");
        reveal_strlit("9");
    }
    let s = if d == 0 {
        "0"
    } else if d == 1 {
        "1"
    } else if d == 2 {
        "2"
    } else if d == 3 {
        "3"
    } else if d == 4 {
        "4"
    } else if d == 5 {
        "5"
    } else if d == 6 {
        "6"
    } else if d == 7 {
        "7"
    } else if d == 8 {
        "8"
    } else {
        "9"
    };
    assert(s@ =~= seq![digit_char(d as int)]);
    s
}

/// The number that the digit `c` stands for.
pub(crate) fn digit_of(c: char) -> (d: u8)
    requires
        is_digit(c),
    ensures
        d as int == digit_value(c),
        d <= 9,
        digit_char(d as int) == c,
{
    let code: u32 = c as u32;
    (code - 48) as u8
}

/// Appends the shortest decimal numeral of `n` to `out`.
pub(crate) fn push_decimal(out: &mut String, n: u32)
    ensures
        final(out)@ == old(out)@ + decimal_digits(n as nat),
    decreases n,
{
    if n >= 10 {
        push_decimal(out, n / 10);
    }
    let d: u8 = (n % 10) as u8;
    out.append(digit_str(d));
    assert(final(out)@ =~= old(out)@ + decimal_digits(n as nat));
}

/// Reads the characters of `chars` from `from` up to `to` as a decimal
/// numeral of value at most `limit`.
pub(crate) fn parse_numeral(chars: &Vec<char>, from: usize, to: usize, limit: u64) -> (value: Option<u64>)
    requires
        from <= to <= chars@.len(),
        limit <= 0xffff_ffff,
    ensures
        match value {
            Some(v) => is_numeral(chars@.subrange(from as int, to as int)) && v <= limit
                && v as int == decimal_value(chars@.subrange(from as int, to as int)),
            None => !is_numeral(chars@.subrange(from as int, to as int)) || decimal_value(
                chars@.subrange(from as int, to as int),
            ) > limit,
        },
{
    let ghost s = chars@.subrange(from as int, to as int);
    if from == to {
        return None;
    }
    let cap: u64 = 10_000_000_000;
    let mut acc: u64 = 0;
    let mut i: usize = from;
    while i < to
        invariant
            from <= i <= to <= chars@.len(),
            s == chars@.subrange(from as int, to as int),
            cap == 10_000_000_000,
            forall|j: int| 0 <= j < i - from ==> is_digit(#[trigger] s[j]),
            0 <= decimal_value(s.take(i - from)),
            acc == if decimal_value(s.take(i - from)) < cap {
                decimal_value(s.take(i - from))
            } else {
                cap as int
            },
        decreases to - i,
    {
        let c = chars[i];
        if !is_digit_char(c) {
            assert(s[i - from] == c);
            return None;
        }
        let d = digit_of(c);
        proof {
            let next = s.take(i - from + 1);
            assert(next.drop_last() =~= s.take(i - from));
            assert(next.last() == c);
            assert(decimal_value(next) == decimal_value(s.take(i - from)) * 10 + d);
        }
        let widened: u64 = acc * 10 + d as u64;
        acc = if widened < cap {
            widened
        } else {
            cap
        };
        i = i + 1;
    }
    assert(s.take(to - from) =~= s);
    if acc <= limit {
        Some(acc)
    } else {
        None
    }
}

/// Reads the characters of `chars` from `from` up to `to` as an `i32`.
pub(crate) fn parse_i32(chars: &Vec<char>, from: usize, to: usize) -> (value: Option<i32>)
    requires
        from <= to <= chars@.len(),
    ensures
        value == parse_i32_spec(chars@.subrange(from as int, to as int)),
{
    let ghost s = chars@.subrange(from as int, to as int);
    if from < to && chars[from] == '-' {
        assert(s[0] == '-');
        assert(s.skip(1) =~= chars@.subrange(from + 1, to as int));
        match parse_numeral(chars, from + 1, to, 0x8000_0000) {
            Some(v) => {
                let wide: i64 = -(v as i64);
                Some(wide as i32)
            },
            None => None,
        }
    } else if from < to && chars[from] == '+' {
        assert(s[0] == '+');
        assert(s.skip(1) =~= chars@.subrange(from + 1, to as int));
        match parse_numeral(chars, from + 1, to, 0x7fff_ffff) {
            Some(v) => Some(v as i32),
            None => None,
        }
    } else {
        assert(from < to ==> s[0] == chars@[from as int]);
        match parse_numeral(chars, from, to, 0x7fff_ffff) {
            Some(v) => Some(v as i32),
            None => None,
        }
    }
}

/// Reads the characters of `chars` from `from` up to `to` as a `u32`.
pub(crate) fn parse_u32(chars: &Vec<char>, from: usize, to: usize) -> (value: Option<u32>)
    requires
        from <= to <= chars@.len(),
    ensures
        value == parse_u32_spec(chars@.subrange(from as int, to as int)),
{
    let ghost s = chars@.subrange(from as int, to as int);
    if from < to && chars[from] == '+' {
        assert(s[0] == '+');
        assert(s.skip(1) =~= chars@.subrange(from + 1, to as int));
        match parse_numeral(chars, from + 1, to, 0xffff_ffff) {
            Some(v) => Some(v as u32),
            None => None,
        }
    } else {
        assert(from < to ==> s[0] == chars@[from as int]);
        match parse_numeral(chars, from, to, 0xffff_ffff) {
            Some(v) => Some(v as u32),
            None => None,
        }
    }
}

/// Tells whether `c` is a white-space character.
pub(crate) fn is_whitespace_char(c: char) -> (yes: bool)
    ensures
        yes == is_whitespace(c),
{
    let code: u32 = c as u32;
    (0x09 <= code && code <= 0x0d) || code == 0x20 || code == 0x85 || code == 0xa0 || code
        == 0x1680 || (0x2000 <= code && code <= 0x200a) || code == 0x2028 || code == 0x2029
        || code == 0x202f || code == 0x205f || code == 0x3000
}

/// Finds the bounds of `chars` without its leading and trailing white space.
pub(crate) fn trim_bounds(chars: &Vec<char>) -> (bounds: (usize, usize))
    ensures
        bounds.0 <= bounds.1 <= chars@.len(),
        bounds.0 == trim_start_index(chars@, 0),
        bounds.1 == trim_end_index(chars@, bounds.0 as int, chars@.len() as int),
        chars@.subrange(bounds.0 as int, bounds.1 as int) == trim(chars@),
{
    let n = chars.len();
    let mut start: usize = 0;
    while start < n && is_whitespace_char(chars[start])
        invariant
            start <= n == chars@.len(),
            trim_start_index(chars@, 0) == trim_start_index(chars@, start as int),
        decreases n - start,
    {
        start = start + 1;
    }
    let mut end: usize = n;
    while end > start && is_whitespace_char(chars[end - 1])
        invariant
            start <= end <= n == chars@.len(),
            trim_end_index(chars@, start as int, n as int) == trim_end_index(
                chars@,
                start as int,
                end as int,
            ),
        decreases end,
    {
        end = end - 1;
    }
    (start, end)
}

/// Finds the first `c` among the characters of `chars` from `from` up to
/// `to`.
pub(crate) fn find_char(chars: &Vec<char>, c: char, from: usize, to: usize) -> (at: usize)
    requires
        from <= to <= chars@.len(),
    ensures
        from <= at <= to,
        at - from == find_from(chars@.subrange(from as int, to as int), c, 0),
        at < to ==> chars@[at as int] == c,
        forall|k: int| from <= k < at ==> chars@[k] != c,
{
    let ghost s = chars@.subrange(from as int, to as int);
    let mut at: usize = from;
    while at < to && chars[at] != c
        invariant
            from <= at <= to <= chars@.len(),
            s == chars@.subrange(from as int, to as int),
            find_from(s, c, 0) == find_from(s, c, at - from),
            forall|k: int| from <= k < at ==> chars@[k] != c,
        decreases to - at,
    {
        assert(s[at - from] == chars@[at as int]);
        at = at + 1;
    }
    assert(at < to ==> s[at - from] == chars@[at as int]);
    at
}

} // verus!
