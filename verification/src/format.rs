//! Human-readable formatting of byte counts and durations.
//!
//! Values are scaled to a unit and printed with two decimal places.  The
//! fractional part is computed exactly in integer arithmetic: the scaled
//! value in hundredths, rounded to nearest with ties to even.

use vstd::prelude::*;

use vstd::string::StringExecFns;

verus! {

/// The decimal digit character for `d`.
pub open spec fn digit_char(d: int) -> char {
    if d == 0 {
        '0'
    } else if d == 1 {
        '1'
    } else if d == 2 {
        '2'
    } else if d == 3 {
        '3'
    } else if d == 4 {
        '4'
    } else if d == 5 {
        '5'
    } else if d == 6 {
        '6'
    } else if d == 7 {
        '7'
    } else if d == 8 {
        '8'
    } else {
        '9'
    }
}

/// The decimal representation of a non-negative integer.
pub open spec fn spec_decimal(n: int) -> Seq<char>
    decreases n,
{
    if n < 10 {
        seq![digit_char(n)]
    } else {
        spec_decimal(n / 10).push(digit_char(n % 10))
    }
}

/// `num / den`, rounded to the nearest integer with ties to even.
pub open spec fn round_half_even(num: int, den: int) -> int {
    let q = num / den;
    let rem = num % den;
    if 2 * rem > den || (2 * rem == den && q % 2 == 1) {
        q + 1
    } else {
        q
    }
}

/// A quantity in hundredths, printed with two decimal places.
pub open spec fn spec_two_decimals(h: int) -> Seq<char> {
    spec_decimal(h / 100) + seq!['.', digit_char(h / 10 % 10), digit_char(h % 10)]
}

/// The unit a byte count is displayed in.
pub open spec fn bytes_unit_index(bytes: int) -> int {
    if bytes < 1024 {
        0
    } else if bytes < 1048576 {
        1
    } else if bytes < 1073741824 {
        2
    } else if bytes < 1099511627776 {
        3
    } else {
        4
    }
}

/// The divisor of a byte-count unit.
pub open spec fn bytes_unit_divisor(k: int) -> int {
    if k == 0 {
        1
    } else if k == 1 {
        1024
    } else if k == 2 {
        1048576
    } else if k == 3 {
        1073741824
    } else {
        1099511627776
    }
}

/// The label of a byte-count unit.
pub open spec fn bytes_unit_label(k: int) -> Seq<char> {
    if k == 0 {
        "B"@
    } else if k == 1 {
        "KB"@
    } else if k == 2 {
        "MB"@
    } else if k == 3 {
        "GB"@
    } else {
        "TB"@
    }
}

/// A byte count formatted for people: scaled to the largest unit it reaches,
/// with two decimal places, ties rounded to even.
pub open spec fn spec_format_bytes(bytes: int) -> Seq<char> {
    if bytes == 0 {
        "0 B"@
    } else {
        let k = bytes_unit_index(bytes);
        let h = round_half_even(bytes * 100, bytes_unit_divisor(k));
        spec_two_decimals(h) + seq![' '] + bytes_unit_label(k)
    }
}

/// A duration's seconds with two decimal places, from milliseconds.
pub open spec fn spec_seconds_two_decimals(ms: int) -> Seq<char> {
    spec_two_decimals(round_half_even(ms, 10))
}

/// A millisecond count formatted for people: plain milliseconds under one
/// second, seconds with two decimals under one minute, and minutes with
/// seconds beyond that.
pub open spec fn spec_format_duration(ms: int) -> Seq<char> {
    if ms < 1000 {
        spec_decimal(ms) + "ms"@
    } else if ms < 60000 {
        spec_seconds_two_decimals(ms) + "s"@
    } else {
        spec_decimal(ms / 60000) + "m "@ + spec_seconds_two_decimals(ms % 60000) + "s"@
    }
}

/// The character of one decimal digit.
fn digit_to_char(d: u64) -> (r: char)
    requires
        d < 10,
    ensures
        r == digit_char(d as int),
{
    if d == 0 {
        '0'
    } else if d == 1 {
        '1'
    } else if d == 2 {
        '2'
    } else if d == 3 {
        '3'
    } else if d == 4 {
        '4'
    } else if d == 5 {
        '5'
    } else if d == 6 {
        '6'
    } else if d == 7 {
        '7'
    } else if d == 8 {
        '8'
    } else {
        '9'
    }
}

/// Appends the decimal representation of `n`.
fn push_decimal(s: &mut String, n: u64)
    ensures
        final(s)@ == old(s)@ + spec_decimal(n as int),
    decreases n,
{
    if n < 10 {
        s.push(digit_to_char(n));
        proof {
            assert(final(s)@ =~= old(s)@ + spec_decimal(n as int));
        }
    } else {
        push_decimal(s, n / 10);
        s.push(digit_to_char(n % 10));
        proof {
            assert(final(s)@ =~= old(s)@ + spec_decimal(n as int));
        }
    }
}

/// Appends a quantity given in hundredths with two decimal places.
fn push_two_decimals(s: &mut String, h: u64)
    ensures
        final(s)@ == old(s)@ + spec_two_decimals(h as int),
{
    push_decimal(s, h / 100);
    s.push('.');
    s.push(digit_to_char(h / 10 % 10));
    s.push(digit_to_char(h % 10));
    proof {
        assert(final(s)@ =~= old(s)@ + spec_two_decimals(h as int));
    }
}

/// `num / den` in u128, rounded to nearest with ties to even.
fn div_round_half_even(num: u128, den: u128) -> (r: u128)
    requires
        1 <= den <= u64::MAX as u128,
        num / den < u128::MAX,
    ensures
        r == round_half_even(num as int, den as int),
        r <= num / den + 1,
{
    let q = num / den;
    let rem = num % den;
    if 2 * rem > den || (2 * rem == den && q % 2 == 1) {
        q + 1
    } else {
        q
    }
}

/// Format a byte count into a human-readable string: the count scaled to
/// the largest unit from bytes to terabytes that it reaches, with two
/// decimal places (ties to even), and the unit's label.
pub fn format_bytes(bytes: u64) -> (r: String)
    ensures
        r@ == spec_format_bytes(bytes as int),
{
    if bytes == 0 {
        return String::from_str("0 B");
    }
    let den: u64 = if bytes < 1024 {
        1
    } else if bytes < 1048576 {
        1024
    } else if bytes < 1073741824 {
        1048576
    } else if bytes < 1099511627776 {
        1073741824
    } else {
        1099511627776
    };
    let unit: &str = if bytes < 1024 {
        "B"
    } else if bytes < 1048576 {
        "KB"
    } else if bytes < 1073741824 {
        "MB"
    } else if bytes < 1099511627776 {
        "GB"
    } else {
        "TB"
    };
    let num: u128 = (bytes as u128) * 100;
    let h128 = div_round_half_even(num, den as u128);
    proof {
        assert(h128 <= u64::MAX as u128);
    }
    let h = h128 as u64;
    let mut r = String::new();
    push_two_decimals(&mut r, h);
    r.push(' ');
    r.append(unit);
    proof {
        assert(r@ =~= spec_format_bytes(bytes as int));
    }
    r
}

/// Format a duration in milliseconds into a human-readable string: plain
/// milliseconds under one second, seconds with two decimal places under one
/// minute, and whole minutes with remaining seconds beyond that.
pub fn format_duration(total_ms: u64) -> (r: String)
    ensures
        r@ == spec_format_duration(total_ms as int),
{
    let mut r = String::new();
    if total_ms < 1000 {
        push_decimal(&mut r, total_ms);
        r.append("ms");
    } else if total_ms < 60000 {
        let h = total_ms / 10 + round_up_adjust(total_ms);
        push_two_decimals(&mut r, h);
        r.append("s");
    } else {
        let minutes = total_ms / 60000;
        let rem = total_ms % 60000;
        push_decimal(&mut r, minutes);
        r.append("m ");
        let h = rem / 10 + round_up_adjust(rem);
        push_two_decimals(&mut r, h);
        r.append("s");
    }
    r
}

/// Whether rounding `ms / 10` half-to-even rounds up.
fn round_up_adjust(ms: u64) -> (r: u64)
    ensures
        ms / 10 + r == round_half_even(ms as int, 10),
        r <= 1,
{
    let rem = ms % 10;
    let q = ms / 10;
    if rem > 5 || (rem == 5 && q % 2 == 1) {
        1
    } else {
        0
    }
}

} // verus!
