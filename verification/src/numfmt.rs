//! Decimal rendering of integer coordinates for the markup output.

use vstd::prelude::*;

verus! {

/// Relies on String::push, which appends the given character to the
/// end of the string.
pub assume_specification[ String::push ](s: &mut String, ch: char)
    ensures
        final(s)@ == old(s)@.push(ch),
;

/// The decimal digit character for one digit value.
pub open spec fn digit_char(d: int) -> char {
    if d == 0 {
        '0'
    } else if d == 1 {
        '1'
    } else if d == 2 {
        '2'
    } else if d == 3 {
        '3'
    } else if d == 4 {
        '4'
    } else if d == 5 {
        '5'
    } else if d == 6 {
        '6'
    } else if d == 7 {
        '7'
    } else if d == 8 {
        '8'
    } else {
        '9'
    }
}

/// The decimal digit string of a nonnegative value, most significant
/// digit first, with no leading zero except for the value zero itself.
pub open spec fn dec_digits(n: nat) -> Seq<char>
    decreases n,
{
    if n < 10 {
        seq![digit_char(n as int)]
    } else {
        dec_digits(n / 10).push(digit_char((n % 10) as int))
    }
}

/// The decimal string of an integer: a minus sign followed by the
/// digits of the magnitude for negative values, the digits alone
/// otherwise.
pub open spec fn int_str(n: int) -> Seq<char> {
    if n < 0 {
        seq!['-'] + dec_digits((-n) as nat)
    } else {
        dec_digits(n as nat)
    }
}

/// Returns the digit character of one digit value.
pub fn digit_char_exec(d: u64) -> (c: char)
    requires
        d < 10,
    ensures
        c == digit_char(d as int),
{
    if d == 0 {
        '0'
    } else if d == 1 {
        '1'
    } else if d == 2 {
        '2'
    } else if d == 3 {
        '3'
    } else if d == 4 {
        '4'
    } else if d == 5 {
        '5'
    } else if d == 6 {
        '6'
    } else if d == 7 {
        '7'
    } else if d == 8 {
        '8'
    } else {
        '9'
    }
}

/// Appends the decimal digits of a nonnegative value to the string.
pub fn push_dec(s: &mut String, n: u64)
    ensures
        final(s)@ == old(s)@ + dec_digits(n as nat),
    decreases n,
{
    if n >= 10 {
        push_dec(s, n / 10);
        s.push(digit_char_exec(n % 10));
        proof {
            assert(old(s)@ + dec_digits((n / 10) as nat).push(digit_char((n as int) % 10)) =~= (
            old(s)@ + dec_digits((n / 10) as nat)).push(digit_char((n as int) % 10)));
        }
    } else {
        s.push(digit_char_exec(n));
        proof {
            assert(old(s)@ + seq![digit_char(n as int)] =~= old(s)@.push(digit_char(n as int)));
        }
    }
}

/// Appends the decimal string of an integer to the string.
pub fn push_int(s: &mut String, n: i64)
    requires
        n > i64::MIN,
    ensures
        final(s)@ == old(s)@ + int_str(n as int),
{
    if n < 0 {
        s.push('-');
        let ghost mid = s@;
        push_dec(s, (-n) as u64);
        proof {
            assert(mid =~= old(s)@ + seq!['-']);
            assert((old(s)@ + seq!['-']) + dec_digits((-n) as nat) =~= old(s)@ + (seq!['-']
                + dec_digits((-n) as nat)));
        }
    } else {
        push_dec(s, n as u64);
    }
}

} // verus!
