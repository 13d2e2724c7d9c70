use vstd::prelude::*;

verus! {

/// Relies on `alloc::string::String::push`: appends the given character to
/// the end of this string.
pub assume_specification[ String::push ](s: &mut String, c: char)
    ensures
        final(s)@ == old(s)@.push(c),
;

/// Relies on `alloc::string::String::push_str`: appends the given string
/// slice onto the end of this string.
pub assume_specification[ String::push_str ](s: &mut String, t: &str)
    ensures
        final(s)@ == old(s)@ + t@,
;

/// The character of a single decimal digit.
pub open spec fn digit_char(n: int) -> char
    recommends
        0 <= n <= 9,
{
    if n == 0 {
        '0'
    } else if n == 1 {
        '1'
    } else if n == 2 {
        '2'
    } else if n == 3 {
        '3'
    } else if n == 4 {
        '4'
    } else if n == 5 {
        '5'
    } else if n == 6 {
        '6'
    } else if n == 7 {
        '7'
    } else if n == 8 {
        '8'
    } else {
        '9'
    }
}

/// The decimal digit string of a non-negative number, without padding.
pub open spec fn dec_rep(n: int) -> Seq<char>
    recommends
        n >= 0,
    decreases n,
{
    if n < 10 {
        seq![digit_char(n)]
    } else {
        dec_rep(n / 10).push(digit_char(n % 10))
    }
}

/// The two-character, zero-padded decimal string of a number below 100.
pub open spec fn two_digit_rep(n: int) -> Seq<char>
    recommends
        0 <= n < 100,
{
    seq![digit_char(n / 10), digit_char(n % 10)]
}

/// The character of the decimal digit `n`.
fn digit_char_x(n: u64) -> (c: char)
    requires
        n <= 9,
    ensures
        c == digit_char(n as int),
{
    if n == 0 {
        '0'
    } else if n == 1 {
        '1'
    } else if n == 2 {
        '2'
    } else if n == 3 {
        '3'
    } else if n == 4 {
        '4'
    } else if n == 5 {
        '5'
    } else if n == 6 {
        '6'
    } else if n == 7 {
        '7'
    } else if n == 8 {
        '8'
    } else {
        '9'
    }
}

/// Appends the decimal digits of `n` to `s`.
pub fn push_decimal(s: &mut String, n: u64)
    ensures
        final(s)@ == old(s)@ + dec_rep(n as int),
    decreases n,
{
    if n >= 10 {
        push_decimal(s, n / 10);
        let c = digit_char_x(n % 10);
        s.push(c);
        proof {
            assert(s@ =~= old(s)@ + dec_rep(n as int));
        }
    } else {
        let c = digit_char_x(n);
        s.push(c);
        proof {
            assert(s@ =~= old(s)@ + dec_rep(n as int));
        }
    }
}

/// Appends the two-digit, zero-padded decimal form of `n` to `s`.
pub fn push_two_digits(s: &mut String, n: u8)
    requires
        n < 100,
    ensures
        final(s)@ == old(s)@ + two_digit_rep(n as int),
{
    let hi = digit_char_x((n / 10) as u64);
    let lo = digit_char_x((n % 10) as u64);
    s.push(hi);
    s.push(lo);
    proof {
        assert(s@ =~= old(s)@ + two_digit_rep(n as int));
    }
}

} // verus!
