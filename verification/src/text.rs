//! Verified text building blocks: decimal rendering of the header fields
//! and the zero-padded topic digits.

use vstd::prelude::*;
use vstd::string::StringExecFns;

verus! {

/// Relies on `String::push`: appends one character to the string.
pub assume_specification[ String::push ](s: &mut String, c: char)
    ensures
        final(s)@ == old(s)@.push(c),
;

/// The character of a single decimal digit.
pub open spec fn digit_char(d: int) -> char {
    if d == 0 {
        '0'
    } else if d == 1 {
        '1'
    } else if d == 2 {
        '2'
    } else if d == 3 {
        '3'
    } else if d == 4 {
        '4'
    } else if d == 5 {
        '5'
    } else if d == 6 {
        '6'
    } else if d == 7 {
        '7'
    } else if d == 8 {
        '8'
    } else {
        '9'
    }
}

/// Decimal rendering of a non-negative value, most significant digit
/// first, without leading zeroes (a zero renders as one digit).
pub open spec fn dec_digits(v: int) -> Seq<char>
    decreases v,
{
    if v < 10 {
        seq![digit_char(v)]
    } else {
        dec_digits(v / 10).push(digit_char(v % 10))
    }
}

/// Decimal rendering of a value zero-padded to a minimum width of three
/// digits, as the topic fields use it.
pub open spec fn padded3(v: int) -> Seq<char> {
    if v < 10 {
        seq!['0', '0'] + dec_digits(v)
    } else if v < 100 {
        seq!['0'] + dec_digits(v)
    } else {
        dec_digits(v)
    }
}

/// The one-character string of a decimal digit.
fn digit_str(d: u16) -> (r: &'static str)
    requires
        d < 10,
    ensures
        r@ == seq![digit_char(d as int)],
{
    proof {
        reveal_strlit("0");
        reveal_strlit("1");
        reveal_strlit("2");
        reveal_strlit("3");
        reveal_strlit("4");
        reveal_strlit("5");
        reveal_strlit("6");
        reveal_strlit("7");
        reveal_strlit("8");
        reveal_strlit("9");
    }
    let r = match d {
        0 => "0",
        1 => "1",
        2 => "2",
        3 => "3",
        4 => "4",
        5 => "5",
        6 => "6",
        7 => "7",
        8 => "8",
        _ => "9",
    };
    proof {
        assert(r@ =~= seq![digit_char(d as int)]);
    }
    r
}

/// Appends the decimal rendering of `v` to `out`.
pub fn push_dec(v: u16, out: &mut String)
    ensures
        final(out)@ == old(out)@ + dec_digits(v as int),
    decreases v,
{
    if v >= 10 {
        push_dec(v / 10, out);
    }
    out.append(digit_str(v % 10));
    proof {
        if v < 10 {
            assert(v % 10 == v);
        }
        assert(out@ =~= old(out)@ + dec_digits(v as int));
    }
}

/// Appends the decimal rendering of `v`, zero-padded to a minimum width
/// of three digits, to `out`.
pub fn push_padded3(v: u16, out: &mut String)
    ensures
        final(out)@ == old(out)@ + padded3(v as int),
{
    proof {
        reveal_strlit("00");
        reveal_strlit("0");
    }
    if v < 10 {
        out.append("00");
        assert(out@ =~= old(out)@ + seq!['0', '0']);
    } else if v < 100 {
        out.append("0");
        assert(out@ =~= old(out)@ + seq!['0']);
    }
    push_dec(v, out);
    proof {
        assert(out@ =~= old(out)@ + padded3(v as int));
    }
}

} // verus!
