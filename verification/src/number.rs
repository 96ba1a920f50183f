//! Reading unsigned decimal numbers the way `str::parse::<usize>` reads them.
use vstd::prelude::*;
use crate::text::copy_str;

verus! {

/// Why a text is not a `usize`.
#[derive(PartialEq, Eq, Structural, Clone, Copy, Debug)]
pub enum IntErrorKind {
    Empty,
    InvalidDigit,
    PosOverflow,
}

/// The message of `ParseIntError`.
pub open spec fn int_error_message(k: IntErrorKind) -> Seq<char> {
    match k {
        IntErrorKind::Empty => "cannot parse integer from empty string"@,
        IntErrorKind::InvalidDigit => "invalid digit found in string"@,
        IntErrorKind::PosOverflow => "number too large to fit in target type"@,
    }
}

pub open spec fn is_digit(c: char) -> bool {
    '0' <= c <= '9'
}

pub open spec fn digit_value(c: char) -> int {
    c as int - '0' as int
}

/// Reads the digits `s` after the value `acc` read so far, left to right: the first
/// character that is not a digit fails, and so does the first digit that takes the value
/// past `usize::MAX`.
pub open spec fn read_digits(s: Seq<char>, acc: int) -> Result<int, IntErrorKind>
    decreases s.len(),
{
    if s.len() == 0 {
        Ok(acc)
    } else if !is_digit(s[0]) {
        Err(IntErrorKind::InvalidDigit)
    } else if acc * 10 + digit_value(s[0]) > usize::MAX {
        Err(IntErrorKind::PosOverflow)
    } else {
        read_digits(s.drop_first(), acc * 10 + digit_value(s[0]))
    }
}

/// `str::parse::<usize>`: an optional `+`, then decimal digits.
pub open spec fn parse_usize_spec(s: Seq<char>) -> Result<int, IntErrorKind> {
    if s.len() == 0 {
        Err(IntErrorKind::Empty)
    } else if s.len() == 1 && (s[0] == '+' || s[0] == '-') {
        Err(IntErrorKind::InvalidDigit)
    } else if s[0] == '+' {
        read_digits(s.drop_first(), 0)
    } else {
        read_digits(s, 0)
    }
}

/// Reads a `usize` written in decimal, as `str::parse::<usize>` does.
pub fn parse_usize(text: &str) -> (r: Result<usize, IntErrorKind>)
    ensures
        match r {
            Ok(v) => parse_usize_spec(text@) == Ok::<int, IntErrorKind>(v as int),
            Err(k) => parse_usize_spec(text@) == Err::<int, IntErrorKind>(k),
        },
{
    let n = text.unicode_len();
    if n == 0 {
        return Err(IntErrorKind::Empty);
    }
    let first = text.get_char(0);
    if n == 1 && (first == '+' || first == '-') {
        return Err(IntErrorKind::InvalidDigit);
    }
    let mut i: usize = if first == '+' {
        1
    } else {
        0
    };
    let ghost start = i as int;
    let ghost digits = text@.skip(start);
    assert(digits == if first == '+' {
        text@.drop_first()
    } else {
        text@
    });
    let mut acc: usize = 0;
    assert(text@.skip(i as int) =~= digits);
    assert(parse_usize_spec(text@) == read_digits(digits, 0));
    while i < n
        invariant
            n == text@.len(),
            start <= i <= n,
            parse_usize_spec(text@) == read_digits(digits, 0),
            read_digits(text@.skip(i as int), acc as int) == read_digits(digits, 0),
        decreases n - i,
    {
        let c = text.get_char(i);
        let ghost t = text@.skip(i as int);
        assert(t[0] == c);
        assert(t.drop_first() =~= text@.skip(i + 1));
        if !('0' <= c && c <= '9') {
            return Err(IntErrorKind::InvalidDigit);
        }
        let d = (c as u32 - '0' as u32) as usize;
        if acc > (usize::MAX - d) / 10 {
            assert(acc * 10 + d > usize::MAX) by (nonlinear_arith)
                requires
                    acc > (usize::MAX - d) / 10,
                    d <= 9,
            ;
            return Err(IntErrorKind::PosOverflow);
        }
        assert(acc * 10 + d <= usize::MAX) by (nonlinear_arith)
            requires
                acc <= (usize::MAX - d) / 10,
                d <= 9,
        ;
        acc = acc * 10 + d;
        i = i + 1;
    }
    assert(text@.skip(i as int) =~= Seq::<char>::empty());
    Ok(acc)
}

/// The message of a parse error.
pub fn int_error_text(k: IntErrorKind) -> (r: String)
    ensures
        r@ == int_error_message(k),
{
    match k {
        IntErrorKind::Empty => copy_str("cannot parse integer from empty string"),
        IntErrorKind::InvalidDigit => copy_str("invalid digit found in string"),
        IntErrorKind::PosOverflow => copy_str("number too large to fit in target type"),
    }
}

} // verus!
