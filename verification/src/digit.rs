//! The single-digit value type and its conversions.

use vstd::prelude::*;
use crate::numeric::dec_str;
use crate::numeric::usize_to_string;

verus! {

/// Failures of the parsing operations. Each variant carries the offending
/// input, rendered as text.
#[derive(Debug)]
pub enum TZError {
    /// The input string is longer than nine characters, or the input
    /// integer exceeds the largest nine-digit value.
    InvalidTZLength(String),
    /// A character outside `'0'..='9'` was met while parsing.
    InvalidTZDigit(String),
    /// A value outside the accepted numeric range was supplied.
    InvalidTZ(String),
}

/// A decimal digit: one of the ten values `0` through `9`.
#[derive(Debug, Copy, Clone, PartialEq, Eq, Structural)]
pub enum TZDigit {
    Zero,
    One,
    Two,
    Three,
    Four,
    Five,
    Six,
    Seven,
    Eight,
    Nine,
}

/// The numeric value of a digit.
pub open spec fn digit_val(d: TZDigit) -> int {
    match d {
        TZDigit::Zero => 0,
        TZDigit::One => 1,
        TZDigit::Two => 2,
        TZDigit::Three => 3,
        TZDigit::Four => 4,
        TZDigit::Five => 5,
        TZDigit::Six => 6,
        TZDigit::Seven => 7,
        TZDigit::Eight => 8,
        TZDigit::Nine => 9,
    }
}

/// The doubling-reduce transform on a digit value: double it, and if the
/// result has two decimal digits, replace it by the sum of those digits.
pub open spec fn sum_digit(d: int) -> int {
    if 2 * d < 10 {
        2 * d
    } else {
        2 * d - 9
    }
}

/// Whether a character is an ASCII decimal digit.
pub open spec fn is_digit_char(c: char) -> bool {
    c == '0' || c == '1' || c == '2' || c == '3' || c == '4' || c == '5' || c == '6' || c == '7'
        || c == '8' || c == '9'
}

/// The numeric value of an ASCII decimal digit character.
pub open spec fn char_digit(c: char) -> int {
    if c == '0' {
        0
    } else if c == '1' {
        1
    } else if c == '2' {
        2
    } else if c == '3' {
        3
    } else if c == '4' {
        4
    } else if c == '5' {
        5
    } else if c == '6' {
        6
    } else if c == '7' {
        7
    } else if c == '8' {
        8
    } else {
        9
    }
}

impl TZDigit {
    /// The doubling-reduce transform, as a digit-to-digit lookup.
    pub fn to_sum(&self) -> (r: Self)
        ensures
            digit_val(r) == sum_digit(digit_val(*self)),
    {
        match self {
            Self::Zero => Self::Zero,
            Self::One => Self::Two,
            Self::Two => Self::Four,
            Self::Three => Self::Six,
            Self::Four => Self::Eight,
            Self::Five => Self::One,
            Self::Six => Self::Three,
            Self::Seven => Self::Five,
            Self::Eight => Self::Seven,
            Self::Nine => Self::Nine,
        }
    }

    /// Converts a machine integer to the digit of that value; any value
    /// above nine is rejected.
    pub fn from_u8(d: u8) -> (r: Result<Self, TZError>)
        ensures
            d <= 9 ==> (r matches Ok(v) && digit_val(v) == d as int),
            d > 9 ==> (r matches Err(e) && e matches TZError::InvalidTZDigit(m) && m@ == dec_str(
                d as int,
            )),
    {
        match d {
            0 => Ok(TZDigit::Zero),
            1 => Ok(TZDigit::One),
            2 => Ok(TZDigit::Two),
            3 => Ok(TZDigit::Three),
            4 => Ok(TZDigit::Four),
            5 => Ok(TZDigit::Five),
            6 => Ok(TZDigit::Six),
            7 => Ok(TZDigit::Seven),
            8 => Ok(TZDigit::Eight),
            9 => Ok(TZDigit::Nine),
            _ => Err(TZError::InvalidTZDigit(usize_to_string(d as usize))),
        }
    }

    /// Converts a character to the digit it denotes; any character outside
    /// `'0'..='9'` is rejected, and the error carries that character.
    pub fn from_char(c: char) -> (r: Result<Self, TZError>)
        ensures
            is_digit_char(c) ==> (r matches Ok(v) && digit_val(v) == char_digit(c)),
            !is_digit_char(c) ==> (r matches Err(e) && e matches TZError::InvalidTZDigit(m)
                && m@ == seq![c]),
    {
        match c {
            '0' => Ok(TZDigit::Zero),
            '1' => Ok(TZDigit::One),
            '2' => Ok(TZDigit::Two),
            '3' => Ok(TZDigit::Three),
            '4' => Ok(TZDigit::Four),
            '5' => Ok(TZDigit::Five),
            '6' => Ok(TZDigit::Six),
            '7' => Ok(TZDigit::Seven),
            '8' => Ok(TZDigit::Eight),
            '9' => Ok(TZDigit::Nine),
            _ => Err(TZError::InvalidTZDigit(char_to_string(c))),
        }
    }

    /// The numeric value of the digit, as a machine integer.
    pub fn to_u8(self) -> (r: u8)
        ensures
            r as int == digit_val(self),
            r <= 9,
    {
        match self {
            Self::Zero => 0,
            Self::One => 1,
            Self::Two => 2,
            Self::Three => 3,
            Self::Four => 4,
            Self::Five => 5,
            Self::Six => 6,
            Self::Seven => 7,
            Self::Eight => 8,
            Self::Nine => 9,
        }
    }
}

impl From<TZDigit> for u8 {
    /// The numeric value of the digit.
    fn from(d: TZDigit) -> (r: u8) {
        d.to_u8()
    }
}

impl vstd::std_specs::convert::FromSpecImpl<TZDigit> for u8 {
    open spec fn obeys_from_spec() -> bool {
        true
    }

    open spec fn from_spec(d: TZDigit) -> u8 {
        digit_val(d) as u8
    }
}

/// Relies on char::to_string from std: the returned string consists of
/// exactly the given character.
#[verifier::external_body]
fn char_to_string(c: char) -> (r: String)
    ensures
        r@ == seq![c],
{
    c.to_string()
}

/// Digits with equal numeric values are the same digit.
pub proof fn lemma_digit_val_injective(a: TZDigit, b: TZDigit)
    ensures
        (digit_val(a) == digit_val(b)) <==> (a == b),
{
}

} // verus!
