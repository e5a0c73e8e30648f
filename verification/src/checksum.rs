//! The weighted checksum over the first eight digits, and the validator
//! that compares it against the stored check digit.

use vstd::prelude::*;
use crate::digit::TZDigit;
use crate::digit::digit_val;
use crate::digit::sum_digit;
use crate::digit::lemma_digit_val_injective;
use crate::digit::TZError;
use crate::tz::TZ;
use crate::tz::digits_of;

verus! {

broadcast use vstd::array::group_array_axioms;

/// The weighted total of the first eight digits: digits at odd 1-indexed
/// positions unchanged, digits at even 1-indexed positions put through the
/// doubling-reduce transform.
pub open spec fn weighted_total(ds: Seq<int>) -> int
    recommends
        ds.len() >= 8,
{
    ds[0] + sum_digit(ds[1]) + ds[2] + sum_digit(ds[3]) + ds[4] + sum_digit(ds[5]) + ds[6]
        + sum_digit(ds[7])
}

/// The check digit that the first eight digits call for: the complement
/// of the weighted total to the next multiple of ten.
pub open spec fn check_digit(ds: Seq<int>) -> int {
    (10 - weighted_total(ds) % 10) % 10
}

/// Whether a nine-digit sequence satisfies the checksum relation: its
/// last digit equals the check digit of its first eight.
pub open spec fn is_valid_digits(ds: Seq<int>) -> bool {
    ds[8] == check_digit(ds)
}

/// Computes the check digit that the first eight digits of `tz` call for.
/// Total over all well-formed inputs; the failure arm exists only as a
/// defensive fallback and is proved unreachable.
pub fn tz_last_digit(tz: &TZ) -> (r: Result<TZDigit, TZError>)
    ensures
        r matches Ok(d) && digit_val(d) == check_digit(digits_of(*tz)),
{
    let a0 = tz[0].to_u8();
    let a1 = tz[1].to_sum().to_u8();
    let a2 = tz[2].to_u8();
    let a3 = tz[3].to_sum().to_u8();
    let a4 = tz[4].to_u8();
    let a5 = tz[5].to_sum().to_u8();
    let a6 = tz[6].to_u8();
    let a7 = tz[7].to_sum().to_u8();
    let sum = a0 + a1 + a2 + a3 + a4 + a5 + a6 + a7;
    let remainder = sum % 10;
    if remainder == 0 {
        Ok(TZDigit::Zero)
    } else {
        TZDigit::from_u8(10 - remainder)
    }
}

/// True iff the stored check digit matches the checksum of the first
/// eight digits.
pub fn validate(tz: &TZ) -> (r: bool)
    ensures
        r == is_valid_digits(digits_of(*tz)),
{
    let expected = match tz_last_digit(tz) {
        Ok(d) => d,
        Err(_) => TZDigit::Zero,
    };
    proof {
        lemma_digit_val_injective(tz@[8], expected);
    }
    tz[8] == expected
}

} // verus!
