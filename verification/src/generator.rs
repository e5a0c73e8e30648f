//! Enumeration of every checksum-complete number in a numeric range.

use vstd::prelude::*;
use crate::checksum::check_digit;
use crate::checksum::tz_last_digit;
use crate::digit::TZDigit;
use crate::digit::digit_val;
use crate::numeric::digits_of_int;
use crate::parse::int2tz;
use crate::tz::MAX_TZ_RANGE;
use crate::tz::TZ;
use crate::tz::digits_of;

verus! {

broadcast use vstd::array::group_array_axioms;

/// The range end after clamping to the largest nine-digit value.
pub open spec fn clamp_end(end: int) -> int {
    if end > 999999999 {
        999999999
    } else {
        end
    }
}

/// The first base value visited: the range start, collapsed onto the
/// clamped end when the range is inverted, then rounded down to a
/// multiple of ten.
pub open spec fn gen_start(start: int, end: int) -> int {
    let e = clamp_end(end);
    let s = if start > e {
        e
    } else {
        start
    };
    s - s % 10
}

/// The last base value visited: the clamped range end, rounded down to a
/// multiple of ten.
pub open spec fn gen_end(end: int) -> int {
    let e = clamp_end(end);
    e - e % 10
}

/// How many numbers the enumeration yields: one per multiple of ten
/// between the rounded bounds, inclusive.
pub open spec fn gen_count(start: int, end: int) -> int {
    (gen_end(end) - gen_start(start, end)) / 10 + 1
}

/// The digits of the number generated from base value `m`: the decimal
/// digits of `m` with the last position replaced by the check digit that
/// the first eight call for.
pub open spec fn gen_id_digits(m: int) -> Seq<int> {
    digits_of_int(m).update(8, check_digit(digits_of_int(m)))
}

/// The digit sequences of every number that enumerating the range yields,
/// in ascending order of base value.
pub open spec fn gen_digits_seq(start: int, end: int) -> Seq<Seq<int>> {
    Seq::new(gen_count(start, end) as nat, |k: int| gen_id_digits(gen_start(start, end) + 10 * k))
}

/// Enumerates, in ascending order, the checksum-complete number of every
/// base value (multiple of ten) in the clamped and rounded range. Never
/// fails: out-of-range and inverted inputs are resolved by clamping.
pub fn generate(start: usize, end: usize) -> (r: Vec<TZ>)
    ensures
        r@.len() == gen_digits_seq(start as int, end as int).len(),
        forall|k: int|
            0 <= k < r@.len() ==> digits_of(#[trigger] r@[k]) == gen_digits_seq(
                start as int,
                end as int,
            )[k],
{
    let end2 = if end > MAX_TZ_RANGE {
        MAX_TZ_RANGE
    } else {
        end
    };
    let start2 = if start > end2 {
        end2
    } else {
        start
    };
    let s = start2 - start2 % 10;
    let e = end2 - end2 % 10;
    let mut result: Vec<TZ> = Vec::new();
    let mut i = s;
    while i <= e
        invariant
            s == gen_start(start as int, end as int),
            e == gen_end(end as int),
            s % 10 == 0,
            e % 10 == 0,
            s <= e <= 999999990,
            i % 10 == 0,
            s <= i <= e + 10,
            i == s + 10 * result@.len(),
            forall|k: int|
                0 <= k < result@.len() ==> digits_of(#[trigger] result@[k]) == gen_id_digits(
                    s + 10 * k,
                ),
        decreases e + 10 - i,
    {
        let tz0 = match int2tz(i) {
            Ok(t) => t,
            Err(_) => {
                proof {
                    assert(false);
                }
                [TZDigit::Zero; 9]
            },
        };
        let d = match tz_last_digit(&tz0) {
            Ok(v) => v,
            Err(_) => {
                proof {
                    assert(false);
                }
                TZDigit::Zero
            },
        };
        let mut tz = tz0;
        tz[8] = d;
        proof {
            assert(digits_of(tz) =~= gen_id_digits(i as int));
        }
        result.push(tz);
        i += 10;
    }
    proof {
        assert(result@.len() == gen_count(start as int, end as int));
    }
    result
}

} // verus!
