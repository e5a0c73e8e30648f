//! The nine-digit identification number and its rendering as text.

use vstd::prelude::*;
use crate::digit::TZDigit;
use crate::digit::digit_val;
use crate::numeric::digit_char;
use crate::numeric::digit_str;

verus! {

broadcast use vstd::array::group_array_axioms;

/// A nine-digit identification number, most significant digit first.
/// The last position is the check digit; holding an invalid combination
/// is allowed, validity is a predicate, not a structural invariant.
pub type TZ = [TZDigit; 9];

/// The largest value representable with nine decimal digits.
pub const MAX_TZ_RANGE: usize = 999999999;

/// The numeric values of the nine digits, most significant first.
pub open spec fn digits_of(tz: TZ) -> Seq<int> {
    Seq::new(9, |i: int| digit_val(tz@[i]))
}

/// The nine-character decimal rendering of a number's digits.
pub open spec fn tz_chars(tz: TZ) -> Seq<char> {
    Seq::new(9, |i: int| digit_char(digits_of(tz)[i]))
}

/// Renders a number as its nine-character decimal string, leading zeros
/// included.
pub fn tz2str(tz: &TZ) -> (r: String)
    ensures
        r@ == tz_chars(*tz),
{
    let mut r = String::new();
    let mut i: usize = 0;
    while i < 9
        invariant
            i <= 9,
            r@.len() == i,
            forall|k: int| 0 <= k < i ==> r@[k] == digit_char(digits_of(*tz)[k]),
        decreases 9 - i,
    {
        let d = tz[i].to_u8();
        r.append(digit_str(d));
        i += 1;
    }
    proof {
        assert(r@ =~= tz_chars(*tz));
    }
    r
}

} // verus!
