//! Parsing decimal strings and integers into nine-digit numbers, with
//! left-zero-padding and length and character validation.

use vstd::prelude::*;
use crate::digit::TZDigit;
use crate::digit::TZError;
use crate::digit::char_digit;
use crate::digit::digit_val;
use crate::digit::is_digit_char;
use crate::numeric::dec_str;
use crate::numeric::digits_of_int;
use crate::numeric::lemma_pow10_values;
use crate::numeric::pow10;
use crate::numeric::usize_to_string;
use crate::tz::MAX_TZ_RANGE;
use crate::tz::TZ;
use crate::tz::digits_of;

verus! {

broadcast use vstd::array::group_array_axioms;

/// `s` left-padded with `'0'` characters to width nine; a string already
/// nine characters or longer is unchanged.
pub open spec fn pad9(s: Seq<char>) -> Seq<char> {
    if s.len() >= 9 {
        s
    } else {
        Seq::new((9 - s.len()) as nat, |i: int| '0') + s
    }
}

/// Whether every character of `s` is an ASCII decimal digit.
pub open spec fn all_digits(s: Seq<char>) -> bool {
    forall|i: int| 0 <= i < s.len() ==> is_digit_char(#[trigger] s[i])
}

/// Whether position `i` holds the first non-digit character of `s`.
pub open spec fn is_first_bad(s: Seq<char>, i: int) -> bool {
    &&& 0 <= i < s.len()
    &&& !is_digit_char(s[i])
    &&& forall|j: int| 0 <= j < i ==> is_digit_char(#[trigger] s[j])
}

/// The position of the first non-digit character of `s`.
pub open spec fn first_bad_index(s: Seq<char>) -> int {
    choose|i: int| is_first_bad(s, i)
}

/// The digit values that a successful parse of `s` yields: the values of
/// the nine characters of the padded string.
pub open spec fn parse_result_digits(s: Seq<char>) -> Seq<int> {
    Seq::new(9, |i: int| char_digit(pad9(s)[i]))
}

/// The outcome that parsing a character sequence must produce: either the
/// nine digit values, or the reason of failure together with what the
/// error is to carry.
#[verifier::ext_equal]
pub enum ParseOutcome {
    /// The nine digit values of the padded input.
    Digits(Seq<int>),
    /// The input is longer than nine characters.
    TooLong,
    /// The first non-digit character of the input.
    BadDigit(char),
}

/// The full specification of string parsing.
pub open spec fn parse_spec(s: Seq<char>) -> ParseOutcome {
    if s.len() > 9 {
        ParseOutcome::TooLong
    } else if all_digits(s) {
        ParseOutcome::Digits(parse_result_digits(s))
    } else {
        ParseOutcome::BadDigit(s[first_bad_index(s)])
    }
}

/// A sequence with a non-digit character somewhere has a first one.
pub proof fn lemma_first_bad_exists(s: Seq<char>)
    requires
        !all_digits(s),
    ensures
        is_first_bad(s, first_bad_index(s)),
{
    let j = choose|j: int| 0 <= j < s.len() && !is_digit_char(s[j]);
    lemma_first_bad_below(s, j);
    let i = choose|i: int| is_first_bad(s, i);
    assert(is_first_bad(s, i));
}

proof fn lemma_first_bad_below(s: Seq<char>, j: int)
    requires
        0 <= j < s.len(),
        !is_digit_char(s[j]),
    ensures
        exists|i: int| is_first_bad(s, i),
    decreases j,
{
    if forall|k: int| 0 <= k < j ==> is_digit_char(#[trigger] s[k]) {
        assert(is_first_bad(s, j));
    } else {
        let k = choose|k: int| 0 <= k < j && !is_digit_char(s[k]);
        lemma_first_bad_below(s, k);
    }
}

/// The first non-digit position is unique.
pub proof fn lemma_first_bad_unique(s: Seq<char>, i1: int, i2: int)
    requires
        is_first_bad(s, i1),
        is_first_bad(s, i2),
    ensures
        i1 == i2,
{
}

/// Parses a decimal string into a nine-digit number, left-padding with
/// zeros. Fails with `InvalidTZLength` on more than nine characters, and
/// with `InvalidTZDigit` on the first character outside `'0'..='9'`.
pub fn str2tz(s: &str) -> (r: Result<TZ, TZError>)
    ensures
        parse_spec(s@) matches ParseOutcome::Digits(ds) ==> (r matches Ok(tz) && digits_of(tz)
            == ds),
        parse_spec(s@) is TooLong ==> (r matches Err(e) && e matches TZError::InvalidTZLength(m)
            && m@ == s@),
        parse_spec(s@) matches ParseOutcome::BadDigit(c) ==> (r matches Err(e) && e matches
            TZError::InvalidTZDigit(m) && m@ == seq![c]),
{
    let len = s.unicode_len();
    if len > 9 {
        return Err(TZError::InvalidTZLength(s.to_owned()));
    }
    let pad = 9 - len;
    let mut tz: TZ = [TZDigit::Zero; 9];
    let mut j: usize = 0;
    while j < len
        invariant
            len == s@.len(),
            len <= 9,
            pad == 9 - len,
            j <= len,
            forall|k: int| 0 <= k < j ==> is_digit_char(#[trigger] s@[k]),
            forall|k: int|
                0 <= k < 9 ==> digit_val(#[trigger] tz@[k]) == (if pad <= k < pad + j {
                    char_digit(s@[k - pad])
                } else {
                    0
                }),
        decreases len - j,
    {
        let c = s.get_char(j);
        match TZDigit::from_char(c) {
            Ok(d) => {
                tz[pad + j] = d;
            },
            Err(e) => {
                proof {
                    assert(is_first_bad(s@, j as int));
                    lemma_first_bad_exists(s@);
                    lemma_first_bad_unique(s@, first_bad_index(s@), j as int);
                }
                return Err(e);
            },
        }
        j += 1;
    }
    proof {
        assert(all_digits(s@));
        assert(digits_of(tz) =~= parse_result_digits(s@));
    }
    Ok(tz)
}

/// Parses a non-negative integer into the nine-digit number whose digits
/// are the integer's decimal digits, left-padded with zeros. Fails with
/// `InvalidTZLength` when the integer does not fit in nine digits.
pub fn int2tz(n: usize) -> (r: Result<TZ, TZError>)
    ensures
        n <= MAX_TZ_RANGE ==> (r matches Ok(tz) && digits_of(tz) == digits_of_int(n as int)),
        n > MAX_TZ_RANGE ==> (r matches Err(e) && e matches TZError::InvalidTZLength(m) && m@
            == dec_str(n as int)),
{
    if n > MAX_TZ_RANGE {
        return Err(TZError::InvalidTZLength(usize_to_string(n)));
    }
    proof {
        lemma_pow10_values();
    }
    let mut tz: TZ = [TZDigit::Zero; 9];
    let mut p: usize = 100000000;
    let mut i: usize = 0;
    while i < 9
        invariant
            i <= 9,
            n <= MAX_TZ_RANGE,
            i < 9 ==> p as int == pow10((8 - i) as nat),
            forall|k: int|
                0 <= k < i ==> digit_val(#[trigger] tz@[k]) == digits_of_int(n as int)[k],
        decreases 9 - i,
    {
        proof {
            lemma_pow10_values();
        }
        let d = ((n / p) % 10) as u8;
        match TZDigit::from_u8(d) {
            Ok(v) => {
                tz[i] = v;
            },
            Err(_) => {
                proof {
                    assert(false);
                }
            },
        }
        if i < 8 {
            p = p / 10;
        }
        i += 1;
    }
    proof {
        assert(digits_of(tz) =~= digits_of_int(n as int));
    }
    Ok(tz)
}

} // verus!
