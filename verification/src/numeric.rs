//! Decimal arithmetic: powers of ten, fixed-width digit extraction, and
//! rendering a machine integer as its decimal character sequence.

use vstd::prelude::*;
use vstd::arithmetic::div_mod::lemma_div_denominator;
use vstd::arithmetic::div_mod::lemma_fundamental_div_mod;
use crate::digit::char_digit;
use crate::digit::is_digit_char;

verus! {

/// `10^k`.
pub open spec fn pow10(k: nat) -> int
    decreases k,
{
    if k == 0 {
        1
    } else {
        10 * pow10((k - 1) as nat)
    }
}

/// The character for a digit value in `0..=9`.
pub open spec fn digit_char(d: int) -> char {
    if d == 0 {
        '0'
    } else if d == 1 {
        '1'
    } else if d == 2 {
        '2'
    } else if d == 3 {
        '3'
    } else if d == 4 {
        '4'
    } else if d == 5 {
        '5'
    } else if d == 6 {
        '6'
    } else if d == 7 {
        '7'
    } else if d == 8 {
        '8'
    } else {
        '9'
    }
}

/// The canonical decimal character sequence of a non-negative integer:
/// no leading zeros, except that zero itself is written `"0"`.
pub open spec fn dec_str(n: int) -> Seq<char>
    decreases n,
{
    if n < 10 {
        seq![digit_char(n)]
    } else {
        dec_str(n / 10).push(digit_char(n % 10))
    }
}

/// The nine decimal digits of `n`, most significant first, left-padded
/// with zeros to width nine.
pub open spec fn digits_of_int(n: int) -> Seq<int> {
    Seq::new(9, |i: int| n / pow10((8 - i) as nat) % 10)
}

/// The numeric value of a nine-digit sequence, most significant first.
pub open spec fn seq_val(ds: Seq<int>) -> int
    recommends
        ds.len() == 9,
{
    ds[0] * pow10(8) + ds[1] * pow10(7) + ds[2] * pow10(6) + ds[3] * pow10(5) + ds[4] * pow10(4)
        + ds[5] * pow10(3) + ds[6] * pow10(2) + ds[7] * pow10(1) + ds[8] * pow10(0)
}

/// The concrete values of the powers of ten up to `10^9`.
pub proof fn lemma_pow10_values()
    ensures
        pow10(0) == 1,
        pow10(1) == 10,
        pow10(2) == 100,
        pow10(3) == 1000,
        pow10(4) == 10000,
        pow10(5) == 100000,
        pow10(6) == 1000000,
        pow10(7) == 10000000,
        pow10(8) == 100000000,
        pow10(9) == 1000000000,
{
    assert(pow10(0) == 1);
    assert(pow10(1) == 10);
    assert(pow10(2) == 100);
    assert(pow10(3) == 1000);
    assert(pow10(4) == 10000);
    assert(pow10(5) == 100000);
    assert(pow10(6) == 1000000);
    assert(pow10(7) == 10000000);
    assert(pow10(8) == 100000000);
    assert(pow10(9) == 1000000000);
}

/// Reassembling the nine extracted digits of `n` recovers `n` itself,
/// and every extracted digit lies in `0..=9`.
pub proof fn lemma_digits_of_int_value(n: int)
    requires
        0 <= n < 1000000000,
    ensures
        seq_val(digits_of_int(n)) == n,
        forall|i: int| 0 <= i < 9 ==> 0 <= #[trigger] digits_of_int(n)[i] <= 9,
{
    lemma_pow10_values();
    lemma_div_denominator(n, 10, 10);
    lemma_div_denominator(n, 100, 10);
    lemma_div_denominator(n, 1000, 10);
    lemma_div_denominator(n, 10000, 10);
    lemma_div_denominator(n, 100000, 10);
    lemma_div_denominator(n, 1000000, 10);
    lemma_div_denominator(n, 10000000, 10);
    lemma_div_denominator(n, 100000000, 10);
    lemma_fundamental_div_mod(n, 10);
    lemma_fundamental_div_mod(n / 10, 10);
    lemma_fundamental_div_mod(n / 100, 10);
    lemma_fundamental_div_mod(n / 1000, 10);
    lemma_fundamental_div_mod(n / 10000, 10);
    lemma_fundamental_div_mod(n / 100000, 10);
    lemma_fundamental_div_mod(n / 1000000, 10);
    lemma_fundamental_div_mod(n / 10000000, 10);
    lemma_fundamental_div_mod(n / 100000000, 10);
}

/// A one-character string slice holding the character for digit `d`.
pub fn digit_str(d: u8) -> (r: &'static str)
    requires
        d <= 9,
    ensures
        r@ == seq![digit_char(d as int)],
        is_digit_char(digit_char(d as int)),
        char_digit(digit_char(d as int)) == d as int,
{
    proof {
        reveal_strlit("0");
        reveal_strlit("1");
        reveal_strlit("2");
        reveal_strlit("3");
        reveal_strlit("4");
        reveal_strlit("5");
        reveal_strlit("6");
        reveal_strlit("7");
        reveal_strlit("8");
        reveal_strlit("9");
    }
    let r = match d {
        0 => "0",
        1 => "1",
        2 => "2",
        3 => "3",
        4 => "4",
        5 => "5",
        6 => "6",
        7 => "7",
        8 => "8",
        _ => "9",
    };
    proof {
        assert(r@ =~= seq![digit_char(d as int)]);
    }
    r
}

/// Renders `n` as its canonical decimal string, without padding.
pub fn usize_to_string(n: usize) -> (r: String)
    ensures
        r@ == dec_str(n as int),
    decreases n,
{
    let d = (n % 10) as u8;
    let ds = digit_str(d);
    if n < 10 {
        ds.to_owned()
    } else {
        let mut prefix = usize_to_string(n / 10);
        prefix.append(ds);
        proof {
            assert(prefix@ =~= dec_str(n as int));
        }
        prefix
    }
}

} // verus!
