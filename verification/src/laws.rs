//! The general laws of the library, stated over the specification model
//! that the executable functions' contracts are written against.

use vstd::prelude::*;
use crate::checksum::check_digit;
use crate::checksum::is_valid_digits;
use crate::digit::is_digit_char;
use crate::generator::gen_digits_seq;
use crate::generator::gen_end;
use crate::generator::gen_id_digits;
use crate::generator::gen_start;
use crate::numeric::digits_of_int;
use crate::numeric::lemma_digits_of_int_value;
use crate::numeric::lemma_pow10_values;
use crate::numeric::seq_val;
use crate::parse::ParseOutcome;
use crate::parse::all_digits;
use crate::parse::first_bad_index;
use crate::parse::is_first_bad;
use crate::parse::lemma_first_bad_exists;
use crate::parse::lemma_first_bad_unique;
use crate::parse::pad9;
use crate::parse::parse_result_digits;
use crate::parse::parse_spec;

verus! {

/// Parsing is blind to left-zero-padding: a string of at most nine
/// characters parses exactly as its padded form does, whether it parses
/// to digits or fails.
pub proof fn lemma_parse_ignores_zero_padding(s: Seq<char>)
    requires
        s.len() <= 9,
    ensures
        parse_spec(pad9(s)) == parse_spec(s),
{
    if s.len() == 9 {
        assert(pad9(s) == s);
    } else {
        let pad = 9 - s.len();
        let p = pad9(s);
        assert(p.len() == 9);
        assert(forall|i: int| 0 <= i < pad ==> #[trigger] p[i] == '0');
        assert(forall|i: int| pad <= i < 9 ==> #[trigger] p[i] == s[i - pad]);
        if all_digits(s) {
            assert(all_digits(p));
            assert(pad9(p) == p);
            assert(parse_result_digits(p) =~= parse_result_digits(s));
            assert(parse_spec(pad9(s)) =~= parse_spec(s));
        } else {
            lemma_first_bad_exists(s);
            let i = first_bad_index(s);
            assert(is_first_bad(p, i + pad));
            assert(!all_digits(p));
            lemma_first_bad_exists(p);
            lemma_first_bad_unique(p, first_bad_index(p), i + pad);
            assert(p[i + pad] == s[i]);
        }
    }
}

/// A string longer than nine characters always fails the length check,
/// whatever its characters.
pub proof fn lemma_parse_too_long(s: Seq<char>)
    requires
        s.len() > 9,
    ensures
        parse_spec(s) == ParseOutcome::TooLong,
{
}

/// A string of accepted length holding a non-digit character always
/// fails on its first non-digit character.
pub proof fn lemma_parse_bad_digit(s: Seq<char>)
    requires
        s.len() <= 9,
        exists|i: int| 0 <= i < s.len() && !is_digit_char(#[trigger] s[i]),
    ensures
        exists|i: int|
            is_first_bad(s, i) && parse_spec(s) == ParseOutcome::BadDigit(#[trigger] s[i]),
{
    assert(!all_digits(s));
    lemma_first_bad_exists(s);
    let i = first_bad_index(s);
    assert(is_first_bad(s, i) && parse_spec(s) == ParseOutcome::BadDigit(s[i]));
}

/// Overwriting the last position of a base value's digits with the check
/// digit of its first eight always yields a number that validates.
pub proof fn lemma_generated_id_is_valid(m: int)
    requires
        0 <= m <= 999999990,
        m % 10 == 0,
    ensures
        is_valid_digits(gen_id_digits(m)),
{
    let ds = digits_of_int(m);
    assert(gen_id_digits(m)[8] == check_digit(ds));
    assert(check_digit(gen_id_digits(m)) == check_digit(ds));
}

/// The value of the number generated from base value `m` is `m` plus its
/// check digit, so it lies within ten of `m`.
proof fn lemma_gen_id_value(m: int)
    requires
        0 <= m <= 999999990,
        m % 10 == 0,
    ensures
        m <= seq_val(gen_id_digits(m)) < m + 10,
{
    lemma_pow10_values();
    lemma_digits_of_int_value(m);
    let ds = digits_of_int(m);
    let c = check_digit(ds);
    assert(ds[8] == m % 10);
    assert(0 <= c < 10);
    assert(seq_val(gen_id_digits(m)) == seq_val(ds) - ds[8] + c);
}

/// The enumeration of a range is strictly ascending in numeric value,
/// hence free of duplicates, and its length is the count of multiples of
/// ten between the rounded bounds, inclusive.
pub proof fn lemma_generate_ascending(start: int, end: int, ids: Seq<Seq<int>>)
    requires
        0 <= start,
        0 <= end,
        ids.len() == gen_digits_seq(start, end).len(),
        forall|k: int| 0 <= k < ids.len() ==> #[trigger] ids[k] == gen_digits_seq(start, end)[k],
    ensures
        ids.len() == gen_end(end) / 10 - gen_start(start, end) / 10 + 1,
        forall|k1: int, k2: int|
            0 <= k1 < k2 < ids.len() ==> seq_val(#[trigger] ids[k1]) < seq_val(#[trigger] ids[k2]),
{
    let s0 = gen_start(start, end);
    let e0 = gen_end(end);
    assert(s0 % 10 == 0 && e0 % 10 == 0 && 0 <= s0 <= e0 <= 999999990);
    assert forall|k1: int, k2: int| 0 <= k1 < k2 < ids.len() implies seq_val(#[trigger] ids[k1])
        < seq_val(#[trigger] ids[k2]) by {
        lemma_gen_id_value(s0 + 10 * k1);
        lemma_gen_id_value(s0 + 10 * k2);
    }
}

/// An inverted range collapses onto its end point: the enumeration for
/// `start > end` is exactly the enumeration of `(end, end)`.
pub proof fn lemma_generate_inverted_range(start: int, end: int)
    requires
        0 <= end < start,
    ensures
        gen_digits_seq(start, end) == gen_digits_seq(end, end),
{
    assert(gen_start(start, end) == gen_start(end, end));
    assert(gen_digits_seq(start, end) =~= gen_digits_seq(end, end));
}

} // verus!
