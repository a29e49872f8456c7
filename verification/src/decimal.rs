//! Decimal numerals and their value in millionths.
//!
//! A numeral is an optional sign, digits with at most one point among them
//! (at least one digit before or after it), and an optional exponent: `e` or
//! `E`, an optional sign, and digits. `inf` and `infinity`, in any case and
//! with an optional sign, are numerals too. Nothing else is, and so not `nan`.
//!
//! A numeral is read exactly: its value is multiplied by a million, rounded
//! down to a whole number, and then limited to the range from -1 to 1. So a
//! reading is below a threshold that is a whole number of millionths exactly
//! if the numeral, as written, is below it.

use vstd::prelude::*;
use vstd::arithmetic::div_mod::{
    lemma_fundamental_div_mod, lemma_fundamental_div_mod_converse, lemma_mod_bound,
};
use vstd::arithmetic::power::{lemma_pow0, lemma_pow_increases, lemma_pow_positive, pow};
use vstd::slice::{slice_subrange, slice_to_vec};
use crate::units::{clamp_spec, ONE};

verus! {

/// The byte `+`.
pub const PLUS: u8 = 43;

/// The byte `-`.
pub const MINUS: u8 = 45;

/// The byte `.`.
pub const POINT: u8 = 46;

/// The byte `0`; the other digits follow it in order.
pub const DIGIT_0: u8 = 48;

/// The byte `9`.
pub const DIGIT_9: u8 = 57;

/// The byte `A`; the other capital letters follow it in order.
pub const UPPER_A: u8 = 65;

/// The byte `Z`.
pub const UPPER_Z: u8 = 90;

/// The byte `e`.
pub const LOWER_E: u8 = 101;

/// The byte `E`.
pub const UPPER_E: u8 = 69;

/// The word `inf`, in lower case.
pub const INF: [u8; 3] = [105, 110, 102];

/// The word `infinity`, in lower case.
pub const INFINITY: [u8; 8] = [105, 110, 102, 105, 110, 105, 116, 121];

/// Whether a byte is a decimal digit.
pub open spec fn is_digit(byte: u8) -> bool {
    DIGIT_0 <= byte <= DIGIT_9
}

/// Whether all of `text` is decimal digits.
pub open spec fn all_digits(text: Seq<u8>) -> bool {
    forall|k: int| 0 <= k < text.len() ==> is_digit(#[trigger] text[k])
}

/// The number that a run of digits writes; none at all write zero.
pub open spec fn number_of(digits: Seq<u8>) -> int
    decreases digits.len(),
{
    if digits.len() == 0 {
        0
    } else {
        number_of(digits.drop_last()) * 10 + (digits.last() - DIGIT_0)
    }
}

/// Where the run of digits that starts at `from` ends: the index of the first
/// byte from there on that is no digit, or the length of the text.
pub open spec fn digits_end(text: Seq<u8>, from: int) -> int
    decreases text.len() - from,
{
    if 0 <= from < text.len() && is_digit(text[from]) {
        digits_end(text, from + 1)
    } else {
        from
    }
}

/// Whether a sign stands at `at`.
pub open spec fn has_sign(text: Seq<u8>, at: int) -> bool {
    0 <= at < text.len() && (text[at] == PLUS || text[at] == MINUS)
}

/// Whether a minus sign stands at `at`.
pub open spec fn has_minus(text: Seq<u8>, at: int) -> bool {
    0 <= at < text.len() && text[at] == MINUS
}

/// A letter in lower case; any other byte as it is.
pub open spec fn lower(byte: u8) -> u8 {
    if UPPER_A <= byte <= UPPER_Z {
        (byte + 32) as u8
    } else {
        byte
    }
}

/// Whether `text` is `word` but for the case of its letters. `word` is in
/// lower case.
pub open spec fn spells(text: Seq<u8>, word: Seq<u8>) -> bool {
    text.len() == word.len() && forall|k: int|
        0 <= k < word.len() ==> lower(#[trigger] text[k]) == word[k]
}

/// What a numeral says.
pub enum Numeral {
    /// Beyond every number, on the side of the sign.
    Infinite { negative: bool },
    /// The digits before and after the point as one run, the number of them
    /// that stood after the point, and the exponent of ten.
    Finite { negative: bool, digits: Seq<u8>, fraction_len: int, exponent: int },
}

/// The index behind the sign at `at`, or `at` where no sign stands.
pub open spec fn sign_end(text: Seq<u8>, at: int) -> int {
    if has_sign(text, at) {
        at + 1
    } else {
        at
    }
}

/// The exponent that `token` writes from `at` to its end: zero where
/// nothing is left, else what follows the letter `e`, which is an optional
/// sign and at least one digit.
pub open spec fn exponent_of(token: Seq<u8>, at: int) -> Option<int> {
    let start = sign_end(token, at + 1);
    let end = digits_end(token, start);
    let size = number_of(token.subrange(start, end));
    if at == token.len() {
        Some(0)
    } else if lower(token[at]) != LOWER_E || end == start || end != token.len() {
        None
    } else if has_minus(token, at + 1) {
        Some(-size)
    } else {
        Some(size)
    }
}

/// Where the digits before the point start: behind the sign, if there is one.
pub open spec fn whole_start(token: Seq<u8>) -> int {
    sign_end(token, 0)
}

/// Where the digits before the point end.
pub open spec fn whole_end(token: Seq<u8>) -> int {
    digits_end(token, whole_start(token))
}

/// Where the digits after the point start: behind the point if one follows
/// the digits before it, else where those end.
pub open spec fn fraction_start(token: Seq<u8>) -> int {
    if whole_end(token) < token.len() && token[whole_end(token)] == POINT {
        whole_end(token) + 1
    } else {
        whole_end(token)
    }
}

/// Where the digits after the point end.
pub open spec fn fraction_end(token: Seq<u8>) -> int {
    digits_end(token, fraction_start(token))
}

/// The digits before and after the point, as one run.
pub open spec fn written_digits(token: Seq<u8>) -> Seq<u8> {
    token.subrange(whole_start(token), whole_end(token)) + token.subrange(
        fraction_start(token),
        fraction_end(token),
    )
}

/// Whether `token` is one of the words for infinity behind an optional sign.
pub open spec fn writes_infinity(token: Seq<u8>) -> bool {
    let body = token.subrange(whole_start(token), token.len() as int);
    spells(body, INF@) || spells(body, INFINITY@)
}

/// The numeral that `token` is, if it is one.
pub open spec fn numeral_of(token: Seq<u8>) -> Option<Numeral> {
    if writes_infinity(token) {
        Some(Numeral::Infinite { negative: has_minus(token, 0) })
    } else if written_digits(token).len() == 0 {
        None
    } else {
        match exponent_of(token, fraction_end(token)) {
            Some(exponent) => Some(
                Numeral::Finite {
                    negative: has_minus(token, 0),
                    digits: written_digits(token),
                    fraction_len: fraction_end(token) - fraction_start(token),
                    exponent,
                },
            ),
            None => None,
        }
    }
}

/// The whole number `size * 10^shift`, with the sign given, rounded down.
pub open spec fn floor_scaled(negative: bool, size: int, shift: int) -> int {
    let signed = if negative {
        -size
    } else {
        size
    };
    if shift >= 0 {
        signed * pow(10, shift as nat)
    } else {
        signed / pow(10, (-shift) as nat)
    }
}

/// The value of a numeral in millionths, rounded down and limited to the
/// range from -1 to 1.
pub open spec fn reading_of(numeral: Numeral) -> i64 {
    match numeral {
        Numeral::Infinite { negative } => if negative {
            (-ONE) as i64
        } else {
            ONE
        },
        Numeral::Finite { negative, digits, fraction_len, exponent } => clamp_spec(
            floor_scaled(negative, number_of(digits), exponent - fraction_len + 6),
            -ONE,
            ONE as int,
        ) as i64,
    }
}

/// The reading of `token`, if it is a numeral.
pub open spec fn coordinate_of(token: Seq<u8>) -> Option<i64> {
    match numeral_of(token) {
        Some(numeral) => Some(reading_of(numeral)),
        None => None,
    }
}

/// The smaller of two numbers.
spec fn least(a: int, b: int) -> int {
    if a <= b {
        a
    } else {
        b
    }
}

/// Ten to the power `e + 1` is ten times ten to the power `e`.
proof fn lemma_pow10_step(e: nat)
    ensures
        pow(10, e + 1) == pow(10, e) * 10,
        pow(10, e) > 0,
{
    reveal(pow);
    lemma_pow_positive(10, e);
    assert(pow(10, e + 1) == 10 * pow(10, (e + 1 - 1) as nat));
}

/// A run of digits writes a number that is not negative and below ten to
/// the power of its length.
proof fn lemma_number_bound(digits: Seq<u8>)
    requires
        all_digits(digits),
    ensures
        0 <= number_of(digits) < pow(10, digits.len()),
    decreases digits.len(),
{
    if digits.len() == 0 {
        lemma_pow0(10);
    } else {
        let front = digits.drop_last();
        assert(is_digit(digits[digits.len() - 1]));
        lemma_number_bound(front);
        lemma_pow10_step(front.len());
    }
}

/// The number written by two runs of digits, one after the other.
proof fn lemma_number_split(front: Seq<u8>, back: Seq<u8>)
    ensures
        number_of(front + back) == number_of(front) * pow(10, back.len()) + number_of(back),
    decreases back.len(),
{
    if back.len() == 0 {
        lemma_pow0(10);
        assert(front + back =~= front);
    } else {
        let shorter = back.drop_last();
        assert((front + back).drop_last() =~= front + shorter);
        lemma_number_split(front, shorter);
        lemma_pow10_step(shorter.len());
        let p = pow(10, shorter.len());
        assert(number_of(front) * (p * 10) == (number_of(front) * p) * 10) by (nonlinear_arith);
    }
}

/// Finds the end of the run of digits that starts at `from`.
fn digit_run_end(text: &[u8], from: usize) -> (end: usize)
    requires
        from <= text.len(),
    ensures
        end == digits_end(text@, from as int),
        from <= end <= text.len(),
        all_digits(text@.subrange(from as int, end as int)),
{
    let mut end: usize = from;
    while end < text.len() && DIGIT_0 <= text[end] && text[end] <= DIGIT_9
        invariant
            from <= end <= text.len(),
            digits_end(text@, from as int) == digits_end(text@, end as int),
            all_digits(text@.subrange(from as int, end as int)),
        decreases text.len() - end,
    {
        end += 1;
        assert forall|k: int| 0 <= k < end - from implies is_digit(
            #[trigger] text@.subrange(from as int, end as int)[k],
        ) by {
            if k < end - from - 1 {
                assert(text@.subrange(from as int, end as int)[k] == text@.subrange(
                    from as int,
                    end - 1,
                )[k]);
            }
        }
    }
    end
}

/// Tells whether the text from `from` on is `word` but for the case of its
/// letters.
fn spells_word(text: &[u8], from: usize, word: &[u8]) -> (r: bool)
    requires
        from <= text.len(),
    ensures
        r == spells(text@.subrange(from as int, text.len() as int), word@),
{
    if text.len() - from != word.len() {
        return false;
    }
    let ghost body = text@.subrange(from as int, text.len() as int);
    let mut k: usize = 0;
    while k < word.len()
        invariant
            k <= word.len(),
            from <= text.len(),
            text.len() - from == word.len(),
            body == text@.subrange(from as int, text.len() as int),
            forall|j: int| 0 <= j < k ==> lower(#[trigger] body[j]) == word@[j],
        decreases word.len() - k,
    {
        let byte: u8 = text[from + k];
        let folded: u8 = if UPPER_A <= byte && byte <= UPPER_Z {
            byte + 32
        } else {
            byte
        };
        assert(byte == body[k as int]);
        if folded != word[k] {
            return false;
        }
        k += 1;
    }
    true
}

/// The number that the digits from `from` up to `to` write, or `cap` if
/// that is less.
fn saturating_number(digits: &[u8], from: usize, to: usize, cap: u128) -> (r: u128)
    requires
        from <= to <= digits.len(),
        all_digits(digits@.subrange(from as int, to as int)),
        cap <= 1_000_000_000_000_000_000_000_000_000_000_000_000,
    ensures
        r == least(number_of(digits@.subrange(from as int, to as int)), cap as int),
{
    let mut r: u128 = 0;
    let mut k: usize = from;
    while k < to
        invariant
            from <= k <= to <= digits.len(),
            all_digits(digits@.subrange(from as int, to as int)),
            cap <= 1_000_000_000_000_000_000_000_000_000_000_000_000,
            r == least(number_of(digits@.subrange(from as int, k as int)), cap as int),
            number_of(digits@.subrange(from as int, k as int)) >= 0,
        decreases to - k,
    {
        let byte: u8 = digits[k];
        proof {
            assert(byte == digits@.subrange(from as int, to as int)[k - from]);
            assert(digits@.subrange(from as int, k + 1).drop_last() =~= digits@.subrange(
                from as int,
                k as int,
            ));
        }
        let next: u128 = r * 10 + (byte - DIGIT_0) as u128;
        r = if next > cap {
            cap
        } else {
            next
        };
        k += 1;
    }
    r
}

/// Tells whether the digits from `from` up to `to` write a number other than
/// zero.
fn writes_nonzero(digits: &[u8], from: usize, to: usize) -> (r: bool)
    requires
        from <= to <= digits.len(),
        all_digits(digits@.subrange(from as int, to as int)),
    ensures
        r == (number_of(digits@.subrange(from as int, to as int)) != 0),
        number_of(digits@.subrange(from as int, to as int)) >= 0,
{
    let mut r: bool = false;
    let mut k: usize = from;
    while k < to
        invariant
            from <= k <= to <= digits.len(),
            all_digits(digits@.subrange(from as int, to as int)),
            r == (number_of(digits@.subrange(from as int, k as int)) != 0),
            number_of(digits@.subrange(from as int, k as int)) >= 0,
        decreases to - k,
    {
        let byte: u8 = digits[k];
        proof {
            assert(byte == digits@.subrange(from as int, to as int)[k - from]);
            assert(digits@.subrange(from as int, k + 1).drop_last() =~= digits@.subrange(
                from as int,
                k as int,
            ));
        }
        if byte != DIGIT_0 {
            r = true;
        }
        k += 1;
    }
    r
}

/// Whether the bounded `shift` can stand in for the `exact` one when a run
/// of `len` digits is scaled and limited: either they are the same, or both
/// move every digit out of sight on the same side.
spec fn stands_for(shift: int, exact: int, len: int) -> bool {
    shift == exact || (shift >= 7 && exact >= shift) || (-shift >= len && exact <= shift)
}

/// Ten to the power seven.
proof fn lemma_pow10_7()
    ensures
        pow(10, 7) == 10_000_000,
{
    lemma_pow0(10);
    lemma_pow10_step(0);
    lemma_pow10_step(1);
    lemma_pow10_step(2);
    lemma_pow10_step(3);
    lemma_pow10_step(4);
    lemma_pow10_step(5);
    lemma_pow10_step(6);
}

/// Division that rounds down, of a number given as `front * d + back`.
proof fn lemma_signed_floor(front: int, back: int, d: int, negative: bool)
    requires
        d > 0,
        0 <= back < d,
    ensures
        (if negative {
            -(front * d + back)
        } else {
            front * d + back
        }) / d == (if !negative {
            front
        } else if back == 0 {
            -front
        } else {
            -front - 1
        }),
{
    if !negative {
        lemma_fundamental_div_mod_converse(front * d + back, d, front, back);
    } else if back == 0 {
        assert(-(front * d + back) == (-front) * d + 0) by (nonlinear_arith)
            requires
                back == 0,
        ;
        lemma_fundamental_div_mod_converse(-(front * d + back), d, -front, 0);
    } else {
        assert(-(front * d + back) == (-front - 1) * d + (d - back)) by (nonlinear_arith);
        lemma_fundamental_div_mod_converse(-(front * d + back), d, -front - 1, d - back);
    }
}

/// The digits scaled by ten to the power `exact`, with the sign given,
/// rounded down and limited to the range from -1 to 1. `shift` is `exact`
/// within bounds.
fn limited_reading(negative: bool, digits: &[u8], shift: i128, Ghost(exact): Ghost<int>) -> (r: i64)
    requires
        digits.len() > 0,
        all_digits(digits@),
        stands_for(shift as int, exact, digits.len() as int),
        -0x4000_0000_0000_0000_0000_0000_0000_0000 <= shift,
        shift <= 0x4000_0000_0000_0000_0000_0000_0000_0000,
    ensures
        r == clamp_spec(floor_scaled(negative, number_of(digits@), exact), -ONE, ONE as int),
        -ONE <= r <= ONE,
{
    let len: usize = digits.len();
    let cap: u128 = 1_000_001;
    let ghost number = number_of(digits@);
    let ghost quotient: int;
    let size: u128;
    let inexact: bool;
    proof {
        assert(digits@.subrange(0, len as int) =~= digits@);
        lemma_number_bound(digits@);
    }
    if shift >= 0 {
        let mut scaled: u128 = saturating_number(digits, 0, len, cap);
        let mut done: i128 = 0;
        proof {
            lemma_pow0(10);
        }
        while done < 7 && done < shift
            invariant
                0 <= done <= 7,
                done <= shift,
                number >= 0,
                cap == 1_000_001,
                scaled == least(number * pow(10, done as nat), cap as int),
            decreases 7 - done,
        {
            proof {
                lemma_pow10_step(done as nat);
                let p = pow(10, done as nat);
                assert(number * (p * 10) == (number * p) * 10) by (nonlinear_arith);
                assert(number * p >= 0) by (nonlinear_arith)
                    requires
                        number >= 0,
                        p > 0,
                ;
            }
            let next: u128 = scaled * 10;
            scaled = if next > cap {
                cap
            } else {
                next
            };
            done += 1;
        }
        proof {
            let p = pow(10, exact as nat);
            lemma_pow_positive(10, exact as nat);
            if done != exact {
                lemma_pow10_7();
                lemma_pow_increases(10, 7, exact as nat);
                assert(number * p >= 10_000_000 || number == 0) by (nonlinear_arith)
                    requires
                        number >= 0,
                        p >= 10_000_000,
                ;
                assert(number == 0 ==> number * p == 0 && number * 10_000_000 == 0);
            }
            assert(number * p >= 0) by (nonlinear_arith)
                requires
                    number >= 0,
                    p > 0,
            ;
            assert((-number) * p == -(number * p)) by (nonlinear_arith);
            quotient = number * p;
        }
        size = scaled;
        inexact = false;
    } else if -shift >= len as i128 {
        proof {
            let p = pow(10, (-exact) as nat);
            lemma_pow_increases(10, len as nat, (-exact) as nat);
            assert(number == 0 * p + number) by (nonlinear_arith);
            lemma_signed_floor(0, number, p, negative);
            quotient = 0;
        }
        size = 0;
        inexact = writes_nonzero(digits, 0, len);
    } else {
        let keep: usize = len - ((-shift) as usize);
        proof {
            let front = digits@.subrange(0, keep as int);
            let back = digits@.subrange(keep as int, len as int);
            let p = pow(10, (-exact) as nat);
            assert(front + back =~= digits@);
            assert(all_digits(back)) by {
                assert forall|k: int| 0 <= k < back.len() implies is_digit(#[trigger] back[k]) by {
                    assert(back[k] == digits@[keep + k]);
                }
            }
            assert(all_digits(front)) by {
                assert forall|k: int| 0 <= k < front.len() implies is_digit(
                    #[trigger] front[k],
                ) by {
                    assert(front[k] == digits@[k]);
                }
            }
            lemma_number_split(front, back);
            lemma_number_bound(back);
            lemma_number_bound(front);
            lemma_signed_floor(number_of(front), number_of(back), p, negative);
            quotient = number_of(front);
        }
        size = saturating_number(digits, 0, keep, cap);
        inexact = writes_nonzero(digits, keep, len);
    }
    assert(size == least(quotient, cap as int));
    assert(quotient >= 0);
    assert(floor_scaled(negative, number, exact) == if !negative {
        quotient
    } else if inexact {
        -quotient - 1
    } else {
        -quotient
    });
    if !negative {
        if size >= 1_000_000 {
            ONE
        } else {
            size as i64
        }
    } else {
        let grown: u128 = if inexact {
            size + 1
        } else {
            size
        };
        if grown >= 1_000_000 {
            -ONE
        } else {
            -(grown as i64)
        }
    }
}

/// The largest size of an exponent that is kept as it is.
spec fn exponent_cap() -> int {
    1_000_000_000_000_000_000_000_000_000_000
}

/// Whether `bounded` is `exact`, or the bound on the side where `exact` lies
/// beyond it.
spec fn bounded_as(bounded: int, exact: int) -> bool {
    bounded == exact || (bounded == exponent_cap() && exact >= exponent_cap()) || (bounded
        == -exponent_cap() && exact <= -exponent_cap())
}

/// Reads the exponent that `token` writes from `at` to its end, bounded in
/// size.
fn read_exponent(token: &[u8], at: usize) -> (r: Option<i128>)
    requires
        at <= token.len(),
    ensures
        match exponent_of(token@, at as int) {
            Some(exact) => r.is_some() && bounded_as(r.unwrap() as int, exact),
            None => r.is_none(),
        },
        r matches Some(bounded) ==> -exponent_cap() <= bounded <= exponent_cap(),
{
    let len: usize = token.len();
    if at == len {
        return Some(0);
    }
    let mark: u8 = token[at];
    if mark != LOWER_E && mark != UPPER_E {
        return None;
    }
    let after: usize = at + 1;
    let signed: bool = after < len && (token[after] == PLUS || token[after] == MINUS);
    let negative: bool = after < len && token[after] == MINUS;
    let start: usize = if signed {
        after + 1
    } else {
        after
    };
    let end: usize = digit_run_end(token, start);
    if end == start || end != len {
        return None;
    }
    let size: u128 = saturating_number(
        token,
        start,
        end,
        1_000_000_000_000_000_000_000_000_000_000,
    );
    proof {
        lemma_number_bound(token@.subrange(start as int, end as int));
    }
    if negative {
        Some(-(size as i128))
    } else {
        Some(size as i128)
    }
}

/// The digits of two runs of `text`, one after the other.
fn join_runs(
    text: &[u8],
    first: usize,
    first_end: usize,
    second: usize,
    second_end: usize,
) -> (digits: Vec<u8>)
    requires
        first <= first_end <= text.len(),
        second <= second_end <= text.len(),
        all_digits(text@.subrange(first as int, first_end as int)),
        all_digits(text@.subrange(second as int, second_end as int)),
    ensures
        digits@ == text@.subrange(first as int, first_end as int) + text@.subrange(
            second as int,
            second_end as int,
        ),
        all_digits(digits@),
{
    let mut digits: Vec<u8> = slice_to_vec(slice_subrange(text, first, first_end));
    digits.extend_from_slice(slice_subrange(text, second, second_end));
    let ghost one = text@.subrange(first as int, first_end as int);
    let ghost other = text@.subrange(second as int, second_end as int);
    assert(digits@ =~= one + other);
    assert forall|k: int| 0 <= k < digits@.len() implies is_digit(#[trigger] digits@[k]) by {
        if k < one.len() {
            assert(digits@[k] == one[k]);
        } else {
            assert(digits@[k] == other[k - one.len()]);
        }
    }
    digits
}

/// Tells whether `token` is one of the words for infinity behind an
/// optional sign.
fn reads_infinity(token: &[u8], start: usize) -> (r: bool)
    requires
        start == whole_start(token@),
        start <= token.len(),
    ensures
        r == writes_infinity(token@),
{
    let inf: [u8; 3] = INF;
    let infinity: [u8; 8] = INFINITY;
    spells_word(token, start, inf.as_slice()) || spells_word(token, start, infinity.as_slice())
}

/// Reads one coordinate: the value of the numeral `token` in millionths,
/// rounded down and limited to the range from -1 to 1, or `None` where
/// `token` is no numeral.
pub fn read_coordinate(token: &[u8]) -> (r: Option<i64>)
    ensures
        r == coordinate_of(token@),
        r matches Some(reading) ==> -ONE <= reading <= ONE,
{
    let len: usize = token.len();
    let start: usize = if len > 0 && (token[0] == PLUS || token[0] == MINUS) {
        1
    } else {
        0
    };
    let negative: bool = len > 0 && token[0] == MINUS;
    if reads_infinity(token, start) {
        return Some(
            if negative {
                -ONE
            } else {
                ONE
            },
        );
    }
    let whole_end: usize = digit_run_end(token, start);
    let fraction_start: usize = if whole_end < len && token[whole_end] == POINT {
        whole_end + 1
    } else {
        whole_end
    };
    let fraction_end: usize = digit_run_end(token, fraction_start);
    let digits: Vec<u8> = join_runs(token, start, whole_end, fraction_start, fraction_end);
    assert(digits@ == written_digits(token@));
    if digits.len() == 0 {
        return None;
    }
    match read_exponent(token, fraction_end) {
        None => None,
        Some(exponent) => {
            let fraction_len: usize = fraction_end - fraction_start;
            let shift: i128 = exponent - fraction_len as i128 + 6;
            let ghost exact = exponent_of(token@, fraction_end as int).unwrap() - fraction_len + 6;
            Some(limited_reading(negative, digits.as_slice(), shift, Ghost(exact)))
        },
    }
}

/// Every reading lies within the range from -1 to 1.
pub proof fn reading_is_in_range(numeral: Numeral)
    ensures
        -ONE <= reading_of(numeral) <= ONE,
{
}

/// Rounding down moves no value across a whole number of millionths: the
/// rounded value reaches `threshold` exactly if the value itself does. Here the
/// value is `size * 10^shift` with the sign given, and `shift` is below zero,
/// so that there is something to round.
pub proof fn rounding_keeps_thresholds(negative: bool, size: int, shift: int, threshold: int)
    requires
        shift < 0,
    ensures
        floor_scaled(negative, size, shift) >= threshold <==> (if negative {
            -size
        } else {
            size
        }) >= threshold * pow(10, (-shift) as nat),
{
    let signed = if negative {
        -size
    } else {
        size
    };
    let d = pow(10, (-shift) as nat);
    lemma_pow_positive(10, (-shift) as nat);
    lemma_fundamental_div_mod(signed, d);
    lemma_mod_bound(signed, d);
    let q = signed / d;
    if q >= threshold {
        assert(d * q >= threshold * d) by (nonlinear_arith)
            requires
                q >= threshold,
                d > 0,
        ;
    } else {
        assert(d * q + d <= threshold * d) by (nonlinear_arith)
            requires
                q + 1 <= threshold,
                d > 0,
        ;
    }
}

} // verus!
