//! Amounts of money, held exactly as a signed count of hundredths, and their
//! decimal notation.

use vstd::prelude::*;
use crate::rounding::{
    lemma_nearest_is_round_half_away, lemma_power_of_ten_grows, lemma_power_of_ten_positive,
    lemma_round_of_small, power_of_ten, round_half_away,
};
use crate::text::{
    find_from, first_index_of, from_chars, lemma_first_index_of, lemma_first_index_of_prefix,
    slice_chars, to_chars,
};

verus! {

/// A signed amount of money: `hundredths` hundredths of the currency unit.
/// Income is positive, an expense negative.
#[derive(Clone, Copy, Debug, PartialEq, Eq, Structural)]
pub struct Amount {
    pub hundredths: i64,
}

/// Whether `c` is one of the ten decimal digits.
pub open spec fn is_digit(c: char) -> bool {
    '0' <= c <= '9'
}

/// The number that the digit `c` stands for.
pub open spec fn digit_value(c: char) -> int {
    c as int - '0' as int
}

/// Whether `s` holds decimal digits only.
pub open spec fn all_digits(s: Seq<char>) -> bool {
    forall|i: int| 0 <= i < s.len() ==> is_digit(#[trigger] s[i])
}

/// The number written by the digits `s`, most significant first; zero for
/// the empty sequence.
pub open spec fn digits_value(s: Seq<char>) -> int
    decreases s.len(),
{
    if s.len() == 0 {
        0
    } else {
        digits_value(s.drop_last()) * 10 + digit_value(s.last())
    }
}

/// A number written by digits is not negative.
pub proof fn lemma_digits_value_nonnegative(s: Seq<char>)
    requires
        all_digits(s),
    ensures
        0 <= digits_value(s),
    decreases s.len(),
{
    if s.len() > 0 {
        lemma_digits_value_nonnegative(s.drop_last());
    }
}

/// A number written by digits is not negative, and no prefix of it writes a
/// larger number.
pub proof fn lemma_digits_value_prefix(s: Seq<char>, k: int)
    requires
        all_digits(s),
        0 <= k <= s.len(),
    ensures
        0 <= digits_value(s.take(k)) <= digits_value(s),
    decreases s.len() - k,
{
    if k == s.len() {
        assert(s.take(k) =~= s);
        lemma_digits_value_nonnegative(s);
    } else {
        lemma_digits_value_prefix(s, k + 1);
        let longer = s.take(k + 1);
        assert(longer.drop_last() =~= s.take(k));
        lemma_digits_value_nonnegative(s.take(k));
    }
}

/// A number written with `n` digits is less than ten to the power `n`.
pub proof fn lemma_digits_value_bound(s: Seq<char>)
    requires
        all_digits(s),
    ensures
        0 <= digits_value(s) < power_of_ten(s.len()),
    decreases s.len(),
{
    if s.len() > 0 {
        assert(is_digit(s[s.len() - 1]));
        assert forall|i: int| 0 <= i < s.drop_last().len() implies is_digit(
            #[trigger] s.drop_last()[i],
        ) by {
            assert(s.drop_last()[i] == s[i]);
        }
        lemma_digits_value_bound(s.drop_last());
    }
}

/// Writing the digits `low` after the digits `high` shifts the number of
/// `high` by as many places as `low` has digits, and adds the number of
/// `low`.
pub proof fn lemma_digits_value_concat(high: Seq<char>, low: Seq<char>)
    ensures
        digits_value(high + low) == digits_value(high) * power_of_ten(low.len()) + digits_value(
            low,
        ),
    decreases low.len(),
{
    if low.len() == 0 {
        assert(high + low =~= high);
    } else {
        let both = high + low;
        assert(both.drop_last() =~= high + low.drop_last());
        assert(both.last() == low.last());
        lemma_digits_value_concat(high, low.drop_last());
        let shorter = power_of_ten(low.drop_last().len());
        assert(digits_value(high) * (10 * shorter) == (digits_value(high) * shorter) * 10)
            by (nonlinear_arith);
    }
}

/// Every part of a sequence of digits is a sequence of digits.
pub proof fn lemma_all_digits_parts(digits: Seq<char>, k: int)
    requires
        all_digits(digits),
        0 <= k <= digits.len(),
    ensures
        all_digits(digits.take(k)),
        all_digits(digits.skip(k)),
{
    assert forall|i: int| 0 <= i < digits.take(k).len() implies is_digit(
        #[trigger] digits.take(k)[i],
    ) by {
        assert(digits.take(k)[i] == digits[i]);
    }
    assert forall|i: int| 0 <= i < digits.skip(k).len() implies is_digit(
        #[trigger] digits.skip(k)[i],
    ) by {
        assert(digits.skip(k)[i] == digits[i + k]);
    }
}

/// Dropping the last digits of a number and rounding is done on the digits:
/// the number written by the first `k` digits, and one more where the digit
/// that follows them is five or more.
pub proof fn lemma_round_at(digits: Seq<char>, k: int)
    requires
        all_digits(digits),
        0 <= k <= digits.len(),
    ensures
        round_half_away(digits_value(digits), power_of_ten((digits.len() - k) as nat))
            == digits_value(digits.take(k)) + rounds_up(digits, k),
{
    let kept = digits.take(k);
    let dropped = digits.skip(k);
    let scale = power_of_ten(dropped.len());
    assert(digits =~= kept + dropped);
    lemma_all_digits_parts(digits, k);
    lemma_digits_value_concat(kept, dropped);
    lemma_digits_value_nonnegative(kept);
    lemma_digits_value_bound(dropped);
    let whole = digits_value(kept);
    let rest = digits_value(dropped);
    let up = rounds_up(digits, k);
    assert(digits_value(digits) == whole * scale + rest);
    assert(whole * scale >= 0) by (nonlinear_arith)
        requires
            whole >= 0,
            scale > 0,
    ;
    if dropped.len() == 0 {
        assert(scale == 1);
        assert(up == 0);
    } else {
        let first = seq![dropped[0]];
        let tail = dropped.skip(1);
        assert(dropped =~= first + tail);
        lemma_all_digits_parts(dropped, 1);
        lemma_digits_value_concat(first, tail);
        lemma_digits_value_bound(tail);
        let unit = power_of_ten(tail.len());
        assert(first.drop_last() =~= Seq::<char>::empty());
        assert(first.last() == dropped[0]);
        assert(digits_value(first.drop_last()) == 0);
        assert(digits_value(first) == digit_value(dropped[0]));
        assert(is_digit(dropped[0]));
        assert(dropped[0] == digits[k]);
        assert(scale == 10 * unit);
        let digit = digit_value(dropped[0]);
        let part = digit * unit;
        assert(0 <= part <= 9 * unit && (digit >= 5 ==> part >= 5 * unit) && (digit < 5 ==> part
            <= 4 * unit)) by (nonlinear_arith)
            requires
                part == digit * unit,
                0 <= digit <= 9,
                unit > 0,
        ;
        assert(rest == part + digits_value(tail));
    }
    assert((whole + up) * scale == whole * scale + up * scale) by (nonlinear_arith);
    assert(2 * (whole + up) * scale == 2 * ((whole + up) * scale)) by (nonlinear_arith);
    assert(up * scale == if up == 1 {
        scale
    } else {
        0
    }) by (nonlinear_arith)
        requires
            up == 0 || up == 1,
    ;
    lemma_nearest_is_round_half_away(digits_value(digits), scale, whole + up);
}

/// Reads `chars[from..to]` as a decimal number no larger than `cap`: `Some`
/// exactly when every character there is a digit and the number written does
/// not exceed `cap`. The cap leaves room for one more digit in a `u128`.
pub(crate) fn read_digits(chars: &[char], from: usize, to: usize, cap: u128) -> (r: Option<u128>)
    requires
        from <= to <= chars.len(),
        cap < 0x1000_0000_0000_0000_0000_0000_0000_0000,
    ensures
        r is Some <==> all_digits(chars@.subrange(from as int, to as int)) && digits_value(
            chars@.subrange(from as int, to as int),
        ) <= cap,
        r matches Some(v) ==> v == digits_value(chars@.subrange(from as int, to as int)),
{
    let ghost seg = chars@.subrange(from as int, to as int);
    let mut acc: u128 = 0;
    let mut i: usize = from;
    assert(seg.take(0) =~= Seq::<char>::empty());
    while i < to
        invariant
            from <= i <= to <= chars.len(),
            seg == chars@.subrange(from as int, to as int),
            all_digits(seg.take(i - from)),
            acc == digits_value(seg.take(i - from)),
            acc <= cap < 0x1000_0000_0000_0000_0000_0000_0000_0000,
        decreases to - i,
    {
        let c = chars[i];
        let ghost longer = seg.take(i - from + 1);
        proof {
            assert(seg[i - from] == c);
            assert(longer.drop_last() =~= seg.take(i - from));
            assert(longer.last() == c);
        }
        if !('0' <= c && c <= '9') {
            return None;
        }
        let digit: u128 = (c as u32 - '0' as u32) as u128;
        let next: u128 = acc * 10 + digit;
        proof {
            assert(next == digits_value(longer));
            assert forall|j: int| 0 <= j < longer.len() implies is_digit(#[trigger] longer[j]) by {
                if j < i - from {
                    assert(longer[j] == seg.take(i - from)[j]);
                }
            }
            if all_digits(seg) {
                lemma_digits_value_prefix(seg, i - from + 1);
            }
        }
        if next > cap {
            return None;
        }
        acc = next;
        i += 1;
    }
    assert(seg.take(to - from) =~= seg);
    Some(acc)
}

/// Length of the sign that `text` starts with: one for a leading `+` or `-`,
/// else zero.
pub open spec fn sign_len(text: Seq<char>) -> int {
    if text.len() > 0 && (text[0] == '-' || text[0] == '+') {
        1
    } else {
        0
    }
}

/// Whether `text` starts with a minus sign.
pub open spec fn is_negative(text: Seq<char>) -> bool {
    text.len() > 0 && text[0] == '-'
}

/// Where the exponent of `body` begins: the index of its first `e` or `E`,
/// or `body.len()` when it has none.
pub open spec fn exponent_mark(body: Seq<char>) -> int {
    let small = first_index_of(body, 'e');
    let capital = first_index_of(body, 'E');
    if small <= capital {
        small
    } else {
        capital
    }
}

/// The part of `text` that writes the digits of the number: what stands
/// between the sign, if any, and the exponent, if any.
pub open spec fn mantissa(text: Seq<char>) -> Seq<char> {
    let body = text.skip(sign_len(text));
    body.take(exponent_mark(body))
}

/// The part of `text` that writes the exponent: what follows the first `e`
/// or `E`, if there is one.
pub open spec fn exponent_text(text: Seq<char>) -> Option<Seq<char>> {
    let body = text.skip(sign_len(text));
    if exponent_mark(body) < body.len() {
        Some(body.skip(exponent_mark(body) + 1))
    } else {
        None
    }
}

/// The digits of `text` before the decimal point: the mantissa up to its
/// first `.` or its end.
pub open spec fn whole_part(text: Seq<char>) -> Seq<char> {
    mantissa(text).take(first_index_of(mantissa(text), '.'))
}

/// The digits of `text` after the decimal point: what follows the first `.`
/// of the mantissa; empty when there is none.
pub open spec fn fraction_part(text: Seq<char>) -> Seq<char> {
    let dot = first_index_of(mantissa(text), '.');
    if dot < mantissa(text).len() {
        mantissa(text).skip(dot + 1)
    } else {
        Seq::empty()
    }
}

/// Whether `exponent` writes an exponent: an optional sign and at least one
/// digit.
pub open spec fn is_exponent(exponent: Seq<char>) -> bool {
    let digits = exponent.skip(sign_len(exponent));
    digits.len() > 0 && all_digits(digits)
}

/// The number that `exponent` writes.
pub open spec fn exponent_value(exponent: Seq<char>) -> int {
    let value = digits_value(exponent.skip(sign_len(exponent)));
    if is_negative(exponent) {
        -value
    } else {
        value
    }
}

/// The exponent of `text`: zero where it writes none.
pub open spec fn exponent_of(text: Seq<char>) -> int {
    match exponent_text(text) {
        Some(exponent) => exponent_value(exponent),
        None => 0,
    }
}

/// Whether `text` writes a number in decimal notation: an optional sign,
/// then digits with at most one decimal point among them and at least one
/// digit in all, and then, optionally, `e` or `E` and an exponent. This is
/// the notation of the floating-point numbers but for those that are not
/// finite.
pub open spec fn is_decimal(text: Seq<char>) -> bool {
    &&& all_digits(whole_part(text))
    &&& all_digits(fraction_part(text))
    &&& whole_part(text).len() + fraction_part(text).len() > 0
    &&& exponent_text(text) matches Some(exponent) ==> is_exponent(exponent)
}

/// The number written by `digits`, times ten to the power `shift`, as a
/// whole number: for a negative `shift`, which makes a quotient of it, the
/// nearest one, halves away from zero.
pub open spec fn shifted_value(digits: Seq<char>, shift: int) -> int {
    if shift >= 0 {
        digits_value(digits) * power_of_ten(shift as nat)
    } else {
        round_half_away(digits_value(digits), power_of_ten((-shift) as nat))
    }
}

/// The number that the decimal notation `text` writes, in hundredths. Its
/// digits, read without the point, are to be taken times ten to the power of
/// the exponent less the number of digits after the point; two powers more
/// make hundredths of it. It is rounded to the nearest hundredth, halves
/// away from zero.
pub open spec fn decimal_hundredths(text: Seq<char>) -> int {
    let magnitude = shifted_value(
        whole_part(text) + fraction_part(text),
        2 + exponent_of(text) - fraction_part(text).len(),
    );
    if is_negative(text) {
        -magnitude
    } else {
        magnitude
    }
}

/// The amount that `text` writes: `Some` exactly when `text` is in decimal
/// notation and its value in hundredths fits in `i64`.
pub open spec fn amount_of(text: Seq<char>) -> Option<Amount> {
    if is_decimal(text) && i64::MIN <= decimal_hundredths(text) <= i64::MAX {
        Some(Amount { hundredths: decimal_hundredths(text) as i64 })
    } else {
        None
    }
}

/// One where the digit at place `k` of `digits` is five or more, else zero.
pub open spec fn rounds_up(digits: Seq<char>, k: int) -> int {
    if 0 <= k < digits.len() && digit_value(digits[k]) >= 5 {
        1
    } else {
        0
    }
}

/// Moving the decimal point to the left and rounding is done on the digits:
/// what is left of the point stays, and one is added where the first digit
/// right of it is five or more. With the point moved beyond the first digit,
/// nothing is left.
pub proof fn lemma_shifted_value_by_digits(digits: Seq<char>, shift: int)
    requires
        all_digits(digits),
        shift < 0,
    ensures
        -shift <= digits.len() ==> shifted_value(digits, shift) == digits_value(
            digits.take(digits.len() + shift),
        ) + rounds_up(digits, digits.len() + shift),
        -shift > digits.len() ==> shifted_value(digits, shift) == 0,
{
    if -shift <= digits.len() {
        lemma_round_at(digits, digits.len() + shift);
    } else {
        let places = (-shift) as nat;
        lemma_digits_value_bound(digits);
        lemma_power_of_ten_grows(digits.len(), (places - 1) as nat);
        lemma_round_of_small(digits_value(digits), power_of_ten(places));
    }
}

/// Largest magnitude that an amount can have, in hundredths.
const MAGNITUDE_CAP: u128 = 0x8000_0000_0000_0000;

/// Largest exponent that is reckoned with; a larger one makes the number
/// too large to hold, or nothing, whatever its digits.
const EXPONENT_CAP: u128 = 0x40_0000_0000_0000_0000;

/// Computes [`shifted_value`] where it is no more than the largest
/// magnitude of an amount.
fn shift_digits(digits: &[char], shift: i128) -> (r: Option<u128>)
    requires
        all_digits(digits@),
        -0x80_0000_0000_0000_0000 <= shift <= 0x80_0000_0000_0000_0000,
    ensures
        r is Some <==> shifted_value(digits@, shift as int) <= MAGNITUDE_CAP,
        r matches Some(v) ==> v == shifted_value(digits@, shift as int),
{
    let n = digits.len();
    assert(digits@.subrange(0, n as int) =~= digits@);
    proof {
        lemma_digits_value_nonnegative(digits@);
    }
    if shift >= 0 {
        let ghost written = digits_value(digits@);
        proof {
            lemma_power_of_ten_positive(shift as nat);
            assert(written * power_of_ten(shift as nat) >= written) by (nonlinear_arith)
                requires
                    written >= 0,
                    power_of_ten(shift as nat) >= 1,
            ;
        }
        let start = match read_digits(digits, 0, n, MAGNITUDE_CAP) {
            Some(v) => v,
            None => {
                return None;
            },
        };
        if start == 0 {
            assert(0 * power_of_ten(shift as nat) == 0) by (nonlinear_arith);
            return Some(0);
        }
        let mut acc: u128 = start;
        let mut done: i128 = 0;
        while done < shift
            invariant
                0 <= done <= shift,
                written == digits_value(digits@),
                written >= 1,
                acc == written * power_of_ten(done as nat),
                acc <= MAGNITUDE_CAP,
            decreases shift - done,
        {
            proof {
                lemma_power_of_ten_grows((done + 1) as nat, shift as nat);
                assert(written * power_of_ten((done + 1) as nat) <= written * power_of_ten(
                    shift as nat,
                )) by (nonlinear_arith)
                    requires
                        written >= 1,
                        power_of_ten((done + 1) as nat) <= power_of_ten(shift as nat),
                ;
                assert(written * (10 * power_of_ten(done as nat)) == 10 * (written * power_of_ten(
                    done as nat,
                ))) by (nonlinear_arith);
            }
            if acc > MAGNITUDE_CAP / 10 {
                return None;
            }
            acc = acc * 10;
            done += 1;
        }
        Some(acc)
    } else {
        proof {
            lemma_shifted_value_by_digits(digits@, shift as int);
        }
        let places: u128 = (-shift) as u128;
        if places > n as u128 {
            return Some(0);
        }
        let kept: usize = n - places as usize;
        proof {
            assert(digits@.subrange(0, kept as int) =~= digits@.take(kept as int));
            lemma_all_digits_parts(digits@, kept as int);
            lemma_digits_value_nonnegative(digits@.take(kept as int));
        }
        let start = match read_digits(digits, 0, kept, MAGNITUDE_CAP) {
            Some(v) => v,
            None => {
                return None;
            },
        };
        let up: u128 = if digits[kept] >= '5' {
            1
        } else {
            0
        };
        assert(is_digit(digits@[kept as int]));
        if start + up > MAGNITUDE_CAP {
            None
        } else {
            Some(start + up)
        }
    }
}

/// An exponent as it was read: its value, or that it is beyond reckoning.
enum Exponent {
    Within(i128),
    Above,
    Below,
}

/// Reads `chars[from..to]` as an exponent.
fn read_exponent(chars: &[char], from: usize, to: usize) -> (r: Option<Exponent>)
    requires
        from <= to <= chars.len(),
    ensures
        r is Some <==> is_exponent(chars@.subrange(from as int, to as int)),
        match r {
            Some(Exponent::Within(v)) => v == exponent_value(
                chars@.subrange(from as int, to as int),
            ) && -EXPONENT_CAP <= v <= EXPONENT_CAP,
            Some(Exponent::Above) => exponent_value(chars@.subrange(from as int, to as int))
                > EXPONENT_CAP,
            Some(Exponent::Below) => exponent_value(chars@.subrange(from as int, to as int))
                < -EXPONENT_CAP,
            None => true,
        },
{
    let ghost text = chars@.subrange(from as int, to as int);
    let signed = from < to && (chars[from] == '-' || chars[from] == '+');
    let negative = from < to && chars[from] == '-';
    let start: usize = if signed {
        from + 1
    } else {
        from
    };
    proof {
        assert(from < to ==> text[0] == chars@[from as int]);
        assert(text.skip(sign_len(text)) =~= chars@.subrange(start as int, to as int));
    }
    if start == to || !digits_only(chars, start, to) {
        return None;
    }
    match read_digits(chars, start, to, EXPONENT_CAP) {
        Some(v) => Some(
            Exponent::Within(
                if negative {
                    -(v as i128)
                } else {
                    v as i128
                },
            ),
        ),
        None => Some(
            if negative {
                Exponent::Below
            } else {
                Exponent::Above
            },
        ),
    }
}

/// Whether every character of `chars[from..to]` is a digit.
fn digits_only(chars: &[char], from: usize, to: usize) -> (b: bool)
    requires
        from <= to <= chars.len(),
    ensures
        b == all_digits(chars@.subrange(from as int, to as int)),
{
    let ghost seg = chars@.subrange(from as int, to as int);
    let mut i: usize = from;
    while i < to
        invariant
            from <= i <= to <= chars.len(),
            seg == chars@.subrange(from as int, to as int),
            forall|j: int| 0 <= j < i - from ==> is_digit(#[trigger] seg[j]),
        decreases to - i,
    {
        let c = chars[i];
        if !('0' <= c && c <= '9') {
            assert(seg[i - from] == c);
            return false;
        }
        i += 1;
    }
    true
}

/// A number that is not zero, with its decimal point moved nineteen places
/// or more to the right, is too large for an amount.
proof fn lemma_shifted_far_up(digits: Seq<char>, shift: int)
    requires
        digits_value(digits) >= 1,
        shift >= 19,
    ensures
        shifted_value(digits, shift) > MAGNITUDE_CAP,
{
    reveal_with_fuel(power_of_ten, 20);
    lemma_power_of_ten_grows(19, shift as nat);
    assert(digits_value(digits) * power_of_ten(shift as nat) >= power_of_ten(19))
        by (nonlinear_arith)
        requires
            digits_value(digits) >= 1,
            power_of_ten(shift as nat) >= power_of_ten(19),
            power_of_ten(19) > 0,
    ;
}

/// Where the parts of a number stand in its text: the whole part in
/// `start..dot`, the fraction in `fraction_start..mark`, and the exponent,
/// if `mark` is not the end, after `mark`.
struct Layout {
    start: usize,
    dot: usize,
    fraction_start: usize,
    mark: usize,
}

/// Finds the parts of the number that `chars` writes.
fn lay_out(chars: &[char]) -> (layout: Layout)
    ensures
        layout.start <= layout.dot <= layout.fraction_start <= layout.mark <= chars.len(),
        whole_part(chars@) == chars@.subrange(layout.start as int, layout.dot as int),
        fraction_part(chars@) == chars@.subrange(
            layout.fraction_start as int,
            layout.mark as int,
        ),
        layout.mark < chars.len() ==> exponent_text(chars@) == Some(
            chars@.subrange(layout.mark + 1, chars.len() as int),
        ),
        layout.mark == chars.len() ==> exponent_text(chars@) is None,
{
    let n = chars.len();
    let start: usize = if n > 0 && (chars[0] == '-' || chars[0] == '+') {
        1
    } else {
        0
    };
    let small = find_from(chars, 'e', start);
    let capital = find_from(chars, 'E', start);
    let mark: usize = if small <= capital {
        small
    } else {
        capital
    };
    let first_dot = find_from(chars, '.', start);
    let dot: usize = if first_dot < mark {
        first_dot
    } else {
        mark
    };
    let fraction_start: usize = if dot < mark {
        dot + 1
    } else {
        mark
    };
    proof {
        let text = chars@;
        let body = text.skip(start as int);
        assert(exponent_mark(body) == mark - start);
        assert(mantissa(text) =~= text.subrange(start as int, mark as int));
        lemma_first_index_of_prefix(body, '.', mark - start);
        assert(body.take(mark - start) == mantissa(text));
        assert(first_index_of(mantissa(text), '.') == dot - start);
        assert(whole_part(text) =~= text.subrange(start as int, dot as int));
        assert(fraction_part(text) =~= text.subrange(fraction_start as int, mark as int));
        if mark < n {
            assert(body.skip(mark - start + 1) =~= text.subrange(mark + 1, n as int));
        }
    }
    Layout { start, dot, fraction_start, mark }
}

/// Whether `exponent` was read from an exponent of the value `value`.
spec fn reads_as(exponent: Exponent, value: int) -> bool {
    match exponent {
        Exponent::Within(v) => v == value && -EXPONENT_CAP <= v <= EXPONENT_CAP,
        Exponent::Above => value > EXPONENT_CAP,
        Exponent::Below => value < -EXPONENT_CAP,
    }
}

/// The magnitude in hundredths of the number whose digits are `digits`, the
/// last `places` of them after the decimal point, with the exponent
/// `exponent`: `Some` where it is no more than the largest magnitude of an
/// amount.
fn magnitude_of(digits: &[char], places: usize, exponent: Exponent, Ghost(value): Ghost<int>) -> (r:
    Option<u128>)
    requires
        all_digits(digits@),
        places <= digits.len(),
        reads_as(exponent, value),
    ensures
        r is Some <==> shifted_value(digits@, 2 + value - places) <= MAGNITUDE_CAP,
        r matches Some(v) ==> v == shifted_value(digits@, 2 + value - places),
{
    let ghost shift = 2 + value - places;
    proof {
        lemma_digits_value_nonnegative(digits@);
    }
    match exponent {
        Exponent::Within(value) => shift_digits(digits, 2 + value - places as i128),
        Exponent::Above => {
            assert(digits@.subrange(0, digits.len() as int) =~= digits@);
            match read_digits(digits, 0, digits.len(), 0) {
                Some(_) => {
                    assert(0 * power_of_ten(shift as nat) == 0) by (nonlinear_arith);
                    Some(0)
                },
                None => {
                    proof {
                        lemma_shifted_far_up(digits@, shift);
                    }
                    None
                },
            }
        },
        Exponent::Below => {
            proof {
                lemma_shifted_value_by_digits(digits@, shift);
            }
            Some(0)
        },
    }
}

/// Reads `chars` as an amount in decimal notation.
pub fn parse_amount_chars(chars: &[char]) -> (r: Option<Amount>)
    ensures
        r == amount_of(chars@),
{
    let n = chars.len();
    let negative = n > 0 && chars[0] == '-';
    let layout = lay_out(chars);
    if (layout.dot - layout.start) + (layout.mark - layout.fraction_start) == 0 {
        return None;
    }
    if !digits_only(chars, layout.start, layout.dot) || !digits_only(
        chars,
        layout.fraction_start,
        layout.mark,
    ) {
        return None;
    }
    let exponent = if layout.mark < n {
        match read_exponent(chars, layout.mark + 1, n) {
            Some(exponent) => exponent,
            None => {
                return None;
            },
        }
    } else {
        Exponent::Within(0)
    };
    let mut digits = slice_chars(chars, layout.start, layout.dot);
    let mut fraction = slice_chars(chars, layout.fraction_start, layout.mark);
    let places = fraction.len();
    digits.append(&mut fraction);
    proof {
        assert(digits@ =~= whole_part(chars@) + fraction_part(chars@));
    }
    let magnitude = magnitude_of(digits.as_slice(), places, exponent, Ghost(exponent_of(chars@)));
    match magnitude {
        Some(value) => {
            if negative {
                Some(Amount { hundredths: (-(value as i128)) as i64 })
            } else if value < MAGNITUDE_CAP {
                Some(Amount { hundredths: value as i64 })
            } else {
                None
            }
        },
        None => None,
    }
}

/// Reads `text` as an amount in decimal notation: plain, as in `-12.50`, or
/// with an exponent, as in `1.25e1`. The number is rounded to the nearest
/// hundredth.
pub fn parse_amount(text: &str) -> (r: Option<Amount>)
    ensures
        r == amount_of(text@),
{
    let chars = to_chars(text);
    parse_amount_chars(chars.as_slice())
}

/// The digit that writes `d`, for `d` from zero to nine.
pub open spec fn digit_char(d: int) -> char {
    (d + '0' as int) as char
}

/// Decimal notation of `n`, without leading zeros; `0` for zero.
pub open spec fn decimal_digits(n: nat) -> Seq<char>
    decreases n,
{
    if n < 10 {
        seq![digit_char(n as int)]
    } else {
        decimal_digits(n / 10).push(digit_char((n % 10) as int))
    }
}

/// Decimal notation of the integer `v`: a `-` for a negative one, then its
/// magnitude.
pub open spec fn integer_text(v: int) -> Seq<char> {
    if v < 0 {
        seq!['-'] + decimal_digits((-v) as nat)
    } else {
        decimal_digits(v as nat)
    }
}

/// Decimal notation of `h` hundredths: the sign, the whole units, and the
/// fraction with as many digits as it needs: none, one or two.
pub open spec fn amount_text(h: int) -> Seq<char> {
    let magnitude = if h < 0 {
        -h
    } else {
        h
    };
    let sign = if h < 0 {
        seq!['-']
    } else {
        Seq::<char>::empty()
    };
    let whole = decimal_digits((magnitude / 100) as nat);
    let cents = magnitude % 100;
    let fraction = if cents == 0 {
        Seq::<char>::empty()
    } else if cents % 10 == 0 {
        seq!['.', digit_char(cents / 10)]
    } else {
        seq!['.', digit_char(cents / 10), digit_char(cents % 10)]
    };
    sign + whole + fraction
}

/// The character for the digit `d`.
fn digit_to_char(d: u8) -> (c: char)
    requires
        d <= 9,
    ensures
        c == digit_char(d as int),
        is_digit(c),
        digit_value(c) == d,
{
    (d + 48u8) as char
}

/// Appends the decimal notation of `n` to `out`.
pub fn push_decimal(out: &mut Vec<char>, n: u128)
    ensures
        final(out)@ == old(out)@ + decimal_digits(n as nat),
    decreases n,
{
    if n >= 10 {
        push_decimal(out, n / 10);
    }
    out.push(digit_to_char((n % 10) as u8));
    assert(final(out)@ =~= old(out)@ + decimal_digits(n as nat));
}

/// Appends the decimal notation of the integer `v` to `out`.
pub(crate) fn push_integer(out: &mut Vec<char>, v: i128)
    requires
        v > i128::MIN,
    ensures
        final(out)@ == old(out)@ + integer_text(v as int),
{
    if v < 0 {
        out.push('-');
        push_decimal(out, (-v) as u128);
    } else {
        push_decimal(out, v as u128);
    }
}

/// Writes `amount` in decimal notation: `2000`, `-950`, and with a fraction
/// only where there is one.
pub fn format_amount_chars(amount: Amount) -> (out: Vec<char>)
    ensures
        out@ == amount_text(amount.hundredths as int),
{
    let h = amount.hundredths as i128;
    let mut out: Vec<char> = Vec::new();
    let magnitude: u128 = if h < 0 {
        out.push('-');
        (-h) as u128
    } else {
        h as u128
    };
    push_decimal(&mut out, magnitude / 100);
    let cents: u8 = (magnitude % 100) as u8;
    if cents != 0 {
        out.push('.');
        out.push(digit_to_char(cents / 10));
        if cents % 10 != 0 {
            out.push(digit_to_char(cents % 10));
        }
    }
    out
}

/// Writes `amount` in decimal notation.
pub fn format_amount(amount: Amount) -> (out: String)
    ensures
        out@ == amount_text(amount.hundredths as int),
{
    let chars = format_amount_chars(amount);
    from_chars(chars.as_slice())
}

/// The decimal notation of a number is made of digits, is not empty, and
/// writes that number.
pub proof fn lemma_decimal_digits(n: nat)
    ensures
        all_digits(decimal_digits(n)),
        decimal_digits(n).len() > 0,
        digits_value(decimal_digits(n)) == n,
    decreases n,
{
    let text = decimal_digits(n);
    if n < 10 {
        assert(text.drop_last() =~= Seq::<char>::empty());
        assert(digits_value(text.drop_last()) == 0);
    } else {
        lemma_decimal_digits(n / 10);
        assert(text.drop_last() =~= decimal_digits(n / 10));
    }
}

/// Reading back what [`amount_text`] wrote gives the amount that was written.
pub proof fn lemma_amount_text_round_trip(amount: Amount)
    ensures
        amount_of(amount_text(amount.hundredths as int)) == Some(amount),
{
    let h = amount.hundredths as int;
    let text = amount_text(h);
    let size = if h < 0 {
        -h
    } else {
        h
    };
    let whole = decimal_digits((size / 100) as nat);
    let cents = size % 100;
    let digits = if cents == 0 {
        Seq::<char>::empty()
    } else if cents % 10 == 0 {
        seq![digit_char(cents / 10)]
    } else {
        seq![digit_char(cents / 10), digit_char(cents % 10)]
    };
    let fraction = if cents == 0 {
        Seq::<char>::empty()
    } else {
        seq!['.'] + digits
    };
    lemma_decimal_digits((size / 100) as nat);
    assert(is_digit(whole[0]));
    let body = whole + fraction;
    assert(text.skip(sign_len(text)) =~= body);
    assert(text.len() > 0 && (text[0] == '-' <==> h < 0));
    assert(all_digits(digits)) by {
        assert(0 <= cents / 10 <= 9 && 0 <= cents % 10 <= 9);
    }
    assert forall|i: int| 0 <= i < body.len() implies is_digit(#[trigger] body[i]) || body[i]
        == '.' by {
        if i < whole.len() {
            assert(body[i] == whole[i]);
        } else if i > whole.len() {
            assert(body[i] == digits[i - whole.len() - 1]);
        }
    }
    lemma_first_index_of(body, 'e', body.len() as int);
    lemma_first_index_of(body, 'E', body.len() as int);
    assert(mantissa(text) =~= body);
    assert(exponent_text(text) is None);
    assert forall|i: int| 0 <= i < whole.len() implies #[trigger] body[i] != '.' by {
        assert(is_digit(whole[i]));
    }
    lemma_first_index_of(body, '.', whole.len() as int);
    assert(whole_part(text) =~= whole);
    assert(fraction_part(text) =~= digits);
    lemma_digits_value_concat(whole, digits);
    reveal_with_fuel(power_of_ten, 3);
    reveal_with_fuel(digits_value, 3);
    let written = digits_value(whole + digits);
    let shift = 2 - digits.len();
    if cents == 0 {
        assert(written == size / 100);
    } else if cents % 10 == 0 {
        assert(digits.drop_last() =~= Seq::<char>::empty());
        assert(digits_value(digits) == cents / 10);
        assert(written == (size / 100) * 10 + cents / 10);
    } else {
        assert(digits.drop_last() =~= seq![digit_char(cents / 10)]);
        assert(digits.drop_last().drop_last() =~= Seq::<char>::empty());
        assert(digits_value(digits) == cents);
        assert(written == (size / 100) * 100 + cents);
    }
    assert(shifted_value(whole + digits, shift) == size) by {
        assert(written * power_of_ten(shift as nat) == size) by (nonlinear_arith)
            requires
                size == (size / 100) * 100 + cents,
                cents == 0 ==> written == size / 100 && power_of_ten(shift as nat) == 100,
                cents != 0 && cents % 10 == 0 ==> written == (size / 100) * 10 + cents / 10
                    && power_of_ten(shift as nat) == 10 && cents == 10 * (cents / 10),
                cents % 10 != 0 ==> written == (size / 100) * 100 + cents && power_of_ten(
                    shift as nat,
                ) == 1,
        ;
    }
}

} // verus!
