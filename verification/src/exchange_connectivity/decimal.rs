//! Decimal numbers as the venues write them, read into scaled integers.
//!
//! A number is a run of digits, then possibly a point and a second run of
//! digits, then possibly an exponent: an `e`, a sign or none, and up to three
//! digits. It is read as a count of units of which `SCALE` make one: `"12.5"`
//! is `12.5 * SCALE`, and so is `"1.25e1"`. What is less than one unit is
//! dropped.

use vstd::arithmetic::div_mod::{lemma_basic_div, lemma_div_denominator};
use vstd::prelude::*;
use vstd::string::StringSliceAdditionalSpecFns;

verus! {

/// How many digits after the point make one unit: `SCALE` is ten to this
/// power.
pub const SCALE_DIGITS: u32 = 8;

/// How many digits an exponent may have.
pub const EXPONENT_DIGITS: usize = 3;

/// The byte is a decimal digit.
pub open spec fn is_digit(b: u8) -> bool {
    48 <= b <= 57
}

/// Every byte is a decimal digit.
pub open spec fn all_digits(s: Seq<u8>) -> bool {
    forall|i: int| 0 <= i < s.len() ==> is_digit(#[trigger] s[i])
}

/// The number that a run of digits writes.
pub open spec fn digits_value(s: Seq<u8>) -> nat
    decreases s.len(),
{
    if s.len() == 0 {
        0
    } else {
        digits_value(s.drop_last()) * 10 + (s.last() - 48) as nat
    }
}

/// Ten to the power of `n`.
pub open spec fn pow10(n: nat) -> nat
    decreases n,
{
    if n == 0 {
        1
    } else {
        10 * pow10((n - 1) as nat)
    }
}

/// How many digits the text starts with.
pub open spec fn leading_digits(s: Seq<u8>) -> nat
    decreases s.len(),
{
    if s.len() == 0 || !is_digit(s[0]) {
        0
    } else {
        1 + leading_digits(s.drop_first())
    }
}

/// The parts of a number: the digits before the point, the digits after it,
/// and the exponent.
pub struct Parts {
    pub whole: Seq<u8>,
    pub fraction: Seq<u8>,
    pub exponent: int,
}

/// The fraction that the text starts with, and what follows it: a point and
/// the digits after it. A text that starts with no point has no fraction. A
/// point without a digit after it is no fraction.
pub open spec fn fraction_of(rest: Seq<u8>) -> Option<(Seq<u8>, Seq<u8>)> {
    if rest.len() > 0 && rest[0] == 46 {
        let count = leading_digits(rest.skip(1)) as int;
        if count == 0 {
            None
        } else {
            Some((rest.subrange(1, 1 + count), rest.skip(1 + count)))
        }
    } else {
        Some((Seq::empty(), rest))
    }
}

/// The exponent that the text writes: nothing for 0, or an `e` of either
/// case, a sign or none, and one to three digits.
pub open spec fn exponent_of(rest: Seq<u8>) -> Option<int> {
    if rest.len() == 0 {
        Some(0)
    } else if rest[0] == 101 || rest[0] == 69 {
        let signed = rest.skip(1);
        let digits = if signed.len() > 0 && (signed[0] == 43 || signed[0] == 45) {
            signed.skip(1)
        } else {
            signed
        };
        if 1 <= digits.len() <= EXPONENT_DIGITS && all_digits(digits) {
            if signed[0] == 45 {
                Some(-(digits_value(digits) as int))
            } else {
                Some(digits_value(digits) as int)
            }
        } else {
            None
        }
    } else {
        None
    }
}

/// The parts of the number that the text writes; `None` where it writes
/// none.
pub open spec fn parts_of(s: Seq<u8>) -> Option<Parts> {
    let count = leading_digits(s) as int;
    if count == 0 {
        None
    } else {
        match fraction_of(s.skip(count)) {
            None => None,
            Some((fraction, rest)) => match exponent_of(rest) {
                None => None,
                Some(exponent) => Some(Parts { whole: s.take(count), fraction, exponent }),
            },
        }
    }
}

/// By how many places the digits of a number are moved to the left to count
/// its units.
pub open spec fn shift_of(parts: Parts) -> int {
    SCALE_DIGITS + parts.exponent - parts.fraction.len()
}

/// The number as a count of units, less what is smaller than one unit.
pub open spec fn units_of(parts: Parts) -> nat {
    let digits = parts.whole + parts.fraction;
    let shift = shift_of(parts);
    if shift >= 0 {
        digits_value(digits) * pow10(shift as nat)
    } else {
        digits_value(digits) / pow10((-shift) as nat)
    }
}

/// The scaled integer that the text stands for: `None` where it writes no
/// number, or one too large for 64 bits.
pub open spec fn scaled(s: Seq<u8>) -> Option<u64> {
    match parts_of(s) {
        Some(parts) => if units_of(parts) <= u64::MAX {
            Some(units_of(parts) as u64)
        } else {
            None
        },
        None => None,
    }
}

/// A run of `n` digits that the end of the text or a byte that is no digit
/// ends is what the text starts with.
proof fn lemma_leading_digits(s: Seq<u8>, n: int)
    requires
        0 <= n <= s.len(),
        forall|i: int| 0 <= i < n ==> is_digit(#[trigger] s[i]),
        n < s.len() ==> !is_digit(s[n]),
    ensures
        leading_digits(s) == n,
    decreases n,
{
    if n > 0 {
        let t = s.drop_first();
        assert(is_digit(s[0]));
        assert forall|i: int| 0 <= i < n - 1 implies is_digit(#[trigger] t[i]) by {
            assert(t[i] == s[i + 1]);
        }
        lemma_leading_digits(t, n - 1);
    }
}

/// A run of digits is worth at least any run that it starts with.
proof fn lemma_digits_value_grows(s: Seq<u8>, k: int)
    requires
        0 <= k <= s.len(),
        all_digits(s),
    ensures
        digits_value(s.take(k)) <= digits_value(s),
    decreases s.len() - k,
{
    if k < s.len() {
        let t = s.take(k + 1);
        assert(t.drop_last() =~= s.take(k));
        assert(is_digit(s[k]));
        assert(t.last() == s[k]);
        lemma_digits_value_grows(s, k + 1);
    } else {
        assert(s.take(k) =~= s);
    }
}

/// The powers of ten grow, from 1.
proof fn lemma_pow10_grows(a: nat, b: nat)
    requires
        a <= b,
    ensures
        1 <= pow10(a) <= pow10(b),
    decreases b,
{
    if b > 0 {
        if a < b {
            lemma_pow10_grows(a, (b - 1) as nat);
        } else {
            lemma_pow10_grows((a - 1) as nat, (b - 1) as nat);
        }
    }
}

/// Dropping the last `k` digits of a run divides its number by ten to the
/// power of `k`.
proof fn lemma_drop_digits(s: Seq<u8>, k: nat)
    requires
        all_digits(s),
    ensures
        digits_value(s) / pow10(k) == if k <= s.len() {
            digits_value(s.take(s.len() - k))
        } else {
            0
        },
    decreases k,
{
    lemma_pow10_grows(0, k);
    if k == 0 {
        assert(s.take(s.len() as int) =~= s);
    } else if s.len() == 0 {
        lemma_basic_div(0, pow10(k) as int);
    } else {
        let t = s.drop_last();
        assert forall|i: int| 0 <= i < t.len() implies is_digit(#[trigger] t[i]) by {
            assert(t[i] == s[i]);
        }
        assert(is_digit(s[s.len() - 1]));
        let below = pow10((k - 1) as nat);
        lemma_pow10_grows(0, (k - 1) as nat);
        lemma_div_denominator(digits_value(s) as int, 10, below as int);
        assert(digits_value(s) as int / 10 == digits_value(t));
        assert(10 * below == pow10(k));
        lemma_drop_digits(t, (k - 1) as nat);
        if k <= s.len() {
            assert(t.take(t.len() - (k - 1)) =~= s.take(s.len() - k));
        }
    }
}

/// Whether the byte is a decimal digit, and which.
fn digit_of(b: u8) -> (r: Option<u64>)
    ensures
        r is Some == is_digit(b),
        r matches Some(d) ==> d == b - 48,
{
    if b >= 48 && b <= 57 {
        Some((b - 48) as u64)
    } else {
        None
    }
}

/// Finds the end of the run of digits that starts at `from`.
fn skip_digits(bytes: &[u8], from: usize) -> (end: usize)
    requires
        from <= bytes@.len(),
    ensures
        from <= end <= bytes@.len(),
        end - from == leading_digits(bytes@.skip(from as int)),
        forall|i: int| from <= i < end ==> is_digit(#[trigger] bytes@[i]),
        end < bytes@.len() ==> !is_digit(bytes@[end as int]),
{
    let mut i = from;
    while i < bytes.len() && digit_of(bytes[i]).is_some()
        invariant
            from <= i <= bytes@.len(),
            forall|j: int| from <= j < i ==> is_digit(#[trigger] bytes@[j]),
        decreases bytes@.len() - i,
    {
        i += 1;
    }
    proof {
        let rest = bytes@.skip(from as int);
        assert forall|j: int| 0 <= j < i - from implies is_digit(#[trigger] rest[j]) by {
            assert(rest[j] == bytes@[from + j]);
        }
        lemma_leading_digits(rest, i - from);
    }
    i
}

/// Reads the number that the digits from `from` to `to` write, where they
/// are few enough for it to fit.
fn small_value(bytes: &[u8], from: usize, to: usize) -> (r: u64)
    requires
        from <= to <= bytes@.len(),
        to - from <= 3,
        forall|i: int| from <= i < to ==> is_digit(#[trigger] bytes@[i]),
    ensures
        r == digits_value(bytes@.subrange(from as int, to as int)),
        r < 1000,
{
    let ghost digits = bytes@.subrange(from as int, to as int);
    let mut value: u64 = 0;
    let mut i = from;
    assert(digits.take(0) =~= Seq::<u8>::empty());
    while i < to
        invariant
            from <= i <= to <= bytes@.len(),
            to - from <= 3,
            digits == bytes@.subrange(from as int, to as int),
            forall|j: int| from <= j < to ==> is_digit(#[trigger] bytes@[j]),
            value == digits_value(digits.take(i - from)),
            value < pow10((i - from) as nat),
        decreases to - i,
    {
        proof {
            reveal_with_fuel(pow10, 5);
            assert(digits.take(i - from + 1).drop_last() =~= digits.take(i - from));
            assert(digits.take(i - from + 1).last() == bytes@[i as int]);
        }
        value = value * 10 + (bytes[i] - 48) as u64;
        i += 1;
    }
    proof {
        reveal_with_fuel(pow10, 5);
        assert(digits.take(to - from) =~= digits);
    }
    value
}

/// The place in the text of the digit at a place of the number's digits: the
/// digits after the point stand one place further on.
spec fn digit_place(whole: int, j: int) -> int {
    if j < whole {
        j
    } else {
        j + 1
    }
}

/// Reads the number that the first `keep` digits of a number write, the point
/// between them left out. `None` where it does not fit in 64 bits.
fn leading_value(bytes: &[u8], whole: usize, count: usize, keep: usize) -> (r: Option<u64>)
    requires
        keep <= count,
        whole <= count,
        count < bytes@.len() || whole == count,
        count <= bytes@.len(),
        forall|j: int| 0 <= j < count ==> is_digit(#[trigger] bytes@[digit_place(whole as int, j)]),
    ensures
        match r {
            Some(v) => v == digits_value(
                digits_at(bytes@, whole as int, count as int).take(keep as int),
            ),
            None => digits_value(digits_at(bytes@, whole as int, count as int).take(keep as int))
                > u64::MAX,
        },
{
    let ghost digits = digits_at(bytes@, whole as int, count as int);
    let mut value: u64 = 0;
    let mut j: usize = 0;
    assert(digits.take(0) =~= Seq::<u8>::empty());
    while j < keep
        invariant
            j <= keep <= count,
            whole <= count,
            count < bytes@.len() || whole == count,
            count <= bytes@.len(),
            digits == digits_at(bytes@, whole as int, count as int),
            forall|k: int| 0 <= k < count ==> is_digit(#[trigger] digits[k]),
            value == digits_value(digits.take(j as int)),
        decreases keep - j,
    {
        let place = if j < whole {
            j
        } else {
            j + 1
        };
        let ghost prefix = digits.take(j + 1);
        proof {
            assert(prefix.drop_last() =~= digits.take(j as int));
            assert(prefix.last() == digits[j as int]);
            assert(is_digit(digits[j as int]));
        }
        let d = (bytes[place] - 48) as u64;
        let next = match value.checked_mul(10) {
            Some(v) => v.checked_add(d),
            None => None,
        };
        match next {
            Some(v) => {
                value = v;
            },
            None => {
                proof {
                    assert(digits_value(prefix) > u64::MAX);
                    assert(all_digits(digits.take(keep as int))) by {
                        assert forall|k: int| 0 <= k < keep implies is_digit(
                            #[trigger] digits.take(keep as int)[k],
                        ) by {
                            assert(digits.take(keep as int)[k] == digits[k]);
                        }
                    }
                    assert(digits.take(keep as int).take(j + 1) =~= prefix);
                    lemma_digits_value_grows(digits.take(keep as int), j + 1);
                }
                return None;
            },
        }
        j += 1;
    }
    Some(value)
}

/// Multiplies by ten to the power of `shift`. `None` where the product does
/// not fit in 64 bits.
fn shift_left(value: u64, shift: u32) -> (r: Option<u64>)
    ensures
        match r {
            Some(v) => v == value * pow10(shift as nat),
            None => value * pow10(shift as nat) > u64::MAX,
        },
{
    if value == 0 {
        assert(0 * pow10(shift as nat) == 0) by (nonlinear_arith);
        return Some(0);
    }
    let mut product = value;
    let mut done: u32 = 0;
    assert(value * pow10(0) == value) by (nonlinear_arith)
        requires
            pow10(0) == 1,
    ;
    while done < shift
        invariant
            done <= shift,
            value > 0,
            product == value * pow10(done as nat),
        decreases shift - done,
    {
        proof {
            assert(pow10((done + 1) as nat) == 10 * pow10(done as nat));
            assert(value * (10 * pow10(done as nat)) == 10 * (value * pow10(done as nat)))
                by (nonlinear_arith);
        }
        match product.checked_mul(10) {
            Some(v) => {
                product = v;
            },
            None => {
                proof {
                    lemma_pow10_grows((done + 1) as nat, shift as nat);
                    assert(value * pow10((done + 1) as nat) <= value * pow10(shift as nat))
                        by (nonlinear_arith)
                        requires
                            pow10((done + 1) as nat) <= pow10(shift as nat),
                            value > 0,
                    ;
                }
                return None;
            },
        }
        done += 1;
    }
    Some(product)
}

/// Reads the exponent that the text writes from `from` on.
fn read_exponent(bytes: &[u8], from: usize) -> (r: Option<i32>)
    requires
        from <= bytes@.len(),
    ensures
        match r {
            Some(e) => exponent_of(bytes@.skip(from as int)) == Some(e as int) && -1000 < e < 1000,
            None => exponent_of(bytes@.skip(from as int)) is None,
        },
{
    let n = bytes.len();
    let ghost rest = bytes@.skip(from as int);
    if from == n {
        return Some(0);
    }
    assert(rest[0] == bytes@[from as int]);
    if bytes[from] != 101 && bytes[from] != 69 {
        return None;
    }
    let ghost signed = rest.skip(1);
    assert(signed =~= bytes@.skip(from + 1));
    let mut at = from + 1;
    let mut negative = false;
    if at < n && (bytes[at] == 43 || bytes[at] == 45) {
        negative = bytes[at] == 45;
        at += 1;
    }
    let ghost digits = bytes@.skip(at as int);
    proof {
        if at == from + 1 {
            assert(digits =~= signed);
            if signed.len() > 0 {
                assert(signed[0] == bytes@[from + 1]);
            }
        } else {
            assert(signed[0] == bytes@[from + 1]);
            assert(digits =~= signed.skip(1));
        }
    }
    let end = skip_digits(bytes, at);
    if end != n {
        assert(digits[end - at] == bytes@[end as int]);
        return None;
    }
    assert(all_digits(digits)) by {
        assert forall|i: int| 0 <= i < digits.len() implies is_digit(#[trigger] digits[i]) by {
            assert(digits[i] == bytes@[at + i]);
        }
    }
    if end - at == 0 || end - at > EXPONENT_DIGITS {
        return None;
    }
    assert(bytes@.subrange(at as int, end as int) =~= digits);
    let size = small_value(bytes, at, end);
    if negative {
        Some(-(size as i32))
    } else {
        Some(size as i32)
    }
}

/// Where the parts of a number stand in its text.
struct Shape {
    /// How many digits stand before the point.
    whole: usize,
    /// How many digits stand after the point.
    fraction: usize,
    exponent: i32,
}

/// The digits of a number whose text has `whole` digits before the point and
/// `count` digits in all.
spec fn digits_at(s: Seq<u8>, whole: int, count: int) -> Seq<u8> {
    Seq::new(count as nat, |j: int| s[digit_place(whole, j)])
}

/// Finds the parts of the number that the text writes.
fn read_shape(bytes: &[u8]) -> (r: Option<Shape>)
    ensures
        match r {
            None => parts_of(bytes@) is None,
            Some(shape) => {
                &&& parts_of(bytes@) matches Some(parts)
                &&& parts.exponent == shape.exponent
                &&& parts.fraction.len() == shape.fraction
                &&& parts.whole + parts.fraction == digits_at(
                    bytes@,
                    shape.whole as int,
                    shape.whole + shape.fraction,
                )
                &&& all_digits(parts.whole + parts.fraction)
                &&& shape.whole + shape.fraction <= bytes@.len()
                &&& shape.fraction == 0 || shape.whole + shape.fraction < bytes@.len()
                &&& -1000 < shape.exponent < 1000
            },
        },
{
    let n = bytes.len();
    let ghost s = bytes@;
    let whole = skip_digits(bytes, 0);
    assert(s.skip(0) =~= s);
    if whole == 0 {
        return None;
    }
    let ghost rest = s.skip(whole as int);
    let mut fraction: usize = 0;
    let mut at = whole;
    if whole < n && bytes[whole] == 46 {
        let end = skip_digits(bytes, whole + 1);
        assert(rest[0] == s[whole as int]);
        assert(rest.skip(1) =~= s.skip(whole + 1));
        if end == whole + 1 {
            return None;
        }
        fraction = end - whole - 1;
        at = end;
        assert(rest.skip(1 + fraction) =~= s.skip(at as int));
    } else {
        if whole < n {
            assert(rest[0] == s[whole as int]);
        }
    }
    let ghost shown = fraction_of(rest);
    assert(shown is Some && shown->Some_0.1 == s.skip(at as int));
    let exponent = match read_exponent(bytes, at) {
        Some(e) => e,
        None => {
            return None;
        },
    };
    proof {
        let parts = parts_of(s)->Some_0;
        let count = whole + fraction;
        let digits = digits_at(s, whole as int, count);
        assert(parts.whole + parts.fraction =~= digits) by {
            assert forall|j: int| 0 <= j < count implies (parts.whole + parts.fraction)[j]
                == digits[j] by {
                if j >= whole {
                    assert(parts.fraction[j - whole] == rest[1 + j - whole]);
                }
            }
        }
        assert forall|j: int| 0 <= j < count implies is_digit(#[trigger] digits[j]) by {
            assert(is_digit(s[digit_place(whole as int, j)]));
        }
    }
    Some(Shape { whole, fraction, exponent })
}

/// Reads a decimal number into a count of units of which `SCALE` make one.
pub fn parse_decimal(text: &str) -> (r: Option<u64>)
    ensures
        r == scaled(text.spec_bytes()),
{
    let bytes = text.as_bytes();
    let shape = match read_shape(bytes) {
        Some(shape) => shape,
        None => {
            return None;
        },
    };
    let ghost parts = parts_of(bytes@)->Some_0;
    let n = bytes.len();
    assert(shape.whole + shape.fraction <= n);
    let count = shape.whole + shape.fraction;
    let ghost digits = digits_at(bytes@, shape.whole as int, count as int);
    assert forall|j: int| 0 <= j < count implies is_digit(
        #[trigger] bytes@[digit_place(shape.whole as int, j)],
    ) by {
        assert(is_digit(digits[j]));
    }
    let shift: i128 = SCALE_DIGITS as i128 + shape.exponent as i128 - shape.fraction as i128;
    if shift >= 0 {
        assert(digits.take(count as int) =~= digits);
        match leading_value(bytes, shape.whole, count, count) {
            Some(value) => shift_left(value, shift as u32),
            None => {
                proof {
                    lemma_pow10_grows(0, shift as nat);
                    assert(digits_value(digits) * pow10(shift as nat) >= digits_value(digits))
                        by (nonlinear_arith)
                        requires
                            pow10(shift as nat) >= 1,
                    ;
                }
                None
            },
        }
    } else {
        let drop: i128 = -shift;
        proof {
            lemma_drop_digits(digits, drop as nat);
        }
        if drop >= count as i128 {
            Some(0)
        } else {
            leading_value(bytes, shape.whole, count, count - drop as usize)
        }
    }
}

/// The unsigned integer that the text writes: digits, with or without a plus
/// sign before them. `None` where it is anything else, or a number too large
/// for 64 bits.
pub open spec fn unsigned_of(s: Seq<u8>) -> Option<u64> {
    let digits = if s.len() > 0 && s[0] == 43 {
        s.skip(1)
    } else {
        s
    };
    if digits.len() > 0 && all_digits(digits) && digits_value(digits) <= u64::MAX {
        Some(digits_value(digits) as u64)
    } else {
        None
    }
}

/// Reads an unsigned integer.
pub fn parse_unsigned(text: &str) -> (r: Option<u64>)
    ensures
        r == unsigned_of(text.spec_bytes()),
{
    let bytes = text.as_bytes();
    let n = bytes.len();
    let ghost s = bytes@;
    let start: usize = if n > 0 && bytes[0] == 43 {
        1
    } else {
        0
    };
    let ghost digits = s.skip(start as int);
    if start == n {
        assert(s.skip(0) =~= s);
        return None;
    }
    let mut i: usize = start;
    let mut value: u64 = 0;
    assert(digits.take(0) =~= Seq::<u8>::empty());
    while i < n
        invariant
            n == s.len(),
            s == bytes@,
            s == text.spec_bytes(),
            start <= i <= n,
            start < n,
            start == if s.len() > 0 && s[0] == 43 {
                1int
            } else {
                0int
            },
            digits == s.skip(start as int),
            all_digits(digits.take(i - start)),
            value == digits_value(digits.take(i - start)),
        decreases n - i,
    {
        let ghost k = i - start;
        let ghost prefix = digits.take(k + 1);
        proof {
            assert(digits[k] == s[i as int]);
            assert(prefix.drop_last() =~= digits.take(k));
            assert(prefix.last() == digits[k]);
        }
        let d = match digit_of(bytes[i]) {
            Some(d) => d,
            None => {
                assert(s.skip(0) =~= s);
                assert(!all_digits(digits));
                return None;
            },
        };
        assert(all_digits(prefix)) by {
            assert forall|j: int| 0 <= j < prefix.len() implies is_digit(#[trigger] prefix[j]) by {
                if j < k {
                    assert(digits.take(k)[j] == prefix[j]);
                }
            }
        }
        let next = match value.checked_mul(10) {
            Some(v) => v.checked_add(d),
            None => None,
        };
        match next {
            Some(v) => {
                value = v;
            },
            None => {
                proof {
                    assert(s.skip(0) =~= s);
                    assert(digits_value(prefix) == value * 10 + d);
                    assert(digits_value(prefix) > u64::MAX);
                    if all_digits(digits) {
                        lemma_digits_value_grows(digits, k + 1);
                    }
                }
                return None;
            },
        }
        i += 1;
    }
    assert(s.skip(0) =~= s);
    assert(digits.len() == n - start);
    assert(digits.take(n - start) =~= digits);
    assert(unsigned_of(s) == Some(value));
    Some(value)
}

/// The character of a digit.
pub open spec fn digit_char(d: nat) -> char {
    if d == 0 {
        '0'
    } else if d == 1 {
        '1'
    } else if d == 2 {
        '2'
    } else if d == 3 {
        '3'
    } else if d == 4 {
        '4'
    } else if d == 5 {
        '5'
    } else if d == 6 {
        '6'
    } else if d == 7 {
        '7'
    } else if d == 8 {
        '8'
    } else {
        '9'
    }
}

/// The decimal digits of a number, without leading zeros.
pub open spec fn decimal_text(n: nat) -> Seq<char>
    decreases n,
{
    if n < 10 {
        seq![digit_char(n)]
    } else {
        decimal_text(n / 10).push(digit_char(n % 10))
    }
}

/// Calls `to_string` on a `u64`, which writes the number in decimal digits.
#[verifier::external_body]
pub(crate) fn unsigned_text(n: u64) -> (r: String)
    ensures
        r@ == decimal_text(n as nat),
{
    n.to_string()
}

} // verus!
