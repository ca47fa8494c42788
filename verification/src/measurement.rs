//! The measurement decoder: `<number>*<unit>` tokens.

use vstd::prelude::*;
use crate::error::DsmrError;
use crate::text::{find_char, index_of, lemma_index_of, lemma_index_of_unique};

verus! {

/// A decimal number with the precision it was written with: `mantissa`
/// divided by ten to the power `scale`.
#[derive(Clone, Copy, Debug, PartialEq, Eq, Structural)]
pub struct Decimal {
    pub mantissa: u64,
    pub scale: usize,
}

/// A decoded quantity with its unit, taken verbatim from the telegram.
#[derive(Clone, Debug, PartialEq, Eq)]
pub struct Measurement {
    pub value: Decimal,
    pub unit: String,
}

/// A measurement as a mathematical value.
pub struct MeasurementView {
    pub value: Decimal,
    pub unit: Seq<char>,
}

impl View for Measurement {
    type V = MeasurementView;

    open spec fn view(&self) -> MeasurementView {
        MeasurementView { value: self.value, unit: self.unit@ }
    }
}

/// Whether `c` is one of the decimal digits `0` to `9`.
pub open spec fn is_digit(c: char) -> bool {
    '0' <= c && c <= '9'
}

/// The number that a decimal digit writes.
pub open spec fn digit_of(c: char) -> nat {
    (c as int - '0' as int) as nat
}

/// Whether `s` holds decimal digits only.
pub open spec fn all_digits(s: Seq<char>) -> bool {
    forall|i: int| 0 <= i < s.len() ==> is_digit(#[trigger] s[i])
}

/// The number that a string of decimal digits writes, most significant
/// digit first.
pub open spec fn digits_value(s: Seq<char>) -> nat
    decreases s.len(),
{
    if s.len() == 0 {
        0
    } else {
        digits_value(s.drop_last()) * 10 + digit_of(s.last())
    }
}

/// The digits of `text` before index `upto`, the character at `point` left
/// out.
pub open spec fn digits_before(text: Seq<char>, point: int, upto: int) -> Seq<char> {
    if upto <= point {
        text.take(upto)
    } else {
        text.take(point) + text.subrange(point + 1, upto)
    }
}

/// The decimal that a numeral writes. A numeral is a run of decimal digits
/// with at most one point in it, before, between or after the digits, and at
/// least one digit. `None` where `text` is no numeral, or where its digits
/// read as one number exceed `u64::MAX`.
pub open spec fn decimal_of(text: Seq<char>) -> Option<Decimal> {
    let point = index_of(text, '.', 0);
    let digits = digits_before(text, point, text.len() as int);
    if digits.len() > 0 && all_digits(digits) && digits_value(digits) <= u64::MAX {
        Some(
            Decimal {
                mantissa: digits_value(digits) as u64,
                scale: (digits.len() - point) as usize,
            },
        )
    } else {
        None
    }
}

/// One more digit multiplies what was written by ten and adds the digit.
proof fn lemma_digits_value_push(s: Seq<char>, c: char)
    ensures
        digits_value(s.push(c)) == digits_value(s) * 10 + digit_of(c),
{
    assert(s.push(c).drop_last() =~= s);
}

/// Reads a numeral.
pub fn parse_decimal(text: &str) -> (r: Option<Decimal>)
    ensures
        r == decimal_of(text@),
{
    let n = text.unicode_len();
    let point = find_char(text, '.', 0);
    proof {
        lemma_index_of(text@, '.', 0);
    }
    let mut mantissa: u64 = 0;
    let mut overflow = false;
    let mut i: usize = 0;
    while i < n
        invariant
            i <= n,
            n == text@.len(),
            point == index_of(text@, '.', 0),
            point <= n,
            all_digits(digits_before(text@, point as int, i as int)),
            !overflow ==> mantissa == digits_value(digits_before(text@, point as int, i as int)),
            overflow ==> digits_value(digits_before(text@, point as int, i as int)) > u64::MAX,
        decreases n - i,
    {
        let ghost before = digits_before(text@, point as int, i as int);
        let ghost after = digits_before(text@, point as int, i + 1);
        if i != point {
            let c = text.get_char(i);
            proof {
                assert(after =~= before.push(c));
                lemma_digits_value_push(before, c);
            }
            if !(c >= '0' && c <= '9') {
                proof {
                    let whole = digits_before(text@, point as int, n as int);
                    let k = if i < point { i as int } else { i - 1 };
                    assert(whole[k] == c);
                }
                return None;
            }
            let d = (c as u32 - '0' as u32) as u64;
            if !overflow {
                match mantissa.checked_mul(10) {
                    Some(m) => match m.checked_add(d) {
                        Some(v) => {
                            mantissa = v;
                        },
                        None => {
                            overflow = true;
                        },
                    },
                    None => {
                        overflow = true;
                    },
                }
            }
        } else {
            proof {
                assert(after =~= before);
            }
        }
        i += 1;
    }
    let ghost digits = digits_before(text@, point as int, n as int);
    let count = if point < n { n - 1 } else { n };
    assert(count == digits.len());
    if overflow || count == 0 {
        return None;
    }
    Some(Decimal { mantissa, scale: count - point })
}

/// What the measurement decoder makes of a token: the text before the first
/// `*` read as a numeral, the text after it as the unit, unchanged.
pub open spec fn measurement_of(token: Seq<char>) -> Result<MeasurementView, DsmrError> {
    let star = index_of(token, '*', 0);
    if star < token.len() {
        match decimal_of(token.take(star)) {
            Some(value) => Ok(MeasurementView { value, unit: token.skip(star + 1) }),
            None => Err(DsmrError::MalformedMeasurement),
        }
    } else {
        Err(DsmrError::MalformedMeasurement)
    }
}

/// The outcome of the decoder as a mathematical value.
pub open spec fn measurement_outcome(r: Result<Measurement, DsmrError>) -> Result<
    MeasurementView,
    DsmrError,
> {
    match r {
        Ok(m) => Ok(m@),
        Err(e) => Err(e),
    }
}

/// Decodes a `<number>*<unit>` token.
pub fn parse_measurement(token: &str) -> (r: Result<Measurement, DsmrError>)
    ensures
        measurement_outcome(r) == measurement_of(token@),
{
    let n = token.unicode_len();
    let star = find_char(token, '*', 0);
    proof {
        lemma_index_of(token@, '*', 0);
    }
    if star >= n {
        return Err(DsmrError::MalformedMeasurement);
    }
    let number = token.substring_char(0, star);
    assert(number@ =~= token@.take(star as int));
    match parse_decimal(number) {
        Some(value) => {
            let unit = token.substring_char(star + 1, n).to_owned();
            assert(unit@ =~= token@.skip(star + 1));
            Ok(Measurement { value, unit })
        },
        None => Err(DsmrError::MalformedMeasurement),
    }
}

/// A numeral is read without rounding: digits, a point and more digits write
/// the number that all the digits write together, divided by ten to the
/// power of the count of digits after the point; digits alone write their
/// number. Stated where that number fits the mantissa.
pub proof fn lemma_decimal_exact(whole: Seq<char>, fraction: Seq<char>)
    requires
        all_digits(whole),
        all_digits(fraction),
        whole.len() + fraction.len() > 0,
        digits_value(whole + fraction) <= u64::MAX,
        fraction.len() <= usize::MAX,
    ensures
        decimal_of(whole + seq!['.'] + fraction) == Some(
            Decimal {
                mantissa: digits_value(whole + fraction) as u64,
                scale: fraction.len() as usize,
            },
        ),
        fraction.len() == 0 ==> decimal_of(whole) == Some(
            Decimal { mantissa: digits_value(whole) as u64, scale: 0 },
        ),
{
    let text = whole + seq!['.'] + fraction;
    let at = whole.len() as int;
    assert forall|j: int| 0 <= j < at implies text[j] != '.' by {
        assert(is_digit(whole[j]));
    }
    lemma_index_of_unique(text, '.', 0, at);
    assert(digits_before(text, at, text.len() as int) =~= whole + fraction);
    if fraction.len() == 0 {
        assert forall|j: int| 0 <= j < at implies whole[j] != '.' by {
            assert(is_digit(whole[j]));
        }
        lemma_index_of_unique(whole, '.', 0, at);
        assert(digits_before(whole, at, at) =~= whole);
        assert(whole + fraction =~= whole);
    }
}

/// A numeral holds no `*`.
proof fn lemma_numeral_has_no_star(number: Seq<char>)
    requires
        decimal_of(number) is Some,
    ensures
        forall|i: int| 0 <= i < number.len() ==> number[i] != '*',
{
    let point = index_of(number, '.', 0);
    let digits = digits_before(number, point, number.len() as int);
    lemma_index_of(number, '.', 0);
    assert forall|i: int| 0 <= i < number.len() implies number[i] != '*' by {
        if i < point {
            assert(digits[i] == number[i]);
        } else if i > point {
            assert(digits[i - 1] == number[i]);
        }
    }
}

/// Every token made of a numeral, a `*` and a unit decodes to the decimal
/// that the numeral writes and to that unit, whatever the unit holds.
pub proof fn lemma_measurement_recovered(number: Seq<char>, unit: Seq<char>)
    requires
        decimal_of(number) is Some,
    ensures
        measurement_of(number + seq!['*'] + unit) == Ok::<MeasurementView, DsmrError>(
            MeasurementView { value: decimal_of(number)->0, unit },
        ),
{
    let token = number + seq!['*'] + unit;
    lemma_numeral_has_no_star(number);
    lemma_index_of_unique(token, '*', 0, number.len() as int);
    assert(token.take(number.len() as int) =~= number);
    assert(token.skip(number.len() as int + 1) =~= unit);
}

/// A token without `*` is malformed.
pub proof fn lemma_measurement_needs_star(token: Seq<char>)
    requires
        !token.contains('*'),
    ensures
        measurement_of(token) == Err::<MeasurementView, DsmrError>(DsmrError::MalformedMeasurement),
{
    lemma_index_of(token, '*', 0);
    let star = index_of(token, '*', 0);
    if star < token.len() {
        assert(token.contains(token[star]));
    }
}

} // verus!
