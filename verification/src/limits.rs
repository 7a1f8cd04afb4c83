use vstd::prelude::*;
use crate::decimal::{
    canonical_text, is_less, lemma_canonical_text_shape, less, Decimal, DecimalView,
};
use crate::error::ErrorKind;
use crate::text::{chars_of, fraction_len, integer_len, lemma_first_point};

verus! {

/// The mantissa of the upper limit, 10^12 written with six fractional digits.
pub const LIMIT_MANTISSA: i128 = 1_000_000_000_000_000_000i128;

/// The scale of both limits.
pub const LIMIT_SCALE: u32 = 6u32;

/// The most characters that may follow the decimal point.
pub const MAX_FRACT_LEN: usize = 6usize;

/// The upper limit: 1000000000000.000000.
pub open spec fn max_value() -> DecimalView {
    DecimalView { mantissa: LIMIT_MANTISSA as int, scale: LIMIT_SCALE as nat }
}

/// The lower limit: -1000000000000.000000.
pub open spec fn min_value() -> DecimalView {
    DecimalView { mantissa: -LIMIT_MANTISSA, scale: LIMIT_SCALE as nat }
}

/// The verdict on a value and the text it was read from or is shown as: the
/// value must not lie beyond either limit, and the text must not have more
/// than six characters after its decimal point.
pub open spec fn limits_verdict(v: DecimalView, text: Seq<char>) -> Result<(), ErrorKind> {
    if less(v, min_value()) {
        Err(ErrorKind::BelowMinimum)
    } else if less(max_value(), v) {
        Err(ErrorKind::AboveMaximum)
    } else if fraction_len(text) > MAX_FRACT_LEN {
        Err(ErrorKind::TooManyFractionalDigits)
    } else {
        Ok(())
    }
}

/// The upper limit as a value.
pub fn upper_limit() -> (r: Decimal)
    ensures
        r@ == max_value(),
{
    Decimal::try_new(LIMIT_MANTISSA, LIMIT_SCALE).unwrap()
}

/// The lower limit as a value.
pub fn lower_limit() -> (r: Decimal)
    ensures
        r@ == min_value(),
{
    Decimal::try_new(-LIMIT_MANTISSA, LIMIT_SCALE).unwrap()
}

/// Checks a value against the two limits, and its text against the limit on
/// fractional digits.
pub fn check_limits(x: &Decimal, s: &str) -> (r: Result<(), ErrorKind>)
    ensures
        r == limits_verdict(x@, s@),
{
    if is_less(x, &lower_limit()) {
        Err(ErrorKind::BelowMinimum)
    } else if is_less(&upper_limit(), x) {
        Err(ErrorKind::AboveMaximum)
    } else {
        let chars = chars_of(s);
        let n = chars.len();
        let mut point: usize = 0;
        proof {
            lemma_first_point(s@, 0);
        }
        while point < n && chars[point] != '.'
            invariant
                chars@ == s@,
                n == s@.len(),
                point <= integer_len(s@) <= n,
                forall|j: int| 0 <= j < integer_len(s@) ==> s@[j] != '.',
                integer_len(s@) < n ==> s@[integer_len(s@)] == '.',
            decreases n - point,
        {
            point += 1;
        }
        if point < n && n - point - 1 > MAX_FRACT_LEN {
            Err(ErrorKind::TooManyFractionalDigits)
        } else {
            Ok(())
        }
    }
}

/// The verdict on a value and its own plain text depends on the value alone:
/// the text has as many fractional digits as the scale.
pub proof fn lemma_limits_of_canonical_text(v: DecimalView)
    ensures
        limits_verdict(v, canonical_text(v)) == if less(v, min_value()) {
            Err::<(), ErrorKind>(ErrorKind::BelowMinimum)
        } else if less(max_value(), v) {
            Err(ErrorKind::AboveMaximum)
        } else if v.scale > MAX_FRACT_LEN {
            Err(ErrorKind::TooManyFractionalDigits)
        } else {
            Ok(())
        },
{
    lemma_canonical_text_shape(v);
}

/// A value that lies between the limits, the limits included, and has at most
/// six fractional digits is accepted together with its plain text.
pub proof fn lemma_value_within_limits_passes(v: DecimalView)
    requires
        !less(v, min_value()),
        !less(max_value(), v),
        v.scale <= MAX_FRACT_LEN,
    ensures
        limits_verdict(v, canonical_text(v)) == Ok::<(), ErrorKind>(()),
{
    lemma_limits_of_canonical_text(v);
}

} // verus!
