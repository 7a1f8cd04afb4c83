use vstd::prelude::*;
use std::str::FromStr;
use crate::rounding::RoundingStrategy;
use crate::text::{fraction_len, has_space, integer_len, lemma_integer_len_is};

verus! {

/// The largest magnitude a mantissa can have: 2^96 - 1.
pub const MAX_MANTISSA: i128 = 79_228_162_514_264_337_593_543_950_335i128;

/// The largest scale.
pub const MAX_SCALE: u32 = 28u32;

/// A decimal number as mathematics sees it: `mantissa / 10^scale`.
pub struct DecimalView {
    pub mantissa: int,
    pub scale: nat,
}

impl DecimalView {
    /// The mantissa fits 96 bits and the scale is at most 28.
    pub open spec fn wf(self) -> bool {
        &&& -MAX_MANTISSA <= self.mantissa <= MAX_MANTISSA
        &&& self.scale <= MAX_SCALE
    }
}

/// A signed decimal number with a 96-bit mantissa and up to 28 fractional
/// digits. Two values of one size with different scales, such as 1.0 and
/// 1.00, are different values of this type that compare as equal in size.
#[derive(Clone, Copy, Debug)]
pub struct Decimal {
    mantissa: i128,
    scale: u32,
}

impl View for Decimal {
    type V = DecimalView;

    closed spec fn view(&self) -> DecimalView {
        DecimalView { mantissa: self.mantissa as int, scale: self.scale as nat }
    }
}

impl Decimal {
    #[verifier::type_invariant]
    spec fn inv(self) -> bool {
        self@.wf()
    }

    /// The decimal `mantissa / 10^scale`, where the type can hold it.
    pub fn try_new(mantissa: i128, scale: u32) -> (r: Option<Decimal>)
        ensures
            r is Some <==> (DecimalView { mantissa: mantissa as int, scale: scale as nat }).wf(),
            r is Some ==> r->0@ == (DecimalView { mantissa: mantissa as int, scale: scale as nat }),
    {
        if scale <= MAX_SCALE && -MAX_MANTISSA <= mantissa && mantissa <= MAX_MANTISSA {
            Some(Decimal { mantissa, scale })
        } else {
            None
        }
    }

    /// The mantissa. Every value of the type is well formed.
    pub fn mantissa(&self) -> (m: i128)
        ensures
            m == self@.mantissa,
            self@.wf(),
    {
        proof {
            use_type_invariant(self);
        }
        self.mantissa
    }

    /// The scale: the number of fractional digits. Every value of the type
    /// is well formed.
    pub fn scale(&self) -> (s: u32)
        ensures
            s == self@.scale,
            self@.wf(),
    {
        proof {
            use_type_invariant(self);
        }
        self.scale
    }
}

/// Ten to the power `n`.
pub open spec fn pow10(n: nat) -> nat
    decreases n,
{
    if n == 0 {
        1
    } else {
        10 * pow10((n - 1) as nat)
    }
}

/// The absolute value of `m`.
pub open spec fn magnitude(m: int) -> nat {
    if m < 0 {
        (-m) as nat
    } else {
        m as nat
    }
}

/// `a` is smaller than `b`, as numbers.
pub open spec fn less(a: DecimalView, b: DecimalView) -> bool {
    a.mantissa * pow10(b.scale) < b.mantissa * pow10(a.scale)
}

/// `v` rounded to at most `dp` fractional digits. A value that has no more
/// than `dp` of them is left as it is, scale included. Of any other the
/// magnitude is cut after `dp` fractional digits, and one unit of the last
/// digit kept is added where the strategy says so: to the nearest even, when
/// what was cut off is more than half a unit, or is half a unit and the kept
/// part is odd; away from zero, when it is half a unit or more; towards
/// zero, never. The sign stays, but a zero has none.
pub open spec fn rounded(v: DecimalView, dp: nat, strategy: RoundingStrategy) -> DecimalView {
    if v.scale <= dp {
        v
    } else {
        let unit = pow10((v.scale - dp) as nat);
        let kept = magnitude(v.mantissa) / unit;
        let rest = magnitude(v.mantissa) % unit;
        let up = match strategy {
            RoundingStrategy::NearestEven => 2 * rest > unit || (2 * rest == unit && kept % 2 == 1),
            RoundingStrategy::AwayFromZero => 2 * rest >= unit,
            RoundingStrategy::TowardZero => false,
        };
        let m = if up {
            kept + 1
        } else {
            kept
        };
        DecimalView {
            mantissa: if v.mantissa < 0 {
                -m
            } else {
                m as int
            },
            scale: dp,
        }
    }
}

/// Powers of ten are positive, and at least ten from the first on.
pub proof fn lemma_pow10_grows(n: nat)
    ensures
        pow10(n) >= 1,
        n >= 1 ==> pow10(n) >= 10,
    decreases n,
{
    if n >= 1 {
        lemma_pow10_grows((n - 1) as nat);
    }
}

/// Rounding stays within the type: the result has the smaller of the two
/// scales, and its mantissa still fits.
pub proof fn lemma_rounded_wf(v: DecimalView, dp: nat, strategy: RoundingStrategy)
    requires
        v.wf(),
    ensures
        rounded(v, dp, strategy).wf(),
        rounded(v, dp, strategy).scale == if v.scale <= dp {
            v.scale
        } else {
            dp
        },
{
    if v.scale > dp {
        let unit = pow10((v.scale - dp) as nat);
        let size = magnitude(v.mantissa);
        lemma_pow10_grows((v.scale - dp) as nat);
        assert(10 * (size / unit) <= size) by (nonlinear_arith)
            requires
                unit >= 10,
                size >= 0,
        ;
    }
}

/// Rounding moves a value by less than one unit of the last digit kept, and
/// never across zero; the two strategies that round to the nearest value
/// move it by half a unit at most, and rounding towards zero never makes it
/// larger in size.
pub proof fn lemma_rounded_is_near(v: DecimalView, dp: nat, strategy: RoundingStrategy)
    requires
        v.scale > dp,
    ensures
        ({
            let unit = pow10((v.scale - dp) as nat);
            let back = rounded(v, dp, strategy).mantissa * unit;
            &&& -unit < back - v.mantissa < unit
            &&& v.mantissa >= 0 ==> back >= 0
            &&& v.mantissa <= 0 ==> back <= 0
            &&& strategy != RoundingStrategy::TowardZero ==> -unit <= 2 * (back - v.mantissa) <= unit
            &&& strategy == RoundingStrategy::TowardZero ==> magnitude(back) <= magnitude(v.mantissa)
        }),
{
    let unit = pow10((v.scale - dp) as nat);
    let size = magnitude(v.mantissa);
    let kept = size / unit;
    let rest = size % unit;
    lemma_pow10_grows((v.scale - dp) as nat);
    assert(size == kept * unit + rest && 0 <= rest < unit && kept >= 0) by (nonlinear_arith)
        requires
            unit >= 10,
            size >= 0,
            kept == size / unit,
            rest == size % unit,
    ;
    assert((kept + 1) * unit == kept * unit + unit) by (nonlinear_arith);
    assert((-kept) * unit == -(kept * unit)) by (nonlinear_arith);
    assert((-(kept + 1)) * unit == -(kept * unit) - unit) by (nonlinear_arith);
    assert(kept * unit >= 0) by (nonlinear_arith)
        requires
            kept >= 0,
            unit >= 0,
    ;
}

/// The character for the digit `d`, which is below ten.
pub open spec fn digit_char(d: nat) -> char {
    if d == 0 {
        '0'
    } else if d == 1 {
        '1'
    } else if d == 2 {
        '2'
    } else if d == 3 {
        '3'
    } else if d == 4 {
        '4'
    } else if d == 5 {
        '5'
    } else if d == 6 {
        '6'
    } else if d == 7 {
        '7'
    } else if d == 8 {
        '8'
    } else {
        '9'
    }
}

/// The decimal digits of `n`, the most significant first; none for zero.
pub open spec fn digits(n: nat) -> Seq<char>
    decreases n,
{
    if n == 0 {
        Seq::empty()
    } else {
        digits(n / 10).push(digit_char(n % 10))
    }
}

/// The digits of the mantissa of `v`, with zeros put before them until there
/// are at least as many as the scale.
pub open spec fn padded_digits(v: DecimalView) -> Seq<char> {
    let d = digits(magnitude(v.mantissa));
    if d.len() >= v.scale {
        d
    } else {
        Seq::new((v.scale - d.len()) as nat, |i: int| '0') + d
    }
}

/// The plain text of `v`: a minus sign for a negative value, the digits of
/// the whole part (a single 0 where there are none) and, for a scale above
/// zero, a decimal point and exactly `scale` fractional digits.
pub open spec fn canonical_text(v: DecimalView) -> Seq<char> {
    let p = padded_digits(v);
    let whole = p.take(p.len() - v.scale);
    let sign = if v.mantissa < 0 {
        seq!['-']
    } else {
        Seq::empty()
    };
    let whole_part = if whole.len() == 0 {
        seq!['0']
    } else {
        whole
    };
    let fraction_part = if v.scale > 0 {
        seq!['.'] + p.skip(p.len() - v.scale)
    } else {
        Seq::empty()
    };
    sign + whole_part + fraction_part
}

/// `c` is one of the ten digits.
pub open spec fn is_digit(c: char) -> bool {
    c == '0' || c == '1' || c == '2' || c == '3' || c == '4' || c == '5' || c == '6' || c == '7'
        || c == '8' || c == '9'
}

/// `digits` yields digits only.
pub proof fn lemma_digits_are_digits(n: nat)
    ensures
        forall|i: int| 0 <= i < digits(n).len() ==> is_digit(#[trigger] digits(n)[i]),
    decreases n,
{
    if n != 0 {
        lemma_digits_are_digits(n / 10);
        let head = digits(n / 10);
        assert forall|i: int| 0 <= i < digits(n).len() implies is_digit(
            #[trigger] digits(n)[i],
        ) by {
            if i < head.len() {
                assert(digits(n)[i] == head[i]);
            } else {
                assert(digits(n)[i] == digit_char(n % 10));
            }
        }
    }
}

/// The shape of the plain text of a decimal: the decimal point, where there
/// is one, stands right after the sign and the whole part; exactly `scale`
/// characters follow it; the characters around it are a leading minus sign
/// and digits.
pub proof fn lemma_canonical_text_shape(v: DecimalView)
    ensures
        fraction_len(canonical_text(v)) == v.scale,
        1 <= integer_len(canonical_text(v)) <= canonical_text(v).len(),
        v.scale > 0 ==> integer_len(canonical_text(v)) < canonical_text(v).len(),
        forall|i: int|
            0 <= i < canonical_text(v).len() && i != integer_len(canonical_text(v)) ==> is_digit(
                #[trigger] canonical_text(v)[i],
            ) || (i == 0 && v.mantissa < 0 && canonical_text(v)[i] == '-'),
        !has_space(canonical_text(v)),
{
    let text = canonical_text(v);
    let p = padded_digits(v);
    let d = digits(magnitude(v.mantissa));
    lemma_digits_are_digits(magnitude(v.mantissa));
    assert forall|i: int| 0 <= i < p.len() implies is_digit(#[trigger] p[i]) by {
        if d.len() < v.scale {
            if i >= v.scale - d.len() {
                assert(p[i] == d[i - (v.scale - d.len())]);
            }
        }
    }
    let whole = p.take(p.len() - v.scale);
    let sign = if v.mantissa < 0 {
        seq!['-']
    } else {
        Seq::<char>::empty()
    };
    let whole_part = if whole.len() == 0 {
        seq!['0']
    } else {
        whole
    };
    let fraction_part = if v.scale > 0 {
        seq!['.'] + p.skip(p.len() - v.scale)
    } else {
        Seq::<char>::empty()
    };
    let k = (sign.len() + whole_part.len()) as int;
    assert(text =~= sign + whole_part + fraction_part);
    assert forall|i: int| 0 <= i < whole_part.len() implies is_digit(
        #[trigger] whole_part[i],
    ) by {
        if whole.len() != 0 {
            assert(whole_part[i] == p[i]);
        }
    }
    assert forall|i: int| 0 <= i < text.len() && i != k implies is_digit(#[trigger] text[i]) || (i
        == 0 && v.mantissa < 0 && text[i] == '-') by {
        if i < sign.len() {
        } else if i < k {
            assert(text[i] == whole_part[i - sign.len()]);
        } else {
            assert(text[i] == fraction_part[i - k]);
            assert(fraction_part[i - k] == p[p.len() - v.scale + (i - k - 1)]);
        }
    }
    assert(k < text.len() ==> text[k] == '.') by {
        if k < text.len() {
            assert(text[k] == fraction_part[0]);
        }
    }
    assert forall|i: int| 0 <= i < k implies text[i] != '.' by {
        assert(is_digit(text[i]) || text[i] == '-');
    }
    lemma_integer_len_is(text, k);
    assert(!has_space(text)) by {
        if has_space(text) {
            let i = choose|i: int| 0 <= i < text.len() && text[i] == ' ';
            assert(is_digit(text[i]) || text[i] == '-' || text[i] == '.');
        }
    }
}

/// What `rust_decimal` reads from a text; `None` where it reads no decimal.
pub uninterp spec fn parsed_decimal(text: Seq<char>) -> Option<DecimalView>;

/// What `rust_decimal` gives for the sum of two decimals; `None` where the
/// sum is beyond its range.
pub uninterp spec fn decimal_sum(a: DecimalView, b: DecimalView) -> Option<DecimalView>;

/// What `rust_decimal` gives for the difference of two decimals; `None`
/// where the difference is beyond its range.
pub uninterp spec fn decimal_difference(a: DecimalView, b: DecimalView) -> Option<DecimalView>;

/// What `rust_decimal` gives for the product of two decimals; `None` where
/// the product is beyond its range.
pub uninterp spec fn decimal_product(a: DecimalView, b: DecimalView) -> Option<DecimalView>;

/// What `rust_decimal` gives for the quotient of two decimals; `None` where
/// the divisor is zero or the quotient is beyond its range.
pub uninterp spec fn decimal_quotient(a: DecimalView, b: DecimalView) -> Option<DecimalView>;

/// `rust_decimal::Error`, which says why a text was not read. Nothing is
/// claimed of what it holds.
#[verifier::external_type_specification]
#[verifier::external_body]
pub struct ExDecimalError(rust_decimal::Error);

/// `<Decimal as FromStr>::from_str` of `rust_decimal`: the decimal that the
/// text reads as, named by `parsed_decimal`, or the crate's error.
#[verifier::external_body]
pub(crate) fn parse_text(s: &str) -> (r: Result<Decimal, rust_decimal::Error>)
    ensures
        r is Ok <==> parsed_decimal(s@) is Some,
        r is Ok ==> r->Ok_0@ == parsed_decimal(s@)->0,
{
    match rust_decimal::Decimal::from_str(s) {
        Ok(d) => Ok(Decimal { mantissa: d.mantissa(), scale: d.scale() }),
        Err(e) => Err(e),
    }
}

/// `Decimal::checked_add` of `rust_decimal`: the sum, named by
/// `decimal_sum`; `None` where the sum overflows.
#[verifier::external_body]
pub(crate) fn checked_sum(a: &Decimal, b: &Decimal) -> (r: Option<Decimal>)
    ensures
        r is Some <==> decimal_sum(a@, b@) is Some,
        r is Some ==> r->0@ == decimal_sum(a@, b@)->0,
{
    let x = rust_decimal::Decimal::from_i128_with_scale(a.mantissa, a.scale);
    let y = rust_decimal::Decimal::from_i128_with_scale(b.mantissa, b.scale);
    match x.checked_add(y) {
        Some(d) => Some(Decimal { mantissa: d.mantissa(), scale: d.scale() }),
        None => None,
    }
}

/// `Decimal::checked_sub` of `rust_decimal`: the difference, named by
/// `decimal_difference`; `None` where it overflows.
#[verifier::external_body]
pub(crate) fn checked_difference(a: &Decimal, b: &Decimal) -> (r: Option<Decimal>)
    ensures
        r is Some <==> decimal_difference(a@, b@) is Some,
        r is Some ==> r->0@ == decimal_difference(a@, b@)->0,
{
    let x = rust_decimal::Decimal::from_i128_with_scale(a.mantissa, a.scale);
    let y = rust_decimal::Decimal::from_i128_with_scale(b.mantissa, b.scale);
    match x.checked_sub(y) {
        Some(d) => Some(Decimal { mantissa: d.mantissa(), scale: d.scale() }),
        None => None,
    }
}

/// `Decimal::checked_mul` of `rust_decimal`: the product, named by
/// `decimal_product`; `None` where it overflows.
#[verifier::external_body]
pub(crate) fn checked_product(a: &Decimal, b: &Decimal) -> (r: Option<Decimal>)
    ensures
        r is Some <==> decimal_product(a@, b@) is Some,
        r is Some ==> r->0@ == decimal_product(a@, b@)->0,
{
    let x = rust_decimal::Decimal::from_i128_with_scale(a.mantissa, a.scale);
    let y = rust_decimal::Decimal::from_i128_with_scale(b.mantissa, b.scale);
    match x.checked_mul(y) {
        Some(d) => Some(Decimal { mantissa: d.mantissa(), scale: d.scale() }),
        None => None,
    }
}

/// `Decimal::checked_div` of `rust_decimal`: the quotient, named by
/// `decimal_quotient`. It is `None` where the divisor is zero, and also
/// where the quotient overflows.
#[verifier::external_body]
pub(crate) fn checked_quotient(a: &Decimal, b: &Decimal) -> (r: Option<Decimal>)
    ensures
        r is Some <==> decimal_quotient(a@, b@) is Some,
        r is Some ==> r->0@ == decimal_quotient(a@, b@)->0,
        b@.mantissa == 0 ==> r is None,
{
    let x = rust_decimal::Decimal::from_i128_with_scale(a.mantissa, a.scale);
    let y = rust_decimal::Decimal::from_i128_with_scale(b.mantissa, b.scale);
    match x.checked_div(y) {
        Some(d) => Some(Decimal { mantissa: d.mantissa(), scale: d.scale() }),
        None => None,
    }
}

/// `Decimal::round_dp_with_strategy` of `rust_decimal`: a value with more
/// than `dp` fractional digits comes back with exactly `dp`, its magnitude
/// rounded as the strategy says; any other value comes back unchanged.
#[verifier::external_body]
pub(crate) fn round_dp(x: &Decimal, dp: u32, strategy: RoundingStrategy) -> (r: Decimal)
    ensures
        r@ == rounded(x@, dp as nat, strategy),
{
    let how = match strategy {
        RoundingStrategy::NearestEven => rust_decimal::RoundingStrategy::MidpointNearestEven,
        RoundingStrategy::AwayFromZero => rust_decimal::RoundingStrategy::MidpointAwayFromZero,
        RoundingStrategy::TowardZero => rust_decimal::RoundingStrategy::ToZero,
    };
    let d = rust_decimal::Decimal::from_i128_with_scale(x.mantissa, x.scale);
    let r = d.round_dp_with_strategy(dp, how);
    Decimal { mantissa: r.mantissa(), scale: r.scale() }
}

/// `<Decimal as PartialOrd>::lt` of `rust_decimal`: the two are compared as
/// numbers, whatever their scales.
#[verifier::external_body]
pub(crate) fn is_less(a: &Decimal, b: &Decimal) -> (r: bool)
    ensures
        r == less(a@, b@),
{
    let x = rust_decimal::Decimal::from_i128_with_scale(a.mantissa, a.scale);
    let y = rust_decimal::Decimal::from_i128_with_scale(b.mantissa, b.scale);
    x < y
}

/// `Decimal::to_string` of `rust_decimal`, through its `Display`: the plain
/// text of the value, with as many fractional digits as its scale.
#[verifier::external_body]
pub(crate) fn plain_text(x: &Decimal) -> (r: String)
    ensures
        r@ == canonical_text(x@),
{
    rust_decimal::Decimal::from_i128_with_scale(x.mantissa, x.scale).to_string()
}

impl Decimal {
    /// The plain text of the value.
    pub fn to_string(&self) -> (r: String)
        ensures
            r@ == canonical_text(self@),
    {
        plain_text(self)
    }

    /// The value rounded to at most `dp` fractional digits.
    pub fn round_dp_with_strategy(&self, dp: u32, strategy: RoundingStrategy) -> (r: Decimal)
        ensures
            r@ == rounded(self@, dp as nat, strategy),
    {
        round_dp(self, dp, strategy)
    }

    /// Whether the value is smaller than `other`, as a number.
    pub fn is_less_than(&self, other: &Decimal) -> (r: bool)
        ensures
            r == less(self@, other@),
    {
        is_less(self, other)
    }
}

} // verus!
