use decimal_calc::{Decimal, RoundingStrategy};

fn dec(mantissa: i128, scale: u32) -> Decimal {
    Decimal::try_new(mantissa, scale).unwrap()
}

fn parts(d: Decimal) -> (i128, u32) {
    (d.mantissa(), d.scale())
}

fn expected_text(mantissa: i128, scale: u32) -> String {
    let mut digits: String = if mantissa == 0 {
        String::new()
    } else {
        format!("{}", mantissa.unsigned_abs())
    };
    while digits.len() < scale as usize {
        digits.insert(0, '0');
    }
    let cut: usize = digits.len() - scale as usize;
    let mut out = String::new();
    if mantissa < 0 {
        out.push('-');
    }
    if cut == 0 {
        out.push('0');
    } else {
        out.push_str(&digits[..cut]);
    }
    if scale > 0 {
        out.push('.');
        out.push_str(&digits[cut..]);
    }
    out
}

fn expected_rounding(mantissa: i128, scale: u32, dp: u32, strategy: RoundingStrategy) -> (i128, u32) {
    if scale <= dp {
        return (mantissa, scale);
    }
    let unit: i128 = 10i128.pow(scale - dp);
    let size: i128 = mantissa.abs();
    let kept: i128 = size / unit;
    let rest: i128 = size % unit;
    let up = match strategy {
        RoundingStrategy::NearestEven => 2 * rest > unit || (2 * rest == unit && kept % 2 == 1),
        RoundingStrategy::AwayFromZero => 2 * rest >= unit,
        RoundingStrategy::TowardZero => false,
    };
    let m: i128 = if up { kept + 1 } else { kept };
    (if mantissa < 0 { -m } else { m }, dp)
}

#[test]
fn try_new_takes_what_fits() {
    let top: i128 = 79_228_162_514_264_337_593_543_950_335;
    assert_eq!(parts(dec(top, 0)), (top, 0));
    assert_eq!(parts(dec(-top, 28)), (-top, 28));
    assert_eq!(parts(dec(0, 6)), (0, 6));
    assert!(Decimal::try_new(top + 1, 0).is_none());
    assert!(Decimal::try_new(-top - 1, 0).is_none());
    assert!(Decimal::try_new(1, 29).is_none());
    assert!(Decimal::try_new(i128::MAX, 0).is_none());
    assert!(Decimal::try_new(i128::MIN, 0).is_none());
}

#[test]
fn plain_text_of_given_values() {
    assert_eq!(dec(0, 0).to_string(), "0");
    assert_eq!(dec(0, 6).to_string(), "0.000000");
    assert_eq!(dec(5, 0).to_string(), "5");
    assert_eq!(dec(-5, 2).to_string(), "-0.05");
    assert_eq!(dec(12345, 2).to_string(), "123.45");
    assert_eq!(dec(-12345, 5).to_string(), "-0.12345");
    assert_eq!(dec(1, 28).to_string(), "0.0000000000000000000000000001");
    assert_eq!(
        dec(79_228_162_514_264_337_593_543_950_335, 28).to_string(),
        "7.9228162514264337593543950335"
    );
    assert_eq!(
        dec(-79_228_162_514_264_337_593_543_950_335, 0).to_string(),
        "-79228162514264337593543950335"
    );
    assert_eq!(dec(1_000_000_000_000_000_000, 6).to_string(), "1000000000000.000000");
}

#[test]
fn plain_text_follows_mantissa_and_scale() {
    let mantissas: [i128; 14] = [
        0,
        1,
        -1,
        9,
        10,
        -10,
        99,
        100,
        12345,
        -987654321,
        1_000_000_000_000_000_000,
        -1_000_000_000_000_000_001,
        79_228_162_514_264_337_593_543_950_335,
        -79_228_162_514_264_337_593_543_950_335,
    ];
    for m in mantissas {
        for scale in 0u32..=28 {
            assert_eq!(dec(m, scale).to_string(), expected_text(m, scale));
        }
    }
}

#[test]
fn rounding_of_given_values() {
    let even = RoundingStrategy::NearestEven;
    let away = RoundingStrategy::AwayFromZero;
    let toward = RoundingStrategy::TowardZero;
    assert_eq!(parts(dec(65, 1).round_dp_with_strategy(0, even)), (6, 0));
    assert_eq!(parts(dec(75, 1).round_dp_with_strategy(0, even)), (8, 0));
    assert_eq!(parts(dec(65, 1).round_dp_with_strategy(0, away)), (7, 0));
    assert_eq!(parts(dec(-65, 1).round_dp_with_strategy(0, away)), (-7, 0));
    assert_eq!(parts(dec(64, 1).round_dp_with_strategy(0, away)), (6, 0));
    assert_eq!(parts(dec(68, 1).round_dp_with_strategy(0, toward)), (6, 0));
    assert_eq!(parts(dec(-68, 1).round_dp_with_strategy(0, toward)), (-6, 0));
    assert_eq!(parts(dec(34395, 4).round_dp_with_strategy(2, away)), (344, 2));
    assert_eq!(parts(dec(-4, 1).round_dp_with_strategy(0, away)), (0, 0));
    assert_eq!(dec(-4, 1).round_dp_with_strategy(0, away).to_string(), "0");
}

#[test]
fn rounding_leaves_short_values_alone() {
    for strategy in
        [RoundingStrategy::NearestEven, RoundingStrategy::AwayFromZero, RoundingStrategy::TowardZero]
    {
        assert_eq!(parts(dec(251, 2).round_dp_with_strategy(3, strategy)), (251, 2));
        assert_eq!(parts(dec(251, 2).round_dp_with_strategy(2, strategy)), (251, 2));
        assert_eq!(parts(dec(0, 3).round_dp_with_strategy(6, strategy)), (0, 3));
        assert_eq!(parts(dec(0, 9).round_dp_with_strategy(6, strategy)), (0, 6));
        assert_eq!(parts(dec(7, 0).round_dp_with_strategy(u32::MAX, strategy)), (7, 0));
    }
}

#[test]
fn rounding_follows_the_strategy() {
    let mantissas: [i128; 20] = [
        0,
        1,
        4,
        5,
        6,
        15,
        25,
        -25,
        -35,
        49,
        50,
        51,
        149,
        150,
        250,
        -250,
        12345675,
        -12345665,
        79_228_162_514_264_337_593_543_950_335,
        -79_228_162_514_264_337_593_543_950_335,
    ];
    for m in mantissas {
        for scale in 0u32..=28 {
            for dp in [0u32, 1, 2, 6, 10, 27, 28, 40] {
                for strategy in [
                    RoundingStrategy::NearestEven,
                    RoundingStrategy::AwayFromZero,
                    RoundingStrategy::TowardZero,
                ] {
                    assert_eq!(
                        parts(dec(m, scale).round_dp_with_strategy(dp, strategy)),
                        expected_rounding(m, scale, dp, strategy),
                        "{} / 10^{} to {} digits",
                        m,
                        scale,
                        dp
                    );
                }
            }
        }
    }
}

#[test]
fn comparison_is_by_size_not_by_scale() {
    assert!(dec(1, 0).is_less_than(&dec(2, 0)));
    assert!(!dec(2, 0).is_less_than(&dec(1, 0)));
    assert!(!dec(10, 1).is_less_than(&dec(1, 0)));
    assert!(!dec(1, 0).is_less_than(&dec(10, 1)));
    assert!(dec(99, 2).is_less_than(&dec(1, 0)));
    assert!(dec(-1, 0).is_less_than(&dec(1, 28)));
    assert!(dec(-2, 0).is_less_than(&dec(-1, 0)));
    assert!(dec(-1, 0).is_less_than(&dec(-99, 2)));
    assert!(!dec(0, 0).is_less_than(&dec(0, 28)));
    assert!(dec(0, 5).is_less_than(&dec(1, 28)));
    assert!(dec(-1, 28).is_less_than(&dec(0, 0)));
    assert!(dec(1, 28).is_less_than(&dec(79_228_162_514_264_337_593_543_950_335, 0)));
    assert!(!dec(79_228_162_514_264_337_593_543_950_335, 0).is_less_than(&dec(1, 28)));
}

#[test]
fn comparison_follows_cross_multiplication() {
    let mantissas: [i128; 11] =
        [0, 1, -1, 9, 10, -10, 11, 100, -100, 999_999_999, 1_000_000_000];
    for a in mantissas {
        for sa in 0u32..=9 {
            for b in mantissas {
                for sb in 0u32..=9 {
                    let expected = a * 10i128.pow(sb) < b * 10i128.pow(sa);
                    assert_eq!(dec(a, sa).is_less_than(&dec(b, sb)), expected);
                }
            }
        }
    }
}
