use decimal_calc::{check_limits, check_spaces, format_with_spaces, normalize, Decimal, ErrorKind};

/// Every text of the given length over the alphabet, in turn.
fn texts(alphabet: &[char], len: usize) -> Vec<String> {
    let mut all = vec![String::new()];
    for _ in 0..len {
        let mut longer = Vec::new();
        for t in &all {
            for c in alphabet {
                let mut next = t.clone();
                next.push(*c);
                longer.push(next);
            }
        }
        all = longer;
    }
    all
}

/// The verdict by a single pass with a run counter.
fn scan(s: &str) -> Result<(), ErrorKind> {
    let mut chars = s.chars();
    let mut run: usize = 0;
    let mut first = true;
    let mut after_space = false;
    if s.starts_with(' ') {
        return Err(ErrorKind::LeadingSpace);
    }
    for ch in &mut chars {
        if ch == ' ' {
            if after_space {
                return Err(ErrorKind::DoubleSpace);
            } else if first {
                if run <= 3 {
                    first = false;
                } else {
                    return Err(ErrorKind::TooManyLeadingDigits);
                }
            } else if run != 3 {
                return Err(ErrorKind::UnevenGrouping);
            }
            run = 0;
            after_space = true;
        } else if ch == '.' {
            if run != 3 && !first {
                return Err(ErrorKind::BadGroupBeforeDecimal);
            }
            break;
        } else {
            run += 1;
            after_space = false;
        }
    }
    for ch in chars {
        if ch == ' ' {
            return Err(ErrorKind::SpaceAfterDecimal);
        }
    }
    Ok(())
}

/// The display form by counting down from the length of the integer part.
fn count_down(s: &str) -> String {
    let whole = s.chars().position(|ch| ch == '.').unwrap_or_else(|| s.chars().count());
    let mut left = whole % 3;
    let mut out = String::new();
    for ch in s.chars().take(whole) {
        if left == 0 {
            if !out.is_empty() {
                out.push(' ');
            }
            left = 3;
        }
        left -= 1;
        out.push(ch);
    }
    out.extend(s.chars().skip(whole));
    out
}

/// Whether a fold over the characters counts past six after the point.
fn fraction_too_long(s: &str) -> bool {
    s.chars()
        .try_fold(0usize, |len, ch| {
            if len > 6 {
                None
            } else if len > 0 {
                Some(len + 1)
            } else if ch == '.' {
                Some(1)
            } else {
                Some(0)
            }
        })
        .is_none()
}

#[test]
fn spacing_verdicts_agree_with_a_single_pass() {
    for len in 0usize..=8 {
        for t in texts(&['1', ' ', '.', ','], len) {
            assert_eq!(check_spaces(&t), scan(&t), "{:?}", t);
        }
    }
    for len in 9usize..=12 {
        for t in texts(&['1', ' '], len) {
            assert_eq!(check_spaces(&t), scan(&t), "{:?}", t);
            let with_point = format!("{}.1", t);
            assert_eq!(check_spaces(&with_point), scan(&with_point), "{:?}", with_point);
        }
    }
}

#[test]
fn display_forms_agree_with_counting_down() {
    for len in 0usize..=9 {
        for t in texts(&['7', '-', '.', ' '], len) {
            assert_eq!(format_with_spaces(&t), count_down(&t), "{:?}", t);
        }
    }
    for t in ["ж1234567.5", "١٢٣٤٥٦٧", "1234€567.89€", "€.€"] {
        assert_eq!(format_with_spaces(t), count_down(t), "{:?}", t);
    }
}

#[test]
fn normalizing_agrees_with_replacing() {
    for len in 0usize..=8 {
        for t in texts(&['1', ' ', '.', ','], len) {
            assert_eq!(normalize(&t), t.replace(',', ".").replace(' ', ""), "{:?}", t);
        }
    }
    assert_eq!(normalize("1 234,5 ж €"), "1234.5ж€");
}

#[test]
fn fraction_lengths_agree_with_a_fold() {
    let one = Decimal::try_new(1, 0).unwrap();
    for len in 0usize..=10 {
        for t in texts(&['1', '.'], len) {
            let expected = if fraction_too_long(&t) {
                Err(ErrorKind::TooManyFractionalDigits)
            } else {
                Ok(())
            };
            assert_eq!(check_limits(&one, &t), expected, "{:?}", t);
        }
    }
}

#[test]
fn every_display_form_of_a_plain_text_is_stable() {
    for len in 0usize..=9 {
        for c in texts(&['7', '-', '.'], len) {
            let shown = format_with_spaces(&c);
            assert_eq!(check_spaces(&shown), Ok(()), "{:?}", c);
            assert_eq!(normalize(&shown), c);
            assert_eq!(format_with_spaces(&normalize(&shown)), shown);
        }
    }
}
