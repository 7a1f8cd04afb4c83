use decimal_calc::{accept, read_operand, Calculator, Decimal, ErrorKind, EvalOutcome, Op, Operand, RoundingStrategy};

fn read(text: &str) -> Result<(i128, u32), ErrorKind> {
    match read_operand(text) {
        Ok(d) => Ok((d.mantissa(), d.scale())),
        Err(e) => Err(e),
    }
}

fn outside_error() -> rust_decimal::Error {
    match "no number".parse::<rust_decimal::Decimal>() {
        Ok(_) => panic!("read as a decimal"),
        Err(e) => e,
    }
}

#[test]
fn well_typed_numbers_are_read() {
    assert_eq!(read("1 234,5"), Ok((12345, 1)));
    assert_eq!(read("1 234 567.891"), Ok((1234567891, 3)));
    assert_eq!(read("-12"), Ok((-12, 0)));
    assert_eq!(read("0.000000"), Ok((0, 6)));
    assert_eq!(read("1234567"), Ok((1234567, 0)));
    assert_eq!(read("1 000 000 000 000"), Ok((1_000_000_000_000, 0)));
    assert_eq!(read("-1 000 000 000 000.000000"), Ok((-1_000_000_000_000_000_000, 6)));
}

#[test]
fn spacing_is_judged_first() {
    assert_eq!(read(" 1"), Err(ErrorKind::LeadingSpace));
    assert_eq!(read("1  2"), Err(ErrorKind::DoubleSpace));
    assert_eq!(read("1234 5"), Err(ErrorKind::TooManyLeadingDigits));
    assert_eq!(read("1 23 456"), Err(ErrorKind::UnevenGrouping));
    assert_eq!(read("1 23.4"), Err(ErrorKind::BadGroupBeforeDecimal));
    assert_eq!(read("1.2 3"), Err(ErrorKind::SpaceAfterDecimal));
    assert_eq!(read(" x"), Err(ErrorKind::LeadingSpace));
    assert_eq!(read("9 9999 999 999 999"), Err(ErrorKind::UnevenGrouping));
}

#[test]
fn what_is_no_decimal_is_an_invalid_number() {
    assert_eq!(read(""), Err(ErrorKind::InvalidNumber));
    assert_eq!(read("abc"), Err(ErrorKind::InvalidNumber));
    assert_eq!(read("1.2.3"), Err(ErrorKind::InvalidNumber));
    assert_eq!(read("1,2,3"), Err(ErrorKind::InvalidNumber));
    assert_eq!(read("--1"), Err(ErrorKind::InvalidNumber));
    assert_eq!(read("1\t2"), Err(ErrorKind::InvalidNumber));
}

#[test]
fn values_are_held_against_the_limits() {
    assert_eq!(read("1 000 000 000 000.000001"), Err(ErrorKind::AboveMaximum));
    assert_eq!(read("1000000000001"), Err(ErrorKind::AboveMaximum));
    assert_eq!(read("-1 000 000 000 000.000001"), Err(ErrorKind::BelowMinimum));
    assert_eq!(read("0.1234567"), Err(ErrorKind::TooManyFractionalDigits));
    assert_eq!(read("0,1234567"), Err(ErrorKind::TooManyFractionalDigits));
    assert_eq!(read("0.123456"), Ok((123456, 6)));
}

#[test]
fn accept_judges_what_the_reader_made() {
    assert!(matches!(accept(Err(outside_error()), "no number"), Err(ErrorKind::InvalidNumber)));
    let small = Decimal::try_new(15, 1).unwrap();
    match accept(Ok(small), "1.5") {
        Ok(d) => assert_eq!((d.mantissa(), d.scale()), (15, 1)),
        Err(e) => panic!("rejected: {:?}", e),
    }
    assert!(matches!(accept(Ok(small), "1.5000000"), Err(ErrorKind::TooManyFractionalDigits)));
    let big = Decimal::try_new(1_000_000_000_001, 0).unwrap();
    assert!(matches!(accept(Ok(big), "1"), Err(ErrorKind::AboveMaximum)));
    let low = Decimal::try_new(-1_000_000_000_001, 0).unwrap();
    assert!(matches!(accept(Ok(low), "1"), Err(ErrorKind::BelowMinimum)));
}

#[test]
fn a_field_in_error_keeps_its_last_value() {
    let mut field = Operand { value: Decimal::try_new(0, 6).unwrap(), text: String::from("12,5") };
    assert_eq!(field.refresh(), Ok(()));
    assert_eq!((field.value.mantissa(), field.value.scale()), (125, 1));
    assert_eq!(field.text, "12,5");
    field.text = String::from("12,5x");
    assert_eq!(field.refresh(), Err(ErrorKind::InvalidNumber));
    assert_eq!((field.value.mantissa(), field.value.scale()), (125, 1));
    assert_eq!(field.text, "12,5x");
    field.text = String::from(" 7");
    assert_eq!(field.refresh(), Err(ErrorKind::LeadingSpace));
    assert_eq!((field.value.mantissa(), field.value.scale()), (125, 1));
    field.text = String::from("7");
    assert_eq!(field.refresh(), Ok(()));
    assert_eq!((field.value.mantissa(), field.value.scale()), (7, 0));
}

#[test]
fn a_new_calculator_holds_zeros_and_additions() {
    let c = Calculator::new();
    for i in 0usize..4 {
        assert_eq!(c.operands[i].text, "0.000000");
        assert_eq!((c.operands[i].value.mantissa(), c.operands[i].value.scale()), (0, 6));
    }
    assert_eq!(c.ops, [Op::Add, Op::Add, Op::Add]);
    assert_eq!(c.rounding_strategy, RoundingStrategy::AwayFromZero);
    match c.evaluate() {
        EvalOutcome::Done(e) => {
            assert_eq!(e.canonical.to_string(), "0.000000");
            assert_eq!(e.verdict, Ok(()));
            assert_eq!(e.rounded.to_string(), "0");
        },
        other => panic!("no result: {:?}", other),
    }
}

#[test]
fn update_reads_every_field_and_evaluates() {
    let mut c = Calculator::new();
    c.operands[0].text = String::from("2");
    c.operands[1].text = String::from("3");
    c.operands[2].text = String::from("4");
    c.operands[3].text = String::from("5,5");
    c.ops = [Op::Add, Op::Mul, Op::Mul];
    c.rounding_strategy = RoundingStrategy::NearestEven;
    let report = c.update();
    assert_eq!(report.fields, [Ok(()), Ok(()), Ok(()), Ok(())]);
    match report.outcome {
        Some(EvalOutcome::Done(e)) => {
            assert_eq!(e.canonical.to_string(), "68.0");
            assert_eq!(e.verdict, Ok(()));
            assert_eq!(e.rounded.to_string(), "68");
        },
        other => panic!("no result: {:?}", other),
    }
    assert_eq!(c.operands[3].text, "5,5");
    assert_eq!(c.ops, [Op::Add, Op::Mul, Op::Mul]);
    assert_eq!(c.rounding_strategy, RoundingStrategy::NearestEven);
}

#[test]
fn update_judges_each_field_on_its_own() {
    let mut c = Calculator::new();
    c.operands[0].text = String::from("2");
    c.operands[1].text = String::from("3");
    c.operands[2].text = String::from("4");
    c.operands[3].text = String::from("5");
    assert!(c.update().outcome.is_some());
    c.operands[0].text = String::from(" 9");
    c.operands[1].text = String::from("30");
    c.operands[2].text = String::from("4 0");
    c.operands[3].text = String::from("x");
    let report = c.update();
    assert_eq!(
        report.fields,
        [Err(ErrorKind::LeadingSpace), Ok(()), Ok(()), Err(ErrorKind::InvalidNumber)]
    );
    assert!(report.outcome.is_none());
    assert_eq!(c.operands[0].value.mantissa(), 2);
    assert_eq!(c.operands[1].value.mantissa(), 30);
    assert_eq!(c.operands[2].value.mantissa(), 40);
    assert_eq!(c.operands[3].value.mantissa(), 5);
    match c.evaluate() {
        EvalOutcome::Done(e) => assert_eq!(e.canonical.to_string(), "77"),
        other => panic!("no result: {:?}", other),
    }
}

#[test]
fn refresh_reads_one_field() {
    let mut c = Calculator::new();
    c.operands[2].text = String::from("1 234");
    c.operands[3].text = String::from("oops");
    assert_eq!(c.refresh(2), Ok(()));
    assert_eq!(c.operands[2].value.mantissa(), 1234);
    assert_eq!(c.operands[3].value.mantissa(), 0);
    assert_eq!(c.refresh(3), Err(ErrorKind::InvalidNumber));
    assert_eq!((c.operands[3].value.mantissa(), c.operands[3].value.scale()), (0, 6));
}

#[test]
fn every_error_has_its_message() {
    assert_eq!(ErrorKind::LeadingSpace.message(), "ввод начинается c пробела");
    assert_eq!(ErrorKind::DoubleSpace.message(), "много пробелов подряд");
    assert_eq!(ErrorKind::TooManyLeadingDigits.message(), "много цифр перед первым пробелом");
    assert_eq!(
        ErrorKind::UnevenGrouping.message(),
        "между пробелами в середине числа не по три цифры"
    );
    assert_eq!(
        ErrorKind::BadGroupBeforeDecimal.message(),
        "последний разделитель перед точкой в неположенном месте"
    );
    assert_eq!(ErrorKind::SpaceAfterDecimal.message(), "пробелы после точки");
    assert_eq!(ErrorKind::InvalidNumber.message(), "возмутительный ввод");
    assert_eq!(ErrorKind::BelowMinimum.message(), "число меньше минимума");
    assert_eq!(ErrorKind::AboveMaximum.message(), "число больше максимума");
    assert_eq!(ErrorKind::TooManyFractionalDigits.message(), "много знаков после точки");
    assert_eq!(ErrorKind::DivisionByZero.message(), "деление на ноль");
}

#[test]
fn every_strategy_has_its_name() {
    assert_eq!(decimal_calc::rounding_strategy_to_str(RoundingStrategy::NearestEven), "бухгалтерское");
    assert_eq!(decimal_calc::rounding_strategy_to_str(RoundingStrategy::AwayFromZero), "математическое");
    assert_eq!(decimal_calc::rounding_strategy_to_str(RoundingStrategy::TowardZero), "усечение");
}
