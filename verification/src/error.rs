use vstd::prelude::*;

verus! {

/// Why a typed number, or the result of an evaluation, is not accepted.
#[derive(Clone, Copy, PartialEq, Eq, Debug, Structural)]
pub enum ErrorKind {
    /// The text begins with a space.
    LeadingSpace,
    /// Two spaces stand next to each other in the integer part.
    DoubleSpace,
    /// More than three characters stand before the first space.
    TooManyLeadingDigits,
    /// A group between two spaces does not hold exactly three characters.
    UnevenGrouping,
    /// The group between the last space and the decimal point does not hold
    /// exactly three characters.
    BadGroupBeforeDecimal,
    /// A space stands after the decimal point.
    SpaceAfterDecimal,
    /// The normalized text is not a decimal number.
    InvalidNumber,
    /// The value lies below the lower limit.
    BelowMinimum,
    /// The value lies above the upper limit.
    AboveMaximum,
    /// More than six characters follow the decimal point.
    TooManyFractionalDigits,
    /// A division had no quotient.
    DivisionByZero,
}

/// The message that stands for an error on the screen.
pub open spec fn message_of(kind: ErrorKind) -> Seq<char> {
    match kind {
        ErrorKind::LeadingSpace => "ввод начинается c пробела"@,
        ErrorKind::DoubleSpace => "много пробелов подряд"@,
        ErrorKind::TooManyLeadingDigits => "много цифр перед первым пробелом"@,
        ErrorKind::UnevenGrouping => "между пробелами в середине числа не по три цифры"@,
        ErrorKind::BadGroupBeforeDecimal => "последний разделитель перед точкой в неположенном месте"@,
        ErrorKind::SpaceAfterDecimal => "пробелы после точки"@,
        ErrorKind::InvalidNumber => "возмутительный ввод"@,
        ErrorKind::BelowMinimum => "число меньше минимума"@,
        ErrorKind::AboveMaximum => "число больше максимума"@,
        ErrorKind::TooManyFractionalDigits => "много знаков после точки"@,
        ErrorKind::DivisionByZero => "деление на ноль"@,
    }
}

impl ErrorKind {
    /// The message that stands for the error on the screen.
    pub fn message(&self) -> (s: &'static str)
        ensures
            s@ == message_of(*self),
    {
        match self {
            ErrorKind::LeadingSpace => "ввод начинается c пробела",
            ErrorKind::DoubleSpace => "много пробелов подряд",
            ErrorKind::TooManyLeadingDigits => "много цифр перед первым пробелом",
            ErrorKind::UnevenGrouping => "между пробелами в середине числа не по три цифры",
            ErrorKind::BadGroupBeforeDecimal => "последний разделитель перед точкой в неположенном месте",
            ErrorKind::SpaceAfterDecimal => "пробелы после точки",
            ErrorKind::InvalidNumber => "возмутительный ввод",
            ErrorKind::BelowMinimum => "число меньше минимума",
            ErrorKind::AboveMaximum => "число больше максимума",
            ErrorKind::TooManyFractionalDigits => "много знаков после точки",
            ErrorKind::DivisionByZero => "деление на ноль",
        }
    }
}

} // verus!
