use vstd::prelude::*;

verus! {

/// How a value is brought to fewer fractional digits.
#[derive(Clone, Copy, PartialEq, Eq, Debug, Structural)]
pub enum RoundingStrategy {
    /// To the nearest value; a tie goes to the even neighbour.
    NearestEven,
    /// To the nearest value; a tie goes away from zero.
    AwayFromZero,
    /// Towards zero: the digits beyond are cut off.
    TowardZero,
}

/// The name a strategy goes by on the screen.
pub open spec fn name_of(s: RoundingStrategy) -> Seq<char> {
    match s {
        RoundingStrategy::NearestEven => "бухгалтерское"@,
        RoundingStrategy::AwayFromZero => "математическое"@,
        RoundingStrategy::TowardZero => "усечение"@,
    }
}

/// The name a strategy goes by on the screen.
pub fn rounding_strategy_to_str(s: RoundingStrategy) -> (name: &'static str)
    ensures
        name@ == name_of(s),
{
    match s {
        RoundingStrategy::NearestEven => "бухгалтерское",
        RoundingStrategy::AwayFromZero => "математическое",
        RoundingStrategy::TowardZero => "усечение",
    }
}

} // verus!
