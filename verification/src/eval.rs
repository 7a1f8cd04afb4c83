use vstd::prelude::*;
use crate::decimal::{
    canonical_text, checked_difference, checked_product, checked_quotient, checked_sum,
    decimal_difference, decimal_product, decimal_quotient, decimal_sum, plain_text, round_dp,
    rounded, Decimal, DecimalView,
};
use crate::error::ErrorKind;
use crate::grouping::{format_with_spaces, grouped};
use crate::limits::{check_limits, lemma_limits_of_canonical_text, limits_verdict};
use crate::op::Op;
use crate::rounding::RoundingStrategy;

verus! {

/// The fractional digits kept between the steps of an evaluation.
pub const INNER_SCALE: u32 = 10u32;

/// The fractional digits of a result.
pub const RESULT_SCALE: u32 = 6u32;

/// How one operation on two decimals ends.
pub enum Step {
    Value(DecimalView),
    /// A division without a quotient: the divisor is zero, or the decimal
    /// type gives none.
    DivisionByZero,
    /// A sum, difference or product beyond the range of the decimal type.
    OutOfRange,
}

/// How one operation on two decimals ends.
#[derive(Clone, Copy, Debug)]
pub enum Applied {
    Value(Decimal),
    /// A division without a quotient: the divisor is zero, or the decimal
    /// type gives none.
    DivisionByZero,
    /// A sum, difference or product beyond the range of the decimal type.
    OutOfRange,
}

impl View for Applied {
    type V = Step;

    open spec fn view(&self) -> Step {
        match *self {
            Applied::Value(d) => Step::Value(d@),
            Applied::DivisionByZero => Step::DivisionByZero,
            Applied::OutOfRange => Step::OutOfRange,
        }
    }
}

/// `lhs op rhs`, as the decimal type computes it.
pub open spec fn applied(op: Op, lhs: DecimalView, rhs: DecimalView) -> Step {
    match op {
        Op::Add => match decimal_sum(lhs, rhs) {
            Some(v) => Step::Value(v),
            None => Step::OutOfRange,
        },
        Op::Sub => match decimal_difference(lhs, rhs) {
            Some(v) => Step::Value(v),
            None => Step::OutOfRange,
        },
        Op::Mul => match decimal_product(lhs, rhs) {
            Some(v) => Step::Value(v),
            None => Step::OutOfRange,
        },
        Op::Div => if rhs.mantissa == 0 {
            Step::DivisionByZero
        } else {
            match decimal_quotient(lhs, rhs) {
                Some(v) => Step::Value(v),
                None => Step::DivisionByZero,
            }
        },
    }
}

/// A step's value rounded to ten fractional digits, ties away from zero.
pub open spec fn kept(step: Step) -> Step {
    match step {
        Step::Value(v) => Step::Value(rounded(v, INNER_SCALE as nat, RoundingStrategy::AwayFromZero)),
        other => other,
    }
}

/// The last operator binds tighter than the first: the right pair goes first.
pub open spec fn right_first(ops: Seq<Op>) -> bool {
    ops[2].tier() > ops[0].tier()
}

/// The value of `o0 op0 o1 op1 o2 op2 o3` before its final rounding. The
/// middle pair is computed first. Then the right pair goes before the left
/// one if and only if `op2` is of a higher tier than `op0`. Each step but the
/// last is rounded to ten fractional digits, and the first step that fails
/// ends the evaluation.
pub open spec fn raw_result(operands: Seq<DecimalView>, ops: Seq<Op>) -> Step {
    match kept(applied(ops[1], operands[1], operands[2])) {
        Step::Value(y) => if right_first(ops) {
            match kept(applied(ops[2], y, operands[3])) {
                Step::Value(z) => applied(ops[0], operands[0], z),
                failed => failed,
            }
        } else {
            match kept(applied(ops[0], operands[0], y)) {
                Step::Value(x) => applied(ops[2], x, operands[3]),
                failed => failed,
            }
        },
        failed => failed,
    }
}

/// A result as it is handed out.
pub struct EvaluationView {
    pub canonical: DecimalView,
    pub verdict: Result<(), ErrorKind>,
    pub rounded: DecimalView,
}

/// A result as it is handed out.
#[derive(Clone, Copy, Debug)]
pub struct Evaluation {
    /// The result with at most six fractional digits.
    pub canonical: Decimal,
    /// Whether `canonical` may be shown: what `check_limits` says of it and
    /// its plain text.
    pub verdict: Result<(), ErrorKind>,
    /// `canonical` without fractional digits, rounded as the user chose.
    pub rounded: Decimal,
}

impl View for Evaluation {
    type V = EvaluationView;

    open spec fn view(&self) -> EvaluationView {
        EvaluationView {
            canonical: self.canonical@,
            verdict: self.verdict,
            rounded: self.rounded@,
        }
    }
}

/// What becomes of the raw value of an expression: it is rounded to six
/// fractional digits, ties away from zero; that canonical value is checked
/// against the limits; and it is rounded once more, to no fractional digits,
/// by the strategy chosen for display.
pub open spec fn concluded(raw: DecimalView, strategy: RoundingStrategy) -> EvaluationView {
    let canonical = rounded(raw, RESULT_SCALE as nat, RoundingStrategy::AwayFromZero);
    EvaluationView {
        canonical,
        verdict: limits_verdict(canonical, canonical_text(canonical)),
        rounded: rounded(canonical, 0, strategy),
    }
}

/// How an evaluation ends.
pub enum Outcome {
    Done(EvaluationView),
    DivisionByZero,
    OutOfRange,
}

/// How an evaluation ends.
#[derive(Clone, Copy, Debug)]
pub enum EvalOutcome {
    Done(Evaluation),
    /// A division on the way had no quotient.
    DivisionByZero,
    /// A sum, difference or product on the way left the range of the decimal
    /// type.
    OutOfRange,
}

impl View for EvalOutcome {
    type V = Outcome;

    open spec fn view(&self) -> Outcome {
        match *self {
            EvalOutcome::Done(e) => Outcome::Done(e@),
            EvalOutcome::DivisionByZero => Outcome::DivisionByZero,
            EvalOutcome::OutOfRange => Outcome::OutOfRange,
        }
    }
}

/// The outcome of evaluating four operands joined by three operators.
pub open spec fn evaluated(
    operands: Seq<DecimalView>,
    ops: Seq<Op>,
    strategy: RoundingStrategy,
) -> Outcome {
    match raw_result(operands, ops) {
        Step::Value(raw) => Outcome::Done(concluded(raw, strategy)),
        Step::DivisionByZero => Outcome::DivisionByZero,
        Step::OutOfRange => Outcome::OutOfRange,
    }
}

/// The values of four operands.
pub open spec fn views(operands: [Decimal; 4]) -> Seq<DecimalView> {
    seq![operands[0]@, operands[1]@, operands[2]@, operands[3]@]
}

/// Applies one operation to two decimals.
pub fn execute(lhs: &Decimal, rhs: &Decimal, op: Op) -> (r: Applied)
    ensures
        r@ == applied(op, lhs@, rhs@),
{
    match op {
        Op::Add => match checked_sum(lhs, rhs) {
            Some(v) => Applied::Value(v),
            None => Applied::OutOfRange,
        },
        Op::Sub => match checked_difference(lhs, rhs) {
            Some(v) => Applied::Value(v),
            None => Applied::OutOfRange,
        },
        Op::Mul => match checked_product(lhs, rhs) {
            Some(v) => Applied::Value(v),
            None => Applied::OutOfRange,
        },
        Op::Div => match checked_quotient(lhs, rhs) {
            Some(v) => Applied::Value(v),
            None => Applied::DivisionByZero,
        },
    }
}

/// Rounds `x` to at most `dp` fractional digits, ties away from zero.
pub fn mathematical_round(dp: u32, x: &Decimal) -> (r: Decimal)
    ensures
        r@ == rounded(x@, dp as nat, RoundingStrategy::AwayFromZero),
{
    round_dp(x, dp, RoundingStrategy::AwayFromZero)
}

/// Rounds the value of a step that is not the last one.
pub fn keep(step: Applied) -> (r: Applied)
    ensures
        r@ == kept(step@),
{
    match step {
        Applied::Value(v) => Applied::Value(mathematical_round(INNER_SCALE, &v)),
        other => other,
    }
}

/// Turns the raw value of an expression into the result that is handed out.
pub fn conclude(raw: &Decimal, strategy: RoundingStrategy) -> (e: Evaluation)
    ensures
        e@ == concluded(raw@, strategy),
{
    let canonical = mathematical_round(RESULT_SCALE, raw);
    let text = plain_text(&canonical);
    let verdict = check_limits(&canonical, text.as_str());
    let rounded = round_dp(&canonical, 0, strategy);
    Evaluation { canonical, verdict, rounded }
}

/// Evaluates `o0 op0 o1 op1 o2 op2 o3`.
pub fn evaluate(operands: &[Decimal; 4], ops: &[Op; 3], strategy: RoundingStrategy) -> (out:
    EvalOutcome)
    ensures
        out@ == evaluated(views(*operands), ops@, strategy),
{
    let y = match keep(execute(&operands[1], &operands[2], ops[1])) {
        Applied::Value(y) => y,
        Applied::DivisionByZero => {
            return EvalOutcome::DivisionByZero;
        },
        Applied::OutOfRange => {
            return EvalOutcome::OutOfRange;
        },
    };
    let last = if ops[2] > ops[0] {
        match keep(execute(&y, &operands[3], ops[2])) {
            Applied::Value(z) => execute(&operands[0], &z, ops[0]),
            failed => failed,
        }
    } else {
        match keep(execute(&operands[0], &y, ops[0])) {
            Applied::Value(x) => execute(&x, &operands[3], ops[2]),
            failed => failed,
        }
    };
    match last {
        Applied::Value(raw) => EvalOutcome::Done(conclude(&raw, strategy)),
        Applied::DivisionByZero => EvalOutcome::DivisionByZero,
        Applied::OutOfRange => EvalOutcome::OutOfRange,
    }
}

/// A division by zero in the middle pair ends the evaluation, whatever the
/// two outer operators are.
pub proof fn lemma_inner_division_by_zero(
    operands: Seq<DecimalView>,
    ops: Seq<Op>,
    strategy: RoundingStrategy,
)
    requires
        operands.len() == 4,
        ops.len() == 3,
        ops[1] == Op::Div,
        operands[2].mantissa == 0,
    ensures
        evaluated(operands, ops, strategy) == Outcome::DivisionByZero,
{
}

/// The result that is handed out has at most six fractional digits, and
/// exactly six where the raw value had six or more; it is the raw value
/// rounded with ties away from zero, whatever strategy was chosen for
/// display; so `check_limits` never refuses it for its fractional digits.
/// The strategy decides the value without fractional digits alone.
pub proof fn lemma_result_rounding(
    raw: DecimalView,
    strategy: RoundingStrategy,
    other: RoundingStrategy,
)
    ensures
        concluded(raw, strategy).canonical.scale <= RESULT_SCALE,
        raw.scale >= RESULT_SCALE ==> concluded(raw, strategy).canonical.scale == RESULT_SCALE,
        concluded(raw, strategy).canonical == concluded(raw, other).canonical,
        concluded(raw, strategy).verdict == concluded(raw, other).verdict,
        concluded(raw, strategy).verdict != Err::<(), ErrorKind>(
            ErrorKind::TooManyFractionalDigits,
        ),
        concluded(raw, strategy).rounded.scale == 0,
        concluded(raw, strategy).rounded == rounded(
            rounded(raw, RESULT_SCALE as nat, RoundingStrategy::AwayFromZero),
            0,
            strategy,
        ),
{
    lemma_limits_of_canonical_text(concluded(raw, strategy).canonical);
}

/// The text a decimal is shown as: its plain text, grouped.
pub fn display_text(x: &Decimal) -> (out: String)
    ensures
        out@ == grouped(canonical_text(x@)),
{
    let text = plain_text(x);
    format_with_spaces(text.as_str())
}

} // verus!
