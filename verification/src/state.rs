use vstd::prelude::*;
use crate::decimal::{canonical_text, digits, padded_digits, Decimal, DecimalView};
use crate::error::ErrorKind;
use crate::eval::{display_text, evaluate, evaluated, views, EvalOutcome};
use crate::grouping::{grouped, spaced};
use crate::text::lemma_integer_len_is;
use crate::op::Op;
use crate::operand::{reading, verdict_of, Operand};
use crate::rounding::RoundingStrategy;

verus! {

/// The value every operand starts with: 0.000000.
pub open spec fn initial_value() -> DecimalView {
    DecimalView { mantissa: 0, scale: 6 }
}

/// The text every operand starts with.
pub proof fn lemma_initial_text()
    ensures
        grouped(canonical_text(initial_value())) == "0.000000"@,
{
    reveal_strlit("0.000000");
    let text = canonical_text(initial_value());
    assert(digits(0).len() == 0);
    assert(padded_digits(initial_value()) =~= seq!['0', '0', '0', '0', '0', '0']);
    assert(text =~= "0.000000"@);
    lemma_integer_len_is(text, 1);
    assert(spaced(text.take(1)) == text.take(1));
    assert(grouped(text) =~= text);
}

/// Everything the calculator remembers between two edits.
pub struct Calculator {
    pub operands: [Operand; 4],
    pub ops: [Op; 3],
    pub rounding_strategy: RoundingStrategy,
}

/// What one pass over the calculator found.
pub struct Report {
    /// The verdict on each operand field.
    pub fields: [Result<(), ErrorKind>; 4],
    /// The outcome of the evaluation, which takes place when all four fields
    /// read well.
    pub outcome: Option<EvalOutcome>,
}

impl Calculator {
    /// The values of the four operands.
    pub open spec fn values(self) -> [Decimal; 4] {
        [
            self.operands[0].value,
            self.operands[1].value,
            self.operands[2].value,
            self.operands[3].value,
        ]
    }

    /// A calculator with four zeros joined by additions, and ties rounded
    /// away from zero.
    pub fn new() -> (c: Calculator)
        ensures
            forall|i: int|
                0 <= i < 4 ==> {
                    &&& (#[trigger] c.operands[i]).value@ == initial_value()
                    &&& c.operands[i].text@ == "0.000000"@
                },
            forall|i: int| 0 <= i < 3 ==> c.ops[i] == Op::Add,
            c.rounding_strategy == RoundingStrategy::AwayFromZero,
    {
        let zero = Decimal::try_new(0, 6).unwrap();
        proof {
            lemma_initial_text();
        }
        Calculator {
            operands: [
                Operand { value: zero, text: display_text(&zero) },
                Operand { value: zero, text: display_text(&zero) },
                Operand { value: zero, text: display_text(&zero) },
                Operand { value: zero, text: display_text(&zero) },
            ],
            ops: [Op::Add, Op::Add, Op::Add],
            rounding_strategy: RoundingStrategy::AwayFromZero,
        }
    }

    /// Reads the text of operand `index` anew.
    pub fn refresh(&mut self, index: usize) -> (r: Result<(), ErrorKind>)
        requires
            index < 4,
        ensures
            final(self).ops == old(self).ops,
            final(self).rounding_strategy == old(self).rounding_strategy,
            forall|i: int| 0 <= i < 4 && i != index ==> final(self).operands[i] == old(self).operands[i],
            final(self).operands[index as int].text == old(self).operands[index as int].text,
            r == verdict_of(reading(old(self).operands[index as int].text@)),
            match reading(old(self).operands[index as int].text@) {
                Ok(v) => final(self).operands[index as int].value@ == v,
                Err(_) => final(self).operands[index as int].value == old(
                    self,
                ).operands[index as int].value,
            },
    {
        self.operands[index].refresh()
    }

    /// One pass over the calculator, as it follows every edit: each field is
    /// read anew, whatever the others hold, and the expression is evaluated
    /// when all four read well. A field that does not read well keeps its
    /// value.
    pub fn update(&mut self) -> (report: Report)
        ensures
            final(self).ops == old(self).ops,
            final(self).rounding_strategy == old(self).rounding_strategy,
            forall|i: int|
                0 <= i < 4 ==> {
                    &&& (#[trigger] final(self).operands[i]).text == old(self).operands[i].text
                    &&& report.fields[i] == verdict_of(reading(old(self).operands[i].text@))
                    &&& match reading(old(self).operands[i].text@) {
                        Ok(v) => final(self).operands[i].value@ == v,
                        Err(_) => final(self).operands[i].value == old(self).operands[i].value,
                    }
                },
            match report.outcome {
                Some(out) => {
                    &&& forall|i: int| 0 <= i < 4 ==> (#[trigger] report.fields[i]) is Ok
                    &&& out@ == evaluated(
                        views(final(self).values()),
                        final(self).ops@,
                        final(self).rounding_strategy,
                    )
                },
                None => exists|i: int| 0 <= i < 4 && (#[trigger] report.fields[i]) is Err,
            },
    {
        let first = self.refresh(0);
        let second = self.refresh(1);
        let third = self.refresh(2);
        let fourth = self.refresh(3);
        let all = first.is_ok() && second.is_ok() && third.is_ok() && fourth.is_ok();
        let fields = [first, second, third, fourth];
        let outcome = if all {
            Some(self.evaluate())
        } else {
            None
        };
        Report { fields, outcome }
    }

    /// Evaluates the expression over the values the operands hold.
    pub fn evaluate(&self) -> (out: EvalOutcome)
        ensures
            out@ == evaluated(views(self.values()), self.ops@, self.rounding_strategy),
    {
        let values = [
            self.operands[0].value,
            self.operands[1].value,
            self.operands[2].value,
            self.operands[3].value,
        ];
        evaluate(&values, &self.ops, self.rounding_strategy)
    }
}

} // verus!
