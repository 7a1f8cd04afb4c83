use std::cmp::Ordering;
use vstd::prelude::*;
use vstd::std_specs::cmp::PartialOrdSpecImpl;

verus! {

/// One of the four operations.
#[derive(Clone, Copy, PartialEq, Eq, Debug, Structural)]
pub enum Op {
    Add,
    Sub,
    Mul,
    Div,
}

impl Op {
    /// The precedence tier: 0 for addition and subtraction, 1 for
    /// multiplication and division.
    pub open spec fn tier(self) -> nat {
        match self {
            Op::Add | Op::Sub => 0,
            Op::Mul | Op::Div => 1,
        }
    }

    /// The sign the operation is written with.
    pub fn symbol(&self) -> (c: char)
        ensures
            c == match *self {
                Op::Add => '+',
                Op::Sub => '-',
                Op::Mul => '*',
                Op::Div => '/',
            },
    {
        match self {
            Op::Add => '+',
            Op::Sub => '-',
            Op::Mul => '*',
            Op::Div => '/',
        }
    }
}

/// Operations are ordered by precedence alone: two of one tier compare as
/// equal, whichever they are.
impl PartialOrd for Op {
    fn partial_cmp(&self, other: &Self) -> (r: Option<Ordering>) {
        Some(
            match (self, other) {
                (Op::Add, Op::Mul) => Ordering::Less,
                (Op::Add, Op::Div) => Ordering::Less,
                (Op::Sub, Op::Mul) => Ordering::Less,
                (Op::Sub, Op::Div) => Ordering::Less,
                (Op::Mul, Op::Add) => Ordering::Greater,
                (Op::Mul, Op::Sub) => Ordering::Greater,
                (Op::Div, Op::Add) => Ordering::Greater,
                (Op::Div, Op::Sub) => Ordering::Greater,
                _ => Ordering::Equal,
            },
        )
    }
}

impl PartialOrdSpecImpl for Op {
    open spec fn obeys_partial_cmp_spec() -> bool {
        true
    }

    open spec fn partial_cmp_spec(&self, other: &Op) -> Option<Ordering> {
        if self.tier() < other.tier() {
            Some(Ordering::Less)
        } else if self.tier() > other.tier() {
            Some(Ordering::Greater)
        } else {
            Some(Ordering::Equal)
        }
    }
}

} // verus!
