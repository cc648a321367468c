//! The operators of the expression language and how tightly each binds.
use vstd::prelude::*;

verus! {

/// An operator. `Call` is kept for functions that users may define one day and
/// has no evaluation rule.
#[derive(Clone, Copy, Debug, PartialEq, Eq, Structural)]
pub enum Op {
    Add,
    Sub,
    Mul,
    Div,
    Mod,
    Pow,
    Eq,
    Neq,
    Gt,
    Lt,
    Ge,
    Le,
    Neg,
    Minus,
    Or,
    And,
    Coalesce,
    IsNull,
    NotNull,
    Call,
}

/// The side to which operators of one level group.
#[derive(Clone, Copy, Debug, PartialEq, Eq, Structural)]
pub enum Assoc {
    Left,
    Right,
}

impl Op {
    /// How tightly an infix operator binds: 1 binds least, 9 most. An operator
    /// that is not written between two operands has level 0.
    ///
    /// Remainder binds less tightly than equality, and coalescing more tightly
    /// than any arithmetic.
    pub open spec fn level(self) -> int {
        match self {
            Op::Or => 1,
            Op::And => 2,
            Op::Gt | Op::Lt | Op::Ge | Op::Le => 3,
            Op::Mod => 4,
            Op::Eq | Op::Neq => 5,
            Op::Add | Op::Sub => 6,
            Op::Mul | Op::Div => 7,
            Op::Pow => 8,
            Op::Coalesce => 9,
            Op::Neg | Op::Minus | Op::IsNull | Op::NotNull | Op::Call => 0,
        }
    }

    /// The side to which the operators of this operator's level group.
    pub open spec fn grouping(self) -> Assoc {
        if self.level() == 8 {
            Assoc::Right
        } else {
            Assoc::Left
        }
    }

    /// How tightly an infix operator binds.
    pub fn precedence(self) -> (p: u8)
        ensures
            p == self.level(),
    {
        match self {
            Op::Or => 1,
            Op::And => 2,
            Op::Gt | Op::Lt | Op::Ge | Op::Le => 3,
            Op::Mod => 4,
            Op::Eq | Op::Neq => 5,
            Op::Add | Op::Sub => 6,
            Op::Mul | Op::Div => 7,
            Op::Pow => 8,
            Op::Coalesce => 9,
            Op::Neg | Op::Minus | Op::IsNull | Op::NotNull | Op::Call => 0,
        }
    }

    /// The side to which the operators of this operator's level group.
    pub fn assoc(self) -> (a: Assoc)
        ensures
            a == self.grouping(),
    {
        match self {
            Op::Pow => Assoc::Right,
            _ => Assoc::Left,
        }
    }
}

} // verus!
