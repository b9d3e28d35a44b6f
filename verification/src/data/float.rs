//! Floating-point numbers, carried but never computed.
//!
//! No stage has to look inside a floating-point number: the language has no
//! comparison and no conversion, so no decision depends on one. A number is
//! therefore kept as the expression that denotes it, a literal of the source
//! text or arithmetic on such expressions, and whoever needs its digits
//! evaluates that expression in double precision.

use crate::data::ast::BinOpKind;
use vstd::prelude::*;

verus! {

/// A floating-point number, given by the arithmetic that yields it.
#[derive(Debug, PartialEq)]
pub enum FloatExpr {
    /// A literal as it was written: digits, a point, and more digits.
    Literal(String),
    /// The negation of a number.
    Neg(Box<FloatExpr>),
    /// The result of one arithmetic operation on two numbers.
    Arith(BinOpKind, Box<FloatExpr>, Box<FloatExpr>),
}

/// What a [`FloatExpr`] stands for.
pub enum FloatModel {
    Literal(Seq<char>),
    Neg(Box<FloatModel>),
    Arith(BinOpKind, Box<FloatModel>, Box<FloatModel>),
}

/// The text of a floating-point number that is a literal.
pub open spec fn literal_text(x: FloatModel) -> Seq<char> {
    match x {
        FloatModel::Literal(text) => text,
        _ => Seq::empty(),
    }
}

impl FloatExpr {
    pub open spec fn model(self) -> FloatModel
        decreases self,
    {
        match self {
            FloatExpr::Literal(text) => FloatModel::Literal(text@),
            FloatExpr::Neg(x) => FloatModel::Neg(Box::new(x.model())),
            FloatExpr::Arith(op, x, y) => FloatModel::Arith(
                op,
                Box::new(x.model()),
                Box::new(y.model()),
            ),
        }
    }

    /// A copy of the number.
    pub fn duplicate(&self) -> (copy: FloatExpr)
        ensures
            copy == *self,
        decreases self,
    {
        match self {
            FloatExpr::Literal(text) => FloatExpr::Literal(text.clone()),
            FloatExpr::Neg(x) => FloatExpr::Neg(Box::new(x.duplicate())),
            FloatExpr::Arith(op, x, y) => FloatExpr::Arith(
                *op,
                Box::new(x.duplicate()),
                Box::new(y.duplicate()),
            ),
        }
    }

    /// The number that a literal of the source text denotes.
    pub fn literal(text: String) -> (x: FloatExpr)
        ensures
            x == FloatExpr::Literal(text),
    {
        FloatExpr::Literal(text)
    }

    /// The negation of `self`.
    pub fn neg(self) -> (x: FloatExpr)
        ensures
            x == FloatExpr::Neg(Box::new(self)),
    {
        FloatExpr::Neg(Box::new(self))
    }

    /// The result of `self op other`.
    pub fn arith(self, op: BinOpKind, other: FloatExpr) -> (x: FloatExpr)
        ensures
            x == FloatExpr::Arith(op, Box::new(self), Box::new(other)),
    {
        FloatExpr::Arith(op, Box::new(self), Box::new(other))
    }
}

} // verus!
