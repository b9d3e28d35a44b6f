//! The one table of precedences, which the parser and the formatter share.
//!
//! A higher number binds tighter.

use crate::data::ast::{BinOpKind, ExprKind, ExprKindModel, UnaryOpKind};
use vstd::prelude::*;

verus! {

impl BinOpKind {
    pub open spec fn spec_precedence(&self) -> u8 {
        match self {
            BinOpKind::Add | BinOpKind::Sub => 4,
            BinOpKind::Mul | BinOpKind::Div => 5,
        }
    }

    #[verifier::when_used_as_spec(spec_precedence)]
    pub fn precedence(&self) -> (p: u8)
        ensures
            p == self.spec_precedence(),
    {
        match self {
            BinOpKind::Add | BinOpKind::Sub => 4,
            BinOpKind::Mul | BinOpKind::Div => 5,
        }
    }
}

impl UnaryOpKind {
    pub open spec fn spec_precedence(&self) -> u8 {
        6
    }

    #[verifier::when_used_as_spec(spec_precedence)]
    pub fn precedence(&self) -> (p: u8)
        ensures
            p == self.spec_precedence(),
    {
        6
    }
}

impl<T> ExprKindModel<T> {
    /// How tightly the outermost construct of an expression binds. What
    /// is not an operation never needs parentheses.
    pub open spec fn precedence(self) -> u8 {
        match self {
            ExprKindModel::BinOp { op, .. } => op.kind.spec_precedence(),
            ExprKindModel::UnaryOp { op, .. } => op.kind.spec_precedence(),
            _ => 255,
        }
    }
}

impl<T> ExprKind<T> {
    pub fn precedence(&self) -> (p: u8)
        ensures
            p == self.model().precedence(),
    {
        match self {
            ExprKind::BinOp { op, .. } => op.kind.precedence(),
            ExprKind::UnaryOp { op, .. } => op.kind.precedence(),
            _ => 255,
        }
    }
}

} // verus!
