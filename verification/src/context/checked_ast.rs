//! What the type checker adds to a syntax tree.

use crate::context::ast::Ast;
use crate::data::ast::{BinOp, Expr, Stmt, UnaryOp, VarName};
use crate::data::span::Span;
use vstd::prelude::*;

verus! {

pub type CheckedStmt = Stmt<TypeInfo>;

pub type CheckedExpr = Expr<TypeInfo>;

pub type CheckedAst = Ast<TypeInfo>;

pub type CheckedVarName = VarName<TypeInfo>;

pub type CheckedBinOp = BinOp<TypeInfo>;

pub type CheckedUnaryOp = UnaryOp<TypeInfo>;

/// The type of a node.
#[derive(Debug, PartialEq, Eq)]
pub enum Type {
    /// The type of every statement, and of nothing else.
    Stmt,
    Integer,
    Float,
    /// `len` values of one type.
    Tuple { type_: Box<Type>, len: usize },
}

impl Type {
    /// A copy of the type.
    pub fn duplicate(&self) -> (copy: Type)
        ensures
            copy == *self,
        decreases self,
    {
        match self {
            Type::Stmt => Type::Stmt,
            Type::Integer => Type::Integer,
            Type::Float => Type::Float,
            Type::Tuple { type_, len } => Type::Tuple {
                type_: Box::new(type_.duplicate()),
                len: *len,
            },
        }
    }

    /// Whether two types are the same.
    pub fn same(&self, other: &Type) -> (same: bool)
        ensures
            same == (*self == *other),
        decreases self,
    {
        match (self, other) {
            (Type::Stmt, Type::Stmt) => true,
            (Type::Integer, Type::Integer) => true,
            (Type::Float, Type::Float) => true,
            (Type::Tuple { type_: t1, len: l1 }, Type::Tuple { type_: t2, len: l2 }) => {
                *l1 == *l2 && t1.same(t2)
            },
            _ => false,
        }
    }

    /// Whether the type is that of a number.
    pub open spec fn is_scalar(self) -> bool {
        self is Integer || self is Float
    }
}

/// The metadata of a node after type checking.
#[derive(Debug, PartialEq)]
pub struct TypeInfo {
    /// The type of the node.
    pub type_: Type,
    /// The source range of the node, as the parser recorded it.
    pub span: Span,
}

impl TypeInfo {
    pub fn new(type_: Type, span: Span) -> (info: TypeInfo)
        ensures
            info == (TypeInfo { type_, span }),
    {
        TypeInfo { type_, span }
    }

    /// A copy of the metadata.
    pub fn duplicate(&self) -> (copy: TypeInfo)
        ensures
            copy == *self,
    {
        TypeInfo { type_: self.type_.duplicate(), span: self.span }
    }
}

} // verus!
