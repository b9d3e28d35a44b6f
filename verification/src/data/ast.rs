//! The syntax tree.
//!
//! Every construct is a [`Meta`]: a kind, and the metadata of the stage that
//! made the tree. The parser records source ranges; the checker replaces them
//! by types with source ranges.

use crate::data::float::{FloatExpr, FloatModel};
use crate::data::meta::Meta;
use vstd::prelude::*;

verus! {

#[derive(Debug, Clone, Copy, PartialEq, Eq, Structural)]
pub enum UnaryOpKind {
    Pos,
    Neg,
}

#[derive(Debug, Clone, Copy, PartialEq, Eq, Structural)]
pub enum BinOpKind {
    Add,
    Sub,
    Mul,
    Div,
}

#[derive(Debug, PartialEq)]
#[allow(inconsistent_fields)]
pub enum ExprKind<T> {
    Variable(VarName<T>),
    BinOp { op: BinOp<T>, left: Box<Expr<T>>, right: Box<Expr<T>> },
    UnaryOp { op: UnaryOp<T>, operand: Box<Expr<T>> },
    Tuple(Vec<Expr<T>>),
    Integer(i32),
    Float(FloatExpr),
}

#[derive(Debug, PartialEq)]
#[allow(inconsistent_fields)]
pub enum StmtKind<T> {
    Assign { name: VarName<T>, value: Expr<T> },
    Print { expr: Expr<T> },
    /// An expression that is evaluated and whose value is dropped.
    Expr { expr: Expr<T> },
}

pub type BinOp<T> = Meta<BinOpKind, T>;

pub type UnaryOp<T> = Meta<UnaryOpKind, T>;

pub type VarName<T> = Meta<String, T>;

pub type Expr<T> = Meta<ExprKind<T>, T>;

pub type Stmt<T> = Meta<StmtKind<T>, T>;

// =================================================================================================
// MODELS

/// What a [`VarName`] stands for.
pub type VarNameModel<T> = Meta<Seq<char>, T>;

/// What an [`ExprKind`] stands for.
#[allow(inconsistent_fields)]
pub enum ExprKindModel<T> {
    Variable(VarNameModel<T>),
    BinOp { op: BinOp<T>, left: Box<ExprModel<T>>, right: Box<ExprModel<T>> },
    UnaryOp { op: UnaryOp<T>, operand: Box<ExprModel<T>> },
    Tuple(Seq<ExprModel<T>>),
    Integer(i32),
    Float(FloatModel),
}

/// What an [`Expr`] stands for.
pub type ExprModel<T> = Meta<ExprKindModel<T>, T>;

/// What a [`StmtKind`] stands for.
#[allow(inconsistent_fields)]
pub enum StmtKindModel<T> {
    Assign { name: VarNameModel<T>, value: ExprModel<T> },
    Print { expr: ExprModel<T> },
    Expr { expr: ExprModel<T> },
}

/// What a [`Stmt`] stands for.
pub type StmtModel<T> = Meta<StmtKindModel<T>, T>;

impl<T> VarName<T> {
    pub open spec fn model(self) -> VarNameModel<T> {
        Meta { kind: self.kind@, meta: self.meta }
    }
}

impl<T> ExprKind<T> {
    pub open spec fn model(self) -> ExprKindModel<T>
        decreases self,
    {
        match self {
            ExprKind::Variable(name) => ExprKindModel::Variable(name.model()),
            ExprKind::BinOp { op, left, right } => ExprKindModel::BinOp {
                op,
                left: Box::new(Meta { kind: left.kind.model(), meta: left.meta }),
                right: Box::new(Meta { kind: right.kind.model(), meta: right.meta }),
            },
            ExprKind::UnaryOp { op, operand } => ExprKindModel::UnaryOp {
                op,
                operand: Box::new(Meta { kind: operand.kind.model(), meta: operand.meta }),
            },
            ExprKind::Tuple(exprs) => ExprKindModel::Tuple(
                Seq::new(
                    exprs.len() as nat,
                    |i: int|
                        if 0 <= i < exprs.len() {
                            Meta { kind: exprs[i].kind.model(), meta: exprs[i].meta }
                        } else {
                            arbitrary()
                        },
                ),
            ),
            ExprKind::Integer(i) => ExprKindModel::Integer(i),
            ExprKind::Float(x) => ExprKindModel::Float(x.model()),
        }
    }
}

impl<T> Expr<T> {
    pub open spec fn model(self) -> ExprModel<T> {
        Meta { kind: self.kind.model(), meta: self.meta }
    }
}

impl<T> Stmt<T> {
    pub open spec fn model(self) -> StmtModel<T> {
        Meta {
            kind: match self.kind {
                StmtKind::Assign { name, value } => StmtKindModel::Assign {
                    name: name.model(),
                    value: value.model(),
                },
                StmtKind::Print { expr } => StmtKindModel::Print { expr: expr.model() },
                StmtKind::Expr { expr } => StmtKindModel::Expr { expr: expr.model() },
            },
            meta: self.meta,
        }
    }
}

/// The expression of a statement.
pub open spec fn stmt_expr<M>(stmt: StmtModel<M>) -> ExprModel<M> {
    match stmt.kind {
        StmtKindModel::Assign { value, .. } => value,
        StmtKindModel::Print { expr } => expr,
        StmtKindModel::Expr { expr } => expr,
    }
}

/// What a sequence of expressions stands for.
pub open spec fn exprs_model<T>(exprs: Seq<Expr<T>>) -> Seq<ExprModel<T>> {
    Seq::new(exprs.len(), |i: int| exprs[i].model())
}

/// What a sequence of statements stands for.
pub open spec fn stmts_model<T>(stmts: Seq<Stmt<T>>) -> Seq<StmtModel<T>> {
    Seq::new(stmts.len(), |i: int| stmts[i].model())
}

/// A tuple stands for the tuple of what its elements stand for.
pub proof fn lemma_tuple_model<T>(exprs: Vec<Expr<T>>)
    ensures
        ExprKind::Tuple(exprs).model() == ExprKindModel::Tuple(exprs_model(exprs@)),
{
    assert(ExprKind::Tuple(exprs).model()->Tuple_0 =~= exprs_model(exprs@));
}

// =================================================================================================
// FACTORIES

impl<T> UnaryOp<T> {
    pub fn new(kind: UnaryOpKind, meta: T) -> (op: Self)
        ensures
            op == (Meta { kind, meta }),
    {
        Meta { kind, meta }
    }
}

impl<T> BinOp<T> {
    pub fn new(kind: BinOpKind, meta: T) -> (op: Self)
        ensures
            op == (Meta { kind, meta }),
    {
        Meta { kind, meta }
    }
}

impl<T> VarName<T> {
    pub fn new(name: String, meta: T) -> (var: Self)
        ensures
            var == (Meta { kind: name, meta }),
    {
        Meta { kind: name, meta }
    }
}

impl<T> Expr<T> {
    pub fn variable(name: VarName<T>, meta: T) -> (expr: Self)
        ensures
            expr == (Meta { kind: ExprKind::Variable(name), meta }),
    {
        Meta { kind: ExprKind::Variable(name), meta }
    }

    pub fn bin_op(op: BinOp<T>, left: Expr<T>, right: Expr<T>, meta: T) -> (expr: Self)
        ensures
            expr == (Meta {
                kind: ExprKind::BinOp { op, left: Box::new(left), right: Box::new(right) },
                meta,
            }),
    {
        Meta { kind: ExprKind::BinOp { op, left: Box::new(left), right: Box::new(right) }, meta }
    }

    pub fn unary_op(op: UnaryOp<T>, operand: Expr<T>, meta: T) -> (expr: Self)
        ensures
            expr == (Meta { kind: ExprKind::UnaryOp { op, operand: Box::new(operand) }, meta }),
    {
        Meta { kind: ExprKind::UnaryOp { op, operand: Box::new(operand) }, meta }
    }

    pub fn tuple(exprs: Vec<Expr<T>>, meta: T) -> (expr: Self)
        ensures
            expr == (Meta { kind: ExprKind::Tuple(exprs), meta }),
    {
        Meta { kind: ExprKind::Tuple(exprs), meta }
    }

    pub fn integer(value: i32, meta: T) -> (expr: Self)
        ensures
            expr == (Meta { kind: ExprKind::<T>::Integer(value), meta }),
    {
        Meta { kind: ExprKind::Integer(value), meta }
    }

    pub fn float(value: FloatExpr, meta: T) -> (expr: Self)
        ensures
            expr == (Meta { kind: ExprKind::<T>::Float(value), meta }),
    {
        Meta { kind: ExprKind::Float(value), meta }
    }
}

impl<T> Stmt<T> {
    pub fn assign(name: VarName<T>, value: Expr<T>, meta: T) -> (stmt: Self)
        ensures
            stmt == (Meta { kind: StmtKind::Assign { name, value }, meta }),
    {
        Meta { kind: StmtKind::Assign { name, value }, meta }
    }

    pub fn print(expr: Expr<T>, meta: T) -> (stmt: Self)
        ensures
            stmt == (Meta { kind: StmtKind::Print { expr }, meta }),
    {
        Meta { kind: StmtKind::Print { expr }, meta }
    }

    pub fn expr(expr: Expr<T>, meta: T) -> (stmt: Self)
        ensures
            stmt == (Meta { kind: StmtKind::Expr { expr }, meta }),
    {
        Meta { kind: StmtKind::Expr { expr }, meta }
    }
}

} // verus!
