//! The optimizer: folds arithmetic on literals.
//!
//! [`folded_expr`] says what the folded form of an expression is;
//! [`optimize_expr`] computes it.

use crate::context::checked_ast::{CheckedExpr, CheckedStmt, TypeInfo};
use crate::data::ast::{
    BinOp, BinOpKind, Expr, ExprKind, ExprKindModel, ExprModel, Stmt, StmtKind, StmtKindModel,
    StmtModel, exprs_model, lemma_tuple_model, stmt_expr, stmts_model,
};
use crate::data::float::FloatModel;
use crate::data::meta::Meta;
use crate::errors::ArithmeticError;
use vstd::prelude::*;

verus! {

// =================================================================================================
// INTEGER ARITHMETIC

/// The quotient of a division, rounded towards zero.
pub open spec fn quotient(a: int, b: int) -> int
    recommends
        b != 0,
{
    if a >= 0 && b > 0 {
        a / b
    } else if a < 0 && b < 0 {
        (-a) / (-b)
    } else if a < 0 {
        -((-a) / b)
    } else {
        -(a / (-b))
    }
}

/// The result of `a op b` in the integers.
pub open spec fn arith(op: BinOpKind, a: int, b: int) -> int {
    match op {
        BinOpKind::Add => a + b,
        BinOpKind::Sub => a - b,
        BinOpKind::Mul => a * b,
        BinOpKind::Div => quotient(a, b),
    }
}

/// The result of `a op b` in 32-bit integers, where there is one: a
/// division by zero has none, nor has an operation whose result in the
/// integers takes more than 32 bits.
pub open spec fn arith_i32(op: BinOpKind, a: i32, b: i32) -> Result<i32, ArithmeticError> {
    if op is Div && b == 0 {
        Err(ArithmeticError::DivisionByZero)
    } else if i32::MIN <= arith(op, a as int, b as int) <= i32::MAX {
        Ok(arith(op, a as int, b as int) as i32)
    } else {
        Err(ArithmeticError::Overflow)
    }
}

impl<M> BinOp<M> {
    /// The result of `a op b` in 32-bit integers, where there is one.
    pub fn eval(&self, a: i32, b: i32) -> (result: Result<i32, ArithmeticError>)
        ensures
            result == arith_i32(self.kind, a, b),
    {
        let result = match self.kind {
            BinOpKind::Add => a.checked_add(b),
            BinOpKind::Sub => a.checked_sub(b),
            BinOpKind::Mul => a.checked_mul(b),
            BinOpKind::Div => {
                if b == 0 {
                    return Err(ArithmeticError::DivisionByZero);
                }
                a.checked_div(b)
            },
        };
        match result {
            Some(value) => Ok(value),
            None => Err(ArithmeticError::Overflow),
        }
    }
}

// =================================================================================================
// WHAT FOLDING YIELDS

/// The folded form of an expression: the same tree, but where a binary
/// operation has two integer literals or two floating-point literals for
/// operands once these are folded, a literal for the result takes its place,
/// with the metadata of the operation. An integer operation that has no result
/// stays as it is.
pub open spec fn folded_expr(expr: ExprModel<TypeInfo>) -> ExprModel<TypeInfo>
    decreases expr,
{
    match expr.kind {
        ExprKindModel::BinOp { op, left, right } => {
            let l = folded_expr(*left);
            let r = folded_expr(*right);
            Meta { kind: folded_bin_op(op, l, r), meta: expr.meta }
        },
        ExprKindModel::UnaryOp { op, operand } => Meta {
            kind: ExprKindModel::UnaryOp { op, operand: Box::new(folded_expr(*operand)) },
            meta: expr.meta,
        },
        ExprKindModel::Tuple(exprs) => Meta {
            kind: ExprKindModel::Tuple(
                Seq::new(
                    exprs.len(),
                    |i: int|
                        if 0 <= i < exprs.len() {
                            folded_expr(exprs[i])
                        } else {
                            arbitrary()
                        },
                ),
            ),
            meta: expr.meta,
        },
        _ => expr,
    }
}

/// What takes the place of `left op right` when `left` and `right` are
/// folded.
pub open spec fn folded_bin_op(
    op: BinOp<TypeInfo>,
    left: ExprModel<TypeInfo>,
    right: ExprModel<TypeInfo>,
) -> ExprKindModel<TypeInfo> {
    match (left.kind, right.kind) {
        (ExprKindModel::Integer(a), ExprKindModel::Integer(b)) => match arith_i32(op.kind, a, b) {
            Ok(value) => ExprKindModel::Integer(value),
            Err(_) => ExprKindModel::BinOp { op, left: Box::new(left), right: Box::new(right) },
        },
        (ExprKindModel::Float(a), ExprKindModel::Float(b)) => ExprKindModel::Float(
            FloatModel::Arith(op.kind, Box::new(a), Box::new(b)),
        ),
        _ => ExprKindModel::BinOp { op, left: Box::new(left), right: Box::new(right) },
    }
}

/// The folded form of a statement: the statement with its expression folded.
pub open spec fn folded_stmt(stmt: StmtModel<TypeInfo>) -> StmtModel<TypeInfo> {
    Meta {
        kind: match stmt.kind {
            StmtKindModel::Assign { name, value } => StmtKindModel::Assign {
                name,
                value: folded_expr(value),
            },
            StmtKindModel::Print { expr } => StmtKindModel::Print { expr: folded_expr(expr) },
            StmtKindModel::Expr { expr } => StmtKindModel::Expr { expr: folded_expr(expr) },
        },
        meta: stmt.meta,
    }
}

/// The folded form of a program: its statements, folded.
pub open spec fn folded_program(stmts: Seq<StmtModel<TypeInfo>>) -> Seq<StmtModel<TypeInfo>> {
    Seq::new(stmts.len(), |i: int| folded_stmt(stmts[i]))
}

// =================================================================================================
// WHAT HOLDS OF FOLDING

/// Folding keeps the metadata of an expression, and so its type.
pub proof fn folding_keeps_type(expr: ExprModel<TypeInfo>)
    ensures
        folded_expr(expr).meta == expr.meta,
        folded_expr(expr).meta.type_ == expr.meta.type_,
{
}

/// Folding keeps the metadata of every statement of a program, and of the
/// expression of each.
pub proof fn folding_keeps_types(stmts: Seq<StmtModel<TypeInfo>>, i: int)
    requires
        0 <= i < stmts.len(),
    ensures
        folded_program(stmts).len() == stmts.len(),
        folded_program(stmts)[i].meta == stmts[i].meta,
        stmt_expr(folded_program(stmts)[i]) == folded_expr(stmt_expr(stmts[i])),
        stmt_expr(folded_program(stmts)[i]).meta.type_ == stmt_expr(stmts[i]).meta.type_,
{
}

/// An integer literal with metadata `meta`.
pub open spec fn integer(value: i32, meta: TypeInfo) -> ExprModel<TypeInfo> {
    Meta { kind: ExprKindModel::Integer(value), meta }
}

/// A floating-point literal with metadata `meta`.
pub open spec fn float(value: FloatModel, meta: TypeInfo) -> ExprModel<TypeInfo> {
    Meta { kind: ExprKindModel::Float(value), meta }
}

/// An operation on two integer literals folds to the literal of its
/// result in the integers, rounded towards zero if it is a quotient, whenever
/// that result is a 32-bit integer and the operation no division by zero.
pub proof fn folding_computes_integers(
    op: BinOp<TypeInfo>,
    a: i32,
    b: i32,
    left: TypeInfo,
    right: TypeInfo,
    meta: TypeInfo,
)
    requires
        !(op.kind is Div && b == 0),
        i32::MIN <= arith(op.kind, a as int, b as int) <= i32::MAX,
    ensures
        folded_expr(
            Meta {
                kind: ExprKindModel::BinOp {
                    op,
                    left: Box::new(integer(a, left)),
                    right: Box::new(integer(b, right)),
                },
                meta,
            },
        ) == integer(arith(op.kind, a as int, b as int) as i32, meta),
{
    assert(folded_expr(integer(a, left)) == integer(a, left));
    assert(folded_expr(integer(b, right)) == integer(b, right));
}

/// An operation on two floating-point literals folds to the literal of
/// its result.
pub proof fn folding_computes_floats(
    op: BinOp<TypeInfo>,
    a: FloatModel,
    b: FloatModel,
    left: TypeInfo,
    right: TypeInfo,
    meta: TypeInfo,
)
    ensures
        folded_expr(
            Meta {
                kind: ExprKindModel::BinOp {
                    op,
                    left: Box::new(float(a, left)),
                    right: Box::new(float(b, right)),
                },
                meta,
            },
        ) == float(FloatModel::Arith(op.kind, Box::new(a), Box::new(b)), meta),
{
    assert(folded_expr(float(a, left)) == float(a, left));
    assert(folded_expr(float(b, right)) == float(b, right));
}

// =================================================================================================
// FOLDING

/// The folded form of an expression.
pub fn optimize_expr(expr: CheckedExpr) -> (folded: CheckedExpr)
    ensures
        folded.model() == folded_expr(expr.model()),
        folded.meta == expr.meta,
    decreases expr,
{
    let Meta { kind, meta } = expr;
    match kind {
        ExprKind::BinOp { op, left, right } => {
            let new_left = optimize_expr(*left);
            let new_right = optimize_expr(*right);
            match (&new_left.kind, &new_right.kind) {
                (ExprKind::Integer(a), ExprKind::Integer(b)) => {
                    match op.eval(*a, *b) {
                        Ok(value) => Expr::integer(value, meta),
                        Err(_) => Expr::bin_op(op, new_left, new_right, meta),
                    }
                },
                (ExprKind::Float(a), ExprKind::Float(b)) => {
                    let value = a.duplicate().arith(op.kind, b.duplicate());
                    Expr::float(value, meta)
                },
                _ => Expr::bin_op(op, new_left, new_right, meta),
            }
        },
        ExprKind::UnaryOp { op, operand } => Expr::unary_op(op, optimize_expr(*operand), meta),
        ExprKind::Tuple(exprs) => {
            let ghost elements = exprs_model(exprs@);
            let mut folded: Vec<CheckedExpr> = Vec::new();
            proof {
                lemma_tuple_model(exprs);
            }
            for element in iter: exprs
                invariant
                    iter.seq() == exprs@,
                    expr.kind is Tuple,
                    expr.kind->Tuple_0 == exprs,
                    folded.len() == iter.index(),
                    forall|i: int|
                        0 <= i < folded.len() ==> (#[trigger] folded@[i]).model() == folded_expr(
                            exprs@[i].model(),
                        ),
            {
                proof {
                    vstd::std_specs::vec::axiom_vec_index_decreases(exprs, iter.index());
                }
                folded.push(optimize_expr(element));
            }
            proof {
                lemma_tuple_model(folded);
                assert(exprs_model(folded@) =~= folded_expr(expr.model()).kind->Tuple_0);
            }
            Expr::tuple(folded, meta)
        },
        kind => Meta { kind, meta },
    }
}

/// The folded form of a statement.
pub fn optimize_stmt(stmt: CheckedStmt) -> (folded: CheckedStmt)
    ensures
        folded.model() == folded_stmt(stmt.model()),
        folded.meta == stmt.meta,
{
    let Meta { kind, meta } = stmt;
    match kind {
        StmtKind::Expr { expr } => Stmt::expr(optimize_expr(expr), meta),
        StmtKind::Assign { name, value } => Stmt::assign(name, optimize_expr(value), meta),
        StmtKind::Print { expr } => Stmt::print(optimize_expr(expr), meta),
    }
}

/// The folded form of a program.
pub fn optimize_program(stmts: Vec<CheckedStmt>) -> (folded: Vec<CheckedStmt>)
    ensures
        stmts_model(folded@) == folded_program(stmts_model(stmts@)),
{
    let mut folded: Vec<CheckedStmt> = Vec::new();
    for stmt in iter: stmts
        invariant
            iter.seq() == stmts@,
            folded.len() == iter.index(),
            forall|i: int|
                0 <= i < folded.len() ==> (#[trigger] folded@[i]).model() == folded_stmt(
                    stmts@[i].model(),
                ),
    {
        folded.push(optimize_stmt(stmt));
    }
    assert(stmts_model(folded@) =~= folded_program(stmts_model(stmts@)));
    folded
}

} // verus!
