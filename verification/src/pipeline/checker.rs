//! The type checker: from a syntax tree to a typed syntax tree.
//!
//! [`typed_expr`], [`typed_stmt`] and [`typed_program`] say what the typed
//! tree of a tree is; [`check_program`] computes it.

use crate::context::checked_ast::{Type, TypeInfo};
use crate::context::scope::Scope;
use crate::data::ast::{
    BinOp, BinOpKind, Expr, ExprKind, ExprKindModel, ExprModel, Stmt, StmtKind, StmtKindModel,
    StmtModel, UnaryOp, VarName, exprs_model, lemma_tuple_model, stmt_expr, stmts_model,
};
use crate::data::meta::Meta;
use crate::data::span::Span;
use crate::errors::{
    syntax_error, type_error, CheckerError, ErrorModel, SyntaxError, SyntaxErrorModel, TypeError,
};
use vstd::prelude::*;

verus! {

// =================================================================================================
// THE TYPING RULES

/// The types of the variables that have been assigned so far.
pub type TypeEnv = Map<Seq<char>, Type>;

/// The type of `left op right`, or the error that names the two types
/// which cannot be combined.
///
/// Two integers give an integer and two floats a float. Two tuples of the
/// same type can be added and subtracted. A tuple can be multiplied and
/// divided by a number, and a number by a tuple: the operation is then applied
/// to each element.
pub open spec fn bin_op_type(op: BinOpKind, left: Type, right: Type) -> Result<Type, TypeError>
    decreases left, right,
{
    match (left, right) {
        (Type::Integer, Type::Integer) => Ok(Type::Integer),
        (Type::Float, Type::Float) => Ok(Type::Float),
        (Type::Tuple { .. }, Type::Tuple { .. }) => if (op is Add || op is Sub) && left == right {
            Ok(left)
        } else {
            Err(TypeError::MismatchedTypesForBinaryOp(left, right))
        },
        (Type::Tuple { type_, len }, Type::Integer)
        | (Type::Tuple { type_, len }, Type::Float) => if op is Mul || op is Div {
            match bin_op_type(op, *type_, right) {
                Ok(element) => Ok(Type::Tuple { type_: Box::new(element), len }),
                Err(e) => Err(e),
            }
        } else {
            Err(TypeError::MismatchedTypesForBinaryOp(left, right))
        },
        (Type::Integer, Type::Tuple { type_, len })
        | (Type::Float, Type::Tuple { type_, len }) => if op is Mul || op is Div {
            match bin_op_type(op, left, *type_) {
                Ok(element) => Ok(Type::Tuple { type_: Box::new(element), len }),
                Err(e) => Err(e),
            }
        } else {
            Err(TypeError::MismatchedTypesForBinaryOp(left, right))
        },
        _ => Err(TypeError::MismatchedTypesForBinaryOp(left, right)),
    }
}

/// The metadata of a node of type `type_` at `span`.
pub open spec fn info(type_: Type, span: Span) -> TypeInfo {
    TypeInfo { type_, span }
}

/// The typed tree of an expression, or the first error in it.
pub open spec fn typed_expr(env: TypeEnv, expr: ExprModel<Span>) -> Result<
    ExprModel<TypeInfo>,
    ErrorModel,
>
    decreases expr, 0nat,
{
    match expr.kind {
        ExprKindModel::Variable(name) => if env.contains_key(name.kind) {
            let type_ = env[name.kind];
            Ok(
                Meta {
                    kind: ExprKindModel::Variable(
                        Meta { kind: name.kind, meta: info(type_, name.meta) },
                    ),
                    meta: info(type_, expr.meta),
                },
            )
        } else {
            Err(syntax_error(SyntaxErrorModel::UnknownVariable(name.kind), expr.meta))
        },
        ExprKindModel::BinOp { op, left, right } => match typed_expr(env, *left) {
            Err(e) => Err(e),
            Ok(l) => match typed_expr(env, *right) {
                Err(e) => Err(e),
                Ok(r) => match bin_op_type(op.kind, l.meta.type_, r.meta.type_) {
                    Err(e) => Err(type_error(e, op.meta)),
                    Ok(type_) => Ok(
                        Meta {
                            kind: ExprKindModel::BinOp {
                                op: Meta { kind: op.kind, meta: info(type_, op.meta) },
                                left: Box::new(l),
                                right: Box::new(r),
                            },
                            meta: info(type_, expr.meta),
                        },
                    ),
                },
            },
        },
        ExprKindModel::UnaryOp { op, operand } => match typed_expr(env, *operand) {
            Err(e) => Err(e),
            Ok(o) => if o.meta.type_.is_scalar() {
                Ok(
                    Meta {
                        kind: ExprKindModel::UnaryOp {
                            op: Meta { kind: op.kind, meta: info(o.meta.type_, op.meta) },
                            operand: Box::new(o),
                        },
                        meta: info(o.meta.type_, expr.meta),
                    },
                )
            } else {
                Err(type_error(TypeError::InvalidTypeForUnaryOp(o.meta.type_), expr.meta))
            },
        },
        ExprKindModel::Tuple(exprs) => if exprs.len() == 0 {
            Err(syntax_error(SyntaxErrorModel::EmptyTuple, expr.meta))
        } else {
            match typed_elements(env, exprs, exprs.len()) {
                Err(e) => Err(e),
                Ok(elements) => Ok(
                    Meta {
                        kind: ExprKindModel::Tuple(elements),
                        meta: info(
                            Type::Tuple {
                                type_: Box::new(elements[0].meta.type_),
                                len: exprs.len() as usize,
                            },
                            expr.meta,
                        ),
                    },
                ),
            }
        },
        ExprKindModel::Integer(i) => Ok(
            Meta { kind: ExprKindModel::Integer(i), meta: info(Type::Integer, expr.meta) },
        ),
        ExprKindModel::Float(x) => Ok(
            Meta { kind: ExprKindModel::Float(x), meta: info(Type::Float, expr.meta) },
        ),
    }
}

/// The typed trees of the first `n` elements of a tuple, or the first error
/// in them. Every element has to have the type of the first.
pub open spec fn typed_elements(env: TypeEnv, exprs: Seq<ExprModel<Span>>, n: nat) -> Result<
    Seq<ExprModel<TypeInfo>>,
    ErrorModel,
>
    decreases exprs, n,
{
    if n == 0 || n > exprs.len() {
        Ok(Seq::empty())
    } else {
        match typed_elements(env, exprs, (n - 1) as nat) {
            Err(e) => Err(e),
            Ok(done) => match typed_expr(env, exprs[n - 1]) {
                Err(e) => Err(e),
                Ok(element) => if n > 1 && element.meta.type_ != done[0].meta.type_ {
                    Err(type_error(TypeError::HeterogeneousTuple, exprs[n - 1].meta))
                } else {
                    Ok(done.push(element))
                },
            },
        }
    }
}

/// The typed tree of a statement and the types of the variables after it,
/// or the first error in it. An assignment gives the variable the type of the
/// value, whatever type it had.
pub open spec fn typed_stmt(env: TypeEnv, stmt: StmtModel<Span>) -> Result<
    (StmtModel<TypeInfo>, TypeEnv),
    ErrorModel,
> {
    match stmt.kind {
        StmtKindModel::Assign { name, value } => match typed_expr(env, value) {
            Err(e) => Err(e),
            Ok(v) => Ok(
                (
                    Meta {
                        kind: StmtKindModel::Assign {
                            name: Meta { kind: name.kind, meta: info(v.meta.type_, name.meta) },
                            value: v,
                        },
                        meta: info(Type::Stmt, stmt.meta),
                    },
                    env.insert(name.kind, v.meta.type_),
                ),
            ),
        },
        StmtKindModel::Print { expr } => match typed_expr(env, expr) {
            Err(e) => Err(e),
            Ok(v) => Ok(
                (
                    Meta { kind: StmtKindModel::Print { expr: v }, meta: info(Type::Stmt, stmt.meta) },
                    env,
                ),
            ),
        },
        StmtKindModel::Expr { expr } => match typed_expr(env, expr) {
            Err(e) => Err(e),
            Ok(v) => Ok(
                (
                    Meta { kind: StmtKindModel::Expr { expr: v }, meta: info(Type::Stmt, stmt.meta) },
                    env,
                ),
            ),
        },
    }
}

/// The typed trees of the statements `stmts[from..]`, or the first error in
/// them.
pub open spec fn typed_stmts(env: TypeEnv, stmts: Seq<StmtModel<Span>>, from: int) -> Result<
    Seq<StmtModel<TypeInfo>>,
    ErrorModel,
>
    decreases stmts.len() - from,
{
    if from < 0 || from >= stmts.len() {
        Ok(Seq::empty())
    } else {
        match typed_stmt(env, stmts[from]) {
            Err(e) => Err(e),
            Ok((stmt, next)) => match typed_stmts(next, stmts, from + 1) {
                Err(e) => Err(e),
                Ok(rest) => Ok(seq![stmt] + rest),
            },
        }
    }
}

/// The typed program of a program, or the first error in it.
pub open spec fn typed_program(stmts: Seq<StmtModel<Span>>) -> Result<
    Seq<StmtModel<TypeInfo>>,
    ErrorModel,
> {
    typed_stmts(Map::empty(), stmts, 0)
}

// =================================================================================================
// WHAT HOLDS OF THE TYPING RULES

/// Two tuples of one type can be added and subtracted, and the result has
/// their type.
pub proof fn tuples_add(op: BinOpKind, element: Type, len: usize)
    requires
        op is Add || op is Sub,
    ensures
        bin_op_type(
            op,
            Type::Tuple { type_: Box::new(element), len },
            Type::Tuple { type_: Box::new(element), len },
        ) == Ok::<_, TypeError>(Type::Tuple { type_: Box::new(element), len }),
{
}

/// A tuple and a number have a product and a quotient of one type,
/// whichever stands on the left, or none either way.
pub proof fn broadcast_type_commutes(op: BinOpKind, tuple: Type, scalar: Type)
    requires
        tuple is Tuple,
        scalar.is_scalar(),
    ensures
        bin_op_type(op, tuple, scalar) is Ok <==> bin_op_type(op, scalar, tuple) is Ok,
        bin_op_type(op, tuple, scalar) is Ok ==> bin_op_type(op, tuple, scalar) == bin_op_type(
            op,
            scalar,
            tuple,
        ),
    decreases tuple,
{
    if op is Mul || op is Div {
        let element = *tuple->type_;
        if element is Tuple {
            broadcast_type_commutes(op, element, scalar);
        }
    }
}

/// Whether a variable occurs in an expression.
pub open spec fn mentions<M>(expr: ExprModel<M>, name: Seq<char>) -> bool
    decreases expr,
{
    match expr.kind {
        ExprKindModel::Variable(var) => var.kind == name,
        ExprKindModel::BinOp { left, right, .. } => mentions(*left, name) || mentions(*right, name),
        ExprKindModel::UnaryOp { operand, .. } => mentions(*operand, name),
        ExprKindModel::Tuple(exprs) => exists|i: int|
            0 <= i < exprs.len() && mentions(#[trigger] exprs[i], name),
        _ => false,
    }
}

/// A variable that was never assigned is an error where it stands: the
/// error names the variable and lies at it.
pub proof fn unknown_variable_fails(env: TypeEnv, name: Seq<char>, at: Span)
    requires
        !env.contains_key(name),
    ensures
        typed_expr(
            env,
            Meta { kind: ExprKindModel::Variable(Meta { kind: name, meta: at }), meta: at },
        ) == Err::<ExprModel<TypeInfo>, _>(
            syntax_error(SyntaxErrorModel::UnknownVariable(name), at),
        ),
{
}

/// No expression in which a variable occurs that was never assigned has a
/// typed tree.
pub proof fn unassigned_variable_never_checks(env: TypeEnv, expr: ExprModel<Span>, name: Seq<char>)
    requires
        mentions(expr, name),
        !env.contains_key(name),
    ensures
        typed_expr(env, expr) is Err,
    decreases expr,
{
    match expr.kind {
        ExprKindModel::BinOp { left, right, .. } => {
            if mentions(*left, name) {
                unassigned_variable_never_checks(env, *left, name);
            } else {
                unassigned_variable_never_checks(env, *right, name);
            }
        },
        ExprKindModel::UnaryOp { operand, .. } => {
            unassigned_variable_never_checks(env, *operand, name);
        },
        ExprKindModel::Tuple(exprs) => {
            let i = choose|i: int| 0 <= i < exprs.len() && mentions(#[trigger] exprs[i], name);
            unassigned_variable_never_checks(env, exprs[i], name);
            if exprs.len() > 0 {
                assert(typed_elements(env, exprs, (i + 1) as nat) is Err);
                lemma_typed_elements_error(env, exprs, (i + 1) as nat, exprs.len());
            }
        },
        _ => {},
    }
}

/// The first variable of an expression, in the order in which the checker
/// reads it, that has not been assigned: its name and where it stands.
pub open spec fn first_unassigned(env: TypeEnv, expr: ExprModel<Span>) -> Option<
    (Seq<char>, Span),
>
    decreases expr, 0nat,
{
    match expr.kind {
        ExprKindModel::Variable(name) => if env.contains_key(name.kind) {
            None
        } else {
            Some((name.kind, expr.meta))
        },
        ExprKindModel::BinOp { left, right, .. } => match first_unassigned(env, *left) {
            Some(found) => Some(found),
            None => first_unassigned(env, *right),
        },
        ExprKindModel::UnaryOp { operand, .. } => first_unassigned(env, *operand),
        ExprKindModel::Tuple(exprs) => first_unassigned_in(env, exprs, 0),
        _ => None,
    }
}

/// The first variable of the elements `exprs[from..]` that has not been
/// assigned.
pub open spec fn first_unassigned_in(env: TypeEnv, exprs: Seq<ExprModel<Span>>, from: int) -> Option<
    (Seq<char>, Span),
>
    decreases exprs, exprs.len() - from,
{
    if from < 0 || from >= exprs.len() {
        None
    } else {
        match first_unassigned(env, exprs[from]) {
            Some(found) => Some(found),
            None => first_unassigned_in(env, exprs, from + 1),
        }
    }
}

/// Whether there is no error in what the checker reads of an expression
/// before it comes to the first variable that has not been assigned.
pub open spec fn checks_before_unassigned(env: TypeEnv, expr: ExprModel<Span>) -> bool
    decreases expr, 0nat,
{
    match expr.kind {
        ExprKindModel::BinOp { left, right, .. } => if first_unassigned(env, *left) is Some {
            checks_before_unassigned(env, *left)
        } else {
            typed_expr(env, *left) is Ok && checks_before_unassigned(env, *right)
        },
        ExprKindModel::UnaryOp { operand, .. } => checks_before_unassigned(env, *operand),
        ExprKindModel::Tuple(exprs) => elements_check_before_unassigned(env, exprs, 0),
        _ => true,
    }
}

/// Whether there is no error in what the checker reads of the elements
/// `exprs[from..]`, and in the elements before them, before it comes to the
/// first variable that has not been assigned.
pub open spec fn elements_check_before_unassigned(
    env: TypeEnv,
    exprs: Seq<ExprModel<Span>>,
    from: int,
) -> bool
    decreases exprs, exprs.len() - from,
{
    if from < 0 || from >= exprs.len() {
        true
    } else if first_unassigned(env, exprs[from]) is Some {
        typed_elements(env, exprs, from as nat) is Ok && checks_before_unassigned(env, exprs[from])
    } else {
        elements_check_before_unassigned(env, exprs, from + 1)
    }
}

/// The error for the variable `found`, which has not been assigned.
pub open spec fn unknown_variable(found: (Seq<char>, Span)) -> ErrorModel {
    syntax_error(SyntaxErrorModel::UnknownVariable(found.0), found.1)
}

/// The first variable of an expression that has not been assigned is the
/// error of the expression, if no error stands before it: the error names the
/// variable and lies at it.
pub proof fn first_unassigned_variable_fails(env: TypeEnv, expr: ExprModel<Span>)
    requires
        first_unassigned(env, expr) is Some,
        checks_before_unassigned(env, expr),
    ensures
        typed_expr(env, expr) == Err::<ExprModel<TypeInfo>, _>(
            unknown_variable(first_unassigned(env, expr)->Some_0),
        ),
    decreases expr, 1nat,
{
    match expr.kind {
        ExprKindModel::BinOp { op, left, right } => {
            if first_unassigned(env, *left) is Some {
                first_unassigned_variable_fails(env, *left);
            } else {
                first_unassigned_variable_fails(env, *right);
            }
        },
        ExprKindModel::UnaryOp { op, operand } => {
            first_unassigned_variable_fails(env, *operand);
        },
        ExprKindModel::Tuple(exprs) => {
            first_unassigned_element_fails(env, exprs, 0);
        },
        _ => {},
    }
}

/// The first variable of the elements of a tuple that has not been
/// assigned is the error of the elements, if no error stands before it.
pub proof fn first_unassigned_element_fails(env: TypeEnv, exprs: Seq<ExprModel<Span>>, from: int)
    requires
        0 <= from,
        first_unassigned_in(env, exprs, from) is Some,
        elements_check_before_unassigned(env, exprs, from),
    ensures
        exprs.len() > 0,
        typed_elements(env, exprs, exprs.len()) == Err::<Seq<ExprModel<TypeInfo>>, _>(
            unknown_variable(first_unassigned_in(env, exprs, from)->Some_0),
        ),
    decreases exprs, exprs.len() - from,
{
    if first_unassigned(env, exprs[from]) is Some {
        first_unassigned_variable_fails(env, exprs[from]);
        assert(typed_elements(env, exprs, (from + 1) as nat) == Err::<
            Seq<ExprModel<TypeInfo>>,
            _,
        >(unknown_variable(first_unassigned(env, exprs[from])->Some_0)));
        lemma_typed_elements_error(env, exprs, (from + 1) as nat, exprs.len());
    } else {
        first_unassigned_element_fails(env, exprs, from + 1);
    }
}

/// The types of the variables behind the first `n` statements of a
/// program, if there is no error in these statements.
pub open spec fn types_behind(stmts: Seq<StmtModel<Span>>, n: nat) -> Option<TypeEnv>
    decreases n,
{
    if n == 0 {
        Some(Map::empty())
    } else if n > stmts.len() {
        None
    } else {
        match types_behind(stmts, (n - 1) as nat) {
            None => None,
            Some(env) => match typed_stmt(env, stmts[n - 1]) {
                Ok((_, next)) => Some(next),
                Err(_) => None,
            },
        }
    }
}

/// The first error of a program is the error of the program.
pub proof fn lemma_first_error(stmts: Seq<StmtModel<Span>>, from: int, at: int)
    requires
        0 <= from <= at < stmts.len(),
        types_behind(stmts, at as nat) is Some,
        typed_stmt(types_behind(stmts, at as nat)->Some_0, stmts[at]) is Err,
    ensures
        types_behind(stmts, from as nat) is Some,
        typed_stmts(types_behind(stmts, from as nat)->Some_0, stmts, from) == Err::<
            Seq<StmtModel<TypeInfo>>,
            _,
        >(typed_stmt(types_behind(stmts, at as nat)->Some_0, stmts[at])->Err_0),
    decreases at - from,
{
    lemma_types_behind(stmts, from as nat, at as nat);
    if from < at {
        lemma_types_behind(stmts, (from + 1) as nat, at as nat);
        lemma_first_error(stmts, from + 1, at);
    }
}

/// Where there is no error in the first statements of a program, there is
/// none in fewer of them.
pub proof fn lemma_types_behind(stmts: Seq<StmtModel<Span>>, m: nat, n: nat)
    requires
        m <= n,
        types_behind(stmts, n) is Some,
    ensures
        types_behind(stmts, m) is Some,
    decreases n,
{
    if m < n {
        lemma_types_behind(stmts, m, (n - 1) as nat);
    }
}

/// A program stops at its first variable that has not been assigned: where
/// the statements before statement `at` have no error, and in statement `at`
/// no error stands before the first variable that no statement before it has
/// assigned, the error of the program names that variable and lies at it.
pub proof fn first_unassigned_variable_stops_program(stmts: Seq<StmtModel<Span>>, at: int)
    requires
        0 <= at < stmts.len(),
        types_behind(stmts, at as nat) is Some,
        first_unassigned(types_behind(stmts, at as nat)->Some_0, stmt_expr(stmts[at])) is Some,
        checks_before_unassigned(types_behind(stmts, at as nat)->Some_0, stmt_expr(stmts[at])),
    ensures
        typed_program(stmts) == Err::<Seq<StmtModel<TypeInfo>>, _>(
            unknown_variable(
                first_unassigned(
                    types_behind(stmts, at as nat)->Some_0,
                    stmt_expr(stmts[at]),
                )->Some_0,
            ),
        ),
{
    first_unassigned_variable_fails(types_behind(stmts, at as nat)->Some_0, stmt_expr(stmts[at]));
    lemma_first_error(stmts, 0, at);
}

// =================================================================================================
// CHECKING

/// The type of `left op right`, or the error that names the two types
/// which cannot be combined.
pub fn check_bin_op_type(op: BinOpKind, left: &Type, right: &Type) -> (result: Result<
    Type,
    TypeError,
>)
    ensures
        result == bin_op_type(op, *left, *right),
    decreases *left, *right,
{
    let scales = matches!(op, BinOpKind::Mul | BinOpKind::Div);
    let result = match (left, right) {
        (Type::Integer, Type::Integer) => Some(Type::Integer),
        (Type::Float, Type::Float) => Some(Type::Float),
        (Type::Tuple { .. }, Type::Tuple { .. }) => {
            if !scales && left.same(right) {
                Some(left.duplicate())
            } else {
                None
            }
        },
        (Type::Tuple { type_, len }, Type::Integer) | (Type::Tuple { type_, len }, Type::Float) => {
            if scales {
                match check_bin_op_type(op, type_, right) {
                    Ok(element) => Some(Type::Tuple { type_: Box::new(element), len: *len }),
                    Err(e) => {
                        return Err(e);
                    },
                }
            } else {
                None
            }
        },
        (Type::Integer, Type::Tuple { type_, len }) | (Type::Float, Type::Tuple { type_, len }) => {
            if scales {
                match check_bin_op_type(op, left, type_) {
                    Ok(element) => Some(Type::Tuple { type_: Box::new(element), len: *len }),
                    Err(e) => {
                        return Err(e);
                    },
                }
            } else {
                None
            }
        },
        _ => None,
    };
    match result {
        Some(type_) => Ok(type_),
        None => Err(TypeError::MismatchedTypesForBinaryOp(left.duplicate(), right.duplicate())),
    }
}

/// What a function yields that checks an expression whose typed tree is
/// `spec`.
pub open spec fn checks_expr(
    result: Result<Expr<TypeInfo>, CheckerError>,
    spec: Result<ExprModel<TypeInfo>, ErrorModel>,
) -> bool {
    match result {
        Ok(expr) => spec == Ok::<_, ErrorModel>(expr.model()),
        Err(e) => spec == Err::<ExprModel<TypeInfo>, _>(e.model()),
    }
}

/// The typed tree of an expression, or the first error in it.
pub fn check_expr(vars: &Scope<Type>, expr: &Expr<Span>) -> (result: Result<
    Expr<TypeInfo>,
    CheckerError,
>)
    ensures
        checks_expr(result, typed_expr(vars@, expr.model())),
    decreases expr,
{
    match &expr.kind {
        ExprKind::Variable(name) => {
            match vars.get(&name.kind) {
                Some(type_) => Ok(
                    Expr::variable(
                        VarName::new(name.kind.clone(), TypeInfo::new(type_.duplicate(), name.meta)),
                        TypeInfo::new(type_.duplicate(), expr.meta),
                    ),
                ),
                None => Err(
                    CheckerError::SyntaxError(
                        SyntaxError::UnknownVariable(name.kind.clone()),
                        expr.meta,
                    ),
                ),
            }
        },
        ExprKind::BinOp { op, left, right } => {
            let checked_left = match check_expr(vars, left) {
                Ok(checked) => checked,
                Err(e) => {
                    return Err(e);
                },
            };
            let checked_right = match check_expr(vars, right) {
                Ok(checked) => checked,
                Err(e) => {
                    return Err(e);
                },
            };
            match check_bin_op_type(op.kind, &checked_left.meta.type_, &checked_right.meta.type_) {
                Err(e) => Err(CheckerError::TypeError(e, op.meta)),
                Ok(type_) => Ok(
                    Expr::bin_op(
                        BinOp::new(op.kind, TypeInfo::new(type_.duplicate(), op.meta)),
                        checked_left,
                        checked_right,
                        TypeInfo::new(type_, expr.meta),
                    ),
                ),
            }
        },
        ExprKind::UnaryOp { op, operand } => {
            let checked = match check_expr(vars, operand) {
                Ok(checked) => checked,
                Err(e) => {
                    return Err(e);
                },
            };
            let type_ = checked.meta.type_.duplicate();
            if !matches!(type_, Type::Integer | Type::Float) {
                return Err(CheckerError::TypeError(TypeError::InvalidTypeForUnaryOp(type_), expr.meta));
            }
            Ok(
                Expr::unary_op(
                    UnaryOp::new(op.kind, TypeInfo::new(type_.duplicate(), op.meta)),
                    checked,
                    TypeInfo::new(type_, expr.meta),
                ),
            )
        },
        ExprKind::Tuple(exprs) => {
            proof {
                lemma_tuple_model(*exprs);
            }
            if exprs.len() == 0 {
                return Err(CheckerError::SyntaxError(SyntaxError::EmptyTuple, expr.meta));
            }
            let ghost elements = exprs_model(exprs@);
            let mut checked: Vec<Expr<TypeInfo>> = Vec::new();
            let mut i: usize = 0;
            assert(exprs_model(checked@) =~= Seq::empty());
            while i < exprs.len()
                invariant
                    i <= exprs.len(),
                    expr.kind is Tuple,
                    expr.kind->Tuple_0 == *exprs,
                    elements == exprs_model(exprs@),
                    expr.model().kind == ExprKindModel::Tuple(elements),
                    typed_elements(vars@, elements, i as nat) == Ok::<_, ErrorModel>(
                        exprs_model(checked@),
                    ),
                    checked.len() == i,
                decreases exprs.len() - i,
            {
                proof {
                    vstd::std_specs::vec::axiom_vec_index_decreases(*exprs, i as int);
                }
                let ghost done = exprs_model(checked@);
                let element = match check_expr(vars, &exprs[i]) {
                    Ok(element) => element,
                    Err(e) => {
                        proof {
                            assert(elements[i as int] == exprs@[i as int].model());
                            assert(typed_elements(vars@, elements, i as nat + 1) is Err);
                            lemma_typed_elements_error(
                                vars@,
                                elements,
                                i as nat + 1,
                                exprs.len() as nat,
                            );
                        }
                        return Err(e);
                    },
                };
                if i > 0 && !element.meta.type_.same(&checked[0].meta.type_) {
                    proof {
                        assert(elements[i as int] == exprs@[i as int].model());
                        assert(done[0] == checked@[0].model());
                        assert(typed_elements(vars@, elements, i as nat + 1) is Err);
                        lemma_typed_elements_error(
                            vars@,
                            elements,
                            i as nat + 1,
                            exprs.len() as nat,
                        );
                    }
                    return Err(CheckerError::TypeError(TypeError::HeterogeneousTuple, exprs[i].meta));
                }
                proof {
                    assert(exprs_model(checked@.push(element)) =~= done.push(element.model()));
                }
                checked.push(element);
                i += 1;
            }
            let type_ = Type::Tuple {
                type_: Box::new(checked[0].meta.type_.duplicate()),
                len: exprs.len(),
            };
            proof {
                lemma_tuple_model(checked);
            }
            Ok(Expr::tuple(checked, TypeInfo::new(type_, expr.meta)))
        },
        ExprKind::Integer(i) => Ok(Expr::integer(*i, TypeInfo::new(Type::Integer, expr.meta))),
        ExprKind::Float(x) => Ok(Expr::float(x.duplicate(), TypeInfo::new(Type::Float, expr.meta))),
    }
}

/// An error among the first elements of a tuple is the error of the tuple.
pub proof fn lemma_typed_elements_error(
    env: TypeEnv,
    exprs: Seq<ExprModel<Span>>,
    n: nat,
    m: nat,
)
    requires
        n <= m <= exprs.len(),
        typed_elements(env, exprs, n) is Err,
    ensures
        typed_elements(env, exprs, m) == typed_elements(env, exprs, n),
    decreases m,
{
    if n < m {
        lemma_typed_elements_error(env, exprs, n, (m - 1) as nat);
    }
}

/// What [`check_stmt`] yields for a statement whose typed tree is `spec`,
/// with the variables' types after it.
pub open spec fn checks_stmt(
    result: Result<Stmt<TypeInfo>, CheckerError>,
    vars: TypeEnv,
    spec: Result<(StmtModel<TypeInfo>, TypeEnv), ErrorModel>,
) -> bool {
    match result {
        Ok(stmt) => spec == Ok::<_, ErrorModel>((stmt.model(), vars)),
        Err(e) => spec == Err::<(StmtModel<TypeInfo>, TypeEnv), _>(e.model()),
    }
}

/// The typed tree of a statement, or the first error in it. An assignment
/// gives its variable the type of the value.
pub fn check_stmt(vars: &mut Scope<Type>, stmt: &Stmt<Span>) -> (result: Result<
    Stmt<TypeInfo>,
    CheckerError,
>)
    ensures
        checks_stmt(result, final(vars)@, typed_stmt(old(vars)@, stmt.model())),
        result is Err ==> final(vars)@ == old(vars)@,
{
    match &stmt.kind {
        StmtKind::Assign { name, value } => {
            let checked = match check_expr(vars, value) {
                Ok(checked) => checked,
                Err(e) => {
                    return Err(e);
                },
            };
            vars.insert(name.kind.clone(), checked.meta.type_.duplicate());
            Ok(
                Stmt::assign(
                    VarName::new(
                        name.kind.clone(),
                        TypeInfo::new(checked.meta.type_.duplicate(), name.meta),
                    ),
                    checked,
                    TypeInfo::new(Type::Stmt, stmt.meta),
                ),
            )
        },
        StmtKind::Print { expr } => {
            match check_expr(vars, expr) {
                Ok(checked) => Ok(Stmt::print(checked, TypeInfo::new(Type::Stmt, stmt.meta))),
                Err(e) => Err(e),
            }
        },
        StmtKind::Expr { expr } => {
            match check_expr(vars, expr) {
                Ok(checked) => Ok(Stmt::expr(checked, TypeInfo::new(Type::Stmt, stmt.meta))),
                Err(e) => Err(e),
            }
        },
    }
}

/// What [`check_program`] yields for `stmts`.
pub open spec fn checked(
    stmts: Seq<Stmt<Span>>,
    result: Result<Vec<Stmt<TypeInfo>>, CheckerError>,
) -> bool {
    match result {
        Ok(typed) => typed_program(stmts_model(stmts)) == Ok::<_, ErrorModel>(stmts_model(typed@)),
        Err(e) => typed_program(stmts_model(stmts)) == Err::<Seq<StmtModel<TypeInfo>>, _>(
            e.model(),
        ),
    }
}

/// `done`, followed by what `rest` yields.
pub open spec fn then(
    done: Seq<StmtModel<TypeInfo>>,
    rest: Result<Seq<StmtModel<TypeInfo>>, ErrorModel>,
) -> Result<Seq<StmtModel<TypeInfo>>, ErrorModel> {
    match rest {
        Ok(stmts) => Ok(done + stmts),
        Err(e) => Err(e),
    }
}

/// The typed program of a program, or the first error in it.
pub fn check_program(stmts: &Vec<Stmt<Span>>) -> (result: Result<Vec<Stmt<TypeInfo>>, CheckerError>)
    ensures
        checked(stmts@, result),
{
    let ghost program = stmts_model(stmts@);
    let mut vars: Scope<Type> = Scope::new();
    let mut typed: Vec<Stmt<TypeInfo>> = Vec::new();
    let mut i: usize = 0;
    assert(stmts_model(typed@) =~= Seq::empty());
    while i < stmts.len()
        invariant
            i <= stmts.len(),
            program == stmts_model(stmts@),
            typed_program(program) == then(stmts_model(typed@), typed_stmts(vars@, program, i as int)),
        decreases stmts.len() - i,
    {
        let ghost done = stmts_model(typed@);
        let ghost before = vars@;
        match check_stmt(&mut vars, &stmts[i]) {
            Err(e) => {
                return Err(e);
            },
            Ok(stmt) => {
                proof {
                    assert(stmts_model(typed@.push(stmt)) =~= done + seq![stmt.model()]);
                    if let Ok(rest) = typed_stmts(vars@, program, i + 1) {
                        assert(done + (seq![stmt.model()] + rest) =~= (done + seq![stmt.model()])
                            + rest);
                    }
                }
                typed.push(stmt);
                i += 1;
            },
        }
    }
    assert(stmts_model(typed@) + Seq::<StmtModel<TypeInfo>>::empty() =~= stmts_model(typed@));
    Ok(typed)
}

} // verus!
