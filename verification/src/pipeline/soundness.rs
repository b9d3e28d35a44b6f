//! What the type checker promises to the stages behind it.
//!
//! [`checked_program_runs`] states that a program that has passed the type
//! checker meets no unknown variable and no mismatched operands when it runs:
//! only arithmetic can stop it. [`checked_program_compiles`] states that the
//! code generator fails on such a program only for a tuple, and not at all
//! where none is written.

use crate::context::checked_ast::{Type, TypeInfo};
use crate::data::ast::{
    stmt_expr, BinOpKind, Expr, ExprKind, ExprKindModel, ExprModel, StmtKindModel, StmtModel,
};
use crate::data::span::Span;
use crate::errors::{ErrorModel, TypeError};
use crate::pipeline::checker::{
    bin_op_type, broadcast_type_commutes, typed_elements, typed_expr, typed_program, typed_stmt,
    typed_stmts, TypeEnv,
};
use crate::pipeline::interpreter::{
    broadcast, broadcast_first, eval_elements, eval_expr, program_run, stmt_effect, stmts_run,
    value_bin_op, zip_first, OpError, ValueEnv, ValueModel,
};
use crate::pipeline::llvm::{
    comes_before, expr_code, global_type, module_of, nothing, stmt_code, stmts_code, with_global,
    Generated, Globals, LlvmType,
};
use crate::pipeline::optimizer::folded_program;
use vstd::prelude::*;

verus! {

/// Whether a value is of a type.
pub open spec fn has_type(value: ValueModel, type_: Type) -> bool
    decreases value,
{
    match value {
        ValueModel::Int(_) => type_ is Integer,
        ValueModel::Float(_) => type_ is Float,
        ValueModel::Tuple(values) => {
            &&& type_ is Tuple
            &&& values.len() == type_->len
            &&& forall|i: int| 0 <= i < values.len() ==> has_type(#[trigger] values[i], *type_->type_)
        },
    }
}

/// Whether the tuples of an expression have lengths that a machine can
/// hold, as those of every syntax tree do.
pub open spec fn fits<M>(expr: ExprModel<M>) -> bool
    decreases expr,
{
    match expr.kind {
        ExprKindModel::BinOp { left, right, .. } => fits(*left) && fits(*right),
        ExprKindModel::UnaryOp { operand, .. } => fits(*operand),
        ExprKindModel::Tuple(exprs) => {
            &&& exprs.len() <= usize::MAX
            &&& forall|i: int| 0 <= i < exprs.len() ==> fits(#[trigger] exprs[i])
        },
        _ => true,
    }
}

/// The tuples of a syntax tree have lengths that a machine can hold.
pub proof fn lemma_tree_fits<M>(expr: Expr<M>)
    ensures
        fits(expr.model()),
    decreases expr,
{
    match expr.kind {
        ExprKind::BinOp { op, left, right } => {
            lemma_tree_fits(*left);
            lemma_tree_fits(*right);
        },
        ExprKind::UnaryOp { op, operand } => {
            lemma_tree_fits(*operand);
        },
        ExprKind::Tuple(exprs) => {
            crate::data::ast::lemma_tuple_model(exprs);
            assert forall|i: int| 0 <= i < exprs.len() implies fits(
                #[trigger] crate::data::ast::exprs_model(exprs@)[i],
            ) by {
                vstd::std_specs::vec::axiom_vec_index_decreases(exprs, i);
                lemma_tree_fits(exprs[i]);
            }
        },
        _ => {},
    }
}

/// Whether the tuples of a program have lengths that a machine can hold.
pub open spec fn program_fits<M>(stmts: Seq<StmtModel<M>>) -> bool {
    forall|i: int| 0 <= i < stmts.len() ==> fits(#[trigger] stmt_expr(stmts[i]))
}

/// Whether every variable that has a type has a value of that type.
pub open spec fn well_typed(env: ValueEnv, types: TypeEnv) -> bool {
    forall|name: Seq<char>|
        #![trigger types.contains_key(name)]
        types.contains_key(name) ==> env.contains_key(name) && has_type(env[name], types[name])
}

/// Whether an operator gave a value of a type, or failed in its
/// arithmetic.
pub open spec fn gives(result: Result<ValueModel, OpError>, type_: Type) -> bool {
    match result {
        Ok(value) => has_type(value, type_),
        Err(e) => e is Arithmetic,
    }
}

/// Whether an evaluation gave a value of a type, or failed in its
/// arithmetic.
pub open spec fn evaluates(result: Result<ValueModel, ErrorModel>, type_: Type) -> bool {
    match result {
        Ok(value) => has_type(value, type_),
        Err(e) => e.failure is Arithmetic,
    }
}

/// An operator that the typing rules allow on a value and a number gives a
/// value of the type of the rules, applied to each element and the number.
pub proof fn lemma_broadcast_is_sound(
    value: ValueModel,
    of: Type,
    op: BinOpKind,
    scalar: ValueModel,
    scalar_type: Type,
    type_: Type,
)
    requires
        has_type(value, of),
        has_type(scalar, scalar_type),
        scalar_type.is_scalar(),
        bin_op_type(op, of, scalar_type) == Ok::<_, TypeError>(type_),
    ensures
        gives(broadcast(value, op, scalar), type_),
    decreases value, 1nat,
{
    if let ValueModel::Tuple(values) = value {
        let element = bin_op_type(op, *of->type_, scalar_type)->Ok_0;
        lemma_broadcast_first_is_sound(
            values,
            values.len(),
            *of->type_,
            op,
            scalar,
            scalar_type,
            element,
        );
    }
}

/// The elements of a tuple that is multiplied or divided by a number.
pub proof fn lemma_broadcast_first_is_sound(
    values: Seq<ValueModel>,
    n: nat,
    of: Type,
    op: BinOpKind,
    scalar: ValueModel,
    scalar_type: Type,
    type_: Type,
)
    requires
        n <= values.len(),
        forall|i: int| 0 <= i < values.len() ==> has_type(#[trigger] values[i], of),
        has_type(scalar, scalar_type),
        scalar_type.is_scalar(),
        bin_op_type(op, of, scalar_type) == Ok::<_, TypeError>(type_),
    ensures
        match broadcast_first(values, n, op, scalar) {
            Ok(results) => {
                &&& results.len() == n
                &&& forall|i: int| 0 <= i < n ==> has_type(#[trigger] results[i], type_)
            },
            Err(e) => e is Arithmetic,
        },
    decreases values, n,
{
    if n > 0 {
        lemma_broadcast_first_is_sound(values, (n - 1) as nat, of, op, scalar, scalar_type, type_);
        assert(has_type(values[n - 1], of));
        lemma_broadcast_is_sound(values[n - 1], of, op, scalar, scalar_type, type_);
    }
}

/// Two values of one type have a sum and a difference of that type.
pub proof fn lemma_sum_is_sound(a: ValueModel, b: ValueModel, type_: Type, op: BinOpKind)
    requires
        has_type(a, type_),
        has_type(b, type_),
        op is Add || op is Sub,
    ensures
        gives(value_bin_op(a, op, b), type_),
    decreases a, 1nat,
{
    if let ValueModel::Tuple(xs) = a {
        let ys = b->Tuple_0;
        lemma_zip_is_sound(xs, ys, xs.len(), *type_->type_, op);
    }
}

/// The elements of the sum or difference of two tuples.
pub proof fn lemma_zip_is_sound(
    xs: Seq<ValueModel>,
    ys: Seq<ValueModel>,
    n: nat,
    type_: Type,
    op: BinOpKind,
)
    requires
        n <= xs.len() == ys.len(),
        forall|i: int| 0 <= i < xs.len() ==> has_type(#[trigger] xs[i], type_),
        forall|i: int| 0 <= i < ys.len() ==> has_type(#[trigger] ys[i], type_),
        op is Add || op is Sub,
    ensures
        match zip_first(xs, ys, n, op) {
            Ok(results) => {
                &&& results.len() == n
                &&& forall|i: int| 0 <= i < n ==> has_type(#[trigger] results[i], type_)
            },
            Err(e) => e is Arithmetic,
        },
    decreases xs, n,
{
    if n > 0 {
        lemma_zip_is_sound(xs, ys, (n - 1) as nat, type_, op);
        assert(has_type(xs[n - 1], type_));
        assert(has_type(ys[n - 1], type_));
        lemma_sum_is_sound(xs[n - 1], ys[n - 1], type_, op);
    }
}

/// An operator that the typing rules allow on two values gives a value of
/// the type of the rules, unless its arithmetic fails.
pub proof fn operators_are_sound(
    a: ValueModel,
    left: Type,
    op: BinOpKind,
    b: ValueModel,
    right: Type,
    type_: Type,
)
    requires
        has_type(a, left),
        has_type(b, right),
        bin_op_type(op, left, right) == Ok::<_, TypeError>(type_),
    ensures
        gives(value_bin_op(a, op, b), type_),
{
    match (a, b) {
        (ValueModel::Tuple(_), ValueModel::Tuple(_)) => {
            lemma_sum_is_sound(a, b, left, op);
        },
        (ValueModel::Tuple(_), _) => {
            lemma_broadcast_is_sound(a, left, op, b, right, type_);
        },
        (_, ValueModel::Tuple(_)) => {
            broadcast_type_commutes(op, right, left);
            lemma_broadcast_is_sound(b, right, op, a, left, type_);
        },
        _ => {},
    }
}

/// An expression that has passed the type checker has a value of its
/// type, unless its arithmetic fails.
pub proof fn checked_expr_evaluates(types: TypeEnv, env: ValueEnv, expr: ExprModel<Span>)
    requires
        fits(expr),
        typed_expr(types, expr) is Ok,
        well_typed(env, types),
    ensures
        evaluates(
            eval_expr(env, typed_expr(types, expr)->Ok_0),
            typed_expr(types, expr)->Ok_0.meta.type_,
        ),
    decreases expr, 1nat,
{
    match expr.kind {
        ExprKindModel::Variable(name) => {
            assert(types.contains_key(name.kind));
        },
        ExprKindModel::BinOp { op, left, right } => {
            checked_expr_evaluates(types, env, *left);
            checked_expr_evaluates(types, env, *right);
            let l = typed_expr(types, *left)->Ok_0;
            let r = typed_expr(types, *right)->Ok_0;
            if let Ok(a) = eval_expr(env, l) {
                if let Ok(b) = eval_expr(env, r) {
                    operators_are_sound(
                        a,
                        l.meta.type_,
                        op.kind,
                        b,
                        r.meta.type_,
                        bin_op_type(op.kind, l.meta.type_, r.meta.type_)->Ok_0,
                    );
                }
            }
        },
        ExprKindModel::UnaryOp { op, operand } => {
            checked_expr_evaluates(types, env, *operand);
        },
        ExprKindModel::Tuple(exprs) => {
            checked_elements_evaluate(types, env, exprs, exprs.len());
        },
        _ => {},
    }
}

/// The elements of a tuple that has passed the type checker have values
/// of the type of the first, unless their arithmetic fails.
pub proof fn checked_elements_evaluate(
    types: TypeEnv,
    env: ValueEnv,
    exprs: Seq<ExprModel<Span>>,
    n: nat,
)
    requires
        0 < n <= exprs.len(),
        forall|i: int| 0 <= i < exprs.len() ==> fits(#[trigger] exprs[i]),
        typed_elements(types, exprs, n) is Ok,
        well_typed(env, types),
    ensures
        typed_elements(types, exprs, n)->Ok_0.len() == n,
        match eval_elements(env, typed_elements(types, exprs, n)->Ok_0, n) {
            Ok(values) => {
                &&& values.len() == n
                &&& forall|i: int|
                    0 <= i < n ==> has_type(
                        #[trigger] values[i],
                        typed_elements(types, exprs, n)->Ok_0[0].meta.type_,
                    )
            },
            Err(e) => e.failure is Arithmetic,
        },
    decreases exprs, n,
{
    let typed = typed_elements(types, exprs, n)->Ok_0;
    assert(fits(exprs[n - 1]));
    checked_expr_evaluates(types, env, exprs[n - 1]);
    if n > 1 {
        let before = typed_elements(types, exprs, (n - 1) as nat)->Ok_0;
        checked_elements_evaluate(types, env, exprs, (n - 1) as nat);
        lemma_eval_prefix(env, before, typed, (n - 1) as nat);
    } else {
        assert(eval_elements(env, typed, 0) == Ok::<_, ErrorModel>(Seq::<ValueModel>::empty()));
    }
}

/// The values of the first elements depend on these elements only.
pub proof fn lemma_eval_prefix(
    env: ValueEnv,
    a: Seq<ExprModel<TypeInfo>>,
    b: Seq<ExprModel<TypeInfo>>,
    n: nat,
)
    requires
        n <= a.len(),
        n <= b.len(),
        forall|i: int| 0 <= i < n ==> a[i] == b[i],
    ensures
        eval_elements(env, a, n) == eval_elements(env, b, n),
    decreases n,
{
    if n > 0 {
        lemma_eval_prefix(env, a, b, (n - 1) as nat);
    }
}

/// A statement that has passed the type checker leaves every variable
/// with a value of its type, unless its arithmetic fails.
pub proof fn checked_stmt_runs(types: TypeEnv, env: ValueEnv, stmt: StmtModel<Span>)
    requires
        fits(stmt_expr(stmt)),
        typed_stmt(types, stmt) is Ok,
        well_typed(env, types),
    ensures
        match stmt_effect(env, typed_stmt(types, stmt)->Ok_0.0) {
            Ok((next, _)) => well_typed(next, typed_stmt(types, stmt)->Ok_0.1),
            Err(e) => e.failure is Arithmetic,
        },
{
    match stmt.kind {
        StmtKindModel::Assign { name, value } => {
            checked_expr_evaluates(types, env, value);
        },
        StmtKindModel::Print { expr } => {
            checked_expr_evaluates(types, env, expr);
        },
        StmtKindModel::Expr { expr } => {
            checked_expr_evaluates(types, env, expr);
        },
    }
}

/// The statements of a program that has passed the type checker run up to
/// the end, unless arithmetic fails.
pub proof fn checked_stmts_run(
    types: TypeEnv,
    env: ValueEnv,
    stmts: Seq<StmtModel<Span>>,
    from: int,
)
    requires
        0 <= from <= stmts.len(),
        program_fits(stmts),
        typed_stmts(types, stmts, from) is Ok,
        well_typed(env, types),
    ensures
        match stmts_run(env, typed_stmts(types, stmts, from)->Ok_0, 0).error {
            Some(e) => e.failure is Arithmetic,
            None => true,
        },
    decreases stmts.len() - from,
{
    if from < stmts.len() {
        let (stmt, next_types) = typed_stmt(types, stmts[from])->Ok_0;
        let rest = typed_stmts(next_types, stmts, from + 1)->Ok_0;
        let all = seq![stmt] + rest;
        assert(typed_stmts(types, stmts, from) == Ok::<_, ErrorModel>(all));
        assert(fits(stmt_expr(stmts[from])));
        checked_stmt_runs(types, env, stmts[from]);
        if let Ok((next, _)) = stmt_effect(env, stmt) {
            checked_stmts_run(next_types, next, stmts, from + 1);
            assert(all.skip(1) =~= rest.skip(0));
            lemma_run_behind(next, all, rest, 1, 0);
        }
    }
}

/// What the statements from some place on do depends on these statements
/// only.
pub proof fn lemma_run_behind(
    env: ValueEnv,
    a: Seq<StmtModel<TypeInfo>>,
    b: Seq<StmtModel<TypeInfo>>,
    i: int,
    j: int,
)
    requires
        0 <= i <= a.len(),
        0 <= j <= b.len(),
        a.skip(i) == b.skip(j),
    ensures
        stmts_run(env, a, i) == stmts_run(env, b, j),
    decreases a.len() - i,
{
    assert(a.skip(i).len() == a.len() - i);
    assert(b.skip(j).len() == b.len() - j);
    if i < a.len() {
        assert(a[i] == a.skip(i)[0]);
        assert(b[j] == b.skip(j)[0]);
        if let Ok((next, _)) = stmt_effect(env, a[i]) {
            assert(a.skip(i + 1) =~= a.skip(i).skip(1));
            assert(b.skip(j + 1) =~= b.skip(j).skip(1));
            lemma_run_behind(next, a, b, i + 1, j + 1);
        }
    }
}

/// A program that has passed the type checker meets no unknown variable
/// and no mismatched operands when it runs, folded or not: only arithmetic
/// can stop it.
pub proof fn checked_program_runs(stmts: Seq<StmtModel<Span>>)
    requires
        program_fits(stmts),
        typed_program(stmts) is Ok,
    ensures
        match program_run(typed_program(stmts)->Ok_0).error {
            Some(e) => e.failure is Arithmetic,
            None => true,
        },
        program_run(folded_program(typed_program(stmts)->Ok_0)) == program_run(
            typed_program(stmts)->Ok_0,
        ),
{
    checked_stmts_run(Map::empty(), Map::empty(), stmts, 0);
    crate::pipeline::interpreter::folding_keeps_run(Map::empty(), typed_program(stmts)->Ok_0, 0);
}

// =================================================================================================
// THE CODE GENERATOR

/// A global that has been declared is found with its type, and the others
/// as before.
pub proof fn lemma_global_type_with(
    globals: Globals,
    name: Seq<char>,
    type_: LlvmType,
    other: Seq<char>,
)
    ensures
        global_type(with_global(globals, name, type_), other) == if other == name {
            Some(type_)
        } else {
            global_type(globals, other)
        },
    decreases globals.len(),
{
    let added = with_global(globals, name, type_);
    if globals.len() == 0 {
        assert(added.drop_first() =~= globals);
    } else if globals[0].0 == name {
        assert(added.drop_first() =~= globals.drop_first());
    } else if comes_before(name, globals[0].0) {
        assert(added.drop_first() =~= globals);
    } else {
        lemma_global_type_with(globals.drop_first(), name, type_, other);
        assert(added.drop_first() =~= with_global(globals.drop_first(), name, type_));
    }
}

/// Whether every variable that has a type has a global.
pub open spec fn declared(globals: Globals, types: TypeEnv) -> bool {
    forall|name: Seq<char>|
        #![trigger types.contains_key(name)]
        types.contains_key(name) ==> global_type(globals, name) is Some
}

/// Whether the code generator gave code, or failed for a type that it
/// does not support.
pub open spec fn compiles<T>(result: Result<T, ErrorModel>) -> bool {
    match result {
        Ok(_) => true,
        Err(e) => e.failure is Unsupported,
    }
}

/// Whether no tuple is written in an expression.
pub open spec fn tuple_free<M>(expr: ExprModel<M>) -> bool
    decreases expr,
{
    match expr.kind {
        ExprKindModel::BinOp { left, right, .. } => tuple_free(*left) && tuple_free(*right),
        ExprKindModel::UnaryOp { operand, .. } => tuple_free(*operand),
        ExprKindModel::Tuple(_) => false,
        _ => true,
    }
}

/// Whether every variable is a number.
pub open spec fn all_scalar(types: TypeEnv) -> bool {
    forall|name: Seq<char>|
        #![trigger types.contains_key(name)]
        types.contains_key(name) ==> types[name].is_scalar()
}

/// Where no tuple is written and every variable is a number, an
/// expression that has passed the type checker is a number.
pub proof fn lemma_tuple_free_is_scalar(types: TypeEnv, expr: ExprModel<Span>)
    requires
        typed_expr(types, expr) is Ok,
        tuple_free(expr),
        all_scalar(types),
    ensures
        typed_expr(types, expr)->Ok_0.meta.type_.is_scalar(),
        tuple_free(typed_expr(types, expr)->Ok_0),
    decreases expr,
{
    match expr.kind {
        ExprKindModel::Variable(name) => {
            assert(types.contains_key(name.kind));
        },
        ExprKindModel::BinOp { op, left, right } => {
            lemma_tuple_free_is_scalar(types, *left);
            lemma_tuple_free_is_scalar(types, *right);
        },
        ExprKindModel::UnaryOp { op, operand } => {
            lemma_tuple_free_is_scalar(types, *operand);
        },
        _ => {},
    }
}

/// The code generator fails on an expression that has passed the type
/// checker only for a tuple, and not at all where none is written. It
/// declares no global.
pub proof fn checked_expr_compiles(types: TypeEnv, state: Generated, expr: ExprModel<Span>)
    requires
        typed_expr(types, expr) is Ok,
        declared(state.globals, types),
    ensures
        compiles(expr_code(state, typed_expr(types, expr)->Ok_0)),
        expr_code(state, typed_expr(types, expr)->Ok_0) matches Ok((after, _))
            ==> after.globals == state.globals,
        tuple_free(expr) ==> expr_code(state, typed_expr(types, expr)->Ok_0) is Ok,
    decreases expr,
{
    match expr.kind {
        ExprKindModel::Variable(name) => {
            assert(types.contains_key(name.kind));
        },
        ExprKindModel::BinOp { op, left, right } => {
            checked_expr_compiles(types, state, *left);
            if let Ok((after, _)) = expr_code(state, typed_expr(types, *left)->Ok_0) {
                checked_expr_compiles(types, after, *right);
            }
        },
        ExprKindModel::UnaryOp { op, operand } => {
            checked_expr_compiles(types, state, *operand);
        },
        _ => {},
    }
}

/// The code generator fails on a statement that has passed the type
/// checker only for a tuple, and not at all where none is written and every
/// variable is a number. Behind the statement every variable that has a type
/// has a global.
pub proof fn checked_stmt_compiles(types: TypeEnv, state: Generated, stmt: StmtModel<Span>)
    requires
        typed_stmt(types, stmt) is Ok,
        declared(state.globals, types),
    ensures
        compiles(stmt_code(state, typed_stmt(types, stmt)->Ok_0.0)),
        stmt_code(state, typed_stmt(types, stmt)->Ok_0.0) matches Ok(after) ==> declared(
            after.globals,
            typed_stmt(types, stmt)->Ok_0.1,
        ),
        tuple_free(stmt_expr(stmt)) && all_scalar(types) ==> {
            &&& stmt_code(state, typed_stmt(types, stmt)->Ok_0.0) is Ok
            &&& all_scalar(typed_stmt(types, stmt)->Ok_0.1)
        },
{
    let expr = stmt_expr(stmt);
    checked_expr_compiles(types, state, expr);
    if tuple_free(expr) && all_scalar(types) {
        lemma_tuple_free_is_scalar(types, expr);
    }
    if let StmtKindModel::Assign { name, value } = stmt.kind {
        if let Ok((after, v)) = expr_code(state, typed_expr(types, value)->Ok_0) {
            let next = typed_stmt(types, stmt)->Ok_0.1;
            assert forall|other: Seq<char>| #[trigger]
                next.contains_key(other) implies global_type(
                with_global(after.globals, name.kind, v.type_),
                other,
            ) is Some by {
                lemma_global_type_with(after.globals, name.kind, v.type_, other);
                if other != name.kind {
                    assert(types.contains_key(other));
                }
            }
            if tuple_free(expr) && all_scalar(types) {
                assert forall|other: Seq<char>| #[trigger]
                    next.contains_key(other) implies next[other].is_scalar() by {
                    if other != name.kind {
                        assert(types.contains_key(other));
                    }
                }
            }
        }
    }
}

/// The statements of a program that has passed the type checker.
pub proof fn checked_stmts_compile(
    types: TypeEnv,
    state: Generated,
    stmts: Seq<StmtModel<Span>>,
    from: int,
)
    requires
        0 <= from <= stmts.len(),
        typed_stmts(types, stmts, from) is Ok,
        declared(state.globals, types),
    ensures
        compiles(stmts_code(state, typed_stmts(types, stmts, from)->Ok_0, 0)),
        all_scalar(types) && (forall|i: int|
            from <= i < stmts.len() ==> tuple_free(#[trigger] stmt_expr(stmts[i]))) ==> stmts_code(
            state,
            typed_stmts(types, stmts, from)->Ok_0,
            0,
        ) is Ok,
    decreases stmts.len() - from,
{
    if from < stmts.len() {
        let (stmt, next_types) = typed_stmt(types, stmts[from])->Ok_0;
        let rest = typed_stmts(next_types, stmts, from + 1)->Ok_0;
        let all = seq![stmt] + rest;
        assert(typed_stmts(types, stmts, from) == Ok::<_, ErrorModel>(all));
        checked_stmt_compiles(types, state, stmts[from]);
        if let Ok(after) = stmt_code(state, stmt) {
            checked_stmts_compile(next_types, after, stmts, from + 1);
            assert(all.skip(1) =~= rest.skip(0));
            lemma_code_behind(after, all, rest, 1, 0);
            if all_scalar(types) && (forall|i: int|
                from <= i < stmts.len() ==> tuple_free(#[trigger] stmt_expr(stmts[i]))) {
                assert(tuple_free(stmt_expr(stmts[from])));
            }
        } else {
            if all_scalar(types) && (forall|i: int|
                from <= i < stmts.len() ==> tuple_free(#[trigger] stmt_expr(stmts[i]))) {
                assert(tuple_free(stmt_expr(stmts[from])));
            }
        }
    }
}

/// The code of the statements from some place on depends on these
/// statements only.
pub proof fn lemma_code_behind(
    state: Generated,
    a: Seq<StmtModel<TypeInfo>>,
    b: Seq<StmtModel<TypeInfo>>,
    i: int,
    j: int,
)
    requires
        0 <= i <= a.len(),
        0 <= j <= b.len(),
        a.skip(i) == b.skip(j),
    ensures
        stmts_code(state, a, i) == stmts_code(state, b, j),
    decreases a.len() - i,
{
    assert(a.skip(i).len() == a.len() - i);
    assert(b.skip(j).len() == b.len() - j);
    if i < a.len() {
        assert(a[i] == a.skip(i)[0]);
        assert(b[j] == b.skip(j)[0]);
        if let Ok(next) = stmt_code(state, a[i]) {
            assert(a.skip(i + 1) =~= a.skip(i).skip(1));
            assert(b.skip(j + 1) =~= b.skip(j).skip(1));
            lemma_code_behind(next, a, b, i + 1, j + 1);
        }
    }
}

/// The code generator fails on a program that has passed the type checker
/// only for a tuple: it meets no unknown variable. Where no tuple is written,
/// the program has a module.
pub proof fn checked_program_compiles(stmts: Seq<StmtModel<Span>>)
    requires
        typed_program(stmts) is Ok,
    ensures
        compiles(module_of(typed_program(stmts)->Ok_0)),
        (forall|i: int| 0 <= i < stmts.len() ==> tuple_free(#[trigger] stmt_expr(stmts[i])))
            ==> module_of(typed_program(stmts)->Ok_0) is Ok,
{
    checked_stmts_compile(Map::empty(), nothing(), stmts, 0);
}

} // verus!
