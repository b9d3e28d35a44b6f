//! The interpreter: runs a typed program.
//!
//! [`value_bin_op`] and [`value_unary_op`] say what the operators do to
//! values, [`eval_expr`] what the value of an expression is, and
//! [`program_run`] what a program prints. [`interpret`] computes what they
//! say.

use crate::context::checked_ast::{CheckedExpr, CheckedStmt, TypeInfo};
use crate::context::scope::Scope;
use crate::data::ast::{
    BinOpKind, ExprKind, ExprKindModel, ExprModel, StmtKind, StmtKindModel, StmtModel, UnaryOpKind,
    exprs_model, lemma_tuple_model, stmts_model,
};
use crate::data::float::{FloatExpr, FloatModel};
use crate::data::meta::Meta;
use crate::errors::{
    arithmetic_error, syntax_error, type_error, ArithmeticError, ErrorModel, InterpreterError,
    SyntaxError, SyntaxErrorModel, TypeError,
};
use crate::pipeline::checker::mentions;
use crate::pipeline::optimizer::{arith_i32, folded_expr, folded_program, folded_stmt};
use crate::text::{decimal, plain, Glyph, Text};
use vstd::prelude::*;

verus! {

// =================================================================================================
// VALUES

/// What an expression evaluates to.
#[derive(Debug, PartialEq)]
pub enum Value {
    Int(i32),
    Float(FloatExpr),
    Tuple(Vec<Value>),
}

/// What a [`Value`] stands for.
pub enum ValueModel {
    Int(i32),
    Float(FloatModel),
    Tuple(Seq<ValueModel>),
}

/// Why an operator has no result on given values.
#[derive(Debug, Clone, Copy, PartialEq, Eq, Structural)]
pub enum OpError {
    /// The operator is not defined on values of these shapes.
    Mismatch,
    /// The operator is defined on the values, but its result is not.
    Arithmetic(ArithmeticError),
}

/// What a sequence of values stands for.
pub open spec fn values_model(values: Seq<Value>) -> Seq<ValueModel> {
    Seq::new(values.len(), |i: int| values[i].model())
}

impl Value {
    pub open spec fn model(self) -> ValueModel
        decreases self,
    {
        match self {
            Value::Int(i) => ValueModel::Int(i),
            Value::Float(x) => ValueModel::Float(x.model()),
            Value::Tuple(values) => ValueModel::Tuple(
                Seq::new(
                    values.len() as nat,
                    |i: int|
                        if 0 <= i < values.len() {
                            values[i].model()
                        } else {
                            arbitrary()
                        },
                ),
            ),
        }
    }
}

/// A tuple stands for the tuple of what its elements stand for.
pub proof fn lemma_tuple_value(values: Vec<Value>)
    ensures
        Value::Tuple(values).model() == ValueModel::Tuple(values_model(values@)),
{
    assert(Value::Tuple(values).model()->Tuple_0 =~= values_model(values@));
}

// =================================================================================================
// WHAT THE OPERATORS DO

/// `a op b` for two numbers. An integer and a float do not go together.
pub open spec fn scalar_bin_op(a: ValueModel, op: BinOpKind, b: ValueModel) -> Result<
    ValueModel,
    OpError,
> {
    match (a, b) {
        (ValueModel::Int(x), ValueModel::Int(y)) => match arith_i32(op, x, y) {
            Ok(value) => Ok(ValueModel::Int(value)),
            Err(e) => Err(OpError::Arithmetic(e)),
        },
        (ValueModel::Float(x), ValueModel::Float(y)) => Ok(
            ValueModel::Float(FloatModel::Arith(op, Box::new(x), Box::new(y))),
        ),
        _ => Err(OpError::Mismatch),
    }
}

/// `value op scalar` for a number `scalar`: the operation on two numbers,
/// or, if `op` multiplies or divides, on each element of a tuple.
pub open spec fn broadcast(value: ValueModel, op: BinOpKind, scalar: ValueModel) -> Result<
    ValueModel,
    OpError,
>
    decreases value, 1nat,
{
    match value {
        ValueModel::Tuple(values) => if op is Mul || op is Div {
            match broadcast_first(values, values.len(), op, scalar) {
                Ok(results) => Ok(ValueModel::Tuple(results)),
                Err(e) => Err(e),
            }
        } else {
            Err(OpError::Mismatch)
        },
        _ => scalar_bin_op(value, op, scalar),
    }
}

/// `value op scalar` for each of the first `n` of `values`, or the first
/// error among them.
pub open spec fn broadcast_first(
    values: Seq<ValueModel>,
    n: nat,
    op: BinOpKind,
    scalar: ValueModel,
) -> Result<Seq<ValueModel>, OpError>
    decreases values, n,
{
    if n == 0 || n > values.len() {
        Ok(Seq::empty())
    } else {
        match broadcast_first(values, (n - 1) as nat, op, scalar) {
            Err(e) => Err(e),
            Ok(done) => match broadcast(values[n - 1], op, scalar) {
                Err(e) => Err(e),
                Ok(result) => Ok(done.push(result)),
            },
        }
    }
}

/// `a op b`. Tuples of one length are added and subtracted element by
/// element. A tuple and a number are multiplied and divided by applying the
/// operator to each element and the number, the element on the left,
/// whichever side the tuple stands on.
pub open spec fn value_bin_op(a: ValueModel, op: BinOpKind, b: ValueModel) -> Result<
    ValueModel,
    OpError,
>
    decreases a, 1nat,
{
    match (a, b) {
        (ValueModel::Tuple(xs), ValueModel::Tuple(ys)) => if xs.len() == ys.len() && (op is Add
            || op is Sub) {
            match zip_first(xs, ys, xs.len(), op) {
                Ok(results) => Ok(ValueModel::Tuple(results)),
                Err(e) => Err(e),
            }
        } else {
            Err(OpError::Mismatch)
        },
        (ValueModel::Tuple(_), _) => broadcast(a, op, b),
        (_, ValueModel::Tuple(_)) => broadcast(b, op, a),
        _ => scalar_bin_op(a, op, b),
    }
}

/// `xs[i] op ys[i]` for each of the first `n` places, or the first error
/// among them.
pub open spec fn zip_first(xs: Seq<ValueModel>, ys: Seq<ValueModel>, n: nat, op: BinOpKind) -> Result<
    Seq<ValueModel>,
    OpError,
>
    decreases xs, n,
{
    if n == 0 || n > xs.len() {
        Ok(Seq::empty())
    } else {
        match zip_first(xs, ys, (n - 1) as nat, op) {
            Err(e) => Err(e),
            Ok(done) => match value_bin_op(xs[n - 1], op, ys[n - 1]) {
                Err(e) => Err(e),
                Ok(result) => Ok(done.push(result)),
            },
        }
    }
}

/// `op value`. The negation of a tuple negates each element. The smallest
/// integer has no negation.
pub open spec fn value_unary_op(op: UnaryOpKind, value: ValueModel) -> Result<
    ValueModel,
    ArithmeticError,
>
    decreases value, 1nat,
{
    match op {
        UnaryOpKind::Pos => Ok(value),
        UnaryOpKind::Neg => match value {
            ValueModel::Int(i) => if i == i32::MIN {
                Err(ArithmeticError::Overflow)
            } else {
                Ok(ValueModel::Int((-i) as i32))
            },
            ValueModel::Float(x) => Ok(ValueModel::Float(FloatModel::Neg(Box::new(x)))),
            ValueModel::Tuple(values) => match negated_first(values, values.len()) {
                Ok(results) => Ok(ValueModel::Tuple(results)),
                Err(e) => Err(e),
            },
        },
    }
}

/// The negations of the first `n` of `values`, or the first error among them.
pub open spec fn negated_first(values: Seq<ValueModel>, n: nat) -> Result<
    Seq<ValueModel>,
    ArithmeticError,
>
    decreases values, n,
{
    if n == 0 || n > values.len() {
        Ok(Seq::empty())
    } else {
        match negated_first(values, (n - 1) as nat) {
            Err(e) => Err(e),
            Ok(done) => match value_unary_op(UnaryOpKind::Neg, values[n - 1]) {
                Err(e) => Err(e),
                Ok(result) => Ok(done.push(result)),
            },
        }
    }
}

/// How a value is printed: a tuple in parentheses, with `, ` between its
/// elements.
pub open spec fn value_text(value: ValueModel) -> Seq<Glyph>
    decreases value, 1nat,
{
    match value {
        ValueModel::Int(i) => plain(decimal(i as int)),
        ValueModel::Float(x) => seq![Glyph::Float(x)],
        ValueModel::Tuple(values) => plain("("@) + values_text(values, values.len()) + plain(")"@),
    }
}

/// How the first `n` of `values` are printed, with `, ` between them.
pub open spec fn values_text(values: Seq<ValueModel>, n: nat) -> Seq<Glyph>
    decreases values, n,
{
    if n == 0 || n > values.len() {
        Seq::empty()
    } else if n == 1 {
        value_text(values[0])
    } else {
        values_text(values, (n - 1) as nat) + plain(", "@) + value_text(values[n - 1])
    }
}

// =================================================================================================
// WHAT HOLDS OF THE OPERATORS

/// A tuple and a number give the same, whichever stands on the left.
pub proof fn broadcast_commutes(tuple: ValueModel, op: BinOpKind, scalar: ValueModel)
    requires
        tuple is Tuple,
        !(scalar is Tuple),
    ensures
        value_bin_op(tuple, op, scalar) == value_bin_op(scalar, op, tuple),
        value_bin_op(tuple, op, scalar) == broadcast(tuple, op, scalar),
{
}

/// A tuple multiplied or divided by a number is the tuple of its elements,
/// each multiplied or divided by the number; it has a result where each of
/// these has one.
pub proof fn broadcast_is_elementwise(values: Seq<ValueModel>, op: BinOpKind, scalar: ValueModel)
    requires
        op is Mul || op is Div,
        !(scalar is Tuple),
    ensures
        match value_bin_op(ValueModel::Tuple(values), op, scalar) {
            Ok(ValueModel::Tuple(results)) => {
                &&& results.len() == values.len()
                &&& forall|i: int|
                    0 <= i < values.len() ==> value_bin_op(#[trigger] values[i], op, scalar) == Ok::<
                        _,
                        OpError,
                    >(results[i])
            },
            Ok(_) => false,
            Err(_) => exists|i: int|
                0 <= i < values.len() && value_bin_op(#[trigger] values[i], op, scalar) is Err,
        },
{
    lemma_broadcast_first(values, values.len(), op, scalar);
}

/// What [`broadcast_first`] yields, element by element.
pub proof fn lemma_broadcast_first(values: Seq<ValueModel>, n: nat, op: BinOpKind, scalar: ValueModel)
    requires
        n <= values.len(),
        !(scalar is Tuple),
    ensures
        match broadcast_first(values, n, op, scalar) {
            Ok(results) => {
                &&& results.len() == n
                &&& forall|i: int|
                    0 <= i < n ==> value_bin_op(#[trigger] values[i], op, scalar) == Ok::<_, OpError>(
                        results[i],
                    )
            },
            Err(_) => exists|i: int|
                0 <= i < n && value_bin_op(#[trigger] values[i], op, scalar) is Err,
        },
    decreases n,
{
    if n > 0 {
        lemma_broadcast_first(values, (n - 1) as nat, op, scalar);
        assert(value_bin_op(values[n - 1], op, scalar) == broadcast(values[n - 1], op, scalar));
    }
}

/// The sum of two tuples of one length is the tuple of the sums of their
/// elements, and so for the difference; it has a result where each of these
/// has one.
pub proof fn tuple_sum_is_elementwise(xs: Seq<ValueModel>, ys: Seq<ValueModel>, op: BinOpKind)
    requires
        xs.len() == ys.len(),
        op is Add || op is Sub,
    ensures
        match value_bin_op(ValueModel::Tuple(xs), op, ValueModel::Tuple(ys)) {
            Ok(ValueModel::Tuple(results)) => {
                &&& results.len() == xs.len()
                &&& forall|i: int|
                    0 <= i < xs.len() ==> value_bin_op(#[trigger] xs[i], op, ys[i]) == Ok::<
                        _,
                        OpError,
                    >(results[i])
            },
            Ok(_) => false,
            Err(_) => exists|i: int|
                0 <= i < xs.len() && value_bin_op(#[trigger] xs[i], op, ys[i]) is Err,
        },
{
    lemma_zip_first(xs, ys, xs.len(), op);
}

/// What [`zip_first`] yields, element by element.
pub proof fn lemma_zip_first(xs: Seq<ValueModel>, ys: Seq<ValueModel>, n: nat, op: BinOpKind)
    requires
        n <= xs.len(),
    ensures
        match zip_first(xs, ys, n, op) {
            Ok(results) => {
                &&& results.len() == n
                &&& forall|i: int|
                    0 <= i < n ==> value_bin_op(#[trigger] xs[i], op, ys[i]) == Ok::<_, OpError>(
                        results[i],
                    )
            },
            Err(_) => exists|i: int| 0 <= i < n && value_bin_op(#[trigger] xs[i], op, ys[i]) is Err,
        },
    decreases n,
{
    if n > 0 {
        lemma_zip_first(xs, ys, (n - 1) as nat, op);
    }
}

// =================================================================================================
// COMPUTING WITH VALUES

impl Value {
    /// A copy of the value.
    pub fn duplicate(&self) -> (copy: Value)
        ensures
            copy.model() == self.model(),
        decreases self,
    {
        match self {
            Value::Int(i) => Value::Int(*i),
            Value::Float(x) => Value::Float(x.duplicate()),
            Value::Tuple(values) => {
                let mut copies: Vec<Value> = Vec::new();
                let mut i: usize = 0;
                while i < values.len()
                    invariant
                        i <= values.len(),
                        self is Tuple,
                        self->Tuple_0 == *values,
                        copies.len() == i,
                        forall|k: int|
                            0 <= k < i ==> (#[trigger] copies@[k]).model() == values@[k].model(),
                    decreases values.len() - i,
                {
                    proof {
                        vstd::std_specs::vec::axiom_vec_index_decreases(*values, i as int);
                    }
                    copies.push(values[i].duplicate());
                    i += 1;
                }
                proof {
                    lemma_tuple_value(copies);
                    lemma_tuple_value(*values);
                    assert(values_model(copies@) =~= values_model(values@));
                }
                Value::Tuple(copies)
            },
        }
    }

    /// `self op other` for two numbers.
    fn scalar_bin_op(&self, op: BinOpKind, other: &Value) -> (result: Result<Value, OpError>)
        requires
            !(self is Tuple),
            !(other is Tuple),
        ensures
            match result {
                Ok(value) => scalar_bin_op(self.model(), op, other.model()) == Ok::<_, OpError>(
                    value.model(),
                ),
                Err(e) => scalar_bin_op(self.model(), op, other.model()) == Err::<ValueModel, _>(e),
            },
    {
        match (self, other) {
            (Value::Int(x), Value::Int(y)) => {
                let operator = Meta { kind: op, meta: () };
                match operator.eval(*x, *y) {
                    Ok(value) => Ok(Value::Int(value)),
                    Err(e) => Err(OpError::Arithmetic(e)),
                }
            },
            (Value::Float(x), Value::Float(y)) => Ok(
                Value::Float(x.duplicate().arith(op, y.duplicate())),
            ),
            _ => Err(OpError::Mismatch),
        }
    }

    /// `self op scalar` for a number `scalar`.
    fn broadcast(&self, op: BinOpKind, scalar: &Value) -> (result: Result<Value, OpError>)
        requires
            !(scalar is Tuple),
        ensures
            match result {
                Ok(value) => broadcast(self.model(), op, scalar.model()) == Ok::<_, OpError>(
                    value.model(),
                ),
                Err(e) => broadcast(self.model(), op, scalar.model()) == Err::<ValueModel, _>(e),
            },
        decreases self,
    {
        match self {
            Value::Tuple(values) => {
                proof {
                    lemma_tuple_value(*values);
                }
                if !matches!(op, BinOpKind::Mul | BinOpKind::Div) {
                    return Err(OpError::Mismatch);
                }
                let ghost elements = values_model(values@);
                let mut results: Vec<Value> = Vec::new();
                let mut i: usize = 0;
                assert(values_model(results@) =~= Seq::empty());
                while i < values.len()
                    invariant
                        i <= values.len(),
                        self is Tuple,
                        self->Tuple_0 == *values,
                        !(scalar is Tuple),
                        op is Mul || op is Div,
                        elements == values_model(values@),
                        self.model() == ValueModel::Tuple(elements),
                        broadcast_first(elements, i as nat, op, scalar.model()) == Ok::<
                            _,
                            OpError,
                        >(values_model(results@)),
                    decreases values.len() - i,
                {
                    proof {
                        vstd::std_specs::vec::axiom_vec_index_decreases(*values, i as int);
                    }
                    let ghost done = values_model(results@);
                    match values[i].broadcast(op, scalar) {
                        Err(e) => {
                            proof {
                                assert(elements[i as int] == values@[i as int].model());
                                assert(broadcast_first(elements, i as nat + 1, op, scalar.model())
                                    is Err);
                                lemma_broadcast_error(
                                    elements,
                                    i as nat + 1,
                                    values.len() as nat,
                                    op,
                                    scalar.model(),
                                );
                            }
                            return Err(e);
                        },
                        Ok(result) => {
                            proof {
                                assert(values_model(results@.push(result)) =~= done.push(
                                    result.model(),
                                ));
                            }
                            results.push(result);
                        },
                    }
                    i += 1;
                }
                proof {
                    lemma_tuple_value(results);
                }
                Ok(Value::Tuple(results))
            },
            _ => self.scalar_bin_op(op, scalar),
        }
    }

    /// `self op other`, where it is defined and has a result.
    pub fn bin_op(&self, op: BinOpKind, other: &Value) -> (result: Result<Value, OpError>)
        ensures
            match result {
                Ok(value) => value_bin_op(self.model(), op, other.model()) == Ok::<_, OpError>(
                    value.model(),
                ),
                Err(e) => value_bin_op(self.model(), op, other.model()) == Err::<ValueModel, _>(e),
            },
        decreases self,
    {
        match (self, other) {
            (Value::Tuple(xs), Value::Tuple(ys)) => {
                proof {
                    lemma_tuple_value(*xs);
                    lemma_tuple_value(*ys);
                }
                if xs.len() != ys.len() || !matches!(op, BinOpKind::Add | BinOpKind::Sub) {
                    return Err(OpError::Mismatch);
                }
                let ghost lefts = values_model(xs@);
                let ghost rights = values_model(ys@);
                let mut results: Vec<Value> = Vec::new();
                let mut i: usize = 0;
                assert(values_model(results@) =~= Seq::empty());
                while i < xs.len()
                    invariant
                        i <= xs.len() == ys.len(),
                        self is Tuple,
                        self->Tuple_0 == *xs,
                        lefts == values_model(xs@),
                        rights == values_model(ys@),
                        op is Add || op is Sub,
                        self.model() == ValueModel::Tuple(lefts),
                        other.model() == ValueModel::Tuple(rights),
                        zip_first(lefts, rights, i as nat, op) == Ok::<_, OpError>(
                            values_model(results@),
                        ),
                    decreases xs.len() - i,
                {
                    proof {
                        vstd::std_specs::vec::axiom_vec_index_decreases(*xs, i as int);
                    }
                    let ghost done = values_model(results@);
                    match xs[i].bin_op(op, &ys[i]) {
                        Err(e) => {
                            proof {
                                assert(lefts[i as int] == xs@[i as int].model());
                                assert(rights[i as int] == ys@[i as int].model());
                                assert(zip_first(lefts, rights, i as nat + 1, op) is Err);
                                lemma_zip_error(lefts, rights, i as nat + 1, xs.len() as nat, op);
                            }
                            return Err(e);
                        },
                        Ok(result) => {
                            proof {
                                assert(values_model(results@.push(result)) =~= done.push(
                                    result.model(),
                                ));
                            }
                            results.push(result);
                        },
                    }
                    i += 1;
                }
                proof {
                    lemma_tuple_value(results);
                }
                Ok(Value::Tuple(results))
            },
            (Value::Tuple(_), _) => self.broadcast(op, other),
            (_, Value::Tuple(_)) => other.broadcast(op, self),
            _ => self.scalar_bin_op(op, other),
        }
    }

    /// `op self`, where it has a result.
    pub fn unary_op(&self, op: UnaryOpKind) -> (result: Result<Value, ArithmeticError>)
        ensures
            match result {
                Ok(value) => value_unary_op(op, self.model()) == Ok::<_, ArithmeticError>(
                    value.model(),
                ),
                Err(e) => value_unary_op(op, self.model()) == Err::<ValueModel, _>(e),
            },
        decreases self,
    {
        match op {
            UnaryOpKind::Pos => Ok(self.duplicate()),
            UnaryOpKind::Neg => match self {
                Value::Int(i) => {
                    if *i == i32::MIN {
                        Err(ArithmeticError::Overflow)
                    } else {
                        Ok(Value::Int(-*i))
                    }
                },
                Value::Float(x) => Ok(Value::Float(x.duplicate().neg())),
                Value::Tuple(values) => {
                    proof {
                        lemma_tuple_value(*values);
                    }
                    let ghost elements = values_model(values@);
                    let mut results: Vec<Value> = Vec::new();
                    let mut i: usize = 0;
                    assert(values_model(results@) =~= Seq::empty());
                    while i < values.len()
                        invariant
                            i <= values.len(),
                            self is Tuple,
                            self->Tuple_0 == *values,
                            op is Neg,
                            elements == values_model(values@),
                            self.model() == ValueModel::Tuple(elements),
                            negated_first(elements, i as nat) == Ok::<_, ArithmeticError>(
                                values_model(results@),
                            ),
                        decreases values.len() - i,
                    {
                        proof {
                            vstd::std_specs::vec::axiom_vec_index_decreases(*values, i as int);
                        }
                        let ghost done = values_model(results@);
                        match values[i].unary_op(op) {
                            Err(e) => {
                                proof {
                                    assert(elements[i as int] == values@[i as int].model());
                                    assert(negated_first(elements, i as nat + 1) is Err);
                                    lemma_negated_error(elements, i as nat + 1, values.len() as nat);
                                }
                                return Err(e);
                            },
                            Ok(result) => {
                                proof {
                                    assert(values_model(results@.push(result)) =~= done.push(
                                        result.model(),
                                    ));
                                }
                                results.push(result);
                            },
                        }
                        i += 1;
                    }
                    proof {
                        lemma_tuple_value(results);
                    }
                    Ok(Value::Tuple(results))
                },
            },
        }
    }

    /// Appends to `out` how the value is printed.
    pub fn write(&self, out: &mut Text)
        ensures
            final(out)@ == old(out)@ + value_text(self.model()),
        decreases self,
    {
        match self {
            Value::Int(i) => {
                out.push_decimal(*i);
            },
            Value::Float(x) => {
                out.push_float(x.duplicate());
                assert(out@ =~= old(out)@ + value_text(self.model()));
            },
            Value::Tuple(values) => {
                proof {
                    lemma_tuple_value(*values);
                }
                let ghost elements = values_model(values@);
                out.push_str("(");
                let mut i: usize = 0;
                assert(out@ =~= old(out)@ + plain("("@) + values_text(elements, 0));
                while i < values.len()
                    invariant
                        i <= values.len(),
                        self is Tuple,
                        self->Tuple_0 == *values,
                        elements == values_model(values@),
                        out@ == old(out)@ + plain("("@) + values_text(elements, i as nat),
                    decreases values.len() - i,
                {
                    proof {
                        vstd::std_specs::vec::axiom_vec_index_decreases(*values, i as int);
                    }
                    if i > 0 {
                        out.push_str(", ");
                    }
                    values[i].write(out);
                    i += 1;
                    assert(out@ =~= old(out)@ + plain("("@) + values_text(elements, i as nat));
                }
                out.push_str(")");
                assert(out@ =~= old(out)@ + value_text(self.model()));
            },
        }
    }
}

/// An error among the first elements is the error of all.
pub proof fn lemma_broadcast_error(
    values: Seq<ValueModel>,
    n: nat,
    m: nat,
    op: BinOpKind,
    scalar: ValueModel,
)
    requires
        n <= m <= values.len(),
        broadcast_first(values, n, op, scalar) is Err,
    ensures
        broadcast_first(values, m, op, scalar) == broadcast_first(values, n, op, scalar),
    decreases m,
{
    if n < m {
        lemma_broadcast_error(values, n, (m - 1) as nat, op, scalar);
    }
}

/// An error among the first elements is the error of all.
pub proof fn lemma_zip_error(xs: Seq<ValueModel>, ys: Seq<ValueModel>, n: nat, m: nat, op: BinOpKind)
    requires
        n <= m <= xs.len(),
        zip_first(xs, ys, n, op) is Err,
    ensures
        zip_first(xs, ys, m, op) == zip_first(xs, ys, n, op),
    decreases m,
{
    if n < m {
        lemma_zip_error(xs, ys, n, (m - 1) as nat, op);
    }
}

/// An error among the first elements is the error of all.
pub proof fn lemma_negated_error(values: Seq<ValueModel>, n: nat, m: nat)
    requires
        n <= m <= values.len(),
        negated_first(values, n) is Err,
    ensures
        negated_first(values, m) == negated_first(values, n),
    decreases m,
{
    if n < m {
        lemma_negated_error(values, n, (m - 1) as nat);
    }
}

// =================================================================================================
// WHAT A PROGRAM DOES

/// The values of the variables that have been assigned so far.
pub type ValueEnv = Map<Seq<char>, ValueModel>;

/// The error for an operator at `op` that has no result on the values of
/// `left` and `right`.
pub open spec fn op_error(
    e: OpError,
    op: TypeInfo,
    left: ExprModel<TypeInfo>,
    right: ExprModel<TypeInfo>,
) -> ErrorModel {
    match e {
        OpError::Mismatch => type_error(
            TypeError::MismatchedTypesForBinaryOp(left.meta.type_, right.meta.type_),
            op.span,
        ),
        OpError::Arithmetic(e) => arithmetic_error(e, op.span),
    }
}

/// The value of an expression, or the first error in its evaluation. The
/// operands of an operator are evaluated from left to right, and so are the
/// elements of a tuple.
pub open spec fn eval_expr(env: ValueEnv, expr: ExprModel<TypeInfo>) -> Result<
    ValueModel,
    ErrorModel,
>
    decreases expr, 0nat,
{
    match expr.kind {
        ExprKindModel::Variable(name) => if env.contains_key(name.kind) {
            Ok(env[name.kind])
        } else {
            Err(syntax_error(SyntaxErrorModel::UnknownVariable(name.kind), name.meta.span))
        },
        ExprKindModel::BinOp { op, left, right } => match eval_expr(env, *left) {
            Err(e) => Err(e),
            Ok(l) => match eval_expr(env, *right) {
                Err(e) => Err(e),
                Ok(r) => match value_bin_op(l, op.kind, r) {
                    Ok(value) => Ok(value),
                    Err(e) => Err(op_error(e, op.meta, *left, *right)),
                },
            },
        },
        ExprKindModel::UnaryOp { op, operand } => match eval_expr(env, *operand) {
            Err(e) => Err(e),
            Ok(v) => match value_unary_op(op.kind, v) {
                Ok(value) => Ok(value),
                Err(e) => Err(arithmetic_error(e, op.meta.span)),
            },
        },
        ExprKindModel::Tuple(exprs) => match eval_elements(env, exprs, exprs.len()) {
            Err(e) => Err(e),
            Ok(values) => Ok(ValueModel::Tuple(values)),
        },
        ExprKindModel::Integer(i) => Ok(ValueModel::Int(i)),
        ExprKindModel::Float(x) => Ok(ValueModel::Float(x)),
    }
}

/// The values of the first `n` of `exprs`, or the first error in their
/// evaluation.
pub open spec fn eval_elements(env: ValueEnv, exprs: Seq<ExprModel<TypeInfo>>, n: nat) -> Result<
    Seq<ValueModel>,
    ErrorModel,
>
    decreases exprs, n,
{
    if n == 0 || n > exprs.len() {
        Ok(Seq::empty())
    } else {
        match eval_elements(env, exprs, (n - 1) as nat) {
            Err(e) => Err(e),
            Ok(done) => match eval_expr(env, exprs[n - 1]) {
                Err(e) => Err(e),
                Ok(value) => Ok(done.push(value)),
            },
        }
    }
}

/// What a statement does: the values of the variables after it and what it
/// prints, or the first error in it. An assignment replaces the value of its
/// variable. `print` prints a value on a line of its own. An expression
/// statement does nothing, unless it fails.
pub open spec fn stmt_effect(env: ValueEnv, stmt: StmtModel<TypeInfo>) -> Result<
    (ValueEnv, Seq<Glyph>),
    ErrorModel,
> {
    match stmt.kind {
        StmtKindModel::Assign { name, value } => match eval_expr(env, value) {
            Err(e) => Err(e),
            Ok(v) => Ok((env.insert(name.kind, v), Seq::empty())),
        },
        StmtKindModel::Print { expr } => match eval_expr(env, expr) {
            Err(e) => Err(e),
            Ok(v) => Ok((env, value_text(v) + plain("\n"@))),
        },
        StmtKindModel::Expr { expr } => match eval_expr(env, expr) {
            Err(e) => Err(e),
            Ok(_) => Ok((env, Seq::empty())),
        },
    }
}

/// What running a program came to: what it printed, and the error that
/// stopped it, if one did.
pub struct Run {
    pub output: Seq<Glyph>,
    pub error: Option<ErrorModel>,
}

/// What the statements `stmts[from..]` do, one after the other, up to the
/// first that fails.
pub open spec fn stmts_run(env: ValueEnv, stmts: Seq<StmtModel<TypeInfo>>, from: int) -> Run
    decreases stmts.len() - from,
{
    if from < 0 || from >= stmts.len() {
        Run { output: Seq::empty(), error: None }
    } else {
        match stmt_effect(env, stmts[from]) {
            Err(e) => Run { output: Seq::empty(), error: Some(e) },
            Ok((next, printed)) => {
                let rest = stmts_run(next, stmts, from + 1);
                Run { output: printed + rest.output, error: rest.error }
            },
        }
    }
}

/// What running a program comes to.
pub open spec fn program_run(stmts: Seq<StmtModel<TypeInfo>>) -> Run {
    stmts_run(Map::empty(), stmts, 0)
}

// =================================================================================================
// WHAT HOLDS OF EVALUATION

/// A variable that was never assigned is an error where it stands: the
/// error names the variable and lies at it.
pub proof fn unknown_variable_stops(env: ValueEnv, name: Seq<char>, at: TypeInfo, meta: TypeInfo)
    requires
        !env.contains_key(name),
    ensures
        eval_expr(
            env,
            Meta { kind: ExprKindModel::Variable(Meta { kind: name, meta: at }), meta },
        ) == Err::<ValueModel, _>(syntax_error(SyntaxErrorModel::UnknownVariable(name), at.span)),
{
}

/// No expression in which a variable occurs that was never assigned has a
/// value.
pub proof fn unassigned_variable_never_evaluates(
    env: ValueEnv,
    expr: ExprModel<TypeInfo>,
    name: Seq<char>,
)
    requires
        mentions(expr, name),
        !env.contains_key(name),
    ensures
        eval_expr(env, expr) is Err,
    decreases expr,
{
    match expr.kind {
        ExprKindModel::BinOp { left, right, .. } => {
            if mentions(*left, name) {
                unassigned_variable_never_evaluates(env, *left, name);
            } else {
                unassigned_variable_never_evaluates(env, *right, name);
            }
        },
        ExprKindModel::UnaryOp { operand, .. } => {
            unassigned_variable_never_evaluates(env, *operand, name);
        },
        ExprKindModel::Tuple(exprs) => {
            let i = choose|i: int| 0 <= i < exprs.len() && mentions(#[trigger] exprs[i], name);
            unassigned_variable_never_evaluates(env, exprs[i], name);
            assert(eval_elements(env, exprs, (i + 1) as nat) is Err);
            lemma_eval_error(env, exprs, (i + 1) as nat, exprs.len());
        },
        _ => {},
    }
}

/// Folding changes nothing that can be observed: the folded form of an
/// expression has the value of the expression, or fails with the same error.
pub proof fn folding_keeps_value(env: ValueEnv, expr: ExprModel<TypeInfo>)
    ensures
        eval_expr(env, folded_expr(expr)) == eval_expr(env, expr),
    decreases expr, 1nat,
{
    match expr.kind {
        ExprKindModel::BinOp { op, left, right } => {
            folding_keeps_value(env, *left);
            folding_keeps_value(env, *right);
            let l = folded_expr(*left);
            let r = folded_expr(*right);
            let kept: ExprModel<TypeInfo> = Meta {
                kind: ExprKindModel::BinOp { op, left: Box::new(l), right: Box::new(r) },
                meta: expr.meta,
            };
            assert(eval_expr(env, kept) == eval_expr(env, expr));
        },
        ExprKindModel::UnaryOp { op, operand } => {
            folding_keeps_value(env, *operand);
        },
        ExprKindModel::Tuple(exprs) => {
            folding_keeps_values(env, exprs, exprs.len());
        },
        _ => {},
    }
}

/// Folding keeps the values of the elements of a tuple.
pub proof fn folding_keeps_values(env: ValueEnv, exprs: Seq<ExprModel<TypeInfo>>, n: nat)
    requires
        n <= exprs.len(),
    ensures
        eval_elements(env, folded_expr(tuple_of(exprs)).kind->Tuple_0, n) == eval_elements(
            env,
            exprs,
            n,
        ),
    decreases exprs, n,
{
    if n > 0 {
        folding_keeps_values(env, exprs, (n - 1) as nat);
        folding_keeps_value(env, exprs[n - 1]);
    }
}

/// Some tuple of the expressions `exprs`.
pub open spec fn tuple_of(exprs: Seq<ExprModel<TypeInfo>>) -> ExprModel<TypeInfo> {
    Meta { kind: ExprKindModel::Tuple(exprs), meta: arbitrary() }
}

/// Folding changes nothing that a statement does.
pub proof fn folding_keeps_effect(env: ValueEnv, stmt: StmtModel<TypeInfo>)
    ensures
        stmt_effect(env, folded_stmt(stmt)) == stmt_effect(env, stmt),
{
    match stmt.kind {
        StmtKindModel::Assign { name, value } => folding_keeps_value(env, value),
        StmtKindModel::Print { expr } => folding_keeps_value(env, expr),
        StmtKindModel::Expr { expr } => folding_keeps_value(env, expr),
    }
}

/// A folded program prints what the program prints, and fails where it
/// fails.
pub proof fn folding_keeps_run(env: ValueEnv, stmts: Seq<StmtModel<TypeInfo>>, from: int)
    ensures
        stmts_run(env, folded_program(stmts), from) == stmts_run(env, stmts, from),
    decreases stmts.len() - from,
{
    if 0 <= from < stmts.len() {
        folding_keeps_effect(env, stmts[from]);
        match stmt_effect(env, stmts[from]) {
            Ok((next, _)) => folding_keeps_run(next, stmts, from + 1),
            Err(_) => {},
        }
    }
}

// =================================================================================================
// RUNNING A PROGRAM

/// What the values of a scope stand for.
pub open spec fn env_model(vars: Map<Seq<char>, Value>) -> ValueEnv {
    vars.map_values(|v: Value| v.model())
}

/// The value of an expression, or the first error in its evaluation.
pub fn run_expr(vars: &Scope<Value>, expr: &CheckedExpr) -> (result: Result<Value, InterpreterError>)
    ensures
        match result {
            Ok(value) => eval_expr(env_model(vars@), expr.model()) == Ok::<_, ErrorModel>(
                value.model(),
            ),
            Err(e) => eval_expr(env_model(vars@), expr.model()) == Err::<ValueModel, _>(e.model()),
        },
    decreases expr,
{
    match &expr.kind {
        ExprKind::Variable(name) => {
            match vars.get(&name.kind) {
                Some(value) => Ok(value.duplicate()),
                None => Err(
                    InterpreterError::SyntaxError(
                        SyntaxError::UnknownVariable(name.kind.clone()),
                        name.meta.span,
                    ),
                ),
            }
        },
        ExprKind::BinOp { op, left, right } => {
            let left_val = match run_expr(vars, left) {
                Ok(value) => value,
                Err(e) => {
                    return Err(e);
                },
            };
            let right_val = match run_expr(vars, right) {
                Ok(value) => value,
                Err(e) => {
                    return Err(e);
                },
            };
            match left_val.bin_op(op.kind, &right_val) {
                Ok(value) => Ok(value),
                // the type checker lets no mismatch through
                Err(OpError::Mismatch) => Err(
                    InterpreterError::TypeError(
                        TypeError::MismatchedTypesForBinaryOp(
                            left.meta.type_.duplicate(),
                            right.meta.type_.duplicate(),
                        ),
                        op.meta.span,
                    ),
                ),
                Err(OpError::Arithmetic(e)) => Err(
                    InterpreterError::ArithmeticError(e, op.meta.span),
                ),
            }
        },
        ExprKind::UnaryOp { op, operand } => {
            let value = match run_expr(vars, operand) {
                Ok(value) => value,
                Err(e) => {
                    return Err(e);
                },
            };
            match value.unary_op(op.kind) {
                Ok(value) => Ok(value),
                Err(e) => Err(InterpreterError::ArithmeticError(e, op.meta.span)),
            }
        },
        ExprKind::Tuple(exprs) => {
            proof {
                lemma_tuple_model(*exprs);
            }
            let ghost elements = exprs_model(exprs@);
            let mut values: Vec<Value> = Vec::new();
            let mut i: usize = 0;
            assert(values_model(values@) =~= Seq::empty());
            while i < exprs.len()
                invariant
                    i <= exprs.len(),
                    expr.kind is Tuple,
                    expr.kind->Tuple_0 == *exprs,
                    elements == exprs_model(exprs@),
                    expr.model().kind == ExprKindModel::Tuple(elements),
                    eval_elements(env_model(vars@), elements, i as nat) == Ok::<_, ErrorModel>(
                        values_model(values@),
                    ),
                decreases exprs.len() - i,
            {
                proof {
                    vstd::std_specs::vec::axiom_vec_index_decreases(*exprs, i as int);
                    assert(elements[i as int] == exprs@[i as int].model());
                }
                let ghost done = values_model(values@);
                match run_expr(vars, &exprs[i]) {
                    Err(e) => {
                        proof {
                            assert(eval_elements(env_model(vars@), elements, i as nat + 1) is Err);
                            lemma_eval_error(
                                env_model(vars@),
                                elements,
                                i as nat + 1,
                                exprs.len() as nat,
                            );
                        }
                        return Err(e);
                    },
                    Ok(value) => {
                        proof {
                            assert(values_model(values@.push(value)) =~= done.push(value.model()));
                        }
                        values.push(value);
                    },
                }
                i += 1;
            }
            proof {
                lemma_tuple_value(values);
            }
            Ok(Value::Tuple(values))
        },
        ExprKind::Integer(i) => Ok(Value::Int(*i)),
        ExprKind::Float(x) => Ok(Value::Float(x.duplicate())),
    }
}

/// An error among the first elements is the error of all.
pub proof fn lemma_eval_error(env: ValueEnv, exprs: Seq<ExprModel<TypeInfo>>, n: nat, m: nat)
    requires
        n <= m <= exprs.len(),
        eval_elements(env, exprs, n) is Err,
    ensures
        eval_elements(env, exprs, m) == eval_elements(env, exprs, n),
    decreases m,
{
    if n < m {
        lemma_eval_error(env, exprs, n, (m - 1) as nat);
    }
}

/// What [`run_stmt`] leaves behind for a statement whose effect is `spec`.
pub open spec fn runs_stmt(
    result: Result<(), InterpreterError>,
    vars: ValueEnv,
    printed: Seq<Glyph>,
    spec: Result<(ValueEnv, Seq<Glyph>), ErrorModel>,
) -> bool {
    match result {
        Ok(()) => spec == Ok::<_, ErrorModel>((vars, printed)),
        Err(e) => spec == Err::<(ValueEnv, Seq<Glyph>), _>(e.model()) && printed.len() == 0,
    }
}

/// Runs a statement: updates the variables and appends to `out` what the
/// statement prints.
pub fn run_stmt(vars: &mut Scope<Value>, stmt: &CheckedStmt, out: &mut Text) -> (result: Result<
    (),
    InterpreterError,
>)
    ensures
        old(out)@.len() <= final(out)@.len(),
        final(out)@.take(old(out)@.len() as int) == old(out)@,
        runs_stmt(
            result,
            env_model(final(vars)@),
            final(out)@.skip(old(out)@.len() as int),
            stmt_effect(env_model(old(vars)@), stmt.model()),
        ),
        result is Err ==> final(vars)@ == old(vars)@,
{
    let ghost before = out@;
    let ghost env = env_model(vars@);
    match &stmt.kind {
        StmtKind::Assign { name, value } => {
            let value = match run_expr(vars, value) {
                Ok(value) => value,
                Err(e) => {
                    assert(out@.skip(before.len() as int) =~= Seq::empty());
                    return Err(e);
                },
            };
            vars.insert(name.kind.clone(), value);
            assert(env_model(vars@) =~= env.insert(name.kind@, value.model()));
            assert(out@.skip(before.len() as int) =~= Seq::empty());
        },
        StmtKind::Print { expr } => {
            let value = match run_expr(vars, expr) {
                Ok(value) => value,
                Err(e) => {
                    assert(out@.skip(before.len() as int) =~= Seq::empty());
                    return Err(e);
                },
            };
            value.write(out);
            out.push_str("\n");
            assert(out@.skip(before.len() as int) =~= value_text(value.model()) + plain("\n"@));
        },
        StmtKind::Expr { expr } => {
            // no expression has an effect: only an error can show
            match run_expr(vars, expr) {
                Ok(_) => {},
                Err(e) => {
                    assert(out@.skip(before.len() as int) =~= Seq::empty());
                    return Err(e);
                },
            }
            assert(out@.skip(before.len() as int) =~= Seq::empty());
        },
    }
    assert(out@.take(before.len() as int) =~= before);
    Ok(())
}

/// What [`interpret`] leaves behind for a program.
pub open spec fn interpreted(
    stmts: Seq<CheckedStmt>,
    printed: Seq<Glyph>,
    result: Result<(), InterpreterError>,
) -> bool {
    let run = program_run(stmts_model(stmts));
    &&& printed == run.output
    &&& match result {
        Ok(()) => run.error is None,
        Err(e) => run.error == Some(e.model()),
    }
}

/// Runs a program: appends to `out` what the program prints, up to the
/// first error, and returns that error if there is one.
pub fn interpret(stmts: &Vec<CheckedStmt>, out: &mut Text) -> (result: Result<(), InterpreterError>)
    ensures
        old(out)@.len() <= final(out)@.len(),
        final(out)@.take(old(out)@.len() as int) == old(out)@,
        interpreted(stmts@, final(out)@.skip(old(out)@.len() as int), result),
{
    let ghost program = stmts_model(stmts@);
    let ghost before = out@;
    let mut vars: Scope<Value> = Scope::new();
    let mut i: usize = 0;
    assert(env_model(vars@) =~= Map::empty());
    assert(out@.skip(before.len() as int) =~= Seq::empty());
    assert(out@.take(before.len() as int) =~= before);
    while i < stmts.len()
        invariant
            i <= stmts.len(),
            program == stmts_model(stmts@),
            before == old(out)@,
            before.len() <= out@.len(),
            out@.take(before.len() as int) == before,
            program_run(program).output == out@.skip(before.len() as int) + stmts_run(
                env_model(vars@),
                program,
                i as int,
            ).output,
            program_run(program).error == stmts_run(env_model(vars@), program, i as int).error,
        decreases stmts.len() - i,
    {
        let ghost so_far = out@;
        let ghost env = env_model(vars@);
        let result = run_stmt(&mut vars, &stmts[i], out);
        proof {
            let printed = out@.skip(so_far.len() as int);
            assert(out@.skip(before.len() as int) =~= so_far.skip(before.len() as int) + printed);
            assert(out@.take(before.len() as int) =~= so_far.take(before.len() as int));
            let rest = stmts_run(env_model(vars@), program, i + 1);
            assert((so_far.skip(before.len() as int) + printed) + rest.output =~= so_far.skip(
                before.len() as int,
            ) + (printed + rest.output));
        }
        match result {
            Ok(()) => {},
            Err(e) => {
                assert(out@.skip(before.len() as int) + Seq::<Glyph>::empty() =~= out@.skip(
                    before.len() as int,
                ));
                return Err(e);
            },
        }
        i += 1;
    }
    assert(out@.skip(before.len() as int) + Seq::<Glyph>::empty() =~= out@.skip(
        before.len() as int,
    ));
    Ok(())
}

} // verus!
