//! The code generator: from a typed program to a module of textual SSA code.
//!
//! A module declares the two print functions, then one global for each
//! variable, in the order of the names, then the one function that holds the
//! code of the statements. [`module_of`] says what the module of a program is;
//! [`llvm_codegen`] writes it.

use crate::context::checked_ast::{CheckedExpr, CheckedStmt, Type, TypeInfo};
use crate::data::ast::{
    BinOpKind, ExprKind, ExprKindModel, ExprModel, StmtKind, StmtKindModel, StmtModel, UnaryOpKind,
    lemma_tuple_model, stmts_model,
};
use crate::data::float::{FloatExpr, FloatModel};
use crate::errors::{
    syntax_error, unsupported, CodegenError, ErrorModel, SyntaxError, SyntaxErrorModel,
};
use crate::pipeline::checker::mentions;
use crate::text::{chars_of, decimal, digits, plain, spell, Glyph, Piece, Text};
use vstd::pervasive::VecAdditionalExecFns;
use vstd::prelude::*;

verus! {

// =================================================================================================
// TYPES AND VALUES

/// The type of a value in the generated code.
#[derive(Debug, PartialEq)]
pub enum LlvmType {
    Builtin(Type),
}

impl LlvmType {
    /// Whether there is code for values of the type: it is that of the
    /// integers or that of the floats.
    pub open spec fn supported(self) -> bool {
        self matches LlvmType::Builtin(t) && t.is_scalar()
    }

    /// How the type is written.
    pub open spec fn spec_name(self) -> Seq<char> {
        match self {
            LlvmType::Builtin(Type::Integer) => "i32"@,
            _ => "double"@,
        }
    }

    /// How the zero of the type is written.
    pub open spec fn spec_init_val(self) -> Seq<char> {
        match self {
            LlvmType::Builtin(Type::Integer) => "0"@,
            _ => "0.0"@,
        }
    }

    /// How the zero of the type is written.
    pub fn init_val(&self) -> (text: &'static str)
        requires
            self.supported(),
        ensures
            text@ == self.spec_init_val(),
    {
        match self {
            LlvmType::Builtin(Type::Integer) => "0",
            _ => "0.0",
        }
    }

    /// How the type is written.
    pub fn name(&self) -> (text: &'static str)
        requires
            self.supported(),
        ensures
            text@ == self.spec_name(),
    {
        match self {
            LlvmType::Builtin(Type::Integer) => "i32",
            _ => "double",
        }
    }

    /// A copy of the type.
    pub fn duplicate(&self) -> (copy: LlvmType)
        ensures
            copy == *self,
    {
        match self {
            LlvmType::Builtin(t) => LlvmType::Builtin(t.duplicate()),
        }
    }
}

/// Where a value stands in the generated code: in a register, or in the
/// code itself.
#[derive(Debug, PartialEq)]
pub enum Operand {
    Register(usize),
    Int(i32),
    Float(FloatExpr),
}

/// What an [`Operand`] stands for.
pub enum OperandModel {
    Register(nat),
    Int(i32),
    Float(FloatModel),
}

impl Operand {
    pub open spec fn model(self) -> OperandModel {
        match self {
            Operand::Register(n) => OperandModel::Register(n as nat),
            Operand::Int(i) => OperandModel::Int(i),
            Operand::Float(x) => OperandModel::Float(x.model()),
        }
    }

    /// Appends to `out` how the operand is written.
    pub fn write(&self, out: &mut Text)
        ensures
            final(out)@ == old(out)@ + operand_text(self.model()),
            final(out).pieces.len() > old(out).pieces.len(),
    {
        match self {
            Operand::Register(n) => {
                out.push_str("%r");
                out.push_number(*n);
                assert(out@ =~= old(out)@ + operand_text(self.model()));
            },
            Operand::Int(i) => {
                out.push_decimal(*i);
            },
            Operand::Float(x) => {
                out.push_float(x.duplicate());
                assert(out@ =~= old(out)@ + operand_text(self.model()));
            },
        }
    }
}

/// How an operand is written.
pub open spec fn operand_text(operand: OperandModel) -> Seq<Glyph> {
    match operand {
        OperandModel::Register(n) => plain("%r"@) + plain(digits(n)),
        OperandModel::Int(i) => plain(decimal(i as int)),
        OperandModel::Float(x) => seq![Glyph::Float(x)],
    }
}

/// A value of the generated code.
#[derive(Debug, PartialEq)]
pub struct LlvmValue {
    pub register: Operand,
    pub type_: LlvmType,
}

/// What an [`LlvmValue`] stands for.
pub struct LlvmValueModel {
    pub register: OperandModel,
    pub type_: LlvmType,
}

impl LlvmValue {
    pub fn new(register: Operand, type_: LlvmType) -> (value: LlvmValue)
        ensures
            value == (LlvmValue { register, type_ }),
    {
        LlvmValue { register, type_ }
    }

    pub open spec fn model(self) -> LlvmValueModel {
        LlvmValueModel { register: self.register.model(), type_: self.type_ }
    }
}

// =================================================================================================
// WHAT THE CODE OF A PROGRAM IS

/// The globals of a module: names with their types.
pub type Globals = Seq<(Seq<char>, LlvmType)>;

/// Whether `a` comes before `b` in the order of strings: at the first place
/// where they differ `a` has the smaller character, or `a` ends there and `b`
/// does not.
pub open spec fn comes_before(a: Seq<char>, b: Seq<char>) -> bool
    decreases a.len(),
{
    if b.len() == 0 {
        false
    } else if a.len() == 0 {
        true
    } else if a[0] != b[0] {
        a[0] < b[0]
    } else {
        comes_before(a.drop_first(), b.drop_first())
    }
}

/// The globals with `name` of type `type_` among them: in the place of the
/// global of that name, if there is one, and else before the first that comes
/// after it in the order of the names.
pub open spec fn with_global(globals: Globals, name: Seq<char>, type_: LlvmType) -> Globals
    decreases globals.len(),
{
    if globals.len() == 0 {
        seq![(name, type_)]
    } else if globals[0].0 == name {
        seq![(name, type_)] + globals.drop_first()
    } else if comes_before(name, globals[0].0) {
        seq![(name, type_)] + globals
    } else {
        seq![globals[0]] + with_global(globals.drop_first(), name, type_)
    }
}

/// The type of the global `name`, if there is one.
pub open spec fn global_type(globals: Globals, name: Seq<char>) -> Option<LlvmType>
    decreases globals.len(),
{
    if globals.len() == 0 {
        None
    } else if globals[0].0 == name {
        Some(globals[0].1)
    } else {
        global_type(globals.drop_first(), name)
    }
}

/// What has been generated so far.
pub struct Generated {
    /// The instructions, each on a line of its own.
    pub code: Seq<Glyph>,
    /// The globals and their types.
    pub globals: Globals,
    /// The number of the next register. No number is used twice.
    pub next_id: nat,
}

/// An instruction on its line.
pub open spec fn line(instruction: Seq<Glyph>) -> Seq<Glyph> {
    plain("    "@) + instruction + plain("\n"@)
}

/// `state` after `instruction`, which took `registers` new registers.
pub open spec fn emit(state: Generated, instruction: Seq<Glyph>, registers: nat) -> Generated {
    Generated {
        code: state.code + line(instruction),
        globals: state.globals,
        next_id: state.next_id + registers,
    }
}

/// The instruction that computes `left op right`.
pub open spec fn opcode(type_: LlvmType, op: BinOpKind) -> Seq<char> {
    match type_ {
        LlvmType::Builtin(Type::Integer) => match op {
            BinOpKind::Add => "add"@,
            BinOpKind::Sub => "sub"@,
            BinOpKind::Mul => "mul"@,
            BinOpKind::Div => "sdiv"@,
        },
        _ => match op {
            BinOpKind::Add => "fadd"@,
            BinOpKind::Sub => "fsub"@,
            BinOpKind::Mul => "fmul"@,
            BinOpKind::Div => "fdiv"@,
        },
    }
}

/// `%rN = load T, T* @name`
pub open spec fn load_text(id: nat, type_: LlvmType, name: Seq<char>) -> Seq<Glyph> {
    operand_text(OperandModel::Register(id)) + plain(" = load "@) + plain(type_.spec_name())
        + plain(", "@) + plain(type_.spec_name()) + plain("* @"@) + plain(name)
}

/// `%rN = sub T 0, x`, the negation of `x`
pub open spec fn neg_text(id: nat, value: LlvmValueModel) -> Seq<Glyph> {
    operand_text(OperandModel::Register(id)) + plain(" = "@) + plain(
        opcode(value.type_, BinOpKind::Sub),
    ) + plain(" "@) + plain(value.type_.spec_name()) + plain(" "@) + plain(
        value.type_.spec_init_val(),
    ) + plain(", "@) + operand_text(value.register)
}

/// `%rN = op T x, y`
pub open spec fn bin_op_text(
    id: nat,
    op: BinOpKind,
    left: LlvmValueModel,
    right: LlvmValueModel,
) -> Seq<Glyph> {
    operand_text(OperandModel::Register(id)) + plain(" = "@) + plain(opcode(left.type_, op))
        + plain(" "@) + plain(left.type_.spec_name()) + plain(" "@) + operand_text(left.register)
        + plain(", "@) + operand_text(right.register)
}

/// `store T x, T* @name`
pub open spec fn store_text(value: LlvmValueModel, name: Seq<char>) -> Seq<Glyph> {
    plain("store "@) + plain(value.type_.spec_name()) + plain(" "@) + operand_text(value.register)
        + plain(", "@) + plain(value.type_.spec_name()) + plain("* @"@) + plain(name)
}

/// `call void @_print_int(T x)`, or the same for a float
pub open spec fn call_text(printed: Type, value: LlvmValueModel) -> Seq<Glyph> {
    plain("call void @"@) + plain(
        if printed is Integer {
            "_print_int"@
        } else {
            "_print_float"@
        },
    ) + plain("("@) + plain(value.type_.spec_name()) + plain(" "@) + operand_text(value.register)
        + plain(")"@)
}

/// What the code generator yields for an expression: the code so far with
/// the code of the expression behind it, and the value of the expression.
pub type GeneratedExpr = Result<(Generated, LlvmValueModel), ErrorModel>;

/// The code of an expression. A literal takes no code. A variable is
/// loaded from its global, with the type of the last assignment to it. `+x` is
/// `x`. The operands of an operator are computed from left to right, and the
/// type of the left one decides the instruction. There is no code for tuples.
pub open spec fn expr_code(state: Generated, expr: ExprModel<TypeInfo>) -> GeneratedExpr
    decreases expr,
{
    match expr.kind {
        ExprKindModel::Integer(i) => Ok(
            (
                state,
                LlvmValueModel {
                    register: OperandModel::Int(i),
                    type_: LlvmType::Builtin(Type::Integer),
                },
            ),
        ),
        ExprKindModel::Float(x) => Ok(
            (
                state,
                LlvmValueModel {
                    register: OperandModel::Float(x),
                    type_: LlvmType::Builtin(Type::Float),
                },
            ),
        ),
        ExprKindModel::Variable(name) => match global_type(state.globals, name.kind) {
            None => Err(syntax_error(SyntaxErrorModel::UnknownVariable(name.kind), expr.meta.span)),
            Some(type_) => Ok(
                (
                    emit(state, load_text(state.next_id, type_, name.kind), 1),
                    LlvmValueModel { register: OperandModel::Register(state.next_id), type_ },
                ),
            ),
        },
        ExprKindModel::UnaryOp { op, operand } => match expr_code(state, *operand) {
            Err(e) => Err(e),
            Ok((after, value)) => match op.kind {
                UnaryOpKind::Pos => Ok((after, value)),
                UnaryOpKind::Neg => Ok(
                    (
                        emit(after, neg_text(after.next_id, value), 1),
                        LlvmValueModel {
                            register: OperandModel::Register(after.next_id),
                            type_: value.type_,
                        },
                    ),
                ),
            },
        },
        ExprKindModel::BinOp { op, left, right } => match expr_code(state, *left) {
            Err(e) => Err(e),
            Ok((after_left, l)) => match expr_code(after_left, *right) {
                Err(e) => Err(e),
                Ok((after, r)) => Ok(
                    (
                        emit(after, bin_op_text(after.next_id, op.kind, l, r), 1),
                        LlvmValueModel {
                            register: OperandModel::Register(after.next_id),
                            type_: l.type_,
                        },
                    ),
                ),
            },
        },
        ExprKindModel::Tuple(_) => Err(unsupported(expr.meta.type_, expr.meta.span)),
    }
}

/// The code of a statement. An assignment stores the value in the global
/// of the variable, which from then on has the type of the value. `print`
/// calls the print function for the type of its expression.
pub open spec fn stmt_code(state: Generated, stmt: StmtModel<TypeInfo>) -> Result<
    Generated,
    ErrorModel,
> {
    match stmt.kind {
        StmtKindModel::Assign { name, value } => match expr_code(state, value) {
            Err(e) => Err(e),
            Ok((after, v)) => {
                let stored = emit(after, store_text(v, name.kind), 0);
                Ok(
                    Generated {
                        code: stored.code,
                        globals: with_global(stored.globals, name.kind, v.type_),
                        next_id: stored.next_id,
                    },
                )
            },
        },
        StmtKindModel::Print { expr } => match expr_code(state, expr) {
            Err(e) => Err(e),
            Ok((after, v)) => if expr.meta.type_.is_scalar() {
                Ok(emit(after, call_text(expr.meta.type_, v), 0))
            } else {
                Err(unsupported(expr.meta.type_, expr.meta.span))
            },
        },
        StmtKindModel::Expr { expr } => match expr_code(state, expr) {
            Err(e) => Err(e),
            Ok((after, _)) => Ok(after),
        },
    }
}

/// The code of the statements `stmts[from..]`.
pub open spec fn stmts_code(state: Generated, stmts: Seq<StmtModel<TypeInfo>>, from: int) -> Result<
    Generated,
    ErrorModel,
>
    decreases stmts.len() - from,
{
    if from < 0 || from >= stmts.len() {
        Ok(state)
    } else {
        match stmt_code(state, stmts[from]) {
            Err(e) => Err(e),
            Ok(next) => stmts_code(next, stmts, from + 1),
        }
    }
}

/// The declarations of the first `n` globals, each with the zero of its type.
pub open spec fn globals_text(globals: Globals, n: nat) -> Seq<Glyph>
    decreases n,
{
    if n == 0 || n > globals.len() {
        Seq::empty()
    } else {
        globals_text(globals, (n - 1) as nat) + plain("@"@) + plain(globals[n - 1].0) + plain(
            " = global "@,
        ) + plain(globals[n - 1].1.spec_name()) + plain(" "@) + plain(
            globals[n - 1].1.spec_init_val(),
        ) + plain("\n"@)
    }
}

/// The module that holds what has been generated.
pub open spec fn module_text(state: Generated) -> Seq<Glyph> {
    plain("declare void @_print_int(i32 %x)\n"@) + plain("declare void @_print_float(double %x)\n"@)
        + plain("\n"@) + globals_text(state.globals, state.globals.len()) + plain("\n"@) + plain(
        "define void @calc_main() {\n"@,
    ) + state.code + plain("    ret void\n"@) + plain("}\n"@)
}

/// Nothing generated yet.
pub open spec fn nothing() -> Generated {
    Generated { code: Seq::empty(), globals: Seq::empty(), next_id: 0 }
}

/// The module of a program, or the error that stops the generator.
pub open spec fn module_of(stmts: Seq<StmtModel<TypeInfo>>) -> Result<Seq<Glyph>, ErrorModel> {
    match stmts_code(nothing(), stmts, 0) {
        Ok(state) => Ok(module_text(state)),
        Err(e) => Err(e),
    }
}

// =================================================================================================
// WHAT HOLDS OF THE GLOBALS

/// Of two strings one comes before the other, unless they are the same.
pub proof fn lemma_order_is_total(a: Seq<char>, b: Seq<char>)
    ensures
        a == b || comes_before(a, b) || comes_before(b, a),
        !(comes_before(a, b) && comes_before(b, a)),
        a == b ==> !comes_before(a, b),
    decreases a.len(),
{
    if a.len() == 0 || b.len() == 0 {
        if a.len() == 0 && b.len() == 0 {
            assert(a =~= b);
        }
    } else if a[0] == b[0] {
        lemma_order_is_total(a.drop_first(), b.drop_first());
        if a.drop_first() == b.drop_first() {
            assert(a =~= seq![a[0]] + a.drop_first());
            assert(b =~= seq![b[0]] + b.drop_first());
        }
    }
}

/// What comes before a string comes before what comes after it.
pub proof fn lemma_order_is_transitive(a: Seq<char>, b: Seq<char>, c: Seq<char>)
    requires
        comes_before(a, b),
        comes_before(b, c),
    ensures
        comes_before(a, c),
    decreases a.len(),
{
    if a.len() > 0 && a[0] == b[0] && b[0] == c[0] {
        lemma_order_is_transitive(a.drop_first(), b.drop_first(), c.drop_first());
    }
}

/// Whether the globals stand in the order of their names. No name stands
/// twice then.
pub open spec fn in_order(globals: Globals) -> bool {
    forall|i: int, j: int|
        0 <= i < j < globals.len() ==> comes_before(
            (#[trigger] globals[i]).0,
            (#[trigger] globals[j]).0,
        )
}

/// Declaring a global brings in no name but its own.
pub proof fn lemma_with_global_names(globals: Globals, name: Seq<char>, type_: LlvmType, k: int)
    requires
        0 <= k < with_global(globals, name, type_).len(),
    ensures
        with_global(globals, name, type_)[k].0 == name || exists|m: int|
            0 <= m < globals.len() && (#[trigger] globals[m]).0 == with_global(
                globals,
                name,
                type_,
            )[k].0,
    decreases globals.len(),
{
    let added = with_global(globals, name, type_);
    if globals.len() == 0 {
    } else if globals[0].0 == name {
        if k > 0 {
            assert(added[k] == globals[k]);
        }
    } else if comes_before(name, globals[0].0) {
        if k > 0 {
            assert(added[k] == globals[k - 1]);
        }
    } else {
        if k == 0 {
            assert(added[0] == globals[0]);
        } else {
            let rest = globals.drop_first();
            lemma_with_global_names(rest, name, type_, k - 1);
            assert(added[k] == with_global(rest, name, type_)[k - 1]);
            if added[k].0 != name {
                let m = choose|m: int|
                    0 <= m < rest.len() && (#[trigger] rest[m]).0 == with_global(
                        rest,
                        name,
                        type_,
                    )[k - 1].0;
                assert(globals[m + 1] == rest[m]);
            }
        }
    }
}

/// The globals stay in the order of their names when one is declared.
pub proof fn declaring_keeps_order(globals: Globals, name: Seq<char>, type_: LlvmType)
    requires
        in_order(globals),
    ensures
        in_order(with_global(globals, name, type_)),
    decreases globals.len(),
{
    let added = with_global(globals, name, type_);
    if globals.len() == 0 {
    } else if globals[0].0 == name {
        assert forall|i: int, j: int| 0 <= i < j < added.len() implies comes_before(
            (#[trigger] added[i]).0,
            (#[trigger] added[j]).0,
        ) by {
            assert(added[i].0 == globals[i].0);
            assert(added[j].0 == globals[j].0);
        }
    } else if comes_before(name, globals[0].0) {
        assert forall|i: int, j: int| 0 <= i < j < added.len() implies comes_before(
            (#[trigger] added[i]).0,
            (#[trigger] added[j]).0,
        ) by {
            assert(added[j] == globals[j - 1]);
            if i == 0 {
                if j > 1 {
                    assert(comes_before(globals[0].0, globals[j - 1].0));
                    lemma_order_is_transitive(name, globals[0].0, globals[j - 1].0);
                }
            } else {
                assert(added[i] == globals[i - 1]);
            }
        }
    } else {
        let rest = globals.drop_first();
        assert forall|i: int, j: int| 0 <= i < j < rest.len() implies comes_before(
            (#[trigger] rest[i]).0,
            (#[trigger] rest[j]).0,
        ) by {
            assert(rest[i] == globals[i + 1]);
            assert(rest[j] == globals[j + 1]);
        }
        declaring_keeps_order(rest, name, type_);
        let behind = with_global(rest, name, type_);
        lemma_order_is_total(name, globals[0].0);
        assert forall|i: int, j: int| 0 <= i < j < added.len() implies comes_before(
            (#[trigger] added[i]).0,
            (#[trigger] added[j]).0,
        ) by {
            assert(added[j] == behind[j - 1]);
            if i == 0 {
                lemma_with_global_names(rest, name, type_, j - 1);
                if behind[j - 1].0 != name {
                    let m = choose|m: int|
                        0 <= m < rest.len() && (#[trigger] rest[m]).0 == behind[j - 1].0;
                    assert(rest[m] == globals[m + 1]);
                    assert(comes_before(globals[0].0, globals[m + 1].0));
                }
            } else {
                assert(added[i] == behind[i - 1]);
            }
        }
    }
}

/// There is no code for an expression in which a variable occurs that
/// was never assigned.
pub proof fn unassigned_variable_never_compiles(
    state: Generated,
    expr: ExprModel<TypeInfo>,
    name: Seq<char>,
)
    requires
        mentions(expr, name),
        global_type(state.globals, name) is None,
    ensures
        expr_code(state, expr) is Err,
    decreases expr,
{
    match expr.kind {
        ExprKindModel::UnaryOp { op, operand } => {
            unassigned_variable_never_compiles(state, *operand, name);
        },
        ExprKindModel::BinOp { op, left, right } => {
            if mentions(*left, name) {
                unassigned_variable_never_compiles(state, *left, name);
            } else if let Ok((after, _)) = expr_code(state, *left) {
                lemma_expr_code_keeps_globals(state, *left);
                unassigned_variable_never_compiles(after, *right, name);
            }
        },
        _ => {},
    }
}

/// The code of an expression declares no global.
pub proof fn lemma_expr_code_keeps_globals(state: Generated, expr: ExprModel<TypeInfo>)
    ensures
        expr_code(state, expr) matches Ok((after, _)) ==> after.globals == state.globals,
    decreases expr,
{
    match expr.kind {
        ExprKindModel::UnaryOp { op, operand } => {
            lemma_expr_code_keeps_globals(state, *operand);
        },
        ExprKindModel::BinOp { op, left, right } => {
            lemma_expr_code_keeps_globals(state, *left);
            if let Ok((after, _)) = expr_code(state, *left) {
                lemma_expr_code_keeps_globals(after, *right);
            }
        },
        _ => {},
    }
}

/// The globals of a program stand in the order of their names, and none
/// stands twice.
pub proof fn globals_are_in_order(state: Generated, stmts: Seq<StmtModel<TypeInfo>>, from: int)
    requires
        in_order(state.globals),
    ensures
        stmts_code(state, stmts, from) matches Ok(after) ==> in_order(after.globals),
    decreases stmts.len() - from,
{
    if 0 <= from < stmts.len() {
        if let Ok(next) = stmt_code(state, stmts[from]) {
            match stmts[from].kind {
                StmtKindModel::Assign { name, value } => {
                    lemma_expr_code_keeps_globals(state, value);
                    let (after, v) = expr_code(state, value)->Ok_0;
                    declaring_keeps_order(after.globals, name.kind, v.type_);
                },
                StmtKindModel::Print { expr } => {
                    lemma_expr_code_keeps_globals(state, expr);
                },
                StmtKindModel::Expr { expr } => {
                    lemma_expr_code_keeps_globals(state, expr);
                },
            }
            globals_are_in_order(next, stmts, from + 1);
        }
    }
}

// =================================================================================================
// GENERATING THE CODE

/// Whether `a` comes before `b` in the order of strings.
fn str_lt(a: &str, b: &str) -> (r: bool)
    ensures
        r == comes_before(a@, b@),
{
    let xs = chars_of(a);
    let ys = chars_of(b);
    let mut i: usize = 0;
    assert(xs@.skip(0) =~= xs@);
    assert(ys@.skip(0) =~= ys@);
    while i < xs.len() && i < ys.len()
        invariant
            i <= xs.len(),
            i <= ys.len(),
            xs@ == a@,
            ys@ == b@,
            comes_before(xs@, ys@) == comes_before(xs@.skip(i as int), ys@.skip(i as int)),
        decreases xs.len() - i,
    {
        assert(xs@.skip(i as int)[0] == xs@[i as int]);
        assert(ys@.skip(i as int)[0] == ys@[i as int]);
        if xs[i] != ys[i] {
            return xs[i] < ys[i];
        }
        assert(xs@.skip(i as int).drop_first() =~= xs@.skip(i + 1));
        assert(ys@.skip(i as int).drop_first() =~= ys@.skip(i + 1));
        i += 1;
    }
    i < ys.len()
}

/// What a list of globals stands for.
pub open spec fn globals_model(globals: Seq<(String, LlvmType)>) -> Globals {
    Seq::new(globals.len(), |i: int| (globals[i].0@, globals[i].1))
}

/// Where no global of the name stands, nor one that comes after it, the
/// name is put in further on.
pub proof fn lemma_with_global_from(globals: Globals, i: int, name: Seq<char>, type_: LlvmType)
    requires
        0 <= i <= globals.len(),
        forall|j: int|
            0 <= j < i ==> (#[trigger] globals[j]).0 != name && !comes_before(name, globals[j].0),
    ensures
        with_global(globals, name, type_) == globals.take(i) + with_global(
            globals.skip(i),
            name,
            type_,
        ),
    decreases i,
{
    if i > 0 {
        let rest = globals.drop_first();
        assert(globals[0].0 != name && !comes_before(name, globals[0].0));
        assert forall|j: int| 0 <= j < i - 1 implies (#[trigger] rest[j]).0 != name
            && !comes_before(name, rest[j].0) by {
            assert(rest[j] == globals[j + 1]);
        }
        lemma_with_global_from(rest, i - 1, name, type_);
        assert(rest.skip(i - 1) =~= globals.skip(i));
        assert(seq![globals[0]] + rest.take(i - 1) =~= globals.take(i));
        assert(seq![globals[0]] + (rest.take(i - 1) + with_global(rest.skip(i - 1), name, type_))
            =~= (seq![globals[0]] + rest.take(i - 1)) + with_global(rest.skip(i - 1), name, type_));
    } else {
        assert(globals.skip(0) =~= globals);
        assert(globals.take(0) + with_global(globals, name, type_) =~= with_global(
            globals,
            name,
            type_,
        ));
    }
}

/// Where no global of the name stands, the name is looked for further on.
pub proof fn lemma_global_type_from(globals: Globals, i: int, name: Seq<char>)
    requires
        0 <= i <= globals.len(),
        forall|j: int| 0 <= j < i ==> (#[trigger] globals[j]).0 != name,
    ensures
        global_type(globals, name) == global_type(globals.skip(i), name),
    decreases i,
{
    if i > 0 {
        let rest = globals.drop_first();
        assert(globals[0].0 != name);
        assert forall|j: int| 0 <= j < i - 1 implies (#[trigger] rest[j]).0 != name by {
            assert(rest[j] == globals[j + 1]);
        }
        lemma_global_type_from(rest, i - 1, name);
        assert(rest.skip(i - 1) =~= globals.skip(i));
    } else {
        assert(globals.skip(0) =~= globals);
    }
}

/// The code generator: the instructions so far, the globals, and the
/// number of the next register.
pub struct LlvmCodegen {
    pub code: Text,
    pub globals: Vec<(String, LlvmType)>,
    pub id: usize,
}

impl LlvmCodegen {
    /// What has been generated.
    pub open spec fn model(self) -> Generated {
        Generated {
            code: self.code@,
            globals: globals_model(self.globals@),
            next_id: self.id as nat,
        }
    }

    /// There is code for the type of every global, and no more registers
    /// than instructions.
    pub open spec fn wf(self) -> bool {
        &&& self.id <= self.code.pieces.len()
        &&& forall|i: int| 0 <= i < self.globals.len() ==> (#[trigger] self.globals[i]).1.supported()
    }

    pub fn new() -> (codegen: Self)
        ensures
            codegen.wf(),
            codegen.model() == nothing(),
    {
        let codegen = LlvmCodegen { code: Text::new(), globals: Vec::new(), id: 0 };
        assert(globals_model(codegen.globals@) =~= Seq::empty());
        codegen
    }

    /// The type of the global `name`, if there is one.
    fn global(&self, name: &String) -> (type_: Option<LlvmType>)
        requires
            self.wf(),
        ensures
            type_ == global_type(self.model().globals, name@),
            type_ matches Some(t) ==> t.supported(),
    {
        let ghost globals = globals_model(self.globals@);
        let mut i: usize = 0;
        while i < self.globals.len()
            invariant
                i <= self.globals.len(),
                self.wf(),
                globals == globals_model(self.globals@),
                forall|j: int| 0 <= j < i ==> (#[trigger] globals[j]).0 != name@,
            decreases self.globals.len() - i,
        {
            if self.globals[i].0 == *name {
                proof {
                    lemma_global_type_from(globals, i as int, name@);
                    assert(globals.skip(i as int)[0] == globals[i as int]);
                }
                return Some(self.globals[i].1.duplicate());
            }
            i += 1;
        }
        proof {
            lemma_global_type_from(globals, i as int, name@);
        }
        None
    }

    /// Declares the global `name` with type `type_`, or gives it that type.
    fn set_global(&mut self, name: String, type_: LlvmType)
        requires
            old(self).wf(),
            type_.supported(),
        ensures
            final(self).wf(),
            final(self).code == old(self).code,
            final(self).id == old(self).id,
            final(self).model().globals == with_global(old(self).model().globals, name@, type_),
    {
        let ghost globals = globals_model(self.globals@);
        let mut i: usize = 0;
        while i < self.globals.len() && !(self.globals[i].0 == name) && !str_lt(
            name.as_str(),
            self.globals[i].0.as_str(),
        )
            invariant
                i <= self.globals.len(),
                globals == globals_model(self.globals@),
                forall|j: int|
                    0 <= j < i ==> (#[trigger] globals[j]).0 != name@ && !comes_before(
                        name@,
                        globals[j].0,
                    ),
            decreases self.globals.len() - i,
        {
            i += 1;
        }
        proof {
            lemma_with_global_from(globals, i as int, name@, type_);
            if i < self.globals.len() {
                assert(globals.skip(i as int)[0] == globals[i as int]);
            }
        }
        if i < self.globals.len() && self.globals[i].0 == name {
            self.globals.set(i, (name, type_));
            assert(globals_model(self.globals@) =~= globals.take(i as int) + (seq![(name@, type_)]
                + globals.skip(i as int).drop_first()));
        } else {
            self.globals.insert(i, (name, type_));
            assert(globals_model(self.globals@) =~= globals.take(i as int) + (seq![(name@, type_)]
                + globals.skip(i as int)));
        }
    }

    /// Appends an instruction, which takes `registers` new registers.
    fn out(&mut self, instruction: Text, registers: usize)
        requires
            old(self).wf(),
            instruction.pieces.len() >= 1,
            registers <= 1,
        ensures
            final(self).wf(),
            final(self).globals == old(self).globals,
            final(self).code@ == old(self).code@ + instruction@,
            final(self).id == old(self).id + registers,
    {
        self.code.append(instruction);
        self.id += registers;
    }

    /// The code of an expression.
    pub fn codegen_expr(&mut self, expr: &CheckedExpr) -> (result: Result<LlvmValue, CodegenError>)
        requires
            old(self).wf(),
        ensures
            final(self).wf(),
            match result {
                Ok(value) => value.type_.supported() && expr_code(old(self).model(), expr.model())
                    == Ok::<_, ErrorModel>((final(self).model(), value.model())),
                Err(e) => expr_code(old(self).model(), expr.model()) == Err::<
                    (Generated, LlvmValueModel),
                    _,
                >(e.model()),
            },
        decreases expr,
    {
        match &expr.kind {
            ExprKind::Variable(name) => self.codegen_variable(&name.kind, expr),
            ExprKind::UnaryOp { op, operand } => {
                let value = match self.codegen_expr(operand) {
                    Ok(value) => value,
                    Err(e) => {
                        return Err(e);
                    },
                };
                Ok(self.codegen_unary_op_builtin(op.kind, value))
            },
            ExprKind::BinOp { op, left, right } => {
                let left = match self.codegen_expr(left) {
                    Ok(value) => value,
                    Err(e) => {
                        return Err(e);
                    },
                };
                let right = match self.codegen_expr(right) {
                    Ok(value) => value,
                    Err(e) => {
                        return Err(e);
                    },
                };
                Ok(self.codegen_bin_op_builtin(op.kind, left, right))
            },
            ExprKind::Tuple(exprs) => {
                proof {
                    lemma_tuple_model(*exprs);
                }
                Err(CodegenError::UnsupportedType(expr.meta.type_.duplicate(), expr.meta.span))
            },
            ExprKind::Integer(i) => Ok(
                LlvmValue::new(Operand::Int(*i), LlvmType::Builtin(Type::Integer)),
            ),
            ExprKind::Float(x) => Ok(
                LlvmValue::new(Operand::Float(x.duplicate()), LlvmType::Builtin(Type::Float)),
            ),
        }
    }

    /// The code that loads a variable.
    fn codegen_variable(&mut self, name: &String, expr: &CheckedExpr) -> (result: Result<
        LlvmValue,
        CodegenError,
    >)
        requires
            old(self).wf(),
            expr.kind matches ExprKind::Variable(n) && n.kind == *name,
        ensures
            final(self).wf(),
            match result {
                Ok(value) => value.type_.supported() && expr_code(old(self).model(), expr.model())
                    == Ok::<_, ErrorModel>((final(self).model(), value.model())),
                Err(e) => expr_code(old(self).model(), expr.model()) == Err::<
                    (Generated, LlvmValueModel),
                    _,
                >(e.model()),
            },
    {
        let type_ = match self.global(name) {
            Some(type_) => type_,
            None => {
                return Err(
                    CodegenError::SyntaxError(
                        SyntaxError::UnknownVariable(name.clone()),
                        expr.meta.span,
                    ),
                );
            },
        };
        let reg = Operand::Register(self.id);
        let mut text = Text::new();
        text.push_str("    ");
        reg.write(&mut text);
        text.push_str(" = load ");
        text.push_str(type_.name());
        text.push_str(", ");
        text.push_str(type_.name());
        text.push_str("* @");
        text.push_str(name.as_str());
        text.push_str("\n");
        assert(text@ =~= line(load_text(self.id as nat, type_, name@)));
        self.out(text, 1);
        Ok(LlvmValue::new(reg, type_))
    }

    /// The code of a unary operator on a number.
    fn codegen_unary_op_builtin(&mut self, op: UnaryOpKind, value: LlvmValue) -> (result: LlvmValue)
        requires
            old(self).wf(),
            value.type_.supported(),
        ensures
            final(self).wf(),
            result.type_.supported(),
            final(self).globals == old(self).globals,
            match op {
                UnaryOpKind::Pos => final(self).model() == old(self).model() && result == value,
                UnaryOpKind::Neg => final(self).model() == emit(
                    old(self).model(),
                    neg_text(old(self).id as nat, value.model()),
                    1,
                ) && result.model() == (LlvmValueModel {
                    register: OperandModel::Register(old(self).id as nat),
                    type_: value.type_,
                }),
            },
    {
        match op {
            UnaryOpKind::Neg => {
                let reg = Operand::Register(self.id);
                let opcode = match value.type_ {
                    LlvmType::Builtin(Type::Integer) => "sub",
                    _ => "fsub",
                };
                let mut text = Text::new();
                text.push_str("    ");
                reg.write(&mut text);
                text.push_str(" = ");
                text.push_str(opcode);
                text.push_str(" ");
                text.push_str(value.type_.name());
                text.push_str(" ");
                text.push_str(value.type_.init_val());
                text.push_str(", ");
                value.register.write(&mut text);
                text.push_str("\n");
                assert(text@ =~= line(neg_text(self.id as nat, value.model())));
                self.out(text, 1);
                LlvmValue::new(reg, value.type_)
            },
            UnaryOpKind::Pos => value,
        }
    }

    /// The code of a binary operator on two numbers.
    fn codegen_bin_op_builtin(&mut self, op: BinOpKind, left: LlvmValue, right: LlvmValue) -> (result:
        LlvmValue)
        requires
            old(self).wf(),
            left.type_.supported(),
        ensures
            final(self).wf(),
            result.type_.supported(),
            final(self).globals == old(self).globals,
            final(self).model() == emit(
                old(self).model(),
                bin_op_text(old(self).id as nat, op, left.model(), right.model()),
                1,
            ),
            result.model() == (LlvmValueModel {
                register: OperandModel::Register(old(self).id as nat),
                type_: left.type_,
            }),
    {
        let opcode = match left.type_ {
            LlvmType::Builtin(Type::Integer) => match op {
                BinOpKind::Add => "add",
                BinOpKind::Sub => "sub",
                BinOpKind::Mul => "mul",
                BinOpKind::Div => "sdiv",
            },
            _ => match op {
                BinOpKind::Add => "fadd",
                BinOpKind::Sub => "fsub",
                BinOpKind::Mul => "fmul",
                BinOpKind::Div => "fdiv",
            },
        };
        let reg = Operand::Register(self.id);
        let mut text = Text::new();
        text.push_str("    ");
        reg.write(&mut text);
        text.push_str(" = ");
        text.push_str(opcode);
        text.push_str(" ");
        text.push_str(left.type_.name());
        text.push_str(" ");
        left.register.write(&mut text);
        text.push_str(", ");
        right.register.write(&mut text);
        text.push_str("\n");
        assert(text@ =~= line(bin_op_text(self.id as nat, op, left.model(), right.model())));
        self.out(text, 1);
        LlvmValue::new(reg, left.type_)
    }

    /// The instruction that stores a value in a global.
    fn emit_store(&mut self, value: &LlvmValue, name: &str)
        requires
            old(self).wf(),
            value.type_.supported(),
        ensures
            final(self).wf(),
            final(self).model() == emit(old(self).model(), store_text(value.model(), name@), 0),
    {
        let mut text = Text::new();
        text.push_str("    ");
        text.push_str("store ");
        text.push_str(value.type_.name());
        text.push_str(" ");
        value.register.write(&mut text);
        text.push_str(", ");
        text.push_str(value.type_.name());
        text.push_str("* @");
        text.push_str(name);
        text.push_str("\n");
        assert(text@ =~= line(store_text(value.model(), name@)));
        self.out(text, 0);
    }

    /// The instruction that prints a value.
    fn emit_call(&mut self, func: &str, value: &LlvmValue, Ghost(printed): Ghost<Type>)
        requires
            old(self).wf(),
            value.type_.supported(),
            func@ == (if printed is Integer {
                "_print_int"@
            } else {
                "_print_float"@
            }),
        ensures
            final(self).wf(),
            final(self).model() == emit(old(self).model(), call_text(printed, value.model()), 0),
    {
        let mut text = Text::new();
        text.push_str("    ");
        text.push_str("call void @");
        text.push_str(func);
        text.push_str("(");
        text.push_str(value.type_.name());
        text.push_str(" ");
        value.register.write(&mut text);
        text.push_str(")");
        text.push_str("\n");
        assert(text@ =~= line(call_text(printed, value.model())));
        self.out(text, 0);
    }

    /// The code of a statement.
    pub fn codegen_stmt(&mut self, stmt: &CheckedStmt) -> (result: Result<(), CodegenError>)
        requires
            old(self).wf(),
        ensures
            final(self).wf(),
            match result {
                Ok(()) => stmt_code(old(self).model(), stmt.model()) == Ok::<_, ErrorModel>(
                    final(self).model(),
                ),
                Err(e) => stmt_code(old(self).model(), stmt.model()) == Err::<Generated, _>(
                    e.model(),
                ),
            },
    {
        match &stmt.kind {
            StmtKind::Assign { name, value } => {
                let value = match self.codegen_expr(value) {
                    Ok(value) => value,
                    Err(e) => {
                        return Err(e);
                    },
                };
                self.emit_store(&value, name.kind.as_str());
                self.set_global(name.kind.clone(), value.type_);
                Ok(())
            },
            StmtKind::Print { expr } => {
                let value = match self.codegen_expr(expr) {
                    Ok(value) => value,
                    Err(e) => {
                        return Err(e);
                    },
                };
                let func = match expr.meta.type_ {
                    Type::Integer => "_print_int",
                    Type::Float => "_print_float",
                    _ => {
                        return Err(
                            CodegenError::UnsupportedType(
                                expr.meta.type_.duplicate(),
                                expr.meta.span,
                            ),
                        );
                    },
                };
                self.emit_call(func, &value, Ghost(expr.meta.type_));
                Ok(())
            },
            StmtKind::Expr { expr } => {
                // no expression has an effect, but its code is generated
                match self.codegen_expr(expr) {
                    Ok(_) => Ok(()),
                    Err(e) => Err(e),
                }
            },
        }
    }

    /// The module that holds what has been generated.
    pub fn module(&self) -> (out: Text)
        requires
            self.wf(),
        ensures
            out@ == module_text(self.model()),
    {
        let ghost globals = globals_model(self.globals@);
        let mut out = Text::new();
        out.push_str("declare void @_print_int(i32 %x)\n");
        out.push_str("declare void @_print_float(double %x)\n");
        out.push_str("\n");
        let ghost head = out@;
        let mut i: usize = 0;
        assert(out@ =~= head + globals_text(globals, 0));
        while i < self.globals.len()
            invariant
                i <= self.globals.len(),
                self.wf(),
                globals == globals_model(self.globals@),
                out@ == head + globals_text(globals, i as nat),
            decreases self.globals.len() - i,
        {
            let type_ = &self.globals[i].1;
            out.push_str("@");
            out.push_str(self.globals[i].0.as_str());
            out.push_str(" = global ");
            out.push_str(type_.name());
            out.push_str(" ");
            out.push_str(type_.init_val());
            out.push_str("\n");
            i += 1;
            assert(out@ =~= head + globals_text(globals, i as nat));
        }
        out.push_str("\n");
        out.push_str("define void @calc_main() {\n");
        let mut j: usize = 0;
        let ghost so_far = out@;
        assert(spell(self.code.pieces@.take(0)) =~= Seq::empty());
        assert(out@ =~= so_far + spell(self.code.pieces@.take(0)));
        while j < self.code.pieces.len()
            invariant
                j <= self.code.pieces.len(),
                out@ == so_far + spell(self.code.pieces@.take(j as int)),
            decreases self.code.pieces.len() - j,
        {
            proof {
                assert(self.code.pieces@.take(j + 1).drop_last() =~= self.code.pieces@.take(
                    j as int,
                ));
            }
            match &self.code.pieces[j] {
                Piece::Str(s) => {
                    out.push_str(s.as_str());
                },
                Piece::Float(x) => {
                    out.push_float(x.duplicate());
                    assert(out@ =~= so_far + spell(self.code.pieces@.take(j + 1)));
                },
            }
            j += 1;
            assert(out@ =~= so_far + spell(self.code.pieces@.take(j as int)));
        }
        assert(self.code.pieces@.take(j as int) =~= self.code.pieces@);
        out.push_str("    ret void\n");
        out.push_str("}\n");
        assert(out@ =~= module_text(self.model()));
        out
    }
}

/// What [`llvm_codegen`] writes for a program: the module, or nothing when
/// it fails.
pub open spec fn generated(
    stmts: Seq<CheckedStmt>,
    written: Seq<Glyph>,
    result: Result<(), CodegenError>,
) -> bool {
    match result {
        Ok(()) => module_of(stmts_model(stmts)) == Ok::<_, ErrorModel>(written),
        Err(e) => module_of(stmts_model(stmts)) == Err::<Seq<Glyph>, _>(e.model())
            && written.len() == 0,
    }
}

/// Appends the module of a program to `out`, or returns the error that
/// stops the generator: a tuple, for which there is no code, or a variable
/// that was never assigned. Nothing is written before the code of every
/// statement has been generated.
pub fn llvm_codegen(stmts: &Vec<CheckedStmt>, out: &mut Text) -> (result: Result<(), CodegenError>)
    ensures
        old(out)@.len() <= final(out)@.len(),
        final(out)@.take(old(out)@.len() as int) == old(out)@,
        generated(stmts@, final(out)@.skip(old(out)@.len() as int), result),
{
    let ghost program = stmts_model(stmts@);
    let ghost before = out@;
    let mut codegen = LlvmCodegen::new();
    let mut i: usize = 0;
    assert(out@.skip(before.len() as int) =~= Seq::empty());
    assert(out@.take(before.len() as int) =~= before);
    while i < stmts.len()
        invariant
            i <= stmts.len(),
            codegen.wf(),
            program == stmts_model(stmts@),
            out@ == before,
            before == old(out)@,
            stmts_code(nothing(), program, 0) == stmts_code(codegen.model(), program, i as int),
        decreases stmts.len() - i,
    {
        match codegen.codegen_stmt(&stmts[i]) {
            Ok(()) => {},
            Err(e) => {
                return Err(e);
            },
        }
        i += 1;
    }
    let module = codegen.module();
    out.append(module);
    assert(out@.skip(before.len() as int) =~= module@);
    assert(out@.take(before.len() as int) =~= before);
    Ok(())
}

} // verus!
