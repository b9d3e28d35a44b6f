//! The formatter: from a syntax tree to source text.
//!
//! The formatter reads no metadata, so it works on the tree of any stage.
//! [`program_text`] says what the text of a program is; [`format`] writes it.

use crate::context::ast::Ast;
use crate::data::ast::{
    BinOpKind, Expr, ExprKind, ExprKindModel, ExprModel, Stmt, StmtKind, StmtKindModel, StmtModel,
    UnaryOpKind, exprs_model, lemma_tuple_model,
};
use crate::text::{decimal, plain, Glyph, Text};
use vstd::prelude::*;

verus! {

// =================================================================================================
// THE TEXT OF A TREE

impl BinOpKind {
    /// How the operator is written.
    pub open spec fn spec_symbol(&self) -> Seq<char> {
        match self {
            BinOpKind::Add => "+"@,
            BinOpKind::Sub => "-"@,
            BinOpKind::Mul => "*"@,
            BinOpKind::Div => "/"@,
        }
    }

    /// How the operator is written.
    pub fn symbol(&self) -> (s: &'static str)
        ensures
            s@ == self.spec_symbol(),
    {
        match self {
            BinOpKind::Add => "+",
            BinOpKind::Sub => "-",
            BinOpKind::Mul => "*",
            BinOpKind::Div => "/",
        }
    }
}

impl UnaryOpKind {
    /// How the operator is written.
    pub open spec fn spec_symbol(&self) -> Seq<char> {
        match self {
            UnaryOpKind::Pos => "+"@,
            UnaryOpKind::Neg => "-"@,
        }
    }

    /// How the operator is written.
    pub fn symbol(&self) -> (s: &'static str)
        ensures
            s@ == self.spec_symbol(),
    {
        match self {
            UnaryOpKind::Pos => "+",
            UnaryOpKind::Neg => "-",
        }
    }
}

/// The precedence that the right operand of a binary operator has to have
/// at least to stand without parentheses: one above that of the operator.
/// The operators group from the left, so `8 - (4 - 2)` needs its parentheses
/// and `(8 - 4) - 2` does not.
pub open spec fn right_precedence(op: BinOpKind) -> u8 {
    (op.spec_precedence() + 1) as u8
}

/// The text of an expression. An operand stands in parentheses where the
/// precedences ask for them: the operand of a unary operator and the left
/// operand of a binary operator where it binds looser than the operator, the
/// right operand of a binary operator where it does not bind tighter. A tuple
/// of one element has a comma after the element, which tells it from a
/// parenthesized expression.
pub open spec fn expr_text<M>(expr: ExprModel<M>) -> Seq<Glyph>
    decreases expr, 1nat,
{
    match expr.kind {
        ExprKindModel::Variable(name) => plain(name.kind),
        ExprKindModel::BinOp { op, left, right } => operand_text(*left, op.kind.spec_precedence())
            + plain(" "@) + plain(op.kind.spec_symbol()) + plain(" "@) + operand_text(
            *right,
            right_precedence(op.kind),
        ),
        ExprKindModel::UnaryOp { op, operand } => plain(op.kind.spec_symbol()) + operand_text(
            *operand,
            op.kind.spec_precedence(),
        ),
        ExprKindModel::Tuple(exprs) => plain("("@) + elements_text(exprs, exprs.len()) + plain(
            if exprs.len() == 1 {
                ",)"@
            } else {
                ")"@
            },
        ),
        ExprKindModel::Integer(i) => plain(decimal(i as int)),
        ExprKindModel::Float(x) => seq![Glyph::Float(x)],
    }
}

/// The text of an operand that needs parentheses where its precedence is
/// below `prec`.
pub open spec fn operand_text<M>(expr: ExprModel<M>, prec: u8) -> Seq<Glyph>
    decreases expr, 2nat,
{
    if expr.kind.precedence() < prec {
        plain("("@) + expr_text(expr) + plain(")"@)
    } else {
        expr_text(expr)
    }
}

/// The text of the first `n` elements of a tuple, with `, ` between them.
pub open spec fn elements_text<M>(exprs: Seq<ExprModel<M>>, n: nat) -> Seq<Glyph>
    decreases exprs, n,
{
    if n == 0 || n > exprs.len() {
        Seq::empty()
    } else if n == 1 {
        expr_text(exprs[0])
    } else {
        elements_text(exprs, (n - 1) as nat) + plain(", "@) + expr_text(exprs[n - 1])
    }
}

/// The text of a statement.
pub open spec fn stmt_text<M>(stmt: StmtModel<M>) -> Seq<Glyph> {
    match stmt.kind {
        StmtKindModel::Assign { name, value } => plain(name.kind) + plain(" = "@) + expr_text(value)
            + plain(";"@),
        StmtKindModel::Print { expr } => plain("print "@) + expr_text(expr) + plain(";"@),
        StmtKindModel::Expr { expr } => expr_text(expr) + plain(";"@),
    }
}

/// The text of the first `n` statements of a program, one on each line.
pub open spec fn stmts_text<M>(stmts: Seq<StmtModel<M>>, n: nat) -> Seq<Glyph>
    decreases n,
{
    if n == 0 || n > stmts.len() {
        Seq::empty()
    } else {
        stmts_text(stmts, (n - 1) as nat) + stmt_text(stmts[n - 1]) + plain("\n"@)
    }
}

/// The text of a program.
pub open spec fn program_text<M>(stmts: Seq<StmtModel<M>>) -> Seq<Glyph> {
    stmts_text(stmts, stmts.len())
}

// =================================================================================================
// WRITING THE TEXT

/// Appends the text of an expression to `out`.
pub fn format_expr<M>(expr: &Expr<M>, out: &mut Text)
    ensures
        final(out)@ == old(out)@ + expr_text(expr.model()),
    decreases expr, 1nat,
{
    match &expr.kind {
        ExprKind::Variable(name) => {
            out.push_str(name.kind.as_str());
        },
        ExprKind::BinOp { op, left, right } => {
            format_operand(left, op.kind.precedence(), out);
            out.push_str(" ");
            out.push_str(op.kind.symbol());
            out.push_str(" ");
            format_operand(right, op.kind.precedence() + 1, out);
            assert(out@ =~= old(out)@ + expr_text(expr.model()));
        },
        ExprKind::UnaryOp { op, operand } => {
            out.push_str(op.kind.symbol());
            format_operand(operand, op.kind.precedence(), out);
            assert(out@ =~= old(out)@ + expr_text(expr.model()));
        },
        ExprKind::Tuple(exprs) => {
            proof {
                lemma_tuple_model(*exprs);
            }
            let ghost elements = exprs_model(exprs@);
            out.push_str("(");
            let mut i: usize = 0;
            assert(out@ =~= old(out)@ + plain("("@) + elements_text(elements, 0));
            while i < exprs.len()
                invariant
                    i <= exprs.len(),
                    expr.kind is Tuple,
                    expr.kind->Tuple_0 == *exprs,
                    elements == exprs_model(exprs@),
                    out@ == old(out)@ + plain("("@) + elements_text(elements, i as nat),
                decreases exprs.len() - i,
            {
                proof {
                    vstd::std_specs::vec::axiom_vec_index_decreases(*exprs, i as int);
                }
                let ghost before = out@;
                if i > 0 {
                    out.push_str(", ");
                }
                format_expr(&exprs[i], out);
                i += 1;
                assert(out@ =~= old(out)@ + plain("("@) + elements_text(elements, i as nat));
            }
            if exprs.len() == 1 {
                out.push_str(",)");
            } else {
                out.push_str(")");
            }
            assert(out@ =~= old(out)@ + expr_text(expr.model()));
        },
        ExprKind::Integer(i) => {
            out.push_decimal(*i);
        },
        ExprKind::Float(x) => {
            out.push_float(x.duplicate());
            assert(out@ =~= old(out)@ + expr_text(expr.model()));
        },
    }
}

/// Appends to `out` the text of an operand that needs parentheses where
/// its precedence is below `prec`.
fn format_operand<M>(expr: &Expr<M>, prec: u8, out: &mut Text)
    ensures
        final(out)@ == old(out)@ + operand_text(expr.model(), prec),
    decreases expr, 2nat,
{
    if expr.kind.precedence() < prec {
        out.push_str("(");
        format_expr(expr, out);
        out.push_str(")");
        assert(out@ =~= old(out)@ + operand_text(expr.model(), prec));
    } else {
        format_expr(expr, out);
    }
}

/// Appends the text of a statement to `out`.
pub fn format_stmt<M>(stmt: &Stmt<M>, out: &mut Text)
    ensures
        final(out)@ == old(out)@ + stmt_text(stmt.model()),
{
    match &stmt.kind {
        StmtKind::Assign { name, value } => {
            out.push_str(name.kind.as_str());
            out.push_str(" = ");
            format_expr(value, out);
            out.push_str(";");
        },
        StmtKind::Print { expr } => {
            out.push_str("print ");
            format_expr(expr, out);
            out.push_str(";");
        },
        StmtKind::Expr { expr } => {
            format_expr(expr, out);
            out.push_str(";");
        },
    }
    assert(out@ =~= old(out)@ + stmt_text(stmt.model()));
}

/// Appends the text of a program to `out`.
pub fn format<M>(input: &Ast<M>, out: &mut Text)
    ensures
        final(out)@ == old(out)@ + program_text(input.model()),
{
    let ghost program = input.model();
    let mut i: usize = 0;
    assert(out@ =~= old(out)@ + stmts_text(program, 0));
    while i < input.stmts.len()
        invariant
            i <= input.stmts.len(),
            program == input.model(),
            out@ == old(out)@ + stmts_text(program, i as nat),
        decreases input.stmts.len() - i,
    {
        format_stmt(&input.stmts[i], out);
        out.push_str("\n");
        i += 1;
        assert(out@ =~= old(out)@ + stmts_text(program, i as nat));
    }
}

} // verus!
