//! What the formatter writes, the parser reads back.
//!
//! [`expr_tokens`] says which tokens spell an expression: those of its text.
//! [`written_program_reads_back`] states that the parser reads from them the
//! tree that was written, up to its metadata.

use crate::data::ast::{
    stmt_expr, BinOpKind, ExprKindModel, ExprModel, StmtKindModel, StmtModel, UnaryOpKind,
};
use crate::data::float::{literal_text, FloatModel};
use crate::data::meta::Meta;
use crate::data::span::Span;
use crate::data::token::{TokenKindModel, TokenModel};
use crate::errors::ErrorModel;
use crate::pipeline::legible::{legible, legible_stmt, sound};
use crate::pipeline::formatter::right_precedence;
use crate::pipeline::parser::{
    assign_stmt_at, bin_op_of, climb, elements_at, expr_at, expr_stmt_at, factor_at, grouping_at,
    kind_at, left, lowest, operator_at, print_stmt_at, program_at, program_of, stmt_at, tail_at,
    term_at, tuple_at, unary_op_of,
};
use vstd::prelude::*;

verus! {

// =================================================================================================
// TREES WITHOUT METADATA

/// An expression without its metadata.
pub open spec fn bare<M>(expr: ExprModel<M>) -> ExprModel<()>
    decreases expr,
{
    Meta {
        kind: match expr.kind {
            ExprKindModel::Variable(name) => ExprKindModel::Variable(
                Meta { kind: name.kind, meta: () },
            ),
            ExprKindModel::BinOp { op, left, right } => ExprKindModel::BinOp {
                op: Meta { kind: op.kind, meta: () },
                left: Box::new(bare(*left)),
                right: Box::new(bare(*right)),
            },
            ExprKindModel::UnaryOp { op, operand } => ExprKindModel::UnaryOp {
                op: Meta { kind: op.kind, meta: () },
                operand: Box::new(bare(*operand)),
            },
            ExprKindModel::Tuple(exprs) => ExprKindModel::Tuple(
                Seq::new(
                    exprs.len(),
                    |i: int|
                        if 0 <= i < exprs.len() {
                            bare(exprs[i])
                        } else {
                            arbitrary()
                        },
                ),
            ),
            ExprKindModel::Integer(i) => ExprKindModel::Integer(i),
            ExprKindModel::Float(x) => ExprKindModel::Float(x),
        },
        meta: (),
    }
}

/// A statement without its metadata.
pub open spec fn bare_stmt<M>(stmt: StmtModel<M>) -> StmtModel<()> {
    Meta {
        kind: match stmt.kind {
            StmtKindModel::Assign { name, value } => StmtKindModel::Assign {
                name: Meta { kind: name.kind, meta: () },
                value: bare(value),
            },
            StmtKindModel::Print { expr } => StmtKindModel::Print { expr: bare(expr) },
            StmtKindModel::Expr { expr } => StmtKindModel::Expr { expr: bare(expr) },
        },
        meta: (),
    }
}

/// A program without its metadata.
pub open spec fn bare_program<M>(stmts: Seq<StmtModel<M>>) -> Seq<StmtModel<()>> {
    Seq::new(stmts.len(), |i: int| bare_stmt(stmts[i]))
}

// =================================================================================================
// THE TOKENS OF A TREE

/// The token of a binary operator.
pub open spec fn bin_op_token(op: BinOpKind) -> TokenKindModel {
    match op {
        BinOpKind::Add => TokenKindModel::Plus,
        BinOpKind::Sub => TokenKindModel::Minus,
        BinOpKind::Mul => TokenKindModel::Star,
        BinOpKind::Div => TokenKindModel::Slash,
    }
}

/// The token of a unary operator.
pub open spec fn unary_op_token(op: UnaryOpKind) -> TokenKindModel {
    match op {
        UnaryOpKind::Pos => TokenKindModel::Plus,
        UnaryOpKind::Neg => TokenKindModel::Minus,
    }
}

/// The tokens that spell an expression: those of its text.
pub open spec fn expr_tokens<M>(expr: ExprModel<M>) -> Seq<TokenKindModel>
    decreases expr, 1nat,
{
    match expr.kind {
        ExprKindModel::Variable(name) => seq![TokenKindModel::Name(name.kind)],
        ExprKindModel::Integer(i) => seq![TokenKindModel::Int(i)],
        ExprKindModel::Float(x) => seq![TokenKindModel::Float(literal_text(x))],
        ExprKindModel::UnaryOp { op, operand } => seq![unary_op_token(op.kind)] + operand_tokens(
            *operand,
            op.kind.spec_precedence(),
        ),
        ExprKindModel::BinOp { op, left, right } => operand_tokens(*left, op.kind.spec_precedence())
            + seq![bin_op_token(op.kind)] + operand_tokens(*right, right_precedence(op.kind)),
        ExprKindModel::Tuple(exprs) => seq![TokenKindModel::LParen] + elements_tokens(exprs, 0)
            + closing(exprs.len()),
    }
}

/// The tokens that end a tuple of `len` elements. A comma goes before the
/// parenthesis where there is one element.
pub open spec fn closing(len: nat) -> Seq<TokenKindModel> {
    if len == 1 {
        seq![TokenKindModel::Comma, TokenKindModel::RParen]
    } else {
        seq![TokenKindModel::RParen]
    }
}

/// The tokens that spell an operand that needs parentheses where its
/// precedence is below `prec`.
pub open spec fn operand_tokens<M>(expr: ExprModel<M>, prec: u8) -> Seq<TokenKindModel>
    decreases expr, 2nat,
{
    if expr.kind.precedence() < prec {
        seq![TokenKindModel::LParen] + expr_tokens(expr) + seq![TokenKindModel::RParen]
    } else {
        expr_tokens(expr)
    }
}

/// The tokens that spell the elements `exprs[from..]` of a tuple, with the
/// commas between them.
pub open spec fn elements_tokens<M>(exprs: Seq<ExprModel<M>>, from: int) -> Seq<TokenKindModel>
    decreases exprs, exprs.len() - from,
{
    if from < 0 || from >= exprs.len() {
        Seq::empty()
    } else if from == exprs.len() - 1 {
        expr_tokens(exprs[from])
    } else {
        expr_tokens(exprs[from]) + seq![TokenKindModel::Comma] + elements_tokens(exprs, from + 1)
    }
}

/// The tokens that spell a statement.
pub open spec fn stmt_tokens<M>(stmt: StmtModel<M>) -> Seq<TokenKindModel> {
    match stmt.kind {
        StmtKindModel::Assign { name, value } => seq![
            TokenKindModel::Name(name.kind),
            TokenKindModel::Assign,
        ] + expr_tokens(value) + seq![TokenKindModel::Semi],
        StmtKindModel::Print { expr } => seq![TokenKindModel::Print] + expr_tokens(expr)
            + seq![TokenKindModel::Semi],
        StmtKindModel::Expr { expr } => expr_tokens(expr) + seq![TokenKindModel::Semi],
    }
}

/// The tokens that spell the statements `stmts[from..]`.
pub open spec fn program_tokens<M>(stmts: Seq<StmtModel<M>>, from: int) -> Seq<TokenKindModel>
    decreases stmts.len() - from,
{
    if from < 0 || from >= stmts.len() {
        Seq::empty()
    } else {
        stmt_tokens(stmts[from]) + program_tokens(stmts, from + 1)
    }
}

/// Whether an expression is as the parser yields them: its
/// floating-point numbers are literals and its tuples have elements. The text
/// of such an expression can be read back.
pub open spec fn plain<M>(expr: ExprModel<M>) -> bool
    decreases expr,
{
    match expr.kind {
        ExprKindModel::Float(x) => x is Literal,
        ExprKindModel::BinOp { left, right, .. } => plain(*left) && plain(*right),
        ExprKindModel::UnaryOp { operand, .. } => plain(*operand),
        ExprKindModel::Tuple(exprs) => {
            &&& exprs.len() > 0
            &&& forall|i: int| 0 <= i < exprs.len() ==> plain(#[trigger] exprs[i])
        },
        _ => true,
    }
}

/// The kinds of a sequence of tokens.
pub open spec fn kinds(tokens: Seq<TokenModel>) -> Seq<TokenKindModel> {
    Seq::new(tokens.len(), |i: int| tokens[i].kind)
}

/// Whether the tokens from `pos` on are of the kinds `want`.
pub open spec fn spells(tokens: Seq<TokenModel>, pos: int, want: Seq<TokenKindModel>) -> bool {
    &&& 0 <= pos
    &&& pos + want.len() <= tokens.len()
    &&& kinds(tokens).subrange(pos, pos + want.len()) == want
}

/// Whether a term of the operators of precedence `prec` ends before
/// `pos`: no operator of that precedence or a higher one stands there.
pub open spec fn ends_term(tokens: Seq<TokenModel>, pos: int, prec: u8) -> bool {
    match kind_at(tokens, pos) {
        Some(kind) => match bin_op_of(kind) {
            Some(op) => op.spec_precedence() < prec,
            None => true,
        },
        None => true,
    }
}

/// The precedence with which an expression is read: its own, or that of a
/// factor.
pub open spec fn level<M>(expr: ExprModel<M>) -> u8 {
    if expr.kind.precedence() < 6 {
        expr.kind.precedence()
    } else {
        6
    }
}

/// Whether a token can start an expression.
pub open spec fn starts_expr(kind: TokenKindModel) -> bool {
    ||| kind is Name
    ||| kind is Int
    ||| kind is Float
    ||| kind is LParen
    ||| kind is Plus
    ||| kind is Minus
}

// =================================================================================================
// READING BACK

/// Tokens that spell two things spell the first, and behind it the second.
pub proof fn lemma_spells_split(
    tokens: Seq<TokenModel>,
    pos: int,
    a: Seq<TokenKindModel>,
    b: Seq<TokenKindModel>,
)
    requires
        spells(tokens, pos, a + b),
    ensures
        spells(tokens, pos, a),
        spells(tokens, pos + a.len(), b),
{
    let all = kinds(tokens).subrange(pos, pos + (a + b).len());
    assert(kinds(tokens).subrange(pos, pos + a.len()) =~= all.subrange(0, a.len() as int));
    assert((a + b).subrange(0, a.len() as int) =~= a);
    assert(kinds(tokens).subrange(pos + a.len(), pos + a.len() + b.len()) =~= all.subrange(
        a.len() as int,
        (a + b).len() as int,
    ));
    assert((a + b).subrange(a.len() as int, (a + b).len() as int) =~= b);
}

/// Where tokens spell something, the first of them is the first of it.
pub proof fn lemma_spells_first(tokens: Seq<TokenModel>, pos: int, want: Seq<TokenKindModel>)
    requires
        spells(tokens, pos, want),
        want.len() > 0,
    ensures
        kind_at(tokens, pos) == Some(want[0]),
{
    assert(kinds(tokens).subrange(pos, pos + want.len())[0] == want[0]);
}

/// An expression starts with a token that can start one.
pub proof fn lemma_first_token<M>(expr: ExprModel<M>)
    ensures
        expr_tokens(expr).len() > 0,
        starts_expr(expr_tokens(expr)[0]),
    decreases expr,
{
    match expr.kind {
        ExprKindModel::BinOp { op, left, right } => {
            lemma_first_token(*left);
        },
        _ => {},
    }
}

/// A term that has been read with some precedence is read the same with a
/// lower one, if no operator follows that binds as loosely.
pub proof fn lemma_looser(
    tokens: Seq<TokenModel>,
    pos: int,
    from: u8,
    to: u8,
    read: ExprModel<Span>,
    n: nat,
)
    requires
        to <= from,
        term_at(tokens, pos, from) == Ok::<_, ErrorModel>((read, n)),
        ends_term(tokens, pos + n, to),
    ensures
        term_at(tokens, pos, to) == Ok::<_, ErrorModel>((read, n)),
    decreases from - to,
{
    if to < from {
        if to < 6 {
            lemma_looser(tokens, pos, from, (to + 1) as u8, read, n);
            assert(operator_at(tokens, pos + n, to) is None);
            assert(tail_at(tokens, pos, pos + n, read, to) == Ok::<_, ErrorModel>(
                (read, n),
            ));
            assert(term_at(tokens, pos, to) == tail_at(tokens, pos, pos + n, read, to));
        } else {
            assert(term_at(tokens, pos, to) == factor_at(tokens, pos));
            assert(term_at(tokens, pos, from) == factor_at(tokens, pos));
        }
    }
}

/// What the parser made of `expr`: it read `read`, the same tree up to
/// its metadata, from the `n` tokens of `want`.
pub open spec fn read_back<M>(
    result: Result<(ExprModel<Span>, nat), ErrorModel>,
    read: ExprModel<Span>,
    expr: ExprModel<M>,
    want: Seq<TokenKindModel>,
) -> bool {
    &&& result == Ok::<_, ErrorModel>((read, want.len()))
    &&& bare(read) == bare(expr)
}

/// An operand is read back with the precedence of an operand.
pub proof fn lemma_reads_operand<M>(
    expr: ExprModel<M>,
    tokens: Seq<TokenModel>,
    pos: int,
    prec: u8,
) -> (read: ExprModel<Span>)
    requires
        plain(expr),
        4 <= prec <= 6,
        spells(tokens, pos, operand_tokens(expr, prec)),
        ends_term(tokens, pos + operand_tokens(expr, prec).len(), prec),
    ensures
        read_back(term_at(tokens, pos, prec), read, expr, operand_tokens(expr, prec)),
    decreases expr, 4nat, 0nat,
{
    if expr.kind.precedence() < prec {
        let inner = expr_tokens(expr);
        let n = inner.len();
        lemma_spells_split(
            tokens,
            pos,
            seq![TokenKindModel::LParen] + inner,
            seq![TokenKindModel::RParen],
        );
        lemma_spells_split(tokens, pos, seq![TokenKindModel::LParen], inner);
        lemma_spells_first(tokens, pos, seq![TokenKindModel::LParen]);
        lemma_spells_first(tokens, pos + 1 + n, seq![TokenKindModel::RParen]);
        let read = lemma_reads_at(expr, tokens, pos + 1, 4);
        assert(grouping_at(tokens, pos) == Ok::<_, ErrorModel>((read, n + 2)));
        assert(factor_at(tokens, pos) == Ok::<_, ErrorModel>((read, n + 2)));
        assert(term_at(tokens, pos, 6) == factor_at(tokens, pos));
        lemma_looser(tokens, pos, 6, prec, read, n + 2);
        read
    } else {
        lemma_reads_at(expr, tokens, pos, prec)
    }
}

/// An expression is read back with any precedence up to its own.
pub proof fn lemma_reads_at<M>(expr: ExprModel<M>, tokens: Seq<TokenModel>, pos: int, prec: u8) -> (read:
    ExprModel<Span>)
    requires
        plain(expr),
        prec <= level(expr),
        spells(tokens, pos, expr_tokens(expr)),
        ends_term(tokens, pos + expr_tokens(expr).len(), prec),
    ensures
        read_back(term_at(tokens, pos, prec), read, expr, expr_tokens(expr)),
    decreases expr, 3nat, 0nat,
{
    let read = lemma_reads_expr(expr, tokens, pos);
    lemma_looser(tokens, pos, level(expr), prec, read, expr_tokens(expr).len());
    read
}

/// An expression is read back with its own precedence.
pub proof fn lemma_reads_expr<M>(expr: ExprModel<M>, tokens: Seq<TokenModel>, pos: int) -> (read:
    ExprModel<Span>)
    requires
        plain(expr),
        spells(tokens, pos, expr_tokens(expr)),
        ends_term(tokens, pos + expr_tokens(expr).len(), level(expr)),
    ensures
        read_back(term_at(tokens, pos, level(expr)), read, expr, expr_tokens(expr)),
    decreases expr, 2nat, 0nat,
{
    let want = expr_tokens(expr);
    match expr.kind {
        ExprKindModel::Variable(name) => {
            lemma_spells_first(tokens, pos, want);
            let read = Meta {
                kind: ExprKindModel::Variable(Meta { kind: name.kind, meta: tokens[pos].meta }),
                meta: tokens[pos].meta,
            };
            assert(factor_at(tokens, pos) == Ok::<_, ErrorModel>((read, 1nat)));
            assert(term_at(tokens, pos, 6) == factor_at(tokens, pos));
            read
        },
        ExprKindModel::Integer(i) => {
            lemma_spells_first(tokens, pos, want);
            let read = Meta { kind: ExprKindModel::Integer(i), meta: tokens[pos].meta };
            assert(factor_at(tokens, pos) == Ok::<_, ErrorModel>((read, 1nat)));
            assert(term_at(tokens, pos, 6) == factor_at(tokens, pos));
            read
        },
        ExprKindModel::Float(x) => {
            lemma_spells_first(tokens, pos, want);
            let read = Meta { kind: ExprKindModel::Float(x), meta: tokens[pos].meta };
            assert(factor_at(tokens, pos) == Ok::<_, ErrorModel>((read, 1nat)));
            assert(term_at(tokens, pos, 6) == factor_at(tokens, pos));
            read
        },
        ExprKindModel::UnaryOp { op, operand } => {
            let rest = operand_tokens(*operand, 6);
            lemma_spells_split(tokens, pos, seq![unary_op_token(op.kind)], rest);
            lemma_spells_first(tokens, pos, seq![unary_op_token(op.kind)]);
            let inner = lemma_reads_operand(*operand, tokens, pos + 1, 6);
            assert(term_at(tokens, pos + 1, 6) == factor_at(tokens, pos + 1));
            let read = crate::pipeline::parser::unary(
                Meta { kind: op.kind, meta: tokens[pos].meta },
                inner,
                crate::pipeline::parser::span_over(tokens, pos, pos + 1 + rest.len()),
            );
            assert(unary_op_of(unary_op_token(op.kind)) == Some(op.kind));
            assert(factor_at(tokens, pos) == Ok::<_, ErrorModel>((read, 1 + rest.len())));
            assert(term_at(tokens, pos, 6) == factor_at(tokens, pos));
            read
        },
        ExprKindModel::BinOp { op, left, right } => {
            let read = lemma_reads_chain(expr, tokens, pos);
            assert(operator_at(tokens, pos + want.len(), op.kind.spec_precedence()) is None);
            assert(tail_at(tokens, pos, pos + want.len(), read, op.kind.spec_precedence()) == Ok::<
                _,
                ErrorModel,
            >((read, want.len())));
            read
        },
        ExprKindModel::Tuple(exprs) => {
            let elements = elements_tokens(exprs, 0);
            let close = closing(exprs.len());
            assert(want == (seq![TokenKindModel::LParen] + elements) + close);
            assert(want =~= seq![TokenKindModel::LParen] + (elements + close));
            lemma_spells_split(tokens, pos, seq![TokenKindModel::LParen], elements + close);
            lemma_spells_first(tokens, pos, seq![TokenKindModel::LParen]);
            // the tuple is no parenthesized expression: a comma follows the
            // first element
            lemma_tuple_is_no_grouping(exprs, tokens, pos);
            let (reads, m) = lemma_reads_elements(exprs, 0, tokens, pos + 1);
            lemma_spells_split(tokens, pos + 1, elements, close);
            assert(kind_at(tokens, pos + 1 + m) == Some(TokenKindModel::RParen)) by {
                if exprs.len() == 1 {
                    assert(close =~= seq![TokenKindModel::Comma] + seq![TokenKindModel::RParen]);
                    lemma_spells_split(
                        tokens,
                        pos + 1 + elements.len(),
                        seq![TokenKindModel::Comma],
                        seq![TokenKindModel::RParen],
                    );
                    lemma_spells_first(tokens, pos + 1 + m, seq![TokenKindModel::RParen]);
                } else {
                    lemma_spells_first(tokens, pos + 1 + m, close);
                }
            }
            let read = Meta {
                kind: ExprKindModel::Tuple(reads),
                meta: crate::pipeline::parser::span_over(tokens, pos, pos + m + 2),
            };
            assert(tuple_at(tokens, pos) == Ok::<_, ErrorModel>((read, m + 2)));
            assert(factor_at(tokens, pos) == Ok::<_, ErrorModel>((read, m + 2)));
            assert(term_at(tokens, pos, 6) == factor_at(tokens, pos));
            assert(bare(read).kind->Tuple_0 =~= bare(expr).kind->Tuple_0);
            read
        },
    }
}

/// A tuple is not read as a parenthesized expression.
pub proof fn lemma_tuple_is_no_grouping<M>(
    exprs: Seq<ExprModel<M>>,
    tokens: Seq<TokenModel>,
    pos: int,
)
    requires
        exprs.len() > 0,
        forall|i: int| 0 <= i < exprs.len() ==> plain(#[trigger] exprs[i]),
        kind_at(tokens, pos) == Some(TokenKindModel::LParen),
        spells(tokens, pos + 1, elements_tokens(exprs, 0) + closing(exprs.len())),
    ensures
        grouping_at(tokens, pos) is Err,
    decreases exprs, 0nat, exprs.len() + 1,
{
    let first = expr_tokens(exprs[0]);
    let behind = if exprs.len() == 1 {
        closing(1)
    } else {
        seq![TokenKindModel::Comma] + elements_tokens(exprs, 1) + closing(exprs.len())
    };
    assert(elements_tokens(exprs, 0) + closing(exprs.len()) =~= first + behind);
    lemma_spells_split(tokens, pos + 1, first, behind);
    lemma_spells_first(tokens, pos + 1 + first.len(), behind);
    assert(plain(exprs[0]));
    let read = lemma_reads_at(exprs[0], tokens, pos + 1, 4);
    assert(kind_at(tokens, pos + 1 + first.len()) == Some(TokenKindModel::Comma));
}

/// The elements of a tuple are read back, one after the other.
pub proof fn lemma_reads_elements<M>(
    exprs: Seq<ExprModel<M>>,
    from: int,
    tokens: Seq<TokenModel>,
    pos: int,
) -> (result: (Seq<ExprModel<Span>>, nat))
    requires
        0 <= from < exprs.len(),
        forall|i: int| 0 <= i < exprs.len() ==> plain(#[trigger] exprs[i]),
        spells(tokens, pos, elements_tokens(exprs, from) + closing(exprs.len())),
    ensures
        elements_at(tokens, pos) == Ok::<_, ErrorModel>(result),
        result.1 == elements_tokens(exprs, from).len() + closing(exprs.len()).len() - 1,
        result.0.len() == exprs.len() - from,
        forall|j: int|
            0 <= j < exprs.len() - from ==> bare(#[trigger] result.0[j]) == bare(exprs[from + j]),
    decreases exprs, 0nat, exprs.len() - from,
{
    let first = expr_tokens(exprs[from]);
    let close = closing(exprs.len());
    assert(plain(exprs[from]));
    if from == exprs.len() - 1 {
        lemma_spells_split(tokens, pos, first, close);
        lemma_spells_first(tokens, pos + first.len(), close);
        let read = lemma_reads_at(exprs[from], tokens, pos, 4);
        if exprs.len() == 1 {
            assert(close =~= seq![TokenKindModel::Comma] + seq![TokenKindModel::RParen]);
            lemma_spells_split(
                tokens,
                pos + first.len(),
                seq![TokenKindModel::Comma],
                seq![TokenKindModel::RParen],
            );
            lemma_spells_first(tokens, pos + first.len() + 1, seq![TokenKindModel::RParen]);
        }
        (seq![read], (first.len() + close.len() - 1) as nat)
    } else {
        let rest = elements_tokens(exprs, from + 1);
        let behind = seq![TokenKindModel::Comma] + (rest + close);
        assert(elements_tokens(exprs, from) + close =~= first + behind);
        lemma_spells_split(tokens, pos, first, behind);
        lemma_spells_first(tokens, pos + first.len(), behind);
        lemma_spells_split(tokens, pos + first.len(), seq![TokenKindModel::Comma], rest + close);
        let read = lemma_reads_at(exprs[from], tokens, pos, 4);
        lemma_first_token(exprs[from + 1]);
        assert((rest + close)[0] == expr_tokens(exprs[from + 1])[0]);
        lemma_spells_first(tokens, pos + first.len() + 1, rest + close);
        let (reads, m) = lemma_reads_elements(exprs, from + 1, tokens, pos + first.len() + 1);
        let all = seq![read] + reads;
        assert forall|j: int| 0 <= j < exprs.len() - from implies bare(#[trigger] all[j]) == bare(
            exprs[from + j],
        ) by {
            if j > 0 {
                assert(all[j] == reads[j - 1]);
            }
        }
        (all, first.len() + 1 + m)
    }
}

/// A chain of operators of one precedence is read back up to its end:
/// what follows is read as if the chain had been read as one left operand.
pub proof fn lemma_reads_chain<M>(expr: ExprModel<M>, tokens: Seq<TokenModel>, pos: int) -> (read:
    ExprModel<Span>)
    requires
        expr.kind is BinOp,
        plain(expr),
        spells(tokens, pos, expr_tokens(expr)),
        ends_term(tokens, pos + expr_tokens(expr).len(), (level(expr) + 1) as u8),
    ensures
        term_at(tokens, pos, level(expr)) == tail_at(
            tokens,
            pos,
            pos + expr_tokens(expr).len(),
            read,
            level(expr),
        ),
        bare(read) == bare(expr),
    decreases expr, 1nat, 0nat,
{
    let op = expr.kind->BinOp_op;
    let left = *expr.kind->left;
    let right = *expr.kind->right;
    let prec = op.kind.spec_precedence();
    let next = (prec + 1) as u8;
    let l_tokens = operand_tokens(left, prec);
    let r_tokens = operand_tokens(right, next);
    let op_token = seq![bin_op_token(op.kind)];
    assert(expr_tokens(expr) =~= l_tokens + (op_token + r_tokens));
    lemma_spells_split(tokens, pos, l_tokens, op_token + r_tokens);
    lemma_spells_split(tokens, pos + l_tokens.len(), op_token, r_tokens);
    lemma_spells_first(tokens, pos + l_tokens.len(), op_token);
    let at_op = pos + l_tokens.len();
    assert(operator_at(tokens, at_op, prec) == Some(op.kind));
    let l = if left.kind.precedence() == prec {
        lemma_reads_chain(left, tokens, pos)
    } else {
        assert(operand_tokens(left, next) == l_tokens);
        let l = lemma_reads_operand(left, tokens, pos, next);
        assert(term_at(tokens, pos, prec) == tail_at(tokens, pos, at_op, l, prec));
        l
    };
    let r = lemma_reads_operand(right, tokens, at_op + 1, next);
    let read = crate::pipeline::parser::binary(
        Meta { kind: op.kind, meta: tokens[at_op].meta },
        l,
        r,
        crate::pipeline::parser::span_over(tokens, pos, at_op + 1 + r_tokens.len()),
    );
    assert(tail_at(tokens, pos, at_op, l, prec) == tail_at(
        tokens,
        pos,
        at_op + 1 + r_tokens.len(),
        read,
        prec,
    ));
    read
}

/// Whether a token can stand in an expression.
pub open spec fn stands_in_expr(kind: TokenKindModel) -> bool {
    !(kind is Assign || kind is Semi || kind is Print)
}

/// Every token of an expression can stand in one.
pub proof fn lemma_expr_tokens<M>(expr: ExprModel<M>, i: int)
    requires
        0 <= i < expr_tokens(expr).len(),
    ensures
        stands_in_expr(expr_tokens(expr)[i]),
    decreases expr, 1nat, 0nat,
{
    match expr.kind {
        ExprKindModel::UnaryOp { op, operand } => {
            if i > 0 {
                lemma_operand_tokens(*operand, op.kind.spec_precedence(), i - 1);
            }
        },
        ExprKindModel::BinOp { op, left, right } => {
            let l = operand_tokens(*left, op.kind.spec_precedence());
            if i < l.len() {
                lemma_operand_tokens(*left, op.kind.spec_precedence(), i);
            } else if i > l.len() {
                lemma_operand_tokens(*right, right_precedence(op.kind), i - l.len() - 1);
            }
        },
        ExprKindModel::Tuple(exprs) => {
            let elements = elements_tokens(exprs, 0);
            if 1 <= i < 1 + elements.len() {
                lemma_elements_tokens(exprs, 0, i - 1);
            }
        },
        _ => {},
    }
}

/// Every token of an operand can stand in an expression.
pub proof fn lemma_operand_tokens<M>(expr: ExprModel<M>, prec: u8, i: int)
    requires
        0 <= i < operand_tokens(expr, prec).len(),
    ensures
        stands_in_expr(operand_tokens(expr, prec)[i]),
    decreases expr, 2nat, 0nat,
{
    if expr.kind.precedence() < prec {
        if 1 <= i < 1 + expr_tokens(expr).len() {
            lemma_expr_tokens(expr, i - 1);
        }
    } else {
        lemma_expr_tokens(expr, i);
    }
}

/// Every token of the elements of a tuple can stand in an expression.
pub proof fn lemma_elements_tokens<M>(exprs: Seq<ExprModel<M>>, from: int, i: int)
    requires
        0 <= i < elements_tokens(exprs, from).len(),
    ensures
        stands_in_expr(elements_tokens(exprs, from)[i]),
    decreases exprs, 0nat, exprs.len() - from,
{
    if 0 <= from < exprs.len() {
        let first = expr_tokens(exprs[from]);
        if i < first.len() {
            lemma_expr_tokens(exprs[from], i);
        } else if from < exprs.len() - 1 && i > first.len() {
            lemma_elements_tokens(exprs, from + 1, i - first.len() - 1);
        }
    }
}

/// What the parser made of `stmt`: it read `read`, the same statement up
/// to its metadata, from its tokens.
pub open spec fn stmt_read_back<M>(
    result: Result<(StmtModel<Span>, nat), ErrorModel>,
    read: StmtModel<Span>,
    stmt: StmtModel<M>,
) -> bool {
    &&& result == Ok::<_, ErrorModel>((read, stmt_tokens(stmt).len()))
    &&& bare_stmt(read) == bare_stmt(stmt)
}

/// A statement is read back.
pub proof fn lemma_reads_stmt<M>(stmt: StmtModel<M>, tokens: Seq<TokenModel>, pos: int) -> (read:
    StmtModel<Span>)
    requires
        plain_stmt(stmt),
        spells(tokens, pos, stmt_tokens(stmt)),
    ensures
        stmt_read_back(stmt_at(tokens, pos), read, stmt),
{
    let semi = seq![TokenKindModel::Semi];
    match stmt.kind {
        StmtKindModel::Print { expr } => {
            let e = expr_tokens(expr);
            let n = e.len();
            assert(stmt_tokens(stmt) =~= seq![TokenKindModel::Print] + (e + semi));
            lemma_spells_split(tokens, pos, seq![TokenKindModel::Print], e + semi);
            lemma_spells_first(tokens, pos, seq![TokenKindModel::Print]);
            lemma_spells_split(tokens, pos + 1, e, semi);
            lemma_spells_first(tokens, pos + 1 + n, semi);
            let value = lemma_reads_at(expr, tokens, pos + 1, 4);
            let read = Meta {
                kind: StmtKindModel::Print { expr: value },
                meta: crate::pipeline::parser::span_over(tokens, pos, pos + n + 2),
            };
            assert(expr_at(tokens, pos + 1) == Ok::<_, ErrorModel>((value, n)));
            assert(print_stmt_at(tokens, pos) == Ok::<_, ErrorModel>((read, n + 2)));
            read
        },
        StmtKindModel::Assign { name, value } => {
            let e = expr_tokens(value);
            let n = e.len();
            let head = seq![TokenKindModel::Name(name.kind), TokenKindModel::Assign];
            assert(stmt_tokens(stmt) =~= head + (e + semi));
            lemma_spells_split(tokens, pos, head, e + semi);
            assert(head =~= seq![TokenKindModel::Name(name.kind)] + seq![TokenKindModel::Assign]);
            lemma_spells_split(
                tokens,
                pos,
                seq![TokenKindModel::Name(name.kind)],
                seq![TokenKindModel::Assign],
            );
            lemma_spells_first(tokens, pos, seq![TokenKindModel::Name(name.kind)]);
            lemma_spells_first(tokens, pos + 1, seq![TokenKindModel::Assign]);
            lemma_spells_split(tokens, pos + 2, e, semi);
            lemma_spells_first(tokens, pos + 2 + n, semi);
            let v = lemma_reads_at(value, tokens, pos + 2, 4);
            let read = Meta {
                kind: StmtKindModel::Assign {
                    name: Meta { kind: name.kind, meta: tokens[pos].meta },
                    value: v,
                },
                meta: crate::pipeline::parser::span_over(tokens, pos, pos + n + 3),
            };
            assert(expr_at(tokens, pos + 2) == Ok::<_, ErrorModel>((v, n)));
            assert(assign_stmt_at(tokens, pos) == Ok::<_, ErrorModel>((read, n + 3)));
            read
        },
        StmtKindModel::Expr { expr } => {
            let e = expr_tokens(expr);
            let n = e.len();
            lemma_first_token(expr);
            lemma_spells_split(tokens, pos, e, semi);
            lemma_spells_first(tokens, pos, e);
            lemma_spells_first(tokens, pos + n, semi);
            let value = lemma_reads_at(expr, tokens, pos, 4);
            let read = Meta {
                kind: StmtKindModel::Expr { expr: value },
                meta: crate::pipeline::parser::span_over(tokens, pos, pos + n + 1),
            };
            assert(expr_at(tokens, pos) == Ok::<_, ErrorModel>((value, n)));
            assert(expr_stmt_at(tokens, pos) == Ok::<_, ErrorModel>((read, n + 1)));
            // no expression has `=` for its second token
            assert(kind_at(tokens, pos + 1) != Some(TokenKindModel::Assign)) by {
                if n > 1 {
                    lemma_expr_tokens(expr, 1);
                    assert(kinds(tokens).subrange(pos, pos + n)[1] == e[1]);
                }
            }
            assert(assign_stmt_at(tokens, pos) is Err);
            read
        },
    }
}

/// The statements of a program are read back, one after the other.
pub proof fn lemma_reads_program<M>(
    stmts: Seq<StmtModel<M>>,
    from: int,
    tokens: Seq<TokenModel>,
    pos: int,
) -> (reads: Seq<StmtModel<Span>>)
    requires
        0 <= from <= stmts.len(),
        forall|i: int| 0 <= i < stmts.len() ==> plain_stmt(#[trigger] stmts[i]),
        spells(tokens, pos, program_tokens(stmts, from)),
        pos + program_tokens(stmts, from).len() == tokens.len(),
    ensures
        program_at(tokens, pos) == Ok::<_, ErrorModel>(reads),
        reads.len() == stmts.len() - from,
        forall|j: int|
            0 <= j < stmts.len() - from ==> bare_stmt(#[trigger] reads[j]) == bare_stmt(
                stmts[from + j],
            ),
    decreases stmts.len() - from,
{
    if from == stmts.len() {
        Seq::empty()
    } else {
        let first = stmt_tokens(stmts[from]);
        let rest = program_tokens(stmts, from + 1);
        assert(plain_stmt(stmts[from]));
        lemma_spells_split(tokens, pos, first, rest);
        let read = lemma_reads_stmt(stmts[from], tokens, pos);
        let reads = lemma_reads_program(stmts, from + 1, tokens, pos + first.len());
        let all = seq![read] + reads;
        assert forall|j: int| 0 <= j < stmts.len() - from implies bare_stmt(#[trigger] all[j])
            == bare_stmt(stmts[from + j]) by {
            if j > 0 {
                assert(all[j] == reads[j - 1]);
            }
        }
        all
    }
}

/// The program that the parser reads from the tokens of a program is that
/// program, up to the metadata, whenever the program is plain.
pub proof fn written_program_reads_back<M>(stmts: Seq<StmtModel<M>>, tokens: Seq<TokenModel>)
    requires
        forall|i: int| 0 <= i < stmts.len() ==> plain_stmt(#[trigger] stmts[i]),
        kinds(tokens) == program_tokens(stmts, 0),
    ensures
        program_of(tokens) is Ok,
        bare_program(program_of(tokens)->Ok_0) == bare_program(stmts),
{
    assert(kinds(tokens).subrange(0, tokens.len() as int) =~= kinds(tokens));
    let reads = lemma_reads_program(stmts, 0, tokens, 0);
    assert(bare_program(reads) =~= bare_program(stmts));
}

// =================================================================================================
// WHAT THE PARSER YIELDS

/// Whether a statement is as the parser yields them.
pub open spec fn plain_stmt<M>(stmt: StmtModel<M>) -> bool {
    plain(stmt_expr(stmt))
}

/// Whether every token is as the tokenizer yields them.
pub open spec fn sound_tokens(tokens: Seq<TokenModel>) -> bool {
    forall|i: int| 0 <= i < tokens.len() ==> sound(#[trigger] tokens[i].kind)
}

/// The parser yields plain expressions, which are legible if the tokens
/// are sound.
pub proof fn lemma_term_is_plain(tokens: Seq<TokenModel>, pos: int, prec: u8)
    requires
        term_at(tokens, pos, prec) is Ok,
    ensures
        plain(term_at(tokens, pos, prec)->Ok_0.0),
        sound_tokens(tokens) ==> legible(term_at(tokens, pos, prec)->Ok_0.0),
    decreases left(tokens, pos), climb(prec), 2nat,
{
    if prec >= 6 {
        lemma_factor_is_plain(tokens, pos);
    } else {
        lemma_term_is_plain(tokens, pos, (prec + 1) as u8);
        let (first, n) = term_at(tokens, pos, (prec + 1) as u8)->Ok_0;
        lemma_tail_is_plain(tokens, pos, pos + n, first, prec);
    }
}

/// The parser yields plain expressions, which are legible if the tokens
/// are sound.
pub proof fn lemma_tail_is_plain(
    tokens: Seq<TokenModel>,
    start: int,
    pos: int,
    lhs: ExprModel<Span>,
    prec: u8,
)
    requires
        plain(lhs),
        sound_tokens(tokens) ==> legible(lhs),
        tail_at(tokens, start, pos, lhs, prec) is Ok,
    ensures
        plain(tail_at(tokens, start, pos, lhs, prec)->Ok_0.0),
        sound_tokens(tokens) ==> legible(tail_at(tokens, start, pos, lhs, prec)->Ok_0.0),
    decreases left(tokens, pos), climb(prec), 1nat,
{
    if let Some(op) = operator_at(tokens, pos, prec) {
        lemma_term_is_plain(tokens, pos + 1, (prec + 1) as u8);
        let (rhs, n) = term_at(tokens, pos + 1, (prec + 1) as u8)->Ok_0;
        lemma_tail_is_plain(
            tokens,
            start,
            pos + 1 + n,
            crate::pipeline::parser::binary(
                Meta { kind: op, meta: tokens[pos].meta },
                lhs,
                rhs,
                crate::pipeline::parser::span_over(tokens, start, pos + 1 + n),
            ),
            prec,
        );
    }
}

/// The parser yields plain expressions, which are legible if the tokens
/// are sound.
pub proof fn lemma_factor_is_plain(tokens: Seq<TokenModel>, pos: int)
    requires
        factor_at(tokens, pos) is Ok,
    ensures
        plain(factor_at(tokens, pos)->Ok_0.0),
        sound_tokens(tokens) ==> legible(factor_at(tokens, pos)->Ok_0.0),
    decreases left(tokens, pos), 0nat, 1nat,
{
    match kind_at(tokens, pos) {
        Some(TokenKindModel::LParen) => {
            if grouping_at(tokens, pos) is Ok {
                assert(factor_at(tokens, pos) == grouping_at(tokens, pos));
                assert(term_at(tokens, pos + 1, lowest()) is Ok);
                lemma_term_is_plain(tokens, pos + 1, lowest());
            } else {
                assert(factor_at(tokens, pos) == tuple_at(tokens, pos));
                assert(elements_at(tokens, pos + 1) is Ok);
                lemma_elements_are_plain(tokens, pos + 1);
            }
        },
        Some(TokenKindModel::Int(_)) => {
            assert(sound_tokens(tokens) ==> sound(tokens[pos].kind));
        },
        Some(TokenKindModel::Float(_)) => {
            assert(sound_tokens(tokens) ==> sound(tokens[pos].kind));
        },
        Some(TokenKindModel::Name(_)) => {
            assert(sound_tokens(tokens) ==> sound(tokens[pos].kind));
        },
        Some(kind) => {
            if unary_op_of(kind) is Some {
                lemma_factor_is_plain(tokens, pos + 1);
            }
        },
        None => {},
    }
}

/// The parser yields tuples that have elements, which are plain.
pub proof fn lemma_elements_are_plain(tokens: Seq<TokenModel>, pos: int)
    requires
        elements_at(tokens, pos) is Ok,
    ensures
        elements_at(tokens, pos)->Ok_0.0.len() > 0,
        forall|i: int|
            0 <= i < elements_at(tokens, pos)->Ok_0.0.len() ==> plain(
                #[trigger] elements_at(tokens, pos)->Ok_0.0[i],
            ),
        sound_tokens(tokens) ==> forall|i: int|
            0 <= i < elements_at(tokens, pos)->Ok_0.0.len() ==> legible(
                #[trigger] elements_at(tokens, pos)->Ok_0.0[i],
            ),
    decreases left(tokens, pos), 3nat, 0nat,
{
    lemma_term_is_plain(tokens, pos, lowest());
    let (first, n) = term_at(tokens, pos, lowest())->Ok_0;
    if kind_at(tokens, pos + n) == Some(TokenKindModel::Comma) && kind_at(tokens, pos + n + 1)
        != Some(TokenKindModel::RParen) {
        lemma_elements_are_plain(tokens, pos + n + 1);
        let rest = elements_at(tokens, pos + n + 1)->Ok_0.0;
        let all = seq![first] + rest;
        assert forall|i: int| 0 <= i < all.len() implies plain(#[trigger] all[i]) by {
            if i > 0 {
                assert(all[i] == rest[i - 1]);
            }
        }
        if sound_tokens(tokens) {
            assert forall|i: int| 0 <= i < all.len() implies legible(#[trigger] all[i]) by {
                if i > 0 {
                    assert(all[i] == rest[i - 1]);
                }
            }
        }
    }
}

/// The parser yields plain statements, which are legible if the tokens
/// are sound.
pub proof fn lemma_stmt_is_plain(tokens: Seq<TokenModel>, pos: int)
    requires
        stmt_at(tokens, pos) is Ok,
    ensures
        plain_stmt(stmt_at(tokens, pos)->Ok_0.0),
        sound_tokens(tokens) ==> legible_stmt(stmt_at(tokens, pos)->Ok_0.0),
{
    match kind_at(tokens, pos) {
        Some(TokenKindModel::Print) => {
            lemma_term_is_plain(tokens, pos + 1, lowest());
        },
        Some(TokenKindModel::Name(_)) => {
            if assign_stmt_at(tokens, pos) is Ok {
                lemma_term_is_plain(tokens, pos + 2, lowest());
                assert(sound_tokens(tokens) ==> sound(tokens[pos].kind));
            } else {
                lemma_term_is_plain(tokens, pos, lowest());
            }
        },
        Some(_) => {
            lemma_term_is_plain(tokens, pos, lowest());
        },
        None => {},
    }
}

/// The parser yields plain programs, which are legible if the tokens are
/// sound.
pub proof fn lemma_program_is_plain(tokens: Seq<TokenModel>, pos: int)
    requires
        program_at(tokens, pos) is Ok,
    ensures
        forall|i: int|
            0 <= i < program_at(tokens, pos)->Ok_0.len() ==> plain_stmt(
                #[trigger] program_at(tokens, pos)->Ok_0[i],
            ),
        sound_tokens(tokens) ==> forall|i: int|
            0 <= i < program_at(tokens, pos)->Ok_0.len() ==> legible_stmt(
                #[trigger] program_at(tokens, pos)->Ok_0[i],
            ),
    decreases left(tokens, pos),
{
    if 0 <= pos < tokens.len() {
        lemma_stmt_is_plain(tokens, pos);
        let (stmt, n) = stmt_at(tokens, pos)->Ok_0;
        lemma_program_is_plain(tokens, pos + n);
        let rest = program_at(tokens, pos + n)->Ok_0;
        let all = seq![stmt] + rest;
        assert forall|i: int| 0 <= i < all.len() implies plain_stmt(#[trigger] all[i]) by {
            if i > 0 {
                assert(all[i] == rest[i - 1]);
            }
        }
        if sound_tokens(tokens) {
            assert forall|i: int| 0 <= i < all.len() implies legible_stmt(#[trigger] all[i]) by {
                if i > 0 {
                    assert(all[i] == rest[i - 1]);
                }
            }
        }
    }
}

/// A program that has been parsed, written in tokens, and parsed again is
/// the same program, up to the metadata.
pub proof fn parsed_program_reads_back(
    first: Seq<TokenModel>,
    stmts: Seq<StmtModel<Span>>,
    second: Seq<TokenModel>,
)
    requires
        program_of(first) == Ok::<_, ErrorModel>(stmts),
        kinds(second) == program_tokens(stmts, 0),
    ensures
        program_of(second) is Ok,
        bare_program(program_of(second)->Ok_0) == bare_program(stmts),
{
    lemma_program_is_plain(first, 0);
    assert forall|i: int| 0 <= i < stmts.len() implies plain_stmt(#[trigger] stmts[i]) by {
        assert(program_at(first, 0)->Ok_0[i] == stmts[i]);
    }
    written_program_reads_back(stmts, second);
}

} // verus!
