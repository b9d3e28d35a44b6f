//! The parser: from tokens to a syntax tree.
//!
//! The grammar is stated by the functions [`program_at`], [`stmt_at`],
//! [`term_at`], [`factor_at`] and [`elements_at`], which say what is read at a
//! position of the token sequence and how many tokens that takes. Where two
//! readings are possible the first that succeeds is taken: an assignment
//! before an expression statement, a parenthesized expression before a tuple.
//! [`parse_tokens`] computes what they say.

use crate::data::ast::{
    BinOp, BinOpKind, Expr, ExprKindModel, ExprModel, Stmt, StmtKindModel, StmtModel, UnaryOp,
    UnaryOpKind, VarName, exprs_model, lemma_tuple_model, stmts_model,
};
use crate::data::float::{FloatExpr, FloatModel};
use crate::data::meta::Meta;
use crate::data::span::{Loc, Span};
use crate::data::token::{tokens_model, Token, TokenKind, TokenKindModel, TokenModel};
use crate::errors::{syntax_error, ErrorModel, ParserError, SyntaxError, SyntaxErrorModel};
use vstd::prelude::*;

verus! {

// =================================================================================================
// THE GRAMMAR

/// What is read at a position: a tree and the number of tokens it took, or
/// the error that ends parsing.
pub type Parsed<T> = Result<(T, nat), ErrorModel>;

/// How many tokens are left at `pos`.
pub open spec fn left(tokens: Seq<TokenModel>, pos: int) -> nat {
    if pos <= tokens.len() {
        (tokens.len() - pos) as nat
    } else {
        0
    }
}

/// The kind of the token at `pos`, if there is one.
pub open spec fn kind_at(tokens: Seq<TokenModel>, pos: int) -> Option<TokenKindModel> {
    if 0 <= pos < tokens.len() {
        Some(tokens[pos].kind)
    } else {
        None
    }
}

/// The range from the first of the tokens `tokens[from..to]` to the last.
pub open spec fn span_over(tokens: Seq<TokenModel>, from: int, to: int) -> Span {
    Span { start: tokens[from].meta.start, end: tokens[to - 1].meta.end }
}

/// The error for a token sequence that ends too early. It lies at the last
/// token.
pub open spec fn end_of_file(tokens: Seq<TokenModel>) -> ErrorModel {
    syntax_error(
        SyntaxErrorModel::UnexpectedEndOfFile,
        if tokens.len() > 0 {
            tokens.last().meta
        } else {
            Span { start: Loc { line: 1, col: 0 }, end: Loc { line: 1, col: 0 } }
        },
    )
}

/// The error for what stands at `pos` where something else was expected.
pub open spec fn unexpected(tokens: Seq<TokenModel>, pos: int) -> ErrorModel {
    match kind_at(tokens, pos) {
        Some(kind) => syntax_error(SyntaxErrorModel::UnexpectedToken(kind), tokens[pos].meta),
        None => end_of_file(tokens),
    }
}

/// The binary operator that a token denotes, if it denotes one.
pub open spec fn bin_op_of(kind: TokenKindModel) -> Option<BinOpKind> {
    match kind {
        TokenKindModel::Plus => Some(BinOpKind::Add),
        TokenKindModel::Minus => Some(BinOpKind::Sub),
        TokenKindModel::Star => Some(BinOpKind::Mul),
        TokenKindModel::Slash => Some(BinOpKind::Div),
        _ => None,
    }
}

/// The unary operator that a token denotes, if it denotes one.
pub open spec fn unary_op_of(kind: TokenKindModel) -> Option<UnaryOpKind> {
    match kind {
        TokenKindModel::Plus => Some(UnaryOpKind::Pos),
        TokenKindModel::Minus => Some(UnaryOpKind::Neg),
        _ => None,
    }
}

/// The binary operator of precedence `prec` at `pos`, if one stands there.
pub open spec fn operator_at(tokens: Seq<TokenModel>, pos: int, prec: u8) -> Option<BinOpKind> {
    match kind_at(tokens, pos) {
        Some(kind) => match bin_op_of(kind) {
            Some(op) if op.spec_precedence() == prec => Some(op),
            _ => None,
        },
        None => None,
    }
}

/// The precedence of the operators that bind loosest.
pub open spec fn lowest() -> u8 {
    4
}

/// How far a precedence is from that of the unary operators.
pub open spec fn climb(prec: u8) -> nat {
    if prec < 6 {
        (6 - prec) as nat
    } else {
        0
    }
}

/// `left op right`, covering `span`.
pub open spec fn binary(
    op: BinOp<Span>,
    left: ExprModel<Span>,
    right: ExprModel<Span>,
    span: Span,
) -> ExprModel<Span> {
    Meta { kind: ExprKindModel::BinOp { op, left: Box::new(left), right: Box::new(right) }, meta: span }
}

/// `op operand`, covering `span`.
pub open spec fn unary(op: UnaryOp<Span>, operand: ExprModel<Span>, span: Span) -> ExprModel<Span> {
    Meta { kind: ExprKindModel::UnaryOp { op, operand: Box::new(operand) }, meta: span }
}

/// An expression in which the operators of precedence `prec` bind loosest:
/// operands that are read with the next precedence, between operators of
/// precedence `prec`, grouped from the left. Above the precedences of the
/// binary operators it is a factor.
pub open spec fn term_at(tokens: Seq<TokenModel>, pos: int, prec: u8) -> Parsed<ExprModel<Span>>
    decreases left(tokens, pos), climb(prec), 2nat,
{
    if prec >= 6 {
        factor_at(tokens, pos)
    } else {
        match term_at(tokens, pos, (prec + 1) as u8) {
            Err(e) => Err(e),
            Ok((first, n)) => tail_at(tokens, pos, pos + n, first, prec),
        }
    }
}

/// What follows the operands and operators `tokens[start..pos]`, which
/// were read as `lhs`: more operators of precedence `prec`, each with its
/// right operand.
pub open spec fn tail_at(
    tokens: Seq<TokenModel>,
    start: int,
    pos: int,
    lhs: ExprModel<Span>,
    prec: u8,
) -> Parsed<ExprModel<Span>>
    decreases left(tokens, pos), climb(prec), 1nat,
{
    match operator_at(tokens, pos, prec) {
        None => Ok((lhs, (pos - start) as nat)),
        Some(op) => match term_at(tokens, pos + 1, (prec + 1) as u8) {
            Err(e) => Err(e),
            Ok((rhs, n)) => tail_at(
                tokens,
                start,
                pos + 1 + n,
                binary(
                    Meta { kind: op, meta: tokens[pos].meta },
                    lhs,
                    rhs,
                    span_over(tokens, start, pos + 1 + n),
                ),
                prec,
            ),
        },
    }
}

/// An expression.
pub open spec fn expr_at(tokens: Seq<TokenModel>, pos: int) -> Parsed<ExprModel<Span>> {
    term_at(tokens, pos, lowest())
}

/// A literal, a variable, a unary operator with its operand, a
/// parenthesized expression or a tuple.
pub open spec fn factor_at(tokens: Seq<TokenModel>, pos: int) -> Parsed<ExprModel<Span>>
    decreases left(tokens, pos), 0nat, 1nat,
{
    match kind_at(tokens, pos) {
        None => Err(end_of_file(tokens)),
        Some(TokenKindModel::Int(i)) => Ok(
            (Meta { kind: ExprKindModel::Integer(i), meta: tokens[pos].meta }, 1),
        ),
        Some(TokenKindModel::Float(text)) => Ok(
            (
                Meta {
                    kind: ExprKindModel::Float(FloatModel::Literal(text)),
                    meta: tokens[pos].meta,
                },
                1,
            ),
        ),
        Some(TokenKindModel::Name(name)) => Ok(
            (
                Meta {
                    kind: ExprKindModel::Variable(Meta { kind: name, meta: tokens[pos].meta }),
                    meta: tokens[pos].meta,
                },
                1,
            ),
        ),
        Some(TokenKindModel::LParen) => match grouping_at(tokens, pos) {
            Ok(group) => Ok(group),
            Err(_) => tuple_at(tokens, pos),
        },
        Some(kind) => match unary_op_of(kind) {
            Some(op) => match factor_at(tokens, pos + 1) {
                Err(e) => Err(e),
                Ok((operand, n)) => Ok(
                    (
                        unary(
                            Meta { kind: op, meta: tokens[pos].meta },
                            operand,
                            span_over(tokens, pos, pos + 1 + n),
                        ),
                        1 + n,
                    ),
                ),
            },
            None => Err(unexpected(tokens, pos)),
        },
    }
}

/// An expression between parentheses, which stands for the expression
/// itself.
pub open spec fn grouping_at(tokens: Seq<TokenModel>, pos: int) -> Parsed<ExprModel<Span>>
    decreases left(tokens, pos), 0nat, 0nat,
    when kind_at(tokens, pos) == Some(TokenKindModel::LParen)
{
    match term_at(tokens, pos + 1, lowest()) {
        Err(e) => Err(e),
        Ok((inner, n)) => if kind_at(tokens, pos + 1 + n) == Some(TokenKindModel::RParen) {
            Ok((inner, n + 2))
        } else {
            Err(unexpected(tokens, pos + 1 + n))
        },
    }
}

/// A tuple: between parentheses, one expression or more, with a comma after
/// each but the last, after which it may stand or not.
pub open spec fn tuple_at(tokens: Seq<TokenModel>, pos: int) -> Parsed<ExprModel<Span>>
    decreases left(tokens, pos), 0nat, 0nat,
    when kind_at(tokens, pos) == Some(TokenKindModel::LParen)
{
    match elements_at(tokens, pos + 1) {
        Err(e) => Err(e),
        Ok((exprs, n)) => if kind_at(tokens, pos + 1 + n) == Some(TokenKindModel::RParen) {
            Ok(
                (
                    Meta {
                        kind: ExprKindModel::Tuple(exprs),
                        meta: span_over(tokens, pos, pos + n + 2),
                    },
                    n + 2,
                ),
            )
        } else {
            Err(unexpected(tokens, pos + 1 + n))
        },
    }
}

/// The elements of a tuple, up to the closing parenthesis.
pub open spec fn elements_at(tokens: Seq<TokenModel>, pos: int) -> Parsed<Seq<ExprModel<Span>>>
    decreases left(tokens, pos), 3nat, 0nat,
{
    match term_at(tokens, pos, lowest()) {
        Err(e) => Err(e),
        Ok((first, n)) => if kind_at(tokens, pos + n) != Some(TokenKindModel::Comma) {
            Ok((seq![first], n))
        } else if kind_at(tokens, pos + n + 1) == Some(TokenKindModel::RParen) {
            Ok((seq![first], n + 1))
        } else {
            match elements_at(tokens, pos + n + 1) {
                Err(e) => Err(e),
                Ok((rest, m)) => Ok((seq![first] + rest, n + 1 + m)),
            }
        },
    }
}

/// Reads `;` at `pos`, after the `n` tokens of a statement that stands for
/// `kind`.
pub open spec fn stmt_end(
    tokens: Seq<TokenModel>,
    start: int,
    n: nat,
    kind: StmtKindModel<Span>,
) -> Parsed<StmtModel<Span>> {
    if kind_at(tokens, start + n) == Some(TokenKindModel::Semi) {
        Ok((Meta { kind, meta: span_over(tokens, start, start + n + 1) }, n + 1))
    } else {
        Err(unexpected(tokens, start + n))
    }
}

/// `print`, an expression, `;`.
pub open spec fn print_stmt_at(tokens: Seq<TokenModel>, pos: int) -> Parsed<StmtModel<Span>> {
    if kind_at(tokens, pos) != Some(TokenKindModel::Print) {
        Err(unexpected(tokens, pos))
    } else {
        match expr_at(tokens, pos + 1) {
            Err(e) => Err(e),
            Ok((expr, n)) => stmt_end(tokens, pos, n + 1, StmtKindModel::Print { expr }),
        }
    }
}

/// A name, `=`, an expression, `;`.
pub open spec fn assign_stmt_at(tokens: Seq<TokenModel>, pos: int) -> Parsed<StmtModel<Span>> {
    match kind_at(tokens, pos) {
        Some(TokenKindModel::Name(name)) => if kind_at(tokens, pos + 1) != Some(
            TokenKindModel::Assign,
        ) {
            Err(unexpected(tokens, pos + 1))
        } else {
            match expr_at(tokens, pos + 2) {
                Err(e) => Err(e),
                Ok((value, n)) => stmt_end(
                    tokens,
                    pos,
                    n + 2,
                    StmtKindModel::Assign {
                        name: Meta { kind: name, meta: tokens[pos].meta },
                        value,
                    },
                ),
            }
        },
        _ => Err(unexpected(tokens, pos)),
    }
}

/// An expression, `;`.
pub open spec fn expr_stmt_at(tokens: Seq<TokenModel>, pos: int) -> Parsed<StmtModel<Span>> {
    match expr_at(tokens, pos) {
        Err(e) => Err(e),
        Ok((expr, n)) => stmt_end(tokens, pos, n, StmtKindModel::Expr { expr }),
    }
}

/// A statement. What starts with a name is an assignment if it can be read
/// as one, and an expression statement if not.
pub open spec fn stmt_at(tokens: Seq<TokenModel>, pos: int) -> Parsed<StmtModel<Span>> {
    match kind_at(tokens, pos) {
        None => Err(end_of_file(tokens)),
        Some(TokenKindModel::Print) => print_stmt_at(tokens, pos),
        Some(TokenKindModel::Name(_)) => match assign_stmt_at(tokens, pos) {
            Ok(stmt) => Ok(stmt),
            Err(_) => expr_stmt_at(tokens, pos),
        },
        Some(_) => expr_stmt_at(tokens, pos),
    }
}

/// The statements of `tokens[pos..]`, or the first error in them.
pub open spec fn program_at(tokens: Seq<TokenModel>, pos: int) -> Result<
    Seq<StmtModel<Span>>,
    ErrorModel,
>
    decreases left(tokens, pos),
{
    if pos < 0 || pos >= tokens.len() {
        Ok(Seq::empty())
    } else {
        match stmt_at(tokens, pos) {
            Err(e) => Err(e),
            Ok((stmt, n)) => match program_at(tokens, pos + n) {
                Err(e) => Err(e),
                Ok(rest) => Ok(seq![stmt] + rest),
            },
        }
    }
}

/// The program that a token sequence spells, or the first error in it.
pub open spec fn program_of(tokens: Seq<TokenModel>) -> Result<Seq<StmtModel<Span>>, ErrorModel> {
    program_at(tokens, 0)
}

// =================================================================================================
// WHAT HOLDS OF THE GRAMMAR

/// What stands behind the first expression between parentheses decides
/// what the parentheses are. Behind a closing parenthesis they are a
/// parenthesized expression, which is read as the expression itself. Behind a
/// comma they are a tuple, whose first element is that expression and which
/// ends with a closing parenthesis. Nothing else can stand there.
pub proof fn parentheses_are_group_or_tuple(tokens: Seq<TokenModel>, pos: int)
    requires
        kind_at(tokens, pos) == Some(TokenKindModel::LParen),
        factor_at(tokens, pos) is Ok,
    ensures
        expr_at(tokens, pos + 1) is Ok,
        ({
            let (first, m) = expr_at(tokens, pos + 1)->Ok_0;
            let (read, n) = factor_at(tokens, pos)->Ok_0;
            if kind_at(tokens, pos + 1 + m) == Some(TokenKindModel::RParen) {
                read == first && n == m + 2
            } else {
                &&& kind_at(tokens, pos + 1 + m) == Some(TokenKindModel::Comma)
                &&& read.kind is Tuple
                &&& read.kind->Tuple_0.len() >= 1
                &&& read.kind->Tuple_0[0] == first
                &&& read.meta == span_over(tokens, pos, pos + n)
                &&& kind_at(tokens, pos + n - 1) == Some(TokenKindModel::RParen)
            }
        }),
{
    let inner = term_at(tokens, pos + 1, lowest());
    assert(grouping_at(tokens, pos) is Err ==> factor_at(tokens, pos) == tuple_at(tokens, pos));
    if inner is Ok {
        let (first, m) = inner->Ok_0;
        if kind_at(tokens, pos + 1 + m) != Some(TokenKindModel::RParen) {
            assert(grouping_at(tokens, pos) is Err);
            assert(elements_at(tokens, pos + 1) is Ok);
        }
    } else {
        assert(grouping_at(tokens, pos) is Err);
        assert(elements_at(tokens, pos + 1) is Err);
    }
}

// =================================================================================================
// READING THE TOKENS

/// What a function yields that reads an expression at `pos`, where the
/// grammar says `spec`.
pub open spec fn reads_expr(
    tokens: Seq<Token>,
    pos: usize,
    result: Result<(Expr<Span>, usize), ParserError>,
    spec: Parsed<ExprModel<Span>>,
) -> bool {
    match result {
        Ok((expr, next)) => pos < next <= tokens.len() && spec == Ok::<_, ErrorModel>(
            (expr.model(), (next - pos) as nat),
        ),
        Err(e) => spec == Err::<(ExprModel<Span>, nat), _>(e.model()),
    }
}

/// What a function yields that reads a statement at `pos`, where the
/// grammar says `spec`.
pub open spec fn reads_stmt(
    tokens: Seq<Token>,
    pos: usize,
    result: Result<(Stmt<Span>, usize), ParserError>,
    spec: Parsed<StmtModel<Span>>,
) -> bool {
    match result {
        Ok((stmt, next)) => pos < next <= tokens.len() && spec == Ok::<_, ErrorModel>(
            (stmt.model(), (next - pos) as nat),
        ),
        Err(e) => spec == Err::<(StmtModel<Span>, nat), _>(e.model()),
    }
}

/// `done`, which took `taken` tokens, followed by what `rest` yields.
pub open spec fn more(
    done: Seq<ExprModel<Span>>,
    taken: nat,
    rest: Parsed<Seq<ExprModel<Span>>>,
) -> Parsed<Seq<ExprModel<Span>>> {
    match rest {
        Ok((exprs, n)) => Ok((done + exprs, taken + n)),
        Err(e) => Err(e),
    }
}

/// The error for a token sequence that ends too early.
fn end_of_file_err(tokens: &Vec<Token>) -> (e: ParserError)
    ensures
        e.model() == end_of_file(tokens_model(tokens@)),
{
    let span = if tokens.len() > 0 {
        tokens[tokens.len() - 1].meta
    } else {
        Span { start: Loc { line: 1, col: 0 }, end: Loc { line: 1, col: 0 } }
    };
    ParserError::SyntaxError(SyntaxError::UnexpectedEndOfFile, span)
}

/// The error for what stands at `pos` where something else was expected.
fn unexpected_err(tokens: &Vec<Token>, pos: usize) -> (e: ParserError)
    ensures
        e.model() == unexpected(tokens_model(tokens@), pos as int),
{
    if pos < tokens.len() {
        ParserError::SyntaxError(
            SyntaxError::UnexpectedToken(tokens[pos].kind.duplicate()),
            tokens[pos].meta,
        )
    } else {
        end_of_file_err(tokens)
    }
}

/// The kind of the token at `pos`, if there is one.
fn peek(tokens: &Vec<Token>, pos: usize) -> (kind: Option<&TokenKind>)
    ensures
        match kind {
            Some(k) => kind_at(tokens_model(tokens@), pos as int) == Some(k.model()),
            None => kind_at(tokens_model(tokens@), pos as int) is None,
        },
{
    if pos < tokens.len() {
        Some(&tokens[pos].kind)
    } else {
        None
    }
}

impl BinOpKind {
    /// The binary operator that a token denotes, if it denotes one.
    pub fn from_token(kind: &TokenKind) -> (op: Option<BinOpKind>)
        ensures
            op == bin_op_of(kind.model()),
    {
        match kind {
            TokenKind::Plus => Some(BinOpKind::Add),
            TokenKind::Minus => Some(BinOpKind::Sub),
            TokenKind::Star => Some(BinOpKind::Mul),
            TokenKind::Slash => Some(BinOpKind::Div),
            _ => None,
        }
    }
}

impl UnaryOpKind {
    /// The unary operator that a token denotes, if it denotes one.
    pub fn from_token(kind: &TokenKind) -> (op: Option<UnaryOpKind>)
        ensures
            op == unary_op_of(kind.model()),
    {
        match kind {
            TokenKind::Plus => Some(UnaryOpKind::Pos),
            TokenKind::Minus => Some(UnaryOpKind::Neg),
            _ => None,
        }
    }
}

/// The binary operator of precedence `prec` at `pos`, if one stands there.
fn operator(tokens: &Vec<Token>, pos: usize, prec: u8) -> (op: Option<BinOpKind>)
    ensures
        op == operator_at(tokens_model(tokens@), pos as int, prec),
{
    match peek(tokens, pos) {
        Some(kind) => match BinOpKind::from_token(kind) {
            Some(op) => if op.precedence() == prec {
                Some(op)
            } else {
                None
            },
            None => None,
        },
        None => None,
    }
}

fn parse_term(tokens: &Vec<Token>, pos: usize, prec: u8) -> (result: Result<
    (Expr<Span>, usize),
    ParserError,
>)
    requires
        pos <= tokens.len(),
    ensures
        reads_expr(tokens@, pos, result, term_at(tokens_model(tokens@), pos as int, prec)),
    decreases tokens.len() - pos, climb(prec), 2nat,
{
    if prec >= 6 {
        return parse_factor(tokens, pos);
    }
    let ghost toks = tokens_model(tokens@);
    let (first, after_first) = match parse_term(tokens, pos, prec + 1) {
        Ok(read) => read,
        Err(e) => {
            return Err(e);
        },
    };
    let mut lhs = first;
    let mut cur = after_first;
    loop
        invariant_except_break
            pos < cur <= tokens.len(),
            prec < 6,
            toks == tokens_model(tokens@),
            term_at(toks, pos as int, prec) == tail_at(
                toks,
                pos as int,
                cur as int,
                lhs.model(),
                prec,
            ),
        ensures
            pos < cur <= tokens.len(),
            term_at(toks, pos as int, prec) == Ok::<_, ErrorModel>(
                (lhs.model(), (cur - pos) as nat),
            ),
        decreases tokens.len() - cur,
    {
        let op = match operator(tokens, cur, prec) {
            Some(op) => op,
            None => {
                break ;
            },
        };
        match parse_term(tokens, cur + 1, prec + 1) {
            Err(e) => {
                return Err(e);
            },
            Ok((rhs, next)) => {
                let span = Span::new(tokens[pos].meta.start, tokens[next - 1].meta.end);
                lhs = Expr::bin_op(BinOp::new(op, tokens[cur].meta), lhs, rhs, span);
                cur = next;
            },
        }
    }
    Ok((lhs, cur))
}

/// Reads an expression.
fn parse_expr(tokens: &Vec<Token>, pos: usize) -> (result: Result<(Expr<Span>, usize), ParserError>)
    requires
        pos <= tokens.len(),
    ensures
        reads_expr(tokens@, pos, result, expr_at(tokens_model(tokens@), pos as int)),
    decreases tokens.len() - pos, 2nat, 3nat,
{
    parse_term(tokens, pos, 4)
}

fn parse_factor(tokens: &Vec<Token>, pos: usize) -> (result: Result<
    (Expr<Span>, usize),
    ParserError,
>)
    requires
        pos <= tokens.len(),
    ensures
        reads_expr(tokens@, pos, result, factor_at(tokens_model(tokens@), pos as int)),
    decreases tokens.len() - pos, 0nat, 1nat,
{
    if pos >= tokens.len() {
        return Err(end_of_file_err(tokens));
    }
    let token = &tokens[pos];
    match &token.kind {
        TokenKind::Int(i) => Ok((Expr::integer(*i, token.meta), pos + 1)),
        TokenKind::Float(text) => Ok(
            (Expr::float(FloatExpr::Literal(text.clone()), token.meta), pos + 1),
        ),
        TokenKind::Name(name) => Ok(
            (Expr::variable(VarName::new(name.clone(), token.meta), token.meta), pos + 1),
        ),
        TokenKind::LParen => {
            // A parenthesized expression or a tuple: `(1)` is the former,
            // `(1,)` and `(1, 2)` are the latter.
            match parse_grouping(tokens, pos) {
                Ok(group) => Ok(group),
                Err(_) => parse_tuple(tokens, pos),
            }
        },
        kind => match UnaryOpKind::from_token(kind) {
            Some(op) => parse_unary_factor(tokens, pos, op),
            None => Err(unexpected_err(tokens, pos)),
        },
    }
}

fn parse_unary_factor(tokens: &Vec<Token>, pos: usize, op: UnaryOpKind) -> (result: Result<
    (Expr<Span>, usize),
    ParserError,
>)
    requires
        pos < tokens.len(),
        unary_op_of(tokens@[pos as int].kind.model()) == Some(op),
    ensures
        reads_expr(tokens@, pos, result, factor_at(tokens_model(tokens@), pos as int)),
    decreases tokens.len() - pos, 0nat, 0nat,
{
    match parse_factor(tokens, pos + 1) {
        Err(e) => Err(e),
        Ok((operand, next)) => {
            let span = Span::new(tokens[pos].meta.start, tokens[next - 1].meta.end);
            Ok((Expr::unary_op(UnaryOp::new(op, tokens[pos].meta), operand, span), next))
        },
    }
}

fn parse_grouping(tokens: &Vec<Token>, pos: usize) -> (result: Result<
    (Expr<Span>, usize),
    ParserError,
>)
    requires
        pos < tokens.len(),
        tokens@[pos as int].kind is LParen,
    ensures
        reads_expr(tokens@, pos, result, grouping_at(tokens_model(tokens@), pos as int)),
    decreases tokens.len() - pos, 0nat, 0nat,
{
    match parse_expr(tokens, pos + 1) {
        Err(e) => Err(e),
        Ok((inner, next)) => match peek(tokens, next) {
            Some(TokenKind::RParen) => Ok((inner, next + 1)),
            _ => Err(unexpected_err(tokens, next)),
        },
    }
}

fn parse_tuple(tokens: &Vec<Token>, pos: usize) -> (result: Result<(Expr<Span>, usize), ParserError>)
    requires
        pos < tokens.len(),
        tokens@[pos as int].kind is LParen,
    ensures
        reads_expr(tokens@, pos, result, tuple_at(tokens_model(tokens@), pos as int)),
    decreases tokens.len() - pos, 0nat, 0nat,
{
    let ghost toks = tokens_model(tokens@);
    let mut exprs: Vec<Expr<Span>> = Vec::new();
    let mut cur = pos + 1;
    assert(exprs_model(exprs@) =~= Seq::empty());
    loop
        invariant_except_break
            pos < cur <= tokens.len(),
            toks == tokens_model(tokens@),
            kind_at(toks, pos as int) == Some(TokenKindModel::LParen),
            elements_at(toks, pos + 1) == more(
                exprs_model(exprs@),
                (cur - (pos + 1)) as nat,
                elements_at(toks, cur as int),
            ),
        ensures
            pos + 1 < cur <= tokens.len(),
            kind_at(toks, pos as int) == Some(TokenKindModel::LParen),
            elements_at(toks, pos + 1) == Ok::<_, ErrorModel>(
                (exprs_model(exprs@), (cur - (pos + 1)) as nat),
            ),
        decreases tokens.len() - cur,
    {
        let ghost done = exprs_model(exprs@);
        match parse_expr(tokens, cur) {
            Err(e) => {
                return Err(e);
            },
            Ok((expr, next)) => {
                proof {
                    assert(exprs_model(exprs@.push(expr)) =~= done + seq![expr.model()]);
                }
                exprs.push(expr);
                match peek(tokens, next) {
                    Some(TokenKind::Comma) => {
                        // a comma may stand before the closing parenthesis
                        match peek(tokens, next + 1) {
                            Some(TokenKind::RParen) => {
                                cur = next + 1;
                                break ;
                            },
                            _ => {
                                proof {
                                    let rest = elements_at(toks, next + 1);
                                    if let Ok((exprs, m)) = rest {
                                        assert(done + (seq![expr.model()] + exprs) =~= (done
                                            + seq![expr.model()]) + exprs);
                                    }
                                }
                                cur = next + 1;
                            },
                        }
                    },
                    _ => {
                        cur = next;
                        break ;
                    },
                }
            },
        }
    }
    match peek(tokens, cur) {
        Some(TokenKind::RParen) => {
            let span = Span::new(tokens[pos].meta.start, tokens[cur].meta.end);
            proof {
                lemma_tuple_model(exprs);
            }
            Ok((Expr::tuple(exprs, span), cur + 1))
        },
        _ => Err(unexpected_err(tokens, cur)),
    }
}

/// Reads `;` at `pos`, after the tokens of a statement, which start at
/// `start`, and gives the range of the statement.
fn parse_stmt_end(tokens: &Vec<Token>, start: usize, pos: usize) -> (result: Result<
    Span,
    ParserError,
>)
    requires
        start < pos <= tokens.len(),
    ensures
        match result {
            Ok(span) => {
                &&& pos < tokens.len()
                &&& kind_at(tokens_model(tokens@), pos as int) == Some(TokenKindModel::Semi)
                &&& span == span_over(tokens_model(tokens@), start as int, pos + 1)
            },
            Err(e) => {
                &&& kind_at(tokens_model(tokens@), pos as int) != Some(TokenKindModel::Semi)
                &&& e.model() == unexpected(tokens_model(tokens@), pos as int)
            },
        },
{
    match peek(tokens, pos) {
        Some(TokenKind::Semi) => Ok(Span::new(tokens[start].meta.start, tokens[pos].meta.end)),
        _ => Err(unexpected_err(tokens, pos)),
    }
}

fn parse_print_stmt(tokens: &Vec<Token>, pos: usize) -> (result: Result<
    (Stmt<Span>, usize),
    ParserError,
>)
    requires
        pos <= tokens.len(),
    ensures
        reads_stmt(tokens@, pos, result, print_stmt_at(tokens_model(tokens@), pos as int)),
{
    match peek(tokens, pos) {
        Some(TokenKind::Print) => {},
        _ => {
            return Err(unexpected_err(tokens, pos));
        },
    }
    let (expr, next) = match parse_expr(tokens, pos + 1) {
        Ok(read) => read,
        Err(e) => {
            return Err(e);
        },
    };
    match parse_stmt_end(tokens, pos, next) {
        Ok(span) => Ok((Stmt::print(expr, span), next + 1)),
        Err(e) => Err(e),
    }
}

fn parse_var_name(tokens: &Vec<Token>, pos: usize) -> (result: Result<VarName<Span>, ParserError>)
    ensures
        match result {
            Ok(name) => {
                &&& pos < tokens.len()
                &&& kind_at(tokens_model(tokens@), pos as int) == Some(
                    TokenKindModel::Name(name.kind@),
                )
                &&& name.meta == tokens@[pos as int].meta
            },
            Err(e) => {
                &&& !(kind_at(tokens_model(tokens@), pos as int) matches Some(
                    TokenKindModel::Name(_),
                ))
                &&& e.model() == unexpected(tokens_model(tokens@), pos as int)
            },
        },
{
    match peek(tokens, pos) {
        Some(TokenKind::Name(name)) => Ok(VarName::new(name.clone(), tokens[pos].meta)),
        _ => Err(unexpected_err(tokens, pos)),
    }
}

fn parse_assign_stmt(tokens: &Vec<Token>, pos: usize) -> (result: Result<
    (Stmt<Span>, usize),
    ParserError,
>)
    requires
        pos <= tokens.len(),
    ensures
        reads_stmt(tokens@, pos, result, assign_stmt_at(tokens_model(tokens@), pos as int)),
{
    let name = match parse_var_name(tokens, pos) {
        Ok(name) => name,
        Err(e) => {
            return Err(e);
        },
    };
    match peek(tokens, pos + 1) {
        Some(TokenKind::Assign) => {},
        _ => {
            return Err(unexpected_err(tokens, pos + 1));
        },
    }
    let (value, next) = match parse_expr(tokens, pos + 2) {
        Ok(read) => read,
        Err(e) => {
            return Err(e);
        },
    };
    match parse_stmt_end(tokens, pos, next) {
        Ok(span) => Ok((Stmt::assign(name, value, span), next + 1)),
        Err(e) => Err(e),
    }
}

fn parse_expr_stmt(tokens: &Vec<Token>, pos: usize) -> (result: Result<
    (Stmt<Span>, usize),
    ParserError,
>)
    requires
        pos <= tokens.len(),
    ensures
        reads_stmt(tokens@, pos, result, expr_stmt_at(tokens_model(tokens@), pos as int)),
{
    let (expr, next) = match parse_expr(tokens, pos) {
        Ok(read) => read,
        Err(e) => {
            return Err(e);
        },
    };
    match parse_stmt_end(tokens, pos, next) {
        Ok(span) => Ok((Stmt::expr(expr, span), next + 1)),
        Err(e) => Err(e),
    }
}

fn parse_stmt(tokens: &Vec<Token>, pos: usize) -> (result: Result<(Stmt<Span>, usize), ParserError>)
    requires
        pos <= tokens.len(),
    ensures
        reads_stmt(tokens@, pos, result, stmt_at(tokens_model(tokens@), pos as int)),
{
    match peek(tokens, pos) {
        Some(TokenKind::Print) => parse_print_stmt(tokens, pos),
        Some(TokenKind::Name(_)) => {
            // what starts with a name is an assignment or an expression
            match parse_assign_stmt(tokens, pos) {
                Ok(stmt) => Ok(stmt),
                Err(_) => parse_expr_stmt(tokens, pos),
            }
        },
        Some(_) => parse_expr_stmt(tokens, pos),
        None => Err(end_of_file_err(tokens)),
    }
}

/// What [`parse_tokens`] yields for `tokens`.
pub open spec fn parsed(tokens: Seq<Token>, result: Result<Vec<Stmt<Span>>, ParserError>) -> bool {
    match result {
        Ok(stmts) => program_of(tokens_model(tokens)) == Ok::<_, ErrorModel>(stmts_model(stmts@)),
        Err(e) => program_of(tokens_model(tokens)) == Err::<Seq<StmtModel<Span>>, _>(e.model()),
    }
}

/// `done`, followed by what `rest` yields.
pub open spec fn then(
    done: Seq<StmtModel<Span>>,
    rest: Result<Seq<StmtModel<Span>>, ErrorModel>,
) -> Result<Seq<StmtModel<Span>>, ErrorModel> {
    match rest {
        Ok(stmts) => Ok(done + stmts),
        Err(e) => Err(e),
    }
}

/// The statements that `tokens` spell, or the first error in them.
pub fn parse_tokens(tokens: &Vec<Token>) -> (result: Result<Vec<Stmt<Span>>, ParserError>)
    ensures
        parsed(tokens@, result),
{
    let ghost toks = tokens_model(tokens@);
    let mut stmts: Vec<Stmt<Span>> = Vec::new();
    let mut pos: usize = 0;
    assert(stmts_model(stmts@) =~= Seq::empty());
    while pos < tokens.len()
        invariant
            pos <= tokens.len(),
            toks == tokens_model(tokens@),
            program_of(toks) == then(stmts_model(stmts@), program_at(toks, pos as int)),
        decreases tokens.len() - pos,
    {
        let ghost done = stmts_model(stmts@);
        match parse_stmt(tokens, pos) {
            Err(e) => {
                return Err(e);
            },
            Ok((stmt, next)) => {
                proof {
                    assert(stmts_model(stmts@.push(stmt)) =~= done + seq![stmt.model()]);
                    if let Ok(rest) = program_at(toks, next as int) {
                        assert(done + (seq![stmt.model()] + rest) =~= (done + seq![stmt.model()])
                            + rest);
                    }
                }
                stmts.push(stmt);
                pos = next;
            },
        }
    }
    assert(stmts_model(stmts@) + Seq::<StmtModel<Span>>::empty() =~= stmts_model(stmts@));
    Ok(stmts)
}

} // verus!
