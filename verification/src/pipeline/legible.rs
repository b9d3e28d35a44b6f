//! What the formatter writes, the tokenizer reads back.
//!
//! [`written`] is the text of an output in which each floating-point number
//! is written as it was read. The lemmas of this file say which tokens the
//! tokenizer reads from the written text of a tree: those of
//! [`expr_tokens`](crate::pipeline::round_trip::expr_tokens).

use crate::data::ast::{
    stmt_expr, BinOpKind, ExprKindModel, ExprModel, StmtKindModel, StmtModel,
};
use crate::data::token::{TokenKindModel, TokenModel};
use crate::pipeline::formatter::{
    elements_text, expr_text, operand_text, program_text, right_precedence, stmt_text, stmts_text,
};
use crate::data::meta::Meta;
use crate::data::span::Span;
use crate::errors::ErrorModel;
use crate::pipeline::parser::{program_at, program_of};
use crate::pipeline::round_trip::{
    bare, bare_program, bin_op_token, closing, elements_tokens, expr_tokens, kinds,
    lemma_program_is_plain, plain_stmt, sound_tokens,
    operand_tokens, program_tokens, stmt_tokens, unary_op_token,
    written_program_reads_back,
};
use crate::pipeline::tokenizer::{
    after, digit_run, is_digit, is_name_part, is_name_start, is_whitespace, lex, name_run, number,
    print_keyword, punctuation, token_at, tokens_of, Lexed,
};
use crate::data::float::literal_text;
use crate::text::{
    decimal, digit, digits, lemma_written_concat, lemma_written_one, lemma_written_plain, plain,
    written, Glyph,
};
use vstd::prelude::*;

verus! {

// =================================================================================================
// PLACES IN A TEXT

/// Whether `src` holds `text` at `pos`.
pub open spec fn holds(src: Seq<char>, pos: int, text: Seq<char>) -> bool {
    &&& 0 <= pos
    &&& pos + text.len() <= src.len()
    &&& src.subrange(pos, pos + text.len()) == text
}

/// A text that holds two texts holds the first, and behind it the second.
pub proof fn lemma_holds_split(src: Seq<char>, pos: int, a: Seq<char>, b: Seq<char>)
    requires
        holds(src, pos, a + b),
    ensures
        holds(src, pos, a),
        holds(src, pos + a.len(), b),
{
    let all = src.subrange(pos, pos + (a + b).len());
    assert(src.subrange(pos, pos + a.len()) =~= all.subrange(0, a.len() as int));
    assert((a + b).subrange(0, a.len() as int) =~= a);
    assert(src.subrange(pos + a.len(), pos + a.len() + b.len()) =~= all.subrange(
        a.len() as int,
        (a + b).len() as int,
    ));
    assert((a + b).subrange(a.len() as int, (a + b).len() as int) =~= b);
}

/// Where a text holds another, it holds each of its characters.
pub proof fn lemma_holds_char(src: Seq<char>, pos: int, text: Seq<char>, i: int)
    requires
        holds(src, pos, text),
        0 <= i < text.len(),
    ensures
        src[pos + i] == text[i],
{
    assert(src.subrange(pos, pos + text.len())[i] == text[i]);
}

/// Whether a token ends before `pos`: the text ends there, or a character
/// stands there that goes on neither a name nor a number.
pub open spec fn delimited(src: Seq<char>, pos: int) -> bool {
    pos >= src.len() || (!is_name_part(src[pos]) && src[pos] != '.')
}

// =================================================================================================
// READING ONE TOKEN

/// Tokens that are read one after the other are read together.
pub proof fn lemma_after_after(a: Seq<TokenModel>, b: Seq<TokenModel>, rest: Lexed)
    ensures
        after(a, after(b, rest)) == after(a + b, rest),
{
    if let Ok(tokens) = rest {
        assert(a + (b + tokens) =~= (a + b) + tokens);
    }
}

/// A blank separates tokens.
pub proof fn lemma_lex_blank(src: Seq<char>, pos: int)
    requires
        0 <= pos < src.len(),
        src[pos] == ' ' || src[pos] == '\n',
    ensures
        lex(src, pos) == lex(src, pos + 1),
{
}

/// A character that is a token by itself is read as that token.
pub proof fn lemma_lex_punctuation(src: Seq<char>, pos: int, kind: TokenKindModel)
    requires
        0 <= pos < src.len(),
        punctuation(src[pos]) == Some(kind),
    ensures
        lex(src, pos) == after(seq![token_at(src, pos, pos + 1, kind)], lex(src, pos + 1)),
{
}

/// A slash that starts no comment is read as the operator.
pub proof fn lemma_lex_slash(src: Seq<char>, pos: int)
    requires
        0 <= pos < src.len(),
        src[pos] == '/',
        pos + 1 < src.len() ==> src[pos + 1] != '/' && src[pos + 1] != '*',
    ensures
        lex(src, pos) == after(
            seq![token_at(src, pos, pos + 1, TokenKindModel::Slash)],
            lex(src, pos + 1),
        ),
{
}

/// Whether a text is a name: it starts as names do, goes on as names do,
/// and is not the keyword.
pub open spec fn is_name(text: Seq<char>) -> bool {
    &&& text.len() > 0
    &&& is_name_start(text[0])
    &&& forall|i: int| 0 <= i < text.len() ==> is_name_part(#[trigger] text[i])
    &&& text != print_keyword()
}

/// Whether a text is a floating-point literal: digits, a point, and more
/// digits.
pub open spec fn is_float_literal(text: Seq<char>) -> bool {
    let point = digit_run(text, 0) as int;
    &&& point >= 1
    &&& point < text.len()
    &&& text[point] == '.'
    &&& digit_run(text, point + 1) >= 1
    &&& point + 1 + digit_run(text, point + 1) == text.len()
}

/// A run of name characters in a text is as long as in a text that holds
/// it, if the run ends where the held text does.
pub proof fn lemma_name_run_held(src: Seq<char>, pos: int, text: Seq<char>, i: int)
    requires
        holds(src, pos, text),
        0 <= i <= text.len(),
        forall|j: int| i <= j < text.len() ==> is_name_part(#[trigger] text[j]),
        delimited(src, pos + text.len()),
    ensures
        name_run(src, pos + i) == text.len() - i,
    decreases text.len() - i,
{
    if i < text.len() {
        lemma_holds_char(src, pos, text, i);
        assert(is_name_part(text[i]));
        lemma_name_run_held(src, pos, text, i + 1);
    }
}

/// A run of digits in a text is as long as in a text that holds it, if it
/// ends in the held text, or with it before something that is no digit.
pub proof fn lemma_digit_run_held(src: Seq<char>, pos: int, text: Seq<char>, i: int)
    requires
        holds(src, pos, text),
        0 <= i <= text.len(),
        i + digit_run(text, i) < text.len() || pos + text.len() >= src.len() || !is_digit(
            src[pos + text.len()],
        ),
    ensures
        digit_run(src, pos + i) == digit_run(text, i),
    decreases text.len() - i,
{
    if i < text.len() {
        lemma_holds_char(src, pos, text, i);
        if is_digit(text[i]) {
            lemma_digit_run_held(src, pos, text, i + 1);
        }
    }
}

/// A name is read as a name.
pub proof fn lemma_lex_name(src: Seq<char>, pos: int, name: Seq<char>)
    requires
        is_name(name),
        holds(src, pos, name),
        delimited(src, pos + name.len()),
    ensures
        lex(src, pos) == after(
            seq![token_at(src, pos, pos + name.len(), TokenKindModel::Name(name))],
            lex(src, pos + name.len()),
        ),
{
    lemma_holds_char(src, pos, name, 0);
    lemma_name_run_held(src, pos, name, 1);
}

/// The keyword is read as the keyword.
pub proof fn lemma_lex_print(src: Seq<char>, pos: int)
    requires
        holds(src, pos, print_keyword()),
        delimited(src, pos + 5),
    ensures
        lex(src, pos) == after(
            seq![token_at(src, pos, pos + 5, TokenKindModel::Print)],
            lex(src, pos + 5),
        ),
{
    let text = print_keyword();
    lemma_holds_char(src, pos, text, 0);
    assert forall|j: int| 1 <= j < text.len() implies is_name_part(#[trigger] text[j]) by {}
    lemma_name_run_held(src, pos, text, 1);
}

/// The numeral of a number consists of digits and denotes the number.
pub proof fn lemma_digits(n: nat)
    ensures
        digits(n).len() >= 1,
        forall|i: int| 0 <= i < digits(n).len() ==> is_digit(#[trigger] digits(n)[i]),
        number(digits(n)) == n,
    decreases n,
{
    if n >= 10 {
        lemma_digits(n / 10);
        assert(digits(n).drop_last() =~= digits(n / 10));
        assert(is_digit(digit(n % 10)));
        assert(digit(n % 10) as nat - '0' as nat == n % 10);
    } else {
        assert(digits(n).drop_last() =~= Seq::<char>::empty());
        assert(number(Seq::<char>::empty()) == 0);
        assert(digit(n) as nat - '0' as nat == n);
    }
}

/// A run of digits at the start of a text that consists of digits is the
/// text.
pub proof fn lemma_digit_run_all(text: Seq<char>, i: int)
    requires
        0 <= i <= text.len(),
        forall|j: int| i <= j < text.len() ==> is_digit(#[trigger] text[j]),
    ensures
        digit_run(text, i) == text.len() - i,
    decreases text.len() - i,
{
    if i < text.len() {
        assert(is_digit(text[i]));
        lemma_digit_run_all(text, i + 1);
    }
}

/// The numeral of an integer that is not negative is read as the integer.
pub proof fn lemma_lex_integer(src: Seq<char>, pos: int, i: i32)
    requires
        i >= 0,
        holds(src, pos, digits(i as nat)),
        delimited(src, pos + digits(i as nat).len()),
    ensures
        lex(src, pos) == after(
            seq![token_at(src, pos, pos + digits(i as nat).len(), TokenKindModel::Int(i))],
            lex(src, pos + digits(i as nat).len()),
        ),
{
    let text = digits(i as nat);
    lemma_digits(i as nat);
    lemma_holds_char(src, pos, text, 0);
    assert(is_digit(text[0]));
    lemma_digit_run_all(text, 1);
    lemma_digit_run_held(src, pos, text, 1);
}

/// A floating-point literal is read as it is written.
pub proof fn lemma_lex_float(src: Seq<char>, pos: int, text: Seq<char>)
    requires
        is_float_literal(text),
        holds(src, pos, text),
        delimited(src, pos + text.len()),
    ensures
        lex(src, pos) == after(
            seq![token_at(src, pos, pos + text.len(), TokenKindModel::Float(text))],
            lex(src, pos + text.len()),
        ),
{
    let point = digit_run(text, 0) as int;
    lemma_holds_char(src, pos, text, 0);
    assert(is_digit(text[0]));
    assert(digit_run(text, 0) == 1 + digit_run(text, 1));
    lemma_digit_run_held(src, pos, text, 1);
    lemma_holds_char(src, pos, text, point);
    lemma_digit_run_held(src, pos, text, point + 1);
}

// =================================================================================================
// WHAT THE TOKENIZER YIELDS

/// Whether a token is as the tokenizer yields them: a name is a name, an
/// integer is not negative, and a floating-point number is a literal.
pub open spec fn sound(kind: TokenKindModel) -> bool {
    match kind {
        TokenKindModel::Name(name) => is_name(name),
        TokenKindModel::Int(i) => i >= 0,
        TokenKindModel::Float(text) => is_float_literal(text),
        _ => true,
    }
}

/// A run of digits in a part of a text is as long as in the text, if it
/// ends in the part.
pub proof fn lemma_digit_run_within(src: Seq<char>, pos: int, end: int, i: int)
    requires
        0 <= pos <= pos + i <= end <= src.len(),
        pos + i + digit_run(src, pos + i) <= end,
    ensures
        digit_run(src.subrange(pos, end), i) == digit_run(src, pos + i),
    decreases end - pos - i,
{
    let text = src.subrange(pos, end);
    if pos + i < end {
        assert(text[i] == src[pos + i]);
        if is_digit(src[pos + i]) {
            lemma_digit_run_within(src, pos, end, i + 1);
        }
    }
}

/// The tokenizer yields sound tokens.
pub proof fn lemma_lex_is_sound(src: Seq<char>, pos: int)
    requires
        0 <= pos,
        lex(src, pos) is Ok,
    ensures
        forall|i: int|
            0 <= i < lex(src, pos)->Ok_0.len() ==> sound(#[trigger] lex(src, pos)->Ok_0[i].kind),
    decreases crate::pipeline::tokenizer::left(src, pos),
{
    if pos < src.len() {
        let c = src[pos];
        if is_whitespace(c) {
            lemma_lex_is_sound(src, pos + 1);
        } else if is_digit(c) {
            let point = pos + 1 + digit_run(src, pos + 1);
            crate::pipeline::tokenizer::lemma_digit_run(src, pos + 1);
            crate::pipeline::tokenizer::lemma_digit_run_starts(src, point + 1);
            if point < src.len() && src[point] == '.' && digit_run(src, point + 1) > 0 {
                let end = point + 1 + digit_run(src, point + 1);
                crate::pipeline::tokenizer::lemma_digit_run(src, point + 1);
                let text = src.subrange(pos, end);
                lemma_digit_run_within(src, pos, end, 0);
                lemma_digit_run_within(src, pos, end, point + 1 - pos);
                assert(text[point - pos] == src[point]);
                assert(is_float_literal(text));
                lemma_lex_is_sound(src, end);
                lemma_sound_after(
                    token_at(src, pos, end, TokenKindModel::Float(text)),
                    src,
                    end,
                );
            } else {
                let value = number(src.subrange(pos, point));
                lemma_lex_is_sound(src, point);
                lemma_sound_after(
                    token_at(src, pos, point, TokenKindModel::Int(value as i32)),
                    src,
                    point,
                );
            }
        } else if is_name_start(c) {
            let end = pos + 1 + name_run(src, pos + 1);
            crate::pipeline::tokenizer::lemma_name_run(src, pos + 1);
            let text = src.subrange(pos, end);
            let kind = if text == print_keyword() {
                TokenKindModel::Print
            } else {
                TokenKindModel::Name(text)
            };
            assert forall|i: int| 0 <= i < text.len() implies is_name_part(#[trigger] text[i]) by {
                assert(text[i] == src[pos + i]);
            }
            lemma_lex_is_sound(src, end);
            lemma_sound_after(token_at(src, pos, end, kind), src, end);
        } else if c == '/' {
            if pos + 1 < src.len() && src[pos + 1] == '/' {
                lemma_lex_is_sound(
                    src,
                    pos + 2 + crate::pipeline::tokenizer::line_rest(src, pos + 2),
                );
            } else if pos + 1 < src.len() && src[pos + 1] == '*' {
                lemma_lex_is_sound(
                    src,
                    pos + 2 + crate::pipeline::tokenizer::block_rest(src, pos + 2),
                );
            } else {
                lemma_lex_is_sound(src, pos + 1);
                lemma_sound_after(
                    token_at(src, pos, pos + 1, TokenKindModel::Slash),
                    src,
                    pos + 1,
                );
            }
        } else {
            match punctuation(c) {
                Some(kind) => {
                    lemma_lex_is_sound(src, pos + 1);
                    lemma_sound_after(token_at(src, pos, pos + 1, kind), src, pos + 1);
                },
                None => {},
            }
        }
    }
}

/// A sound token before sound tokens.
pub proof fn lemma_sound_after(token: TokenModel, src: Seq<char>, pos: int)
    requires
        sound(token.kind),
        after(seq![token], lex(src, pos)) is Ok,
        forall|i: int|
            0 <= i < lex(src, pos)->Ok_0.len() ==> sound(#[trigger] lex(src, pos)->Ok_0[i].kind),
    ensures
        forall|i: int|
            0 <= i < after(seq![token], lex(src, pos))->Ok_0.len() ==> sound(
                #[trigger] after(seq![token], lex(src, pos))->Ok_0[i].kind,
            ),
{
    let rest = lex(src, pos)->Ok_0;
    let all = seq![token] + rest;
    assert forall|i: int| 0 <= i < all.len() implies sound(#[trigger] all[i].kind) by {
        if i > 0 {
            assert(all[i] == rest[i - 1]);
        }
    }
}

// =================================================================================================
// READING THE TEXT OF A TREE

/// Whether the names and numbers of an expression are written as the
/// tokenizer reads them: the names are names, no integer is negative, and the
/// floating-point numbers are literals.
pub open spec fn legible<M>(expr: ExprModel<M>) -> bool
    decreases expr,
{
    match expr.kind {
        ExprKindModel::Variable(name) => is_name(name.kind),
        ExprKindModel::Integer(i) => i >= 0,
        ExprKindModel::Float(x) => x is Literal && is_float_literal(literal_text(x)),
        ExprKindModel::BinOp { left, right, .. } => legible(*left) && legible(*right),
        ExprKindModel::UnaryOp { operand, .. } => legible(*operand),
        ExprKindModel::Tuple(exprs) => forall|i: int|
            0 <= i < exprs.len() ==> legible(#[trigger] exprs[i]),
    }
}

/// Whether the names and numbers of a statement are written as the
/// tokenizer reads them.
pub open spec fn legible_stmt<M>(stmt: StmtModel<M>) -> bool {
    &&& legible(stmt_expr(stmt))
    &&& stmt.kind matches StmtKindModel::Assign { name, .. } ==> is_name(name.kind)
}

/// The tokens that spell the first `n` elements of a tuple, with the commas
/// between them.
pub open spec fn first_elements_tokens<M>(exprs: Seq<ExprModel<M>>, n: nat) -> Seq<TokenKindModel>
    decreases n,
{
    if n == 0 || n > exprs.len() {
        Seq::empty()
    } else if n == 1 {
        expr_tokens(exprs[0])
    } else {
        first_elements_tokens(exprs, (n - 1) as nat) + seq![TokenKindModel::Comma] + expr_tokens(
            exprs[n - 1],
        )
    }
}

/// The tokens of the elements of a tuple are those of the first of them,
/// a comma, and those of the others.
pub proof fn lemma_elements_tokens_join<M>(exprs: Seq<ExprModel<M>>, n: nat)
    requires
        n <= exprs.len(),
    ensures
        elements_tokens(exprs, 0) == first_elements_tokens(exprs, n) + (if 0 < n < exprs.len() {
            seq![TokenKindModel::Comma]
        } else {
            Seq::empty()
        }) + elements_tokens(exprs, n as int),
    decreases n,
{
    let comma = seq![TokenKindModel::Comma];
    let none = Seq::<TokenKindModel>::empty();
    if n == 0 {
        assert(none + none + elements_tokens(exprs, 0) =~= elements_tokens(exprs, 0));
    } else {
        lemma_elements_tokens_join(exprs, (n - 1) as nat);
        let before = first_elements_tokens(exprs, (n - 1) as nat);
        let this = expr_tokens(exprs[n - 1]);
        let behind = elements_tokens(exprs, n as int);
        if n == 1 {
            if exprs.len() == 1 {
                assert(none + none + this =~= this + none + behind);
            } else {
                assert(none + none + (this + comma + behind) =~= this + comma + behind);
            }
        } else if n == exprs.len() {
            assert(before + comma + this =~= (before + comma + this) + none + behind);
        } else {
            assert(before + comma + (this + comma + behind) =~= (before + comma + this) + comma
                + behind);
        }
    }
}

/// The kinds of tokens that are put together.
pub proof fn lemma_kinds_concat(a: Seq<TokenModel>, b: Seq<TokenModel>)
    ensures
        kinds(a + b) == kinds(a) + kinds(b),
{
    assert(kinds(a + b) =~= kinds(a) + kinds(b));
}

/// What the tokenizer made of a text of `n` characters at `pos`: it read
/// the tokens `tokens`, which are of the kinds `want`, and went on behind the
/// text.
pub open spec fn lexed(
    src: Seq<char>,
    pos: int,
    n: nat,
    tokens: Seq<TokenModel>,
    want: Seq<TokenKindModel>,
) -> bool {
    &&& lex(src, pos) == after(tokens, lex(src, pos + n))
    &&& kinds(tokens) == want
}

/// Texts that are read one after the other are read together.
pub proof fn lemma_lexed_then(
    src: Seq<char>,
    pos: int,
    n: nat,
    a: Seq<TokenModel>,
    ka: Seq<TokenKindModel>,
    m: nat,
    b: Seq<TokenModel>,
    kb: Seq<TokenKindModel>,
)
    requires
        lexed(src, pos, n, a, ka),
        lexed(src, pos + n, m, b, kb),
    ensures
        lexed(src, pos, n + m, a + b, ka + kb),
{
    lemma_after_after(a, b, lex(src, pos + n + m));
    lemma_kinds_concat(a, b);
}

/// A text of one character that is a token by itself is read as that token.
pub proof fn lemma_lexed_punctuation(src: Seq<char>, pos: int, c: char, kind: TokenKindModel) -> (tokens:
    Seq<TokenModel>)
    requires
        holds(src, pos, seq![c]),
        punctuation(c) == Some(kind),
    ensures
        lexed(src, pos, 1, tokens, seq![kind]),
{
    lemma_holds_char(src, pos, seq![c], 0);
    lemma_lex_punctuation(src, pos, kind);
    let tokens = seq![token_at(src, pos, pos + 1, kind)];
    assert(kinds(tokens) =~= seq![kind]);
    tokens
}

/// A blank is read as nothing.
pub proof fn lemma_lexed_blank(src: Seq<char>, pos: int, c: char)
    requires
        holds(src, pos, seq![c]),
        c == ' ' || c == '\n',
    ensures
        lexed(src, pos, 1, Seq::empty(), Seq::empty()),
{
    lemma_holds_char(src, pos, seq![c], 0);
    lemma_lex_blank(src, pos);
    assert(kinds(Seq::<TokenModel>::empty()) =~= Seq::empty());
    if let Ok(tokens) = lex(src, pos + 1) {
        assert(Seq::<TokenModel>::empty() + tokens =~= tokens);
    }
}

/// A binary operator between blanks is read as its token.
pub proof fn lemma_lexed_operator(src: Seq<char>, pos: int, op: BinOpKind) -> (tokens: Seq<
    TokenModel,
>)
    requires
        holds(src, pos, " "@ + op.spec_symbol() + " "@),
    ensures
        (" "@ + op.spec_symbol() + " "@).len() == 3,
        lexed(src, pos, 3, tokens, seq![bin_op_token(op)]),
{
    reveal_strlit(" ");
    reveal_strlit("+");
    reveal_strlit("-");
    reveal_strlit("*");
    reveal_strlit("/");
    let c = op.spec_symbol()[0];
    assert(" "@ + op.spec_symbol() + " "@ =~= seq![' '] + (seq![c] + seq![' ']));
    lemma_holds_split(src, pos, seq![' '], seq![c] + seq![' ']);
    lemma_holds_split(src, pos + 1, seq![c], seq![' ']);
    lemma_lexed_blank(src, pos, ' ');
    lemma_lexed_blank(src, pos + 2, ' ');
    lemma_holds_char(src, pos + 1, seq![c], 0);
    lemma_holds_char(src, pos + 2, seq![' '], 0);
    let tokens = seq![token_at(src, pos + 1, pos + 2, bin_op_token(op))];
    assert(kinds(tokens) =~= seq![bin_op_token(op)]);
    if op is Div {
        lemma_lex_slash(src, pos + 1);
    } else {
        lemma_lex_punctuation(src, pos + 1, bin_op_token(op));
    }
    let none = Seq::<TokenModel>::empty();
    let no_kinds = Seq::<TokenKindModel>::empty();
    lemma_lexed_then(src, pos, 1, none, no_kinds, 1, tokens, seq![bin_op_token(op)]);
    assert(none + tokens =~= tokens);
    assert(no_kinds + seq![bin_op_token(op)] =~= seq![bin_op_token(op)]);
    lemma_lexed_then(src, pos, 2, tokens, seq![bin_op_token(op)], 1, none, no_kinds);
    assert(tokens + none =~= tokens);
    assert(seq![bin_op_token(op)] + no_kinds =~= seq![bin_op_token(op)]);
    tokens
}

/// The tokenizer reads from the text of an expression the tokens that
/// spell it.
pub proof fn lemma_lexes_expr<M>(expr: ExprModel<M>, src: Seq<char>, pos: int) -> (tokens: Seq<
    TokenModel,
>)
    requires
        legible(expr),
        holds(src, pos, written(expr_text(expr))),
        delimited(src, pos + written(expr_text(expr)).len()),
    ensures
        lexed(src, pos, written(expr_text(expr)).len(), tokens, expr_tokens(expr)),
    decreases expr, 1nat, 1nat,
{
    match expr.kind {
        ExprKindModel::Variable(name) => {
            lemma_written_plain(name.kind);
            lemma_lex_name(src, pos, name.kind);
            let tokens = seq![
                token_at(src, pos, pos + name.kind.len(), TokenKindModel::Name(name.kind)),
            ];
            assert(kinds(tokens) =~= expr_tokens(expr));
            tokens
        },
        ExprKindModel::Integer(i) => {
            lemma_written_plain(decimal(i as int));
            lemma_lex_integer(src, pos, i);
            let tokens = seq![
                token_at(src, pos, pos + digits(i as nat).len(), TokenKindModel::Int(i)),
            ];
            assert(kinds(tokens) =~= expr_tokens(expr));
            tokens
        },
        ExprKindModel::Float(x) => {
            lemma_written_one(Glyph::Float(x));
            lemma_lex_float(src, pos, literal_text(x));
            let tokens = seq![
                token_at(
                    src,
                    pos,
                    pos + literal_text(x).len(),
                    TokenKindModel::Float(literal_text(x)),
                ),
            ];
            assert(kinds(tokens) =~= expr_tokens(expr));
            tokens
        },
        ExprKindModel::UnaryOp { .. } => lemma_lexes_unary_op(expr, src, pos),
        ExprKindModel::BinOp { .. } => lemma_lexes_bin_op(expr, src, pos),
        ExprKindModel::Tuple(_) => lemma_lexes_tuple(expr, src, pos),
    }
}

/// The tokenizer reads from the text of a unary operation the tokens that
/// spell it.
pub proof fn lemma_lexes_unary_op<M>(expr: ExprModel<M>, src: Seq<char>, pos: int) -> (tokens: Seq<
    TokenModel,
>)
    requires
        expr.kind is UnaryOp,
        legible(expr),
        holds(src, pos, written(expr_text(expr))),
        delimited(src, pos + written(expr_text(expr)).len()),
    ensures
        lexed(src, pos, written(expr_text(expr)).len(), tokens, expr_tokens(expr)),
    decreases expr, 1nat, 0nat,
{
    let op = expr.kind->UnaryOp_op;
    let operand = expr.kind->operand;
    reveal_strlit("+");
    reveal_strlit("-");
    let c = op.kind.spec_symbol()[0];
    let rest = operand_text(*operand, op.kind.spec_precedence());
    lemma_written_concat(plain(op.kind.spec_symbol()), rest);
    lemma_written_plain(op.kind.spec_symbol());
    assert(op.kind.spec_symbol() =~= seq![c]);
    lemma_holds_split(src, pos, seq![c], written(rest));
    let first = lemma_lexed_punctuation(src, pos, c, unary_op_token(op.kind));
    let others = lemma_lexes_operand(*operand, op.kind.spec_precedence(), src, pos + 1);
    lemma_lexed_then(
        src,
        pos,
        1,
        first,
        seq![unary_op_token(op.kind)],
        written(rest).len(),
        others,
        operand_tokens(*operand, op.kind.spec_precedence()),
    );
    first + others
}

/// The tokenizer reads from the text of a binary operation the tokens
/// that spell it.
pub proof fn lemma_lexes_bin_op<M>(expr: ExprModel<M>, src: Seq<char>, pos: int) -> (tokens: Seq<
    TokenModel,
>)
    requires
        expr.kind is BinOp,
        legible(expr),
        holds(src, pos, written(expr_text(expr))),
        delimited(src, pos + written(expr_text(expr)).len()),
    ensures
        lexed(src, pos, written(expr_text(expr)).len(), tokens, expr_tokens(expr)),
    decreases expr, 1nat, 0nat,
{
    let text = written(expr_text(expr));
    let op = expr.kind->BinOp_op;
    let left = expr.kind->left;
    let right = expr.kind->right;
    let prec = op.kind.spec_precedence();
    let l = operand_text(*left, prec);
    let after = right_precedence(op.kind);
    let r = operand_text(*right, after);
    let between = " "@ + op.kind.spec_symbol() + " "@;
    lemma_written_concat(l, plain(" "@));
    lemma_written_concat(l + plain(" "@), plain(op.kind.spec_symbol()));
    lemma_written_concat(l + plain(" "@) + plain(op.kind.spec_symbol()), plain(" "@));
    lemma_written_concat(
        l + plain(" "@) + plain(op.kind.spec_symbol()) + plain(" "@),
        r,
    );
    lemma_written_plain(" "@);
    lemma_written_plain(op.kind.spec_symbol());
    assert(text =~= written(l) + (between + written(r)));
    lemma_holds_split(src, pos, written(l), between + written(r));
    lemma_holds_split(src, pos + written(l).len(), between, written(r));
    reveal_strlit(" ");
    lemma_holds_char(src, pos + written(l).len(), between, 0);
    let first = lemma_lexes_operand(*left, prec, src, pos);
    let middle = lemma_lexed_operator(src, pos + written(l).len(), op.kind);
    let last = lemma_lexes_operand(*right, after, src, pos + written(l).len() + 3);
    lemma_lexed_then(
        src,
        pos,
        written(l).len(),
        first,
        operand_tokens(*left, prec),
        3,
        middle,
        seq![bin_op_token(op.kind)],
    );
    lemma_lexed_then(
        src,
        pos,
        written(l).len() + 3,
        first + middle,
        operand_tokens(*left, prec) + seq![bin_op_token(op.kind)],
        written(r).len(),
        last,
        operand_tokens(*right, after),
    );
    first + middle + last
}

/// The tokenizer reads from the text of a tuple the tokens that spell it.
pub proof fn lemma_lexes_tuple<M>(expr: ExprModel<M>, src: Seq<char>, pos: int) -> (tokens: Seq<
    TokenModel,
>)
    requires
        expr.kind is Tuple,
        legible(expr),
        holds(src, pos, written(expr_text(expr))),
        delimited(src, pos + written(expr_text(expr)).len()),
    ensures
        lexed(src, pos, written(expr_text(expr)).len(), tokens, expr_tokens(expr)),
    decreases expr, 1nat, 0nat,
{
    let text = written(expr_text(expr));
    let exprs = expr.kind->Tuple_0;
    reveal_strlit("(");
    reveal_strlit(")");
    reveal_strlit(",)");
    let inner = elements_text(exprs, exprs.len());
    let close = if exprs.len() == 1 {
        ",)"@
    } else {
        ")"@
    };
    lemma_written_concat(plain("("@), inner);
    lemma_written_concat(plain("("@) + inner, plain(close));
    lemma_written_plain("("@);
    lemma_written_plain(close);
    assert(text =~= seq!['('] + (written(inner) + close));
    lemma_holds_split(src, pos, seq!['('], written(inner) + close);
    lemma_holds_split(src, pos + 1, written(inner), close);
    lemma_holds_char(src, pos + 1 + written(inner).len(), close, 0);
    let open = lemma_lexed_punctuation(src, pos, '(', TokenKindModel::LParen);
    let elements = lemma_lexes_elements(exprs, exprs.len(), src, pos + 1);
    lemma_elements_tokens_join(exprs, exprs.len());
    assert(elements_tokens(exprs, exprs.len() as int) =~= Seq::empty());
    assert(first_elements_tokens(exprs, exprs.len()) + Seq::<TokenKindModel>::empty()
        + Seq::<TokenKindModel>::empty() =~= first_elements_tokens(exprs, exprs.len()));
    let at_close = pos + 1 + written(inner).len();
    let end = if exprs.len() == 1 {
        assert(close =~= seq![','] + seq![')']);
        lemma_holds_split(src, at_close, seq![','], seq![')']);
        let comma = lemma_lexed_punctuation(src, at_close, ',', TokenKindModel::Comma);
        let paren = lemma_lexed_punctuation(
            src,
            at_close + 1,
            ')',
            TokenKindModel::RParen,
        );
        lemma_lexed_then(
            src,
            at_close,
            1,
            comma,
            seq![TokenKindModel::Comma],
            1,
            paren,
            seq![TokenKindModel::RParen],
        );
        assert(seq![TokenKindModel::Comma] + seq![TokenKindModel::RParen] =~= closing(1));
        comma + paren
    } else {
        assert(close =~= seq![')']);
        lemma_lexed_punctuation(src, at_close, ')', TokenKindModel::RParen)
    };
    lemma_lexed_then(
        src,
        pos,
        1,
        open,
        seq![TokenKindModel::LParen],
        written(inner).len(),
        elements,
        elements_tokens(exprs, 0),
    );
    lemma_lexed_then(
        src,
        pos,
        1 + written(inner).len(),
        open + elements,
        seq![TokenKindModel::LParen] + elements_tokens(exprs, 0),
        close.len(),
        end,
        closing(exprs.len()),
    );
    open + elements + end
}

/// The tokenizer reads from the text of an operand the tokens that spell
/// it.
pub proof fn lemma_lexes_operand<M>(expr: ExprModel<M>, prec: u8, src: Seq<char>, pos: int) -> (tokens:
    Seq<TokenModel>)
    requires
        legible(expr),
        holds(src, pos, written(operand_text(expr, prec))),
        delimited(src, pos + written(operand_text(expr, prec)).len()),
    ensures
        lexed(src, pos, written(operand_text(expr, prec)).len(), tokens, operand_tokens(expr, prec)),
    decreases expr, 2nat, 0nat,
{
    if expr.kind.precedence() < prec {
        reveal_strlit("(");
        reveal_strlit(")");
        let inner = expr_text(expr);
        lemma_written_concat(plain("("@), inner);
        lemma_written_concat(plain("("@) + inner, plain(")"@));
        lemma_written_plain("("@);
        lemma_written_plain(")"@);
        assert("("@ =~= seq!['(']);
        assert(")"@ =~= seq![')']);
        assert(written(operand_text(expr, prec)) =~= seq!['('] + (written(inner) + seq![')']));
        lemma_holds_split(src, pos, seq!['('], written(inner) + seq![')']);
        lemma_holds_split(src, pos + 1, written(inner), seq![')']);
        lemma_holds_char(src, pos + 1 + written(inner).len(), seq![')'], 0);
        let open = lemma_lexed_punctuation(src, pos, '(', TokenKindModel::LParen);
        let middle = lemma_lexes_expr(expr, src, pos + 1);
        let close = lemma_lexed_punctuation(
            src,
            pos + 1 + written(inner).len(),
            ')',
            TokenKindModel::RParen,
        );
        lemma_lexed_then(
            src,
            pos,
            1,
            open,
            seq![TokenKindModel::LParen],
            written(inner).len(),
            middle,
            expr_tokens(expr),
        );
        lemma_lexed_then(
            src,
            pos,
            1 + written(inner).len(),
            open + middle,
            seq![TokenKindModel::LParen] + expr_tokens(expr),
            1,
            close,
            seq![TokenKindModel::RParen],
        );
        open + middle + close
    } else {
        lemma_lexes_expr(expr, src, pos)
    }
}

/// The tokenizer reads from the text of the first elements of a tuple the
/// tokens that spell them.
pub proof fn lemma_lexes_elements<M>(
    exprs: Seq<ExprModel<M>>,
    n: nat,
    src: Seq<char>,
    pos: int,
) -> (tokens: Seq<TokenModel>)
    requires
        n <= exprs.len(),
        forall|i: int| 0 <= i < exprs.len() ==> legible(#[trigger] exprs[i]),
        holds(src, pos, written(elements_text(exprs, n))),
        delimited(src, pos + written(elements_text(exprs, n)).len()),
    ensures
        lexed(
            src,
            pos,
            written(elements_text(exprs, n)).len(),
            tokens,
            first_elements_tokens(exprs, n),
        ),
    decreases exprs, 0nat, n,
{
    if n == 0 {
        assert(written(elements_text(exprs, 0)) =~= Seq::<char>::empty());
        assert(kinds(Seq::<TokenModel>::empty()) =~= Seq::empty());
        if let Ok(tokens) = lex(src, pos) {
            assert(Seq::<TokenModel>::empty() + tokens =~= tokens);
        }
        Seq::empty()
    } else if n == 1 {
        assert(legible(exprs[0]));
        lemma_lexes_expr(exprs[0], src, pos)
    } else {
        reveal_strlit(", ");
        let before = elements_text(exprs, (n - 1) as nat);
        let this = expr_text(exprs[n - 1]);
        lemma_written_concat(before, plain(", "@));
        lemma_written_concat(before + plain(", "@), this);
        lemma_written_plain(", "@);
        assert(", "@ =~= seq![','] + seq![' ']);
        assert(written(elements_text(exprs, n)) =~= written(before) + (seq![','] + (seq![' ']
            + written(this))));
        let at_comma = pos + written(before).len();
        lemma_holds_split(src, pos, written(before), seq![','] + (seq![' '] + written(this)));
        lemma_holds_split(src, at_comma, seq![','], seq![' '] + written(this));
        lemma_holds_split(src, at_comma + 1, seq![' '], written(this));
        lemma_holds_char(src, at_comma, seq![','], 0);
        let first = lemma_lexes_elements(exprs, (n - 1) as nat, src, pos);
        let comma = lemma_lexed_punctuation(src, at_comma, ',', TokenKindModel::Comma);
        lemma_lexed_blank(src, at_comma + 1, ' ');
        assert(legible(exprs[n - 1]));
        let last = lemma_lexes_expr(exprs[n - 1], src, at_comma + 2);
        let none = Seq::<TokenModel>::empty();
        let no_kinds = Seq::<TokenKindModel>::empty();
        lemma_lexed_then(
            src,
            pos,
            written(before).len(),
            first,
            first_elements_tokens(exprs, (n - 1) as nat),
            1,
            comma,
            seq![TokenKindModel::Comma],
        );
        lemma_lexed_then(
            src,
            pos,
            written(before).len() + 1,
            first + comma,
            first_elements_tokens(exprs, (n - 1) as nat) + seq![TokenKindModel::Comma],
            1,
            none,
            no_kinds,
        );
        assert(first + comma + none =~= first + comma);
        assert(first_elements_tokens(exprs, (n - 1) as nat) + seq![TokenKindModel::Comma]
            + no_kinds =~= first_elements_tokens(exprs, (n - 1) as nat) + seq![
            TokenKindModel::Comma,
        ]);
        lemma_lexed_then(
            src,
            pos,
            written(before).len() + 2,
            first + comma,
            first_elements_tokens(exprs, (n - 1) as nat) + seq![TokenKindModel::Comma],
            written(this).len(),
            last,
            expr_tokens(exprs[n - 1]),
        );
        first + comma + last
    }
}

/// A single token of one character, read between two texts.
pub proof fn lemma_lexed_between(
    src: Seq<char>,
    pos: int,
    n: nat,
    a: Seq<TokenModel>,
    ka: Seq<TokenKindModel>,
    c: char,
    kind: TokenKindModel,
) -> (tokens: Seq<TokenModel>)
    requires
        lexed(src, pos, n, a, ka),
        holds(src, pos + n, seq![c]),
        punctuation(c) == Some(kind),
    ensures
        lexed(src, pos, n + 1, tokens, ka + seq![kind]),
{
    let one = lemma_lexed_punctuation(src, pos + n, c, kind);
    lemma_lexed_then(src, pos, n, a, ka, 1, one, seq![kind]);
    a + one
}

/// The tokenizer reads from the text of a statement the tokens that spell
/// it.
pub proof fn lemma_lexes_stmt<M>(stmt: StmtModel<M>, src: Seq<char>, pos: int) -> (tokens: Seq<
    TokenModel,
>)
    requires
        legible_stmt(stmt),
        holds(src, pos, written(stmt_text(stmt))),
    ensures
        lexed(src, pos, written(stmt_text(stmt)).len(), tokens, stmt_tokens(stmt)),
{
    match stmt.kind {
        StmtKindModel::Expr { .. } => lemma_lexes_expr_stmt(stmt, src, pos),
        StmtKindModel::Print { .. } => lemma_lexes_print_stmt(stmt, src, pos),
        StmtKindModel::Assign { .. } => lemma_lexes_assign_stmt(stmt, src, pos),
    }
}

/// The tokenizer reads from the text of an expression statement the
/// tokens that spell it.
pub proof fn lemma_lexes_expr_stmt<M>(stmt: StmtModel<M>, src: Seq<char>, pos: int) -> (tokens: Seq<
    TokenModel,
>)
    requires
        stmt.kind is Expr,
        legible_stmt(stmt),
        holds(src, pos, written(stmt_text(stmt))),
    ensures
        lexed(src, pos, written(stmt_text(stmt)).len(), tokens, stmt_tokens(stmt)),
{
    reveal_strlit(";");
    assert(";"@ =~= seq![';']);
    let text = written(stmt_text(stmt));
    let none = Seq::<TokenModel>::empty();
    let no_kinds = Seq::<TokenKindModel>::empty();
    let expr = stmt.kind->Expr_expr;
    let e = written(expr_text(expr));
    lemma_written_concat(expr_text(expr), plain(";"@));
    lemma_written_plain(";"@);
    lemma_holds_split(src, pos, e, seq![';']);
    lemma_holds_char(src, pos + e.len(), seq![';'], 0);
    let value = lemma_lexes_expr(expr, src, pos);
    lemma_lexed_between(
        src,
        pos,
        e.len(),
        value,
        expr_tokens(expr),
        ';',
        TokenKindModel::Semi,
    )
}

/// The tokenizer reads from the text of a print statement the tokens that
/// spell it.
pub proof fn lemma_lexes_print_stmt<M>(stmt: StmtModel<M>, src: Seq<char>, pos: int) -> (tokens: Seq<
    TokenModel,
>)
    requires
        stmt.kind is Print,
        legible_stmt(stmt),
        holds(src, pos, written(stmt_text(stmt))),
    ensures
        lexed(src, pos, written(stmt_text(stmt)).len(), tokens, stmt_tokens(stmt)),
{
    reveal_strlit(";");
    assert(";"@ =~= seq![';']);
    let text = written(stmt_text(stmt));
    let none = Seq::<TokenModel>::empty();
    let no_kinds = Seq::<TokenKindModel>::empty();
    let expr = stmt.kind->Print_expr;
    reveal_strlit("print ");
    let e = written(expr_text(expr));
    lemma_written_concat(plain("print "@), expr_text(expr));
    lemma_written_concat(plain("print "@) + expr_text(expr), plain(";"@));
    lemma_written_plain("print "@);
    lemma_written_plain(";"@);
    assert("print "@ =~= print_keyword() + seq![' ']);
    assert(text =~= print_keyword() + (seq![' '] + (e + seq![';'])));
    lemma_holds_split(src, pos, print_keyword(), seq![' '] + (e + seq![';']));
    lemma_holds_split(src, pos + 5, seq![' '], e + seq![';']);
    lemma_holds_split(src, pos + 6, e, seq![';']);
    lemma_holds_char(src, pos + 5, seq![' '], 0);
    lemma_holds_char(src, pos + 6 + e.len(), seq![';'], 0);
    lemma_lex_print(src, pos);
    let keyword = seq![token_at(src, pos, pos + 5, TokenKindModel::Print)];
    assert(kinds(keyword) =~= seq![TokenKindModel::Print]);
    lemma_lexed_blank(src, pos + 5, ' ');
    lemma_lexed_then(
        src,
        pos,
        5,
        keyword,
        seq![TokenKindModel::Print],
        1,
        none,
        no_kinds,
    );
    assert(keyword + none =~= keyword);
    assert(seq![TokenKindModel::Print] + no_kinds =~= seq![TokenKindModel::Print]);
    let value = lemma_lexes_expr(expr, src, pos + 6);
    lemma_lexed_then(
        src,
        pos,
        6,
        keyword,
        seq![TokenKindModel::Print],
        e.len(),
        value,
        expr_tokens(expr),
    );
    lemma_lexed_between(
        src,
        pos,
        6 + e.len(),
        keyword + value,
        seq![TokenKindModel::Print] + expr_tokens(expr),
        ';',
        TokenKindModel::Semi,
    )
}

/// The tokenizer reads from the text of an assignment the tokens that
/// spell it.
pub proof fn lemma_lexes_assign_stmt<M>(stmt: StmtModel<M>, src: Seq<char>, pos: int) -> (tokens: Seq<
    TokenModel,
>)
    requires
        stmt.kind is Assign,
        legible_stmt(stmt),
        holds(src, pos, written(stmt_text(stmt))),
    ensures
        lexed(src, pos, written(stmt_text(stmt)).len(), tokens, stmt_tokens(stmt)),
{
    reveal_strlit(";");
    assert(";"@ =~= seq![';']);
    let text = written(stmt_text(stmt));
    let none = Seq::<TokenModel>::empty();
    let no_kinds = Seq::<TokenKindModel>::empty();
    let name = stmt.kind->name;
    let value = stmt.kind->value;
    reveal_strlit(" = ");
    let e = written(expr_text(value));
    let n = name.kind.len();
    lemma_written_concat(plain(name.kind), plain(" = "@));
    lemma_written_concat(plain(name.kind) + plain(" = "@), expr_text(value));
    lemma_written_concat(
        plain(name.kind) + plain(" = "@) + expr_text(value),
        plain(";"@),
    );
    lemma_written_plain(name.kind);
    lemma_written_plain(" = "@);
    lemma_written_plain(";"@);
    assert(" = "@ =~= seq![' '] + (seq!['='] + seq![' ']));
    assert(text =~= name.kind + (seq![' '] + (seq!['='] + (seq![' '] + (e + seq![';'])))));
    lemma_holds_split(
        src,
        pos,
        name.kind,
        seq![' '] + (seq!['='] + (seq![' '] + (e + seq![';']))),
    );
    lemma_holds_split(src, pos + n, seq![' '], seq!['='] + (seq![' '] + (e + seq![';'])));
    lemma_holds_split(src, pos + n + 1, seq!['='], seq![' '] + (e + seq![';']));
    lemma_holds_split(src, pos + n + 2, seq![' '], e + seq![';']);
    lemma_holds_split(src, pos + n + 3, e, seq![';']);
    lemma_holds_char(src, pos + n, seq![' '], 0);
    lemma_holds_char(src, pos + n + 3 + e.len(), seq![';'], 0);
    lemma_lex_name(src, pos, name.kind);
    let variable = seq![
        token_at(src, pos, pos + n, TokenKindModel::Name(name.kind)),
    ];
    assert(kinds(variable) =~= seq![TokenKindModel::Name(name.kind)]);
    lemma_lexed_blank(src, pos + n, ' ');
    lemma_lexed_then(
        src,
        pos,
        n,
        variable,
        seq![TokenKindModel::Name(name.kind)],
        1,
        none,
        no_kinds,
    );
    assert(variable + none =~= variable);
    assert(seq![TokenKindModel::Name(name.kind)] + no_kinds =~= seq![
        TokenKindModel::Name(name.kind),
    ]);
    let head = lemma_lexed_between(
        src,
        pos,
        n + 1,
        variable,
        seq![TokenKindModel::Name(name.kind)],
        '=',
        TokenKindModel::Assign,
    );
    let head_kinds = seq![TokenKindModel::Name(name.kind)] + seq![TokenKindModel::Assign];
    assert(head_kinds =~= seq![TokenKindModel::Name(name.kind), TokenKindModel::Assign]);
    lemma_lexed_blank(src, pos + n + 2, ' ');
    lemma_lexed_then(src, pos, n + 2, head, head_kinds, 1, none, no_kinds);
    assert(head + none =~= head);
    assert(head_kinds + no_kinds =~= head_kinds);
    let v = lemma_lexes_expr(value, src, pos + n + 3);
    lemma_lexed_then(
        src,
        pos,
        n + 3,
        head,
        head_kinds,
        e.len(),
        v,
        expr_tokens(value),
    );
    lemma_lexed_between(
        src,
        pos,
        n + 3 + e.len(),
        head + v,
        head_kinds + expr_tokens(value),
        ';',
        TokenKindModel::Semi,
    )
}

/// The tokens that spell the first `n` statements of a program.
pub open spec fn first_program_tokens<M>(stmts: Seq<StmtModel<M>>, n: nat) -> Seq<TokenKindModel>
    decreases n,
{
    if n == 0 || n > stmts.len() {
        Seq::empty()
    } else {
        first_program_tokens(stmts, (n - 1) as nat) + stmt_tokens(stmts[n - 1])
    }
}

/// The tokens of a program are those of its first statements and those
/// of the others.
pub proof fn lemma_program_tokens_join<M>(stmts: Seq<StmtModel<M>>, n: nat)
    requires
        n <= stmts.len(),
    ensures
        program_tokens(stmts, 0) == first_program_tokens(stmts, n) + program_tokens(
            stmts,
            n as int,
        ),
    decreases n,
{
    if n == 0 {
        assert(Seq::<TokenKindModel>::empty() + program_tokens(stmts, 0) =~= program_tokens(
            stmts,
            0,
        ));
    } else {
        lemma_program_tokens_join(stmts, (n - 1) as nat);
        let before = first_program_tokens(stmts, (n - 1) as nat);
        assert(before + (stmt_tokens(stmts[n - 1]) + program_tokens(stmts, n as int)) =~= (before
            + stmt_tokens(stmts[n - 1])) + program_tokens(stmts, n as int));
    }
}

/// The tokenizer reads from the text of the first statements of a program
/// the tokens that spell them.
pub proof fn lemma_lexes_stmts<M>(stmts: Seq<StmtModel<M>>, n: nat, src: Seq<char>, pos: int) -> (tokens:
    Seq<TokenModel>)
    requires
        n <= stmts.len(),
        forall|i: int| 0 <= i < stmts.len() ==> legible_stmt(#[trigger] stmts[i]),
        holds(src, pos, written(stmts_text(stmts, n))),
    ensures
        lexed(src, pos, written(stmts_text(stmts, n)).len(), tokens, first_program_tokens(stmts, n)),
    decreases n,
{
    let none = Seq::<TokenModel>::empty();
    let no_kinds = Seq::<TokenKindModel>::empty();
    if n == 0 {
        assert(written(stmts_text(stmts, 0)) =~= Seq::<char>::empty());
        assert(kinds(none) =~= no_kinds);
        if let Ok(tokens) = lex(src, pos) {
            assert(none + tokens =~= tokens);
        }
        none
    } else {
        reveal_strlit("\n");
        assert("\n"@ =~= seq!['\n']);
        let before = written(stmts_text(stmts, (n - 1) as nat));
        let this = written(stmt_text(stmts[n - 1]));
        lemma_written_concat(stmts_text(stmts, (n - 1) as nat), stmt_text(stmts[n - 1]));
        lemma_written_concat(
            stmts_text(stmts, (n - 1) as nat) + stmt_text(stmts[n - 1]),
            plain("\n"@),
        );
        lemma_written_plain("\n"@);
        assert(written(stmts_text(stmts, n)) =~= before + (this + seq!['\n']));
        lemma_holds_split(src, pos, before, this + seq!['\n']);
        lemma_holds_split(src, pos + before.len(), this, seq!['\n']);
        let first = lemma_lexes_stmts(stmts, (n - 1) as nat, src, pos);
        assert(legible_stmt(stmts[n - 1]));
        let last = lemma_lexes_stmt(stmts[n - 1], src, pos + before.len());
        lemma_lexed_blank(src, pos + before.len() + this.len(), '\n');
        lemma_lexed_then(
            src,
            pos,
            before.len(),
            first,
            first_program_tokens(stmts, (n - 1) as nat),
            this.len(),
            last,
            stmt_tokens(stmts[n - 1]),
        );
        lemma_lexed_then(
            src,
            pos,
            before.len() + this.len(),
            first + last,
            first_program_tokens(stmts, n),
            1,
            none,
            no_kinds,
        );
        assert(first + last + none =~= first + last);
        assert(first_program_tokens(stmts, n) + no_kinds =~= first_program_tokens(stmts, n));
        first + last
    }
}

/// The tokenizer reads from the text of a program the tokens that spell
/// it, whenever the names and numbers of the program are written as the
/// tokenizer reads them.
pub proof fn formatted_program_is_tokenized<M>(stmts: Seq<StmtModel<M>>)
    requires
        forall|i: int| 0 <= i < stmts.len() ==> legible_stmt(#[trigger] stmts[i]),
    ensures
        tokens_of(written(program_text(stmts))) is Ok,
        kinds(tokens_of(written(program_text(stmts)))->Ok_0) == program_tokens(stmts, 0),
{
    let src = written(program_text(stmts));
    assert(src.subrange(0, src.len() as int) =~= src);
    let tokens = lemma_lexes_stmts(stmts, stmts.len(), src, 0);
    lemma_program_tokens_join(stmts, stmts.len());
    assert(first_program_tokens(stmts, stmts.len()) + Seq::<TokenKindModel>::empty()
        =~= first_program_tokens(stmts, stmts.len()));
    assert(tokens + Seq::<TokenModel>::empty() =~= tokens);
}

/// A program that is formatted, tokenized and parsed is the same program,
/// up to the metadata. This holds where the program is as the parser yields
/// them from what the tokenizer yields: its names are names, no integer is
/// negative, its floating-point numbers are literals, and its tuples have
/// elements.
pub proof fn formatted_program_reads_back<M>(stmts: Seq<StmtModel<M>>)
    requires
        forall|i: int| 0 <= i < stmts.len() ==> legible_stmt(#[trigger] stmts[i]),
        forall|i: int| 0 <= i < stmts.len() ==> plain_stmt(#[trigger] stmts[i]),
    ensures
        tokens_of(written(program_text(stmts))) is Ok,
        program_of(tokens_of(written(program_text(stmts)))->Ok_0) is Ok,
        bare_program(program_of(tokens_of(written(program_text(stmts)))->Ok_0)->Ok_0)
            == bare_program(stmts),
{
    formatted_program_is_tokenized(stmts);
    written_program_reads_back(stmts, tokens_of(written(program_text(stmts)))->Ok_0);
}

// =================================================================================================
// FROM TEXT TO TEXT

/// The text of an expression does not depend on its metadata.
pub proof fn lemma_text_of_bare<M>(expr: ExprModel<M>)
    ensures
        expr_text(bare(expr)) == expr_text(expr),
        bare(expr).kind.precedence() == expr.kind.precedence(),
    decreases expr, 1nat,
{
    match expr.kind {
        ExprKindModel::BinOp { op, left, right } => {
            lemma_text_of_bare(*left);
            lemma_text_of_bare(*right);
        },
        ExprKindModel::UnaryOp { op, operand } => {
            lemma_text_of_bare(*operand);
        },
        ExprKindModel::Tuple(exprs) => {
            lemma_elements_text_of_bare(exprs, exprs.len());
        },
        _ => {},
    }
}

/// The text of the elements of a tuple does not depend on their metadata.
pub proof fn lemma_elements_text_of_bare<M>(exprs: Seq<ExprModel<M>>, n: nat)
    requires
        n <= exprs.len(),
    ensures
        elements_text(bare(tuple(exprs)).kind->Tuple_0, n) == elements_text(exprs, n),
    decreases exprs, n,
{
    if n > 0 {
        lemma_elements_text_of_bare(exprs, (n - 1) as nat);
        lemma_text_of_bare(exprs[n - 1]);
    }
}

/// Some tuple of the expressions `exprs`.
pub open spec fn tuple<M>(exprs: Seq<ExprModel<M>>) -> ExprModel<M> {
    Meta { kind: ExprKindModel::Tuple(exprs), meta: arbitrary() }
}

/// The text of a program does not depend on its metadata.
pub proof fn lemma_program_text_of_bare<M>(stmts: Seq<StmtModel<M>>, n: nat)
    requires
        n <= stmts.len(),
    ensures
        stmts_text(bare_program(stmts), n) == stmts_text(stmts, n),
    decreases n,
{
    if n > 0 {
        lemma_program_text_of_bare(stmts, (n - 1) as nat);
        lemma_text_of_bare(stmt_expr(stmts[n - 1]));
    }
}

/// The program of a source text: what the parser reads from the tokens
/// of the text.
pub open spec fn program_of_text(src: Seq<char>) -> Result<Seq<StmtModel<Span>>, ErrorModel> {
    match tokens_of(src) {
        Ok(tokens) => program_of(tokens),
        Err(e) => Err(e),
    }
}

/// The text of a program that was read from a text is read back as the
/// same program, up to the metadata, and that program has the same text
/// again: a second round changes nothing.
///
/// In the text, each floating-point literal stands as it was read.
pub proof fn source_reads_back(src: Seq<char>, stmts: Seq<StmtModel<Span>>)
    requires
        program_of_text(src) == Ok::<_, ErrorModel>(stmts),
    ensures
        program_of_text(written(program_text(stmts))) is Ok,
        bare_program(program_of_text(written(program_text(stmts)))->Ok_0) == bare_program(stmts),
        written(program_text(program_of_text(written(program_text(stmts)))->Ok_0)) == written(
            program_text(stmts),
        ),
{
    let tokens = tokens_of(src)->Ok_0;
    lemma_lex_is_sound(src, 0);
    lemma_program_is_plain(tokens, 0);
    assert(sound_tokens(tokens));
    assert forall|i: int| 0 <= i < stmts.len() implies legible_stmt(#[trigger] stmts[i])
        && plain_stmt(stmts[i]) by {
        assert(program_at(tokens, 0)->Ok_0[i] == stmts[i]);
    }
    formatted_program_reads_back(stmts);
    let again = program_of_text(written(program_text(stmts)))->Ok_0;
    assert(again.len() == stmts.len()) by {
        assert(bare_program(again).len() == bare_program(stmts).len());
    }
    lemma_program_text_of_bare(again, again.len());
    lemma_program_text_of_bare(stmts, stmts.len());
}

} // verus!
