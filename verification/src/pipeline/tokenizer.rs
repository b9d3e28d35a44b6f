//! The tokenizer: from a source text to its tokens.
//!
//! [`lex`] says what the tokens of a text are; [`tokenize_text`] computes them.

use crate::data::meta::Meta;
use crate::data::span::{Loc, Span};
use crate::data::token::{tokens_model, Token, TokenKind, TokenKindModel, TokenModel};
use crate::errors::{
    syntax_error, ErrorModel, Failure, SyntaxError, SyntaxErrorModel, TokenizerError,
};
use crate::text::{chars_of, string_of};
use vstd::prelude::*;

verus! {

// =================================================================================================
// CHARACTER CLASSES

/// Whether a character has the Unicode property `White_Space`.
pub open spec fn is_whitespace(c: char) -> bool {
    let u = c as u32;
    ||| 0x09 <= u <= 0x0D
    ||| u == 0x20
    ||| u == 0x85
    ||| u == 0xA0
    ||| u == 0x1680
    ||| 0x2000 <= u <= 0x200A
    ||| u == 0x2028
    ||| u == 0x2029
    ||| u == 0x202F
    ||| u == 0x205F
    ||| u == 0x3000
}

pub open spec fn is_digit(c: char) -> bool {
    '0' <= c <= '9'
}

/// Whether a name can start with the character.
pub open spec fn is_name_start(c: char) -> bool {
    ('a' <= c <= 'z') || ('A' <= c <= 'Z') || c == '_'
}

/// Whether a name can go on with the character.
pub open spec fn is_name_part(c: char) -> bool {
    is_name_start(c) || is_digit(c)
}

/// The token that a character is by itself, if it is one. A slash is not
/// listed: it may start a comment.
pub open spec fn punctuation(c: char) -> Option<TokenKindModel> {
    if c == ';' {
        Some(TokenKindModel::Semi)
    } else if c == '(' {
        Some(TokenKindModel::LParen)
    } else if c == ')' {
        Some(TokenKindModel::RParen)
    } else if c == ',' {
        Some(TokenKindModel::Comma)
    } else if c == '=' {
        Some(TokenKindModel::Assign)
    } else if c == '+' {
        Some(TokenKindModel::Plus)
    } else if c == '-' {
        Some(TokenKindModel::Minus)
    } else if c == '*' {
        Some(TokenKindModel::Star)
    } else {
        None
    }
}

fn char_is_whitespace(c: char) -> (r: bool)
    ensures
        r == is_whitespace(c),
{
    let u: u32 = c as u32;
    (0x09 <= u && u <= 0x0D) || u == 0x20 || u == 0x85 || u == 0xA0 || u == 0x1680 || (0x2000 <= u
        && u <= 0x200A) || u == 0x2028 || u == 0x2029 || u == 0x202F || u == 0x205F || u == 0x3000
}

fn char_is_digit(c: char) -> (r: bool)
    ensures
        r == is_digit(c),
{
    '0' <= c && c <= '9'
}

fn char_is_name_start(c: char) -> (r: bool)
    ensures
        r == is_name_start(c),
{
    ('a' <= c && c <= 'z') || ('A' <= c && c <= 'Z') || c == '_'
}

fn char_is_name_part(c: char) -> (r: bool)
    ensures
        r == is_name_part(c),
{
    char_is_name_start(c) || char_is_digit(c)
}

// =================================================================================================
// LOCATIONS

/// Where a reader stands that stood at `loc` and has read `c`.
pub open spec fn advance(loc: Loc, c: char) -> Loc {
    if c == '\n' {
        Loc { line: (loc.line + 1) as usize, col: 0 }
    } else {
        Loc { line: loc.line, col: (loc.col + 1) as usize }
    }
}

/// Where a reader stands that has read the first `n` characters of `src`:
/// the line is one more than the number of line feeds read, the column is the
/// number of characters read since the last of them.
pub open spec fn loc_after(src: Seq<char>, n: int) -> Loc
    decreases n,
{
    if n <= 0 {
        Loc { line: 1, col: 0 }
    } else {
        advance(loc_after(src, n - 1), src[n - 1])
    }
}

/// The range of the token made of `src[from..to]`: from the place of its
/// first character to the place of its last.
pub open spec fn span_of(src: Seq<char>, from: int, to: int) -> Span {
    Span { start: loc_after(src, from + 1), end: loc_after(src, to) }
}

pub proof fn lemma_loc_bounds(src: Seq<char>, n: int)
    requires
        0 <= n < usize::MAX,
    ensures
        loc_after(src, n).line <= n + 1,
        loc_after(src, n).col <= n,
    decreases n,
{
    if n > 0 {
        lemma_loc_bounds(src, n - 1);
    }
}

// =================================================================================================
// WHAT THE TOKENS OF A TEXT ARE

/// How many characters from `src[pos]` on are digits, up to the first that
/// is not.
pub open spec fn digit_run(src: Seq<char>, pos: int) -> nat
    decreases src.len() - pos,
{
    if pos < src.len() && is_digit(src[pos]) {
        1 + digit_run(src, pos + 1)
    } else {
        0
    }
}

/// How many characters from `src[pos]` on can be part of a name, up to the
/// first that cannot.
pub open spec fn name_run(src: Seq<char>, pos: int) -> nat
    decreases src.len() - pos,
{
    if pos < src.len() && is_name_part(src[pos]) {
        1 + name_run(src, pos + 1)
    } else {
        0
    }
}

/// How many characters a line comment takes from `src[pos]` on: all up to
/// and with the next line feed, or up to the end of the text.
pub open spec fn line_rest(src: Seq<char>, pos: int) -> nat
    decreases src.len() - pos,
{
    if pos >= src.len() {
        0
    } else if src[pos] == '\n' {
        1
    } else {
        1 + line_rest(src, pos + 1)
    }
}

/// How many characters a block comment takes from `src[pos]` on: all up to
/// and with the next `*/`, or up to the end of the text.
pub open spec fn block_rest(src: Seq<char>, pos: int) -> nat
    decreases src.len() - pos,
{
    if pos >= src.len() {
        0
    } else if src[pos] == '*' && pos + 1 < src.len() && src[pos + 1] == '/' {
        2
    } else {
        1 + block_rest(src, pos + 1)
    }
}

/// The number that a sequence of digits denotes.
pub open spec fn number(digits: Seq<char>) -> nat
    decreases digits.len(),
{
    if digits.len() == 0 {
        0
    } else {
        number(digits.drop_last()) * 10 + (digits.last() as nat - '0' as nat) as nat
    }
}

/// The keyword `print`.
pub open spec fn print_keyword() -> Seq<char> {
    seq!['p', 'r', 'i', 'n', 't']
}

/// How many characters of `src` are left at `pos`.
pub open spec fn left(src: Seq<char>, pos: int) -> nat {
    if pos <= src.len() {
        (src.len() - pos) as nat
    } else {
        0
    }
}

/// What the tokenizer yields: the tokens, or its first error.
pub type Lexed = Result<Seq<TokenModel>, ErrorModel>;

/// `done`, followed by what `rest` yields.
pub open spec fn after(done: Seq<TokenModel>, rest: Lexed) -> Lexed {
    match rest {
        Ok(tokens) => Ok(done + tokens),
        Err(e) => Err(e),
    }
}

/// The token of kind `kind` made of `src[from..to]`.
pub open spec fn token_at(src: Seq<char>, from: int, to: int, kind: TokenKindModel) -> TokenModel {
    Meta { kind, meta: span_of(src, from, to) }
}

/// The tokens of `src[pos..]`, or the first error in it.
///
/// White space and comments separate tokens and are dropped. A comment that
/// is not closed goes up to the end of the text. A run of digits is an
/// integer; if a point and a further digit follow it directly, the run, the
/// point and the digits after the point are a floating-point number. A point
/// with no digit behind it belongs to no number, and so to no token. A name
/// starts with a letter or an underscore and goes on with letters, digits and
/// underscores; the name `print` is the keyword. Any character that belongs
/// to no token is an error.
pub open spec fn lex(src: Seq<char>, pos: int) -> Lexed
    decreases left(src, pos),
{
    if pos >= src.len() {
        Ok(Seq::empty())
    } else {
        let c = src[pos];
        if is_whitespace(c) {
            lex(src, pos + 1)
        } else if is_digit(c) {
            let point: int = pos + 1 + digit_run(src, pos + 1);
            if point < src.len() && src[point] == '.' && digit_run(src, point + 1) > 0 {
                let end: int = point + 1 + digit_run(src, point + 1);
                let text = src.subrange(pos, end);
                after(seq![token_at(src, pos, end, TokenKindModel::Float(text))], lex(src, end))
            } else {
                let value = number(src.subrange(pos, point));
                if value > i32::MAX {
                    Err(syntax_error(SyntaxErrorModel::IntegerOutOfRange, span_of(src, pos, point)))
                } else {
                    after(
                        seq![token_at(src, pos, point, TokenKindModel::Int(value as i32))],
                        lex(src, point),
                    )
                }
            }
        } else if is_name_start(c) {
            let end = pos + 1 + name_run(src, pos + 1);
            let text = src.subrange(pos, end);
            let kind = if text == print_keyword() {
                TokenKindModel::Print
            } else {
                TokenKindModel::Name(text)
            };
            after(seq![token_at(src, pos, end, kind)], lex(src, end))
        } else if c == '/' {
            if pos + 1 < src.len() && src[pos + 1] == '/' {
                lex(src, pos + 2 + line_rest(src, pos + 2))
            } else if pos + 1 < src.len() && src[pos + 1] == '*' {
                lex(src, pos + 2 + block_rest(src, pos + 2))
            } else {
                after(seq![token_at(src, pos, pos + 1, TokenKindModel::Slash)], lex(src, pos + 1))
            }
        } else {
            match punctuation(c) {
                Some(kind) => after(seq![token_at(src, pos, pos + 1, kind)], lex(src, pos + 1)),
                None => Err(
                    syntax_error(
                        SyntaxErrorModel::UnexpectedCharacter(c),
                        span_of(src, pos, pos + 1),
                    ),
                ),
            }
        }
    }
}

/// The tokens of a text, or the first error in it.
pub open spec fn tokens_of(src: Seq<char>) -> Lexed {
    lex(src, 0)
}

// =================================================================================================
// WHAT HOLDS OF THE TOKENS

/// Whether a character is no white space and starts no token. A point is
/// such a character: it stands in a number only between two digits.
pub open spec fn belongs_nowhere(c: char) -> bool {
    &&& !is_whitespace(c)
    &&& !is_digit(c)
    &&& !is_name_start(c)
    &&& c != '/'
    &&& punctuation(c) is None
}

/// Whether an error is that of the character `src[at]`, which belongs
/// nowhere: the error names the character and lies at it.
pub open spec fn fails_at(src: Seq<char>, e: ErrorModel, at: int) -> bool {
    &&& 0 <= at < src.len()
    &&& belongs_nowhere(src[at])
    &&& e == syntax_error(SyntaxErrorModel::UnexpectedCharacter(src[at]), span_of(src, at, at + 1))
}

/// The tokenizer fails on two things only: an integer that is too large,
/// and a character that is no white space and starts no token. The error
/// for such a character names it and lies at it. The place of the character
/// is returned.
pub proof fn tokenizer_fails_at_a_character(src: Seq<char>, pos: int) -> (at: int)
    requires
        0 <= pos,
        lex(src, pos) is Err,
    ensures
        lex(src, pos)->Err_0.failure == Failure::Syntax(SyntaxErrorModel::IntegerOutOfRange) || (pos
            <= at && fails_at(src, lex(src, pos)->Err_0, at)),
    decreases left(src, pos),
{
    let c = src[pos];
    if is_whitespace(c) {
        tokenizer_fails_at_a_character(src, pos + 1)
    } else if is_digit(c) {
        let point: int = pos + 1 + digit_run(src, pos + 1);
        if point < src.len() && src[point] == '.' && digit_run(src, point + 1) > 0 {
            tokenizer_fails_at_a_character(src, point + 1 + digit_run(src, point + 1))
        } else if number(src.subrange(pos, point)) > i32::MAX {
            pos
        } else {
            tokenizer_fails_at_a_character(src, point)
        }
    } else if is_name_start(c) {
        tokenizer_fails_at_a_character(src, pos + 1 + name_run(src, pos + 1))
    } else if c == '/' {
        if pos + 1 < src.len() && src[pos + 1] == '/' {
            tokenizer_fails_at_a_character(src, pos + 2 + line_rest(src, pos + 2))
        } else if pos + 1 < src.len() && src[pos + 1] == '*' {
            tokenizer_fails_at_a_character(src, pos + 2 + block_rest(src, pos + 2))
        } else {
            tokenizer_fails_at_a_character(src, pos + 1)
        }
    } else if punctuation(c) is Some {
        tokenizer_fails_at_a_character(src, pos + 1)
    } else {
        pos
    }
}

// =================================================================================================
// COMPUTING THE TOKENS

/// A run of digits has a digit where it starts, or none.
pub proof fn lemma_digit_run_starts(src: Seq<char>, pos: int)
    requires
        0 <= pos,
    ensures
        digit_run(src, pos) > 0 <==> pos < src.len() && is_digit(src[pos]),
{
}

/// Every character of a run of digits is a digit.
pub proof fn lemma_digit_run(src: Seq<char>, pos: int)
    requires
        0 <= pos <= src.len(),
    ensures
        pos + digit_run(src, pos) <= src.len(),
        forall|i: int| pos <= i < pos + digit_run(src, pos) ==> is_digit(#[trigger] src[i]),
    decreases src.len() - pos,
{
    if pos < src.len() && is_digit(src[pos]) {
        lemma_digit_run(src, pos + 1);
    }
}

/// Every character of a run of name characters is a name character.
pub proof fn lemma_name_run(src: Seq<char>, pos: int)
    requires
        0 <= pos <= src.len(),
    ensures
        pos + name_run(src, pos) <= src.len(),
        forall|i: int| pos <= i < pos + name_run(src, pos) ==> is_name_part(#[trigger] src[i]),
    decreases src.len() - pos,
{
    if pos < src.len() && is_name_part(src[pos]) {
        lemma_name_run(src, pos + 1);
    }
}

/// Tokens that are read one after the other are read together.
pub proof fn lemma_after_push(done: Seq<TokenModel>, token: TokenModel, rest: Lexed)
    ensures
        after(done, after(seq![token], rest)) == after(done.push(token), rest),
{
    if let Ok(tokens) = rest {
        assert(done + (seq![token] + tokens) =~= done.push(token) + tokens);
    }
}

fn step(loc: Loc, c: char) -> (next: Loc)
    requires
        loc.line < usize::MAX,
        loc.col < usize::MAX,
    ensures
        next == advance(loc, c),
{
    if c == '\n' {
        Loc { line: loc.line + 1, col: 0 }
    } else {
        Loc { line: loc.line, col: loc.col + 1 }
    }
}

/// Where a reader stands at `chars[to]` that stood at `loc` at `chars[from]`.
fn walk(chars: &Vec<char>, from: usize, to: usize, loc: Loc) -> (end: Loc)
    requires
        from <= to <= chars.len() < usize::MAX,
        loc == loc_after(chars@, from as int),
    ensures
        end == loc_after(chars@, to as int),
{
    let mut i: usize = from;
    let mut loc = loc;
    while i < to
        invariant
            from <= i <= to <= chars.len() < usize::MAX,
            loc == loc_after(chars@, i as int),
        decreases to - i,
    {
        proof {
            lemma_loc_bounds(chars@, i as int);
        }
        loc = step(loc, chars[i]);
        i += 1;
    }
    loc
}

fn digits_end(chars: &Vec<char>, pos: usize) -> (end: usize)
    requires
        pos <= chars.len(),
    ensures
        end == pos + digit_run(chars@, pos as int),
        end <= chars.len(),
{
    let mut end: usize = pos;
    while end < chars.len() && char_is_digit(chars[end])
        invariant
            pos <= end <= chars.len(),
            end + digit_run(chars@, end as int) == pos + digit_run(chars@, pos as int),
        decreases chars.len() - end,
    {
        end += 1;
    }
    end
}

fn name_end(chars: &Vec<char>, pos: usize) -> (end: usize)
    requires
        pos <= chars.len(),
    ensures
        end == pos + name_run(chars@, pos as int),
        end <= chars.len(),
{
    let mut end: usize = pos;
    while end < chars.len() && char_is_name_part(chars[end])
        invariant
            pos <= end <= chars.len(),
            end + name_run(chars@, end as int) == pos + name_run(chars@, pos as int),
        decreases chars.len() - end,
    {
        end += 1;
    }
    end
}

fn line_end(chars: &Vec<char>, pos: usize) -> (end: usize)
    requires
        pos <= chars.len(),
    ensures
        end == pos + line_rest(chars@, pos as int),
        end <= chars.len(),
{
    let mut end: usize = pos;
    while end < chars.len()
        invariant
            pos <= end <= chars.len(),
            end + line_rest(chars@, end as int) == pos + line_rest(chars@, pos as int),
        decreases chars.len() - end,
    {
        let c = chars[end];
        end += 1;
        if c == '\n' {
            return end;
        }
    }
    end
}

fn block_end(chars: &Vec<char>, pos: usize) -> (end: usize)
    requires
        pos <= chars.len(),
    ensures
        end == pos + block_rest(chars@, pos as int),
        end <= chars.len(),
{
    let mut end: usize = pos;
    while end < chars.len()
        invariant
            pos <= end <= chars.len(),
            end + block_rest(chars@, end as int) == pos + block_rest(chars@, pos as int),
        decreases chars.len() - end,
    {
        if chars[end] == '*' && end + 1 < chars.len() && chars[end + 1] == '/' {
            return end + 2;
        }
        end += 1;
    }
    end
}

/// The number that the digits `chars[from..to]` denote, if it is an `i32`.
fn number_of(chars: &Vec<char>, from: usize, to: usize) -> (value: Option<i32>)
    requires
        from <= to <= chars.len(),
        forall|i: int| from <= i < to ==> is_digit(#[trigger] chars@[i]),
    ensures
        match value {
            Some(v) => number(chars@.subrange(from as int, to as int)) == v,
            None => number(chars@.subrange(from as int, to as int)) > i32::MAX,
        },
{
    let mut value: u32 = 0;
    let mut i: usize = from;
    while i < to
        invariant
            from <= i <= to <= chars.len(),
            forall|i: int| from <= i < to ==> is_digit(#[trigger] chars@[i]),
            value == number(chars@.subrange(from as int, i as int)),
            value <= i32::MAX,
        decreases to - i,
    {
        let c = chars[i];
        assert(is_digit(chars@[i as int]));
        let d: u32 = c as u32 - 48;
        let ghost before = chars@.subrange(from as int, i as int);
        let ghost now = chars@.subrange(from as int, i as int + 1);
        assert(now.drop_last() == before);
        assert(number(now) == number(before) * 10 + d);
        if value > 214748364 || (value == 214748364 && d > 7) {
            proof {
                let all = chars@.subrange(from as int, to as int);
                assert(now =~= all.take(now.len() as int));
                lemma_number_grows(now, all);
            }
            return None;
        }
        value = value * 10 + d;
        i += 1;
    }
    Some(value as i32)
}

/// A sequence of digits denotes at least what its beginning denotes.
pub proof fn lemma_number_grows(prefix: Seq<char>, digits: Seq<char>)
    requires
        prefix.len() <= digits.len(),
        prefix == digits.take(prefix.len() as int),
        forall|i: int| 0 <= i < digits.len() ==> is_digit(#[trigger] digits[i]),
    ensures
        number(prefix) <= number(digits),
    decreases digits.len(),
{
    if prefix.len() < digits.len() {
        assert(digits.drop_last().take(prefix.len() as int) == prefix);
        lemma_number_grows(prefix, digits.drop_last());
    } else {
        assert(prefix == digits);
    }
}

/// Whether `chars[from..to]` spells `print`.
fn is_print(chars: &Vec<char>, from: usize, to: usize) -> (r: bool)
    requires
        from <= to <= chars.len(),
    ensures
        r == (chars@.subrange(from as int, to as int) == print_keyword()),
{
    let r = to - from == 5 && chars[from] == 'p' && chars[from + 1] == 'r' && chars[from + 2] == 'i'
        && chars[from + 3] == 'n' && chars[from + 4] == 't';
    proof {
        let text = chars@.subrange(from as int, to as int);
        if r {
            assert(text =~= print_keyword());
        } else if text == print_keyword() {
            assert(text.len() == 5);
            assert(text[0] == 'p' && text[1] == 'r' && text[2] == 'i' && text[3] == 'n' && text[4]
                == 't');
        }
    }
    r
}

fn punctuation_of(c: char) -> (kind: Option<TokenKind>)
    ensures
        match kind {
            Some(k) => punctuation(c) == Some(k.model()),
            None => punctuation(c) is None,
        },
{
    if c == ';' {
        Some(TokenKind::Semi)
    } else if c == '(' {
        Some(TokenKind::LParen)
    } else if c == ')' {
        Some(TokenKind::RParen)
    } else if c == ',' {
        Some(TokenKind::Comma)
    } else if c == '=' {
        Some(TokenKind::Assign)
    } else if c == '+' {
        Some(TokenKind::Plus)
    } else if c == '-' {
        Some(TokenKind::Minus)
    } else if c == '*' {
        Some(TokenKind::Star)
    } else {
        None
    }
}

/// What [`tokenize_text`] yields for `src`.
pub open spec fn tokenized(src: Seq<char>, result: Result<Vec<Token>, TokenizerError>) -> bool {
    match result {
        Ok(tokens) => tokens_of(src) == Ok::<Seq<TokenModel>, ErrorModel>(tokens_model(tokens@)),
        Err(e) => tokens_of(src) == Err::<Seq<TokenModel>, ErrorModel>(e.model()),
    }
}

/// The tokens of `source`, or the first error in it.
pub fn tokenize_text(source: &str) -> (result: Result<Vec<Token>, TokenizerError>)
    requires
        source@.len() < usize::MAX,
    ensures
        tokenized(source@, result),
{
    let chars = chars_of(source);
    let n = chars.len();
    let ghost src = chars@;
    let mut tokens: Vec<Token> = Vec::new();
    let mut pos: usize = 0;
    let mut loc = Loc { line: 1, col: 0 };
    assert(tokens_model(tokens@) =~= Seq::empty());
    while pos < n
        invariant
            pos <= n == chars.len() < usize::MAX,
            src == chars@,
            src == source@,
            loc == loc_after(src, pos as int),
            tokens_of(src) == after(tokens_model(tokens@), lex(src, pos as int)),
        decreases n - pos,
    {
        let c = chars[pos];
        proof {
            lemma_loc_bounds(src, pos as int);
            lemma_digit_run(src, pos as int + 1);
            lemma_name_run(src, pos as int + 1);
            lemma_digit_run_starts(src, pos + 1 + digit_run(src, pos as int + 1) + 1);
        }
        let start = step(loc, c);
        let ghost done = tokens_model(tokens@);
        let end: usize;
        let kind: TokenKind;
        if char_is_whitespace(c) {
            pos += 1;
            loc = start;
            continue ;
        } else if char_is_digit(c) {
            let point = digits_end(&chars, pos + 1);
            if point < n && chars[point] == '.' && point + 1 < n && char_is_digit(chars[point + 1]) {
                proof {
                    lemma_digit_run(src, point as int + 1);
                }
                end = digits_end(&chars, point + 1);
                kind = TokenKind::Float(string_of(&chars, pos, end));
            } else {
                end = point;
                match number_of(&chars, pos, point) {
                    Some(value) => {
                        kind = TokenKind::Int(value);
                    },
                    None => {
                        let last = walk(&chars, pos + 1, point, start);
                        return Err(
                            TokenizerError::SyntaxError(
                                SyntaxError::IntegerOutOfRange,
                                Span { start, end: last },
                            ),
                        );
                    },
                }
            }
        } else if char_is_name_start(c) {
            end = name_end(&chars, pos + 1);
            if is_print(&chars, pos, end) {
                kind = TokenKind::Print;
            } else {
                kind = TokenKind::Name(string_of(&chars, pos, end));
            }
        } else if c == '/' {
            if pos + 1 < n && chars[pos + 1] == '/' {
                let next = line_end(&chars, pos + 2);
                loc = walk(&chars, pos + 1, next, start);
                pos = next;
                continue ;
            } else if pos + 1 < n && chars[pos + 1] == '*' {
                let next = block_end(&chars, pos + 2);
                loc = walk(&chars, pos + 1, next, start);
                pos = next;
                continue ;
            } else {
                end = pos + 1;
                kind = TokenKind::Slash;
            }
        } else {
            end = pos + 1;
            match punctuation_of(c) {
                Some(k) => {
                    kind = k;
                },
                None => {
                    return Err(
                        TokenizerError::SyntaxError(
                            SyntaxError::UnexpectedCharacter(c),
                            Span { start, end: start },
                        ),
                    );
                },
            }
        }
        let last = walk(&chars, pos + 1, end, start);
        let token = Token::new(kind, Span { start, end: last });
        proof {
            assert(lex(src, pos as int) == after(seq![token.model()], lex(src, end as int)));
            lemma_after_push(done, token.model(), lex(src, end as int));
            assert(tokens_model(tokens@.push(token)) =~= done.push(token.model()));
        }
        tokens.push(token);
        pos = end;
        loc = last;
    }
    proof {
        assert(tokens_model(tokens@) + Seq::<TokenModel>::empty() =~= tokens_model(tokens@));
    }
    Ok(tokens)
}

} // verus!
