//! Tokens.

use crate::data::meta::Meta;
use crate::data::span::Span;
use crate::text::{decimal, push_char, push_decimal};
use vstd::prelude::*;
use vstd::string::StringExecFns;

verus! {

#[derive(Debug, PartialEq)]
pub enum TokenKind {
    Name(String),
    Int(i32),
    /// A floating-point literal, as it was written: digits, a point, and
    /// more digits.
    Float(String),
    // punctuation
    Semi,
    Assign,
    LParen,
    RParen,
    Comma,
    // operators
    Plus,
    Minus,
    Star,
    Slash,
    // keywords
    Print,
}

/// What a [`TokenKind`] stands for.
pub enum TokenKindModel {
    Name(Seq<char>),
    Int(i32),
    Float(Seq<char>),
    Semi,
    Assign,
    LParen,
    RParen,
    Comma,
    Plus,
    Minus,
    Star,
    Slash,
    Print,
}

impl TokenKindModel {
    /// How a token is written in a source text. A name and a number are
    /// written as they were read.
    pub open spec fn text(self) -> Seq<char> {
        match self {
            TokenKindModel::Name(name) => name,
            TokenKindModel::Int(i) => decimal(i as int),
            TokenKindModel::Float(text) => text,
            TokenKindModel::Semi => ";"@,
            TokenKindModel::Assign => "="@,
            TokenKindModel::LParen => "("@,
            TokenKindModel::RParen => ")"@,
            TokenKindModel::Comma => ","@,
            TokenKindModel::Plus => "+"@,
            TokenKindModel::Minus => "-"@,
            TokenKindModel::Star => "*"@,
            TokenKindModel::Slash => "/"@,
            TokenKindModel::Print => "print"@,
        }
    }
}

impl TokenKind {
    /// How the token is shown: as it is written, between quotes.
    pub fn to_string(&self) -> (shown: String)
        ensures
            shown@ == seq!['\''] + self.model().text() + seq!['\''],
    {
        let mut shown = String::new();
        push_char(&mut shown, '\'');
        match self {
            TokenKind::Name(name) => shown.append(name.as_str()),
            TokenKind::Int(i) => push_decimal(&mut shown, *i),
            TokenKind::Float(text) => shown.append(text.as_str()),
            TokenKind::Semi => shown.append(";"),
            TokenKind::Assign => shown.append("="),
            TokenKind::LParen => shown.append("("),
            TokenKind::RParen => shown.append(")"),
            TokenKind::Comma => shown.append(","),
            TokenKind::Plus => shown.append("+"),
            TokenKind::Minus => shown.append("-"),
            TokenKind::Star => shown.append("*"),
            TokenKind::Slash => shown.append("/"),
            TokenKind::Print => shown.append("print"),
        }
        push_char(&mut shown, '\'');
        assert(shown@ =~= seq!['\''] + self.model().text() + seq!['\'']);
        shown
    }

    pub open spec fn model(self) -> TokenKindModel {
        match self {
            TokenKind::Name(name) => TokenKindModel::Name(name@),
            TokenKind::Int(i) => TokenKindModel::Int(i),
            TokenKind::Float(text) => TokenKindModel::Float(text@),
            TokenKind::Semi => TokenKindModel::Semi,
            TokenKind::Assign => TokenKindModel::Assign,
            TokenKind::LParen => TokenKindModel::LParen,
            TokenKind::RParen => TokenKindModel::RParen,
            TokenKind::Comma => TokenKindModel::Comma,
            TokenKind::Plus => TokenKindModel::Plus,
            TokenKind::Minus => TokenKindModel::Minus,
            TokenKind::Star => TokenKindModel::Star,
            TokenKind::Slash => TokenKindModel::Slash,
            TokenKind::Print => TokenKindModel::Print,
        }
    }

    /// A copy of the token kind.
    pub fn duplicate(&self) -> (copy: TokenKind)
        ensures
            copy == *self,
    {
        match self {
            TokenKind::Name(name) => TokenKind::Name(name.clone()),
            TokenKind::Int(i) => TokenKind::Int(*i),
            TokenKind::Float(text) => TokenKind::Float(text.clone()),
            TokenKind::Semi => TokenKind::Semi,
            TokenKind::Assign => TokenKind::Assign,
            TokenKind::LParen => TokenKind::LParen,
            TokenKind::RParen => TokenKind::RParen,
            TokenKind::Comma => TokenKind::Comma,
            TokenKind::Plus => TokenKind::Plus,
            TokenKind::Minus => TokenKind::Minus,
            TokenKind::Star => TokenKind::Star,
            TokenKind::Slash => TokenKind::Slash,
            TokenKind::Print => TokenKind::Print,
        }
    }
}

/// A token: its kind and the source range it was read from.
pub type Token = Meta<TokenKind, Span>;

/// What a [`Token`] stands for.
pub type TokenModel = Meta<TokenKindModel, Span>;

impl Token {
    pub fn new(kind: TokenKind, span: Span) -> (token: Token)
        ensures
            token == (Meta { kind, meta: span }),
    {
        Meta { kind, meta: span }
    }

    pub open spec fn model(self) -> TokenModel {
        Meta { kind: self.kind.model(), meta: self.meta }
    }
}

/// What a token sequence stands for.
pub open spec fn tokens_model(tokens: Seq<Token>) -> Seq<TokenModel> {
    Seq::new(tokens.len(), |i: int| tokens[i].model())
}

} // verus!
