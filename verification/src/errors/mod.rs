//! The errors of the stages.
//!
//! Every stage stops at its first error. An error names what went wrong and
//! the source range where it did; [`Spanned::to_error`] turns that range
//! into an extract of the source text.

pub mod error_context;
pub mod error_message;

use crate::context::checked_ast::Type;
use crate::data::span::Span;
use crate::data::token::{TokenKind, TokenKindModel};
use crate::errors::error_message::Spanned;
use vstd::prelude::*;

verus! {

#[derive(Debug, PartialEq)]
pub enum SyntaxError {
    UnexpectedCharacter(char),
    /// An integer literal that is larger than the largest integer.
    IntegerOutOfRange,
    UnexpectedToken(TokenKind),
    UnexpectedEndOfFile,
    UnknownVariable(String),
    EmptyTuple,
}

/// What a [`SyntaxError`] stands for.
pub enum SyntaxErrorModel {
    UnexpectedCharacter(char),
    IntegerOutOfRange,
    UnexpectedToken(TokenKindModel),
    UnexpectedEndOfFile,
    UnknownVariable(Seq<char>),
    EmptyTuple,
}

impl SyntaxError {
    pub open spec fn model(self) -> SyntaxErrorModel {
        match self {
            SyntaxError::UnexpectedCharacter(c) => SyntaxErrorModel::UnexpectedCharacter(c),
            SyntaxError::IntegerOutOfRange => SyntaxErrorModel::IntegerOutOfRange,
            SyntaxError::UnexpectedToken(kind) => SyntaxErrorModel::UnexpectedToken(kind.model()),
            SyntaxError::UnexpectedEndOfFile => SyntaxErrorModel::UnexpectedEndOfFile,
            SyntaxError::UnknownVariable(name) => SyntaxErrorModel::UnknownVariable(name@),
            SyntaxError::EmptyTuple => SyntaxErrorModel::EmptyTuple,
        }
    }
}

#[derive(Debug, PartialEq)]
pub enum TypeError {
    MismatchedTypesForBinaryOp(Type, Type),
    InvalidTypeForUnaryOp(Type),
    HeterogeneousTuple,
}

/// What cannot be computed in 32-bit integers.
#[derive(Debug, Clone, Copy, PartialEq, Eq, Structural)]
pub enum ArithmeticError {
    DivisionByZero,
    Overflow,
}

/// What went wrong in some stage, whichever it was.
pub enum Failure {
    Syntax(SyntaxErrorModel),
    Type(TypeError),
    Arithmetic(ArithmeticError),
    Unsupported(Type),
}

/// What an error of some stage stands for: what went wrong, and where.
pub struct ErrorModel {
    pub failure: Failure,
    pub span: Span,
}

/// The model of a syntax error at `span`.
pub open spec fn syntax_error(e: SyntaxErrorModel, span: Span) -> ErrorModel {
    ErrorModel { failure: Failure::Syntax(e), span }
}

/// The model of a type error at `span`.
pub open spec fn type_error(e: TypeError, span: Span) -> ErrorModel {
    ErrorModel { failure: Failure::Type(e), span }
}

/// The model of an arithmetic error at `span`.
pub open spec fn arithmetic_error(e: ArithmeticError, span: Span) -> ErrorModel {
    ErrorModel { failure: Failure::Arithmetic(e), span }
}

/// The model of an error for a value of a type that a stage does not
/// support, at `span`.
pub open spec fn unsupported(type_: Type, span: Span) -> ErrorModel {
    ErrorModel { failure: Failure::Unsupported(type_), span }
}

#[derive(Debug, PartialEq)]
pub enum TokenizerError {
    SyntaxError(SyntaxError, Span),
}

#[derive(Debug, PartialEq)]
pub enum ParserError {
    SyntaxError(SyntaxError, Span),
}

#[derive(Debug, PartialEq)]
pub enum CheckerError {
    TypeError(TypeError, Span),
    SyntaxError(SyntaxError, Span),
}

/// The errors of the interpreter. After a successful check only the
/// arithmetic ones can occur.
#[derive(Debug, PartialEq)]
pub enum InterpreterError {
    SyntaxError(SyntaxError, Span),
    TypeError(TypeError, Span),
    ArithmeticError(ArithmeticError, Span),
}

/// The errors of the code generator.
#[derive(Debug, PartialEq)]
pub enum CodegenError {
    SyntaxError(SyntaxError, Span),
    /// A value of a type for which no code can be generated: a tuple.
    UnsupportedType(Type, Span),
}

impl CodegenError {
    pub open spec fn model(self) -> ErrorModel {
        match self {
            CodegenError::SyntaxError(e, span) => syntax_error(e.model(), span),
            CodegenError::UnsupportedType(type_, span) => unsupported(type_, span),
        }
    }
}

impl Spanned for CodegenError {
    open spec fn span_of(&self) -> Span {
        self.model().span
    }

    fn span(&self) -> Span {
        match self {
            CodegenError::SyntaxError(_, span) => *span,
            CodegenError::UnsupportedType(_, span) => *span,
        }
    }
}

impl TokenizerError {
    pub open spec fn model(self) -> ErrorModel {
        match self {
            TokenizerError::SyntaxError(e, span) => syntax_error(e.model(), span),
        }
    }
}

impl ParserError {
    pub open spec fn model(self) -> ErrorModel {
        match self {
            ParserError::SyntaxError(e, span) => syntax_error(e.model(), span),
        }
    }
}

impl CheckerError {
    pub open spec fn model(self) -> ErrorModel {
        match self {
            CheckerError::TypeError(e, span) => type_error(e, span),
            CheckerError::SyntaxError(e, span) => syntax_error(e.model(), span),
        }
    }
}

impl InterpreterError {
    pub open spec fn model(self) -> ErrorModel {
        match self {
            InterpreterError::SyntaxError(e, span) => syntax_error(e.model(), span),
            InterpreterError::TypeError(e, span) => type_error(e, span),
            InterpreterError::ArithmeticError(e, span) => arithmetic_error(e, span),
        }
    }
}

impl Spanned for TokenizerError {
    open spec fn span_of(&self) -> Span {
        self.model().span
    }

    fn span(&self) -> Span {
        match self {
            TokenizerError::SyntaxError(_, span) => *span,
        }
    }
}

impl Spanned for ParserError {
    open spec fn span_of(&self) -> Span {
        self.model().span
    }

    fn span(&self) -> Span {
        match self {
            ParserError::SyntaxError(_, span) => *span,
        }
    }
}

impl Spanned for CheckerError {
    open spec fn span_of(&self) -> Span {
        self.model().span
    }

    fn span(&self) -> Span {
        match self {
            CheckerError::TypeError(_, span) => *span,
            CheckerError::SyntaxError(_, span) => *span,
        }
    }
}

impl Spanned for InterpreterError {
    open spec fn span_of(&self) -> Span {
        self.model().span
    }

    fn span(&self) -> Span {
        match self {
            InterpreterError::SyntaxError(_, span) => *span,
            InterpreterError::TypeError(_, span) => *span,
            InterpreterError::ArithmeticError(_, span) => *span,
        }
    }
}

} // verus!
