//! The stages on whole programs.

use calc::context::ast::Ast;
use calc::context::checked_ast::{Type, TypeInfo};
use calc::data::ast::{
    BinOp, BinOpKind, Expr, ExprKind, Stmt, StmtKind, UnaryOp, UnaryOpKind, VarName,
};
use calc::data::float::FloatExpr;
use calc::data::meta::Meta;
use calc::data::span::{Loc, Span};
use calc::data::token::{Token, TokenKind};
use calc::errors::{
    ArithmeticError, CheckerError, CodegenError, InterpreterError, ParserError, SyntaxError,
    TokenizerError, TypeError,
};
use calc::states::checked_state::CheckedState;
use calc::states::input_state::InputState;
use calc::states::parsed_state::ParsedState;
use calc::states::tokenized_state::TokenizedState;
use calc::text::{Piece, Text};

const PROGRAM: &str = "a = (1.3 + 3.2) * 45.1; b = a * 3.2; print 1 + 2 * 3;";

// -------------------------------------------------------------------------------------------------
// helpers

/// The value of a floating-point number in double precision.
fn value_of(x: &FloatExpr) -> f64 {
    match x {
        FloatExpr::Literal(text) => text.parse().unwrap(),
        FloatExpr::Neg(x) => -value_of(x),
        FloatExpr::Arith(op, x, y) => {
            let (x, y) = (value_of(x), value_of(y));
            match op {
                BinOpKind::Add => x + y,
                BinOpKind::Sub => x - y,
                BinOpKind::Mul => x * y,
                BinOpKind::Div => x / y,
            }
        }
    }
}

/// The final text of an output.
fn render(text: &Text) -> String {
    let mut out = String::new();
    for piece in &text.pieces {
        match piece {
            Piece::Str(s) => out.push_str(s),
            Piece::Float(x) => out.push_str(&format!("{:?}", value_of(x))),
        }
    }
    out
}

fn tokenize(source: &str) -> TokenizedState {
    InputState::from(source.to_string()).tokenize().unwrap()
}

fn parse(source: &str) -> ParsedState {
    tokenize(source).parse().unwrap()
}

fn check(source: &str) -> CheckedState {
    parse(source).check().unwrap()
}

fn span(line: usize, from: usize, to: usize) -> Span {
    Span::new(Loc::new(line, from), Loc::new(line, to))
}

fn formatted<M>(ast: &Ast<M>) -> String {
    let mut out = Text::new();
    calc::pipeline::formatter::format(ast, &mut out);
    render(&out)
}

fn run(state: &CheckedState) -> (String, Result<(), InterpreterError>) {
    let mut out = Text::new();
    let result = state.interpret(&mut out);
    (render(&out), result)
}

fn module(state: &CheckedState) -> Result<String, CodegenError> {
    let mut out = Text::new();
    state.llvm_codegen(&mut out).map(|()| render(&out))
}

fn value_type<M>(stmt: &Stmt<M>) -> &M {
    match &stmt.kind {
        StmtKind::Assign { value, .. } => &value.meta,
        StmtKind::Print { expr } => &expr.meta,
        StmtKind::Expr { expr } => &expr.meta,
    }
}

fn expr_of<M>(stmt: &Stmt<M>) -> &Expr<M> {
    match &stmt.kind {
        StmtKind::Assign { value, .. } => value,
        StmtKind::Print { expr } => expr,
        StmtKind::Expr { expr } => expr,
    }
}

/// An expression without its metadata.
fn bare<M>(expr: &Expr<M>) -> Expr<()> {
    let kind = match &expr.kind {
        ExprKind::Variable(name) => ExprKind::Variable(VarName::new(name.kind.clone(), ())),
        ExprKind::BinOp { op, left, right } => ExprKind::BinOp {
            op: BinOp::new(op.kind, ()),
            left: Box::new(bare(left)),
            right: Box::new(bare(right)),
        },
        ExprKind::UnaryOp { op, operand } => ExprKind::UnaryOp {
            op: UnaryOp::new(op.kind, ()),
            operand: Box::new(bare(operand)),
        },
        ExprKind::Tuple(exprs) => ExprKind::Tuple(exprs.iter().map(bare).collect()),
        ExprKind::Integer(i) => ExprKind::Integer(*i),
        ExprKind::Float(x) => ExprKind::Float(x.duplicate()),
    };
    Meta { kind, meta: () }
}

/// A program without its metadata.
fn bare_program<M>(ast: &Ast<M>) -> Vec<Stmt<()>> {
    ast.stmts()
        .iter()
        .map(|stmt| match &stmt.kind {
            StmtKind::Assign { name, value } => {
                Stmt::assign(VarName::new(name.kind.clone(), ()), bare(value), ())
            }
            StmtKind::Print { expr } => Stmt::print(bare(expr), ()),
            StmtKind::Expr { expr } => Stmt::expr(bare(expr), ()),
        })
        .collect()
}

fn tuple_of(element: Type, len: usize) -> Type {
    Type::Tuple { type_: Box::new(element), len }
}

// -------------------------------------------------------------------------------------------------
// tokenizer

#[test]
fn test_tokenize() {
    let tokenized = tokenize(PROGRAM);
    let float = |s: &str| TokenKind::Float(s.to_string());
    let name = |s: &str| TokenKind::Name(s.to_string());
    let expected = vec![
        Token::new(name("a"), span(1, 1, 1)),
        Token::new(TokenKind::Assign, span(1, 3, 3)),
        Token::new(TokenKind::LParen, span(1, 5, 5)),
        Token::new(float("1.3"), span(1, 6, 8)),
        Token::new(TokenKind::Plus, span(1, 10, 10)),
        Token::new(float("3.2"), span(1, 12, 14)),
        Token::new(TokenKind::RParen, span(1, 15, 15)),
        Token::new(TokenKind::Star, span(1, 17, 17)),
        Token::new(float("45.1"), span(1, 19, 22)),
        Token::new(TokenKind::Semi, span(1, 23, 23)),
        Token::new(name("b"), span(1, 25, 25)),
        Token::new(TokenKind::Assign, span(1, 27, 27)),
        Token::new(name("a"), span(1, 29, 29)),
        Token::new(TokenKind::Star, span(1, 31, 31)),
        Token::new(float("3.2"), span(1, 33, 35)),
        Token::new(TokenKind::Semi, span(1, 36, 36)),
        Token::new(TokenKind::Print, span(1, 38, 42)),
        Token::new(TokenKind::Int(1), span(1, 44, 44)),
        Token::new(TokenKind::Plus, span(1, 46, 46)),
        Token::new(TokenKind::Int(2), span(1, 48, 48)),
        Token::new(TokenKind::Star, span(1, 50, 50)),
        Token::new(TokenKind::Int(3), span(1, 52, 52)),
        Token::new(TokenKind::Semi, span(1, 53, 53)),
    ];
    assert_eq!(tokenized.token_stream.tokens, expected);
}

#[test]
fn tokenize_skips_white_space_and_comments() {
    let tokenized = tokenize("x // the rest\n /* a\n block */ y /* open");
    let kinds: Vec<&TokenKind> = tokenized.tokens().iter().map(|t| &t.kind).collect();
    assert_eq!(kinds, vec![&TokenKind::Name("x".to_string()), &TokenKind::Name("y".to_string())]);
    assert_eq!(tokenized.tokens()[0].meta, span(1, 1, 1));
    assert_eq!(tokenized.tokens()[1].meta, span(3, 11, 11));
}

#[test]
fn tokenize_tells_slash_from_comment() {
    let tokenized = tokenize("6/3");
    let kinds: Vec<&TokenKind> = tokenized.tokens().iter().map(|t| &t.kind).collect();
    assert_eq!(kinds, vec![&TokenKind::Int(6), &TokenKind::Slash, &TokenKind::Int(3)]);
}

#[test]
fn tokenize_names_and_keyword() {
    let tokenized = tokenize("print printer _x1 Print");
    let kinds: Vec<&TokenKind> = tokenized.tokens().iter().map(|t| &t.kind).collect();
    assert_eq!(
        kinds,
        vec![
            &TokenKind::Print,
            &TokenKind::Name("printer".to_string()),
            &TokenKind::Name("_x1".to_string()),
            &TokenKind::Name("Print".to_string()),
        ]
    );
}

#[test]
fn tokenize_point_without_fraction() {
    // a point with no digit behind it belongs to no number
    for source in ["1.;", "1. 2", "x = 12.", "1..5", "1.x"] {
        let at = source.find('.').unwrap() + 1;
        match InputState::from(source.to_string()).tokenize() {
            Err(e) => assert_eq!(
                e,
                TokenizerError::SyntaxError(
                    SyntaxError::UnexpectedCharacter('.'),
                    span(1, at, at)
                )
            ),
            Ok(_) => panic!("the text has no tokens"),
        }
    }
    let tokenized = tokenize("1.0 12.50;");
    let kinds: Vec<&TokenKind> = tokenized.tokens().iter().map(|t| &t.kind).collect();
    assert_eq!(
        kinds,
        vec![
            &TokenKind::Float("1.0".to_string()),
            &TokenKind::Float("12.50".to_string()),
            &TokenKind::Semi
        ]
    );
    // the second point ends the number
    match InputState::from("1.5.5".to_string()).tokenize() {
        Err(e) => assert_eq!(
            e,
            TokenizerError::SyntaxError(SyntaxError::UnexpectedCharacter('.'), span(1, 4, 4))
        ),
        Ok(_) => panic!("the text has no tokens"),
    }
}

#[test]
fn tokenize_rejects_unknown_character() {
    let result = InputState::from("a = 1;\nb = a ? 2;".to_string()).tokenize();
    match result {
        Err(e) => assert_eq!(
            e,
            TokenizerError::SyntaxError(SyntaxError::UnexpectedCharacter('?'), span(2, 7, 7))
        ),
        Ok(_) => panic!("the text has no tokens"),
    }
}

#[test]
fn tokenize_rejects_lone_point() {
    let result = InputState::from("x = .5;".to_string()).tokenize();
    match result {
        Err(e) => assert_eq!(
            e,
            TokenizerError::SyntaxError(SyntaxError::UnexpectedCharacter('.'), span(1, 5, 5))
        ),
        Ok(_) => panic!("the text has no tokens"),
    }
}

#[test]
fn tokenize_integer_limits() {
    let tokenized = tokenize("2147483647");
    assert_eq!(tokenized.tokens()[0].kind, TokenKind::Int(2147483647));
    let result = InputState::from("x = 2147483648;".to_string()).tokenize();
    match result {
        Err(e) => assert_eq!(
            e,
            TokenizerError::SyntaxError(SyntaxError::IntegerOutOfRange, span(1, 5, 14))
        ),
        Ok(_) => panic!("the integer is too large"),
    }
}

#[test]
fn tokenize_knows_white_space() {
    // a no-break space separates tokens
    let tokenized = tokenize("a\u{a0}b\u{3000}c\r\n\td");
    assert_eq!(tokenized.tokens().len(), 4);
    assert_eq!(tokenized.tokens()[3].meta, span(2, 2, 2));
    // a zero-width space is no white space
    let result = InputState::from("a\u{200b}b".to_string()).tokenize();
    match result {
        Err(e) => assert_eq!(
            e,
            TokenizerError::SyntaxError(SyntaxError::UnexpectedCharacter('\u{200b}'), span(1, 2, 2))
        ),
        Ok(_) => panic!("the text has no tokens"),
    }
}

#[test]
fn tokenize_empty_text() {
    assert!(tokenize("").tokens().is_empty());
    assert!(tokenize(" \n\t ").tokens().is_empty());
}

// -------------------------------------------------------------------------------------------------
// parser

#[test]
fn test_parser() {
    let parsed = parse(PROGRAM);
    let stmts = parsed.raw_ast.stmts();
    assert_eq!(stmts.len(), 3);
    assert_eq!(stmts[0].meta, span(1, 1, 23));
    assert_eq!(stmts[1].meta, span(1, 25, 36));
    assert_eq!(stmts[2].meta, span(1, 38, 53));
    match &stmts[0].kind {
        StmtKind::Assign { name, value } => {
            assert_eq!(name.kind, "a");
            assert_eq!(name.meta, span(1, 1, 1));
            assert_eq!(value.meta, span(1, 5, 22));
            match &value.kind {
                ExprKind::BinOp { op, left, right } => {
                    assert_eq!(op.kind, BinOpKind::Mul);
                    assert_eq!(op.meta, span(1, 17, 17));
                    assert_eq!(left.meta, span(1, 6, 14));
                    assert!(matches!(&left.kind, ExprKind::BinOp { op, .. } if op.kind == BinOpKind::Add));
                    assert_eq!(right.kind, ExprKind::Float(FloatExpr::Literal("45.1".to_string())));
                }
                other => panic!("not a product: {:?}", other),
            }
        }
        other => panic!("not an assignment: {:?}", other),
    }
    match &stmts[2].kind {
        StmtKind::Print { expr } => match &expr.kind {
            ExprKind::BinOp { op, left, right } => {
                assert_eq!(op.kind, BinOpKind::Add);
                assert_eq!(left.kind, ExprKind::Integer(1));
                assert!(matches!(&right.kind, ExprKind::BinOp { op, .. } if op.kind == BinOpKind::Mul));
                assert_eq!(right.meta, span(1, 48, 52));
            }
            other => panic!("not a sum: {:?}", other),
        },
        other => panic!("not a print statement: {:?}", other),
    }
}

fn elements(source: &str) -> Option<Vec<i32>> {
    let parsed = parse(source);
    match &expr_of(&parsed.raw_ast.stmts()[0]).kind {
        ExprKind::Tuple(exprs) => Some(
            exprs
                .iter()
                .map(|e| match e.kind {
                    ExprKind::Integer(i) => i,
                    _ => panic!("not an integer"),
                })
                .collect(),
        ),
        _ => None,
    }
}

#[test]
fn test_parser_tuple() {
    assert_eq!(elements("a = (1, 2, 3);"), Some(vec![1, 2, 3]));
    assert_eq!(elements("a = (1, 2, 3,);"), Some(vec![1, 2, 3]));
    assert_eq!(elements("a = (1);"), None);
    assert_eq!(expr_of(&parse("a = (1);").raw_ast.stmts()[0]).kind, ExprKind::Integer(1));
    assert_eq!(elements("a = (1,);"), Some(vec![1]));
}

#[test]
fn parser_tells_group_from_tuple() {
    // what stands behind the first expression decides
    assert_eq!(elements("a = (1, 2);"), Some(vec![1, 2]));
    assert_eq!(elements("a = ((1), 2);"), Some(vec![1, 2]));
    assert_eq!(elements("a = ((((1))));"), None);
    // a group whose expression is a tuple is that tuple
    assert_eq!(elements("a = ((1, 2));"), Some(vec![1, 2]));
    assert_eq!(
        bare_program(&parse("a = ((1, 2));").raw_ast),
        bare_program(&parse("a = (1, 2);").raw_ast)
    );
    assert_eq!(expr_of(&parse("a = ((1, 2));").raw_ast.stmts()[0]).meta, span(1, 6, 11));
    // a tuple of one tuple
    let parsed = parse("a = ((1, 2),);");
    match &expr_of(&parsed.raw_ast.stmts()[0]).kind {
        ExprKind::Tuple(exprs) => {
            assert_eq!(exprs.len(), 1);
            assert!(matches!(&exprs[0].kind, ExprKind::Tuple(inner) if inner.len() == 2));
        }
        other => panic!("not a tuple: {:?}", other),
    }
    assert_eq!(
        parse_error("print (1 2);"),
        ParserError::SyntaxError(SyntaxError::UnexpectedToken(TokenKind::Int(2)), span(1, 10, 10))
    );
    assert_eq!(
        parse_error("print (1,,);"),
        ParserError::SyntaxError(SyntaxError::UnexpectedToken(TokenKind::Comma), span(1, 10, 10))
    );
}

#[test]
fn parser_groups_from_the_left() {
    assert_eq!(formatted(&parse("print 8 - 4 - 2;").raw_ast), "print 8 - 4 - 2;\n");
    let parsed = parse("print 8 - 4 - 2;");
    match &expr_of(&parsed.raw_ast.stmts()[0]).kind {
        ExprKind::BinOp { left, right, .. } => {
            assert!(matches!(left.kind, ExprKind::BinOp { .. }));
            assert_eq!(left.meta, span(1, 7, 11));
            assert_eq!(right.kind, ExprKind::Integer(2));
        }
        other => panic!("not a difference: {:?}", other),
    }
    assert_eq!(expr_of(&parsed.raw_ast.stmts()[0]).meta, span(1, 7, 15));
}

#[test]
fn parser_reads_unary_operators() {
    let parsed = parse("x = -+2;");
    match &expr_of(&parsed.raw_ast.stmts()[0]).kind {
        ExprKind::UnaryOp { op, operand } => {
            assert_eq!(op.kind, UnaryOpKind::Neg);
            assert!(matches!(&operand.kind, ExprKind::UnaryOp { op, .. } if op.kind == UnaryOpKind::Pos));
        }
        other => panic!("not a negation: {:?}", other),
    }
}

#[test]
fn parser_reads_expression_statement() {
    let parsed = parse("a; a + 1; (a);");
    assert_eq!(parsed.raw_ast.stmts().len(), 3);
    for stmt in parsed.raw_ast.stmts() {
        assert!(matches!(stmt.kind, StmtKind::Expr { .. }));
    }
}

fn parse_error(source: &str) -> ParserError {
    match tokenize(source).parse() {
        Err(e) => e,
        Ok(_) => panic!("the text is no program"),
    }
}

#[test]
fn parser_errors() {
    assert_eq!(
        parse_error("print 1"),
        ParserError::SyntaxError(SyntaxError::UnexpectedEndOfFile, span(1, 7, 7))
    );
    assert_eq!(
        parse_error("print 1 +"),
        ParserError::SyntaxError(SyntaxError::UnexpectedEndOfFile, span(1, 9, 9))
    );
    assert_eq!(
        parse_error("print ;"),
        ParserError::SyntaxError(SyntaxError::UnexpectedToken(TokenKind::Semi), span(1, 7, 7))
    );
    // what is no assignment is read as an expression statement
    assert_eq!(
        parse_error("a = 1"),
        ParserError::SyntaxError(SyntaxError::UnexpectedToken(TokenKind::Assign), span(1, 3, 3))
    );
    assert_eq!(
        parse_error("1 = 2;"),
        ParserError::SyntaxError(SyntaxError::UnexpectedToken(TokenKind::Assign), span(1, 3, 3))
    );
    assert_eq!(
        parse_error("print (1, 2;"),
        ParserError::SyntaxError(SyntaxError::UnexpectedToken(TokenKind::Semi), span(1, 12, 12))
    );
    assert_eq!(
        parse_error("print ();"),
        ParserError::SyntaxError(SyntaxError::UnexpectedToken(TokenKind::RParen), span(1, 8, 8))
    );
    assert_eq!(
        parse_error("print 1 2;"),
        ParserError::SyntaxError(SyntaxError::UnexpectedToken(TokenKind::Int(2)), span(1, 9, 9))
    );
}

// -------------------------------------------------------------------------------------------------
// checker

#[test]
fn checker_test_checker() {
    let checked = check(PROGRAM);
    let stmts = checked.ast.stmts();
    assert_eq!(stmts.len(), 3);
    for stmt in stmts {
        assert_eq!(stmt.meta.type_, Type::Stmt);
    }
    assert_eq!(value_type(&stmts[0]), &TypeInfo::new(Type::Float, span(1, 5, 22)));
    assert_eq!(value_type(&stmts[1]), &TypeInfo::new(Type::Float, span(1, 29, 35)));
    assert_eq!(value_type(&stmts[2]), &TypeInfo::new(Type::Integer, span(1, 44, 52)));
    match &stmts[1].kind {
        StmtKind::Assign { name, .. } => {
            assert_eq!(name.kind, "b");
            assert_eq!(name.meta, TypeInfo::new(Type::Float, span(1, 25, 25)));
        }
        other => panic!("not an assignment: {:?}", other),
    }
}

#[test]
fn checker_types_tuples() {
    assert_eq!(value_type(&check("a = (1, 2, 3);").ast.stmts()[0]).type_, tuple_of(Type::Integer, 3));
    assert_eq!(value_type(&check("a = (1,);").ast.stmts()[0]).type_, tuple_of(Type::Integer, 1));
    assert_eq!(value_type(&check("a = (1);").ast.stmts()[0]).type_, Type::Integer);
    assert_eq!(
        value_type(&check("a = ((1.5, 2.5), (3.5, 4.5));").ast.stmts()[0]).type_,
        tuple_of(tuple_of(Type::Float, 2), 2)
    );
}

#[test]
fn checker_broadcasts() {
    let type_of = |source: &str| {
        let checked = check(source);
        let last = checked.ast.stmts().len() - 1;
        value_type(&checked.ast.stmts()[last]).type_.duplicate()
    };
    assert_eq!(type_of("print (1, 2) + (3, 4);"), tuple_of(Type::Integer, 2));
    assert_eq!(type_of("print (1, 2) - (3, 4);"), tuple_of(Type::Integer, 2));
    assert_eq!(type_of("print (1, 2) * 3;"), tuple_of(Type::Integer, 2));
    assert_eq!(type_of("print 3 * (1, 2);"), tuple_of(Type::Integer, 2));
    assert_eq!(type_of("print 1.5 / (1.5, 2.5);"), tuple_of(Type::Float, 2));
    assert_eq!(
        type_of("print ((1, 2), (3, 4)) * 2;"),
        tuple_of(tuple_of(Type::Integer, 2), 2)
    );
}

fn check_error(source: &str) -> CheckerError {
    match parse(source).check() {
        Err(e) => e,
        Ok(_) => panic!("the program has no error"),
    }
}

#[test]
fn checker_reports_unknown_variable() {
    assert_eq!(
        check_error("x = 1; print y;"),
        CheckerError::SyntaxError(SyntaxError::UnknownVariable("y".to_string()), span(1, 14, 14))
    );
    assert_eq!(
        check_error("x = x;"),
        CheckerError::SyntaxError(SyntaxError::UnknownVariable("x".to_string()), span(1, 5, 5))
    );
}

#[test]
fn checker_stops_at_the_first_unassigned_variable() {
    // `c` is read before `d`, and `a` has been assigned
    assert_eq!(
        check_error("a = 1; b = (a, c + 1, d - c);"),
        CheckerError::SyntaxError(SyntaxError::UnknownVariable("c".to_string()), span(1, 16, 16))
    );
    // the assignment to `b` comes too late for its own value
    assert_eq!(
        check_error("a = 1;\nb = a * -b;"),
        CheckerError::SyntaxError(
            SyntaxError::UnknownVariable("b".to_string()),
            Span::new(Loc::new(2, 10), Loc::new(2, 10))
        )
    );
    // an error that stands before the variable comes first
    assert_eq!(
        check_error("print (1, 2.5) + y;"),
        CheckerError::TypeError(TypeError::HeterogeneousTuple, span(1, 11, 13))
    );
}

#[test]
fn checker_type_errors() {
    assert_eq!(
        check_error("print 1 + 2.5;"),
        CheckerError::TypeError(
            TypeError::MismatchedTypesForBinaryOp(Type::Integer, Type::Float),
            span(1, 9, 9)
        )
    );
    assert_eq!(
        check_error("print (1, 2) * (3, 4);"),
        CheckerError::TypeError(
            TypeError::MismatchedTypesForBinaryOp(
                tuple_of(Type::Integer, 2),
                tuple_of(Type::Integer, 2)
            ),
            span(1, 14, 14)
        )
    );
    assert_eq!(
        check_error("print (1, 2) + (3, 4, 5);"),
        CheckerError::TypeError(
            TypeError::MismatchedTypesForBinaryOp(
                tuple_of(Type::Integer, 2),
                tuple_of(Type::Integer, 3)
            ),
            span(1, 14, 14)
        )
    );
    assert_eq!(
        check_error("print (1, 2) + 3;"),
        CheckerError::TypeError(
            TypeError::MismatchedTypesForBinaryOp(tuple_of(Type::Integer, 2), Type::Integer),
            span(1, 14, 14)
        )
    );
    // the error names the types at which the broadcast fails
    assert_eq!(
        check_error("print (1.5, 2.5) * 3;"),
        CheckerError::TypeError(
            TypeError::MismatchedTypesForBinaryOp(Type::Float, Type::Integer),
            span(1, 18, 18)
        )
    );
    assert_eq!(
        check_error("print -(1, 2);"),
        CheckerError::TypeError(
            TypeError::InvalidTypeForUnaryOp(tuple_of(Type::Integer, 2)),
            span(1, 7, 13)
        )
    );
    assert_eq!(
        check_error("print (1, 2.5);"),
        CheckerError::TypeError(TypeError::HeterogeneousTuple, span(1, 11, 13))
    );
}

#[test]
fn checker_follows_reassignment() {
    let checked = check("a = 1; a = 2.5; print a;");
    assert_eq!(value_type(&checked.ast.stmts()[2]).type_, Type::Float);
}

// -------------------------------------------------------------------------------------------------
// optimizer

#[test]
fn optimizer_test_checker() {
    let optimized = check("print (1 + 4) * 3 / (3 + 2);").optimize();
    let stmts = optimized.ast.stmts();
    assert_eq!(stmts.len(), 1);
    let expr = expr_of(&stmts[0]);
    assert_eq!(expr.kind, ExprKind::Integer(3));
    assert_eq!(expr.meta, TypeInfo::new(Type::Integer, span(1, 7, 27)));
    assert_eq!(stmts[0].meta, TypeInfo::new(Type::Stmt, span(1, 1, 28)));
}

#[test]
fn optimizer_folds_scenario() {
    let optimized = check(PROGRAM).optimize();
    let stmts = optimized.ast.stmts();
    assert_eq!(expr_of(&stmts[2]).kind, ExprKind::Integer(7));
    match &expr_of(&stmts[0]).kind {
        ExprKind::Float(x) => assert_eq!(value_of(x), (1.3 + 3.2) * 45.1),
        other => panic!("not folded: {:?}", other),
    }
    assert!(matches!(expr_of(&stmts[1]).kind, ExprKind::BinOp { .. }));
}

#[test]
fn optimizer_folds_each_operator() {
    let folded = |source: &str| {
        let optimized = check(source).optimize();
        match expr_of(&optimized.ast.stmts()[0]).kind {
            ExprKind::Integer(i) => Some(i),
            _ => None,
        }
    };
    assert_eq!(folded("print 7 + 2;"), Some(9));
    assert_eq!(folded("print 7 - 9;"), Some(-2));
    assert_eq!(folded("print 7 * 6;"), Some(42));
    assert_eq!(folded("print 7 / 2;"), Some(3));
    assert_eq!(folded("print (0 - 7) / 2;"), Some(-3));
    assert_eq!(folded("print 7 / (0 - 2);"), Some(-3));
    assert_eq!(folded("print 7 / 0;"), None);
    assert_eq!(folded("print 2147483647 + 1;"), None);
    assert_eq!(folded("print (0 - 2147483647 - 1) / (0 - 1);"), None);
    assert_eq!(folded("print x;".replace("x", "1 + 2 * 3 - 4").as_str()), Some(3));
}

#[test]
fn optimizer_folds_inside() {
    let optimized = check("a = 2; print (1 + 2, a * (3 + 4)); print -(2 * 3);").optimize();
    assert_eq!(formatted(&optimized.ast), "a = 2;\nprint (3, a * 7);\nprint -6;\n");
}

// -------------------------------------------------------------------------------------------------
// formatter

#[test]
fn test_formatter_from_raw_ast() {
    let parsed = parse(PROGRAM);
    assert_eq!(
        formatted(&parsed.raw_ast),
        "a = (1.3 + 3.2) * 45.1;\nb = a * 3.2;\nprint 1 + 2 * 3;\n"
    );
}

#[test]
fn test_formatter_from_checked_ast() {
    let checked = check(PROGRAM);
    assert_eq!(
        formatted(&checked.ast),
        "a = (1.3 + 3.2) * 45.1;\nb = a * 3.2;\nprint 1 + 2 * 3;\n"
    );
}

#[test]
fn test_formatter_from_optimized_ast() {
    let optimized = check(PROGRAM).optimize();
    assert_eq!(
        formatted(&optimized.ast),
        "a = 202.95000000000002;\nb = a * 3.2;\nprint 7;\n"
    );
}

#[test]
fn formatter_writes_tuples() {
    assert_eq!(formatted(&parse("a = (1, 2, 3);").raw_ast), "a = (1, 2, 3);\n");
    assert_eq!(formatted(&parse("a=(1,2,3,);").raw_ast), "a = (1, 2, 3);\n");
    assert_eq!(formatted(&parse("a = (1,);").raw_ast), "a = (1,);\n");
    assert_eq!(formatted(&parse("a = ((1));").raw_ast), "a = 1;\n");
}

#[test]
fn formatter_keeps_needed_parentheses() {
    assert_eq!(formatted(&parse("print ((1 + 2)) * (3);").raw_ast), "print (1 + 2) * 3;\n");
    assert_eq!(formatted(&parse("print -(1 + 2);").raw_ast), "print -(1 + 2);\n");
    assert_eq!(formatted(&parse("print (1 * 2) + 3;").raw_ast), "print 1 * 2 + 3;\n");
    assert_eq!(formatted(&parse("x; -x * +2;").raw_ast), "x;\n-x * +2;\n");
    // on the right, an operation of the operator's own precedence needs them
    assert_eq!(formatted(&parse("print 8 / (4 / 2);").raw_ast), "print 8 / (4 / 2);\n");
    assert_eq!(formatted(&parse("print 8 / (4 * 2);").raw_ast), "print 8 / (4 * 2);\n");
    assert_eq!(formatted(&parse("print 8 + (4 - 2);").raw_ast), "print 8 + (4 - 2);\n");
    assert_eq!(formatted(&parse("print 8 + (4 * 2);").raw_ast), "print 8 + 4 * 2;\n");
    assert_eq!(formatted(&parse("print 8 * (4 + 2);").raw_ast), "print 8 * (4 + 2);\n");
    assert_eq!(formatted(&parse("print (8 * 4) / 2;").raw_ast), "print 8 * 4 / 2;\n");
    assert_eq!(formatted(&parse("print 8 - (-4);").raw_ast), "print 8 - -4;\n");
    assert_eq!(formatted(&parse("print 8 - ((4, 2));").raw_ast), "print 8 - (4, 2);\n");
}

#[test]
fn formatter_round_trip() {
    for source in [
        PROGRAM,
        "a = (1, 2, 3);",
        "a = (1,);",
        "print (1 + 4) * 3 / (3 + 2);",
        "x = -(1 + 2) * -3; y = ((x, x), (1, 2)) * 2; x; print y;",
    ] {
        let once = formatted(&parse(source).raw_ast);
        let twice = formatted(&parse(&once).raw_ast);
        assert_eq!(once, twice);
    }
}

#[test]
fn round_trip_keeps_the_tree() {
    // the tree that is read from the text of a tree is that tree, up to the
    // source ranges
    for source in [
        PROGRAM,
        "a = (1, 2, 3);",
        "a = (1,);",
        "a = (1);",
        "x = -(1 + 2) * -3 / (4 - 5); print ((x,),);",
        "print 1 - (2 - 3);",
        "print 1 - (2 - (3 - 4)) - 5;",
        "print 8 / (4 / 2) * (2 * (3 / 4)); x; -x; (x);",
        "print (1 - 2) - 3; print 2 * (3 + 4) * -(5 - 6);",
        "print ((1 + 2, (3 - (4 - 5)) * 6), 7 - (8 + 9));",
        "",
    ] {
        let first = parse(source);
        let text = formatted(&first.raw_ast);
        let second = parse(&text);
        assert_eq!(bare_program(&first.raw_ast), bare_program(&second.raw_ast));
        // a second round changes nothing
        assert_eq!(formatted(&second.raw_ast), text);
    }
}

#[test]
fn written_text_reads_back() {
    let source = "a = 1.30 * (2 + x) - 1.0;\nprint (a, -a,);\n";
    let first = parse(source);
    let mut text = Text::new();
    first.format(&mut text);
    let written = text.written().unwrap();
    assert_eq!(written, "a = 1.30 * (2 + x) - 1.0;\nprint (a, -a);\n");
    let second = parse(&written);
    assert_eq!(bare_program(&first.raw_ast), bare_program(&second.raw_ast));
    let mut again = Text::new();
    second.format(&mut again);
    assert_eq!(again.written().unwrap(), written);
    assert_eq!(second.check().is_err(), first.check().is_err());
    // a folded number is no literal
    let mut folded = Text::new();
    check("a = 1.5 + 2.5;").optimize().format(&mut folded);
    assert_eq!(folded.written(), None);
    assert_eq!(render(&folded), "a = 4.0;\n");
    let mut kept = Text::new();
    check("a = 1.5 + 2.5;").format(&mut kept);
    assert_eq!(kept.written(), Some("a = 1.5 + 2.5;\n".to_string()));
}

#[test]
fn parentheses_on_the_right_are_written() {
    let first = parse("print 8 - (4 - 2);");
    assert_eq!(formatted(&first.raw_ast), "print 8 - (4 - 2);\n");
    assert_eq!(run(&first.check().unwrap()).0, "6\n");
    assert_eq!(formatted(&parse("print (8 - 4) - 2;").raw_ast), "print 8 - 4 - 2;\n");
    assert_eq!(run(&check("print 8 - 4 - 2;")).0, "2\n");
    assert_eq!(formatted(&parse("print 1 - (2 - 3);").raw_ast), "print 1 - (2 - 3);\n");
}

#[test]
fn folding_keeps_types_and_output() {
    for source in [
        PROGRAM,
        "a = (1 + 2, 3 * 4); print a * (1 + 1); print -(2 - 3);",
        "x = 2.5 * 2.0; print (x + 1.5 * 2.0, 1.0 / 3.0);",
        "print 1 / 0;",
        "print 2147483647 + 1;",
    ] {
        let checked = check(source);
        let types: Vec<Type> =
            checked.ast.stmts().iter().map(|s| value_type(s).type_.duplicate()).collect();
        let (output, result) = run(&checked);
        let optimized = checked.optimize();
        let folded: Vec<Type> =
            optimized.ast.stmts().iter().map(|s| value_type(s).type_.duplicate()).collect();
        assert_eq!(types, folded);
        assert_eq!(run(&optimized), (output, result));
    }
}

#[test]
fn checked_programs_run_and_compile() {
    for source in [PROGRAM, "a = 1; b = a * 2 - -a; print b / a;", "x = 1.5; x = 2; print +x;"] {
        let checked = check(source);
        assert_eq!(run(&checked).1, Ok(()));
        assert!(module(&checked).is_ok());
    }
}

// -------------------------------------------------------------------------------------------------
// interpreter

#[test]
fn test_interpreter() {
    let checked = check(
        r###"
                a = (1.3 + 3.2) * 45.1;
                print a;
                b = a * 3.2;
                print b;
                print 1 + 2 * 3;
            "###,
    );
    let (output, result) = run(&checked);
    assert_eq!(result, Ok(()));
    assert_eq!(output, "202.95000000000002\n649.44\n7\n");
}

#[test]
fn interpreter_prints_scenarios() {
    assert_eq!(run(&check(PROGRAM)).0, "7\n");
    assert_eq!(run(&check(PROGRAM).optimize()).0, "7\n");
    assert_eq!(run(&check("print (1 + 4) * 3 / (3 + 2);")).0, "3\n");
    assert_eq!(run(&check("print (1 + 4) * 3 / (3 + 2);").optimize()).0, "3\n");
}

#[test]
fn interpreter_tuples() {
    let printed = |source: &str| run(&check(source)).0;
    assert_eq!(printed("print (1, 2) + (3, 4);"), "(4, 6)\n");
    assert_eq!(printed("print (1, 2) - (3, 5);"), "(-2, -3)\n");
    assert_eq!(printed("print (2, 4) * 3;"), "(6, 12)\n");
    assert_eq!(printed("print 3 * (2, 4);"), "(6, 12)\n");
    assert_eq!(printed("print (6, 12) / 3;"), "(2, 4)\n");
    assert_eq!(printed("print 3 / (6, 12);"), "(2, 4)\n");
    assert_eq!(printed("print ((1, 2), (3, 4)) * 2;"), "((2, 4), (6, 8))\n");
    assert_eq!(printed("print (1.5, 2.5) * 2.0;"), "(3.0, 5.0)\n");
    assert_eq!(printed("print (7,);"), "(7)\n");
    assert_eq!(printed("print -3; print +3; print -1.5; print -(0 - 2);"), "-3\n3\n-1.5\n2\n");
}

#[test]
fn interpreter_reassignment_changes_type() {
    assert_eq!(run(&check("a = 1; print a; a = (a, a); print a;")).0, "1\n(1, 1)\n");
}

#[test]
fn interpreter_arithmetic_errors() {
    let (output, result) = run(&check("print 1; print 1 / 0; print 2;"));
    assert_eq!(output, "1\n");
    assert_eq!(
        result,
        Err(InterpreterError::ArithmeticError(ArithmeticError::DivisionByZero, span(1, 18, 18)))
    );
    let (output, result) = run(&check("a = 2147483647; a = a + 1; print a;"));
    assert_eq!(output, "");
    assert_eq!(
        result,
        Err(InterpreterError::ArithmeticError(ArithmeticError::Overflow, span(1, 23, 23)))
    );
    let (_, result) = run(&check("a = 0 - 2147483647 - 1; print -a;"));
    assert_eq!(
        result,
        Err(InterpreterError::ArithmeticError(ArithmeticError::Overflow, span(1, 31, 31)))
    );
}

// -------------------------------------------------------------------------------------------------
// code generator

#[test]
fn test_llvm_codegen() {
    let checked = check(PROGRAM);
    let mut output = Text::new();
    checked.llvm_codegen(&mut output).unwrap();
    assert_eq!(
        render(&output),
        "declare void @_print_int(i32 %x)\n\
         declare void @_print_float(double %x)\n\
         \n\
         @a = global double 0.0\n\
         @b = global double 0.0\n\
         \n\
         define void @calc_main() {\n    \
             %r0 = fadd double 1.3, 3.2\n    \
             %r1 = fmul double %r0, 45.1\n    \
             store double %r1, double* @a\n    \
             %r2 = load double, double* @a\n    \
             %r3 = fmul double %r2, 3.2\n    \
             store double %r3, double* @b\n    \
             %r4 = mul i32 2, 3\n    \
             %r5 = add i32 1, %r4\n    \
             call void @_print_int(i32 %r5)\n    \
             ret void\n\
         }\n"
    );
}

#[test]
fn llvm_codegen_sorts_globals_and_keeps_last_type() {
    let checked = check("zed = 1; b = 2.5; ab = 3; a = 4; zed = 0.5; print -zed; print +b; b;");
    assert_eq!(
        module(&checked).unwrap(),
        "declare void @_print_int(i32 %x)\n\
         declare void @_print_float(double %x)\n\
         \n\
         @a = global i32 0\n\
         @ab = global i32 0\n\
         @b = global double 0.0\n\
         @zed = global double 0.0\n\
         \n\
         define void @calc_main() {\n    \
             store i32 1, i32* @zed\n    \
             store double 2.5, double* @b\n    \
             store i32 3, i32* @ab\n    \
             store i32 4, i32* @a\n    \
             store double 0.5, double* @zed\n    \
             %r0 = load double, double* @zed\n    \
             %r1 = fsub double 0.0, %r0\n    \
             call void @_print_float(double %r1)\n    \
             %r2 = load double, double* @b\n    \
             call void @_print_float(double %r2)\n    \
             %r3 = load double, double* @b\n    \
             ret void\n\
         }\n"
    );
}

#[test]
fn llvm_codegen_integer_operators() {
    let text = module(&check("x = 7; print -x / 2 - x;")).unwrap();
    assert!(text.contains(
        "    %r0 = load i32, i32* @x\n    \
             %r1 = sub i32 0, %r0\n    \
             %r2 = sdiv i32 %r1, 2\n    \
             %r3 = load i32, i32* @x\n    \
             %r4 = sub i32 %r2, %r3\n    \
             call void @_print_int(i32 %r4)\n"
    ));
}

#[test]
fn llvm_codegen_empty_program() {
    assert_eq!(
        module(&check("")).unwrap(),
        "declare void @_print_int(i32 %x)\n\
         declare void @_print_float(double %x)\n\
         \n\
         \n\
         define void @calc_main() {\n    \
             ret void\n\
         }\n"
    );
}

#[test]
fn llvm_codegen_has_no_tuples() {
    let checked = check("a = 1; a = (1, 2);");
    let mut out = Text::new();
    out.push_str("; ");
    assert_eq!(
        checked.llvm_codegen(&mut out),
        Err(CodegenError::UnsupportedType(
            Type::Tuple { type_: Box::new(Type::Integer), len: 2 },
            span(1, 12, 17)
        ))
    );
    assert_eq!(render(&out), "; ");
    assert_eq!(
        module(&check("a = (1, 2) * 2; print a;")),
        Err(CodegenError::UnsupportedType(
            Type::Tuple { type_: Box::new(Type::Integer), len: 2 },
            span(1, 5, 10)
        ))
    );
}
