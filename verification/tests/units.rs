//! The parts of the library, each by itself.

use calc::context::checked_ast::{Type, TypeInfo};
use calc::context::scope::Scope;
use calc::context::source::Source;
use calc::data::ast::{BinOp, BinOpKind, Expr, ExprKind, Stmt, UnaryOp, UnaryOpKind, VarName};
use calc::data::float::FloatExpr;
use calc::data::identified::Identified;
use calc::data::meta::Meta;
use calc::data::span::{Loc, Span};
use calc::data::token::{Token, TokenKind};
use calc::errors::error_context::ErrorContext;
use calc::errors::error_message::{source_extract, Spanned};
use calc::errors::{
    ArithmeticError, CheckerError, CodegenError, InterpreterError, SyntaxError, TypeError,
};
use calc::pipeline::checker::check_bin_op_type;
use calc::pipeline::interpreter::{run_expr, OpError, Value};
use calc::pipeline::llvm::{LlvmCodegen, LlvmType, LlvmValue, Operand};
use calc::pipeline::optimizer::optimize_expr;
use calc::states::input_state::InputState;
use calc::states::raw_input::RawInput;
use calc::states::text_context::TextContext;
use calc::text::{chars_of, push_decimal, push_digits, string_of, Piece, Text};

fn span(line: usize, from: usize, to: usize) -> Span {
    Span::new(Loc::new(line, from), Loc::new(line, to))
}

fn info(type_: Type) -> TypeInfo {
    TypeInfo::new(type_, span(1, 1, 1))
}

fn tuple_of(element: Type, len: usize) -> Type {
    Type::Tuple { type_: Box::new(element), len }
}

fn ints(values: &[i32]) -> Value {
    Value::Tuple(values.iter().map(|i| Value::Int(*i)).collect())
}

fn float(text: &str) -> FloatExpr {
    FloatExpr::Literal(text.to_string())
}

fn plain(text: &Text) -> String {
    let mut out = String::new();
    for piece in &text.pieces {
        match piece {
            Piece::Str(s) => out.push_str(s),
            Piece::Float(x) => out.push_str(&format!("<{:?}>", x)),
        }
    }
    out
}

// -------------------------------------------------------------------------------------------------
// data

#[test]
fn locations_and_spans() {
    assert_eq!(Loc::default(), Loc { line: 1, col: 0 });
    assert_eq!(Loc::new(3, 4), Loc { line: 3, col: 4 });
    let a = span(1, 2, 5);
    let b = Span::new(Loc::new(2, 1), Loc::new(2, 9));
    assert_eq!(a.join(b), Span::new(Loc::new(1, 2), Loc::new(2, 9)));
    assert_eq!(a.span(), a);
    assert_eq!(a.to_string(), "1:2-5");
    assert_eq!(a.join(b).to_string(), "1:2-2:9");
    assert_eq!(span(12, 0, 345).to_string(), "12:0-345");
}

#[test]
fn nodes_carry_their_metadata() {
    let token = Token::new(TokenKind::Plus, span(1, 3, 3));
    assert_eq!(token.span(), span(1, 3, 3));
    assert_eq!(token.kind.duplicate(), TokenKind::Plus);
    assert_eq!(TokenKind::Name("x".to_string()).duplicate(), TokenKind::Name("x".to_string()));
    assert_eq!(TokenKind::Name("x1".to_string()).to_string(), "'x1'");
    assert_eq!(TokenKind::Int(-12).to_string(), "'-12'");
    assert_eq!(TokenKind::Float("1.50".to_string()).to_string(), "'1.50'");
    assert_eq!(TokenKind::Semi.to_string(), "';'");
    assert_eq!(TokenKind::Print.to_string(), "'print'");
    assert_eq!(BinOpKind::from_token(&TokenKind::Star), Some(BinOpKind::Mul));
    assert_eq!(BinOpKind::from_token(&TokenKind::Semi), None);
    assert_eq!(UnaryOpKind::from_token(&TokenKind::Minus), Some(UnaryOpKind::Neg));
    assert_eq!(UnaryOpKind::from_token(&TokenKind::Star), None);
    let op = BinOp::new(BinOpKind::Mul, 7u8);
    assert_eq!(op, Meta { kind: BinOpKind::Mul, meta: 7u8 });
    let neg = UnaryOp::new(UnaryOpKind::Neg, ());
    assert_eq!(neg.kind, UnaryOpKind::Neg);
    let name = VarName::new("x".to_string(), info(Type::Integer));
    assert_eq!(Spanned::span(&name), span(1, 1, 1));
    let identified = Identified::new("x", 3usize);
    assert_eq!(*identified.kind(), "x");
    assert_eq!(identified.id, 3);
}

#[test]
fn factories_build_trees() {
    let one = Expr::integer(1, ());
    let x = Expr::variable(VarName::new("x".to_string(), ()), ());
    let sum = Expr::bin_op(BinOp::new(BinOpKind::Add, ()), one, x, ());
    assert!(matches!(&sum.kind, ExprKind::BinOp { op, .. } if op.kind == BinOpKind::Add));
    let negated = Expr::unary_op(UnaryOp::new(UnaryOpKind::Neg, ()), sum, ());
    let pair = Expr::tuple(vec![negated, Expr::float(float("1.5"), ())], ());
    match &pair.kind {
        ExprKind::Tuple(exprs) => assert_eq!(exprs.len(), 2),
        other => panic!("not a tuple: {:?}", other),
    }
    let stmt = Stmt::assign(VarName::new("y".to_string(), ()), pair, ());
    let mut out = Text::new();
    calc::pipeline::formatter::format_stmt(&stmt, &mut out);
    assert_eq!(plain(&out), "y = (-(1 + x), <Literal(\"1.5\")>);");
    let mut out = Text::new();
    calc::pipeline::formatter::format_stmt(&Stmt::print(Expr::integer(-5, ()), ()), &mut out);
    calc::pipeline::formatter::format_stmt(&Stmt::expr(Expr::integer(0, ()), ()), &mut out);
    assert_eq!(plain(&out), "print -5;0;");
}

#[test]
fn precedences() {
    assert_eq!(BinOpKind::Add.precedence(), 4);
    assert_eq!(BinOpKind::Sub.precedence(), 4);
    assert_eq!(BinOpKind::Mul.precedence(), 5);
    assert_eq!(BinOpKind::Div.precedence(), 5);
    assert_eq!(UnaryOpKind::Pos.precedence(), 6);
    assert_eq!(UnaryOpKind::Neg.precedence(), 6);
    assert_eq!(ExprKind::<()>::Integer(1).precedence(), 255);
    assert_eq!(ExprKind::<()>::Tuple(vec![]).precedence(), 255);
    assert_eq!(BinOpKind::Div.symbol(), "/");
    assert_eq!(UnaryOpKind::Neg.symbol(), "-");
}

#[test]
fn floats_are_kept_as_written() {
    let x = FloatExpr::literal("1.50".to_string());
    assert_eq!(x.duplicate(), float("1.50"));
    let y = x.arith(BinOpKind::Div, float("2.0"));
    assert_eq!(
        y,
        FloatExpr::Arith(BinOpKind::Div, Box::new(float("1.50")), Box::new(float("2.0")))
    );
    assert_eq!(y.duplicate().neg(), FloatExpr::Neg(Box::new(y)));
}

#[test]
fn types_compare_and_copy() {
    let nested = tuple_of(tuple_of(Type::Float, 2), 3);
    assert!(nested.same(&nested.duplicate()));
    assert!(!nested.same(&tuple_of(tuple_of(Type::Float, 2), 4)));
    assert!(!nested.same(&tuple_of(tuple_of(Type::Integer, 2), 3)));
    assert!(!Type::Integer.same(&Type::Float));
    assert!(Type::Stmt.same(&Type::Stmt));
    assert_eq!(info(nested.duplicate()).duplicate(), info(nested));
}

// -------------------------------------------------------------------------------------------------
// text

#[test]
fn decimal_numerals() {
    let numeral = |i: i32| {
        let mut s = String::new();
        push_decimal(&mut s, i);
        s
    };
    assert_eq!(numeral(0), "0");
    assert_eq!(numeral(7), "7");
    assert_eq!(numeral(10), "10");
    assert_eq!(numeral(-1), "-1");
    assert_eq!(numeral(2147483647), "2147483647");
    assert_eq!(numeral(-2147483648), "-2147483648");
    let mut s = String::from("n=");
    push_digits(&mut s, 18446744073709551615);
    assert_eq!(s, "n=18446744073709551615");
}

#[test]
fn strings_and_characters() {
    let chars = chars_of("día 1");
    assert_eq!(chars, vec!['d', 'í', 'a', ' ', '1']);
    assert_eq!(string_of(&chars, 1, 3), "ía");
    assert_eq!(string_of(&chars, 2, 2), "");
    assert_eq!(chars_of(""), Vec::<char>::new());
}

#[test]
fn output_is_appended_in_order() {
    let mut text = Text::new();
    text.push_str("a");
    text.push_decimal(-12);
    text.push_float(float("0.5"));
    text.push_number(34);
    let mut other = Text::new();
    other.push_string("z".to_string());
    text.append(other);
    assert_eq!(plain(&text), "a-12<Literal(\"0.5\")>34z");
}

// -------------------------------------------------------------------------------------------------
// extracts

#[test]
fn extract_of_one_line() {
    assert_eq!(
        source_extract("x = 1; print y;", span(1, 14, 14)),
        "   1 | x = 1; print y;\n     |              ^\n"
    );
    assert_eq!(
        source_extract("a\nbcd = 12;\nc", span(2, 7, 8)),
        "   2 | bcd = 12;\n     |       ^^\n"
    );
}

#[test]
fn extract_of_several_lines() {
    let source = "one\ntwo /* a\n\nb */ three\nfour";
    assert_eq!(
        source_extract(source, Span::new(Loc::new(2, 5), Loc::new(4, 4))),
        "   2 | two /* a\n     |     ^^^^\n   3 | \n     | \n   4 | b */ three\n     | ^^^^\n"
    );
}

#[test]
fn extract_numbers_lines() {
    let mut source = String::new();
    for i in 1..=1200 {
        source.push_str(&format!("line{}\n", i));
    }
    assert_eq!(source_extract(&source, span(9, 1, 4)), "   9 | line9\n     | ^^^^\n");
    assert_eq!(source_extract(&source, span(10, 5, 6)), "  10 | line10\n     |     ^^\n");
    assert_eq!(source_extract(&source, span(100, 1, 1)), " 100 | line100\n     | ^\n");
    assert_eq!(source_extract(&source, span(1000, 2, 3)), "1000 | line1000\n     |  ^^\n");
    assert_eq!(source_extract(&source, span(1200, 8, 8)), "1200 | line1200\n     |        ^\n");
    // the text ends with a line feed: behind it stands an empty line
    assert_eq!(source_extract(&source, span(1201, 1, 0)), "1201 | \n     | \n");
    assert_eq!(source_extract(&source, span(1202, 1, 1)), "");
}

#[test]
fn extract_of_nothing() {
    assert_eq!(source_extract("", span(1, 1, 1)), "");
    assert_eq!(source_extract("abc", span(2, 1, 1)), "");
    assert_eq!(source_extract("abc", Span::new(Loc::new(3, 1), Loc::new(1, 1))), "");
    assert_eq!(source_extract("abc", span(1, 3, 1)), "   1 | abc\n     |   \n");
    assert_eq!(source_extract("abc", span(1, 0, 2)), "   1 | abc\n     | ^^^\n");
}

#[test]
fn errors_show_where_they_are() {
    let source = Source::new("x = 1; print y;".to_string());
    let error = CheckerError::SyntaxError(
        SyntaxError::UnknownVariable("y".to_string()),
        span(1, 14, 14),
    );
    assert_eq!(error.span(), span(1, 14, 14));
    assert_eq!(error.to_error(&source).0, "   1 | x = 1; print y;\n     |              ^\n");
    assert_eq!(span(1, 1, 1).to_error(&Source::new(String::new())).0, "");
    let error = InterpreterError::ArithmeticError(ArithmeticError::Overflow, span(1, 3, 3));
    assert_eq!(error.span(), span(1, 3, 3));
    let error = CodegenError::UnsupportedType(Type::Stmt, span(1, 5, 6));
    assert_eq!(error.span(), span(1, 5, 6));
}

#[test]
fn contexts_of_texts() {
    let context = TextContext("a = ;".to_string());
    assert_eq!(context.source(), "a = ;");
    assert_eq!(
        context.error_context(Some(span(1, 5, 5))),
        ErrorContext::new("   1 | a = ;\n     |     ^\n".to_string())
    );
    assert_eq!(context.error_context(None), ErrorContext::new(String::new()));
    let input = RawInput::from("a = ;".to_string());
    assert_eq!(input.source(), "a = ;");
    assert_eq!(input.error_context(span(1, 1, 1)).0, "   1 | a = ;\n     | ^\n");
    assert_eq!(input.error_context(span(1, 1, 1)).to_string(), "\n\n   1 | a = ;\n     | ^\n\n");
    assert_eq!(InputState::from("abc".to_string()).source(), "abc");
    assert_eq!(Source::new("abc".to_string()).source(), "abc");
}

// -------------------------------------------------------------------------------------------------
// scope

#[test]
fn scope_keeps_the_last_binding() {
    let mut scope: Scope<i32> = Scope::new();
    assert_eq!(scope.get(&"a".to_string()), None);
    scope.insert("a".to_string(), 1);
    scope.insert("b".to_string(), 2);
    scope.insert("a".to_string(), 3);
    assert_eq!(scope.get(&"a".to_string()), Some(&3));
    assert_eq!(scope.get(&"b".to_string()), Some(&2));
    assert_eq!(scope.get(&"c".to_string()), None);
}

// -------------------------------------------------------------------------------------------------
// typing rules

#[test]
fn types_of_binary_operations() {
    let pair = tuple_of(Type::Integer, 2);
    for op in [BinOpKind::Add, BinOpKind::Sub, BinOpKind::Mul, BinOpKind::Div] {
        assert_eq!(check_bin_op_type(op, &Type::Integer, &Type::Integer), Ok(Type::Integer));
        assert_eq!(check_bin_op_type(op, &Type::Float, &Type::Float), Ok(Type::Float));
        assert_eq!(
            check_bin_op_type(op, &Type::Integer, &Type::Float),
            Err(TypeError::MismatchedTypesForBinaryOp(Type::Integer, Type::Float))
        );
        assert_eq!(
            check_bin_op_type(op, &Type::Stmt, &Type::Stmt),
            Err(TypeError::MismatchedTypesForBinaryOp(Type::Stmt, Type::Stmt))
        );
    }
    for op in [BinOpKind::Add, BinOpKind::Sub] {
        assert_eq!(check_bin_op_type(op, &pair, &pair), Ok(pair.duplicate()));
        assert_eq!(
            check_bin_op_type(op, &pair, &Type::Integer),
            Err(TypeError::MismatchedTypesForBinaryOp(pair.duplicate(), Type::Integer))
        );
        assert_eq!(
            check_bin_op_type(op, &Type::Integer, &pair),
            Err(TypeError::MismatchedTypesForBinaryOp(Type::Integer, pair.duplicate()))
        );
    }
    for op in [BinOpKind::Mul, BinOpKind::Div] {
        assert_eq!(check_bin_op_type(op, &pair, &Type::Integer), Ok(pair.duplicate()));
        assert_eq!(check_bin_op_type(op, &Type::Integer, &pair), Ok(pair.duplicate()));
        assert_eq!(
            check_bin_op_type(op, &pair, &pair),
            Err(TypeError::MismatchedTypesForBinaryOp(pair.duplicate(), pair.duplicate()))
        );
        assert_eq!(
            check_bin_op_type(op, &Type::Float, &tuple_of(pair.duplicate(), 3)),
            Err(TypeError::MismatchedTypesForBinaryOp(Type::Float, Type::Integer))
        );
    }
}

// -------------------------------------------------------------------------------------------------
// values

#[test]
fn integers_compute_or_fail() {
    let op = |kind| BinOp::new(kind, ());
    assert_eq!(op(BinOpKind::Add).eval(2, 3), Ok(5));
    assert_eq!(op(BinOpKind::Sub).eval(2, 3), Ok(-1));
    assert_eq!(op(BinOpKind::Mul).eval(-2, 3), Ok(-6));
    assert_eq!(op(BinOpKind::Div).eval(7, 2), Ok(3));
    assert_eq!(op(BinOpKind::Div).eval(-7, 2), Ok(-3));
    assert_eq!(op(BinOpKind::Div).eval(7, -2), Ok(-3));
    assert_eq!(op(BinOpKind::Div).eval(-7, -2), Ok(3));
    assert_eq!(op(BinOpKind::Div).eval(7, 0), Err(ArithmeticError::DivisionByZero));
    assert_eq!(op(BinOpKind::Div).eval(i32::MIN, -1), Err(ArithmeticError::Overflow));
    assert_eq!(op(BinOpKind::Add).eval(i32::MAX, 1), Err(ArithmeticError::Overflow));
    assert_eq!(op(BinOpKind::Sub).eval(i32::MIN, 1), Err(ArithmeticError::Overflow));
    assert_eq!(op(BinOpKind::Mul).eval(65536, 32768), Err(ArithmeticError::Overflow));
    assert_eq!(op(BinOpKind::Mul).eval(65536, -32768), Ok(i32::MIN));
}

#[test]
fn tuples_add_element_by_element() {
    let a = ints(&[1, 2, 3]);
    let b = ints(&[10, 20, 30]);
    assert_eq!(a.bin_op(BinOpKind::Add, &b), Ok(ints(&[11, 22, 33])));
    assert_eq!(a.bin_op(BinOpKind::Sub, &b), Ok(ints(&[-9, -18, -27])));
    assert_eq!(a.bin_op(BinOpKind::Mul, &b), Err(OpError::Mismatch));
    assert_eq!(a.bin_op(BinOpKind::Div, &b), Err(OpError::Mismatch));
    assert_eq!(a.bin_op(BinOpKind::Add, &ints(&[1, 2])), Err(OpError::Mismatch));
    let nested = Value::Tuple(vec![ints(&[1]), ints(&[2])]);
    assert_eq!(
        nested.bin_op(BinOpKind::Add, &nested),
        Ok(Value::Tuple(vec![ints(&[2]), ints(&[4])]))
    );
    assert_eq!(
        ints(&[1, i32::MAX]).bin_op(BinOpKind::Add, &ints(&[i32::MAX, 1])),
        Err(OpError::Arithmetic(ArithmeticError::Overflow))
    );
}

#[test]
fn tuples_scale_from_either_side() {
    let t = ints(&[6, -12]);
    let s = Value::Int(3);
    for op in [BinOpKind::Mul, BinOpKind::Div] {
        assert_eq!(t.bin_op(op, &s), s.bin_op(op, &t));
    }
    assert_eq!(t.bin_op(BinOpKind::Mul, &s), Ok(ints(&[18, -36])));
    assert_eq!(s.bin_op(BinOpKind::Div, &t), Ok(ints(&[2, -4])));
    assert_eq!(t.bin_op(BinOpKind::Add, &s), Err(OpError::Mismatch));
    assert_eq!(s.bin_op(BinOpKind::Sub, &t), Err(OpError::Mismatch));
    assert_eq!(
        t.bin_op(BinOpKind::Div, &Value::Int(0)),
        Err(OpError::Arithmetic(ArithmeticError::DivisionByZero))
    );
    assert_eq!(t.bin_op(BinOpKind::Mul, &Value::Float(float("1.5"))), Err(OpError::Mismatch));
    let floats = Value::Tuple(vec![Value::Float(float("1.5"))]);
    assert_eq!(
        Value::Float(float("2.0")).bin_op(BinOpKind::Div, &floats),
        Ok(Value::Tuple(vec![Value::Float(float("1.5").arith(BinOpKind::Div, float("2.0")))]))
    );
    assert_eq!(
        Value::Int(1).bin_op(BinOpKind::Add, &Value::Float(float("2.0"))),
        Err(OpError::Mismatch)
    );
}

#[test]
fn values_negate_and_copy() {
    assert_eq!(Value::Int(5).unary_op(UnaryOpKind::Neg), Ok(Value::Int(-5)));
    assert_eq!(Value::Int(5).unary_op(UnaryOpKind::Pos), Ok(Value::Int(5)));
    assert_eq!(Value::Int(i32::MIN).unary_op(UnaryOpKind::Neg), Err(ArithmeticError::Overflow));
    assert_eq!(Value::Int(i32::MIN).unary_op(UnaryOpKind::Pos), Ok(Value::Int(i32::MIN)));
    assert_eq!(
        Value::Float(float("1.5")).unary_op(UnaryOpKind::Neg),
        Ok(Value::Float(float("1.5").neg()))
    );
    assert_eq!(ints(&[1, -2]).unary_op(UnaryOpKind::Neg), Ok(ints(&[-1, 2])));
    assert_eq!(ints(&[1, -2]).unary_op(UnaryOpKind::Pos), Ok(ints(&[1, -2])));
    assert_eq!(ints(&[1, i32::MIN]).unary_op(UnaryOpKind::Neg), Err(ArithmeticError::Overflow));
    let nested = Value::Tuple(vec![ints(&[1]), Value::Float(float("2.5"))]);
    assert_eq!(nested.duplicate(), nested);
    let mut out = Text::new();
    nested.write(&mut out);
    Value::Tuple(vec![]).write(&mut out);
    assert_eq!(plain(&out), "((1), <Literal(\"2.5\")>)()");
}

#[test]
fn unassigned_variable_has_no_value() {
    let scope: Scope<Value> = Scope::new();
    let y = Expr::variable(
        VarName::new("y".to_string(), TypeInfo::new(Type::Integer, span(1, 7, 7))),
        TypeInfo::new(Type::Integer, span(1, 7, 7)),
    );
    let sum = Expr::bin_op(
        BinOp::new(BinOpKind::Add, info(Type::Integer)),
        Expr::integer(1, info(Type::Integer)),
        y,
        info(Type::Integer),
    );
    assert_eq!(
        run_expr(&scope, &sum),
        Err(InterpreterError::SyntaxError(
            SyntaxError::UnknownVariable("y".to_string()),
            span(1, 7, 7)
        ))
    );
    let mut codegen = LlvmCodegen::new();
    assert_eq!(
        codegen.codegen_expr(&sum),
        Err(CodegenError::SyntaxError(
            SyntaxError::UnknownVariable("y".to_string()),
            span(1, 7, 7)
        ))
    );
}

#[test]
fn mismatch_at_run_time_names_the_types() {
    let scope: Scope<Value> = Scope::new();
    let sum = Expr::bin_op(
        BinOp::new(BinOpKind::Add, TypeInfo::new(Type::Integer, span(1, 3, 3))),
        Expr::integer(1, info(Type::Integer)),
        Expr::float(float("2.5"), info(Type::Float)),
        info(Type::Integer),
    );
    assert_eq!(
        run_expr(&scope, &sum),
        Err(InterpreterError::TypeError(
            TypeError::MismatchedTypesForBinaryOp(Type::Integer, Type::Float),
            span(1, 3, 3)
        ))
    );
}

// -------------------------------------------------------------------------------------------------
// folding

#[test]
fn folding_keeps_the_metadata() {
    let meta = TypeInfo::new(Type::Integer, span(1, 1, 9));
    let product = Expr::bin_op(
        BinOp::new(BinOpKind::Mul, info(Type::Integer)),
        Expr::integer(6, info(Type::Integer)),
        Expr::integer(7, info(Type::Integer)),
        meta.duplicate(),
    );
    let folded = optimize_expr(product);
    assert_eq!(folded, Expr::integer(42, meta));
    let meta = TypeInfo::new(Type::Float, span(1, 1, 9));
    let quotient = Expr::bin_op(
        BinOp::new(BinOpKind::Div, info(Type::Float)),
        Expr::float(float("1.0"), info(Type::Float)),
        Expr::float(float("3.0"), info(Type::Float)),
        meta.duplicate(),
    );
    assert_eq!(
        optimize_expr(quotient),
        Expr::float(float("1.0").arith(BinOpKind::Div, float("3.0")), meta)
    );
}

// -------------------------------------------------------------------------------------------------
// code generator

#[test]
fn zeros_and_names_of_types() {
    assert_eq!(LlvmType::Builtin(Type::Integer).init_val(), "0");
    assert_eq!(LlvmType::Builtin(Type::Float).init_val(), "0.0");
    assert_eq!(LlvmType::Builtin(Type::Integer).name(), "i32");
    assert_eq!(LlvmType::Builtin(Type::Float).name(), "double");
    let value = LlvmValue::new(Operand::Register(12), LlvmType::Builtin(Type::Float));
    assert_eq!(value.type_.duplicate(), LlvmType::Builtin(Type::Float));
    let mut out = Text::new();
    value.register.write(&mut out);
    Operand::Int(-3).write(&mut out);
    assert_eq!(plain(&out), "%r12-3");
}
