use wolf::amarok::commands::{Command, CommandError, ExitCode};
use wolf::amarok::errors::{ParseError, RuntimeError};
use wolf::amarok::span::{Span, Spanned};
use wolf::amarok::token::{Token, TokenType};
use wolf::amarok::literal::{operator_from_add_text, operator_from_multiply_text, unquote_string};
use wolf::amarok::report::{
    line_col_from_offset, line_text_and_line_start, render_parse_error, render_runtime_error,
};
use wolf::amarok::syntax::BinaryOperator;
use wolf::amarok::value::{evaluate_binary, format_value, is_truthy, Value};

#[test]
fn spans_keep_their_ends() {
    assert_eq!(Span::new(3, 9), Span { start: 3, end: 9 });
    assert_eq!(Span::zero(), Span { start: 0, end: 0 });
}

#[test]
fn spanned_values_keep_their_span() {
    let spanned = Spanned::new(Span::new(1, 4), 12u8);
    assert_eq!(spanned.span, Span::new(1, 4));
    assert_eq!(spanned.value, 12);
    let mapped = spanned.map(|value| value as u32 + 1000);
    assert_eq!(mapped, Spanned { span: Span::new(1, 4), value: 1012u32 });
    assert_eq!(Spanned::with_zero_span("x"), Spanned { span: Span::zero(), value: "x" });
    let converted: Spanned<i64> = 5i64.into();
    assert_eq!(converted, Spanned { span: Span::zero(), value: 5 });
}

#[test]
fn errors_start_without_a_span() {
    let runtime = RuntimeError::new("Division by zero.".to_string());
    assert_eq!(runtime.span, None);
    let placed = runtime.with_span(Span::new(2, 7));
    assert_eq!(placed.message, "Division by zero.");
    assert_eq!(placed.span, Some(Span::new(2, 7)));
    let parse = ParseError::new("no".to_string()).with_span(Span::new(0, 1));
    assert_eq!(parse, ParseError { message: "no".to_string(), span: Some(Span::new(0, 1)) });
    assert_eq!(ParseError::new("no".to_string()).span, None);
}

#[test]
fn token_constructor_keeps_its_parts() {
    let token = Token::new(TokenType::Identifier, "abc".to_string(), 4);
    assert_eq!(
        token,
        Token { token_type: TokenType::Identifier, lexeme: "abc".to_string(), line_number: 4 }
    );
    assert_eq!(token.clone(), token);
}

#[test]
fn amarok_commands_parse_and_run() {
    assert_eq!(Command::parse(vec![]), Ok(Command::Help));
    assert_eq!(Command::parse(vec!["help".to_string()]), Ok(Command::Help));
    assert_eq!(Command::parse(vec!["version".to_string(), "x".to_string()]), Ok(Command::Version));
    assert_eq!(
        Command::parse(vec!["run".to_string()]),
        Err(CommandError::new(ExitCode::Usage, "Unknown command: run".to_string()))
    );
    assert_eq!(Command::Version.run(), "Amarok version 0.1.0\n");
    assert!(Command::Help.run().starts_with("Amarok\n\nAvailable commands:\n  help "));
}

#[test]
fn exit_codes_follow_convention() {
    assert_eq!(ExitCode::Usage.status(), 64);
    assert_eq!(ExitCode::Compile.status(), 65);
    assert_eq!(ExitCode::Runtime.status(), 70);
}

#[test]
fn integers_wrap_and_division_is_guarded() {
    let span = Span::new(1, 2);
    assert_eq!(
        evaluate_binary(BinaryOperator::Add, Value::Integer(2), Value::Integer(3), span),
        Ok(Value::Integer(5))
    );
    assert_eq!(
        evaluate_binary(BinaryOperator::Subtract, Value::Integer(2), Value::Integer(3), span),
        Ok(Value::Integer(-1))
    );
    assert_eq!(
        evaluate_binary(BinaryOperator::Multiply, Value::Integer(-4), Value::Integer(3), span),
        Ok(Value::Integer(-12))
    );
    assert_eq!(
        evaluate_binary(BinaryOperator::Divide, Value::Integer(-7), Value::Integer(2), span),
        Ok(Value::Integer(-3))
    );
    assert_eq!(
        evaluate_binary(BinaryOperator::Add, Value::Integer(i64::MAX), Value::Integer(1), span),
        Ok(Value::Integer(i64::MIN))
    );
    assert_eq!(
        evaluate_binary(BinaryOperator::Divide, Value::Integer(1), Value::Integer(0), span),
        Err(RuntimeError { message: "Division by zero.".to_string(), span: Some(span) })
    );
    assert_eq!(
        evaluate_binary(BinaryOperator::Divide, Value::Integer(i64::MIN), Value::Integer(-1), span),
        Err(RuntimeError { message: "Division overflow.".to_string(), span: Some(span) })
    );
}

#[test]
fn texts_concatenate_and_nothing_else() {
    let span = Span::new(0, 9);
    assert_eq!(
        evaluate_binary(
            BinaryOperator::Add,
            Value::String("ab".to_string()),
            Value::String("cd".to_string()),
            span
        ),
        Ok(Value::String("abcd".to_string()))
    );
    assert_eq!(
        evaluate_binary(
            BinaryOperator::Subtract,
            Value::String("a\"b".to_string()),
            Value::Integer(-5),
            span
        ),
        Err(RuntimeError {
            message: "Unsupported operation: String(\"a\\\"b\") - Integer(-5)".to_string(),
            span: Some(span)
        })
    );
    assert_eq!(
        evaluate_binary(BinaryOperator::Multiply, Value::Null, Value::String("x".to_string()), span)
            .unwrap_err()
            .message,
        "Unsupported operation: Null * String(\"x\")"
    );
    assert_eq!(
        evaluate_binary(BinaryOperator::Divide, Value::Integer(1), Value::Null, span)
            .unwrap_err()
            .message,
        "Unsupported operation: Integer(1) / Null"
    );
}

#[test]
fn truth_and_printing_of_values() {
    assert!(!is_truthy(&Value::Null));
    assert!(!is_truthy(&Value::Integer(0)));
    assert!(is_truthy(&Value::Integer(-1)));
    assert!(!is_truthy(&Value::String(String::new())));
    assert!(is_truthy(&Value::String("0".to_string())));
    assert_eq!(format_value(&Value::Integer(-30)), "-30");
    assert_eq!(format_value(&Value::String("hi".to_string())), "hi");
    assert_eq!(format_value(&Value::Null), "null");
    assert_eq!(BinaryOperator::Add.symbol(), "+");
    assert_eq!(BinaryOperator::Subtract.symbol(), "-");
    assert_eq!(BinaryOperator::Multiply.symbol(), "*");
    assert_eq!(BinaryOperator::Divide.symbol(), "/");
    assert_eq!(Value::String("a".to_string()).clone(), Value::String("a".to_string()));
}

#[test]
fn operators_from_their_text() {
    assert_eq!(operator_from_add_text("+"), Ok(BinaryOperator::Add));
    assert_eq!(operator_from_add_text("-"), Ok(BinaryOperator::Subtract));
    assert_eq!(operator_from_add_text("*"), Err("Unknown add operator: *".to_string()));
    assert_eq!(operator_from_multiply_text("*"), Ok(BinaryOperator::Multiply));
    assert_eq!(operator_from_multiply_text("/"), Ok(BinaryOperator::Divide));
    assert_eq!(operator_from_multiply_text("+"), Err("Unknown multiply operator: +".to_string()));
}

#[test]
fn string_literals_are_unquoted() {
    assert_eq!(unquote_string("\"hello\""), Ok("hello".to_string()));
    assert_eq!(unquote_string("\"\""), Ok(String::new()));
    assert_eq!(unquote_string("\"a\\\"b\\\\c\""), Ok("a\"b\\c".to_string()));
    assert_eq!(unquote_string("\"é\n\""), Ok("é\n".to_string()));
    assert_eq!(unquote_string("\""), Err("Invalid string literal: \"".to_string()));
    assert_eq!(unquote_string("abc"), Err("Invalid string literal: abc".to_string()));
    assert_eq!(unquote_string("\"abc"), Err("Invalid string literal: \"abc".to_string()));
    assert_eq!(unquote_string(""), Err("Invalid string literal: ".to_string()));
    assert_eq!(unquote_string("\"a\\\""), Err("String ends with a backslash.".to_string()));
    assert_eq!(
        unquote_string("\"a\\nb\""),
        Err("Unsupported escape sequence: \\n (only \\\" and \\\\ supported)".to_string())
    );
}

#[test]
fn offsets_become_lines_and_columns() {
    let source = "a = 1;\nb = c;\n";
    assert_eq!(line_col_from_offset(source, 0), (1, 1));
    assert_eq!(line_col_from_offset(source, 4), (1, 5));
    assert_eq!(line_col_from_offset(source, 6), (1, 7));
    assert_eq!(line_col_from_offset(source, 7), (2, 1));
    assert_eq!(line_col_from_offset(source, 11), (2, 5));
    assert_eq!(line_col_from_offset(source, 1000), (3, 1));
    assert_eq!(line_col_from_offset("é = 1", 2), (1, 2));
    assert_eq!(line_col_from_offset("é = 1", 1), (1, 2));
    assert_eq!(line_col_from_offset("", 3), (1, 1));
}

#[test]
fn lines_are_found_by_number() {
    let source = "a = 1;\nbé = c;\n\nlast";
    assert_eq!(line_text_and_line_start(source, 1), Some(("a = 1;", 0)));
    assert_eq!(line_text_and_line_start(source, 2), Some(("bé = c;", 7)));
    assert_eq!(line_text_and_line_start(source, 3), Some(("", 16)));
    assert_eq!(line_text_and_line_start(source, 4), Some(("last", 17)));
    assert_eq!(line_text_and_line_start(source, 5), None);
    assert_eq!(line_text_and_line_start(source, 0), None);
    assert_eq!(line_text_and_line_start("x\n", 2), Some(("", 2)));
    assert_eq!(line_text_and_line_start("", 1), Some(("", 0)));
}

#[test]
fn errors_are_rendered_with_carets() {
    let source = "a = 1;\nb = c;\n";
    let error = RuntimeError::new("Undefined variable: c".to_string()).with_span(Span::new(11, 12));
    assert_eq!(
        render_runtime_error("p.amarok", source, &error),
        "p.amarok:2:5: Undefined variable: c\nb = c;\n    ^\n"
    );
    let wide = ParseError::new("bad".to_string()).with_span(Span::new(0, 5));
    assert_eq!(render_parse_error("p", source, &wide), "p:1:1: bad\na = 1;\n^^^^^\n");
    let empty = ParseError::new("bad".to_string()).with_span(Span::new(9, 9));
    assert_eq!(render_parse_error("p", source, &empty), "p:2:3: bad\nb = c;\n  ^\n");
    let nowhere = RuntimeError::new("Return outside of function.".to_string());
    assert_eq!(render_runtime_error("p", source, &nowhere), "p: Return outside of function.\n");
    let backwards = ParseError::new("odd".to_string()).with_span(Span::new(10, 2));
    assert_eq!(render_parse_error("p", source, &backwards), "p:2:4: odd\nb = c;\n   ^\n");
}
