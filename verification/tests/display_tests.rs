use wolf::syntax::ast::{ExpressionNode, ProgramNode};
use wolf::syntax::display::{write_indent, AstDisplay};
use wolf::syntax::lexer::LexError;
use wolf::syntax::parse_source;
use wolf::syntax::parser::{Expected, ParseError};
use wolf::syntax::token::TokenKind;
use wolf::text::{decimal, signed_decimal};

#[test]
fn writes_numbers_in_decimal() {
    assert_eq!(decimal(0), "0");
    assert_eq!(decimal(7), "7");
    assert_eq!(decimal(10), "10");
    assert_eq!(decimal(1203), "1203");
    assert_eq!(decimal(u64::MAX), "18446744073709551615");
    assert_eq!(signed_decimal(0), "0");
    assert_eq!(signed_decimal(-45), "-45");
    assert_eq!(signed_decimal(i64::MAX), "9223372036854775807");
    assert_eq!(signed_decimal(i64::MIN), "-9223372036854775808");
}

#[test]
fn outlines_a_program() {
    let program = parse_source("let x = 2 + 3 * y; x;").unwrap();
    assert_eq!(
        program.to_ast_string(),
        "Program\n\
         \x20 VariableDeclaration(name=x)\n\
         \x20   BinaryOperation(Add)\n\
         \x20     NumberLiteral(2)\n\
         \x20     BinaryOperation(Multiply)\n\
         \x20       NumberLiteral(3)\n\
         \x20       IdentifierReference(y)\n\
         \x20 ExpressionStatement\n\
         \x20   IdentifierReference(x)\n"
    );
}

#[test]
fn outlines_start_at_the_given_level() {
    let mut output = String::from(">");
    ExpressionNode::NumberLiteral { value: -12 }.write_ast(2, &mut output);
    assert_eq!(output, ">    NumberLiteral(-12)\n");
    assert_eq!(ProgramNode { statements: vec![] }.to_ast_string(), "Program\n");
    assert_eq!(<ExpressionNode as AstDisplay>::indent(3), "      ");
    let mut indent = String::new();
    write_indent(0, &mut indent);
    assert_eq!(indent, "");
}

#[test]
fn outlines_every_operator() {
    let program = parse_source("1 - 2; 3 / 4;").unwrap();
    let text = program.statements[0].to_ast_string() + &program.statements[1].to_ast_string();
    assert_eq!(
        text,
        "ExpressionStatement\n  BinaryOperation(Subtract)\n    NumberLiteral(1)\n    NumberLiteral(2)\n\
         ExpressionStatement\n  BinaryOperation(Divide)\n    NumberLiteral(3)\n    NumberLiteral(4)\n"
    );
}

#[test]
fn describes_errors_in_one_line() {
    let lexical = LexError { character: '@', line_number: 12, column_number: 3 };
    assert_eq!(lexical.to_string(), "Unexpected character '@' at 12:3");
    let grammatical = ParseError {
        expected: Expected::Semicolon,
        found: TokenKind::EndOfFile,
        line_number: 2,
        column_number: 10,
    };
    assert_eq!(grammatical.to_string(), "Expected semicolon at 2:10, found EndOfFile");
    assert_eq!(Expected::Expression.describe(), "a number, an identifier or '('");
    assert_eq!(Expected::ClosingParenthesis.describe(), "closing parenthesis");
    assert_eq!(Expected::Identifier.describe(), "identifier after 'let'");
    assert_eq!(Expected::Integer.describe(), "a number that fits in 64 bits");
    assert_eq!(TokenKind::LeftParenthesis.name(), "LeftParenthesis");
    assert_eq!(
        parse_source("let x 5;").unwrap_err().to_string(),
        "Expected '=' after variable name at 1:7, found Number"
    );
}
