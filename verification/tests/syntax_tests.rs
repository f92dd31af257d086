use wolf::syntax::ast::{BinaryOperator, ExpressionNode, ProgramNode, StatementNode};
use wolf::syntax::lexer::{lex, LexError, Lexer};
use wolf::syntax::parser::{Expected, ParseError, Parser};
use wolf::syntax::token::{Token, TokenKind};
use wolf::syntax::{parse_source, SyntaxError};

fn number(value: i64) -> ExpressionNode {
    ExpressionNode::NumberLiteral { value }
}

fn name(text: &str) -> ExpressionNode {
    ExpressionNode::IdentifierReference { name: text.to_string() }
}

fn binary(operator: BinaryOperator, left: ExpressionNode, right: ExpressionNode) -> ExpressionNode {
    ExpressionNode::BinaryOperation { operator, left: Box::new(left), right: Box::new(right) }
}

fn parse_one_expression(source: &str) -> ExpressionNode {
    let tokens = lex(source).unwrap();
    let mut parser = Parser::new(tokens);
    parser.parse_expression().unwrap()
}

fn kinds(source: &str) -> Vec<TokenKind> {
    lex(source).unwrap().into_iter().map(|token| token.kind).collect()
}

#[test]
fn multiplication_binds_tighter_than_addition() {
    assert_eq!(
        parse_one_expression("1 + 2 * 3"),
        binary(
            BinaryOperator::Add,
            number(1),
            binary(BinaryOperator::Multiply, number(2), number(3))
        )
    );
}

#[test]
fn subtraction_groups_to_the_left() {
    assert_eq!(
        parse_one_expression("8 - 3 - 2"),
        binary(
            BinaryOperator::Subtract,
            binary(BinaryOperator::Subtract, number(8), number(3)),
            number(2)
        )
    );
}

#[test]
fn division_groups_to_the_left() {
    assert_eq!(
        parse_one_expression("8 / 4 / 2"),
        binary(
            BinaryOperator::Divide,
            binary(BinaryOperator::Divide, number(8), number(4)),
            number(2)
        )
    );
}

#[test]
fn parentheses_group_before_multiplication() {
    assert_eq!(
        parse_one_expression("(1 + 2) * x"),
        binary(
            BinaryOperator::Multiply,
            binary(BinaryOperator::Add, number(1), number(2)),
            name("x")
        )
    );
}

#[test]
fn lexes_every_kind_of_token() {
    assert_eq!(
        kinds("let x1 = (2 + 3) * 4 - 5 / _y;"),
        vec![
            TokenKind::Let,
            TokenKind::Identifier,
            TokenKind::Equal,
            TokenKind::LeftParenthesis,
            TokenKind::Number,
            TokenKind::Plus,
            TokenKind::Number,
            TokenKind::RightParenthesis,
            TokenKind::Star,
            TokenKind::Number,
            TokenKind::Minus,
            TokenKind::Number,
            TokenKind::Slash,
            TokenKind::Identifier,
            TokenKind::Semicolon,
            TokenKind::EndOfFile,
        ]
    );
}

#[test]
fn let_is_a_keyword_only_when_alone() {
    assert_eq!(
        kinds("let lets le Let"),
        vec![
            TokenKind::Let,
            TokenKind::Identifier,
            TokenKind::Identifier,
            TokenKind::Identifier,
            TokenKind::EndOfFile,
        ]
    );
}

#[test]
fn tokens_carry_line_and_column() {
    let tokens = lex("let x\n  = 12;\r\n\ty").unwrap();
    let places: Vec<(String, usize, usize)> = tokens
        .into_iter()
        .map(|token| (token.text, token.line_number, token.column_number))
        .collect();
    assert_eq!(
        places,
        vec![
            ("let".to_string(), 1, 1),
            ("x".to_string(), 1, 5),
            ("=".to_string(), 2, 3),
            ("12".to_string(), 2, 5),
            (";".to_string(), 2, 7),
            ("y".to_string(), 3, 2),
            ("".to_string(), 3, 3),
        ]
    );
}

#[test]
fn end_of_file_repeats() {
    let mut lexer = Lexer::new("a ");
    assert_eq!(lexer.next_token().unwrap().kind, TokenKind::Identifier);
    for _ in 0..3 {
        let token = lexer.next_token().unwrap();
        assert_eq!(token.kind, TokenKind::EndOfFile);
        assert_eq!(token.text, "");
        assert_eq!((token.line_number, token.column_number), (1, 3));
    }
}

#[test]
fn empty_source_is_one_end_of_file_token() {
    let tokens = lex("").unwrap();
    assert_eq!(
        tokens,
        vec![Token { kind: TokenKind::EndOfFile, text: String::new(), line_number: 1, column_number: 1 }]
    );
}

#[test]
fn unknown_character_is_a_lexical_error() {
    assert_eq!(
        lex("x = 1;\n  y @ 2;"),
        Err(LexError { character: '@', line_number: 2, column_number: 5 })
    );
}

#[test]
fn lexing_goes_on_behind_an_error() {
    let mut lexer = Lexer::new("#a");
    assert_eq!(
        lexer.next_token(),
        Err(LexError { character: '#', line_number: 1, column_number: 1 })
    );
    let token = lexer.next_token().unwrap();
    assert_eq!((token.kind, token.text.as_str(), token.column_number), (TokenKind::Identifier, "a", 2));
}

#[test]
fn token_texts_spell_the_visible_characters() {
    let source = "let total = (alpha + 42)\n\t* beta / 7 ;\r\n total;";
    let joined: String = lex(source).unwrap().into_iter().map(|token| token.text).collect();
    let visible: String = source.chars().filter(|c| !matches!(c, ' ' | '\t' | '\r' | '\n')).collect();
    assert_eq!(joined, visible);
}

#[test]
fn parsing_twice_gives_the_same_tree() {
    let source = "let x = 1 + 2 * (3 - y); x / 2;";
    assert_eq!(parse_source(source), parse_source(source));
}

#[test]
fn parses_declaration_then_reference() {
    assert_eq!(
        parse_source("let x = 2 + 3; x;"),
        Ok(ProgramNode {
            statements: vec![
                StatementNode::VariableDeclaration {
                    name: "x".to_string(),
                    value: binary(BinaryOperator::Add, number(2), number(3)),
                },
                StatementNode::ExpressionStatement { expression: name("x") },
            ]
        })
    );
}

#[test]
fn empty_source_is_an_empty_program() {
    assert_eq!(parse_source(" \n "), Ok(ProgramNode { statements: vec![] }));
}

#[test]
fn missing_equal_is_reported_at_the_offending_token() {
    assert_eq!(
        parse_source("let x 5;"),
        Err(SyntaxError::Grammatical(ParseError {
            expected: Expected::Equal,
            found: TokenKind::Number,
            line_number: 1,
            column_number: 7,
        }))
    );
}

#[test]
fn let_needs_an_identifier() {
    assert_eq!(
        parse_source("let 5 = 1;"),
        Err(SyntaxError::Grammatical(ParseError {
            expected: Expected::Identifier,
            found: TokenKind::Number,
            line_number: 1,
            column_number: 5,
        }))
    );
}

#[test]
fn statement_needs_a_semicolon() {
    assert_eq!(
        parse_source("1 + 2\n"),
        Err(SyntaxError::Grammatical(ParseError {
            expected: Expected::Semicolon,
            found: TokenKind::EndOfFile,
            line_number: 2,
            column_number: 1,
        }))
    );
    assert_eq!(
        parse_source("let x = 1 let"),
        Err(SyntaxError::Grammatical(ParseError {
            expected: Expected::Semicolon,
            found: TokenKind::Let,
            line_number: 1,
            column_number: 11,
        }))
    );
}

#[test]
fn unclosed_parenthesis_is_an_error() {
    assert_eq!(
        parse_source("(1 + 2;"),
        Err(SyntaxError::Grammatical(ParseError {
            expected: Expected::ClosingParenthesis,
            found: TokenKind::Semicolon,
            line_number: 1,
            column_number: 7,
        }))
    );
}

#[test]
fn operator_needs_an_operand() {
    assert_eq!(
        parse_source("1 + ;"),
        Err(SyntaxError::Grammatical(ParseError {
            expected: Expected::Expression,
            found: TokenKind::Semicolon,
            line_number: 1,
            column_number: 5,
        }))
    );
}

#[test]
fn number_must_fit_in_64_bits() {
    assert_eq!(parse_one_expression("9223372036854775807"), number(i64::MAX));
    assert_eq!(parse_one_expression("0009"), number(9));
    assert_eq!(
        parse_source("9223372036854775808;"),
        Err(SyntaxError::Grammatical(ParseError {
            expected: Expected::Integer,
            found: TokenKind::Number,
            line_number: 1,
            column_number: 1,
        }))
    );
}

#[test]
fn lexical_error_comes_before_grammar() {
    assert_eq!(
        parse_source("let = $"),
        Err(SyntaxError::Lexical(LexError { character: '$', line_number: 1, column_number: 7 }))
    );
}

#[test]
fn parser_reads_end_of_file_past_the_last_token() {
    let mut parser = Parser::new(vec![Token {
        kind: TokenKind::LeftParenthesis,
        text: "(".to_string(),
        line_number: 4,
        column_number: 2,
    }]);
    assert_eq!(
        parser.parse_program(),
        Err(ParseError {
            expected: Expected::Expression,
            found: TokenKind::EndOfFile,
            line_number: 4,
            column_number: 2,
        })
    );
    let mut empty = Parser::new(vec![]);
    assert_eq!(empty.parse_program(), Ok(ProgramNode { statements: vec![] }));
}

#[test]
fn number_token_takes_no_sign() {
    for text in ["+5", "-5", "-0", "", "5a"] {
        let mut parser = Parser::new(vec![Token {
            kind: TokenKind::Number,
            text: text.to_string(),
            line_number: 2,
            column_number: 3,
        }]);
        assert_eq!(
            parser.parse_expression(),
            Err(ParseError {
                expected: Expected::Integer,
                found: TokenKind::Number,
                line_number: 2,
                column_number: 3,
            })
        );
    }
    let mut parser = Parser::new(vec![Token {
        kind: TokenKind::Number,
        text: "42".to_string(),
        line_number: 1,
        column_number: 1,
    }]);
    assert_eq!(parser.parse_expression(), Ok(number(42)));
}
