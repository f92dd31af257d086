use wolf::amarok::expression::{Expression, LiteralValue};
use wolf::amarok::lexer::Lexer;
use wolf::amarok::parser::{ParseError, Parser};
use wolf::amarok::token::{Token, TokenType};

fn parse_expression(source: &str) -> Expression {
    let tokens = Lexer::new(source).scan_tokens();
    let mut parser = Parser::new(tokens);
    parser.parse_expression().unwrap()
}

fn parse_error(source: &str) -> ParseError {
    let tokens = Lexer::new(source).scan_tokens();
    let mut parser = Parser::new(tokens);
    parser.parse_expression().unwrap_err()
}

fn token(token_type: TokenType, lexeme: &str) -> Token {
    Token::new(token_type, lexeme.to_string(), 1)
}

fn number(lexeme: &str) -> Expression {
    Expression::Literal(LiteralValue::Number(lexeme.to_string()))
}

fn binary(left: Expression, token_type: TokenType, lexeme: &str, right: Expression) -> Expression {
    Expression::Binary { left: Box::new(left), operator: token(token_type, lexeme), right: Box::new(right) }
}

#[test]
fn parses_number_literal() {
    let expression = parse_expression("123");
    match expression {
        Expression::Literal(LiteralValue::Number(value)) => {
            assert_eq!(value.parse::<f64>().unwrap(), 123.0)
        }
        other => panic!("Expected number literal, got {:?}", other),
    }
}

#[test]
fn parses_grouping_and_precedence() {
    let expression = parse_expression("(1 + 2) * 3");

    // should be: (* (group (+ 1 2)) 3)
    match expression {
        Expression::Binary { operator, .. } => {
            assert_eq!(operator.lexeme, "*");
        }
        other => panic!("Expected binary expression, got {:?}", other),
    }
}

#[test]
fn parses_unary() {
    let expression = parse_expression("-123");
    match expression {
        Expression::Unary { operator, .. } => assert_eq!(operator.lexeme, "-"),
        other => panic!("Expected unary expression, got {:?}", other),
    }
}

#[test]
fn parses_equality_chain() {
    let expression = parse_expression("1 == 2 != 3");
    match expression {
        Expression::Binary { operator, .. } => {
            // left-associative: ((1 == 2) != 3)
            assert_eq!(operator.lexeme, "!=");
        }
        other => panic!("Expected binary expression, got {:?}", other),
    }
}

#[test]
fn parses_the_whole_tree_by_precedence() {
    assert_eq!(
        parse_expression("1 + 2 * 3 < 4 == !true"),
        binary(
            binary(
                binary(
                    number("1"),
                    TokenType::Plus,
                    "+",
                    binary(number("2"), TokenType::Star, "*", number("3"))
                ),
                TokenType::Less,
                "<",
                number("4")
            ),
            TokenType::EqualEqual,
            "==",
            Expression::Unary {
                operator: token(TokenType::Bang, "!"),
                right: Box::new(Expression::Literal(LiteralValue::Boolean(true))),
            }
        )
    );
}

#[test]
fn parses_every_literal() {
    assert_eq!(parse_expression("nil"), Expression::Literal(LiteralValue::Nil));
    assert_eq!(parse_expression("false"), Expression::Literal(LiteralValue::Boolean(false)));
    assert_eq!(parse_expression("12.5"), number("12.5"));
    assert_eq!(
        parse_expression("\"hi there\""),
        Expression::Literal(LiteralValue::String("hi there".to_string()))
    );
    assert_eq!(parse_expression("x1"), Expression::Identifier(token(TokenType::Identifier, "x1")));
    assert_eq!(
        parse_expression("(nil)"),
        Expression::Grouping(Box::new(Expression::Literal(LiteralValue::Nil)))
    );
    assert_eq!(
        parse_expression("- - 1"),
        Expression::Unary {
            operator: token(TokenType::Minus, "-"),
            right: Box::new(Expression::Unary {
                operator: token(TokenType::Minus, "-"),
                right: Box::new(number("1")),
            }),
        }
    );
}

#[test]
fn names_the_kind_of_an_expression() {
    assert_eq!(parse_expression("1").kind_name(), "Literal");
    assert_eq!(parse_expression("(1)").kind_name(), "Grouping");
    assert_eq!(parse_expression("!x").kind_name(), "Unary");
    assert_eq!(parse_expression("1 - x").kind_name(), "Binary");
    assert_eq!(parse_expression("x").kind_name(), "Identifier");
}

#[test]
fn reports_what_it_found_and_where() {
    assert_eq!(
        parse_error("1 +\n;"),
        ParseError::new("Expected expression, found Semicolon".to_string(), 2)
    );
    assert_eq!(
        parse_error("(1 + 2"),
        ParseError::new("Expected ')' after expression. Found EndOfFile.".to_string(), 1)
    );
    assert_eq!(parse_error(""), ParseError::new("Expected expression, found EndOfFile".to_string(), 1));
    let mut empty = Parser::new(vec![]);
    assert_eq!(
        empty.parse_expression(),
        Err(ParseError::new("Expected expression, found EndOfFile".to_string(), 1))
    );
    assert_eq!(TokenType::GreaterEqual.name(), "GreaterEqual");
}
