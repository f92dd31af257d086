use wolf::amarok::lexer::Lexer;
use wolf::amarok::parser::{ParseError, Parser};
use wolf::amarok::statement::Statement;

fn parse_program(source: &str) -> Vec<Statement> {
    let tokens = Lexer::new(source).scan_tokens();
    let mut parser = Parser::new(tokens);
    parser.parse_program().unwrap()
}

#[test]
fn parses_print_statement() {
    let program = parse_program("print 123;");

    assert_eq!(program.len(), 1);
    match &program[0] {
        Statement::Print(_) => {}
        other => panic!("Expected print statement, got {:?}", other),
    }
}

#[test]
fn parses_expression_statement() {
    let program = parse_program("1 + 2;");

    assert_eq!(program.len(), 1);
    match &program[0] {
        Statement::Expression(_) => {}
        other => panic!("Expected expression statement, got {:?}", other),
    }
}

#[test]
fn parses_multiple_statements() {
    let program = parse_program("print 1; 2 + 3; print 4;");

    assert_eq!(program.len(), 3);
    matches!(&program[0], Statement::Print(_));
    matches!(&program[1], Statement::Expression(_));
    matches!(&program[2], Statement::Print(_));
}

#[test]
fn statements_need_their_semicolon() {
    let mut parser = Parser::new(Lexer::new("print 1; print 2\n").scan_tokens());
    assert_eq!(
        parser.parse_program(),
        Err(ParseError::new("Expected ';' after value. Found EndOfFile.".to_string(), 2))
    );
    let mut parser = Parser::new(Lexer::new("1 2;").scan_tokens());
    assert_eq!(
        parser.parse_program(),
        Err(ParseError::new("Expected ';' after expression. Found Number.".to_string(), 1))
    );
    assert_eq!(parse_program(""), vec![]);
}
