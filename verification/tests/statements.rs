use wolf::amarok::span::{Span, Spanned};
use wolf::amarok::syntax::{BinaryOperator, Expression, Program, Statement};
use wolf::amarok::tree::{build_program, Pair, Rule};

fn node(rule: Rule, inner: Vec<Pair>) -> Pair {
    Pair { rule, text: String::new(), span: Span::new(0, 0), inner }
}

fn leaf(rule: Rule, text: &str) -> Pair {
    Pair { rule, text: text.to_string(), span: Span::new(0, 0), inner: vec![] }
}

fn identifier(name: &str) -> Pair {
    leaf(Rule::Identifier, name)
}

fn operand(inner: Pair) -> Pair {
    node(Rule::Multiplication, vec![node(Rule::Primary, vec![inner])])
}

/// The match of an expression that is one primary.
fn single(inner: Pair) -> Pair {
    node(Rule::Expression, vec![node(Rule::Addition, vec![operand(inner)])])
}

/// The match of `left operator right`, each side one primary.
fn operation(left: Pair, operator: &str, right: Pair) -> Pair {
    node(
        Rule::Expression,
        vec![node(
            Rule::Addition,
            vec![operand(left), leaf(Rule::AddOperator, operator), operand(right)],
        )],
    )
}

fn integer(text: &str) -> Pair {
    leaf(Rule::Integer, text)
}

fn variable(name: &str) -> Pair {
    node(Rule::Variable, vec![identifier(name)])
}

fn call(name: &str, arguments: Vec<Pair>) -> Pair {
    node(Rule::FunctionCall, vec![identifier(name), node(Rule::ArgumentList, arguments)])
}

fn assignment(name: &str, value: Pair) -> Pair {
    node(Rule::AssignmentStatement, vec![identifier(name), value])
}

fn print(argument: Pair) -> Pair {
    node(Rule::ExpressionStatement, vec![single(call("print", vec![single(argument)]))])
}

fn block(statements: Vec<Pair>) -> Pair {
    node(Rule::BlockStatement, statements)
}

/// The program that the matches of the statements of a source stand for.
fn parse_program(statements: Vec<Pair>) -> Result<Program, String> {
    let mut inner = statements;
    inner.push(leaf(Rule::EndOfInput, ""));
    build_program(&node(Rule::Program, inner))
}

fn strip_spans_expression(expression: &Spanned<Expression>) -> Expression {
    match &expression.value {
        Expression::Integer(value) => Expression::Integer(*value),
        Expression::String(value) => Expression::String(value.clone()),
        Expression::Variable(name) => Expression::Variable(name.clone()),

        Expression::FunctionCall { name, arguments } => Expression::FunctionCall {
            name: name.clone(),
            arguments: arguments
                .iter()
                .map(strip_spans_expression)
                .map(Spanned::from) // zero-span spanned arg
                .collect(),
        },

        Expression::Binary {
            left,
            operator,
            right,
        } => Expression::Binary {
            left: Box::new(Spanned::from(strip_spans_expression(left))),
            operator: *operator,
            right: Box::new(Spanned::from(strip_spans_expression(right))),
        },
    }
}

fn strip_spans_statement(statement: &Spanned<Statement>) -> Statement {
    match &statement.value {
        Statement::Assignment { name, value } => Statement::Assignment {
            name: name.clone(),
            value: Spanned::from(strip_spans_expression(value)),
        },

        Statement::Expression { expression } => Statement::Expression {
            expression: Spanned::from(strip_spans_expression(expression)),
        },

        Statement::Block { statements } => Statement::Block {
            statements: statements
                .iter()
                .map(strip_spans_statement)
                .map(Spanned::from)
                .collect(),
        },

        Statement::If {
            condition,
            then_branch,
            else_branch,
        } => Statement::If {
            condition: Spanned::from(strip_spans_expression(condition)),
            then_branch: then_branch
                .iter()
                .map(strip_spans_statement)
                .map(Spanned::from)
                .collect(),
            else_branch: else_branch
                .iter()
                .map(strip_spans_statement)
                .map(Spanned::from)
                .collect(),
        },

        Statement::While { condition, body } => Statement::While {
            condition: Spanned::from(strip_spans_expression(condition)),
            body: body
                .iter()
                .map(strip_spans_statement)
                .map(Spanned::from)
                .collect(),
        },

        Statement::FunctionDefinition {
            name,
            parameters,
            body,
        } => Statement::FunctionDefinition {
            name: name.clone(),
            parameters: parameters.clone(),
            body: body
                .iter()
                .map(strip_spans_statement)
                .map(Spanned::from)
                .collect(),
        },

        Statement::Return { value } => Statement::Return {
            value: value
                .as_ref()
                .map(strip_spans_expression)
                .map(Spanned::from),
        },
    }
}

fn strip_spans_program(program: &Program) -> Program {
    Program {
        statements: program
            .statements
            .iter()
            .map(strip_spans_statement)
            .map(Spanned::from)
            .collect(),
    }
}

#[test]
fn parses_assignment_statement() {
    // x = 1 + 2;
    let program = parse_program(vec![assignment("x", operation(integer("1"), "+", integer("2")))])
        .expect("Program should parse");
    let program = strip_spans_program(&program);

    assert_eq!(
        program,
        Program {
            statements: vec![
                Statement::Assignment {
                    name: "x".to_string(),
                    value: Expression::Binary {
                        left: Box::new(Expression::Integer(1).into()),
                        operator: BinaryOperator::Add,
                        right: Box::new(Expression::Integer(2).into()),
                    }
                    .into(),
                }
                .into(),
            ],
        }
    );
}

#[test]
fn parses_expression_statement_function_call() {
    // print(123);
    let program = parse_program(vec![print(integer("123"))]).expect("Program should parse");
    let program = strip_spans_program(&program);

    assert_eq!(program.statements.len(), 1);

    assert_eq!(
        program.statements[0].value,
        Statement::Expression {
            expression: Expression::FunctionCall {
                name: "print".to_string(),
                arguments: vec![Expression::Integer(123).into()],
            }
            .into(),
        }
    );
}

#[test]
fn parses_block_statement() {
    // { x = 1; print(x); }
    let program = parse_program(vec![block(vec![
        assignment("x", single(integer("1"))),
        print(variable("x")),
    ])])
    .expect("Program should parse");
    let program = strip_spans_program(&program);

    assert_eq!(program.statements.len(), 1);

    let Statement::Block { statements } = &program.statements[0].value else {
        panic!("Expected a block statement.");
    };

    assert_eq!(statements.len(), 2);

    assert!(matches!(statements[0].value, Statement::Assignment { .. }));
    assert!(matches!(statements[1].value, Statement::Expression { .. }));
}

#[test]
fn parses_if_else_statement() {
    // if (x) { print(1); } else { print(2); }
    let program = parse_program(vec![node(
        Rule::IfStatement,
        vec![
            single(variable("x")),
            block(vec![print(integer("1"))]),
            node(Rule::ElseClause, vec![block(vec![print(integer("2"))])]),
        ],
    )])
    .expect("Program should parse");
    let program = strip_spans_program(&program);

    assert_eq!(program.statements.len(), 1);

    let Statement::If {
        condition,
        then_branch,
        else_branch,
    } = &program.statements[0].value
    else {
        panic!("Expected an if statement.");
    };

    assert_eq!(condition.value, Expression::Variable("x".to_string()));
    assert_eq!(then_branch.len(), 1);
    assert_eq!(else_branch.len(), 1);
}

#[test]
fn parses_while_statement() {
    // while (x) { x = x - 1; }
    let program = parse_program(vec![node(
        Rule::WhileStatement,
        vec![
            single(variable("x")),
            block(vec![assignment("x", operation(variable("x"), "-", integer("1")))]),
        ],
    )])
    .expect("Program should parse");
    let program = strip_spans_program(&program);

    assert_eq!(program.statements.len(), 1);

    let Statement::While { condition, body } = &program.statements[0].value else {
        panic!("Expected a while statement.");
    };

    assert_eq!(condition.value, Expression::Variable("x".to_string()));
    assert_eq!(body.len(), 1);
}

#[test]
fn parses_function_definition_and_return() {
    // def add(a, b) { return a + b; }
    let program = parse_program(vec![node(
        Rule::FunctionDefinition,
        vec![
            identifier("add"),
            node(Rule::ParameterList, vec![identifier("a"), identifier("b")]),
            block(vec![node(
                Rule::ReturnStatement,
                vec![operation(variable("a"), "+", variable("b"))],
            )]),
        ],
    )])
    .expect("Program should parse");
    let program = strip_spans_program(&program);

    assert_eq!(program.statements.len(), 1);

    let Statement::FunctionDefinition {
        name,
        parameters,
        body,
    } = &program.statements[0].value
    else {
        panic!("Expected a function definition.");
    };

    assert_eq!(name, "add");
    assert_eq!(parameters, &vec!["a".to_string(), "b".to_string()]);
    assert_eq!(body.len(), 1);

    let Statement::Return { value } = &body[0].value else {
        panic!("Expected return inside function body.");
    };

    let value = value.as_ref().expect("Return should have an expression");
    assert!(matches!(value.value, Expression::Binary { .. }));
}
