use wolf::amarok::span::{Span, Spanned};
use wolf::amarok::syntax::{BinaryOperator, Expression, Statement};
use wolf::amarok::tree::{build_expression, build_program, build_statement, Pair, Rule};
use wolf::text::parse_integer;

fn node(rule: Rule, start: usize, end: usize, inner: Vec<Pair>) -> Pair {
    Pair { rule, text: String::new(), span: Span::new(start, end), inner }
}

fn leaf(rule: Rule, start: usize, text: &str) -> Pair {
    Pair { rule, text: text.to_string(), span: Span::new(start, start + text.len()), inner: vec![] }
}

fn primary(inner: Pair) -> Pair {
    node(Rule::Primary, inner.span.start, inner.span.end, vec![inner])
}

fn product(inner: Vec<Pair>) -> Pair {
    let start = inner[0].span.start;
    let end = inner[inner.len() - 1].span.end;
    node(Rule::Multiplication, start, end, inner)
}

fn sum(inner: Vec<Pair>) -> Pair {
    let start = inner[0].span.start;
    let end = inner[inner.len() - 1].span.end;
    node(Rule::Addition, start, end, inner)
}

fn expression(inner: Pair) -> Pair {
    node(Rule::Expression, inner.span.start, inner.span.end, vec![inner])
}

fn variable(start: usize, name: &str) -> Pair {
    node(Rule::Variable, start, start + name.len(), vec![leaf(Rule::Identifier, start, name)])
}

fn placed(start: usize, end: usize, value: Expression) -> Spanned<Expression> {
    Spanned::new(Span::new(start, end), value)
}

fn message_of(pair: Pair) -> String {
    build_expression(&pair).unwrap_err()
}

#[test]
fn multiplication_stays_below_addition() {
    // a + 2 * 3
    let tree = expression(sum(vec![
        product(vec![primary(variable(0, "a"))]),
        leaf(Rule::AddOperator, 2, "+"),
        product(vec![
            primary(leaf(Rule::Integer, 4, "2")),
            leaf(Rule::MultiplyOperator, 6, "*"),
            primary(leaf(Rule::Integer, 8, "3")),
        ]),
    ]));

    assert_eq!(
        build_expression(&tree),
        Ok(placed(
            0,
            9,
            Expression::Binary {
                left: Box::new(placed(0, 1, Expression::Variable("a".to_string()))),
                operator: BinaryOperator::Add,
                right: Box::new(placed(
                    4,
                    9,
                    Expression::Binary {
                        left: Box::new(placed(4, 5, Expression::Integer(2))),
                        operator: BinaryOperator::Multiply,
                        right: Box::new(placed(8, 9, Expression::Integer(3))),
                    }
                )),
            }
        ))
    );
}

#[test]
fn chains_group_to_the_left_under_one_span() {
    // 8 - 3 - 2
    let tree = sum(vec![
        product(vec![primary(leaf(Rule::Integer, 0, "8"))]),
        leaf(Rule::AddOperator, 2, "-"),
        product(vec![primary(leaf(Rule::Integer, 4, "3"))]),
        leaf(Rule::AddOperator, 6, "-"),
        product(vec![primary(leaf(Rule::Integer, 8, "2"))]),
    ]);

    assert_eq!(
        build_expression(&tree),
        Ok(placed(
            0,
            9,
            Expression::Binary {
                left: Box::new(placed(
                    0,
                    9,
                    Expression::Binary {
                        left: Box::new(placed(0, 1, Expression::Integer(8))),
                        operator: BinaryOperator::Subtract,
                        right: Box::new(placed(4, 5, Expression::Integer(3))),
                    }
                )),
                operator: BinaryOperator::Subtract,
                right: Box::new(placed(8, 9, Expression::Integer(2))),
            }
        ))
    );
}

#[test]
fn builds_every_kind_of_primary() {
    assert_eq!(
        build_expression(&leaf(Rule::Integer, 3, "-123")),
        Ok(placed(3, 7, Expression::Integer(-123)))
    );
    assert_eq!(
        build_expression(&leaf(Rule::String, 0, "\"a\\\"b\"")),
        Ok(placed(0, 6, Expression::String("a\"b".to_string())))
    );
    assert_eq!(
        build_expression(&leaf(Rule::Identifier, 1, "alpha")),
        Ok(placed(1, 6, Expression::Variable("alpha".to_string())))
    );
    assert_eq!(
        build_expression(&variable(2, "x")),
        Ok(placed(2, 3, Expression::Variable("x".to_string())))
    );
    let inside = expression(sum(vec![product(vec![primary(leaf(Rule::Integer, 1, "7"))])]));
    assert_eq!(
        build_expression(&node(Rule::Parenthesized, 0, 3, vec![inside])),
        Ok(placed(1, 2, Expression::Integer(7)))
    );
    let call = node(
        Rule::FunctionCall,
        0,
        11,
        vec![
            leaf(Rule::Identifier, 0, "print"),
            node(
                Rule::ArgumentList,
                6,
                10,
                vec![
                    expression(leaf(Rule::Integer, 6, "1")),
                    expression(variable(9, "x")),
                ],
            ),
        ],
    );
    assert_eq!(
        build_expression(&call),
        Ok(placed(
            0,
            11,
            Expression::FunctionCall {
                name: "print".to_string(),
                arguments: vec![
                    placed(6, 7, Expression::Integer(1)),
                    placed(9, 10, Expression::Variable("x".to_string())),
                ],
            }
        ))
    );
    let bare = node(Rule::FunctionCall, 0, 6, vec![leaf(Rule::Identifier, 0, "tick")]);
    assert_eq!(
        build_expression(&bare),
        Ok(placed(0, 6, Expression::FunctionCall { name: "tick".to_string(), arguments: vec![] }))
    );
}

#[test]
fn expression_errors_say_what_is_wrong() {
    assert_eq!(message_of(node(Rule::Expression, 0, 0, vec![])), "expression had no inner content.");
    assert_eq!(
        message_of(node(
            Rule::Primary,
            0,
            0,
            vec![leaf(Rule::Integer, 0, "1"), leaf(Rule::Integer, 1, "2")]
        )),
        "primary had more than one inner element."
    );
    assert_eq!(message_of(node(Rule::Variable, 0, 0, vec![])), "variable had no inner content.");
    assert_eq!(
        message_of(node(Rule::Variable, 0, 0, vec![leaf(Rule::Integer, 0, "1")])),
        "Expected identifier inside variable, got integer"
    );
    assert_eq!(message_of(node(Rule::Addition, 0, 0, vec![])), "Expected left operand, found nothing.");
    assert_eq!(
        message_of(node(
            Rule::Addition,
            0,
            0,
            vec![leaf(Rule::Integer, 0, "1"), leaf(Rule::MultiplyOperator, 1, "*")]
        )),
        "Expected operator rule add_operator, got multiply_operator"
    );
    assert_eq!(
        message_of(node(
            Rule::Multiplication,
            0,
            0,
            vec![leaf(Rule::Integer, 0, "1"), leaf(Rule::MultiplyOperator, 1, "%")]
        )),
        "Unknown multiply operator: %"
    );
    assert_eq!(
        message_of(node(
            Rule::Addition,
            0,
            0,
            vec![leaf(Rule::Integer, 0, "1"), leaf(Rule::AddOperator, 1, "+")]
        )),
        "Expected right operand after operator."
    );
    assert_eq!(
        message_of(node(Rule::Parenthesized, 0, 0, vec![])),
        "Parenthesized expression missing inner expression."
    );
    assert_eq!(message_of(node(Rule::FunctionCall, 0, 0, vec![])), "Function call missing name.");
    assert_eq!(
        message_of(node(Rule::FunctionCall, 0, 0, vec![leaf(Rule::Integer, 0, "1")])),
        "Function call expected identifier, got integer"
    );
    assert_eq!(
        message_of(leaf(Rule::Integer, 0, "99999999999999999999")),
        "Invalid integer literal: 99999999999999999999"
    );
    assert_eq!(message_of(leaf(Rule::String, 0, "\"a\\")), "Invalid string literal: \"a\\");
    assert_eq!(
        message_of(leaf(Rule::EndOfInput, 0, "")),
        "Unhandled rule in build_expression: EOI"
    );
    assert_eq!(
        message_of(leaf(Rule::BlockStatement, 0, "")),
        "Unhandled rule in build_expression: block_statement"
    );
}

#[test]
fn builds_every_kind_of_statement() {
    let one = || expression(leaf(Rule::Integer, 0, "1"));
    let block = |statements: Vec<Pair>| node(Rule::BlockStatement, 0, 0, statements);
    let evaluate = || node(Rule::ExpressionStatement, 0, 0, vec![one()]);
    let number = || placed(0, 1, Expression::Integer(1));
    let evaluated =
        || Spanned::new(Span::new(0, 0), Statement::Expression { expression: number() });
    let built = |pair: Pair| build_statement(&pair).map(|statement| statement.value);

    assert_eq!(
        built(node(Rule::AssignmentStatement, 0, 0, vec![leaf(Rule::Identifier, 0, "x"), one()])),
        Ok(Statement::Assignment { name: "x".to_string(), value: number() })
    );
    assert_eq!(built(evaluate()), Ok(Statement::Expression { expression: number() }));
    assert_eq!(
        built(block(vec![evaluate(), evaluate()])),
        Ok(Statement::Block { statements: vec![evaluated(), evaluated()] })
    );
    assert_eq!(
        built(node(
            Rule::IfStatement,
            0,
            0,
            vec![
                one(),
                block(vec![evaluate()]),
                node(Rule::ElseClause, 0, 0, vec![block(vec![])]),
            ]
        )),
        Ok(Statement::If {
            condition: number(),
            then_branch: vec![evaluated()],
            else_branch: vec![],
        })
    );
    assert_eq!(
        built(node(Rule::WhileStatement, 0, 0, vec![one(), block(vec![evaluate()])])),
        Ok(Statement::While { condition: number(), body: vec![evaluated()] })
    );
    assert_eq!(
        built(node(
            Rule::FunctionDefinition,
            0,
            0,
            vec![
                leaf(Rule::Identifier, 0, "add"),
                node(
                    Rule::ParameterList,
                    0,
                    0,
                    vec![leaf(Rule::Identifier, 0, "a"), leaf(Rule::Identifier, 0, "b")]
                ),
                block(vec![evaluate()]),
            ]
        )),
        Ok(Statement::FunctionDefinition {
            name: "add".to_string(),
            parameters: vec!["a".to_string(), "b".to_string()],
            body: vec![evaluated()],
        })
    );
    assert_eq!(
        built(node(Rule::ReturnStatement, 0, 0, vec![one()])),
        Ok(Statement::Return { value: Some(number()) })
    );
    assert_eq!(
        built(node(Rule::ReturnStatement, 0, 0, vec![])),
        Ok(Statement::Return { value: None })
    );
    assert_eq!(
        build_statement(&node(Rule::ReturnStatement, 5, 12, vec![])).map(|statement| statement.span),
        Ok(Span::new(5, 12))
    );
}

#[test]
fn statement_errors_say_what_is_wrong() {
    let message = |pair: Pair| build_statement(&pair).unwrap_err();
    let one = || expression(leaf(Rule::Integer, 0, "1"));

    assert_eq!(message(node(Rule::AssignmentStatement, 0, 0, vec![])), "Assignment missing identifier.");
    assert_eq!(
        message(node(Rule::AssignmentStatement, 0, 0, vec![one()])),
        "Assignment expected identifier, got expression"
    );
    assert_eq!(
        message(node(Rule::AssignmentStatement, 0, 0, vec![leaf(Rule::Identifier, 0, "x")])),
        "Assignment missing expression."
    );
    assert_eq!(
        message(node(Rule::ExpressionStatement, 0, 0, vec![])),
        "Expression statement missing expression."
    );
    assert_eq!(
        message(node(Rule::IfStatement, 0, 0, vec![])),
        "If statement missing condition expression."
    );
    assert_eq!(message(node(Rule::IfStatement, 0, 0, vec![one()])), "If statement missing then block.");
    assert_eq!(
        message(node(
            Rule::IfStatement,
            0,
            0,
            vec![one(), node(Rule::BlockStatement, 0, 0, vec![]), node(Rule::ElseClause, 0, 0, vec![])]
        )),
        "Else clause missing block."
    );
    assert_eq!(
        message(node(Rule::WhileStatement, 0, 0, vec![])),
        "While statement missing condition expression."
    );
    assert_eq!(
        message(node(Rule::WhileStatement, 0, 0, vec![one()])),
        "While statement missing body block."
    );
    assert_eq!(
        message(node(Rule::FunctionDefinition, 0, 0, vec![])),
        "Function definition missing name."
    );
    assert_eq!(message(one()), "Unhandled statement rule: expression");
    assert_eq!(
        build_program(&node(Rule::BlockStatement, 0, 0, vec![])).unwrap_err(),
        "Expected program rule, got block_statement"
    );
}

#[test]
fn programs_pass_over_what_is_no_statement() {
    let program = build_program(&node(
        Rule::Program,
        0,
        4,
        vec![
            node(Rule::ReturnStatement, 0, 3, vec![]),
            leaf(Rule::Identifier, 3, "x"),
            leaf(Rule::EndOfInput, 4, ""),
        ],
    ))
    .unwrap();
    assert_eq!(
        program.statements,
        vec![Spanned::new(Span::new(0, 3), Statement::Return { value: None })]
    );
}

#[test]
fn integers_are_read_with_their_sign() {
    assert_eq!(parse_integer("0"), Some(0));
    assert_eq!(parse_integer("-0"), Some(0));
    assert_eq!(parse_integer("+17"), Some(17));
    assert_eq!(parse_integer("0042"), Some(42));
    assert_eq!(parse_integer("9223372036854775807"), Some(i64::MAX));
    assert_eq!(parse_integer("-9223372036854775808"), Some(i64::MIN));
    assert_eq!(parse_integer("9223372036854775808"), None);
    assert_eq!(parse_integer("-9223372036854775809"), None);
    assert_eq!(parse_integer(""), None);
    assert_eq!(parse_integer("-"), None);
    assert_eq!(parse_integer("+"), None);
    assert_eq!(parse_integer("1-"), None);
    assert_eq!(parse_integer("--1"), None);
    assert_eq!(parse_integer("12a"), None);
    assert_eq!(parse_integer(" 1"), None);
    assert_eq!(parse_integer("١"), None);
}
