use wolf::amarok::span::{Span, Spanned};
use wolf::amarok::syntax::{BinaryOperator, Expression};
use wolf::amarok::tree::{build_expression, Pair, Rule};

fn node(rule: Rule, inner: Vec<Pair>) -> Pair {
    Pair { rule, text: String::new(), span: Span::new(0, 0), inner }
}

fn leaf(rule: Rule, text: &str) -> Pair {
    Pair { rule, text: text.to_string(), span: Span::new(0, 0), inner: vec![] }
}

fn primary(inner: Pair) -> Pair {
    node(Rule::Primary, vec![inner])
}

fn product(inner: Vec<Pair>) -> Pair {
    node(Rule::Multiplication, inner)
}

fn sum(inner: Vec<Pair>) -> Pair {
    node(Rule::Addition, inner)
}

/// The match of an expression that is one primary.
fn single(inner: Pair) -> Pair {
    node(Rule::Expression, vec![sum(vec![product(vec![primary(inner)])])])
}

fn variable(name: &str) -> Pair {
    node(Rule::Variable, vec![leaf(Rule::Identifier, name)])
}

/// The expression that the match of a source stands for.
fn parse_expression(matched: Pair) -> Result<Spanned<Expression>, String> {
    build_expression(&matched)
}

fn strip_spans_expression(expression: &Spanned<Expression>) -> Expression {
    match &expression.value {
        Expression::Integer(value) => Expression::Integer(*value),
        Expression::String(value) => Expression::String(value.clone()),
        Expression::Variable(name) => Expression::Variable(name.clone()),

        Expression::FunctionCall { name, arguments } => Expression::FunctionCall {
            name: name.clone(),
            arguments: arguments
                .iter()
                .map(strip_spans_expression)
                .map(Spanned::from) // zero-span spanned arg
                .collect(),
        },

        Expression::Binary {
            left,
            operator,
            right,
        } => Expression::Binary {
            left: Box::new(Spanned::from(strip_spans_expression(left))),
            operator: *operator,
            right: Box::new(Spanned::from(strip_spans_expression(right))),
        },
    }
}

#[test]
fn parses_integer_expression() {
    // 123
    let expression =
        parse_expression(single(leaf(Rule::Integer, "123"))).expect("Expression should parse");
    assert_eq!(expression.value, Expression::Integer(123));
}

#[test]
fn parses_variable_expression() {
    // alpha
    let expression = parse_expression(single(variable("alpha"))).expect("Expression should parse");
    assert_eq!(expression.value, Expression::Variable("alpha".to_string()));
}

#[test]
fn parses_string_expression() {
    // "hello"
    let expression = parse_expression(single(leaf(Rule::String, r#""hello""#)))
        .expect("Expression should parse");
    assert_eq!(expression.value, Expression::String("hello".to_string()));
}

#[test]
fn parses_function_call_no_arguments() {
    // tick()
    let expression = parse_expression(single(node(
        Rule::FunctionCall,
        vec![leaf(Rule::Identifier, "tick")],
    )))
    .expect("Expression should parse");

    assert_eq!(
        strip_spans_expression(&expression),
        Expression::FunctionCall {
            name: "tick".to_string(),
            arguments: vec![],
        }
    );
}

#[test]
fn parses_function_call_with_arguments() {
    // print(1, x)
    let expression = parse_expression(single(node(
        Rule::FunctionCall,
        vec![
            leaf(Rule::Identifier, "print"),
            node(
                Rule::ArgumentList,
                vec![single(leaf(Rule::Integer, "1")), single(variable("x"))],
            ),
        ],
    )))
    .expect("Expression should parse");

    assert_eq!(
        strip_spans_expression(&expression),
        Expression::FunctionCall {
            name: "print".to_string(),
            arguments: vec![
                Expression::Integer(1).into(),
                Expression::Variable("x".to_string()).into(),
            ],
        }
    );
}

#[test]
fn multiplication_has_higher_precedence_than_addition() {
    // a + 2 * 3  =>  a + (2 * 3)
    let expression = parse_expression(node(
        Rule::Expression,
        vec![sum(vec![
            product(vec![primary(variable("a"))]),
            leaf(Rule::AddOperator, "+"),
            product(vec![
                primary(leaf(Rule::Integer, "2")),
                leaf(Rule::MultiplyOperator, "*"),
                primary(leaf(Rule::Integer, "3")),
            ]),
        ])],
    ))
    .expect("Expression should parse");

    assert_eq!(
        strip_spans_expression(&expression),
        Expression::Binary {
            left: Box::new(Expression::Variable("a".to_string()).into()),
            operator: BinaryOperator::Add,
            right: Box::new(
                Expression::Binary {
                    left: Box::new(Expression::Integer(2).into()),
                    operator: BinaryOperator::Multiply,
                    right: Box::new(Expression::Integer(3).into()),
                }
                .into()
            ),
        }
    );
}

#[test]
fn parentheses_override_precedence() {
    // (1 + 2) * 3  =>  (1 + 2) * 3
    let inside = node(
        Rule::Expression,
        vec![sum(vec![
            product(vec![primary(leaf(Rule::Integer, "1"))]),
            leaf(Rule::AddOperator, "+"),
            product(vec![primary(leaf(Rule::Integer, "2"))]),
        ])],
    );
    let expression = parse_expression(node(
        Rule::Expression,
        vec![sum(vec![product(vec![
            primary(node(Rule::Parenthesized, vec![inside])),
            leaf(Rule::MultiplyOperator, "*"),
            primary(leaf(Rule::Integer, "3")),
        ])])],
    ))
    .expect("Expression should parse");

    assert_eq!(
        strip_spans_expression(&expression),
        Expression::Binary {
            left: Box::new(
                Expression::Binary {
                    left: Box::new(Expression::Integer(1).into()),
                    operator: BinaryOperator::Add,
                    right: Box::new(Expression::Integer(2).into()),
                }
                .into()
            ),
            operator: BinaryOperator::Multiply,
            right: Box::new(Expression::Integer(3).into()),
        }
    );
}
