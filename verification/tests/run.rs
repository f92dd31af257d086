use wolf::amarok::errors::RuntimeError;
use wolf::amarok::interpreter::Interpreter;
use wolf::amarok::span::Span;
use wolf::amarok::syntax::Program;
use wolf::amarok::tree::{build_program, Pair, Rule};

fn node(rule: Rule, inner: Vec<Pair>) -> Pair {
    Pair { rule, text: String::new(), span: Span::new(0, 0), inner }
}

fn leaf(rule: Rule, text: &str) -> Pair {
    Pair { rule, text: text.to_string(), span: Span::new(0, 0), inner: vec![] }
}

fn identifier(name: &str) -> Pair {
    leaf(Rule::Identifier, name)
}

/// An expression that is one primary.
fn primary(inner: Pair) -> Pair {
    node(Rule::Expression, vec![sum(vec![product(vec![node(Rule::Primary, vec![inner])])])])
}

fn sum(inner: Vec<Pair>) -> Pair {
    node(Rule::Addition, inner)
}

fn product(inner: Vec<Pair>) -> Pair {
    node(Rule::Multiplication, inner)
}

fn term(inner: Pair) -> Pair {
    product(vec![node(Rule::Primary, vec![inner])])
}

fn integer(text: &str) -> Pair {
    leaf(Rule::Integer, text)
}

fn variable(name: &str) -> Pair {
    node(Rule::Variable, vec![identifier(name)])
}

fn call(name: &str, arguments: Vec<Pair>) -> Pair {
    let mut inner = vec![identifier(name)];
    if !arguments.is_empty() {
        inner.push(node(Rule::ArgumentList, arguments));
    }
    node(Rule::FunctionCall, inner)
}

/// `left operator right`, each side one primary.
fn operation(left: Pair, operator: &str, right: Pair) -> Pair {
    node(
        Rule::Expression,
        vec![sum(vec![term(left), leaf(Rule::AddOperator, operator), term(right)])],
    )
}

fn assignment(name: &str, value: Pair) -> Pair {
    node(Rule::AssignmentStatement, vec![identifier(name), value])
}

fn evaluate(expression: Pair) -> Pair {
    node(Rule::ExpressionStatement, vec![expression])
}

fn print(argument: Pair) -> Pair {
    evaluate(primary(call("print", vec![primary(argument)])))
}

fn block(statements: Vec<Pair>) -> Pair {
    node(Rule::BlockStatement, statements)
}

fn program(statements: Vec<Pair>) -> Program {
    let mut inner = statements;
    inner.push(leaf(Rule::EndOfInput, ""));
    build_program(&node(Rule::Program, inner)).expect("Program should parse")
}

fn lines(words: &[&str]) -> Vec<String> {
    words.iter().map(|word| word.to_string()).collect()
}

#[test]
fn runs_assignment_and_print() {
    // x = 1 + 2; print(x);
    let program = program(vec![
        assignment("x", operation(integer("1"), "+", integer("2"))),
        print(variable("x")),
    ]);

    let mut interpreter = Interpreter::new();
    interpreter
        .run_program(&program)
        .expect("Program should run");

    assert_eq!(interpreter.output_lines(), &["3".to_string()]);
}

#[test]
fn runs_function_definition_and_call() {
    // def add(a, b) { return a + b; }
    // x = add(2, 3);
    // print(x);
    let program = program(vec![
        node(
            Rule::FunctionDefinition,
            vec![
                identifier("add"),
                node(Rule::ParameterList, vec![identifier("a"), identifier("b")]),
                block(vec![node(
                    Rule::ReturnStatement,
                    vec![operation(variable("a"), "+", variable("b"))],
                )]),
            ],
        ),
        assignment("x", primary(call("add", vec![primary(integer("2")), primary(integer("3"))]))),
        print(variable("x")),
    ]);

    let mut interpreter = Interpreter::new();
    interpreter
        .run_program(&program)
        .expect("Program should run");

    assert_eq!(interpreter.output_lines(), &["5".to_string()]);
}

#[test]
fn while_loop_counts_down() {
    // x = 3;
    // while (x) {
    //     print(x);
    //     x = x - 1;
    // }
    let program = program(vec![
        assignment("x", primary(integer("3"))),
        node(
            Rule::WhileStatement,
            vec![
                primary(variable("x")),
                block(vec![
                    print(variable("x")),
                    assignment("x", operation(variable("x"), "-", integer("1"))),
                ]),
            ],
        ),
    ]);

    let mut interpreter = Interpreter::new();
    interpreter
        .run_program(&program)
        .expect("Program should run");

    assert_eq!(
        interpreter.output_lines(),
        &["3".to_string(), "2".to_string(), "1".to_string()]
    );
}

#[test]
fn endless_loop_runs_out_of_steps() {
    // while (1) { print(1); }
    let program = program(vec![node(
        Rule::WhileStatement,
        vec![primary(integer("1")), block(vec![print(integer("1"))])],
    )]);

    let mut interpreter = Interpreter::with_budget(100);
    assert_eq!(
        interpreter.run_program(&program),
        Err(RuntimeError::new("Step limit exceeded.".to_string()))
    );
    assert!(interpreter.output_lines().len() > 5);
    assert!(interpreter.output_lines().iter().all(|line| line == "1"));
}

#[test]
fn steps_are_counted_one_for_one() {
    // x = 1;   takes one step for the statement in the list, one for the
    //          statement itself, one for the expression
    let program = program(vec![assignment("x", primary(integer("1")))]);
    assert_eq!(Interpreter::with_budget(3).run_program(&program), Ok(()));
    assert_eq!(
        Interpreter::with_budget(2).run_program(&program),
        Err(RuntimeError::new("Step limit exceeded.".to_string()))
    );
    assert_eq!(Interpreter::with_budget(0).run_program(&Program { statements: vec![] }), Ok(()));
}

#[test]
fn block_scopes_end_with_the_block() {
    // x = 1; { x = 2; y = 3; print(x); } print(x); print(y);
    let program = program(vec![
        assignment("x", primary(integer("1"))),
        block(vec![
            assignment("x", primary(integer("2"))),
            assignment("y", primary(integer("3"))),
            print(variable("x")),
        ]),
        print(variable("x")),
        print(variable("y")),
    ]);

    let mut interpreter = Interpreter::new();
    let error = interpreter.run_program(&program).unwrap_err();
    assert_eq!(error.message, "Undefined variable: y");
    assert_eq!(error.span, Some(Span::new(0, 0)));
    assert_eq!(interpreter.output_lines(), &lines(&["2", "1"]));
}

#[test]
fn calls_check_their_function_and_arguments() {
    let mut interpreter = Interpreter::new();
    let missing = program(vec![evaluate(primary(call("nothing", vec![])))]);
    assert_eq!(interpreter.run_program(&missing).unwrap_err().message, "Undefined function: nothing");

    // def one(a) { } one(1, 2);
    let wrong = program(vec![
        node(
            Rule::FunctionDefinition,
            vec![identifier("one"), node(Rule::ParameterList, vec![identifier("a")]), block(vec![])],
        ),
        evaluate(primary(call("one", vec![primary(integer("1")), primary(integer("2"))]))),
    ]);
    assert_eq!(
        interpreter.run_program(&wrong).unwrap_err().message,
        "Function one expected 1 arguments, got 2"
    );

    // the function stays defined; without a return it gives null
    let right = program(vec![print(call("one", vec![primary(integer("1"))]))]);
    assert_eq!(interpreter.run_program(&right), Ok(()));
    assert_eq!(interpreter.output_lines(), &lines(&["null"]));
}

#[test]
fn print_joins_its_arguments_with_spaces() {
    // print(1, "a b", 2 + 3); print();
    let program = program(vec![
        evaluate(primary(call(
            "print",
            vec![
                primary(integer("1")),
                primary(leaf(Rule::String, "\"a b\"")),
                operation(integer("2"), "+", integer("3")),
            ],
        ))),
        evaluate(primary(call("print", vec![]))),
    ]);

    let mut interpreter = Interpreter::new();
    assert_eq!(interpreter.run_program(&program), Ok(()));
    assert_eq!(interpreter.output_lines(), &lines(&["1 a b 5", ""]));
}

#[test]
fn return_outside_of_a_function_is_an_error() {
    let program = program(vec![node(Rule::ReturnStatement, vec![primary(integer("1"))])]);
    assert_eq!(
        Interpreter::new().run_program(&program),
        Err(RuntimeError::new("Return outside of function.".to_string()))
    );
}

#[test]
fn if_takes_one_branch() {
    // if (0) { print(1); } else { print(2); }  if ("x") { print(3); }
    let program = program(vec![
        node(
            Rule::IfStatement,
            vec![
                primary(integer("0")),
                block(vec![print(integer("1"))]),
                node(Rule::ElseClause, vec![block(vec![print(integer("2"))])]),
            ],
        ),
        node(
            Rule::IfStatement,
            vec![primary(leaf(Rule::String, "\"x\"")), block(vec![print(integer("3"))])],
        ),
    ]);

    let mut interpreter = Interpreter::new();
    assert_eq!(interpreter.run_program(&program), Ok(()));
    assert_eq!(interpreter.output_lines(), &lines(&["2", "3"]));
}

#[test]
fn recursion_returns_through_every_call() {
    // def sum(n) { if (n) { return n + sum(n - 1); } return 0; }  print(sum(10));
    let program = program(vec![
        node(
            Rule::FunctionDefinition,
            vec![
                identifier("sum"),
                node(Rule::ParameterList, vec![identifier("n")]),
                block(vec![
                    node(
                        Rule::IfStatement,
                        vec![
                            primary(variable("n")),
                            block(vec![node(
                                Rule::ReturnStatement,
                                vec![operation(
                                    variable("n"),
                                    "+",
                                    call("sum", vec![operation(variable("n"), "-", integer("1"))]),
                                )],
                            )]),
                        ],
                    ),
                    node(Rule::ReturnStatement, vec![primary(integer("0"))]),
                ]),
            ],
        ),
        print(call("sum", vec![primary(integer("10"))])),
    ]);

    let mut interpreter = Interpreter::new();
    assert_eq!(interpreter.run_program(&program), Ok(()));
    assert_eq!(interpreter.output_lines(), &lines(&["55"]));
}
