use crate::amarok::span::Span;
use crate::amarok::syntax::{ExpressionModel, PlacedExpression, PlacedStatement, StatementModel};
use crate::amarok::value::{binary_result, printed, truthy, ValueModel};
use crate::text::decimal_text;
use vstd::prelude::*;

verus! {

/// The variables of one scope, by name.
pub type Scope = Map<Seq<char>, ValueModel>;

/// A function that a program has defined.
pub ghost struct FunctionModel {
    pub parameters: Seq<Seq<char>>,
    pub body: Seq<PlacedStatement>,
}

/// What a running program has: its scopes, the innermost last; the
/// functions defined so far; and the lines printed so far.
pub ghost struct State {
    pub scopes: Seq<Scope>,
    pub functions: Map<Seq<char>, FunctionModel>,
    pub output: Seq<Seq<char>>,
}

/// Why a program stopped, and where.
pub ghost struct Failure {
    pub message: Seq<char>,
    pub span: Option<Span>,
}

/// How a statement ends: the next one runs, or the function returns.
pub ghost enum Flow {
    Continue,
    Return(ValueModel),
}

/// What running a piece of a program yields: the state it leaves, its
/// result or the failure that stopped it, and the number of steps it took.
pub ghost struct Ran<T> {
    pub state: State,
    pub result: Result<T, Failure>,
    pub cost: nat,
}

/// What is left of a budget of steps after some were spent.
pub open spec fn left(budget: nat, spent: nat) -> nat {
    if spent >= budget {
        0
    } else {
        (budget - spent) as nat
    }
}

/// The failure of a program that has used up its steps.
pub open spec fn exhausted() -> Failure {
    Failure { message: "Step limit exceeded."@, span: None }
}

/// The failure of a read of a variable that no scope holds.
pub open spec fn undefined_variable(name: Seq<char>, span: Span) -> Failure {
    Failure { message: "Undefined variable: "@ + name, span: Some(span) }
}

/// The failure of a call of a function that is not defined.
pub open spec fn undefined_function(name: Seq<char>, span: Span) -> Failure {
    Failure { message: "Undefined function: "@ + name, span: Some(span) }
}

/// The failure of a call with the wrong number of arguments.
pub open spec fn wrong_arity(name: Seq<char>, expected: nat, given: nat, span: Span) -> Failure {
    Failure {
        message: "Function "@ + name + " expected "@ + decimal_text(expected) + " arguments, got "@
            + decimal_text(given),
        span: Some(span),
    }
}

/// The failure of a return that no function encloses.
pub open spec fn stray_return() -> Failure {
    Failure { message: "Return outside of function."@, span: None }
}

/// The value of a variable: that in the innermost scope that holds it.
pub open spec fn read(scopes: Seq<Scope>, name: Seq<char>) -> Option<ValueModel>
    decreases scopes.len(),
{
    if scopes.len() == 0 {
        None
    } else if scopes.last().contains_key(name) {
        Some(scopes.last()[name])
    } else {
        read(scopes.drop_last(), name)
    }
}

/// The scopes after an assignment: the innermost scope holds the variable
/// with its new value. Without any scope nothing is assigned.
pub open spec fn assign(scopes: Seq<Scope>, name: Seq<char>, value: ValueModel) -> Seq<Scope> {
    if scopes.len() == 0 {
        scopes
    } else {
        scopes.update(scopes.len() - 1, scopes.last().insert(name, value))
    }
}

/// The scopes with a new, empty, innermost scope.
pub open spec fn enter(scopes: Seq<Scope>) -> Seq<Scope> {
    scopes.push(Map::empty())
}

/// The scopes without the innermost one; one empty scope where that was
/// the only one.
pub open spec fn exit(scopes: Seq<Scope>) -> Seq<Scope> {
    if scopes.len() <= 1 {
        seq![Map::empty()]
    } else {
        scopes.drop_last()
    }
}

/// The scopes after each of the first `count` parameters got its argument,
/// in order.
pub open spec fn bind(
    scopes: Seq<Scope>,
    parameters: Seq<Seq<char>>,
    arguments: Seq<ValueModel>,
    count: int,
) -> Seq<Scope>
    decreases count,
{
    if count <= 0 {
        scopes
    } else {
        assign(
            bind(scopes, parameters, arguments, count - 1),
            parameters[count - 1],
            arguments[count - 1],
        )
    }
}

/// The values as the built-in `print` shows them: each as it prints, with
/// one space between two.
pub open spec fn joined(values: Seq<ValueModel>) -> Seq<char>
    decreases values.len(),
{
    if values.len() == 0 {
        Seq::empty()
    } else if values.len() == 1 {
        printed(values[0])
    } else {
        joined(values.drop_last()) + " "@ + printed(values.last())
    }
}

/// `state` with other scopes.
pub open spec fn with_scopes(state: State, scopes: Seq<Scope>) -> State {
    State { scopes, functions: state.functions, output: state.output }
}

/// What evaluating an expression yields, with `budget` steps to spend.
/// The operands of an operation are evaluated from left to right, and so
/// are the arguments of a call.
pub open spec fn evaluate(state: State, expression: PlacedExpression, budget: nat) -> Ran<ValueModel>
    decreases budget,
{
    if budget == 0 {
        Ran { state, result: Err(exhausted()), cost: 0 }
    } else {
        match expression.value {
            ExpressionModel::Integer(value) => Ran {
                state,
                result: Ok(ValueModel::Integer(value)),
                cost: 1,
            },
            ExpressionModel::Text(text) => Ran { state, result: Ok(ValueModel::Text(text)), cost: 1 },
            ExpressionModel::Variable(name) => Ran {
                state,
                result: match read(state.scopes, name) {
                    Some(value) => Ok(value),
                    None => Err(undefined_variable(name, expression.span)),
                },
                cost: 1,
            },
            ExpressionModel::Binary { left: first, operator, right: second } => {
                let one = evaluate(state, *first, (budget - 1) as nat);
                match one.result {
                    Err(failure) => Ran {
                        state: one.state,
                        result: Err(failure),
                        cost: 1 + one.cost,
                    },
                    Ok(left_value) => {
                        let two = evaluate(one.state, *second, left((budget - 1) as nat, one.cost));
                        Ran {
                            state: two.state,
                            result: match two.result {
                                Err(failure) => Err(failure),
                                Ok(right_value) => match binary_result(
                                    operator,
                                    left_value,
                                    right_value,
                                ) {
                                    Ok(value) => Ok(value),
                                    Err(message) => Err(
                                        Failure { message, span: Some(expression.span) },
                                    ),
                                },
                            },
                            cost: 1 + one.cost + two.cost,
                        }
                    },
                }
            },
            ExpressionModel::Call { name, arguments } => {
                let given = evaluate_all(state, arguments, 0, (budget - 1) as nat);
                match given.result {
                    Err(failure) => Ran {
                        state: given.state,
                        result: Err(failure),
                        cost: 1 + given.cost,
                    },
                    Ok(values) => {
                        let called = call(
                            given.state,
                            name,
                            values,
                            expression.span,
                            left((budget - 1) as nat, given.cost),
                        );
                        Ran {
                            state: called.state,
                            result: called.result,
                            cost: 1 + given.cost + called.cost,
                        }
                    },
                }
            },
        }
    }
}

/// What evaluating the expressions from `from` on yields: their values in
/// order, or the first failure.
pub open spec fn evaluate_all(
    state: State,
    expressions: Seq<PlacedExpression>,
    from: int,
    budget: nat,
) -> Ran<Seq<ValueModel>>
    decreases budget,
{
    if !(0 <= from < expressions.len()) {
        Ran { state, result: Ok(Seq::empty()), cost: 0 }
    } else if budget == 0 {
        Ran { state, result: Err(exhausted()), cost: 0 }
    } else {
        let first = evaluate(state, expressions[from], (budget - 1) as nat);
        match first.result {
            Err(failure) => Ran { state: first.state, result: Err(failure), cost: 1 + first.cost },
            Ok(value) => {
                let rest = evaluate_all(
                    first.state,
                    expressions,
                    from + 1,
                    left((budget - 1) as nat, first.cost),
                );
                Ran {
                    state: rest.state,
                    result: match rest.result {
                        Err(failure) => Err(failure),
                        Ok(values) => Ok(seq![value] + values),
                    },
                    cost: 1 + first.cost + rest.cost,
                }
            },
        }
    }
}

/// What a call yields. The built-in `print` adds one line to the output
/// and gives nothing; it comes before any function of the same name. A
/// function of the program runs its body in a scope of its own, which
/// holds its parameters, and gives what the body returns, or nothing.
pub open spec fn call(state: State, name: Seq<char>, arguments: Seq<ValueModel>, span: Span, budget: nat) -> Ran<
    ValueModel,
>
    decreases budget,
{
    if budget == 0 {
        Ran { state, result: Err(exhausted()), cost: 0 }
    } else if name == "print"@ {
        Ran {
            state: State {
                scopes: state.scopes,
                functions: state.functions,
                output: state.output.push(joined(arguments)),
            },
            result: Ok(ValueModel::Null),
            cost: 1,
        }
    } else if !state.functions.contains_key(name) {
        Ran { state, result: Err(undefined_function(name, span)), cost: 1 }
    } else {
        let function = state.functions[name];
        if arguments.len() != function.parameters.len() {
            Ran {
                state,
                result: Err(wrong_arity(name, function.parameters.len(), arguments.len(), span)),
                cost: 1,
            }
        } else {
            let entered = with_scopes(
                state,
                bind(
                    enter(state.scopes),
                    function.parameters,
                    arguments,
                    function.parameters.len() as int,
                ),
            );
            let body = execute_all(entered, function.body, 0, (budget - 1) as nat);
            Ran {
                state: with_scopes(body.state, exit(body.state.scopes)),
                result: match body.result {
                    Err(failure) => Err(failure),
                    Ok(Flow::Continue) => Ok(ValueModel::Null),
                    Ok(Flow::Return(value)) => Ok(value),
                },
                cost: 1 + body.cost,
            }
        }
    }
}

/// What executing the statements from `from` on yields: the first failure
/// or return ends them.
pub open spec fn execute_all(state: State, statements: Seq<PlacedStatement>, from: int, budget: nat) -> Ran<
    Flow,
>
    decreases budget,
{
    if !(0 <= from < statements.len()) {
        Ran { state, result: Ok(Flow::Continue), cost: 0 }
    } else if budget == 0 {
        Ran { state, result: Err(exhausted()), cost: 0 }
    } else {
        let first = execute(state, statements[from], (budget - 1) as nat);
        match first.result {
            Ok(Flow::Continue) => {
                let rest = execute_all(
                    first.state,
                    statements,
                    from + 1,
                    left((budget - 1) as nat, first.cost),
                );
                Ran { state: rest.state, result: rest.result, cost: 1 + first.cost + rest.cost }
            },
            _ => Ran { state: first.state, result: first.result, cost: 1 + first.cost },
        }
    }
}

/// What the rounds of a loop yield: the condition is evaluated before each
/// round; a round runs the body; a return in the body ends the loop.
pub open spec fn repeat(
    state: State,
    condition: PlacedExpression,
    body: Seq<PlacedStatement>,
    budget: nat,
) -> Ran<Flow>
    decreases budget,
{
    if budget == 0 {
        Ran { state, result: Err(exhausted()), cost: 0 }
    } else {
        let tested = evaluate(state, condition, (budget - 1) as nat);
        match tested.result {
            Err(failure) => Ran { state: tested.state, result: Err(failure), cost: 1 + tested.cost },
            Ok(value) => if !truthy(value) {
                Ran { state: tested.state, result: Ok(Flow::Continue), cost: 1 + tested.cost }
            } else {
                let round = execute_all(
                    tested.state,
                    body,
                    0,
                    left((budget - 1) as nat, tested.cost),
                );
                match round.result {
                    Ok(Flow::Continue) => {
                        let rest = repeat(
                            round.state,
                            condition,
                            body,
                            left((budget - 1) as nat, tested.cost + round.cost),
                        );
                        Ran {
                            state: rest.state,
                            result: rest.result,
                            cost: 1 + tested.cost + round.cost + rest.cost,
                        }
                    },
                    _ => Ran {
                        state: round.state,
                        result: round.result,
                        cost: 1 + tested.cost + round.cost,
                    },
                }
            },
        }
    }
}

/// What executing one statement yields.
pub open spec fn execute(state: State, statement: PlacedStatement, budget: nat) -> Ran<Flow>
    decreases budget,
{
    if budget == 0 {
        Ran { state, result: Err(exhausted()), cost: 0 }
    } else {
        let rest = (budget - 1) as nat;
        match statement.value {
            StatementModel::Assignment { name, value } => {
                let evaluated = evaluate(state, value, rest);
                match evaluated.result {
                    Err(failure) => Ran {
                        state: evaluated.state,
                        result: Err(failure),
                        cost: 1 + evaluated.cost,
                    },
                    Ok(found) => Ran {
                        state: with_scopes(
                            evaluated.state,
                            assign(evaluated.state.scopes, name, found),
                        ),
                        result: Ok(Flow::Continue),
                        cost: 1 + evaluated.cost,
                    },
                }
            },
            StatementModel::Evaluate { expression } => {
                let evaluated = evaluate(state, expression, rest);
                Ran {
                    state: evaluated.state,
                    result: match evaluated.result {
                        Err(failure) => Err(failure),
                        Ok(_) => Ok(Flow::Continue),
                    },
                    cost: 1 + evaluated.cost,
                }
            },
            StatementModel::Block { statements } => {
                let inner = execute_all(
                    with_scopes(state, enter(state.scopes)),
                    statements,
                    0,
                    rest,
                );
                Ran {
                    state: with_scopes(inner.state, exit(inner.state.scopes)),
                    result: inner.result,
                    cost: 1 + inner.cost,
                }
            },
            StatementModel::If { condition, then_branch, else_branch } => {
                let tested = evaluate(state, condition, rest);
                match tested.result {
                    Err(failure) => Ran {
                        state: tested.state,
                        result: Err(failure),
                        cost: 1 + tested.cost,
                    },
                    Ok(value) => {
                        let branch = execute_all(
                            tested.state,
                            if truthy(value) {
                                then_branch
                            } else {
                                else_branch
                            },
                            0,
                            left(rest, tested.cost),
                        );
                        Ran {
                            state: branch.state,
                            result: branch.result,
                            cost: 1 + tested.cost + branch.cost,
                        }
                    },
                }
            },
            StatementModel::While { condition, body } => {
                let looped = repeat(state, condition, body, rest);
                Ran { state: looped.state, result: looped.result, cost: 1 + looped.cost }
            },
            StatementModel::FunctionDefinition { name, parameters, body } => Ran {
                state: State {
                    scopes: state.scopes,
                    functions: state.functions.insert(name, FunctionModel { parameters, body }),
                    output: state.output,
                },
                result: Ok(Flow::Continue),
                cost: 1,
            },
            StatementModel::Return { result } => match result {
                None => Ran { state, result: Ok(Flow::Return(ValueModel::Null)), cost: 1 },
                Some(expression) => {
                    let evaluated = evaluate(state, expression, rest);
                    Ran {
                        state: evaluated.state,
                        result: match evaluated.result {
                            Err(failure) => Err(failure),
                            Ok(value) => Ok(Flow::Return(value)),
                        },
                        cost: 1 + evaluated.cost,
                    }
                },
            },
        }
    }
}

/// What running a program yields: its statements are executed in order; a
/// return outside of any function is a failure.
pub open spec fn run(state: State, statements: Seq<PlacedStatement>, budget: nat) -> Ran<()> {
    let ran = execute_all(state, statements, 0, budget);
    Ran {
        state: ran.state,
        result: match ran.result {
            Err(failure) => Err(failure),
            Ok(Flow::Continue) => Ok(()),
            Ok(Flow::Return(_)) => Err(stray_return()),
        },
        cost: ran.cost,
    }
}

} // verus!
