use crate::codegen::ir::apply;
use crate::syntax::ast::{Expression, Statement};
use vstd::prelude::*;

verus! {

/// The values of the variables, by name.
pub type Environment = Map<Seq<char>, i64>;

/// The value of an expression. The left operand of an operation is
/// evaluated before the right one. `None` stands for a trap, and for the
/// read of a variable that has no value.
pub open spec fn evaluate(expression: Expression, environment: Environment) -> Option<i64>
    decreases expression,
{
    match expression {
        Expression::Number { value } => Some(value),
        Expression::Identifier { name } => if environment.contains_key(name) {
            Some(environment[name])
        } else {
            None
        },
        Expression::Binary { operator, left, right } => match evaluate(*left, environment) {
            None => None,
            Some(left_value) => match evaluate(*right, environment) {
                None => None,
                Some(right_value) => apply(operator, left_value, right_value),
            },
        },
    }
}

/// What a statement leaves behind: the variables, and the statement's own
/// value.
pub ghost struct Effect {
    pub environment: Environment,
    pub value: i64,
}

/// The effect of one statement, or `None` where it traps. A declaration
/// gives its variable the value of the initialiser, whether or not the
/// variable existed, and that value is also the value of the declaration.
pub open spec fn execute(statement: Statement, environment: Environment) -> Option<Effect> {
    match statement {
        Statement::Evaluate { expression } => match evaluate(expression, environment) {
            Some(value) => Some(Effect { environment, value }),
            None => None,
        },
        Statement::Declare { name, value } => match evaluate(value, environment) {
            Some(value) => Some(Effect { environment: environment.insert(name, value), value }),
            None => None,
        },
    }
}

/// The effect of a list of statements, executed in order from
/// `environment`; its value is that of the last statement, and zero where
/// there is none.
pub open spec fn execute_all(statements: Seq<Statement>, environment: Environment) -> Option<Effect>
    decreases statements.len(),
{
    if statements.len() == 0 {
        Some(Effect { environment, value: 0 })
    } else {
        match execute_all(statements.drop_last(), environment) {
            Some(before) => execute(statements.last(), before.environment),
            None => None,
        }
    }
}

/// What a program returns when it runs from no variables at all: the value
/// of its last statement, or `None` where it traps.
pub open spec fn program_outcome(statements: Seq<Statement>) -> Option<i64> {
    match execute_all(statements, Map::empty()) {
        Some(effect) => Some(effect.value),
        None => None,
    }
}

} // verus!
