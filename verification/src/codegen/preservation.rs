use crate::codegen::ir::{
    initial_machine, lemma_run_concat, lemma_run_push, lemma_run_shape, outcome, run, step,
    Instruction, Machine,
};
use crate::codegen::lower::{
    declare, lemma_expression_code_shape, lower_expression, lower_program, lower_statement,
    lower_statements, slot_of, Lowered,
};
use crate::codegen::meaning::{evaluate, execute, execute_all, program_outcome, Environment};
use crate::syntax::ast::{Expression, Statement};
use vstd::prelude::*;

verus! {

/// Whether the slots of a machine hold the variables of an environment:
/// the declared names are exactly the variables that have a value, and the
/// slot of each name contains that value.
pub open spec fn holds(machine: Machine, names: Seq<Seq<char>>, environment: Environment) -> bool {
    &&& names.no_duplicates()
    &&& names.len() <= machine.slots.len()
    &&& forall|name: Seq<char>| environment.contains_key(name) <==> names.contains(name)
    &&& forall|slot: int|
        0 <= slot < names.len() ==> machine.slots[slot] == environment[#[trigger] names[slot]]
}

/// Whether running `code` from `machine` does what evaluating to `value`
/// asks: where there is a value, the run ends with that value last, with
/// the earlier values and the slots as they were; where there is none, the
/// run traps.
pub open spec fn computes(code: Seq<Instruction>, machine: Machine, value: Option<i64>) -> bool {
    match value {
        Some(value) => run(code, machine) matches Some(after) && after.slots == machine.slots
            && after.values.len() == machine.values.len() + code.len() && after.values.take(
            machine.values.len() as int,
        ) == machine.values && after.values.last() == value,
        None => run(code, machine) is None,
    }
}

/// The instructions of an expression compute its value.
pub proof fn lemma_expression_preserved(
    expression: Expression,
    names: Seq<Seq<char>>,
    environment: Environment,
    machine: Machine,
)
    requires
        holds(machine, names, environment),
        lower_expression(expression, names, machine.values.len()) is Ok,
        machine.values.len() + lower_expression(expression, names, machine.values.len())->Ok_0.len()
            - 1 <= usize::MAX,
        names.len() <= usize::MAX,
    ensures
        computes(
            lower_expression(expression, names, machine.values.len())->Ok_0,
            machine,
            evaluate(expression, environment),
        ),
    decreases expression,
{
    let base = machine.values.len();
    let code = lower_expression(expression, names, base)->Ok_0;
    match expression {
        Expression::Number { value } => {
            let instruction = Instruction::Constant { value };
            assert(code =~= Seq::<Instruction>::empty().push(instruction));
            lemma_run_push(Seq::empty(), instruction, machine);
            let after = step(machine, instruction)->Some_0;
            assert(after.values.take(base as int) =~= machine.values);
        },
        Expression::Identifier { name } => {
            let slot = names.index_of(name);
            assert(0 <= slot < names.len() && names[slot] == name);
            let instruction = Instruction::Load { slot: slot_of(names, name) };
            assert(code =~= Seq::<Instruction>::empty().push(instruction));
            lemma_run_push(Seq::empty(), instruction, machine);
            let after = step(machine, instruction)->Some_0;
            assert(after.values.take(base as int) =~= machine.values);
        },
        Expression::Binary { operator, left, right } => {
            let first = lower_expression(*left, names, base)->Ok_0;
            let second = lower_expression(*right, names, base + first.len())->Ok_0;
            let instruction = Instruction::Arithmetic {
                operator,
                left: (base + first.len() - 1) as usize,
                right: (base + first.len() + second.len() - 1) as usize,
            };
            assert(code == first + second + seq![instruction]);
            assert(code =~= first + (second + seq![instruction]));
            lemma_expression_code_shape(*left, names, base);
            lemma_expression_code_shape(*right, names, base + first.len());
            lemma_expression_preserved(*left, names, environment, machine);
            lemma_run_concat(first, second + seq![instruction], machine);
            if let Some(left_value) = evaluate(*left, environment) {
                let middle = run(first, machine)->Some_0;
                lemma_expression_preserved(*right, names, environment, middle);
                lemma_run_concat(second, seq![instruction], middle);
                if let Some(right_value) = evaluate(*right, environment) {
                    let ready = run(second, middle)->Some_0;
                    assert(seq![instruction] =~= Seq::<Instruction>::empty().push(instruction));
                    lemma_run_push(Seq::empty(), instruction, ready);
                    assert(ready.values[base + first.len() - 1] == left_value) by {
                        assert(ready.values.take(middle.values.len() as int)[base + first.len() - 1]
                            == ready.values[base + first.len() - 1]);
                    }
                    assert(ready.values[base + first.len() + second.len() - 1] == right_value);
                    if let Some(after) = step(ready, instruction) {
                        assert(after.values.take(base as int) =~= machine.values) by {
                            assert(ready.values.take(middle.values.len() as int).take(base as int)
                                =~= ready.values.take(base as int));
                            assert(after.values.take(base as int) =~= ready.values.take(
                                base as int,
                            ));
                            assert(middle.values.take(base as int) == machine.values);
                        }
                    }
                }
            }
        },
    }
}

/// Whether running `code` from `machine` does what executing a statement
/// to `effect` asks: where the statement completes, the run ends with the
/// slots holding the new variables and the statement's value at `value`;
/// where it traps, so does the run.
pub open spec fn performs(
    code: Seq<Instruction>,
    machine: Machine,
    names: Seq<Seq<char>>,
    value: nat,
    effect: Option<crate::codegen::meaning::Effect>,
) -> bool {
    match effect {
        Some(effect) => run(code, machine) matches Some(after) && holds(
            after,
            names,
            effect.environment,
        ) && after.values.len() == machine.values.len() + code.len() && value < after.values.len()
            && after.values[value as int] == effect.value,
        None => run(code, machine) is None,
    }
}

/// The instructions of a statement perform it.
pub proof fn lemma_statement_preserved(
    statement: Statement,
    before: Lowered,
    environment: Environment,
    machine: Machine,
)
    requires
        holds(machine, before.names, environment),
        machine.values.len() == before.instructions.len(),
        lower_statement(statement, before) is Ok,
        lower_statement(statement, before)->Ok_0.value <= usize::MAX,
        lower_statement(statement, before)->Ok_0.names.len() <= machine.slots.len(),
        machine.slots.len() <= usize::MAX,
    ensures
        before.instructions.len() <= lower_statement(statement, before)->Ok_0.instructions.len(),
        lower_statement(statement, before)->Ok_0.instructions.take(
            before.instructions.len() as int,
        ) == before.instructions,
        performs(
            lower_statement(statement, before)->Ok_0.instructions.skip(
                before.instructions.len() as int,
            ),
            machine,
            lower_statement(statement, before)->Ok_0.names,
            lower_statement(statement, before)->Ok_0.value,
            execute(statement, environment),
        ),
{
    let base = before.instructions.len();
    let lowered = lower_statement(statement, before)->Ok_0;
    match statement {
        Statement::Evaluate { expression } => {
            let code = lower_expression(expression, before.names, base)->Ok_0;
            assert(lowered.instructions.skip(base as int) =~= code);
            assert(lowered.instructions.take(base as int) =~= before.instructions);
            lemma_expression_code_shape(expression, before.names, base);
            lemma_expression_preserved(expression, before.names, environment, machine);
        },
        Statement::Declare { name, value } => {
            let code = lower_expression(value, before.names, base)->Ok_0;
            let names = declare(before.names, name);
            let slot = slot_of(names, name);
            let instruction = Instruction::Store { source: (base + code.len() - 1) as usize, slot };
            assert(lowered.instructions.skip(base as int) =~= code.push(instruction));
            assert(lowered.instructions.take(base as int) =~= before.instructions);
            lemma_expression_code_shape(value, before.names, base);
            lemma_expression_preserved(value, before.names, environment, machine);
            lemma_run_push(code, instruction, machine);
            if let Some(result) = evaluate(value, environment) {
                let ready = run(code, machine)->Some_0;
                let grown = environment.insert(name, result);
                assert(names.no_duplicates() && names.contains(name) && names.index_of(name) < names.len()
                    && names[names.index_of(name)] == name) by {
                    if before.names.contains(name) {
                        let chosen = before.names.index_of(name);
                        assert(0 <= chosen < before.names.len() && before.names[chosen] == name);
                    } else {
                        assert(names[before.names.len() as int] == name);
                        let chosen = names.index_of(name);
                        assert(0 <= chosen < names.len() && names[chosen] == name);
                    }
                }
                let after = step(ready, instruction)->Some_0;
                assert(holds(after, names, grown)) by {
                    assert forall|other: Seq<char>| grown.contains_key(other) <==> names.contains(
                        other,
                    ) by {
                        if before.names.contains(other) {
                            let at = before.names.index_of(other);
                            assert(0 <= at < before.names.len() && before.names[at] == other);
                            assert(names[at] == other);
                        }
                        if names.contains(other) && other != name {
                            let at = names.index_of(other);
                            assert(0 <= at < names.len() && names[at] == other);
                            assert(before.names[at] == other);
                        }
                    }
                    assert forall|at: int| 0 <= at < names.len() implies after.slots[at]
                        == grown[#[trigger] names[at]] by {
                        if at != slot {
                            assert(names[at] != name);
                            assert(before.names[at] == names[at]);
                        }
                    }
                }
            }
        },
    }
}

/// Lowering a list of statements declares no name twice and gives the
/// value of the last statement an index among its instructions.
pub proof fn lemma_statements_shape(statements: Seq<Statement>)
    ensures
        lower_statements(statements) matches Ok(lowered) ==> lowered.names.no_duplicates() && (
        statements.len() > 0 ==> lowered.value < lowered.instructions.len()),
        statements.len() > 1 && lower_statements(statements) is Ok ==> lower_statements(
            statements.drop_last(),
        )->Ok_0.value < lower_statements(statements)->Ok_0.value,
        statements.len() > 0 && lower_statements(statements) is Ok ==> (lower_statements(
            statements.drop_last(),
        ) matches Ok(before) && before.names.len() <= lower_statements(statements)->Ok_0.names.len()
            && before.instructions.len() <= lower_statements(statements)->Ok_0.instructions.len()),
    decreases statements.len(),
{
    if statements.len() > 0 {
        lemma_statements_shape(statements.drop_last());
        if let Ok(before) = lower_statements(statements.drop_last()) {
            match statements.last() {
                Statement::Evaluate { expression } => {
                    lemma_expression_code_shape(
                        expression,
                        before.names,
                        before.instructions.len(),
                    );
                },
                Statement::Declare { name, value } => {
                    lemma_expression_code_shape(value, before.names, before.instructions.len());
                },
            }
        }
    }
}

/// The instructions of a list of statements perform them one after the
/// other, from a machine with enough slots, all of them zero.
pub proof fn lemma_statements_preserved(statements: Seq<Statement>, slot_count: nat)
    requires
        lower_statements(statements) is Ok,
        lower_statements(statements)->Ok_0.value <= usize::MAX,
        lower_statements(statements)->Ok_0.names.len() <= slot_count <= usize::MAX,
    ensures
        match execute_all(statements, Map::empty()) {
            Some(effect) => run(
                lower_statements(statements)->Ok_0.instructions,
                initial_machine(slot_count),
            ) matches Some(after) && holds(
                after,
                lower_statements(statements)->Ok_0.names,
                effect.environment,
            ) && after.values.len() == lower_statements(statements)->Ok_0.instructions.len() && (
            statements.len() > 0 ==> after.values[lower_statements(statements)->Ok_0.value as int]
                == effect.value),
            None => run(
                lower_statements(statements)->Ok_0.instructions,
                initial_machine(slot_count),
            ) is None,
        },
    decreases statements.len(),
{
    let lowered = lower_statements(statements)->Ok_0;
    let start = initial_machine(slot_count);
    if statements.len() == 0 {
        assert(holds(start, lowered.names, Map::empty()));
    } else {
        lemma_statements_shape(statements);
        lemma_statements_shape(statements.drop_last());
        let before = lower_statements(statements.drop_last())->Ok_0;
        lemma_statements_preserved(statements.drop_last(), slot_count);
        if let Some(effect) = execute_all(statements.drop_last(), Map::empty()) {
            let middle = run(before.instructions, start)->Some_0;
            lemma_run_shape(before.instructions, start);
            lemma_statement_preserved(statements.last(), before, effect.environment, middle);
            let suffix = lowered.instructions.skip(before.instructions.len() as int);
            assert(lowered.instructions =~= before.instructions + suffix);
            lemma_run_concat(before.instructions, suffix, start);
        } else {
            let reached = before.instructions.len() as int;
            assert(lowered.instructions.take(reached) == before.instructions) by {
                match statements.last() {
                    Statement::Evaluate { expression } => {
                        assert(lowered.instructions.take(reached) =~= before.instructions);
                    },
                    Statement::Declare { name, value } => {
                        assert(lowered.instructions.take(reached) =~= before.instructions);
                    },
                }
            }
            crate::codegen::ir::lemma_trap_is_final(lowered.instructions, start, reached);
        }
    }
}

/// Lowering preserves meaning: the function that a program is lowered to
/// returns, when it runs, the value that the program returns, and traps
/// where the program traps.
pub proof fn lemma_lowering_preserves_meaning(statements: Seq<Statement>)
    requires
        lower_program(statements) is Ok,
        lower_program(statements)->Ok_0.value <= usize::MAX,
        lower_program(statements)->Ok_0.names.len() <= usize::MAX,
    ensures
        outcome(
            lower_program(statements)->Ok_0.instructions,
            lower_program(statements)->Ok_0.names.len(),
            lower_program(statements)->Ok_0.value,
        ) == program_outcome(statements),
{
    let lowered = lower_program(statements)->Ok_0;
    lemma_statements_preserved(statements, lowered.names.len());
}

} // verus!
