use crate::codegen::error::{
    empty_program_message, undefined_variable_message, CodegenError, CodegenReason,
};
use crate::codegen::ir::{
    function_valid, instruction_valid, outcome, produces_value, stored_before, stores_to,
    Instruction, IrFunction,
};
use crate::codegen::meaning::program_outcome;
use crate::codegen::preservation::lemma_lowering_preserves_meaning;
use crate::syntax::ast::{Expression, ExpressionNode, ProgramNode, Statement, StatementNode};
use vstd::prelude::*;

verus! {

/// The slot of a variable: the index of its name among the names declared
/// so far.
pub open spec fn slot_of(names: Seq<Seq<char>>, name: Seq<char>) -> usize {
    names.index_of(name) as usize
}

/// The instructions for an expression, where `names` are declared and the
/// first instruction gets the index `base`; or the first name, in the order
/// of evaluation, that is not declared. The value of the expression is that
/// of the last instruction.
pub open spec fn lower_expression(expression: Expression, names: Seq<Seq<char>>, base: nat) -> Result<
    Seq<Instruction>,
    Seq<char>,
>
    decreases expression,
{
    match expression {
        Expression::Number { value } => Ok(seq![Instruction::Constant { value }]),
        Expression::Identifier { name } => if names.contains(name) {
            Ok(seq![Instruction::Load { slot: slot_of(names, name) }])
        } else {
            Err(name)
        },
        Expression::Binary { operator, left, right } => match lower_expression(*left, names, base) {
            Err(name) => Err(name),
            Ok(first) => match lower_expression(*right, names, base + first.len()) {
                Err(name) => Err(name),
                Ok(second) => Ok(
                    first + second + seq![
                        Instruction::Arithmetic {
                            operator,
                            left: (base + first.len() - 1) as usize,
                            right: (base + first.len() + second.len() - 1) as usize,
                        },
                    ],
                ),
            },
        },
    }
}

/// The instructions that are emitted for an expression before lowering
/// stops: all of them where every name is declared, else those of the
/// operands that come before the first name that is not declared. A name
/// that is not declared emits nothing itself.
pub open spec fn attempted(expression: Expression, names: Seq<Seq<char>>, base: nat) -> Seq<
    Instruction,
>
    decreases expression,
{
    match lower_expression(expression, names, base) {
        Ok(code) => code,
        Err(_) => match expression {
            Expression::Binary { operator, left, right } => match lower_expression(
                *left,
                names,
                base,
            ) {
                Err(_) => attempted(*left, names, base),
                Ok(first) => first + attempted(*right, names, base + first.len()),
            },
            _ => Seq::empty(),
        },
    }
}

/// The expression that a statement evaluates: the expression of an
/// expression statement, the initialiser of a declaration.
pub open spec fn evaluated(statement: Statement) -> Expression {
    match statement {
        Statement::Evaluate { expression } => expression,
        Statement::Declare { value, .. } => value,
    }
}

/// What lowering has produced so far: the instructions, the names declared,
/// and the index of the instruction that holds the value of the last
/// statement.
pub ghost struct Lowered {
    pub instructions: Seq<Instruction>,
    pub names: Seq<Seq<char>>,
    pub value: nat,
}

/// The names after a declaration of `name`: a name that is declared
/// already keeps its slot, a new one gets the next slot.
pub open spec fn declare(names: Seq<Seq<char>>, name: Seq<char>) -> Seq<Seq<char>> {
    if names.contains(name) {
        names
    } else {
        names.push(name)
    }
}

/// The instructions for one statement after `before`. A declaration lowers
/// its initialiser, then stores its value to the slot of the variable; the
/// value of the declaration is that of the initialiser, not a reload.
pub open spec fn lower_statement(statement: Statement, before: Lowered) -> Result<Lowered, Seq<char>> {
    let base = before.instructions.len();
    match statement {
        Statement::Evaluate { expression } => match lower_expression(
            expression,
            before.names,
            base,
        ) {
            Err(name) => Err(name),
            Ok(code) => Ok(
                Lowered {
                    instructions: before.instructions + code,
                    names: before.names,
                    value: (base + code.len() - 1) as nat,
                },
            ),
        },
        Statement::Declare { name, value } => match lower_expression(value, before.names, base) {
            Err(name) => Err(name),
            Ok(code) => {
                let names = declare(before.names, name);
                Ok(
                    Lowered {
                        instructions: before.instructions + code + seq![
                            Instruction::Store {
                                source: (base + code.len() - 1) as usize,
                                slot: slot_of(names, name),
                            },
                        ],
                        names,
                        value: (base + code.len() - 1) as nat,
                    },
                )
            },
        },
    }
}

/// The instructions for a list of statements, lowered in order from
/// nothing.
pub open spec fn lower_statements(statements: Seq<Statement>) -> Result<Lowered, Seq<char>>
    decreases statements.len(),
{
    if statements.len() == 0 {
        Ok(Lowered { instructions: Seq::empty(), names: Seq::empty(), value: 0 })
    } else {
        match lower_statements(statements.drop_last()) {
            Err(name) => Err(name),
            Ok(before) => lower_statement(statements.last(), before),
        }
    }
}

/// Why a program cannot be lowered.
pub ghost enum LoweringFailure {
    EmptyProgram,
    UndefinedVariable { name: Seq<char> },
}

/// The lowering of a program: the function that returns the value of the
/// last statement; or the reason why there is none. A program without
/// statements has no value to return; a read of a name that no earlier
/// statement declares is an error.
pub open spec fn lower_program(statements: Seq<Statement>) -> Result<Lowered, LoweringFailure> {
    if statements.len() == 0 {
        Err(LoweringFailure::EmptyProgram)
    } else {
        match lower_statements(statements) {
            Err(name) => Err(LoweringFailure::UndefinedVariable { name }),
            Ok(lowered) => Ok(lowered),
        }
    }
}

/// Whether an executable result of lowering is the one that the rules give.
pub open spec fn lowering_agrees(
    result: Result<IrFunction, CodegenError>,
    outcome: Result<Lowered, LoweringFailure>,
) -> bool {
    match outcome {
        Ok(lowered) => result matches Ok(function) && function.body() == lowered.instructions
            && function.slots() == lowered.names.len() && function.returned() == lowered.value,
        Err(LoweringFailure::EmptyProgram) => result matches Err(error) && error.reason
            == CodegenReason::EmptyProgram && error.message@ == empty_program_message(),
        Err(LoweringFailure::UndefinedVariable { name }) => result matches Err(error)
            && error.reason == CodegenReason::UndefinedVariable && error.message@
            == undefined_variable_message(name),
    }
}

/// The lowering of an expression is never empty, and its last instruction
/// produces a value.
pub proof fn lemma_expression_code_shape(expression: Expression, names: Seq<Seq<char>>, base: nat)
    ensures
        lower_expression(expression, names, base) matches Ok(code) ==> code.len() >= 1 && !(
        code.last() is Store),
    decreases expression,
{
    match expression {
        Expression::Binary { operator, left, right } => {
            lemma_expression_code_shape(*left, names, base);
            if let Ok(first) = lower_expression(*left, names, base) {
                lemma_expression_code_shape(*right, names, base + first.len());
            }
        },
        _ => {},
    }
}


/// The lowering of an expression writes to no slot: a store comes from a
/// declaration alone, one for each.
pub proof fn lemma_expression_stores_nothing(expression: Expression, names: Seq<Seq<char>>, base: nat)
    ensures
        lower_expression(expression, names, base) matches Ok(code) ==> forall|index: int|
            0 <= index < code.len() ==> !(#[trigger] code[index] is Store),
    decreases expression,
{
    match expression {
        Expression::Binary { operator, left, right } => {
            lemma_expression_stores_nothing(*left, names, base);
            if let Ok(first) = lower_expression(*left, names, base) {
                lemma_expression_stores_nothing(*right, names, base + first.len());
            }
        },
        _ => {},
    }
}

/// An instruction that is valid stays valid when instructions are added
/// behind it and slots are added to the function.
proof fn lemma_validity_extends(
    body: Seq<Instruction>,
    slot_count: nat,
    longer: Seq<Instruction>,
    more_slots: nat,
    index: int,
)
    requires
        0 <= index < body.len(),
        instruction_valid(body, slot_count, index),
        body.len() <= longer.len(),
        longer.take(body.len() as int) == body,
        slot_count <= more_slots,
    ensures
        instruction_valid(longer, more_slots, index),
{
    assert forall|i: int| 0 <= i < body.len() implies longer[i] == body[i] by {
        assert(longer.take(body.len() as int)[i] == longer[i]);
    }
    match body[index] {
        Instruction::Load { slot } => {
            let earlier = choose|earlier: int|
                0 <= earlier < index && earlier < body.len() && stores_to(
                    #[trigger] body[earlier],
                    slot,
                );
            assert(stores_to(longer[earlier], slot));
        },
        _ => {},
    }
}

/// A slot that has been written stays written when instructions are added.
proof fn lemma_store_extends(body: Seq<Instruction>, longer: Seq<Instruction>, slot: usize)
    requires
        stored_before(body, body.len() as int, slot),
        body.len() <= longer.len(),
        longer.take(body.len() as int) == body,
    ensures
        stored_before(longer, longer.len() as int, slot),
{
    let earlier = choose|earlier: int|
        0 <= earlier < body.len() && stores_to(#[trigger] body[earlier], slot);
    assert(longer.take(body.len() as int)[earlier] == longer[earlier]);
    assert(stores_to(longer[earlier], slot));
}

/// Once a statement cannot be lowered, the error stands whatever follows.
pub proof fn lemma_failure_is_final(statements: Seq<Statement>, reached: int)
    requires
        0 <= reached <= statements.len(),
        lower_statements(statements.take(reached)) is Err,
    ensures
        lower_statements(statements) == lower_statements(statements.take(reached)),
    decreases statements.len() - reached,
{
    if reached < statements.len() {
        assert(statements.take(reached + 1).drop_last() =~= statements.take(reached));
        lemma_failure_is_final(statements, reached + 1);
    } else {
        assert(statements.take(reached) =~= statements);
    }
}

/// A variable keeps its slot for good: a statement, whatever it declares,
/// leaves every name that was declared before it at the index that it
/// had, and gives no name two slots.
pub proof fn lemma_slot_is_kept(statement: Statement, before: Lowered, name: Seq<char>)
    requires
        before.names.no_duplicates(),
        before.names.contains(name),
        lower_statement(statement, before) is Ok,
    ensures
        lower_statement(statement, before)->Ok_0.names.no_duplicates(),
        lower_statement(statement, before)->Ok_0.names.contains(name),
        lower_statement(statement, before)->Ok_0.names.index_of(name) == before.names.index_of(name),
{
    let after = lower_statement(statement, before)->Ok_0.names;
    let slot = before.names.index_of(name);
    assert(0 <= slot < before.names.len() && before.names[slot] == name);
    assert(after[slot] == name);
    let kept = after.index_of(name);
    assert(0 <= kept < after.len() && after[kept] == name);
}

/// A declaration of a name that is declared already reuses its slot: the
/// number of slots stays as it was.
pub proof fn lemma_redeclaration_reuses_slot(name: Seq<char>, value: Expression, before: Lowered)
    requires
        before.names.contains(name),
        lower_statement(Statement::Declare { name, value }, before) is Ok,
    ensures
        lower_statement(Statement::Declare { name, value }, before)->Ok_0.names == before.names,
{
}

/// The texts of a list of names.
pub open spec fn names_of(variables: Seq<String>) -> Seq<Seq<char>> {
    Seq::new(variables.len(), |i: int| variables[i]@)
}

/// The function that is being built: the instructions emitted so far, and
/// the names of the variables declared so far, each at the index of its
/// slot.
///
/// The names stand in a vector in which none occurs twice, not in a hash
/// map: of a map keyed by `String` Verus proves nothing unless the hashing
/// of strings is taken on trust, and here the index of a name is its slot.
pub struct CodegenContext {
    instructions: Vec<Instruction>,
    variables: Vec<String>,
}

impl CodegenContext {
    /// The names declared so far.
    pub closed spec fn names(&self) -> Seq<Seq<char>> {
        names_of(self.variables@)
    }

    /// The instructions emitted so far.
    pub closed spec fn code(&self) -> Seq<Instruction> {
        self.instructions@
    }

    /// No name has two slots, every instruction is valid, and every slot has
    /// been written.
    pub closed spec fn well_formed(&self) -> bool {
        &&& self.names().no_duplicates()
        &&& forall|index: int|
            0 <= index < self.code().len() ==> instruction_valid(
                self.code(),
                self.names().len(),
                index,
            )
        &&& forall|slot: usize|
            slot < self.names().len() ==> stored_before(self.code(), self.code().len() as int, slot)
    }

    /// A context with no instruction and no variable.
    pub fn new() -> (context: Self)
        ensures
            context.well_formed(),
            context.code() == Seq::<Instruction>::empty(),
            context.names() == Seq::<Seq<char>>::empty(),
    {
        let context = CodegenContext { instructions: Vec::new(), variables: Vec::new() };
        assert(context.names() =~= Seq::<Seq<char>>::empty());
        context
    }

    /// The instructions emitted so far.
    pub fn instructions(&self) -> (instructions: &Vec<Instruction>)
        ensures
            instructions@ == self.code(),
    {
        &self.instructions
    }

    /// The slot of `name`, if it is declared.
    pub fn find_variable(&self, name: &String) -> (found: Option<usize>)
        requires
            self.well_formed(),
        ensures
            found is Some == self.names().contains(name@),
            found matches Some(slot) ==> slot == slot_of(self.names(), name@) && slot
                < self.names().len(),
    {
        let mut index: usize = 0;
        while index < self.variables.len()
            invariant
                self.well_formed(),
                index <= self.variables.len(),
                forall|i: int| 0 <= i < index ==> self.names()[i] != name@,
            decreases self.variables.len() - index,
        {
            if self.variables[index] == *name {
                proof {
                    let names = self.names();
                    assert(names[index as int] == name@);
                    assert(names.contains(name@));
                    let chosen = names.index_of(name@);
                    assert(0 <= chosen < names.len() && names[chosen] == name@);
                }
                return Some(index);
            }
            index += 1;
        }
        None
    }

    /// Appends one instruction that is valid at its place.
    fn push(&mut self, instruction: Instruction) -> (index: usize)
        requires
            old(self).well_formed(),
            instruction_valid(
                old(self).code().push(instruction),
                old(self).names().len(),
                old(self).code().len() as int,
            ),
        ensures
            final(self).well_formed(),
            final(self).names() == old(self).names(),
            final(self).code() == old(self).code().push(instruction),
            index == old(self).code().len(),
    {
        let index = self.instructions.len();
        self.instructions.push(instruction);
        proof {
            let body = old(self).code();
            let longer = self.code();
            assert(longer.take(body.len() as int) =~= body);
            assert forall|i: int| 0 <= i < longer.len() implies instruction_valid(
                longer,
                self.names().len(),
                i,
            ) by {
                if i < body.len() {
                    lemma_validity_extends(body, self.names().len(), longer, self.names().len(), i);
                }
            }
            assert forall|slot: usize| slot < self.names().len() implies stored_before(
                longer,
                longer.len() as int,
                slot,
            ) by {
                lemma_store_extends(body, longer, slot);
            }
        }
        index
    }
}

/// Emits the instructions for `expression` and gives the index of the one
/// that holds its value. A name that is not declared is an error and emits
/// nothing; what the operands before it have emitted stays. The variables
/// stay as they are either way.
pub fn compile_expression(expression: &ExpressionNode, context: &mut CodegenContext) -> (result: Result<
    usize,
    CodegenError,
>)
    requires
        old(context).well_formed(),
    ensures
        final(context).well_formed(),
        final(context).names() == old(context).names(),
        final(context).code() == old(context).code() + attempted(
            expression@,
            old(context).names(),
            old(context).code().len(),
        ),
        match lower_expression(expression@, old(context).names(), old(context).code().len()) {
            Ok(code) => result matches Ok(value) && final(context).code() == old(context).code()
                + code && value == final(context).code().len() - 1 && produces_value(
                final(context).code(),
                value as int,
            ),
            Err(name) => result matches Err(error) && error.reason
                == CodegenReason::UndefinedVariable && error.message@
                == undefined_variable_message(name),
        },
    decreases expression,
{
    let ghost start = context.code();
    match expression {
        ExpressionNode::NumberLiteral { value } => {
            let index = context.push(Instruction::Constant { value: *value });
            assert(context.code() =~= start + seq![Instruction::Constant { value: *value }]);
            Ok(index)
        },
        ExpressionNode::IdentifierReference { name } => {
            match context.find_variable(name) {
                Some(slot) => {
                    proof {
                        assert(stored_before(start, start.len() as int, slot));
                        let earlier = choose|earlier: int|
                            0 <= earlier < start.len() && stores_to(#[trigger] start[earlier], slot);
                        assert(stores_to(
                            start.push(Instruction::Load { slot })[earlier],
                            slot,
                        ));
                    }
                    let index = context.push(Instruction::Load { slot });
                    assert(context.code() =~= start + seq![Instruction::Load { slot }]);
                    Ok(index)
                },
                None => {
                    assert(context.code() =~= start + Seq::<Instruction>::empty());
                    Err(CodegenError::undefined_variable(name.as_str()))
                },
            }
        },
        ExpressionNode::BinaryOperation { operator, left, right } => {
            let left_value = match compile_expression(left, context) {
                Ok(value) => value,
                Err(error) => {
                    return Err(error);
                },
            };
            let ghost middle = context.code();
            let right_value = match compile_expression(right, context) {
                Ok(value) => value,
                Err(error) => {
                    proof {
                        let first = lower_expression(left@, old(context).names(), start.len())->Ok_0;
                        let rest = attempted(
                            right@,
                            old(context).names(),
                            start.len() + first.len(),
                        );
                        assert(context.code() =~= start + (first + rest));
                    }
                    return Err(error);
                },
            };
            let instruction = Instruction::Arithmetic {
                operator: *operator,
                left: left_value,
                right: right_value,
            };
            proof {
                let body = context.code();
                assert(body.take(middle.len() as int) =~= middle);
                assert(body[left_value as int] == middle[left_value as int]);
                assert(body.push(instruction)[left_value as int] == body[left_value as int]);
                assert(body.push(instruction)[right_value as int] == body[right_value as int]);
            }
            let index = context.push(instruction);
            proof {
                let first = lower_expression(left@, old(context).names(), start.len())->Ok_0;
                let second = lower_expression(
                    right@,
                    old(context).names(),
                    start.len() + first.len(),
                )->Ok_0;
                assert(context.code() =~= start + (first + second + seq![instruction]));
            }
            Ok(index)
        },
    }
}

/// Emits the instructions for `statement` and gives the index of the one
/// that holds its value. A declaration stores the value of its initialiser
/// to the slot of its variable: the slot that the variable has already,
/// where it is declared, else a new one. No variable ever changes its slot.
/// Where the expression or the initialiser cannot be lowered, the variables
/// stay as they are.
pub fn compile_statement(statement: &StatementNode, context: &mut CodegenContext) -> (result: Result<
    usize,
    CodegenError,
>)
    requires
        old(context).well_formed(),
    ensures
        final(context).well_formed(),
        match lower_statement(
            statement@,
            Lowered { instructions: old(context).code(), names: old(context).names(), value: 0 },
        ) {
            Ok(lowered) => result matches Ok(value) && final(context).code()
                == lowered.instructions && final(context).names() == lowered.names && value
                == lowered.value && produces_value(final(context).code(), value as int),
            Err(name) => result matches Err(error) && error.reason
                == CodegenReason::UndefinedVariable && error.message@
                == undefined_variable_message(name),
        },
        result is Err ==> final(context).names() == old(context).names() && final(context).code()
            == old(context).code() + attempted(
            evaluated(statement@),
            old(context).names(),
            old(context).code().len(),
        ),
        forall|name: Seq<char>| #[trigger]
            old(context).names().contains(name) ==> final(context).names().contains(name)
                && slot_of(final(context).names(), name) == slot_of(old(context).names(), name),
        result matches Ok(value) ==> (statement@ matches Statement::Declare { name, .. } ==> {
            &&& final(context).names().len() == if old(context).names().contains(name) {
                old(context).names().len()
            } else {
                old(context).names().len() + 1
            }
            &&& final(context).code().last() == (Instruction::Store {
                source: value,
                slot: slot_of(final(context).names(), name),
            })
        }),
{
    let ghost start = context.code();
    let ghost names = context.names();
    proof {
        let before = Lowered { instructions: start, names, value: 0 };
        assert forall|name: Seq<char>| #[trigger]
            names.contains(name) && lower_statement(statement@, before) is Ok implies lower_statement(
            statement@,
            before,
        )->Ok_0.names.contains(name) && slot_of(lower_statement(statement@, before)->Ok_0.names, name)
            == slot_of(names, name) by {
            lemma_slot_is_kept(statement@, before, name);
        }
    }
    match statement {
        StatementNode::ExpressionStatement { expression } => compile_expression(
            expression,
            context,
        ),
        StatementNode::VariableDeclaration { name, value } => {
            let value_index = match compile_expression(value, context) {
                Ok(index) => index,
                Err(error) => {
                    return Err(error);
                },
            };
            let ghost middle = context.code();
            let slot = match context.find_variable(name) {
                Some(slot) => slot,
                None => {
                    let slot = context.variables.len();
                    context.variables.push(name.clone());
                    proof {
                        let grown = context.names();
                        assert(grown =~= names.push(name@));
                        assert(grown.no_duplicates());
                        assert(grown[slot as int] == name@);
                        assert(grown.contains(name@));
                        let chosen = grown.index_of(name@);
                        assert(0 <= chosen < grown.len() && grown[chosen] == name@);
                        assert forall|i: int| 0 <= i < middle.len() implies instruction_valid(
                            middle,
                            grown.len(),
                            i,
                        ) by {
                            assert(middle.take(middle.len() as int) =~= middle);
                            lemma_validity_extends(middle, names.len(), middle, grown.len(), i);
                        }
                    }
                    slot
                },
            };
            let instruction = Instruction::Store { source: value_index, slot };
            let ghost grown = context.names();
            proof {
                assert(middle.push(instruction)[value_index as int] == middle[value_index as int]);
            }
            context.instructions.push(instruction);
            proof {
                let body = context.code();
                assert(body =~= middle.push(instruction));
                assert(body.take(middle.len() as int) =~= middle);
                assert forall|i: int| 0 <= i < body.len() implies instruction_valid(
                    body,
                    grown.len(),
                    i,
                ) by {
                    if i < middle.len() {
                        lemma_validity_extends(middle, grown.len(), body, grown.len(), i);
                    }
                }
                assert forall|other: usize| other < grown.len() implies stored_before(
                    body,
                    body.len() as int,
                    other,
                ) by {
                    if other == slot {
                        assert(stores_to(body[middle.len() as int], slot));
                    } else {
                        lemma_store_extends(middle, body, other);
                    }
                }
                let code = lower_expression(value@, names, start.len())->Ok_0;
                assert(body =~= start + code + seq![instruction]);
            }
            Ok(value_index)
        },
    }
}

/// Lowers the statements of `program` in order into one function that
/// returns the value of the last of them.
pub fn compile_program_statements(program: &ProgramNode) -> (result: Result<
    IrFunction,
    CodegenError,
>)
    ensures
        lowering_agrees(result, lower_program(program@)),
        result matches Ok(function) ==> outcome(
            function.body(),
            function.slots(),
            function.returned(),
        ) == program_outcome(program@),
{
    let mut context = CodegenContext::new();
    let mut last_value: Option<usize> = None;
    let mut index: usize = 0;
    assert(program@.take(0) =~= Seq::<Statement>::empty());
    while index < program.statements.len()
        invariant
            index <= program.statements.len(),
            context.well_formed(),
            last_value is Some == (index > 0),
            last_value matches Some(value) ==> produces_value(context.code(), value as int),
            lower_statements(program@.take(index as int)) == Ok::<Lowered, Seq<char>>(
                Lowered {
                    instructions: context.code(),
                    names: context.names(),
                    value: match last_value {
                        Some(value) => value as nat,
                        None => 0,
                    },
                },
            ),
        decreases program.statements.len() - index,
    {
        proof {
            assert(program@.take(index as int + 1).drop_last() =~= program@.take(index as int));
            assert(program@.take(index as int + 1).last() == program.statements[index as int]@);
        }
        match compile_statement(&program.statements[index], &mut context) {
            Ok(value) => {
                last_value = Some(value);
            },
            Err(error) => {
                proof {
                    lemma_failure_is_final(program@, index as int + 1);
                }
                return Err(error);
            },
        }
        index += 1;
    }
    assert(program@.take(index as int) =~= program@);
    match last_value {
        Some(value) => {
            let slot_count = context.variables.len();
            proof {
                lemma_lowering_preserves_meaning(program@);
            }
            Ok(IrFunction::new(context.instructions, slot_count, value))
        },
        None => Err(CodegenError::empty_program()),
    }
}

} // verus!
