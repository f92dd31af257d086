use crate::codegen::backend::{
    add_integer_result, builder_context, clear_context, create_block, create_slot,
    declare_exported, declared_in, declares, define, defined_in, describe_module_error,
    describe_set_error, describe_write_error, emit_add, emit_bytes, emit_constant, emit_divide,
    emit_load, emit_multiply, emit_return, emit_store, emit_subtract, emitted, finalize,
    finish_flags, finish_instruction_set, finish_module, flag_builder, function_builder,
    function_context, has_entry, has_entry_block, holds_nul, host_builder, is_blank, no_declarations, no_settings, no_slots,
    object_builder, object_module, results_of, seal_block, set_flag, settings_in, slots_of,
    stage_of, switch_to_block, values_of, BuilderStage, Declaration, Emitted, SlotShape,
};
use crate::codegen::error::{
    empty_program_message, explained, undefined_variable_message, CodegenError, CodegenReason,
};
use crate::codegen::ir::{function_valid, instruction_valid, produces_value, Instruction, IrFunction};
use crate::codegen::lower::{compile_program_statements, lower_program, LoweringFailure};
use crate::codegen::meaning::program_outcome;
use crate::codegen::native::{lemma_main_returns_the_outcome, native_outcome};
use crate::syntax::ast::{BinaryOperator, ProgramNode};
use vstd::prelude::*;

verus! {

/// Whether `error` is the error for `failure`.
pub open spec fn reports(error: CodegenError, failure: LoweringFailure) -> bool {
    match failure {
        LoweringFailure::EmptyProgram => error.reason == CodegenReason::EmptyProgram
            && error.message@ == empty_program_message(),
        LoweringFailure::UndefinedVariable { name } => error.reason
            == CodegenReason::UndefinedVariable && error.message@ == undefined_variable_message(
            name,
        ),
    }
}

/// Whether `error` is of the given stage and says what failed, a colon
/// and a space, then some detail.
pub open spec fn is_failure_of(error: CodegenError, reason: CodegenReason, context: Seq<char>) -> bool {
    error.reason == reason && exists|detail: Seq<char>|
        error.message@ == #[trigger] explained(context, detail)
}

/// Whether `error` says that the target could not be configured: a setting
/// was refused, the machine is not supported, or its instruction set could
/// not be built.
pub open spec fn is_target_failure(error: CodegenError) -> bool {
    ||| is_failure_of(error, CodegenReason::Target, "Failed to set Cranelift flag"@)
    ||| is_failure_of(error, CodegenReason::Target, "Host not supported"@)
    ||| is_failure_of(error, CodegenReason::Target, "Failed to build instruction set"@)
}

/// Whether `error` says that the object file could not be put together:
/// the module could not be made, `main` could not be declared or defined,
/// or the bytes could not be written out.
pub open spec fn is_emission_failure(error: CodegenError) -> bool {
    ||| is_failure_of(error, CodegenReason::Emission, "Failed to build object module"@)
    ||| is_failure_of(error, CodegenReason::Emission, "Failed to declare function"@)
    ||| is_failure_of(error, CodegenReason::Emission, "Failed to define function"@)
    ||| is_failure_of(error, CodegenReason::Emission, "Failed to emit object"@)
}

/// Whether `error` comes from the machine or from Cranelift, not from the
/// program.
pub open spec fn is_outside_failure(error: CodegenError) -> bool {
    is_target_failure(error) || is_emission_failure(error)
}

/// The size in bytes of the slot of a variable, and of every value.
pub open spec fn word_bytes() -> u32 {
    8
}

/// The shape of the slot of a variable: one 64-bit integer, with no
/// alignment of its own.
pub open spec fn word_slot() -> SlotShape {
    SlotShape { bytes: word_bytes(), align_shift: 0 }
}

/// The Cranelift instruction for the instruction at `index` of `body`,
/// where `slots` holds the number of the Cranelift slot of every slot of
/// the function, and `values` the number of the Cranelift value of every
/// instruction that produces one. Every value is 64 bits wide, and a slot
/// is read and written at its start.
pub open spec fn translated(body: Seq<Instruction>, slots: Seq<u32>, values: Seq<u32>, index: int) -> Emitted {
    let result = values[index];
    match body[index] {
        Instruction::Constant { value } => Emitted::Constant { result, bits: 64, immediate: value },
        Instruction::Load { slot } => Emitted::Load {
            result,
            bits: 64,
            slot: slots[slot as int],
            offset: 0,
        },
        Instruction::Store { source, slot } => Emitted::Store {
            value: values[source as int],
            slot: slots[slot as int],
            offset: 0,
        },
        Instruction::Arithmetic { operator, left, right } => {
            let left = values[left as int];
            let right = values[right as int];
            match operator {
                BinaryOperator::Add => Emitted::Add { result, left, right },
                BinaryOperator::Subtract => Emitted::Subtract { result, left, right },
                BinaryOperator::Multiply => Emitted::Multiply { result, left, right },
                BinaryOperator::Divide => Emitted::SignedDivide { result, left, right },
            }
        },
    }
}

/// The Cranelift instructions for the first `count` instructions of `body`,
/// one for each, in order.
pub open spec fn translation(body: Seq<Instruction>, slots: Seq<u32>, values: Seq<u32>, count: int) -> Seq<
    Emitted,
> {
    Seq::new(count as nat, |index: int| translated(body, slots, values, index))
}

/// Whether `slots` are distinct slots of `made`, each for one 64-bit
/// integer.
pub open spec fn are_word_slots(made: Map<u32, SlotShape>, slots: Seq<u32>) -> bool {
    &&& slots.no_duplicates()
    &&& forall|i: int|
        0 <= i < slots.len() ==> made.dom().contains(#[trigger] slots[i]) && made[slots[i]]
            == word_slot()
}

/// Whether no two instructions of `body` that produce a value have the
/// same Cranelift value.
pub open spec fn are_distinct_values(body: Seq<Instruction>, values: Seq<u32>) -> bool {
    forall|i: int, j: int|
        produces_value(body, i) && produces_value(body, j) && i != j ==> #[trigger] values[i]
            != #[trigger] values[j]
}

/// Whether a builder that holds the slots `made` and the instructions
/// `code` holds the function `main` for the function with the instructions
/// `body`, `slot_count` slots and the value of the instruction `returned`
/// as its result: a slot of its own for every slot of the function and
/// nothing else, then the Cranelift instruction for each instruction of the
/// function, in order and each with a value of its own, then the return of
/// the value that the function returns.
pub open spec fn is_main_of(
    body: Seq<Instruction>,
    slot_count: nat,
    returned: nat,
    made: Map<u32, SlotShape>,
    code: Seq<Emitted>,
) -> bool {
    exists|slots: Seq<u32>, values: Seq<u32>|
        {
            &&& slots.len() == slot_count
            &&& are_word_slots(made, slots)
            &&& made.dom() == slots.to_set()
            &&& values.len() == body.len()
            &&& are_distinct_values(body, values)
            &&& #[trigger] translation(body, slots, values, body.len() as int).push(
                Emitted::Return { value: values[returned as int] },
            ) == code
        }
}

/// Creates `count` slots, each for one 64-bit integer, and gives their
/// numbers in the order of creation.
fn create_slots(builder: &mut cranelift::frontend::FunctionBuilder<'_>, count: usize) -> (slots: Vec<
    u32,
>)
    requires
        slots_of(*old(builder)) == no_slots(),
    ensures
        slots.len() == count,
        are_word_slots(slots_of(*final(builder)), slots@),
        slots_of(*final(builder)).dom() == slots@.to_set(),
        emitted(*final(builder)) == emitted(*old(builder)),
        values_of(*final(builder)) == values_of(*old(builder)),
        stage_of(*final(builder)) == stage_of(*old(builder)),
{
    let mut slots: Vec<u32> = Vec::new();
    assert(slots_of(*builder).dom() =~= slots@.to_set());
    while slots.len() < count
        invariant
            slots.len() <= count,
            are_word_slots(slots_of(*builder), slots@),
            slots_of(*builder).dom() == slots@.to_set(),
            emitted(*builder) == emitted(*old(builder)),
            values_of(*builder) == values_of(*old(builder)),
            stage_of(*builder) == stage_of(*old(builder)),
        decreases count - slots.len(),
    {
        let ghost before = slots@;
        let slot = create_slot(builder, 8, 0);
        slots.push(slot);
        proof {
            assert(!before.contains(slot)) by {
                if before.contains(slot) {
                    assert(before.to_set().contains(slot));
                }
            }
            assert forall|i: int| 0 <= i < before.len() implies slots@[i] == before[i] by {}
            assert(slots@.to_set() =~= before.to_set().insert(slot)) by {
                assert forall|other: u32| slots@.to_set().contains(other) implies before.to_set().insert(
                    slot,
                ).contains(other) by {
                    let i = choose|i: int| 0 <= i < slots@.len() && slots@[i] == other;
                    if i < before.len() {
                        assert(before[i] == other);
                    }
                }
                assert forall|other: u32|
                    before.to_set().insert(slot).contains(other) implies slots@.to_set().contains(
                    other,
                ) by {
                    if other == slot {
                        assert(slots@[before.len() as int] == slot);
                    } else {
                        let i = choose|i: int| 0 <= i < before.len() && before[i] == other;
                        assert(slots@[i] == other);
                    }
                }
            }
        }
    }
    slots
}

/// Emits the instructions of `function`, one Cranelift instruction for
/// each, into the current block of `builder`, and gives the number of the
/// Cranelift value of each.
fn emit_instructions(
    builder: &mut cranelift::frontend::FunctionBuilder<'_>,
    function: &IrFunction,
    slots: &Vec<u32>,
) -> (values: Vec<u32>)
    requires
        stage_of(*old(builder)) == BuilderStage::Ready,
        slots.len() == function.slots(),
        are_word_slots(slots_of(*old(builder)), slots@),
    ensures
        stage_of(*final(builder)) == BuilderStage::Ready,
        slots_of(*final(builder)) == slots_of(*old(builder)),
        values.len() == function.body().len(),
        function_valid(function.body(), function.slots(), function.returned()),
        emitted(*final(builder)) == emitted(*old(builder)) + translation(
            function.body(),
            slots@,
            values@,
            function.body().len() as int,
        ),
        are_distinct_values(function.body(), values@),
        forall|i: int|
            produces_value(function.body(), i) ==> values_of(*final(builder)).contains(
                #[trigger] values[i],
            ),
{
    let instructions = function.instructions();
    let mut values: Vec<u32> = Vec::new();
    let mut index: usize = 0;
    assert(emitted(*builder) =~= emitted(*old(builder)) + translation(
        function.body(),
        slots@,
        values@,
        0,
    ));
    while index < instructions.len()
        invariant
            stage_of(*builder) == BuilderStage::Ready,
            slots_of(*builder) == slots_of(*old(builder)),
            instructions@ == function.body(),
            function_valid(function.body(), function.slots(), function.returned()),
            slots.len() == function.slots(),
            are_word_slots(slots_of(*builder), slots@),
            index <= instructions.len(),
            values.len() == index,
            emitted(*builder) == emitted(*old(builder)) + translation(
                function.body(),
                slots@,
                values@,
                index as int,
            ),
            forall|i: int|
                0 <= i < index && produces_value(function.body(), i) ==> values_of(
                    *builder,
                ).contains(#[trigger] values[i]),
            forall|i: int, j: int|
                0 <= i < index && 0 <= j < index && produces_value(function.body(), i)
                    && produces_value(function.body(), j) && i != j ==> #[trigger] values[i]
                    != #[trigger] values[j],
        decreases instructions.len() - index,
    {
        assert(instruction_valid(function.body(), function.slots(), index as int));
        let ghost before = values@;
        let ghost code = emitted(*builder);
        let value = match instructions[index] {
            Instruction::Constant { value } => emit_constant(builder, value),
            Instruction::Load { slot } => emit_load(builder, slots[slot], 0),
            Instruction::Store { source, slot } => {
                emit_store(builder, values[source], slots[slot], 0);
                0
            },
            Instruction::Arithmetic { operator, left, right } => match operator {
                BinaryOperator::Add => emit_add(builder, values[left], values[right]),
                BinaryOperator::Subtract => emit_subtract(builder, values[left], values[right]),
                BinaryOperator::Multiply => emit_multiply(builder, values[left], values[right]),
                BinaryOperator::Divide => emit_divide(builder, values[left], values[right]),
            },
        };
        values.push(value);
        proof {
            let body = function.body();
            assert(emitted(*builder) == code.push(translated(body, slots@, values@, index as int)));
            assert forall|i: int| 0 <= i < index implies translated(body, slots@, values@, i)
                == translated(body, slots@, before, i) by {
                assert(instruction_valid(body, function.slots(), i));
                assert(values@[i] == before[i]);
            }
            assert(translation(body, slots@, values@, index as int + 1) =~= translation(
                body,
                slots@,
                before,
                index as int,
            ).push(translated(body, slots@, values@, index as int)));
        }
        index += 1;
    }
    values
}

/// Builds the function `main` for `function` through a builder that
/// nothing has been made through yet: one sealed entry block that holds the
/// instructions of the function, ended by the return of its value.
fn build_main(builder: &mut cranelift::frontend::FunctionBuilder<'_>, function: &IrFunction)
    requires
        stage_of(*old(builder)) == BuilderStage::Start,
        emitted(*old(builder)) == Seq::<Emitted>::empty(),
        slots_of(*old(builder)) == no_slots(),
    ensures
        stage_of(*final(builder)) == BuilderStage::Returned,
        function_valid(function.body(), function.slots(), function.returned()),
        is_main_of(
            function.body(),
            function.slots(),
            function.returned(),
            slots_of(*final(builder)),
            emitted(*final(builder)),
        ),
{
    let entry_block = create_block(builder);
    switch_to_block(builder, entry_block);
    seal_block(builder, entry_block);
    let slots = create_slots(builder, function.slot_count());
    let values = emit_instructions(builder, function, &slots);
    emit_return(builder, values[function.result()]);
    proof {
        let code = translation(function.body(), slots@, values@, function.body().len() as int);
        assert(emitted(*builder) =~= code.push(
            Emitted::Return { value: values@[function.returned() as int] },
        ));
    }
}

/// Builds the function `main` for `program` through a builder that
/// nothing has been made through yet. The Cranelift instructions that are
/// emitted are those of the function that the program is lowered to, and
/// they return the value of the program: that of its last statement, with
/// every statement before it executed in order. A program that cannot be
/// lowered emits nothing.
fn build_program(builder: &mut cranelift::frontend::FunctionBuilder<'_>, program: &ProgramNode) -> (result:
    Result<(), CodegenError>)
    requires
        stage_of(*old(builder)) == BuilderStage::Start,
        emitted(*old(builder)) == Seq::<Emitted>::empty(),
        slots_of(*old(builder)) == no_slots(),
    ensures
        match result {
            Ok(_) => lower_program(program@) matches Ok(lowered) && is_main_of(
                lowered.instructions,
                lowered.names.len(),
                lowered.value,
                slots_of(*final(builder)),
                emitted(*final(builder)),
            ) && native_outcome(emitted(*final(builder))) == program_outcome(program@) && stage_of(
                *final(builder),
            ) == BuilderStage::Returned,
            Err(error) => lower_program(program@) matches Err(failure) && reports(error, failure)
                && emitted(*final(builder)) == emitted(*old(builder)),
        },
{
    let function = match compile_program_statements(program) {
        Ok(function) => function,
        Err(error) => {
            return Err(error);
        },
    };
    build_main(builder, &function);
    proof {
        lemma_main_returns_the_outcome(
            function.body(),
            function.slots(),
            function.returned(),
            slots_of(*builder),
            emitted(*builder),
        );
    }
    Ok(())
}

/// Builds in `context`, whose function is blank, the function `main` for
/// `program`, as `build_program` says.
fn build_function(context: &mut cranelift::codegen::Context, program: &ProgramNode) -> (result:
    Result<(), CodegenError>)
    requires
        is_blank(*old(context)),
    ensures
        match result {
            Ok(_) => lower_program(program@) is Ok,
            Err(error) => lower_program(program@) matches Err(failure) && reports(error, failure),
        },
{
    let mut working = builder_context();
    let mut builder = function_builder(context, &mut working);
    match build_program(&mut builder, program) {
        Ok(_) => {
            finalize(builder);
            Ok(())
        },
        Err(error) => Err(error),
    }
}

/// The settings that the library sets: position-independent code.
pub open spec fn chosen_settings() -> Map<Seq<char>, Seq<char>> {
    no_settings().insert("is_pic"@, "true"@)
}

/// The settings of the compiler: those that all targets share, at their
/// defaults but for position-independent code, which is on.
fn host_flags() -> (result: Result<cranelift::codegen::settings::Flags, CodegenError>)
    ensures
        result matches Ok(flags) ==> settings_in(flags) == chosen_settings(),
        result matches Err(error) ==> is_outside_failure(error),
{
    let mut flags = flag_builder();
    match set_flag(&mut flags, "is_pic", "true") {
        Ok(_) => Ok(finish_flags(flags)),
        Err(error) => Err(
            CodegenError::explain(
                CodegenReason::Target,
                "Failed to set Cranelift flag",
                describe_set_error(&error).as_str(),
            ),
        ),
    }
}

/// An object file under construction for the machine that this code runs
/// on, with the given settings, which are those of the library.
fn module_for(flags: cranelift::codegen::settings::Flags) -> (result: Result<
    cranelift::object::ObjectModule,
    CodegenError,
>)
    requires
        settings_in(flags) == chosen_settings(),
    ensures
        result matches Ok(module) ==> declared_in(module) == no_declarations()
            && defined_in(module) == Set::<u32>::empty(),
        result matches Err(error) ==> is_outside_failure(error),
{
    let host = match host_builder() {
        Ok(host) => host,
        Err(reason) => {
            return Err(CodegenError::explain(CodegenReason::Target, "Host not supported", reason));
        },
    };
    let instruction_set = match finish_instruction_set(host, flags) {
        Ok(instruction_set) => instruction_set,
        Err(reason) => {
            return Err(
                CodegenError::explain(
                    CodegenReason::Target,
                    "Failed to build instruction set",
                    reason.as_str(),
                ),
            );
        },
    };
    proof {
        reveal_strlit("wolf");
        assert(!holds_nul("wolf"@));
    }
    match object_builder(instruction_set, "wolf") {
        Ok(builder) => Ok(object_module(builder)),
        Err(error) => Err(
            CodegenError::explain(
                CodegenReason::Emission,
                "Failed to build object module",
                describe_module_error(&error).as_str(),
            ),
        ),
    }
}

/// An object file under construction for the machine that this code runs
/// on, with position-independent code.
fn host_module() -> (result: Result<cranelift::object::ObjectModule, CodegenError>)
    ensures
        result matches Ok(module) ==> declared_in(module) == no_declarations()
            && defined_in(module) == Set::<u32>::empty(),
        result matches Err(error) ==> is_outside_failure(error),
{
    match host_flags() {
        Ok(flags) => module_for(flags),
        Err(error) => Err(error),
    }
}

/// The declaration of the one function of an object file: `main`, which
/// is exported, takes nothing and returns one 64-bit integer.
pub open spec fn main_declaration() -> Declaration {
    Declaration { name: "main"@, exported: true, results: seq![64nat] }
}

/// Declares `main` in a module in which nothing is declared, with the
/// signature of `context`, and gives its number.
fn declare_main(module: &mut cranelift::object::ObjectModule, context: &cranelift::codegen::Context) -> (result:
    Result<u32, CodegenError>)
    requires
        declared_in(*old(module)) == no_declarations(),
        results_of(*context) == seq![64nat],
    ensures
        defined_in(*final(module)) == defined_in(*old(module)),
        result matches Ok(function) ==> declared_in(*final(module)) == no_declarations().insert(function, main_declaration()),
        result matches Err(error) ==> is_outside_failure(error),
{
    assert(!declares(declared_in(*module), "main"@));
    match declare_exported(module, "main", context) {
        Ok(function) => Ok(function),
        Err(error) => Err(
            CodegenError::explain(
                CodegenReason::Emission,
                "Failed to declare function",
                describe_module_error(&error).as_str(),
            ),
        ),
    }
}

/// Compiles the function of `context` as the definition of `main`, the one
/// function of `module`, and gives the bytes of the object file.
fn define_main(
    module: cranelift::object::ObjectModule,
    function: u32,
    context: &mut cranelift::codegen::Context,
) -> (result: Result<Vec<u8>, CodegenError>)
    requires
        declared_in(module) == no_declarations().insert(function, main_declaration()),
        defined_in(module) == Set::<u32>::empty(),
        has_entry(*old(context)),
    ensures
        result matches Ok(bytes) ==> bytes@.len() > 0,
        result matches Err(error) ==> is_outside_failure(error),
{
    let mut module = module;
    match define(&mut module, function, context) {
        Ok(_) => {},
        Err(error) => {
            return Err(
                CodegenError::explain(
                    CodegenReason::Emission,
                    "Failed to define function",
                    describe_module_error(&error).as_str(),
                ),
            );
        },
    }
    clear_context(&module, context);
    assert(declared_in(module).dom() =~= defined_in(module));
    let product = finish_module(module);
    match emit_bytes(product) {
        Ok(bytes) => Ok(bytes),
        Err(error) => Err(
            CodegenError::explain(
                CodegenReason::Emission,
                "Failed to emit object",
                describe_write_error(&error).as_str(),
            ),
        ),
    }
}

/// What code generation may answer for a program. A program that can be
/// lowered gives an object file, which is never empty, unless the machine
/// or Cranelift fails. A program that cannot be lowered gives no object
/// file: the answer is the error that says why, unless the machine or
/// Cranelift has failed before the program was looked at.
pub open spec fn may_generate(program: Seq<crate::syntax::ast::Statement>, result: Result<Vec<u8>, CodegenError>) -> bool {
    match result {
        Ok(bytes) => lower_program(program) is Ok && bytes@.len() > 0,
        Err(error) => is_outside_failure(error) || (lower_program(program) matches Err(failure)
            && reports(error, failure)),
    }
}

/// Compiles a program to the bytes of a relocatable object file for the
/// machine that this code runs on. The file holds one exported function,
/// `main`, which takes nothing and returns the value of the program's last
/// statement as a 64-bit integer.
///
/// The target is configured and `main` is declared first, so a machine
/// that is not supported is reported whatever the program is. Then the
/// program is lowered: a program that cannot be lowered is reported as
/// such, and no program that cannot be lowered yields an object file. The
/// instructions that Cranelift is given for `main` are those that
/// `build_program` states.
pub fn compile_program(program: &ProgramNode) -> (result: Result<Vec<u8>, CodegenError>)
    ensures
        may_generate(program@, result),
{
    let mut module = match host_module() {
        Ok(module) => module,
        Err(error) => {
            return Err(error);
        },
    };
    let mut context = function_context(&module);
    add_integer_result(&mut context);
    assert(results_of(context) =~= seq![64nat]);
    let main = match declare_main(&mut module, &context) {
        Ok(main) => main,
        Err(error) => {
            return Err(error);
        },
    };
    match build_function(&mut context, program) {
        Ok(_) => {},
        Err(error) => {
            return Err(error);
        },
    }
    if !has_entry_block(&context) {
        return Err(
            CodegenError::explain(
                CodegenReason::Emission,
                "Failed to define function",
                "the function has no entry block",
            ),
        );
    }
    define_main(module, main, &mut context)
}

} // verus!
