//! What the Cranelift instructions that the library emits compute, and the
//! proof that the function `main` built for a function of the intermediate
//! representation returns what that function returns.
//!
//! The meaning given here to an instruction is the one that Cranelift
//! documents for it, for 64-bit integers and whole slots, which is all that
//! the library emits. Nothing is claimed of the machine code that Cranelift
//! makes of the instructions.

use crate::codegen::backend::{Emitted, SlotShape};
use crate::codegen::emit::{are_distinct_values, are_word_slots, is_main_of, translated, translation};
use crate::codegen::ir::{
    apply, function_valid, initial_machine, instruction_valid, outcome, produces_value, run, step,
    stored_before, stores_to, Instruction, Machine,
};
use crate::syntax::ast::BinaryOperator;
use vstd::prelude::*;

verus! {

/// The state of a run of Cranelift instructions: the values defined so
/// far, the content of the slots written so far, and the value returned,
/// once the function has returned.
pub ghost struct Frame {
    pub values: Map<u32, i64>,
    pub memory: Map<u32, i64>,
    pub returned: Option<i64>,
}

/// The state in which a function starts: no value is defined and no slot
/// is written.
pub open spec fn initial_frame() -> Frame {
    Frame { values: Map::empty(), memory: Map::empty(), returned: None }
}

/// `frame` with one more value.
pub open spec fn defining(frame: Frame, result: u32, value: i64) -> Frame {
    Frame { values: frame.values.insert(result, value), memory: frame.memory, returned: frame.returned }
}

/// The state after an arithmetic instruction, or `None` where it traps or
/// an operand is not defined.
pub open spec fn calculating(
    frame: Frame,
    operator: BinaryOperator,
    result: u32,
    left: u32,
    right: u32,
) -> Option<Frame> {
    if frame.values.dom().contains(left) && frame.values.dom().contains(right) {
        match apply(operator, frame.values[left], frame.values[right]) {
            Some(value) => Some(defining(frame, result, value)),
            None => None,
        }
    } else {
        None
    }
}

/// The state after one instruction, or `None`: where it traps, where it
/// reads a value that is not defined or a slot that is not written, where
/// it comes after the return, or where it is not about a whole 64-bit
/// integer.
pub open spec fn perform(frame: Frame, instruction: Emitted) -> Option<Frame> {
    if frame.returned is Some {
        None
    } else {
        match instruction {
            Emitted::Constant { result, bits, immediate } => if bits == 64 {
                Some(defining(frame, result, immediate))
            } else {
                None
            },
            Emitted::Load { result, bits, slot, offset } => if bits == 64 && offset == 0
                && frame.memory.dom().contains(slot) {
                Some(defining(frame, result, frame.memory[slot]))
            } else {
                None
            },
            Emitted::Store { value, slot, offset } => if offset == 0 && frame.values.dom().contains(
                value,
            ) {
                Some(
                    Frame {
                        values: frame.values,
                        memory: frame.memory.insert(slot, frame.values[value]),
                        returned: frame.returned,
                    },
                )
            } else {
                None
            },
            Emitted::Add { result, left, right } => calculating(
                frame,
                BinaryOperator::Add,
                result,
                left,
                right,
            ),
            Emitted::Subtract { result, left, right } => calculating(
                frame,
                BinaryOperator::Subtract,
                result,
                left,
                right,
            ),
            Emitted::Multiply { result, left, right } => calculating(
                frame,
                BinaryOperator::Multiply,
                result,
                left,
                right,
            ),
            Emitted::SignedDivide { result, left, right } => calculating(
                frame,
                BinaryOperator::Divide,
                result,
                left,
                right,
            ),
            Emitted::Return { value } => if frame.values.dom().contains(value) {
                Some(
                    Frame {
                        values: frame.values,
                        memory: frame.memory,
                        returned: Some(frame.values[value]),
                    },
                )
            } else {
                None
            },
        }
    }
}

/// The state after a list of instructions, executed in order from `frame`,
/// or `None` where one of them has no state to go to.
pub open spec fn perform_all(code: Seq<Emitted>, frame: Frame) -> Option<Frame>
    decreases code.len(),
{
    if code.len() == 0 {
        Some(frame)
    } else {
        match perform_all(code.drop_last(), frame) {
            Some(before) => perform(before, code.last()),
            None => None,
        }
    }
}

/// What a function with the instructions `code` returns, or `None` where
/// it traps or does not return.
pub open spec fn native_outcome(code: Seq<Emitted>) -> Option<i64> {
    match perform_all(code, initial_frame()) {
        Some(frame) => frame.returned,
        None => None,
    }
}

/// Whether `frame` holds what `machine` holds after the first `count`
/// instructions of `body`: the value of every instruction that produces
/// one, and the content of every slot that has been written.
pub open spec fn mirrors(
    frame: Frame,
    machine: Machine,
    body: Seq<Instruction>,
    slots: Seq<u32>,
    values: Seq<u32>,
    count: int,
) -> bool {
    &&& frame.returned is None
    &&& machine.values.len() == count
    &&& machine.slots.len() == slots.len()
    &&& forall|i: int|
        0 <= i < count && produces_value(body, i) ==> frame.values.dom().contains(
            #[trigger] values[i],
        ) && frame.values[values[i]] == machine.values[i]
    &&& forall|slot: usize|
        slot < slots.len() && #[trigger] stored_before(body, count, slot)
            ==> frame.memory.dom().contains(slots[slot as int]) && frame.memory[slots[slot as int]]
            == machine.slots[slot as int]
}

/// What the runs of the first `count` instructions have in common: both
/// trap, or the frame mirrors the machine.
pub open spec fn runs_agree(
    body: Seq<Instruction>,
    slots: Seq<u32>,
    values: Seq<u32>,
    count: int,
) -> bool {
    match run(body.take(count), initial_machine(slots.len())) {
        Some(machine) => perform_all(translation(body, slots, values, count), initial_frame())
            matches Some(frame) && mirrors(frame, machine, body, slots, values, count),
        None => perform_all(translation(body, slots, values, count), initial_frame()) is None,
    }
}

/// A slot that is written before the instruction after `count` was written
/// before `count`, unless the instruction at `count` writes it.
proof fn lemma_stored_earlier(body: Seq<Instruction>, count: int, slot: usize)
    requires
        0 <= count < body.len(),
        stored_before(body, count + 1, slot),
        !stores_to(body[count], slot),
    ensures
        stored_before(body, count, slot),
{
    let earlier = choose|earlier: int|
        0 <= earlier < count + 1 && earlier < body.len() && stores_to(#[trigger] body[earlier], slot);
    assert(earlier < count);
}

/// A slot that was written stays written.
proof fn lemma_stored_later(body: Seq<Instruction>, count: int, slot: usize)
    requires
        0 <= count < body.len(),
        stored_before(body, count, slot),
    ensures
        stored_before(body, count + 1, slot),
{
    let earlier = choose|earlier: int|
        0 <= earlier < count && earlier < body.len() && stores_to(#[trigger] body[earlier], slot);
    assert(stores_to(body[earlier], slot));
}

/// One instruction of the function and its Cranelift instruction keep the
/// frame a mirror of the machine, and trap together.
proof fn lemma_step_mirrored(
    frame: Frame,
    machine: Machine,
    body: Seq<Instruction>,
    slots: Seq<u32>,
    values: Seq<u32>,
    count: int,
)
    requires
        0 <= count < body.len(),
        values.len() == body.len(),
        slots.no_duplicates(),
        are_distinct_values(body, values),
        instruction_valid(body, slots.len(), count),
        mirrors(frame, machine, body, slots, values, count),
    ensures
        match step(machine, body[count]) {
            Some(after) => perform(frame, translated(body, slots, values, count)) matches Some(
                next,
            ) && mirrors(next, after, body, slots, values, count + 1),
            None => perform(frame, translated(body, slots, values, count)) is None,
        },
{
    let instruction = body[count];
    let emitted = translated(body, slots, values, count);
    if let Some(after) = step(machine, instruction) {
        let next = perform(frame, emitted)->Some_0;
        match instruction {
            Instruction::Store { source, slot } => {
                assert(produces_value(body, source as int));
                assert(frame.values.dom().contains(values[source as int]));
                assert(perform(frame, emitted) is Some);
                assert forall|other: usize|
                    other < slots.len() && #[trigger] stored_before(
                        body,
                        count + 1,
                        other,
                    ) implies next.memory.dom().contains(slots[other as int])
                    && next.memory[slots[other as int]] == after.slots[other as int] by {
                    if other != slot {
                        lemma_stored_earlier(body, count, other);
                        assert(slots[other as int] != slots[slot as int]);
                    }
                }
            },
            _ => {
                assert(produces_value(body, count));
                match instruction {
                    Instruction::Load { slot } => {
                        assert(stored_before(body, count, slot));
                    },
                    Instruction::Arithmetic { operator, left, right } => {
                        assert(produces_value(body, left as int));
                        assert(produces_value(body, right as int));
                        assert(frame.values.dom().contains(values[left as int]));
                        assert(frame.values.dom().contains(values[right as int]));
                    },
                    _ => {},
                }
                assert(perform(frame, emitted) is Some);
                assert forall|i: int| 0 <= i < count + 1 && produces_value(body, i) implies
                    next.values.dom().contains(#[trigger] values[i]) && next.values[values[i]]
                    == after.values[i] by {
                    if i < count {
                        assert(values[i] != values[count]);
                    }
                }
                assert forall|other: usize|
                    other < slots.len() && #[trigger] stored_before(
                        body,
                        count + 1,
                        other,
                    ) implies next.memory.dom().contains(slots[other as int])
                    && next.memory[slots[other as int]] == after.slots[other as int] by {
                    lemma_stored_earlier(body, count, other);
                }
            },
        }
    } else {
        match instruction {
            Instruction::Arithmetic { operator, left, right } => {
                assert(produces_value(body, left as int));
                assert(produces_value(body, right as int));
                assert(frame.values.dom().contains(values[left as int]));
                assert(frame.values.dom().contains(values[right as int]));
            },
            Instruction::Store { source, slot } => {
                assert(produces_value(body, source as int));
            },
            _ => {},
        }
    }
}

/// The first `count` instructions of a function and their Cranelift
/// instructions run alike.
proof fn lemma_runs_agree(
    body: Seq<Instruction>,
    slots: Seq<u32>,
    values: Seq<u32>,
    returned: nat,
    count: int,
)
    requires
        0 <= count <= body.len(),
        values.len() == body.len(),
        slots.no_duplicates(),
        are_distinct_values(body, values),
        function_valid(body, slots.len(), returned),
    ensures
        runs_agree(body, slots, values, count),
    decreases count,
{
    if count == 0 {
        assert(body.take(0) =~= Seq::<Instruction>::empty());
        assert(translation(body, slots, values, 0) =~= Seq::<Emitted>::empty());
        let machine = initial_machine(slots.len());
        assert forall|slot: usize|
            slot < slots.len() && #[trigger] stored_before(body, 0, slot) implies false by {}
    } else {
        let before = count - 1;
        lemma_runs_agree(body, slots, values, returned, before);
        assert(body.take(count).drop_last() =~= body.take(before));
        assert(body.take(count).last() == body[before]);
        let code = translation(body, slots, values, count);
        assert(code.drop_last() =~= translation(body, slots, values, before));
        assert(code.last() == translated(body, slots, values, before));
        if let Some(machine) = run(body.take(before), initial_machine(slots.len())) {
            let frame = perform_all(translation(body, slots, values, before), initial_frame())->Some_0;
            assert(instruction_valid(body, slots.len(), before));
            lemma_step_mirrored(frame, machine, body, slots, values, before);
        }
    }
}

/// The function `main` that the library builds for a function of the
/// intermediate representation returns what that function returns, and
/// traps where it traps: the Cranelift instructions that are emitted mean
/// what the function means.
pub proof fn lemma_main_returns_the_outcome(
    body: Seq<Instruction>,
    slot_count: nat,
    returned: nat,
    made: Map<u32, SlotShape>,
    code: Seq<Emitted>,
)
    requires
        function_valid(body, slot_count, returned),
        is_main_of(body, slot_count, returned, made, code),
    ensures
        native_outcome(code) == outcome(body, slot_count, returned),
{
    let (slots, values) = choose|slots: Seq<u32>, values: Seq<u32>|
        {
            &&& slots.len() == slot_count
            &&& are_word_slots(made, slots)
            &&& made.dom() == slots.to_set()
            &&& values.len() == body.len()
            &&& are_distinct_values(body, values)
            &&& #[trigger] translation(body, slots, values, body.len() as int).push(
                Emitted::Return { value: values[returned as int] },
            ) == code
        };
    let count = body.len() as int;
    let filled = translation(body, slots, values, count);
    lemma_runs_agree(body, slots, values, returned, count);
    assert(body.take(count) =~= body);
    assert(code.drop_last() =~= filled);
    assert(code.last() == (Emitted::Return { value: values[returned as int] }));
    if let Some(machine) = run(body, initial_machine(slot_count)) {
        let frame = perform_all(filled, initial_frame())->Some_0;
        assert(produces_value(body, returned as int));
        assert(frame.values.dom().contains(values[returned as int]));
    }
}

} // verus!
