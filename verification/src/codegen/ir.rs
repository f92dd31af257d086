use crate::syntax::ast::BinaryOperator;
use vstd::prelude::*;

verus! {

/// One instruction of the intermediate representation. The instructions of
/// a function form a list that only grows; the value that an instruction
/// produces is known by the instruction's index in that list and never
/// changes. Variables live in storage slots, which are known by their
/// index in the function's table of slots.
#[derive(Debug, Clone, Copy, PartialEq, Eq)]
pub enum Instruction {
    /// Produces the given 64-bit integer.
    Constant { value: i64 },
    /// Produces the content of a slot.
    Load { slot: usize },
    /// Writes a value to a slot. It produces no value of its own.
    Store { source: usize, slot: usize },
    /// Produces the sum, difference, product or signed quotient of two
    /// values.
    Arithmetic { operator: BinaryOperator, left: usize, right: usize },
}

/// The result of an arithmetic instruction. Sums, differences and products
/// wrap around in 64 bits. A quotient is rounded towards zero; a division
/// by zero, or one whose quotient does not fit in 64 bits, traps, which is
/// `None` here.
pub open spec fn apply(operator: BinaryOperator, left: i64, right: i64) -> Option<i64> {
    match operator {
        BinaryOperator::Add => Some(left.wrapping_add(right)),
        BinaryOperator::Subtract => Some(left.wrapping_sub(right)),
        BinaryOperator::Multiply => Some(left.wrapping_mul(right)),
        BinaryOperator::Divide => left.checked_div(right),
    }
}

/// The state of a run: the value of every instruction executed so far, in
/// order (zero for a store), and the content of every slot.
pub ghost struct Machine {
    pub values: Seq<i64>,
    pub slots: Seq<i64>,
}

/// The state in which a function with `slot_count` slots starts.
pub open spec fn initial_machine(slot_count: nat) -> Machine {
    Machine { values: Seq::empty(), slots: Seq::new(slot_count, |i: int| 0i64) }
}

/// `machine` with one more value.
pub open spec fn with_value(machine: Machine, value: i64) -> Machine {
    Machine { values: machine.values.push(value), slots: machine.slots }
}

/// The state after one instruction, or `None` where it traps. An
/// instruction that refers to a value or a slot that does not exist traps
/// too.
pub open spec fn step(machine: Machine, instruction: Instruction) -> Option<Machine> {
    match instruction {
        Instruction::Constant { value } => Some(with_value(machine, value)),
        Instruction::Load { slot } => if slot < machine.slots.len() {
            Some(with_value(machine, machine.slots[slot as int]))
        } else {
            None
        },
        Instruction::Store { source, slot } => if source < machine.values.len() && slot
            < machine.slots.len() {
            Some(
                Machine {
                    values: machine.values.push(0),
                    slots: machine.slots.update(slot as int, machine.values[source as int]),
                },
            )
        } else {
            None
        },
        Instruction::Arithmetic { operator, left, right } => if left < machine.values.len() && right
            < machine.values.len() {
            match apply(operator, machine.values[left as int], machine.values[right as int]) {
                Some(value) => Some(with_value(machine, value)),
                None => None,
            }
        } else {
            None
        },
    }
}

/// The state after a list of instructions, executed in order from
/// `machine`, or `None` where one of them traps.
pub open spec fn run(instructions: Seq<Instruction>, machine: Machine) -> Option<Machine>
    decreases instructions.len(),
{
    if instructions.len() == 0 {
        Some(machine)
    } else {
        match run(instructions.drop_last(), machine) {
            Some(before) => step(before, instructions.last()),
            None => None,
        }
    }
}

/// What a function returns when it runs: the value of the instruction
/// `result`, or `None` where the run traps.
pub open spec fn outcome(body: Seq<Instruction>, slot_count: nat, result: nat) -> Option<i64> {
    match run(body, initial_machine(slot_count)) {
        Some(machine) => Some(machine.values[result as int]),
        None => None,
    }
}

/// Whether the instruction at `index` produces a value.
pub open spec fn produces_value(body: Seq<Instruction>, index: int) -> bool {
    0 <= index < body.len() && !(body[index] is Store)
}

/// Whether `instruction` writes to `slot`.
pub open spec fn stores_to(instruction: Instruction, slot: usize) -> bool {
    instruction matches Instruction::Store { slot: target, .. } && target == slot
}

/// Whether some instruction before `index` stores to `slot`.
pub open spec fn stored_before(body: Seq<Instruction>, index: int, slot: usize) -> bool {
    exists|earlier: int|
        0 <= earlier < index && earlier < body.len() && stores_to(#[trigger] body[earlier], slot)
}

/// Whether the instruction at `index` refers only to what exists when it
/// runs: to values that earlier instructions produce, and to slots of the
/// function. A load reads a slot that an earlier instruction has written.
pub open spec fn instruction_valid(body: Seq<Instruction>, slot_count: nat, index: int) -> bool {
    match body[index] {
        Instruction::Constant { .. } => true,
        Instruction::Load { slot } => slot < slot_count && stored_before(body, index, slot),
        Instruction::Store { source, slot } => source < index && produces_value(
            body,
            source as int,
        ) && slot < slot_count,
        Instruction::Arithmetic { left, right, .. } => left < index && produces_value(
            body,
            left as int,
        ) && right < index && produces_value(body, right as int),
    }
}

/// Whether every instruction of a function is valid and the function
/// returns a value that one of them produces.
pub open spec fn function_valid(body: Seq<Instruction>, slot_count: nat, result: nat) -> bool {
    &&& forall|index: int| 0 <= index < body.len() ==> instruction_valid(body, slot_count, index)
    &&& produces_value(body, result as int)
}

/// A run over a list with one more instruction is a run over the list,
/// then that instruction.
pub proof fn lemma_run_push(instructions: Seq<Instruction>, last: Instruction, machine: Machine)
    ensures
        run(instructions.push(last), machine) == match run(instructions, machine) {
            Some(before) => step(before, last),
            None => None,
        },
{
    assert(instructions.push(last).drop_last() =~= instructions);
}

/// A run over two lists, one after the other, is a run over the first, then
/// a run over the second from where the first ended.
pub proof fn lemma_run_concat(first: Seq<Instruction>, second: Seq<Instruction>, machine: Machine)
    ensures
        run(first + second, machine) == match run(first, machine) {
            Some(between) => run(second, between),
            None => None,
        },
    decreases second.len(),
{
    if second.len() == 0 {
        assert(first + second =~= first);
    } else {
        assert((first + second).drop_last() =~= first + second.drop_last());
        lemma_run_concat(first, second.drop_last(), machine);
    }
}

/// A run executes one instruction per value and does not change the number
/// of slots.
pub proof fn lemma_run_shape(instructions: Seq<Instruction>, machine: Machine)
    ensures
        run(instructions, machine) matches Some(after) ==> after.values.len() == machine.values.len()
            + instructions.len() && after.slots.len() == machine.slots.len()
            && after.values.take(machine.values.len() as int) == machine.values,
    decreases instructions.len(),
{
    if instructions.len() > 0 {
        lemma_run_shape(instructions.drop_last(), machine);
        if let Some(before) = run(instructions.drop_last(), machine) {
            if let Some(after) = step(before, instructions.last()) {
                assert(after.values.take(machine.values.len() as int) =~= before.values.take(
                    machine.values.len() as int,
                ));
            }
        }
    } else {
        assert(machine.values.take(machine.values.len() as int) =~= machine.values);
    }
}


/// Once a run has trapped, it stays trapped however many instructions
/// follow.
pub proof fn lemma_trap_is_final(instructions: Seq<Instruction>, machine: Machine, reached: int)
    requires
        0 <= reached <= instructions.len(),
        run(instructions.take(reached), machine) is None,
    ensures
        run(instructions, machine) is None,
{
    assert(instructions =~= instructions.take(reached) + instructions.skip(reached));
    lemma_run_concat(instructions.take(reached), instructions.skip(reached), machine);
}

/// A function of the intermediate representation: its instructions, the
/// number of its storage slots, and the index of the instruction whose
/// value it returns. Every function is valid in the sense of
/// [`function_valid`].
#[derive(Debug)]
pub struct IrFunction {
    instructions: Vec<Instruction>,
    slot_count: usize,
    result: usize,
}

impl IrFunction {
    #[verifier::type_invariant]
    spec fn valid(&self) -> bool {
        function_valid(self.instructions@, self.slot_count as nat, self.result as nat)
    }

    /// The instructions, in the order in which they run.
    pub closed spec fn body(&self) -> Seq<Instruction> {
        self.instructions@
    }

    /// The number of storage slots.
    pub closed spec fn slots(&self) -> nat {
        self.slot_count as nat
    }

    /// The index of the instruction whose value the function returns.
    pub closed spec fn returned(&self) -> nat {
        self.result as nat
    }

    /// The function with the given parts.
    pub(crate) fn new(instructions: Vec<Instruction>, slot_count: usize, result: usize) -> (function:
        Self)
        requires
            function_valid(instructions@, slot_count as nat, result as nat),
        ensures
            function.body() == instructions@,
            function.slots() == slot_count,
            function.returned() == result,
    {
        IrFunction { instructions, slot_count, result }
    }

    /// The instructions, in the order in which they run.
    pub fn instructions(&self) -> (instructions: &Vec<Instruction>)
        ensures
            instructions@ == self.body(),
            function_valid(self.body(), self.slots(), self.returned()),
    {
        proof {
            use_type_invariant(self);
        }
        &self.instructions
    }

    /// The number of storage slots.
    pub fn slot_count(&self) -> (count: usize)
        ensures
            count == self.slots(),
    {
        self.slot_count
    }

    /// The index of the instruction whose value the function returns.
    pub fn result(&self) -> (index: usize)
        ensures
            index == self.returned(),
            index < self.body().len(),
    {
        proof {
            use_type_invariant(self);
        }
        self.result
    }

    /// Runs the function and gives the value that it returns, or `None`
    /// where it traps.
    pub fn evaluate(&self) -> (value: Option<i64>)
        ensures
            value == outcome(self.body(), self.slots(), self.returned()),
    {
        proof {
            use_type_invariant(self);
        }
        let mut slots: Vec<i64> = Vec::new();
        while slots.len() < self.slot_count
            invariant
                slots.len() <= self.slot_count,
                forall|i: int| 0 <= i < slots.len() ==> slots[i] == 0,
            decreases self.slot_count - slots.len(),
        {
            slots.push(0);
        }
        assert(slots@ =~= initial_machine(self.slot_count as nat).slots);
        let mut values: Vec<i64> = Vec::new();
        let mut index: usize = 0;
        assert(self.instructions@.take(0) =~= Seq::<Instruction>::empty());
        while index < self.instructions.len()
            invariant
                index <= self.instructions.len(),
                function_valid(self.instructions@, self.slot_count as nat, self.result as nat),
                values.len() == index,
                slots.len() == self.slot_count,
                run(self.instructions@.take(index as int), initial_machine(self.slot_count as nat))
                    == Some(Machine { values: values@, slots: slots@ }),
            decreases self.instructions.len() - index,
        {
            let ghost before = Machine { values: values@, slots: slots@ };
            proof {
                assert(self.instructions@.take(index as int + 1) =~= self.instructions@.take(
                    index as int,
                ).push(self.instructions@[index as int]));
                lemma_run_push(
                    self.instructions@.take(index as int),
                    self.instructions@[index as int],
                    initial_machine(self.slot_count as nat),
                );
                assert(instruction_valid(self.instructions@, self.slot_count as nat, index as int));
            }
            match self.instructions[index] {
                Instruction::Constant { value } => {
                    values.push(value);
                },
                Instruction::Load { slot } => {
                    values.push(slots[slot]);
                },
                Instruction::Store { source, slot } => {
                    slots[slot] = values[source];
                    values.push(0);
                },
                Instruction::Arithmetic { operator, left, right } => {
                    match compute(operator, values[left], values[right]) {
                        Some(value) => {
                            values.push(value);
                        },
                        None => {
                            proof {
                                lemma_trap_is_final(
                                    self.instructions@,
                                    initial_machine(self.slot_count as nat),
                                    index as int + 1,
                                );
                            }
                            return None;
                        },
                    }
                },
            }
            index += 1;
        }
        assert(self.instructions@.take(index as int) =~= self.instructions@);
        Some(values[self.result])
    }
}

/// The result of an arithmetic instruction, or `None` where it traps.
pub fn compute(operator: BinaryOperator, left: i64, right: i64) -> (value: Option<i64>)
    ensures
        value == apply(operator, left, right),
{
    match operator {
        BinaryOperator::Add => Some(left.wrapping_add(right)),
        BinaryOperator::Subtract => Some(left.wrapping_sub(right)),
        BinaryOperator::Multiply => Some(left.wrapping_mul(right)),
        BinaryOperator::Divide => left.checked_div(right),
    }
}

} // verus!
