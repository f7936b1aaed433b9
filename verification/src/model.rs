//! The mathematical machine: what a state is and what one instruction does
//! to it. The executable machine is specified against these definitions.

use vstd::prelude::*;
use crate::platter::{decoded, Instruction};

verus! {

/// A condition under which the instruction set defines no outcome. The
/// machine refuses to execute an instruction that would meet one.
#[derive(Clone, Copy, Debug, PartialEq, Eq)]
pub enum Fault {
    /// The instruction counter cannot count one more instruction.
    CounterExhausted,
    /// The execution finger points past the end of the program.
    FingerOutOfRange,
    /// An array handle or an offset into an array is out of range.
    ArrayOutOfRange,
    /// The divisor of a division is zero.
    DivisionByZero,
    /// No freed handle is left for reuse and every 32-bit handle is taken.
    HandlesExhausted,
    /// The handle to abandon is 0, out of range, or already free.
    InvalidAbandon,
}

/// What the host has to do after an instruction was executed.
#[derive(Clone, Copy, Debug, PartialEq, Eq)]
pub enum Action {
    /// Nothing: the machine can go on.
    Continue,
    /// Write this byte to the output and flush it.
    Output(u8),
    /// Obtain one byte of input and deliver it to this register.
    Input(usize),
    /// The machine has halted.
    Halt,
}

/// The state of a machine as a mathematical value.
pub struct MachineModel {
    /// Instructions executed so far.
    pub count: nat,
    /// The eight registers.
    pub registers: Seq<u32>,
    /// The arrays, each at the index that is its handle. Array 0 is the program.
    pub arrays: Seq<Seq<u32>>,
    /// The abandoned handles, the most recently abandoned last.
    pub free_handles: Seq<u32>,
    /// Index into the program of the next platter to fetch.
    pub finger: nat,
    /// Set by the halt instruction, never cleared.
    pub halted: bool,
}

/// An array of `n` words, all zero.
pub open spec fn zeros(n: nat) -> Seq<u32> {
    Seq::new(n, |i: int| 0u32)
}

/// Addition modulo 2^32.
pub open spec fn sum_mod(x: u32, y: u32) -> u32 {
    ((x + y) % 0x1_0000_0000) as u32
}

/// Multiplication modulo 2^32.
pub open spec fn product_mod(x: u32, y: u32) -> u32 {
    ((x * y) % 0x1_0000_0000) as u32
}

/// The value that an input event leaves in a register: the byte, or all
/// ones at the end of the stream.
pub open spec fn input_value(byte: Option<u8>) -> u32 {
    match byte {
        Some(b) => b as u32,
        None => 0xffff_ffff,
    }
}

impl MachineModel {
    /// The state in which a machine starts on `program`.
    pub open spec fn initial(program: Seq<u32>) -> MachineModel {
        MachineModel {
            count: 0,
            registers: Seq::new(8, |i: int| 0u32),
            arrays: seq![program],
            free_handles: Seq::empty(),
            finger: 0,
            halted: false,
        }
    }

    /// The invariant of the array store: the program exists, and the free
    /// handles are distinct, never 0, in range, and bound to empty arrays.
    pub open spec fn wf(self) -> bool {
        &&& self.registers.len() == 8
        &&& self.arrays.len() >= 1
        &&& self.free_handles.no_duplicates()
        &&& forall|i: int|
            0 <= i < self.free_handles.len() ==> {
                &&& 0 < #[trigger] self.free_handles[i] < self.arrays.len()
                &&& self.arrays[self.free_handles[i] as int].len() == 0
            }
    }

    /// A handle is live when it is in range and has not been abandoned.
    pub open spec fn live(self, handle: u32) -> bool {
        handle < self.arrays.len() && !self.free_handles.contains(handle)
    }

    /// Whether an allocation can be given a handle.
    pub open spec fn can_allocate(self) -> bool {
        self.free_handles.len() > 0 || self.arrays.len() <= u32::MAX
    }

    /// The handle that the next allocation returns: the most recently
    /// abandoned one, or else the number of arrays.
    pub open spec fn next_handle(self) -> u32 {
        if self.free_handles.len() > 0 {
            self.free_handles.last()
        } else {
            self.arrays.len() as u32
        }
    }

    /// The state after allocating `n` words: `next_handle()` is bound to
    /// exactly `n` zeros, whatever it held before.
    pub open spec fn allocate(self, n: u32) -> MachineModel {
        if self.free_handles.len() > 0 {
            MachineModel {
                arrays: self.arrays.update(self.free_handles.last() as int, zeros(n as nat)),
                free_handles: self.free_handles.drop_last(),
                ..self
            }
        } else {
            MachineModel { arrays: self.arrays.push(zeros(n as nat)), ..self }
        }
    }

    /// Whether `handle` may be abandoned.
    pub open spec fn can_free(self, handle: u32) -> bool {
        handle != 0 && self.live(handle)
    }

    /// The state after abandoning `handle`: its contents are gone and it
    /// is the first to be reused.
    pub open spec fn free(self, handle: u32) -> MachineModel {
        MachineModel {
            arrays: self.arrays.update(handle as int, Seq::empty()),
            free_handles: self.free_handles.push(handle),
            ..self
        }
    }

    /// Whether `arrays[handle][offset]` exists.
    pub open spec fn addressable(self, handle: u32, offset: u32) -> bool {
        handle < self.arrays.len() && offset < self.arrays[handle as int].len()
    }

    /// The state with one register replaced.
    pub open spec fn with_register(self, index: usize, value: u32) -> MachineModel {
        MachineModel { registers: self.registers.update(index as int, value), ..self }
    }

    /// The state with one more instruction counted.
    pub open spec fn counted(self) -> MachineModel {
        MachineModel { count: self.count + 1, ..self }
    }

    /// The state after an input event for register `index`: the register
    /// holds what the event brought, and the input instruction, now
    /// complete, is counted.
    pub open spec fn deliver(self, index: usize, byte: Option<u8>) -> MachineModel {
        self.with_register(index, input_value(byte)).counted()
    }

    /// The instruction under the execution finger.
    pub open spec fn current(self) -> Instruction {
        decoded(self.arrays[0][self.finger as int])
    }

    /// The state after the fetch: the finger on the following platter.
    pub open spec fn fetched(self) -> MachineModel {
        MachineModel { finger: self.finger + 1, ..self }
    }

    /// The fault, if any, that executing `ins` in this state would meet.
    pub open spec fn execution_fault(self, ins: Instruction) -> Option<Fault> {
        let r = self.registers;
        match ins {
            Instruction::ArrayIndex { a, b, c } => if self.addressable(r[b as int], r[c as int]) {
                None
            } else {
                Some(Fault::ArrayOutOfRange)
            },
            Instruction::ArrayAmend { a, b, c } => if self.addressable(r[a as int], r[b as int]) {
                None
            } else {
                Some(Fault::ArrayOutOfRange)
            },
            Instruction::Divide { a, b, c } => if r[c as int] != 0 {
                None
            } else {
                Some(Fault::DivisionByZero)
            },
            Instruction::Allocate { b, c } => if self.can_allocate() {
                None
            } else {
                Some(Fault::HandlesExhausted)
            },
            Instruction::Abandon { c } => if self.can_free(r[c as int]) {
                None
            } else {
                Some(Fault::InvalidAbandon)
            },
            Instruction::LoadProgram { b, c } => if r[b as int] < self.arrays.len() {
                None
            } else {
                Some(Fault::ArrayOutOfRange)
            },
            _ => None,
        }
    }

    /// The state after executing `ins`, where that meets no fault.
    pub open spec fn execute(self, ins: Instruction) -> MachineModel {
        let r = self.registers;
        match ins {
            Instruction::ConditionalMove { a, b, c } => if r[c as int] != 0 {
                self.with_register(a, r[b as int])
            } else {
                self
            },
            Instruction::ArrayIndex { a, b, c } => self.with_register(
                a,
                self.arrays[r[b as int] as int][r[c as int] as int],
            ),
            Instruction::ArrayAmend { a, b, c } => MachineModel {
                arrays: self.arrays.update(
                    r[a as int] as int,
                    self.arrays[r[a as int] as int].update(r[b as int] as int, r[c as int]),
                ),
                ..self
            },
            Instruction::Add { a, b, c } => self.with_register(
                a,
                sum_mod(r[b as int], r[c as int]),
            ),
            Instruction::Multiply { a, b, c } => self.with_register(
                a,
                product_mod(r[b as int], r[c as int]),
            ),
            Instruction::Divide { a, b, c } => self.with_register(a, r[b as int] / r[c as int]),
            Instruction::NotAnd { a, b, c } => self.with_register(a, !(r[b as int] & r[c as int])),
            Instruction::Halt => MachineModel { halted: true, ..self },
            Instruction::Allocate { b, c } => self.allocate(r[c as int]).with_register(
                b,
                self.next_handle(),
            ),
            Instruction::Abandon { c } => self.free(r[c as int]),
            Instruction::Output { c } => self,
            Instruction::Input { c } => self,
            Instruction::LoadProgram { b, c } => MachineModel {
                finger: r[c as int] as nat,
                arrays: if r[b as int] != 0 {
                    self.arrays.update(0, self.arrays[r[b as int] as int])
                } else {
                    self.arrays
                },
                ..self
            },
            Instruction::Orthography { reg, value } => self.with_register(reg, value),
            Instruction::Undefined => self,
        }
    }

    /// What executing `ins` in this state asks of the host.
    pub open spec fn action_of(self, ins: Instruction) -> Action {
        match ins {
            Instruction::Halt => Action::Halt,
            Instruction::Output { c } => Action::Output((self.registers[c as int] & 0xff) as u8),
            Instruction::Input { c } => Action::Input(c),
            _ => Action::Continue,
        }
    }

    /// The fault, if any, that stands in the way of the next step.
    pub open spec fn fault(self) -> Option<Fault> {
        if self.count >= usize::MAX {
            Some(Fault::CounterExhausted)
        } else if self.finger >= self.arrays[0].len() {
            Some(Fault::FingerOutOfRange)
        } else {
            self.fetched().execution_fault(self.current())
        }
    }

    /// The state after one step: fetch, execute, then count the
    /// instruction. An input instruction is complete, and counted, only
    /// when its byte is delivered: until then the state is the one from
    /// before the input, with the finger moved on.
    pub open spec fn step(self) -> MachineModel {
        let executed = self.fetched().execute(self.current());
        if self.current() is Input {
            executed
        } else {
            executed.counted()
        }
    }

    /// Whether the next step can be taken and asks nothing of the host.
    pub open spec fn quiet(self) -> bool {
        !self.halted && self.fault() is None && self.action() == Action::Continue
    }

    /// The state after `k` steps.
    pub open spec fn steps(self, k: nat) -> MachineModel
        decreases k,
    {
        if k == 0 {
            self
        } else {
            self.step().steps((k - 1) as nat)
        }
    }

    /// What that step asks of the host.
    pub open spec fn action(self) -> Action {
        self.fetched().action_of(self.current())
    }

    /// Where running for at most `budget` steps ends, and why: on a halt
    /// (`Ok(Halt)`, also for a machine that had halted before), on a fault
    /// (the state is the one before the refused step), on an instruction
    /// that needs the host, or with the budget used up (`Ok(Continue)`).
    pub open spec fn run(self, budget: nat) -> (MachineModel, Result<Action, Fault>)
        decreases budget,
    {
        if self.halted {
            (self, Ok(Action::Halt))
        } else if budget == 0 {
            (self, Ok(Action::Continue))
        } else if self.fault() is Some {
            (self, Err(self.fault().unwrap()))
        } else if self.action() != Action::Continue {
            (self.step(), Ok(self.action()))
        } else {
            self.step().run((budget - 1) as nat)
        }
    }
}

} // verus!
