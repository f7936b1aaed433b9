//! The executable machine: its state, the array store, and the
//! fetch-decode-execute step.

use vstd::prelude::*;
use std::sync::mpsc::Receiver;
use crate::model::{product_mod, sum_mod, zeros, Action, Fault, MachineModel};
use crate::platter::{decode, Instruction};
use crate::control::Command;
use crate::laws::{lemma_allocate, lemma_free, lemma_run, lemma_step_keeps_wf};

verus! {

/// Everything a snapshot captures: registers, arrays, free handles,
/// execution finger, halt flag and instruction counter.
#[derive(Debug)]
pub struct MachineState {
    pub(crate) count: usize,
    pub(crate) registers: [u32; 8],
    pub(crate) arrays: Vec<Vec<u32>>,
    pub(crate) array_list: Vec<u32>,
    pub(crate) execution_finger: usize,
    pub(crate) halted: bool,
}

/// A machine: its state, and the inlet on which a controller sends commands.
pub struct Machine {
    pub(crate) state: MachineState,
    pub(crate) command_receiver: Receiver<Command>,
}

/// The contents of a store of arrays, array by array.
pub open spec fn contents(arrays: Seq<Vec<u32>>) -> Seq<Seq<u32>> {
    Seq::new(arrays.len(), |i: int| arrays[i]@)
}

impl View for MachineState {
    type V = MachineModel;

    closed spec fn view(&self) -> MachineModel {
        MachineModel {
            count: self.count as nat,
            registers: self.registers@,
            arrays: contents(self.arrays@),
            free_handles: self.array_list@,
            finger: self.execution_finger as nat,
            halted: self.halted,
        }
    }
}

impl MachineState {
    /// The invariant that every constructor establishes and every
    /// operation keeps.
    pub open spec fn wf(&self) -> bool {
        self@.wf()
    }

    /// The view, field by field.
    pub(crate) proof fn lemma_view(&self)
        ensures
            self@ == (MachineModel {
                count: self.count as nat,
                registers: self.registers@,
                arrays: contents(self.arrays@),
                free_handles: self.array_list@,
                finger: self.execution_finger as nat,
                halted: self.halted,
            }),
    {
    }

    /// The number of instructions executed so far.
    pub fn instruction_count(&self) -> (n: usize)
        ensures
            n == self@.count,
    {
        self.count
    }

    /// The index of the next platter to fetch.
    pub fn execution_finger(&self) -> (n: usize)
        ensures
            n == self@.finger,
    {
        self.execution_finger
    }

    /// Whether the machine has halted.
    pub fn is_halted(&self) -> (b: bool)
        ensures
            b == self@.halted,
    {
        self.halted
    }

    /// The eight registers.
    pub fn registers(&self) -> (r: [u32; 8])
        ensures
            r@ == self@.registers,
    {
        self.registers
    }

    /// The number of handles in range, abandoned ones included.
    pub fn array_count(&self) -> (n: usize)
        ensures
            n == self@.arrays.len(),
    {
        self.arrays.len()
    }

    /// The array at `handle`, if the handle is in range. An abandoned
    /// handle has an empty array.
    pub fn array(&self, handle: u32) -> (a: Option<&Vec<u32>>)
        ensures
            a is Some <==> handle < self@.arrays.len(),
            a matches Some(words) ==> words@ == self@.arrays[handle as int],
    {
        if (handle as usize) < self.arrays.len() {
            Some(&self.arrays[handle as usize])
        } else {
            None
        }
    }

    /// The abandoned handles, the next to be reused last.
    pub fn free_handles(&self) -> (handles: &Vec<u32>)
        ensures
            handles@ == self@.free_handles,
    {
        &self.array_list
    }
}

impl View for Machine {
    type V = MachineModel;

    closed spec fn view(&self) -> MachineModel {
        self.state@
    }
}

/// Starts a machine on `program`, which becomes array 0, with all
/// registers zero, the finger on the first platter, and `command_receiver`
/// as its inlet.
pub fn init(program: Vec<u32>, command_receiver: Receiver<Command>) -> (machine: Machine)
    ensures
        machine.wf(),
        machine@ == MachineModel::initial(program@),
        machine.inlet() == command_receiver,
{
    let mut arrays: Vec<Vec<u32>> = Vec::new();
    arrays.push(program);
    let machine = Machine {
        state: MachineState {
            count: 0,
            registers: [0;8],
            arrays,
            array_list: Vec::new(),
            execution_finger: 0,
            halted: false,
        },
        command_receiver,
    };
    assert(machine@.registers =~= MachineModel::initial(program@).registers);
    assert(machine@.arrays =~= MachineModel::initial(program@).arrays);
    assert(machine@.free_handles =~= MachineModel::initial(program@).free_handles);
    machine
}

impl Machine {
    /// The invariant that `init` establishes and every operation keeps.
    pub open spec fn wf(&self) -> bool {
        self@.wf()
    }

    /// The inlet on which the machine receives its commands. No operation
    /// replaces it.
    pub closed spec fn inlet(&self) -> Receiver<Command> {
        self.command_receiver
    }

    /// The view of a machine is that of its state, and its inlet is the
    /// receiver that it holds.
    pub(crate) proof fn lemma_view(&self)
        ensures
            self@ == self.state@,
            self.inlet() == self.command_receiver,
    {
    }

    /// The state of the machine.
    pub fn state(&self) -> (s: &MachineState)
        ensures
            s@ == self@,
    {
        &self.state
    }

    /// Whether `handle` is among the abandoned handles.
    fn is_free(&self, handle: u32) -> (found: bool)
        ensures
            found == self@.free_handles.contains(handle),
    {
        let mut i: usize = 0;
        while i < self.state.array_list.len()
            invariant
                i <= self.state.array_list@.len(),
                forall|j: int| 0 <= j < i ==> self.state.array_list@[j] != handle,
            decreases self.state.array_list@.len() - i,
        {
            if self.state.array_list[i] == handle {
                return true;
            }
            i += 1;
        }
        false
    }

    /// Binds a handle to a fresh array of `n` zero words and returns it.
    /// The most recently abandoned handle is reused if there is one;
    /// otherwise the handle is the number of arrays so far.
    pub fn allocate(&mut self, n: u32) -> (handle: u32)
        requires
            old(self).wf(),
            old(self)@.can_allocate(),
        ensures
            final(self).wf(),
            final(self).inlet() == old(self).inlet(),
            final(self)@ == old(self)@.allocate(n),
            handle == old(self)@.next_handle(),
            final(self)@.live(handle),
            final(self)@.arrays[handle as int] == zeros(n as nat),
    {
        let fresh: Vec<u32> = vec![0u32; n as usize];
        assert(fresh@ =~= zeros(n as nat));
        let ghost before = self@;
        proof {
            lemma_allocate(before, n);
        }
        if self.state.array_list.len() > 0 {
            let ix: u32 = self.state.array_list.pop().unwrap();
            self.state.arrays[ix as usize] = fresh;
            assert(self@.arrays =~= before.arrays.update(ix as int, zeros(n as nat)));
            assert(self@.free_handles =~= before.free_handles.drop_last());
            ix
        } else {
            let ix: usize = self.state.arrays.len();
            self.state.arrays.push(fresh);
            assert(self@.arrays =~= before.arrays.push(zeros(n as nat)));
            ix as u32
        }
    }

    /// Abandons `a`: its contents are discarded, and it becomes the first
    /// handle to be reused.
    pub fn free(&mut self, a: u32)
        requires
            old(self).wf(),
            old(self)@.can_free(a),
        ensures
            final(self).wf(),
            final(self).inlet() == old(self).inlet(),
            final(self)@ == old(self)@.free(a),
    {
        let ghost before = self@;
        proof {
            lemma_free(before, a);
        }
        self.state.arrays[a as usize] = Vec::new();
        self.state.array_list.push(a);
        assert(self@.arrays =~= before.arrays.update(a as int, Seq::empty()));
        assert(self@.free_handles =~= before.free_handles.push(a));
    }

    /// Whether `arrays[handle][offset]` exists.
    fn addressable(&self, handle: u32, offset: u32) -> (yes: bool)
        ensures
            yes == self@.addressable(handle, offset),
    {
        (handle as usize) < self.state.arrays.len() && (offset as usize)
            < self.state.arrays[handle as usize].len()
    }

    /// Tells whether the next step can be taken, and if not, why not.
    pub fn fault(&self) -> (f: Option<Fault>)
        requires
            self.wf(),
        ensures
            f == self@.fault(),
    {
        if self.state.count == usize::MAX {
            return Some(Fault::CounterExhausted);
        }
        if self.state.execution_finger >= self.state.arrays[0].len() {
            return Some(Fault::FingerOutOfRange);
        }
        let ins = decode(self.state.arrays[0][self.state.execution_finger]);
        let ghost next = self@.fetched();
        assert(next.registers == self@.registers && next.arrays == self@.arrays
            && next.free_handles == self@.free_handles);
        match ins {
            Instruction::ArrayIndex { a, b, c } => {
                if self.addressable(self.state.registers[b], self.state.registers[c]) {
                    None
                } else {
                    Some(Fault::ArrayOutOfRange)
                }
            },
            Instruction::ArrayAmend { a, b, c } => {
                if self.addressable(self.state.registers[a], self.state.registers[b]) {
                    None
                } else {
                    Some(Fault::ArrayOutOfRange)
                }
            },
            Instruction::Divide { a, b, c } => {
                if self.state.registers[c] != 0 {
                    None
                } else {
                    Some(Fault::DivisionByZero)
                }
            },
            Instruction::Allocate { b, c } => {
                if self.state.array_list.len() > 0 || self.state.arrays.len() <= 0xffff_ffff {
                    None
                } else {
                    Some(Fault::HandlesExhausted)
                }
            },
            Instruction::Abandon { c } => {
                let handle: u32 = self.state.registers[c];
                if handle != 0 && (handle as usize) < self.state.arrays.len() && !self.is_free(
                    handle,
                ) {
                    None
                } else {
                    Some(Fault::InvalidAbandon)
                }
            },
            Instruction::LoadProgram { b, c } => {
                if (self.state.registers[b] as usize) < self.state.arrays.len() {
                    None
                } else {
                    Some(Fault::ArrayOutOfRange)
                }
            },
            _ => None,
        }
    }

    /// Executes one instruction: fetches the platter under the finger,
    /// advances the finger, carries the instruction out, and counts it.
    /// Output and input are left to the host: the result says which byte
    /// to write, or which register awaits a byte. An input instruction
    /// changes nothing but the finger until `deliver` completes and counts
    /// it.
    pub fn step(&mut self) -> (action: Action)
        requires
            old(self).wf(),
            !old(self)@.halted,
            old(self)@.fault() is None,
        ensures
            final(self).wf(),
            final(self).inlet() == old(self).inlet(),
            final(self)@ == old(self)@.step(),
            action == old(self)@.action(),
    {
        let ghost before = self@;
        let program_len: usize = self.state.arrays[0].len();
        assert(self.state.execution_finger < program_len);
        let platter: u32 = self.state.arrays[0][self.state.execution_finger];
        self.state.execution_finger += 1;
        let ins = decode(platter);
        let ghost next = self@;
        assert(next == before.fetched());
        assert(ins == before.current());
        proof {
            lemma_step_keeps_wf(before);
        }
        let action: Action = match ins {
            Instruction::ConditionalMove { a, b, c } => {
                if self.state.registers[c] != 0 {
                    self.state.registers[a] = self.state.registers[b];
                }
                Action::Continue
            },
            Instruction::ArrayIndex { a, b, c } => {
                let handle: usize = self.state.registers[b] as usize;
                let offset: usize = self.state.registers[c] as usize;
                self.state.registers[a] = self.state.arrays[handle][offset];
                Action::Continue
            },
            Instruction::ArrayAmend { a, b, c } => {
                let handle: usize = self.state.registers[a] as usize;
                let offset: usize = self.state.registers[b] as usize;
                let value: u32 = self.state.registers[c];
                self.state.arrays[handle][offset] = value;
                assert(self@.arrays =~= next.arrays.update(
                    handle as int,
                    next.arrays[handle as int].update(offset as int, value),
                ));
                Action::Continue
            },
            Instruction::Add { a, b, c } => {
                let sum: u32 = self.state.registers[b].wrapping_add(self.state.registers[c]);
                assert(sum == sum_mod(next.registers[b as int], next.registers[c as int]));
                self.state.registers[a] = sum;
                Action::Continue
            },
            Instruction::Multiply { a, b, c } => {
                let product: u32 = self.state.registers[b].wrapping_mul(self.state.registers[c]);
                assert(product == product_mod(next.registers[b as int], next.registers[c as int]));
                self.state.registers[a] = product;
                Action::Continue
            },
            Instruction::Divide { a, b, c } => {
                self.state.registers[a] = self.state.registers[b] / self.state.registers[c];
                Action::Continue
            },
            Instruction::NotAnd { a, b, c } => {
                self.state.registers[a] = !(self.state.registers[b] & self.state.registers[c]);
                Action::Continue
            },
            Instruction::Halt => {
                self.state.halted = true;
                Action::Halt
            },
            Instruction::Allocate { b, c } => {
                let handle: u32 = self.allocate(self.state.registers[c]);
                self.state.registers[b] = handle;
                Action::Continue
            },
            Instruction::Abandon { c } => {
                self.free(self.state.registers[c]);
                Action::Continue
            },
            Instruction::Output { c } => {
                let word: u32 = self.state.registers[c];
                assert(word & 0xff < 256) by (bit_vector);
                Action::Output((word & 0xff) as u8)
            },
            Instruction::Input { c } => Action::Input(c),
            Instruction::LoadProgram { b, c } => {
                let source: u32 = self.state.registers[b];
                self.state.execution_finger = self.state.registers[c] as usize;
                if source != 0 {
                    let copy: Vec<u32> = self.state.arrays[source as usize].clone();
                    assert(copy@ =~= next.arrays[source as int]);
                    self.state.arrays[0] = copy;
                    assert(self@.arrays =~= next.arrays.update(0, next.arrays[source as int]));
                }
                Action::Continue
            },
            Instruction::Orthography { reg, value } => {
                self.state.registers[reg] = value;
                Action::Continue
            },
            Instruction::Undefined => Action::Continue,
        };
        assert(self@ == next.execute(ins));
        match action {
            Action::Input(_) => {},
            _ => {
                self.state.count += 1;
            },
        }
        action
    }

    /// Completes an input instruction: the register that it named receives
    /// the byte, or all ones if the input stream has ended, and the
    /// instruction is counted.
    pub fn deliver(&mut self, register: usize, byte: Option<u8>)
        requires
            old(self).wf(),
            register < 8,
            old(self)@.count < usize::MAX,
        ensures
            final(self).wf(),
            final(self).inlet() == old(self).inlet(),
            final(self)@ == old(self)@.deliver(register, byte),
    {
        let value: u32 = match byte {
            Some(b) => b as u32,
            None => 0xffff_ffff,
        };
        self.state.registers[register] = value;
        self.state.count += 1;
    }

    /// Runs the machine until it halts, needs the host, meets a fault, or
    /// has executed `budget` instructions, and says which. A machine that
    /// has halted executes nothing more. On a fault the instruction that
    /// would meet it is not begun, and the machine is left before it: the
    /// fault is final, and every later run reports it again.
    pub fn run(&mut self, budget: usize) -> (outcome: Result<Action, Fault>)
        requires
            old(self).wf(),
        ensures
            final(self).wf(),
            final(self).inlet() == old(self).inlet(),
            (final(self)@, outcome) == old(self)@.run(budget as nat),
            outcome == Ok::<Action, Fault>(Action::Halt) <==> final(self)@.halted,
            outcome matches Err(f) ==> final(self)@.fault() == Some(f),
    {
        let ghost start = self@;
        proof {
            lemma_run(start, budget as nat);
        }
        let mut left: usize = budget;
        while left > 0 && !self.state.halted
            invariant
                self.wf(),
                self.inlet() == old(self).inlet(),
                start == old(self)@,
                self@.run(left as nat) == start.run(budget as nat),
            decreases left,
        {
            let ghost here = self@;
            assert(here.run(left as nat) == if here.fault() is Some {
                (here, Err::<Action, Fault>(here.fault().unwrap()))
            } else if here.action() != Action::Continue {
                (here.step(), Ok(here.action()))
            } else {
                here.step().run((left - 1) as nat)
            });
            match self.fault() {
                Some(fault) => {
                    return Err(fault);
                },
                None => {},
            }
            let action = self.step();
            match action {
                Action::Continue => {},
                _ => {
                    return Ok(action);
                },
            }
            left -= 1;
        }
        if self.state.halted {
            Ok(Action::Halt)
        } else {
            Ok(Action::Continue)
        }
    }
}

} // verus!
