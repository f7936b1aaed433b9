//! What holds of every machine: laws of the instruction set and of the
//! array store, proved from the definitions of the model.

use vstd::prelude::*;
use crate::model::{input_value, zeros, Action, Fault, MachineModel};
use crate::platter::{
    immediate_register, immediate_value, lemma_fields_in_range, operator_of, Instruction,
};

verus! {

/// Allocation keeps the invariant of the store, binds the handle it
/// returns to exactly `n` zero words, makes that handle live, and leaves
/// every other array as it was. The handle is the most recently abandoned
/// one if there is any, and else the number of arrays so far.
pub proof fn lemma_allocate(m: MachineModel, n: u32)
    requires
        m.wf(),
        m.can_allocate(),
    ensures
        m.allocate(n).wf(),
        m.allocate(n).live(m.next_handle()),
        m.allocate(n).arrays[m.next_handle() as int] == zeros(n as nat),
        m.allocate(n).arrays[m.next_handle() as int].len() == n,
        m.free_handles.len() > 0 ==> m.next_handle() == m.free_handles.last() && m.allocate(
            n,
        ).arrays.len() == m.arrays.len(),
        m.free_handles.len() == 0 ==> m.next_handle() == m.arrays.len() && m.allocate(
            n,
        ).arrays.len() == m.arrays.len() + 1,
        !m.live(m.next_handle()),
        forall|h: int|
            0 <= h < m.arrays.len() && h != m.next_handle() ==> m.allocate(n).arrays[h]
                == m.arrays[h],
        forall|h: u32| m.live(h) ==> m.allocate(n).live(h),
{
    let after = m.allocate(n);
    let handle = m.next_handle();
    if m.free_handles.len() > 0 {
        let last = m.free_handles.len() - 1;
        assert(m.free_handles[last] == handle);
        assert(m.free_handles.contains(handle));
        assert forall|i: int| 0 <= i < after.free_handles.len() implies {
            &&& 0 < #[trigger] after.free_handles[i] < after.arrays.len()
            &&& after.arrays[after.free_handles[i] as int].len() == 0
        } by {
            assert(after.free_handles[i] == m.free_handles[i]);
            assert(m.free_handles[i] != m.free_handles[last]);
        }
        assert(!after.free_handles.contains(handle)) by {
            if after.free_handles.contains(handle) {
                let j = choose|j: int|
                    0 <= j < after.free_handles.len() && after.free_handles[j] == handle;
                assert(m.free_handles[j] == m.free_handles[last]);
            }
        }
        assert forall|h: u32| m.live(h) implies after.live(h) by {
            if after.free_handles.contains(h) {
                let j = choose|j: int|
                    0 <= j < after.free_handles.len() && after.free_handles[j] == h;
                assert(m.free_handles[j] == h);
            }
        }
    } else {
        assert(!after.free_handles.contains(handle));
    }
}

/// Abandoning a live handle other than 0 keeps the invariant of the
/// store, empties the array, ends its life, and leaves every other array
/// and every other handle as it was.
pub proof fn lemma_free(m: MachineModel, handle: u32)
    requires
        m.wf(),
        m.can_free(handle),
    ensures
        m.free(handle).wf(),
        !m.free(handle).live(handle),
        m.free(handle).arrays.len() == m.arrays.len(),
        m.free(handle).arrays[handle as int].len() == 0,
        m.free(handle).arrays[0] == m.arrays[0],
        forall|h: int|
            0 <= h < m.arrays.len() && h != handle ==> m.free(handle).arrays[h] == m.arrays[h],
        forall|h: u32| h != handle ==> (m.free(handle).live(h) <==> m.live(h)),
{
    let after = m.free(handle);
    let last = m.free_handles.len() as int;
    assert(after.free_handles[last] == handle);
    assert forall|i: int, j: int|
        0 <= i < after.free_handles.len() && 0 <= j < after.free_handles.len() && i
            != j implies after.free_handles[i] != after.free_handles[j] by {
        if i < last {
            assert(m.free_handles.contains(m.free_handles[i]));
        }
        if j < last {
            assert(m.free_handles.contains(m.free_handles[j]));
        }
    }
    assert forall|i: int| 0 <= i < after.free_handles.len() implies {
        &&& 0 < #[trigger] after.free_handles[i] < after.arrays.len()
        &&& after.arrays[after.free_handles[i] as int].len() == 0
    } by {
        if i < last {
            assert(after.free_handles[i] == m.free_handles[i]);
        }
    }
    assert forall|h: u32| h != handle implies (after.live(h) <==> m.live(h)) by {
        if m.free_handles.contains(h) {
            let j = choose|j: int| 0 <= j < m.free_handles.len() && m.free_handles[j] == h;
            assert(after.free_handles[j] == h);
        }
        if after.free_handles.contains(h) {
            let j = choose|j: int| 0 <= j < after.free_handles.len() && after.free_handles[j] == h;
            assert(m.free_handles[j] == h);
        }
    }
}

/// An allocation that follows the abandoning of `handle` reuses that
/// handle, and binds it to exactly `n` zero words, whatever the array held
/// before it was abandoned. The free handles are then those from before.
pub proof fn lemma_allocate_after_free(m: MachineModel, handle: u32, n: u32)
    requires
        m.wf(),
        m.can_free(handle),
    ensures
        m.free(handle).can_allocate(),
        m.free(handle).next_handle() == handle,
        m.free(handle).allocate(n).wf(),
        m.free(handle).allocate(n).arrays[handle as int] == zeros(n as nat),
        m.free(handle).allocate(n).arrays[handle as int].len() == n,
        forall|i: int|
            0 <= i < n ==> (#[trigger] m.free(handle).allocate(n).arrays[handle as int][i]) == 0,
        m.free(handle).allocate(n).live(handle),
        m.free(handle).allocate(n).free_handles == m.free_handles,
        m.free(handle).allocate(n).arrays.len() == m.arrays.len(),
        forall|h: int|
            0 <= h < m.arrays.len() && h != handle ==> m.free(handle).allocate(n).arrays[h]
                == m.arrays[h],
{
    lemma_free(m, handle);
    lemma_allocate(m.free(handle), n);
    assert(m.free(handle).allocate(n).free_handles =~= m.free_handles);
}

/// An element that can be addressed belongs to a live array: an abandoned
/// handle has no element.
pub proof fn lemma_addressable_is_live(m: MachineModel, handle: u32, offset: u32)
    requires
        m.wf(),
        m.addressable(handle, offset),
    ensures
        m.live(handle),
{
    if m.free_handles.contains(handle) {
        let j = choose|j: int| 0 <= j < m.free_handles.len() && m.free_handles[j] == handle;
        assert(m.arrays[m.free_handles[j] as int].len() == 0);
    }
}

/// A step that meets no fault keeps the invariant of the store and never
/// clears the halt flag. It counts one instruction, unless that is an
/// input, which is counted when its byte is delivered.
pub proof fn lemma_step_keeps_wf(m: MachineModel)
    requires
        m.wf(),
        m.fault() is None,
    ensures
        m.step().wf(),
        m.step().count == if m.current() is Input {
            m.count
        } else {
            m.count + 1
        },
        m.action() is Input <==> m.current() is Input,
        m.halted ==> m.step().halted,
        m.step().halted <==> m.halted || m.current() == Instruction::Halt,
{
    let next = m.fetched();
    let ins = m.current();
    let r = next.registers;
    lemma_fields_in_range(m.arrays[0][m.finger as int]);
    assert(next.wf());
    match ins {
        Instruction::ArrayAmend { a, b, c } => {
            let after = next.execute(ins);
            assert forall|i: int| 0 <= i < after.free_handles.len() implies {
                &&& 0 < #[trigger] after.free_handles[i] < after.arrays.len()
                &&& after.arrays[after.free_handles[i] as int].len() == 0
            } by {
                assert(after.free_handles[i] == next.free_handles[i]);
            }
        },
        Instruction::Allocate { b, c } => {
            lemma_allocate(next, r[c as int]);
        },
        Instruction::Abandon { c } => {
            lemma_free(next, r[c as int]);
        },
        Instruction::LoadProgram { b, c } => {
            let after = next.execute(ins);
            assert forall|i: int| 0 <= i < after.free_handles.len() implies {
                &&& 0 < #[trigger] after.free_handles[i] < after.arrays.len()
                &&& after.arrays[after.free_handles[i] as int].len() == 0
            } by {
                assert(after.free_handles[i] == next.free_handles[i]);
            }
        },
        _ => {},
    }
}

/// Addition and multiplication never leave the range of a register, and
/// meet no fault but a full counter: register A receives the sum, or the
/// product, of registers B and C modulo 2^32, and nothing else in the
/// machine changes but the finger and the counter.
pub proof fn lemma_arithmetic_wraps(m: MachineModel, a: usize, b: usize, c: usize)
    requires
        m.wf(),
        m.finger < m.arrays[0].len(),
        a < 8 && b < 8 && c < 8,
        m.current() == (Instruction::Add { a, b, c }) || m.current() == (Instruction::Multiply {
            a,
            b,
            c,
        }),
    ensures
        m.fault() is None <==> m.count < usize::MAX,
        m.action() == Action::Continue,
        m.current() is Add ==> m.step().registers[a as int] as int == (m.registers[b as int]
            + m.registers[c as int]) % 0x1_0000_0000,
        m.current() is Multiply ==> m.step().registers[a as int] as int == (m.registers[b as int]
            * m.registers[c as int]) % 0x1_0000_0000,
        forall|i: int| 0 <= i < 8 && i != a ==> m.step().registers[i] == m.registers[i],
        m.step() == (MachineModel {
            registers: m.step().registers,
            count: m.count + 1,
            finger: m.finger + 1,
            ..m
        }),
{
    let x = m.registers[b as int];
    let y = m.registers[c as int];
    assert(0 <= (x * y) % 0x1_0000_0000 < 0x1_0000_0000) by (nonlinear_arith)
        requires
            0 <= x,
            0 <= y,
    ;
}

/// An immediate load, the platter with operator 13, meets no fault but a
/// full counter. It sets the register named in bits 25 to 27 to the value
/// in bits 0 to 24, and changes no other register, no array and no handle.
pub proof fn lemma_orthography(m: MachineModel, platter: u32)
    requires
        m.wf(),
        m.finger < m.arrays[0].len(),
        m.arrays[0][m.finger as int] == platter,
        operator_of(platter) == 13,
    ensures
        m.current() == (Instruction::Orthography {
            reg: immediate_register(platter),
            value: immediate_value(platter),
        }),
        immediate_register(platter) < 8,
        m.fault() is None <==> m.count < usize::MAX,
        m.action() == Action::Continue,
        m.step().registers[immediate_register(platter) as int] == immediate_value(platter),
        forall|i: int|
            0 <= i < 8 && i != immediate_register(platter) ==> m.step().registers[i]
                == m.registers[i],
        m.step() == (MachineModel {
            registers: m.registers.update(
                immediate_register(platter) as int,
                immediate_value(platter),
            ),
            count: m.count + 1,
            finger: m.finger + 1,
            ..m
        }),
{
    lemma_fields_in_range(platter);
}

/// Load Program meets no fault but a full counter and a handle out of
/// range. Where the handle is in range, the finger becomes the value of
/// register C, and the program becomes a copy of the array named by
/// register B as it is at that moment, or stays as it is where register B
/// holds 0. The array that was copied stays, and so does every other
/// array, every register and every handle.
pub proof fn lemma_load_program(m: MachineModel, b: usize, c: usize)
    requires
        m.wf(),
        m.finger < m.arrays[0].len(),
        b < 8 && c < 8,
        m.current() == (Instruction::LoadProgram { b, c }),
    ensures
        m.fault() is None <==> m.count < usize::MAX && m.registers[b as int] < m.arrays.len(),
        m.registers[b as int] < m.arrays.len() ==> {
            &&& m.action() == Action::Continue
            &&& m.step().finger == m.registers[c as int]
            &&& m.registers[b as int] != 0 ==> m.step().arrays[0]
                == m.arrays[m.registers[b as int] as int]
            &&& m.registers[b as int] == 0 ==> m.step().arrays == m.arrays
            &&& m.step().arrays.len() == m.arrays.len()
            &&& forall|h: int| 0 < h < m.arrays.len() ==> m.step().arrays[h] == m.arrays[h]
            &&& m.step().registers == m.registers
            &&& m.step().free_handles == m.free_handles
            &&& m.step().count == m.count + 1
            &&& m.step().halted == m.halted
        },
{
}

/// An input instruction meets no fault but a full counter. Its step only
/// moves the finger on and names the register that awaits the byte: until
/// the byte is delivered, the registers, the arrays, the handles and the
/// counter are those from before the instruction, so that is what a
/// snapshot taken in between holds. The delivery sets that register, counts
/// the instruction, and changes nothing else.
pub proof fn lemma_input(m: MachineModel, c: usize, byte: Option<u8>)
    requires
        m.wf(),
        m.finger < m.arrays[0].len(),
        c < 8,
        m.current() == (Instruction::Input { c }),
    ensures
        m.fault() is None <==> m.count < usize::MAX,
        m.action() == Action::Input(c),
        m.step() == (MachineModel { finger: m.finger + 1, ..m }),
        m.step().deliver(c, byte) == (MachineModel {
            registers: m.registers.update(c as int, input_value(byte)),
            count: m.count + 1,
            finger: m.finger + 1,
            ..m
        }),
        m.step().deliver(c, byte).wf(),
        byte matches Some(b) ==> m.step().deliver(c, byte).registers[c as int] == b,
        byte is None ==> m.step().deliver(c, byte).registers[c as int] == 0xffff_ffff,
{
}

/// The halt instruction meets no fault but a full counter, sets the halt
/// flag, asks for no output, and changes nothing else but the finger and
/// the counter.
pub proof fn lemma_halt(m: MachineModel)
    requires
        m.wf(),
        m.finger < m.arrays[0].len(),
        m.current() == Instruction::Halt,
    ensures
        m.fault() is None <==> m.count < usize::MAX,
        m.action() == Action::Halt,
        m.step() == (MachineModel {
            halted: true,
            count: m.count + 1,
            finger: m.finger + 1,
            ..m
        }),
{
}

/// A machine that has halted executes nothing more: running it, with
/// whatever budget, leaves it as it is.
pub proof fn lemma_halted_stays(m: MachineModel, budget: nat)
    requires
        m.halted,
    ensures
        m.run(budget) == (m, Ok::<Action, Fault>(Action::Halt)),
{
}

/// A fault is final: a machine that has not halted and whose next step
/// would meet a fault is left as it is by every run that may execute
/// anything, and the run reports that fault.
pub proof fn lemma_fault_is_final(m: MachineModel, budget: nat)
    requires
        !m.halted,
        m.fault() is Some,
        budget > 0,
    ensures
        m.run(budget) == (m, Err::<Action, Fault>(m.fault().unwrap())),
{
}

/// Taking `j` steps and then `k` more is taking `j + k` steps.
pub proof fn lemma_steps_compose(m: MachineModel, j: nat, k: nat)
    ensures
        m.steps(j).steps(k) == m.steps(j + k),
    decreases j,
{
    if j > 0 {
        lemma_steps_compose(m.step(), (j - 1) as nat, k);
        assert(m.steps(j + k) == m.step().steps((j + k - 1) as nat));
    }
}

/// A run adds nothing of its own to the steps it takes. Where the first
/// `k` steps are quiet, a run with a budget of at least `k` takes exactly
/// these steps, each counting one instruction, and goes on from there with
/// what is left of the budget.
pub proof fn lemma_quiet_steps(m: MachineModel, k: nat, budget: nat)
    requires
        m.wf(),
        k <= budget,
        forall|j: nat| j < k ==> (#[trigger] m.steps(j)).quiet(),
    ensures
        m.steps(k).wf(),
        m.steps(k).count == m.count + k,
        m.run(budget) == m.steps(k).run((budget - k) as nat),
    decreases k,
{
    if k > 0 {
        assert(m.steps(0).quiet());
        lemma_step_keeps_wf(m);
        let next = m.step();
        assert forall|j: nat| j < k - 1 implies (#[trigger] next.steps(j)).quiet() by {
            assert(m.steps(j + 1) == next.steps(j));
            assert(m.steps(j + 1).quiet());
        }
        lemma_quiet_steps(next, (k - 1) as nat, (budget - 1) as nat);
    }
}

/// A run ends with the first step that is not quiet. Where `k` quiet steps
/// are followed by one that meets no fault and asks something of the host
/// (an output, an input, or the halt), a run with a budget above `k` ends
/// in the state after these `k + 1` steps and reports what that step asks.
/// If it is the halt, the machine is halted and has counted `k + 1`
/// instructions more. The same holds of the run that the host starts where
/// this one ended, so that a program is executed step by step however many
/// runs it takes.
pub proof fn lemma_run_to_first_event(m: MachineModel, k: nat, budget: nat)
    requires
        m.wf(),
        k < budget,
        forall|j: nat| j < k ==> (#[trigger] m.steps(j)).quiet(),
        !m.steps(k).halted,
        m.steps(k).fault() is None,
        m.steps(k).action() != Action::Continue,
    ensures
        m.run(budget) == (m.steps(k + 1), Ok::<Action, Fault>(m.steps(k).action())),
        m.steps(k + 1).wf(),
        m.steps(k).current() == Instruction::Halt ==> {
            &&& m.run(budget).1 == Ok::<Action, Fault>(Action::Halt)
            &&& m.steps(k + 1).halted
            &&& m.steps(k + 1).count == m.count + k + 1
        },
{
    lemma_quiet_steps(m, k, budget);
    lemma_steps_compose(m, k, 1);
    let s = m.steps(k);
    assert(s.steps(1) == s.step()) by {
        assert(s.step().steps(0) == s.step());
    }
    lemma_step_keeps_wf(s);
}

/// A run reports a halt exactly when it leaves the machine halted, and a
/// fault exactly when it leaves the machine, not halted, before the step
/// that would meet it. It keeps the invariant of the store and counts at
/// most `budget` instructions, and exactly `budget` where it reports that
/// the budget is spent.
pub proof fn lemma_run(m: MachineModel, budget: nat)
    requires
        m.wf(),
    ensures
        m.run(budget).0.wf(),
        m.run(budget).1 == Ok::<Action, Fault>(Action::Halt) <==> m.run(budget).0.halted,
        m.count <= m.run(budget).0.count <= m.count + budget,
        m.run(budget).1 matches Err(f) ==> m.run(budget).0.fault() == Some(f),
        m.run(budget).1 == Ok::<Action, Fault>(Action::Continue) ==> m.run(budget).0.count
            == m.count + budget,
    decreases budget,
{
    if !m.halted && budget > 0 && m.fault() is None {
        lemma_step_keeps_wf(m);
        if m.action() == Action::Continue {
            lemma_run(m.step(), (budget - 1) as nat);
        }
    }
}

} // verus!
