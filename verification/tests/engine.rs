use std::sync::mpsc::{channel, Receiver, Sender};
use um::control::Command;
use um::machine::{init, Machine};
use um::model::{Action, Fault};
use um::platter::{decode, Instruction};

fn three(op: u32, a: u32, b: u32, c: u32) -> u32 {
    (op << 28) | (a << 6) | (b << 3) | c
}

fn load(reg: u32, value: u32) -> u32 {
    (13u32 << 28) | (reg << 25) | value
}

fn halt() -> u32 {
    7u32 << 28
}

fn start(program: Vec<u32>) -> Machine {
    let (_sender, receiver): (Sender<Command>, Receiver<Command>) = channel();
    init(program, receiver)
}

fn registers_after(program: Vec<u32>) -> [u32; 8] {
    let mut m: Machine = start(program);
    assert_eq!(m.run(1000), Ok(Action::Halt));
    m.state().registers()
}

#[test]
fn decode_reads_the_three_register_fields() {
    let platter: u32 = three(3, 5, 6, 7);
    assert_eq!(decode(platter), Instruction::Add { a: 5, b: 6, c: 7 });
    assert_eq!(decode(three(0, 1, 2, 3)), Instruction::ConditionalMove { a: 1, b: 2, c: 3 });
    assert_eq!(decode(three(12, 1, 2, 3)), Instruction::LoadProgram { b: 2, c: 3 });
    assert_eq!(decode(three(8, 1, 2, 3)), Instruction::Allocate { b: 2, c: 3 });
    assert_eq!(decode(three(9, 1, 2, 3)), Instruction::Abandon { c: 3 });
    assert_eq!(decode(halt()), Instruction::Halt);
}

#[test]
fn decode_ignores_the_bits_between_operator_and_fields() {
    let platter: u32 = three(6, 1, 2, 3) | 0x0fff_fe00;
    assert_eq!(decode(platter), Instruction::NotAnd { a: 1, b: 2, c: 3 });
}

#[test]
fn decode_reads_an_immediate_load() {
    assert_eq!(decode(0xdfff_ffff), Instruction::Orthography { reg: 7, value: 0x1ff_ffff });
    assert_eq!(decode(load(3, 72)), Instruction::Orthography { reg: 3, value: 72 });
    assert_eq!(decode(0xd000_0000), Instruction::Orthography { reg: 0, value: 0 });
}

#[test]
fn decode_knows_no_operator_above_thirteen() {
    assert_eq!(decode(0xe000_0000), Instruction::Undefined);
    assert_eq!(decode(0xffff_ffff), Instruction::Undefined);
}

#[test]
fn a_fresh_machine_is_at_rest() {
    let m: Machine = start(vec![halt(), 5]);
    assert_eq!(m.state().registers(), [0u32; 8]);
    assert_eq!(m.state().instruction_count(), 0);
    assert_eq!(m.state().execution_finger(), 0);
    assert!(!m.state().is_halted());
    assert_eq!(m.state().array_count(), 1);
    assert_eq!(m.state().array(0), Some(&vec![halt(), 5]));
    assert_eq!(m.state().array(1), None);
    assert!(m.state().free_handles().is_empty());
}

#[test]
fn add_wraps_around() {
    // r1 = !(r0 & r0) = 0xffffffff; r2 = 1; r3 = r1 + r2
    let r: [u32; 8] =
        registers_after(vec![three(6, 1, 0, 0), load(2, 1), three(3, 3, 1, 2), halt()]);
    assert_eq!(r[1], 0xffff_ffff);
    assert_eq!(r[3], 0);
}

#[test]
fn add_without_overflow_is_plain() {
    let r: [u32; 8] =
        registers_after(vec![load(1, 1000), load(2, 234), three(3, 0, 1, 2), halt()]);
    assert_eq!(r[0], 1234);
}

#[test]
fn multiply_wraps_around() {
    // 0x10000 * 0x10000 = 2^32 = 0 (mod 2^32); 0x10001 * 0x10000 = 0x10000 (mod 2^32)
    let r: [u32; 8] = registers_after(vec![
        load(1, 0x10000),
        load(2, 0x10001),
        three(4, 3, 1, 1),
        three(4, 4, 2, 1),
        load(5, 6),
        load(6, 7),
        three(4, 7, 5, 6),
        halt(),
    ]);
    assert_eq!(r[3], 0);
    assert_eq!(r[4], 0x10000);
    assert_eq!(r[7], 42);
}

#[test]
fn divide_is_unsigned_and_truncates() {
    // r1 = 0xffffffff, r2 = 2, r3 = r1 / r2
    let r: [u32; 8] =
        registers_after(vec![three(6, 1, 0, 0), load(2, 2), three(5, 3, 1, 2), halt()]);
    assert_eq!(r[3], 0x7fff_ffff);
}

#[test]
fn divide_by_zero_is_a_fault_and_leaves_the_state() {
    let mut m: Machine = start(vec![load(1, 9), three(5, 3, 1, 2), halt()]);
    assert_eq!(m.run(10), Err(Fault::DivisionByZero));
    assert_eq!(m.state().instruction_count(), 1);
    assert_eq!(m.state().execution_finger(), 1);
    assert_eq!(m.fault(), Some(Fault::DivisionByZero));
    assert_eq!(m.run(10), Err(Fault::DivisionByZero));
    assert_eq!(m.state().instruction_count(), 1);
}

#[test]
fn not_and_complements_the_conjunction() {
    let r: [u32; 8] =
        registers_after(vec![load(1, 0b1100), load(2, 0b1010), three(6, 3, 1, 2), halt()]);
    assert_eq!(r[3], !0b1000u32);
}

#[test]
fn conditional_move_moves_only_on_nonzero() {
    let r: [u32; 8] = registers_after(vec![
        load(1, 11),
        load(2, 22),
        load(3, 1),
        three(0, 4, 1, 3),
        three(0, 5, 2, 0),
        halt(),
    ]);
    assert_eq!(r[4], 11);
    assert_eq!(r[5], 0);
}

#[test]
fn orthography_sets_one_register_only() {
    let mut m: Machine = start(vec![load(5, 0x1ff_ffff), halt()]);
    assert_eq!(m.step(), Action::Continue);
    assert_eq!(m.state().registers(), [0, 0, 0, 0, 0, 0x1ff_ffff, 0, 0]);
    assert_eq!(m.state().execution_finger(), 1);
    assert_eq!(m.state().instruction_count(), 1);
    assert_eq!(m.state().array(0), Some(&vec![load(5, 0x1ff_ffff), halt()]));
}

#[test]
fn undefined_operators_change_nothing_but_finger_and_count() {
    let mut m: Machine = start(vec![0xe123_4567, 0xffff_ffff, halt()]);
    assert_eq!(m.step(), Action::Continue);
    assert_eq!(m.step(), Action::Continue);
    assert_eq!(m.state().registers(), [0u32; 8]);
    assert_eq!(m.state().execution_finger(), 2);
    assert_eq!(m.state().instruction_count(), 2);
    assert_eq!(m.state().array_count(), 1);
    assert!(!m.state().is_halted());
}

#[test]
fn array_amend_then_index_reads_the_value_back() {
    // r1 = 3 words; r2 = allocate(r1); r3 = 2; r4 = 77; arrays[r2][r3] = r4; r5 = arrays[r2][r3]
    let mut m: Machine = start(vec![
        load(1, 3),
        three(8, 0, 2, 1),
        load(3, 2),
        load(4, 77),
        three(2, 2, 3, 4),
        three(1, 5, 2, 3),
        halt(),
    ]);
    assert_eq!(m.run(100), Ok(Action::Halt));
    assert_eq!(m.state().registers()[2], 1);
    assert_eq!(m.state().registers()[5], 77);
    assert_eq!(m.state().array(1), Some(&vec![0, 0, 77]));
}

#[test]
fn array_amend_can_rewrite_the_program() {
    // arrays[0][2] = r4 turns the third platter into a halt
    let mut m: Machine = start(vec![
        three(6, 4, 0, 0),
        three(2, 0, 2, 4),
        0,
        load(2, 2),
        halt(),
    ]);
    assert_eq!(m.step(), Action::Continue);
    assert_eq!(m.state().registers()[4], 0xffff_ffff);
    assert_eq!(m.step(), Action::Continue);
    assert_eq!(m.state().array(0).unwrap()[0], 0xffff_ffff);
}

#[test]
fn index_past_the_end_is_a_fault() {
    let mut m: Machine = start(vec![load(3, 5), three(1, 1, 0, 3), halt()]);
    assert_eq!(m.run(10), Err(Fault::ArrayOutOfRange));
    assert_eq!(m.state().instruction_count(), 1);
}

#[test]
fn index_of_an_unknown_handle_is_a_fault() {
    let mut m: Machine = start(vec![load(2, 4), three(1, 1, 2, 0), halt()]);
    assert_eq!(m.run(10), Err(Fault::ArrayOutOfRange));
}

#[test]
fn amend_past_the_end_is_a_fault() {
    let mut m: Machine = start(vec![load(2, 3), three(2, 0, 2, 1), halt()]);
    assert_eq!(m.run(10), Err(Fault::ArrayOutOfRange));
    assert_eq!(m.state().array(0).unwrap().len(), 3);
}

#[test]
fn running_off_the_program_is_a_fault() {
    let mut m: Machine = start(vec![load(1, 1)]);
    assert_eq!(m.run(10), Err(Fault::FingerOutOfRange));
    assert_eq!(m.state().instruction_count(), 1);
    let mut empty: Machine = start(Vec::new());
    assert_eq!(empty.fault(), Some(Fault::FingerOutOfRange));
    assert_eq!(empty.run(10), Err(Fault::FingerOutOfRange));
    assert_eq!(empty.state().instruction_count(), 0);
}

#[test]
fn halt_stops_the_machine_for_good() {
    let mut m: Machine = start(vec![load(1, 1), halt(), load(1, 2)]);
    assert_eq!(m.run(100), Ok(Action::Halt));
    assert!(m.state().is_halted());
    assert_eq!(m.state().instruction_count(), 2);
    assert_eq!(m.state().execution_finger(), 2);
    assert_eq!(m.run(100), Ok(Action::Halt));
    assert_eq!(m.state().instruction_count(), 2);
    assert_eq!(m.state().execution_finger(), 2);
    assert_eq!(m.state().registers()[1], 1);
}

#[test]
fn step_reports_the_halt() {
    let mut m: Machine = start(vec![halt()]);
    assert_eq!(m.fault(), None);
    assert_eq!(m.step(), Action::Halt);
    assert!(m.state().is_halted());
    assert_eq!(m.state().instruction_count(), 1);
}

#[test]
fn hi_program_prints_hi_and_halts_after_five_instructions() {
    let mut m: Machine = start(vec![
        load(1, 'H' as u32),
        three(10, 0, 0, 1),
        load(1, 'i' as u32),
        three(10, 0, 0, 1),
        halt(),
    ]);
    let mut printed: Vec<u8> = Vec::new();
    loop {
        match m.run(1000) {
            Ok(Action::Output(byte)) => printed.push(byte),
            Ok(Action::Halt) => break,
            other => panic!("unexpected outcome {:?}", other),
        }
    }
    assert_eq!(printed, b"Hi".to_vec());
    assert!(m.state().is_halted());
    assert_eq!(m.state().instruction_count(), 5);
}

#[test]
fn output_keeps_the_low_eight_bits() {
    let mut m: Machine = start(vec![load(1, 0x1234_41), three(10, 0, 0, 1), halt()]);
    assert_eq!(m.run(10), Ok(Action::Output(0x41)));
    assert_eq!(m.state().registers()[1], 0x1234_41);
}

#[test]
fn input_names_the_register_and_deliver_fills_it() {
    let mut m: Machine = start(vec![three(11, 0, 0, 6), three(11, 0, 0, 2), halt()]);
    assert_eq!(m.run(10), Ok(Action::Input(6)));
    assert_eq!(m.state().registers()[6], 0);
    assert_eq!(m.state().execution_finger(), 1);
    assert_eq!(m.state().instruction_count(), 0);
    m.deliver(6, Some(b'x'));
    assert_eq!(m.state().registers()[6], 'x' as u32);
    assert_eq!(m.state().instruction_count(), 1);
    assert_eq!(m.run(10), Ok(Action::Input(2)));
    assert_eq!(m.state().instruction_count(), 1);
    m.deliver(2, None);
    assert_eq!(m.state().registers()[2], 0xffff_ffff);
    assert_eq!(m.state().registers()[6], 'x' as u32);
    assert_eq!(m.state().instruction_count(), 2);
    assert_eq!(m.run(10), Ok(Action::Halt));
    assert_eq!(m.state().instruction_count(), 3);
}

#[test]
fn deliver_of_a_zero_byte_is_not_the_end_of_input() {
    let mut m: Machine = start(vec![load(1, 9), three(11, 0, 0, 1), three(11, 0, 0, 1), halt()]);
    assert_eq!(m.step(), Action::Continue);
    assert_eq!(m.step(), Action::Input(1));
    assert_eq!(m.state().registers()[1], 9);
    m.deliver(1, Some(0));
    assert_eq!(m.state().registers()[1], 0);
    assert_eq!(m.step(), Action::Input(1));
    m.deliver(1, Some(255));
    assert_eq!(m.state().registers()[1], 255);
    assert_eq!(m.state().instruction_count(), 3);
}

#[test]
fn a_fault_is_final() {
    let mut m: Machine = start(vec![load(1, 1)]);
    assert_eq!(m.run(10), Err(Fault::FingerOutOfRange));
    assert!(!m.state().is_halted());
    assert_eq!(m.fault(), Some(Fault::FingerOutOfRange));
    let registers: [u32; 8] = m.state().registers();
    for budget in [1usize, 2, 1000] {
        assert_eq!(m.run(budget), Err(Fault::FingerOutOfRange));
        assert!(!m.state().is_halted());
        assert_eq!(m.state().instruction_count(), 1);
        assert_eq!(m.state().execution_finger(), 1);
        assert_eq!(m.state().registers(), registers);
    }
}

#[test]
fn a_program_with_outputs_is_executed_step_by_step_over_several_runs() {
    let program: Vec<u32> =
        vec![load(1, 65), three(10, 0, 0, 1), load(2, 1), three(3, 1, 1, 2), three(10, 0, 0, 1), halt()];
    let mut by_runs: Machine = start(program.clone());
    assert_eq!(by_runs.run(100), Ok(Action::Output(65)));
    assert_eq!(by_runs.state().instruction_count(), 2);
    assert_eq!(by_runs.run(100), Ok(Action::Output(66)));
    assert_eq!(by_runs.state().instruction_count(), 5);
    assert_eq!(by_runs.run(100), Ok(Action::Halt));
    assert_eq!(by_runs.state().instruction_count(), 6);

    let mut by_steps: Machine = start(program);
    let mut actions: Vec<Action> = Vec::new();
    for _ in 0..6 {
        assert_eq!(by_steps.fault(), None);
        actions.push(by_steps.step());
    }
    assert_eq!(
        actions,
        vec![
            Action::Continue,
            Action::Output(65),
            Action::Continue,
            Action::Continue,
            Action::Output(66),
            Action::Halt
        ]
    );
    assert_eq!(by_steps.state().registers(), by_runs.state().registers());
    assert_eq!(by_steps.state().instruction_count(), 6);
    assert_eq!(by_steps.state().execution_finger(), by_runs.state().execution_finger());
    assert!(by_steps.state().is_halted());
}

#[test]
fn load_program_with_zero_only_jumps() {
    // r3 = 3; load program (r0 = 0, finger = r3); the platter at 2 is skipped
    let mut m: Machine = start(vec![load(3, 3), three(12, 0, 0, 3), load(1, 9), halt()]);
    let program: Vec<u32> = m.state().array(0).unwrap().clone();
    assert_eq!(m.step(), Action::Continue);
    assert_eq!(m.step(), Action::Continue);
    assert_eq!(m.state().execution_finger(), 3);
    assert_eq!(m.state().array(0), Some(&program));
    assert_eq!(m.run(10), Ok(Action::Halt));
    assert_eq!(m.state().registers()[1], 0);
    assert_eq!(m.state().instruction_count(), 3);
}

#[test]
fn load_program_copies_the_array_and_sets_the_finger() {
    // r1 = 2; r2 = allocate(r1) = 1; r4 = halt platter built by not-and; arrays[1][1] = r4;
    // r5 = 1; load program from r2 with finger r5
    let mut m: Machine = start(vec![
        load(1, 2),
        three(8, 0, 2, 1),
        load(5, 1),
        load(6, 0x0ff_ffff),
        three(6, 4, 6, 6),
        three(2, 2, 5, 4),
        three(12, 0, 2, 5),
        load(7, 1),
    ]);
    assert_eq!(m.run(6), Ok(Action::Continue));
    assert_eq!(m.state().instruction_count(), 6);
    let source: Vec<u32> = m.state().array(1).unwrap().clone();
    assert_eq!(source, vec![0, 0xff00_0000]);
    assert_eq!(m.step(), Action::Continue);
    assert_eq!(m.state().array(0), Some(&source));
    assert_eq!(m.state().array(1), Some(&source));
    assert_eq!(m.state().execution_finger(), 1);
    assert_eq!(m.state().instruction_count(), 7);
    // the copy is independent of its source: 0xff000000 is an undefined operator
    assert_eq!(m.step(), Action::Continue);
    assert_eq!(m.run(10), Err(Fault::FingerOutOfRange));
    assert_eq!(m.state().registers()[7], 0);
}

#[test]
fn load_program_from_an_unknown_handle_is_a_fault() {
    let mut m: Machine = start(vec![load(2, 9), three(12, 0, 2, 0), halt()]);
    assert_eq!(m.run(10), Err(Fault::ArrayOutOfRange));
    assert_eq!(m.state().execution_finger(), 1);
}

#[test]
fn run_stops_when_the_budget_is_spent() {
    // an endless loop: jump to 0 for ever
    let mut m: Machine = start(vec![three(12, 0, 0, 0)]);
    assert_eq!(m.run(10), Ok(Action::Continue));
    assert_eq!(m.state().instruction_count(), 10);
    assert_eq!(m.run(0), Ok(Action::Continue));
    assert_eq!(m.state().instruction_count(), 10);
    assert_eq!(m.run(5), Ok(Action::Continue));
    assert_eq!(m.state().instruction_count(), 15);
    assert_eq!(m.state().execution_finger(), 0);
}

#[test]
fn two_machines_do_not_interfere() {
    let mut first: Machine = start(vec![load(1, 1), halt()]);
    let mut second: Machine = start(vec![load(1, 2), halt()]);
    assert_eq!(first.run(10), Ok(Action::Halt));
    assert_eq!(second.state().instruction_count(), 0);
    assert_eq!(second.run(10), Ok(Action::Halt));
    assert_eq!(first.state().registers()[1], 1);
    assert_eq!(second.state().registers()[1], 2);
}
