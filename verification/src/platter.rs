//! Platters: the 32-bit instruction words and their decoding.

use vstd::prelude::*;

verus! {

/// A decoded platter. Register fields are indices into the register file.
#[derive(Clone, Copy, Debug, PartialEq, Eq)]
pub enum Instruction {
    /// `registers[a] = registers[b]` unless `registers[c]` is zero.
    ConditionalMove { a: usize, b: usize, c: usize },
    /// `registers[a] = arrays[registers[b]][registers[c]]`.
    ArrayIndex { a: usize, b: usize, c: usize },
    /// `arrays[registers[a]][registers[b]] = registers[c]`.
    ArrayAmend { a: usize, b: usize, c: usize },
    /// `registers[a] = registers[b] + registers[c]` modulo 2^32.
    Add { a: usize, b: usize, c: usize },
    /// `registers[a] = registers[b] * registers[c]` modulo 2^32.
    Multiply { a: usize, b: usize, c: usize },
    /// `registers[a] = registers[b] / registers[c]`, unsigned.
    Divide { a: usize, b: usize, c: usize },
    /// `registers[a] = !(registers[b] & registers[c])`.
    NotAnd { a: usize, b: usize, c: usize },
    /// Stop the machine.
    Halt,
    /// `registers[b]` receives the handle of a new array of `registers[c]` zero words.
    Allocate { b: usize, c: usize },
    /// Give up the array whose handle is `registers[c]`.
    Abandon { c: usize },
    /// Emit the low eight bits of `registers[c]`.
    Output { c: usize },
    /// Wait for one byte of input, destined for `registers[c]`.
    Input { c: usize },
    /// Jump to `registers[c]`, first replacing the program by a copy of the
    /// array `registers[b]` unless that handle is zero.
    LoadProgram { b: usize, c: usize },
    /// `registers[reg] = value`, a 25-bit immediate.
    Orthography { reg: usize, value: u32 },
    /// An operator number without a meaning; executing it changes nothing.
    Undefined,
}

/// The operator number: the four highest bits.
pub open spec fn operator_of(platter: u32) -> u32 {
    platter >> 28
}

/// Register field A: bits 6 to 8.
pub open spec fn field_a(platter: u32) -> usize {
    ((platter >> 6) & 7) as usize
}

/// Register field B: bits 3 to 5.
pub open spec fn field_b(platter: u32) -> usize {
    ((platter >> 3) & 7) as usize
}

/// Register field C: bits 0 to 2.
pub open spec fn field_c(platter: u32) -> usize {
    (platter & 7) as usize
}

/// The register field of an immediate load: bits 25 to 27.
pub open spec fn immediate_register(platter: u32) -> usize {
    ((platter >> 25) & 7) as usize
}

/// The value of an immediate load: bits 0 to 24.
pub open spec fn immediate_value(platter: u32) -> u32 {
    platter & 0x1ff_ffff
}

/// What a platter means.
pub open spec fn decoded(platter: u32) -> Instruction {
    let a = field_a(platter);
    let b = field_b(platter);
    let c = field_c(platter);
    let op = operator_of(platter);
    if op == 0 {
        Instruction::ConditionalMove { a, b, c }
    } else if op == 1 {
        Instruction::ArrayIndex { a, b, c }
    } else if op == 2 {
        Instruction::ArrayAmend { a, b, c }
    } else if op == 3 {
        Instruction::Add { a, b, c }
    } else if op == 4 {
        Instruction::Multiply { a, b, c }
    } else if op == 5 {
        Instruction::Divide { a, b, c }
    } else if op == 6 {
        Instruction::NotAnd { a, b, c }
    } else if op == 7 {
        Instruction::Halt
    } else if op == 8 {
        Instruction::Allocate { b, c }
    } else if op == 9 {
        Instruction::Abandon { c }
    } else if op == 10 {
        Instruction::Output { c }
    } else if op == 11 {
        Instruction::Input { c }
    } else if op == 12 {
        Instruction::LoadProgram { b, c }
    } else if op == 13 {
        Instruction::Orthography {
            reg: immediate_register(platter),
            value: immediate_value(platter),
        }
    } else {
        Instruction::Undefined
    }
}

impl Instruction {
    /// Every register field addresses one of the eight registers, and an
    /// immediate fits in 25 bits.
    pub open spec fn in_range(self) -> bool {
        match self {
            Instruction::ConditionalMove { a, b, c }
            | Instruction::ArrayIndex { a, b, c }
            | Instruction::ArrayAmend { a, b, c }
            | Instruction::Add { a, b, c }
            | Instruction::Multiply { a, b, c }
            | Instruction::Divide { a, b, c }
            | Instruction::NotAnd { a, b, c } => a < 8 && b < 8 && c < 8,
            Instruction::Allocate { b, c } | Instruction::LoadProgram { b, c } => b < 8 && c < 8,
            Instruction::Abandon { c } | Instruction::Output { c } | Instruction::Input { c } => c
                < 8,
            Instruction::Orthography { reg, value } => reg < 8 && value < 0x200_0000,
            Instruction::Halt | Instruction::Undefined => true,
        }
    }
}

/// The fields of any platter are in range, whatever its bits.
pub proof fn lemma_fields_in_range(platter: u32)
    ensures
        field_a(platter) < 8,
        field_b(platter) < 8,
        field_c(platter) < 8,
        immediate_register(platter) < 8,
        immediate_value(platter) < 0x200_0000,
        operator_of(platter) < 16,
        decoded(platter).in_range(),
{
    assert((platter >> 6) & 7 < 8) by (bit_vector);
    assert((platter >> 3) & 7 < 8) by (bit_vector);
    assert(platter & 7 < 8) by (bit_vector);
    assert((platter >> 25) & 7 < 8) by (bit_vector);
    assert(platter & 0x1ff_ffff < 0x200_0000) by (bit_vector);
    assert(platter >> 28 < 16) by (bit_vector);
}

/// Decodes one platter.
pub fn decode(platter: u32) -> (ins: Instruction)
    ensures
        ins == decoded(platter),
        ins.in_range(),
{
    proof {
        lemma_fields_in_range(platter);
    }
    let op: u32 = platter >> 28;
    let a: usize = ((platter >> 6) & 7) as usize;
    let b: usize = ((platter >> 3) & 7) as usize;
    let c: usize = (platter & 7) as usize;
    if op == 0 {
        Instruction::ConditionalMove { a, b, c }
    } else if op == 1 {
        Instruction::ArrayIndex { a, b, c }
    } else if op == 2 {
        Instruction::ArrayAmend { a, b, c }
    } else if op == 3 {
        Instruction::Add { a, b, c }
    } else if op == 4 {
        Instruction::Multiply { a, b, c }
    } else if op == 5 {
        Instruction::Divide { a, b, c }
    } else if op == 6 {
        Instruction::NotAnd { a, b, c }
    } else if op == 7 {
        Instruction::Halt
    } else if op == 8 {
        Instruction::Allocate { b, c }
    } else if op == 9 {
        Instruction::Abandon { c }
    } else if op == 10 {
        Instruction::Output { c }
    } else if op == 11 {
        Instruction::Input { c }
    } else if op == 12 {
        Instruction::LoadProgram { b, c }
    } else if op == 13 {
        Instruction::Orthography {
            reg: ((platter >> 25) & 7) as usize,
            value: platter & 0x1ff_ffff,
        }
    } else {
        Instruction::Undefined
    }
}

} // verus!
