//! The instruction set: the opcodes and the byte that encodes each of them.
use vstd::prelude::*;

verus! {

/// An operation of the engine, decoded from one byte of the program.
#[derive(Debug, Clone, Copy, PartialEq, Eq, Structural)]
pub enum Opcode {
    HLT,
    LOAD,
    IGL,
    ADD,
    SUB,
    MUL,
    DIV,
    JMP,
    JMPF,
    EQ,
    NEQ,
    GT,
    LT,
    GTE,
    LTE,
    JEQ,
}

/// The wire format: the opcode that byte `b` stands for. Bytes 0 through 14
/// name the fifteen operations; every other byte is `IGL`.
pub open spec fn opcode_of(b: u8) -> Opcode {
    if b == 0 {
        Opcode::HLT
    } else if b == 1 {
        Opcode::LOAD
    } else if b == 2 {
        Opcode::ADD
    } else if b == 3 {
        Opcode::SUB
    } else if b == 4 {
        Opcode::MUL
    } else if b == 5 {
        Opcode::DIV
    } else if b == 6 {
        Opcode::JMP
    } else if b == 7 {
        Opcode::JMPF
    } else if b == 8 {
        Opcode::EQ
    } else if b == 9 {
        Opcode::NEQ
    } else if b == 10 {
        Opcode::GT
    } else if b == 11 {
        Opcode::LT
    } else if b == 12 {
        Opcode::GTE
    } else if b == 13 {
        Opcode::LTE
    } else if b == 14 {
        Opcode::JEQ
    } else {
        Opcode::IGL
    }
}

impl From<u8> for Opcode {
    fn from(v: u8) -> (r: Opcode) {
        match v {
            0 => Opcode::HLT,
            1 => Opcode::LOAD,
            2 => Opcode::ADD,
            3 => Opcode::SUB,
            4 => Opcode::MUL,
            5 => Opcode::DIV,
            6 => Opcode::JMP,
            7 => Opcode::JMPF,
            8 => Opcode::EQ,
            9 => Opcode::NEQ,
            10 => Opcode::GT,
            11 => Opcode::LT,
            12 => Opcode::GTE,
            13 => Opcode::LTE,
            14 => Opcode::JEQ,
            _ => Opcode::IGL,
        }
    }
}

impl vstd::std_specs::convert::FromSpecImpl<u8> for Opcode {
    open spec fn obeys_from_spec() -> bool {
        true
    }

    open spec fn from_spec(v: u8) -> Opcode {
        opcode_of(v)
    }
}

/// Decoding depends on the byte alone: the same byte decodes to the same
/// opcode every time, and every byte decodes to exactly one opcode.
pub proof fn lemma_decode_deterministic(a: u8, b: u8)
    requires
        a == b,
    ensures
        opcode_of(a) == opcode_of(b),
        opcode_of(a) == Opcode::IGL <==> a > 14,
{
}

/// One instruction of a program, identified by its opcode.
#[derive(Debug, PartialEq, Eq, Structural)]
pub struct Instruction {
    pub opcode: Opcode,
}

impl Instruction {
    pub fn new(opcode: Opcode) -> (r: Instruction)
        ensures
            r.opcode == opcode,
    {
        Instruction { opcode }
    }
}

} // verus!
