//! The meaning of one step of the engine, as a function from state to state.
use vstd::prelude::*;
use crate::instruction::{Opcode, opcode_of};
use vstd::arithmetic::div_mod::{lemma_fundamental_div_mod, lemma_mod_bound};

verus! {

/// Number of registers in the register file.
pub const REGISTER_COUNT: usize = 32;

/// Why an instruction could not be executed.
#[derive(Debug, Clone, Copy, PartialEq, Eq, Structural)]
pub enum Fault {
    /// An operand byte lies past the end of the program.
    ProgramOverrun,
    /// An operand names a register at or past `REGISTER_COUNT`.
    BadRegister,
    /// A division by a register that holds zero.
    DivisionByZero,
    /// An arithmetic result, or a jump target, does not fit its type.
    Overflow,
}

/// The engine's state as plain values.
pub struct VmState {
    pub registers: Seq<i32>,
    pub pc: usize,
    pub program: Seq<u8>,
    pub remainder: u32,
    pub psw: bool,
}

/// What one step yields: the next state and whether to keep running, or the
/// fault that stops the instruction.
pub type Outcome = Result<(VmState, bool), Fault>;

/// Division that rounds toward zero, as machine integers divide.
pub open spec fn trunc_div(a: int, b: int) -> int {
    if a >= 0 && b > 0 {
        a / b
    } else if a >= 0 {
        -(a / -b)
    } else if b > 0 {
        -(-a / b)
    } else {
        -a / -b
    }
}

/// The remainder that goes with `trunc_div`: it has the sign of `a`, and
/// `a == b * trunc_div(a, b) + trunc_rem(a, b)`.
pub open spec fn trunc_rem(a: int, b: int) -> int {
    if a >= 0 && b > 0 {
        a % b
    } else if a >= 0 {
        a % -b
    } else if b > 0 {
        -(-a % b)
    } else {
        -(-a % -b)
    }
}

/// The quotient and remainder of `DIV` recompose the dividend, and the
/// remainder is smaller than the divisor in magnitude.
pub proof fn lemma_division_identity(a: int, b: int)
    requires
        b != 0,
    ensures
        a == b * trunc_div(a, b) + trunc_rem(a, b),
        -vstd::math::abs(b) < trunc_rem(a, b) < vstd::math::abs(b),
{
    if a >= 0 && b > 0 {
        lemma_fundamental_div_mod(a, b);
        lemma_mod_bound(a, b);
    } else if a >= 0 {
        lemma_fundamental_div_mod(a, -b);
        lemma_mod_bound(a, -b);
        assert(b * (-(a / -b)) == (-b) * (a / -b)) by (nonlinear_arith);
    } else if b > 0 {
        lemma_fundamental_div_mod(-a, b);
        lemma_mod_bound(-a, b);
        assert(b * (-(-a / b)) == -(b * (-a / b))) by (nonlinear_arith);
    } else {
        lemma_fundamental_div_mod(-a, -b);
        lemma_mod_bound(-a, -b);
        assert(b * (-a / -b) == -((-b) * (-a / -b))) by (nonlinear_arith);
    }
}

pub open spec fn fits_i32(v: int) -> bool {
    i32::MIN <= v <= i32::MAX
}

/// The value of the register named by the program byte at `at`.
pub open spec fn register_operand(s: VmState, at: int) -> Result<i32, Fault> {
    if at >= s.program.len() {
        Err(Fault::ProgramOverrun)
    } else if s.program[at] >= REGISTER_COUNT {
        Err(Fault::BadRegister)
    } else {
        Ok(s.registers[s.program[at] as int])
    }
}

/// The index of the register named by the program byte at `at`.
pub open spec fn destination_operand(s: VmState, at: int) -> Result<u8, Fault> {
    if at >= s.program.len() {
        Err(Fault::ProgramOverrun)
    } else if s.program[at] >= REGISTER_COUNT {
        Err(Fault::BadRegister)
    } else {
        Ok(s.program[at])
    }
}

/// The result of `ADD`, `SUB`, `MUL` or `DIV` on two register values.
pub open spec fn arith_result(op: Opcode, x: i32, y: i32) -> Result<i32, Fault> {
    let v: int = if op == Opcode::ADD {
        x + y
    } else if op == Opcode::SUB {
        x - y
    } else if op == Opcode::MUL {
        x * y
    } else {
        trunc_div(x as int, y as int)
    };
    if op == Opcode::DIV && y == 0 {
        Err(Fault::DivisionByZero)
    } else if !fits_i32(v) {
        Err(Fault::Overflow)
    } else {
        Ok(v as i32)
    }
}

/// The outcome of a comparison opcode on two register values.
pub open spec fn compare(op: Opcode, x: i32, y: i32) -> bool {
    if op == Opcode::EQ {
        x == y
    } else if op == Opcode::NEQ {
        x != y
    } else if op == Opcode::GT {
        x > y
    } else if op == Opcode::LT {
        x < y
    } else if op == Opcode::GTE {
        x >= y
    } else {
        x <= y
    }
}

pub open spec fn is_arith(op: Opcode) -> bool {
    op == Opcode::ADD || op == Opcode::SUB || op == Opcode::MUL || op == Opcode::DIV
}

pub open spec fn is_comparison(op: Opcode) -> bool {
    op == Opcode::EQ || op == Opcode::NEQ || op == Opcode::GT || op == Opcode::LT || op
        == Opcode::GTE || op == Opcode::LTE
}

/// `ADD`, `SUB`, `MUL`, `DIV` with the opcode at `s.pc - 1`: two source
/// registers, then a destination register.
pub open spec fn arith_step(s: VmState, op: Opcode) -> Outcome {
    let p = s.pc as int;
    match register_operand(s, p) {
        Err(f) => Err(f),
        Ok(x) => match register_operand(s, p + 1) {
            Err(f) => Err(f),
            Ok(y) => match arith_result(op, x, y) {
                Err(f) => Err(f),
                Ok(v) => match destination_operand(s, p + 2) {
                    Err(f) => Err(f),
                    Ok(d) => Ok(
                        (
                            VmState {
                                registers: s.registers.update(d as int, v),
                                pc: (p + 3) as usize,
                                remainder: if op == Opcode::DIV {
                                    trunc_rem(x as int, y as int) as u32
                                } else {
                                    s.remainder
                                },
                                ..s
                            },
                            true,
                        ),
                    ),
                },
            },
        },
    }
}

/// A comparison with the opcode at `s.pc - 1`: two registers, then one byte
/// that is read and ignored.
pub open spec fn compare_step(s: VmState, op: Opcode) -> Outcome {
    let p = s.pc as int;
    match register_operand(s, p) {
        Err(f) => Err(f),
        Ok(x) => match register_operand(s, p + 1) {
            Err(f) => Err(f),
            Ok(y) => if p + 2 >= s.program.len() {
                Err(Fault::ProgramOverrun)
            } else {
                Ok((VmState { pc: (p + 3) as usize, psw: compare(op, x, y), ..s }, true))
            },
        },
    }
}

/// `LOAD` with the opcode at `s.pc - 1`: a destination register, then a
/// big-endian 16-bit value.
pub open spec fn load_step(s: VmState) -> Outcome {
    let p = s.pc as int;
    if p + 2 >= s.program.len() {
        Err(Fault::ProgramOverrun)
    } else if s.program[p] >= REGISTER_COUNT {
        Err(Fault::BadRegister)
    } else {
        let value = s.program[p + 1] * 256 + s.program[p + 2];
        Ok(
            (
                VmState {
                    registers: s.registers.update(s.program[p] as int, value as i32),
                    pc: (p + 3) as usize,
                    ..s
                },
                true,
            ),
        )
    }
}

/// `JMP`, `JMPF` and `JEQ` with the opcode at `s.pc - 1`: one register.
pub open spec fn jump_step(s: VmState, op: Opcode) -> Outcome {
    let p = s.pc as int;
    match register_operand(s, p) {
        Err(f) => Err(f),
        Ok(t) => if op == Opcode::JMP {
            Ok((VmState { pc: t as usize, ..s }, true))
        } else if op == Opcode::JMPF {
            if p + 1 + (t as usize) > usize::MAX {
                Err(Fault::Overflow)
            } else {
                Ok((VmState { pc: (p + 1 + (t as usize)) as usize, ..s }, true))
            }
        } else if s.psw {
            Ok((VmState { pc: t as usize, ..s }, true))
        } else {
            Ok((VmState { pc: (p + 1) as usize, ..s }, true))
        },
    }
}

/// One step of the engine. At or past the end of the program it stops and
/// changes nothing. Otherwise it decodes the opcode at the counter, moves
/// past it, and carries the instruction out.
pub open spec fn step(s: VmState) -> Outcome {
    if s.pc >= s.program.len() {
        Ok((s, false))
    } else {
        let op = opcode_of(s.program[s.pc as int]);
        let t = VmState { pc: (s.pc + 1) as usize, ..s };
        if op == Opcode::HLT {
            Ok((t, false))
        } else if op == Opcode::IGL {
            Ok((t, true))
        } else if op == Opcode::LOAD {
            load_step(t)
        } else if is_arith(op) {
            arith_step(t, op)
        } else if is_comparison(op) {
            compare_step(t, op)
        } else {
            jump_step(t, op)
        }
    }
}

/// The outcome after up to `n` steps from `s`: once a step stops the engine
/// or faults, later steps change nothing.
pub open spec fn trace(s: VmState, n: nat) -> Outcome
    decreases n,
{
    if n == 0 {
        Ok((s, true))
    } else {
        match trace(s, (n - 1) as nat) {
            Err(f) => Err(f),
            Ok((t, running)) => if running {
                step(t)
            } else {
                Ok((t, false))
            },
        }
    }
}

/// Whether running from `s` has stopped or faulted within `n` steps.
pub open spec fn ended_within(s: VmState, n: nat) -> bool {
    match trace(s, n) {
        Err(_) => true,
        Ok((_, running)) => !running,
    }
}

/// Once a run has ended, it stays ended, with the same outcome.
pub proof fn lemma_ended_stays(s: VmState, m: nat, k: nat)
    requires
        m <= k,
        ended_within(s, m),
    ensures
        ended_within(s, k),
        trace(s, k) == trace(s, m),
    decreases k - m,
{
    if m < k {
        lemma_ended_stays(s, m, (k - 1) as nat);
    }
}

/// A step never writes the program buffer and keeps the register file at
/// `REGISTER_COUNT` registers.
pub proof fn lemma_step_keeps_program(s: VmState)
    requires
        s.registers.len() == REGISTER_COUNT,
    ensures
        step(s) matches Ok((t, _)) ==> t.program == s.program && t.registers.len()
            == REGISTER_COUNT,
{
}

/// `JEQ` jumps to the value of its register when the comparison flag is set,
/// and otherwise only moves past its operand.
pub proof fn lemma_jump_if_equal(s: VmState)
    requires
        s.registers.len() == REGISTER_COUNT,
        s.program.len() <= usize::MAX,
        s.pc + 1 < s.program.len(),
        opcode_of(s.program[s.pc as int]) == Opcode::JEQ,
        s.program[s.pc + 1] < REGISTER_COUNT,
    ensures
        step(s) == Ok::<(VmState, bool), Fault>(
            (
                VmState {
                    pc: if s.psw {
                        s.registers[s.program[s.pc + 1] as int] as usize
                    } else {
                        (s.pc + 2) as usize
                    },
                    ..s
                },
                true,
            ),
        ),
{
}

} // verus!
