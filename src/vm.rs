//! The execution engine: registers, program counter, program buffer, and the
//! fetch, decode and execute loop.
use vstd::prelude::*;
use crate::instruction::{Opcode, opcode_of};
use crate::semantics::{
    Fault, VmState, REGISTER_COUNT, arith_result, compare, destination_operand, is_arith,
    register_operand, step, trace, load_step, arith_step, compare_step, jump_step,
    is_comparison, ended_within, lemma_ended_stays, trunc_rem,
};

verus! {

broadcast use vstd::array::group_array_axioms;

/// An engine with 32 signed registers, a program counter into the program
/// buffer, the remainder of the last division, and the comparison flag.
pub struct VM {
    pub registers: [i32; 32],
    pub pc: usize,
    pub program: Vec<u8>,
    pub remainder: u32,
    pub psw: bool,
}

impl View for VM {
    type V = VmState;

    open spec fn view(&self) -> VmState {
        VmState {
            registers: self.registers@,
            pc: self.pc,
            program: self.program@,
            remainder: self.remainder,
            psw: self.psw,
        }
    }
}

/// The result of an arithmetic opcode on two register values.
fn arith(op: Opcode, x: i32, y: i32) -> (r: Result<i32, Fault>)
    requires
        is_arith(op),
    ensures
        r == arith_result(op, x, y),
{
    match op {
        Opcode::ADD => {
            let v: i64 = x as i64 + y as i64;
            if v < i32::MIN as i64 || v > i32::MAX as i64 {
                Err(Fault::Overflow)
            } else {
                Ok(v as i32)
            }
        },
        Opcode::SUB => {
            let v: i64 = x as i64 - y as i64;
            if v < i32::MIN as i64 || v > i32::MAX as i64 {
                Err(Fault::Overflow)
            } else {
                Ok(v as i32)
            }
        },
        Opcode::MUL => {
            assert(-0x4000_0000_0000_0000 <= x * y <= 0x4000_0000_0000_0000) by (nonlinear_arith)
                requires
                    -0x8000_0000 <= x <= 0x8000_0000,
                    -0x8000_0000 <= y <= 0x8000_0000,
            ;
            let v: i64 = x as i64 * y as i64;
            if v < i32::MIN as i64 || v > i32::MAX as i64 {
                Err(Fault::Overflow)
            } else {
                Ok(v as i32)
            }
        },
        _ => {
            if y == 0 {
                return Err(Fault::DivisionByZero);
            }
            let xa: u64 = if x < 0 { (-(x as i64)) as u64 } else { x as u64 };
            let ya: u64 = if y < 0 { (-(y as i64)) as u64 } else { y as u64 };
            let qa: u64 = xa / ya;
            assert(qa <= xa) by (nonlinear_arith)
                requires qa == xa / ya, ya >= 1;
            let q: i64 = if (x < 0) != (y < 0) { -(qa as i64) } else { qa as i64 };
            if q > i32::MAX as i64 {
                Err(Fault::Overflow)
            } else {
                Ok(q as i32)
            }
        },
    }
}

/// The remainder of dividing `x` by `y`, as an unsigned word.
fn division_remainder(x: i32, y: i32) -> (r: u32)
    requires
        y != 0,
    ensures
        r == trunc_rem(x as int, y as int) as u32,
{
    let xa: u64 = if x < 0 { (-(x as i64)) as u64 } else { x as u64 };
    let ya: u64 = if y < 0 { (-(y as i64)) as u64 } else { y as u64 };
    let ra: u64 = xa % ya;
    assert(ra < ya) by (nonlinear_arith)
        requires ra == xa % ya, ya >= 1;
    let rem: i64 = if x < 0 { -(ra as i64) } else { ra as i64 };
    #[verifier::truncate]
    (rem as u32)
}

/// The outcome of a comparison opcode on two register values.
fn compare_values(op: Opcode, x: i32, y: i32) -> (r: bool)
    ensures
        r == compare(op, x, y),
{
    match op {
        Opcode::EQ => x == y,
        Opcode::NEQ => x != y,
        Opcode::GT => x > y,
        Opcode::LT => x < y,
        Opcode::GTE => x >= y,
        _ => x <= y,
    }
}

impl VM {
    /// An engine with every register at zero, the counter at zero, an empty
    /// program, a zero remainder and a clear comparison flag.
    pub fn new() -> (r: VM)
        ensures
            r@.registers =~= Seq::new(32, |i: int| 0i32),
            r.pc == 0,
            r@.program.len() == 0,
            r.remainder == 0,
            !r.psw,
    {
        VM { registers: [0;32], pc: 0, program: vec![], remainder: 0, psw: false }
    }

    /// Replaces the program buffer; the counter and the rest stay as they were.
    pub fn load_program(&mut self, program: Vec<u8>)
        ensures
            final(self)@ == (VmState { program: program@, ..old(self)@ }),
    {
        self.program = program;
    }

    /// Decodes the opcode at the counter and moves past it.
    pub fn decode_opcode(&mut self) -> (r: Opcode)
        requires
            old(self).pc < old(self).program.len(),
        ensures
            r == opcode_of(old(self).program[old(self).pc as int]),
            final(self)@ == (VmState { pc: (old(self).pc + 1) as usize, ..old(self)@ }),
    {
        let opcode = Opcode::from(self.program[self.pc]);
        self.pc = self.pc + 1;
        opcode
    }

    /// Reads the byte at the counter and moves past it.
    pub fn next_8_bits(&mut self) -> (r: u8)
        requires
            old(self).pc < old(self).program.len(),
        ensures
            r == old(self).program[old(self).pc as int],
            final(self)@ == (VmState { pc: (old(self).pc + 1) as usize, ..old(self)@ }),
    {
        let result = self.program[self.pc];
        self.pc = self.pc + 1;
        result
    }

    /// Reads the big-endian 16-bit value at the counter and moves past it.
    pub fn next_16_bits(&mut self) -> (r: u16)
        requires
            old(self).pc + 1 < old(self).program.len(),
        ensures
            r == old(self).program[old(self).pc as int] * 256 + old(self).program[old(self).pc
                + 1],
            final(self)@ == (VmState { pc: (old(self).pc + 2) as usize, ..old(self)@ }),
    {
        let hi: u8 = self.program[self.pc];
        let lo: u8 = self.program[self.pc + 1];
        let result: u16 = ((hi as u16) << 8) | lo as u16;
        assert(result == hi as u16 * 256 + lo as u16) by (bit_vector)
            requires
                result == ((hi as u16) << 8) | lo as u16,
        ;
        self.pc = self.pc + 2;
        result
    }

    /// Reads a register index at the counter and yields that register's value.
    fn read_register_operand(&mut self) -> (r: Result<i32, Fault>)
        ensures
            r == register_operand(old(self)@, old(self).pc as int),
            final(self)@ == (VmState { pc: final(self).pc, ..old(self)@ }),
            r is Ok ==> final(self).pc == old(self).pc + 1,
    {
        if self.pc >= self.program.len() {
            return Err(Fault::ProgramOverrun);
        }
        let index = self.next_8_bits();
        if index as usize >= REGISTER_COUNT {
            return Err(Fault::BadRegister);
        }
        Ok(self.registers[index as usize])
    }

    /// Reads a register index at the counter.
    fn read_destination(&mut self) -> (r: Result<u8, Fault>)
        ensures
            r == destination_operand(old(self)@, old(self).pc as int),
            final(self)@ == (VmState { pc: final(self).pc, ..old(self)@ }),
            r is Ok ==> final(self).pc == old(self).pc + 1,
    {
        if self.pc >= self.program.len() {
            return Err(Fault::ProgramOverrun);
        }
        let index = self.next_8_bits();
        if index as usize >= REGISTER_COUNT {
            return Err(Fault::BadRegister);
        }
        Ok(index)
    }

    /// `LOAD`, with the counter past the opcode.
    fn execute_load(&mut self) -> (r: Result<bool, Fault>)
        ensures
            match load_step(old(self)@) {
                Ok((t, running)) => r == Ok::<bool, Fault>(running) && final(self)@ == t,
                Err(f) => r == Err::<bool, Fault>(f) && final(self)@ == (VmState {
                    pc: final(self).pc,
                    ..old(self)@
                }),
            },
    {
        if self.pc >= self.program.len() || self.program.len() - self.pc < 3 {
            return Err(Fault::ProgramOverrun);
        }
        let register = self.next_8_bits();
        let number = self.next_16_bits();
        if register as usize >= REGISTER_COUNT {
            return Err(Fault::BadRegister);
        }
        self.registers[register as usize] = number as i32;
        Ok(true)
    }

    /// `ADD`, `SUB`, `MUL` or `DIV`, with the counter past the opcode.
    fn execute_arith(&mut self, op: Opcode) -> (r: Result<bool, Fault>)
        requires
            is_arith(op),
        ensures
            match arith_step(old(self)@, op) {
                Ok((t, running)) => r == Ok::<bool, Fault>(running) && final(self)@ == t,
                Err(f) => r == Err::<bool, Fault>(f) && final(self)@ == (VmState {
                    pc: final(self).pc,
                    ..old(self)@
                }),
            },
    {
        let x = match self.read_register_operand() {
            Ok(v) => v,
            Err(f) => return Err(f),
        };
        let y = match self.read_register_operand() {
            Ok(v) => v,
            Err(f) => return Err(f),
        };
        let v = match arith(op, x, y) {
            Ok(v) => v,
            Err(f) => return Err(f),
        };
        let d = match self.read_destination() {
            Ok(d) => d,
            Err(f) => return Err(f),
        };
        self.registers[d as usize] = v;
        if op == Opcode::DIV {
            self.remainder = division_remainder(x, y);
        }
        Ok(true)
    }

    /// A comparison opcode, with the counter past the opcode.
    fn execute_compare(&mut self, op: Opcode) -> (r: Result<bool, Fault>)
        requires
            is_comparison(op),
        ensures
            match compare_step(old(self)@, op) {
                Ok((t, running)) => r == Ok::<bool, Fault>(running) && final(self)@ == t,
                Err(f) => r == Err::<bool, Fault>(f) && final(self)@ == (VmState {
                    pc: final(self).pc,
                    ..old(self)@
                }),
            },
    {
        let x = match self.read_register_operand() {
            Ok(v) => v,
            Err(f) => return Err(f),
        };
        let y = match self.read_register_operand() {
            Ok(v) => v,
            Err(f) => return Err(f),
        };
        if self.pc >= self.program.len() {
            return Err(Fault::ProgramOverrun);
        }
        self.psw = compare_values(op, x, y);
        self.next_8_bits();
        Ok(true)
    }

    /// `JMP`, `JMPF` or `JEQ`, with the counter past the opcode.
    fn execute_jump(&mut self, op: Opcode) -> (r: Result<bool, Fault>)
        requires
            op == Opcode::JMP || op == Opcode::JMPF || op == Opcode::JEQ,
        ensures
            match jump_step(old(self)@, op) {
                Ok((t, running)) => r == Ok::<bool, Fault>(running) && final(self)@ == t,
                Err(f) => r == Err::<bool, Fault>(f) && final(self)@ == (VmState {
                    pc: final(self).pc,
                    ..old(self)@
                }),
            },
    {
        let value = match self.read_register_operand() {
            Ok(v) => v,
            Err(f) => return Err(f),
        };
        if op == Opcode::JMP {
            self.pc = value as usize;
        } else if op == Opcode::JMPF {
            let offset = value as usize;
            if offset > usize::MAX - self.pc {
                return Err(Fault::Overflow);
            }
            self.pc = self.pc + offset;
        } else if self.psw {
            self.pc = value as usize;
        }
        Ok(true)
    }

    /// Carries out one step; on a fault only the counter may have moved.
    fn advance(&mut self) -> (r: Result<bool, Fault>)
        ensures
            match step(old(self)@) {
                Ok((t, running)) => r == Ok::<bool, Fault>(running) && final(self)@ == t,
                Err(f) => r == Err::<bool, Fault>(f) && final(self)@ == (VmState {
                    pc: final(self).pc,
                    ..old(self)@
                }),
            },
    {
        if self.pc >= self.program.len() {
            return Ok(false);
        }
        let op = self.decode_opcode();
        match op {
            Opcode::HLT => Ok(false),
            Opcode::IGL => Ok(true),
            Opcode::LOAD => self.execute_load(),
            Opcode::ADD | Opcode::SUB | Opcode::MUL | Opcode::DIV => self.execute_arith(op),
            Opcode::EQ | Opcode::NEQ | Opcode::GT | Opcode::LT | Opcode::GTE | Opcode::LTE => {
                self.execute_compare(op)
            },
            Opcode::JMP | Opcode::JMPF | Opcode::JEQ => self.execute_jump(op),
        }
    }

    /// Checked execution of one step: reports a fault instead of carrying out
    /// an instruction that reads past the program, names a register that does
    /// not exist, divides by zero or overflows. On a fault nothing changes.
    pub fn try_execute_instruction(&mut self) -> (r: Result<bool, Fault>)
        ensures
            match step(old(self)@) {
                Ok((t, running)) => r == Ok::<bool, Fault>(running) && final(self)@ == t,
                Err(f) => r == Err::<bool, Fault>(f) && final(self)@ == old(self)@,
            },
    {
        let start = self.pc;
        let r = self.advance();
        if r.is_err() {
            self.pc = start;
        }
        r
    }

    /// Executes one step: `true` to keep running, `false` to stop.
    pub fn execute_instruction(&mut self) -> (r: bool)
        requires
            step(old(self)@) is Ok,
        ensures
            step(old(self)@) == Ok::<(VmState, bool), Fault>((final(self)@, r)),
    {
        match self.advance() {
            Ok(running) => running,
            Err(_) => false,
        }
    }

    /// Executes steps until one stops the engine, at the end of the program
    /// or at `HLT`.
    pub fn run(&mut self)
        requires
            exists|n: nat| ended_within(old(self)@, n),
            forall|n: nat| (#[trigger] trace(old(self)@, n)) is Ok,
        ensures
            exists|n: nat| trace(old(self)@, n) == Ok::<(VmState, bool), Fault>((final(self)@, false)),
    {
        let ghost start = self@;
        let ghost n = choose|n: nat| ended_within(start, n);
        let ghost mut k: nat = 0;
        let mut running = true;
        while running
            invariant
                ended_within(start, n),
                forall|m: nat| (#[trigger] trace(start, m)) is Ok,
                trace(start, k) == Ok::<(VmState, bool), Fault>((self@, running)),
                k <= n,
            decreases n - k,
        {
            proof {
                if n <= k {
                    lemma_ended_stays(start, n, k);
                }
                assert(trace(start, k + 1) is Ok);
            }
            running = self.execute_instruction();
            proof {
                k = k + 1;
            }
        }
    }

    /// Checked execution of a whole run: steps until one stops the engine, or
    /// until one faults, which is reported with the state left as it was
    /// before that step.
    pub fn try_run(&mut self) -> (r: Result<(), Fault>)
        requires
            exists|n: nat| ended_within(old(self)@, n),
        ensures
            r is Ok ==> exists|n: nat| trace(old(self)@, n) == Ok::<(VmState, bool), Fault>(
                (final(self)@, false),
            ),
            r is Err ==> exists|n: nat| trace(old(self)@, n) == Ok::<(VmState, bool), Fault>(
                (final(self)@, true),
            ) && step(final(self)@) == Err::<(VmState, bool), Fault>(r->Err_0),
    {
        let ghost start = self@;
        let ghost n = choose|n: nat| ended_within(start, n);
        let ghost mut k: nat = 0;
        let mut running = true;
        while running
            invariant
                start == old(self)@,
                ended_within(start, n),
                trace(start, k) == Ok::<(VmState, bool), Fault>((self@, running)),
                k <= n,
            decreases n - k,
        {
            proof {
                if n <= k {
                    lemma_ended_stays(start, n, k);
                }
            }
            match self.try_execute_instruction() {
                Ok(next) => {
                    running = next;
                    proof {
                        k = k + 1;
                    }
                },
                Err(f) => {
                    return Err(f);
                },
            }
        }
        Ok(())
    }
}

} // verus!
