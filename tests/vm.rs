use regvm::instruction::Opcode;
use regvm::semantics::Fault;
use regvm::vm::VM;

#[test]
fn test_create_vm() {
    let test_vm = VM::new();
    assert_eq!(test_vm.registers[0], 0);
    assert_eq!(test_vm.pc, 0);
    assert!(test_vm.program.is_empty());
}

#[test]
fn new_vm_is_all_zero() {
    let test_vm = VM::new();
    assert_eq!(test_vm.registers.len(), 32);
    assert!(test_vm.registers.iter().all(|r| *r == 0));
    assert_eq!(test_vm.remainder, 0);
    assert!(!test_vm.psw);
}

#[test]
fn test_opcode_hlt() {
    let mut test_vm = VM::new();
    test_vm.program = vec![0, 0, 0, 0];
    test_vm.execute_instruction();
    assert_eq!(test_vm.pc, 1);
}

#[test]
fn halt_reports_stop_and_leaves_the_rest() {
    let mut test_vm = VM::new();
    test_vm.program = vec![0, 0, 0, 0];
    assert!(!test_vm.execute_instruction());
    assert_eq!(test_vm.pc, 1);
    assert_eq!(test_vm.program, vec![0, 0, 0, 0]);
    assert!(test_vm.registers.iter().all(|r| *r == 0));
}

#[test]
fn test_opcode_igl() {
    let mut test_vm = VM::new();
    test_vm.program = vec![200, 0, 0, 0];
    test_vm.execute_instruction();
    assert_eq!(test_vm.pc, 1);
}

#[test]
fn illegal_opcode_reports_continue() {
    let mut test_vm = VM::new();
    test_vm.program = vec![200, 0, 0, 0];
    assert!(test_vm.execute_instruction());
    assert_eq!(test_vm.pc, 1);
}

#[test]
fn test_opcode_load() {
    let mut test_vm = VM::new();
    test_vm.program = vec![1, 0, 1, 244];
    test_vm.execute_instruction();
    assert_eq!(test_vm.registers[0], 500);
}

#[test]
fn load_zero_extends_the_immediate() {
    let mut test_vm = VM::new();
    test_vm.program = vec![1, 31, 255, 255];
    assert!(test_vm.execute_instruction());
    assert_eq!(test_vm.registers[31], 65535);
    assert_eq!(test_vm.pc, 4);
}

#[test]
fn test_opcode_add() {
    let mut test_vm = VM::new();
    test_vm.registers[0] = 255;
    test_vm.registers[1] = 2;
    test_vm.program = vec![2, 0, 1, 0];
    test_vm.execute_instruction();
    assert_eq!(test_vm.registers[0], 257);
}

#[test]
fn add_reads_operands_from_registers() {
    let mut test_vm = VM::new();
    test_vm.program = vec![1, 0, 0, 255, 1, 1, 0, 2, 2, 0, 1, 0];
    assert!(test_vm.execute_instruction());
    assert!(test_vm.execute_instruction());
    assert!(test_vm.execute_instruction());
    assert_eq!(test_vm.registers[0], 257);
    assert_eq!(test_vm.pc, 12);
}

#[test]
fn sub_and_mul() {
    let mut test_vm = VM::new();
    test_vm.registers[0] = 7;
    test_vm.registers[1] = 10;
    test_vm.program = vec![3, 0, 1, 2, 4, 2, 1, 3];
    test_vm.execute_instruction();
    assert_eq!(test_vm.registers[2], -3);
    test_vm.execute_instruction();
    assert_eq!(test_vm.registers[3], -30);
    assert_eq!(test_vm.pc, 8);
}

#[test]
fn test_opcode_div() {
    let mut test_vm = VM::new();
    test_vm.registers[0] = 5;
    test_vm.registers[1] = 2;
    test_vm.program = vec![5, 0, 1, 0];
    test_vm.execute_instruction();
    assert_eq!(test_vm.registers[0], 2);
    assert_eq!(test_vm.remainder, 1);
}

#[test]
fn div_of_negative_rounds_toward_zero() {
    let mut test_vm = VM::new();
    test_vm.registers[0] = -7;
    test_vm.registers[1] = 2;
    test_vm.program = vec![5, 0, 1, 2];
    test_vm.execute_instruction();
    assert_eq!(test_vm.registers[2], -3);
    assert_eq!(test_vm.remainder, (-1i32) as u32);
    assert_eq!(test_vm.remainder, 4294967295);
}

#[test]
fn div_by_negative() {
    let mut test_vm = VM::new();
    test_vm.registers[0] = 7;
    test_vm.registers[1] = -2;
    test_vm.program = vec![5, 0, 1, 2];
    test_vm.execute_instruction();
    assert_eq!(test_vm.registers[2], -3);
    assert_eq!(test_vm.remainder, 1);
}

#[test]
fn test_opcode_jmp() {
    let mut test_vm = VM::new();
    test_vm.registers[1] = 1;
    test_vm.program = vec![6, 1, 0, 0];
    test_vm.execute_instruction();
    assert_eq!(test_vm.pc, 1);
}

#[test]
fn test_opcode_jumpf() {
    let mut test_vm = VM::new();
    test_vm.registers[0] = 2;
    test_vm.program = vec![7, 0, 0, 0];
    test_vm.execute_instruction();
    assert_eq!(test_vm.pc, 4);
}

#[test]
fn test_opcode_eq() {
    let mut test_vm = VM::new();
    test_vm.registers[0] = 1;
    test_vm.registers[1] = 1;
    test_vm.program = vec![8, 0, 1, 0, 8, 0, 1, 0];
    test_vm.execute_instruction();
    assert_eq!(test_vm.psw, true);
    test_vm.registers[1] = 2;
    test_vm.execute_instruction();
    assert_eq!(test_vm.psw, false);
}

#[test]
fn test_opcode_jeq() {
    let mut test_vm = VM::new();
    test_vm.registers[0] = 1;
    test_vm.psw = true;
    test_vm.program = vec![14, 0, 0, 0];
    test_vm.execute_instruction();
    assert_eq!(test_vm.pc, 1);
}

#[test]
fn jeq_without_flag_does_not_jump() {
    let mut test_vm = VM::new();
    test_vm.registers[0] = 3;
    test_vm.psw = false;
    test_vm.program = vec![14, 0, 0, 0];
    assert!(test_vm.execute_instruction());
    assert_eq!(test_vm.pc, 2);
}

#[test]
fn equal_then_jump_if_equal() {
    let mut test_vm = VM::new();
    test_vm.registers[0] = 1;
    test_vm.registers[1] = 1;
    test_vm.registers[2] = 0;
    test_vm.program = vec![8, 0, 1, 0, 14, 2];
    test_vm.execute_instruction();
    assert!(test_vm.psw);
    test_vm.execute_instruction();
    assert_eq!(test_vm.pc, 0);

    test_vm.registers[1] = 2;
    test_vm.execute_instruction();
    assert!(!test_vm.psw);
    test_vm.execute_instruction();
    assert_eq!(test_vm.pc, 6);
}

#[test]
fn not_equal_consumes_four_bytes() {
    let mut test_vm = VM::new();
    test_vm.registers[0] = 1;
    test_vm.program = vec![9, 0, 0, 0];
    assert!(test_vm.execute_instruction());
    assert_eq!(test_vm.pc, 4);
    assert!(!test_vm.psw);
}

#[test]
fn ordering_comparisons() {
    let mut test_vm = VM::new();
    test_vm.registers[0] = 1;
    test_vm.registers[1] = 2;
    let cases: [(u8, bool); 4] = [(10, false), (11, true), (12, false), (13, true)];
    for (byte, expected) in cases {
        test_vm.pc = 0;
        test_vm.program = vec![byte, 0, 1, 0];
        assert!(test_vm.execute_instruction());
        assert_eq!(test_vm.psw, expected);
        assert_eq!(test_vm.pc, 4);
    }
}

#[test]
fn step_past_the_end_stops() {
    let mut test_vm = VM::new();
    test_vm.program = vec![200];
    test_vm.pc = 1;
    assert!(!test_vm.execute_instruction());
    assert_eq!(test_vm.pc, 1);
}

#[test]
fn run_stops_at_halt() {
    let mut test_vm = VM::new();
    test_vm.program = vec![1, 0, 0, 7, 2, 0, 0, 1, 0, 1, 0, 9];
    test_vm.run();
    assert_eq!(test_vm.registers[0], 7);
    assert_eq!(test_vm.registers[1], 14);
    assert_eq!(test_vm.pc, 9);
}

#[test]
fn run_stops_at_end_of_program() {
    let mut test_vm = VM::new();
    test_vm.program = vec![200, 200, 1, 3, 0, 42];
    test_vm.run();
    assert_eq!(test_vm.registers[3], 42);
    assert_eq!(test_vm.pc, 6);
}

#[test]
fn load_program_keeps_the_counter() {
    let mut test_vm = VM::new();
    test_vm.pc = 2;
    test_vm.load_program(vec![200, 200, 0]);
    assert_eq!(test_vm.program, vec![200, 200, 0]);
    assert_eq!(test_vm.pc, 2);
}

#[test]
fn decode_opcode_and_operands() {
    let mut test_vm = VM::new();
    test_vm.program = vec![1, 4, 1, 244];
    assert_eq!(test_vm.decode_opcode(), Opcode::LOAD);
    assert_eq!(test_vm.next_8_bits(), 4);
    assert_eq!(test_vm.next_16_bits(), 500);
    assert_eq!(test_vm.pc, 4);
}

#[test]
fn checked_step_reports_overrun() {
    let mut test_vm = VM::new();
    test_vm.program = vec![1, 0, 1];
    assert_eq!(test_vm.try_execute_instruction(), Err(Fault::ProgramOverrun));
    assert_eq!(test_vm.pc, 0);
}

#[test]
fn checked_step_reports_bad_register() {
    let mut test_vm = VM::new();
    test_vm.program = vec![2, 0, 32, 0];
    assert_eq!(test_vm.try_execute_instruction(), Err(Fault::BadRegister));
    assert_eq!(test_vm.pc, 0);
}

#[test]
fn checked_step_reports_division_by_zero() {
    let mut test_vm = VM::new();
    test_vm.registers[0] = 5;
    test_vm.program = vec![5, 0, 1, 2];
    assert_eq!(test_vm.try_execute_instruction(), Err(Fault::DivisionByZero));
    assert_eq!(test_vm.registers[2], 0);
    assert_eq!(test_vm.pc, 0);
}

#[test]
fn checked_step_reports_overflow() {
    let mut test_vm = VM::new();
    test_vm.registers[0] = i32::MAX;
    test_vm.registers[1] = 1;
    test_vm.program = vec![2, 0, 1, 2];
    assert_eq!(test_vm.try_execute_instruction(), Err(Fault::Overflow));

    test_vm.registers[0] = i32::MIN;
    test_vm.registers[1] = -1;
    test_vm.program = vec![5, 0, 1, 2];
    assert_eq!(test_vm.try_execute_instruction(), Err(Fault::Overflow));
}

#[test]
fn checked_step_matches_unchecked_step() {
    let mut test_vm = VM::new();
    test_vm.registers[0] = 5;
    test_vm.registers[1] = 2;
    test_vm.program = vec![5, 0, 1, 0];
    assert_eq!(test_vm.try_execute_instruction(), Ok(true));
    assert_eq!(test_vm.registers[0], 2);
    assert_eq!(test_vm.remainder, 1);
    assert_eq!(test_vm.pc, 4);
}

#[test]
fn jump_forward_by_negative_wraps_past_the_end() {
    let mut test_vm = VM::new();
    test_vm.registers[0] = -5;
    test_vm.program = vec![7, 0, 0, 0];
    assert!(test_vm.execute_instruction());
    assert_eq!(test_vm.pc, usize::MAX - 2);
    assert!(!test_vm.execute_instruction());
}

#[test]
fn jump_forward_that_overflows_the_counter_faults() {
    let mut test_vm = VM::new();
    test_vm.registers[0] = -1;
    test_vm.program = vec![7, 0, 0, 0];
    assert_eq!(test_vm.try_execute_instruction(), Err(Fault::Overflow));
    assert_eq!(test_vm.pc, 0);
}

#[test]
fn checked_run_reports_fault() {
    let mut test_vm = VM::new();
    test_vm.program = vec![200, 5, 0, 1, 2];
    assert_eq!(test_vm.try_run(), Err(Fault::DivisionByZero));
    assert_eq!(test_vm.pc, 1);
}

#[test]
fn checked_run_stops_at_halt() {
    let mut test_vm = VM::new();
    test_vm.program = vec![1, 0, 0, 3, 0, 1, 0, 9];
    assert_eq!(test_vm.try_run(), Ok(()));
    assert_eq!(test_vm.registers[0], 3);
    assert_eq!(test_vm.registers[1], 0);
    assert_eq!(test_vm.pc, 5);
}
