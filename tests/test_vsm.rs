use std::collections::VecDeque;

use virtual_stack_machine::code::OperationCode;
use virtual_stack_machine::vsm::{Action, Input, RunState, TraceRow, TraceType, VmError, Vsm};

fn load(listing: &str) -> Vsm {
    let mut vsm = Vsm::new(TraceType::No);
    let lines: Vec<String> = listing.split('/').map(|l| l.to_string()).collect();
    assert_eq!(vsm.read_code(&lines), Ok(()));
    vsm
}

fn load_lines(lines: &[&str]) -> Vsm {
    let mut vsm = Vsm::new(TraceType::No);
    let lines: Vec<String> = lines.iter().map(|l| l.to_string()).collect();
    assert_eq!(vsm.read_code(&lines), Ok(()));
    vsm
}

/// Runs to the end, feeding `inputs` to the instructions that read.
fn run(vsm: &mut Vsm, inputs: Vec<Input>) -> (String, Result<i32, VmError>) {
    let mut inputs: VecDeque<Input> = inputs.into();
    let mut out = String::new();
    loop {
        let pc = vsm.program_counter();
        let reads = pc < vsm.code().len()
            && matches!(
                vsm.code().get_instruction(pc).operation_code,
                OperationCode::Getc | OperationCode::Geti
            );
        let input = if reads { inputs.pop_front() } else { None };
        match vsm.step(input) {
            Ok(Action::Continue) => {}
            Ok(Action::PutChar(c)) => out.push(c),
            Ok(Action::PutInt(v)) => out.push_str(&v.to_string()),
            Ok(Action::Exit(v)) => return (out, Ok(v)),
            Err(e) => return (out, Err(e)),
        }
    }
}

#[test]
fn constant_arithmetic() {
    let mut vsm = load("LC 2 / LC 3 / ADD / PUTI / LC 10 / PUTC / LC 0 / EXIT");
    assert_eq!(run(&mut vsm, vec![]), ("5\n".to_string(), Ok(0)));
    assert_eq!(vsm.run_state(), RunState::Halted);
}

#[test]
fn operand_order() {
    let mut vsm = load("LC 7 / LC 2 / SUB / PUTI / LC 0 / EXIT");
    assert_eq!(run(&mut vsm, vec![]), ("5".to_string(), Ok(0)));
}

#[test]
fn globals_via_la_si_lv() {
    let mut vsm = load("ISP 3 / LA 0 0 / LC 42 / SI / LV 0 0 / PUTI / LC 0 / EXIT");
    assert_eq!(run(&mut vsm, vec![]), ("42".to_string(), Ok(0)));
}

#[test]
fn branch_and_loop_countdown() {
    let mut vsm = load_lines(&[
        "LC 3", "DUP", "BZ 5", "DUP", "PUTI", "LC 1", "SUB", "B -7", "LC 0", "EXIT",
    ]);
    assert_eq!(run(&mut vsm, vec![]), ("321".to_string(), Ok(0)));
}

#[test]
fn call_ret_square() {
    let mut vsm = load_lines(&[
        "LC 6",     // the argument
        "CALL 5",   // square it
        "PUTI",     // the placeholder slot holds the result
        "LC 0",
        "EXIT",
        "LV 1 -1",  // the argument, just below the frame
        "LV 1 -1",
        "MUL",
        "SV 1 0",   // into the placeholder slot
        "RET",
    ]);
    assert_eq!(run(&mut vsm, vec![]), ("36".to_string(), Ok(0)));
}

#[test]
fn divide_by_zero() {
    let mut vsm = load("LC 1 / LC 0 / DIV / EXIT");
    assert_eq!(run(&mut vsm, vec![]), (String::new(), Err(VmError::DivideByZero)));
    assert_eq!(vsm.run_state(), RunState::Halted);
    // The failed step leaves the machine as it was before it.
    assert_eq!(vsm.stack_values(), vec![1, 0]);
    assert_eq!(vsm.program_counter(), 2);
}

#[test]
fn modulo_by_zero() {
    let mut vsm = load("LC 1 / LC 0 / MOD / EXIT");
    assert_eq!(run(&mut vsm, vec![]).1, Err(VmError::DivideByZero));
}

#[test]
fn negative_isp_is_bad_operand() {
    let mut vsm = load("ISP -1 / EXIT");
    assert_eq!(run(&mut vsm, vec![]).1, Err(VmError::BadOperand));
}

#[test]
fn running_off_the_end() {
    let mut vsm = load("LC 1 / LC 2");
    assert_eq!(vsm.step(None), Ok(Action::Continue));
    assert_eq!(vsm.step(None), Ok(Action::Continue));
    assert_eq!(vsm.program_counter(), 2);
    assert_eq!(vsm.step(None), Err(VmError::PcOutOfRange));
}

#[test]
fn empty_program_is_out_of_range() {
    let mut vsm = Vsm::new(TraceType::No);
    assert_eq!(vsm.step(None), Err(VmError::PcOutOfRange));
}

#[test]
fn pc_stays_in_program() {
    let mut vsm = load("LC 1 / BZ 3 / B 2 / LC 5 / EXIT / LC 0 / BZ -4");
    let len = vsm.code().len();
    loop {
        match vsm.step(None) {
            Ok(Action::Exit(v)) => {
                assert_eq!(v, 5);
                break;
            }
            Ok(_) => assert!(vsm.program_counter() < len),
            Err(e) => panic!("unexpected error {:?}", e),
        }
    }
}

#[test]
fn branch_outside_program() {
    let mut vsm = load("B -2 / EXIT");
    assert_eq!(vsm.step(None), Err(VmError::PcOutOfRange));
    let mut vsm = load("LC 0 / BZ 10 / EXIT");
    assert_eq!(run(&mut vsm, vec![]).1, Err(VmError::PcOutOfRange));
}

#[test]
fn stack_bound_is_kept() {
    let mut vsm = load("LC 1 / LC 2 / LC 3 / EXIT");
    vsm.allocation_stack(2);
    assert_eq!(vsm.step(None), Ok(Action::Continue));
    assert_eq!(vsm.step(None), Ok(Action::Continue));
    assert_eq!(vsm.step(None), Err(VmError::MemoryFault));
    assert_eq!(vsm.stack_values(), vec![1, 2]);
}

#[test]
fn isp_beyond_bound() {
    let mut vsm = load("ISP 5 / EXIT");
    vsm.allocation_stack(4);
    assert_eq!(vsm.step(None), Err(VmError::MemoryFault));
    let mut vsm = load("ISP 4 / EXIT");
    vsm.allocation_stack(4);
    assert_eq!(vsm.step(None), Ok(Action::Continue));
    assert_eq!(vsm.stack_values(), vec![0, 0, 0, 0]);
}

#[test]
fn frames_nest_through_call_and_ret() {
    let mut vsm = load_lines(&["ISP 2", "CALL 3", "EXIT", "ISP 1", "RET"]);
    assert_eq!(vsm.step(None), Ok(Action::Continue));
    assert_eq!(vsm.step(None), Ok(Action::Continue));
    assert_eq!(vsm.frame_base(), 2);
    assert_eq!(vsm.stack_values(), vec![0, 0, 0, 0, 2]);
    assert!(vsm.global_base() <= vsm.frame_base());
    assert_eq!(vsm.step(None), Ok(Action::Continue));
    assert_eq!(vsm.step(None), Ok(Action::Continue));
    assert_eq!(vsm.frame_base(), 0);
    assert_eq!(vsm.program_counter(), 2);
    assert_eq!(vsm.stack_values(), vec![0, 0, 0]);
    assert!(vsm.global_base() <= vsm.frame_base());
    assert!(vsm.frame_base() <= vsm.stack_values().len());
}

#[test]
fn ret_without_frame_is_memory_fault() {
    let mut vsm = load("RET");
    assert_eq!(vsm.step(None), Err(VmError::MemoryFault));
}

#[test]
fn binary_ops_pop_one() {
    for op in ["ADD", "SUB", "MUL", "DIV", "MOD", "EQ", "NE", "GT", "LT", "GE", "LE"] {
        let mut vsm = load(&format!("LC 9 / LC 7 / LC 3 / {} / EXIT", op));
        for _ in 0..3 {
            assert_eq!(vsm.step(None), Ok(Action::Continue));
        }
        assert_eq!(vsm.stack_values().len(), 3);
        assert_eq!(vsm.step(None), Ok(Action::Continue));
        assert_eq!(vsm.stack_values().len(), 2, "{}", op);
    }
    let mut vsm = load("LC 4 / INV / EXIT");
    assert_eq!(run(&mut vsm, vec![]).1, Ok(-4));
}

fn eval(op: &str, a: i32, b: i32) -> Result<i32, VmError> {
    let mut vsm = load(&format!("LC {} / LC {} / {} / EXIT", a, b, op));
    run(&mut vsm, vec![]).1
}

#[test]
fn arithmetic_values() {
    assert_eq!(eval("ADD", i32::MAX, 1), Ok(i32::MIN));
    assert_eq!(eval("SUB", i32::MIN, 1), Ok(i32::MAX));
    assert_eq!(eval("MUL", 65536, 65536), Ok(0));
    assert_eq!(eval("MUL", -6, 7), Ok(-42));
    assert_eq!(eval("DIV", -7, 2), Ok(-3));
    assert_eq!(eval("DIV", 7, -2), Ok(-3));
    assert_eq!(eval("DIV", i32::MIN, -1), Ok(i32::MIN));
    assert_eq!(eval("MOD", -7, 2), Ok(-1));
    assert_eq!(eval("MOD", 7, -2), Ok(1));
    assert_eq!(eval("MOD", i32::MIN, -1), Ok(0));
    let mut vsm = load("LC -2147483648 / INV / EXIT");
    assert_eq!(run(&mut vsm, vec![]).1, Ok(i32::MIN));
}

#[test]
fn comparisons() {
    assert_eq!(eval("EQ", 3, 3), Ok(1));
    assert_eq!(eval("EQ", 3, 4), Ok(0));
    assert_eq!(eval("NE", 3, 4), Ok(1));
    assert_eq!(eval("GT", 5, 4), Ok(1));
    assert_eq!(eval("GT", 4, 5), Ok(0));
    assert_eq!(eval("LT", 4, 5), Ok(1));
    assert_eq!(eval("GE", 5, 5), Ok(1));
    assert_eq!(eval("LE", 6, 5), Ok(0));
}

#[test]
fn store_into_own_address() {
    let mut vsm = load("ISP 3 / LC 1 / DUP / SI / EXIT");
    assert_eq!(vsm.step(None), Ok(Action::Continue));
    let before = vsm.stack_values();
    for _ in 0..3 {
        assert_eq!(vsm.step(None), Ok(Action::Continue));
    }
    assert_eq!(vsm.stack_values(), vec![0, 1, 0]);
    assert_eq!(before.len(), vsm.stack_values().len());
    // Again: now slot 1 already holds 1 and nothing changes.
    let mut vsm = load("ISP 3 / LC 1 / DUP / SI / LC 1 / DUP / SI / EXIT");
    for _ in 0..4 {
        assert_eq!(vsm.step(None), Ok(Action::Continue));
    }
    let once = vsm.stack_values();
    for _ in 0..3 {
        assert_eq!(vsm.step(None), Ok(Action::Continue));
    }
    assert_eq!(vsm.stack_values(), once);
}

#[test]
fn loads_and_stores() {
    let mut vsm = load("ISP 2 / LC 0 / LC 1 / SB 1 / LA 1 1 / LC 8 / SI / LV 0 2 / LA 0 2 / LI / ADD / EXIT");
    assert_eq!(run(&mut vsm, vec![]).1, Ok(16));
    let mut vsm = load("ISP 2 / LC 5 / SV 0 1 / LV 0 1 / EXIT");
    assert_eq!(run(&mut vsm, vec![]).1, Ok(5));
}

#[test]
fn stack_errors() {
    let mut vsm = load("DUP");
    assert_eq!(vsm.step(None), Err(VmError::StackUnderflow));
    let mut vsm = load("LC 1 / ADD");
    assert_eq!(run(&mut vsm, vec![]).1, Err(VmError::StackUnderflow));
    let mut vsm = load("LV 0 5");
    assert_eq!(vsm.step(None), Err(VmError::MemoryFault));
    let mut vsm = load("LC 7 / LI");
    assert_eq!(run(&mut vsm, vec![]).1, Err(VmError::MemoryFault));
    let mut vsm = load("LA 2 0");
    assert_eq!(vsm.step(None), Err(VmError::BadBaseRegister));
    let mut vsm = load("LC 1 / SB 3");
    assert_eq!(run(&mut vsm, vec![]).1, Err(VmError::BadBaseRegister));
    let mut vsm = load("LC -1 / SB 0");
    assert_eq!(run(&mut vsm, vec![]).1, Err(VmError::BadOperand));
}

#[test]
fn exit_with_empty_stack_is_zero() {
    let mut vsm = load("EXIT");
    assert_eq!(vsm.step(None), Ok(Action::Exit(0)));
    assert_eq!(vsm.run_state(), RunState::Halted);
}

#[test]
fn putc_writes_characters() {
    let mut vsm = load("LC 65 / PUTC / LC 12354 / PUTC / LC 0 / EXIT");
    assert_eq!(run(&mut vsm, vec![]), ("A\u{3042}".to_string(), Ok(0)));
    let mut vsm = load("LC 55296 / PUTC");
    assert_eq!(run(&mut vsm, vec![]).1, Err(VmError::BadOperand));
    let mut vsm = load("LC -5 / PUTC");
    assert_eq!(run(&mut vsm, vec![]).1, Err(VmError::BadOperand));
}

#[test]
fn reads_from_input() {
    let mut vsm = load("GETC / GETI / ADD / EXIT");
    let inputs = vec![Input::Byte(b'a'), Input::Line(" 42 \n".to_string())];
    assert_eq!(run(&mut vsm, inputs).1, Ok(97 + 42));
    let mut vsm = load("GETI / EXIT");
    assert_eq!(run(&mut vsm, vec![Input::Line("x1".to_string())]).1, Err(VmError::IoFormat));
    let mut vsm = load("GETC / EXIT");
    assert_eq!(run(&mut vsm, vec![]).1, Err(VmError::IoEnd));
    let mut vsm = load("GETI / EXIT");
    assert_eq!(run(&mut vsm, vec![Input::Byte(1)]).1, Err(VmError::IoEnd));
}

#[test]
fn trace_rows_show_stale_slots() {
    let mut vsm = load("LC 4 / LC 5 / ADD / EXIT");
    assert!(vsm.trace_rows().is_empty());
    for _ in 0..3 {
        assert_eq!(vsm.step(None), Ok(Action::Continue));
    }
    let rows = vsm.trace_rows();
    assert_eq!(
        rows,
        vec![
            TraceRow { index: 1, value: 5, is_b0: false, is_b1: false, is_top: false },
            TraceRow { index: 0, value: 9, is_b0: true, is_b1: true, is_top: true },
        ]
    );
}

#[test]
fn new_machine() {
    let vsm = Vsm::new(TraceType::TraceStack);
    assert_eq!(vsm.trace_type(), TraceType::TraceStack);
    assert_eq!(vsm.run_state(), RunState::Loaded);
    assert_eq!(vsm.program_counter(), 0);
    assert!(vsm.stack_values().is_empty());
    assert_eq!(vsm.code().len(), 0);
}
