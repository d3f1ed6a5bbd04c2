use asm_buf::buf::{new, BUF_SIZE};
use asm_buf::driver::{eval_op, iterate, op_from_byte, parse_digit, run_steps, scan_line};
use asm_buf::emit::{compile, emit_op, emit_steps, encode_step};
use asm_buf::error::JitError;
use asm_buf::isa::{encode_instr, Instr, Op, Step};

fn step(op: Op, operand: i64) -> Step {
    Step { op, operand }
}

#[test]
fn add_program_iterates() {
    let (steps, _) = scan_line(b"+5\n", 0).unwrap();
    assert!(compile(&steps).is_ok());
    let values = iterate(&steps, 10, 3).unwrap();
    assert_eq!(values, vec![10, 15, 20, 25]);
}

#[test]
fn not_program_iterates() {
    let (steps, _) = scan_line(b"!\n", 0).unwrap();
    assert!(compile(&steps).is_ok());
    let values = iterate(&steps, 0, 1).unwrap();
    assert_eq!(values, vec![0, -1]);
}

#[test]
fn chained_program_iterates() {
    let (steps, _) = scan_line(b"*3 +1\n", 0).unwrap();
    assert_eq!(steps, vec![step(Op::Mul, 3), step(Op::Add, 1)]);
    assert!(compile(&steps).is_ok());
    let values = iterate(&steps, 2, 1).unwrap();
    assert_eq!(values, vec![2, 7]);
}

#[test]
fn every_operator_result() {
    assert_eq!(eval_op(Op::Add, 10, 5), Ok(15));
    assert_eq!(eval_op(Op::Sub, 10, 5), Ok(5));
    assert_eq!(eval_op(Op::Mul, 10, 5), Ok(50));
    assert_eq!(eval_op(Op::Div, 10, 5), Ok(2));
    assert_eq!(eval_op(Op::Rem, 10, 3), Ok(1));
    assert_eq!(eval_op(Op::Xor, 6, 3), Ok(5));
    assert_eq!(eval_op(Op::And, 6, 3), Ok(2));
    assert_eq!(eval_op(Op::Or, 6, 3), Ok(7));
    assert_eq!(eval_op(Op::Shl, 1, 3), Ok(8));
    assert_eq!(eval_op(Op::Shr, -8, 1), Ok(-4));
    assert_eq!(eval_op(Op::Not, 0, 0), Ok(-1));
}

#[test]
fn division_truncates_toward_zero() {
    assert_eq!(eval_op(Op::Div, -7, 2), Ok(-3));
    assert_eq!(eval_op(Op::Div, 7, -2), Ok(-3));
    assert_eq!(eval_op(Op::Div, -7, -2), Ok(3));
}

#[test]
fn remainder_sign_follows_dividend() {
    assert_eq!(eval_op(Op::Rem, -7, 2), Ok(-1));
    assert_eq!(eval_op(Op::Rem, 7, -2), Ok(1));
    assert_eq!(eval_op(Op::Rem, -7, -2), Ok(-1));
}

#[test]
fn shift_count_reduced_mod_64() {
    assert_eq!(eval_op(Op::Shl, 1, 65), Ok(2));
    assert_eq!(eval_op(Op::Shl, 1, 64), Ok(1));
    assert_eq!(eval_op(Op::Shr, -1, 64), Ok(-1));
    assert_eq!(eval_op(Op::Shr, i64::MIN, 63), Ok(-1));
}

#[test]
fn complement_ignores_operand() {
    assert_eq!(eval_op(Op::Not, 5, 12345), Ok(!5));
    assert_eq!(eval_op(Op::Not, 5, -1), Ok(!5));
}

#[test]
fn arithmetic_wraps_mod_64_bits() {
    assert_eq!(eval_op(Op::Add, i64::MAX, 1), Ok(i64::MIN));
    assert_eq!(eval_op(Op::Sub, i64::MIN, 1), Ok(i64::MAX));
    assert_eq!(eval_op(Op::Mul, i64::MAX, 2), Ok(-2));
}

#[test]
fn division_faults_are_refused() {
    assert_eq!(eval_op(Op::Div, 1, 0), Err(JitError::DivisionFault));
    assert_eq!(eval_op(Op::Rem, 1, 0), Err(JitError::DivisionFault));
    assert_eq!(eval_op(Op::Div, i64::MIN, -1), Err(JitError::DivisionFault));
    assert_eq!(eval_op(Op::Rem, i64::MIN, -1), Err(JitError::DivisionFault));
}

#[test]
fn division_fault_stops_a_chain() {
    let (steps, _) = scan_line(b"/0\n", 0).unwrap();
    assert_eq!(run_steps(&steps, 4), Err(JitError::DivisionFault));
    assert_eq!(iterate(&steps, 4, 2), Err(JitError::DivisionFault));
}

#[test]
fn append_after_finalize_is_refused() {
    let mut b = new();
    b.to_fn().unwrap();
    let len = b.len();
    assert_eq!(b.write(&[0x90]), Err(JitError::Locked));
    assert_eq!(b.op_mov_rdi_imm64(7), Err(JitError::Locked));
    let mut one = Vec::new();
    one.push(step(Op::Add, 1));
    assert_eq!(emit_steps(&mut b, &one), Err(JitError::Locked));
    assert_eq!(emit_op(&mut b, Op::Add, 1), Err(JitError::Locked));
    assert_eq!(b.len(), len);
}

#[test]
fn append_past_capacity_is_refused() {
    let mut b = new();
    let len = b.len();
    let big = vec![0u8; BUF_SIZE - len + 1];
    assert_eq!(b.write(&big), Err(JitError::CapacityExceeded));
    assert_eq!(b.len(), len);
    assert!(!b.locked());
    let fill = vec![0u8; BUF_SIZE - len];
    assert_eq!(b.write(&fill), Ok(()));
    assert_eq!(b.len(), BUF_SIZE);
    assert_eq!(b.write(&[0]), Err(JitError::CapacityExceeded));
    assert_eq!(b.len(), BUF_SIZE);
    assert_eq!(b.to_fn(), Err(JitError::CapacityExceeded));
    assert!(!b.locked());
}

#[test]
fn finalize_is_idempotent_and_locks() {
    let mut b = new();
    assert!(!b.locked());
    let code1 = b.to_fn().unwrap();
    assert!(b.locked());
    let len = b.len();
    let code2 = b.to_fn().unwrap();
    assert_eq!(code1, code2);
    assert_eq!(b.len(), len);
    assert_eq!(code2, b.code());
}

#[test]
fn exact_bytes_of_add_program() {
    let mut expected = vec![0x48, 0x89, 0xf8];
    expected.extend_from_slice(&[0x48, 0xbf, 5, 0, 0, 0, 0, 0, 0, 0]);
    expected.extend_from_slice(&[0x48, 0x01, 0xf8]);
    expected.push(0xc3);
    let (steps, _) = scan_line(b"+5\n", 0).unwrap();
    let b = compile(&steps).unwrap();
    assert!(b.locked());
    assert_eq!(b.code(), expected);
}

#[test]
fn exact_bytes_of_negative_immediate() {
    let enc = encode_instr(Instr::MovRdiImm(-2));
    assert_eq!(
        enc,
        vec![0x48, 0xbf, 0xfe, 0xff, 0xff, 0xff, 0xff, 0xff, 0xff, 0xff]
    );
}

#[test]
fn step_encodings_follow_the_table() {
    assert_eq!(encode_step(Op::Not, 0), vec![0x48, 0xf7, 0xd0]);
    let div = encode_step(Op::Div, 2);
    let mut expected = vec![0x48, 0xbf, 2, 0, 0, 0, 0, 0, 0, 0];
    expected.extend_from_slice(&[0x48, 0x99]);
    expected.extend_from_slice(&[0x48, 0xf7, 0xff]);
    assert_eq!(div, expected);
    let rem = encode_step(Op::Rem, 2);
    let mut expected = vec![0x48, 0xbf, 2, 0, 0, 0, 0, 0, 0, 0];
    expected.extend_from_slice(&[0x48, 0x99]);
    expected.extend_from_slice(&[0x48, 0xf7, 0xff]);
    expected.extend_from_slice(&[0x48, 0x89, 0xd0]);
    assert_eq!(rem, expected);
    let shl = encode_step(Op::Shl, 1);
    let mut expected = vec![0x48, 0xbf, 1, 0, 0, 0, 0, 0, 0, 0];
    expected.extend_from_slice(&[0x89, 0xf9]);
    expected.extend_from_slice(&[0x48, 0xd3, 0xe0]);
    assert_eq!(shl, expected);
    let shr = encode_step(Op::Shr, 1);
    let mut expected = vec![0x48, 0xbf, 1, 0, 0, 0, 0, 0, 0, 0];
    expected.extend_from_slice(&[0x89, 0xf9]);
    expected.extend_from_slice(&[0x48, 0xd3, 0xf8]);
    assert_eq!(shr, expected);
}

#[test]
fn every_instruction_encoding() {
    assert_eq!(encode_instr(Instr::MovRaxRdi), vec![0x48, 0x89, 0xf8]);
    assert_eq!(
        encode_instr(Instr::MovRdiImm(5)),
        vec![0x48, 0xbf, 5, 0, 0, 0, 0, 0, 0, 0]
    );
    assert_eq!(encode_instr(Instr::AddRaxRdi), vec![0x48, 0x01, 0xf8]);
    assert_eq!(encode_instr(Instr::SubRaxRdi), vec![0x48, 0x29, 0xf8]);
    assert_eq!(encode_instr(Instr::ImulRaxRdi), vec![0x48, 0x0f, 0xaf, 0xc7]);
    assert_eq!(encode_instr(Instr::Cqo), vec![0x48, 0x99]);
    assert_eq!(encode_instr(Instr::IdivRdi), vec![0x48, 0xf7, 0xff]);
    assert_eq!(encode_instr(Instr::MovRaxRdx), vec![0x48, 0x89, 0xd0]);
    assert_eq!(encode_instr(Instr::XorRaxRdi), vec![0x48, 0x31, 0xf8]);
    assert_eq!(encode_instr(Instr::AndRaxRdi), vec![0x48, 0x21, 0xf8]);
    assert_eq!(encode_instr(Instr::OrRaxRdi), vec![0x48, 0x09, 0xf8]);
    assert_eq!(encode_instr(Instr::MovEcxEdi), vec![0x89, 0xf9]);
    // shl rax, cl is ModRM /4, sar rax, cl (sign-preserving) is ModRM /7.
    assert_eq!(encode_instr(Instr::ShlRaxCl), vec![0x48, 0xd3, 0xe0]);
    assert_eq!(encode_instr(Instr::ShrRaxCl), vec![0x48, 0xd3, 0xf8]);
    assert_eq!(encode_instr(Instr::NotRax), vec![0x48, 0xf7, 0xd0]);
    assert_eq!(encode_instr(Instr::Ret), vec![0xc3]);
}

#[test]
fn buffer_overflow_while_compiling() {
    let mut steps = Vec::new();
    for _ in 0..320 {
        steps.push(step(Op::Add, 1));
    }
    assert!(matches!(compile(&steps), Err(JitError::CapacityExceeded)));
    let mut steps = Vec::new();
    for _ in 0..300 {
        steps.push(step(Op::Add, 1));
    }
    assert!(compile(&steps).is_ok());
}

#[test]
fn unknown_operator_is_refused() {
    assert_eq!(scan_line(b"q\n", 0), Err(JitError::InvalidOperator));
    assert_eq!(scan_line(b"!5\n", 0), Err(JitError::InvalidOperator));
    assert_eq!(op_from_byte(b'q'), None);
    assert_eq!(op_from_byte(b'+'), Some(Op::Add));
    assert_eq!(op_from_byte(b'!'), Some(Op::Not));
}

#[test]
fn scanner_reads_signed_literals() {
    let (v, p) = parse_digit(b"  -42x", 0);
    assert_eq!((v, p), (-42, 5));
    let (v, p) = parse_digit(b"123", 0);
    assert_eq!((v, p), (123, 3));
    let (v, p) = parse_digit(b"", 0);
    assert_eq!((v, p), (0, 0));
    let (v, p) = parse_digit(b"\n 7 ", 0);
    assert_eq!((v, p), (7, 3));
}

#[test]
fn scanner_stops_at_newline() {
    let input = b"+5\n10 3\n";
    let (steps, pos) = scan_line(input, 0).unwrap();
    assert_eq!(steps, vec![step(Op::Add, 5)]);
    assert_eq!(pos, 3);
    let (init, pos) = parse_digit(input, pos);
    assert_eq!(init, 10);
    let (count, _) = parse_digit(input, pos);
    assert_eq!(count, 3);
}

#[test]
fn empty_line_compiles_to_identity() {
    let (steps, _) = scan_line(b"\n", 0).unwrap();
    assert_eq!(steps, Vec::new());
    let values = iterate(&steps, 9, 2).unwrap();
    assert_eq!(values, vec![9, 9, 9]);
    let b = compile(&steps).unwrap();
    assert_eq!(b.code(), vec![0x48, 0x89, 0xf8, 0xc3]);
}

#[test]
fn negative_iteration_count_yields_nothing() {
    let (steps, _) = scan_line(b"+1\n", 0).unwrap();
    assert_eq!(iterate(&steps, 5, -1), Ok(Vec::new()));
    assert_eq!(iterate(&steps, 5, 0), Ok(vec![5]));
}
