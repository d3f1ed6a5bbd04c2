//! Machine-level semantics of the emitted instructions, and the proofs that
//! every operator's expansion computes its documented result.
//!
//! The model tracks the four registers the repertoire touches and a fault
//! flag for the executions the model does not describe (a division the
//! divide instruction cannot deliver the documented result for).  The main
//! results: running one expansion from any non-faulted state leaves exactly
//! [`op_result`] in the accumulator ([`lemma_expansion_correct`]), and
//! running a whole finalized routine from any entry state computes the
//! chain's evaluation on the call argument ([`lemma_program_correct`]).

use vstd::prelude::*;

use crate::isa::{
    div_defined, div_trunc, eval_steps, expansion, op_result, program_instrs, rem_trunc,
    step_instrs, steps_instrs, Instr, Op, Step,
};

verus! {

/// The registers the generated routines use, plus a fault flag.
///
/// `rdi` carries the call argument at entry and each loaded literal
/// afterwards; `rax` is the accumulator; `rdx` and `rcx` are the division
/// high half and the shift count.
pub struct MachineState {
    pub rax: i64,
    pub rdi: i64,
    pub rdx: i64,
    pub rcx: i64,
    pub fault: bool,
}

/// The accumulator's sign extension: what the high-half register holds
/// after `cqo`, and what it must hold for the divide instruction to divide
/// the 64-bit accumulator.
pub open spec fn sign_extension(a: i64) -> i64 {
    if a < 0 {
        -1i64
    } else {
        0i64
    }
}

/// The effect of one instruction.  A faulted state is absorbing.
///
/// The divide instruction divides the 128-bit value `rdx:rax`; this model
/// describes it only in the form the emitter produces, where `cqo` has just
/// made `rdx` the accumulator's sign extension, so that the division is the
/// truncated signed division of the accumulator, remainder (sign following
/// the dividend) to the high-half register.  The fault flag marks an
/// execution the model does not describe — a zero divisor, the one
/// overflowing quotient, or a high half that is not the accumulator's sign
/// extension — and nothing further is claimed of such a run.
pub open spec fn instr_step(s: MachineState, i: Instr) -> MachineState {
    if s.fault {
        s
    } else {
        match i {
            Instr::MovRaxRdi => MachineState { rax: s.rdi, ..s },
            Instr::MovRdiImm(imm) => MachineState { rdi: imm, ..s },
            Instr::AddRaxRdi => MachineState { rax: s.rax.wrapping_add(s.rdi), ..s },
            Instr::SubRaxRdi => MachineState { rax: s.rax.wrapping_sub(s.rdi), ..s },
            Instr::ImulRaxRdi => MachineState { rax: s.rax.wrapping_mul(s.rdi), ..s },
            Instr::Cqo => MachineState { rdx: sign_extension(s.rax), ..s },
            Instr::IdivRdi => if s.rdx == sign_extension(s.rax) && div_defined(s.rax, s.rdi) {
                MachineState { rax: div_trunc(s.rax, s.rdi), rdx: rem_trunc(s.rax, s.rdi), ..s }
            } else {
                MachineState { fault: true, ..s }
            },
            Instr::MovRaxRdx => MachineState { rax: s.rdx, ..s },
            Instr::XorRaxRdi => MachineState { rax: s.rax ^ s.rdi, ..s },
            Instr::AndRaxRdi => MachineState { rax: s.rax & s.rdi, ..s },
            Instr::OrRaxRdi => MachineState { rax: s.rax | s.rdi, ..s },
            Instr::MovEcxEdi => MachineState { rcx: s.rdi & 0xffff_ffff, ..s },
            Instr::ShlRaxCl => MachineState { rax: s.rax << (s.rcx & 63), ..s },
            Instr::ShrRaxCl => MachineState { rax: s.rax >> (s.rcx & 63), ..s },
            Instr::NotRax => MachineState { rax: !s.rax, ..s },
            Instr::Ret => s,
        }
    }
}

/// Running a sequence of instructions in order.
pub open spec fn run(s: MachineState, is: Seq<Instr>) -> MachineState
    decreases is.len(),
{
    if is.len() == 0 {
        s
    } else {
        run(instr_step(s, is[0]), is.skip(1))
    }
}

/// Running a concatenation is running the parts in order.
pub proof fn lemma_run_concat(s: MachineState, a: Seq<Instr>, b: Seq<Instr>)
    ensures
        run(s, a + b) == run(run(s, a), b),
    decreases a.len(),
{
    if a.len() == 0 {
        assert(a + b =~= b);
    } else {
        assert((a + b).skip(1) =~= a.skip(1) + b);
        lemma_run_concat(instr_step(s, a[0]), a.skip(1), b);
    }
}

/// A faulted state never recovers.
pub proof fn lemma_run_fault(s: MachineState, is: Seq<Instr>)
    requires
        s.fault,
    ensures
        run(s, is) == s,
    decreases is.len(),
{
    if is.len() > 0 {
        lemma_run_fault(s, is.skip(1));
    }
}

/// Running a single instruction.
pub proof fn lemma_run1(s: MachineState, i1: Instr)
    ensures
        run(s, seq![i1]) == instr_step(s, i1),
{
    let e = seq![i1];
    assert(e.skip(1) =~= Seq::<Instr>::empty());
    assert(run(s, e) == run(instr_step(s, i1), e.skip(1)));
}

/// Running two instructions in order.
pub proof fn lemma_run2(s: MachineState, i1: Instr, i2: Instr)
    ensures
        run(s, seq![i1, i2]) == instr_step(instr_step(s, i1), i2),
{
    assert(seq![i1, i2] =~= seq![i1] + seq![i2]);
    lemma_run_concat(s, seq![i1], seq![i2]);
    lemma_run1(s, i1);
    lemma_run1(instr_step(s, i1), i2);
}

/// Running three instructions in order.
pub proof fn lemma_run3(s: MachineState, i1: Instr, i2: Instr, i3: Instr)
    ensures
        run(s, seq![i1, i2, i3]) == instr_step(instr_step(instr_step(s, i1), i2), i3),
{
    assert(seq![i1, i2, i3] =~= seq![i1] + seq![i2, i3]);
    lemma_run_concat(s, seq![i1], seq![i2, i3]);
    lemma_run1(s, i1);
    lemma_run2(instr_step(s, i1), i2, i3);
}

/// Running four instructions in order.
pub proof fn lemma_run4(s: MachineState, i1: Instr, i2: Instr, i3: Instr, i4: Instr)
    ensures
        run(s, seq![i1, i2, i3, i4]) == instr_step(
            instr_step(instr_step(instr_step(s, i1), i2), i3),
            i4,
        ),
{
    assert(seq![i1, i2, i3, i4] =~= seq![i1] + seq![i2, i3, i4]);
    lemma_run_concat(s, seq![i1], seq![i2, i3, i4]);
    lemma_run1(s, i1);
    lemma_run3(instr_step(s, i1), i2, i3, i4);
}

/// One operator's expansion, run from any non-faulted state, leaves exactly
/// the documented result in the accumulator, and faults exactly when the
/// documented result is undefined (a division fault).  The operand register
/// and shift count are scratch; the high half survives only through its
/// documented role in division.
pub proof fn lemma_expansion_correct(op: Op, operand: i64, s: MachineState)
    requires
        !s.fault,
    ensures
        op_result(op, s.rax, operand) matches Some(v) ==> !run(s, expansion(op, operand)).fault
            && run(s, expansion(op, operand)).rax == v,
        op_result(op, s.rax, operand) is None ==> run(s, expansion(op, operand)).fault,
{
    let ld = Instr::MovRdiImm(operand);
    match op {
        Op::Not => {
            lemma_run1(s, Instr::NotRax);
        },
        Op::Add => {
            lemma_run2(s, ld, Instr::AddRaxRdi);
        },
        Op::Sub => {
            lemma_run2(s, ld, Instr::SubRaxRdi);
        },
        Op::Mul => {
            lemma_run2(s, ld, Instr::ImulRaxRdi);
        },
        Op::Xor => {
            lemma_run2(s, ld, Instr::XorRaxRdi);
        },
        Op::And => {
            lemma_run2(s, ld, Instr::AndRaxRdi);
        },
        Op::Or => {
            lemma_run2(s, ld, Instr::OrRaxRdi);
        },
        Op::Div => {
            lemma_run3(s, ld, Instr::Cqo, Instr::IdivRdi);
        },
        Op::Rem => {
            lemma_run4(s, ld, Instr::Cqo, Instr::IdivRdi, Instr::MovRaxRdx);
        },
        Op::Shl => {
            lemma_run3(s, ld, Instr::MovEcxEdi, Instr::ShlRaxCl);
            assert((operand & 0xffff_ffff) & 63 == operand & 63) by (bit_vector);
        },
        Op::Shr => {
            lemma_run3(s, ld, Instr::MovEcxEdi, Instr::ShrRaxCl);
            assert((operand & 0xffff_ffff) & 63 == operand & 63) by (bit_vector);
        },
    }
}

/// Running a whole chain from any non-faulted state computes the chain's
/// evaluation on the accumulator: the documented result value when every
/// division along the chain is defined, and a fault otherwise.
pub proof fn lemma_steps_correct(steps: Seq<Step>, s: MachineState)
    requires
        !s.fault,
    ensures
        match eval_steps(steps, s.rax) {
            Some(v) => !run(s, steps_instrs(steps)).fault && run(s, steps_instrs(steps)).rax == v,
            None => run(s, steps_instrs(steps)).fault,
        },
    decreases steps.len(),
{
    if steps.len() == 0 {
        assert(steps_instrs(steps) =~= Seq::<Instr>::empty());
    } else {
        let st = steps[0];
        lemma_run_concat(s, step_instrs(st), steps_instrs(steps.skip(1)));
        lemma_expansion_correct(st.op, st.operand, s);
        let s1 = run(s, step_instrs(st));
        match op_result(st.op, s.rax, st.operand) {
            Some(v) => {
                lemma_steps_correct(steps.skip(1), s1);
            },
            None => {
                lemma_run_fault(s1, steps_instrs(steps.skip(1)));
            },
        }
    }
}

/// Correctness of a complete finalized routine, for every entry state: the
/// preamble copies the call argument (the operand register at entry) into
/// the accumulator, the chain computes its documented evaluation on it, and
/// the trailing return changes nothing.  The entry values of the
/// accumulator, high-half and shift-count registers are arbitrary: the
/// result does not depend on them.
pub proof fn lemma_program_correct(steps: Seq<Step>, s: MachineState)
    requires
        !s.fault,
    ensures
        match eval_steps(steps, s.rdi) {
            Some(v) => !run(s, program_instrs(steps)).fault && run(
                s,
                program_instrs(steps),
            ).rax == v,
            None => run(s, program_instrs(steps)).fault,
        },
{
    let pre = seq![Instr::MovRaxRdi];
    let body = steps_instrs(steps);
    let tail = seq![Instr::Ret];
    lemma_run_concat(s, pre + body, tail);
    lemma_run_concat(s, pre, body);
    lemma_run1(s, Instr::MovRaxRdi);
    let s1 = instr_step(s, Instr::MovRaxRdi);
    lemma_steps_correct(steps, s1);
    let s2 = run(s1, body);
    lemma_run1(s2, Instr::Ret);
    assert(program_instrs(steps) =~= (pre + body) + tail);
}

/// Correctness of every one-operator program: the routine compiled for a
/// single operator, called with argument `a` (the operand register at
/// entry), leaves exactly the documented result of applying that operator
/// to `a` and the scanned literal `b` — including: division and remainder
/// truncate toward zero with the remainder's sign following the dividend
/// (and fault instead of attempting a division the hardware cannot
/// perform); shifts reduce the count modulo 64; the complement ignores the
/// operand entirely.
pub proof fn lemma_one_op_program(op: Op, b: i64, s: MachineState)
    ensures
        ({
            let prog = program_instrs(seq![(Step { op, operand: b })]);
            &&& !s.fault && op_result(op, s.rdi, b) is Some ==> !run(s, prog).fault && run(
                s,
                prog,
            ).rax == op_result(op, s.rdi, b).unwrap()
            &&& !s.fault && op_result(op, s.rdi, b) is None ==> run(s, prog).fault
        }),
{
    if !s.fault {
        let st = Step { op, operand: b };
        lemma_program_correct(seq![st], s);
        assert(seq![st].skip(1) =~= Seq::<Step>::empty());
        assert(eval_steps(seq![st], s.rdi) == (match op_result(op, s.rdi, b) {
            Some(v) => eval_steps(seq![st].skip(1), v),
            None => None,
        }));
    }
}

} // verus!
