//! The opcode emitter: translates one operator token into the instruction
//! sequence that implements it, against an [`AsmBuf`], and assembles whole
//! chains into finished routines.
//!
//! Every emission is atomic: either the complete expansion of a step lands
//! in the buffer, or the buffer is left exactly as it was.  A "load literal"
//! opcode is therefore never separated from its immediate, and a
//! multi-instruction macro expansion (division, remainder, shifts) is never
//! half-written.

use vstd::prelude::*;

use crate::buf::{new, AsmBuf, BUF_SIZE};
use crate::error::JitError;
use crate::isa::{
    encode_instr, expansion, instr_bytes, lemma_instrs_bytes1, lemma_instrs_bytes_concat,
    lemma_steps_bytes_snoc, program_bytes, program_instrs, step_bytes, steps_bytes, steps_instrs,
    Instr, Op, Step,
};

verus! {

/// The encoded bytes of one whole step: the operand load (except for the
/// complement, which takes none) followed by the operator's instructions, in
/// the documented fixed order.
pub fn encode_step(op: Op, operand: i64) -> (r: Vec<u8>)
    ensures
        r@ == step_bytes(Step { op, operand }),
{
    let ld = Instr::MovRdiImm(operand);
    let (mut v, rest): (Vec<u8>, Vec<Instr>) = match op {
        Op::Not => (Vec::new(), vec![Instr::NotRax]),
        Op::Add => (encode_instr(ld), vec![Instr::AddRaxRdi]),
        Op::Sub => (encode_instr(ld), vec![Instr::SubRaxRdi]),
        Op::Mul => (encode_instr(ld), vec![Instr::ImulRaxRdi]),
        Op::Xor => (encode_instr(ld), vec![Instr::XorRaxRdi]),
        Op::And => (encode_instr(ld), vec![Instr::AndRaxRdi]),
        Op::Or => (encode_instr(ld), vec![Instr::OrRaxRdi]),
        Op::Div => (encode_instr(ld), vec![Instr::Cqo, Instr::IdivRdi]),
        Op::Rem => (encode_instr(ld), vec![Instr::Cqo, Instr::IdivRdi, Instr::MovRaxRdx]),
        Op::Shl => (encode_instr(ld), vec![Instr::MovEcxEdi, Instr::ShlRaxCl]),
        Op::Shr => (encode_instr(ld), vec![Instr::MovEcxEdi, Instr::ShrRaxCl]),
    };
    let ghost pre = v@;
    let ghost tail = rest@;
    let mut j: usize = 0;
    while j < rest.len()
        invariant
            j <= tail.len(),
            rest@ == tail,
            v@ == pre + crate::isa::instrs_bytes(tail.take(j as int)),
        decreases tail.len() - j,
    {
        let mut e = encode_instr(rest[j]);
        v.append(&mut e);
        proof {
            assert(tail.take(j + 1) =~= tail.take(j as int) + seq![tail[j as int]]);
            lemma_instrs_bytes_concat(tail.take(j as int), seq![tail[j as int]]);
            lemma_instrs_bytes1(tail[j as int]);
            assert(v@ =~= pre + crate::isa::instrs_bytes(tail.take(j + 1)));
        }
        j = j + 1;
    }
    proof {
        assert(tail.take(tail.len() as int) =~= tail);
        let exp = expansion(op, operand);
        if op is Not {
            assert(exp =~= tail);
            assert(pre + crate::isa::instrs_bytes(tail) =~= crate::isa::instrs_bytes(tail));
            lemma_instrs_bytes_concat(seq![], tail);
            assert(seq![] + tail =~= tail);
        } else {
            assert(exp =~= seq![ld] + tail);
            lemma_instrs_bytes_concat(seq![ld], tail);
            lemma_instrs_bytes1(ld);
            assert(pre == instr_bytes(ld));
        }
        assert(v@ =~= crate::isa::instrs_bytes(exp));
    }
    v
}

/// Emits one operator and its operand: appends the step's whole expansion,
/// or fails exactly as [`AsmBuf::write`] does, leaving the buffer unchanged.
pub fn emit_op(buf: &mut AsmBuf, op: Op, operand: i64) -> (r: Result<(), JitError>)
    ensures
        final(buf).is_locked() == old(buf).is_locked(),
        old(buf).is_locked() ==> r == Err::<(), JitError>(JitError::Locked) && *final(buf) == *old(
            buf),
        !old(buf).is_locked() && old(buf).bytes().len() + step_bytes(Step { op, operand }).len()
            > BUF_SIZE ==> r == Err::<(), JitError>(JitError::CapacityExceeded) && *final(buf)
            == *old(buf),
        !old(buf).is_locked() && old(buf).bytes().len() + step_bytes(Step { op, operand }).len()
            <= BUF_SIZE ==> r == Ok::<(), JitError>(()) && final(buf).bytes() == old(buf).bytes()
            + step_bytes(Step { op, operand }),
        old(buf).wf() ==> final(buf).wf(),
{
    let enc = encode_step(op, operand);
    buf.write(enc.as_slice())
}

/// Emits a whole chain of steps in order.
///
/// Succeeds exactly when the buffer is still writable and the chain's whole
/// byte image fits behind what the buffer already holds; the first failing
/// step reports the error, and what was already emitted stays (the failure
/// is fatal to the compilation, so nothing rolls back).
pub fn emit_steps(buf: &mut AsmBuf, steps: &Vec<Step>) -> (r: Result<(), JitError>)
    requires
        old(buf).wf(),
    ensures
        final(buf).wf(),
        final(buf).is_locked() == old(buf).is_locked(),
        old(buf).is_locked() && steps@.len() > 0 ==> r == Err::<(), JitError>(JitError::Locked)
            && *final(buf) == *old(buf),
        !old(buf).is_locked() || steps@.len() == 0 ==> (r is Ok <==> old(buf).bytes().len()
            + steps_bytes(steps@).len() <= BUF_SIZE),
        r is Ok ==> final(buf).bytes() == old(buf).bytes() + steps_bytes(steps@),
        r is Err ==> (exists|k: int|
            0 <= k <= steps@.len() && final(buf).bytes() == old(buf).bytes() + steps_bytes(
                steps@.take(k))),
{
    let ghost all = steps@;
    if steps.len() == 0 {
        proof {
            assert(steps_bytes(all) =~= Seq::<u8>::empty());
            assert(old(buf).bytes() + steps_bytes(all) =~= old(buf).bytes());
        }
        return Ok(());
    }
    if buf.locked() {
        proof {
            assert(all.take(0) =~= Seq::<Step>::empty());
            assert(steps_bytes(all.take(0)) =~= Seq::<u8>::empty());
            assert(buf.bytes() == old(buf).bytes() + steps_bytes(all.take(0))) by {
                assert(old(buf).bytes() + steps_bytes(all.take(0)) =~= old(buf).bytes());
            }
        }
        return Err(JitError::Locked);
    }
    let mut i: usize = 0;
    while i < steps.len()
        invariant
            i <= all.len(),
            steps@ == all,
            buf.wf(),
            !buf.is_locked(),
            !old(buf).is_locked(),
            buf.bytes() == old(buf).bytes() + steps_bytes(all.take(i as int)),
        decreases all.len() - i,
    {
        let st = steps[i];
        let r = emit_op(buf, st.op, st.operand);
        proof {
            lemma_steps_bytes_snoc(all, i as int);
        }
        match r {
            Ok(()) => {},
            Err(e) => {
                proof {
                    lemma_steps_bytes_prefix_len(all, i as int);
                }
                return Err(e);
            },
        }
        i = i + 1;
    }
    proof {
        assert(all.take(all.len() as int) =~= all);
    }
    Ok(())
}

/// The byte image of a chain is never shorter than that of any of its
/// prefixes extended by the next step.
proof fn lemma_steps_bytes_prefix_len(steps: Seq<Step>, k: int)
    requires
        0 <= k < steps.len(),
    ensures
        steps_bytes(steps.take(k)).len() + step_bytes(steps[k]).len() <= steps_bytes(steps).len(),
    decreases steps.len() - k,
{
    lemma_steps_bytes_snoc(steps, k);
    if k + 1 == steps.len() {
        assert(steps.take(k + 1) =~= steps);
    } else {
        lemma_steps_bytes_prefix_len2(steps, k + 1);
    }
}

/// A prefix's byte image is never longer than the whole chain's.
proof fn lemma_steps_bytes_prefix_len2(steps: Seq<Step>, k: int)
    requires
        0 <= k <= steps.len(),
    ensures
        steps_bytes(steps.take(k)).len() <= steps_bytes(steps).len(),
    decreases steps.len() - k,
{
    if k == steps.len() {
        assert(steps.take(k) =~= steps);
    } else {
        lemma_steps_bytes_snoc(steps, k);
        lemma_steps_bytes_prefix_len2(steps, k + 1);
    }
}

/// Compiles a whole chain from scratch: a fresh buffer with its preamble,
/// the chain's expansions in order, and the finalizing trailer, already
/// locked.  Succeeds exactly when the complete routine fits the fixed
/// capacity; the finished buffer holds exactly the routine's byte image.
pub fn compile(steps: &Vec<Step>) -> (r: Result<AsmBuf, JitError>)
    ensures
        r matches Ok(b) ==> b.is_locked() && b.wf() && b.bytes() == program_bytes(steps@),
        r is Ok <==> program_bytes(steps@).len() <= BUF_SIZE,
        r is Err ==> r == Err::<AsmBuf, JitError>(JitError::CapacityExceeded),
{
    proof {
        lemma_program_bytes_parts(steps@);
    }
    let mut b = new();
    match emit_steps(&mut b, steps) {
        Err(_) => Err(JitError::CapacityExceeded),
        Ok(()) => match b.to_fn() {
            Err(_) => Err(JitError::CapacityExceeded),
            Ok(_) => Ok(b),
        },
    }
}

/// The byte image of a complete routine is the preamble's bytes, then the
/// chain's, then the trailer's.
pub proof fn lemma_program_bytes_parts(steps: Seq<Step>)
    ensures
        program_bytes(steps) == instr_bytes(Instr::MovRaxRdi) + steps_bytes(steps) + instr_bytes(
            Instr::Ret),
        program_bytes(steps).len() == steps_bytes(steps).len() + 4,
{
    let pre = seq![Instr::MovRaxRdi];
    let body = steps_instrs(steps);
    let tail = seq![Instr::Ret];
    assert(program_instrs(steps) =~= (pre + body) + tail);
    lemma_instrs_bytes_concat(pre + body, tail);
    lemma_instrs_bytes_concat(pre, body);
    lemma_instrs_bytes1(Instr::MovRaxRdi);
    lemma_instrs_bytes1(Instr::Ret);
}

} // verus!
