//! The instruction set the compiler targets, its byte encoding, and the
//! meaning of each supported operator.
//!
//! A program is a chain of [`Step`]s (one operator token plus its literal
//! operand).  Each step expands to a fixed, ordered sequence of [`Instr`]s,
//! and each instruction has one exact byte encoding.  The arithmetic meaning
//! of a step is given by [`op_result`]; a whole chain is evaluated by
//! [`eval_steps`], and the recurrence the driver produces by [`iterates`].

use vstd::prelude::*;

verus! {

/// The supported operator tokens, one variant per token of the fixed table.
#[derive(Clone, Copy, Debug, PartialEq, Eq, Structural)]
pub enum Op {
    /// `+`: accumulator plus operand, low 64 bits.
    Add,
    /// `-`: accumulator minus operand, low 64 bits.
    Sub,
    /// `*`: signed multiply, low 64 bits.
    Mul,
    /// `/`: truncated signed division.
    Div,
    /// `%`: signed remainder, sign following the dividend.
    Rem,
    /// `^`: bitwise exclusive or.
    Xor,
    /// `&`: bitwise and.
    And,
    /// `|`: bitwise or.
    Or,
    /// `<`: shift left by the operand modulo 64.
    Shl,
    /// `>`: arithmetic shift right by the operand modulo 64.
    Shr,
    /// `!`: bitwise complement of the accumulator; consumes no operand.
    Not,
}

/// One native instruction of the fixed repertoire the emitter uses.
///
/// Register roles: `rax` is the accumulator, `rdi` the operand register,
/// `rdx` the high half used by division, `rcx` the hardware shift-count
/// register.
#[derive(Clone, Copy, Debug, PartialEq, Eq, Structural)]
pub enum Instr {
    /// `mov rax, rdi`: the preamble, copying the call argument into the
    /// accumulator.
    MovRaxRdi,
    /// `mov rdi, imm64`: load a 64-bit literal into the operand register.
    MovRdiImm(i64),
    /// `add rax, rdi`
    AddRaxRdi,
    /// `sub rax, rdi`
    SubRaxRdi,
    /// `imul rax, rdi`
    ImulRaxRdi,
    /// `cqo`: sign-extend the accumulator into the high-half register, so
    /// that `rdx:rax` holds the accumulator's value before a division.
    Cqo,
    /// `idiv rdi`: signed divide of `rdx:rax`; quotient to `rax`, remainder
    /// to `rdx`.
    IdivRdi,
    /// `mov rax, rdx`: fetch the remainder after a division.
    MovRaxRdx,
    /// `xor rax, rdi`
    XorRaxRdi,
    /// `and rax, rdi`
    AndRaxRdi,
    /// `or rax, rdi`
    OrRaxRdi,
    /// `mov ecx, edi`: copy the operand into the shift-count register.
    MovEcxEdi,
    /// `shl rax, cl`
    ShlRaxCl,
    /// `sar rax, cl` (arithmetic, sign-preserving)
    ShrRaxCl,
    /// `not rax`
    NotRax,
    /// `ret`: the trailer appended by finalization.
    Ret,
}

/// One element of a compiled chain: an operator and the literal that was
/// scanned after it.  For [`Op::Not`] no literal is scanned and the field is
/// zero by convention; the semantics ignores it.
#[derive(Clone, Copy, Debug, PartialEq, Eq, Structural)]
pub struct Step {
    pub op: Op,
    pub operand: i64,
}

/// The little-endian byte image of a 64-bit immediate.
pub open spec fn imm_bytes(imm: i64) -> Seq<u8> {
    seq![
        (imm & 0xff) as u8,
        ((imm >> 8i64) & 0xff) as u8,
        ((imm >> 16i64) & 0xff) as u8,
        ((imm >> 24i64) & 0xff) as u8,
        ((imm >> 32i64) & 0xff) as u8,
        ((imm >> 40i64) & 0xff) as u8,
        ((imm >> 48i64) & 0xff) as u8,
        ((imm >> 56i64) & 0xff) as u8,
    ]
}

/// The exact byte encoding of one instruction.
pub open spec fn instr_bytes(i: Instr) -> Seq<u8> {
    match i {
        Instr::MovRaxRdi => seq![0x48u8, 0x89u8, 0xf8u8],
        Instr::MovRdiImm(imm) => seq![0x48u8, 0xbfu8] + imm_bytes(imm),
        Instr::AddRaxRdi => seq![0x48u8, 0x01u8, 0xf8u8],
        Instr::SubRaxRdi => seq![0x48u8, 0x29u8, 0xf8u8],
        Instr::ImulRaxRdi => seq![0x48u8, 0x0fu8, 0xafu8, 0xc7u8],
        Instr::Cqo => seq![0x48u8, 0x99u8],
        Instr::IdivRdi => seq![0x48u8, 0xf7u8, 0xffu8],
        Instr::MovRaxRdx => seq![0x48u8, 0x89u8, 0xd0u8],
        Instr::XorRaxRdi => seq![0x48u8, 0x31u8, 0xf8u8],
        Instr::AndRaxRdi => seq![0x48u8, 0x21u8, 0xf8u8],
        Instr::OrRaxRdi => seq![0x48u8, 0x09u8, 0xf8u8],
        Instr::MovEcxEdi => seq![0x89u8, 0xf9u8],
        Instr::ShlRaxCl => seq![0x48u8, 0xd3u8, 0xe0u8],
        Instr::ShrRaxCl => seq![0x48u8, 0xd3u8, 0xf8u8],
        Instr::NotRax => seq![0x48u8, 0xf7u8, 0xd0u8],
        Instr::Ret => seq![0xc3u8],
    }
}

/// The byte encoding of a sequence of instructions, in order.
pub open spec fn instrs_bytes(is: Seq<Instr>) -> Seq<u8>
    decreases is.len(),
{
    if is.len() == 0 {
        Seq::empty()
    } else {
        instr_bytes(is[0]) + instrs_bytes(is.skip(1))
    }
}

/// The fixed instruction sequence one step expands to, in its documented
/// order.
pub open spec fn expansion(op: Op, operand: i64) -> Seq<Instr> {
    match op {
        Op::Add => seq![Instr::MovRdiImm(operand), Instr::AddRaxRdi],
        Op::Sub => seq![Instr::MovRdiImm(operand), Instr::SubRaxRdi],
        Op::Mul => seq![Instr::MovRdiImm(operand), Instr::ImulRaxRdi],
        Op::Div => seq![Instr::MovRdiImm(operand), Instr::Cqo, Instr::IdivRdi],
        Op::Rem => seq![
            Instr::MovRdiImm(operand),
            Instr::Cqo,
            Instr::IdivRdi,
            Instr::MovRaxRdx,
        ],
        Op::Xor => seq![Instr::MovRdiImm(operand), Instr::XorRaxRdi],
        Op::And => seq![Instr::MovRdiImm(operand), Instr::AndRaxRdi],
        Op::Or => seq![Instr::MovRdiImm(operand), Instr::OrRaxRdi],
        Op::Shl => seq![Instr::MovRdiImm(operand), Instr::MovEcxEdi, Instr::ShlRaxCl],
        Op::Shr => seq![Instr::MovRdiImm(operand), Instr::MovEcxEdi, Instr::ShrRaxCl],
        Op::Not => seq![Instr::NotRax],
    }
}

/// The instruction sequence of one step.
pub open spec fn step_instrs(st: Step) -> Seq<Instr> {
    expansion(st.op, st.operand)
}

/// The instruction sequence of a whole chain, in order.
pub open spec fn steps_instrs(steps: Seq<Step>) -> Seq<Instr>
    decreases steps.len(),
{
    if steps.len() == 0 {
        Seq::empty()
    } else {
        step_instrs(steps[0]) + steps_instrs(steps.skip(1))
    }
}

/// The byte image of one step.
pub open spec fn step_bytes(st: Step) -> Seq<u8> {
    instrs_bytes(step_instrs(st))
}

/// The byte image of a chain of steps.
pub open spec fn steps_bytes(steps: Seq<Step>) -> Seq<u8> {
    instrs_bytes(steps_instrs(steps))
}

/// The complete finalized routine for a chain: the preamble that copies the
/// call argument into the accumulator, the chain, and the trailing return.
pub open spec fn program_instrs(steps: Seq<Step>) -> Seq<Instr> {
    seq![Instr::MovRaxRdi] + steps_instrs(steps) + seq![Instr::Ret]
}

/// The byte image of the complete finalized routine.
pub open spec fn program_bytes(steps: Seq<Step>) -> Seq<u8> {
    instrs_bytes(program_instrs(steps))
}

/// Whether the divide instruction can divide `a` by `b`: the divisor must
/// not be zero, and the one quotient that overflows 64 bits is excluded.
pub open spec fn div_defined(a: i64, b: i64) -> bool {
    b != 0 && !(a == i64::MIN && b == -1)
}

/// Truncated signed division (the quotient rounds toward zero).
pub open spec fn div_trunc(a: i64, b: i64) -> i64
    recommends
        div_defined(a, b),
{
    if a >= 0 {
        ((a as int) / (b as int)) as i64
    } else {
        (-((-(a as int)) / (b as int))) as i64
    }
}

/// Signed remainder of truncated division; its sign follows the dividend.
pub open spec fn rem_trunc(a: i64, b: i64) -> i64
    recommends
        div_defined(a, b),
{
    if a >= 0 {
        ((a as int) % (b as int)) as i64
    } else {
        (-((-(a as int)) % (b as int))) as i64
    }
}

/// The documented effect of one operator on accumulator `a` with operand `b`,
/// or `None` for a division the hardware cannot perform (zero divisor, or the
/// one quotient that overflows 64 bits).
pub open spec fn op_result(op: Op, a: i64, b: i64) -> Option<i64> {
    match op {
        Op::Add => Some(a.wrapping_add(b)),
        Op::Sub => Some(a.wrapping_sub(b)),
        Op::Mul => Some(a.wrapping_mul(b)),
        Op::Div => if div_defined(a, b) {
            Some(div_trunc(a, b))
        } else {
            None
        },
        Op::Rem => if div_defined(a, b) {
            Some(rem_trunc(a, b))
        } else {
            None
        },
        Op::Xor => Some(a ^ b),
        Op::And => Some(a & b),
        Op::Or => Some(a | b),
        Op::Shl => Some(a << (b & 63)),
        Op::Shr => Some(a >> (b & 63)),
        Op::Not => Some(!a),
    }
}

/// Evaluation of a whole chain on an initial accumulator value: each step
/// feeds its result to the next, and a division fault aborts the chain.
pub open spec fn eval_steps(steps: Seq<Step>, x: i64) -> Option<i64>
    decreases steps.len(),
{
    if steps.len() == 0 {
        Some(x)
    } else {
        match op_result(steps[0].op, x, steps[0].operand) {
            Some(v) => eval_steps(steps.skip(1), v),
            None => None,
        }
    }
}

/// The `n`-th element of the recurrence `x_0 = x`, `x_{k+1} = f(x_k)` where
/// `f` is the chain's evaluation; `None` once any application faults.
pub open spec fn iterates(steps: Seq<Step>, x: i64, n: nat) -> Option<i64>
    decreases n,
{
    if n == 0 {
        Some(x)
    } else {
        match iterates(steps, x, (n - 1) as nat) {
            Some(v) => eval_steps(steps, v),
            None => None,
        }
    }
}

/// Encoding a concatenation is concatenating the encodings.
pub proof fn lemma_instrs_bytes_concat(a: Seq<Instr>, b: Seq<Instr>)
    ensures
        instrs_bytes(a + b) == instrs_bytes(a) + instrs_bytes(b),
    decreases a.len(),
{
    if a.len() == 0 {
        assert(a + b =~= b);
        assert(instrs_bytes(a) + instrs_bytes(b) =~= instrs_bytes(b));
    } else {
        assert((a + b).skip(1) =~= a.skip(1) + b);
        lemma_instrs_bytes_concat(a.skip(1), b);
        assert(instr_bytes(a[0]) + (instrs_bytes(a.skip(1)) + instrs_bytes(b)) =~= (instr_bytes(
            a[0],
        ) + instrs_bytes(a.skip(1))) + instrs_bytes(b));
    }
}

/// Encoding a single instruction.
pub proof fn lemma_instrs_bytes1(i1: Instr)
    ensures
        instrs_bytes(seq![i1]) == instr_bytes(i1),
{
    let e = seq![i1];
    assert(e.skip(1) =~= Seq::<Instr>::empty());
    assert(instrs_bytes(e.skip(1)) =~= Seq::<u8>::empty());
    assert(instrs_bytes(e) == instr_bytes(i1) + instrs_bytes(e.skip(1)));
    assert(instr_bytes(i1) + Seq::<u8>::empty() =~= instr_bytes(i1));
}

/// The chain expansion of a concatenation is the concatenation of the
/// expansions.
pub proof fn lemma_steps_instrs_concat(a: Seq<Step>, b: Seq<Step>)
    ensures
        steps_instrs(a + b) == steps_instrs(a) + steps_instrs(b),
    decreases a.len(),
{
    if a.len() == 0 {
        assert(a + b =~= b);
        assert(steps_instrs(a) + steps_instrs(b) =~= steps_instrs(b));
    } else {
        assert((a + b).skip(1) =~= a.skip(1) + b);
        lemma_steps_instrs_concat(a.skip(1), b);
        assert(step_instrs(a[0]) + (steps_instrs(a.skip(1)) + steps_instrs(b)) =~= (step_instrs(
            a[0],
        ) + steps_instrs(a.skip(1))) + steps_instrs(b));
    }
}

/// Appending one step to a chain appends its bytes to the chain's bytes.
pub proof fn lemma_steps_bytes_snoc(steps: Seq<Step>, k: int)
    requires
        0 <= k < steps.len(),
    ensures
        steps_bytes(steps.take(k + 1)) == steps_bytes(steps.take(k)) + step_bytes(steps[k]),
        steps_instrs(steps.take(k + 1)) == steps_instrs(steps.take(k)) + step_instrs(steps[k]),
{
    assert(steps.take(k + 1) =~= steps.take(k) + seq![steps[k]]);
    lemma_steps_instrs_concat(steps.take(k), seq![steps[k]]);
    let e = seq![steps[k]];
    assert(e.skip(1) =~= Seq::<Step>::empty());
    assert(steps_instrs(e.skip(1)) =~= Seq::<Instr>::empty());
    assert(steps_instrs(e) == step_instrs(steps[k]) + steps_instrs(e.skip(1)));
    assert(step_instrs(steps[k]) + Seq::<Instr>::empty() =~= step_instrs(steps[k]));
    lemma_instrs_bytes_concat(steps_instrs(steps.take(k)), step_instrs(steps[k]));
}

/// The executable encoder for one instruction: exactly [`instr_bytes`].
pub fn encode_instr(i: Instr) -> (r: Vec<u8>)
    ensures
        r@ == instr_bytes(i),
{
    let mut v: Vec<u8> = Vec::new();
    match i {
        Instr::MovRaxRdi => {
            v.push(0x48);
            v.push(0x89);
            v.push(0xf8);
        },
        Instr::MovRdiImm(imm) => {
            v.push(0x48);
            v.push(0xbf);
            proof {
                assert(0 <= (imm & 0xff) < 256 && 0 <= ((imm >> 8i64) & 0xff) < 256 && 0 <= ((imm
                    >> 16i64) & 0xff) < 256 && 0 <= ((imm >> 24i64) & 0xff) < 256 && 0 <= ((imm
                    >> 32i64) & 0xff) < 256 && 0 <= ((imm >> 40i64) & 0xff) < 256 && 0 <= ((imm
                    >> 48i64) & 0xff) < 256 && 0 <= ((imm >> 56i64) & 0xff) < 256) by (bit_vector);
            }
            v.push((imm & 0xff) as u8);
            v.push(((imm >> 8i64) & 0xff) as u8);
            v.push(((imm >> 16i64) & 0xff) as u8);
            v.push(((imm >> 24i64) & 0xff) as u8);
            v.push(((imm >> 32i64) & 0xff) as u8);
            v.push(((imm >> 40i64) & 0xff) as u8);
            v.push(((imm >> 48i64) & 0xff) as u8);
            v.push(((imm >> 56i64) & 0xff) as u8);
        },
        Instr::AddRaxRdi => {
            v.push(0x48);
            v.push(0x01);
            v.push(0xf8);
        },
        Instr::SubRaxRdi => {
            v.push(0x48);
            v.push(0x29);
            v.push(0xf8);
        },
        Instr::ImulRaxRdi => {
            v.push(0x48);
            v.push(0x0f);
            v.push(0xaf);
            v.push(0xc7);
        },
        Instr::Cqo => {
            v.push(0x48);
            v.push(0x99);
        },
        Instr::IdivRdi => {
            v.push(0x48);
            v.push(0xf7);
            v.push(0xff);
        },
        Instr::MovRaxRdx => {
            v.push(0x48);
            v.push(0x89);
            v.push(0xd0);
        },
        Instr::XorRaxRdi => {
            v.push(0x48);
            v.push(0x31);
            v.push(0xf8);
        },
        Instr::AndRaxRdi => {
            v.push(0x48);
            v.push(0x21);
            v.push(0xf8);
        },
        Instr::OrRaxRdi => {
            v.push(0x48);
            v.push(0x09);
            v.push(0xf8);
        },
        Instr::MovEcxEdi => {
            v.push(0x89);
            v.push(0xf9);
        },
        Instr::ShlRaxCl => {
            v.push(0x48);
            v.push(0xd3);
            v.push(0xe0);
        },
        Instr::ShrRaxCl => {
            v.push(0x48);
            v.push(0xd3);
            v.push(0xf8);
        },
        Instr::NotRax => {
            v.push(0x48);
            v.push(0xf7);
            v.push(0xd0);
        },
        Instr::Ret => {
            v.push(0xc3);
        },
    }
    proof {
        assert(v@ =~= instr_bytes(i));
    }
    v
}

} // verus!
