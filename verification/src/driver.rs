//! The driver layer: classifying operator tokens, scanning a program line,
//! evaluating chains by interpretation, and producing iterated sequences.
//!
//! The scanner walks a line of bytes, skipping spaces, stopping at the first
//! newline, classifying each remaining byte as an operator and reading the
//! signed decimal literal that follows every operator but the complement.
//! The evaluator computes exactly the documented per-operator results, so it
//! agrees with the machine-level model of the emitted code
//! ([`crate::sem::lemma_program_correct`]) on every chain.

use vstd::prelude::*;

use crate::error::JitError;
use crate::isa::{eval_steps, iterates, op_result, Op, Step};

verus! {

/// Insignificant or terminating whitespace: space and newline.
pub open spec fn is_ws(c: u8) -> bool {
    c == 32 || c == 10
}

/// An ASCII decimal digit.
pub open spec fn is_digit(c: u8) -> bool {
    48 <= c <= 57
}

/// The first position at or after `i` holding no whitespace (or the end).
pub open spec fn skip_ws_end(s: Seq<u8>, i: nat) -> nat
    decreases s.len() - i,
{
    if i >= s.len() {
        i
    } else if is_ws(s[i as int]) {
        skip_ws_end(s, i + 1)
    } else {
        i
    }
}

/// The first position at or after `i` holding no digit (or the end).
pub open spec fn digits_end(s: Seq<u8>, i: nat) -> nat
    decreases s.len() - i,
{
    if i >= s.len() {
        i
    } else if is_digit(s[i as int]) {
        digits_end(s, i + 1)
    } else {
        i
    }
}

/// The value of the digit run from `i` to `j`, folded left onto `acc` with
/// wrapping 64-bit arithmetic.
pub open spec fn digits_val(s: Seq<u8>, i: nat, j: nat, acc: i64) -> i64
    decreases j - i,
{
    if i >= j {
        acc
    } else {
        digits_val(s, i + 1, j, acc.wrapping_mul(10).wrapping_add((s[i as int] - 48) as i64))
    }
}

/// What scanning one signed decimal literal from `pos` yields: leading
/// whitespace is skipped, one optional minus sign is read, then every digit
/// up to the first non-digit; the result is the signed value (wrapping, like
/// the accumulation) and the position just past the digits.  An empty digit
/// run yields zero.
pub open spec fn parse_digit_spec(s: Seq<u8>, pos: nat) -> (i64, nat) {
    let w = skip_ws_end(s, pos);
    if w < s.len() && s[w as int] == 45 {
        let e = digits_end(s, w + 1);
        ((0i64).wrapping_sub(digits_val(s, w + 1, e, 0)), e)
    } else {
        let e = digits_end(s, w);
        (digits_val(s, w, e, 0), e)
    }
}

/// Skipping whitespace never moves backwards and never passes the end.
pub proof fn lemma_skip_ws_end_bounds(s: Seq<u8>, i: nat)
    ensures
        i <= skip_ws_end(s, i),
        i <= s.len() ==> skip_ws_end(s, i) <= s.len(),
    decreases s.len() - i,
{
    if i < s.len() && is_ws(s[i as int]) {
        lemma_skip_ws_end_bounds(s, i + 1);
    }
}

/// Reading digits never moves backwards and never passes the end.
pub proof fn lemma_digits_end_bounds(s: Seq<u8>, i: nat)
    ensures
        i <= digits_end(s, i),
        i <= s.len() ==> digits_end(s, i) <= s.len(),
    decreases s.len() - i,
{
    if i < s.len() && is_digit(s[i as int]) {
        lemma_digits_end_bounds(s, i + 1);
    }
}

/// Scanning a literal never moves backwards, and never passes the end when
/// it starts inside the line.
pub proof fn lemma_parse_digit_end(s: Seq<u8>, pos: nat)
    ensures
        pos <= parse_digit_spec(s, pos).1,
        pos <= s.len() ==> parse_digit_spec(s, pos).1 <= s.len(),
{
    lemma_skip_ws_end_bounds(s, pos);
    let w = skip_ws_end(s, pos);
    lemma_digits_end_bounds(s, w);
    if w < s.len() && s[w as int] == 45 {
        lemma_digits_end_bounds(s, w + 1);
    }
}

/// Scans one signed decimal literal: skips leading whitespace, reads an
/// optional minus sign and then every digit up to the first non-digit.
/// Returns the value and the position just past the literal, exactly as
/// [`parse_digit_spec`] describes.
pub fn parse_digit(input: &[u8], pos: usize) -> (r: (i64, usize))
    ensures
        r.0 == parse_digit_spec(input@, pos as nat).0,
        r.1 == parse_digit_spec(input@, pos as nat).1,
        pos <= r.1,
        pos <= input@.len() ==> r.1 <= input@.len(),
{
    let ghost s = input@;
    let n = input.len();
    let mut p = pos;
    while p < n && (input[p] == 32 || input[p] == 10)
        invariant
            pos <= p,
            n == s.len(),
            input@ == s,
            pos <= n ==> p <= n,
            skip_ws_end(s, pos as nat) == skip_ws_end(s, p as nat),
        decreases n - p,
    {
        p = p + 1;
    }
    proof {
        assert(skip_ws_end(s, p as nat) == p);
    }
    let neg = p < n && input[p] == 45;
    if neg {
        p = p + 1;
    }
    let ghost d0 = p as nat;
    let ghost e = digits_end(s, d0);
    proof {
        lemma_digits_end_bounds(s, d0);
    }
    let mut num: i64 = 0;
    while p < n && 48 <= input[p] && input[p] <= 57
        invariant
            d0 <= p,
            pos <= p,
            n == s.len(),
            input@ == s,
            pos <= n ==> p <= n,
            e == digits_end(s, d0),
            digits_end(s, p as nat) == e,
            p <= e || p == d0,
            digits_val(s, d0, e, 0) == digits_val(s, p as nat, e, num),
        decreases n - p,
    {
        proof {
            lemma_digits_end_bounds(s, (p + 1) as nat);
            assert(digits_end(s, p as nat) == digits_end(s, (p + 1) as nat));
        }
        num = num.wrapping_mul(10).wrapping_add((input[p] - 48) as i64);
        p = p + 1;
    }
    proof {
        assert(digits_end(s, p as nat) == p);
        assert(digits_val(s, p as nat, e, num) == num);
    }
    let v = if neg {
        (0i64).wrapping_sub(num)
    } else {
        num
    };
    (v, p)
}

/// The operator table's classification of one byte.
pub open spec fn spec_op_from_byte(c: u8) -> Option<Op> {
    if c == 43 {
        Some(Op::Add)
    } else if c == 45 {
        Some(Op::Sub)
    } else if c == 42 {
        Some(Op::Mul)
    } else if c == 47 {
        Some(Op::Div)
    } else if c == 37 {
        Some(Op::Rem)
    } else if c == 94 {
        Some(Op::Xor)
    } else if c == 38 {
        Some(Op::And)
    } else if c == 124 {
        Some(Op::Or)
    } else if c == 60 {
        Some(Op::Shl)
    } else if c == 62 {
        Some(Op::Shr)
    } else if c == 33 {
        Some(Op::Not)
    } else {
        None
    }
}

/// Classifies one byte as an operator token, or `None` for any byte outside
/// the fixed table.
pub fn op_from_byte(c: u8) -> (r: Option<Op>)
    ensures
        r == spec_op_from_byte(c),
{
    match c {
        43 => Some(Op::Add),
        45 => Some(Op::Sub),
        42 => Some(Op::Mul),
        47 => Some(Op::Div),
        37 => Some(Op::Rem),
        94 => Some(Op::Xor),
        38 => Some(Op::And),
        124 => Some(Op::Or),
        60 => Some(Op::Shl),
        62 => Some(Op::Shr),
        33 => Some(Op::Not),
        _ => None,
    }
}

/// What scanning the program line from `i` yields: the chain of steps up to
/// the first newline (consumed) or the end of the input, and the position
/// just past it; or, for a byte outside the operator table, the position of
/// that byte.  Spaces are skipped; the complement consumes no literal; every
/// other operator is followed by one signed literal.
pub open spec fn scan_spec(s: Seq<u8>, i: nat) -> Result<(Seq<Step>, nat), nat>
    decreases s.len() - i,
    via scan_spec_dec
{
    if i >= s.len() {
        Ok((Seq::empty(), i))
    } else if s[i as int] == 10 {
        Ok((Seq::empty(), i + 1))
    } else if s[i as int] == 32 {
        scan_spec(s, i + 1)
    } else if s[i as int] == 33 {
        match scan_spec(s, i + 1) {
            Ok((rest, e)) => Ok((seq![(Step { op: Op::Not, operand: 0 })] + rest, e)),
            Err(e) => Err(e),
        }
    } else {
        match spec_op_from_byte(s[i as int]) {
            Some(op) => {
                let (v, p) = parse_digit_spec(s, i + 1);
                match scan_spec(s, p) {
                    Ok((rest, e)) => Ok((seq![(Step { op, operand: v })] + rest, e)),
                    Err(e) => Err(e),
                }
            },
            None => Err(i),
        }
    }
}

#[via_fn]
proof fn scan_spec_dec(s: Seq<u8>, i: nat) {
    lemma_parse_digit_end(s, i + 1);
}

/// Prepending already-scanned steps to the outcome of scanning the rest.
pub open spec fn scan_join(prefix: Seq<Step>, r: Result<(Seq<Step>, nat), nat>) -> Result<
    (Seq<Step>, nat),
    nat,
> {
    match r {
        Ok((rest, e)) => Ok((prefix + rest, e)),
        Err(e) => Err(e),
    }
}

/// Scans the program line from `pos`: steps up to the first newline
/// (consumed) or the end of the input, exactly as [`scan_spec`] describes;
/// a byte outside the operator table is refused.
pub fn scan_line(input: &[u8], pos: usize) -> (r: Result<(Vec<Step>, usize), JitError>)
    ensures
        scan_spec(input@, pos as nat) matches Ok(ok) ==> (r matches Ok(t) && t.0@ == ok.0 && t.1
            == ok.1),
        scan_spec(input@, pos as nat) is Err ==> r == Err::<(Vec<Step>, usize), JitError>(
            JitError::InvalidOperator,
        ),
{
    let ghost s = input@;
    let n = input.len();
    let mut acc: Vec<Step> = Vec::new();
    let mut p = pos;
    loop
        invariant
            n == s.len(),
            input@ == s,
            pos <= p,
            scan_spec(s, pos as nat) == scan_join(acc@, scan_spec(s, p as nat)),
        decreases n - p,
    {
        if p >= n {
            proof {
                assert(acc@ + Seq::<Step>::empty() =~= acc@);
            }
            return Ok((acc, p));
        }
        let c = input[p];
        if c == 10 {
            proof {
                assert(acc@ + Seq::<Step>::empty() =~= acc@);
            }
            return Ok((acc, p + 1));
        }
        if c == 32 {
            proof {
                assert(scan_spec(s, p as nat) == scan_spec(s, p as nat + 1));
            }
            p = p + 1;
            continue;
        }
        if c == 33 {
            let ghost a0 = acc@;
            let st = Step { op: Op::Not, operand: 0 };
            acc.push(st);
            proof {
                assert(scan_spec(s, p as nat) == scan_join(seq![st], scan_spec(s, p as nat + 1)));
                assert(acc@.drop_last() =~= a0);
                assert(acc@.last() == st);
                lemma_scan_join_snoc(acc@, st, s, (p + 1) as nat);
            }
            p = p + 1;
            continue;
        }
        match op_from_byte(c) {
            None => {
                return Err(JitError::InvalidOperator);
            },
            Some(op) => {
                let (v, q) = parse_digit(input, p + 1);
                let ghost a0 = acc@;
                let st = Step { op, operand: v };
                acc.push(st);
                proof {
                    assert(scan_spec(s, p as nat) == scan_join(
                        seq![st],
                        scan_spec(s, q as nat),
                    ));
                    assert(acc@.drop_last() =~= a0);
                    assert(acc@.last() == st);
                    lemma_scan_join_snoc(acc@, st, s, q as nat);
                }
                p = q;
            },
        }
    }
}

/// Associativity of [`scan_join`] over one freshly scanned step: joining
/// `prefix` with a result that begins with `st` is joining `prefix + st`
/// with the rest.
proof fn lemma_scan_join_snoc(acc: Seq<Step>, st: Step, s: Seq<u8>, p: nat)
    requires
        acc.len() > 0,
        acc.last() == st,
    ensures
        scan_join(acc.drop_last(), scan_join(seq![st], scan_spec(s, p))) == scan_join(
            acc,
            scan_spec(s, p),
        ),
{
    match scan_spec(s, p) {
        Ok((rest, e)) => {
            assert(acc.drop_last() + (seq![st] + rest) =~= acc + rest);
        },
        Err(_) => {},
    }
}

/// Applies one operator to accumulator `a` and operand `b`: exactly the
/// documented [`op_result`], with the divisions the hardware cannot perform
/// refused instead of attempted.
pub fn eval_op(op: Op, a: i64, b: i64) -> (r: Result<i64, JitError>)
    ensures
        op_result(op, a, b) matches Some(v) ==> r == Ok::<i64, JitError>(v),
        op_result(op, a, b) is None ==> r == Err::<i64, JitError>(JitError::DivisionFault),
{
    match op {
        Op::Add => Ok(a.wrapping_add(b)),
        Op::Sub => Ok(a.wrapping_sub(b)),
        Op::Mul => Ok(a.wrapping_mul(b)),
        Op::Div => {
            if b == 0 || (a == i64::MIN && b == -1) {
                Err(JitError::DivisionFault)
            } else {
                Ok(a / b)
            }
        },
        Op::Rem => {
            if b == 0 || (a == i64::MIN && b == -1) {
                Err(JitError::DivisionFault)
            } else {
                Ok(a % b)
            }
        },
        Op::Xor => Ok(a ^ b),
        Op::And => Ok(a & b),
        Op::Or => Ok(a | b),
        Op::Shl => {
            proof {
                assert(0 <= (b & 63) < 64) by (bit_vector);
            }
            Ok(a << (b & 63))
        },
        Op::Shr => {
            proof {
                assert(0 <= (b & 63) < 64) by (bit_vector);
            }
            Ok(a >> (b & 63))
        },
        Op::Not => Ok(!a),
    }
}

/// Evaluates a whole chain on the initial accumulator value `x`: exactly
/// [`eval_steps`], the value the compiled routine computes on `x`
/// ([`crate::sem::lemma_program_correct`]).  The first division fault along
/// the chain is reported instead of a value.
pub fn run_steps(steps: &Vec<Step>, x: i64) -> (r: Result<i64, JitError>)
    ensures
        eval_steps(steps@, x) matches Some(v) ==> r == Ok::<i64, JitError>(v),
        eval_steps(steps@, x) is None ==> r == Err::<i64, JitError>(JitError::DivisionFault),
{
    let ghost all = steps@;
    let mut a = x;
    let mut i: usize = 0;
    proof {
        assert(all.skip(0) =~= all);
    }
    while i < steps.len()
        invariant
            i <= all.len(),
            steps@ == all,
            eval_steps(all, x) == eval_steps(all.skip(i as int), a),
        decreases all.len() - i,
    {
        let st = steps[i];
        proof {
            assert(all.skip(i as int)[0] == all[i as int]);
            assert(all.skip(i as int).skip(1) =~= all.skip(i as int + 1));
        }
        match eval_op(st.op, a, st.operand) {
            Ok(v) => {
                a = v;
            },
            Err(e) => {
                return Err(e);
            },
        }
        i = i + 1;
    }
    proof {
        assert(all.skip(all.len() as int) =~= Seq::<Step>::empty());
    }
    Ok(a)
}

/// Once the recurrence faults it stays faulted.
pub proof fn lemma_iterates_none(steps: Seq<Step>, x: i64, m: nat, n: nat)
    requires
        m <= n,
        iterates(steps, x, m) is None,
    ensures
        iterates(steps, x, n) is None,
    decreases n - m,
{
    if m < n {
        lemma_iterates_none(steps, x, m, (n - 1) as nat);
    }
}

/// Produces the iterated sequence `x_0 = init`, `x_{k+1} = f(x_k)` for the
/// chain's evaluation `f`: the `count + 1` values `x_0 ..= x_count`, in
/// order.  A negative count yields no values; a division fault at any needed
/// application is reported instead.
pub fn iterate(steps: &Vec<Step>, init: i64, count: i64) -> (r: Result<Vec<i64>, JitError>)
    ensures
        count < 0 ==> (r matches Ok(v) && v@.len() == 0),
        count >= 0 && iterates(steps@, init, count as nat) is Some ==> (r matches Ok(v) && v@.len()
            == count + 1 && (forall|k: int|
            0 <= k <= count ==> iterates(steps@, init, k as nat) == Some(v@[k]))),
        count >= 0 && iterates(steps@, init, count as nat) is None ==> r == Err::<
            Vec<i64>,
            JitError,
        >(JitError::DivisionFault),
{
    let mut out: Vec<i64> = Vec::new();
    if count < 0 {
        return Ok(out);
    }
    let mut x = init;
    let mut k: i64 = 0;
    out.push(x);
    while k < count
        invariant
            0 <= k <= count,
            out@.len() == k + 1,
            forall|j: int| 0 <= j <= k ==> iterates(steps@, init, j as nat) == Some(out@[j]),
            x == out@[k as int],
        decreases count - k,
    {
        match run_steps(steps, x) {
            Ok(v) => {
                x = v;
                out.push(x);
                proof {
                    assert(iterates(steps@, init, (k + 1) as nat) == Some(x));
                }
                k = k + 1;
            },
            Err(e) => {
                proof {
                    assert(iterates(steps@, init, (k + 1) as nat) is None);
                    lemma_iterates_none(steps@, init, (k + 1) as nat, count as nat);
                }
                return Err(e);
            },
        }
    }
    Ok(out)
}

} // verus!
