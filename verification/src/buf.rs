//! The append-only code buffer and its writable-then-locked state machine.
//!
//! An [`AsmBuf`] stands for one fixed-capacity code region.  While unlocked
//! it accepts appended bytes; finalization appends the trailing return,
//! locks the buffer for good, and hands out the finished machine code.  The
//! embedding program is the one that maps the bytes into executable memory
//! and calls them; the buffer itself guarantees that nothing is ever written
//! after the lock and nothing is ever written past the capacity.

use vstd::prelude::*;

use crate::error::JitError;
use crate::isa::{encode_instr, instr_bytes, Instr};

verus! {

/// Fixed capacity of the code region, in bytes.
pub const BUF_SIZE: usize = 4096;

/// One code region: the bytes appended so far and the protection-state flag.
pub struct AsmBuf {
    data: Vec<u8>,
    locked: bool,
}

impl AsmBuf {
    /// The bytes appended so far, in order.
    pub closed spec fn bytes(self) -> Seq<u8> {
        self.data@
    }

    /// Whether the buffer has been finalized (locked against appends).
    pub closed spec fn is_locked(self) -> bool {
        self.locked
    }

    /// Well-formedness: the write cursor never passes the fixed capacity.
    pub open spec fn wf(self) -> bool {
        self.bytes().len() <= BUF_SIZE
    }

    /// How many bytes have been appended so far.
    pub fn len(&self) -> (r: usize)
        ensures
            r == self.bytes().len(),
    {
        self.data.len()
    }

    /// Whether the buffer has been finalized.
    pub fn locked(&self) -> (r: bool)
        ensures
            r == self.is_locked(),
    {
        self.locked
    }

    /// A copy of the bytes appended so far.
    pub fn code(&self) -> (r: Vec<u8>)
        ensures
            r@ == self.bytes(),
    {
        let mut out: Vec<u8> = Vec::new();
        let mut i: usize = 0;
        while i < self.data.len()
            invariant
                i <= self.data@.len(),
                out@ == self.data@.subrange(0, i as int),
            decreases self.data@.len() - i,
        {
            out.push(self.data[i]);
            proof {
                assert(out@ =~= self.data@.subrange(0, i + 1));
            }
            i = i + 1;
        }
        proof {
            assert(out@ =~= self.data@);
        }
        out
    }

    /// Appends raw bytes without the state checks; internal helper for
    /// callers that have already established them.
    pub(crate) fn append_bytes(&mut self, buf: &[u8])
        requires
            !old(self).is_locked(),
            old(self).bytes().len() + buf@.len() <= BUF_SIZE,
        ensures
            final(self).bytes() == old(self).bytes() + buf@,
            !final(self).is_locked(),
            final(self).wf(),
    {
        let mut i: usize = 0;
        while i < buf.len()
            invariant
                i <= buf@.len(),
                !self.locked,
                self.data@ == old(self).data@ + buf@.subrange(0, i as int),
                old(self).data@.len() + buf@.len() <= BUF_SIZE,
            decreases buf@.len() - i,
        {
            self.data.push(buf[i]);
            proof {
                assert(self.data@ =~= old(self).data@ + buf@.subrange(0, i + 1));
            }
            i = i + 1;
        }
        proof {
            assert(self.data@ =~= old(self).data@ + buf@);
        }
    }

    /// Appends raw bytes at the cursor.
    ///
    /// Refused with [`JitError::Locked`] once the buffer is finalized and
    /// with [`JitError::CapacityExceeded`] when the bytes would pass the
    /// fixed capacity; in both cases the buffer is left exactly as it was,
    /// so no byte is ever written past the boundary and nothing is silently
    /// truncated.
    pub fn write(&mut self, buf: &[u8]) -> (r: Result<(), JitError>)
        ensures
            final(self).is_locked() == old(self).is_locked(),
            old(self).is_locked() ==> r == Err::<(), JitError>(JitError::Locked) && *final(self)
                == *old(self),
            !old(self).is_locked() && old(self).bytes().len() + buf@.len() > BUF_SIZE ==> r
                == Err::<(), JitError>(JitError::CapacityExceeded) && *final(self) == *old(self),
            !old(self).is_locked() && old(self).bytes().len() + buf@.len() <= BUF_SIZE ==> r
                == Ok::<(), JitError>(()) && final(self).bytes() == old(self).bytes() + buf@,
            old(self).wf() ==> final(self).wf(),
    {
        if self.locked {
            return Err(JitError::Locked);
        }
        if buf.len() > BUF_SIZE || self.data.len() > BUF_SIZE - buf.len() {
            return Err(JitError::CapacityExceeded);
        }
        self.append_bytes(buf);
        Ok(())
    }

    /// Appends the "load 64-bit literal into the operand register"
    /// instruction followed by the literal's eight little-endian bytes.
    ///
    /// Fails exactly as [`AsmBuf::write`] does, and on failure leaves the
    /// buffer unchanged: the opcode is never written without its immediate.
    pub fn op_mov_rdi_imm64(&mut self, imm: i64) -> (r: Result<(), JitError>)
        ensures
            final(self).is_locked() == old(self).is_locked(),
            old(self).is_locked() ==> r == Err::<(), JitError>(JitError::Locked) && *final(self)
                == *old(self),
            !old(self).is_locked() && old(self).bytes().len()
                + instr_bytes(Instr::MovRdiImm(imm)).len() > BUF_SIZE ==> r
                == Err::<(), JitError>(JitError::CapacityExceeded) && *final(self) == *old(self),
            !old(self).is_locked() && old(self).bytes().len()
                + instr_bytes(Instr::MovRdiImm(imm)).len() <= BUF_SIZE ==> r
                == Ok::<(), JitError>(()) && final(self).bytes() == old(self).bytes()
                + instr_bytes(Instr::MovRdiImm(imm)),
            old(self).wf() ==> final(self).wf(),
    {
        let enc = encode_instr(Instr::MovRdiImm(imm));
        self.write(enc.as_slice())
    }

    /// Finalizes the buffer: appends the trailing return instruction, locks
    /// the region for good, and hands back a copy of the finished machine
    /// code.  Idempotent: once locked, nothing more is appended and the same
    /// code comes back.  Fails only when even the one-byte trailer no longer
    /// fits, in which case the buffer is left unlocked and unchanged.
    ///
    /// The embedding program is the one that maps the returned bytes into
    /// read-only executable memory and calls them as a function from one
    /// signed 64-bit integer to one signed 64-bit integer.
    pub fn to_fn(&mut self) -> (r: Result<Vec<u8>, JitError>)
        ensures
            old(self).is_locked() ==> *final(self) == *old(self) && (r matches Ok(c) && c@ == old(
                self).bytes()),
            !old(self).is_locked() && old(self).bytes().len() + 1 <= BUF_SIZE ==> final(
                self).is_locked() && final(self).bytes() == old(self).bytes() + instr_bytes(
                Instr::Ret) && (r matches Ok(c) && c@ == final(self).bytes()),
            !old(self).is_locked() && old(self).bytes().len() + 1 > BUF_SIZE ==> *final(self)
                == *old(self) && r == Err::<Vec<u8>, JitError>(JitError::CapacityExceeded),
            old(self).wf() ==> final(self).wf(),
    {
        if !self.locked {
            if self.data.len() >= BUF_SIZE {
                return Err(JitError::CapacityExceeded);
            }
            self.data.push(0xc3);
            self.locked = true;
            proof {
                assert(self.data@ =~= old(self).data@ + instr_bytes(Instr::Ret));
            }
        }
        Ok(self.code())
    }
}

/// Creates a fresh, unlocked buffer whose region already carries the
/// preamble instruction: every generated routine begins by copying the call
/// argument into the accumulator.
pub fn new() -> (r: AsmBuf)
    ensures
        r.wf(),
        !r.is_locked(),
        r.bytes() == instr_bytes(Instr::MovRaxRdi),
{
    let mut data: Vec<u8> = Vec::new();
    data.push(0x48);
    data.push(0x89);
    data.push(0xf8);
    let r = AsmBuf { data, locked: false };
    proof {
        assert(r.bytes() =~= instr_bytes(Instr::MovRaxRdi));
    }
    r
}

} // verus!
