//! A miniature just-in-time compiler for chains of arithmetic and bitwise
//! operations on a 64-bit accumulator.
//!
//! The library models the machine program at three levels: an operator table
//! (`isa::Op`), the concrete instruction sequence each operator expands to
//! (`isa::Instr`), and the exact byte encoding of those instructions.  An
//! append-only code buffer (`buf::AsmBuf`) collects the encoded bytes and
//! enforces the writable-then-locked protection state machine; the emitter
//! (`emit`) appends whole operator expansions; the driver layer (`driver`)
//! scans a program line, evaluates programs by interpretation, and produces
//! iterated sequences.  A register-level model of the emitted instructions
//! (`sem`) carries the proof that every compiled routine computes exactly
//! the documented evaluation of its chain.  Making the finished bytes
//! executable and invoking them natively is left to the embedding program.

pub mod buf;
pub mod driver;
pub mod emit;
pub mod error;
pub mod isa;
pub mod sem;
