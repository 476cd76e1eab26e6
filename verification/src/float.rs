//! The evaluator's protocol for floating-point work.
//!
//! The library never computes a float operation: single-precision arithmetic
//! cannot be expressed here, so it is the caller's side of the contract.
//! When evaluation needs one, it stops and hands back a [`FloatRequest`].
//! The caller computes the answer on the host's floating-point unit, appends
//! it to the matching log of a [`FloatAnswers`], and runs the evaluator
//! again. Evaluation is deterministic, so the re-run reaches the same
//! request sequence and consumes the recorded answers in order.
use vstd::prelude::*;

use crate::ast::BinaryOperation;

verus! {

/// A single-precision operation the evaluator needs an answer for.
/// Operands are IEEE 754 bit patterns.
#[derive(Debug, Clone, Copy, PartialEq, Eq, Structural)]
pub enum FloatRequest {
    /// Arithmetic (`Add` through `Modulus`): answer with the bit pattern of
    /// the result, in [`FloatAnswers::bits`].
    Arith(BinaryOperation, u32, u32),
    /// Comparison (`Equal`, `GreaterThan` or `LessThan`): answer with the
    /// truth of the comparison, in [`FloatAnswers::flags`].
    Compare(BinaryOperation, u32, u32),
    /// Decimal rendering of one float, for printing: answer with its text,
    /// in [`FloatAnswers::renders`].
    Render(u32),
}

/// The answers recorded so far, one log per answer shape. Each log is
/// consumed front to back, one entry per request of that shape.
pub struct FloatAnswers {
    pub bits: Vec<u32>,
    pub flags: Vec<bool>,
    pub renders: Vec<String>,
}

impl FloatAnswers {
    /// The empty log: a first run under it stops at the first float
    /// operation of the program, if any.
    pub fn new() -> (r: FloatAnswers)
        ensures
            r.bits@ == Seq::<u32>::empty(),
            r.flags@ == Seq::<bool>::empty(),
            r.renders@ == Seq::<String>::empty(),
    {
        FloatAnswers { bits: Vec::new(), flags: Vec::new(), renders: Vec::new() }
    }
}

} // verus!
