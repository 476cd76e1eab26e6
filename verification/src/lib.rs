//! An interpreter for a small imperative scripting language.
//!
//! A program is a list of top-level [`ast::Node`]s: one `Main` body and any
//! number of function declarations. The evaluator walks the tree against an
//! execution state made of call frames; each frame maps variable names to
//! scalar values and holds a single accumulator slot that expression
//! evaluation threads its intermediate results through.
//!
//! Floats are carried everywhere as their IEEE 754 single-precision bit
//! patterns (`u32`). The evaluator never computes a float operation itself:
//! when it needs one it stops and reports a [`float::FloatRequest`], and the
//! caller re-runs it with the answer appended to a [`float::FloatAnswers`]
//! log. Evaluation is a pure function of the program, the input and that log,
//! so the re-run repeats the earlier requests exactly and then goes further.
//! The ghost interpreter in [`semantics`] fixes the meaning of every
//! construct; [`interpreter::evaluate`] is proved to return exactly what it
//! says.
pub mod ast;
pub mod errors;
pub mod float;
pub mod interpreter;
pub mod laws;
pub mod semantics;
pub mod state;
pub mod value;
