//! The program representation: a tagged union covering expressions and
//! statements alike. Trees of `Node` are produced by an external parser and
//! consumed read-only by the evaluator.
use vstd::prelude::*;

verus! {

/// One node of a program tree.
///
/// Float literals hold the IEEE 754 single-precision bit pattern of their
/// value; the host that drives the evaluator interprets those bits.
#[derive(Debug)]
pub enum Node {
    /// Assign to a variable: an initial expression and a chain of
    /// `Binary`/`Unary` operations applied to it in order.
    AssignVariable(String, Box<Node>, Vec<Node>),
    /// One link of an operation chain: a binary operator and its operand.
    Binary(BinaryOperation, Box<Node>),
    Boolean(bool),
    CallFunction(String, Vec<Node>),
    DeclareBoolean(String, Box<Node>),
    DeclareFloat(String, Box<Node>),
    /// Function declaration: name, parameters (`Variable` nodes), body, and
    /// whether the function is void.
    DeclareFunction(String, Vec<Node>, Vec<Node>, bool),
    DeclareString(String, Box<Node>),
    Float(u32),
    /// Counting loop: bound (a `Float` literal), loop variable (a `Variable`
    /// node), body.
    For(Box<Node>, Box<Node>, Vec<Node>),
    If(Box<Node>, Vec<Node>, Vec<Node>),
    Main(Vec<Node>),
    Print(Box<Node>),
    Return(Box<Node>),
    ReadBoolean(Box<Node>),
    ReadFloat(Box<Node>),
    ReadString(Box<Node>),
    String(String),
    Unary(UnaryOperation),
    Variable(String),
    While(Box<Node>, Vec<Node>),
    Noop,
}

#[derive(Debug, Clone, Copy, PartialEq, Eq, Structural)]
pub enum UnaryOperation {
    Not,
}

#[derive(Debug, Clone, Copy, PartialEq, Eq, Structural)]
pub enum BinaryOperation {
    Add,
    Subtract,
    Multiply,
    Divide,
    Exponent,
    Modulus,
    Equal,
    GreaterThan,
    LessThan,
    Or,
    And,
}

/// The bit pattern of the single-precision float `1.0`, the step of a
/// counting loop.
pub const FLOAT_ONE_BITS: u32 = 0x3f80_0000;

/// The bit pattern of the single-precision float `0.0`, against which a
/// numeric loop condition is tested.
pub const FLOAT_ZERO_BITS: u32 = 0;

} // verus!
