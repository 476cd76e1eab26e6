//! The meaning of a program, as a ghost big-step interpreter.
//!
//! Every contract of the executable evaluator is stated against the
//! functions of this module. Evaluation here is a pure function of the
//! program, the input, the float-answer logs and a step budget (`fuel`):
//! one unit of fuel is spent entering a statement, so a diverging program
//! is reported as [`Eval::OutOfFuel`] rather than looping forever.
//!
//! Two pitfalls of the language's assignment protocol are settled here the
//! strict way: a failing operation inside an assignment's chain aborts the
//! whole assignment instead of being discarded, and an assignment whose
//! accumulator ends up empty (a void call as initializer) is a
//! `TypeMismatch` instead of storing a non-value.
use vstd::prelude::*;

use crate::ast::{BinaryOperation, Node, UnaryOperation, FLOAT_ONE_BITS, FLOAT_ZERO_BITS};
use crate::errors::Error;
use crate::float::FloatRequest;
use crate::value::{drained_input, same_kind, InputV, ValueV};

verus! {

/// One call frame: its variables and its accumulator slot. The slot starts
/// empty and holds the most recently produced value during evaluation.
#[verifier::ext_equal]
pub struct FrameV {
    pub vars: Seq<(Seq<char>, ValueV)>,
    pub current: Option<ValueV>,
}

/// One catalog entry: a function's parameters (as written, `Variable`
/// nodes), its body, and whether it is void.
#[verifier::ext_equal]
pub struct FnV {
    pub parameters: Seq<Node>,
    pub body: Seq<Node>,
    pub void: bool,
}

/// The mutable execution state: the frame stack (the last frame is the one
/// every lookup and write targets), the input channel, the text written so
/// far, and the unconsumed float answers of each shape.
#[verifier::ext_equal]
pub struct StateV {
    pub frames: Seq<FrameV>,
    pub input: Option<InputV>,
    pub consumed: bool,
    pub output: Seq<char>,
    pub floats: Seq<u32>,
    pub truths: Seq<bool>,
    pub texts: Seq<Seq<char>>,
}

/// The outcome of evaluating one construct.
pub enum Eval {
    /// The step budget ran out before the construct finished.
    OutOfFuel,
    /// A float operation is needed; no answer for it was logged.
    Suspend(FloatRequest),
    /// Evaluation failed; the state records the output written so far.
    Failed(Error, StateV),
    /// Evaluation succeeded with this state.
    Done(StateV),
}

/// The outcome of evaluating a call's arguments: as [`Eval`], but success
/// also carries the bindings for the callee's fresh frame.
pub enum ArgsEval {
    OutOfFuel,
    Suspend(FloatRequest),
    Failed(Error, StateV),
    Done(StateV, Seq<(Seq<char>, ValueV)>),
}

// ---------------------------------------------------------------------
// Association lists (the model of a frame's variables and of the catalog).

/// The value bound to `key`, if any: the first binding with that key.
pub open spec fn assoc_get<T>(entries: Seq<(Seq<char>, T)>, key: Seq<char>) -> Option<T>
    decreases entries.len(),
{
    if entries.len() == 0 {
        None
    } else if entries[0].0 == key {
        Some(entries[0].1)
    } else {
        assoc_get(entries.drop_first(), key)
    }
}

/// The entries with `key` now bound to `value`: the existing binding is
/// replaced in place, or a new one is appended.
pub open spec fn assoc_put<T>(
    entries: Seq<(Seq<char>, T)>,
    key: Seq<char>,
    value: T,
) -> Seq<(Seq<char>, T)>
    decreases entries.len(),
{
    if entries.len() == 0 {
        seq![(key, value)]
    } else if entries[0].0 == key {
        seq![(key, value)] + entries.drop_first()
    } else {
        seq![entries[0]] + assoc_put(entries.drop_first(), key, value)
    }
}

// ---------------------------------------------------------------------
// State helpers.

/// The current frame: the top of the stack.
pub open spec fn top(st: StateV) -> FrameV {
    st.frames.last()
}

pub open spec fn with_top(st: StateV, f: FrameV) -> StateV {
    StateV { frames: st.frames.update(st.frames.len() - 1, f), ..st }
}

/// The state with the current frame's accumulator set to `v`.
pub open spec fn set_acc(st: StateV, v: Option<ValueV>) -> StateV {
    with_top(st, FrameV { current: v, ..top(st) })
}

/// The value of a variable in the current frame.
pub open spec fn get_var(st: StateV, key: Seq<char>) -> Option<ValueV> {
    assoc_get(top(st).vars, key)
}

/// Writing a variable in the current frame: an upsert whose kind check
/// comes first. The boolean reports whether the name is new.
pub open spec fn set_var(st: StateV, key: Seq<char>, v: ValueV) -> Result<(bool, StateV), Error> {
    let stored = with_top(st, FrameV { vars: assoc_put(top(st).vars, key, v), ..top(st) });
    match assoc_get(top(st).vars, key) {
        Some(prev) => if same_kind(prev, v) {
            Result::Ok((false, stored))
        } else {
            Result::Err(Error::TypeMismatch)
        },
        None => Result::Ok((true, stored)),
    }
}

pub open spec fn push_output(st: StateV, s: Seq<char>) -> StateV {
    StateV { output: st.output + s, ..st }
}

/// How a boolean is rendered by a print statement.
pub open spec fn bool_text(b: bool) -> Seq<char> {
    if b {
        "From a certain point of view."@
    } else {
        "That's impossible!"@
    }
}

// ---------------------------------------------------------------------
// Float answer logs.

pub open spec fn take_bits(st: StateV) -> (u32, StateV)
    recommends
        st.floats.len() > 0,
{
    (st.floats[0], StateV { floats: st.floats.drop_first(), ..st })
}

pub open spec fn take_flag(st: StateV) -> (bool, StateV)
    recommends
        st.truths.len() > 0,
{
    (st.truths[0], StateV { truths: st.truths.drop_first(), ..st })
}

pub open spec fn take_render(st: StateV) -> (Seq<char>, StateV)
    recommends
        st.texts.len() > 0,
{
    (st.texts[0], StateV { texts: st.texts.drop_first(), ..st })
}

// ---------------------------------------------------------------------
// Node shapes.

/// Nodes that stand for a value: a literal or a variable reference.
pub open spec fn is_value_node(n: Node) -> bool {
    n is Float || n is Boolean || n is String || n is Variable
}

/// Nodes accepted as the initial expression of an assignment.
pub open spec fn is_initial_node(n: Node) -> bool {
    is_value_node(n) || n is CallFunction
}

// ---------------------------------------------------------------------
// Operand resolution for operation chains.

/// The operand of an `Equal`, resolved to a value: a literal of any scalar
/// kind, or a variable read from the current frame.
pub open spec fn operand_value(st: StateV, operand: Node) -> Result<ValueV, Error> {
    match operand {
        Node::Float(bits) => Result::Ok(ValueV::Float(bits)),
        Node::Boolean(b) => Result::Ok(ValueV::Boolean(b)),
        Node::String(s) => Result::Ok(ValueV::Str(s@)),
        Node::Variable(name) => match get_var(st, name@) {
            Some(v) => Result::Ok(v),
            None => Result::Err(Error::UndefinedVariable),
        },
        _ => Result::Err(Error::TypeMismatch),
    }
}

/// The operand of an arithmetic or ordering operation: a float literal or a
/// variable holding a float.
pub open spec fn float_operand(st: StateV, operand: Node) -> Result<u32, Error> {
    match operand {
        Node::Float(bits) => Result::Ok(bits),
        Node::Variable(name) => match get_var(st, name@) {
            Some(ValueV::Float(bits)) => Result::Ok(bits),
            Some(_) => Result::Err(Error::TypeMismatch),
            None => Result::Err(Error::UndefinedVariable),
        },
        _ => Result::Err(Error::TypeMismatch),
    }
}

/// The operand of a logical operation: a boolean literal or a variable
/// holding a boolean.
pub open spec fn bool_operand(st: StateV, operand: Node) -> Result<bool, Error> {
    match operand {
        Node::Boolean(b) => Result::Ok(b),
        Node::Variable(name) => match get_var(st, name@) {
            Some(ValueV::Boolean(b)) => Result::Ok(b),
            Some(_) => Result::Err(Error::TypeMismatch),
            None => Result::Err(Error::UndefinedVariable),
        },
        _ => Result::Err(Error::TypeMismatch),
    }
}

// ---------------------------------------------------------------------
// Operation chains.

/// One binary operation applied to the accumulator and an operand. The
/// accumulator's kind is checked first; for `Equal` the operand is resolved
/// first, because its kind picks the comparison.
pub open spec fn apply_binary(op: BinaryOperation, operand: Node, st: StateV) -> Eval {
    match op {
        BinaryOperation::Add
        | BinaryOperation::Subtract
        | BinaryOperation::Multiply
        | BinaryOperation::Divide
        | BinaryOperation::Exponent
        | BinaryOperation::Modulus => match top(st).current {
            Some(ValueV::Float(x)) => match float_operand(st, operand) {
                Result::Err(e) => Eval::Failed(e, st),
                Result::Ok(y) => if st.floats.len() == 0 {
                    Eval::Suspend(FloatRequest::Arith(op, x, y))
                } else {
                    let (r, st1) = take_bits(st);
                    Eval::Done(set_acc(st1, Some(ValueV::Float(r))))
                },
            },
            _ => Eval::Failed(Error::TypeMismatch, st),
        },
        BinaryOperation::GreaterThan | BinaryOperation::LessThan => match top(st).current {
            Some(ValueV::Float(x)) => match float_operand(st, operand) {
                Result::Err(e) => Eval::Failed(e, st),
                Result::Ok(y) => if st.truths.len() == 0 {
                    Eval::Suspend(FloatRequest::Compare(op, x, y))
                } else {
                    let (t, st1) = take_flag(st);
                    Eval::Done(set_acc(st1, Some(ValueV::Boolean(t))))
                },
            },
            _ => Eval::Failed(Error::TypeMismatch, st),
        },
        BinaryOperation::Equal => match operand_value(st, operand) {
            Result::Err(e) => Eval::Failed(e, st),
            Result::Ok(ValueV::Boolean(y)) => match top(st).current {
                Some(ValueV::Boolean(x)) => Eval::Done(
                    set_acc(st, Some(ValueV::Boolean(x == y))),
                ),
                _ => Eval::Failed(Error::TypeMismatch, st),
            },
            Result::Ok(ValueV::Float(y)) => match top(st).current {
                Some(ValueV::Float(x)) => if st.truths.len() == 0 {
                    Eval::Suspend(FloatRequest::Compare(BinaryOperation::Equal, x, y))
                } else {
                    let (t, st1) = take_flag(st);
                    Eval::Done(set_acc(st1, Some(ValueV::Boolean(t))))
                },
                _ => Eval::Failed(Error::TypeMismatch, st),
            },
            Result::Ok(ValueV::Str(y)) => match top(st).current {
                Some(ValueV::Str(x)) => Eval::Done(set_acc(st, Some(ValueV::Boolean(x == y)))),
                _ => Eval::Failed(Error::TypeMismatch, st),
            },
        },
        BinaryOperation::Or | BinaryOperation::And => match top(st).current {
            Some(ValueV::Boolean(x)) => match bool_operand(st, operand) {
                Result::Err(e) => Eval::Failed(e, st),
                Result::Ok(y) => {
                    let r = if op is Or {
                        x || y
                    } else {
                        x && y
                    };
                    Eval::Done(set_acc(st, Some(ValueV::Boolean(r))))
                },
            },
            _ => Eval::Failed(Error::TypeMismatch, st),
        },
    }
}

/// One unary operation applied to the accumulator.
pub open spec fn apply_unary(op: UnaryOperation, st: StateV) -> Eval {
    match op {
        UnaryOperation::Not => match top(st).current {
            Some(ValueV::Boolean(b)) => Eval::Done(set_acc(st, Some(ValueV::Boolean(!b)))),
            _ => Eval::Failed(Error::TypeMismatch, st),
        },
    }
}

/// An operation chain applied left to right. A failing entry aborts the
/// whole chain; an entry that is neither `Binary` nor `Unary` is an
/// `InvalidOperation`.
pub open spec fn apply_ops(ops: Seq<Node>, st: StateV) -> Eval
    decreases ops.len(),
{
    if ops.len() == 0 {
        Eval::Done(st)
    } else {
        match ops[0] {
            Node::Binary(op, operand) => match apply_binary(op, *operand, st) {
                Eval::Done(st1) => apply_ops(ops.drop_first(), st1),
                r => r,
            },
            Node::Unary(op) => match apply_unary(op, st) {
                Eval::Done(st1) => apply_ops(ops.drop_first(), st1),
                r => r,
            },
            _ => Eval::Failed(Error::InvalidOperation, st),
        }
    }
}

// ---------------------------------------------------------------------
// Declarations and reads.

/// A declaration writes the name and fails if it already existed: with
/// `TypeMismatch` if the old kind differs (the kind check of `set_var`
/// comes first), else with `Redeclaration`.
pub open spec fn eval_declare(st: StateV, name: Seq<char>, v: ValueV) -> Eval {
    match set_var(st, name, v) {
        Result::Err(e) => Eval::Failed(e, st),
        Result::Ok((true, st1)) => Eval::Done(st1),
        Result::Ok((false, st1)) => Eval::Failed(Error::Redeclaration, st1),
    }
}

/// Which kind a read statement parses its input into.
pub enum ReadKind {
    Float,
    Boolean,
    Text,
}

/// A read statement: the target must be a variable reference; the channel
/// must be readable as text (else `IOError`); the first read of a run
/// consumes the whole channel and later reads see it drained; the text
/// must parse into the requested kind (else `ParseInputError`); the parsed
/// value is stored through the ordinary kind-checked write.
pub open spec fn eval_read(kind: ReadKind, target: Node, st: StateV) -> Eval {
    match target {
        Node::Variable(name) => match st.input {
            None => Eval::Failed(Error::IOError, st),
            Some(inp) => {
                let eff = if st.consumed {
                    drained_input()
                } else {
                    inp
                };
                let st1 = StateV { consumed: true, ..st };
                let parsed = match kind {
                    ReadKind::Float => match eff.float {
                        Some(bits) => Result::Ok(ValueV::Float(bits)),
                        None => Result::Err(Error::ParseInputError),
                    },
                    ReadKind::Boolean => match eff.boolean {
                        Some(b) => Result::Ok(ValueV::Boolean(b)),
                        None => Result::Err(Error::ParseInputError),
                    },
                    ReadKind::Text => Result::Ok(ValueV::Str(eff.text)),
                };
                match parsed {
                    Result::Err(e) => Eval::Failed(e, st1),
                    Result::Ok(v) => match set_var(st1, name@, v) {
                        Result::Err(e) => Eval::Failed(e, st1),
                        Result::Ok((_, st2)) => Eval::Done(st2),
                    },
                }
            },
        },
        _ => Eval::Failed(Error::TypeMismatch, st),
    }
}

// ---------------------------------------------------------------------
// The evaluator.

/// One node evaluated against the state. `funcs` is the immutable function
/// catalog; `fuel` bounds the number of statement entries.
pub open spec fn eval_node(
    fuel: nat,
    node: Node,
    funcs: Seq<(Seq<char>, FnV)>,
    st: StateV,
) -> Eval
    decreases fuel, node, 0int,
{
    if fuel == 0 {
        Eval::OutOfFuel
    } else {
        match node {
            Node::Float(bits) => Eval::Done(set_acc(st, Some(ValueV::Float(bits)))),
            Node::Boolean(b) => Eval::Done(set_acc(st, Some(ValueV::Boolean(b)))),
            Node::String(s) => Eval::Done(set_acc(st, Some(ValueV::Str(s@)))),
            Node::Variable(name) => match get_var(st, name@) {
                Some(v) => Eval::Done(set_acc(st, Some(v))),
                None => Eval::Failed(Error::UndefinedVariable, st),
            },
            Node::Noop => Eval::Done(st),
            Node::Main(stmts) => eval_stmts(fuel, stmts@, funcs, st),
            Node::AssignVariable(name, initial, ops) => if !is_initial_node(*initial) {
                Eval::Failed(Error::InvalidOperation, st)
            } else {
                match eval_node(fuel, *initial, funcs, st) {
                    Eval::Done(st1) => match apply_ops(ops@, st1) {
                        Eval::Done(st2) => match top(st2).current {
                            Some(v) => match set_var(st2, name@, v) {
                                Result::Err(e) => Eval::Failed(e, st2),
                                Result::Ok((_, st3)) => Eval::Done(st3),
                            },
                            None => Eval::Failed(Error::TypeMismatch, st2),
                        },
                        r => r,
                    },
                    r => r,
                }
            },
            Node::DeclareBoolean(name, init) => match *init {
                Node::Boolean(b) => eval_declare(st, name@, ValueV::Boolean(b)),
                _ => Eval::Failed(Error::TypeMismatch, st),
            },
            Node::DeclareFloat(name, init) => match *init {
                Node::Float(bits) => eval_declare(st, name@, ValueV::Float(bits)),
                _ => Eval::Failed(Error::TypeMismatch, st),
            },
            Node::DeclareString(name, init) => match *init {
                Node::String(s) => eval_declare(st, name@, ValueV::Str(s@)),
                _ => Eval::Failed(Error::TypeMismatch, st),
            },
            Node::CallFunction(name, args) => match assoc_get(funcs, name@) {
                None => Eval::Failed(Error::UndefinedFunction, st),
                Some(f) => if args@.len() != f.parameters.len() {
                    Eval::Failed(Error::ArityMismatch, st)
                } else {
                    match eval_args(fuel, args@, f.parameters, funcs, st, Seq::empty()) {
                        ArgsEval::Done(st1, bound) => {
                            let entered = StateV {
                                frames: st1.frames.push(FrameV { vars: bound, current: None }),
                                ..st1
                            };
                            match eval_stmts((fuel - 1) as nat, f.body, funcs, entered) {
                                Eval::Done(st2) => {
                                    let ret = top(st2).current;
                                    let left = StateV { frames: st2.frames.drop_last(), ..st2 };
                                    if f.void {
                                        Eval::Done(left)
                                    } else {
                                        Eval::Done(set_acc(left, ret))
                                    }
                                },
                                r => r,
                            }
                        },
                        ArgsEval::OutOfFuel => Eval::OutOfFuel,
                        ArgsEval::Suspend(q) => Eval::Suspend(q),
                        ArgsEval::Failed(e, s) => Eval::Failed(e, s),
                    }
                },
            },
            Node::If(flag, then_stmts, else_stmts) => if !is_value_node(*flag) {
                Eval::Failed(Error::TypeMismatch, st)
            } else {
                match eval_node(fuel, *flag, funcs, st) {
                    Eval::Done(st1) => match top(st1).current {
                        Some(ValueV::Boolean(b)) => eval_stmts(
                            fuel,
                            if b {
                                then_stmts@
                            } else {
                                else_stmts@
                            },
                            funcs,
                            st1,
                        ),
                        _ => Eval::Failed(Error::TypeMismatch, st1),
                    },
                    r => r,
                }
            },
            Node::While(flag, stmts) => match *flag {
                Node::Variable(name) => match get_var(st, name@) {
                    None => Eval::Failed(Error::UndefinedVariable, st),
                    Some(v) => {
                        let st1 = set_acc(st, Some(v));
                        match v {
                            ValueV::Boolean(b) => if !b {
                                Eval::Done(st1)
                            } else {
                                match eval_stmts(fuel, stmts@, funcs, st1) {
                                    Eval::Done(st2) => eval_node(
                                        (fuel - 1) as nat,
                                        Node::While(flag, stmts),
                                        funcs,
                                        st2,
                                    ),
                                    r => r,
                                }
                            },
                            ValueV::Float(bits) => if st1.truths.len() == 0 {
                                Eval::Suspend(
                                    FloatRequest::Compare(
                                        BinaryOperation::Equal,
                                        bits,
                                        FLOAT_ZERO_BITS,
                                    ),
                                )
                            } else {
                                let (zero, st2) = take_flag(st1);
                                if zero {
                                    Eval::Done(st2)
                                } else {
                                    match eval_stmts(fuel, stmts@, funcs, st2) {
                                        Eval::Done(st3) => eval_node(
                                            (fuel - 1) as nat,
                                            Node::While(flag, stmts),
                                            funcs,
                                            st3,
                                        ),
                                        r => r,
                                    }
                                }
                            },
                            ValueV::Str(_) => Eval::Failed(Error::TypeMismatch, st1),
                        }
                    },
                },
                _ => Eval::Failed(Error::TypeMismatch, st),
            },
            Node::For(bound, counter, stmts) => match *bound {
                Node::Float(max) => match *counter {
                    Node::Variable(name) => match get_var(st, name@) {
                        None => Eval::Failed(Error::UndefinedVariable, st),
                        Some(v) => {
                            let st1 = set_acc(st, Some(v));
                            match v {
                                ValueV::Float(bits) => if st1.truths.len() == 0 {
                                    Eval::Suspend(
                                        FloatRequest::Compare(BinaryOperation::Equal, bits, max),
                                    )
                                } else {
                                    let (stop, st2) = take_flag(st1);
                                    if stop {
                                        Eval::Done(st2)
                                    } else {
                                        eval_for(fuel, max, name@, stmts@, funcs, st2)
                                    }
                                },
                                _ => Eval::Failed(Error::TypeMismatch, st1),
                            }
                        },
                    },
                    _ => Eval::Failed(Error::TypeMismatch, st),
                },
                _ => Eval::Failed(Error::TypeMismatch, st),
            },
            Node::Print(inner) => if !is_value_node(*inner) {
                Eval::Failed(Error::TypeMismatch, st)
            } else {
                match eval_node(fuel, *inner, funcs, st) {
                    Eval::Done(st1) => match top(st1).current {
                        Some(ValueV::Float(bits)) => if st1.texts.len() == 0 {
                            Eval::Suspend(FloatRequest::Render(bits))
                        } else {
                            let (s, st2) = take_render(st1);
                            Eval::Done(push_output(st2, s))
                        },
                        Some(ValueV::Boolean(b)) => Eval::Done(push_output(st1, bool_text(b))),
                        Some(ValueV::Str(s)) => Eval::Done(push_output(st1, s)),
                        None => Eval::Failed(Error::TypeMismatch, st1),
                    },
                    r => r,
                }
            },
            Node::Return(inner) => match eval_node(fuel, *inner, funcs, st) {
                Eval::Done(st1) => match top(st1).current {
                    Some(_) => Eval::Done(st1),
                    None => Eval::Failed(Error::TypeMismatch, st1),
                },
                r => r,
            },
            Node::ReadFloat(target) => eval_read(ReadKind::Float, *target, st),
            Node::ReadBoolean(target) => eval_read(ReadKind::Boolean, *target, st),
            Node::ReadString(target) => eval_read(ReadKind::Text, *target, st),
            Node::Binary(_, _) => Eval::Failed(Error::InvalidOperation, st),
            Node::Unary(_) => Eval::Failed(Error::InvalidOperation, st),
            Node::DeclareFunction(_, _, _, _) => Eval::Failed(Error::InvalidOperation, st),
        }
    }
}

/// A statement list evaluated in order; the first non-success aborts it.
pub open spec fn eval_stmts(
    fuel: nat,
    stmts: Seq<Node>,
    funcs: Seq<(Seq<char>, FnV)>,
    st: StateV,
) -> Eval
    decreases fuel, stmts, 0int,
{
    if stmts.len() == 0 {
        Eval::Done(st)
    } else {
        match eval_node(fuel, stmts[0], funcs, st) {
            Eval::Done(st1) => eval_stmts(fuel, stmts.drop_first(), funcs, st1),
            r => r,
        }
    }
}

/// A call's arguments, evaluated in order in the caller's frame. Each
/// parameter must be a `Variable` node, and each argument must leave a
/// value in the accumulator; the value is bound to the parameter name in
/// `bound`, the frame being assembled for the callee.
pub open spec fn eval_args(
    fuel: nat,
    args: Seq<Node>,
    params: Seq<Node>,
    funcs: Seq<(Seq<char>, FnV)>,
    st: StateV,
    bound: Seq<(Seq<char>, ValueV)>,
) -> ArgsEval
    decreases fuel, args, 0int,
{
    if args.len() == 0 {
        ArgsEval::Done(st, bound)
    } else {
        match eval_node(fuel, args[0], funcs, st) {
            Eval::Done(st1) => match params[0] {
                Node::Variable(pname) => match top(st1).current {
                    Some(v) => eval_args(
                        fuel,
                        args.drop_first(),
                        params.drop_first(),
                        funcs,
                        st1,
                        assoc_put(bound, pname@, v),
                    ),
                    None => ArgsEval::Failed(Error::TypeMismatch, st1),
                },
                _ => ArgsEval::Failed(Error::TypeMismatch, st1),
            },
            Eval::OutOfFuel => ArgsEval::OutOfFuel,
            Eval::Suspend(q) => ArgsEval::Suspend(q),
            Eval::Failed(e, s) => ArgsEval::Failed(e, s),
        }
    }
}

/// One iteration of a counting loop, after a check has said to continue:
/// the body runs, the counter is re-read (it must still hold a float),
/// incremented by one and written back, and the loop goes on until the
/// incremented counter compares equal to the bound.
pub open spec fn eval_for(
    fuel: nat,
    max: u32,
    counter: Seq<char>,
    body: Seq<Node>,
    funcs: Seq<(Seq<char>, FnV)>,
    st: StateV,
) -> Eval
    decreases fuel, body, 1int,
{
    if fuel == 0 {
        Eval::OutOfFuel
    } else {
        match eval_stmts(fuel, body, funcs, st) {
            Eval::Done(st1) => match get_var(st1, counter) {
                None => Eval::Failed(Error::UndefinedVariable, st1),
                Some(v) => {
                    let st2 = set_acc(st1, Some(v));
                    match v {
                        ValueV::Float(bits) => if st2.floats.len() == 0 {
                            Eval::Suspend(
                                FloatRequest::Arith(BinaryOperation::Add, bits, FLOAT_ONE_BITS),
                            )
                        } else {
                            let (next, st3) = take_bits(st2);
                            match set_var(st3, counter, ValueV::Float(next)) {
                                Result::Err(e) => Eval::Failed(e, st3),
                                Result::Ok((_, st4)) => if st4.truths.len() == 0 {
                                    Eval::Suspend(
                                        FloatRequest::Compare(BinaryOperation::Equal, next, max),
                                    )
                                } else {
                                    let (stop, st5) = take_flag(st4);
                                    if stop {
                                        Eval::Done(st5)
                                    } else {
                                        eval_for((fuel - 1) as nat, max, counter, body, funcs, st5)
                                    }
                                },
                            }
                        },
                        _ => Eval::Failed(Error::TypeMismatch, st2),
                    }
                },
            },
            r => r,
        }
    }
}

// ---------------------------------------------------------------------
// Whole programs.

/// A well-formed top level: only `Main` bodies and function declarations.
pub open spec fn is_program(prog: Seq<Node>) -> bool {
    forall|i: int| 0 <= i < prog.len() ==> (prog[i] is Main || prog[i] is DeclareFunction)
}

/// The function catalog: declarations registered in order, a later one
/// replacing an earlier one of the same name.
pub open spec fn catalog_of(prog: Seq<Node>) -> Seq<(Seq<char>, FnV)>
    decreases prog.len(),
{
    if prog.len() == 0 {
        Seq::empty()
    } else {
        let rest = catalog_of(prog.drop_last());
        match prog.last() {
            Node::DeclareFunction(name, parameters, body, void) => assoc_put(
                rest,
                name@,
                FnV { parameters: parameters@, body: body@, void },
            ),
            _ => rest,
        }
    }
}

/// The body to execute: the last `Main` of the program, or a no-op if
/// there is none.
pub open spec fn main_of(prog: Seq<Node>) -> Node
    decreases prog.len(),
{
    if prog.len() == 0 {
        Node::Noop
    } else if prog.last() is Main {
        prog.last()
    } else {
        main_of(prog.drop_last())
    }
}

/// The state a run starts from: one empty frame, an untouched input
/// channel, no output, and the given float answers.
pub open spec fn start_state(
    input: Option<InputV>,
    floats: Seq<u32>,
    truths: Seq<bool>,
    texts: Seq<Seq<char>>,
) -> StateV {
    StateV {
        frames: seq![FrameV { vars: Seq::empty(), current: None }],
        input,
        consumed: false,
        output: Seq::empty(),
        floats,
        truths,
        texts,
    }
}

/// A whole run: the catalog is built once, then the main body executes.
pub open spec fn run(
    fuel: nat,
    prog: Seq<Node>,
    input: Option<InputV>,
    floats: Seq<u32>,
    truths: Seq<bool>,
    texts: Seq<Seq<char>>,
) -> Eval {
    eval_node(fuel, main_of(prog), catalog_of(prog), start_state(input, floats, truths, texts))
}

} // verus!
