//! The executable evaluator, proved to return exactly what the ghost
//! interpreter of [`crate::semantics`] says.
use vstd::prelude::*;

use crate::ast::{BinaryOperation, Node, UnaryOperation, FLOAT_ZERO_BITS};
use crate::errors::Error;
use crate::float::{FloatAnswers, FloatRequest};
use crate::laws::lemma_stmts_keeps;
use crate::semantics::{
    apply_binary, apply_ops, apply_unary, catalog_of, eval_args, eval_declare, eval_node,
    eval_read, eval_stmts, is_initial_node, is_program, is_value_node, main_of, run, ArgsEval,
    Eval, ReadKind, StateV,
};
use crate::state::{Catalog, Frame, Function, State};
use crate::value::{Input, Value};

verus! {

/// Why one run of the evaluator stopped short of finishing.
#[derive(Debug, Clone, Copy)]
enum Stop {
    OutOfSteps,
    Request(FloatRequest),
    Abort(Error),
}

/// What one run of [`evaluate`] reports.
#[derive(Debug)]
pub enum RunOutcome {
    /// The program finished or failed; the text is everything it printed
    /// up to that point.
    Done(Result<(), Error>, String),
    /// A float operation is needed: compute it, append the answer to the
    /// matching log, and run again.
    NeedFloat(FloatRequest),
    /// The step budget ran out.
    OutOfSteps,
}

/// How a [`RunOutcome`] reflects a ghost evaluation outcome.
pub open spec fn reflects(res: Eval, r: RunOutcome) -> bool {
    match res {
        Eval::Done(st2) => match r {
            RunOutcome::Done(code, out) => code == Result::<(), Error>::Ok(()) && out@
                == st2.output,
            _ => false,
        },
        Eval::Failed(e, st2) => match r {
            RunOutcome::Done(code, out) => code == Result::<(), Error>::Err(e) && out@
                == st2.output,
            _ => false,
        },
        Eval::Suspend(q) => r matches RunOutcome::NeedFloat(q2) && q2 == q,
        Eval::OutOfFuel => r is OutOfSteps,
    }
}

/// Map the report of a frame write to that of a declaration: writing over
/// an existing name of the same kind is a redeclaration error.
pub fn error_if_redeclare(set_variable_result: Result<bool, Error>) -> (r: Result<(), Error>)
    ensures
        r == match set_variable_result {
            Result::Ok(false) => Result::<(), Error>::Err(Error::Redeclaration),
            Result::Ok(true) => Result::<(), Error>::Ok(()),
            Result::Err(e) => Result::<(), Error>::Err(e),
        },
{
    match set_variable_result {
        Result::Ok(false) => Result::Err(Error::Redeclaration),
        Result::Ok(true) => Result::Ok(()),
        Result::Err(e) => Result::Err(e),
    }
}

/// Whether this node stands for a value (a literal or a variable).
fn node_is_value(n: &Node) -> (r: bool)
    ensures
        r == is_value_node(*n),
{
    match n {
        Node::Float(_) => true,
        Node::Boolean(_) => true,
        Node::String(_) => true,
        Node::Variable(_) => true,
        _ => false,
    }
}

/// Whether this node may begin an assignment.
fn node_is_initial(n: &Node) -> (r: bool)
    ensures
        r == is_initial_node(*n),
{
    match n {
        Node::CallFunction(_, _) => true,
        _ => node_is_value(n),
    }
}

/// How the outcome of one evaluation step is reported through `Result`:
/// on `Done` and `Failed` the state must have become exactly the ghost
/// interpreter's state and stay well formed.
spec fn step_reflects(res: Eval, r: Result<(), Stop>, ok_wf: bool, after: StateV) -> bool {
    match res {
        Eval::Done(st2) => r == Result::<(), Stop>::Ok(()) && ok_wf && after == st2,
        Eval::Failed(e, st2) => r == Result::<(), Stop>::Err(Stop::Abort(e)) && ok_wf && after
            == st2,
        Eval::Suspend(q) => r == Result::<(), Stop>::Err(Stop::Request(q)),
        Eval::OutOfFuel => r == Result::<(), Stop>::Err(Stop::OutOfSteps),
    }
}

/// One unary operation applied to the accumulator.
fn evaluate_unary(op: UnaryOperation, st: &mut State) -> (r: Result<(), Stop>)
    requires
        old(st).wf(),
    ensures
        step_reflects(apply_unary(op, old(st)@), r, final(st).wf(), final(st)@),
{
    match st.current_value() {
        Some(Value::Boolean(b)) => {
            st.set_current(Some(Value::Boolean(!b)));
            Result::Ok(())
        },
        _ => Result::Err(Stop::Abort(Error::TypeMismatch)),
    }
}

/// One binary operation applied to the accumulator and an operand.
fn evaluate_binary(op: BinaryOperation, operand: &Node, st: &mut State) -> (r: Result<(), Stop>)
    requires
        old(st).wf(),
    ensures
        step_reflects(apply_binary(op, *operand, old(st)@), r, final(st).wf(), final(st)@),
{
    match op {
        BinaryOperation::Add
        | BinaryOperation::Subtract
        | BinaryOperation::Multiply
        | BinaryOperation::Divide
        | BinaryOperation::Exponent
        | BinaryOperation::Modulus => match st.current_value() {
            Some(Value::Float(x)) => {
                let yres: Result<u32, Error> = match operand {
                    Node::Float(y) => Result::Ok(*y),
                    Node::Variable(vn) => match st.get_variable(vn) {
                        Some(Value::Float(y)) => Result::Ok(y),
                        Some(_) => Result::Err(Error::TypeMismatch),
                        None => Result::Err(Error::UndefinedVariable),
                    },
                    _ => Result::Err(Error::TypeMismatch),
                };
                match yres {
                    Result::Err(e) => Result::Err(Stop::Abort(e)),
                    Result::Ok(y) => match st.next_bits() {
                        None => Result::Err(Stop::Request(FloatRequest::Arith(op, x, y))),
                        Some(bits) => {
                            st.set_current(Some(Value::Float(bits)));
                            Result::Ok(())
                        },
                    },
                }
            },
            _ => Result::Err(Stop::Abort(Error::TypeMismatch)),
        },
        BinaryOperation::GreaterThan | BinaryOperation::LessThan => match st.current_value() {
            Some(Value::Float(x)) => {
                let yres: Result<u32, Error> = match operand {
                    Node::Float(y) => Result::Ok(*y),
                    Node::Variable(vn) => match st.get_variable(vn) {
                        Some(Value::Float(y)) => Result::Ok(y),
                        Some(_) => Result::Err(Error::TypeMismatch),
                        None => Result::Err(Error::UndefinedVariable),
                    },
                    _ => Result::Err(Error::TypeMismatch),
                };
                match yres {
                    Result::Err(e) => Result::Err(Stop::Abort(e)),
                    Result::Ok(y) => match st.next_flag() {
                        None => Result::Err(Stop::Request(FloatRequest::Compare(op, x, y))),
                        Some(t) => {
                            st.set_current(Some(Value::Boolean(t)));
                            Result::Ok(())
                        },
                    },
                }
            },
            _ => Result::Err(Stop::Abort(Error::TypeMismatch)),
        },
        BinaryOperation::Equal => {
            let evres: Result<Value, Error> = match operand {
                Node::Float(y) => Result::Ok(Value::Float(*y)),
                Node::Boolean(b) => Result::Ok(Value::Boolean(*b)),
                Node::String(s) => Result::Ok(Value::String(s.clone())),
                Node::Variable(vn) => match st.get_variable(vn) {
                    Some(v) => Result::Ok(v),
                    None => Result::Err(Error::UndefinedVariable),
                },
                _ => Result::Err(Error::TypeMismatch),
            };
            match evres {
                Result::Err(e) => Result::Err(Stop::Abort(e)),
                Result::Ok(Value::Boolean(y)) => match st.current_value() {
                    Some(Value::Boolean(x)) => {
                        st.set_current(Some(Value::Boolean(x == y)));
                        Result::Ok(())
                    },
                    _ => Result::Err(Stop::Abort(Error::TypeMismatch)),
                },
                Result::Ok(Value::Float(y)) => match st.current_value() {
                    Some(Value::Float(x)) => match st.next_flag() {
                        None => Result::Err(
                            Stop::Request(FloatRequest::Compare(BinaryOperation::Equal, x, y)),
                        ),
                        Some(t) => {
                            st.set_current(Some(Value::Boolean(t)));
                            Result::Ok(())
                        },
                    },
                    _ => Result::Err(Stop::Abort(Error::TypeMismatch)),
                },
                Result::Ok(Value::String(y)) => match st.current_value() {
                    Some(Value::String(x)) => {
                        let t = x.eq(&y);
                        st.set_current(Some(Value::Boolean(t)));
                        Result::Ok(())
                    },
                    _ => Result::Err(Stop::Abort(Error::TypeMismatch)),
                },
            }
        },
        BinaryOperation::Or | BinaryOperation::And => match st.current_value() {
            Some(Value::Boolean(x)) => {
                let yres: Result<bool, Error> = match operand {
                    Node::Boolean(b) => Result::Ok(*b),
                    Node::Variable(vn) => match st.get_variable(vn) {
                        Some(Value::Boolean(y)) => Result::Ok(y),
                        Some(_) => Result::Err(Error::TypeMismatch),
                        None => Result::Err(Error::UndefinedVariable),
                    },
                    _ => Result::Err(Error::TypeMismatch),
                };
                match yres {
                    Result::Err(e) => Result::Err(Stop::Abort(e)),
                    Result::Ok(y) => {
                        let t = match op {
                            BinaryOperation::Or => x || y,
                            _ => x && y,
                        };
                        st.set_current(Some(Value::Boolean(t)));
                        Result::Ok(())
                    },
                }
            },
            _ => Result::Err(Stop::Abort(Error::TypeMismatch)),
        },
    }
}

/// An assignment's operation chain, applied left to right; the first
/// failure aborts the whole chain.
fn evaluate_ops(ops: &Vec<Node>, st: &mut State) -> (r: Result<(), Stop>)
    requires
        old(st).wf(),
    ensures
        step_reflects(apply_ops(ops@, old(st)@), r, final(st).wf(), final(st)@),
{
    let mut i: usize = 0;
    proof {
        assert(ops@.skip(0) =~= ops@);
    }
    while i < ops.len()
        invariant
            st.wf(),
            i <= ops@.len(),
            apply_ops(ops@, old(st)@) == apply_ops(ops@.skip(i as int), st@),
        decreases ops@.len() - i,
    {
        let ghost pre = st@;
        let sub = match &ops[i] {
            Node::Binary(opx, operand) => evaluate_binary(*opx, &**operand, st),
            Node::Unary(opx) => evaluate_unary(*opx, st),
            _ => Result::Err(Stop::Abort(Error::InvalidOperation)),
        };
        proof {
            assert(ops@.skip(i as int)[0] == ops@[i as int]);
            assert(ops@.skip(i as int).drop_first() =~= ops@.skip(i as int + 1));
        }
        match sub {
            Result::Ok(()) => {
            },
            Result::Err(e) => {
                return Result::Err(e);
            },
        }
        i = i + 1;
    }
    proof {
        assert(ops@.skip(ops@.len() as int) =~= Seq::<Node>::empty());
    }
    Result::Ok(())
}

/// A read statement, parsing the whole input channel into one kind.
fn read_value(kind: ReadKind, target: &Node, st: &mut State) -> (r: Result<(), Stop>)
    requires
        old(st).wf(),
    ensures
        step_reflects(eval_read(kind, *target, old(st)@), r, final(st).wf(), final(st)@),
{
    match target {
        Node::Variable(name) => match st.consume_input() {
            None => Result::Err(Stop::Abort(Error::IOError)),
            Some(eff) => {
                let parsed: Result<Value, Error> = match kind {
                    ReadKind::Float => match eff.float {
                        Some(bits) => Result::Ok(Value::Float(bits)),
                        None => Result::Err(Error::ParseInputError),
                    },
                    ReadKind::Boolean => match eff.boolean {
                        Some(b) => Result::Ok(Value::Boolean(b)),
                        None => Result::Err(Error::ParseInputError),
                    },
                    ReadKind::Text => Result::Ok(Value::String(eff.text)),
                };
                match parsed {
                    Result::Err(e) => Result::Err(Stop::Abort(e)),
                    Result::Ok(v) => match st.set_variable(name, v) {
                        Result::Ok(_) => Result::Ok(()),
                        Result::Err(e) => Result::Err(Stop::Abort(e)),
                    },
                }
            },
        },
        _ => Result::Err(Stop::Abort(Error::TypeMismatch)),
    }
}

/// A declaration of one variable with a literal of its kind.
fn declare_value(name: &String, value: Value, st: &mut State) -> (r: Result<(), Stop>)
    requires
        old(st).wf(),
    ensures
        step_reflects(eval_declare(old(st)@, name@, value@), r, final(st).wf(), final(st)@),
{
    let stored = st.set_variable(name, value);
    match error_if_redeclare(stored) {
        Result::Ok(()) => Result::Ok(()),
        Result::Err(e) => Result::Err(Stop::Abort(e)),
    }
}

/// One node of the program, evaluated against the state.
fn evaluate_node(fuel: u64, node: &Node, funcs: &Catalog, st: &mut State) -> (r: Result<
    (),
    Stop,
>)
    requires
        old(st).wf(),
    ensures
        step_reflects(eval_node(fuel as nat, *node, funcs@, old(st)@), r, final(st).wf(), final(st)@),
    decreases fuel, *node, 0int,
{
    if fuel == 0 {
        return Result::Err(Stop::OutOfSteps);
    }
    match node {
        Node::Float(bits) => {
            st.set_current(Some(Value::Float(*bits)));
            Result::Ok(())
        },
        Node::Boolean(b) => {
            st.set_current(Some(Value::Boolean(*b)));
            Result::Ok(())
        },
        Node::String(s) => {
            st.set_current(Some(Value::String(s.clone())));
            Result::Ok(())
        },
        Node::Variable(name) => match st.get_variable(name) {
            Some(v) => {
                st.set_current(Some(v));
                Result::Ok(())
            },
            None => Result::Err(Stop::Abort(Error::UndefinedVariable)),
        },
        Node::Noop => Result::Ok(()),
        Node::Main(stmts) => evaluate_stmts(fuel, stmts, funcs, st),
        Node::AssignVariable(name, initial, ops) => {
            if !node_is_initial(initial) {
                return Result::Err(Stop::Abort(Error::InvalidOperation));
            }
            let r1 = evaluate_node(fuel, initial, funcs, st);
            match r1 {
                Result::Ok(()) => {
                },
                Result::Err(e) => {
                    return Result::Err(e);
                },
            }
            let r2 = evaluate_ops(ops, st);
            match r2 {
                Result::Ok(()) => {
                },
                Result::Err(e) => {
                    return Result::Err(e);
                },
            }
            match st.current_value() {
                Some(v) => match st.set_variable(name, v) {
                    Result::Ok(_) => Result::Ok(()),
                    Result::Err(e) => Result::Err(Stop::Abort(e)),
                },
                None => Result::Err(Stop::Abort(Error::TypeMismatch)),
            }
        },
        Node::DeclareBoolean(name, init) => match &**init {
            Node::Boolean(b) => declare_value(name, Value::Boolean(*b), st),
            _ => Result::Err(Stop::Abort(Error::TypeMismatch)),
        },
        Node::DeclareFloat(name, init) => match &**init {
            Node::Float(bits) => declare_value(name, Value::Float(*bits), st),
            _ => Result::Err(Stop::Abort(Error::TypeMismatch)),
        },
        Node::DeclareString(name, init) => match &**init {
            Node::String(s) => declare_value(name, Value::String(s.clone()), st),
            _ => Result::Err(Stop::Abort(Error::TypeMismatch)),
        },
        Node::CallFunction(name, args) => match funcs.find(name) {
            None => Result::Err(Stop::Abort(Error::UndefinedFunction)),
            Some(f) => {
                if args.len() != f.parameters.len() {
                    return Result::Err(Stop::Abort(Error::ArityMismatch));
                }
                let bound = match evaluate_args(fuel, args, &f.parameters, funcs, st) {
                    Result::Ok(frame) => frame,
                    Result::Err(e) => {
                        return Result::Err(e);
                    },
                };
                st.push_frame(bound);
                let ghost entered = st@;
                let rb = evaluate_stmts(fuel - 1, &f.body, funcs, st);
                match rb {
                    Result::Ok(()) => {
                        proof {
                            lemma_stmts_keeps((fuel - 1) as nat, f.body@, funcs@, entered);
                        }
                        let ret = st.current_value();
                        st.pop_frame();
                        if !f.void {
                            st.set_current(ret);
                        }
                        Result::Ok(())
                    },
                    Result::Err(e) => Result::Err(e),
                }
            },
        },
        Node::If(flag, then_stmts, else_stmts) => {
            if !node_is_value(flag) {
                return Result::Err(Stop::Abort(Error::TypeMismatch));
            }
            let r1 = evaluate_node(fuel, flag, funcs, st);
            match r1 {
                Result::Ok(()) => {
                },
                Result::Err(e) => {
                    return Result::Err(e);
                },
            }
            match st.current_value() {
                Some(Value::Boolean(b)) => {
                    if b {
                        evaluate_stmts(fuel, then_stmts, funcs, st)
                    } else {
                        evaluate_stmts(fuel, else_stmts, funcs, st)
                    }
                },
                _ => Result::Err(Stop::Abort(Error::TypeMismatch)),
            }
        },
        Node::While(flag, stmts) => match &**flag {
            Node::Variable(name) => {
                let mut cur_fuel = fuel;
                loop
                    invariant
                        st.wf(),
                        1 <= cur_fuel <= fuel,
                        eval_node(fuel as nat, *node, funcs@, old(st)@) == eval_node(
                            cur_fuel as nat,
                            *node,
                            funcs@,
                            st@,
                        ),
                        *node == Node::While(*flag, *stmts),
                        (**flag) == Node::Variable(*name),
                    decreases cur_fuel,
                {
                    match st.get_variable(name) {
                        None => {
                            return Result::Err(Stop::Abort(Error::UndefinedVariable));
                        },
                        Some(v) => match v {
                            Value::Boolean(b) => {
                                st.set_current(Some(Value::Boolean(b)));
                                if !b {
                                    return Result::Ok(());
                                }
                            },
                            Value::Float(bits) => {
                                st.set_current(Some(Value::Float(bits)));
                                match st.next_flag() {
                                    None => {
                                        return Result::Err(
                                            Stop::Request(
                                                FloatRequest::Compare(
                                                    BinaryOperation::Equal,
                                                    bits,
                                                    FLOAT_ZERO_BITS,
                                                ),
                                            ),
                                        );
                                    },
                                    Some(zero) => {
                                        if zero {
                                            return Result::Ok(());
                                        }
                                    },
                                }
                            },
                            Value::String(s) => {
                                st.set_current(Some(Value::String(s)));
                                return Result::Err(Stop::Abort(Error::TypeMismatch));
                            },
                        },
                    }
                    let rb = evaluate_stmts(cur_fuel, stmts, funcs, st);
                    match rb {
                        Result::Ok(()) => {
                        },
                        Result::Err(e) => {
                            return Result::Err(e);
                        },
                    }
                    if cur_fuel == 1 {
                        proof {
                            assert(eval_node(0 as nat, *node, funcs@, st@) == Eval::OutOfFuel);
                        }
                        return Result::Err(Stop::OutOfSteps);
                    }
                    cur_fuel = cur_fuel - 1;
                }
            },
            _ => Result::Err(Stop::Abort(Error::TypeMismatch)),
        },
        Node::For(bound, counter, stmts) => match &**bound {
            Node::Float(max) => match &**counter {
                Node::Variable(name) => match st.get_variable(name) {
                    None => Result::Err(Stop::Abort(Error::UndefinedVariable)),
                    Some(v) => match v {
                        Value::Float(first) => {
                            st.set_current(Some(Value::Float(first)));
                            match st.next_flag() {
                                None => Result::Err(
                                    Stop::Request(
                                        FloatRequest::Compare(BinaryOperation::Equal, first, *max),
                                    ),
                                ),
                                Some(stop) => {
                                    if stop {
                                        return Result::Ok(());
                                    }
                                    evaluate_for(fuel, *max, name, stmts, funcs, st)
                                },
                            }
                        },
                        other => {
                            st.set_current(Some(other));
                            Result::Err(Stop::Abort(Error::TypeMismatch))
                        },
                    },
                },
                _ => Result::Err(Stop::Abort(Error::TypeMismatch)),
            },
            _ => Result::Err(Stop::Abort(Error::TypeMismatch)),
        },
        Node::Print(inner) => {
            if !node_is_value(inner) {
                return Result::Err(Stop::Abort(Error::TypeMismatch));
            }
            let r1 = evaluate_node(fuel, inner, funcs, st);
            match r1 {
                Result::Ok(()) => {
                },
                Result::Err(e) => {
                    return Result::Err(e);
                },
            }
            match st.current_value() {
                Some(Value::Float(bits)) => {
                    if st.append_render() {
                        Result::Ok(())
                    } else {
                        Result::Err(Stop::Request(FloatRequest::Render(bits)))
                    }
                },
                Some(Value::Boolean(b)) => {
                    if b {
                        st.append_text("From a certain point of view.");
                    } else {
                        st.append_text("That's impossible!");
                    }
                    Result::Ok(())
                },
                Some(Value::String(s)) => {
                    st.append_text(s.as_str());
                    Result::Ok(())
                },
                None => Result::Err(Stop::Abort(Error::TypeMismatch)),
            }
        },
        Node::Return(inner) => {
            let r1 = evaluate_node(fuel, inner, funcs, st);
            match r1 {
                Result::Ok(()) => {
                },
                Result::Err(e) => {
                    return Result::Err(e);
                },
            }
            match st.current_value() {
                Some(_) => Result::Ok(()),
                None => Result::Err(Stop::Abort(Error::TypeMismatch)),
            }
        },
        Node::ReadFloat(target) => read_value(ReadKind::Float, target, st),
        Node::ReadBoolean(target) => read_value(ReadKind::Boolean, target, st),
        Node::ReadString(target) => read_value(ReadKind::Text, target, st),
        Node::Binary(_, _) => Result::Err(Stop::Abort(Error::InvalidOperation)),
        Node::Unary(_) => Result::Err(Stop::Abort(Error::InvalidOperation)),
        Node::DeclareFunction(_, _, _, _) => Result::Err(Stop::Abort(Error::InvalidOperation)),
    }
}

/// A statement list, in order; the first non-success aborts it.
fn evaluate_stmts(fuel: u64, stmts: &Vec<Node>, funcs: &Catalog, st: &mut State) -> (r: Result<
    (),
    Stop,
>)
    requires
        old(st).wf(),
    ensures
        step_reflects(eval_stmts(fuel as nat, stmts@, funcs@, old(st)@), r, final(st).wf(), final(st)@),
    decreases fuel, stmts@, 0int,
{
    let mut i: usize = 0;
    proof {
        assert(stmts@.skip(0) =~= stmts@);
    }
    while i < stmts.len()
        invariant
            st.wf(),
            i <= stmts@.len(),
            eval_stmts(fuel as nat, stmts@, funcs@, old(st)@) == eval_stmts(
                fuel as nat,
                stmts@.skip(i as int),
                funcs@,
                st@,
            ),
        decreases stmts@.len() - i,
    {
        let sub = evaluate_node(fuel, &stmts[i], funcs, st);
        proof {
            assert(stmts@.skip(i as int)[0] == stmts@[i as int]);
            assert(stmts@.skip(i as int).drop_first() =~= stmts@.skip(i as int + 1));
        }
        match sub {
            Result::Ok(()) => {
            },
            Result::Err(e) => {
                return Result::Err(e);
            },
        }
        i = i + 1;
    }
    proof {
        assert(stmts@.skip(stmts@.len() as int) =~= Seq::<Node>::empty());
    }
    Result::Ok(())
}

/// A call's arguments, evaluated in the caller's frame; on success the
/// returned frame holds the callee's parameter bindings.
fn evaluate_args(
    fuel: u64,
    args: &Vec<Node>,
    params: &Vec<Node>,
    funcs: &Catalog,
    st: &mut State,
) -> (r: Result<Frame, Stop>)
    requires
        old(st).wf(),
        args@.len() == params@.len(),
    ensures
        match eval_args(fuel as nat, args@, params@, funcs@, old(st)@, Seq::empty()) {
            ArgsEval::Done(st2, bound) => match r {
                Result::Ok(f) => f@.vars == bound && f@.current is None && final(st).wf()
                    && final(st)@ == st2,
                _ => false,
            },
            ArgsEval::Failed(e, st2) => r == Result::<Frame, Stop>::Err(Stop::Abort(e)) && final(st).wf()
                && final(st)@ == st2,
            ArgsEval::Suspend(q) => r == Result::<Frame, Stop>::Err(Stop::Request(q)),
            ArgsEval::OutOfFuel => r == Result::<Frame, Stop>::Err(Stop::OutOfSteps),
        },
    decreases fuel, args@, 0int,
{
    let mut bound = Frame::new();
    let mut i: usize = 0;
    proof {
        assert(args@.skip(0) =~= args@);
        assert(params@.skip(0) =~= params@);
    }
    while i < args.len()
        invariant
            st.wf(),
            i <= args@.len(),
            args@.len() == params@.len(),
            bound@.current is None,
            eval_args(fuel as nat, args@, params@, funcs@, old(st)@, Seq::empty()) == eval_args(
                fuel as nat,
                args@.skip(i as int),
                params@.skip(i as int),
                funcs@,
                st@,
                bound@.vars,
            ),
        decreases args@.len() - i,
    {
        let sub = evaluate_node(fuel, &args[i], funcs, st);
        proof {
            assert(args@.skip(i as int)[0] == args@[i as int]);
            assert(params@.skip(i as int)[0] == params@[i as int]);
            assert(args@.skip(i as int).drop_first() =~= args@.skip(i as int + 1));
            assert(params@.skip(i as int).drop_first() =~= params@.skip(i as int + 1));
        }
        match sub {
            Result::Ok(()) => {
            },
            Result::Err(e) => {
                return Result::Err(e);
            },
        }
        match &params[i] {
            Node::Variable(pname) => match st.current_value() {
                Some(v) => {
                    bound.bind(pname, v);
                },
                None => {
                    return Result::Err(Stop::Abort(Error::TypeMismatch));
                },
            },
            _ => {
                return Result::Err(Stop::Abort(Error::TypeMismatch));
            },
        }
        i = i + 1;
    }
    proof {
        assert(args@.skip(args@.len() as int) =~= Seq::<Node>::empty());
        assert(params@.skip(params@.len() as int) =~= Seq::<Node>::empty());
    }
    Result::Ok(bound)
}

/// The iterations of a counting loop, entered after a check said to
/// continue.
fn evaluate_for(
    fuel: u64,
    max: u32,
    name: &String,
    stmts: &Vec<Node>,
    funcs: &Catalog,
    st: &mut State,
) -> (r: Result<(), Stop>)
    requires
        old(st).wf(),
        fuel >= 1,
    ensures
        step_reflects(
            crate::semantics::eval_for(fuel as nat, max, name@, stmts@, funcs@, old(st)@),
            r,
            final(st).wf(),
            final(st)@,
        ),
    decreases fuel, stmts@, 1int,
{
    let mut cur_fuel = fuel;
    loop
        invariant
            st.wf(),
            1 <= cur_fuel <= fuel,
            crate::semantics::eval_for(fuel as nat, max, name@, stmts@, funcs@, old(st)@)
                == crate::semantics::eval_for(cur_fuel as nat, max, name@, stmts@, funcs@, st@),
        decreases cur_fuel,
    {
        let rb = evaluate_stmts(cur_fuel, stmts, funcs, st);
        match rb {
            Result::Ok(()) => {
            },
            Result::Err(e) => {
                return Result::Err(e);
            },
        }
        match st.get_variable(name) {
            None => {
                return Result::Err(Stop::Abort(Error::UndefinedVariable));
            },
            Some(v) => match v {
                Value::Float(bits) => {
                    st.set_current(Some(Value::Float(bits)));
                    let next = match st.next_bits() {
                        None => {
                            return Result::Err(
                                Stop::Request(
                                    FloatRequest::Arith(
                                        BinaryOperation::Add,
                                        bits,
                                        crate::ast::FLOAT_ONE_BITS,
                                    ),
                                ),
                            );
                        },
                        Some(nb) => nb,
                    };
                    match st.set_variable(name, Value::Float(next)) {
                        Result::Ok(_) => {
                        },
                        Result::Err(e) => {
                            return Result::Err(Stop::Abort(e));
                        },
                    }
                    match st.next_flag() {
                        None => {
                            return Result::Err(
                                Stop::Request(
                                    FloatRequest::Compare(BinaryOperation::Equal, next, max),
                                ),
                            );
                        },
                        Some(stop) => {
                            if stop {
                                return Result::Ok(());
                            }
                        },
                    }
                },
                other => {
                    st.set_current(Some(other));
                    return Result::Err(Stop::Abort(Error::TypeMismatch));
                },
            },
        }
        if cur_fuel == 1 {
            proof {
                assert(crate::semantics::eval_for(0 as nat, max, name@, stmts@, funcs@, st@)
                    == Eval::OutOfFuel);
            }
            return Result::Err(Stop::OutOfSteps);
        }
        cur_fuel = cur_fuel - 1;
    }
}

/// Run a program against an input channel and a log of float answers,
/// within a step budget.
///
/// The result is exactly what the ghost interpreter says for the same
/// arguments: see [`reflects`] and [`crate::semantics::run`].
pub fn evaluate_with_steps(
    ast: Vec<Node>,
    input: Option<Input>,
    answers: FloatAnswers,
    steps: u64,
) -> (r: RunOutcome)
    requires
        is_program(ast@),
    ensures
        reflects(
            run(
                steps as nat,
                ast@,
                match input {
                    Some(x) => Some(x@),
                    None => None,
                },
                answers.bits@,
                answers.flags@,
                answers.renders@.map(|i: int, s: String| s@),
            ),
            r,
        ),
{
    let ghost whole = ast@;
    let mut rest = ast;
    let mut catalog = Catalog::new();
    let mut main_node = Node::Noop;
    let ghost mut idx: int = 0;
    proof {
        assert(whole.skip(0) =~= whole);
        assert(whole.take(0) =~= Seq::<Node>::empty());
    }
    while rest.len() > 0
        invariant
            0 <= idx <= whole.len(),
            rest@ == whole.skip(idx),
            is_program(whole),
            catalog@ == catalog_of(whole.take(idx)),
            main_node == main_of(whole.take(idx)),
        decreases rest@.len(),
    {
        let ghost pre = rest@;
        let node = rest.remove(0);
        proof {
            assert(pre[0] == whole[idx]);
            assert(rest@ =~= whole.skip(idx + 1));
            assert(whole.take(idx + 1) =~= whole.take(idx).push(whole[idx]));
            assert(whole.take(idx + 1).drop_last() =~= whole.take(idx));
        }
        match node {
            Node::Main(stmts) => {
                main_node = Node::Main(stmts);
            },
            Node::DeclareFunction(fname, parameters, body, void) => {
                catalog.register(fname, Function { parameters, body, void });
            },
            _ => {
                proof {
                    assert(false);
                }
            },
        }
        proof {
            idx = idx + 1;
        }
    }
    proof {
        assert(whole.take(whole.len() as int) =~= whole);
    }
    let mut st = State::start(input, answers);
    let res = evaluate_node(steps, &main_node, &catalog, &mut st);
    match res {
        Result::Ok(()) => RunOutcome::Done(Result::Ok(()), st.output),
        Result::Err(Stop::Abort(e)) => RunOutcome::Done(Result::Err(e), st.output),
        Result::Err(Stop::Request(q)) => RunOutcome::NeedFloat(q),
        Result::Err(Stop::OutOfSteps) => RunOutcome::OutOfSteps,
    }
}

/// Run a program with the largest step budget. A program that neither
/// finishes nor fails nor asks for a float within `u64::MAX` statement
/// entries is reported as [`RunOutcome::OutOfSteps`]; no realizable
/// execution reaches that.
pub fn evaluate(ast: Vec<Node>, input: Option<Input>, answers: FloatAnswers) -> (r: RunOutcome)
    requires
        is_program(ast@),
    ensures
        reflects(
            run(
                u64::MAX as nat,
                ast@,
                match input {
                    Some(x) => Some(x@),
                    None => None,
                },
                answers.bits@,
                answers.flags@,
                answers.renders@.map(|i: int, s: String| s@),
            ),
            r,
        ),
{
    evaluate_with_steps(ast, input, answers, u64::MAX)
}

} // verus!
