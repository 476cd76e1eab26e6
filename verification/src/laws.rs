//! Proved properties of the semantics that hold across all programs.
//!
//! Four families:
//! - *Frame isolation* (`lemma_node_keeps` and companions): whatever a
//!   construct does, it does it to the current frame alone — the frames
//!   below the top keep their variables and accumulators, the stack
//!   returns to its old depth, and the output only grows. Its corollaries
//!   pin down calls: a bare void call leaves the caller's whole stack as
//!   it was, a value-returning call can touch nothing but the caller's
//!   accumulator.
//! - *Laws of single constructs*: redeclaring an existing name always
//!   fails; a call of the wrong arity fails before anything runs; printing
//!   a variable renders exactly the stored value; unparsable input fails
//!   with `ParseInputError`; a failing chain operation aborts its whole
//!   assignment.
//! - *Fuel monotonicity* (`lemma_run_fuel`): a budget large enough to
//!   finish is as good as any larger one, so the step budget only ever
//!   cuts off divergence.
//! - *Name uniqueness* (`lemma_run_unique`): no frame of a run ever binds
//!   the same variable name twice.
use vstd::prelude::*;

use crate::ast::{BinaryOperation, Node, UnaryOperation};
use crate::errors::Error;
use crate::semantics::{
    apply_binary, apply_ops, apply_unary, assoc_get, assoc_put, bool_text, eval_args, eval_for,
    eval_node, eval_read, eval_stmts, get_var, is_initial_node, is_value_node, push_output,
    set_acc, take_render, top, ArgsEval, Eval, FnV, ReadKind, StateV,
};
use crate::value::{InputV, ValueV};

verus! {

/// `b` is `a` with possibly more text written after it.
pub open spec fn output_extends(a: Seq<char>, b: Seq<char>) -> bool {
    a.len() <= b.len() && b.subrange(0, a.len() as int) == a
}

pub proof fn lemma_extends_trans(a: Seq<char>, b: Seq<char>, c: Seq<char>)
    requires
        output_extends(a, b),
        output_extends(b, c),
    ensures
        output_extends(a, c),
{
    assert(c.subrange(0, a.len() as int) =~= a) by {
        assert forall|i: int| 0 <= i < a.len() implies c[i] == a[i] by {
            assert(b.subrange(0, a.len() as int)[i] == b[i]);
            assert(c.subrange(0, b.len() as int)[i] == c[i]);
        }
    }
}


pub proof fn lemma_extends_refl(a: Seq<char>)
    ensures
        output_extends(a, a),
{
    assert(a.subrange(0, a.len() as int) =~= a);
}

/// What every successful evaluation step leaves intact: the stack depth,
/// every frame but the top one, and the output already written.
pub open spec fn keeps_surroundings(before: StateV, after: StateV) -> bool {
    &&& after.frames.len() == before.frames.len()
    &&& forall|i: int|
        0 <= i < before.frames.len() - 1 ==> after.frames[i] == before.frames[i]
    &&& output_extends(before.output, after.output)
}

proof fn lemma_keeps_trans(a: StateV, b: StateV, c: StateV)
    requires
        keeps_surroundings(a, b),
        keeps_surroundings(b, c),
    ensures
        keeps_surroundings(a, c),
{
    lemma_extends_trans(a.output, b.output, c.output);
}

proof fn lemma_binary_keeps(op: BinaryOperation, operand: Node, st: StateV)
    requires
        st.frames.len() >= 1,
    ensures
        match apply_binary(op, operand, st) {
            Eval::Done(st2) => keeps_surroundings(st, st2) && st2.output == st.output,
            _ => true,
        },
{
    match apply_binary(op, operand, st) {
        Eval::Done(st2) => {
            assert(st2.output.subrange(0, st.output.len() as int) =~= st.output);
        },
        _ => {},
    }
}

proof fn lemma_unary_keeps(op: UnaryOperation, st: StateV)
    requires
        st.frames.len() >= 1,
    ensures
        match apply_unary(op, st) {
            Eval::Done(st2) => keeps_surroundings(st, st2) && st2.output == st.output,
            _ => true,
        },
{
    match apply_unary(op, st) {
        Eval::Done(st2) => {
            assert(st2.output.subrange(0, st.output.len() as int) =~= st.output);
        },
        _ => {},
    }
}

proof fn lemma_ops_keeps(ops: Seq<Node>, st: StateV)
    requires
        st.frames.len() >= 1,
    ensures
        match apply_ops(ops, st) {
            Eval::Done(st2) => keeps_surroundings(st, st2) && st2.output == st.output,
            _ => true,
        },
    decreases ops.len(),
{
    if ops.len() == 0 {
        assert(st.output.subrange(0, st.output.len() as int) =~= st.output);
    } else {
        match ops[0] {
            Node::Binary(op, operand) => {
                lemma_binary_keeps(op, *operand, st);
                match apply_binary(op, *operand, st) {
                    Eval::Done(st1) => {
                        lemma_ops_keeps(ops.drop_first(), st1);
                    },
                    _ => {},
                }
            },
            Node::Unary(op) => {
                lemma_unary_keeps(op, st);
                match apply_unary(op, st) {
                    Eval::Done(st1) => {
                        lemma_ops_keeps(ops.drop_first(), st1);
                    },
                    _ => {},
                }
            },
            _ => {},
        }
    }
}

proof fn lemma_read_keeps(kind: ReadKind, target: Node, st: StateV)
    requires
        st.frames.len() >= 1,
    ensures
        match eval_read(kind, target, st) {
            Eval::Done(st2) => keeps_surroundings(st, st2) && st2.output == st.output,
            _ => true,
        },
{
    match eval_read(kind, target, st) {
        Eval::Done(st2) => {
            assert(st2.output.subrange(0, st.output.len() as int) =~= st.output);
        },
        _ => {},
    }
}

/// Frame isolation for one node.
pub proof fn lemma_node_keeps(fuel: nat, node: Node, funcs: Seq<(Seq<char>, FnV)>, st: StateV)
    requires
        st.frames.len() >= 1,
    ensures
        match eval_node(fuel, node, funcs, st) {
            Eval::Done(st2) => keeps_surroundings(st, st2),
            _ => true,
        },
    decreases fuel, node, 0int,
{
    assert(st.output.subrange(0, st.output.len() as int) =~= st.output);
    if fuel == 0 {
    } else {
        match node {
            Node::Main(stmts) => {
                lemma_stmts_keeps(fuel, stmts@, funcs, st);
            },
            Node::AssignVariable(name, initial, ops) => {
                lemma_node_keeps(fuel, *initial, funcs, st);
                match eval_node(fuel, *initial, funcs, st) {
                    Eval::Done(st1) => {
                        lemma_ops_keeps(ops@, st1);
                        match apply_ops(ops@, st1) {
                            Eval::Done(st2) => {
                                lemma_keeps_trans(st, st1, st2);
                            },
                            _ => {},
                        }
                    },
                    _ => {},
                }
            },
            Node::CallFunction(name, args) => {
                match crate::semantics::assoc_get(funcs, name@) {
                    Some(f) => if args@.len() == f.parameters.len() {
                        lemma_args_keeps(fuel, args@, f.parameters, funcs, st, Seq::empty());
                        match eval_args(fuel, args@, f.parameters, funcs, st, Seq::empty()) {
                            ArgsEval::Done(st1, bound) => {
                                let entered = StateV {
                                    frames: st1.frames.push(
                                        crate::semantics::FrameV { vars: bound, current: None },
                                    ),
                                    ..st1
                                };
                                lemma_stmts_keeps((fuel - 1) as nat, f.body, funcs, entered);
                                match eval_stmts((fuel - 1) as nat, f.body, funcs, entered) {
                                    Eval::Done(st2) => {
                                        let left = StateV {
                                            frames: st2.frames.drop_last(),
                                            ..st2
                                        };
                                        lemma_extends_refl(left.output);
                                        assert(keeps_surroundings(st1, left));
                                        lemma_keeps_trans(st, st1, left);
                                        if !f.void {
                                            assert(keeps_surroundings(
                                                left,
                                                crate::semantics::set_acc(
                                                    left,
                                                    crate::semantics::top(st2).current,
                                                ),
                                            ));
                                            lemma_keeps_trans(
                                                st,
                                                left,
                                                crate::semantics::set_acc(
                                                    left,
                                                    crate::semantics::top(st2).current,
                                                ),
                                            );
                                        }
                                    },
                                    _ => {},
                                }
                            },
                            _ => {},
                        }
                    },
                    None => {},
                }
            },
            Node::If(flag, then_stmts, else_stmts) => {
                lemma_node_keeps(fuel, *flag, funcs, st);
                match eval_node(fuel, *flag, funcs, st) {
                    Eval::Done(st1) => {
                        lemma_stmts_keeps(fuel, then_stmts@, funcs, st1);
                        lemma_stmts_keeps(fuel, else_stmts@, funcs, st1);
                        match eval_stmts(fuel, then_stmts@, funcs, st1) {
                            Eval::Done(st2) => {
                                lemma_keeps_trans(st, st1, st2);
                            },
                            _ => {},
                        }
                        match eval_stmts(fuel, else_stmts@, funcs, st1) {
                            Eval::Done(st2) => {
                                lemma_keeps_trans(st, st1, st2);
                            },
                            _ => {},
                        }
                    },
                    _ => {},
                }
            },
            Node::While(flag, stmts) => {
                match *flag {
                    Node::Variable(name) => {
                        match crate::semantics::get_var(st, name@) {
                            Some(v) => {
                                let st1 = crate::semantics::set_acc(st, Some(v));
                                lemma_while_body(fuel, node, flag, stmts, funcs, st, st1);
                                let st2 = crate::semantics::take_flag(st1).1;
                                lemma_while_body(fuel, node, flag, stmts, funcs, st, st2);
                            },
                            None => {},
                        }
                    },
                    _ => {},
                }
            },
            Node::For(bound, counter, stmts) => {
                match *bound {
                    Node::Float(max) => match *counter {
                        Node::Variable(name) => match crate::semantics::get_var(st, name@) {
                            Some(v) => {
                                let st1 = crate::semantics::set_acc(st, Some(v));
                                let st2 = crate::semantics::take_flag(st1).1;
                                lemma_for_keeps(fuel, max, name@, stmts@, funcs, st2);
                                match eval_for(fuel, max, name@, stmts@, funcs, st2) {
                                    Eval::Done(st3) => {
                                        assert(keeps_surroundings(st, st2));
                                        lemma_keeps_trans(st, st2, st3);
                                    },
                                    _ => {},
                                }
                            },
                            None => {},
                        },
                        _ => {},
                    },
                    _ => {},
                }
            },
            Node::Print(inner) => {
                lemma_node_keeps(fuel, *inner, funcs, st);
                match eval_node(fuel, *inner, funcs, st) {
                    Eval::Done(st1) => {
                        match crate::semantics::top(st1).current {
                            Some(v) => {
                                assert forall|stx: StateV, s: Seq<char>|
                                    keeps_surroundings(st, stx) implies keeps_surroundings(
                                    st,
                                    crate::semantics::push_output(stx, s),
                                ) by {
                                    let sty = crate::semantics::push_output(stx, s);
                                    assert(sty.output.subrange(0, st.output.len() as int)
                                        =~= stx.output.subrange(0, st.output.len() as int));
                                }
                            },
                            None => {},
                        }
                    },
                    _ => {},
                }
            },
            Node::Return(inner) => {
                lemma_node_keeps(fuel, *inner, funcs, st);
            },
            Node::ReadFloat(target) => {
                lemma_read_keeps(ReadKind::Float, *target, st);
            },
            Node::ReadBoolean(target) => {
                lemma_read_keeps(ReadKind::Boolean, *target, st);
            },
            Node::ReadString(target) => {
                lemma_read_keeps(ReadKind::Text, *target, st);
            },
            _ => {},
        }
    }
}

/// The body-then-recheck step of a `While`, shared by its boolean and
/// float conditions.
proof fn lemma_while_body(
    fuel: nat,
    node: Node,
    flag: Box<Node>,
    stmts: Vec<Node>,
    funcs: Seq<(Seq<char>, FnV)>,
    st: StateV,
    stb: StateV,
)
    requires
        st.frames.len() >= 1,
        fuel >= 1,
        node == Node::While(flag, stmts),
        keeps_surroundings(st, stb),
    ensures
        match eval_stmts(fuel, stmts@, funcs, stb) {
            Eval::Done(st3) => match eval_node(
                (fuel - 1) as nat,
                Node::While(flag, stmts),
                funcs,
                st3,
            ) {
                Eval::Done(st4) => keeps_surroundings(st, st4),
                _ => true,
            },
            _ => true,
        },
    decreases fuel, stmts@, 1int,
{
    lemma_stmts_keeps(fuel, stmts@, funcs, stb);
    match eval_stmts(fuel, stmts@, funcs, stb) {
        Eval::Done(st3) => {
            lemma_node_keeps((fuel - 1) as nat, Node::While(flag, stmts), funcs, st3);
            match eval_node((fuel - 1) as nat, Node::While(flag, stmts), funcs, st3) {
                Eval::Done(st4) => {
                    lemma_keeps_trans(st, stb, st3);
                    lemma_keeps_trans(st, st3, st4);
                },
                _ => {},
            }
        },
        _ => {},
    }
}

/// Frame isolation for a statement list.
pub proof fn lemma_stmts_keeps(
    fuel: nat,
    stmts: Seq<Node>,
    funcs: Seq<(Seq<char>, FnV)>,
    st: StateV,
)
    requires
        st.frames.len() >= 1,
    ensures
        match eval_stmts(fuel, stmts, funcs, st) {
            Eval::Done(st2) => keeps_surroundings(st, st2),
            _ => true,
        },
    decreases fuel, stmts, 0int,
{
    if stmts.len() == 0 {
        assert(st.output.subrange(0, st.output.len() as int) =~= st.output);
    } else {
        lemma_node_keeps(fuel, stmts[0], funcs, st);
        match eval_node(fuel, stmts[0], funcs, st) {
            Eval::Done(st1) => {
                lemma_stmts_keeps(fuel, stmts.drop_first(), funcs, st1);
                match eval_stmts(fuel, stmts.drop_first(), funcs, st1) {
                    Eval::Done(st2) => {
                        lemma_keeps_trans(st, st1, st2);
                    },
                    _ => {},
                }
            },
            _ => {},
        }
    }
}

/// Frame isolation for argument evaluation.
pub proof fn lemma_args_keeps(
    fuel: nat,
    args: Seq<Node>,
    params: Seq<Node>,
    funcs: Seq<(Seq<char>, FnV)>,
    st: StateV,
    bound: Seq<(Seq<char>, crate::value::ValueV)>,
)
    requires
        st.frames.len() >= 1,
    ensures
        match eval_args(fuel, args, params, funcs, st, bound) {
            ArgsEval::Done(st2, b2) => keeps_surroundings(st, st2),
            _ => true,
        },
    decreases fuel, args, 0int,
{
    if args.len() == 0 {
        assert(st.output.subrange(0, st.output.len() as int) =~= st.output);
    } else {
        lemma_node_keeps(fuel, args[0], funcs, st);
        match eval_node(fuel, args[0], funcs, st) {
            Eval::Done(st1) => {
                match params[0] {
                    Node::Variable(pname) => {
                        match crate::semantics::top(st1).current {
                            Some(v) => {
                                lemma_args_keeps(
                                    fuel,
                                    args.drop_first(),
                                    params.drop_first(),
                                    funcs,
                                    st1,
                                    crate::semantics::assoc_put(bound, pname@, v),
                                );
                                match eval_args(
                                    fuel,
                                    args.drop_first(),
                                    params.drop_first(),
                                    funcs,
                                    st1,
                                    crate::semantics::assoc_put(bound, pname@, v),
                                ) {
                                    ArgsEval::Done(st2, b2) => {
                                        lemma_keeps_trans(st, st1, st2);
                                    },
                                    _ => {},
                                }
                            },
                            None => {},
                        }
                    },
                    _ => {},
                }
            },
            _ => {},
        }
    }
}

/// Frame isolation for the iterations of a counting loop.
pub proof fn lemma_for_keeps(
    fuel: nat,
    max: u32,
    counter: Seq<char>,
    body: Seq<Node>,
    funcs: Seq<(Seq<char>, FnV)>,
    st: StateV,
)
    requires
        st.frames.len() >= 1,
    ensures
        match eval_for(fuel, max, counter, body, funcs, st) {
            Eval::Done(st2) => keeps_surroundings(st, st2),
            _ => true,
        },
    decreases fuel, body, 1int,
{
    if fuel == 0 {
    } else {
        lemma_stmts_keeps(fuel, body, funcs, st);
        match eval_stmts(fuel, body, funcs, st) {
            Eval::Done(st1) => {
                match crate::semantics::get_var(st1, counter) {
                    Some(v) => {
                        let st2 = crate::semantics::set_acc(st1, Some(v));
                        match v {
                            crate::value::ValueV::Float(bits) => if st2.floats.len() > 0 {
                                let st3 = crate::semantics::take_bits(st2).1;
                                match crate::semantics::set_var(
                                    st3,
                                    counter,
                                    crate::value::ValueV::Float(crate::semantics::take_bits(st2).0),
                                ) {
                                    Result::Ok((is_new, st4)) => if st4.truths.len() > 0 {
                                        let st5 = crate::semantics::take_flag(st4).1;
                                        lemma_extends_refl(st1.output);
                                        assert(keeps_surroundings(st1, st5));
                                        lemma_keeps_trans(st, st1, st5);
                                        lemma_for_keeps(
                                            (fuel - 1) as nat,
                                            max,
                                            counter,
                                            body,
                                            funcs,
                                            st5,
                                        );
                                        match eval_for(
                                            (fuel - 1) as nat,
                                            max,
                                            counter,
                                            body,
                                            funcs,
                                            st5,
                                        ) {
                                            Eval::Done(st6) => {
                                                lemma_keeps_trans(st, st5, st6);
                                            },
                                            _ => {},
                                        }
                                    } else {
                                    },
                                    Result::Err(_) => {},
                                }
                            } else {
                            },
                            _ => {},
                        }
                    },
                    None => {},
                }
            },
            _ => {},
        }
    }
}

// ---------------------------------------------------------------------
// Laws of the language.

/// The name a declaration statement declares, if the node is one.
pub open spec fn declared_name(node: Node) -> Option<Seq<char>> {
    match node {
        Node::DeclareFloat(name, _) => Some(name@),
        Node::DeclareBoolean(name, _) => Some(name@),
        Node::DeclareString(name, _) => Some(name@),
        _ => None,
    }
}

/// Declaring a name that already exists in the current frame always
/// fails, whatever the second declaration's kind: with `Redeclaration`
/// when the new value has the old kind, with `TypeMismatch` when the
/// kinds differ or the initializer is not a literal of the declared kind.
pub proof fn lemma_redeclaration_fails(
    fuel: nat,
    node: Node,
    funcs: Seq<(Seq<char>, FnV)>,
    st: StateV,
)
    requires
        fuel >= 1,
        st.frames.len() >= 1,
        declared_name(node) is Some,
        get_var(st, declared_name(node).unwrap()) is Some,
    ensures
        match eval_node(fuel, node, funcs, st) {
            Eval::Failed(e, _) => e == Error::Redeclaration || e == Error::TypeMismatch,
            _ => false,
        },
{
}

/// Calling a function with the wrong number of arguments fails with
/// `ArityMismatch` and touches nothing: not even the first argument is
/// evaluated, let alone the body.
pub proof fn lemma_arity_mismatch_fails(
    fuel: nat,
    node: Node,
    name: String,
    args: Vec<Node>,
    f: FnV,
    funcs: Seq<(Seq<char>, FnV)>,
    st: StateV,
)
    requires
        fuel >= 1,
        st.frames.len() >= 1,
        node == Node::CallFunction(name, args),
        assoc_get(funcs, name@) == Some(f),
        f.parameters.len() != args@.len(),
    ensures
        eval_node(fuel, node, funcs, st) == Eval::Failed(Error::ArityMismatch, st),
{
}

/// A void call without arguments, used as a bare statement, leaves the
/// caller's whole frame stack as it was — variables and the pending
/// accumulator value included; only the output (and the consumed input
/// and float answers) can differ.
pub proof fn lemma_void_call_isolated(
    fuel: nat,
    node: Node,
    name: String,
    args: Vec<Node>,
    f: FnV,
    funcs: Seq<(Seq<char>, FnV)>,
    st: StateV,
)
    requires
        fuel >= 1,
        st.frames.len() >= 1,
        node == Node::CallFunction(name, args),
        assoc_get(funcs, name@) == Some(f),
        f.void,
        args@.len() == 0,
        f.parameters.len() == 0,
    ensures
        match eval_node(fuel, node, funcs, st) {
            Eval::Done(st2) => st2.frames == st.frames && output_extends(st.output, st2.output),
            _ => true,
        },
    decreases fuel,
{
    let entered = StateV {
        frames: st.frames.push(crate::semantics::FrameV { vars: Seq::empty(), current: None }),
        ..st
    };
    assert(eval_args(fuel, args@, f.parameters, funcs, st, Seq::empty())
        == ArgsEval::Done(st, Seq::<(Seq<char>, ValueV)>::empty()));
    lemma_stmts_keeps((fuel - 1) as nat, f.body, funcs, entered);
    match eval_stmts((fuel - 1) as nat, f.body, funcs, entered) {
        Eval::Done(st2) => {
            assert(st2.frames.drop_last() =~= st.frames);
        },
        _ => {},
    }
}

/// A call of a function that is not void, without arguments, can change
/// the caller's accumulator (it receives the callee's final accumulator)
/// but nothing else: the caller's variables, the frames below, and the
/// output already written all stay.
pub proof fn lemma_nonvoid_call_isolated(
    fuel: nat,
    node: Node,
    name: String,
    args: Vec<Node>,
    f: FnV,
    funcs: Seq<(Seq<char>, FnV)>,
    st: StateV,
)
    requires
        fuel >= 1,
        st.frames.len() >= 1,
        node == Node::CallFunction(name, args),
        assoc_get(funcs, name@) == Some(f),
        !f.void,
        args@.len() == 0,
        f.parameters.len() == 0,
    ensures
        match eval_node(fuel, node, funcs, st) {
            Eval::Done(st2) => st2.frames.len() == st.frames.len() && top(st2).vars == top(
                st,
            ).vars && (forall|i: int|
                0 <= i < st.frames.len() - 1 ==> st2.frames[i] == st.frames[i])
                && output_extends(st.output, st2.output),
            _ => true,
        },
    decreases fuel,
{
    let entered = StateV {
        frames: st.frames.push(crate::semantics::FrameV { vars: Seq::empty(), current: None }),
        ..st
    };
    assert(eval_args(fuel, args@, f.parameters, funcs, st, Seq::empty())
        == ArgsEval::Done(st, Seq::<(Seq<char>, ValueV)>::empty()));
    lemma_stmts_keeps((fuel - 1) as nat, f.body, funcs, entered);
    match eval_stmts((fuel - 1) as nat, f.body, funcs, entered) {
        Eval::Done(st2) => {
            assert(st2.frames.drop_last() =~= st.frames);
        },
        _ => {},
    }
}

/// Printing a variable renders exactly the stored value: a string
/// verbatim, a boolean as its canonical phrase, and a float as the
/// rendering answered for precisely its stored bit pattern.
pub proof fn lemma_print_variable_renders(
    fuel: nat,
    node: Node,
    inner: Box<Node>,
    name: String,
    v: ValueV,
    funcs: Seq<(Seq<char>, FnV)>,
    st: StateV,
)
    requires
        fuel >= 2,
        st.frames.len() >= 1,
        node == Node::Print(inner),
        *inner == Node::Variable(name),
        get_var(st, name@) == Some(v),
    ensures
        ({
            let shown = set_acc(st, Some(v));
            match v {
                ValueV::Str(s) => eval_node(fuel, node, funcs, st) == Eval::Done(
                    push_output(shown, s),
                ),
                ValueV::Boolean(b) => eval_node(fuel, node, funcs, st) == Eval::Done(
                    push_output(shown, bool_text(b)),
                ),
                ValueV::Float(bits) => if st.texts.len() == 0 {
                    eval_node(fuel, node, funcs, st) == Eval::Suspend(
                        crate::float::FloatRequest::Render(bits),
                    )
                } else {
                    eval_node(fuel, node, funcs, st) == Eval::Done(
                        push_output(take_render(shown).1, take_render(shown).0),
                    )
                },
            }
        }),
{
    assert(eval_node(fuel, *inner, funcs, st) == Eval::Done(set_acc(st, Some(v))));
}

/// A read statement on input that does not parse into the requested kind
/// fails with `ParseInputError` (and consumes the channel); it neither
/// stores a default nor brings the run down in any other way. A string
/// read is absent here: any text parses as a string.
pub proof fn lemma_unparsable_read_fails(
    fuel: nat,
    node: Node,
    target: Box<Node>,
    name: String,
    inp: InputV,
    funcs: Seq<(Seq<char>, FnV)>,
    st: StateV,
)
    requires
        fuel >= 1,
        st.frames.len() >= 1,
        *target == Node::Variable(name),
        st.input == Some(inp),
        !st.consumed,
    ensures
        node == Node::ReadFloat(target) && inp.float is None ==> eval_node(fuel, node, funcs, st)
            == Eval::Failed(Error::ParseInputError, StateV { consumed: true, ..st }),
        node == Node::ReadBoolean(target) && inp.boolean is None ==> eval_node(
            fuel,
            node,
            funcs,
            st,
        ) == Eval::Failed(Error::ParseInputError, StateV { consumed: true, ..st }),
{
}

/// A failing operation inside an assignment's chain aborts the whole
/// assignment with that operation's error: nothing is stored, and the
/// chain's remainder is never reached.
pub proof fn lemma_failed_chain_aborts_assignment(
    fuel: nat,
    node: Node,
    name: String,
    initial: Box<Node>,
    ops: Vec<Node>,
    e: Error,
    st1: StateV,
    st2: StateV,
    funcs: Seq<(Seq<char>, FnV)>,
    st: StateV,
)
    requires
        fuel >= 1,
        st.frames.len() >= 1,
        node == Node::AssignVariable(name, initial, ops),
        is_initial_node(*initial),
        eval_node(fuel, *initial, funcs, st) == Eval::Done(st1),
        apply_ops(ops@, st1) == Eval::Failed(e, st2),
    ensures
        eval_node(fuel, node, funcs, st) == Eval::Failed(e, st2),
{
}

// ---------------------------------------------------------------------
// The step budget only cuts off divergence.

/// Fuel monotonicity for one node: an evaluation that does not run out
/// of steps gives the same outcome under any larger budget. Together
/// with [`crate::interpreter::evaluate`]'s contract this says the budget
/// never changes a result, it only bounds how long one is waited for.
pub proof fn lemma_node_fuel(
    f1: nat,
    f2: nat,
    node: Node,
    funcs: Seq<(Seq<char>, FnV)>,
    st: StateV,
)
    requires
        f1 <= f2,
    ensures
        !(eval_node(f1, node, funcs, st) is OutOfFuel) ==> eval_node(f2, node, funcs, st)
            == eval_node(f1, node, funcs, st),
    decreases f1, node, 0int,
{
    if f1 == 0 || eval_node(f1, node, funcs, st) is OutOfFuel {
    } else {
        match node {
            Node::Main(stmts) => {
                lemma_stmts_fuel(f1, f2, stmts@, funcs, st);
            },
            Node::AssignVariable(name, initial, ops) => {
                if is_initial_node(*initial) {
                    lemma_node_fuel(f1, f2, *initial, funcs, st);
                }
            },
            Node::CallFunction(name, args) => {
                match assoc_get(funcs, name@) {
                    Some(f) => if args@.len() == f.parameters.len() {
                        lemma_args_fuel(f1, f2, args@, f.parameters, funcs, st, Seq::empty());
                        match eval_args(f1, args@, f.parameters, funcs, st, Seq::empty()) {
                            ArgsEval::Done(st1, bound) => {
                                let entered = StateV {
                                    frames: st1.frames.push(
                                        crate::semantics::FrameV { vars: bound, current: None },
                                    ),
                                    ..st1
                                };
                                lemma_stmts_fuel(
                                    (f1 - 1) as nat,
                                    (f2 - 1) as nat,
                                    f.body,
                                    funcs,
                                    entered,
                                );
                            },
                            _ => {},
                        }
                    },
                    None => {},
                }
            },
            Node::If(flag, then_stmts, else_stmts) => {
                if is_value_node(*flag) {
                    lemma_node_fuel(f1, f2, *flag, funcs, st);
                    match eval_node(f1, *flag, funcs, st) {
                        Eval::Done(st1) => {
                            lemma_stmts_fuel(f1, f2, then_stmts@, funcs, st1);
                            lemma_stmts_fuel(f1, f2, else_stmts@, funcs, st1);
                        },
                        _ => {},
                    }
                }
            },
            Node::While(flag, stmts) => {
                match *flag {
                    Node::Variable(name) => {
                        match crate::semantics::get_var(st, name@) {
                            Some(v) => {
                                let st1 = crate::semantics::set_acc(st, Some(v));
                                lemma_while_fuel(f1, f2, node, flag, stmts, funcs, st1);
                                let st2 = crate::semantics::take_flag(st1).1;
                                lemma_while_fuel(f1, f2, node, flag, stmts, funcs, st2);
                            },
                            None => {},
                        }
                    },
                    _ => {},
                }
            },
            Node::For(bound, counter, stmts) => {
                match *bound {
                    Node::Float(max) => match *counter {
                        Node::Variable(name) => match crate::semantics::get_var(st, name@) {
                            Some(v) => {
                                let st1 = crate::semantics::set_acc(st, Some(v));
                                let st2 = crate::semantics::take_flag(st1).1;
                                lemma_for_fuel(f1, f2, max, name@, stmts@, funcs, st2);
                            },
                            None => {},
                        },
                        _ => {},
                    },
                    _ => {},
                }
            },
            Node::Print(inner) => {
                if is_value_node(*inner) {
                    lemma_node_fuel(f1, f2, *inner, funcs, st);
                }
            },
            Node::Return(inner) => {
                lemma_node_fuel(f1, f2, *inner, funcs, st);
            },
            _ => {},
        }
    }
}

/// The body-then-recheck step of a `While`, under two budgets.
proof fn lemma_while_fuel(
    f1: nat,
    f2: nat,
    node: Node,
    flag: Box<Node>,
    stmts: Vec<Node>,
    funcs: Seq<(Seq<char>, FnV)>,
    stb: StateV,
)
    requires
        1 <= f1 <= f2,
        node == Node::While(flag, stmts),
    ensures
        ({
            let body1 = eval_stmts(f1, stmts@, funcs, stb);
            !(body1 is OutOfFuel) ==> eval_stmts(f2, stmts@, funcs, stb) == body1 && match body1 {
                Eval::Done(st3) => !(eval_node((f1 - 1) as nat, node, funcs, st3) is OutOfFuel)
                    ==> eval_node((f2 - 1) as nat, node, funcs, st3) == eval_node(
                    (f1 - 1) as nat,
                    node,
                    funcs,
                    st3,
                ),
                _ => true,
            }
        }),
    decreases f1, stmts@, 1int,
{
    lemma_stmts_fuel(f1, f2, stmts@, funcs, stb);
    match eval_stmts(f1, stmts@, funcs, stb) {
        Eval::Done(st3) => {
            lemma_node_fuel((f1 - 1) as nat, (f2 - 1) as nat, node, funcs, st3);
        },
        _ => {},
    }
}

/// Fuel monotonicity for a statement list.
pub proof fn lemma_stmts_fuel(
    f1: nat,
    f2: nat,
    stmts: Seq<Node>,
    funcs: Seq<(Seq<char>, FnV)>,
    st: StateV,
)
    requires
        f1 <= f2,
    ensures
        !(eval_stmts(f1, stmts, funcs, st) is OutOfFuel) ==> eval_stmts(f2, stmts, funcs, st)
            == eval_stmts(f1, stmts, funcs, st),
    decreases f1, stmts, 0int,
{
    if stmts.len() == 0 || eval_stmts(f1, stmts, funcs, st) is OutOfFuel {
    } else {
        lemma_node_fuel(f1, f2, stmts[0], funcs, st);
        match eval_node(f1, stmts[0], funcs, st) {
            Eval::Done(st1) => {
                lemma_stmts_fuel(f1, f2, stmts.drop_first(), funcs, st1);
            },
            _ => {},
        }
    }
}

/// Fuel monotonicity for argument evaluation.
pub proof fn lemma_args_fuel(
    f1: nat,
    f2: nat,
    args: Seq<Node>,
    params: Seq<Node>,
    funcs: Seq<(Seq<char>, FnV)>,
    st: StateV,
    bound: Seq<(Seq<char>, crate::value::ValueV)>,
)
    requires
        f1 <= f2,
    ensures
        !(eval_args(f1, args, params, funcs, st, bound) is OutOfFuel) ==> eval_args(
            f2,
            args,
            params,
            funcs,
            st,
            bound,
        ) == eval_args(f1, args, params, funcs, st, bound),
    decreases f1, args, 0int,
{
    if args.len() == 0 || eval_args(f1, args, params, funcs, st, bound) is OutOfFuel {
    } else {
        lemma_node_fuel(f1, f2, args[0], funcs, st);
        match eval_node(f1, args[0], funcs, st) {
            Eval::Done(st1) => {
                match params[0] {
                    Node::Variable(pname) => {
                        match crate::semantics::top(st1).current {
                            Some(v) => {
                                lemma_args_fuel(
                                    f1,
                                    f2,
                                    args.drop_first(),
                                    params.drop_first(),
                                    funcs,
                                    st1,
                                    crate::semantics::assoc_put(bound, pname@, v),
                                );
                            },
                            None => {},
                        }
                    },
                    _ => {},
                }
            },
            _ => {},
        }
    }
}

/// Fuel monotonicity for the iterations of a counting loop.
pub proof fn lemma_for_fuel(
    f1: nat,
    f2: nat,
    max: u32,
    counter: Seq<char>,
    body: Seq<Node>,
    funcs: Seq<(Seq<char>, FnV)>,
    st: StateV,
)
    requires
        f1 <= f2,
    ensures
        !(eval_for(f1, max, counter, body, funcs, st) is OutOfFuel) ==> eval_for(
            f2,
            max,
            counter,
            body,
            funcs,
            st,
        ) == eval_for(f1, max, counter, body, funcs, st),
    decreases f1, body, 1int,
{
    if f1 == 0 || eval_for(f1, max, counter, body, funcs, st) is OutOfFuel {
    } else {
        lemma_stmts_fuel(f1, f2, body, funcs, st);
        match eval_stmts(f1, body, funcs, st) {
            Eval::Done(st1) => {
                match crate::semantics::get_var(st1, counter) {
                    Some(v) => {
                        let st2 = crate::semantics::set_acc(st1, Some(v));
                        match v {
                            crate::value::ValueV::Float(bits) => if st2.floats.len() > 0 {
                                let st3 = crate::semantics::take_bits(st2).1;
                                match crate::semantics::set_var(
                                    st3,
                                    counter,
                                    crate::value::ValueV::Float(crate::semantics::take_bits(st2).0),
                                ) {
                                    Result::Ok((is_new, st4)) => if st4.truths.len() > 0 {
                                        let st5 = crate::semantics::take_flag(st4).1;
                                        lemma_for_fuel(
                                            (f1 - 1) as nat,
                                            (f2 - 1) as nat,
                                            max,
                                            counter,
                                            body,
                                            funcs,
                                            st5,
                                        );
                                    } else {
                                    },
                                    Result::Err(_) => {},
                                }
                            } else {
                            },
                            _ => {},
                        }
                    },
                    None => {},
                }
            },
            _ => {},
        }
    }
}

/// Fuel monotonicity for a whole run: a budget large enough to finish is
/// as good as any larger one.
pub proof fn lemma_run_fuel(
    f1: nat,
    f2: nat,
    prog: Seq<Node>,
    input: Option<crate::value::InputV>,
    floats: Seq<u32>,
    truths: Seq<bool>,
    texts: Seq<Seq<char>>,
)
    requires
        f1 <= f2,
    ensures
        !(crate::semantics::run(f1, prog, input, floats, truths, texts) is OutOfFuel)
            ==> crate::semantics::run(f2, prog, input, floats, truths, texts)
            == crate::semantics::run(f1, prog, input, floats, truths, texts),
{
    lemma_node_fuel(
        f1,
        f2,
        crate::semantics::main_of(prog),
        crate::semantics::catalog_of(prog),
        crate::semantics::start_state(input, floats, truths, texts),
    );
}

// ---------------------------------------------------------------------
// Names are unique within a frame.

/// No two bindings of the list share a name.
pub open spec fn unique_keys<T>(entries: Seq<(Seq<char>, T)>) -> bool {
    forall|i: int, j: int| 0 <= i < j < entries.len() ==> entries[i].0 != entries[j].0
}

/// Every frame of the stack keeps its names unique.
pub open spec fn frames_unique(st: StateV) -> bool {
    forall|k: int| 0 <= k < st.frames.len() ==> unique_keys(#[trigger] st.frames[k].vars)
}

/// Every key of an upsert's result is the written key or one of the old
/// keys.
proof fn lemma_put_keys<T>(entries: Seq<(Seq<char>, T)>, key: Seq<char>, value: T)
    ensures
        forall|j: int|
            0 <= j < assoc_put(entries, key, value).len() ==> (#[trigger] assoc_put(
                entries,
                key,
                value,
            )[j].0 == key || exists|i: int|
                0 <= i < entries.len() && entries[i].0 == assoc_put(entries, key, value)[j].0),
    decreases entries.len(),
{
    let put = assoc_put(entries, key, value);
    if entries.len() == 0 {
    } else if entries[0].0 == key {
        assert forall|j: int| 0 <= j < put.len() implies (put[j].0 == key || exists|i: int|
            0 <= i < entries.len() && entries[i].0 == put[j].0) by {
            if j > 0 {
                assert(entries[j].0 == put[j].0);
            }
        }
    } else {
        lemma_put_keys(entries.drop_first(), key, value);
        let rest = assoc_put(entries.drop_first(), key, value);
        assert forall|j: int| 0 <= j < put.len() implies (put[j].0 == key || exists|i: int|
            0 <= i < entries.len() && entries[i].0 == put[j].0) by {
            if j == 0 {
                assert(entries[0].0 == put[0].0);
            } else {
                assert(put[j] == rest[j - 1]);
                if rest[j - 1].0 != key {
                    let i = choose|i: int|
                        0 <= i < entries.drop_first().len() && entries.drop_first()[i].0 == rest[j
                            - 1].0;
                    assert(entries[i + 1].0 == put[j].0);
                }
            }
        }
    }
}

/// An upsert never makes a name ambiguous.
pub proof fn lemma_put_unique<T>(entries: Seq<(Seq<char>, T)>, key: Seq<char>, value: T)
    requires
        unique_keys(entries),
    ensures
        unique_keys(assoc_put(entries, key, value)),
    decreases entries.len(),
{
    let put = assoc_put(entries, key, value);
    if entries.len() == 0 {
    } else if entries[0].0 == key {
        assert forall|i: int, j: int| 0 <= i < j < put.len() implies put[i].0 != put[j].0 by {
            if i > 0 {
                assert(put[i] == entries[i]);
            }
            assert(put[j] == entries[j]);
        }
    } else {
        assert(unique_keys(entries.drop_first())) by {
            assert forall|i: int, j: int|
                0 <= i < j < entries.drop_first().len() implies entries.drop_first()[i].0
                != entries.drop_first()[j].0 by {
                assert(entries.drop_first()[i] == entries[i + 1]);
                assert(entries.drop_first()[j] == entries[j + 1]);
            }
        }
        lemma_put_unique(entries.drop_first(), key, value);
        lemma_put_keys(entries.drop_first(), key, value);
        let rest = assoc_put(entries.drop_first(), key, value);
        assert forall|i: int, j: int| 0 <= i < j < put.len() implies put[i].0 != put[j].0 by {
            if i == 0 {
                assert(put[0] == entries[0]);
                assert(put[j] == rest[j - 1]);
                if rest[j - 1].0 != key {
                    let w = choose|w: int|
                        0 <= w < entries.drop_first().len() && entries.drop_first()[w].0 == rest[j
                            - 1].0;
                    assert(entries[w + 1].0 == rest[j - 1].0);
                }
            } else {
                assert(put[i] == rest[i - 1]);
                assert(put[j] == rest[j - 1]);
            }
        }
    }
}

/// What a store through `set_var` does to uniqueness: nothing.
proof fn lemma_set_var_unique(st: StateV, key: Seq<char>, v: crate::value::ValueV)
    requires
        st.frames.len() >= 1,
        frames_unique(st),
    ensures
        match crate::semantics::set_var(st, key, v) {
            Result::Ok((is_new, st2)) => frames_unique(st2),
            Result::Err(_) => true,
        },
{
    lemma_put_unique(top(st).vars, key, v);
    match crate::semantics::set_var(st, key, v) {
        Result::Ok((is_new, st2)) => {
            assert forall|k: int| 0 <= k < st2.frames.len() implies unique_keys(
                #[trigger] st2.frames[k].vars,
            ) by {
                if k < st.frames.len() - 1 {
                    assert(st2.frames[k] == st.frames[k]);
                }
            }
        },
        Result::Err(_) => {},
    }
}

/// Accumulator writes and output writes do not touch any frame's names.
proof fn lemma_set_acc_unique(st: StateV, v: Option<crate::value::ValueV>)
    requires
        st.frames.len() >= 1,
        frames_unique(st),
    ensures
        frames_unique(crate::semantics::set_acc(st, v)),
{
    let st2 = crate::semantics::set_acc(st, v);
    assert forall|k: int| 0 <= k < st2.frames.len() implies unique_keys(
        #[trigger] st2.frames[k].vars,
    ) by {
        if k < st.frames.len() - 1 {
            assert(st2.frames[k] == st.frames[k]);
        } else {
            assert(st2.frames[k].vars == st.frames[k].vars);
        }
    }
}

proof fn lemma_binary_unique(op: BinaryOperation, operand: Node, st: StateV)
    requires
        st.frames.len() >= 1,
        frames_unique(st),
    ensures
        match apply_binary(op, operand, st) {
            Eval::Done(st2) => frames_unique(st2),
            _ => true,
        },
{
    match apply_binary(op, operand, st) {
        Eval::Done(st2) => {
            assert forall|k: int| 0 <= k < st2.frames.len() implies unique_keys(
                #[trigger] st2.frames[k].vars,
            ) by {
                if k < st.frames.len() - 1 {
                    assert(st2.frames[k] == st.frames[k]);
                } else {
                    assert(st2.frames[k].vars == st.frames[k].vars);
                }
            }
        },
        _ => {},
    }
}

proof fn lemma_unary_unique(op: UnaryOperation, st: StateV)
    requires
        st.frames.len() >= 1,
        frames_unique(st),
    ensures
        match apply_unary(op, st) {
            Eval::Done(st2) => frames_unique(st2),
            _ => true,
        },
{
    match apply_unary(op, st) {
        Eval::Done(st2) => {
            lemma_set_acc_unique(st, top(st2).current);
            assert(st2 == crate::semantics::set_acc(st, top(st2).current));
        },
        _ => {},
    }
}

proof fn lemma_ops_unique(ops: Seq<Node>, st: StateV)
    requires
        st.frames.len() >= 1,
        frames_unique(st),
    ensures
        match apply_ops(ops, st) {
            Eval::Done(st2) => frames_unique(st2),
            _ => true,
        },
    decreases ops.len(),
{
    if ops.len() == 0 {
    } else {
        match ops[0] {
            Node::Binary(op, operand) => {
                lemma_binary_unique(op, *operand, st);
                lemma_binary_keeps(op, *operand, st);
                match apply_binary(op, *operand, st) {
                    Eval::Done(st1) => {
                        lemma_ops_unique(ops.drop_first(), st1);
                    },
                    _ => {},
                }
            },
            Node::Unary(op) => {
                lemma_unary_unique(op, st);
                lemma_unary_keeps(op, st);
                match apply_unary(op, st) {
                    Eval::Done(st1) => {
                        lemma_ops_unique(ops.drop_first(), st1);
                    },
                    _ => {},
                }
            },
            _ => {},
        }
    }
}

proof fn lemma_read_unique(kind: ReadKind, target: Node, st: StateV)
    requires
        st.frames.len() >= 1,
        frames_unique(st),
    ensures
        match eval_read(kind, target, st) {
            Eval::Done(st2) => frames_unique(st2),
            _ => true,
        },
{
    match target {
        Node::Variable(name) => {
            match st.input {
                Some(inp) => {
                    let st1 = StateV { consumed: true, ..st };
                    assert(frames_unique(st1));
                    lemma_set_var_unique(st1, name@, crate::value::ValueV::Str(Seq::empty()));
                    lemma_set_var_unique(
                        st1,
                        name@,
                        crate::value::ValueV::Str(
                            if st.consumed {
                                crate::value::drained_input().text
                            } else {
                                inp.text
                            },
                        ),
                    );
                    match inp.float {
                        Some(bits) => {
                            lemma_set_var_unique(st1, name@, crate::value::ValueV::Float(bits));
                        },
                        None => {},
                    }
                    match inp.boolean {
                        Some(b) => {
                            lemma_set_var_unique(st1, name@, crate::value::ValueV::Boolean(b));
                        },
                        None => {},
                    }
                },
                None => {},
            }
        },
        _ => {},
    }
}

/// Frame-name uniqueness is an invariant of evaluation: if every frame of
/// the stack has its names unique, every frame of a successful result
/// does too. New frames enter empty and every write is an upsert, so no
/// construct can ever bind one name twice in one frame.
pub proof fn lemma_node_unique(fuel: nat, node: Node, funcs: Seq<(Seq<char>, FnV)>, st: StateV)
    requires
        st.frames.len() >= 1,
        frames_unique(st),
    ensures
        match eval_node(fuel, node, funcs, st) {
            Eval::Done(st2) => frames_unique(st2),
            _ => true,
        },
    decreases fuel, node, 0int,
{
    if fuel == 0 {
    } else {
        match node {
            Node::Float(bits) => {
                lemma_set_acc_unique(st, Some(crate::value::ValueV::Float(bits)));
            },
            Node::Boolean(b) => {
                lemma_set_acc_unique(st, Some(crate::value::ValueV::Boolean(b)));
            },
            Node::String(text) => {
                lemma_set_acc_unique(st, Some(crate::value::ValueV::Str(text@)));
            },
            Node::Variable(name) => {
                match crate::semantics::get_var(st, name@) {
                    Some(v) => {
                        lemma_set_acc_unique(st, Some(v));
                    },
                    None => {},
                }
            },
            Node::Main(stmts) => {
                lemma_stmts_unique(fuel, stmts@, funcs, st);
            },
            Node::AssignVariable(name, initial, ops) => {
                if is_initial_node(*initial) {
                    lemma_node_unique(fuel, *initial, funcs, st);
                    lemma_node_keeps(fuel, *initial, funcs, st);
                    match eval_node(fuel, *initial, funcs, st) {
                        Eval::Done(st1) => {
                            lemma_ops_unique(ops@, st1);
                            lemma_ops_keeps(ops@, st1);
                            match apply_ops(ops@, st1) {
                                Eval::Done(st2) => {
                                    match top(st2).current {
                                        Some(v) => {
                                            lemma_set_var_unique(st2, name@, v);
                                        },
                                        None => {},
                                    }
                                },
                                _ => {},
                            }
                        },
                        _ => {},
                    }
                }
            },
            Node::DeclareBoolean(name, init) => match *init {
                Node::Boolean(b) => {
                    lemma_set_var_unique(st, name@, crate::value::ValueV::Boolean(b));
                },
                _ => {},
            },
            Node::DeclareFloat(name, init) => match *init {
                Node::Float(bits) => {
                    lemma_set_var_unique(st, name@, crate::value::ValueV::Float(bits));
                },
                _ => {},
            },
            Node::DeclareString(name, init) => match *init {
                Node::String(text) => {
                    lemma_set_var_unique(st, name@, crate::value::ValueV::Str(text@));
                },
                _ => {},
            },
            Node::CallFunction(name, args) => {
                match assoc_get(funcs, name@) {
                    Some(f) => if args@.len() == f.parameters.len() {
                        lemma_args_unique(fuel, args@, f.parameters, funcs, st, Seq::empty());
                        lemma_args_keeps(fuel, args@, f.parameters, funcs, st, Seq::empty());
                        match eval_args(fuel, args@, f.parameters, funcs, st, Seq::empty()) {
                            ArgsEval::Done(st1, bound) => {
                                let entered = StateV {
                                    frames: st1.frames.push(
                                        crate::semantics::FrameV { vars: bound, current: None },
                                    ),
                                    ..st1
                                };
                                assert(frames_unique(entered)) by {
                                    assert forall|k: int|
                                        0 <= k < entered.frames.len() implies unique_keys(
                                        #[trigger] entered.frames[k].vars,
                                    ) by {
                                        if k < st1.frames.len() {
                                            assert(entered.frames[k] == st1.frames[k]);
                                        }
                                    }
                                }
                                lemma_stmts_unique((fuel - 1) as nat, f.body, funcs, entered);
                                lemma_stmts_keeps((fuel - 1) as nat, f.body, funcs, entered);
                                match eval_stmts((fuel - 1) as nat, f.body, funcs, entered) {
                                    Eval::Done(st2) => {
                                        let left = StateV {
                                            frames: st2.frames.drop_last(),
                                            ..st2
                                        };
                                        assert(frames_unique(left)) by {
                                            assert forall|k: int|
                                                0 <= k < left.frames.len() implies unique_keys(
                                                #[trigger] left.frames[k].vars,
                                            ) by {
                                                assert(left.frames[k] == st2.frames[k]);
                                            }
                                        }
                                        if !f.void {
                                            lemma_set_acc_unique(left, top(st2).current);
                                        }
                                    },
                                    _ => {},
                                }
                            },
                            _ => {},
                        }
                    },
                    None => {},
                }
            },
            Node::If(flag, then_stmts, else_stmts) => {
                if is_value_node(*flag) {
                    lemma_node_unique(fuel, *flag, funcs, st);
                    lemma_node_keeps(fuel, *flag, funcs, st);
                    match eval_node(fuel, *flag, funcs, st) {
                        Eval::Done(st1) => {
                            lemma_stmts_unique(fuel, then_stmts@, funcs, st1);
                            lemma_stmts_unique(fuel, else_stmts@, funcs, st1);
                        },
                        _ => {},
                    }
                }
            },
            Node::While(flag, stmts) => {
                match *flag {
                    Node::Variable(name) => {
                        match crate::semantics::get_var(st, name@) {
                            Some(v) => {
                                let st1 = crate::semantics::set_acc(st, Some(v));
                                lemma_set_acc_unique(st, Some(v));
                                lemma_while_unique(fuel, node, flag, stmts, funcs, st, st1);
                                let st2 = crate::semantics::take_flag(st1).1;
                                assert(frames_unique(st2));
                                lemma_while_unique(fuel, node, flag, stmts, funcs, st, st2);
                            },
                            None => {},
                        }
                    },
                    _ => {},
                }
            },
            Node::For(bound, counter, stmts) => {
                match *bound {
                    Node::Float(max) => match *counter {
                        Node::Variable(name) => match crate::semantics::get_var(st, name@) {
                            Some(v) => {
                                let st1 = crate::semantics::set_acc(st, Some(v));
                                lemma_set_acc_unique(st, Some(v));
                                let st2 = crate::semantics::take_flag(st1).1;
                                assert(frames_unique(st2));
                                lemma_for_unique(fuel, max, name@, stmts@, funcs, st2);
                            },
                            None => {},
                        },
                        _ => {},
                    },
                    _ => {},
                }
            },
            Node::Print(inner) => {
                if is_value_node(*inner) {
                    lemma_node_unique(fuel, *inner, funcs, st);
                    lemma_node_keeps(fuel, *inner, funcs, st);
                    match eval_node(fuel, *inner, funcs, st) {
                        Eval::Done(st1) => {
                            match top(st1).current {
                                Some(v) => {
                                    assert forall|stx: StateV, text: Seq<char>|
                                        frames_unique(stx) implies frames_unique(
                                        push_output(stx, text),
                                    ) by {}
                                },
                                None => {},
                            }
                        },
                        _ => {},
                    }
                }
            },
            Node::Return(inner) => {
                lemma_node_unique(fuel, *inner, funcs, st);
            },
            Node::ReadFloat(target) => {
                lemma_read_unique(ReadKind::Float, *target, st);
            },
            Node::ReadBoolean(target) => {
                lemma_read_unique(ReadKind::Boolean, *target, st);
            },
            Node::ReadString(target) => {
                lemma_read_unique(ReadKind::Text, *target, st);
            },
            _ => {},
        }
    }
}

/// The body-then-recheck step of a `While`, for uniqueness.
proof fn lemma_while_unique(
    fuel: nat,
    node: Node,
    flag: Box<Node>,
    stmts: Vec<Node>,
    funcs: Seq<(Seq<char>, FnV)>,
    st: StateV,
    stb: StateV,
)
    requires
        st.frames.len() >= 1,
        fuel >= 1,
        node == Node::While(flag, stmts),
        stb.frames.len() == st.frames.len(),
        frames_unique(stb),
    ensures
        match eval_stmts(fuel, stmts@, funcs, stb) {
            Eval::Done(st3) => match eval_node(
                (fuel - 1) as nat,
                Node::While(flag, stmts),
                funcs,
                st3,
            ) {
                Eval::Done(st4) => frames_unique(st4),
                _ => true,
            },
            _ => true,
        },
    decreases fuel, stmts@, 1int,
{
    lemma_stmts_unique(fuel, stmts@, funcs, stb);
    lemma_stmts_keeps(fuel, stmts@, funcs, stb);
    match eval_stmts(fuel, stmts@, funcs, stb) {
        Eval::Done(st3) => {
            lemma_node_unique((fuel - 1) as nat, Node::While(flag, stmts), funcs, st3);
        },
        _ => {},
    }
}

/// Uniqueness through a statement list.
pub proof fn lemma_stmts_unique(
    fuel: nat,
    stmts: Seq<Node>,
    funcs: Seq<(Seq<char>, FnV)>,
    st: StateV,
)
    requires
        st.frames.len() >= 1,
        frames_unique(st),
    ensures
        match eval_stmts(fuel, stmts, funcs, st) {
            Eval::Done(st2) => frames_unique(st2),
            _ => true,
        },
    decreases fuel, stmts, 0int,
{
    if stmts.len() == 0 {
    } else {
        lemma_node_unique(fuel, stmts[0], funcs, st);
        lemma_node_keeps(fuel, stmts[0], funcs, st);
        match eval_node(fuel, stmts[0], funcs, st) {
            Eval::Done(st1) => {
                lemma_stmts_unique(fuel, stmts.drop_first(), funcs, st1);
            },
            _ => {},
        }
    }
}

/// Uniqueness through argument evaluation, both of the caller's state and
/// of the frame being assembled.
pub proof fn lemma_args_unique(
    fuel: nat,
    args: Seq<Node>,
    params: Seq<Node>,
    funcs: Seq<(Seq<char>, FnV)>,
    st: StateV,
    bound: Seq<(Seq<char>, crate::value::ValueV)>,
)
    requires
        st.frames.len() >= 1,
        frames_unique(st),
        unique_keys(bound),
    ensures
        match eval_args(fuel, args, params, funcs, st, bound) {
            ArgsEval::Done(st2, b2) => frames_unique(st2) && unique_keys(b2),
            _ => true,
        },
    decreases fuel, args, 0int,
{
    if args.len() == 0 {
    } else {
        lemma_node_unique(fuel, args[0], funcs, st);
        lemma_node_keeps(fuel, args[0], funcs, st);
        match eval_node(fuel, args[0], funcs, st) {
            Eval::Done(st1) => {
                match params[0] {
                    Node::Variable(pname) => {
                        match top(st1).current {
                            Some(v) => {
                                lemma_put_unique(bound, pname@, v);
                                lemma_args_unique(
                                    fuel,
                                    args.drop_first(),
                                    params.drop_first(),
                                    funcs,
                                    st1,
                                    crate::semantics::assoc_put(bound, pname@, v),
                                );
                            },
                            None => {},
                        }
                    },
                    _ => {},
                }
            },
            _ => {},
        }
    }
}

/// Uniqueness through the iterations of a counting loop.
pub proof fn lemma_for_unique(
    fuel: nat,
    max: u32,
    counter: Seq<char>,
    body: Seq<Node>,
    funcs: Seq<(Seq<char>, FnV)>,
    st: StateV,
)
    requires
        st.frames.len() >= 1,
        frames_unique(st),
    ensures
        match eval_for(fuel, max, counter, body, funcs, st) {
            Eval::Done(st2) => frames_unique(st2),
            _ => true,
        },
    decreases fuel, body, 1int,
{
    if fuel == 0 {
    } else {
        lemma_stmts_unique(fuel, body, funcs, st);
        lemma_stmts_keeps(fuel, body, funcs, st);
        match eval_stmts(fuel, body, funcs, st) {
            Eval::Done(st1) => {
                match crate::semantics::get_var(st1, counter) {
                    Some(v) => {
                        let st2 = crate::semantics::set_acc(st1, Some(v));
                        lemma_set_acc_unique(st1, Some(v));
                        match v {
                            crate::value::ValueV::Float(bits) => if st2.floats.len() > 0 {
                                let st3 = crate::semantics::take_bits(st2).1;
                                assert(frames_unique(st3));
                                lemma_set_var_unique(
                                    st3,
                                    counter,
                                    crate::value::ValueV::Float(crate::semantics::take_bits(st2).0),
                                );
                                match crate::semantics::set_var(
                                    st3,
                                    counter,
                                    crate::value::ValueV::Float(crate::semantics::take_bits(st2).0),
                                ) {
                                    Result::Ok((is_new, st4)) => if st4.truths.len() > 0 {
                                        let st5 = crate::semantics::take_flag(st4).1;
                                        assert(frames_unique(st5));
                                        lemma_for_unique(
                                            (fuel - 1) as nat,
                                            max,
                                            counter,
                                            body,
                                            funcs,
                                            st5,
                                        );
                                    } else {
                                    },
                                    Result::Err(_) => {},
                                }
                            } else {
                            },
                            _ => {},
                        }
                    },
                    None => {},
                }
            },
            _ => {},
        }
    }
}

/// Uniqueness for a whole run: a run starts from one empty frame, so
/// every frame of a finished run's stack has its names unique.
pub proof fn lemma_run_unique(
    fuel: nat,
    prog: Seq<Node>,
    input: Option<InputV>,
    floats: Seq<u32>,
    truths: Seq<bool>,
    texts: Seq<Seq<char>>,
)
    ensures
        match crate::semantics::run(fuel, prog, input, floats, truths, texts) {
            Eval::Done(st2) => frames_unique(st2),
            _ => true,
        },
{
    let st0 = crate::semantics::start_state(input, floats, truths, texts);
    assert(frames_unique(st0)) by {
        assert forall|k: int| 0 <= k < st0.frames.len() implies unique_keys(
            #[trigger] st0.frames[k].vars,
        ) by {
            assert(st0.frames[k].vars.len() == 0);
        }
    }
    lemma_node_unique(
        fuel,
        crate::semantics::main_of(prog),
        crate::semantics::catalog_of(prog),
        st0,
    );
}

} // verus!
