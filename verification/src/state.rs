//! The executable execution state, and its view onto the ghost model.
//!
//! Variables live in association lists (`Vec` of name/value pairs) so that
//! every operation has an exact counterpart among the `assoc_*` functions
//! of [`crate::semantics`]. The float-answer logs are carried whole with a
//! cursor each; the view exposes only the unconsumed suffix.
use vstd::prelude::*;
use vstd::string::StringExecFns;

use crate::ast::Node;
use crate::errors::Error;
use crate::float::FloatAnswers;
use crate::semantics::{
    assoc_get, assoc_put, push_output, set_acc, set_var, start_state, take_bits, take_flag,
    take_render, top, FnV, FrameV, StateV,
};
use crate::value::{drained_input, opt_view, same_kind, Input, Value, ValueV};

verus! {

/// The ghost contents of an association list of values.
pub open spec fn vars_view(s: Seq<(String, Value)>) -> Seq<(Seq<char>, ValueV)> {
    s.map(|i: int, p: (String, Value)| (p.0@, p.1@))
}

/// The ghost contents of the function catalog.
pub open spec fn funcs_view(s: Seq<(String, Function)>) -> Seq<(Seq<char>, FnV)> {
    s.map(|i: int, p: (String, Function)| (p.0@, p.1@))
}

/// One activation record.
pub struct Frame {
    pub variables: Vec<(String, Value)>,
    pub current: Option<Value>,
}

impl View for Frame {
    type V = FrameV;

    open spec fn view(&self) -> FrameV {
        FrameV { vars: vars_view(self.variables@), current: opt_view(self.current) }
    }
}

impl Frame {
    /// A fresh frame: no variables, empty accumulator.
    pub fn new() -> (r: Frame)
        ensures
            r@ == (FrameV { vars: Seq::<(Seq<char>, ValueV)>::empty(), current: None::<ValueV> }),
    {
        let r = Frame { variables: Vec::new(), current: None };
        proof {
            assert(r@ =~= FrameV {
                vars: Seq::<(Seq<char>, ValueV)>::empty(),
                current: None::<ValueV>,
            });
        }
        r
    }

    /// Bind a name in this frame, replacing any existing binding of it
    /// without a kind check (the binding of a call's argument).
    pub fn bind(&mut self, name: &String, value: Value)
        ensures
            final(self)@.vars == assoc_put(old(self)@.vars, name@, value@),
            final(self)@.current == old(self)@.current,
    {
        let found = find_key(&self.variables, name);
        proof {
            transfer_key_facts(self.variables@, vars_view(self.variables@), name@, found);
        }
        match found {
            Some(i) => {
                proof {
                    lemma_assoc_put_at(old(self)@.vars, name@, value@, i as int);
                }
                self.variables[i] = (name.clone(), value);
                proof {
                    assert(self@.vars =~= assoc_put(old(self)@.vars, name@, value@));
                }
            },
            None => {
                proof {
                    lemma_assoc_put_missing(old(self)@.vars, name@, value@);
                }
                self.variables.push((name.clone(), value));
                proof {
                    assert(self@.vars =~= assoc_put(old(self)@.vars, name@, value@));
                }
            },
        }
    }
}

/// One catalog entry: a declared function.
pub struct Function {
    pub parameters: Vec<Node>,
    pub body: Vec<Node>,
    pub void: bool,
}

impl View for Function {
    type V = FnV;

    open spec fn view(&self) -> FnV {
        FnV { parameters: self.parameters@, body: self.body@, void: self.void }
    }
}

/// The function catalog, built once before the main body runs and
/// immutable afterwards.
pub struct Catalog {
    pub entries: Vec<(String, Function)>,
}

impl View for Catalog {
    type V = Seq<(Seq<char>, FnV)>;

    open spec fn view(&self) -> Seq<(Seq<char>, FnV)> {
        funcs_view(self.entries@)
    }
}

impl Catalog {
    pub fn new() -> (r: Catalog)
        ensures
            r@ == Seq::<(Seq<char>, FnV)>::empty(),
    {
        let r = Catalog { entries: Vec::new() };
        proof {
            assert(r@ =~= Seq::<(Seq<char>, FnV)>::empty());
        }
        r
    }

    /// Register a declaration; a later one replaces an earlier of the
    /// same name.
    pub fn register(&mut self, name: String, f: Function)
        ensures
            final(self)@ == assoc_put(old(self)@, name@, f@),
    {
        let found = find_key(&self.entries, &name);
        proof {
            transfer_key_facts(self.entries@, funcs_view(self.entries@), name@, found);
        }
        match found {
            Some(i) => {
                proof {
                    lemma_assoc_put_at(old(self)@, name@, f@, i as int);
                }
                self.entries[i] = (name, f);
                proof {
                    assert(self@ =~= assoc_put(old(self)@, name@, f@));
                }
            },
            None => {
                proof {
                    lemma_assoc_put_missing(old(self)@, name@, f@);
                }
                self.entries.push((name, f));
                proof {
                    assert(self@ =~= assoc_put(old(self)@, name@, f@));
                }
            },
        }
    }

    /// Look a function up by name.
    pub fn find(&self, name: &String) -> (r: Option<&Function>)
        ensures
            match r {
                Some(f) => assoc_get(self@, name@) == Some(f@),
                None => assoc_get(self@, name@) is None,
            },
    {
        let found = find_key(&self.entries, name);
        proof {
            transfer_key_facts(self.entries@, funcs_view(self.entries@), name@, found);
        }
        match found {
            Some(i) => {
                proof {
                    lemma_assoc_get_at(self@, name@, i as int);
                }
                Some(&self.entries[i].1)
            },
            None => {
                proof {
                    lemma_assoc_get_missing(self@, name@);
                }
                None
            },
        }
    }
}

/// The mutable state of a run.
pub struct State {
    pub stack: Vec<Frame>,
    pub input: Option<Input>,
    pub consumed: bool,
    pub output: String,
    pub floats: Vec<u32>,
    pub float_pos: usize,
    pub truths: Vec<bool>,
    pub truth_pos: usize,
    pub texts: Vec<String>,
    pub text_pos: usize,
}

impl View for State {
    type V = StateV;

    open spec fn view(&self) -> StateV {
        StateV {
            frames: self.stack@.map(|i: int, f: Frame| f@),
            input: match self.input {
                Some(x) => Some(x@),
                None => None,
            },
            consumed: self.consumed,
            output: self.output@,
            floats: self.floats@.skip(self.float_pos as int),
            truths: self.truths@.skip(self.truth_pos as int),
            texts: self.texts@.skip(self.text_pos as int).map(|i: int, s: String| s@),
        }
    }
}

impl State {
    /// The structural facts every operation below relies on: at least one
    /// frame, and each answer cursor within its log.
    pub open spec fn wf(&self) -> bool {
        &&& self.stack@.len() >= 1
        &&& self.float_pos <= self.floats@.len()
        &&& self.truth_pos <= self.truths@.len()
        &&& self.text_pos <= self.texts@.len()
    }

    /// The state a run starts from.
    pub fn start(input: Option<Input>, answers: FloatAnswers) -> (r: State)
        ensures
            r.wf(),
            r@ == start_state(
                match input {
                    Some(x) => Some(x@),
                    None => None,
                },
                answers.bits@,
                answers.flags@,
                answers.renders@.map(|i: int, s: String| s@),
            ),
    {
        let mut stack: Vec<Frame> = Vec::new();
        stack.push(Frame::new());
        let r = State {
            stack,
            input,
            consumed: false,
            output: String::new(),
            floats: answers.bits,
            float_pos: 0,
            truths: answers.flags,
            truth_pos: 0,
            texts: answers.renders,
            text_pos: 0,
        };
        proof {
            assert(r@ =~= start_state(
                match input {
                    Some(x) => Some(x@),
                    None => None,
                },
                r.floats@,
                r.truths@,
                r.texts@.map(|i: int, s: String| s@),
            ));
        }
        r
    }

    /// A copy of the current frame's accumulator.
    pub fn current_value(&self) -> (r: Option<Value>)
        requires
            self.wf(),
        ensures
            opt_view(r) == top(self@).current,
    {
        let t = self.stack.len() - 1;
        match &self.stack[t].current {
            Some(v) => Some(v.duplicate()),
            None => None,
        }
    }

    /// Overwrite the current frame's accumulator.
    pub fn set_current(&mut self, v: Option<Value>)
        requires
            old(self).wf(),
        ensures
            final(self).wf(),
            final(self)@ == set_acc(old(self)@, opt_view(v)),
    {
        let t = self.stack.len() - 1;
        let ghost target = set_acc(old(self)@, opt_view(v));
        let f = &mut self.stack[t];
        f.current = v;
        proof {
            assert(self@.frames =~= target.frames);
            assert(self@ =~= target);
        }
    }

    /// A copy of a variable of the current frame.
    pub fn get_variable(&self, name: &String) -> (r: Option<Value>)
        requires
            self.wf(),
        ensures
            match r {
                Some(v) => assoc_get(top(self@).vars, name@) == Some(v@),
                None => assoc_get(top(self@).vars, name@) is None,
            },
    {
        let t = self.stack.len() - 1;
        let frame = &self.stack[t];
        let found = find_key(&frame.variables, name);
        proof {
            transfer_key_facts(frame.variables@, vars_view(frame.variables@), name@, found);
        }
        match found {
            Some(i) => {
                proof {
                    lemma_assoc_get_at(top(self@).vars, name@, i as int);
                }
                Some(frame.variables[i].1.duplicate())
            },
            None => {
                proof {
                    lemma_assoc_get_missing(top(self@).vars, name@);
                }
                None
            },
        }
    }

    /// Write a variable of the current frame: an upsert that refuses to
    /// change the kind of an existing variable. Reports whether the name
    /// is new; on an error the state is unchanged.
    pub fn set_variable(&mut self, name: &String, value: Value) -> (r: Result<bool, Error>)
        requires
            old(self).wf(),
        ensures
            final(self).wf(),
            match set_var(old(self)@, name@, value@) {
                Result::Ok((is_new, st2)) => r == Result::<bool, Error>::Ok(is_new) && final(self)@
                    == st2,
                Result::Err(e) => r == Result::<bool, Error>::Err(e) && final(self)@ == old(self)@,
            },
    {
        let t = self.stack.len() - 1;
        let ghost stv = self@;
        let found = find_key(&self.stack[t].variables, name);
        proof {
            transfer_key_facts(
                self.stack[t as int].variables@,
                top(stv).vars,
                name@,
                found,
            );
        }
        match found {
            Some(i) => {
                proof {
                    lemma_assoc_get_at(top(stv).vars, name@, i as int);
                }
                if kinds_match(&self.stack[t].variables[i].1, &value) {
                    proof {
                        lemma_assoc_put_at(top(stv).vars, name@, value@, i as int);
                    }
                    let f = &mut self.stack[t];
                    f.variables[i] = (name.clone(), value);
                    proof {
                        let st2 = set_var(stv, name@, value@)->Ok_0.1;
                        assert(self@.frames[stv.frames.len() - 1].vars =~= st2.frames[stv.frames.len()
                            - 1].vars);
                        assert(self@.frames =~= st2.frames);
                        assert(self@ =~= st2);
                    }
                    Result::Ok(false)
                } else {
                    Result::Err(Error::TypeMismatch)
                }
            },
            None => {
                proof {
                    lemma_assoc_get_missing(top(stv).vars, name@);
                    lemma_assoc_put_missing(top(stv).vars, name@, value@);
                }
                let f = &mut self.stack[t];
                f.variables.push((name.clone(), value));
                proof {
                    let st2 = set_var(stv, name@, value@)->Ok_0.1;
                    assert(self@.frames[stv.frames.len() - 1].vars =~= st2.frames[stv.frames.len()
                        - 1].vars);
                    assert(self@.frames =~= st2.frames);
                    assert(self@ =~= st2);
                }
                Result::Ok(true)
            },
        }
    }

    /// Enter a fresh frame.
    pub fn push_frame(&mut self, f: Frame)
        requires
            old(self).wf(),
        ensures
            final(self).wf(),
            final(self)@ == (StateV { frames: old(self)@.frames.push(f@), ..old(self)@ }),
    {
        self.stack.push(f);
        proof {
            assert(self@.frames =~= old(self)@.frames.push(f@));
            assert(self@ =~= StateV { frames: old(self)@.frames.push(f@), ..old(self)@ });
        }
    }

    /// Leave the current frame.
    pub fn pop_frame(&mut self)
        requires
            old(self).wf(),
            old(self)@.frames.len() >= 2,
        ensures
            final(self).wf(),
            final(self)@ == (StateV { frames: old(self)@.frames.drop_last(), ..old(self)@ }),
    {
        let _ = self.stack.pop();
        proof {
            assert(self@.frames =~= old(self)@.frames.drop_last());
            assert(self@ =~= StateV { frames: old(self)@.frames.drop_last(), ..old(self)@ });
        }
    }

    /// Write text to the output channel.
    pub fn append_text(&mut self, s: &str)
        requires
            old(self).wf(),
        ensures
            final(self).wf(),
            final(self)@ == push_output(old(self)@, s@),
    {
        self.output.append(s);
        proof {
            assert(self@ =~= push_output(old(self)@, s@));
        }
    }

    /// Consume the next arithmetic answer, if one is logged.
    pub fn next_bits(&mut self) -> (r: Option<u32>)
        requires
            old(self).wf(),
        ensures
            final(self).wf(),
            old(self)@.floats.len() == 0 ==> r is None && final(self)@ == old(self)@,
            old(self)@.floats.len() > 0 ==> r == Some(old(self)@.floats[0]) && final(self)@ == take_bits(
                old(self)@,
            ).1,
    {
        if self.float_pos < self.floats.len() {
            let b = self.floats[self.float_pos];
            self.float_pos = self.float_pos + 1;
            proof {
                assert(self@.floats =~= take_bits(old(self)@).1.floats);
                assert(self@ =~= take_bits(old(self)@).1);
            }
            Some(b)
        } else {
            None
        }
    }

    /// Consume the next comparison answer, if one is logged.
    pub fn next_flag(&mut self) -> (r: Option<bool>)
        requires
            old(self).wf(),
        ensures
            final(self).wf(),
            old(self)@.truths.len() == 0 ==> r is None && final(self)@ == old(self)@,
            old(self)@.truths.len() > 0 ==> r == Some(old(self)@.truths[0]) && final(self)@ == take_flag(
                old(self)@,
            ).1,
    {
        if self.truth_pos < self.truths.len() {
            let b = self.truths[self.truth_pos];
            self.truth_pos = self.truth_pos + 1;
            proof {
                assert(self@.truths =~= take_flag(old(self)@).1.truths);
                assert(self@ =~= take_flag(old(self)@).1);
            }
            Some(b)
        } else {
            None
        }
    }

    /// Consume the next rendering answer and write it to the output, if
    /// one is logged.
    pub fn append_render(&mut self) -> (ok: bool)
        requires
            old(self).wf(),
        ensures
            final(self).wf(),
            old(self)@.texts.len() == 0 ==> !ok && final(self)@ == old(self)@,
            old(self)@.texts.len() > 0 ==> ok && final(self)@ == push_output(
                take_render(old(self)@).1,
                take_render(old(self)@).0,
            ),
    {
        if self.text_pos < self.texts.len() {
            let s = self.texts[self.text_pos].clone();
            proof {
                assert(old(self)@.texts[0] == s@);
            }
            self.text_pos = self.text_pos + 1;
            self.output.append(s.as_str());
            proof {
                let target = push_output(take_render(old(self)@).1, take_render(old(self)@).0);
                assert(self@.texts =~= target.texts);
                assert(self@ =~= target);
            }
            true
        } else {
            false
        }
    }

    /// Take the reading of the input channel: `None` when the channel is
    /// unreadable; otherwise the channel's parses, or the drained reading
    /// if a read already happened. Marks the channel consumed.
    pub fn consume_input(&mut self) -> (r: Option<Input>)
        requires
            old(self).wf(),
        ensures
            final(self).wf(),
            match old(self)@.input {
                None => r is None && final(self)@ == old(self)@,
                Some(inp) => final(self)@ == (StateV { consumed: true, ..old(self)@ }) && match r {
                    Some(eff) => eff@ == if old(self)@.consumed {
                        drained_input()
                    } else {
                        inp
                    },
                    None => false,
                },
            },
    {
        let eff_opt: Option<Input> = match &self.input {
            None => None,
            Some(inp) => if self.consumed {
                Some(Input { float: None, boolean: None, text: String::new() })
            } else {
                Some(Input { float: inp.float, boolean: inp.boolean, text: inp.text.clone() })
            },
        };
        match eff_opt {
            None => None,
            Some(e) => {
                self.consumed = true;
                proof {
                    assert(self@ =~= StateV { consumed: true, ..old(self)@ });
                    if old(self)@.consumed {
                        assert(e@ =~= drained_input());
                    }
                }
                Some(e)
            },
        }
    }
}

/// Whether two values are of the same kind.
pub fn kinds_match(a: &Value, b: &Value) -> (r: bool)
    ensures
        r == same_kind(a@, b@),
{
    match (a, b) {
        (Value::Float(_), Value::Float(_)) => true,
        (Value::Boolean(_), Value::Boolean(_)) => true,
        (Value::String(_), Value::String(_)) => true,
        _ => false,
    }
}

/// The first entry with this key, if any.
fn find_key<T>(entries: &Vec<(String, T)>, name: &String) -> (r: Option<usize>)
    ensures
        match r {
            Some(i) => i < entries@.len() && entries@[i as int].0@ == name@ && (forall|j: int|
                0 <= j < i ==> entries@[j].0@ != name@),
            None => forall|j: int| 0 <= j < entries@.len() ==> entries@[j].0@ != name@,
        },
{
    let mut i: usize = 0;
    while i < entries.len()
        invariant
            i <= entries@.len(),
            forall|j: int| 0 <= j < i ==> entries@[j].0@ != name@,
        decreases entries@.len() - i,
    {
        if entries[i].0.eq(name) {
            return Some(i);
        }
        i = i + 1;
    }
    None
}

/// Carry the facts of `find_key` from the executable pairs over to their
/// ghost image, any sequence whose entry `j` is keyed by `exec[j].0@`.
proof fn transfer_key_facts<T, U>(
    exec: Seq<(String, T)>,
    ghost_pairs: Seq<(Seq<char>, U)>,
    key: Seq<char>,
    found: Option<usize>,
)
    requires
        ghost_pairs.len() == exec.len(),
        forall|j: int| 0 <= j < exec.len() ==> #[trigger] ghost_pairs[j].0 == exec[j].0@,
        match found {
            Some(i) => (i as int) < exec.len() && exec[i as int].0@ == key && (forall|j: int|
                0 <= j < i ==> exec[j].0@ != key),
            None => forall|j: int| 0 <= j < exec.len() ==> exec[j].0@ != key,
        },
    ensures
        match found {
            Some(i) => (i as int) < ghost_pairs.len() && ghost_pairs[i as int].0 == key && (
            forall|j: int| 0 <= j < i ==> ghost_pairs[j].0 != key),
            None => forall|j: int| 0 <= j < ghost_pairs.len() ==> ghost_pairs[j].0 != key,
        },
{
}

/// Where the first match sits, `assoc_get` finds exactly that binding.
proof fn lemma_assoc_get_at<T>(entries: Seq<(Seq<char>, T)>, key: Seq<char>, i: int)
    requires
        0 <= i < entries.len(),
        entries[i].0 == key,
        forall|j: int| 0 <= j < i ==> entries[j].0 != key,
    ensures
        assoc_get(entries, key) == Some(entries[i].1),
    decreases i,
{
    if i > 0 {
        lemma_assoc_get_at(entries.drop_first(), key, i - 1);
    }
}

/// Without a match, `assoc_get` finds nothing.
proof fn lemma_assoc_get_missing<T>(entries: Seq<(Seq<char>, T)>, key: Seq<char>)
    requires
        forall|j: int| 0 <= j < entries.len() ==> entries[j].0 != key,
    ensures
        assoc_get(entries, key) is None,
    decreases entries.len(),
{
    if entries.len() > 0 {
        lemma_assoc_get_missing(entries.drop_first(), key);
    }
}

/// Where the first match sits, `assoc_put` is an update in place.
proof fn lemma_assoc_put_at<T>(entries: Seq<(Seq<char>, T)>, key: Seq<char>, value: T, i: int)
    requires
        0 <= i < entries.len(),
        entries[i].0 == key,
        forall|j: int| 0 <= j < i ==> entries[j].0 != key,
    ensures
        assoc_put(entries, key, value) == entries.update(i, (key, value)),
    decreases i,
{
    if i == 0 {
        assert(assoc_put(entries, key, value) =~= entries.update(0, (key, value)));
    } else {
        lemma_assoc_put_at(entries.drop_first(), key, value, i - 1);
        assert(assoc_put(entries, key, value) =~= entries.update(i, (key, value)));
    }
}

/// Without a match, `assoc_put` appends.
proof fn lemma_assoc_put_missing<T>(entries: Seq<(Seq<char>, T)>, key: Seq<char>, value: T)
    requires
        forall|j: int| 0 <= j < entries.len() ==> entries[j].0 != key,
    ensures
        assoc_put(entries, key, value) == entries.push((key, value)),
    decreases entries.len(),
{
    if entries.len() == 0 {
        assert(assoc_put(entries, key, value) =~= entries.push((key, value)));
    } else {
        lemma_assoc_put_missing(entries.drop_first(), key, value);
        assert(assoc_put(entries, key, value) =~= entries.push((key, value)));
    }
}

} // verus!
