//! Runtime scalar values and the once-per-run input channel.
use vstd::prelude::*;

verus! {

/// A scalar runtime value: a float (as its IEEE 754 bit pattern), a boolean,
/// or a string. A declared variable keeps the kind it was declared with.
#[derive(Debug)]
pub enum Value {
    Float(u32),
    Boolean(bool),
    String(String),
}

/// The ghost mirror of [`Value`], with the string as a character sequence.
#[verifier::ext_equal]
pub enum ValueV {
    Float(u32),
    Boolean(bool),
    Str(Seq<char>),
}

impl View for Value {
    type V = ValueV;

    open spec fn view(&self) -> ValueV {
        match self {
            Value::Float(bits) => ValueV::Float(*bits),
            Value::Boolean(b) => ValueV::Boolean(*b),
            Value::String(s) => ValueV::Str(s@),
        }
    }
}

/// Whether two values are of the same kind. A variable's kind is fixed when
/// it is first set; storing a value of another kind is an error.
pub open spec fn same_kind(a: ValueV, b: ValueV) -> bool {
    match (a, b) {
        (ValueV::Float(_), ValueV::Float(_)) => true,
        (ValueV::Boolean(_), ValueV::Boolean(_)) => true,
        (ValueV::Str(_), ValueV::Str(_)) => true,
        _ => false,
    }
}

impl Value {
    /// An identical value. (Spelled out so that the copy is known to keep
    /// the contents.)
    pub fn duplicate(&self) -> (r: Value)
        ensures
            r@ == self@,
    {
        match self {
            Value::Float(bits) => Value::Float(*bits),
            Value::Boolean(b) => Value::Boolean(*b),
            Value::String(s) => Value::String(s.clone()),
        }
    }
}

/// What one whole reading of the input channel yields, parsed ahead of time
/// into each kind a read statement may ask for. The channel is consumed in
/// full by the first read of a run; `float` and `boolean` hold the parses of
/// the trimmed text, `text` holds the trimmed text itself.
#[derive(Debug, Clone)]
pub struct Input {
    pub float: Option<u32>,
    pub boolean: Option<bool>,
    pub text: String,
}

/// The ghost mirror of [`Input`].
#[verifier::ext_equal]
pub struct InputV {
    pub float: Option<u32>,
    pub boolean: Option<bool>,
    pub text: Seq<char>,
}

impl View for Input {
    type V = InputV;

    open spec fn view(&self) -> InputV {
        InputV {
            float: self.float,
            boolean: self.boolean,
            text: self.text@,
        }
    }
}

/// What a read finds once the channel has already been consumed: text that
/// is empty and parses into neither a float nor a boolean.
pub open spec fn drained_input() -> InputV {
    InputV { float: None, boolean: None, text: Seq::empty() }
}

/// The ghost image of an optional value.
pub open spec fn opt_view(v: Option<Value>) -> Option<ValueV> {
    match v {
        Some(x) => Some(x@),
        None => None,
    }
}

} // verus!
