use vstd::prelude::*;

verus! {

/// The mathematical shape of a stored value: a variant tag with its
/// payload, strings as character sequences and blobs as byte sequences.
/// Contracts throughout the crate speak of values through this model.
pub enum ValueModel {
    Str(Seq<char>),
    Binary(Seq<u8>),
    Integer(i64),
    Float(u64),
    Bool(bool),
    Empty,
}

/// A scalar stored under a key in some table.
///
/// `Empty` is the sentinel for "nothing meaningful to report" (for
/// example: no previous value existed); it is distinct from a failure,
/// which travels as a `KvError`. The `Float` variant carries the
/// IEEE-754 bit pattern of a 64-bit floating-point number, so that
/// equality stays structural.
#[derive(Debug, PartialEq, PartialOrd)]
pub enum Value {
    Str(String),
    Binary(Vec<u8>),
    Integer(i64),
    Float(u64),
    Bool(bool),
    Empty,
}

impl Clone for Value {
    /// A clone carries the same model as the original.
    fn clone(&self) -> (r: Self)
        ensures
            r@ == self@,
    {
        match self {
            Value::Str(s) => Value::Str(s.clone()),
            Value::Binary(b) => Value::Binary(vstd::slice::slice_to_vec(b.as_slice())),
            Value::Integer(i) => Value::Integer(*i),
            Value::Float(bits) => Value::Float(*bits),
            Value::Bool(b) => Value::Bool(*b),
            Value::Empty => Value::Empty,
        }
    }
}

impl View for Value {
    type V = ValueModel;

    open spec fn view(&self) -> ValueModel {
        match self {
            Value::Str(s) => ValueModel::Str(s@),
            Value::Binary(b) => ValueModel::Binary(b@),
            Value::Integer(i) => ValueModel::Integer(*i),
            Value::Float(bits) => ValueModel::Float(*bits),
            Value::Bool(b) => ValueModel::Bool(*b),
            Value::Empty => ValueModel::Empty,
        }
    }
}

impl DeepView for Value {
    type V = ValueModel;

    open spec fn deep_view(&self) -> ValueModel {
        self.view()
    }
}

impl Default for Value {
    fn default() -> (r: Self)
        ensures
            r@ == ValueModel::Empty,
    {
        Value::Empty
    }
}

impl From<&str> for Value {
    fn from(s: &str) -> (r: Self)
        ensures
            r@ == ValueModel::Str(s@),
    {
        Value::Str(s.to_owned())
    }
}

impl vstd::std_specs::convert::FromSpecImpl<&str> for Value {
    open spec fn obeys_from_spec() -> bool {
        false
    }

    open spec fn from_spec(s: &str) -> Value {
        Value::Empty
    }
}

impl From<i64> for Value {
    fn from(i: i64) -> (r: Self)
        ensures
            r@ == ValueModel::Integer(i),
    {
        Value::Integer(i)
    }
}

impl vstd::std_specs::convert::FromSpecImpl<i64> for Value {
    open spec fn obeys_from_spec() -> bool {
        true
    }

    open spec fn from_spec(i: i64) -> Value {
        Value::Integer(i)
    }
}

impl From<bool> for Value {
    fn from(b: bool) -> (r: Self)
        ensures
            r@ == ValueModel::Bool(b),
    {
        Value::Bool(b)
    }
}

impl vstd::std_specs::convert::FromSpecImpl<bool> for Value {
    open spec fn obeys_from_spec() -> bool {
        true
    }

    open spec fn from_spec(b: bool) -> Value {
        Value::Bool(b)
    }
}

/// A key together with its value, as reported by a backend or carried
/// in a response. A view over stored data, never a storage primitive.
#[derive(Debug, PartialEq, PartialOrd)]
pub struct Kvpair {
    pub key: String,
    pub value: Value,
}

impl Clone for Kvpair {
    /// A clone carries the same model as the original.
    fn clone(&self) -> (r: Self)
        ensures
            r@ == self@,
    {
        Kvpair { key: self.key.clone(), value: self.value.clone() }
    }
}

/// The model of a `Kvpair`: the key's characters and the value's model.
pub struct KvpairModel {
    pub key: Seq<char>,
    pub value: ValueModel,
}

impl View for Kvpair {
    type V = KvpairModel;

    open spec fn view(&self) -> KvpairModel {
        KvpairModel { key: self.key@, value: self.value@ }
    }
}

impl DeepView for Kvpair {
    type V = KvpairModel;

    open spec fn deep_view(&self) -> KvpairModel {
        self.view()
    }
}

impl Kvpair {
    pub fn new(key: &str, value: Value) -> (r: Self)
        ensures
            r@ == (KvpairModel { key: key@, value: value@ }),
    {
        Kvpair { key: key.to_owned(), value }
    }
}

} // verus!
