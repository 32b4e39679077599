use vstd::prelude::*;

verus! {

/// A language value. Heap entities are addressed by their index in the
/// arena of their kind; strings live in an arena that is never compacted.
#[derive(Clone, Copy, Debug, PartialEq, Eq, Structural)]
pub enum Value {
    Undefined,
    Null,
    Boolean(bool),
    Integer(i64),
    String(usize),
    Object(usize),
    Generator(usize),
}

impl Value {
    pub fn is_undefined(&self) -> (r: bool)
        ensures
            r == (*self == Value::Undefined),
    {
        matches!(self, Value::Undefined)
    }

    pub fn is_null(&self) -> (r: bool)
        ensures
            r == (*self == Value::Null),
    {
        matches!(self, Value::Null)
    }
}

/// The kinds of native error the runtime raises.
#[derive(Clone, Copy, Debug, PartialEq, Eq, Structural)]
pub enum ExceptionType {
    Error,
    RangeError,
    TypeError,
}

/// An abrupt (throw) completion carrying the thrown value.
#[derive(Clone, Copy, Debug, PartialEq, Eq, Structural)]
pub struct JsError {
    pub value: Value,
}

impl JsError {
    pub fn new(value: Value) -> (r: JsError)
        ensures
            r.value == value,
    {
        JsError { value }
    }

    pub fn value(&self) -> (r: Value)
        ensures
            r == self.value,
    {
        self.value
    }
}

pub type JsResult<T> = Result<T, JsError>;

} // verus!
