use vstd::prelude::*;

use crate::execution::Agent;
use crate::value::{JsError, JsResult, Value};

verus! {

/// The `RegExp` constructor.
pub struct RegExpConstructor;

impl RegExpConstructor {
    /// `get RegExp[@@species]`: the receiver itself.
    pub fn get_species(agent: &Agent, this_value: Value, arguments: &[Value]) -> (r: JsResult<Value>)
        ensures
            r == Ok::<Value, JsError>(this_value),
    {
        Ok(this_value)
    }
}

} // verus!
