pub mod boolean_constructor;
pub mod error_constructor;
pub mod regexp_constructor;
pub mod weak_map_constructor;

use vstd::prelude::*;

use crate::heap::{value_valid, values_valid, Bounds};
use crate::value::Value;

verus! {

/// The `index`th argument of a call, undefined where it was not passed.
pub open spec fn argument_spec(arguments: Seq<Value>, index: nat) -> Value {
    if index < arguments.len() {
        arguments[index as int]
    } else {
        Value::Undefined
    }
}

pub fn get_argument(arguments: &[Value], index: usize) -> (r: Value)
    ensures
        r == argument_spec(arguments@, index as nat),
{
    if index < arguments.len() {
        arguments[index]
    } else {
        Value::Undefined
    }
}

pub proof fn lemma_argument_valid(arguments: Seq<Value>, index: nat, b: Bounds)
    requires
        values_valid(arguments, b),
    ensures
        value_valid(argument_spec(arguments, index), b),
{
}

} // verus!
