use vstd::prelude::*;

use crate::abstract_operations::{ordinary_create_from_constructor, prototype_or_default, to_boolean, to_boolean_spec};
use crate::builtins::{argument_spec, get_argument, lemma_argument_valid};
use crate::execution::{Agent, ProtoIntrinsics};
use crate::heap::{values_valid, ObjectKind, ObjectModel};
use crate::value::{JsResult, Value};

verus! {

/// The `Boolean` constructor.
pub struct BooleanConstructor;

impl BooleanConstructor {
    /// `Boolean(value)`: called, the boolean of `value`; constructed, a
    /// Boolean object that wraps it, with the prototype that `new_target`
    /// gives, else `%Boolean.prototype%`.
    pub fn behaviour(agent: &mut Agent, this_value: Value, arguments: &[Value], new_target: Option<usize>) -> (r: JsResult<Value>)
        requires
            old(agent).wf(),
            values_valid(arguments@, old(agent).heap.bounds()),
            new_target matches Some(t) ==> t < old(agent).heap.objects@.len(),
        ensures
            final(agent).wf(),
            final(agent).intrinsics == old(agent).intrinsics,
            ({
                let b = to_boolean_spec(old(agent).heap.strings@, argument_spec(arguments@, 0));
                match new_target {
                    None => r == Ok::<Value, crate::value::JsError>(Value::Boolean(b)) && *final(agent) == *old(agent),
                    Some(t) => {
                        &&& r == Ok::<Value, crate::value::JsError>(Value::Object(old(agent).heap.objects.len()))
                        &&& final(agent).heap.objects_model() == old(agent).heap.objects_model().push(
                            ObjectModel {
                                prototype: Some(prototype_or_default(*old(agent), Some(t), ProtoIntrinsics::Boolean)),
                                kind: ObjectKind::Boolean(b),
                                properties: Seq::empty(),
                            },
                        )
                        &&& final(agent).heap.strings@ == old(agent).heap.strings@
                        &&& final(agent).heap.generators@ == old(agent).heap.generators@
                        &&& final(agent).heap.executables@ == old(agent).heap.executables@
                        &&& final(agent).execution_context_stack@ == old(agent).execution_context_stack@
                        &&& final(agent).scoped_roots@ == old(agent).scoped_roots@
                    },
                }
            }),
    {
        let value = get_argument(arguments, 0);
        proof {
            lemma_argument_valid(arguments@, 0, agent.heap.bounds());
        }
        let b = to_boolean(agent, value);
        match new_target {
            None => Ok(Value::Boolean(b)),
            Some(t) => {
                let o = ordinary_create_from_constructor(agent, Some(t), ProtoIntrinsics::Boolean, ObjectKind::Boolean(b));
                Ok(Value::Object(o))
            },
        }
    }
}

} // verus!
