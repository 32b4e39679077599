use vstd::prelude::*;

use crate::abstract_operations::{
    decimal, get, get_property, lemma_lookup_valid, ordinary_create_from_constructor, prototype_or_default,
    to_string,
};
use crate::builtins::{argument_spec, get_argument, lemma_argument_valid};
use crate::execution::{Agent, ProtoIntrinsics};
use crate::heap::{
    error_model, value_valid, values_valid, ObjectKind, ObjectModel, STR_CAUSE, STR_FALSE, STR_NOT_PRIMITIVE,
    STR_NULL, STR_TRUE,
};
use crate::value::{ExceptionType, JsError, JsResult, Value};

verus! {

/// The `Error` constructor.
pub struct ErrorConstructor;

/// The `cause` that `options` installs: its `cause` property where it is an
/// object that has one. A generator's properties sit on its backing object.
pub open spec fn error_cause(a: Agent, options: Value) -> Option<Value> {
    match options {
        Value::Object(o) => get_property(a.heap.objects_model(), o as nat, STR_CAUSE),
        Value::Generator(g) => match a.heap.generators_model()[g as int].object_index {
            Some(o) => get_property(a.heap.objects_model(), o as nat, STR_CAUSE),
            None => None,
        },
        _ => None,
    }
}

/// The message string that `message` gives when it is not an object.
pub open spec fn message_of(a: Agent, message: Value) -> Option<usize> {
    match message {
        Value::String(i) => Some(i),
        Value::Boolean(true) => Some(STR_TRUE),
        Value::Boolean(false) => Some(STR_FALSE),
        Value::Null => Some(STR_NULL),
        Value::Integer(_) => Some(a.heap.strings.len()),
        _ => None,
    }
}

/// The constructor whose prototype a new error takes.
pub open spec fn error_constructor_of(a: Agent, new_target: Option<usize>) -> Option<usize> {
    match new_target {
        Some(t) => Some(t),
        None => if a.execution_context_stack@.len() > 0 {
            a.execution_context_stack@.last().function
        } else {
            None
        },
    }
}

/// `InstallErrorCause`, as the cause to install.
pub fn get_error_cause(agent: &Agent, options: Value) -> (r: JsResult<Option<Value>>)
    requires
        agent.wf(),
        value_valid(options, agent.heap.bounds()),
    ensures
        r == Ok::<Option<Value>, JsError>(error_cause(*agent, options)),
        r matches Ok(Some(v)) ==> value_valid(v, agent.heap.bounds()),
{
    let object = match options {
        Value::Object(o) => o,
        Value::Generator(g) => {
            assert(agent.heap.generators_model()[g as int] == agent.heap.generators@[g as int]@);
            assert(crate::generator::generator_valid(agent.heap.generators_model()[g as int], agent.heap.bounds()));
            match agent.heap.generators[g].object_index {
                Some(o) => o,
                None => {
                    return Ok(None);
                },
            }
        },
        _ => {
            return Ok(None);
        },
    };
    proof {
        lemma_lookup_valid(&agent.heap, object as nat, STR_CAUSE, agent.heap.objects@.len());
    }
    Ok(get(&agent.heap, object, STR_CAUSE))
}

impl ErrorConstructor {
    /// `Error(message [, options])`: a new error object with the message
    /// converted to a string and the cause that `options` gives.
    pub fn behaviour(agent: &mut Agent, this_value: Value, arguments: &[Value], new_target: Option<usize>) -> (r: JsResult<Value>)
        requires
            old(agent).wf(),
            values_valid(arguments@, old(agent).heap.bounds()),
            new_target matches Some(t) ==> t < old(agent).heap.objects@.len(),
        ensures
            final(agent).wf(),
            final(agent).intrinsics == old(agent).intrinsics,
            final(agent).heap.generators@ == old(agent).heap.generators@,
            final(agent).heap.executables@ == old(agent).heap.executables@,
            final(agent).execution_context_stack@ == old(agent).execution_context_stack@,
            final(agent).scoped_roots@ == old(agent).scoped_roots@,
            ({
                let a = *old(agent);
                let message = argument_spec(arguments@, 0);
                let options = argument_spec(arguments@, 1);
                let n = a.heap.objects.len();
                match message {
                    Value::Object(_) | Value::Generator(_) => {
                        &&& r == Err::<Value, JsError>(JsError { value: Value::Object(n) })
                        &&& final(agent).heap.objects_model() == a.heap.objects_model().push(
                            error_model(ExceptionType::TypeError, STR_NOT_PRIMITIVE),
                        )
                        &&& final(agent).heap.strings@ == a.heap.strings@
                    },
                    _ => {
                        &&& r == Ok::<Value, JsError>(Value::Object(n))
                        &&& final(agent).heap.objects_model() == a.heap.objects_model().push(
                            ObjectModel {
                                prototype: Some(prototype_or_default(a, error_constructor_of(a, new_target), ProtoIntrinsics::Error)),
                                kind: ObjectKind::Error {
                                    kind: ExceptionType::Error,
                                    message: message_of(a, message),
                                    cause: error_cause(a, options),
                                },
                                properties: Seq::empty(),
                            },
                        )
                        &&& match message {
                            Value::Integer(x) => {
                                &&& final(agent).heap.strings@.drop_last() == a.heap.strings@
                                &&& final(agent).heap.strings@.len() == a.heap.strings@.len() + 1
                                &&& final(agent).heap.strings@.last()@ == decimal(x as int)
                            },
                            _ => final(agent).heap.strings@ == a.heap.strings@,
                        }
                    },
                }
            }),
    {
        let ghost a0 = *agent;
        let message = get_argument(arguments, 0);
        let options = get_argument(arguments, 1);
        proof {
            lemma_argument_valid(arguments@, 0, agent.heap.bounds());
            lemma_argument_valid(arguments@, 1, agent.heap.bounds());
        }
        let msg = if !message.is_undefined() {
            match to_string(agent, message) {
                Ok(i) => Some(i),
                Err(e) => {
                    return Err(e);
                },
            }
        } else {
            None
        };
        let ghost a1 = *agent;
        proof {
            assert(a1.heap.objects@ == a0.heap.objects@);
            assert(a1.heap.objects_model() == a0.heap.objects_model());
            crate::heap::lemma_values_grow(arguments@, a0.heap.bounds(), a1.heap.bounds());
            lemma_argument_valid(arguments@, 1, a1.heap.bounds());
            assert(a1.heap.generators_model() == a0.heap.generators_model());
        }
        let cause = match get_error_cause(agent, options) {
            Ok(c) => c,
            Err(e) => {
                return Err(e);
            },
        };
        let constructor = match new_target {
            Some(t) => Some(t),
            None => if agent.execution_context_stack.len() > 0 {
                proof {
                    assert(crate::execution::context_valid(agent.execution_context_stack@.last(), agent.heap.bounds()));
                }
                agent.running_execution_context().function
            } else {
                None
            },
        };
        let o = ordinary_create_from_constructor(
            agent,
            constructor,
            ProtoIntrinsics::Error,
            ObjectKind::Error { kind: ExceptionType::Error, message: msg, cause },
        );
        Ok(Value::Object(o))
    }
}

} // verus!
