use vstd::prelude::*;

use crate::abstract_operations::{get, ordinary_create_from_constructor, prototype_or_default};
use crate::builtins::{argument_spec, get_argument};
use crate::execution::{Agent, ProtoIntrinsics};
use crate::heap::{error_model, ObjectKind, ObjectModel, STR_REQUIRES_NEW, STR_SET_NOT_CALLABLE};
use crate::value::{ExceptionType, JsError, JsResult, Value};

verus! {

/// The `WeakMap` constructor.
pub struct WeakMapConstructor;

/// `IsCallable(value)`: this runtime has no function objects, so no value is
/// callable.
pub fn is_callable(value: Option<Value>) -> (r: bool)
    ensures
        !r,
{
    false
}

impl WeakMapConstructor {
    /// `new WeakMap(iterable)`: a new, empty WeakMap when `iterable` is
    /// undefined or null. Otherwise its entries would be added through the
    /// map's `set` method, which must be callable.
    pub fn constructor(agent: &mut Agent, this_value: Value, arguments: &[Value], new_target: Option<usize>) -> (r: JsResult<Value>)
        requires
            old(agent).wf(),
            new_target matches Some(t) ==> t < old(agent).heap.objects@.len(),
        ensures
            final(agent).wf(),
            final(agent).intrinsics == old(agent).intrinsics,
            final(agent).heap.strings@ == old(agent).heap.strings@,
            final(agent).heap.generators@ == old(agent).heap.generators@,
            final(agent).heap.executables@ == old(agent).heap.executables@,
            final(agent).execution_context_stack@ == old(agent).execution_context_stack@,
            final(agent).scoped_roots@ == old(agent).scoped_roots@,
            ({
                let a = *old(agent);
                let n = a.heap.objects.len();
                let iterable = argument_spec(arguments@, 0);
                match new_target {
                    None => {
                        &&& r == Err::<Value, JsError>(JsError { value: Value::Object(n) })
                        &&& final(agent).heap.objects_model() == a.heap.objects_model().push(
                            error_model(ExceptionType::TypeError, STR_REQUIRES_NEW),
                        )
                    },
                    Some(t) => {
                        let map = ObjectModel {
                            prototype: Some(prototype_or_default(a, Some(t), ProtoIntrinsics::WeakMap)),
                            kind: ObjectKind::WeakMap,
                            properties: Seq::empty(),
                        };
                        if iterable == Value::Undefined || iterable == Value::Null {
                            &&& r == Ok::<Value, JsError>(Value::Object(n))
                            &&& final(agent).heap.objects_model() == a.heap.objects_model().push(map)
                        } else {
                            &&& r == Err::<Value, JsError>(JsError { value: Value::Object((n + 1) as usize) })
                            &&& final(agent).heap.objects_model() == a.heap.objects_model().push(map).push(
                                error_model(ExceptionType::TypeError, STR_SET_NOT_CALLABLE),
                            )
                        }
                    },
                }
            }),
    {
        let new_target = match new_target {
            Some(t) => t,
            None => {
                return Err(agent.throw_exception_with_static_message(ExceptionType::TypeError, STR_REQUIRES_NEW));
            },
        };
        let map = ordinary_create_from_constructor(agent, Some(new_target), ProtoIntrinsics::WeakMap, ObjectKind::WeakMap);
        let iterable = get_argument(arguments, 0);
        if iterable.is_undefined() || iterable.is_null() {
            return Ok(Value::Object(map));
        }
        let adder = get(&agent.heap, map, crate::heap::STR_SET);
        if !is_callable(adder) {
            return Err(agent.throw_exception_with_static_message(ExceptionType::TypeError, STR_SET_NOT_CALLABLE));
        }
        Ok(Value::Object(map))
    }
}

} // verus!
