use nova_vm::abstract_operations::{get, has_property, to_boolean, to_string};
use nova_vm::builtins::boolean_constructor::BooleanConstructor;
use nova_vm::builtins::error_constructor::{get_error_cause, ErrorConstructor};
use nova_vm::builtins::regexp_constructor::RegExpConstructor;
use nova_vm::builtins::weak_map_constructor::WeakMapConstructor;
use nova_vm::execution::{Agent, ExecutionContext, INTRINSIC_COUNT};
use nova_vm::heap::{
    ObjectHeapData, ObjectKind, Property, STR_CAUSE, STR_NOT_PRIMITIVE, STR_PROTOTYPE, STR_REQUIRES_NEW,
    STR_SET_NOT_CALLABLE, STR_TRUE,
};
use nova_vm::value::{ExceptionType, JsError, Value};

fn top_level() -> ExecutionContext {
    ExecutionContext {
        realm: 0,
        function: None,
        this_value: Value::Undefined,
        lexical_environment: 0,
        variable_environment: 0,
        private_environment: None,
    }
}

fn object(agent: &mut Agent, prototype: Option<usize>, properties: Vec<Property>) -> usize {
    agent.create_object(ObjectHeapData { prototype, kind: ObjectKind::Ordinary, properties })
}

fn string(agent: &mut Agent, s: &str) -> Value {
    Value::String(agent.heap.create_string(s.to_string()))
}

fn type_error(agent: &Agent, r: Result<Value, JsError>, message: usize) {
    let Err(JsError { value: Value::Object(e) }) = r else {
        panic!("expected a TypeError, got {:?}", r)
    };
    assert_eq!(
        agent.heap.objects[e].kind,
        ObjectKind::Error { kind: ExceptionType::TypeError, message: Some(message), cause: None }
    );
}

#[test]
fn boolean_called_converts() {
    let mut agent = Agent::new(top_level());
    let empty = string(&mut agent, "");
    let text = string(&mut agent, "x");
    let o = Value::Object(object(&mut agent, None, vec![]));
    let cases = [
        (vec![], false),
        (vec![Value::Undefined], false),
        (vec![Value::Null], false),
        (vec![Value::Integer(0)], false),
        (vec![Value::Integer(-3)], true),
        (vec![empty], false),
        (vec![text], true),
        (vec![o], true),
        (vec![Value::Boolean(true), Value::Boolean(false)], true),
    ];
    for (args, expected) in cases {
        let r = BooleanConstructor::behaviour(&mut agent, Value::Undefined, &args, None);
        assert_eq!(r, Ok(Value::Boolean(expected)), "{:?}", args);
    }
    assert!(!to_boolean(&agent, empty));
}

#[test]
fn boolean_constructed_wraps_with_the_constructor_prototype() {
    let mut agent = Agent::new(top_level());
    let proto = object(&mut agent, None, vec![]);
    let ctor = object(&mut agent, None, vec![Property { key: STR_PROTOTYPE, value: Value::Object(proto) }]);
    let r = BooleanConstructor::behaviour(&mut agent, Value::Undefined, &[Value::Integer(1)], Some(ctor));
    let Ok(Value::Object(b)) = r else { panic!() };
    assert_eq!(agent.heap.objects[b].kind, ObjectKind::Boolean(true));
    assert_eq!(agent.heap.objects[b].prototype, Some(proto));
    let plain = object(&mut agent, None, vec![]);
    let r = BooleanConstructor::behaviour(&mut agent, Value::Undefined, &[], Some(plain));
    let Ok(Value::Object(b)) = r else { panic!() };
    assert_eq!(agent.heap.objects[b].kind, ObjectKind::Boolean(false));
    assert_eq!(agent.heap.objects[b].prototype, Some(agent.intrinsics.boolean_prototype));
}

#[test]
fn error_with_message_and_cause() {
    let mut agent = Agent::new(top_level());
    let msg = string(&mut agent, "bad");
    let Value::String(msg_index) = msg else { panic!() };
    let options = object(&mut agent, None, vec![Property { key: STR_CAUSE, value: Value::Integer(5) }]);
    let r = ErrorConstructor::behaviour(&mut agent, Value::Undefined, &[msg, Value::Object(options)], None);
    let Ok(Value::Object(e)) = r else { panic!() };
    assert_eq!(
        agent.heap.objects[e].kind,
        ObjectKind::Error { kind: ExceptionType::Error, message: Some(msg_index), cause: Some(Value::Integer(5)) }
    );
}

#[test]
fn error_without_message_or_options() {
    let mut agent = Agent::new(top_level());
    let r = ErrorConstructor::behaviour(&mut agent, Value::Undefined, &[], None);
    let Ok(Value::Object(e)) = r else { panic!() };
    assert_eq!(
        agent.heap.objects[e].kind,
        ObjectKind::Error { kind: ExceptionType::Error, message: None, cause: None }
    );
}

#[test]
fn error_message_from_integer_and_boolean() {
    let mut agent = Agent::new(top_level());
    let before = agent.heap.strings.len();
    let r = ErrorConstructor::behaviour(&mut agent, Value::Undefined, &[Value::Integer(-42)], None);
    let Ok(Value::Object(e)) = r else { panic!() };
    let ObjectKind::Error { message: Some(m), .. } = agent.heap.objects[e].kind else { panic!() };
    assert_eq!(m, before);
    assert_eq!(agent.heap.strings[m], "-42");
    let r = ErrorConstructor::behaviour(&mut agent, Value::Undefined, &[Value::Boolean(true)], None);
    let Ok(Value::Object(e)) = r else { panic!() };
    let ObjectKind::Error { message, .. } = agent.heap.objects[e].kind else { panic!() };
    assert_eq!(message, Some(STR_TRUE));
}

#[test]
fn error_message_from_object_is_a_type_error() {
    let mut agent = Agent::new(top_level());
    let o = object(&mut agent, None, vec![]);
    let r = ErrorConstructor::behaviour(&mut agent, Value::Undefined, &[Value::Object(o)], None);
    type_error(&agent, r, STR_NOT_PRIMITIVE);
}

#[test]
fn error_takes_the_running_function_prototype() {
    let mut ctx = top_level();
    let mut agent = Agent::new(top_level());
    let proto = object(&mut agent, None, vec![]);
    let f = object(&mut agent, None, vec![Property { key: STR_PROTOTYPE, value: Value::Object(proto) }]);
    ctx.function = Some(f);
    agent.execution_context_stack.push(ctx);
    let r = ErrorConstructor::behaviour(&mut agent, Value::Undefined, &[], None);
    let Ok(Value::Object(e)) = r else { panic!() };
    assert_eq!(agent.heap.objects[e].prototype, Some(proto));
}

#[test]
fn error_cause_lookups() {
    let mut agent = Agent::new(top_level());
    assert_eq!(get_error_cause(&agent, Value::Integer(1)), Ok(None));
    let bare = object(&mut agent, None, vec![]);
    assert_eq!(get_error_cause(&agent, Value::Object(bare)), Ok(None));
    let base = object(&mut agent, None, vec![Property { key: STR_CAUSE, value: Value::Null }]);
    let derived = object(&mut agent, Some(base), vec![]);
    assert_eq!(get_error_cause(&agent, Value::Object(derived)), Ok(Some(Value::Null)));
    assert!(has_property(&agent.heap, derived, STR_CAUSE));
}

#[test]
fn lookups_end_on_a_prototype_cycle() {
    let mut agent = Agent::new(top_level());
    let a = object(&mut agent, Some(INTRINSIC_COUNT + 1), vec![]);
    let _b = object(&mut agent, Some(a), vec![]);
    assert_eq!(get(&agent.heap, a, STR_CAUSE), None);
}

#[test]
fn to_string_of_extreme_integers() {
    let mut agent = Agent::new(top_level());
    let i = to_string(&mut agent, Value::Integer(i64::MIN)).unwrap();
    assert_eq!(agent.heap.strings[i], "-9223372036854775808");
    let i = to_string(&mut agent, Value::Integer(0)).unwrap();
    assert_eq!(agent.heap.strings[i], "0");
    let i = to_string(&mut agent, Value::Undefined).unwrap();
    assert_eq!(agent.heap.strings[i], "undefined");
}

#[test]
fn regexp_species_is_the_receiver() {
    let agent = Agent::new(top_level());
    let r = RegExpConstructor::get_species(&agent, Value::Integer(3), &[]);
    assert_eq!(r, Ok(Value::Integer(3)));
}

#[test]
fn weak_map_requires_new() {
    let mut agent = Agent::new(top_level());
    let r = WeakMapConstructor::constructor(&mut agent, Value::Undefined, &[], None);
    type_error(&agent, r, STR_REQUIRES_NEW);
    assert_eq!(agent.heap.strings[STR_REQUIRES_NEW], "Constructor WeakMap requires 'new'");
}

#[test]
fn weak_map_from_nothing() {
    let mut agent = Agent::new(top_level());
    let ctor = object(&mut agent, None, vec![]);
    for iterable in [Value::Undefined, Value::Null] {
        let r = WeakMapConstructor::constructor(&mut agent, Value::Undefined, &[iterable], Some(ctor));
        let Ok(Value::Object(m)) = r else { panic!() };
        assert_eq!(agent.heap.objects[m].kind, ObjectKind::WeakMap);
        assert_eq!(agent.heap.objects[m].prototype, Some(agent.intrinsics.weak_map_prototype));
    }
}

#[test]
fn weak_map_from_an_iterable_needs_a_callable_set() {
    let mut agent = Agent::new(top_level());
    let ctor = object(&mut agent, None, vec![]);
    let r = WeakMapConstructor::constructor(&mut agent, Value::Undefined, &[Value::Integer(1)], Some(ctor));
    type_error(&agent, r, STR_SET_NOT_CALLABLE);
    assert_eq!(agent.heap.objects.len(), INTRINSIC_COUNT + 3);
}

#[test]
fn weak_map_takes_the_new_target_prototype() {
    let mut agent = Agent::new(top_level());
    let proto = object(&mut agent, None, vec![]);
    let ctor = object(&mut agent, None, vec![Property { key: STR_PROTOTYPE, value: Value::Object(proto) }]);
    let r = WeakMapConstructor::constructor(&mut agent, Value::Undefined, &[], Some(ctor));
    let Ok(Value::Object(m)) = r else { panic!() };
    assert_eq!(agent.heap.objects[m].prototype, Some(proto));
}

#[test]
fn error_without_constructor_takes_the_intrinsic_prototype() {
    let mut agent = Agent::new(top_level());
    let r = ErrorConstructor::behaviour(&mut agent, Value::Undefined, &[], None);
    let Ok(Value::Object(e)) = r else { panic!() };
    assert_eq!(agent.heap.objects[e].prototype, Some(agent.intrinsics.error_prototype));
}

#[test]
fn new_agent_holds_the_intrinsic_prototypes() {
    let agent = Agent::new(top_level());
    assert_eq!(agent.heap.objects.len(), INTRINSIC_COUNT);
    let i = agent.intrinsics;
    assert_eq!(agent.heap.objects[i.object_prototype].prototype, None);
    for p in [i.boolean_prototype, i.error_prototype, i.weak_map_prototype, i.generator_prototype] {
        assert_eq!(agent.heap.objects[p].prototype, Some(i.object_prototype));
    }
}
