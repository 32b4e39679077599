use nova_vm::execution::{Agent, ExecutionContext};
use nova_vm::function_definitions::evaluate_function_body;
use nova_vm::generator::{evaluate_generator_body, run_generator_body, Generator, GeneratorState, ResumeStep};
use nova_vm::heap::{ObjectHeapData, ObjectKind, STR_DONE, STR_GENERATOR_RUNNING, STR_NOT_AN_INTEGER, STR_VALUE};
use nova_vm::value::{ExceptionType, JsError, Value};
use nova_vm::vm::{Executable, ExecutableHeapData, Handler, Instruction};

fn top_level() -> ExecutionContext {
    ExecutionContext {
        realm: 0,
        function: None,
        this_value: Value::Undefined,
        lexical_environment: 0,
        variable_environment: 0,
        private_environment: None,
    }
}

fn body(
    agent: &mut Agent,
    instructions: Vec<Instruction>,
    constants: Vec<Value>,
    handlers: Vec<Handler>,
    local_count: usize,
) -> Executable {
    let index = agent.heap.create_executable(ExecutableHeapData {
        instructions,
        constants,
        handlers,
        local_count,
    });
    Executable { index }
}

fn start(agent: &mut Agent, executable: Executable, arguments: Vec<Value>) -> Generator<'static> {
    let ctx = agent.running_execution_context();
    Generator::new_suspended_start(agent, executable, arguments, ctx)
}

/// Reads `{ value, done }` back from an iterator result object.
fn iter_result(agent: &Agent, r: Result<Value, JsError>) -> (Value, bool) {
    let Ok(Value::Object(i)) = r else {
        panic!("expected an iterator result, got {:?}", r)
    };
    let props = &agent.heap.objects[i].properties;
    assert_eq!(props.len(), 2);
    assert_eq!(props[0].key, STR_VALUE);
    assert_eq!(props[1].key, STR_DONE);
    let Value::Boolean(done) = props[1].value else {
        panic!("done is not a boolean")
    };
    (props[0].value, done)
}

fn is_completed(agent: &Agent, g: Generator) -> bool {
    matches!(
        agent.heap.generators[g.get_index()].generator_state,
        Some(GeneratorState::Completed)
    )
}

fn string(agent: &Agent, v: Value) -> String {
    let Value::String(i) = v else {
        panic!("not a string: {:?}", v)
    };
    agent.heap.strings[i].clone()
}

#[test]
fn empty_generator() {
    let mut agent = Agent::new(top_level());
    let exe = body(&mut agent, vec![], vec![], vec![], 0);
    let g = start(&mut agent, exe, vec![]);
    let r = g.resume(&mut agent, Value::Undefined);
    assert_eq!(iter_result(&agent, r), (Value::Undefined, true));
    assert!(is_completed(&agent, g));
    let r = g.resume(&mut agent, Value::Integer(42));
    assert_eq!(iter_result(&agent, r), (Value::Undefined, true));
    assert_eq!(agent.execution_context_stack.len(), 1);
}

#[test]
fn single_yield() {
    let mut agent = Agent::new(top_level());
    let exe = body(
        &mut agent,
        vec![
            Instruction::LoadConstant(0),
            Instruction::Yield,
            Instruction::Pop,
            Instruction::LoadConstant(1),
            Instruction::Yield,
            Instruction::Pop,
        ],
        vec![Value::Integer(1), Value::Integer(2)],
        vec![],
        0,
    );
    let g = start(&mut agent, exe, vec![]);
    let r = g.resume(&mut agent, Value::Undefined);
    assert_eq!(iter_result(&agent, r), (Value::Integer(1), false));
    assert!(!is_completed(&agent, g));
    let r = g.resume(&mut agent, Value::Undefined);
    assert_eq!(iter_result(&agent, r), (Value::Integer(2), false));
    let r = g.resume(&mut agent, Value::Undefined);
    assert_eq!(iter_result(&agent, r), (Value::Undefined, true));
    assert!(is_completed(&agent, g));
}

fn round_trip_body(agent: &mut Agent) -> Executable {
    // const x = yield 1; return x + 1;
    body(
        agent,
        vec![
            Instruction::LoadConstant(0),
            Instruction::Yield,
            Instruction::StoreLocal(0),
            Instruction::LoadLocal(0),
            Instruction::LoadConstant(0),
            Instruction::Add,
            Instruction::Return,
        ],
        vec![Value::Integer(1)],
        vec![],
        1,
    )
}

#[test]
fn value_round_trip_through_yield() {
    let mut agent = Agent::new(top_level());
    let exe = round_trip_body(&mut agent);
    let g = start(&mut agent, exe, vec![]);
    let r = g.resume(&mut agent, Value::Undefined);
    assert_eq!(iter_result(&agent, r), (Value::Integer(1), false));
    let r = g.resume(&mut agent, Value::Integer(41));
    assert_eq!(iter_result(&agent, r), (Value::Integer(42), true));
    assert!(is_completed(&agent, g));
}

#[test]
fn adding_a_non_integer_throws_from_the_body() {
    let mut agent = Agent::new(top_level());
    let exe = round_trip_body(&mut agent);
    let g = start(&mut agent, exe, vec![]);
    let _ = g.resume(&mut agent, Value::Undefined);
    let r = g.resume(&mut agent, Value::Boolean(true));
    assert_eq!(r, Err(JsError::new(Value::String(STR_NOT_AN_INTEGER))));
    assert!(is_completed(&agent, g));
}

#[test]
fn adding_past_the_integer_range_throws() {
    let mut agent = Agent::new(top_level());
    let exe = round_trip_body(&mut agent);
    let g = start(&mut agent, exe, vec![]);
    let _ = g.resume(&mut agent, Value::Undefined);
    let r = g.resume(&mut agent, Value::Integer(i64::MAX));
    assert_eq!(r, Err(JsError::new(Value::String(STR_NOT_AN_INTEGER))));
}

#[test]
fn throw_at_start() {
    let mut agent = Agent::new(top_level());
    let exe = body(
        &mut agent,
        vec![Instruction::LoadConstant(0), Instruction::Yield],
        vec![Value::Integer(1)],
        vec![],
        0,
    );
    let g = start(&mut agent, exe, vec![]);
    let e = Value::String(agent.heap.create_string("e".to_string()));
    let objects_before = agent.heap.objects.len();
    let r = g.resume_throw(&mut agent, e);
    assert_eq!(r, Err(JsError::new(e)));
    assert_eq!(string(&agent, e), "e");
    assert!(is_completed(&agent, g));
    assert_eq!(agent.heap.objects.len(), objects_before);
    let r = g.resume(&mut agent, Value::Undefined);
    assert_eq!(iter_result(&agent, r), (Value::Undefined, true));
}

#[test]
fn throw_on_completed_returns_the_value() {
    let mut agent = Agent::new(top_level());
    let exe = body(&mut agent, vec![], vec![], vec![], 0);
    let g = start(&mut agent, exe, vec![]);
    let _ = g.resume(&mut agent, Value::Undefined);
    let r = g.resume_throw(&mut agent, Value::Integer(7));
    assert_eq!(r, Err(JsError::new(Value::Integer(7))));
    assert!(is_completed(&agent, g));
}

#[test]
fn throw_caught_inside_body() {
    // try { yield 1; } catch (e) { yield e; }
    let mut agent = Agent::new(top_level());
    let exe = body(
        &mut agent,
        vec![
            Instruction::LoadConstant(0),
            Instruction::Yield,
            Instruction::Pop,
            Instruction::Jump(7),
            Instruction::Yield,
            Instruction::Pop,
            Instruction::Jump(7),
        ],
        vec![Value::Integer(1)],
        vec![Handler { start: 0, end: 3, target: 4 }],
        0,
    );
    let g = start(&mut agent, exe, vec![]);
    let boom = Value::String(agent.heap.create_string("boom".to_string()));
    let r = g.resume(&mut agent, Value::Undefined);
    assert_eq!(iter_result(&agent, r), (Value::Integer(1), false));
    let r = g.resume_throw(&mut agent, boom);
    let (v, done) = iter_result(&agent, r);
    assert_eq!(string(&agent, v), "boom");
    assert!(!done);
    let r = g.resume(&mut agent, Value::Undefined);
    assert_eq!(iter_result(&agent, r), (Value::Undefined, true));
}

#[test]
fn uncaught_throw_after_yield_completes() {
    let mut agent = Agent::new(top_level());
    let exe = body(
        &mut agent,
        vec![Instruction::LoadConstant(0), Instruction::Yield, Instruction::Pop],
        vec![Value::Integer(1)],
        vec![],
        0,
    );
    let g = start(&mut agent, exe, vec![]);
    let _ = g.resume(&mut agent, Value::Undefined);
    let r = g.resume_throw(&mut agent, Value::Integer(3));
    assert_eq!(r, Err(JsError::new(Value::Integer(3))));
    assert!(is_completed(&agent, g));
    assert_eq!(agent.execution_context_stack.len(), 1);
}

#[test]
fn re_entrancy_guard() {
    let mut agent = Agent::new(top_level());
    let exe = body(
        &mut agent,
        vec![Instruction::LoadConstant(0), Instruction::Return],
        vec![Value::Integer(5)],
        vec![],
        0,
    );
    let g = start(&mut agent, exe, vec![]);
    let ResumeStep::Started { vm_or_args, executable } = g.begin_resume(&mut agent, Value::Undefined, false)
    else {
        panic!("the generator should start")
    };
    assert_eq!(agent.execution_context_stack.len(), 2);
    assert!(matches!(
        agent.heap.generators[g.get_index()].generator_state,
        Some(GeneratorState::Executing)
    ));
    // The body calls back into the generator while it runs.
    let nested = g.resume(&mut agent, Value::Undefined);
    let Err(JsError { value: Value::Object(e) }) = nested else {
        panic!("expected a TypeError, got {:?}", nested)
    };
    assert_eq!(
        agent.heap.objects[e].kind,
        ObjectKind::Error {
            kind: ExceptionType::TypeError,
            message: Some(STR_GENERATOR_RUNNING),
            cause: None
        }
    );
    assert_eq!(
        agent.heap.strings[STR_GENERATOR_RUNNING],
        "The generator is currently running"
    );
    let nested = g.resume_throw(&mut agent, Value::Undefined);
    assert!(matches!(nested, Err(JsError { value: Value::Object(_) })));
    let result = run_generator_body(&agent, executable, vm_or_args, Value::Undefined, false);
    let r = g.complete_resume(&mut agent, result, executable);
    assert_eq!(iter_result(&agent, r), (Value::Integer(5), true));
    assert_eq!(agent.execution_context_stack.len(), 1);
    assert!(is_completed(&agent, g));
}

#[test]
fn arguments_reach_the_body() {
    let mut agent = Agent::new(top_level());
    let exe = body(
        &mut agent,
        vec![
            Instruction::LoadArgument(0),
            Instruction::LoadArgument(1),
            Instruction::Add,
            Instruction::Yield,
            Instruction::LoadArgument(2),
            Instruction::Return,
        ],
        vec![],
        vec![],
        0,
    );
    let g = start(&mut agent, exe, vec![Value::Integer(20), Value::Integer(22)]);
    let r = g.resume(&mut agent, Value::Integer(1000));
    assert_eq!(iter_result(&agent, r), (Value::Integer(42), false));
    let r = g.resume(&mut agent, Value::Undefined);
    assert_eq!(iter_result(&agent, r), (Value::Undefined, true));
}

#[test]
fn backing_object_is_set_once() {
    let mut agent = Agent::new(top_level());
    let exe = body(&mut agent, vec![], vec![], vec![], 0);
    let g = start(&mut agent, exe, vec![]);
    assert_eq!(g.get_backing_object(&agent), None);
    let o = agent.create_iter_result_object(Value::Null, false);
    let Value::Object(o) = o else { panic!() };
    g.set_backing_object(&mut agent, o);
    assert_eq!(g.get_backing_object(&agent), Some(o));
}

#[test]
fn function_body_returns_and_throws() {
    let mut agent = Agent::new(top_level());
    let add = body(
        &mut agent,
        vec![Instruction::LoadArgument(0), Instruction::LoadArgument(1), Instruction::Add, Instruction::Return],
        vec![],
        vec![],
        0,
    );
    let r = evaluate_function_body(&agent, add, vec![Value::Integer(2), Value::Integer(3)]);
    assert_eq!(r, Ok(Value::Integer(5)));
    let r = evaluate_function_body(&agent, add, vec![Value::Integer(2)]);
    assert_eq!(r, Err(JsError::new(Value::String(STR_NOT_AN_INTEGER))));
    let empty = body(&mut agent, vec![], vec![], vec![], 0);
    assert_eq!(evaluate_function_body(&agent, empty, vec![]), Ok(Value::Undefined));
}

#[test]
fn generator_values_convert_both_ways() {
    let g: Generator = Generator::from_index(4);
    assert_eq!(g.into_value(), Value::Generator(4));
    let back: Result<Generator, ()> = Generator::try_from_value(Value::Generator(4));
    assert_eq!(back.map(|g| g.get_index()), Ok(4));
    let not: Result<Generator, ()> = Generator::try_from_value(Value::Integer(4));
    assert!(not.is_err());
    let d: Generator = Generator::_def();
    assert_eq!(d.get_index(), 0);
}

#[test]
fn evaluate_generator_body_makes_a_suspended_generator() {
    let mut agent = Agent::new(top_level());
    let exe = body(&mut agent, vec![Instruction::LoadArgument(0), Instruction::Return], vec![], vec![], 0);
    let function = agent.create_object(ObjectHeapData {
        prototype: None,
        kind: ObjectKind::Ordinary,
        properties: vec![],
    });
    let v = evaluate_generator_body(&mut agent, function, exe, vec![Value::Integer(8)]);
    let Value::Generator(i) = v else { panic!() };
    let g: Generator = Generator::from_index(i);
    let backing = g.get_backing_object(&agent).unwrap();
    assert_eq!(backing, function + 1);
    // Without a `prototype` on the function, the intrinsic default applies.
    assert_eq!(agent.heap.objects[backing].prototype, Some(agent.intrinsics.generator_prototype));
    assert!(matches!(
        agent.heap.generators[i].generator_state,
        Some(GeneratorState::Suspended(_))
    ));
    let r = g.resume(&mut agent, Value::Undefined);
    assert_eq!(iter_result(&agent, r), (Value::Integer(8), true));
}
