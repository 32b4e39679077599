use nova_vm::context::{Context, GcToken, ScopeToken};
use nova_vm::execution::{Agent, ExecutionContext, INTRINSIC_COUNT};
use nova_vm::gc::{collect, HeapRef, Marks, WorkQueues};
use nova_vm::generator::{evaluate_generator_body, Generator, GeneratorState, VmOrArguments};
use nova_vm::heap::{ObjectHeapData, ObjectKind, Property, BUILTIN_STRING_COUNT, STR_PROTOTYPE, STR_VALUE};
use nova_vm::value::Value;
use nova_vm::vm::{Executable, ExecutableHeapData, Instruction};

fn top_level() -> ExecutionContext {
    ExecutionContext {
        realm: 0,
        function: None,
        this_value: Value::Undefined,
        lexical_environment: 0,
        variable_environment: 0,
        private_environment: None,
    }
}

fn plain_object(agent: &mut Agent, prototype: Option<usize>, value: Value) -> usize {
    agent.create_object(ObjectHeapData {
        prototype,
        kind: ObjectKind::Ordinary,
        properties: vec![Property { key: STR_VALUE, value }],
    })
}

/// A body that yields its first argument, then returns its second.
fn echo_body(agent: &mut Agent) -> Executable {
    let index = agent.heap.create_executable(ExecutableHeapData {
        instructions: vec![
            Instruction::LoadArgument(0),
            Instruction::Yield,
            Instruction::Pop,
            Instruction::LoadArgument(1),
            Instruction::Return,
        ],
        constants: vec![],
        handlers: vec![],
        local_count: 0,
    });
    Executable { index }
}

fn yielded(agent: &Agent, r: Value) -> (Value, bool) {
    let Value::Object(i) = r else { panic!() };
    let props = &agent.heap.objects[i].properties;
    let Value::Boolean(done) = props[1].value else { panic!() };
    (props[0].value, done)
}

#[test]
fn collection_drops_unreachable_entities() {
    let mut agent = Agent::new(top_level());
    let _garbage = plain_object(&mut agent, None, Value::Integer(1));
    let unused = echo_body(&mut agent);
    let _lost = Generator::new_suspended_start(&mut agent, unused, vec![], top_level());
    assert_eq!(agent.heap.objects.len(), INTRINSIC_COUNT + 1);
    assert_eq!(agent.heap.generators.len(), 1);
    let before = agent.intrinsics;
    collect(&mut agent);
    assert_eq!(agent.heap.objects.len(), INTRINSIC_COUNT);
    assert_eq!(agent.intrinsics, before);
    assert_eq!(agent.heap.generators.len(), 0);
    assert_eq!(agent.heap.executables.len(), 0);
    assert_eq!(agent.heap.strings.len(), BUILTIN_STRING_COUNT);
}

#[test]
fn scoped_generator_survives_collection() {
    let mut agent = Agent::new(top_level());
    let mut scope = ScopeToken::default_token();
    let mut gc = GcToken::default_token();
    let _garbage = plain_object(&mut agent, None, Value::Null);
    let proto = plain_object(&mut agent, None, Value::Integer(7));
    let payload = plain_object(&mut agent, Some(proto), Value::Integer(9));
    let _more_garbage = echo_body(&mut agent);
    let exe = echo_body(&mut agent);
    let _lost = Generator::new_suspended_start(&mut agent, exe, vec![], top_level());
    let g = Generator::new_suspended_start(
        &mut agent,
        exe,
        vec![Value::Object(payload), Value::Integer(3)],
        top_level(),
    );
    let ctx = Context::new(&mut scope, &mut gc);
    let scoped = g.scope(&mut agent, ctx.nogc());
    assert_eq!(scoped.get(&agent).get_index(), 1);

    let lists = collect(&mut agent);
    assert_eq!(lists.generators[1], 0);
    assert_eq!(agent.heap.generators.len(), 1);
    assert_eq!(agent.heap.executables.len(), 1);
    assert_eq!(agent.heap.objects.len(), INTRINSIC_COUNT + 2);

    let g = scoped.get(&agent);
    assert_eq!(g.get_index(), 0);
    let Some(GeneratorState::Suspended(rec)) = &agent.heap.generators[0].generator_state else {
        panic!("the generator should still be suspended")
    };
    assert_eq!(rec.executable, Executable { index: 0 });
    let VmOrArguments::Arguments(args) = &rec.vm_or_args else { panic!() };
    let Value::Object(p) = args[0] else { panic!() };
    assert_eq!(p, INTRINSIC_COUNT + 1);
    assert_eq!(agent.heap.objects[p].prototype, Some(INTRINSIC_COUNT));
    assert_eq!(agent.heap.objects[INTRINSIC_COUNT].properties[0].value, Value::Integer(7));

    let r = g.resume(&mut agent, Value::Undefined).unwrap();
    assert_eq!(yielded(&agent, r), (Value::Object(INTRINSIC_COUNT + 1), false));
    let r = g.resume(&mut agent, Value::Undefined).unwrap();
    assert_eq!(yielded(&agent, r), (Value::Integer(3), true));
}

#[test]
fn paused_machine_survives_collection() {
    let mut agent = Agent::new(top_level());
    let exe = echo_body(&mut agent);
    let _garbage = plain_object(&mut agent, None, Value::Null);
    let kept = plain_object(&mut agent, None, Value::Integer(5));
    let proto = plain_object(&mut agent, None, Value::Integer(6));
    let function = agent.create_object(ObjectHeapData {
        prototype: None,
        kind: ObjectKind::Ordinary,
        properties: vec![Property { key: STR_PROTOTYPE, value: Value::Object(proto) }],
    });
    let gv = evaluate_generator_body(&mut agent, function, exe, vec![Value::Object(kept), Value::Object(kept)]);
    let Value::Generator(gi) = gv else { panic!() };
    let g: Generator = Generator::from_index(gi);
    let r = g.resume(&mut agent, Value::Undefined).unwrap();
    assert_eq!(yielded(&agent, r), (Value::Object(kept), false));
    // Root the generator through the running context's `this`.
    agent.execution_context_stack[0].this_value = gv;
    collect(&mut agent);
    let Value::Generator(gi) = agent.execution_context_stack[0].this_value else { panic!() };
    let g: Generator = Generator::from_index(gi);
    assert_eq!(agent.heap.generators.len(), 1);
    // The intrinsics, the backing object, its prototype and the kept object
    // survive; the garbage, the function object and the iterator result do
    // not.
    assert_eq!(agent.heap.objects.len(), INTRINSIC_COUNT + 3);
    let backing = g.get_backing_object(&agent).unwrap();
    let p = agent.heap.objects[backing].prototype.unwrap();
    assert_eq!(agent.heap.objects[p].properties[0].value, Value::Integer(6));
    let r = g.resume(&mut agent, Value::Undefined).unwrap();
    let (v, done) = yielded(&agent, r);
    assert!(done);
    let Value::Object(k) = v else { panic!() };
    assert_eq!(agent.heap.objects[k].properties[0].value, Value::Integer(5));
}

#[test]
fn marking_a_generator_queues_it_once() {
    let mut agent = Agent::new(top_level());
    let exe = echo_body(&mut agent);
    let g = Generator::new_suspended_start(&mut agent, exe, vec![], top_level());
    let mut queues = WorkQueues {
        marks: Marks {
            objects: vec![false; agent.heap.objects.len()],
            generators: vec![false; 1],
            executables: vec![false; 1],
        },
        queue: vec![],
    };
    g.mark_values(&agent.heap, &mut queues);
    assert_eq!(queues.queue, vec![HeapRef::Generator(0)]);
    assert_eq!(queues.marks.generators, vec![true]);
    assert!(queues.marks.objects.iter().all(|m| !m));
    assert_eq!(queues.marks.executables, vec![false]);
    g.mark_values(&agent.heap, &mut queues);
    assert_eq!(queues.queue, vec![HeapRef::Generator(0)]);
    // The record marks its executable and nothing else.
    agent.heap.generators[0].mark_values(&agent.heap, &mut queues);
    assert_eq!(queues.queue, vec![HeapRef::Generator(0), HeapRef::Executable(0)]);
    assert!(queues.marks.objects.iter().all(|m| !m));
}
