use vstd::prelude::*;

use crate::heap::{
    error_model, iter_result_model, object_valid, value_valid, values_valid, Bounds, Heap,
    ObjectHeapData, ObjectKind, ObjectModel, Property, BUILTIN_STRING_COUNT, STR_DONE, STR_VALUE,
};
use crate::value::{ExceptionType, JsError, Value};

verus! {

/// The frame that a function runs in: its realm, environments, `this`
/// binding and active function.
#[derive(Clone, Copy, Debug, PartialEq, Eq, Structural)]
pub struct ExecutionContext {
    pub realm: usize,
    pub function: Option<usize>,
    pub this_value: Value,
    pub lexical_environment: usize,
    pub variable_environment: usize,
    pub private_environment: Option<usize>,
}

pub open spec fn context_valid(c: ExecutionContext, b: Bounds) -> bool {
    &&& (c.function matches Some(f) ==> f < b.objects)
    &&& value_valid(c.this_value, b)
}


pub open spec fn contexts_valid(s: Seq<ExecutionContext>, b: Bounds) -> bool {
    forall|i: int| 0 <= i < s.len() ==> context_valid(#[trigger] s[i], b)
}

/// The realm's intrinsic prototypes, as objects of the heap.
#[derive(Clone, Copy, Debug, PartialEq, Eq, Structural)]
pub struct Intrinsics {
    pub object_prototype: usize,
    pub boolean_prototype: usize,
    pub error_prototype: usize,
    pub weak_map_prototype: usize,
    pub generator_prototype: usize,
}

/// Names an intrinsic prototype: the default prototype of a new object.
#[derive(Clone, Copy, Debug, PartialEq, Eq, Structural)]
pub enum ProtoIntrinsics {
    Object,
    Boolean,
    Error,
    WeakMap,
    Generator,
}

impl Intrinsics {
    pub open spec fn spec_get(self, p: ProtoIntrinsics) -> usize {
        match p {
            ProtoIntrinsics::Object => self.object_prototype,
            ProtoIntrinsics::Boolean => self.boolean_prototype,
            ProtoIntrinsics::Error => self.error_prototype,
            ProtoIntrinsics::WeakMap => self.weak_map_prototype,
            ProtoIntrinsics::Generator => self.generator_prototype,
        }
    }

    #[verifier::when_used_as_spec(spec_get)]
    pub fn get(self, p: ProtoIntrinsics) -> (r: usize)
        ensures
            r == self.spec_get(p),
    {
        match p {
            ProtoIntrinsics::Object => self.object_prototype,
            ProtoIntrinsics::Boolean => self.boolean_prototype,
            ProtoIntrinsics::Error => self.error_prototype,
            ProtoIntrinsics::WeakMap => self.weak_map_prototype,
            ProtoIntrinsics::Generator => self.generator_prototype,
        }
    }

    pub open spec fn valid(self, b: Bounds) -> bool {
        &&& self.object_prototype < b.objects
        &&& self.boolean_prototype < b.objects
        &&& self.error_prototype < b.objects
        &&& self.weak_map_prototype < b.objects
        &&& self.generator_prototype < b.objects
    }
}

/// How many intrinsic prototypes a new agent creates.
pub const INTRINSIC_COUNT: usize = 5;

/// The state of one running program: its heap, its stack of execution
/// contexts, the values rooted by scoped handles, and the intrinsics.
pub struct Agent {
    pub heap: Heap,
    pub execution_context_stack: Vec<ExecutionContext>,
    pub scoped_roots: Vec<Value>,
    pub intrinsics: Intrinsics,
}

impl Agent {
    pub open spec fn wf(&self) -> bool {
        &&& self.heap.wf()
        &&& contexts_valid(self.execution_context_stack@, self.heap.bounds())
        &&& values_valid(self.scoped_roots@, self.heap.bounds())
        &&& self.intrinsics.valid(self.heap.bounds())
    }

    /// An agent whose heap holds the intrinsic prototypes alone, running in
    /// the given top-level context. `%Object.prototype%` comes first and has
    /// no prototype; the others follow and inherit from it.
    pub fn new(context: ExecutionContext) -> (r: Agent)
        requires
            context_valid(
                context,
                Bounds { strings: BUILTIN_STRING_COUNT as nat, objects: 0, generators: 0, executables: 0 },
            ),
        ensures
            r.wf(),
            r.heap.strings@.len() == BUILTIN_STRING_COUNT,
            r.heap.objects@.len() == INTRINSIC_COUNT,
            r.intrinsics == (Intrinsics {
                object_prototype: 0,
                boolean_prototype: 1,
                error_prototype: 2,
                weak_map_prototype: 3,
                generator_prototype: 4,
            }),
            r.heap.objects_model()[0] == (ObjectModel { prototype: None, kind: ObjectKind::Ordinary, properties: Seq::empty() }),
            forall|i: int|
                1 <= i < INTRINSIC_COUNT ==> #[trigger] r.heap.objects_model()[i] == (ObjectModel {
                    prototype: Some(0),
                    kind: ObjectKind::Ordinary,
                    properties: Seq::empty(),
                }),
            r.heap.generators@.len() == 0,
            r.heap.executables@.len() == 0,
            r.execution_context_stack@ == seq![context],
            r.scoped_roots@.len() == 0,
    {
        let mut heap = Heap::new();
        let op = heap.create_object(ObjectHeapData { prototype: None, kind: ObjectKind::Ordinary, properties: Vec::new() });
        let mut k: usize = 1;
        while k < INTRINSIC_COUNT
            invariant
                1 <= k <= INTRINSIC_COUNT,
                op == 0,
                heap.wf(),
                heap.strings@.len() == BUILTIN_STRING_COUNT,
                heap.objects@.len() == k,
                heap.generators@.len() == 0,
                heap.executables@.len() == 0,
                heap.objects_model()[0] == (ObjectModel { prototype: None, kind: ObjectKind::Ordinary, properties: Seq::empty() }),
                forall|i: int|
                    1 <= i < k ==> #[trigger] heap.objects_model()[i] == (ObjectModel {
                        prototype: Some(0),
                        kind: ObjectKind::Ordinary,
                        properties: Seq::empty(),
                    }),
            decreases INTRINSIC_COUNT - k,
        {
            let data = ObjectHeapData { prototype: Some(op), kind: ObjectKind::Ordinary, properties: Vec::new() };
            assert(data@.properties =~= Seq::<Property>::empty());
            heap.create_object(data);
            k = k + 1;
        }
        let mut stack: Vec<ExecutionContext> = Vec::new();
        stack.push(context);
        assert(stack@ =~= seq![context]);
        let intrinsics = Intrinsics {
            object_prototype: 0,
            boolean_prototype: 1,
            error_prototype: 2,
            weak_map_prototype: 3,
            generator_prototype: 4,
        };
        Agent { heap, execution_context_stack: stack, scoped_roots: Vec::new(), intrinsics }
    }

    pub fn running_execution_context(&self) -> (r: ExecutionContext)
        requires
            self.execution_context_stack@.len() > 0,
        ensures
            r == self.execution_context_stack@.last(),
    {
        self.execution_context_stack[self.execution_context_stack.len() - 1]
    }

    /// Adds an object to the heap; nothing else changes.
    pub fn create_object(&mut self, data: ObjectHeapData) -> (r: usize)
        requires
            old(self).wf(),
            object_valid(data@, old(self).heap.bounds()),
        ensures
            final(self).wf(),
            final(self).intrinsics == old(self).intrinsics,
            r == old(self).heap.objects@.len(),
            final(self).heap.objects_model() == old(self).heap.objects_model().push(data@),
            final(self).heap.strings@ == old(self).heap.strings@,
            final(self).heap.generators@ == old(self).heap.generators@,
            final(self).heap.executables@ == old(self).heap.executables@,
            final(self).execution_context_stack@ == old(self).execution_context_stack@,
            final(self).scoped_roots@ == old(self).scoped_roots@,
    {
        let ghost b1 = self.heap.bounds();
        let r = self.heap.create_object(data);
        proof {
            let b2 = self.heap.bounds();
            assert forall|i: int| 0 <= i < self.execution_context_stack@.len() implies context_valid(
                #[trigger] self.execution_context_stack@[i],
                b2,
            ) by {
                assert(context_valid(self.execution_context_stack@[i], b1));
            }
            lemma_values_grow_here(self.scoped_roots@, b1, b2);
        }
        r
    }

    /// Creates an ordinary object `{ value, done }`.
    pub fn create_iter_result_object(&mut self, value: Value, done: bool) -> (r: Value)
        requires
            old(self).wf(),
            value_valid(value, old(self).heap.bounds()),
        ensures
            final(self).wf(),
            final(self).intrinsics == old(self).intrinsics,
            r == Value::Object(old(self).heap.objects.len()),
            final(self).heap.objects_model() == old(self).heap.objects_model().push(iter_result_model(value, done)),
            final(self).heap.strings@ == old(self).heap.strings@,
            final(self).heap.generators@ == old(self).heap.generators@,
            final(self).heap.executables@ == old(self).heap.executables@,
            final(self).execution_context_stack@ == old(self).execution_context_stack@,
            final(self).scoped_roots@ == old(self).scoped_roots@,
    {
        let mut properties: Vec<Property> = Vec::new();
        properties.push(Property { key: STR_VALUE, value });
        properties.push(Property { key: STR_DONE, value: Value::Boolean(done) });
        assert(properties@ =~= iter_result_model(value, done).properties);
        let data = ObjectHeapData { prototype: None, kind: ObjectKind::Ordinary, properties };
        let i = self.create_object(data);
        Value::Object(i)
    }

    /// Creates a native error object with a message from the string arena
    /// and returns it as a throw completion.
    pub fn throw_exception_with_static_message(&mut self, kind: ExceptionType, message: usize) -> (r: JsError)
        requires
            old(self).wf(),
            message < old(self).heap.strings@.len(),
        ensures
            final(self).wf(),
            final(self).intrinsics == old(self).intrinsics,
            r.value == Value::Object(old(self).heap.objects.len()),
            final(self).heap.objects_model() == old(self).heap.objects_model().push(error_model(kind, message)),
            final(self).heap.strings@ == old(self).heap.strings@,
            final(self).heap.generators@ == old(self).heap.generators@,
            final(self).heap.executables@ == old(self).heap.executables@,
            final(self).execution_context_stack@ == old(self).execution_context_stack@,
            final(self).scoped_roots@ == old(self).scoped_roots@,
    {
        let data = ObjectHeapData {
            prototype: None,
            kind: ObjectKind::Error { kind, message: Some(message), cause: None },
            properties: Vec::new(),
        };
        assert(data@.properties =~= error_model(kind, message).properties);
        let i = self.create_object(data);
        JsError::new(Value::Object(i))
    }
}

proof fn lemma_values_grow_here(s: Seq<Value>, b1: Bounds, b2: Bounds)
    requires
        values_valid(s, b1),
        b1.le(b2),
    ensures
        values_valid(s, b2),
{
}

} // verus!
