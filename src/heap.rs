use vstd::prelude::*;

use crate::generator::{generator_valid, suspended_executable, GeneratorHeapData, GeneratorModel};
use crate::value::{ExceptionType, Value};
use crate::vm::{executable_valid, is_generator_body, ExecutableHeapData, ExecutableModel};

verus! {

/// Indices of the strings that every heap holds from its creation on.
pub const STR_VALUE: usize = 0;

pub const STR_DONE: usize = 1;

pub const STR_CAUSE: usize = 2;

pub const STR_GENERATOR_RUNNING: usize = 3;

pub const STR_NOT_AN_INTEGER: usize = 4;

pub const STR_EMPTY: usize = 5;

pub const STR_REQUIRES_NEW: usize = 6;

pub const STR_PROTOTYPE: usize = 7;

pub const STR_TRUE: usize = 8;

pub const STR_FALSE: usize = 9;

pub const STR_NULL: usize = 10;

pub const STR_NOT_PRIMITIVE: usize = 11;

pub const STR_SET_NOT_CALLABLE: usize = 12;

pub const STR_UNDEFINED: usize = 13;

pub const STR_SET: usize = 14;

pub const BUILTIN_STRING_COUNT: usize = 15;

/// How many entities each arena holds: a value is valid against a bound
/// when every index it carries is inside the arena of its kind.
pub struct Bounds {
    pub strings: nat,
    pub objects: nat,
    pub generators: nat,
    pub executables: nat,
}

impl Bounds {
    pub open spec fn le(self, other: Bounds) -> bool {
        &&& self.strings <= other.strings
        &&& self.objects <= other.objects
        &&& self.generators <= other.generators
        &&& self.executables <= other.executables
    }
}

pub open spec fn value_valid(v: Value, b: Bounds) -> bool {
    match v {
        Value::String(i) => i < b.strings,
        Value::Object(i) => i < b.objects,
        Value::Generator(i) => i < b.generators,
        _ => true,
    }
}

pub open spec fn option_value_valid(v: Option<Value>, b: Bounds) -> bool {
    match v {
        Some(v) => value_valid(v, b),
        None => true,
    }
}

pub open spec fn values_valid(s: Seq<Value>, b: Bounds) -> bool {
    forall|i: int| 0 <= i < s.len() ==> value_valid(#[trigger] s[i], b)
}

pub proof fn lemma_values_grow(s: Seq<Value>, b1: Bounds, b2: Bounds)
    requires
        values_valid(s, b1),
        b1.le(b2),
    ensures
        values_valid(s, b2),
{
}

/// A data property of an ordinary object; keys are strings of the heap.
#[derive(Clone, Copy, Debug, PartialEq, Eq, Structural)]
pub struct Property {
    pub key: usize,
    pub value: Value,
}

/// What distinguishes exotic objects from plain ones.
#[derive(Clone, Copy, Debug, PartialEq, Eq, Structural)]
pub enum ObjectKind {
    Ordinary,
    Boolean(bool),
    Error { kind: ExceptionType, message: Option<usize>, cause: Option<Value> },
    WeakMap,
}

#[derive(Debug)]
pub struct ObjectHeapData {
    pub prototype: Option<usize>,
    pub kind: ObjectKind,
    pub properties: Vec<Property>,
}

/// The mathematical model of an object.
pub struct ObjectModel {
    pub prototype: Option<usize>,
    pub kind: ObjectKind,
    pub properties: Seq<Property>,
}

impl View for ObjectHeapData {
    type V = ObjectModel;

    open spec fn view(&self) -> ObjectModel {
        ObjectModel { prototype: self.prototype, kind: self.kind, properties: self.properties@ }
    }
}

pub open spec fn kind_valid(k: ObjectKind, b: Bounds) -> bool {
    match k {
        ObjectKind::Error { message, cause, .. } => {
            &&& (message matches Some(m) ==> m < b.strings)
            &&& option_value_valid(cause, b)
        },
        _ => true,
    }
}

pub open spec fn object_valid(o: ObjectModel, b: Bounds) -> bool {
    &&& (o.prototype matches Some(p) ==> p < b.objects)
    &&& kind_valid(o.kind, b)
    &&& forall|i: int|
        0 <= i < o.properties.len() ==> {
            &&& (#[trigger] o.properties[i]).key < b.strings
            &&& value_valid(o.properties[i].value, b)
        }
}

pub proof fn lemma_object_grow(o: ObjectModel, b1: Bounds, b2: Bounds)
    requires
        object_valid(o, b1),
        b1.le(b2),
    ensures
        object_valid(o, b2),
{
}

/// The model of an iterator result object `{ value, done }`.
pub open spec fn iter_result_model(value: Value, done: bool) -> ObjectModel {
    ObjectModel {
        prototype: None,
        kind: ObjectKind::Ordinary,
        properties: seq![
            Property { key: STR_VALUE, value },
            Property { key: STR_DONE, value: Value::Boolean(done) },
        ],
    }
}

/// The model of a native error object with a message.
pub open spec fn error_model(kind: ExceptionType, message: usize) -> ObjectModel {
    ObjectModel {
        prototype: None,
        kind: ObjectKind::Error { kind, message: Some(message), cause: None },
        properties: Seq::empty(),
    }
}


/// The arenas of one agent. Strings are never reclaimed; the other arenas
/// are compacted by a collection.
pub struct Heap {
    pub strings: Vec<String>,
    pub objects: Vec<ObjectHeapData>,
    pub generators: Vec<GeneratorHeapData>,
    pub executables: Vec<ExecutableHeapData>,
}

impl Heap {
    pub open spec fn bounds(&self) -> Bounds {
        Bounds {
            strings: self.strings@.len(),
            objects: self.objects@.len(),
            generators: self.generators@.len(),
            executables: self.executables@.len(),
        }
    }

    pub open spec fn objects_model(&self) -> Seq<ObjectModel> {
        self.objects@.map_values(|o: ObjectHeapData| o@)
    }

    pub open spec fn generators_model(&self) -> Seq<GeneratorModel> {
        self.generators@.map_values(|g: GeneratorHeapData| g@)
    }

    pub open spec fn executables_model(&self) -> Seq<ExecutableModel> {
        self.executables@.map_values(|e: ExecutableHeapData| e@)
    }

    /// Every index held anywhere in the heap is inside its arena, and every
    /// generator runs a plain generator body.
    pub open spec fn wf(&self) -> bool {
        heap_model_wf(
            self.strings@.len(),
            self.objects_model(),
            self.generators_model(),
            self.executables_model(),
        )
    }

    pub fn new() -> (r: Heap)
        ensures
            r.wf(),
            r.strings@.len() == BUILTIN_STRING_COUNT,
            r.objects@.len() == 0,
            r.generators@.len() == 0,
            r.executables@.len() == 0,
    {
        let mut strings: Vec<String> = Vec::new();
        strings.push("value".to_owned());
        strings.push("done".to_owned());
        strings.push("cause".to_owned());
        strings.push("The generator is currently running".to_owned());
        strings.push("Cannot add non-integer values".to_owned());
        strings.push("".to_owned());
        strings.push("Constructor WeakMap requires 'new'".to_owned());
        strings.push("prototype".to_owned());
        strings.push("true".to_owned());
        strings.push("false".to_owned());
        strings.push("null".to_owned());
        strings.push("Cannot convert object to primitive value".to_owned());
        strings.push("WeakMap.prototype.set is not callable".to_owned());
        strings.push("undefined".to_owned());
        strings.push("set".to_owned());
        let h = Heap { strings, objects: Vec::new(), generators: Vec::new(), executables: Vec::new() };
        assert(h.objects_model() =~= Seq::empty());
        assert(h.generators_model() =~= Seq::empty());
        assert(h.executables_model() =~= Seq::empty());
        h
    }

    /// Adds an object; it gets the next free index.
    pub fn create_object(&mut self, data: ObjectHeapData) -> (r: usize)
        requires
            old(self).wf(),
            object_valid(data@, old(self).bounds()),
        ensures
            final(self).wf(),
            r == old(self).objects@.len(),
            final(self).objects_model() == old(self).objects_model().push(data@),
            final(self).strings@ == old(self).strings@,
            final(self).generators@ == old(self).generators@,
            final(self).executables@ == old(self).executables@,
    {
        let r = self.objects.len();
        let ghost old_heap = *self;
        self.objects.push(data);
        assert(self.objects_model() =~= old_heap.objects_model().push(data@));
        proof {
            lemma_object_grow(data@, old_heap.bounds(), self.bounds());
            lemma_heap_grow(old_heap, *self);
        }
        r
    }

    /// Adds a string; it gets the next free index.
    pub fn create_string(&mut self, s: String) -> (r: usize)
        requires
            old(self).wf(),
        ensures
            final(self).wf(),
            r == old(self).strings@.len(),
            final(self).strings@ == old(self).strings@.push(s),
            final(self).objects@ == old(self).objects@,
            final(self).generators@ == old(self).generators@,
            final(self).executables@ == old(self).executables@,
    {
        let r = self.strings.len();
        let ghost old_heap = *self;
        self.strings.push(s);
        proof {
            lemma_heap_grow(old_heap, *self);
        }
        r
    }

    /// Adds an executable; it gets the next free index.
    pub fn create_executable(&mut self, data: ExecutableHeapData) -> (r: usize)
        requires
            old(self).wf(),
            executable_valid(data@, old(self).bounds()),
        ensures
            final(self).wf(),
            r == old(self).executables@.len(),
            final(self).executables_model() == old(self).executables_model().push(data@),
            final(self).strings@ == old(self).strings@,
            final(self).objects@ == old(self).objects@,
            final(self).generators@ == old(self).generators@,
    {
        let r = self.executables.len();
        let ghost old_heap = *self;
        self.executables.push(data);
        assert(self.executables_model() =~= old_heap.executables_model().push(data@));
        proof {
            lemma_values_grow(data@.constants, old_heap.bounds(), self.bounds());
            lemma_heap_grow(old_heap, *self);
        }
        r
    }
}

pub open spec fn heap_model_wf(
    n_strings: nat,
    objects: Seq<ObjectModel>,
    generators: Seq<GeneratorModel>,
    executables: Seq<ExecutableModel>,
) -> bool {
    let b = Bounds {
        strings: n_strings,
        objects: objects.len(),
        generators: generators.len(),
        executables: executables.len(),
    };
    &&& n_strings >= BUILTIN_STRING_COUNT
    &&& forall|i: int| 0 <= i < objects.len() ==> object_valid(#[trigger] objects[i], b)
    &&& forall|i: int| 0 <= i < generators.len() ==> generator_valid(#[trigger] generators[i], b)
    &&& forall|i: int| 0 <= i < executables.len() ==> executable_valid(#[trigger] executables[i], b)
    &&& forall|i: int|
        0 <= i < generators.len() ==> (#[trigger] suspended_executable(generators[i]) matches Some(x)
            ==> is_generator_body(executables[x as int]))
}

/// A heap whose arenas only grew, keeping every old entity as it was,
/// stays well formed.
pub proof fn lemma_heap_grow(h1: Heap, h2: Heap)
    requires
        h1.wf(),
        h1.strings@.len() <= h2.strings@.len(),
        h1.objects@.len() <= h2.objects@.len(),
        h1.generators@.len() <= h2.generators@.len(),
        h1.executables@.len() <= h2.executables@.len(),
        forall|i: int| 0 <= i < h1.objects@.len() ==> h2.objects@[i] == h1.objects@[i],
        forall|i: int| 0 <= i < h1.generators@.len() ==> h2.generators@[i] == h1.generators@[i],
        forall|i: int| 0 <= i < h1.executables@.len() ==> h2.executables@[i] == h1.executables@[i],
        forall|i: int|
            h1.objects@.len() <= i < h2.objects@.len() ==> object_valid(#[trigger] h2.objects@[i]@, h2.bounds()),
        forall|i: int|
            h1.generators@.len() <= i < h2.generators@.len() ==> generator_valid(#[trigger] h2.generators@[i]@, h2.bounds()),
        forall|i: int|
            h1.generators@.len() <= i < h2.generators@.len() ==> (#[trigger] suspended_executable(h2.generators@[i]@) matches Some(x)
                ==> x < h2.executables@.len() && is_generator_body(h2.executables@[x as int]@)),
        forall|i: int|
            h1.executables@.len() <= i < h2.executables@.len() ==> executable_valid(#[trigger] h2.executables@[i]@, h2.bounds()),
    ensures
        h2.wf(),
{
    let b1 = h1.bounds();
    let b2 = h2.bounds();
    assert forall|i: int| 0 <= i < h2.objects@.len() implies object_valid(#[trigger] h2.objects_model()[i], b2) by {
        if i < h1.objects@.len() {
            assert(object_valid(h1.objects_model()[i], b1));
            lemma_object_grow(h1.objects_model()[i], b1, b2);
        }
    }
    assert forall|i: int| 0 <= i < h2.generators@.len() implies generator_valid(#[trigger] h2.generators_model()[i], b2) by {
        if i < h1.generators@.len() {
            assert(generator_valid(h1.generators_model()[i], b1));
            crate::generator::lemma_generator_grow(h1.generators_model()[i], b1, b2);
        }
    }
    assert forall|i: int| 0 <= i < h2.executables@.len() implies executable_valid(#[trigger] h2.executables_model()[i], b2) by {
        if i < h1.executables@.len() {
            assert(executable_valid(h1.executables_model()[i], b1));
        }
    }
    assert forall|i: int| 0 <= i < h2.generators@.len() implies (#[trigger] suspended_executable(h2.generators_model()[i]) matches Some(x)
        ==> is_generator_body(h2.executables_model()[x as int])) by {
        if i < h1.generators@.len() {
            assert(suspended_executable(h1.generators_model()[i]) matches Some(x)
                ==> is_generator_body(h1.executables_model()[x as int]));
            if let Some(x) = suspended_executable(h1.generators_model()[i]) {
                assert(generator_valid(h1.generators_model()[i], b1));
                assert(x < b1.executables);
            }
        }
    }
}

} // verus!
