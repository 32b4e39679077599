use vstd::prelude::*;

use crate::execution::{Agent, ExecutionContext, Intrinsics};
use crate::execution::context_valid;
use crate::generator::{
    Generator,
    generator_valid, suspended_valid,
    GeneratorHeapData, GeneratorModel, GeneratorState, GeneratorStateModel, SuspendedGeneratorState,
    SuspendedModel, VmOrArguments, VmOrArgumentsModel,
};
use crate::heap::{object_valid, value_valid, values_valid, Bounds, Heap, ObjectHeapData, ObjectKind, ObjectModel, Property};
use crate::value::Value;
use crate::vm::{ExecutableHeapData, ExecutableModel, SuspendedVm, VmState};

verus! {

/// An entity of a compacted arena, as queued for marking.
#[derive(Clone, Copy, Debug, PartialEq, Eq, Structural)]
pub enum HeapRef {
    Object(usize),
    Generator(usize),
    Executable(usize),
}

/// One mark bit per entity of each compacted arena.
pub struct Marks {
    pub objects: Vec<bool>,
    pub generators: Vec<bool>,
    pub executables: Vec<bool>,
}

pub struct MarksModel {
    pub objects: Seq<bool>,
    pub generators: Seq<bool>,
    pub executables: Seq<bool>,
}

impl View for Marks {
    type V = MarksModel;

    open spec fn view(&self) -> MarksModel {
        MarksModel { objects: self.objects@, generators: self.generators@, executables: self.executables@ }
    }
}

pub open spec fn count_false(s: Seq<bool>) -> nat
    decreases s.len(),
{
    if s.len() == 0 {
        0
    } else {
        count_false(s.drop_last()) + if s.last() {
            0nat
        } else {
            1nat
        }
    }
}

pub open spec fn count_true(s: Seq<bool>) -> nat
    decreases s.len(),
{
    if s.len() == 0 {
        0
    } else {
        count_true(s.drop_last()) + if s.last() {
            1nat
        } else {
            0nat
        }
    }
}

proof fn lemma_count_false_mark(s: Seq<bool>, i: int)
    requires
        0 <= i < s.len(),
        !s[i],
    ensures
        count_false(s.update(i, true)) + 1 == count_false(s),
    decreases s.len(),
{
    let t = s.update(i, true);
    if i < s.len() - 1 {
        assert(t.drop_last() =~= s.drop_last().update(i, true));
        lemma_count_false_mark(s.drop_last(), i);
    } else {
        assert(t.drop_last() =~= s.drop_last());
    }
}

pub open spec fn unmarked(m: MarksModel) -> nat {
    count_false(m.objects) + count_false(m.generators) + count_false(m.executables)
}

pub open spec fn ref_marked(r: HeapRef, m: MarksModel) -> bool {
    match r {
        HeapRef::Object(i) => i < m.objects.len() && m.objects[i as int],
        HeapRef::Generator(i) => i < m.generators.len() && m.generators[i as int],
        HeapRef::Executable(i) => i < m.executables.len() && m.executables[i as int],
    }
}

pub open spec fn value_marked(v: Value, m: MarksModel) -> bool {
    match v {
        Value::Object(i) => ref_marked(HeapRef::Object(i), m),
        Value::Generator(i) => ref_marked(HeapRef::Generator(i), m),
        _ => true,
    }
}

pub open spec fn values_marked(s: Seq<Value>, m: MarksModel) -> bool {
    forall|j: int| 0 <= j < s.len() ==> value_marked(#[trigger] s[j], m)
}

pub open spec fn option_object_marked(o: Option<usize>, m: MarksModel) -> bool {
    o matches Some(i) ==> ref_marked(HeapRef::Object(i), m)
}

pub open spec fn context_marked(c: ExecutionContext, m: MarksModel) -> bool {
    option_object_marked(c.function, m) && value_marked(c.this_value, m)
}

pub open spec fn object_children_marked(o: ObjectModel, m: MarksModel) -> bool {
    &&& option_object_marked(o.prototype, m)
    &&& (o.kind matches ObjectKind::Error { cause: Some(c), .. } ==> value_marked(c, m))
    &&& forall|j: int| 0 <= j < o.properties.len() ==> value_marked(#[trigger] o.properties[j].value, m)
}

pub open spec fn suspended_children_marked(r: SuspendedModel, m: MarksModel) -> bool {
    &&& ref_marked(HeapRef::Executable(r.executable.index), m)
    &&& context_marked(r.execution_context, m)
    &&& match r.vm_or_args {
        VmOrArgumentsModel::Vm(s) => values_marked(s.stack, m) && values_marked(s.locals, m) && values_marked(s.arguments, m),
        VmOrArgumentsModel::Arguments(a) => values_marked(a, m),
    }
}

pub open spec fn generator_children_marked(g: GeneratorModel, m: MarksModel) -> bool {
    &&& option_object_marked(g.object_index, m)
    &&& (g.state matches Some(GeneratorStateModel::Suspended(r)) ==> suspended_children_marked(r, m))
}

pub open spec fn executable_children_marked(e: ExecutableModel, m: MarksModel) -> bool {
    values_marked(e.constants, m)
}

pub open spec fn children_marked(h: Heap, r: HeapRef, m: MarksModel) -> bool {
    match r {
        HeapRef::Object(i) => object_children_marked(h.objects_model()[i as int], m),
        HeapRef::Generator(i) => generator_children_marked(h.generators_model()[i as int], m),
        HeapRef::Executable(i) => executable_children_marked(h.executables_model()[i as int], m),
    }
}

/// The marking invariant: every marked entity is queued or has all its
/// children marked, and every queued entity is marked.
pub open spec fn mark_inv(h: Heap, m: MarksModel, q: Seq<HeapRef>) -> bool {
    &&& m.objects.len() == h.objects@.len()
    &&& m.generators.len() == h.generators@.len()
    &&& m.executables.len() == h.executables@.len()
    &&& forall|k: int| 0 <= k < q.len() ==> ref_marked(#[trigger] q[k], m)
    &&& forall|r: HeapRef| #[trigger] ref_marked(r, m) ==> q.contains(r) || children_marked(h, r, m)
}

/// Marks only grow.
pub open spec fn marks_grow(m1: MarksModel, m2: MarksModel) -> bool {
    &&& m1.objects.len() == m2.objects.len()
    &&& m1.generators.len() == m2.generators.len()
    &&& m1.executables.len() == m2.executables.len()
    &&& forall|r: HeapRef| #[trigger] ref_marked(r, m1) ==> ref_marked(r, m2)
}

/// A marking step either marked something new or left the queue alone.
pub open spec fn mark_step(m1: MarksModel, q1: Seq<HeapRef>, m2: MarksModel, q2: Seq<HeapRef>) -> bool {
    &&& marks_grow(m1, m2)
    &&& unmarked(m2) <= unmarked(m1)
    &&& (unmarked(m2) == unmarked(m1) ==> q2 == q1)
    &&& q1.len() <= q2.len()
    &&& forall|k: int| 0 <= k < q1.len() ==> #[trigger] q2[k] == q1[k]
}


/// The entities that a value refers to.
pub open spec fn value_refs(v: Value) -> Set<HeapRef> {
    match v {
        Value::Object(i) => set![HeapRef::Object(i)],
        Value::Generator(i) => set![HeapRef::Generator(i)],
        _ => Set::empty(),
    }
}

pub open spec fn values_refs(s: Seq<Value>) -> Set<HeapRef> {
    Set::new(|r: HeapRef| exists|j: int| 0 <= j < s.len() && value_refs(#[trigger] s[j]).contains(r))
}

pub open spec fn option_object_refs(o: Option<usize>) -> Set<HeapRef> {
    match o {
        Some(i) => set![HeapRef::Object(i)],
        None => Set::empty(),
    }
}

pub open spec fn context_refs(c: ExecutionContext) -> Set<HeapRef> {
    option_object_refs(c.function).union(value_refs(c.this_value))
}

pub open spec fn vm_or_args_refs(v: VmOrArgumentsModel) -> Set<HeapRef> {
    match v {
        VmOrArgumentsModel::Vm(s) => values_refs(s.stack).union(values_refs(s.locals)).union(values_refs(s.arguments)),
        VmOrArgumentsModel::Arguments(a) => values_refs(a),
    }
}

/// What a suspended record refers to: its executable, the indices in its
/// context, and its paused machine or its arguments.
pub open spec fn suspended_refs(r: SuspendedModel) -> Set<HeapRef> {
    set![HeapRef::Executable(r.executable.index)].union(context_refs(r.execution_context)).union(
        vm_or_args_refs(r.vm_or_args),
    )
}

/// What a generator refers to: its backing object and, while suspended,
/// what its record refers to.
pub open spec fn generator_refs(g: GeneratorModel) -> Set<HeapRef> {
    option_object_refs(g.object_index).union(
        match g.state {
            Some(GeneratorStateModel::Suspended(r)) => suspended_refs(r),
            _ => Set::empty(),
        },
    )
}

pub open spec fn cause_refs(k: ObjectKind) -> Set<HeapRef> {
    match k {
        ObjectKind::Error { cause: Some(c), .. } => value_refs(c),
        _ => Set::empty(),
    }
}

pub open spec fn properties_refs(p: Seq<Property>) -> Set<HeapRef> {
    Set::new(|r: HeapRef| exists|j: int| 0 <= j < p.len() && value_refs((#[trigger] p[j]).value).contains(r))
}

/// What an object refers to: its prototype, its error cause and its
/// property values.
pub open spec fn object_refs(o: ObjectModel) -> Set<HeapRef> {
    option_object_refs(o.prototype).union(cause_refs(o.kind)).union(properties_refs(o.properties))
}

/// The children of entity `r` of heap `h`.
pub open spec fn entity_refs(h: Heap, r: HeapRef) -> Set<HeapRef> {
    match r {
        HeapRef::Object(i) => object_refs(h.objects_model()[i as int]),
        HeapRef::Generator(i) => generator_refs(h.generators_model()[i as int]),
        HeapRef::Executable(i) => values_refs(h.executables_model()[i as int].constants),
    }
}

/// From (`m1`, `q1`) to (`m2`, `q2`) exactly the entities of `c` got marked,
/// and the queue grew only by entities of `c` that were not marked before.
pub open spec fn grew_by(m1: MarksModel, q1: Seq<HeapRef>, m2: MarksModel, q2: Seq<HeapRef>, c: Set<HeapRef>) -> bool {
    &&& forall|r: HeapRef| #[trigger] ref_marked(r, m2) == (ref_marked(r, m1) || c.contains(r))
    &&& q1.len() <= q2.len()
    &&& forall|k: int| 0 <= k < q1.len() ==> #[trigger] q2[k] == q1[k]
    &&& forall|k: int| q1.len() <= k < q2.len() ==> c.contains(#[trigger] q2[k]) && !ref_marked(q2[k], m1)
}

proof fn lemma_grew_trans(
    m1: MarksModel,
    q1: Seq<HeapRef>,
    m2: MarksModel,
    q2: Seq<HeapRef>,
    m3: MarksModel,
    q3: Seq<HeapRef>,
    c1: Set<HeapRef>,
    c2: Set<HeapRef>,
)
    requires
        grew_by(m1, q1, m2, q2, c1),
        grew_by(m2, q2, m3, q3, c2),
    ensures
        grew_by(m1, q1, m3, q3, c1.union(c2)),
{
    assert forall|r: HeapRef| #[trigger] ref_marked(r, m3) == (ref_marked(r, m1) || c1.union(c2).contains(r)) by {
        assert(ref_marked(r, m3) == (ref_marked(r, m2) || c2.contains(r)));
        assert(ref_marked(r, m2) == (ref_marked(r, m1) || c1.contains(r)));
    }
    assert forall|k: int| 0 <= k < q1.len() implies #[trigger] q3[k] == q1[k] by {
        assert(q2[k] == q1[k]);
        assert(q3[k] == q2[k]);
    }
    assert forall|k: int| q1.len() <= k < q3.len() implies c1.union(c2).contains(#[trigger] q3[k]) && !ref_marked(q3[k], m1) by {
        if k < q2.len() {
            assert(q3[k] == q2[k]);
            assert(c1.contains(q2[k]) && !ref_marked(q2[k], m1));
        } else {
            assert(c2.contains(q3[k]) && !ref_marked(q3[k], m2));
            assert(ref_marked(q3[k], m2) == (ref_marked(q3[k], m1) || c1.contains(q3[k])));
        }
    }
}

proof fn lemma_grew_refl(m: MarksModel, q: Seq<HeapRef>)
    ensures
        grew_by(m, q, m, q, Set::empty()),
{
}

/// Every entity of `c` is marked in `m`.
pub open spec fn refs_marked(c: Set<HeapRef>, m: MarksModel) -> bool {
    forall|r: HeapRef| #[trigger] c.contains(r) ==> ref_marked(r, m)
}

proof fn lemma_values_refs_marked(s: Seq<Value>, m: MarksModel)
    requires
        values_marked(s, m),
    ensures
        refs_marked(values_refs(s), m),
{
    assert forall|r: HeapRef| #[trigger] values_refs(s).contains(r) implies ref_marked(r, m) by {
        let j = choose|j: int| 0 <= j < s.len() && value_refs(#[trigger] s[j]).contains(r);
        assert(value_marked(s[j], m));
    }
}

proof fn lemma_suspended_refs_marked(rec: SuspendedModel, m: MarksModel)
    requires
        suspended_children_marked(rec, m),
    ensures
        refs_marked(suspended_refs(rec), m),
{
    match rec.vm_or_args {
        VmOrArgumentsModel::Vm(s) => {
            lemma_values_refs_marked(s.stack, m);
            lemma_values_refs_marked(s.locals, m);
            lemma_values_refs_marked(s.arguments, m);
        },
        VmOrArgumentsModel::Arguments(a) => {
            lemma_values_refs_marked(a, m);
        },
    }
}

proof fn lemma_entity_refs_marked(h: Heap, r: HeapRef, m: MarksModel)
    requires
        children_marked(h, r, m),
    ensures
        refs_marked(entity_refs(h, r), m),
{
    match r {
        HeapRef::Object(i) => {
            let o = h.objects_model()[i as int];
            assert forall|x: HeapRef| #[trigger] properties_refs(o.properties).contains(x) implies ref_marked(x, m) by {
                let j = choose|j: int| 0 <= j < o.properties.len() && value_refs((#[trigger] o.properties[j]).value).contains(x);
                assert(value_marked(o.properties[j].value, m));
            }
        },
        HeapRef::Generator(i) => {
            let g = h.generators_model()[i as int];
            if let Some(GeneratorStateModel::Suspended(rec)) = g.state {
                lemma_suspended_refs_marked(rec, m);
            }
        },
        HeapRef::Executable(i) => {
            lemma_values_refs_marked(h.executables_model()[i as int].constants, m);
        },
    }
}

proof fn lemma_values_refs_step(s: Seq<Value>, k: int)
    requires
        0 <= k < s.len(),
    ensures
        values_refs(s.take(k + 1)) == values_refs(s.take(k)).union(value_refs(s[k])),
{
    let a = s.take(k + 1);
    let b = s.take(k);
    assert forall|r: HeapRef| #[trigger] values_refs(a).contains(r) == values_refs(b).union(value_refs(s[k])).contains(r) by {
        if values_refs(a).contains(r) {
            let j = choose|j: int| 0 <= j < a.len() && value_refs(#[trigger] a[j]).contains(r);
            if j < k {
                assert(b[j] == a[j]);
            }
        }
        if values_refs(b).contains(r) {
            let j = choose|j: int| 0 <= j < b.len() && value_refs(#[trigger] b[j]).contains(r);
            assert(a[j] == b[j]);
        }
        if value_refs(s[k]).contains(r) {
            assert(a[k] == s[k]);
        }
    }
    assert(values_refs(a) =~= values_refs(b).union(value_refs(s[k])));
}

proof fn lemma_properties_refs_step(p: Seq<Property>, k: int)
    requires
        0 <= k < p.len(),
    ensures
        properties_refs(p.take(k + 1)) == properties_refs(p.take(k)).union(value_refs(p[k].value)),
{
    let a = p.take(k + 1);
    let b = p.take(k);
    assert forall|r: HeapRef| #[trigger] properties_refs(a).contains(r) == properties_refs(b).union(value_refs(p[k].value)).contains(r) by {
        if properties_refs(a).contains(r) {
            let j = choose|j: int| 0 <= j < a.len() && value_refs((#[trigger] a[j]).value).contains(r);
            if j < k {
                assert(b[j] == a[j]);
            }
        }
        if properties_refs(b).contains(r) {
            let j = choose|j: int| 0 <= j < b.len() && value_refs((#[trigger] b[j]).value).contains(r);
            assert(a[j] == b[j]);
        }
        if value_refs(p[k].value).contains(r) {
            assert(a[k] == p[k]);
        }
    }
    assert(properties_refs(a) =~= properties_refs(b).union(value_refs(p[k].value)));
}

/// The mark bits and the queue of entities whose children are still to be
/// marked.
pub struct WorkQueues {
    pub marks: Marks,
    pub queue: Vec<HeapRef>,
}

impl WorkQueues {
    pub open spec fn inv(&self, h: Heap) -> bool {
        mark_inv(h, self.marks@, self.queue@)
    }

    pub open spec fn step_from(&self, old: WorkQueues) -> bool {
        mark_step(old.marks@, old.queue@, self.marks@, self.queue@)
    }
}

proof fn lemma_mark_step_trans(m1: MarksModel, q1: Seq<HeapRef>, m2: MarksModel, q2: Seq<HeapRef>, m3: MarksModel, q3: Seq<HeapRef>)
    requires
        mark_step(m1, q1, m2, q2),
        mark_step(m2, q2, m3, q3),
    ensures
        mark_step(m1, q1, m3, q3),
{
    assert forall|k: int| 0 <= k < q1.len() implies #[trigger] q3[k] == q1[k] by {
        assert(q2[k] == q1[k]);
        assert(q3[k] == q2[k]);
    }
}

proof fn lemma_mark_step_refl(m: MarksModel, q: Seq<HeapRef>)
    ensures
        mark_step(m, q, m, q),
{
}

proof fn lemma_children_grow(h: Heap, r: HeapRef, m1: MarksModel, m2: MarksModel)
    requires
        marks_grow(m1, m2),
        children_marked(h, r, m1),
    ensures
        children_marked(h, r, m2),
{
    match r {
        HeapRef::Object(i) => {
            let o = h.objects_model()[i as int];
            assert forall|j: int| 0 <= j < o.properties.len() implies value_marked(#[trigger] o.properties[j].value, m2) by {
                assert(value_marked(o.properties[j].value, m1));
            }
        },
        HeapRef::Generator(i) => {
            let g = h.generators_model()[i as int];
            if let Some(GeneratorStateModel::Suspended(rec)) = g.state {
                match rec.vm_or_args {
                    VmOrArgumentsModel::Vm(s) => {
                        lemma_values_marked_grow(s.stack, m1, m2);
                        lemma_values_marked_grow(s.locals, m1, m2);
                        lemma_values_marked_grow(s.arguments, m1, m2);
                    },
                    VmOrArgumentsModel::Arguments(a) => {
                        lemma_values_marked_grow(a, m1, m2);
                    },
                }
            }
        },
        HeapRef::Executable(i) => {
            lemma_values_marked_grow(h.executables_model()[i as int].constants, m1, m2);
        },
    }
}

proof fn lemma_values_marked_grow(s: Seq<Value>, m1: MarksModel, m2: MarksModel)
    requires
        marks_grow(m1, m2),
        values_marked(s, m1),
    ensures
        values_marked(s, m2),
{
    assert forall|j: int| 0 <= j < s.len() implies value_marked(#[trigger] s[j], m2) by {
        assert(value_marked(s[j], m1));
    }
}

pub open spec fn ref_in(r: HeapRef, b: Bounds) -> bool {
    match r {
        HeapRef::Object(i) => i < b.objects,
        HeapRef::Generator(i) => i < b.generators,
        HeapRef::Executable(i) => i < b.executables,
    }
}

impl WorkQueues {
    /// Marks `r`, queueing it if it was not marked yet.
    fn mark_ref(&mut self, h: &Heap, r: HeapRef)
        requires
            old(self).inv(*h),
            ref_in(r, h.bounds()),
        ensures
            final(self).inv(*h),
            final(self).step_from(*old(self)),
            ref_marked(r, final(self).marks@),
            grew_by(old(self).marks@, old(self).queue@, final(self).marks@, final(self).queue@, set![r]),
            final(self).queue@ == if ref_marked(r, old(self).marks@) {
                old(self).queue@
            } else {
                old(self).queue@.push(r)
            },
    {
        let ghost m1 = self.marks@;
        let ghost q1 = self.queue@;
        let fresh = match r {
            HeapRef::Object(i) => {
                if !self.marks.objects[i] {
                    proof {
                        lemma_count_false_mark(self.marks.objects@, i as int);
                    }
                    self.marks.objects.set(i, true);
                    true
                } else {
                    false
                }
            },
            HeapRef::Generator(i) => {
                if !self.marks.generators[i] {
                    proof {
                        lemma_count_false_mark(self.marks.generators@, i as int);
                    }
                    self.marks.generators.set(i, true);
                    true
                } else {
                    false
                }
            },
            HeapRef::Executable(i) => {
                if !self.marks.executables[i] {
                    proof {
                        lemma_count_false_mark(self.marks.executables@, i as int);
                    }
                    self.marks.executables.set(i, true);
                    true
                } else {
                    false
                }
            },
        };
        if fresh {
            self.queue.push(r);
        }
        proof {
            let m2 = self.marks@;
            let q2 = self.queue@;
            assert(marks_grow(m1, m2));
            assert forall|r2: HeapRef| #[trigger] ref_marked(r2, m2) implies q2.contains(r2) || children_marked(*h, r2, m2) by {
                if r2 == r && fresh {
                    assert(q2[q2.len() - 1] == r);
                } else {
                    assert(ref_marked(r2, m1));
                    if q1.contains(r2) {
                        let k = choose|k: int| 0 <= k < q1.len() && q1[k] == r2;
                        assert(q2[k] == r2);
                    } else {
                        lemma_children_grow(*h, r2, m1, m2);
                    }
                }
            }
            assert forall|k: int| 0 <= k < q2.len() implies ref_marked(#[trigger] q2[k], m2) by {
                if k < q1.len() {
                    assert(ref_marked(q1[k], m1));
                }
            }
            assert forall|r2: HeapRef| #[trigger] ref_marked(r2, m2) == (ref_marked(r2, m1) || set![r].contains(r2)) by {
            }
        }
    }

    fn mark_value(&mut self, h: &Heap, v: Value)
        requires
            old(self).inv(*h),
            value_valid(v, h.bounds()),
        ensures
            final(self).inv(*h),
            final(self).step_from(*old(self)),
            value_marked(v, final(self).marks@),
            grew_by(old(self).marks@, old(self).queue@, final(self).marks@, final(self).queue@, value_refs(v)),
    {
        match v {
            Value::Object(i) => self.mark_ref(h, HeapRef::Object(i)),
            Value::Generator(i) => self.mark_ref(h, HeapRef::Generator(i)),
            _ => {
                proof {
                    lemma_mark_step_refl(self.marks@, self.queue@);
                    lemma_grew_refl(self.marks@, self.queue@);
                }
            },
        }
    }

    fn mark_option_object(&mut self, h: &Heap, o: Option<usize>)
        requires
            old(self).inv(*h),
            o matches Some(i) ==> i < h.objects@.len(),
        ensures
            final(self).inv(*h),
            final(self).step_from(*old(self)),
            option_object_marked(o, final(self).marks@),
            grew_by(old(self).marks@, old(self).queue@, final(self).marks@, final(self).queue@, option_object_refs(o)),
    {
        match o {
            Some(i) => self.mark_ref(h, HeapRef::Object(i)),
            None => {
                proof {
                    lemma_mark_step_refl(self.marks@, self.queue@);
                    lemma_grew_refl(self.marks@, self.queue@);
                }
            },
        }
    }

    fn mark_values(&mut self, h: &Heap, vals: &Vec<Value>)
        requires
            old(self).inv(*h),
            values_valid(vals@, h.bounds()),
        ensures
            final(self).inv(*h),
            final(self).step_from(*old(self)),
            values_marked(vals@, final(self).marks@),
            grew_by(old(self).marks@, old(self).queue@, final(self).marks@, final(self).queue@, values_refs(vals@)),
    {
        let ghost w0 = *self;
        let mut k: usize = 0;
        proof {
            lemma_mark_step_refl(self.marks@, self.queue@);
            lemma_grew_refl(self.marks@, self.queue@);
            assert(values_refs(vals@.take(0)) =~= Set::<HeapRef>::empty());
        }
        while k < vals.len()
            invariant
                k <= vals@.len(),
                values_valid(vals@, h.bounds()),
                self.inv(*h),
                self.step_from(w0),
                grew_by(w0.marks@, w0.queue@, self.marks@, self.queue@, values_refs(vals@.take(k as int))),
                forall|j: int| 0 <= j < k ==> value_marked(#[trigger] vals@[j], self.marks@),
            decreases vals.len() - k,
        {
            let ghost w1 = *self;
            self.mark_value(h, vals[k]);
            proof {
                lemma_mark_step_trans(w0.marks@, w0.queue@, w1.marks@, w1.queue@, self.marks@, self.queue@);
                lemma_grew_trans(
                    w0.marks@,
                    w0.queue@,
                    w1.marks@,
                    w1.queue@,
                    self.marks@,
                    self.queue@,
                    values_refs(vals@.take(k as int)),
                    value_refs(vals@[k as int]),
                );
                lemma_values_refs_step(vals@, k as int);
                assert forall|j: int| 0 <= j < k + 1 implies value_marked(#[trigger] vals@[j], self.marks@) by {
                    if j < k {
                        assert(value_marked(vals@[j], w1.marks@));
                    }
                }
            }
            k = k + 1;
        }
        assert(vals@.take(vals@.len() as int) =~= vals@);
    }
}


impl SuspendedGeneratorState {
    /// Marks what a suspended generator holds: its executable, its context,
    /// and its paused machine or its arguments; nothing else gets marked.
    pub fn mark_values(&self, h: &Heap, queues: &mut WorkQueues)
        requires
            old(queues).inv(*h),
            suspended_valid(self@, h.bounds()),
        ensures
            final(queues).inv(*h),
            final(queues).step_from(*old(queues)),
            suspended_children_marked(self@, final(queues).marks@),
            grew_by(old(queues).marks@, old(queues).queue@, final(queues).marks@, final(queues).queue@, suspended_refs(self@)),
    {
        let ghost w0 = *queues;
        queues.mark_ref(h, HeapRef::Executable(self.executable.index));
        let ghost w1 = *queues;
        queues.mark_option_object(h, self.execution_context.function);
        let ghost w2 = *queues;
        queues.mark_value(h, self.execution_context.this_value);
        let ghost w3 = *queues;
        let ghost c3 = set![HeapRef::Executable(self.executable.index)].union(
            option_object_refs(self.execution_context.function),
        ).union(value_refs(self.execution_context.this_value));
        proof {
            lemma_mark_step_trans(w0.marks@, w0.queue@, w1.marks@, w1.queue@, w2.marks@, w2.queue@);
            lemma_mark_step_trans(w0.marks@, w0.queue@, w2.marks@, w2.queue@, w3.marks@, w3.queue@);
            lemma_grew_trans(
                w0.marks@,
                w0.queue@,
                w1.marks@,
                w1.queue@,
                w2.marks@,
                w2.queue@,
                set![HeapRef::Executable(self.executable.index)],
                option_object_refs(self.execution_context.function),
            );
            lemma_grew_trans(
                w0.marks@,
                w0.queue@,
                w2.marks@,
                w2.queue@,
                w3.marks@,
                w3.queue@,
                set![HeapRef::Executable(self.executable.index)].union(option_object_refs(self.execution_context.function)),
                value_refs(self.execution_context.this_value),
            );
            assert(ref_marked(HeapRef::Executable(self.executable.index), w1.marks@));
            assert(context_marked(self.execution_context, w3.marks@));
        }
        match &self.vm_or_args {
            VmOrArguments::Vm(vm) => {
                queues.mark_values(h, &vm.stack);
                let ghost w4 = *queues;
                queues.mark_values(h, &vm.locals);
                let ghost w5 = *queues;
                queues.mark_values(h, &vm.arguments);
                proof {
                    lemma_mark_step_trans(w0.marks@, w0.queue@, w3.marks@, w3.queue@, w4.marks@, w4.queue@);
                    lemma_mark_step_trans(w0.marks@, w0.queue@, w4.marks@, w4.queue@, w5.marks@, w5.queue@);
                    lemma_mark_step_trans(w0.marks@, w0.queue@, w5.marks@, w5.queue@, queues.marks@, queues.queue@);
                    lemma_grew_trans(w0.marks@, w0.queue@, w3.marks@, w3.queue@, w4.marks@, w4.queue@, c3, values_refs(vm.stack@));
                    lemma_grew_trans(
                        w0.marks@,
                        w0.queue@,
                        w4.marks@,
                        w4.queue@,
                        w5.marks@,
                        w5.queue@,
                        c3.union(values_refs(vm.stack@)),
                        values_refs(vm.locals@),
                    );
                    lemma_grew_trans(
                        w0.marks@,
                        w0.queue@,
                        w5.marks@,
                        w5.queue@,
                        queues.marks@,
                        queues.queue@,
                        c3.union(values_refs(vm.stack@)).union(values_refs(vm.locals@)),
                        values_refs(vm.arguments@),
                    );
                    assert(c3.union(values_refs(vm.stack@)).union(values_refs(vm.locals@)).union(values_refs(vm.arguments@))
                        =~= suspended_refs(self@));
                    lemma_values_marked_grow(vm.stack@, w4.marks@, queues.marks@);
                    lemma_values_marked_grow(vm.locals@, w5.marks@, queues.marks@);
                }
            },
            VmOrArguments::Arguments(a) => {
                queues.mark_values(h, a);
                proof {
                    lemma_mark_step_trans(w0.marks@, w0.queue@, w3.marks@, w3.queue@, queues.marks@, queues.queue@);
                    lemma_grew_trans(w0.marks@, w0.queue@, w3.marks@, w3.queue@, queues.marks@, queues.queue@, c3, values_refs(a@));
                    assert(c3.union(values_refs(a@)) =~= suspended_refs(self@));
                }
            },
        }
        proof {
            let m = queues.marks@;
            assert(ref_marked(HeapRef::Executable(self.executable.index), m));
            assert(option_object_marked(self.execution_context.function, w3.marks@));
            assert(option_object_marked(self.execution_context.function, m));
            assert(value_marked(self.execution_context.this_value, m));
        }
    }
}

impl GeneratorHeapData {
    /// Marks what a generator holds: its backing object and, while it is
    /// suspended, what its record holds; nothing else gets marked.
    pub fn mark_values(&self, h: &Heap, queues: &mut WorkQueues)
        requires
            old(queues).inv(*h),
            generator_valid(self@, h.bounds()),
        ensures
            final(queues).inv(*h),
            final(queues).step_from(*old(queues)),
            generator_children_marked(self@, final(queues).marks@),
            grew_by(old(queues).marks@, old(queues).queue@, final(queues).marks@, final(queues).queue@, generator_refs(self@)),
    {
        let ghost w0 = *queues;
        queues.mark_option_object(h, self.object_index);
        let ghost w1 = *queues;
        match &self.generator_state {
            Some(GeneratorState::Suspended(rec)) => {
                rec.mark_values(h, queues);
                proof {
                    lemma_mark_step_trans(w0.marks@, w0.queue@, w1.marks@, w1.queue@, queues.marks@, queues.queue@);
                    lemma_grew_trans(
                        w0.marks@,
                        w0.queue@,
                        w1.marks@,
                        w1.queue@,
                        queues.marks@,
                        queues.queue@,
                        option_object_refs(self.object_index),
                        suspended_refs(rec@),
                    );
                    assert(option_object_marked(self.object_index, w1.marks@));
                }
            },
            _ => {
                assert(option_object_refs(self.object_index).union(Set::empty()) =~= option_object_refs(self.object_index));
            },
        }
    }
}

impl ObjectHeapData {
    /// Marks what an object holds: its prototype, its error cause and its
    /// property values; nothing else gets marked.
    pub fn mark_values(&self, h: &Heap, queues: &mut WorkQueues)
        requires
            old(queues).inv(*h),
            object_valid(self@, h.bounds()),
        ensures
            final(queues).inv(*h),
            final(queues).step_from(*old(queues)),
            object_children_marked(self@, final(queues).marks@),
            grew_by(old(queues).marks@, old(queues).queue@, final(queues).marks@, final(queues).queue@, object_refs(self@)),
    {
        let ghost w0 = *queues;
        queues.mark_option_object(h, self.prototype);
        let ghost w1 = *queues;
        match self.kind {
            ObjectKind::Error { cause: Some(c), .. } => {
                queues.mark_value(h, c);
            },
            _ => {
                proof {
                    lemma_mark_step_refl(queues.marks@, queues.queue@);
                    lemma_grew_refl(queues.marks@, queues.queue@);
                }
            },
        }
        let ghost w2 = *queues;
        let ghost c2 = option_object_refs(self.prototype).union(cause_refs(self.kind));
        proof {
            lemma_mark_step_trans(w0.marks@, w0.queue@, w1.marks@, w1.queue@, w2.marks@, w2.queue@);
            lemma_grew_trans(
                w0.marks@,
                w0.queue@,
                w1.marks@,
                w1.queue@,
                w2.marks@,
                w2.queue@,
                option_object_refs(self.prototype),
                cause_refs(self.kind),
            );
            lemma_grew_refl(w2.marks@, w2.queue@);
            assert(properties_refs(self.properties@.take(0)) =~= Set::<HeapRef>::empty());
        }
        let mut k: usize = 0;
        while k < self.properties.len()
            invariant
                k <= self.properties@.len(),
                object_valid(self@, h.bounds()),
                queues.inv(*h),
                queues.step_from(w2),
                grew_by(w2.marks@, w2.queue@, queues.marks@, queues.queue@, properties_refs(self.properties@.take(k as int))),
                forall|j: int| 0 <= j < k ==> value_marked(#[trigger] self.properties@[j].value, queues.marks@),
            decreases self.properties.len() - k,
        {
            let ghost w3 = *queues;
            queues.mark_value(h, self.properties[k].value);
            proof {
                lemma_mark_step_trans(w2.marks@, w2.queue@, w3.marks@, w3.queue@, queues.marks@, queues.queue@);
                lemma_grew_trans(
                    w2.marks@,
                    w2.queue@,
                    w3.marks@,
                    w3.queue@,
                    queues.marks@,
                    queues.queue@,
                    properties_refs(self.properties@.take(k as int)),
                    value_refs(self.properties@[k as int].value),
                );
                lemma_properties_refs_step(self.properties@, k as int);
                assert forall|j: int| 0 <= j < k + 1 implies value_marked(#[trigger] self.properties@[j].value, queues.marks@) by {
                    if j < k {
                        assert(value_marked(self.properties@[j].value, w3.marks@));
                    }
                }
            }
            k = k + 1;
        }
        proof {
            assert(self.properties@.take(self.properties@.len() as int) =~= self.properties@);
            lemma_mark_step_trans(w0.marks@, w0.queue@, w2.marks@, w2.queue@, queues.marks@, queues.queue@);
            lemma_grew_trans(w0.marks@, w0.queue@, w2.marks@, w2.queue@, queues.marks@, queues.queue@, c2, properties_refs(self.properties@));
            assert(option_object_marked(self.prototype, w1.marks@));
            if let ObjectKind::Error { cause: Some(c), .. } = self.kind {
                assert(value_marked(c, w2.marks@));
            }
        }
    }
}

impl WorkQueues {
    /// Marks the children of a marked entity.
    fn process(&mut self, h: &Heap, r: HeapRef)
        requires
            h.wf(),
            old(self).inv(*h),
            ref_in(r, h.bounds()),
        ensures
            final(self).inv(*h),
            final(self).step_from(*old(self)),
            children_marked(*h, r, final(self).marks@),
            grew_by(old(self).marks@, old(self).queue@, final(self).marks@, final(self).queue@, entity_refs(*h, r)),
    {
        match r {
            HeapRef::Object(i) => {
                assert(object_valid(h.objects_model()[i as int], h.bounds()));
                h.objects[i].mark_values(h, self);
            },
            HeapRef::Generator(i) => {
                assert(generator_valid(h.generators_model()[i as int], h.bounds()));
                h.generators[i].mark_values(h, self);
            },
            HeapRef::Executable(i) => {
                assert(crate::vm::executable_valid(h.executables_model()[i as int], h.bounds()));
                self.mark_values(h, &h.executables[i].constants);
            },
        }
    }
}

impl<'a> Generator<'a> {
    /// Marks this generator and queues it when it was not marked yet;
    /// nothing else changes.
    pub fn mark_values(&self, h: &Heap, queues: &mut WorkQueues)
        requires
            old(queues).inv(*h),
            self@ < h.generators@.len(),
        ensures
            final(queues).inv(*h),
            final(queues).step_from(*old(queues)),
            ref_marked(HeapRef::Generator(self@), final(queues).marks@),
            grew_by(
                old(queues).marks@,
                old(queues).queue@,
                final(queues).marks@,
                final(queues).queue@,
                set![HeapRef::Generator(self@)],
            ),
            final(queues).queue@ == if ref_marked(HeapRef::Generator(self@), old(queues).marks@) {
                old(queues).queue@
            } else {
                old(queues).queue@.push(HeapRef::Generator(self@))
            },
    {
        queues.mark_ref(h, HeapRef::Generator(self.get_index()));
    }
}

fn all_false(n: usize) -> (r: Vec<bool>)
    ensures
        r@.len() == n,
        forall|j: int| 0 <= j < n ==> !#[trigger] r@[j],
{
    let mut v: Vec<bool> = Vec::new();
    let mut k: usize = 0;
    while k < n
        invariant
            k <= n,
            v@.len() == k,
            forall|j: int| 0 <= j < k ==> !#[trigger] v@[j],
        decreases n - k,
    {
        v.push(false);
        k = k + 1;
    }
    v
}

/// What the agent roots: its execution contexts and its scoped roots.
pub open spec fn roots_marked(a: Agent, m: MarksModel) -> bool {
    &&& forall|k: int| 0 <= k < a.execution_context_stack@.len() ==> context_marked(#[trigger] a.execution_context_stack@[k], m)
    &&& values_marked(a.scoped_roots@, m)
    &&& refs_marked(intrinsics_refs(a.intrinsics), m)
}

/// The intrinsic prototypes, which are roots.
pub open spec fn intrinsics_refs(i: Intrinsics) -> Set<HeapRef> {
    set![
        HeapRef::Object(i.object_prototype),
        HeapRef::Object(i.boolean_prototype),
        HeapRef::Object(i.error_prototype),
        HeapRef::Object(i.weak_map_prototype),
        HeapRef::Object(i.generator_prototype),
    ]
}

impl WorkQueues {
    fn mark_intrinsics(&mut self, h: &Heap, i: Intrinsics)
        requires
            old(self).inv(*h),
            i.valid(h.bounds()),
        ensures
            final(self).inv(*h),
            final(self).step_from(*old(self)),
            grew_by(old(self).marks@, old(self).queue@, final(self).marks@, final(self).queue@, intrinsics_refs(i)),
    {
        let ghost w0 = *self;
        self.mark_ref(h, HeapRef::Object(i.object_prototype));
        let ghost w1 = *self;
        self.mark_ref(h, HeapRef::Object(i.boolean_prototype));
        let ghost w2 = *self;
        self.mark_ref(h, HeapRef::Object(i.error_prototype));
        let ghost w3 = *self;
        self.mark_ref(h, HeapRef::Object(i.weak_map_prototype));
        let ghost w4 = *self;
        self.mark_ref(h, HeapRef::Object(i.generator_prototype));
        proof {
            let c1 = set![HeapRef::Object(i.object_prototype)];
            let c2 = c1.union(set![HeapRef::Object(i.boolean_prototype)]);
            let c3 = c2.union(set![HeapRef::Object(i.error_prototype)]);
            let c4 = c3.union(set![HeapRef::Object(i.weak_map_prototype)]);
            lemma_grew_trans(w0.marks@, w0.queue@, w1.marks@, w1.queue@, w2.marks@, w2.queue@, c1, set![HeapRef::Object(i.boolean_prototype)]);
            lemma_grew_trans(w0.marks@, w0.queue@, w2.marks@, w2.queue@, w3.marks@, w3.queue@, c2, set![HeapRef::Object(i.error_prototype)]);
            lemma_grew_trans(w0.marks@, w0.queue@, w3.marks@, w3.queue@, w4.marks@, w4.queue@, c3, set![HeapRef::Object(i.weak_map_prototype)]);
            lemma_grew_trans(w0.marks@, w0.queue@, w4.marks@, w4.queue@, self.marks@, self.queue@, c4, set![HeapRef::Object(i.generator_prototype)]);
            assert(c4.union(set![HeapRef::Object(i.generator_prototype)]) =~= intrinsics_refs(i));
            lemma_mark_step_trans(w0.marks@, w0.queue@, w1.marks@, w1.queue@, w2.marks@, w2.queue@);
            lemma_mark_step_trans(w0.marks@, w0.queue@, w2.marks@, w2.queue@, w3.marks@, w3.queue@);
            lemma_mark_step_trans(w0.marks@, w0.queue@, w3.marks@, w3.queue@, w4.marks@, w4.queue@);
            lemma_mark_step_trans(w0.marks@, w0.queue@, w4.marks@, w4.queue@, self.marks@, self.queue@);
        }
    }
}

/// A marking that holds the roots and every child of what it holds.
pub open spec fn closed_marking(a: Agent, m: MarksModel) -> bool {
    &&& marks_fit(m, a.heap.bounds())
    &&& roots_marked(a, m)
    &&& forall|r: HeapRef| #[trigger] ref_marked(r, m) ==> children_marked(a.heap, r, m)
}

pub open spec fn within(m1: MarksModel, m2: MarksModel) -> bool {
    forall|r: HeapRef| #[trigger] ref_marked(r, m1) ==> ref_marked(r, m2)
}

/// Only what the roots reach is marked: the marks lie within every marking
/// that holds the roots and is closed under children.
pub open spec fn only_reachable(a: Agent, m: MarksModel) -> bool {
    forall|m2: MarksModel| #[trigger] closed_marking(a, m2) ==> within(m, m2)
}

/// The marks of a finished marking: the roots are marked, so is every child
/// of a marked entity, and nothing that the roots do not reach is marked.
pub open spec fn marking_done(a: Agent, m: MarksModel) -> bool {
    &&& mark_inv(a.heap, m, Seq::empty())
    &&& roots_marked(a, m)
    &&& only_reachable(a, m)
}

/// Marks every entity that the roots reach.
pub fn mark(agent: &Agent) -> (r: Marks)
    requires
        agent.wf(),
    ensures
        marking_done(*agent, r@),
{
    let h = &agent.heap;
    let marks = Marks {
        objects: all_false(h.objects.len()),
        generators: all_false(h.generators.len()),
        executables: all_false(h.executables.len()),
    };
    let mut w = WorkQueues { marks, queue: Vec::new() };
    assert(w.inv(*h));
    let ghost w0 = w;
    proof {
        lemma_mark_step_refl(w.marks@, w.queue@);
    }
    let mut k: usize = 0;
    while k < agent.execution_context_stack.len()
        invariant
            agent.wf(),
            h == &agent.heap,
            k <= agent.execution_context_stack@.len(),
            w.inv(*h),
            w.step_from(w0),
            only_reachable(*agent, w.marks@),
            forall|j: int| 0 <= j < k ==> context_marked(#[trigger] agent.execution_context_stack@[j], w.marks@),
        decreases agent.execution_context_stack.len() - k,
    {
        let ctx = agent.execution_context_stack[k];
        let ghost w1 = w;
        assert(crate::execution::context_valid(agent.execution_context_stack@[k as int], h.bounds()));
        w.mark_option_object(h, ctx.function);
        let ghost w2 = w;
        w.mark_value(h, ctx.this_value);
        proof {
            lemma_mark_step_trans(w1.marks@, w1.queue@, w2.marks@, w2.queue@, w.marks@, w.queue@);
            lemma_mark_step_trans(w0.marks@, w0.queue@, w1.marks@, w1.queue@, w.marks@, w.queue@);
            assert forall|m2: MarksModel| #[trigger] closed_marking(*agent, m2) implies within(w.marks@, m2) by {
                assert(within(w1.marks@, m2));
                assert(context_marked(agent.execution_context_stack@[k as int], m2));
                assert forall|r: HeapRef| #[trigger] ref_marked(r, w.marks@) implies ref_marked(r, m2) by {
                    assert(ref_marked(r, w.marks@) == (ref_marked(r, w2.marks@) || value_refs(ctx.this_value).contains(r)));
                    assert(ref_marked(r, w2.marks@) == (ref_marked(r, w1.marks@) || option_object_refs(ctx.function).contains(
                        r,
                    )));
                }
            }
            assert(option_object_marked(ctx.function, w2.marks@));
            assert forall|j: int| 0 <= j < k + 1 implies context_marked(#[trigger] agent.execution_context_stack@[j], w.marks@) by {
                if j < k {
                    let c = agent.execution_context_stack@[j];
                    assert(context_marked(c, w1.marks@));
                    assert(option_object_marked(c.function, w1.marks@));
                    assert(value_marked(c.this_value, w1.marks@));
                }
            }
        }
        k = k + 1;
    }
    let ghost w3 = w;
    w.mark_values(h, &agent.scoped_roots);
    proof {
        assert forall|m2: MarksModel| #[trigger] closed_marking(*agent, m2) implies within(w.marks@, m2) by {
            assert(within(w3.marks@, m2));
            lemma_values_refs_marked(agent.scoped_roots@, m2);
            assert forall|r: HeapRef| #[trigger] ref_marked(r, w.marks@) implies ref_marked(r, m2) by {
                assert(ref_marked(r, w.marks@) == (ref_marked(r, w3.marks@) || values_refs(agent.scoped_roots@).contains(r)));
            }
        }
        assert forall|j: int| 0 <= j < agent.execution_context_stack@.len() implies context_marked(
            #[trigger] agent.execution_context_stack@[j],
            w.marks@,
        ) by {
            let c = agent.execution_context_stack@[j];
            assert(context_marked(c, w3.marks@));
            assert(option_object_marked(c.function, w3.marks@));
            assert(value_marked(c.this_value, w3.marks@));
        }
    }
    let ghost w5 = w;
    w.mark_intrinsics(h, agent.intrinsics);
    proof {
        assert forall|m2: MarksModel| #[trigger] closed_marking(*agent, m2) implies within(w.marks@, m2) by {
            assert(within(w5.marks@, m2));
            assert forall|r: HeapRef| #[trigger] ref_marked(r, w.marks@) implies ref_marked(r, m2) by {
                assert(ref_marked(r, w.marks@) == (ref_marked(r, w5.marks@) || intrinsics_refs(agent.intrinsics).contains(r)));
            }
        }
        assert forall|j: int| 0 <= j < agent.execution_context_stack@.len() implies context_marked(
            #[trigger] agent.execution_context_stack@[j],
            w.marks@,
        ) by {
            let c = agent.execution_context_stack@[j];
            assert(context_marked(c, w5.marks@));
            assert(option_object_marked(c.function, w5.marks@));
            assert(value_marked(c.this_value, w5.marks@));
        }
        lemma_values_marked_grow(agent.scoped_roots@, w5.marks@, w.marks@);
        assert forall|r: HeapRef| #[trigger] intrinsics_refs(agent.intrinsics).contains(r) implies ref_marked(r, w.marks@) by {
            assert(ref_marked(r, w.marks@) == (ref_marked(r, w5.marks@) || intrinsics_refs(agent.intrinsics).contains(r)));
        }
    }
    while w.queue.len() > 0
        invariant
            agent.wf(),
            h == &agent.heap,
            w.inv(*h),
            roots_marked(*agent, w.marks@),
            only_reachable(*agent, w.marks@),
        decreases unmarked(w.marks@), w.queue@.len(),
    {
        let last = w.queue.len() - 1;
        let r = w.queue[last];
        let ghost w1 = w;
        proof {
            assert(ref_marked(w.queue@[last as int], w.marks@));
        }
        w.process(h, r);
        let ghost w2 = w;
        proof {
            assert(w2.queue@[last as int] == r);
        }
        w.queue.remove(last);
        proof {
            let m = w.marks@;
            assert forall|m2: MarksModel| #[trigger] closed_marking(*agent, m2) implies within(m, m2) by {
                assert(within(w1.marks@, m2));
                assert(ref_marked(r, m2));
                assert(children_marked(agent.heap, r, m2));
                lemma_entity_refs_marked(agent.heap, r, m2);
                assert forall|x: HeapRef| #[trigger] ref_marked(x, m) implies ref_marked(x, m2) by {
                    assert(ref_marked(x, m) == (ref_marked(x, w1.marks@) || entity_refs(agent.heap, r).contains(x)));
                }
            }
            let q2 = w2.queue@;
            let q = w.queue@;
            assert forall|r2: HeapRef| #[trigger] ref_marked(r2, m) implies q.contains(r2) || children_marked(*h, r2, m) by {
                if r2 != r && q2.contains(r2) {
                    let k = choose|k: int| 0 <= k < q2.len() && q2[k] == r2;
                    if k < last {
                        assert(q[k] == r2);
                    } else {
                        assert(q[k - 1] == r2);
                    }
                }
            }
            assert forall|k: int| 0 <= k < q.len() implies ref_marked(#[trigger] q[k], m) by {
                if k < last {
                    assert(q[k] == q2[k]);
                } else {
                    assert(q[k] == q2[k + 1]);
                }
            }
            assert(roots_marked(*agent, m)) by {
                assert forall|j: int| 0 <= j < agent.execution_context_stack@.len() implies context_marked(
                    #[trigger] agent.execution_context_stack@[j],
                    m,
                ) by {
                    let c = agent.execution_context_stack@[j];
                    assert(context_marked(c, w1.marks@));
                    assert(option_object_marked(c.function, w1.marks@));
                    assert(value_marked(c.this_value, w1.marks@));
                }
                lemma_values_marked_grow(agent.scoped_roots@, w1.marks@, m);
                assert forall|x: HeapRef| #[trigger] intrinsics_refs(agent.intrinsics).contains(x) implies ref_marked(x, m) by {
                    assert(ref_marked(x, w1.marks@));
                }
            }
        }
    }
    assert(w.queue@ =~= Seq::<HeapRef>::empty());
    w.marks
}


/// Where each surviving entity of a compacted arena moves: its new index is
/// the number of survivors before it.
pub struct CompactionLists {
    pub marks: Marks,
    pub objects: Vec<usize>,
    pub generators: Vec<usize>,
    pub executables: Vec<usize>,
}

pub struct Relocation {
    pub objects: Seq<usize>,
    pub generators: Seq<usize>,
    pub executables: Seq<usize>,
}

impl CompactionLists {
    pub open spec fn relocation(&self) -> Relocation {
        Relocation { objects: self.objects@, generators: self.generators@, executables: self.executables@ }
    }
}

pub open spec fn shifted(m: Seq<bool>, i: int) -> nat {
    count_true(m.take(i))
}

/// `map` sends each entity to the number of marked entities before it.
pub open spec fn is_shift_map(m: Seq<bool>, map: Seq<usize>) -> bool {
    &&& map.len() == m.len()
    &&& forall|i: int| 0 <= i < m.len() ==> #[trigger] map[i] == shifted(m, i)
}

proof fn lemma_count_true_step(m: Seq<bool>, i: int)
    requires
        0 <= i < m.len(),
    ensures
        count_true(m.take(i + 1)) == count_true(m.take(i)) + if m[i] { 1nat } else { 0nat },
{
    assert(m.take(i + 1).drop_last() =~= m.take(i));
}

proof fn lemma_count_true_mono(m: Seq<bool>, j: int, k: int)
    requires
        0 <= j <= k <= m.len(),
    ensures
        count_true(m.take(j)) <= count_true(m.take(k)),
    decreases k - j,
{
    if j < k {
        lemma_count_true_step(m, k - 1);
        lemma_count_true_mono(m, j, k - 1);
    }
}

/// A marked entity moves to an index below the number of survivors.
proof fn lemma_shift_in_range(m: Seq<bool>, i: int)
    requires
        0 <= i < m.len(),
        m[i],
    ensures
        shifted(m, i) < count_true(m),
{
    lemma_count_true_step(m, i);
    lemma_count_true_mono(m, i + 1, m.len() as int);
    assert(m.take(m.len() as int) =~= m);
}

fn shift_map(m: &Vec<bool>) -> (r: (Vec<usize>, usize))
    ensures
        is_shift_map(m@, r.0@),
        r.1 == count_true(m@),
{
    let mut map: Vec<usize> = Vec::new();
    let mut n: usize = 0;
    let mut i: usize = 0;
    while i < m.len()
        invariant
            i <= m@.len(),
            map@.len() == i,
            n == count_true(m@.take(i as int)),
            n <= i,
            forall|j: int| 0 <= j < i ==> #[trigger] map@[j] == shifted(m@, j),
        decreases m.len() - i,
    {
        map.push(n);
        proof {
            lemma_count_true_step(m@, i as int);
        }
        if m[i] {
            n = n + 1;
        }
        i = i + 1;
    }
    assert(m@.take(m@.len() as int) =~= m@);
    (map, n)
}

pub open spec fn relocate_value(v: Value, r: Relocation) -> Value {
    match v {
        Value::Object(i) => Value::Object(r.objects[i as int]),
        Value::Generator(i) => Value::Generator(r.generators[i as int]),
        _ => v,
    }
}

pub open spec fn relocate_values(s: Seq<Value>, r: Relocation) -> Seq<Value> {
    s.map_values(|v: Value| relocate_value(v, r))
}

pub open spec fn relocate_option_object(o: Option<usize>, r: Relocation) -> Option<usize> {
    match o {
        Some(i) => Some(r.objects[i as int]),
        None => None,
    }
}

pub open spec fn relocate_context(c: ExecutionContext, r: Relocation) -> ExecutionContext {
    ExecutionContext {
        function: relocate_option_object(c.function, r),
        this_value: relocate_value(c.this_value, r),
        ..c
    }
}

pub open spec fn relocate_kind(k: ObjectKind, r: Relocation) -> ObjectKind {
    match k {
        ObjectKind::Error { kind, message, cause: Some(c) } => ObjectKind::Error { kind, message, cause: Some(relocate_value(c, r)) },
        _ => k,
    }
}

pub open spec fn relocate_property(p: Property, r: Relocation) -> Property {
    Property { key: p.key, value: relocate_value(p.value, r) }
}

pub open spec fn relocate_object(o: ObjectModel, r: Relocation) -> ObjectModel {
    ObjectModel {
        prototype: relocate_option_object(o.prototype, r),
        kind: relocate_kind(o.kind, r),
        properties: o.properties.map_values(|p: Property| relocate_property(p, r)),
    }
}

pub open spec fn relocate_vm_or_args(v: VmOrArgumentsModel, r: Relocation) -> VmOrArgumentsModel {
    match v {
        VmOrArgumentsModel::Vm(s) => VmOrArgumentsModel::Vm(VmState {
            ip: s.ip,
            stack: relocate_values(s.stack, r),
            locals: relocate_values(s.locals, r),
            arguments: relocate_values(s.arguments, r),
        }),
        VmOrArgumentsModel::Arguments(a) => VmOrArgumentsModel::Arguments(relocate_values(a, r)),
    }
}

pub open spec fn relocate_suspended(s: SuspendedModel, r: Relocation) -> SuspendedModel {
    SuspendedModel {
        vm_or_args: relocate_vm_or_args(s.vm_or_args, r),
        executable: crate::vm::Executable { index: r.executables[s.executable.index as int] },
        execution_context: relocate_context(s.execution_context, r),
    }
}

pub open spec fn relocate_generator(g: GeneratorModel, r: Relocation) -> GeneratorModel {
    GeneratorModel {
        object_index: relocate_option_object(g.object_index, r),
        state: match g.state {
            Some(GeneratorStateModel::Suspended(s)) => Some(GeneratorStateModel::Suspended(relocate_suspended(s, r))),
            other => other,
        },
    }
}

pub open spec fn relocate_executable(e: ExecutableModel, r: Relocation) -> ExecutableModel {
    ExecutableModel { constants: relocate_values(e.constants, r), ..e }
}

impl CompactionLists {
    fn relocate_value(&self, v: Value) -> (r: Value)
        requires
            v matches Value::Object(i) ==> i < self.objects@.len(),
            v matches Value::Generator(i) ==> i < self.generators@.len(),
        ensures
            r == relocate_value(v, self.relocation()),
    {
        match v {
            Value::Object(i) => Value::Object(self.objects[i]),
            Value::Generator(i) => Value::Generator(self.generators[i]),
            _ => v,
        }
    }

    fn relocate_option_object(&self, o: Option<usize>) -> (r: Option<usize>)
        requires
            o matches Some(i) ==> i < self.objects@.len(),
        ensures
            r == relocate_option_object(o, self.relocation()),
    {
        match o {
            Some(i) => Some(self.objects[i]),
            None => None,
        }
    }

    fn relocate_values(&self, vals: &Vec<Value>) -> (r: Vec<Value>)
        requires
            forall|j: int|
                0 <= j < vals@.len() ==> (#[trigger] vals@[j] matches Value::Object(i) ==> i < self.objects@.len()) && (
                vals@[j] matches Value::Generator(i) ==> i < self.generators@.len()),
        ensures
            r@ == relocate_values(vals@, self.relocation()),
    {
        let mut out: Vec<Value> = Vec::new();
        let mut k: usize = 0;
        while k < vals.len()
            invariant
                k <= vals@.len(),
                out@ =~= relocate_values(vals@.take(k as int), self.relocation()),
                forall|j: int|
                    0 <= j < vals@.len() ==> (#[trigger] vals@[j] matches Value::Object(i) ==> i < self.objects@.len()) && (
                    vals@[j] matches Value::Generator(i) ==> i < self.generators@.len()),
            decreases vals.len() - k,
        {
            let v = self.relocate_value(vals[k]);
            out.push(v);
            k = k + 1;
            assert(vals@.take(k as int).drop_last() =~= vals@.take(k - 1));
            assert(out@ =~= relocate_values(vals@.take(k as int), self.relocation()));
        }
        assert(vals@.take(vals@.len() as int) =~= vals@);
        out
    }
}


/// The lists have one entry per entity of the arenas that `b` bounds.
pub open spec fn lists_fit(l: Relocation, b: Bounds) -> bool {
    &&& l.objects.len() == b.objects
    &&& l.generators.len() == b.generators
    &&& l.executables.len() == b.executables
}

impl CompactionLists {
    fn sweep_vec(&self, vals: &mut Vec<Value>, Ghost(b): Ghost<Bounds>)
        requires
            lists_fit(self.relocation(), b),
            values_valid(old(vals)@, b),
        ensures
            final(vals)@ == relocate_values(old(vals)@, self.relocation()),
    {
        let ghost orig = vals@;
        let mut k: usize = 0;
        while k < vals.len()
            invariant
                lists_fit(self.relocation(), b),
                values_valid(orig, b),
                vals@.len() == orig.len(),
                k <= orig.len(),
                forall|j: int| 0 <= j < k ==> #[trigger] vals@[j] == relocate_value(orig[j], self.relocation()),
                forall|j: int| k <= j < orig.len() ==> #[trigger] vals@[j] == orig[j],
            decreases vals.len() - k,
        {
            assert(value_valid(orig[k as int], b));
            let v = self.relocate_value(vals[k]);
            vals.set(k, v);
            k = k + 1;
        }
        assert(vals@ =~= relocate_values(orig, self.relocation()));
    }

    fn sweep_context(&self, c: ExecutionContext, Ghost(b): Ghost<Bounds>) -> (r: ExecutionContext)
        requires
            lists_fit(self.relocation(), b),
            context_valid(c, b),
        ensures
            r == relocate_context(c, self.relocation()),
    {
        ExecutionContext {
            function: self.relocate_option_object(c.function),
            this_value: self.relocate_value(c.this_value),
            ..c
        }
    }
}

impl SuspendedGeneratorState {
    /// Rewrites every index that the record holds to where its entity moved.
    pub fn sweep_values(&mut self, compactions: &CompactionLists, Ghost(b): Ghost<Bounds>)
        requires
            lists_fit(compactions.relocation(), b),
            suspended_valid(old(self)@, b),
        ensures
            final(self)@ == relocate_suspended(old(self)@, compactions.relocation()),
    {
        match &mut self.vm_or_args {
            VmOrArguments::Vm(vm) => {
                compactions.sweep_vec(&mut vm.stack, Ghost(b));
                compactions.sweep_vec(&mut vm.locals, Ghost(b));
                compactions.sweep_vec(&mut vm.arguments, Ghost(b));
            },
            VmOrArguments::Arguments(a) => {
                compactions.sweep_vec(a, Ghost(b));
            },
        }
        self.executable = crate::vm::Executable { index: compactions.executables[self.executable.index] };
        self.execution_context = compactions.sweep_context(self.execution_context, Ghost(b));
    }
}

impl GeneratorHeapData {
    /// Rewrites the backing object and, while suspended, the record.
    pub fn sweep_values(&mut self, compactions: &CompactionLists, Ghost(b): Ghost<Bounds>)
        requires
            lists_fit(compactions.relocation(), b),
            generator_valid(old(self)@, b),
        ensures
            final(self)@ == relocate_generator(old(self)@, compactions.relocation()),
    {
        self.object_index = compactions.relocate_option_object(self.object_index);
        match &mut self.generator_state {
            Some(GeneratorState::Suspended(rec)) => {
                rec.sweep_values(compactions, Ghost(b));
            },
            _ => {},
        }
    }
}

impl ObjectHeapData {
    /// Rewrites the prototype, the error cause and the property values.
    pub fn sweep_values(&mut self, compactions: &CompactionLists, Ghost(b): Ghost<Bounds>)
        requires
            lists_fit(compactions.relocation(), b),
            object_valid(old(self)@, b),
        ensures
            final(self)@ == relocate_object(old(self)@, compactions.relocation()),
    {
        let ghost orig = self.properties@;
        let ghost o0 = self@;
        self.prototype = compactions.relocate_option_object(self.prototype);
        self.kind = match self.kind {
            ObjectKind::Error { kind, message, cause: Some(c) } => ObjectKind::Error {
                kind,
                message,
                cause: Some(compactions.relocate_value(c)),
            },
            k => k,
        };
        let mut k: usize = 0;
        while k < self.properties.len()
            invariant
                lists_fit(compactions.relocation(), b),
                self.prototype == relocate_option_object(o0.prototype, compactions.relocation()),
                self.kind == relocate_kind(o0.kind, compactions.relocation()),
                forall|j: int| 0 <= j < orig.len() ==> value_valid((#[trigger] orig[j]).value, b),
                self.properties@.len() == orig.len(),
                k <= orig.len(),
                forall|j: int| 0 <= j < k ==> #[trigger] self.properties@[j] == relocate_property(orig[j], compactions.relocation()),
                forall|j: int| k <= j < orig.len() ==> #[trigger] self.properties@[j] == orig[j],
            decreases self.properties.len() - k,
        {
            let p = self.properties[k];
            assert(value_valid(orig[k as int].value, b));
            let v = compactions.relocate_value(p.value);
            self.properties.set(k, Property { key: p.key, value: v });
            k = k + 1;
        }
        assert(self.properties@ =~= orig.map_values(|p: Property| relocate_property(p, compactions.relocation())));
    }
}

impl ExecutableHeapData {
    /// Rewrites the constants.
    pub fn sweep_values(&mut self, compactions: &CompactionLists, Ghost(b): Ghost<Bounds>)
        requires
            lists_fit(compactions.relocation(), b),
            crate::vm::executable_valid(old(self)@, b),
        ensures
            final(self)@ == relocate_executable(old(self)@, compactions.relocation()),
    {
        compactions.sweep_vec(&mut self.constants, Ghost(b));
    }
}


/// Each marked entity moves to an index inside the compacted arena.
pub open spec fn remap_ok(l: Relocation, m: MarksModel, nb: Bounds) -> bool {
    &&& forall|i: int| 0 <= i < m.objects.len() && m.objects[i] ==> #[trigger] l.objects[i] < nb.objects
    &&& forall|i: int| 0 <= i < m.generators.len() && m.generators[i] ==> #[trigger] l.generators[i] < nb.generators
    &&& forall|i: int| 0 <= i < m.executables.len() && m.executables[i] ==> #[trigger] l.executables[i] < nb.executables
}

pub open spec fn marks_fit(m: MarksModel, b: Bounds) -> bool {
    &&& m.objects.len() == b.objects
    &&& m.generators.len() == b.generators
    &&& m.executables.len() == b.executables
}

/// The setting of a sweep: old bounds `b`, marks `m`, lists `l`, new bounds `nb`.
pub open spec fn sweep_setting(l: Relocation, m: MarksModel, b: Bounds, nb: Bounds) -> bool {
    &&& lists_fit(l, b)
    &&& marks_fit(m, b)
    &&& remap_ok(l, m, nb)
    &&& nb.strings == b.strings
}

proof fn lemma_relocate_value_valid(v: Value, l: Relocation, m: MarksModel, b: Bounds, nb: Bounds)
    requires
        sweep_setting(l, m, b, nb),
        value_valid(v, b),
        value_marked(v, m),
    ensures
        value_valid(relocate_value(v, l), nb),
{
    match v {
        Value::Object(i) => {
            assert(l.objects[i as int] < nb.objects);
        },
        Value::Generator(i) => {
            assert(l.generators[i as int] < nb.generators);
        },
        _ => {},
    }
}

proof fn lemma_relocate_values_valid(s: Seq<Value>, l: Relocation, m: MarksModel, b: Bounds, nb: Bounds)
    requires
        sweep_setting(l, m, b, nb),
        values_valid(s, b),
        values_marked(s, m),
    ensures
        values_valid(relocate_values(s, l), nb),
{
    assert forall|j: int| 0 <= j < s.len() implies value_valid(#[trigger] relocate_values(s, l)[j], nb) by {
        lemma_relocate_value_valid(s[j], l, m, b, nb);
    }
}

proof fn lemma_relocate_context_valid(c: ExecutionContext, l: Relocation, m: MarksModel, b: Bounds, nb: Bounds)
    requires
        sweep_setting(l, m, b, nb),
        context_valid(c, b),
        context_marked(c, m),
    ensures
        context_valid(relocate_context(c, l), nb),
{
    lemma_relocate_value_valid(c.this_value, l, m, b, nb);
    if let Some(f) = c.function {
        assert(l.objects[f as int] < nb.objects);
    }
}

proof fn lemma_relocate_object_valid(o: ObjectModel, l: Relocation, m: MarksModel, b: Bounds, nb: Bounds)
    requires
        sweep_setting(l, m, b, nb),
        object_valid(o, b),
        object_children_marked(o, m),
    ensures
        object_valid(relocate_object(o, l), nb),
{
    let r = relocate_object(o, l);
    if let Some(p) = o.prototype {
        assert(l.objects[p as int] < nb.objects);
    }
    if let ObjectKind::Error { cause: Some(c), .. } = o.kind {
        lemma_relocate_value_valid(c, l, m, b, nb);
    }
    assert forall|j: int| 0 <= j < r.properties.len() implies {
        &&& (#[trigger] r.properties[j]).key < nb.strings
        &&& value_valid(r.properties[j].value, nb)
    } by {
        assert(o.properties[j].key < b.strings);
        assert(value_marked(o.properties[j].value, m));
        lemma_relocate_value_valid(o.properties[j].value, l, m, b, nb);
    }
}

proof fn lemma_relocate_generator_valid(g: GeneratorModel, l: Relocation, m: MarksModel, b: Bounds, nb: Bounds)
    requires
        sweep_setting(l, m, b, nb),
        generator_valid(g, b),
        generator_children_marked(g, m),
    ensures
        generator_valid(relocate_generator(g, l), nb),
{
    if let Some(o) = g.object_index {
        assert(l.objects[o as int] < nb.objects);
    }
    if let Some(GeneratorStateModel::Suspended(rec)) = g.state {
        assert(l.executables[rec.executable.index as int] < nb.executables);
        lemma_relocate_context_valid(rec.execution_context, l, m, b, nb);
        match rec.vm_or_args {
            VmOrArgumentsModel::Vm(s) => {
                lemma_relocate_values_valid(s.stack, l, m, b, nb);
                lemma_relocate_values_valid(s.locals, l, m, b, nb);
                lemma_relocate_values_valid(s.arguments, l, m, b, nb);
            },
            VmOrArgumentsModel::Arguments(a) => {
                lemma_relocate_values_valid(a, l, m, b, nb);
            },
        }
    }
}

fn compact_objects(
    arena: &mut Vec<ObjectHeapData>,
    lists: &CompactionLists,
    Ghost(b): Ghost<Bounds>,
    Ghost(nb): Ghost<Bounds>,
) -> (r: Vec<ObjectHeapData>)
    requires
        sweep_setting(lists.relocation(), lists.marks@, b, nb),
        is_shift_map(lists.marks@.objects, lists.objects@),
        nb.objects == count_true(lists.marks@.objects),
        old(arena)@.len() == b.objects,
        forall|i: int| 0 <= i < old(arena)@.len() ==> object_valid(#[trigger] old(arena)@[i]@, b),
        forall|i: int|
            0 <= i < old(arena)@.len() && lists.marks@.objects[i] ==> object_children_marked(
                #[trigger] old(arena)@[i]@,
                lists.marks@,
            ),
    ensures
        r@.len() == nb.objects,
        forall|i: int|
            0 <= i < old(arena)@.len() && lists.marks@.objects[i] ==> #[trigger] r@[lists.objects@[i] as int]@
                == relocate_object(old(arena)@[i]@, lists.relocation()),
        forall|k: int| 0 <= k < r@.len() ==> object_valid(#[trigger] r@[k]@, nb),
{
    let ghost orig = arena@;
    let ghost l = lists.relocation();
    let ghost m = lists.marks@;
    let mut out: Vec<ObjectHeapData> = Vec::new();
    let mut i: usize = 0;
    while i < arena.len()
        invariant
            sweep_setting(l, m, b, nb),
            l == lists.relocation(),
            m == lists.marks@,
            is_shift_map(m.objects, l.objects),
            nb.objects == count_true(m.objects),
            orig.len() == b.objects,
            arena@.len() == orig.len(),
            i <= orig.len(),
            forall|j: int| i <= j < orig.len() ==> #[trigger] arena@[j] == orig[j],
            forall|j: int| 0 <= j < orig.len() ==> object_valid(#[trigger] orig[j]@, b),
            forall|j: int| 0 <= j < orig.len() && m.objects[j] ==> object_children_marked(#[trigger] orig[j]@, m),
            out@.len() == count_true(m.objects.take(i as int)),
            forall|j: int| 0 <= j < i && m.objects[j] ==> #[trigger] out@[l.objects[j] as int]@ == relocate_object(orig[j]@, l),
            forall|k: int| 0 <= k < out@.len() ==> object_valid(#[trigger] out@[k]@, nb),
        decreases orig.len() - i,
    {
        proof {
            lemma_count_true_step(m.objects, i as int);
            assert forall|j: int| 0 <= j < i && m.objects[j] implies #[trigger] l.objects[j] < out@.len() by {
                lemma_count_true_step(m.objects, j);
                lemma_count_true_mono(m.objects, j + 1, i as int);
            }
        }
        if lists.marks.objects[i] {
            let mut o = ObjectHeapData { prototype: None, kind: ObjectKind::Ordinary, properties: Vec::new() };
            std::mem::swap(&mut arena[i], &mut o);
            assert(o == orig[i as int]);
            o.sweep_values(lists, Ghost(b));
            proof {
                lemma_relocate_object_valid(orig[i as int]@, l, m, b, nb);
                assert(l.objects[i as int] == out@.len());
            }
            out.push(o);
        }
        i = i + 1;
    }
    assert(m.objects.take(orig.len() as int) =~= m.objects);
    out
}


fn compact_executables(
    arena: &mut Vec<ExecutableHeapData>,
    lists: &CompactionLists,
    Ghost(b): Ghost<Bounds>,
    Ghost(nb): Ghost<Bounds>,
) -> (r: Vec<ExecutableHeapData>)
    requires
        sweep_setting(lists.relocation(), lists.marks@, b, nb),
        is_shift_map(lists.marks@.executables, lists.executables@),
        nb.executables == count_true(lists.marks@.executables),
        old(arena)@.len() == b.executables,
        forall|i: int| 0 <= i < old(arena)@.len() ==> crate::vm::executable_valid(#[trigger] old(arena)@[i]@, b),
        forall|i: int|
            0 <= i < old(arena)@.len() && lists.marks@.executables[i] ==> executable_children_marked(
                #[trigger] old(arena)@[i]@,
                lists.marks@,
            ),
    ensures
        r@.len() == nb.executables,
        forall|i: int|
            0 <= i < old(arena)@.len() && lists.marks@.executables[i] ==> #[trigger] r@[lists.executables@[i] as int]@
                == relocate_executable(old(arena)@[i]@, lists.relocation()),
        forall|k: int| 0 <= k < r@.len() ==> crate::vm::executable_valid(#[trigger] r@[k]@, nb),
{
    let ghost orig = arena@;
    let ghost l = lists.relocation();
    let ghost m = lists.marks@;
    let mut out: Vec<ExecutableHeapData> = Vec::new();
    let mut i: usize = 0;
    while i < arena.len()
        invariant
            sweep_setting(l, m, b, nb),
            l == lists.relocation(),
            m == lists.marks@,
            is_shift_map(m.executables, l.executables),
            nb.executables == count_true(m.executables),
            orig.len() == b.executables,
            arena@.len() == orig.len(),
            i <= orig.len(),
            forall|j: int| i <= j < orig.len() ==> #[trigger] arena@[j] == orig[j],
            forall|j: int| 0 <= j < orig.len() ==> crate::vm::executable_valid(#[trigger] orig[j]@, b),
            forall|j: int| 0 <= j < orig.len() && m.executables[j] ==> executable_children_marked(#[trigger] orig[j]@, m),
            out@.len() == count_true(m.executables.take(i as int)),
            forall|j: int|
                0 <= j < i && m.executables[j] ==> #[trigger] out@[l.executables[j] as int]@ == relocate_executable(orig[j]@, l),
            forall|k: int| 0 <= k < out@.len() ==> crate::vm::executable_valid(#[trigger] out@[k]@, nb),
        decreases orig.len() - i,
    {
        proof {
            lemma_count_true_step(m.executables, i as int);
            assert forall|j: int| 0 <= j < i && m.executables[j] implies #[trigger] l.executables[j] < out@.len() by {
                lemma_count_true_step(m.executables, j);
                lemma_count_true_mono(m.executables, j + 1, i as int);
            }
        }
        if lists.marks.executables[i] {
            let mut e = ExecutableHeapData {
                instructions: Vec::new(),
                constants: Vec::new(),
                handlers: Vec::new(),
                local_count: 0,
            };
            std::mem::swap(&mut arena[i], &mut e);
            assert(e == orig[i as int]);
            e.sweep_values(lists, Ghost(b));
            proof {
                lemma_relocate_values_valid(orig[i as int]@.constants, l, m, b, nb);
                assert(l.executables[i as int] == out@.len());
            }
            out.push(e);
        }
        i = i + 1;
    }
    assert(m.executables.take(orig.len() as int) =~= m.executables);
    out
}

fn compact_generators(
    arena: &mut Vec<GeneratorHeapData>,
    lists: &CompactionLists,
    Ghost(b): Ghost<Bounds>,
    Ghost(nb): Ghost<Bounds>,
    Ghost(old_exes): Ghost<Seq<ExecutableModel>>,
    Ghost(new_exes): Ghost<Seq<ExecutableModel>>,
) -> (r: Vec<GeneratorHeapData>)
    requires
        sweep_setting(lists.relocation(), lists.marks@, b, nb),
        is_shift_map(lists.marks@.generators, lists.generators@),
        nb.generators == count_true(lists.marks@.generators),
        old(arena)@.len() == b.generators,
        old_exes.len() == b.executables,
        new_exes.len() == nb.executables,
        forall|y: int|
            0 <= y < old_exes.len() && lists.marks@.executables[y] ==> #[trigger] new_exes[lists.executables@[y] as int].instructions
                == old_exes[y].instructions,
        forall|i: int| 0 <= i < old(arena)@.len() ==> generator_valid(#[trigger] old(arena)@[i]@, b),
        forall|i: int|
            0 <= i < old(arena)@.len() ==> (#[trigger] crate::generator::suspended_executable(old(arena)@[i]@) matches Some(x)
                ==> crate::vm::is_generator_body(old_exes[x as int])),
        forall|i: int|
            0 <= i < old(arena)@.len() && lists.marks@.generators[i] ==> generator_children_marked(
                #[trigger] old(arena)@[i]@,
                lists.marks@,
            ),
    ensures
        r@.len() == nb.generators,
        forall|i: int|
            0 <= i < old(arena)@.len() && lists.marks@.generators[i] ==> #[trigger] r@[lists.generators@[i] as int]@
                == relocate_generator(old(arena)@[i]@, lists.relocation()),
        forall|k: int| 0 <= k < r@.len() ==> generator_valid(#[trigger] r@[k]@, nb),
        forall|k: int|
            0 <= k < r@.len() ==> (#[trigger] crate::generator::suspended_executable(r@[k]@) matches Some(x)
                ==> crate::vm::is_generator_body(new_exes[x as int])),
{
    let ghost orig = arena@;
    let ghost l = lists.relocation();
    let ghost m = lists.marks@;
    let mut out: Vec<GeneratorHeapData> = Vec::new();
    let mut i: usize = 0;
    while i < arena.len()
        invariant
            sweep_setting(l, m, b, nb),
            l == lists.relocation(),
            m == lists.marks@,
            is_shift_map(m.generators, l.generators),
            nb.generators == count_true(m.generators),
            orig.len() == b.generators,
            old_exes.len() == b.executables,
            new_exes.len() == nb.executables,
            forall|y: int|
                0 <= y < old_exes.len() && m.executables[y] ==> #[trigger] new_exes[l.executables[y] as int].instructions
                    == old_exes[y].instructions,
            arena@.len() == orig.len(),
            i <= orig.len(),
            forall|j: int| i <= j < orig.len() ==> #[trigger] arena@[j] == orig[j],
            forall|j: int| 0 <= j < orig.len() ==> generator_valid(#[trigger] orig[j]@, b),
            forall|j: int|
                0 <= j < orig.len() ==> (#[trigger] crate::generator::suspended_executable(orig[j]@) matches Some(x)
                    ==> crate::vm::is_generator_body(old_exes[x as int])),
            forall|j: int| 0 <= j < orig.len() && m.generators[j] ==> generator_children_marked(#[trigger] orig[j]@, m),
            out@.len() == count_true(m.generators.take(i as int)),
            forall|j: int|
                0 <= j < i && m.generators[j] ==> #[trigger] out@[l.generators[j] as int]@ == relocate_generator(orig[j]@, l),
            forall|k: int| 0 <= k < out@.len() ==> generator_valid(#[trigger] out@[k]@, nb),
            forall|k: int|
                0 <= k < out@.len() ==> (#[trigger] crate::generator::suspended_executable(out@[k]@) matches Some(x)
                    ==> crate::vm::is_generator_body(new_exes[x as int])),
        decreases orig.len() - i,
    {
        proof {
            lemma_count_true_step(m.generators, i as int);
            assert forall|j: int| 0 <= j < i && m.generators[j] implies #[trigger] l.generators[j] < out@.len() by {
                lemma_count_true_step(m.generators, j);
                lemma_count_true_mono(m.generators, j + 1, i as int);
            }
        }
        if lists.marks.generators[i] {
            let mut g = GeneratorHeapData { object_index: None, generator_state: None };
            std::mem::swap(&mut arena[i], &mut g);
            assert(g == orig[i as int]);
            g.sweep_values(lists, Ghost(b));
            proof {
                let g0 = orig[i as int]@;
                lemma_relocate_generator_valid(g0, l, m, b, nb);
                assert(l.generators[i as int] == out@.len());
                if let Some(y) = crate::generator::suspended_executable(g0) {
                    assert(generator_children_marked(g0, m));
                    assert(m.executables[y as int]);
                    assert(new_exes[l.executables[y as int] as int].instructions == old_exes[y as int].instructions);
                    assert(crate::vm::is_generator_body(old_exes[y as int]));
                    assert(crate::generator::suspended_executable(g@) == Some(l.executables[y as int]));
                    assert forall|t: int| 0 <= t < new_exes[l.executables[y as int] as int].instructions.len() implies
                        #[trigger] new_exes[l.executables[y as int] as int].instructions[t] != crate::vm::Instruction::Await by {
                        assert(old_exes[y as int].instructions[t] != crate::vm::Instruction::Await);
                    }
                }
            }
            out.push(g);
        }
        i = i + 1;
    }
    assert(m.generators.take(orig.len() as int) =~= m.generators);
    out
}


/// How a collection relates the agent before (`a`) to the agent after (`z`):
/// exactly the marked entities survive, and they are what the roots reach;
/// each moves by the lists with every index inside it rewritten, and the
/// roots themselves are rewritten alike.
pub open spec fn collected(a: Agent, z: Agent, r: CompactionLists) -> bool {
    let l = r.relocation();
    let m = r.marks@;
    &&& marking_done(a, m)
    &&& is_shift_map(m.objects, l.objects)
    &&& is_shift_map(m.generators, l.generators)
    &&& is_shift_map(m.executables, l.executables)
    &&& z.heap.strings@ == a.heap.strings@
    &&& z.heap.objects@.len() == count_true(m.objects)
    &&& z.heap.generators@.len() == count_true(m.generators)
    &&& z.heap.executables@.len() == count_true(m.executables)
    &&& forall|i: int|
        0 <= i < a.heap.objects@.len() && m.objects[i] ==> #[trigger] z.heap.objects_model()[l.objects[i] as int]
            == relocate_object(a.heap.objects_model()[i], l)
    &&& forall|i: int|
        0 <= i < a.heap.generators@.len() && m.generators[i] ==> #[trigger] z.heap.generators_model()[l.generators[i] as int]
            == relocate_generator(a.heap.generators_model()[i], l)
    &&& forall|i: int|
        0 <= i < a.heap.executables@.len() && m.executables[i] ==> #[trigger] z.heap.executables_model()[l.executables[i] as int]
            == relocate_executable(a.heap.executables_model()[i], l)
    &&& z.execution_context_stack@ == a.execution_context_stack@.map_values(|c: ExecutionContext| relocate_context(c, l))
    &&& z.scoped_roots@ == relocate_values(a.scoped_roots@, l)
    &&& z.intrinsics == relocate_intrinsics(a.intrinsics, l)
}

/// Collects the garbage of the agent: marks what its roots reach, compacts
/// every arena but the strings, and rewrites every index to match.
pub fn collect(agent: &mut Agent) -> (r: CompactionLists)
    requires
        old(agent).wf(),
    ensures
        final(agent).wf(),
        collected(*old(agent), *final(agent), r),
{
    let ghost a0 = *agent;
    let ghost h0 = agent.heap;
    let marks = mark(agent);
    let (om, no) = shift_map(&marks.objects);
    let (gm, ng) = shift_map(&marks.generators);
    let (em, ne) = shift_map(&marks.executables);
    let lists = CompactionLists { marks, objects: om, generators: gm, executables: em };
    let ghost l = lists.relocation();
    let ghost m = lists.marks@;
    let ghost b = h0.bounds();
    let ghost nb = Bounds { strings: b.strings, objects: no as nat, generators: ng as nat, executables: ne as nat };
    proof {
        assert forall|i: int| 0 <= i < m.objects.len() && m.objects[i] implies #[trigger] l.objects[i] < nb.objects by {
            lemma_shift_in_range(m.objects, i);
        }
        assert forall|i: int| 0 <= i < m.generators.len() && m.generators[i] implies #[trigger] l.generators[i] < nb.generators by {
            lemma_shift_in_range(m.generators, i);
        }
        assert forall|i: int| 0 <= i < m.executables.len() && m.executables[i] implies #[trigger] l.executables[i] < nb.executables by {
            lemma_shift_in_range(m.executables, i);
        }
        assert(sweep_setting(l, m, b, nb));
        assert(h0.objects@.len() == h0.objects.len());
        assert(h0.generators@.len() == h0.generators.len());
        assert(h0.executables@.len() == h0.executables.len());
        assert forall|i: int| 0 <= i < h0.objects@.len() implies object_valid(#[trigger] h0.objects@[i]@, b) by {
            assert(object_valid(h0.objects_model()[i], b));
        }
        assert forall|i: int| 0 <= i < h0.objects@.len() && m.objects[i] implies object_children_marked(#[trigger] h0.objects@[i]@, m) by {
            assert(ref_marked(HeapRef::Object(i as usize), m));
            assert(children_marked(h0, HeapRef::Object(i as usize), m));
        }
        assert forall|i: int| 0 <= i < h0.generators@.len() implies generator_valid(#[trigger] h0.generators@[i]@, b) by {
            assert(generator_valid(h0.generators_model()[i], b));
        }
        assert forall|i: int| 0 <= i < h0.generators@.len() implies (#[trigger] crate::generator::suspended_executable(h0.generators@[i]@) matches Some(x)
            ==> crate::vm::is_generator_body(h0.executables_model()[x as int])) by {
            assert(crate::generator::suspended_executable(h0.generators_model()[i]) matches Some(x)
                ==> crate::vm::is_generator_body(h0.executables_model()[x as int]));
        }
        assert forall|i: int| 0 <= i < h0.generators@.len() && m.generators[i] implies generator_children_marked(#[trigger] h0.generators@[i]@, m) by {
            assert(ref_marked(HeapRef::Generator(i as usize), m));
            assert(children_marked(h0, HeapRef::Generator(i as usize), m));
        }
        assert forall|i: int| 0 <= i < h0.executables@.len() implies crate::vm::executable_valid(#[trigger] h0.executables@[i]@, b) by {
            assert(crate::vm::executable_valid(h0.executables_model()[i], b));
        }
        assert forall|i: int| 0 <= i < h0.executables@.len() && m.executables[i] implies executable_children_marked(#[trigger] h0.executables@[i]@, m) by {
            assert(ref_marked(HeapRef::Executable(i as usize), m));
            assert(children_marked(h0, HeapRef::Executable(i as usize), m));
        }
    }
    let ghost stack0 = agent.execution_context_stack@;
    let mut k: usize = 0;
    while k < agent.execution_context_stack.len()
        invariant
            sweep_setting(l, m, b, nb),
            l == lists.relocation(),
            agent.heap == h0,
            agent.scoped_roots@ == a0.scoped_roots@,
            agent.intrinsics == a0.intrinsics,
            stack0 == a0.execution_context_stack@,
            crate::execution::contexts_valid(stack0, b),
            roots_marked(a0, m),
            agent.execution_context_stack@.len() == stack0.len(),
            k <= stack0.len(),
            forall|j: int| 0 <= j < k ==> #[trigger] agent.execution_context_stack@[j] == relocate_context(stack0[j], l),
            forall|j: int| k <= j < stack0.len() ==> #[trigger] agent.execution_context_stack@[j] == stack0[j],
        decreases stack0.len() - k,
    {
        assert(context_valid(stack0[k as int], b));
        let c = lists.sweep_context(agent.execution_context_stack[k], Ghost(b));
        agent.execution_context_stack.set(k, c);
        k = k + 1;
    }
    proof {
        assert(agent.execution_context_stack@ =~= stack0.map_values(|c: ExecutionContext| relocate_context(c, l)));
        assert forall|j: int| 0 <= j < stack0.len() implies context_valid(#[trigger] agent.execution_context_stack@[j], nb) by {
            assert(context_valid(stack0[j], b));
            assert(context_marked(stack0[j], m));
            lemma_relocate_context_valid(stack0[j], l, m, b, nb);
        }
    }
    lists.sweep_vec(&mut agent.scoped_roots, Ghost(b));
    let mut objects: Vec<ObjectHeapData> = Vec::new();
    std::mem::swap(&mut agent.heap.objects, &mut objects);
    let new_objects = compact_objects(&mut objects, &lists, Ghost(b), Ghost(nb));
    let mut executables: Vec<ExecutableHeapData> = Vec::new();
    std::mem::swap(&mut agent.heap.executables, &mut executables);
    let new_executables = compact_executables(&mut executables, &lists, Ghost(b), Ghost(nb));
    let ghost new_exes = new_executables@.map_values(|e: ExecutableHeapData| e@);
    proof {
        assert forall|y: int| 0 <= y < h0.executables_model().len() && m.executables[y] implies #[trigger] new_exes[l.executables[y] as int].instructions
            == h0.executables_model()[y].instructions by {
            assert(new_executables@[l.executables[y] as int]@ == relocate_executable(h0.executables@[y]@, l));
        }
    }
    let mut generators: Vec<GeneratorHeapData> = Vec::new();
    std::mem::swap(&mut agent.heap.generators, &mut generators);
    let new_generators = compact_generators(
        &mut generators,
        &lists,
        Ghost(b),
        Ghost(nb),
        Ghost(h0.executables_model()),
        Ghost(new_exes),
    );
    agent.heap.objects = new_objects;
    agent.heap.executables = new_executables;
    agent.heap.generators = new_generators;
    proof {
        let h = agent.heap;
        assert(h.bounds() == nb);
        assert(h.executables_model() =~= new_exes);
        assert forall|i: int| 0 <= i < h.objects@.len() implies object_valid(#[trigger] h.objects_model()[i], nb) by {
            assert(object_valid(h.objects@[i]@, nb));
        }
        assert forall|i: int| 0 <= i < h.generators@.len() implies generator_valid(#[trigger] h.generators_model()[i], nb) by {
            assert(generator_valid(h.generators@[i]@, nb));
        }
        assert forall|i: int| 0 <= i < h.executables@.len() implies crate::vm::executable_valid(#[trigger] h.executables_model()[i], nb) by {
            assert(crate::vm::executable_valid(h.executables@[i]@, nb));
        }
        assert forall|i: int| 0 <= i < h.generators@.len() implies (#[trigger] crate::generator::suspended_executable(h.generators_model()[i]) matches Some(x)
            ==> crate::vm::is_generator_body(h.executables_model()[x as int])) by {
            assert(crate::generator::suspended_executable(h.generators@[i]@) matches Some(x)
                ==> crate::vm::is_generator_body(new_exes[x as int]));
        }
        assert(h.wf());
    }
    proof {
        lemma_relocate_values_valid(a0.scoped_roots@, l, m, b, nb);
        assert forall|i: int| 0 <= i < h0.objects@.len() && m.objects[i] implies #[trigger] agent.heap.objects_model()[l.objects[i] as int]
            == relocate_object(h0.objects_model()[i], l) by {
            assert(agent.heap.objects@[l.objects[i] as int]@ == relocate_object(h0.objects@[i]@, l));
        }
        assert forall|i: int| 0 <= i < h0.generators@.len() && m.generators[i] implies #[trigger] agent.heap.generators_model()[l.generators[i] as int]
            == relocate_generator(h0.generators_model()[i], l) by {
            assert(agent.heap.generators@[l.generators[i] as int]@ == relocate_generator(h0.generators@[i]@, l));
        }
        assert forall|i: int| 0 <= i < h0.executables@.len() && m.executables[i] implies #[trigger] agent.heap.executables_model()[l.executables[i] as int]
            == relocate_executable(h0.executables_model()[i], l) by {
            assert(agent.heap.executables@[l.executables[i] as int]@ == relocate_executable(h0.executables@[i]@, l));
        }
    }
    let i = agent.intrinsics;
    agent.intrinsics = Intrinsics {
        object_prototype: lists.objects[i.object_prototype],
        boolean_prototype: lists.objects[i.boolean_prototype],
        error_prototype: lists.objects[i.error_prototype],
        weak_map_prototype: lists.objects[i.weak_map_prototype],
        generator_prototype: lists.objects[i.generator_prototype],
    };
    proof {
        assert(intrinsics_refs(i).contains(HeapRef::Object(i.object_prototype)));
        assert(ref_marked(HeapRef::Object(i.object_prototype), m));
        assert(intrinsics_refs(i).contains(HeapRef::Object(i.boolean_prototype)));
        assert(ref_marked(HeapRef::Object(i.boolean_prototype), m));
        assert(intrinsics_refs(i).contains(HeapRef::Object(i.error_prototype)));
        assert(ref_marked(HeapRef::Object(i.error_prototype), m));
        assert(intrinsics_refs(i).contains(HeapRef::Object(i.weak_map_prototype)));
        assert(ref_marked(HeapRef::Object(i.weak_map_prototype), m));
        assert(intrinsics_refs(i).contains(HeapRef::Object(i.generator_prototype)));
        assert(ref_marked(HeapRef::Object(i.generator_prototype), m));
    }
    lists
}

pub open spec fn relocate_intrinsics(i: Intrinsics, r: Relocation) -> Intrinsics {
    Intrinsics {
        object_prototype: r.objects[i.object_prototype as int],
        boolean_prototype: r.objects[i.boolean_prototype as int],
        error_prototype: r.objects[i.error_prototype as int],
        weak_map_prototype: r.objects[i.weak_map_prototype as int],
        generator_prototype: r.objects[i.generator_prototype as int],
    }
}


/// A generator that a scoped root holds survives a collection: the root
/// then holds its new index, its record is the old one with every index
/// rewritten, and each of those indices is valid in the compacted heap. Its
/// executable, moved as well, holds the same instructions.
pub proof fn lemma_collection_keeps_generator(a: Agent, z: Agent, r: CompactionLists, k: int, i: usize)
    requires
        a.wf(),
        z.wf(),
        collected(a, z, r),
        0 <= k < a.scoped_roots@.len(),
        a.scoped_roots@[k] == Value::Generator(i),
    ensures
        ({
            let l = r.relocation();
            let n = l.generators[i as int];
            &&& z.scoped_roots@[k] == Value::Generator(n)
            &&& n < z.heap.generators@.len()
            &&& z.heap.generators_model()[n as int] == relocate_generator(a.heap.generators_model()[i as int], l)
            &&& generator_valid(z.heap.generators_model()[n as int], z.heap.bounds())
            &&& (a.heap.generators_model()[i as int].state matches Some(GeneratorStateModel::Suspended(rec)) ==> {
                let x = l.executables[rec.executable.index as int];
                &&& x < z.heap.executables@.len()
                &&& z.heap.executables_model()[x as int].instructions
                    == a.heap.executables_model()[rec.executable.index as int].instructions
            })
        }),
{
    let l = r.relocation();
    let m = r.marks@;
    assert(values_marked(a.scoped_roots@, m));
    assert(value_marked(a.scoped_roots@[k], m));
    assert(m.generators[i as int]);
    lemma_shift_in_range(m.generators, i as int);
    let n = l.generators[i as int];
    assert(z.heap.generators_model()[n as int] == relocate_generator(a.heap.generators_model()[i as int], l));
    assert(generator_valid(z.heap.generators_model()[n as int], z.heap.bounds()));
    if let Some(GeneratorStateModel::Suspended(rec)) = a.heap.generators_model()[i as int].state {
        assert(values_valid(a.scoped_roots@, a.heap.bounds()));
        assert(children_marked(a.heap, HeapRef::Generator(i), m));
        let y = rec.executable.index;
        assert(m.executables[y as int]);
        lemma_shift_in_range(m.executables, y as int);
        assert(generator_valid(a.heap.generators_model()[i as int], a.heap.bounds()));
        assert(z.heap.executables_model()[l.executables[y as int] as int] == relocate_executable(a.heap.executables_model()[y as int], l));
    }
}

} // verus!
