use std::marker::PhantomData;

use vstd::prelude::*;

use crate::context::NoGcScope;
use crate::execution::{context_valid, Agent, ExecutionContext, ProtoIntrinsics};
use crate::rootable::Scoped;
use crate::heap::{
    error_model, heap_model_wf, iter_result_model, value_valid, values_valid, Bounds, Heap, ObjectHeapData,
    ObjectKind, ObjectModel, STR_GENERATOR_RUNNING,
};
use crate::value::{ExceptionType, JsError, JsResult, Value};
use crate::vm::{
    initial_state, is_generator_body, lemma_run_valid, lemma_throw_valid, outcome_valid, resumed_state,
    run, throw_at, vm_state_valid, Executable, ExecutableModel, ExecutionResult, Outcome, SuspendedVm,
    VmState,
};

verus! {

/// A generator: its index in the generators arena, branded with the scope in
/// which it may be dereferenced.
#[derive(Clone, Copy, Debug, PartialEq, Eq)]
pub struct Generator<'a> {
    index: usize,
    brand: PhantomData<&'a ()>,
}

/// Either the record of a paused run (suspended-yield) or the arguments of a
/// run that has not begun (suspended-start).
#[derive(Debug)]
pub enum VmOrArguments {
    Vm(SuspendedVm),
    Arguments(Vec<Value>),
}

pub enum VmOrArgumentsModel {
    Vm(VmState),
    Arguments(Seq<Value>),
}

impl View for VmOrArguments {
    type V = VmOrArgumentsModel;

    open spec fn view(&self) -> VmOrArgumentsModel {
        match self {
            VmOrArguments::Vm(vm) => VmOrArgumentsModel::Vm(vm@),
            VmOrArguments::Arguments(a) => VmOrArgumentsModel::Arguments(a@),
        }
    }
}

#[derive(Debug)]
pub struct SuspendedGeneratorState {
    pub vm_or_args: VmOrArguments,
    pub executable: Executable,
    pub execution_context: ExecutionContext,
}

pub struct SuspendedModel {
    pub vm_or_args: VmOrArgumentsModel,
    pub executable: Executable,
    pub execution_context: ExecutionContext,
}

impl View for SuspendedGeneratorState {
    type V = SuspendedModel;

    open spec fn view(&self) -> SuspendedModel {
        SuspendedModel {
            vm_or_args: self.vm_or_args@,
            executable: self.executable,
            execution_context: self.execution_context,
        }
    }
}

#[derive(Debug)]
pub enum GeneratorState {
    Suspended(SuspendedGeneratorState),
    Executing,
    Completed,
}

pub enum GeneratorStateModel {
    Suspended(SuspendedModel),
    Executing,
    Completed,
}

impl View for GeneratorState {
    type V = GeneratorStateModel;

    open spec fn view(&self) -> GeneratorStateModel {
        match self {
            GeneratorState::Suspended(s) => GeneratorStateModel::Suspended(s@),
            GeneratorState::Executing => GeneratorStateModel::Executing,
            GeneratorState::Completed => GeneratorStateModel::Completed,
        }
    }
}

/// The heap record of a generator. Its state is absent only while the
/// generator is being constructed.
#[derive(Debug)]
pub struct GeneratorHeapData {
    pub object_index: Option<usize>,
    pub generator_state: Option<GeneratorState>,
}

pub struct GeneratorModel {
    pub object_index: Option<usize>,
    pub state: Option<GeneratorStateModel>,
}

impl View for GeneratorHeapData {
    type V = GeneratorModel;

    open spec fn view(&self) -> GeneratorModel {
        GeneratorModel {
            object_index: self.object_index,
            state: match self.generator_state {
                Some(s) => Some(s@),
                None => None,
            },
        }
    }
}

pub open spec fn vm_or_args_valid(v: VmOrArgumentsModel, b: Bounds) -> bool {
    match v {
        VmOrArgumentsModel::Vm(s) => vm_state_valid(s, b),
        VmOrArgumentsModel::Arguments(a) => values_valid(a, b),
    }
}

pub open spec fn suspended_valid(r: SuspendedModel, b: Bounds) -> bool {
    &&& r.executable.index < b.executables
    &&& context_valid(r.execution_context, b)
    &&& vm_or_args_valid(r.vm_or_args, b)
}

pub open spec fn generator_valid(g: GeneratorModel, b: Bounds) -> bool {
    &&& (g.object_index matches Some(o) ==> o < b.objects)
    &&& (g.state matches Some(GeneratorStateModel::Suspended(r)) ==> suspended_valid(r, b))
}

/// The executable that a suspended generator will run, if it is suspended.
pub open spec fn suspended_executable(g: GeneratorModel) -> Option<usize> {
    match g.state {
        Some(GeneratorStateModel::Suspended(r)) => Some(r.executable.index),
        _ => None,
    }
}

pub proof fn lemma_generator_grow(g: GeneratorModel, b1: Bounds, b2: Bounds)
    requires
        generator_valid(g, b1),
        b1.le(b2),
    ensures
        generator_valid(g, b2),
{
}


pub open spec fn state_model(s: Option<GeneratorState>) -> Option<GeneratorStateModel> {
    match s {
        Some(s) => Some(s@),
        None => None,
    }
}

/// A state that may be stored into a generator of heap `h`.
pub open spec fn state_fits(s: Option<GeneratorStateModel>, h: Heap) -> bool {
    match s {
        Some(GeneratorStateModel::Suspended(r)) => {
            &&& suspended_valid(r, h.bounds())
            &&& is_generator_body(h.executables_model()[r.executable.index as int])
        },
        _ => true,
    }
}

impl Heap {
    /// Stores `state` into generator `i` and hands back the state it held.
    pub fn replace_generator_state(&mut self, i: usize, state: Option<GeneratorState>) -> (r: Option<GeneratorState>)
        requires
            old(self).wf(),
            i < old(self).generators@.len(),
            state_fits(state_model(state), *old(self)),
        ensures
            final(self).wf(),
            state_model(r) == old(self).generators_model()[i as int].state,
            final(self).generators_model() == old(self).generators_model().update(
                i as int,
                GeneratorModel { object_index: old(self).generators_model()[i as int].object_index, state: state_model(state) },
            ),
            final(self).strings@ == old(self).strings@,
            final(self).objects@ == old(self).objects@,
            final(self).executables@ == old(self).executables@,
    {
        let ghost h1 = *self;
        let ghost new_model = GeneratorModel { object_index: h1.generators_model()[i as int].object_index, state: state_model(state) };
        let mut s = state;
        std::mem::swap(&mut self.generators[i].generator_state, &mut s);
        assert(self.generators_model() =~= h1.generators_model().update(i as int, new_model));
        proof {
            assert(generator_valid(h1.generators_model()[i as int], h1.bounds()));
            assert(self.bounds() == h1.bounds());
            assert(self.objects_model() == h1.objects_model());
            assert(self.executables_model() == h1.executables_model());
        }
        s
    }

    /// Adds a generator record; it gets the next free index.
    pub fn create_generator(&mut self, data: GeneratorHeapData) -> (r: usize)
        requires
            old(self).wf(),
            generator_valid(data@, old(self).bounds()),
            state_fits(data@.state, *old(self)),
        ensures
            final(self).wf(),
            r == old(self).generators@.len(),
            final(self).generators_model() == old(self).generators_model().push(data@),
            final(self).strings@ == old(self).strings@,
            final(self).objects@ == old(self).objects@,
            final(self).executables@ == old(self).executables@,
    {
        let r = self.generators.len();
        let ghost h1 = *self;
        self.generators.push(data);
        assert(self.generators_model() =~= h1.generators_model().push(data@));
        proof {
            lemma_generator_grow(data@, h1.bounds(), self.bounds());
            assert(self.executables_model() == h1.executables_model());
            crate::heap::lemma_heap_grow(h1, *self);
        }
        r
    }

    /// Stores the first backing object of generator `i`.
    pub fn set_generator_backing_object(&mut self, i: usize, object: usize)
        requires
            old(self).wf(),
            i < old(self).generators@.len(),
            object < old(self).objects@.len(),
            old(self).generators_model()[i as int].object_index is None,
        ensures
            final(self).wf(),
            final(self).generators_model() == old(self).generators_model().update(
                i as int,
                GeneratorModel { object_index: Some(object), state: old(self).generators_model()[i as int].state },
            ),
            final(self).strings@ == old(self).strings@,
            final(self).objects@ == old(self).objects@,
            final(self).executables@ == old(self).executables@,
    {
        let ghost h1 = *self;
        self.generators[i].object_index = Some(object);
        assert(self.generators_model() =~= h1.generators_model().update(
            i as int,
            GeneratorModel { object_index: Some(object), state: h1.generators_model()[i as int].state },
        ));
        proof {
            assert(generator_valid(h1.generators_model()[i as int], h1.bounds()));
            assert(self.bounds() == h1.bounds());
            assert(self.objects_model() == h1.objects_model());
            assert(self.executables_model() == h1.executables_model());
            assert(suspended_executable(self.generators_model()[i as int]) == suspended_executable(h1.generators_model()[i as int]));
        }
    }
}

/// What the body does when a suspended generator is resumed with `value`:
/// a fresh start from its arguments, or a continuation of the yield at which
/// it paused, normally or by a throw.
pub open spec fn body_outcome(e: ExecutableModel, v: VmOrArgumentsModel, value: Value, throw: bool) -> Outcome {
    match v {
        VmOrArgumentsModel::Arguments(args) => run(e, initial_state(e, args)),
        VmOrArgumentsModel::Vm(s) => if throw {
            throw_at(e, s, value)
        } else {
            run(e, resumed_state(s, value))
        },
    }
}

/// The intrinsics, the strings, the executables and the scoped roots stay as
/// they were.
pub open spec fn frame_kept(a: Agent, b: Agent) -> bool {
    &&& b.intrinsics == a.intrinsics
    &&& b.heap.strings@ == a.heap.strings@
    &&& b.heap.executables@ == a.heap.executables@
    &&& b.scoped_roots@ == a.scoped_roots@
}

pub open spec fn objects_kept(a: Agent, b: Agent) -> bool {
    b.heap.objects@ == a.heap.objects@
}

pub open spec fn object_added(a: Agent, b: Agent, m: ObjectModel) -> bool {
    b.heap.objects_model() == a.heap.objects_model().push(m)
}

pub open spec fn generators_kept(a: Agent, b: Agent) -> bool {
    b.heap.generators@ == a.heap.generators@
}

/// Generator `g` of `b` is that of `a` with its state set to `s`.
pub open spec fn generator_set(a: Agent, b: Agent, g: usize, s: GeneratorStateModel) -> bool {
    b.heap.generators_model() == a.heap.generators_model().update(
        g as int,
        GeneratorModel { object_index: a.heap.generators_model()[g as int].object_index, state: Some(s) },
    )
}

pub open spec fn generator_state_of(a: Agent, g: usize) -> GeneratorStateModel {
    a.heap.generators_model()[g as int].state.unwrap()
}

/// The state of generator `g` is initialised.
pub open spec fn is_live_generator(a: Agent, g: usize) -> bool {
    &&& g < a.heap.generators@.len()
    &&& a.heap.generators_model()[g as int].state is Some
}

/// How the first half of a resume leaves the agent: the state checks and,
/// for a generator that runs, the switch to executing with its context on
/// top of the stack.
pub open spec fn begin_post(a: Agent, b: Agent, g: usize, value: Value, throw: bool, r: ResumeStep) -> bool {
    let n = a.heap.objects.len();
    &&& frame_kept(a, b)
    &&& match generator_state_of(a, g) {
        GeneratorStateModel::Executing => {
            &&& r == ResumeStep::Finished(Err(JsError { value: Value::Object(n) }))
            &&& object_added(a, b, error_model(ExceptionType::TypeError, STR_GENERATOR_RUNNING))
            &&& generators_kept(a, b)
            &&& b.execution_context_stack@ == a.execution_context_stack@
        },
        GeneratorStateModel::Completed => {
            &&& generators_kept(a, b)
            &&& b.execution_context_stack@ == a.execution_context_stack@
            &&& if throw {
                r == ResumeStep::Finished(Err(JsError { value })) && objects_kept(a, b)
            } else {
                r == ResumeStep::Finished(Ok(Value::Object(n))) && object_added(a, b, iter_result_model(Value::Undefined, true))
            }
        },
        GeneratorStateModel::Suspended(rec) => {
            &&& objects_kept(a, b)
            &&& if throw && rec.vm_or_args is Arguments {
                &&& r == ResumeStep::Finished(Err(JsError { value }))
                &&& generator_set(a, b, g, GeneratorStateModel::Completed)
                &&& b.execution_context_stack@ == a.execution_context_stack@
            } else {
                &&& r matches ResumeStep::Started { vm_or_args, executable } && vm_or_args@ == rec.vm_or_args
                    && executable == rec.executable
                &&& generator_set(a, b, g, GeneratorStateModel::Executing)
                &&& b.execution_context_stack@ == a.execution_context_stack@.push(rec.execution_context)
            }
        },
    }
}

/// How the second half of a resume leaves the agent, given what the body did.
pub open spec fn complete_post(a: Agent, b: Agent, g: usize, o: Outcome, executable: Executable, r: JsResult<Value>) -> bool {
    let n = a.heap.objects.len();
    let ctx = a.execution_context_stack@.last();
    &&& frame_kept(a, b)
    &&& b.execution_context_stack@ == a.execution_context_stack@.drop_last()
    &&& match o {
        Outcome::Return(v) => {
            &&& r == Ok::<Value, JsError>(Value::Object(n))
            &&& object_added(a, b, iter_result_model(v, true))
            &&& generator_set(a, b, g, GeneratorStateModel::Completed)
        },
        Outcome::Throw(e) => {
            &&& r == Err::<Value, JsError>(JsError { value: e })
            &&& objects_kept(a, b)
            &&& generator_set(a, b, g, GeneratorStateModel::Completed)
        },
        Outcome::Yield(s, v) => {
            &&& r == Ok::<Value, JsError>(Value::Object(n))
            &&& object_added(a, b, iter_result_model(v, false))
            &&& generator_set(
                a,
                b,
                g,
                GeneratorStateModel::Suspended(
                    SuspendedModel { vm_or_args: VmOrArgumentsModel::Vm(s), executable, execution_context: ctx },
                ),
            )
        },
        Outcome::Await(..) => false,
    }
}

/// The whole of a resume, normal (`throw` false) or abrupt.
pub open spec fn resume_post(a: Agent, b: Agent, g: usize, value: Value, throw: bool, r: JsResult<Value>) -> bool {
    let n = a.heap.objects.len();
    &&& frame_kept(a, b)
    &&& b.execution_context_stack@ == a.execution_context_stack@
    &&& match generator_state_of(a, g) {
        GeneratorStateModel::Executing => {
            &&& r == Err::<Value, JsError>(JsError { value: Value::Object(n) })
            &&& object_added(a, b, error_model(ExceptionType::TypeError, STR_GENERATOR_RUNNING))
            &&& generators_kept(a, b)
        },
        GeneratorStateModel::Completed => {
            &&& generators_kept(a, b)
            &&& if throw {
                r == Err::<Value, JsError>(JsError { value }) && objects_kept(a, b)
            } else {
                r == Ok::<Value, JsError>(Value::Object(n)) && object_added(a, b, iter_result_model(Value::Undefined, true))
            }
        },
        GeneratorStateModel::Suspended(rec) => if throw && rec.vm_or_args is Arguments {
            &&& r == Err::<Value, JsError>(JsError { value })
            &&& objects_kept(a, b)
            &&& generator_set(a, b, g, GeneratorStateModel::Completed)
        } else {
            let e = a.heap.executables_model()[rec.executable.index as int];
            match body_outcome(e, rec.vm_or_args, value, throw) {
                Outcome::Return(v) => {
                    &&& r == Ok::<Value, JsError>(Value::Object(n))
                    &&& object_added(a, b, iter_result_model(v, true))
                    &&& generator_set(a, b, g, GeneratorStateModel::Completed)
                },
                Outcome::Throw(x) => {
                    &&& r == Err::<Value, JsError>(JsError { value: x })
                    &&& objects_kept(a, b)
                    &&& generator_set(a, b, g, GeneratorStateModel::Completed)
                },
                Outcome::Yield(s, v) => {
                    &&& r == Ok::<Value, JsError>(Value::Object(n))
                    &&& object_added(a, b, iter_result_model(v, false))
                    &&& generator_set(
                        a,
                        b,
                        g,
                        GeneratorStateModel::Suspended(
                            SuspendedModel { vm_or_args: VmOrArgumentsModel::Vm(s), ..rec },
                        ),
                    )
                },
                Outcome::Await(..) => false,
            }
        },
    }
}

/// The first half of a resume hands back either its final result or what
/// the body needs to run.
#[derive(Debug)]
pub enum ResumeStep {
    Finished(JsResult<Value>),
    Started { vm_or_args: VmOrArguments, executable: Executable },
}


impl<'a> View for Generator<'a> {
    type V = usize;

    closed spec fn view(&self) -> usize {
        self.index
    }
}

proof fn lemma_body_outcome(e: ExecutableModel, v: VmOrArgumentsModel, value: Value, throw: bool, b: Bounds)
    requires
        crate::vm::executable_valid(e, b),
        is_generator_body(e),
        vm_or_args_valid(v, b),
        value_valid(value, b),
        crate::heap::STR_NOT_AN_INTEGER < b.strings,
    ensures
        outcome_valid(body_outcome(e, v, value, throw), b),
        !(body_outcome(e, v, value, throw) is Await),
{
    match v {
        VmOrArgumentsModel::Arguments(args) => {
            let s = initial_state(e, args);
            assert(values_valid(s.locals, b));
            lemma_run_valid(e, s, b);
            crate::vm::lemma_run_lacks(e, s, crate::vm::Instruction::Await);
        },
        VmOrArgumentsModel::Vm(s) => if throw {
            lemma_throw_valid(e, s, value, b);
            crate::vm::lemma_throw_lacks(e, s, value, crate::vm::Instruction::Await);
        } else {
            let s2 = resumed_state(s, value);
            assert(values_valid(s2.stack, b));
            lemma_run_valid(e, s2, b);
            crate::vm::lemma_run_lacks(e, s2, crate::vm::Instruction::Await);
        },
    }
}

/// Runs a generator body that the first half of a resume handed out.
pub fn run_generator_body(
    agent: &Agent,
    executable: Executable,
    vm_or_args: VmOrArguments,
    value: Value,
    throw: bool,
) -> (r: ExecutionResult)
    requires
        executable.index < agent.heap.executables@.len(),
    ensures
        r@ == body_outcome(agent.heap.executables_model()[executable.index as int], vm_or_args@, value, throw),
{
    let exe = &agent.heap.executables[executable.index];
    match vm_or_args {
        VmOrArguments::Arguments(args) => exe.execute(args),
        VmOrArguments::Vm(vm) => if throw {
            vm.resume_throw(exe, value)
        } else {
            vm.resume(exe, value)
        },
    }
}

impl<'a> Generator<'a> {
    pub fn from_index(index: usize) -> (r: Generator<'a>)
        ensures
            r@ == index,
    {
        Generator { index, brand: PhantomData }
    }

    pub fn _def() -> (r: Generator<'a>)
        ensures
            r@ == 0,
    {
        Generator { index: 0, brand: PhantomData }
    }

    pub fn get_index(self) -> (r: usize)
        ensures
            r == self@,
    {
        self.index
    }

    pub fn into_value(self) -> (r: Value)
        ensures
            r == Value::Generator(self@),
    {
        Value::Generator(self.index)
    }

    /// The generator that `value` is, if it is one.
    pub fn try_from_value(value: Value) -> (r: Result<Generator<'a>, ()>)
        ensures
            match value {
                Value::Generator(i) => r matches Ok(g) && g@ == i,
                _ => r is Err,
            },
    {
        match value {
            Value::Generator(i) => Ok(Generator { index: i, brand: PhantomData }),
            _ => Err(()),
        }
    }

    /// Drops the brand, as must be done before a call that may collect.
    pub fn unbind(self) -> (r: Generator<'static>)
        ensures
            r@ == self@,
    {
        Generator { index: self.index, brand: PhantomData }
    }

    /// Brands the generator with the scope of `gc`: no collection can happen
    /// while the result is in use.
    pub fn bind<'gc>(self, gc: NoGcScope<'gc, '_>) -> (r: Generator<'gc>)
        ensures
            r@ == self@,
    {
        Generator { index: self.index, brand: PhantomData }
    }

    /// Roots the generator for the call scope of `gc`.
    pub fn scope<'scope>(self, agent: &mut Agent, gc: NoGcScope<'_, 'scope>) -> (r: Scoped<'scope, Generator<'static>>)
        requires
            old(agent).wf(),
            self@ < old(agent).heap.generators@.len(),
        ensures
            final(agent).wf(),
            final(agent).intrinsics == old(agent).intrinsics,
            r@ == old(agent).scoped_roots@.len(),
            final(agent).scoped_roots@ == old(agent).scoped_roots@.push(Value::Generator(self@)),
            final(agent).heap == old(agent).heap,
            final(agent).execution_context_stack@ == old(agent).execution_context_stack@,
    {
        let root = agent.scoped_roots.len();
        agent.scoped_roots.push(Value::Generator(self.unbind().get_index()));
        Scoped::from_root(root)
    }

    /// The first half of a resume: the state checks, then the switch to
    /// executing with the captured context pushed onto the stack.
    pub fn begin_resume(self, agent: &mut Agent, value: Value, throw: bool) -> (r: ResumeStep)
        requires
            old(agent).wf(),
            is_live_generator(*old(agent), self@),
            value_valid(value, old(agent).heap.bounds()),
        ensures
            final(agent).wf(),
            final(agent).intrinsics == old(agent).intrinsics,
            begin_post(*old(agent), *final(agent), self@, value, throw, r),
    {
        let g = self.index;
        let ghost a0 = *agent;
        let tag: u8 = match &agent.heap.generators[g].generator_state {
            Some(GeneratorState::Executing) => 0,
            Some(GeneratorState::Completed) => 1,
            Some(GeneratorState::Suspended(rec)) => match &rec.vm_or_args {
                VmOrArguments::Arguments(_) => 2,
                VmOrArguments::Vm(_) => 3,
            },
            None => 4,
        };
        assert(agent.heap.generators_model()[g as int] == agent.heap.generators@[g as int]@);
        if tag == 4 {
            proof {
                assert(false);
            }
            return ResumeStep::Finished(Err(JsError::new(value)));
        }
        if tag == 0 {
            let e = agent.throw_exception_with_static_message(ExceptionType::TypeError, STR_GENERATOR_RUNNING);
            return ResumeStep::Finished(Err(e));
        }
        if tag == 1 {
            if throw {
                return ResumeStep::Finished(Err(JsError::new(value)));
            }
            let o = agent.create_iter_result_object(Value::Undefined, true);
            return ResumeStep::Finished(Ok(o));
        }
        if throw && tag == 2 {
            agent.heap.replace_generator_state(g, Some(GeneratorState::Completed));
            return ResumeStep::Finished(Err(JsError::new(value)));
        }
        let old_state = agent.heap.replace_generator_state(g, Some(GeneratorState::Executing));
        match old_state {
            Some(GeneratorState::Suspended(SuspendedGeneratorState { vm_or_args, executable, execution_context })) => {
                proof {
                    assert(generator_valid(a0.heap.generators_model()[g as int], a0.heap.bounds()));
                }
                agent.execution_context_stack.push(execution_context);
                ResumeStep::Started { vm_or_args, executable }
            },
            _ => {
                proof {
                    assert(false);
                }
                ResumeStep::Finished(Err(JsError::new(value)))
            },
        }
    }

    /// The second half of a resume: pops the generator's context and records
    /// what the body did.
    pub fn complete_resume(self, agent: &mut Agent, result: ExecutionResult, executable: Executable) -> (r: JsResult<Value>)
        requires
            old(agent).wf(),
            is_live_generator(*old(agent), self@),
            generator_state_of(*old(agent), self@) == GeneratorStateModel::Executing,
            old(agent).execution_context_stack@.len() > 0,
            executable.index < old(agent).heap.executables@.len(),
            is_generator_body(old(agent).heap.executables_model()[executable.index as int]),
            outcome_valid(result@, old(agent).heap.bounds()),
            !(result@ is Await),
        ensures
            final(agent).wf(),
            final(agent).intrinsics == old(agent).intrinsics,
            complete_post(*old(agent), *final(agent), self@, result@, executable, r),
    {
        let g = self.index;
        let ghost a0 = *agent;
        let ctx = match agent.execution_context_stack.pop() {
            Some(c) => c,
            None => {
                proof {
                    assert(false);
                }
                return Err(JsError::new(Value::Undefined));
            },
        };
        proof {
            assert(context_valid(a0.execution_context_stack@.last(), a0.heap.bounds()));
            assert(crate::execution::contexts_valid(agent.execution_context_stack@, agent.heap.bounds()));
        }
        match result {
            ExecutionResult::Return(v) => {
                agent.heap.replace_generator_state(g, Some(GeneratorState::Completed));
                let o = agent.create_iter_result_object(v, true);
                Ok(o)
            },
            ExecutionResult::Throw(e) => {
                agent.heap.replace_generator_state(g, Some(GeneratorState::Completed));
                Err(e)
            },
            ExecutionResult::Yield { vm, yielded_value } => {
                let rec = SuspendedGeneratorState { vm_or_args: VmOrArguments::Vm(vm), executable, execution_context: ctx };
                agent.heap.replace_generator_state(g, Some(GeneratorState::Suspended(rec)));
                let o = agent.create_iter_result_object(yielded_value, false);
                Ok(o)
            },
            ExecutionResult::Await { .. } => {
                proof {
                    assert(false);
                }
                Err(JsError::new(Value::Undefined))
            },
        }
    }

    fn resume_with(self, agent: &mut Agent, value: Value, throw: bool) -> (r: JsResult<Value>)
        requires
            old(agent).wf(),
            is_live_generator(*old(agent), self@),
            value_valid(value, old(agent).heap.bounds()),
        ensures
            final(agent).wf(),
            final(agent).intrinsics == old(agent).intrinsics,
            resume_post(*old(agent), *final(agent), self@, value, throw, r),
    {
        let ghost a0 = *agent;
        let g = self.index;
        match self.begin_resume(agent, value, throw) {
            ResumeStep::Finished(r) => r,
            ResumeStep::Started { vm_or_args, executable } => {
                let ghost a1 = *agent;
                proof {
                    let rec = generator_state_of(a0, g)->Suspended_0;
                    assert(generator_valid(a0.heap.generators_model()[g as int], a0.heap.bounds()));
                    assert(suspended_executable(a0.heap.generators_model()[g as int]) == Some(rec.executable.index));
                    assert(a1.heap.executables_model() == a0.heap.executables_model());
                    assert(crate::vm::executable_valid(a1.heap.executables_model()[executable.index as int], a1.heap.bounds()));
                    lemma_body_outcome(
                        a1.heap.executables_model()[executable.index as int],
                        vm_or_args@,
                        value,
                        throw,
                        a1.heap.bounds(),
                    );
                    assert(a1.heap.generators_model()[g as int].state == Some(GeneratorStateModel::Executing));
                }
                let result = run_generator_body(agent, executable, vm_or_args, value, throw);
                let r = self.complete_resume(agent, result, executable);
                proof {
                    assert(a1.execution_context_stack@.drop_last() =~= a0.execution_context_stack@);
                    assert(agent.heap.generators_model() =~= a0.heap.generators_model().update(
                        g as int,
                        GeneratorModel {
                            object_index: a0.heap.generators_model()[g as int].object_index,
                            state: agent.heap.generators_model()[g as int].state,
                        },
                    ));
                }
                r
            },
        }
    }

    /// Resumes the generator normally: `value` becomes the result of the
    /// yield at which it paused (ignored on its first run).
    pub fn resume(self, agent: &mut Agent, value: Value) -> (r: JsResult<Value>)
        requires
            old(agent).wf(),
            is_live_generator(*old(agent), self@),
            value_valid(value, old(agent).heap.bounds()),
        ensures
            final(agent).wf(),
            final(agent).intrinsics == old(agent).intrinsics,
            resume_post(*old(agent), *final(agent), self@, value, false, r),
    {
        self.resume_with(agent, value, false)
    }

    /// Resumes the generator abruptly: `value` is thrown at the yield at
    /// which it paused.
    pub fn resume_throw(self, agent: &mut Agent, value: Value) -> (r: JsResult<Value>)
        requires
            old(agent).wf(),
            is_live_generator(*old(agent), self@),
            value_valid(value, old(agent).heap.bounds()),
        ensures
            final(agent).wf(),
            final(agent).intrinsics == old(agent).intrinsics,
            resume_post(*old(agent), *final(agent), self@, value, true, r),
    {
        self.resume_with(agent, value, true)
    }

    /// A new generator in the suspended-start state: it will run
    /// `executable` on `arguments` in `execution_context` when first resumed.
    pub fn new_suspended_start(
        agent: &mut Agent,
        executable: Executable,
        arguments: Vec<Value>,
        execution_context: ExecutionContext,
    ) -> (r: Generator<'a>)
        requires
            old(agent).wf(),
            executable.index < old(agent).heap.executables@.len(),
            is_generator_body(old(agent).heap.executables_model()[executable.index as int]),
            values_valid(arguments@, old(agent).heap.bounds()),
            context_valid(execution_context, old(agent).heap.bounds()),
        ensures
            final(agent).wf(),
            final(agent).intrinsics == old(agent).intrinsics,
            r@ == old(agent).heap.generators@.len(),
            final(agent).heap.generators_model() == old(agent).heap.generators_model().push(
                GeneratorModel {
                    object_index: None,
                    state: Some(GeneratorStateModel::Suspended(SuspendedModel {
                        vm_or_args: VmOrArgumentsModel::Arguments(arguments@),
                        executable,
                        execution_context,
                    })),
                },
            ),
            frame_kept(*old(agent), *final(agent)),
            objects_kept(*old(agent), *final(agent)),
            final(agent).execution_context_stack@ == old(agent).execution_context_stack@,
    {
        let ghost a0 = *agent;
        let data = GeneratorHeapData {
            object_index: None,
            generator_state: Some(GeneratorState::Suspended(SuspendedGeneratorState {
                vm_or_args: VmOrArguments::Arguments(arguments),
                executable,
                execution_context,
            })),
        };
        let i = agent.heap.create_generator(data);
        proof {
            let b2 = agent.heap.bounds();
            assert forall|k: int| 0 <= k < agent.execution_context_stack@.len() implies context_valid(
                #[trigger] agent.execution_context_stack@[k],
                b2,
            ) by {
                assert(context_valid(a0.execution_context_stack@[k], a0.heap.bounds()));
            }
            assert(values_valid(agent.scoped_roots@, b2)) by {
                assert forall|k: int| 0 <= k < agent.scoped_roots@.len() implies value_valid(#[trigger] agent.scoped_roots@[k], b2) by {
                    assert(value_valid(a0.scoped_roots@[k], a0.heap.bounds()));
                }
            }
        }
        Generator { index: i, brand: PhantomData }
    }

    pub fn get_backing_object(self, agent: &Agent) -> (r: Option<usize>)
        requires
            self@ < agent.heap.generators@.len(),
        ensures
            r == agent.heap.generators_model()[self@ as int].object_index,
    {
        agent.heap.generators[self.index].object_index
    }

    /// Attaches the object that carries the generator's properties; a
    /// generator gets one at most once.
    pub fn set_backing_object(self, agent: &mut Agent, backing_object: usize)
        requires
            old(agent).wf(),
            self@ < old(agent).heap.generators@.len(),
            backing_object < old(agent).heap.objects@.len(),
            old(agent).heap.generators_model()[self@ as int].object_index is None,
        ensures
            final(agent).wf(),
            final(agent).intrinsics == old(agent).intrinsics,
            final(agent).heap.generators_model() == old(agent).heap.generators_model().update(
                self@ as int,
                GeneratorModel {
                    object_index: Some(backing_object),
                    state: old(agent).heap.generators_model()[self@ as int].state,
                },
            ),
            frame_kept(*old(agent), *final(agent)),
            objects_kept(*old(agent), *final(agent)),
            final(agent).execution_context_stack@ == old(agent).execution_context_stack@,
    {
        agent.heap.set_generator_backing_object(self.index, backing_object);
    }
}


/// Enters a generator function: makes its generator object, whose backing
/// object takes its prototype from `function_object` (else
/// `%GeneratorFunction.prototype.prototype%`), suspended at the start of
/// `executable` on `arguments` in the running execution context. No bytecode
/// runs yet.
pub fn evaluate_generator_body(
    agent: &mut Agent,
    function_object: usize,
    executable: Executable,
    arguments: Vec<Value>,
) -> (r: Value)
    requires
        old(agent).wf(),
        old(agent).execution_context_stack@.len() > 0,
        executable.index < old(agent).heap.executables@.len(),
        is_generator_body(old(agent).heap.executables_model()[executable.index as int]),
        values_valid(arguments@, old(agent).heap.bounds()),
        function_object < old(agent).heap.objects@.len(),
    ensures
        final(agent).wf(),
        final(agent).intrinsics == old(agent).intrinsics,
        r == Value::Generator(old(agent).heap.generators.len()),
        final(agent).heap.objects_model() == old(agent).heap.objects_model().push(
            ObjectModel {
                prototype: Some(crate::abstract_operations::prototype_or_default(
                    *old(agent),
                    Some(function_object),
                    ProtoIntrinsics::Generator,
                )),
                kind: ObjectKind::Ordinary,
                properties: Seq::empty(),
            },
        ),
        final(agent).heap.generators_model() == old(agent).heap.generators_model().push(
            GeneratorModel {
                object_index: Some(old(agent).heap.objects.len()),
                state: Some(GeneratorStateModel::Suspended(SuspendedModel {
                    vm_or_args: VmOrArgumentsModel::Arguments(arguments@),
                    executable,
                    execution_context: old(agent).execution_context_stack@.last(),
                })),
            },
        ),
        frame_kept(*old(agent), *final(agent)),
        final(agent).execution_context_stack@ == old(agent).execution_context_stack@,
{
    let ghost a0 = *agent;
    let o = crate::abstract_operations::ordinary_create_from_constructor(
        agent,
        Some(function_object),
        ProtoIntrinsics::Generator,
        ObjectKind::Ordinary,
    );
    let ctx = agent.running_execution_context();
    proof {
        assert(crate::execution::context_valid(a0.execution_context_stack@.last(), a0.heap.bounds()));
        crate::heap::lemma_values_grow(arguments@, a0.heap.bounds(), agent.heap.bounds());
    }
    let g: Generator<'static> = Generator::new_suspended_start(agent, executable, arguments, ctx);
    let ghost a2 = *agent;
    g.set_backing_object(agent, o);
    assert(agent.heap.generators_model() =~= a0.heap.generators_model().push(
        GeneratorModel {
            object_index: Some(a0.heap.objects.len()),
            state: Some(GeneratorStateModel::Suspended(SuspendedModel {
                vm_or_args: VmOrArgumentsModel::Arguments(arguments@),
                executable,
                execution_context: a0.execution_context_stack@.last(),
            })),
        },
    ));
    Value::Generator(g.get_index())
}

/// A resume leaves the agent's context stack as it found it, and a generator
/// that was not executing is afterwards suspended or completed: its captured
/// context is then held by its record, not by the stack.
pub proof fn lemma_resume_restores_stack(a: Agent, b: Agent, g: usize, value: Value, throw: bool, r: JsResult<Value>)
    requires
        a.wf(),
        is_live_generator(a, g),
        resume_post(a, b, g, value, throw, r),
        generator_state_of(a, g) != GeneratorStateModel::Executing,
    ensures
        b.execution_context_stack@ == a.execution_context_stack@,
        is_live_generator(b, g),
        generator_state_of(b, g) != GeneratorStateModel::Executing,
{
    lemma_resume_live(a, b, g, value, throw, r);
}

proof fn lemma_resume_live(a: Agent, b: Agent, g: usize, value: Value, throw: bool, r: JsResult<Value>)
    requires
        is_live_generator(a, g),
        resume_post(a, b, g, value, throw, r),
    ensures
        is_live_generator(b, g),
        generator_state_of(a, g) != GeneratorStateModel::Executing ==> generator_state_of(b, g) != GeneratorStateModel::Executing,
        generator_state_of(a, g) == GeneratorStateModel::Executing ==> generator_state_of(b, g) == GeneratorStateModel::Executing,
        generator_state_of(a, g) == GeneratorStateModel::Completed ==> generator_state_of(b, g) == GeneratorStateModel::Completed,
{
    assert(b.heap.generators_model().len() == b.heap.generators@.len());
    assert(a.heap.generators_model().len() == a.heap.generators@.len());
}

/// A completed generator stays completed: a resume changes no generator.
pub proof fn lemma_completed_is_terminal(a: Agent, b: Agent, g: usize, value: Value, throw: bool, r: JsResult<Value>)
    requires
        is_live_generator(a, g),
        generator_state_of(a, g) == GeneratorStateModel::Completed,
        resume_post(a, b, g, value, throw, r),
    ensures
        b.heap.generators@ == a.heap.generators@,
        generator_state_of(b, g) == GeneratorStateModel::Completed,
{
}

/// Over any number of resumes of one generator: the context stack ends as it
/// began, a generator that was not executing never is between calls, and
/// one that was completed stays completed.
pub proof fn lemma_resume_sequence(
    agents: Seq<Agent>,
    g: usize,
    values: Seq<Value>,
    throws: Seq<bool>,
    results: Seq<JsResult<Value>>,
)
    requires
        agents.len() >= 1,
        values.len() == agents.len() - 1,
        throws.len() == agents.len() - 1,
        results.len() == agents.len() - 1,
        is_live_generator(agents[0], g),
        generator_state_of(agents[0], g) != GeneratorStateModel::Executing,
        forall|i: int|
            0 <= i < agents.len() - 1 ==> resume_post(
                #[trigger] agents[i],
                agents[i + 1],
                g,
                values[i],
                throws[i],
                results[i],
            ),
    ensures
        agents.last().execution_context_stack@ == agents[0].execution_context_stack@,
        is_live_generator(agents.last(), g),
        generator_state_of(agents.last(), g) != GeneratorStateModel::Executing,
        generator_state_of(agents[0], g) == GeneratorStateModel::Completed ==> generator_state_of(agents.last(), g)
            == GeneratorStateModel::Completed,
    decreases agents.len(),
{
    if agents.len() > 1 {
        let n = agents.len() - 1;
        let prefix = agents.subrange(0, n);
        assert forall|i: int| 0 <= i < prefix.len() - 1 implies resume_post(
            #[trigger] prefix[i],
            prefix[i + 1],
            g,
            values.subrange(0, n - 1)[i],
            throws.subrange(0, n - 1)[i],
            results.subrange(0, n - 1)[i],
        ) by {
            assert(resume_post(agents[i], agents[i + 1], g, values[i], throws[i], results[i]));
        }
        lemma_resume_sequence(prefix, g, values.subrange(0, n - 1), throws.subrange(0, n - 1), results.subrange(0, n - 1));
        assert(prefix.last() == agents[n - 1]);
        assert(resume_post(agents[n - 1], agents[n], g, values[n - 1], throws[n - 1], results[n - 1]));
        lemma_resume_live(agents[n - 1], agents[n], g, values[n - 1], throws[n - 1], results[n - 1]);
    }
}

/// The first run of a generator starts its body on the stored arguments:
/// the value handed to that resume is not seen.
pub proof fn lemma_start_ignores_value(
    a: Agent,
    b1: Agent,
    b2: Agent,
    g: usize,
    v1: Value,
    v2: Value,
    r1: JsResult<Value>,
    r2: JsResult<Value>,
)
    requires
        is_live_generator(a, g),
        generator_state_of(a, g) matches GeneratorStateModel::Suspended(rec) && rec.vm_or_args is Arguments,
        resume_post(a, b1, g, v1, false, r1),
        resume_post(a, b2, g, v2, false, r2),
    ensures
        r1 == r2,
        b1.heap.objects_model() == b2.heap.objects_model(),
        b1.heap.generators_model() == b2.heap.generators_model(),
{
}

/// After a yield, a normal resume with `v` continues right after the yield
/// with `v` as the value of the yield expression, and an abrupt resume
/// raises `v` at the yield itself.
pub proof fn lemma_yield_receives_value(
    a: Agent,
    b: Agent,
    c: Agent,
    g: usize,
    v0: Value,
    t0: bool,
    r0: JsResult<Value>,
    v: Value,
    throw: bool,
    r: JsResult<Value>,
    s: VmState,
)
    requires
        is_live_generator(a, g),
        resume_post(a, b, g, v0, t0, r0),
        generator_state_of(b, g) matches GeneratorStateModel::Suspended(rec) && rec.vm_or_args == VmOrArgumentsModel::Vm(s),
        resume_post(b, c, g, v, throw, r),
    ensures
        ({
            let e = b.heap.executables_model()[(generator_state_of(b, g)->Suspended_0).executable.index as int];
            &&& !throw ==> body_outcome(e, VmOrArgumentsModel::Vm(s), v, throw) == run(e, resumed_state(s, v))
            &&& !throw ==> resumed_state(s, v).stack.last() == v && resumed_state(s, v).ip == s.ip + 1
            &&& throw ==> body_outcome(e, VmOrArgumentsModel::Vm(s), v, throw) == throw_at(e, s, v)
        }),
{
}

/// An abrupt resume of a generator that never ran completes it at once, with
/// no other effect, and hands the thrown value back; a later resume then
/// sees it completed.
pub proof fn lemma_throw_at_start(
    a: Agent,
    b: Agent,
    c: Agent,
    g: usize,
    v: Value,
    r: JsResult<Value>,
    v2: Value,
    r2: JsResult<Value>,
)
    requires
        is_live_generator(a, g),
        generator_state_of(a, g) matches GeneratorStateModel::Suspended(rec) && rec.vm_or_args is Arguments,
        resume_post(a, b, g, v, true, r),
        resume_post(b, c, g, v2, false, r2),
    ensures
        r == Err::<Value, JsError>(JsError { value: v }),
        generator_state_of(b, g) == GeneratorStateModel::Completed,
        b.heap.objects@ == a.heap.objects@,
        b.execution_context_stack@ == a.execution_context_stack@,
        r2 == Ok::<Value, JsError>(Value::Object(b.heap.objects.len())),
        c.heap.objects_model() == b.heap.objects_model().push(iter_result_model(Value::Undefined, true)),
{
    assert(b.heap.generators_model()[g as int].state == Some(GeneratorStateModel::Completed));
}

} // verus!
