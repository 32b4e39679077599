use vstd::prelude::*;

use crate::heap::{Bounds, STR_NOT_AN_INTEGER, value_valid, values_valid};
use crate::value::{JsError, Value};

verus! {

/// One instruction of the stack machine. Jumps only go forward: a jump whose
/// target is not after the jump itself falls through to the next instruction.
#[derive(Clone, Copy, Debug, PartialEq, Eq, Structural)]
pub enum Instruction {
    LoadUndefined,
    LoadConstant(usize),
    LoadArgument(usize),
    LoadLocal(usize),
    StoreLocal(usize),
    Pop,
    Add,
    Jump(usize),
    Yield,
    Await,
    Return,
    Throw,
}

/// An exception handler: a throw at an instruction in `start..end` continues
/// at `target` with the thrown value as the only operand.
#[derive(Clone, Copy, Debug, PartialEq, Eq, Structural)]
pub struct Handler {
    pub start: usize,
    pub end: usize,
    pub target: usize,
}

/// The handle of an executable: its index in the executables arena.
#[derive(Clone, Copy, Debug, PartialEq, Eq, Structural)]
pub struct Executable {
    pub index: usize,
}

/// Compiled bytecode of one function body.
#[derive(Debug)]
pub struct ExecutableHeapData {
    pub instructions: Vec<Instruction>,
    pub constants: Vec<Value>,
    pub handlers: Vec<Handler>,
    pub local_count: usize,
}

pub struct ExecutableModel {
    pub instructions: Seq<Instruction>,
    pub constants: Seq<Value>,
    pub handlers: Seq<Handler>,
    pub local_count: nat,
}

impl View for ExecutableHeapData {
    type V = ExecutableModel;

    open spec fn view(&self) -> ExecutableModel {
        ExecutableModel {
            instructions: self.instructions@,
            constants: self.constants@,
            handlers: self.handlers@,
            local_count: self.local_count as nat,
        }
    }
}

pub open spec fn executable_valid(e: ExecutableModel, b: Bounds) -> bool {
    values_valid(e.constants, b)
}

/// The body holds no instruction `ins`.
pub open spec fn lacks(e: ExecutableModel, ins: Instruction) -> bool {
    forall|i: int| 0 <= i < e.instructions.len() ==> #[trigger] e.instructions[i] != ins
}

/// A plain generator body: it never awaits.
pub open spec fn is_generator_body(e: ExecutableModel) -> bool {
    lacks(e, Instruction::Await)
}

/// A plain function body: it neither yields nor awaits.
pub open spec fn is_function_body(e: ExecutableModel) -> bool {
    lacks(e, Instruction::Await) && lacks(e, Instruction::Yield)
}

/// The activation record of a paused execution.
#[derive(Debug)]
pub struct SuspendedVm {
    pub ip: usize,
    pub stack: Vec<Value>,
    pub locals: Vec<Value>,
    pub arguments: Vec<Value>,
}

pub struct VmState {
    pub ip: nat,
    pub stack: Seq<Value>,
    pub locals: Seq<Value>,
    pub arguments: Seq<Value>,
}

impl View for SuspendedVm {
    type V = VmState;

    open spec fn view(&self) -> VmState {
        VmState {
            ip: self.ip as nat,
            stack: self.stack@,
            locals: self.locals@,
            arguments: self.arguments@,
        }
    }
}

pub open spec fn vm_state_valid(s: VmState, b: Bounds) -> bool {
    &&& values_valid(s.stack, b)
    &&& values_valid(s.locals, b)
    &&& values_valid(s.arguments, b)
}

/// How a run of the machine ends.
pub enum Outcome {
    Return(Value),
    Throw(Value),
    Yield(VmState, Value),
    Await(VmState, Value),
}

#[derive(Debug)]
pub enum ExecutionResult {
    Return(Value),
    Throw(JsError),
    Yield { vm: SuspendedVm, yielded_value: Value },
    Await { vm: SuspendedVm, awaited_value: Value },
}

impl View for ExecutionResult {
    type V = Outcome;

    open spec fn view(&self) -> Outcome {
        match self {
            ExecutionResult::Return(v) => Outcome::Return(*v),
            ExecutionResult::Throw(e) => Outcome::Throw(e.value),
            ExecutionResult::Yield { vm, yielded_value } => Outcome::Yield(vm@, *yielded_value),
            ExecutionResult::Await { vm, awaited_value } => Outcome::Await(vm@, *awaited_value),
        }
    }
}

pub open spec fn outcome_valid(o: Outcome, b: Bounds) -> bool {
    match o {
        Outcome::Return(v) => value_valid(v, b),
        Outcome::Throw(v) => value_valid(v, b),
        Outcome::Yield(s, v) => vm_state_valid(s, b) && value_valid(v, b),
        Outcome::Await(s, v) => vm_state_valid(s, b) && value_valid(v, b),
    }
}

pub open spec fn top(s: Seq<Value>) -> Value {
    if s.len() > 0 {
        s.last()
    } else {
        Value::Undefined
    }
}

pub open spec fn popped(s: Seq<Value>) -> Seq<Value> {
    if s.len() > 0 {
        s.drop_last()
    } else {
        s
    }
}

pub open spec fn value_at(s: Seq<Value>, i: nat) -> Value {
    if i < s.len() {
        s[i as int]
    } else {
        Value::Undefined
    }
}

/// Integer addition; `None` where an operand is not an integer or the sum
/// leaves the 64-bit range.
pub open spec fn add_values(a: Value, b: Value) -> Option<Value> {
    match (a, b) {
        (Value::Integer(x), Value::Integer(y)) => if i64::MIN <= x + y <= i64::MAX {
            Some(Value::Integer((x + y) as i64))
        } else {
            None
        },
        _ => None,
    }
}

/// The target of the first handler whose range covers `ip`, from `k` on.
pub open spec fn find_handler_from(hs: Seq<Handler>, ip: nat, k: nat) -> Option<nat>
    decreases hs.len() - k,
{
    if k >= hs.len() {
        None
    } else if hs[k as int].start <= ip < hs[k as int].end {
        Some(hs[k as int].target as nat)
    } else {
        find_handler_from(hs, ip, k + 1)
    }
}

pub open spec fn remaining(e: ExecutableModel, ip: nat) -> nat {
    if ip < e.instructions.len() {
        (e.instructions.len() - ip) as nat
    } else {
        0
    }
}

/// Runs the machine from state `s` to its next suspension point or to its end.
pub open spec fn run(e: ExecutableModel, s: VmState) -> Outcome
    decreases remaining(e, s.ip), 1nat,
{
    if s.ip >= e.instructions.len() {
        Outcome::Return(Value::Undefined)
    } else {
        let next = s.ip + 1;
        match e.instructions[s.ip as int] {
            Instruction::LoadUndefined => run(e, VmState { ip: next, stack: s.stack.push(Value::Undefined), ..s }),
            Instruction::LoadConstant(c) => run(e, VmState { ip: next, stack: s.stack.push(value_at(e.constants, c as nat)), ..s }),
            Instruction::LoadArgument(a) => run(e, VmState { ip: next, stack: s.stack.push(value_at(s.arguments, a as nat)), ..s }),
            Instruction::LoadLocal(l) => run(e, VmState { ip: next, stack: s.stack.push(value_at(s.locals, l as nat)), ..s }),
            Instruction::StoreLocal(l) => run(e, VmState {
                ip: next,
                stack: popped(s.stack),
                locals: if l < s.locals.len() { s.locals.update(l as int, top(s.stack)) } else { s.locals },
                ..s
            }),
            Instruction::Pop => run(e, VmState { ip: next, stack: popped(s.stack), ..s }),
            Instruction::Add => {
                let b = top(s.stack);
                let a = top(popped(s.stack));
                let rest = popped(popped(s.stack));
                match add_values(a, b) {
                    Some(r) => run(e, VmState { ip: next, stack: rest.push(r), ..s }),
                    None => throw_at(e, s, Value::String(STR_NOT_AN_INTEGER)),
                }
            },
            Instruction::Jump(t) => if t > s.ip {
                run(e, VmState { ip: t as nat, ..s })
            } else {
                run(e, VmState { ip: next, ..s })
            },
            Instruction::Yield => Outcome::Yield(VmState { stack: popped(s.stack), ..s }, top(s.stack)),
            Instruction::Await => Outcome::Await(VmState { stack: popped(s.stack), ..s }, top(s.stack)),
            Instruction::Return => Outcome::Return(top(s.stack)),
            Instruction::Throw => throw_at(e, s, top(s.stack)),
        }
    }
}

/// Raises `v` at the instruction `s.ip`: the first handler covering it takes
/// over, or the run ends with a throw.
pub open spec fn throw_at(e: ExecutableModel, s: VmState, v: Value) -> Outcome
    decreases remaining(e, s.ip), 0nat,
{
    match find_handler_from(e.handlers, s.ip, 0) {
        Some(t) => if s.ip < t && s.ip < e.instructions.len() {
            run(e, VmState { ip: t, stack: seq![v], ..s })
        } else {
            Outcome::Throw(v)
        },
        None => Outcome::Throw(v),
    }
}

/// The state in which a body starts: no operands, every local undefined.
pub open spec fn initial_state(e: ExecutableModel, args: Seq<Value>) -> VmState {
    VmState {
        ip: 0,
        stack: Seq::empty(),
        locals: Seq::new(e.local_count, |i: int| Value::Undefined),
        arguments: args,
    }
}

/// The state in which a body continues after a yield that received `v`.
pub open spec fn resumed_state(s: VmState, v: Value) -> VmState {
    VmState { ip: s.ip + 1, stack: s.stack.push(v), ..s }
}


/// A run never produces a value that its body and its state did not hold.
pub proof fn lemma_run_valid(e: ExecutableModel, s: VmState, b: Bounds)
    requires
        executable_valid(e, b),
        vm_state_valid(s, b),
        STR_NOT_AN_INTEGER < b.strings,
    ensures
        outcome_valid(run(e, s), b),
    decreases remaining(e, s.ip), 1nat,
{
    if s.ip < e.instructions.len() {
        let next = s.ip + 1;
        lemma_popped_valid(s.stack, b);
        lemma_popped_valid(popped(s.stack), b);
        match e.instructions[s.ip as int] {
            Instruction::LoadUndefined => {
                lemma_run_valid(e, VmState { ip: next, stack: s.stack.push(Value::Undefined), ..s }, b);
            },
            Instruction::LoadConstant(c) => {
                lemma_run_valid(e, VmState { ip: next, stack: s.stack.push(value_at(e.constants, c as nat)), ..s }, b);
            },
            Instruction::LoadArgument(a) => {
                lemma_run_valid(e, VmState { ip: next, stack: s.stack.push(value_at(s.arguments, a as nat)), ..s }, b);
            },
            Instruction::LoadLocal(l) => {
                lemma_run_valid(e, VmState { ip: next, stack: s.stack.push(value_at(s.locals, l as nat)), ..s }, b);
            },
            Instruction::StoreLocal(l) => {
                let locals = if l < s.locals.len() { s.locals.update(l as int, top(s.stack)) } else { s.locals };
                assert(values_valid(locals, b));
                lemma_run_valid(e, VmState { ip: next, stack: popped(s.stack), locals, ..s }, b);
            },
            Instruction::Pop => {
                lemma_run_valid(e, VmState { ip: next, stack: popped(s.stack), ..s }, b);
            },
            Instruction::Add => {
                let rest = popped(popped(s.stack));
                match add_values(top(popped(s.stack)), top(s.stack)) {
                    Some(r) => {
                        lemma_run_valid(e, VmState { ip: next, stack: rest.push(r), ..s }, b);
                    },
                    None => {
                        lemma_throw_valid(e, s, Value::String(STR_NOT_AN_INTEGER), b);
                    },
                }
            },
            Instruction::Jump(t) => {
                if t > s.ip {
                    lemma_run_valid(e, VmState { ip: t as nat, ..s }, b);
                } else {
                    lemma_run_valid(e, VmState { ip: next, ..s }, b);
                }
            },
            Instruction::Throw => {
                lemma_throw_valid(e, s, top(s.stack), b);
            },
            _ => {},
        }
    }
}

pub proof fn lemma_throw_valid(e: ExecutableModel, s: VmState, v: Value, b: Bounds)
    requires
        executable_valid(e, b),
        vm_state_valid(s, b),
        value_valid(v, b),
        STR_NOT_AN_INTEGER < b.strings,
    ensures
        outcome_valid(throw_at(e, s, v), b),
    decreases remaining(e, s.ip), 0nat,
{
    if let Some(t) = find_handler_from(e.handlers, s.ip, 0) {
        if s.ip < t && s.ip < e.instructions.len() {
            lemma_run_valid(e, VmState { ip: t, stack: seq![v], ..s }, b);
        }
    }
}

/// A body without a given suspending instruction never ends a run with
/// the suspension that the instruction makes.
pub proof fn lemma_run_lacks(e: ExecutableModel, s: VmState, ins: Instruction)
    requires
        lacks(e, ins),
    ensures
        ins == Instruction::Await ==> !(run(e, s) is Await),
        ins == Instruction::Yield ==> !(run(e, s) is Yield),
    decreases remaining(e, s.ip), 1nat,
{
    if s.ip < e.instructions.len() {
        let next = s.ip + 1;
        match e.instructions[s.ip as int] {
            Instruction::LoadUndefined => {
                lemma_run_lacks(e, VmState { ip: next, stack: s.stack.push(Value::Undefined), ..s }, ins);
            },
            Instruction::LoadConstant(c) => {
                lemma_run_lacks(e, VmState { ip: next, stack: s.stack.push(value_at(e.constants, c as nat)), ..s }, ins);
            },
            Instruction::LoadArgument(a) => {
                lemma_run_lacks(e, VmState { ip: next, stack: s.stack.push(value_at(s.arguments, a as nat)), ..s }, ins);
            },
            Instruction::LoadLocal(l) => {
                lemma_run_lacks(e, VmState { ip: next, stack: s.stack.push(value_at(s.locals, l as nat)), ..s }, ins);
            },
            Instruction::StoreLocal(l) => {
                let locals = if l < s.locals.len() { s.locals.update(l as int, top(s.stack)) } else { s.locals };
                lemma_run_lacks(e, VmState { ip: next, stack: popped(s.stack), locals, ..s }, ins);
            },
            Instruction::Pop => {
                lemma_run_lacks(e, VmState { ip: next, stack: popped(s.stack), ..s }, ins);
            },
            Instruction::Add => {
                let rest = popped(popped(s.stack));
                match add_values(top(popped(s.stack)), top(s.stack)) {
                    Some(r) => {
                        lemma_run_lacks(e, VmState { ip: next, stack: rest.push(r), ..s }, ins);
                    },
                    None => {
                        lemma_throw_lacks(e, s, Value::String(STR_NOT_AN_INTEGER), ins);
                    },
                }
            },
            Instruction::Jump(t) => {
                if t > s.ip {
                    lemma_run_lacks(e, VmState { ip: t as nat, ..s }, ins);
                } else {
                    lemma_run_lacks(e, VmState { ip: next, ..s }, ins);
                }
            },
            Instruction::Throw => {
                lemma_throw_lacks(e, s, top(s.stack), ins);
            },
            Instruction::Await => {
                assert(e.instructions[s.ip as int] != ins);
            },
            Instruction::Yield => {
                assert(e.instructions[s.ip as int] != ins);
            },
            _ => {},
        }
    }
}

pub proof fn lemma_throw_lacks(e: ExecutableModel, s: VmState, v: Value, ins: Instruction)
    requires
        lacks(e, ins),
    ensures
        ins == Instruction::Await ==> !(throw_at(e, s, v) is Await),
        ins == Instruction::Yield ==> !(throw_at(e, s, v) is Yield),
    decreases remaining(e, s.ip), 0nat,
{
    if let Some(t) = find_handler_from(e.handlers, s.ip, 0) {
        if s.ip < t && s.ip < e.instructions.len() {
            lemma_run_lacks(e, VmState { ip: t, stack: seq![v], ..s }, ins);
        }
    }
}

proof fn lemma_popped_valid(s: Seq<Value>, b: Bounds)
    requires
        values_valid(s, b),
    ensures
        values_valid(popped(s), b),
        value_valid(top(s), b),
{
}

fn pop_value(stack: &mut Vec<Value>) -> (r: Value)
    ensures
        r == top(old(stack)@),
        final(stack)@ == popped(old(stack)@),
{
    match stack.pop() {
        Some(v) => v,
        None => Value::Undefined,
    }
}

fn value_of(s: &Vec<Value>, i: usize) -> (r: Value)
    ensures
        r == value_at(s@, i as nat),
{
    if i < s.len() {
        s[i]
    } else {
        Value::Undefined
    }
}

fn add_integers(a: Value, b: Value) -> (r: Option<Value>)
    ensures
        r == add_values(a, b),
{
    match (a, b) {
        (Value::Integer(x), Value::Integer(y)) => match x.checked_add(y) {
            Some(z) => Some(Value::Integer(z)),
            None => None,
        },
        _ => None,
    }
}

fn find_handler(hs: &Vec<Handler>, ip: usize) -> (r: Option<usize>)
    ensures
        match r {
            Some(t) => find_handler_from(hs@, ip as nat, 0) == Some(t as nat),
            None => find_handler_from(hs@, ip as nat, 0) == None::<nat>,
        },
{
    let mut k: usize = 0;
    while k < hs.len()
        invariant
            k <= hs.len(),
            find_handler_from(hs@, ip as nat, 0) == find_handler_from(hs@, ip as nat, k as nat),
        decreases hs.len() - k,
    {
        if hs[k].start <= ip && ip < hs[k].end {
            return Some(hs[k].target);
        }
        k = k + 1;
    }
    None
}

impl ExecutableHeapData {
    /// Runs the body from `vm` to its next suspension point or its end.
    pub fn run_from_state(&self, vm: SuspendedVm) -> (r: ExecutionResult)
        ensures
            r@ == run(self@, vm@),
    {
        let ghost goal = run(self@, vm@);
        let SuspendedVm { ip, stack, locals, arguments } = vm;
        let mut ip = ip;
        let mut stack = stack;
        let mut locals = locals;
        let len = self.instructions.len();
        loop
            invariant
                len == self.instructions@.len(),
                goal == run(self@, vm@),
                run(self@, VmState { ip: ip as nat, stack: stack@, locals: locals@, arguments: arguments@ }) == goal,
            decreases remaining(self@, ip as nat),
        {
            let ghost s = VmState { ip: ip as nat, stack: stack@, locals: locals@, arguments: arguments@ };
            if ip >= len {
                assert(run(self@, s) == Outcome::Return(Value::Undefined));
                return ExecutionResult::Return(Value::Undefined);
            }
            let next = ip + 1;
            match self.instructions[ip] {
                Instruction::LoadUndefined => {
                    stack.push(Value::Undefined);
                    ip = next;
                },
                Instruction::LoadConstant(c) => {
                    stack.push(value_of(&self.constants, c));
                    ip = next;
                },
                Instruction::LoadArgument(a) => {
                    stack.push(value_of(&arguments, a));
                    ip = next;
                },
                Instruction::LoadLocal(l) => {
                    stack.push(value_of(&locals, l));
                    ip = next;
                },
                Instruction::StoreLocal(l) => {
                    let v = pop_value(&mut stack);
                    if l < locals.len() {
                        locals.set(l, v);
                    }
                    ip = next;
                },
                Instruction::Pop => {
                    pop_value(&mut stack);
                    ip = next;
                },
                Instruction::Add => {
                    let b = pop_value(&mut stack);
                    let a = pop_value(&mut stack);
                    match add_integers(a, b) {
                        Some(r) => {
                            stack.push(r);
                            ip = next;
                        },
                        None => {
                            let e = Value::String(STR_NOT_AN_INTEGER);
                            assert(run(self@, s) == throw_at(self@, s, e));
                            match find_handler(&self.handlers, ip) {
                                Some(t) => {
                                    if ip < t {
                                        stack = vec![e];
                                        assert(stack@ =~= seq![e]);
                                        ip = t;
                                    } else {
                                        return ExecutionResult::Throw(JsError::new(e));
                                    }
                                },
                                None => {
                                    return ExecutionResult::Throw(JsError::new(e));
                                },
                            }
                        },
                    }
                },
                Instruction::Jump(t) => {
                    if t > ip {
                        ip = t;
                    } else {
                        ip = next;
                    }
                },
                Instruction::Yield => {
                    let v = pop_value(&mut stack);
                    let vm = SuspendedVm { ip, stack, locals, arguments };
                    return ExecutionResult::Yield { vm, yielded_value: v };
                },
                Instruction::Await => {
                    let v = pop_value(&mut stack);
                    let vm = SuspendedVm { ip, stack, locals, arguments };
                    return ExecutionResult::Await { vm, awaited_value: v };
                },
                Instruction::Return => {
                    let v = pop_value(&mut stack);
                    return ExecutionResult::Return(v);
                },
                Instruction::Throw => {
                    let e = pop_value(&mut stack);
                    assert(run(self@, s) == throw_at(self@, s, e));
                    match find_handler(&self.handlers, ip) {
                        Some(t) => {
                            if ip < t {
                                stack = vec![e];
                                assert(stack@ =~= seq![e]);
                                ip = t;
                            } else {
                                return ExecutionResult::Throw(JsError::new(e));
                            }
                        },
                        None => {
                            return ExecutionResult::Throw(JsError::new(e));
                        },
                    }
                },
            }
        }
    }

    /// Starts the body afresh with the given arguments.
    pub fn execute(&self, arguments: Vec<Value>) -> (r: ExecutionResult)
        ensures
            r@ == run(self@, initial_state(self@, arguments@)),
    {
        let mut locals: Vec<Value> = Vec::new();
        let mut i: usize = 0;
        while i < self.local_count
            invariant
                i <= self.local_count,
                locals@ =~= Seq::new(i as nat, |j: int| Value::Undefined),
            decreases self.local_count - i,
        {
            locals.push(Value::Undefined);
            i = i + 1;
        }
        let vm = SuspendedVm { ip: 0, stack: Vec::new(), locals, arguments };
        assert(vm@ == initial_state(self@, arguments@));
        self.run_from_state(vm)
    }
}

impl SuspendedVm {
    /// Continues after the yield at which this record was taken; `value`
    /// becomes the result of that yield expression.
    pub fn resume(self, executable: &ExecutableHeapData, value: Value) -> (r: ExecutionResult)
        ensures
            r@ == run(executable@, resumed_state(self@, value)),
    {
        if self.ip >= executable.instructions.len() {
            return ExecutionResult::Return(Value::Undefined);
        }
        let SuspendedVm { ip, stack, locals, arguments } = self;
        let mut stack = stack;
        stack.push(value);
        let vm = SuspendedVm { ip: ip + 1, stack, locals, arguments };
        executable.run_from_state(vm)
    }

    /// Raises `value` at the yield at which this record was taken.
    pub fn resume_throw(self, executable: &ExecutableHeapData, value: Value) -> (r: ExecutionResult)
        ensures
            r@ == throw_at(executable@, self@, value),
    {
        match find_handler(&executable.handlers, self.ip) {
            Some(t) => {
                if self.ip < t && self.ip < executable.instructions.len() {
                    let SuspendedVm { ip, stack, locals, arguments } = self;
                    let stack = vec![value];
                    assert(stack@ =~= seq![value]);
                    let vm = SuspendedVm { ip: t, stack, locals, arguments };
                    executable.run_from_state(vm)
                } else {
                    ExecutionResult::Throw(JsError::new(value))
                }
            },
            None => ExecutionResult::Throw(JsError::new(value)),
        }
    }
}

} // verus!
