use vstd::prelude::*;
use vstd::string::StringExecFns;

use crate::execution::{Agent, ProtoIntrinsics};
use crate::heap::{
    error_model, object_valid, value_valid, Heap, ObjectHeapData, ObjectKind, ObjectModel, Property,
    STR_FALSE, STR_NOT_PRIMITIVE, STR_NULL, STR_PROTOTYPE, STR_TRUE, STR_UNDEFINED,
};
use crate::value::{ExceptionType, JsError, JsResult, Value};

verus! {

/// The value of the first own property of `props` with key `key`, from `k` on.
pub open spec fn own_property_from(props: Seq<Property>, key: usize, k: nat) -> Option<Value>
    decreases props.len() - k,
{
    if k >= props.len() {
        None
    } else if props[k as int].key == key {
        Some(props[k as int].value)
    } else {
        own_property_from(props, key, k + 1)
    }
}

/// Looks `key` up on object `o` and then along its prototype chain, through
/// at most `fuel` objects.
pub open spec fn lookup(objs: Seq<ObjectModel>, o: nat, key: usize, fuel: nat) -> Option<Value>
    decreases fuel,
{
    if fuel == 0 || o >= objs.len() {
        None
    } else {
        match own_property_from(objs[o as int].properties, key, 0) {
            Some(v) => Some(v),
            None => match objs[o as int].prototype {
                Some(p) => lookup(objs, p as nat, key, (fuel - 1) as nat),
                None => None,
            },
        }
    }
}

/// `[[Get]]` of an ordinary object: the chain is followed through at most as
/// many objects as the heap holds, which covers every chain without a cycle.
pub open spec fn get_property(objs: Seq<ObjectModel>, o: nat, key: usize) -> Option<Value> {
    lookup(objs, o, key, objs.len())
}

fn own_property(props: &Vec<Property>, key: usize) -> (r: Option<Value>)
    ensures
        r == own_property_from(props@, key, 0),
{
    let mut k: usize = 0;
    while k < props.len()
        invariant
            k <= props@.len(),
            own_property_from(props@, key, 0) == own_property_from(props@, key, k as nat),
        decreases props.len() - k,
    {
        if props[k].key == key {
            return Some(props[k].value);
        }
        k = k + 1;
    }
    None
}

/// `Get(O, P)` on an object of the heap.
pub fn get(heap: &Heap, object: usize, key: usize) -> (r: Option<Value>)
    ensures
        r == get_property(heap.objects_model(), object as nat, key),
{
    let ghost objs = heap.objects_model();
    let mut o = object;
    let mut fuel = heap.objects.len();
    while fuel > 0 && o < heap.objects.len()
        invariant
            objs == heap.objects_model(),
            objs.len() == heap.objects@.len(),
            lookup(objs, o as nat, key, fuel as nat) == get_property(objs, object as nat, key),
        decreases fuel,
    {
        assert(objs[o as int] == heap.objects@[o as int]@);
        match own_property(&heap.objects[o].properties, key) {
            Some(v) => {
                return Some(v);
            },
            None => match heap.objects[o].prototype {
                Some(p) => {
                    o = p;
                    fuel = fuel - 1;
                },
                None => {
                    return None;
                },
            },
        }
    }
    None
}

/// `HasProperty(O, P)` on an object of the heap.
pub fn has_property(heap: &Heap, object: usize, key: usize) -> (r: bool)
    ensures
        r == get_property(heap.objects_model(), object as nat, key) is Some,
{
    get(heap, object, key).is_some()
}

pub open spec fn to_boolean_spec(strings: Seq<String>, v: Value) -> bool {
    match v {
        Value::Undefined => false,
        Value::Null => false,
        Value::Boolean(b) => b,
        Value::Integer(n) => n != 0,
        Value::String(i) => strings[i as int]@.len() > 0,
        Value::Object(_) => true,
        Value::Generator(_) => true,
    }
}

/// `ToBoolean(argument)`.
pub fn to_boolean(agent: &Agent, value: Value) -> (r: bool)
    requires
        value_valid(value, agent.heap.bounds()),
    ensures
        r == to_boolean_spec(agent.heap.strings@, value),
{
    match value {
        Value::Undefined => false,
        Value::Null => false,
        Value::Boolean(b) => b,
        Value::Integer(n) => n != 0,
        Value::String(i) => !agent.heap.strings[i].as_str().is_empty(),
        Value::Object(_) => true,
        Value::Generator(_) => true,
    }
}

pub open spec fn digit_char(d: nat) -> char {
    if d == 0 {
        '0'
    } else if d == 1 {
        '1'
    } else if d == 2 {
        '2'
    } else if d == 3 {
        '3'
    } else if d == 4 {
        '4'
    } else if d == 5 {
        '5'
    } else if d == 6 {
        '6'
    } else if d == 7 {
        '7'
    } else if d == 8 {
        '8'
    } else {
        '9'
    }
}

/// The decimal digits of `n`, most significant first, without leading zeros.
pub open spec fn digits(n: nat) -> Seq<char>
    decreases n,
{
    if n < 10 {
        seq![digit_char(n)]
    } else {
        digits(n / 10).push(digit_char(n % 10))
    }
}

/// The decimal numeral of `n`, with a leading minus sign when it is negative.
pub open spec fn decimal(n: int) -> Seq<char> {
    if n < 0 {
        seq!['-'] + digits((-n) as nat)
    } else {
        digits(n as nat)
    }
}

fn digit_str(d: u64) -> (r: &'static str)
    requires
        d < 10,
    ensures
        r@ == seq![digit_char(d as nat)],
{
    if d == 0 {
        proof {
            reveal_strlit("0");
        }
        assert("0"@ =~= seq![digit_char(d as nat)]);
        "0"
    } else if d == 1 {
        proof {
            reveal_strlit("1");
        }
        assert("1"@ =~= seq![digit_char(d as nat)]);
        "1"
    } else if d == 2 {
        proof {
            reveal_strlit("2");
        }
        assert("2"@ =~= seq![digit_char(d as nat)]);
        "2"
    } else if d == 3 {
        proof {
            reveal_strlit("3");
        }
        assert("3"@ =~= seq![digit_char(d as nat)]);
        "3"
    } else if d == 4 {
        proof {
            reveal_strlit("4");
        }
        assert("4"@ =~= seq![digit_char(d as nat)]);
        "4"
    } else if d == 5 {
        proof {
            reveal_strlit("5");
        }
        assert("5"@ =~= seq![digit_char(d as nat)]);
        "5"
    } else if d == 6 {
        proof {
            reveal_strlit("6");
        }
        assert("6"@ =~= seq![digit_char(d as nat)]);
        "6"
    } else if d == 7 {
        proof {
            reveal_strlit("7");
        }
        assert("7"@ =~= seq![digit_char(d as nat)]);
        "7"
    } else if d == 8 {
        proof {
            reveal_strlit("8");
        }
        assert("8"@ =~= seq![digit_char(d as nat)]);
        "8"
    } else {
        proof {
            reveal_strlit("9");
        }
        assert("9"@ =~= seq![digit_char(d as nat)]);
        "9"
    }
}

/// Appends the decimal digits of `n`.
fn append_digits(s: &mut String, n: u64)
    ensures
        final(s)@ == old(s)@ + digits(n as nat),
    decreases n,
{
    if n >= 10 {
        append_digits(s, n / 10);
    }
    let d = digit_str(n % 10);
    let ghost before = s@;
    s.append(d);
    proof {
        if n >= 10 {
            assert(digits(n as nat) == digits((n / 10) as nat).push(digit_char((n % 10) as nat)));
            assert(s@ =~= old(s)@ + digits(n as nat));
        } else {
            assert(s@ =~= old(s)@ + digits(n as nat));
        }
    }
}

/// The decimal numeral of `n`.
fn integer_to_string(n: i64) -> (r: String)
    ensures
        r@ == decimal(n as int),
{
    if n < 0 {
        proof {
            reveal_strlit("-");
        }
        let mut s = String::from_str("-");
        let m: u64 = if n == i64::MIN {
            9223372036854775808u64
        } else {
            (-n) as u64
        };
        append_digits(&mut s, m);
        assert(s@ =~= decimal(n as int));
        s
    } else {
        let mut s = String::new();
        append_digits(&mut s, n as u64);
        assert(s@ =~= decimal(n as int));
        s
    }
}

/// How `ToString` leaves the agent and what it returns: the index of a
/// string of the heap, or a `TypeError` for an object, which has no method
/// to convert it.
pub open spec fn to_string_post(a: Agent, z: Agent, v: Value, r: JsResult<usize>) -> bool {
    &&& z.heap.generators@ == a.heap.generators@
    &&& z.heap.executables@ == a.heap.executables@
    &&& z.execution_context_stack@ == a.execution_context_stack@
    &&& z.scoped_roots@ == a.scoped_roots@
    &&& match v {
        Value::Integer(n) => {
            &&& r == Ok::<usize, JsError>(a.heap.strings.len())
            &&& z.heap.strings@.len() == a.heap.strings@.len() + 1
            &&& z.heap.strings@.drop_last() == a.heap.strings@
            &&& z.heap.strings@.last()@ == decimal(n as int)
            &&& z.heap.objects@ == a.heap.objects@
        },
        Value::Object(_) | Value::Generator(_) => {
            &&& r == Err::<usize, JsError>(JsError { value: Value::Object(a.heap.objects.len()) })
            &&& z.heap.objects_model() == a.heap.objects_model().push(error_model(ExceptionType::TypeError, STR_NOT_PRIMITIVE))
            &&& z.heap.strings@ == a.heap.strings@
        },
        _ => {
            &&& z.heap.strings@ == a.heap.strings@
            &&& z.heap.objects@ == a.heap.objects@
            &&& r == Ok::<usize, JsError>(
                match v {
                    Value::String(i) => i,
                    Value::Boolean(true) => STR_TRUE,
                    Value::Boolean(false) => STR_FALSE,
                    Value::Null => STR_NULL,
                    _ => STR_UNDEFINED,
                },
            )
        },
    }
}

/// `ToString(argument)`, as the index of a string of the heap.
pub fn to_string(agent: &mut Agent, value: Value) -> (r: JsResult<usize>)
    requires
        old(agent).wf(),
        value_valid(value, old(agent).heap.bounds()),
    ensures
        final(agent).wf(),
        final(agent).intrinsics == old(agent).intrinsics,
        to_string_post(*old(agent), *final(agent), value, r),
        r matches Ok(i) ==> i < final(agent).heap.strings@.len(),
{
    match value {
        Value::String(i) => Ok(i),
        Value::Undefined => Ok(STR_UNDEFINED),
        Value::Null => Ok(STR_NULL),
        Value::Boolean(b) => if b {
            Ok(STR_TRUE)
        } else {
            Ok(STR_FALSE)
        },
        Value::Integer(n) => {
            let ghost a0 = *agent;
            let s = integer_to_string(n);
            let ghost b1 = agent.heap.bounds();
            let i = agent.heap.create_string(s);
            proof {
                let b2 = agent.heap.bounds();
                assert(agent.heap.strings@.drop_last() =~= a0.heap.strings@);
                assert forall|k: int| 0 <= k < agent.execution_context_stack@.len() implies crate::execution::context_valid(
                    #[trigger] agent.execution_context_stack@[k],
                    b2,
                ) by {
                    assert(crate::execution::context_valid(a0.execution_context_stack@[k], b1));
                }
                crate::heap::lemma_values_grow(agent.scoped_roots@, b1, b2);
            }
            Ok(i)
        },
        Value::Object(_) | Value::Generator(_) => {
            Err(agent.throw_exception_with_static_message(ExceptionType::TypeError, STR_NOT_PRIMITIVE))
        },
    }
}

/// `GetPrototypeFromConstructor`: the object under the constructor's
/// `prototype` key, or none when that is not an object.
pub open spec fn prototype_from_constructor(objs: Seq<ObjectModel>, constructor: usize) -> Option<usize> {
    match get_property(objs, constructor as nat, STR_PROTOTYPE) {
        Some(Value::Object(p)) => Some(p),
        _ => None,
    }
}

pub fn get_prototype_from_constructor(heap: &Heap, constructor: usize) -> (r: Option<usize>)
    requires
        heap.wf(),
    ensures
        r == prototype_from_constructor(heap.objects_model(), constructor),
        r matches Some(p) ==> p < heap.objects@.len(),
{
    match get(heap, constructor, STR_PROTOTYPE) {
        Some(Value::Object(p)) => {
            proof {
                lemma_lookup_valid(heap, constructor as nat, STR_PROTOTYPE, heap.objects@.len());
            }
            Some(p)
        },
        _ => None,
    }
}

/// What a lookup finds in a well-formed heap is a valid value.
pub proof fn lemma_lookup_valid(heap: &Heap, o: nat, key: usize, fuel: nat)
    requires
        heap.wf(),
    ensures
        lookup(heap.objects_model(), o, key, fuel) matches Some(v) ==> value_valid(v, heap.bounds()),
    decreases fuel,
{
    let objs = heap.objects_model();
    if fuel > 0 && o < objs.len() {
        assert(object_valid(objs[o as int], heap.bounds()));
        lemma_own_property_valid(objs[o as int].properties, key, 0, heap);
        if let Some(p) = objs[o as int].prototype {
            lemma_lookup_valid(heap, p as nat, key, (fuel - 1) as nat);
        }
    }
}

proof fn lemma_own_property_valid(props: Seq<Property>, key: usize, k: nat, heap: &Heap)
    requires
        forall|j: int| 0 <= j < props.len() ==> value_valid(#[trigger] props[j].value, heap.bounds()),
    ensures
        own_property_from(props, key, k) matches Some(v) ==> value_valid(v, heap.bounds()),
    decreases props.len() - k,
{
    if k < props.len() {
        lemma_own_property_valid(props, key, k + 1, heap);
    }
}

/// `OrdinaryCreateFromConstructor`: a new object of kind `kind` whose
/// prototype comes from `constructor`, or is the intrinsic `default`.
/// The prototype of an object made from `constructor`: the object under its
/// `prototype` key, else the realm's intrinsic `default`.
pub open spec fn prototype_or_default(a: Agent, constructor: Option<usize>, default: ProtoIntrinsics) -> usize {
    match constructor {
        Some(c) => match prototype_from_constructor(a.heap.objects_model(), c) {
            Some(p) => p,
            None => a.intrinsics.spec_get(default),
        },
        None => a.intrinsics.spec_get(default),
    }
}

pub fn ordinary_create_from_constructor(
    agent: &mut Agent,
    constructor: Option<usize>,
    default: ProtoIntrinsics,
    kind: ObjectKind,
) -> (r: usize)
    requires
        old(agent).wf(),
        constructor matches Some(c) ==> c < old(agent).heap.objects@.len(),
        crate::heap::kind_valid(kind, old(agent).heap.bounds()),
    ensures
        final(agent).wf(),
        final(agent).intrinsics == old(agent).intrinsics,
        r == old(agent).heap.objects.len(),
        final(agent).heap.objects_model() == old(agent).heap.objects_model().push(
            ObjectModel {
                prototype: Some(prototype_or_default(*old(agent), constructor, default)),
                kind,
                properties: Seq::empty(),
            },
        ),
        final(agent).heap.strings@ == old(agent).heap.strings@,
        final(agent).heap.generators@ == old(agent).heap.generators@,
        final(agent).heap.executables@ == old(agent).heap.executables@,
        final(agent).execution_context_stack@ == old(agent).execution_context_stack@,
        final(agent).scoped_roots@ == old(agent).scoped_roots@,
{
    let prototype = match constructor {
        Some(c) => match get_prototype_from_constructor(&agent.heap, c) {
            Some(p) => p,
            None => agent.intrinsics.get(default),
        },
        None => agent.intrinsics.get(default),
    };
    let prototype = Some(prototype);
    let data = ObjectHeapData { prototype, kind, properties: Vec::new() };
    assert(data@.properties =~= Seq::<Property>::empty());
    agent.create_object(data)
}

} // verus!
