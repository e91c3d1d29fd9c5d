use vstd::prelude::*;

verus! {

/// The first number of the natives that this library runs itself. A host numbers its own
/// natives below it.
pub const LIBRARY_NATIVES: usize = 1000000;

// Vectors and their iterators.
pub const VEC_NEW: usize = LIBRARY_NATIVES;
pub const VEC_PUSH: usize = LIBRARY_NATIVES + 1;
pub const VEC_INSERT: usize = LIBRARY_NATIVES + 2;
pub const VEC_POP: usize = LIBRARY_NATIVES + 3;
pub const VEC_REMOVE: usize = LIBRARY_NATIVES + 4;
pub const VEC_GET: usize = LIBRARY_NATIVES + 5;
pub const VEC_INDEX: usize = LIBRARY_NATIVES + 6;
pub const VEC_SET: usize = LIBRARY_NATIVES + 7;
pub const VEC_IS_EMPTY: usize = LIBRARY_NATIVES + 8;
pub const VEC_LEN: usize = LIBRARY_NATIVES + 9;
pub const VEC_INTO_ITER: usize = LIBRARY_NATIVES + 10;
pub const ITER_NEXT: usize = LIBRARY_NATIVES + 11;

// Options.
pub const OPTION_NONE: usize = LIBRARY_NATIVES + 20;
pub const OPTION_SOME: usize = LIBRARY_NATIVES + 21;
pub const OPTION_UNWRAP: usize = LIBRARY_NATIVES + 22;
pub const OPTION_EXPECT: usize = LIBRARY_NATIVES + 23;
pub const OPTION_IS_SOME: usize = LIBRARY_NATIVES + 24;
pub const OPTION_IS_NONE: usize = LIBRARY_NATIVES + 25;

} // verus!

use crate::executor::ExecutorErrorKind;
use crate::instructor::CallInfo;
use crate::module::FunctionKind;
use crate::types::ValueType;
use crate::value::{Value, same_value};

verus! {

/// The number that a native's kind carries.
pub open spec fn native_id(k: FunctionKind) -> usize {
    match k {
        FunctionKind::Free(i) => i,
        FunctionKind::Method(i) => i,
        FunctionKind::MethodMut(i) => i,
        FunctionKind::Property(i) => i,
        FunctionKind::Setter(i) => i,
    }
}

/// Whether a number is that of one of the vector, iterator and option natives.
pub open spec fn is_collection_native(id: usize) -> bool {
    (VEC_NEW <= id <= ITER_NEXT) || (OPTION_NONE <= id <= OPTION_IS_NONE)
}

/// The values that a vector, option or iterator value holds (an iterator holds its
/// position first).
pub open spec fn held(v: Value) -> Seq<Value> {
    match v {
        Value::Custom(_, vs) => vs@,
        _ => Seq::empty(),
    }
}

/// Two lists of values are copies of one another, place by place.
pub open spec fn same_values(a: Seq<Value>, b: Seq<Value>) -> bool {
    &&& a.len() == b.len()
    &&& forall|i: int| 0 <= i < a.len() ==> same_value(#[trigger] a[i], b[i])
}

/// The number a kind carries.
pub fn kind_id(k: FunctionKind) -> (id: usize)
    ensures
        id == native_id(k),
{
    match k {
        FunctionKind::Free(i) => i,
        FunctionKind::Method(i) => i,
        FunctionKind::MethodMut(i) => i,
        FunctionKind::Property(i) => i,
        FunctionKind::Setter(i) => i,
    }
}

/// Copies of the values `vs[start..]`, in order.
fn copy_values_from(vs: &Vec<Value>, start: usize) -> (out: Vec<Value>)
    requires
        start <= vs@.len(),
    ensures
        same_values(out@, vs@.subrange(start as int, vs@.len() as int)),
{
    let mut out: Vec<Value> = Vec::new();
    let mut i: usize = start;
    while i < vs.len()
        invariant
            start <= i <= vs@.len(),
            out@.len() == i - start,
            forall|k: int| 0 <= k < out@.len() ==> same_value(#[trigger] out@[k], vs@[start + k]),
        decreases vs.len() - i,
    {
        out.push(vs[i].copy());
        i = i + 1;
    }
    out
}

/// Takes the first argument of a call (the arguments are held last one first).
fn first_arg(args: &mut Vec<Value>) -> (r: Result<Value, ExecutorErrorKind>)
    ensures
        old(args)@.len() > 0 ==> (r == Ok::<Value, ExecutorErrorKind>(old(args)@.last())
            && final(args)@ == old(args)@.drop_last()),
        old(args)@.len() == 0 ==> r is Err,
{
    match args.pop() {
        Some(v) => Ok(v),
        None => Err(ExecutorErrorKind::Fail("A native was called with too few arguments.".to_string())),
    }
}

/// Takes the first argument of a call as an integer.
fn int_arg(args: &mut Vec<Value>) -> (r: Result<i64, ExecutorErrorKind>)
    ensures
        old(args)@.len() > 0 ==> final(args)@ == old(args)@.drop_last(),
        old(args)@.len() > 0 && old(args)@.last() is Int ==> r == Ok::<i64, ExecutorErrorKind>(old(args)@.last()->Int_0),
        !(old(args)@.len() > 0 && old(args)@.last() is Int) ==> r is Err,
{
    match first_arg(args) {
        Ok(Value::Int(i)) => Ok(i),
        Ok(_) => Err(ExecutorErrorKind::Fail("A native expected an integer argument.".to_string())),
        Err(e) => Err(e),
    }
}

/// The error for a receiver of the wrong shape.
fn bad_receiver() -> (e: ExecutorErrorKind)
    ensures
        e is Fail,
{
    ExecutorErrorKind::Fail("A native was called on a value of the wrong kind.".to_string())
}

/// A copy of the declared return type of a native, which must have one.
fn return_type_of(info: &CallInfo) -> (r: Result<ValueType, ExecutorErrorKind>)
    ensures
        info.return_type matches Some(t) ==> (r matches Ok(u) && crate::types::same_type(u, t)
            && (crate::types::plain_type(t) ==> u == t)),
        info.return_type is None ==> r is Err,
{
    match &info.return_type {
        Some(t) => Ok(t.copy()),
        None => Err(ExecutorErrorKind::Fail("A native that gives a value was declared without a type.".to_string())),
    }
}

} // verus!

verus! {

/// A native's result is a value of the declared return type holding copies of `vs`.
pub open spec fn gives_holding(r: Result<Option<Value>, ExecutorErrorKind>, ret: Option<ValueType>, vs: Seq<Value>) -> bool {
    &&& ret is Some
    &&& r matches Ok(Some(Value::Custom(t, ws)))
    &&& crate::types::same_type(t, ret->0)
    &&& same_values(ws@, vs)
}

/// `push`: the first argument goes at the end of the receiver's vector.
pub open spec fn push_outcome(c: Value, a: Seq<Value>, r: Result<Option<Value>, ExecutorErrorKind>, f: Value) -> bool {
    (c is Custom && a.len() > 0) ==> (r == Ok::<Option<Value>, ExecutorErrorKind>(None)
        && f == Value::Custom(c->Custom_0, f->Custom_1) && held(f) == held(c).push(a.last()))
}

/// `insert`: the second argument goes in at the place the first gives, which must lie in
/// the vector or at its end.
pub open spec fn insert_outcome(c: Value, a: Seq<Value>, r: Result<Option<Value>, ExecutorErrorKind>, f: Value) -> bool {
    (c is Custom && a.len() > 1 && a.last() is Int) ==> {
        let i = a.last()->Int_0;
        let n = held(c).len();
        &&& i < 0 ==> r == Err::<Option<Value>, ExecutorErrorKind>(ExecutorErrorKind::NegativeIndex(i)) && f == c
        &&& i > n ==> r == Err::<Option<Value>, ExecutorErrorKind>(ExecutorErrorKind::IndexOutOfRange(i, n as usize)) && f == c
        &&& 0 <= i <= n ==> r == Ok::<Option<Value>, ExecutorErrorKind>(None)
            && f == Value::Custom(c->Custom_0, f->Custom_1)
            && held(f) == held(c).insert(i as int, a[a.len() - 2])
    }
}

/// `pop`: the last value of the vector leaves it, and comes back in an option.
pub open spec fn pop_outcome(c: Value, ret: Option<ValueType>, r: Result<Option<Value>, ExecutorErrorKind>, f: Value) -> bool {
    (c is Custom && ret is Some) ==> {
        &&& held(c).len() == 0 ==> gives_holding(r, ret, Seq::empty()) && f == c
        &&& held(c).len() > 0 ==> gives_holding(r, ret, seq![held(c).last()])
            && f == Value::Custom(c->Custom_0, f->Custom_1) && held(f) == held(c).drop_last()
    }
}

/// `remove`: the value at the place the first argument gives leaves the vector.
pub open spec fn remove_outcome(c: Value, a: Seq<Value>, r: Result<Option<Value>, ExecutorErrorKind>, f: Value) -> bool {
    (c is Custom && a.len() > 0 && a.last() is Int) ==> {
        let i = a.last()->Int_0;
        let n = held(c).len();
        &&& i < 0 ==> r == Err::<Option<Value>, ExecutorErrorKind>(ExecutorErrorKind::NegativeIndex(i)) && f == c
        &&& i >= n ==> r == Err::<Option<Value>, ExecutorErrorKind>(ExecutorErrorKind::IndexOutOfRange(i, n as usize)) && f == c
        &&& 0 <= i < n ==> r == Ok::<Option<Value>, ExecutorErrorKind>(None)
            && f == Value::Custom(c->Custom_0, f->Custom_1) && held(f) == held(c).remove(i as int)
    }
}

/// `get`: an option of a copy of the value at a place, empty past the end.
pub open spec fn get_outcome(c: Value, a: Seq<Value>, ret: Option<ValueType>, r: Result<Option<Value>, ExecutorErrorKind>) -> bool {
    (c is Custom && a.len() > 0 && a.last() is Int && ret is Some) ==> {
        let i = a.last()->Int_0;
        let n = held(c).len();
        &&& i < 0 ==> r == Err::<Option<Value>, ExecutorErrorKind>(ExecutorErrorKind::NegativeIndex(i))
        &&& i >= n ==> gives_holding(r, ret, Seq::empty())
        &&& 0 <= i < n ==> gives_holding(r, ret, seq![held(c)[i as int]])
    }
}

/// `index`: a copy of the value at a place, which must lie in the vector.
pub open spec fn index_outcome(c: Value, a: Seq<Value>, r: Result<Option<Value>, ExecutorErrorKind>) -> bool {
    (c is Custom && a.len() > 0 && a.last() is Int) ==> {
        let i = a.last()->Int_0;
        let n = held(c).len();
        &&& i < 0 ==> r == Err::<Option<Value>, ExecutorErrorKind>(ExecutorErrorKind::NegativeIndex(i))
        &&& i >= n ==> r == Err::<Option<Value>, ExecutorErrorKind>(ExecutorErrorKind::IndexOutOfRange(i, n as usize))
        &&& 0 <= i < n ==> (r matches Ok(Some(v)) && same_value(v, held(c)[i as int]))
    }
}

/// `set`: the value at the place the first argument gives becomes the second argument.
pub open spec fn set_outcome(c: Value, a: Seq<Value>, r: Result<Option<Value>, ExecutorErrorKind>, f: Value) -> bool {
    (c is Custom && a.len() > 1 && a.last() is Int) ==> {
        let i = a.last()->Int_0;
        let n = held(c).len();
        &&& i < 0 ==> r == Err::<Option<Value>, ExecutorErrorKind>(ExecutorErrorKind::NegativeIndex(i)) && f == c
        &&& i >= n ==> r == Err::<Option<Value>, ExecutorErrorKind>(ExecutorErrorKind::IndexOutOfRange(i, n as usize)) && f == c
        &&& 0 <= i < n ==> r == Ok::<Option<Value>, ExecutorErrorKind>(None)
            && f == Value::Custom(c->Custom_0, f->Custom_1) && held(f) == held(c).update(i as int, a[a.len() - 2])
    }
}

/// `next`: an option of a copy of the value at the iterator's position, which moves on by
/// one; empty once the values are used up.
pub open spec fn next_outcome(c: Value, ret: Option<ValueType>, r: Result<Option<Value>, ExecutorErrorKind>, f: Value) -> bool {
    (c is Custom && held(c).len() > 0 && held(c)[0] is Int && ret is Some) ==> {
        let k = held(c)[0]->Int_0;
        let rest = held(c).drop_first();
        &&& (k < 0 || k >= rest.len() || k == i64::MAX) ==> gives_holding(r, ret, Seq::empty()) && f == c
        &&& 0 <= k < rest.len() && k < i64::MAX ==> gives_holding(r, ret, seq![rest[k as int]])
            && f == Value::Custom(c->Custom_0, f->Custom_1)
            && held(f) == held(c).update(0, Value::Int((k + 1) as i64))
    }
}

} // verus!

verus! {

/// A value of the declared return type of a native, holding `vs`.
fn make_holding(info: &CallInfo, vs: Vec<Value>) -> (r: Result<Option<Value>, ExecutorErrorKind>)
    ensures
        info.return_type is Some ==> (r matches Ok(Some(Value::Custom(t, ws))) && ws@ == vs@
            && crate::types::same_type(t, info.return_type->0)),
        info.return_type is None ==> r is Err,
{
    match return_type_of(info) {
        Ok(t) => Ok(Some(Value::Custom(t, vs))),
        Err(e) => Err(e),
    }
}

fn vec_push(callee: &mut Value, args: &mut Vec<Value>) -> (r: Result<Option<Value>, ExecutorErrorKind>)
    ensures
        push_outcome(*old(callee), old(args)@, r, *final(callee)),
{
    let mut c = Value::Unit;
    std::mem::swap(&mut c, callee);
    match c {
        Value::Custom(t, mut vs) => match first_arg(args) {
            Ok(x) => {
                vs.push(x);
                *callee = Value::Custom(t, vs);
                Ok(None)
            },
            Err(e) => {
                *callee = Value::Custom(t, vs);
                Err(e)
            },
        },
        other => {
            *callee = other;
            Err(bad_receiver())
        },
    }
}

fn vec_insert(callee: &mut Value, args: &mut Vec<Value>) -> (r: Result<Option<Value>, ExecutorErrorKind>)
    ensures
        insert_outcome(*old(callee), old(args)@, r, *final(callee)),
{
    let ghost a = args@;
    let mut c = Value::Unit;
    std::mem::swap(&mut c, callee);
    match c {
        Value::Custom(t, mut vs) => {
            let index = match int_arg(args) {
                Ok(i) => i,
                Err(e) => {
                    *callee = Value::Custom(t, vs);
                    return Err(e);
                },
            };
            if index < 0 {
                *callee = Value::Custom(t, vs);
                return Err(ExecutorErrorKind::NegativeIndex(index));
            }
            if index as u64 > vs.len() as u64 {
                let n = vs.len();
                *callee = Value::Custom(t, vs);
                return Err(ExecutorErrorKind::IndexOutOfRange(index, n));
            }
            match first_arg(args) {
                Ok(x) => {
                    assert(x == a[a.len() - 2]);
                    vs.insert(index as usize, x);
                    *callee = Value::Custom(t, vs);
                    Ok(None)
                },
                Err(e) => {
                    *callee = Value::Custom(t, vs);
                    Err(e)
                },
            }
        },
        other => {
            *callee = other;
            Err(bad_receiver())
        },
    }
}

fn vec_pop(info: &CallInfo, callee: &mut Value) -> (r: Result<Option<Value>, ExecutorErrorKind>)
    ensures
        pop_outcome(*old(callee), info.return_type, r, *final(callee)),
{
    let mut c = Value::Unit;
    std::mem::swap(&mut c, callee);
    match c {
        Value::Custom(t, mut vs) => {
            let held: Vec<Value> = if vs.len() == 0 {
                Vec::new()
            } else {
                match vs.pop() {
                    Some(v) => vec![v],
                    None => Vec::new(),
                }
            };
            *callee = Value::Custom(t, vs);
            let r = make_holding(info, held);
            proof {
                if r is Ok {
                    let ws = r->Ok_0->0->Custom_1;
                    assert(same_values(ws@, held@)) by {
                        assert forall|i: int| 0 <= i < ws@.len() implies same_value(#[trigger] ws@[i], held@[i]) by {
                            crate::value::lemma_same_value_reflexive(ws@[i]);
                        }
                    }
                }
            }
            r
        },
        other => {
            *callee = other;
            Err(bad_receiver())
        },
    }
}

} // verus!

verus! {

/// Copies of the given values, shown to be copies.
proof fn lemma_holding_copies(ws: Seq<Value>, vs: Seq<Value>)
    requires
        ws.len() == vs.len(),
        forall|i: int| 0 <= i < ws.len() ==> same_value(#[trigger] ws[i], vs[i]),
    ensures
        same_values(ws, vs),
{
}

fn vec_remove(callee: &mut Value, args: &mut Vec<Value>) -> (r: Result<Option<Value>, ExecutorErrorKind>)
    ensures
        remove_outcome(*old(callee), old(args)@, r, *final(callee)),
{
    let mut c = Value::Unit;
    std::mem::swap(&mut c, callee);
    match c {
        Value::Custom(t, mut vs) => {
            let index = match int_arg(args) {
                Ok(i) => i,
                Err(e) => {
                    *callee = Value::Custom(t, vs);
                    return Err(e);
                },
            };
            if index < 0 {
                *callee = Value::Custom(t, vs);
                return Err(ExecutorErrorKind::NegativeIndex(index));
            }
            if index as u64 >= vs.len() as u64 {
                let n = vs.len();
                *callee = Value::Custom(t, vs);
                return Err(ExecutorErrorKind::IndexOutOfRange(index, n));
            }
            vs.remove(index as usize);
            *callee = Value::Custom(t, vs);
            Ok(None)
        },
        other => {
            *callee = other;
            Err(bad_receiver())
        },
    }
}

fn vec_set(callee: &mut Value, args: &mut Vec<Value>) -> (r: Result<Option<Value>, ExecutorErrorKind>)
    ensures
        set_outcome(*old(callee), old(args)@, r, *final(callee)),
{
    let ghost a = args@;
    let mut c = Value::Unit;
    std::mem::swap(&mut c, callee);
    match c {
        Value::Custom(t, mut vs) => {
            let index = match int_arg(args) {
                Ok(i) => i,
                Err(e) => {
                    *callee = Value::Custom(t, vs);
                    return Err(e);
                },
            };
            if index < 0 {
                *callee = Value::Custom(t, vs);
                return Err(ExecutorErrorKind::NegativeIndex(index));
            }
            if index as u64 >= vs.len() as u64 {
                let n = vs.len();
                *callee = Value::Custom(t, vs);
                return Err(ExecutorErrorKind::IndexOutOfRange(index, n));
            }
            match first_arg(args) {
                Ok(x) => {
                    assert(x == a[a.len() - 2]);
                    vs.set(index as usize, x);
                    *callee = Value::Custom(t, vs);
                    Ok(None)
                },
                Err(e) => {
                    *callee = Value::Custom(t, vs);
                    Err(e)
                },
            }
        },
        other => {
            *callee = other;
            Err(bad_receiver())
        },
    }
}

fn vec_get(info: &CallInfo, callee: &Value, args: &mut Vec<Value>) -> (r: Result<Option<Value>, ExecutorErrorKind>)
    ensures
        get_outcome(*callee, old(args)@, info.return_type, r),
{
    match callee {
        Value::Custom(_, vs) => {
            let index = match int_arg(args) {
                Ok(i) => i,
                Err(e) => return Err(e),
            };
            if index < 0 {
                return Err(ExecutorErrorKind::NegativeIndex(index));
            }
            let held: Vec<Value> = if (index as u64) < vs.len() as u64 {
                vec![vs[index as usize].copy()]
            } else {
                Vec::new()
            };
            let r = make_holding(info, held);
            proof {
                if r is Ok {
                    let ws = r->Ok_0->0->Custom_1;
                    if held@.len() > 0 {
                        lemma_holding_copies(ws@, seq![vs@[index as int]]);
                    }
                }
            }
            r
        },
        _ => Err(bad_receiver()),
    }
}

fn vec_index(callee: &Value, args: &mut Vec<Value>) -> (r: Result<Option<Value>, ExecutorErrorKind>)
    ensures
        index_outcome(*callee, old(args)@, r),
{
    match callee {
        Value::Custom(_, vs) => {
            let index = match int_arg(args) {
                Ok(i) => i,
                Err(e) => return Err(e),
            };
            if index < 0 {
                return Err(ExecutorErrorKind::NegativeIndex(index));
            }
            if index as u64 >= vs.len() as u64 {
                return Err(ExecutorErrorKind::IndexOutOfRange(index, vs.len()));
            }
            Ok(Some(vs[index as usize].copy()))
        },
        _ => Err(bad_receiver()),
    }
}

fn vec_into_iter(info: &CallInfo, callee: &Value) -> (r: Result<Option<Value>, ExecutorErrorKind>)
    ensures
        (*callee is Custom && info.return_type is Some) ==> gives_holding(
            r,
            info.return_type,
            seq![Value::Int(0)] + held(*callee),
        ),
{
    match callee {
        Value::Custom(_, vs) => {
            let mut held: Vec<Value> = vec![Value::Int(0)];
            let mut copies = copy_values_from(vs, 0);
            let ghost start = held@;
            let ghost copied = copies@;
            held.append(&mut copies);
            let r = make_holding(info, held);
            proof {
                if r is Ok {
                    let ws = r->Ok_0->0->Custom_1;
                    assert(vs@.subrange(0, vs@.len() as int) =~= vs@);
                    assert forall|k: int| 0 <= k < ws@.len() implies same_value(#[trigger] ws@[k], (seq![Value::Int(0)] + vs@)[k]) by {
                        if k > 0 {
                            assert(ws@[k] == copied[k - 1]);
                        } else {
                            crate::value::lemma_same_value_reflexive(ws@[k]);
                        }
                    }
                }
            }
            r
        },
        _ => Err(bad_receiver()),
    }
}

} // verus!

verus! {

fn iter_next(info: &CallInfo, callee: &mut Value) -> (r: Result<Option<Value>, ExecutorErrorKind>)
    ensures
        next_outcome(*old(callee), info.return_type, r, *final(callee)),
{
    let mut c = Value::Unit;
    std::mem::swap(&mut c, callee);
    match c {
        Value::Custom(t, mut vs) => {
            if vs.len() == 0 {
                *callee = Value::Custom(t, vs);
                return Err(bad_receiver());
            }
            let k = match &vs[0] {
                Value::Int(k) => *k,
                _ => {
                    *callee = Value::Custom(t, vs);
                    return Err(bad_receiver());
                },
            };
            let ghost rest = vs@.drop_first();
            if k < 0 || k == i64::MAX || k as u64 >= (vs.len() - 1) as u64 {
                *callee = Value::Custom(t, vs);
                let r = make_holding(info, Vec::new());
                return r;
            }
            let item = vs[(k + 1) as usize].copy();
            assert(vs@[k + 1] == rest[k as int]);
            vs.set(0, Value::Int(k + 1));
            *callee = Value::Custom(t, vs);
            let r = make_holding(info, vec![item]);
            proof {
                if r is Ok {
                    let ws = r->Ok_0->0->Custom_1;
                    lemma_holding_copies(ws@, seq![rest[k as int]]);
                }
            }
            r
        },
        other => {
            *callee = other;
            Err(bad_receiver())
        },
    }
}

/// `unwrap`: a copy of the value an option holds; an empty option fails.
pub open spec fn unwrap_outcome(c: Value, r: Result<Option<Value>, ExecutorErrorKind>) -> bool {
    c is Custom ==> {
        &&& held(c).len() > 0 ==> (r matches Ok(Some(v)) && same_value(v, held(c)[0]))
        &&& held(c).len() == 0 ==> r == Err::<Option<Value>, ExecutorErrorKind>(ExecutorErrorKind::UnwrapFailed)
    }
}

/// `expect`: a copy of the value an option holds; an empty option fails with the message
/// that the argument gives.
pub open spec fn expect_outcome(c: Value, a: Seq<Value>, r: Result<Option<Value>, ExecutorErrorKind>) -> bool {
    c is Custom ==> {
        &&& held(c).len() > 0 ==> (r matches Ok(Some(v)) && same_value(v, held(c)[0]))
        &&& (held(c).len() == 0 && a.len() > 0 && a.last() is Str) ==> (r matches Err(
            ExecutorErrorKind::ExpectFailed(m),
        ) && m@ == a.last()->Str_0@)
    }
}

fn option_unwrap(callee: &Value) -> (r: Result<Option<Value>, ExecutorErrorKind>)
    ensures
        unwrap_outcome(*callee, r),
{
    match callee {
        Value::Custom(_, vs) => {
            if vs.len() == 0 {
                Err(ExecutorErrorKind::UnwrapFailed)
            } else {
                Ok(Some(vs[0].copy()))
            }
        },
        _ => Err(bad_receiver()),
    }
}

fn option_expect(callee: &Value, args: &mut Vec<Value>) -> (r: Result<Option<Value>, ExecutorErrorKind>)
    ensures
        expect_outcome(*callee, old(args)@, r),
{
    match callee {
        Value::Custom(_, vs) => {
            if vs.len() == 0 {
                match first_arg(args) {
                    Ok(Value::Str(m)) => Err(ExecutorErrorKind::ExpectFailed(m)),
                    Ok(_) => Err(ExecutorErrorKind::Fail("`expect` needs a message.".to_string())),
                    Err(e) => Err(e),
                }
            } else {
                Ok(Some(vs[0].copy()))
            }
        },
        _ => Err(bad_receiver()),
    }
}

} // verus!

verus! {

/// The outcome of a collection native of kind `kind`, declared to return `ret`, on receiver
/// `c` and arguments `a` (last one first): `x` is the result and `f` the receiver afterwards.
pub open spec fn collection_outcome(
    kind: FunctionKind,
    ret: Option<ValueType>,
    c: Value,
    a: Seq<Value>,
    x: Result<Option<Value>, ExecutorErrorKind>,
    f: Value,
) -> bool {
    let id = native_id(kind);
    &&& (id == VEC_NEW || id == OPTION_NONE) && ret is Some ==> gives_holding(x, ret, Seq::empty())
    &&& id == VEC_PUSH ==> push_outcome(c, a, x, f)
    &&& id == VEC_INSERT ==> insert_outcome(c, a, x, f)
    &&& id == VEC_POP ==> pop_outcome(c, ret, x, f)
    &&& id == VEC_REMOVE ==> remove_outcome(c, a, x, f)
    &&& id == VEC_GET ==> get_outcome(c, a, ret, x) && f == c
    &&& id == VEC_INDEX ==> index_outcome(c, a, x) && f == c
    &&& id == VEC_SET ==> set_outcome(c, a, x, f)
    &&& id == VEC_IS_EMPTY && c is Custom ==> x == Ok::<Option<Value>, ExecutorErrorKind>(Some(Value::Bool(held(c).len() == 0))) && f == c
    &&& id == VEC_LEN && c is Custom && held(c).len() <= i64::MAX ==> x == Ok::<Option<Value>, ExecutorErrorKind>(
        Some(Value::Int(held(c).len() as i64)),
    ) && f == c
    &&& id == VEC_INTO_ITER && c is Custom && ret is Some ==> gives_holding(x, ret, seq![Value::Int(0)] + held(c)) && f == c
    &&& id == ITER_NEXT ==> next_outcome(c, ret, x, f)
    &&& id == OPTION_SOME && a.len() > 0 && ret is Some ==> gives_holding(x, ret, seq![a.last()])
    &&& id == OPTION_UNWRAP ==> unwrap_outcome(c, x) && f == c
    &&& id == OPTION_EXPECT ==> expect_outcome(c, a, x) && f == c
    &&& id == OPTION_IS_SOME && c is Custom ==> x == Ok::<Option<Value>, ExecutorErrorKind>(Some(Value::Bool(held(c).len() > 0))) && f == c
    &&& id == OPTION_IS_NONE && c is Custom ==> x == Ok::<Option<Value>, ExecutorErrorKind>(Some(Value::Bool(held(c).len() == 0))) && f == c
}

/// Runs one of the vector, iterator and option natives that `define_type_wrappers`
/// registers; `None` where `info.call_fn` names none of them. Vectors and options are
/// custom values that hold their elements; an iterator holds its position, then the
/// values it goes over.
pub fn run_collection_native(info: &CallInfo, callee: &mut Value, args: Vec<Value>) -> (r: Option<
    Result<Option<Value>, ExecutorErrorKind>,
>)
    ensures
        r is None <==> !is_collection_native(native_id(info.call_fn)),
        r is None ==> *final(callee) == *old(callee),
        r matches Some(x) ==> collection_outcome(info.call_fn, info.return_type, *old(callee), args@, x, *final(callee)),
{
    let id = kind_id(info.call_fn);
    let ghost a0 = args@;
    let mut args = args;
    if id == VEC_NEW || id == OPTION_NONE {
        let r = make_holding(info, Vec::new());
        proof {
            if r is Ok {
                lemma_holding_copies(r->Ok_0->0->Custom_1@, Seq::empty());
            }
        }
        Some(r)
    } else if id == VEC_PUSH {
        Some(vec_push(callee, &mut args))
    } else if id == VEC_INSERT {
        Some(vec_insert(callee, &mut args))
    } else if id == VEC_POP {
        Some(vec_pop(info, callee))
    } else if id == VEC_REMOVE {
        Some(vec_remove(callee, &mut args))
    } else if id == VEC_GET {
        Some(vec_get(info, callee, &mut args))
    } else if id == VEC_INDEX {
        Some(vec_index(callee, &mut args))
    } else if id == VEC_SET {
        Some(vec_set(callee, &mut args))
    } else if id == VEC_IS_EMPTY || id == OPTION_IS_NONE || id == OPTION_IS_SOME || id == VEC_LEN {
        match callee {
            Value::Custom(_, vs) => {
                if id == VEC_LEN {
                    if vs.len() as u64 > i64::MAX as u64 {
                        Some(Err(ExecutorErrorKind::Fail("A vector is too long to count.".to_string())))
                    } else {
                        Some(Ok(Some(Value::Int(vs.len() as i64))))
                    }
                } else if id == OPTION_IS_SOME {
                    Some(Ok(Some(Value::Bool(vs.len() > 0))))
                } else {
                    Some(Ok(Some(Value::Bool(vs.len() == 0))))
                }
            },
            _ => Some(Err(bad_receiver())),
        }
    } else if id == VEC_INTO_ITER {
        Some(vec_into_iter(info, callee))
    } else if id == ITER_NEXT {
        Some(iter_next(info, callee))
    } else if id == OPTION_SOME {
        match first_arg(&mut args) {
            Ok(x) => {
                let r = make_holding(info, vec![x]);
                proof {
                    if r is Ok {
                        let ws = r->Ok_0->0->Custom_1;
                        crate::value::lemma_same_value_reflexive(ws@[0]);
                        lemma_holding_copies(ws@, seq![a0.last()]);
                    }
                }
                Some(r)
            },
            Err(e) => Some(Err(e)),
        }
    } else if id == OPTION_UNWRAP {
        Some(option_unwrap(callee))
    } else if id == OPTION_EXPECT {
        Some(option_expect(callee, &mut args))
    } else {
        None
    }
}

} // verus!

verus! {

/// What `push` adds, `index` reads back at the old length, and the vector is one longer.
pub proof fn law_push_then_index(
    c: Value,
    a: Seq<Value>,
    r: Result<Option<Value>, ExecutorErrorKind>,
    f: Value,
    r2: Result<Option<Value>, ExecutorErrorKind>,
)
    requires
        c is Custom,
        a.len() > 0,
        held(c).len() < i64::MAX,
        push_outcome(c, a, r, f),
        index_outcome(f, seq![Value::Int(held(c).len() as i64)], r2),
    ensures
        held(f).len() == held(c).len() + 1,
        r2 matches Ok(Some(v)) && same_value(v, a.last()),
{
    assert(seq![Value::Int(held(c).len() as i64)].last() == Value::Int(held(c).len() as i64));
}

/// `pop` undoes `push`: it gives back the pushed value and leaves the vector as it was.
pub proof fn law_push_then_pop(
    c: Value,
    a: Seq<Value>,
    r: Result<Option<Value>, ExecutorErrorKind>,
    f: Value,
    ret: Option<ValueType>,
    r2: Result<Option<Value>, ExecutorErrorKind>,
    f2: Value,
)
    requires
        c is Custom,
        a.len() > 0,
        ret is Some,
        push_outcome(c, a, r, f),
        pop_outcome(f, ret, r2, f2),
    ensures
        gives_holding(r2, ret, seq![a.last()]),
        f2 is Custom && f2->Custom_0 == c->Custom_0 && held(f2) == held(c),
{
    assert(held(f).last() == a.last());
    assert(held(f2) =~= held(c));
}

} // verus!

verus! {

/// `unwrap` gives back what `Some` wrapped.
pub proof fn law_some_then_unwrap(
    ret: Option<ValueType>,
    a: Seq<Value>,
    r: Result<Option<Value>, ExecutorErrorKind>,
    r2: Result<Option<Value>, ExecutorErrorKind>,
)
    requires
        a.len() > 0,
        gives_holding(r, ret, seq![a.last()]),
        unwrap_outcome(r->Ok_0->0, r2),
    ensures
        r2 matches Ok(Some(v)) && same_value(v, a.last()),
{
    let o = r->Ok_0->0;
    let v = r2->Ok_0->0;
    assert(same_value(held(o)[0], a.last()));
    crate::value::lemma_same_value_transitive(v, held(o)[0], a.last());
}

/// An option made empty says so: `is_none` is true and `unwrap` fails.
pub proof fn law_none_is_empty(
    o: Value,
    r: Result<Option<Value>, ExecutorErrorKind>,
)
    requires
        o is Custom,
        held(o).len() == 0,
        unwrap_outcome(o, r),
    ensures
        r == Err::<Option<Value>, ExecutorErrorKind>(ExecutorErrorKind::UnwrapFailed),
{
}

} // verus!
