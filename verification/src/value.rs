use vstd::prelude::*;

use crate::types::{ValueType, same_type, plain_type, copy_types, custom_type_of};
use crate::text::push_str;

verus! {

/// A function defined by a script, as the executor finds it: where its code starts and
/// how many local slots it uses.
#[derive(Debug)]
pub struct FunctionEntry {
    pub name: String,
    pub instruction: usize,
    pub local_count: usize,
    pub params: Vec<ValueType>,
    pub return_type: Option<ValueType>,
}

impl FunctionEntry {
    /// A copy of this entry: the same name, address and local count.
    pub fn copy(&self) -> (e: FunctionEntry)
        ensures
            same_entry(e, *self),
    {
        FunctionEntry {
            name: self.name.clone(),
            instruction: self.instruction,
            local_count: self.local_count,
            params: copy_types(&self.params),
            return_type: match &self.return_type {
                Some(t) => Some(t.copy()),
                None => None,
            },
        }
    }
}

impl Clone for FunctionEntry {
    fn clone(&self) -> (e: Self)
        ensures
            same_entry(e, *self),
    {
        self.copy()
    }
}

/// Two function entries name the same code.
pub open spec fn same_entry(a: FunctionEntry, b: FunctionEntry) -> bool {
    &&& a.name@ == b.name@
    &&& a.instruction == b.instruction
    &&& a.local_count == b.local_count
    &&& a.params@.len() == b.params@.len()
}

/// A value that a script works with. Values of the host's own types are `Custom`: the
/// type they have in scripts and the plain values the host keeps in them. Floating-point
/// numbers are kept as the decimal text of their value.
#[derive(Debug)]
pub enum Value {
    Unit,
    Int(i64),
    Float(String),
    Bool(bool),
    Str(String),
    Function(FunctionEntry),
    Custom(ValueType, Vec<Value>),
}

/// Two values are copies of one another: the same variant holding the same data.
pub open spec fn same_value(a: Value, b: Value) -> bool
    decreases a,
{
    match (a, b) {
        (Value::Unit, Value::Unit) => true,
        (Value::Int(x), Value::Int(y)) => x == y,
        (Value::Float(x), Value::Float(y)) => x@ == y@,
        (Value::Bool(x), Value::Bool(y)) => x == y,
        (Value::Str(x), Value::Str(y)) => x@ == y@,
        (Value::Function(x), Value::Function(y)) => same_entry(x, y),
        (Value::Custom(t, xs), Value::Custom(u, ys)) => {
            &&& same_type(t, u)
            &&& xs@.len() == ys@.len()
            &&& forall|i: int|
                0 <= i < xs@.len() ==> same_value(#[trigger] xs@[i], ys@[i])
        },
        _ => false,
    }
}

/// Every value is a copy of itself.
pub proof fn lemma_same_value_reflexive(v: Value)
    ensures
        same_value(v, v),
    decreases v,
{
    match v {
        Value::Custom(t, xs) => {
            assert forall|i: int| 0 <= i < xs@.len() implies same_value(#[trigger] xs@[i], xs@[i]) by {
                broadcast use vstd::std_specs::vec::axiom_vec_decreases_to_view;
                assert(decreases_to!(v => v->Custom_1));
                assert(decreases_to!(v->Custom_1 => v->Custom_1@));
                assert(decreases_to!(v->Custom_1@ => v->Custom_1@[i]));
                lemma_same_value_reflexive(xs@[i]);
            }
        },
        _ => {},
    }
}

/// Being copies of one another is symmetric.
pub proof fn lemma_same_value_symmetric(a: Value, b: Value)
    ensures
        same_value(a, b) ==> same_value(b, a),
    decreases a,
{
    match (a, b) {
        (Value::Custom(t, xs), Value::Custom(u, ys)) => {
            assert forall|i: int| 0 <= i < xs@.len() && i < ys@.len() implies (same_value(
                #[trigger] xs@[i],
                ys@[i],
            ) ==> same_value(ys@[i], xs@[i])) by {
                broadcast use vstd::std_specs::vec::axiom_vec_decreases_to_view;
                assert(decreases_to!(a => a->Custom_1));
                assert(decreases_to!(a->Custom_1 => a->Custom_1@));
                assert(decreases_to!(a->Custom_1@ => a->Custom_1@[i]));
                lemma_same_value_symmetric(xs@[i], ys@[i]);
            }
        },
        _ => {},
    }
}

/// Being copies of one another is transitive.
pub proof fn lemma_same_value_transitive(a: Value, b: Value, c: Value)
    ensures
        same_value(a, b) && same_value(b, c) ==> same_value(a, c),
    decreases a,
{
    match (a, b, c) {
        (Value::Custom(t, xs), Value::Custom(u, ys), Value::Custom(w, zs)) => {
            assert forall|i: int| 0 <= i < xs@.len() && i < ys@.len() && i < zs@.len() implies (same_value(
                #[trigger] xs@[i],
                ys@[i],
            ) && same_value(ys@[i], zs@[i]) ==> same_value(xs@[i], zs@[i])) by {
                broadcast use vstd::std_specs::vec::axiom_vec_decreases_to_view;
                assert(decreases_to!(a => a->Custom_1));
                assert(decreases_to!(a->Custom_1 => a->Custom_1@));
                assert(decreases_to!(a->Custom_1@ => a->Custom_1@[i]));
                lemma_same_value_transitive(xs@[i], ys@[i], zs@[i]);
            }
        },
        _ => {},
    }
}

impl Value {
    /// A copy of this value.
    pub fn copy(&self) -> (v: Value)
        ensures
            same_value(v, *self),
        decreases self,
    {
        match self {
            Value::Unit => Value::Unit,
            Value::Int(i) => Value::Int(*i),
            Value::Float(f) => Value::Float(f.clone()),
            Value::Bool(b) => Value::Bool(*b),
            Value::Str(s) => Value::Str(s.clone()),
            Value::Function(e) => Value::Function(e.copy()),
            Value::Custom(t, fields) => {
                let mut out: Vec<Value> = Vec::new();
                let mut i: usize = 0;
                while i < fields.len()
                    invariant
                        i <= fields.len(),
                        *self == Value::Custom(*t, *fields),
                        out@.len() == i,
                        forall|k: int| 0 <= k < i ==> same_value(#[trigger] out@[k], fields@[k]),
                    decreases fields.len() - i,
                {
                    proof {
                        broadcast use vstd::std_specs::vec::axiom_vec_decreases_to_view;
                        assert(decreases_to!(*self => self->Custom_1));
                        assert(decreases_to!(self->Custom_1 => self->Custom_1@));
                        assert(decreases_to!(self->Custom_1@ => self->Custom_1@[i as int]));
                    }
                    let c = fields[i].copy();
                    out.push(c);
                    i = i + 1;
                }
                let v = Value::Custom(t.copy(), out);
                proof {
                    assert forall|k: int| 0 <= k < out@.len() implies same_value(
                        #[trigger] out@[k],
                        fields@[k],
                    ) by {}
                }
                v
            },
        }
    }

    /// Whether this value is `true`.
    pub open spec fn is_true(&self) -> bool {
        *self == Value::Bool(true)
    }
}

impl Clone for Value {
    fn clone(&self) -> (v: Self)
        ensures
            same_value(v, *self),
    {
        self.copy()
    }
}

/// A Rust type that scripts can hold as a value.
pub trait ProgramValue: Sized {
    /// The type values of this Rust type have in scripts.
    fn value_type() -> ValueType;

    /// The script value standing for this Rust value.
    fn into_value(self) -> Value;

    /// The Rust value a script value stands for, if it is of this type.
    fn from_value(value: Value) -> Option<Self>;
}

/// A program value that may be shared between threads.
pub trait SyncProgramValue: ProgramValue + Send + Sync {

}

impl ProgramValue for i64 {
    fn value_type() -> (t: ValueType)
        ensures
            t == ValueType::Int,
    {
        ValueType::Int
    }

    fn into_value(self) -> (v: Value)
        ensures
            v == Value::Int(self),
    {
        Value::Int(self)
    }

    fn from_value(value: Value) -> (r: Option<i64>)
        ensures
            r == (match value {
                Value::Int(i) => Some(i),
                _ => None,
            }),
    {
        match value {
            Value::Int(i) => Some(i),
            _ => None,
        }
    }
}

impl ProgramValue for bool {
    fn value_type() -> (t: ValueType)
        ensures
            t == ValueType::Bool,
    {
        ValueType::Bool
    }

    fn into_value(self) -> (v: Value)
        ensures
            v == Value::Bool(self),
    {
        Value::Bool(self)
    }

    fn from_value(value: Value) -> (r: Option<bool>)
        ensures
            r == (match value {
                Value::Bool(b) => Some(b),
                _ => None,
            }),
    {
        match value {
            Value::Bool(b) => Some(b),
            _ => None,
        }
    }
}

impl ProgramValue for String {
    fn value_type() -> (t: ValueType)
        ensures
            t == ValueType::String,
    {
        ValueType::String
    }

    fn into_value(self) -> (v: Value)
        ensures
            v == Value::Str(self),
    {
        Value::Str(self)
    }

    fn from_value(value: Value) -> (r: Option<String>)
        ensures
            r == (match value {
                Value::Str(s) => Some(s),
                _ => None,
            }),
    {
        match value {
            Value::Str(s) => Some(s),
            _ => None,
        }
    }
}

impl SyncProgramValue for i64 {

}

impl SyncProgramValue for bool {

}

impl SyncProgramValue for String {

}

/// The values held by a custom value, in order, each converted to `T`; `None` where one
/// of them does not convert.
fn convert_all<T: ProgramValue>(values: Vec<Value>) -> (r: Option<Vec<T>>)
    ensures
        r matches Some(v) ==> v@.len() == values@.len(),
{
    let mut rest = values;
    let mut reversed: Vec<T> = Vec::new();
    while rest.len() > 0
        invariant
            reversed@.len() + rest@.len() == values@.len(),
        decreases rest.len(),
    {
        let v = rest.pop().unwrap();
        match T::from_value(v) {
            Some(t) => reversed.push(t),
            None => return None,
        }
    }
    let mut out: Vec<T> = Vec::new();
    while reversed.len() > 0
        invariant
            reversed@.len() + out@.len() == values@.len(),
        decreases reversed.len(),
    {
        let t = reversed.pop().unwrap();
        out.push(t);
    }
    Some(out)
}

/// Vectors are held as custom values of their vector type, holding their elements.
impl<T: ProgramValue + 'static> ProgramValue for Vec<T> {
    fn value_type() -> (t: ValueType)
        ensures
            t is CustomType,
    {
        let mut name = "Vec<".to_string();
        push_str(&mut name, T::value_type().display().as_str());
        push_str(&mut name, ">");
        custom_type_of::<Vec<T>>(name)
    }

    fn into_value(self) -> (v: Value)
        ensures
            v is Custom,
            v->Custom_1@.len() == self@.len(),
    {
        let mut rest = self;
        let mut reversed: Vec<Value> = Vec::new();
        while rest.len() > 0
            invariant
                reversed@.len() + rest@.len() == self@.len(),
            decreases rest.len(),
        {
            let t = rest.pop().unwrap();
            reversed.push(t.into_value());
        }
        let mut out: Vec<Value> = Vec::new();
        while reversed.len() > 0
            invariant
                reversed@.len() + out@.len() == self@.len(),
            decreases reversed.len(),
        {
            let v = reversed.pop().unwrap();
            out.push(v);
        }
        Value::Custom(Self::value_type(), out)
    }

    fn from_value(value: Value) -> (r: Option<Vec<T>>)
        ensures
            !(value is Custom) ==> r is None,
            r matches Some(v) ==> v@.len() == value->Custom_1@.len(),
    {
        match value {
            Value::Custom(t, values) => {
                if t.same(&Self::value_type()) {
                    convert_all::<T>(values)
                } else {
                    None
                }
            },
            _ => None,
        }
    }
}

/// Options are held as custom values of their option type, holding nothing or their value.
impl<T: ProgramValue + 'static> ProgramValue for Option<T> {
    fn value_type() -> (t: ValueType)
        ensures
            t is CustomType,
    {
        let mut name = "Option<".to_string();
        push_str(&mut name, T::value_type().display().as_str());
        push_str(&mut name, ">");
        custom_type_of::<Option<T>>(name)
    }

    fn into_value(self) -> (v: Value)
        ensures
            v is Custom,
            v->Custom_1@.len() == (if self is Some { 1int } else { 0 }),
    {
        let held: Vec<Value> = match self {
            Some(t) => vec![t.into_value()],
            None => Vec::new(),
        };
        Value::Custom(Self::value_type(), held)
    }

    fn from_value(value: Value) -> (r: Option<Option<T>>)
        ensures
            !(value is Custom) ==> r is None,
    {
        match value {
            Value::Custom(t, mut values) => {
                if !t.same(&Self::value_type()) || values.len() > 1 {
                    None
                } else if values.len() == 0 {
                    Some(None)
                } else {
                    match T::from_value(values.pop().unwrap()) {
                        Some(x) => Some(Some(x)),
                        None => None,
                    }
                }
            },
            _ => None,
        }
    }
}

/// Integer ranges are held as custom values holding their start and end.
impl ProgramValue for std::ops::Range<i64> {
    fn value_type() -> (t: ValueType)
        ensures
            t is CustomType,
    {
        custom_type_of::<std::ops::Range<i64>>("Range<i64>".to_string())
    }

    fn into_value(self) -> (v: Value)
        ensures
            v matches Value::Custom(_, vs) && vs@ == seq![Value::Int(self.start), Value::Int(self.end)],
    {
        Value::Custom(Self::value_type(), vec![Value::Int(self.start), Value::Int(self.end)])
    }

    fn from_value(value: Value) -> (r: Option<std::ops::Range<i64>>)
        ensures
            r matches Some(range) ==> (value matches Value::Custom(_, vs) && vs@ == seq![
                Value::Int(range.start),
                Value::Int(range.end),
            ]),
    {
        match value {
            Value::Custom(t, values) => {
                if !t.same(&Self::value_type()) || values.len() != 2 {
                    return None;
                }
                match (&values[0], &values[1]) {
                    (Value::Int(start), Value::Int(end)) => {
                        assert(values@ =~= seq![Value::Int(*start), Value::Int(*end)]);
                        Some(std::ops::Range { start: *start, end: *end })
                    },
                    _ => None,
                }
            },
            _ => None,
        }
    }
}

} // verus!
