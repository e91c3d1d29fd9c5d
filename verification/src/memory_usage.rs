use vstd::prelude::*;

use crate::text::utf8_len;
use crate::value::{Value, same_value};

verus! {

/// How much memory a value counts for against an executor's limit. The figure is meant to
/// be the same on every target: a fixed 8 bytes for a counter or a pointer, not the size
/// of `usize`.
pub trait MemoryUsage {
    fn memory_usage(&self) -> usize;
}

/// A size, saturated at `usize::MAX`.
pub open spec fn capped(n: nat) -> nat {
    if n > usize::MAX {
        usize::MAX as nat
    } else {
        n
    }
}

/// How many fields a value holds (none but for a custom value).
pub open spec fn field_count(v: Value) -> nat {
    match v {
        Value::Custom(_, fields) => fields@.len(),
        _ => 0,
    }
}

/// The memory a value counts for: nothing for unit, 8 bytes for an integer or a float,
/// 1 for a boolean, 8 plus the UTF-8 length for a string, 16 plus the name's length for a
/// function (each length as `usize` holds it), and the sum of the fields for a custom value.
pub open spec fn value_size(v: Value) -> nat
    decreases v, field_count(v) + 1,
{
    match v {
        Value::Unit => 0,
        Value::Int(_) => 8,
        Value::Float(_) => 8,
        Value::Bool(_) => 1,
        Value::Str(s) => 8 + (utf8_len(s@) as usize) as nat,
        Value::Function(e) => 16 + (utf8_len(e.name@) as usize) as nat,
        Value::Custom(_, _) => fields_size(v, 0),
    }
}

/// The memory of a custom value's fields from the `i`-th on.
pub open spec fn fields_size(v: Value, i: int) -> nat
    decreases v, field_count(v) - i,
{
    match v {
        Value::Custom(_, fields) => {
            if i < 0 || i >= fields@.len() {
                0
            } else {
                value_size(fields@[i]) + fields_size(v, i + 1)
            }
        },
        _ => 0,
    }
}

impl Value {
    /// The memory this value counts for, saturated at `usize::MAX`.
    pub open spec fn memory_usage_spec(&self) -> nat {
        capped(value_size(*self))
    }
}

impl MemoryUsage for Value {
    fn memory_usage(&self) -> (n: usize)
        ensures
            n == self.memory_usage_spec(),
    {
        value_memory(self)
    }
}

/// The memory a value counts for, saturated at `usize::MAX`.
pub fn value_memory(v: &Value) -> (n: usize)
    ensures
        n == capped(value_size(*v)),
    decreases *v, field_count(*v) + 1,
{
    match v {
        Value::Unit => 0,
        Value::Int(_) => 8,
        Value::Float(_) => 8,
        Value::Bool(_) => 1,
        Value::Str(s) => {
            proof {
                crate::text::lemma_utf8_len_encode(s@);
            }
            8usize.saturating_add(s.as_str().len())
        },
        Value::Function(e) => {
            proof {
                crate::text::lemma_utf8_len_encode(e.name@);
            }
            16usize.saturating_add(e.name.as_str().len())
        },
        Value::Custom(_, _) => fields_memory(v),
    }
}

/// The memory of a custom value's fields, saturated at `usize::MAX`.
fn fields_memory(v: &Value) -> (n: usize)
    ensures
        n == capped(fields_size(*v, 0)),
    decreases *v, field_count(*v),
{
    match v {
        Value::Custom(_, fields) => {
            let len = fields.len();
            let mut total: usize = 0;
            let mut i: usize = len;
            while i > 0
                invariant
                    i <= len,
                    len == fields@.len(),
                    *v is Custom,
                    v->Custom_1 == *fields,
                    total == capped(fields_size(*v, i as int)),
                decreases i,
            {
                i = i - 1;
                proof {
                    assert(decreases_to!(*v => v->Custom_1));
                    assert(decreases_to!(v->Custom_1 => v->Custom_1@));
                    assert(decreases_to!(v->Custom_1@ => v->Custom_1@[i as int]));
                }
                let m = value_memory(&fields[i]);
                total = m.saturating_add(total);
            }
            total
        },
        _ => 0,
    }
}

/// Copies count for the same memory: two values that `same_value` relates have the same size.
pub proof fn lemma_same_value_same_size(a: Value, b: Value)
    requires
        same_value(a, b),
    ensures
        value_size(a) == value_size(b),
    decreases a, field_count(a) + 1,
{
    if a is Custom {
        lemma_same_value_same_fields_size(a, b, 0);
    }
}

/// The fields of two values that `same_value` relates have the same size from the `i`-th on.
proof fn lemma_same_value_same_fields_size(a: Value, b: Value, i: int)
    requires
        same_value(a, b),
        a is Custom,
        0 <= i,
    ensures
        fields_size(a, i) == fields_size(b, i),
    decreases a, field_count(a) - i,
{
    if i < field_count(a) {
        let xs = a->Custom_1;
        let ys = b->Custom_1;
        assert(decreases_to!(a => a->Custom_1));
        assert(decreases_to!(a->Custom_1 => a->Custom_1@));
        assert(decreases_to!(a->Custom_1@ => a->Custom_1@[i]));
        assert(same_value(xs@[i], ys@[i]));
        lemma_same_value_same_size(xs@[i], ys@[i]);
        lemma_same_value_same_fields_size(a, b, i + 1);
    }
}

} // verus!
