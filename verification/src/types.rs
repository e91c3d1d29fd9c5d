use vstd::prelude::*;

use std::any::TypeId;

use crate::text::push_str;

verus! {

/// The identity of a Rust type, as `std::any::TypeId` gives it.
#[verifier::external_type_specification]
#[verifier::external_body]
pub struct ExTypeId(std::any::TypeId);

/// `std::any::TypeId::of`: the identity of `T`. Nothing is stated of the value.
#[verifier::external_body]
fn type_id_of<T: ?Sized + 'static>() -> TypeId {
    TypeId::of::<T>()
}

/// `==` on `std::any::TypeId`: true exactly when the two identities are the same value.
#[verifier::external_body]
fn same_type_id(a: &TypeId, b: &TypeId) -> (r: bool)
    ensures
        r == (*a == *b),
{
    *a == *b
}

/// The custom type of the Rust type `T`, under a name.
pub fn custom_type_of<T: ?Sized + 'static>(name: String) -> (t: ValueType)
    ensures
        t matches ValueType::CustomType(_, n) && n == name,
{
    ValueType::CustomType(type_id_of::<T>(), name)
}

/// The type of a script value.
#[derive(Debug)]
pub enum ValueType {
    Float,
    Int,
    Bool,
    String,
    Range(Box<ValueType>),
    Option(Box<ValueType>),
    Function(String, Vec<ValueType>, Option<Box<ValueType>>),
    CustomType(TypeId, String),
}

/// Which variant a type is, as a number.
pub open spec fn type_kind(t: ValueType) -> u8 {
    match t {
        ValueType::Float => 0,
        ValueType::Int => 1,
        ValueType::Bool => 2,
        ValueType::String => 3,
        ValueType::Range(_) => 4,
        ValueType::Option(_) => 5,
        ValueType::Function(_, _, _) => 6,
        ValueType::CustomType(_, _) => 7,
    }
}

/// When two types count as the same: custom types by their identity alone, every other
/// type by its variant alone.
pub open spec fn same_type(a: ValueType, b: ValueType) -> bool {
    match (a, b) {
        (ValueType::CustomType(x, _), ValueType::CustomType(y, _)) => x == y,
        _ => type_kind(a) == type_kind(b),
    }
}

/// Whether two optional types are both absent or both present and the same.
pub open spec fn same_optional_type(a: Option<ValueType>, b: Option<ValueType>) -> bool {
    match (a, b) {
        (Some(x), Some(y)) => same_type(x, y),
        (None, None) => true,
        _ => false,
    }
}

/// `==` on types is an equivalence: reflexive, symmetric and transitive.
pub proof fn lemma_same_type_equivalence(a: ValueType, b: ValueType, c: ValueType)
    ensures
        same_type(a, a),
        same_type(a, b) ==> same_type(b, a),
        same_type(a, b) && same_type(b, c) ==> same_type(a, c),
{
}

/// Whether no function type occurs in a type.
pub open spec fn plain_type(t: ValueType) -> bool
    decreases t,
{
    match t {
        ValueType::Range(inner) => plain_type(*inner),
        ValueType::Option(inner) => plain_type(*inner),
        ValueType::Function(_, _, _) => false,
        _ => true,
    }
}

/// How many parameters a function type lists (none for other types).
pub open spec fn param_count(t: ValueType) -> nat {
    match t {
        ValueType::Function(_, params, _) => params@.len(),
        _ => 0,
    }
}

/// The text a type is shown by.
pub open spec fn type_text(t: ValueType) -> Seq<char>
    decreases t, param_count(t) + 1,
{
    match t {
        ValueType::Float => seq!['f', '6', '4'],
        ValueType::Int => seq!['i', '6', '4'],
        ValueType::Bool => seq!['b', 'o', 'o', 'l'],
        ValueType::String => seq!['S', 't', 'r', 'i', 'n', 'g'],
        ValueType::Range(inner) => seq!['R', 'a', 'n', 'g', 'e', '<'] + type_text(*inner) + seq![
            '>',
        ],
        ValueType::Option(inner) => seq!['O', 'p', 't', 'i', 'o', 'n', '<'] + type_text(*inner)
            + seq!['>'],
        ValueType::Function(_, _, ret) => seq!['f', 'n', '('] + params_text(t, 0) + seq![')']
            + match ret {
            Some(r) => seq![' ', '-', '>', ' '] + type_text(*r),
            None => seq![],
        },
        ValueType::CustomType(_, name) => name@,
    }
}

/// The parameter types of the function type `t` from the `i`-th on, separated by `", "`.
pub open spec fn params_text(t: ValueType, i: int) -> Seq<char>
    decreases t, param_count(t) - i,
{
    match t {
        ValueType::Function(_, params, _) => {
            if i < 0 || i >= params@.len() {
                seq![]
            } else if i == params@.len() - 1 {
                type_text(params@[i])
            } else {
                type_text(params@[i]) + seq![',', ' '] + params_text(t, i + 1)
            }
        },
        _ => seq![],
    }
}

impl Clone for ValueType {
    fn clone(&self) -> (r: Self)
        ensures
            same_type(r, *self),
            plain_type(*self) ==> r == *self,
    {
        self.copy()
    }
}

impl PartialEq for ValueType {
    fn eq(&self, other: &Self) -> (r: bool) {
        match (self, other) {
            (ValueType::CustomType(a, _), ValueType::CustomType(b, _)) => same_type_id(a, b),
            _ => self.kind() == other.kind(),
        }
    }
}

impl vstd::std_specs::cmp::PartialEqSpecImpl for ValueType {
    open spec fn obeys_eq_spec() -> bool {
        true
    }

    open spec fn eq_spec(&self, other: &Self) -> bool {
        same_type(*self, *other)
    }
}

impl Eq for ValueType {

}

impl ValueType {
    /// Which variant this type is, as a number.
    pub fn kind(&self) -> (k: u8)
        ensures
            k == type_kind(*self),
    {
        match self {
            ValueType::Float => 0,
            ValueType::Int => 1,
            ValueType::Bool => 2,
            ValueType::String => 3,
            ValueType::Range(_) => 4,
            ValueType::Option(_) => 5,
            ValueType::Function(_, _, _) => 6,
            ValueType::CustomType(_, _) => 7,
        }
    }

    /// Whether two types count as the same (see `same_type`).
    pub fn same(&self, other: &ValueType) -> (r: bool)
        ensures
            r == same_type(*self, *other),
    {
        match (self, other) {
            (ValueType::CustomType(a, _), ValueType::CustomType(b, _)) => same_type_id(a, b),
            _ => self.kind() == other.kind(),
        }
    }

    /// A copy of this type: exact where no function type occurs in it, and the same
    /// type (`same_type`) in any case.
    pub fn copy(&self) -> (r: ValueType)
        ensures
            same_type(r, *self),
            plain_type(*self) ==> r == *self,
        decreases self,
    {
        match self {
            ValueType::Float => ValueType::Float,
            ValueType::Int => ValueType::Int,
            ValueType::Bool => ValueType::Bool,
            ValueType::String => ValueType::String,
            ValueType::Range(inner) => ValueType::Range(Box::new((**inner).copy())),
            ValueType::Option(inner) => ValueType::Option(Box::new((**inner).copy())),
            ValueType::Function(name, params, ret) => {
                let ps = copy_types(params);
                let r = match ret {
                    Some(b) => Some(Box::new((**b).copy())),
                    None => None,
                };
                ValueType::Function(name.clone(), ps, r)
            },
            ValueType::CustomType(id, name) => ValueType::CustomType(*id, name.clone()),
        }
    }

    /// Chooses the type for a Rust type's identity: `i64`, `bool` and `String` by their
    /// identities, anything else as a custom type with that identity and an empty name.
    pub fn classify(id: TypeId, int_id: TypeId, bool_id: TypeId, string_id: TypeId) -> (t:
        ValueType)
        ensures
            id == int_id ==> t == ValueType::Int,
            id != int_id && id == bool_id ==> t == ValueType::Bool,
            id != int_id && id != bool_id && id == string_id ==> t == ValueType::String,
            id != int_id && id != bool_id && id != string_id ==> (t matches ValueType::CustomType(
                i,
                n,
            ) && i == id && n@ == Seq::<char>::empty()),
    {
        if same_type_id(&id, &int_id) {
            ValueType::Int
        } else if same_type_id(&id, &bool_id) {
            ValueType::Bool
        } else if same_type_id(&id, &string_id) {
            ValueType::String
        } else {
            ValueType::CustomType(id, String::new())
        }
    }

    /// The type of the Rust type `T`: `i64`, `bool` and `String` as themselves, any other
    /// type as a custom type with its identity and an empty name.
    pub fn of<T: ?Sized + 'static>() -> (t: ValueType)
        ensures
            t is Int || t is Bool || t is String || (t matches ValueType::CustomType(_, n) && n@ == Seq::<char>::empty()),
    {
        let id = type_id_of::<T>();
        let int_id = type_id_of::<i64>();
        let bool_id = type_id_of::<bool>();
        let string_id = type_id_of::<String>();
        Self::classify(id, int_id, bool_id, string_id)
    }



    /// The text this type is shown by.
    pub fn display(&self) -> (s: String)
        ensures
            s@ == type_text(*self),
        decreases *self, param_count(*self) + 1,
    {
        let mut s = String::new();
        match self {
            ValueType::Float => push_str(&mut s, "f64"),
            ValueType::Int => push_str(&mut s, "i64"),
            ValueType::Bool => push_str(&mut s, "bool"),
            ValueType::String => push_str(&mut s, "String"),
            ValueType::Range(inner) => {
                push_str(&mut s, "Range<");
                let t = (**inner).display();
                push_str(&mut s, t.as_str());
                push_str(&mut s, ">");
            },
            ValueType::Option(inner) => {
                push_str(&mut s, "Option<");
                let t = (**inner).display();
                push_str(&mut s, t.as_str());
                push_str(&mut s, ">");
            },
            ValueType::Function(_, params, ret) => {
                push_str(&mut s, "fn(");
                let p = display_params(self);
                push_str(&mut s, p.as_str());
                push_str(&mut s, ")");
                match ret {
                    Some(r) => {
                        push_str(&mut s, " -> ");
                        let t = (**r).display();
                        push_str(&mut s, t.as_str());
                    },
                    None => {},
                }
            },
            ValueType::CustomType(_, name) => push_str(&mut s, name.as_str()),
        }
        proof {
            reveal_strlit("f64");
            reveal_strlit("i64");
            reveal_strlit("bool");
            reveal_strlit("String");
            reveal_strlit("Range<");
            reveal_strlit("Option<");
            reveal_strlit(">");
            reveal_strlit("fn(");
            reveal_strlit(")");
            reveal_strlit(" -> ");
        }
        s
    }
}

/// The parameter types of a function type shown one after another, separated by `", "`.
pub fn display_params(t: &ValueType) -> (s: String)
    ensures
        s@ == params_text(*t, 0),
    decreases *t, param_count(*t),
{
    let mut s = String::new();
    match t {
        ValueType::Function(_, params, _) => {
            let n = params.len();
            if n == 0 {
                return s;
            }
            let mut i: usize = n - 1;
            proof {
                assert(decreases_to!(*t => params@[i as int]));
            }
            let last = params[i].display();
            push_str(&mut s, last.as_str());
            proof {
                reveal_strlit(", ");
            }
            while i > 0
                invariant
                    0 <= i < n,
                    n == params@.len(),
                    *t == ValueType::Function(t->Function_0, *params, t->Function_2),
                    s@ == params_text(*t, i as int),
                decreases i,
            {
                i = i - 1;
                proof {
                    assert(decreases_to!(*t => params@[i as int]));
                    reveal_strlit(", ");
                }
                let mut u = params[i].display();
                push_str(&mut u, ", ");
                push_str(&mut u, s.as_str());
                s = u;
            }
            s
        },
        _ => s,
    }
}

/// Copies of a list of types, each as `ValueType::copy` makes it.
pub fn copy_types(ts: &Vec<ValueType>) -> (r: Vec<ValueType>)
    ensures
        r@.len() == ts@.len(),
        forall|k: int|
            0 <= k < ts@.len() ==> same_type(#[trigger] r@[k], ts@[k]) && (plain_type(ts@[k])
                ==> r@[k] == ts@[k]),
    decreases ts@, 0nat,
{
    let mut r: Vec<ValueType> = Vec::new();
    let mut i: usize = 0;
    while i < ts.len()
        invariant
            i <= ts.len(),
            r@.len() == i,
            forall|k: int|
                0 <= k < i ==> same_type(#[trigger] r@[k], ts@[k]) && (plain_type(ts@[k])
                    ==> r@[k] == ts@[k]),
        decreases ts.len() - i,
    {
        proof {
            assert(decreases_to!(ts@ => ts@[i as int]));
        }
        r.push(ts[i].copy());
        i = i + 1;
    }
    r
}

/// A variable's type where it is read: set on every path, or only on some.
#[derive(Debug)]
pub enum MaybeValueType {
    Known(ValueType),
    Maybe(ValueType),
}

pub open spec fn inner_type(m: MaybeValueType) -> ValueType {
    match m {
        MaybeValueType::Known(t) => t,
        MaybeValueType::Maybe(t) => t,
    }
}

impl Clone for MaybeValueType {
    fn clone(&self) -> (r: Self)
        ensures
            same_maybe(r, *self),
            plain_type(inner_type(*self)) ==> r == *self,
    {
        self.copy()
    }
}

impl PartialEq for MaybeValueType {
    fn eq(&self, other: &Self) -> (r: bool) {
        match (self, other) {
            (MaybeValueType::Known(a), MaybeValueType::Known(b)) => a.same(b),
            (MaybeValueType::Maybe(a), MaybeValueType::Maybe(b)) => a.same(b),
            _ => false,
        }
    }
}

/// When two possibly-set types are the same: the same kind of certainty and the same type.
pub open spec fn same_maybe(a: MaybeValueType, b: MaybeValueType) -> bool {
    match (a, b) {
        (MaybeValueType::Known(x), MaybeValueType::Known(y)) => same_type(x, y),
        (MaybeValueType::Maybe(x), MaybeValueType::Maybe(y)) => same_type(x, y),
        _ => false,
    }
}

impl vstd::std_specs::cmp::PartialEqSpecImpl for MaybeValueType {
    open spec fn obeys_eq_spec() -> bool {
        true
    }

    open spec fn eq_spec(&self, other: &Self) -> bool {
        same_maybe(*self, *other)
    }
}

impl MaybeValueType {
    /// The type, whether it is certain or not.
    pub fn value_type(&self) -> (t: ValueType)
        ensures
            same_type(t, inner_type(*self)),
            plain_type(inner_type(*self)) ==> t == inner_type(*self),
    {
        match self {
            MaybeValueType::Known(t) => t.copy(),
            MaybeValueType::Maybe(t) => t.copy(),
        }
    }

    /// The same type, no longer certain.
    pub fn to_maybe(&self) -> (m: MaybeValueType)
        ensures
            m is Maybe,
            same_type(inner_type(m), inner_type(*self)),
            plain_type(inner_type(*self)) ==> m == MaybeValueType::Maybe(inner_type(*self)),
    {
        MaybeValueType::Maybe(self.value_type())
    }

    pub fn copy(&self) -> (m: MaybeValueType)
        ensures
            same_maybe(m, *self),
            plain_type(inner_type(*self)) ==> m == *self,
    {
        match self {
            MaybeValueType::Known(t) => MaybeValueType::Known(t.copy()),
            MaybeValueType::Maybe(t) => MaybeValueType::Maybe(t.copy()),
        }
    }
}

/// Demoting a type to "maybe" keeps the type and is idempotent.
pub proof fn lemma_to_maybe_idempotent(m: MaybeValueType)
    ensures
        inner_type(MaybeValueType::Maybe(inner_type(m))) == inner_type(m),
        MaybeValueType::Maybe(inner_type(MaybeValueType::Maybe(inner_type(m))))
            == MaybeValueType::Maybe(inner_type(m)),
{
}

/// Where a variable lives: its index, and whether it is global or local to a call.
#[derive(Debug, Clone, Copy, PartialEq, Eq, Structural)]
pub struct VariableSlot {
    pub index: usize,
    pub is_global: bool,
}

impl VariableSlot {
    pub fn new(index: usize, is_global: bool) -> (s: VariableSlot)
        ensures
            s.index == index,
            s.is_global == is_global,
    {
        VariableSlot { index, is_global }
    }
}

/// Where a call's receiver comes from: a variable (written back after a mutating call),
/// or the stack.
#[derive(Debug, Clone, Copy, PartialEq, Eq, Structural)]
pub enum CallSource {
    Variable(VariableSlot),
    Stack,
}

} // verus!

verus! {

/// Types shown one after another, separated by `", "`.
pub open spec fn joined_types(ts: Seq<ValueType>) -> Seq<char>
    decreases ts.len(),
{
    if ts.len() == 0 {
        Seq::empty()
    } else if ts.len() == 1 {
        type_text(ts[0])
    } else {
        joined_types(ts.drop_last()) + seq![',', ' '] + type_text(ts.last())
    }
}

/// A type as shown, or `none` for no type.
pub open spec fn optional_type_text(t: Option<ValueType>) -> Seq<char> {
    match t {
        Some(t) => type_text(t),
        None => seq!['n', 'o', 'n', 'e'],
    }
}

/// Shows types one after another, separated by `", "`.
pub fn join_types(ts: &Vec<ValueType>) -> (s: String)
    ensures
        s@ == joined_types(ts@),
{
    let mut s = String::new();
    let mut i: usize = 0;
    while i < ts.len()
        invariant
            i <= ts@.len(),
            s@ == joined_types(ts@.take(i as int)),
        decreases ts.len() - i,
    {
        proof {
            assert(ts@.take(i + 1).drop_last() =~= ts@.take(i as int));
            reveal_strlit(", ");
        }
        if i > 0 {
            push_str(&mut s, ", ");
        }
        push_str(&mut s, ts[i].display().as_str());
        proof {
            if i == 0 {
                assert(ts@.take(0) =~= Seq::<ValueType>::empty());
            }
        }
        i = i + 1;
    }
    assert(ts@.take(ts@.len() as int) =~= ts@);
    s
}

/// Shows a type, or `none` for no type.
pub fn show_optional_type(t: &Option<ValueType>) -> (s: String)
    ensures
        s@ == optional_type_text(*t),
{
    match t {
        Some(t) => t.display(),
        None => {
            proof {
                reveal_strlit("none");
            }
            "none".to_string()
        },
    }
}


/// A possibly set type as shown: the type, after `maybe ` where it may be unset.
pub open spec fn maybe_text(m: MaybeValueType) -> Seq<char> {
    match m {
        MaybeValueType::Known(t) => type_text(t),
        MaybeValueType::Maybe(t) => "maybe "@ + type_text(t),
    }
}

/// A possibly set type as shown, or `none` for none.
pub open spec fn optional_maybe_text(m: Option<MaybeValueType>) -> Seq<char> {
    match m {
        Some(m) => maybe_text(m),
        None => "none"@,
    }
}

/// Possibly set types shown one after another, separated by `", "`, with `maybe` for a
/// missing one.
pub open spec fn joined_optional_maybes(ms: Seq<Option<MaybeValueType>>) -> Seq<char>
    decreases ms.len(),
{
    let shown = |m: Option<MaybeValueType>| match m {
        Some(m) => maybe_text(m),
        None => "maybe"@,
    };
    if ms.len() == 0 {
        Seq::empty()
    } else if ms.len() == 1 {
        shown(ms[0])
    } else {
        joined_optional_maybes(ms.drop_last()) + ", "@ + shown(ms.last())
    }
}

/// Shows a possibly set type.
pub fn show_maybe(m: &MaybeValueType) -> (s: String)
    ensures
        s@ == maybe_text(*m),
{
    match m {
        MaybeValueType::Known(t) => t.display(),
        MaybeValueType::Maybe(t) => {
            let mut s = "maybe ".to_string();
            push_str(&mut s, t.display().as_str());
            s
        },
    }
}

/// Shows a possibly set type, or `none`.
pub fn show_optional_maybe(m: &Option<MaybeValueType>) -> (s: String)
    ensures
        s@ == optional_maybe_text(*m),
{
    match m {
        Some(m) => show_maybe(m),
        None => "none".to_string(),
    }
}

/// Shows possibly set types one after another, with `maybe` for a missing one.
pub fn join_optional_maybes(ms: &Vec<Option<MaybeValueType>>) -> (s: String)
    ensures
        s@ == joined_optional_maybes(ms@),
{
    let mut s = String::new();
    let mut i: usize = 0;
    assert(s@ =~= Seq::<char>::empty());
    while i < ms.len()
        invariant
            i <= ms@.len(),
            s@ == joined_optional_maybes(ms@.take(i as int)),
        decreases ms.len() - i,
    {
        proof {
            assert(ms@.take(i + 1).drop_last() =~= ms@.take(i as int));
            if i == 0 {
                assert(ms@.take(0) =~= Seq::<Option<MaybeValueType>>::empty());
            }
        }
        if i > 0 {
            push_str(&mut s, ", ");
        }
        match &ms[i] {
            Some(m) => push_str(&mut s, show_maybe(m).as_str()),
            None => push_str(&mut s, "maybe"),
        }
        i = i + 1;
    }
    assert(ms@.take(ms@.len() as int) =~= ms@);
    s
}

} // verus!
