use vstd::prelude::*;

use crate::parser::{BinaryOp, UnaryOp};
use crate::types::{ValueType, same_type, same_optional_type, custom_type_of, type_text};
use crate::text::push_str;
use crate::natives::{
    ITER_NEXT, OPTION_EXPECT, OPTION_IS_NONE, OPTION_IS_SOME, OPTION_NONE, OPTION_SOME,
    OPTION_UNWRAP, VEC_GET, VEC_INDEX, VEC_INSERT, VEC_INTO_ITER, VEC_IS_EMPTY, VEC_LEN, VEC_NEW,
    VEC_POP, VEC_PUSH, VEC_REMOVE, VEC_SET,
};
use crate::value::{ProgramValue, Value, same_value};

verus! {

/// How a native function is called from scripts. Each variant holds the number by which
/// the host that runs a program finds the function.
#[derive(Debug, Clone, Copy, PartialEq, Eq, Structural)]
pub enum FunctionKind {
    /// Top level free function (`add(a, b)`).
    Free(usize),
    /// Dot call requiring parentheses (`x.foo(a, b)`).
    Method(usize),
    /// A method that may change its receiver.
    MethodMut(usize),
    /// Dot access with no parentheses (`x.len`).
    Property(usize),
    /// Dot access setter (`x.value = 5`).
    Setter(usize),
}

impl FunctionKind {
    /// Whether the call has a receiver.
    pub fn has_callee(&self) -> (b: bool)
        ensures
            b == !(*self is Free),
    {
        match self {
            FunctionKind::Free(_) => false,
            FunctionKind::Method(_) => true,
            FunctionKind::MethodMut(_) => true,
            FunctionKind::Property(_) => true,
            FunctionKind::Setter(_) => true,
        }
    }
}

/// A native function: its name, parameter types (the receiver first, for calls with one),
/// parameter names, documentation, return type and how it is called.
#[derive(Debug)]
pub struct FunctionInfo {
    pub name: String,
    pub param_types: Vec<ValueType>,
    pub param_names: Vec<String>,
    pub doc_comments: Vec<String>,
    pub return_type: Option<ValueType>,
    pub kind: FunctionKind,
}

/// Two type lists match: the same length and the same type at each place.
pub open spec fn same_types(a: Seq<ValueType>, b: Seq<ValueType>) -> bool {
    &&& a.len() == b.len()
    &&& forall|i: int| 0 <= i < a.len() ==> same_type(#[trigger] a[i], b[i])
}

/// Whether two type lists match (see `same_types`).
pub fn types_match(a: &Vec<ValueType>, b: &[ValueType]) -> (r: bool)
    ensures
        r == same_types(a@, b@),
{
    if a.len() != b.len() {
        return false;
    }
    let mut i: usize = 0;
    while i < a.len()
        invariant
            i <= a.len(),
            a@.len() == b@.len(),
            forall|k: int| 0 <= k < i ==> same_type(#[trigger] a@[k], b@[k]),
        decreases a.len() - i,
    {
        if !a[i].same(&b[i]) {
            return false;
        }
        i = i + 1;
    }
    true
}

/// Copies of a list of strings.
pub fn copy_strings(v: &Vec<String>) -> (r: Vec<String>)
    ensures
        r@.len() == v@.len(),
        forall|i: int| 0 <= i < v@.len() ==> (#[trigger] r@[i])@ == v@[i]@,
{
    let mut r: Vec<String> = Vec::new();
    let mut i: usize = 0;
    while i < v.len()
        invariant
            i <= v.len(),
            r@.len() == i,
            forall|k: int| 0 <= k < i ==> (#[trigger] r@[k])@ == v@[k]@,
        decreases v.len() - i,
    {
        r.push(v[i].clone());
        i = i + 1;
    }
    r
}

/// Two function descriptions agree: the same name, parameter types, return type and
/// kind.
pub open spec fn same_info(a: FunctionInfo, b: FunctionInfo) -> bool {
    &&& a.name@ == b.name@
    &&& same_types(a.param_types@, b.param_types@)
    &&& a.param_types@.len() == b.param_types@.len()
    &&& a.return_type is Some == b.return_type is Some
    &&& (a.return_type is Some ==> same_type(a.return_type->0, b.return_type->0))
    &&& a.kind == b.kind
}

impl FunctionInfo {
    pub fn copy(&self) -> (f: FunctionInfo)
        ensures
            same_info(f, *self),
    {
        FunctionInfo {
            name: self.name.clone(),
            param_types: crate::types::copy_types(&self.param_types),
            param_names: copy_strings(&self.param_names),
            doc_comments: copy_strings(&self.doc_comments),
            return_type: match &self.return_type {
                Some(t) => Some(t.copy()),
                None => None,
            },
            kind: self.kind,
        }
    }
}

impl Clone for FunctionInfo {
    fn clone(&self) -> (f: Self)
        ensures
            same_info(f, *self),
    {
        self.copy()
    }
}

/// A unary operator applied to a type.
#[derive(Debug, Clone)]
pub struct UnarySignature {
    op: UnaryOp,
    value: ValueType,
}

impl UnarySignature {
    pub closed spec fn spec_op(&self) -> UnaryOp {
        self.op
    }

    pub closed spec fn spec_value(&self) -> ValueType {
        self.value
    }

    pub fn new(op: UnaryOp, value: ValueType) -> (s: UnarySignature)
        ensures
            s.spec_op() == op,
            s.spec_value() == value,
    {
        Self { op, value }
    }
}

/// A binary operator applied to two types.
#[derive(Debug, Clone)]
pub struct BinarySignature {
    a: ValueType,
    op: BinaryOp,
    b: ValueType,
}

impl BinarySignature {
    pub closed spec fn spec_a(&self) -> ValueType {
        self.a
    }

    pub closed spec fn spec_op(&self) -> BinaryOp {
        self.op
    }

    pub closed spec fn spec_b(&self) -> ValueType {
        self.b
    }

    pub fn new(a: ValueType, op: BinaryOp, b: ValueType) -> (s: BinarySignature)
        ensures
            s.spec_a() == a,
            s.spec_op() == op,
            s.spec_b() == b,
    {
        Self { a, op, b }
    }
}

/// Why a registration was refused.
#[derive(Debug, PartialEq)]
pub enum ModuleError {
    DuplicateType(ValueType, ValueType),
    DuplicateMethod(FunctionInfo, FunctionInfo),
    DuplicateFunction(FunctionInfo, FunctionInfo),
    DuplicateGlobal(String, ValueType, ValueType),
}

impl PartialEq for FunctionInfo {
    fn eq(&self, other: &Self) -> (r: bool) {
        self.name == other.name && types_match(&self.param_types, other.param_types.as_slice())
            && match (&self.return_type, &other.return_type) {
            (Some(a), Some(b)) => a.same(b),
            (None, None) => true,
            _ => false,
        } && self.kind == other.kind
    }
}

impl vstd::std_specs::cmp::PartialEqSpecImpl for FunctionInfo {
    open spec fn obeys_eq_spec() -> bool {
        true
    }

    open spec fn eq_spec(&self, other: &Self) -> bool {
        same_info(*self, *other)
    }
}

/// The entry under `name` in a list of named entries: the last one so named.
pub open spec fn lookup<V>(entries: Seq<(String, V)>, name: Seq<char>) -> Option<V>
    decreases entries.len(),
{
    if entries.len() == 0 {
        None
    } else if entries.last().0@ == name {
        Some(entries.last().1)
    } else {
        lookup(entries.drop_last(), name)
    }
}

/// The global under `name` in a list of globals: the last one so named.
pub open spec fn lookup_global(entries: Seq<(String, ValueType, Value)>, name: Seq<char>) -> Option<
    (ValueType, Value),
>
    decreases entries.len(),
{
    if entries.len() == 0 {
        None
    } else if entries.last().0@ == name {
        Some((entries.last().1, entries.last().2))
    } else {
        lookup_global(entries.drop_last(), name)
    }
}

/// Whether `i` is the first index in `fs` whose function is named `name` and takes
/// `params`.
pub open spec fn first_match(fs: Seq<FunctionInfo>, i: int, name: Seq<char>, params: Seq<ValueType>) -> bool {
    &&& 0 <= i < fs.len()
    &&& fs[i].name@ == name
    &&& same_types(fs[i].param_types@, params)
    &&& forall|j: int|
        0 <= j < i ==> !((#[trigger] fs[j]).name@ == name && same_types(fs[j].param_types@, params))
}

/// Whether `i` is the first method entry for a receiver type, a name and parameters.
pub open spec fn first_method(
    ms: Seq<(ValueType, FunctionInfo)>,
    i: int,
    receiver: ValueType,
    name: Seq<char>,
    params: Seq<ValueType>,
) -> bool {
    &&& 0 <= i < ms.len()
    &&& method_matches(ms[i], receiver, name, params)
    &&& forall|j: int| 0 <= j < i ==> !method_matches(#[trigger] ms[j], receiver, name, params)
}

pub open spec fn method_matches(
    m: (ValueType, FunctionInfo),
    receiver: ValueType,
    name: Seq<char>,
    params: Seq<ValueType>,
) -> bool {
    &&& same_type(m.0, receiver)
    &&& m.1.name@ == name
    &&& same_types(m.1.param_types@, params)
}

/// A Rust type that a module can register by its full path (such as `my_crate::Counter`),
/// the path scripts may also name it by.
pub trait TypePath {
    /// The full path of this Rust type.
    fn type_path() -> String;
}

/// The names, globals and native functions that scripts can use.
#[derive(Debug)]
pub struct Module {
    typing: Vec<(String, ValueType)>,
    globals: Vec<(String, ValueType, Value)>,
    functions: Vec<FunctionInfo>,
    methods: Vec<(ValueType, FunctionInfo)>,
}

impl Module {
    /// The named types, in the order they were registered.
    pub closed spec fn type_entries(&self) -> Seq<(String, ValueType)> {
        self.typing@
    }

    /// The globals, in the order they were registered.
    pub closed spec fn global_entries(&self) -> Seq<(String, ValueType, Value)> {
        self.globals@
    }

    /// The free functions, in the order they were registered.
    pub closed spec fn function_entries(&self) -> Seq<FunctionInfo> {
        self.functions@
    }

    /// The methods with their receiver types, in the order they were registered.
    pub closed spec fn method_entries(&self) -> Seq<(ValueType, FunctionInfo)> {
        self.methods@
    }

    /// The type that a name stands for: the built-in names first, then the registered ones.
    /// Every registered native whose name is one that the vector, iterator and option
    /// types use has the kind that name takes there.
    pub open spec fn wrapper_kinds_kept(&self) -> bool {
        &&& forall|i: int|
            0 <= i < self.function_entries().len() ==> (wrapper_function_kind(
                (#[trigger] self.function_entries()[i]).name@,
            ) matches Some(k) ==> self.function_entries()[i].kind == k)
        &&& forall|i: int|
            0 <= i < self.method_entries().len() ==> (wrapper_method_kind(
                (#[trigger] self.method_entries()[i]).1.name@,
            ) matches Some(k) ==> self.method_entries()[i].1.kind == k)
    }

    pub open spec fn spec_resolve_type(&self, name: Seq<char>) -> Option<ValueType> {
        if name == seq!['i', '6', '4'] {
            Some(ValueType::Int)
        } else if name == seq!['f', '6', '4'] {
            Some(ValueType::Float)
        } else if name == seq!['b', 'o', 'o', 'l'] {
            Some(ValueType::Bool)
        } else if name == seq!['S', 't', 'r', 'i', 'n', 'g'] {
            Some(ValueType::String)
        } else {
            lookup(self.type_entries(), name)
        }
    }

    /// The named types, in the order they were registered.
    pub fn types(&self) -> (r: &Vec<(String, ValueType)>)
        ensures
            r@ == self.type_entries(),
    {
        &self.typing
    }

    /// The globals, in the order they were registered.
    pub fn globals(&self) -> (r: &Vec<(String, ValueType, Value)>)
        ensures
            r@ == self.global_entries(),
    {
        &self.globals
    }

    /// The free functions, in the order they were registered.
    pub fn functions(&self) -> (r: &Vec<FunctionInfo>)
        ensures
            r@ == self.function_entries(),
    {
        &self.functions
    }

    /// The methods with their receiver types, in the order they were registered.
    pub fn methods(&self) -> (r: &Vec<(ValueType, FunctionInfo)>)
        ensures
            r@ == self.method_entries(),
    {
        &self.methods
    }

    /// A module with nothing registered.
    pub fn new() -> (m: Module)
        ensures
            m.type_entries().len() == 0,
            m.global_entries().len() == 0,
            m.function_entries().len() == 0,
            m.method_entries().len() == 0,
    {
        Module { typing: Vec::new(), globals: Vec::new(), functions: Vec::new(), methods: Vec::new() }
    }

    pub fn resolve_type(&self, name: &str) -> (t: Option<ValueType>)
        ensures
            t matches Some(x) ==> (self.spec_resolve_type(name@) matches Some(y) && same_type(x, y)
                && (crate::types::plain_type(y) ==> x == y)),
            t is None <==> self.spec_resolve_type(name@) is None,
    {
        let cs = crate::text::chars_of(name);
        proof {
            reveal_strlit("i64");
        }
        if cs.len() == 3 && cs[0] == 'i' && cs[1] == '6' && cs[2] == '4' {
            assert(name@ =~= seq!['i', '6', '4']);
            return Some(ValueType::Int);
        }
        if cs.len() == 3 && cs[0] == 'f' && cs[1] == '6' && cs[2] == '4' {
            assert(name@ =~= seq!['f', '6', '4']);
            return Some(ValueType::Float);
        }
        if cs.len() == 4 && cs[0] == 'b' && cs[1] == 'o' && cs[2] == 'o' && cs[3] == 'l' {
            assert(name@ =~= seq!['b', 'o', 'o', 'l']);
            return Some(ValueType::Bool);
        }
        if cs.len() == 6 && cs[0] == 'S' && cs[1] == 't' && cs[2] == 'r' && cs[3] == 'i' && cs[4]
            == 'n' && cs[5] == 'g' {
            assert(name@ =~= seq!['S', 't', 'r', 'i', 'n', 'g']);
            return Some(ValueType::String);
        }
        self.registered_type(name)
    }

    /// The type registered under `name`, without the built-in names.
    fn registered_type(&self, name: &str) -> (t: Option<ValueType>)
        ensures
            t matches Some(x) ==> (lookup(self.type_entries(), name@) matches Some(y) && same_type(x, y)
                && (crate::types::plain_type(y) ==> x == y)),
            t is None <==> lookup(self.type_entries(), name@) is None,
    {
        let key = name.to_string();
        let mut i: usize = self.typing.len();
        assert(self.typing@.take(i as int) =~= self.typing@);
        while i > 0
            invariant
                i <= self.typing@.len(),
                key@ == name@,
                lookup(self.typing@, name@) == lookup(self.typing@.take(i as int), name@),
            decreases i,
        {
            proof {
                assert(self.typing@.take(i as int).drop_last() =~= self.typing@.take(i - 1));
                assert(self.typing@.take(i as int).last() == self.typing@[i - 1]);
            }
            if self.typing[i - 1].0 == key {
                return Some(self.typing[i - 1].1.copy());
            }
            i = i - 1;
        }
        None
    }

    /// Registers a value that scripts read like a variable.
    pub fn register_global<T: ProgramValue>(&mut self, name: &str, value: T) -> (r: Result<(), ModuleError>)
        ensures
            final(self).global_entries().len() == old(self).global_entries().len() + 1,
            final(self).global_entries().drop_last() == old(self).global_entries(),
            final(self).global_entries().last().0@ == name@,
            final(self).type_entries() == old(self).type_entries(),
            final(self).function_entries() == old(self).function_entries(),
            final(self).method_entries() == old(self).method_entries(),
            r is Ok <==> lookup_global(old(self).global_entries(), name@) is None,
            r matches Err(e) ==> (e is DuplicateGlobal && e->DuplicateGlobal_0@ == name@),
    {
        let vt = T::value_type();
        let v = value.into_value();
        self.register_global_value(name, vt, v)
    }

    /// Registers a global of a given type and value. A global of the same name is replaced,
    /// and reported with its previous type.
    pub fn register_global_value(&mut self, name: &str, value_type: ValueType, value: Value) -> (r:
        Result<(), ModuleError>)
        ensures
            final(self).global_entries() == old(self).global_entries().push(
                (final(self).global_entries().last().0, value_type, value),
            ),
            final(self).global_entries().last().0@ == name@,
            final(self).type_entries() == old(self).type_entries(),
            final(self).function_entries() == old(self).function_entries(),
            final(self).method_entries() == old(self).method_entries(),
            r is Ok <==> lookup_global(old(self).global_entries(), name@) is None,
            r matches Err(e) ==> (e is DuplicateGlobal && e->DuplicateGlobal_0@ == name@ && (
            lookup_global(old(self).global_entries(), name@) matches Some(p) && same_type(
                e->DuplicateGlobal_1,
                p.0,
            ))),
    {
        let previous = self.resolve_global(name);
        let result = match previous {
            Some((t, _)) => Err(ModuleError::DuplicateGlobal(name.to_string(), t, value_type.copy())),
            None => Ok(()),
        };
        self.globals.push((name.to_string(), value_type, value));
        result
    }

    /// The type and a copy of the value of the global under `name`.
    pub fn resolve_global(&self, name: &str) -> (r: Option<(ValueType, Value)>)
        ensures
            r is None <==> lookup_global(self.global_entries(), name@) is None,
            r matches Some(p) ==> (lookup_global(self.global_entries(), name@) matches Some(q)
                && same_type(p.0, q.0) && same_value(p.1, q.1) && (crate::types::plain_type(q.0)
                ==> p.0 == q.0)),
    {
        let key = name.to_string();
        let mut i: usize = self.globals.len();
        assert(self.globals@.take(i as int) =~= self.globals@);
        while i > 0
            invariant
                i <= self.globals@.len(),
                key@ == name@,
                lookup_global(self.globals@, name@) == lookup_global(
                    self.globals@.take(i as int),
                    name@,
                ),
            decreases i,
        {
            proof {
                assert(self.globals@.take(i as int).drop_last() =~= self.globals@.take(i - 1));
                assert(self.globals@.take(i as int).last() == self.globals@[i - 1]);
            }
            if self.globals[i - 1].0 == key {
                return Some((self.globals[i - 1].1.copy(), self.globals[i - 1].2.copy()));
            }
            i = i - 1;
        }
        None
    }

    /// Registers a native free function. A function of the same name and parameter types
    /// but another kind is refused.
    pub fn register_function(&mut self, info: FunctionInfo) -> (r: Result<(), ModuleError>)
        ensures
            r is Ok ==> final(self).function_entries() == old(self).function_entries().push(info),
            r is Err ==> final(self).function_entries() == old(self).function_entries(),
            r is Err <==> exists|i: int|
                0 <= i < old(self).function_entries().len() && (#[trigger] old(
                    self,
                ).function_entries()[i]).name@ == info.name@ && same_types(
                    old(self).function_entries()[i].param_types@,
                    info.param_types@,
                ) && old(self).function_entries()[i].kind != info.kind,
            r matches Err(e) ==> (e matches ModuleError::DuplicateFunction(existing, given) && given == info
                && existing.name@ == info.name@ && same_types(existing.param_types@, info.param_types@)
                && existing.kind != info.kind),
            final(self).type_entries() == old(self).type_entries(),
            final(self).global_entries() == old(self).global_entries(),
            final(self).method_entries() == old(self).method_entries(),
    {
        let mut i: usize = 0;
        while i < self.functions.len()
            invariant
                i <= self.functions@.len(),
                forall|k: int|
                    0 <= k < i ==> !((#[trigger] self.functions@[k]).name@ == info.name@ && same_types(
                        self.functions@[k].param_types@,
                        info.param_types@,
                    ) && self.functions@[k].kind != info.kind),
            decreases self.functions.len() - i,
        {
            let existing = &self.functions[i];
            if existing.name == info.name && types_match(
                &existing.param_types,
                info.param_types.as_slice(),
            ) && existing.kind != info.kind {
                return Err(ModuleError::DuplicateFunction(existing.copy(), info));
            }
            i = i + 1;
        }
        self.functions.push(info);
        Ok(())
    }

    /// The native free function for a name and argument types: the first registered one
    /// that takes them; otherwise the first registered under the name, as a hint; otherwise
    /// none.
    pub fn lookup_function(&self, name: &str, params: &[ValueType]) -> (r: Result<
        &FunctionInfo,
        Option<&FunctionInfo>,
    >)
        ensures
            r matches Ok(f) ==> exists|i: int|
                first_match(self.function_entries(), i, name@, params@) && *f
                    == self.function_entries()[i],
            r is Err ==> forall|i: int|
                0 <= i < self.function_entries().len() ==> !((#[trigger] self.function_entries()[i]).name@
                    == name@ && same_types(self.function_entries()[i].param_types@, params@)),
            r matches Err(Some(f)) ==> exists|i: int|
                0 <= i < self.function_entries().len() && *f == self.function_entries()[i] && f.name@
                    == name@ && forall|j: int|
                    0 <= j < i ==> (#[trigger] self.function_entries()[j]).name@ != name@,
            r matches Err(None) ==> forall|i: int|
                0 <= i < self.function_entries().len() ==> (
                #[trigger] self.function_entries()[i]).name@ != name@,
    {
        let key = name.to_string();
        let mut first: Option<usize> = None;
        let mut i: usize = 0;
        while i < self.functions.len()
            invariant
                i <= self.functions@.len(),
                key@ == name@,
                forall|k: int|
                    0 <= k < i ==> !((#[trigger] self.functions@[k]).name@ == name@ && same_types(
                        self.functions@[k].param_types@,
                        params@,
                    )),
                first is None ==> forall|k: int|
                    0 <= k < i ==> (#[trigger] self.functions@[k]).name@ != name@,
                first matches Some(f) ==> f < i && self.functions@[f as int].name@ == name@
                    && forall|k: int| 0 <= k < f ==> (#[trigger] self.functions@[k]).name@ != name@,
            decreases self.functions.len() - i,
        {
            if self.functions[i].name == key {
                if first.is_none() {
                    first = Some(i);
                }
                if types_match(&self.functions[i].param_types, params) {
                    let f = &self.functions[i];
                    assert(first_match(self.functions@, i as int, name@, params@));
                    return Ok(f);
                }
            }
            i = i + 1;
        }
        match first {
            Some(f) => Err(Some(&self.functions[f])),
            None => Err(None),
        }
    }

    /// Registers a native method on a receiver type. One with the same receiver type, name
    /// and parameter types but another kind is refused.
    pub fn register_method(&mut self, receiver_type: ValueType, info: FunctionInfo) -> (r: Result<
        (),
        ModuleError,
    >)
        ensures
            r is Ok ==> final(self).method_entries() == old(self).method_entries().push(
                (receiver_type, info),
            ),
            r is Err ==> final(self).method_entries() == old(self).method_entries(),
            r is Err <==> exists|i: int|
                0 <= i < old(self).method_entries().len() && method_matches(
                    #[trigger] old(self).method_entries()[i],
                    receiver_type,
                    info.name@,
                    info.param_types@,
                ) && old(self).method_entries()[i].1.kind != info.kind,
            r matches Err(e) ==> e is DuplicateMethod,
            final(self).type_entries() == old(self).type_entries(),
            final(self).global_entries() == old(self).global_entries(),
            final(self).function_entries() == old(self).function_entries(),
    {
        let mut i: usize = 0;
        while i < self.methods.len()
            invariant
                i <= self.methods@.len(),
                forall|k: int|
                    0 <= k < i ==> !(method_matches(
                        #[trigger] self.methods@[k],
                        receiver_type,
                        info.name@,
                        info.param_types@,
                    ) && self.methods@[k].1.kind != info.kind),
            decreases self.methods.len() - i,
        {
            let existing = &self.methods[i];
            if existing.0.same(&receiver_type) && existing.1.name == info.name && types_match(
                &existing.1.param_types,
                info.param_types.as_slice(),
            ) && existing.1.kind != info.kind {
                return Err(ModuleError::DuplicateMethod(existing.1.copy(), info));
            }
            i = i + 1;
        }
        self.methods.push((receiver_type, info));
        Ok(())
    }

    /// The first registered method for a receiver type, name and parameter types.
    pub fn find_method(&self, receiver_type: &ValueType, name: &str, params: &[ValueType]) -> (r:
        Option<&FunctionInfo>)
        ensures
            r matches Some(f) ==> exists|i: int|
                first_method(self.method_entries(), i, *receiver_type, name@, params@) && *f
                    == self.method_entries()[i].1,
            r is None ==> forall|i: int|
                0 <= i < self.method_entries().len() ==> !method_matches(
                    #[trigger] self.method_entries()[i],
                    *receiver_type,
                    name@,
                    params@,
                ),
    {
        let key = name.to_string();
        let mut i: usize = 0;
        while i < self.methods.len()
            invariant
                i <= self.methods@.len(),
                key@ == name@,
                forall|k: int|
                    0 <= k < i ==> !method_matches(
                        #[trigger] self.methods@[k],
                        *receiver_type,
                        name@,
                        params@,
                    ),
            decreases self.methods.len() - i,
        {
            let entry = &self.methods[i];
            if entry.0.same(receiver_type) && entry.1.name == key && types_match(
                &entry.1.param_types,
                params,
            ) {
                assert(first_method(self.method_entries(), i as int, *receiver_type, name@, params@));
                return Some(&entry.1);
            }
            i = i + 1;
        }
        None
    }

    /// Registers a type under a name. A type already under that name is replaced, and
    /// reported with the new one.
    pub fn register_type_as(&mut self, name: &str, vt: ValueType) -> (r: Result<(), ModuleError>)
        ensures
            final(self).type_entries().len() == old(self).type_entries().len() + 1,
            final(self).type_entries().drop_last() == old(self).type_entries(),
            final(self).type_entries().last().0@ == name@,
            final(self).type_entries().last().1 == vt,
            r is Ok <==> lookup(old(self).type_entries(), name@) is None,
            r matches Err(e) ==> (e matches ModuleError::DuplicateType(p, n) && same_type(
                p,
                lookup(old(self).type_entries(), name@)->0,
            ) && same_type(n, vt)),
            final(self).global_entries() == old(self).global_entries(),
            final(self).function_entries() == old(self).function_entries(),
            final(self).method_entries() == old(self).method_entries(),
    {
        let key = name.to_string();
        let previous = self.registered_type(name);
        let result = match previous {
            Some(p) => Err(ModuleError::DuplicateType(p, vt.copy())),
            None => Ok(()),
        };
        let ghost before = self.typing@;
        self.typing.push((key, vt));
        assert(self.typing@.drop_last() =~= before);
        result
    }

    /// Adds everything that `other` registers: its types, globals, functions and methods,
    /// in that order and each in the order `other` has them. A type or global whose name is
    /// already used, or a function or method that conflicts with one already there, is
    /// refused and ends the merge.
    pub fn merge(&mut self, other: Module) -> (r: Result<(), ModuleError>)
        ensures
            r is Ok <==> !types_clash(old(self).type_entries(), other.type_entries())
                && !globals_clash(old(self).global_entries(), other.global_entries())
                && !functions_clash(old(self).function_entries(), other.function_entries())
                && !methods_clash(old(self).method_entries(), other.method_entries()),
            r is Ok ==> final(self).type_entries() == old(self).type_entries() + other.type_entries(),
            r is Ok ==> final(self).global_entries() == old(self).global_entries() + other.global_entries(),
            r is Ok ==> final(self).function_entries() == old(self).function_entries() + other.function_entries(),
            r is Ok ==> final(self).method_entries() == old(self).method_entries() + other.method_entries(),
            r matches Err(e) ==> (types_clash(old(self).type_entries(), other.type_entries()) ==> e is DuplicateType),
    {
        let ghost t0 = other.type_entries();
        let ghost g0 = other.global_entries();
        let ghost f0 = other.function_entries();
        let ghost m0 = other.method_entries();
        let mut rest = other;
        assert(rest.typing@ == t0 && rest.globals@ == g0 && rest.functions@ == f0 && rest.methods@ == m0);
        let ghost base = self.typing@;
        let ghost added = rest.typing@;
        let n_typing: usize = rest.typing.len();
        assert(added.len() == n_typing);
        let mut k: usize = 0;
        while rest.typing.len() > 0
            invariant
                k <= added.len(),
                added.len() <= usize::MAX,
                self.typing@ == base + added.take(k as int),
                t0 == other.type_entries(),
                g0 == other.global_entries(),
                f0 == other.function_entries(),
                m0 == other.method_entries(),
                base == old(self).typing@,
                added == t0,
                rest.typing@ == added.skip(k as int),
                rest.globals@ == g0,
                rest.functions@ == f0,
                rest.methods@ == m0,
                forall|j: int| 0 <= j < k ==> (#[trigger] lookup(base + added.take(j), added[j].0@)) is None,
                self.globals@ == old(self).globals@,
                self.functions@ == old(self).functions@,
                self.methods@ == old(self).methods@,
            decreases rest.typing.len(),
        {
            let (name, vt) = rest.typing.remove(0);
            assert(name == added[k as int].0 && vt == added[k as int].1);
            match self.registered_type(name.as_str()) {
                Some(previous) => {
                    proof {
                        assert(lookup(base + added.take(k as int), added[k as int].0@) is Some);
                        assert(types_clash(base, added));
                    }
                    self.typing.push((name, vt.copy()));
                    return Err(ModuleError::DuplicateType(previous, vt));
                },
                None => {},
            }
            self.typing.push((name, vt));
            proof {
                assert(added.take(k + 1) =~= added.take(k as int).push(added[k as int]));
                assert(added.skip(k + 1) =~= added.skip(k as int).drop_first());
            }
            k = k + 1;
        }
        proof {
            assert(added.take(added.len() as int) =~= added);
            assert(!types_clash(base, added));
        }
        let ghost gbase = self.globals@;
        let ghost gadded = rest.globals@;
        let n_globals: usize = rest.globals.len();
        assert(gadded.len() == n_globals);
        let mut k: usize = 0;
        while rest.globals.len() > 0
            invariant
                k <= gadded.len(),
                gadded.len() <= usize::MAX,
                self.globals@ == gbase + gadded.take(k as int),
                t0 == other.type_entries(),
                g0 == other.global_entries(),
                f0 == other.function_entries(),
                m0 == other.method_entries(),
                base == old(self).typing@,
                added == t0,
                gbase == old(self).globals@,
                gadded == g0,
                rest.globals@ == gadded.skip(k as int),
                rest.functions@ == f0,
                rest.methods@ == m0,
                !types_clash(base, added),
                forall|j: int| 0 <= j < k ==> (#[trigger] lookup_global(gbase + gadded.take(j), gadded[j].0@)) is None,
                self.typing@ == base + added,
                self.functions@ == old(self).functions@,
                self.methods@ == old(self).methods@,
            decreases rest.globals.len(),
        {
            let (name, vt, value) = rest.globals.remove(0);
            assert(name == gadded[k as int].0 && vt == gadded[k as int].1 && value == gadded[k as int].2);
            match self.resolve_global(name.as_str()) {
                Some((previous, _)) => {
                    proof {
                        assert(lookup_global(gbase + gadded.take(k as int), gadded[k as int].0@) is Some);
                        assert(globals_clash(gbase, gadded));
                    }
                    let t = vt.copy();
                    self.globals.push((name.clone(), vt, value));
                    return Err(ModuleError::DuplicateGlobal(name, previous, t));
                },
                None => {},
            }
            self.globals.push((name, vt, value));
            proof {
                assert(gadded.take(k + 1) =~= gadded.take(k as int).push(gadded[k as int]));
                assert(gadded.skip(k + 1) =~= gadded.skip(k as int).drop_first());
            }
            k = k + 1;
        }
        proof {
            assert(gadded.take(gadded.len() as int) =~= gadded);
            assert(!globals_clash(gbase, gadded));
        }
        let ghost fbase = self.functions@;
        let ghost fadded = rest.functions@;
        let n_functions: usize = rest.functions.len();
        assert(fadded.len() == n_functions);
        let mut k: usize = 0;
        while rest.functions.len() > 0
            invariant
                k <= fadded.len(),
                fadded.len() <= usize::MAX,
                self.functions@ == fbase + fadded.take(k as int),
                t0 == other.type_entries(),
                g0 == other.global_entries(),
                f0 == other.function_entries(),
                m0 == other.method_entries(),
                base == old(self).typing@,
                added == t0,
                gbase == old(self).globals@,
                gadded == g0,
                fbase == old(self).functions@,
                fadded == f0,
                rest.functions@ == fadded.skip(k as int),
                rest.methods@ == m0,
                !types_clash(base, added),
                forall|j: int| 0 <= j < k ==> !(#[trigger] function_conflict(fbase + fadded.take(j), fadded[j])),
                self.typing@ == base + added,
                self.globals@ == gbase + gadded,
                self.methods@ == old(self).methods@,
            decreases rest.functions.len(),
        {
            let info = rest.functions.remove(0);
            assert(info == fadded[k as int]);
            let ghost before = self.functions@;
            match self.register_function(info) {
                Ok(()) => {},
                Err(e) => {
                    proof {
                        assert(function_conflict(fbase + fadded.take(k as int), fadded[k as int]));
                        assert(functions_clash(fbase, fadded));
                    }
                    return Err(e);
                },
            }
            proof {
                assert(added.take(added.len() as int) =~= added);
                assert(fadded.take(k + 1) =~= fadded.take(k as int).push(fadded[k as int]));
                assert(fadded.skip(k + 1) =~= fadded.skip(k as int).drop_first());
                assert(!function_conflict(before, fadded[k as int]));
            }
            k = k + 1;
        }
        proof {
            assert(fadded.take(fadded.len() as int) =~= fadded);
            assert(!functions_clash(fbase, fadded));
        }
        let ghost mbase = self.methods@;
        let ghost madded = rest.methods@;
        let n_methods: usize = rest.methods.len();
        assert(madded.len() == n_methods);
        let mut k: usize = 0;
        while rest.methods.len() > 0
            invariant
                k <= madded.len(),
                madded.len() <= usize::MAX,
                self.methods@ == mbase + madded.take(k as int),
                t0 == other.type_entries(),
                g0 == other.global_entries(),
                f0 == other.function_entries(),
                m0 == other.method_entries(),
                base == old(self).typing@,
                added == t0,
                gbase == old(self).globals@,
                gadded == g0,
                fbase == old(self).functions@,
                fadded == f0,
                mbase == old(self).methods@,
                madded == m0,
                rest.methods@ == madded.skip(k as int),
                !types_clash(base, added),
                forall|j: int| 0 <= j < k ==> !(#[trigger] method_conflict(mbase + madded.take(j), madded[j])),
                self.typing@ == base + added,
                self.globals@ == gbase + gadded,
                self.functions@ == fbase + fadded,
            decreases rest.methods.len(),
        {
            let (receiver, info) = rest.methods.remove(0);
            assert(receiver == madded[k as int].0 && info == madded[k as int].1);
            let ghost before = self.methods@;
            match self.register_method(receiver, info) {
                Ok(()) => {},
                Err(e) => {
                    proof {
                        assert(method_conflict(mbase + madded.take(k as int), madded[k as int]));
                        assert(methods_clash(mbase, madded));
                    }
                    return Err(e);
                },
            }
            proof {
                assert(madded.take(k + 1) =~= madded.take(k as int).push(madded[k as int]));
                assert(madded.skip(k + 1) =~= madded.skip(k as int).drop_first());
                assert(!method_conflict(before, madded[k as int]));
            }
            k = k + 1;
        }
        proof {
            assert(madded.take(madded.len() as int) =~= madded);
            assert(!methods_clash(mbase, madded));
        }
        Ok(())
    }

    /// Names a type for scripts, in front of what the name stood for before.
    fn insert_type(&mut self, name: String, vt: ValueType)
        ensures
            final(self).type_entries() == old(self).type_entries().push((name, vt)),
            final(self).global_entries() == old(self).global_entries(),
            final(self).function_entries() == old(self).function_entries(),
            final(self).method_entries() == old(self).method_entries(),
    {
        self.typing.push((name, vt));
    }

    /// Registers the Rust type `T` under its full path, with its vector and option types.
    /// Another type already under that path is reported with the new one. Where every
    /// registered native keeps the kind that its name takes in the vector and option types,
    /// that is the only refusal.
    pub fn register_type<T: TypePath + 'static>(&mut self) -> (r: Result<ValueType, ModuleError>)
        ensures
            ({
                let n = old(self).type_entries().len() as int;
                let after = final(self).type_entries();
                let (path, t) = after[n];
                &&& after.len() > n
                &&& after.take(n) == old(self).type_entries()
                &&& t is CustomType
                &&& type_text(t) == path@
                &&& (lookup(old(self).type_entries(), path@) matches Some(prev) && !same_type(prev, t)) <==> (
                r matches Err(e) && e is DuplicateType)
                &&& r matches Err(ModuleError::DuplicateType(a, b)) ==> same_type(
                    a,
                    lookup(old(self).type_entries(), path@)->0,
                ) && same_type(b, t)
                &&& r matches Ok(vt) ==> vt == t && wrappers_added(after.take(n + 1), after, path@)
                &&& old(self).wrapper_kinds_kept() ==> (r is Ok <==> !(lookup(old(self).type_entries(), path@)
                    matches Some(prev) && !same_type(prev, t)))
            }),
            r matches Err(e) ==> (e is DuplicateType || e is DuplicateFunction || e is DuplicateMethod),
            old(self).wrapper_kinds_kept() ==> final(self).wrapper_kinds_kept(),
            final(self).global_entries() == old(self).global_entries(),
    {
        let path = T::type_path();
        let vt = custom_type_of::<T>(path.clone());
        let previous = self.registered_type(path.as_str());
        let entry = vt.copy();
        assert(crate::types::plain_type(vt));
        assert(entry == vt);
        self.insert_type(path, entry);
        let ghost named = self.type_entries();
        assert(named[old(self).type_entries().len() as int].1 is CustomType);
        match previous {
            Some(p) => {
                proof {
                    let l = lookup(old(self).type_entries(), path@)->0;
                    crate::types::lemma_same_type_equivalence(p, l, vt);
                    crate::types::lemma_same_type_equivalence(l, p, vt);
                }
                if !p.same(&vt) {
                    return Err(ModuleError::DuplicateType(p, vt));
                }
            },
            None => {},
        }
        match define_type_wrappers::<T>(self, vt.copy()) {
            Ok(()) => {
                proof {
                    let n = old(self).type_entries().len() as int;
                    assert(self.type_entries().take(n + 1) =~= named);
                    assert(self.type_entries().take(n) =~= old(self).type_entries());
                }
                Ok(vt)
            },
            Err(e) => {
                proof {
                    let n = old(self).type_entries().len() as int;
                    assert(self.type_entries().take(n) =~= old(self).type_entries());
                    assert(self.type_entries()[n] == named[n]);
                }
                Err(e)
            },
        }
    }

    /// Registers the Rust type `T` as a script type under a name, with its vector and option
    /// types, and then under its full path. A type already under that name is replaced, and
    /// reported with the new one.
    pub fn register_type_named<T: TypePath + 'static>(&mut self, name: &str) -> (r: Result<
        ValueType,
        ModuleError,
    >)
        ensures
            final(self).type_entries().len() > old(self).type_entries().len(),
            final(self).type_entries()[old(self).type_entries().len() as int].0@ == name@,
            lookup(old(self).type_entries(), name@) is Some ==> (r matches Err(ModuleError::DuplicateType(a, b))
                && same_type(a, lookup(old(self).type_entries(), name@)->0) && same_type(
                b,
                final(self).type_entries()[old(self).type_entries().len() as int].1,
            )),
            r matches Ok(vt) ==> ({
                let n = old(self).type_entries().len() as int;
                let after = final(self).type_entries();
                &&& vt is CustomType
                &&& type_text(vt) == name@
                &&& after[n as int].1 == vt
                &&& after.len() == n + 16
                &&& wrappers_added(after.take(n + 1), after.take(n + 8), name@)
                &&& after[n + 8].1 is CustomType
                &&& type_text(after[n + 8].1) == after[n + 8].0@
                &&& wrappers_added(after.take(n + 9), after, after[n + 8].0@)
            }),
            lookup(old(self).type_entries(), name@) is None && old(self).wrapper_kinds_kept() ==> ({
                let n = old(self).type_entries().len() as int;
                let after = final(self).type_entries();
                &&& after.len() > n + 8
                &&& (r is Ok <==> !(lookup(after.take(n + 8), after[n + 8].0@) matches Some(prev) && !same_type(
                    prev,
                    after[n + 8].1,
                )))
            }),
            r matches Err(e) ==> (e is DuplicateType || e is DuplicateFunction || e is DuplicateMethod),
            old(self).wrapper_kinds_kept() ==> final(self).wrapper_kinds_kept(),
            final(self).global_entries() == old(self).global_entries(),
    {
        let vt = custom_type_of::<T>(name.to_string());
        match self.register_type_as(name, vt.copy()) {
            Ok(()) => {},
            Err(e) => return Err(e),
        }
        let ghost named = self.type_entries();
        match define_type_wrappers::<T>(self, vt.copy()) {
            Ok(()) => {},
            Err(e) => return Err(e),
        }
        let ghost wrapped = self.type_entries();
        match self.register_type::<T>() {
            Ok(_) => {},
            Err(e) => {
                proof {
                    let n = old(self).type_entries().len() as int;
                    assert(self.type_entries()[n] == wrapped[n]);
                }
                return Err(e);
            },
        }
        proof {
            let n = old(self).type_entries().len() as int;
            assert(named.len() == n + 1);
            assert(named =~= self.type_entries().take(n + 1)) by {
                assert(wrapped.take(named.len() as int) =~= named);
                assert(self.type_entries().take(wrapped.len() as int) =~= wrapped);
            }
            assert(wrapped =~= self.type_entries().take(n + 8)) by {
                assert(self.type_entries().take(wrapped.len() as int) =~= wrapped);
            }
        }
        Ok(vt)
    }
}

/// Adding the named types `added` after `base` meets a name already used: by `base` or by
/// an earlier one of `added`.
pub open spec fn types_clash(base: Seq<(String, ValueType)>, added: Seq<(String, ValueType)>) -> bool {
    exists|k: int| 0 <= k < added.len() && (#[trigger] lookup(base + added.take(k), added[k].0@)) is Some
}

/// Adding the globals `added` after `base` meets a name already used.
pub open spec fn globals_clash(base: Seq<(String, ValueType, Value)>, added: Seq<(String, ValueType, Value)>) -> bool {
    exists|k: int| 0 <= k < added.len() && (#[trigger] lookup_global(base + added.take(k), added[k].0@)) is Some
}

/// A function conflicts with one of `fs`: the same name and parameter types, another kind.
pub open spec fn function_conflict(fs: Seq<FunctionInfo>, info: FunctionInfo) -> bool {
    exists|i: int|
        0 <= i < fs.len() && (#[trigger] fs[i]).name@ == info.name@ && same_types(fs[i].param_types@, info.param_types@)
            && fs[i].kind != info.kind
}

/// A method conflicts with one of `ms`: the same receiver type, name and parameter types,
/// another kind.
pub open spec fn method_conflict(ms: Seq<(ValueType, FunctionInfo)>, m: (ValueType, FunctionInfo)) -> bool {
    exists|i: int|
        0 <= i < ms.len() && method_matches(#[trigger] ms[i], m.0, m.1.name@, m.1.param_types@)
            && ms[i].1.kind != m.1.kind
}

/// Adding the functions `added` after `base`, in order, meets a conflict.
pub open spec fn functions_clash(base: Seq<FunctionInfo>, added: Seq<FunctionInfo>) -> bool {
    exists|k: int| 0 <= k < added.len() && #[trigger] function_conflict(base + added.take(k), added[k])
}

/// Adding the methods `added` after `base`, in order, meets a conflict.
pub open spec fn methods_clash(base: Seq<(ValueType, FunctionInfo)>, added: Seq<(ValueType, FunctionInfo)>) -> bool {
    exists|k: int| 0 <= k < added.len() && #[trigger] method_conflict(base + added.take(k), added[k])
}

/// The name of the vector type over a type shown as `t`.
pub open spec fn vec_name(t: Seq<char>) -> Seq<char> {
    seq!['V', 'e', 'c', '<'] + t + seq!['>']
}

/// The name of the option type over a type shown as `t`.
pub open spec fn option_name(t: Seq<char>) -> Seq<char> {
    seq!['O', 'p', 't', 'i', 'o', 'n', '<'] + t + seq!['>']
}

/// The names that `define_type_wrappers` gives, in order, for a type shown as `t`.
pub open spec fn wrapper_names(t: Seq<char>) -> Seq<Seq<char>> {
    seq![
        vec_name(t),
        option_name(t),
        vec_name(vec_name(t)),
        vec_name(option_name(t)),
        option_name(vec_name(t)),
        option_name(option_name(t)),
        option_name(vec_name(option_name(t))),
    ]
}

/// `after` is `before` with the seven wrapper types over a type shown as `t` named at its
/// end, each under the name it is shown by.
pub open spec fn wrappers_added(
    before: Seq<(String, ValueType)>,
    after: Seq<(String, ValueType)>,
    t: Seq<char>,
) -> bool {
    &&& after.len() == before.len() + 7
    &&& after.take(before.len() as int) == before
    &&& forall|k: int|
        0 <= k < 7 ==> {
            &&& (#[trigger] after[before.len() + k]).0@ == wrapper_names(t)[k]
            &&& after[before.len() + k].1 is CustomType
            &&& type_text(after[before.len() + k].1) == wrapper_names(t)[k]
        }
}

/// The name of the iterator type over a vector of a type shown as `t`.
pub open spec fn iterator_name(t: Seq<char>) -> Seq<char> {
    seq!['V', 'e', 'c', 'I', 't', 'e', 'r', 'a', 't', 'o', 'r', '<'] + t + seq!['>']
}

/// A registered method: its receiver type, name, parameter types, return type and kind.
pub open spec fn method_is(
    e: (ValueType, FunctionInfo),
    receiver: ValueType,
    name: Seq<char>,
    params: Seq<ValueType>,
    ret: Option<ValueType>,
    kind: FunctionKind,
) -> bool {
    &&& same_type(e.0, receiver)
    &&& e.1.name@ == name
    &&& same_types(e.1.param_types@, params)
    &&& same_optional_type(e.1.return_type, ret)
    &&& e.1.kind == kind
}

/// A registered native returns a type of the library's own, shown as `name`.
pub open spec fn returns_named(f: FunctionInfo, name: Seq<char>) -> bool {
    f.return_type matches Some(x) && x is CustomType && type_text(x) == name
}

/// A registered free function: its name, parameter types, return type and kind.
pub open spec fn function_is(
    f: FunctionInfo,
    name: Seq<char>,
    params: Seq<ValueType>,
    ret: Option<ValueType>,
    kind: FunctionKind,
) -> bool {
    &&& f.name@ == name
    &&& same_types(f.param_types@, params)
    &&& same_optional_type(f.return_type, ret)
    &&& f.kind == kind
}

/// The methods that the vector type `v` over the type `t` gets, in the order they are
/// registered; `t` is shown as `n`.
pub open spec fn vector_methods(s: Seq<(ValueType, FunctionInfo)>, v: ValueType, t: ValueType, n: Seq<char>) -> bool {
    &&& s.len() == 11
    &&& method_is(s[0], v, "push"@, seq![v, t], None, FunctionKind::MethodMut(VEC_PUSH))
    &&& method_is(s[1], v, "insert"@, seq![v, ValueType::Int, t], None, FunctionKind::MethodMut(VEC_INSERT))
    &&& method_is(s[2], v, "pop"@, seq![v], s[2].1.return_type, FunctionKind::MethodMut(VEC_POP))
    &&& returns_named(s[2].1, option_name(n))
    &&& method_is(s[3], v, "remove"@, seq![v, ValueType::Int], None, FunctionKind::MethodMut(VEC_REMOVE))
    &&& method_is(s[4], v, "get"@, seq![v, ValueType::Int], s[4].1.return_type, FunctionKind::Method(VEC_GET))
    &&& returns_named(s[4].1, option_name(n))
    &&& method_is(s[5], v, "index"@, seq![v, ValueType::Int], Some(t), FunctionKind::Method(VEC_INDEX))
    &&& method_is(s[6], v, "set"@, seq![v, ValueType::Int, t], None, FunctionKind::MethodMut(VEC_SET))
    &&& method_is(s[7], v, "is_empty"@, seq![v], Some(ValueType::Bool), FunctionKind::Method(VEC_IS_EMPTY))
    &&& method_is(s[8], v, "len"@, seq![v], Some(ValueType::Int), FunctionKind::Method(VEC_LEN))
    &&& method_is(s[9], v, "into_iter"@, seq![v], s[9].1.return_type, FunctionKind::Method(VEC_INTO_ITER))
    &&& returns_named(s[9].1, iterator_name(n))
    &&& s[10].0 is CustomType && type_text(s[10].0) == iterator_name(n)
    &&& method_is(s[10], s[10].0, "next"@, seq![s[10].0], s[10].1.return_type, FunctionKind::MethodMut(ITER_NEXT))
    &&& returns_named(s[10].1, option_name(n))
}

/// The methods that the option type `o` over the type `t` gets, in the order they are
/// registered.
pub open spec fn option_methods(s: Seq<(ValueType, FunctionInfo)>, o: ValueType, t: ValueType) -> bool {
    &&& s.len() == 4
    &&& method_is(s[0], o, "unwrap"@, seq![o], Some(t), FunctionKind::Method(OPTION_UNWRAP))
    &&& method_is(s[1], o, "expect"@, seq![o, ValueType::String], Some(t), FunctionKind::Method(OPTION_EXPECT))
    &&& method_is(s[2], o, "is_some"@, seq![o], Some(ValueType::Bool), FunctionKind::Method(OPTION_IS_SOME))
    &&& method_is(s[3], o, "is_none"@, seq![o], Some(ValueType::Bool), FunctionKind::Method(OPTION_IS_NONE))
}

/// The kind that a method of the vector, iterator and option types takes under `name`, if
/// it is one of their names.
pub open spec fn wrapper_method_kind(name: Seq<char>) -> Option<FunctionKind> {
    if name == "push"@ {
        Some(FunctionKind::MethodMut(VEC_PUSH))
    } else if name == "insert"@ {
        Some(FunctionKind::MethodMut(VEC_INSERT))
    } else if name == "pop"@ {
        Some(FunctionKind::MethodMut(VEC_POP))
    } else if name == "remove"@ {
        Some(FunctionKind::MethodMut(VEC_REMOVE))
    } else if name == "get"@ {
        Some(FunctionKind::Method(VEC_GET))
    } else if name == "index"@ {
        Some(FunctionKind::Method(VEC_INDEX))
    } else if name == "set"@ {
        Some(FunctionKind::MethodMut(VEC_SET))
    } else if name == "is_empty"@ {
        Some(FunctionKind::Method(VEC_IS_EMPTY))
    } else if name == "len"@ {
        Some(FunctionKind::Method(VEC_LEN))
    } else if name == "into_iter"@ {
        Some(FunctionKind::Method(VEC_INTO_ITER))
    } else if name == "next"@ {
        Some(FunctionKind::MethodMut(ITER_NEXT))
    } else if name == "unwrap"@ {
        Some(FunctionKind::Method(OPTION_UNWRAP))
    } else if name == "expect"@ {
        Some(FunctionKind::Method(OPTION_EXPECT))
    } else if name == "is_some"@ {
        Some(FunctionKind::Method(OPTION_IS_SOME))
    } else if name == "is_none"@ {
        Some(FunctionKind::Method(OPTION_IS_NONE))
    } else {
        None
    }
}

/// The kind that a free function of the vector and option types takes under `name`: the
/// constructors named by a vector or option type, and `Some`.
pub open spec fn wrapper_function_kind(name: Seq<char>) -> Option<FunctionKind> {
    if name.len() > 4 && name.take(4) == seq!['V', 'e', 'c', '<'] {
        Some(FunctionKind::Free(VEC_NEW))
    } else if name.len() > 7 && name.take(7) == seq!['O', 'p', 't', 'i', 'o', 'n', '<'] {
        Some(FunctionKind::Free(OPTION_NONE))
    } else if name == seq!['S', 'o', 'm', 'e'] {
        Some(FunctionKind::Free(OPTION_SOME))
    } else {
        None
    }
}

/// The method names of the vector, iterator and option types take their kinds.
proof fn lemma_wrapper_method_kinds()
    ensures
        wrapper_method_kind("push"@) == Some(FunctionKind::MethodMut(VEC_PUSH)),
        wrapper_method_kind("insert"@) == Some(FunctionKind::MethodMut(VEC_INSERT)),
        wrapper_method_kind("pop"@) == Some(FunctionKind::MethodMut(VEC_POP)),
        wrapper_method_kind("remove"@) == Some(FunctionKind::MethodMut(VEC_REMOVE)),
        wrapper_method_kind("get"@) == Some(FunctionKind::Method(VEC_GET)),
        wrapper_method_kind("index"@) == Some(FunctionKind::Method(VEC_INDEX)),
        wrapper_method_kind("set"@) == Some(FunctionKind::MethodMut(VEC_SET)),
        wrapper_method_kind("is_empty"@) == Some(FunctionKind::Method(VEC_IS_EMPTY)),
        wrapper_method_kind("len"@) == Some(FunctionKind::Method(VEC_LEN)),
        wrapper_method_kind("into_iter"@) == Some(FunctionKind::Method(VEC_INTO_ITER)),
        wrapper_method_kind("next"@) == Some(FunctionKind::MethodMut(ITER_NEXT)),
        wrapper_method_kind("unwrap"@) == Some(FunctionKind::Method(OPTION_UNWRAP)),
        wrapper_method_kind("expect"@) == Some(FunctionKind::Method(OPTION_EXPECT)),
        wrapper_method_kind("is_some"@) == Some(FunctionKind::Method(OPTION_IS_SOME)),
        wrapper_method_kind("is_none"@) == Some(FunctionKind::Method(OPTION_IS_NONE)),
{
    reveal_strlit("push");
    reveal_strlit("insert");
    reveal_strlit("pop");
    reveal_strlit("remove");
    reveal_strlit("get");
    reveal_strlit("index");
    reveal_strlit("set");
    reveal_strlit("is_empty");
    reveal_strlit("len");
    reveal_strlit("into_iter");
    reveal_strlit("next");
    reveal_strlit("unwrap");
    reveal_strlit("expect");
    reveal_strlit("is_some");
    reveal_strlit("is_none");
    assert("push"@.len() == 4);
    assert("insert"@.len() == 6);
    assert("pop"@.len() == 3);
    assert("remove"@.len() == 6);
    assert("get"@.len() == 3);
    assert("index"@.len() == 5);
    assert("set"@.len() == 3);
    assert("is_empty"@.len() == 8);
    assert("len"@.len() == 3);
    assert("into_iter"@.len() == 9);
    assert("next"@.len() == 4);
    assert("unwrap"@.len() == 6);
    assert("expect"@.len() == 6);
    assert("is_some"@.len() == 7);
    assert("is_none"@.len() == 7);
    assert("pop"@[0] != "get"@[0]);
    assert("pop"@[0] != "set"@[0]);
    assert("pop"@[0] != "len"@[0]);
    assert("get"@[0] != "set"@[0]);
    assert("get"@[0] != "len"@[0]);
    assert("set"@[0] != "len"@[0]);
    assert("push"@[0] != "next"@[0]);
    assert("insert"@[0] != "remove"@[0]);
    assert("insert"@[0] != "unwrap"@[0]);
    assert("insert"@[0] != "expect"@[0]);
    assert("remove"@[0] != "unwrap"@[0]);
    assert("remove"@[0] != "expect"@[0]);
    assert("unwrap"@[0] != "expect"@[0]);
    assert("is_some"@[3] != "is_none"@[3]);
}

/// The constructors of the vector and option types over a type shown as `t`, and `Some`,
/// take their kinds.
proof fn lemma_wrapper_function_kinds(t: Seq<char>)
    ensures
        wrapper_function_kind(vec_name(t)) == Some(FunctionKind::Free(VEC_NEW)),
        wrapper_function_kind(option_name(t)) == Some(FunctionKind::Free(OPTION_NONE)),
        wrapper_function_kind("Some"@) == Some(FunctionKind::Free(OPTION_SOME)),
{
    reveal_strlit("Some");
    assert(vec_name(t).take(4) =~= seq!['V', 'e', 'c', '<']);
    assert(option_name(t).take(4)[0] != seq!['V', 'e', 'c', '<'][0]);
    assert(option_name(t).take(7) =~= seq!['O', 'p', 't', 'i', 'o', 'n', '<']);
    assert("Some"@ =~= seq!['S', 'o', 'm', 'e']);
}

/// Registers a free function of the vector and option types, of the kind its name takes.
/// Where every registered native keeps the kind its name takes, it is accepted, and they
/// still do.
fn add_wrapper_function(module: &mut Module, info: FunctionInfo) -> (r: Result<(), ModuleError>)
    requires
        wrapper_function_kind(info.name@) == Some(info.kind),
    ensures
        r is Ok ==> final(module).function_entries() == old(module).function_entries().push(info),
        r is Err ==> final(module).function_entries() == old(module).function_entries(),
        r matches Err(e) ==> e is DuplicateFunction,
        final(module).type_entries() == old(module).type_entries(),
        final(module).global_entries() == old(module).global_entries(),
        final(module).method_entries() == old(module).method_entries(),
        old(module).wrapper_kinds_kept() ==> r is Ok && final(module).wrapper_kinds_kept(),
{
    let ghost before = module.function_entries();
    let ghost given = info;
    let r = module.register_function(info);
    proof {
        if old(module).wrapper_kinds_kept() {
            if r is Err {
                let i = choose|i: int|
                    0 <= i < before.len() && (#[trigger] before[i]).name@ == given.name@ && same_types(
                        before[i].param_types@,
                        given.param_types@,
                    ) && before[i].kind != given.kind;
                assert(wrapper_function_kind(before[i].name@) == Some(given.kind));
            }
            let after = module.function_entries();
            assert forall|i: int| 0 <= i < after.len() implies (wrapper_function_kind(
                (#[trigger] after[i]).name@,
            ) matches Some(k) ==> after[i].kind == k) by {
                if i < before.len() {
                    assert(after[i] == before[i]);
                }
            }
        }
    }
    r
}

/// Registers a method of the vector, iterator and option types, of the kind its name
/// takes. Where every registered native keeps the kind its name takes, it is accepted, and
/// they still do.
fn add_wrapper_method(module: &mut Module, receiver_type: ValueType, info: FunctionInfo) -> (r: Result<
    (),
    ModuleError,
>)
    requires
        wrapper_method_kind(info.name@) == Some(info.kind),
    ensures
        r is Ok ==> final(module).method_entries() == old(module).method_entries().push(
            (receiver_type, info),
        ),
        r is Err ==> final(module).method_entries() == old(module).method_entries(),
        r matches Err(e) ==> e is DuplicateMethod,
        final(module).type_entries() == old(module).type_entries(),
        final(module).global_entries() == old(module).global_entries(),
        final(module).function_entries() == old(module).function_entries(),
        old(module).wrapper_kinds_kept() ==> r is Ok && final(module).wrapper_kinds_kept(),
{
    let ghost before = module.method_entries();
    let ghost given = info;
    let ghost receiver = receiver_type;
    let r = module.register_method(receiver_type, info);
    proof {
        if old(module).wrapper_kinds_kept() {
            if r is Err {
                let i = choose|i: int|
                    0 <= i < before.len() && method_matches(
                        #[trigger] before[i],
                        receiver,
                        given.name@,
                        given.param_types@,
                    ) && before[i].1.kind != given.kind;
                assert(wrapper_method_kind(before[i].1.name@) == Some(given.kind));
            }
            let after = module.method_entries();
            assert forall|i: int| 0 <= i < after.len() implies (wrapper_method_kind(
                (#[trigger] after[i]).1.name@,
            ) matches Some(k) ==> after[i].1.kind == k) by {
                if i < before.len() {
                    assert(after[i] == before[i]);
                }
            }
        }
    }
    r
}

/// A native's description with no parameter names or documentation.
fn native(name: &str, param_types: Vec<ValueType>, return_type: Option<ValueType>, kind: FunctionKind) -> (f: FunctionInfo)
    ensures
        f.name@ == name@,
        f.param_types == param_types,
        f.return_type == return_type,
        f.kind == kind,
{
    FunctionInfo {
        name: name.to_string(),
        param_types,
        param_names: Vec::new(),
        doc_comments: Vec::new(),
        return_type,
        kind,
    }
}

/// Registers the vector and option types over `typing` (`T` is the Rust type of its values),
/// with their natives: vectors of it and of its options, options of it, of its vectors,
/// of its options, and of vectors of its options.
pub fn define_type_wrappers<T: 'static>(module: &mut Module, typing: ValueType) -> (r: Result<(), ModuleError>)
    ensures
        r is Ok ==> wrappers_added(old(module).type_entries(), final(module).type_entries(), type_text(typing)),
        r matches Err(e) ==> (e is DuplicateFunction || e is DuplicateMethod),
        old(module).wrapper_kinds_kept() ==> r is Ok && final(module).wrapper_kinds_kept(),
        final(module).type_entries().len() >= old(module).type_entries().len(),
        final(module).type_entries().take(old(module).type_entries().len() as int) == old(module).type_entries(),
        final(module).global_entries() == old(module).global_entries(),
{
    let ghost before = module.type_entries();
    let ghost x = type_text(typing);
    let base_vector_type = define_vector_wrap::<T>(module, &typing)?;
    let ghost s1 = module.type_entries();
    let base_option_type = define_option_wrap::<T>(module, &typing)?;
    let ghost s2 = module.type_entries();
    define_vector_wrap::<Vec<T>>(module, &base_vector_type)?;
    let ghost s3 = module.type_entries();
    let array_of_options = define_vector_wrap::<Option<T>>(module, &base_option_type)?;
    let ghost s4 = module.type_entries();
    define_option_wrap::<Vec<T>>(module, &base_vector_type)?;
    let ghost s5 = module.type_entries();
    define_option_wrap::<Option<T>>(module, &base_option_type)?;
    let ghost s6 = module.type_entries();
    define_option_wrap::<Vec<Option<T>>>(module, &array_of_options)?;
    proof {
        let after = module.type_entries();
        let n = before.len() as int;
        assert(after.take(n) =~= before);
        assert(after[n] == s1.last());
        assert(after[n + 1] == s2.last());
        assert(after[n + 2] == s3.last());
        assert(after[n + 3] == s4.last());
        assert(after[n + 4] == s5.last());
        assert(after[n + 5] == s6.last());
        let names = wrapper_names(x);
        assert(after[n].0@ == names[0] && type_text(after[n].1) == names[0]);
        assert(after[n + 1].0@ == names[1] && type_text(after[n + 1].1) == names[1]);
        assert(after[n + 2].0@ == names[2] && type_text(after[n + 2].1) == names[2]);
        assert(after[n + 3].0@ == names[3] && type_text(after[n + 3].1) == names[3]);
        assert(after[n + 4].0@ == names[4] && type_text(after[n + 4].1) == names[4]);
        assert(after[n + 5].0@ == names[5] && type_text(after[n + 5].1) == names[5]);
        assert(after[n + 6].0@ == names[6] && type_text(after[n + 6].1) == names[6]);
        assert forall|k: int| 0 <= k < 7 implies {
            &&& (#[trigger] after[before.len() + k]).0@ == names[k]
            &&& after[before.len() + k].1 is CustomType
            &&& type_text(after[before.len() + k].1) == names[k]
        } by {
            if k == 0 {} else if k == 1 {} else if k == 2 {} else if k == 3 {} else if k == 4 {} else if k == 5 {} else {}
        }
    }
    Ok(())
}

/// Registers the vector type over `typing`, its natives, and the natives of its iterator:
/// a constructor of an empty vector, `push`, `insert`, `pop`, `remove`, `get`, `index`,
/// `set`, `is_empty`, `len`, `into_iter`, and the iterator's `next`. The type is named
/// before the natives are registered.
fn define_vector_wrap<T: 'static>(module: &mut Module, typing: &ValueType) -> (r: Result<ValueType, ModuleError>)
    ensures
        final(module).type_entries().len() == old(module).type_entries().len() + 1,
        final(module).type_entries().drop_last() == old(module).type_entries(),
        final(module).type_entries().last().0@ == vec_name(type_text(*typing)),
        final(module).type_entries().last().1 is CustomType,
        type_text(final(module).type_entries().last().1) == vec_name(type_text(*typing)),
        r matches Ok(vt) ==> vt == final(module).type_entries().last().1,
        r matches Err(e) ==> (e is DuplicateFunction || e is DuplicateMethod),
        old(module).wrapper_kinds_kept() ==> r is Ok && final(module).wrapper_kinds_kept(),
        final(module).global_entries() == old(module).global_entries(),
        r is Ok ==> final(module).function_entries() == old(module).function_entries().push(
            final(module).function_entries().last(),
        ),
        r is Ok ==> function_is(
            final(module).function_entries().last(),
            vec_name(type_text(*typing)),
            seq![],
            Some(final(module).type_entries().last().1),
            FunctionKind::Free(VEC_NEW),
        ),
        r is Ok ==> final(module).method_entries().take(old(module).method_entries().len() as int)
            == old(module).method_entries(),
        r is Ok ==> vector_methods(
            final(module).method_entries().skip(old(module).method_entries().len() as int),
            final(module).type_entries().last().1,
            *typing,
            type_text(*typing),
        ),
{
    proof {
        reveal_strlit("Vec<");
        reveal_strlit("Option<");
        reveal_strlit("VecIterator<");
        reveal_strlit(">");
        lemma_wrapper_method_kinds();
        lemma_wrapper_function_kinds(type_text(*typing));
    }
    let typing_name = typing.display();
    let mut vec_type_name = "Vec<".to_string();
    push_str(&mut vec_type_name, typing_name.as_str());
    push_str(&mut vec_type_name, ">");
    assert(vec_type_name@ =~= vec_name(type_text(*typing)));
    let vec_value_type = custom_type_of::<Vec<T>>(vec_type_name.clone());
    module.insert_type(vec_type_name.clone(), vec_value_type.copy());
    let ghost named = module.type_entries();
    let ghost f0 = module.function_entries();
    let ghost m0 = module.method_entries();
    let mut option_text = "Option<".to_string();
    push_str(&mut option_text, typing_name.as_str());
    push_str(&mut option_text, ">");
    let typing_value_optional = custom_type_of::<Option<T>>(option_text);
    let mut iterator_text = "VecIterator<".to_string();
    push_str(&mut iterator_text, typing_name.as_str());
    push_str(&mut iterator_text, ">");
    let iterator_type = custom_type_of::<VecIterator<T>>(iterator_text);

    add_wrapper_function(module, native(vec_type_name.as_str(), vec![], Some(vec_value_type.copy()), FunctionKind::Free(VEC_NEW)))?;
    add_wrapper_method(module, vec_value_type.copy(), native("push", vec![vec_value_type.copy(), typing.copy()], None, FunctionKind::MethodMut(VEC_PUSH)))?;
    add_wrapper_method(module, vec_value_type.copy(), native("insert", vec![vec_value_type.copy(), ValueType::Int, typing.copy()], None, FunctionKind::MethodMut(VEC_INSERT)))?;
    add_wrapper_method(module, vec_value_type.copy(), native("pop", vec![vec_value_type.copy()], Some(typing_value_optional.copy()), FunctionKind::MethodMut(VEC_POP)))?;
    add_wrapper_method(module, vec_value_type.copy(), native("remove", vec![vec_value_type.copy(), ValueType::Int], None, FunctionKind::MethodMut(VEC_REMOVE)))?;
    add_wrapper_method(module, vec_value_type.copy(), native("get", vec![vec_value_type.copy(), ValueType::Int], Some(typing_value_optional.copy()), FunctionKind::Method(VEC_GET)))?;
    add_wrapper_method(module, vec_value_type.copy(), native("index", vec![vec_value_type.copy(), ValueType::Int], Some(typing.copy()), FunctionKind::Method(VEC_INDEX)))?;
    add_wrapper_method(module, vec_value_type.copy(), native("set", vec![vec_value_type.copy(), ValueType::Int, typing.copy()], None, FunctionKind::MethodMut(VEC_SET)))?;
    add_wrapper_method(module, vec_value_type.copy(), native("is_empty", vec![vec_value_type.copy()], Some(ValueType::Bool), FunctionKind::Method(VEC_IS_EMPTY)))?;
    add_wrapper_method(module, vec_value_type.copy(), native("len", vec![vec_value_type.copy()], Some(ValueType::Int), FunctionKind::Method(VEC_LEN)))?;
    add_wrapper_method(module, vec_value_type.copy(), native("into_iter", vec![vec_value_type.copy()], Some(iterator_type.copy()), FunctionKind::Method(VEC_INTO_ITER)))?;
    add_wrapper_method(module, iterator_type.copy(), native("next", vec![iterator_type.copy()], Some(typing_value_optional), FunctionKind::MethodMut(ITER_NEXT)))?;
    proof {
        let all = module.method_entries();
        let n = m0.len() as int;
        assert(all.take(n) =~= m0);
        assert forall|k: int| 0 <= k < 11 implies #[trigger] all.skip(n)[k] == all[n + k] by {}
        assert(f0.push(module.function_entries().last()) == module.function_entries());
        let f = module.function_entries().last();
        assert(f.name@ == vec_name(type_text(*typing)));
        assert(same_types(f.param_types@, seq![]));
        assert(same_optional_type(f.return_type, Some(module.type_entries().last().1)));
        assert(f.kind == FunctionKind::Free(VEC_NEW));
        let v = module.type_entries().last().1;
        assert(method_is(all[n], v, "push"@, seq![v, *typing], None, FunctionKind::MethodMut(VEC_PUSH)));
        assert(type_text(typing_value_optional) == option_name(type_text(*typing)));
        assert(all[n + 2].1.return_type == Some(typing_value_optional));
        assert(returns_named(all[n + 2].1, option_name(type_text(*typing))));
        assert(all[n + 10].0 is CustomType && type_text(all[n + 10].0) == iterator_name(type_text(*typing)));
    }
    Ok(vec_value_type)
}

/// Registers the option type over `typing` and its natives: a constructor of an empty
/// option, `Some`, `unwrap`, `expect`, `is_some` and `is_none`. The type is named before
/// the natives are registered.
fn define_option_wrap<T: 'static>(module: &mut Module, typing: &ValueType) -> (r: Result<ValueType, ModuleError>)
    ensures
        final(module).type_entries().len() == old(module).type_entries().len() + 1,
        final(module).type_entries().drop_last() == old(module).type_entries(),
        final(module).type_entries().last().0@ == option_name(type_text(*typing)),
        final(module).type_entries().last().1 is CustomType,
        type_text(final(module).type_entries().last().1) == option_name(type_text(*typing)),
        r matches Ok(vt) ==> vt == final(module).type_entries().last().1,
        r matches Err(e) ==> (e is DuplicateFunction || e is DuplicateMethod),
        old(module).wrapper_kinds_kept() ==> r is Ok && final(module).wrapper_kinds_kept(),
        final(module).global_entries() == old(module).global_entries(),
        r is Ok ==> final(module).function_entries().len() == old(module).function_entries().len() + 2,
        r is Ok ==> final(module).function_entries().take(old(module).function_entries().len() as int)
            == old(module).function_entries(),
        r is Ok ==> function_is(
            final(module).function_entries()[old(module).function_entries().len() as int],
            option_name(type_text(*typing)),
            seq![],
            Some(final(module).type_entries().last().1),
            FunctionKind::Free(OPTION_NONE),
        ),
        r is Ok ==> function_is(
            final(module).function_entries().last(),
            "Some"@,
            seq![*typing],
            Some(final(module).type_entries().last().1),
            FunctionKind::Free(OPTION_SOME),
        ),
        r is Ok ==> final(module).method_entries().take(old(module).method_entries().len() as int)
            == old(module).method_entries(),
        r is Ok ==> option_methods(
            final(module).method_entries().skip(old(module).method_entries().len() as int),
            final(module).type_entries().last().1,
            *typing,
        ),
{
    proof {
        reveal_strlit("Option<");
        reveal_strlit(">");
        lemma_wrapper_method_kinds();
        lemma_wrapper_function_kinds(type_text(*typing));
    }
    let typing_name = typing.display();
    let mut option_type_name = "Option<".to_string();
    push_str(&mut option_type_name, typing_name.as_str());
    push_str(&mut option_type_name, ">");
    assert(option_type_name@ =~= option_name(type_text(*typing)));
    let option_value_type = custom_type_of::<Option<T>>(option_type_name.clone());
    module.insert_type(option_type_name.clone(), option_value_type.copy());
    let ghost f0 = module.function_entries();
    let ghost m0 = module.method_entries();

    add_wrapper_function(module, native(option_type_name.as_str(), vec![], Some(option_value_type.copy()), FunctionKind::Free(OPTION_NONE)))?;
    add_wrapper_function(module, native("Some", vec![typing.copy()], Some(option_value_type.copy()), FunctionKind::Free(OPTION_SOME)))?;
    add_wrapper_method(module, option_value_type.copy(), native("unwrap", vec![option_value_type.copy()], Some(typing.copy()), FunctionKind::Method(OPTION_UNWRAP)))?;
    add_wrapper_method(module, option_value_type.copy(), native("expect", vec![option_value_type.copy(), ValueType::String], Some(typing.copy()), FunctionKind::Method(OPTION_EXPECT)))?;
    add_wrapper_method(module, option_value_type.copy(), native("is_some", vec![option_value_type.copy()], Some(ValueType::Bool), FunctionKind::Method(OPTION_IS_SOME)))?;
    add_wrapper_method(module, option_value_type.copy(), native("is_none", vec![option_value_type.copy()], Some(ValueType::Bool), FunctionKind::Method(OPTION_IS_NONE)))?;
    proof {
        let all = module.method_entries();
        let n = m0.len() as int;
        assert(all.take(n) =~= m0);
        assert forall|k: int| 0 <= k < 4 implies #[trigger] all.skip(n)[k] == all[n + k] by {}
        assert(module.function_entries().take(f0.len() as int) =~= f0);
    }
    Ok(option_value_type)
}

impl Default for Module {
    fn default() -> (m: Module)
        ensures
            m.type_entries().len() == 0,
            m.global_entries().len() == 0,
            m.function_entries().len() == 0,
            m.method_entries().len() == 0,
    {
        Module::new()
    }
}

/// A script-side iterator over a range: the next value it gives, and the end it stops at.
#[derive(Debug, Clone)]
pub struct RangeIterator<T> {
    pub current: T,
    pub end: T,
}

/// A script-side iterator over a vector of values.
#[derive(Debug, Clone)]
pub struct VecIterator<T> {
    pub index: usize,
    pub values: Vec<T>,
}

} // verus!

verus! {

/// A global reads back as it was registered: after a global is added under a name (as
/// `register_global_value` adds it, whether or not the name was taken), the name stands
/// for that type and value.
pub proof fn law_global_read_after_write(
    before: Seq<(String, ValueType, Value)>,
    after: Seq<(String, ValueType, Value)>,
    name: Seq<char>,
    t: ValueType,
    v: Value,
)
    requires
        after == before.push((after.last().0, t, v)),
        after.last().0@ == name,
    ensures
        lookup_global(after, name) == Some((t, v)),
{
}

/// A named type reads back as it was registered: after a type is added under a name (as
/// `register_type_as` adds it), the name stands for that type, unless it is one of the
/// built-in names, which always stand for the built-in types.
pub proof fn law_type_read_after_write(before: Module, after: Module, name: Seq<char>, t: ValueType)
    requires
        after.type_entries() == before.type_entries().push((after.type_entries().last().0, t)),
        after.type_entries().last().0@ == name,
    ensures
        lookup(after.type_entries(), name) == Some(t),
        name != seq!['i', '6', '4'] && name != seq!['f', '6', '4'] && name != seq!['b', 'o', 'o', 'l'] && name
            != seq!['S', 't', 'r', 'i', 'n', 'g'] ==> after.spec_resolve_type(name) == Some(t),
{
}

/// Other names are not touched: adding a global under one name leaves what every other
/// name stands for.
pub proof fn law_global_write_keeps_others(
    before: Seq<(String, ValueType, Value)>,
    after: Seq<(String, ValueType, Value)>,
    name: Seq<char>,
    other: Seq<char>,
    t: ValueType,
    v: Value,
)
    requires
        after == before.push((after.last().0, t, v)),
        after.last().0@ == name,
        other != name,
    ensures
        lookup_global(after, other) == lookup_global(before, other),
{
    assert(after.drop_last() =~= before);
}

} // verus!
