use vstd::prelude::*;

use crate::Location;
use crate::instructor::{Instructor, Program};
use crate::module::{FunctionInfo, FunctionKind, Module, first_method, lookup_global, method_matches};
use crate::parser::{
    AssignmentOp, BinaryOp, Expr, FunctionParameter, LogicalOp, ParseError, Parser, Stmt, UnaryOp,
    VariableMutability, assign_name, assign_text, binary_name, binary_text, unary_name, unary_text,
};
use crate::scanner::{Scanner, SyntaxError, Token};
use crate::types::{
    CallSource, MaybeValueType, ValueType, VariableSlot, inner_type, same_type, same_maybe, same_optional_type, type_kind,
    type_text, optional_type_text, maybe_text, optional_maybe_text, joined_types, joined_optional_maybes,
    show_optional_type, show_maybe, show_optional_maybe, join_types, join_optional_maybes,
};
use crate::value::Value;
use crate::text::{int_text, nat_digits, push_str, push_usize};
use crate::visualize::{Severity, can_format_at, format_parts};

verus! {

// ---------------------------------------------------------------------------
// Imports

/// Where imported scripts come from.
pub trait ImportResolver {
    /// The source of the script at a resolved path.
    fn get_script(&self, path: &str) -> Result<String, String>;

    /// The path an import names, resolved against the importing script's path.
    fn resolve_path(&self, base: Option<&str>, path: &str) -> Result<String, String>;
}

/// Scripts held in memory under their paths; a path resolves to itself.
#[derive(Default, Clone)]
pub struct MemoryImportResolver {
    pub script_files: Vec<(String, String)>,
}

/// The script stored under a path: the last one stored under it.
pub open spec fn stored_script(files: Seq<(String, String)>, path: Seq<char>) -> Option<String>
    decreases files.len(),
{
    if files.len() == 0 {
        None
    } else if files.last().0@ == path {
        Some(files.last().1)
    } else {
        stored_script(files.drop_last(), path)
    }
}

impl MemoryImportResolver {
    /// Stores a script under a path, replacing one stored there before.
    pub fn insert(&mut self, path: String, source: String)
        ensures
            final(self).script_files@ == old(self).script_files@.push((path, source)),
    {
        self.script_files.push((path, source));
    }
}

impl ImportResolver for MemoryImportResolver {
    fn get_script(&self, path: &str) -> (r: Result<String, String>)
        ensures
            r matches Ok(s) ==> (stored_script(self.script_files@, path@) matches Some(t) && s@ == t@),
            r is Err <==> stored_script(self.script_files@, path@) is None,
    {
        let key = path.to_string();
        let mut i: usize = self.script_files.len();
        assert(self.script_files@.take(i as int) =~= self.script_files@);
        while i > 0
            invariant
                i <= self.script_files@.len(),
                key@ == path@,
                stored_script(self.script_files@, path@) == stored_script(
                    self.script_files@.take(i as int),
                    path@,
                ),
            decreases i,
        {
            proof {
                assert(self.script_files@.take(i as int).drop_last() =~= self.script_files@.take(i - 1));
                assert(self.script_files@.take(i as int).last() == self.script_files@[i - 1]);
            }
            if self.script_files[i - 1].0 == key {
                return Ok(self.script_files[i - 1].1.clone());
            }
            i = i - 1;
        }
        Err("Failed to read.".to_string())
    }

    fn resolve_path(&self, base: Option<&str>, path: &str) -> (r: Result<String, String>)
        ensures
            r matches Ok(s) && s@ == path@,
    {
        Ok(path.to_string())
    }
}

// ---------------------------------------------------------------------------
// The checked tree

/// A scope's view of variable types: slot index to type, at most one entry per index.
#[derive(Debug)]
pub struct Scope {
    pub variable_state: Vec<(usize, MaybeValueType)>,
    pub starting_variable_count: usize,
    pub available_functions: Vec<(String, usize)>,
    pub is_global: bool,
}

impl Scope {
    pub fn new(start_count: usize, is_global: bool) -> (s: Scope)
        ensures
            s.variable_state@.len() == 0,
            s.available_functions@.len() == 0,
            s.starting_variable_count == start_count,
            s.is_global == is_global,
    {
        Scope {
            variable_state: Vec::new(),
            starting_variable_count: start_count,
            available_functions: Vec::new(),
            is_global,
        }
    }
}

/// The type a scope records for a slot.
pub open spec fn state_of(state: Seq<(usize, MaybeValueType)>, index: usize) -> Option<
    MaybeValueType,
>
    decreases state.len(),
{
    if state.len() == 0 {
        None
    } else if state.last().0 == index {
        Some(state.last().1)
    } else {
        state_of(state.drop_last(), index)
    }
}

/// The type recorded for a slot.
fn state_get(state: &Vec<(usize, MaybeValueType)>, index: usize) -> (r: Option<MaybeValueType>)
    ensures
        r is None <==> state_of(state@, index) is None,
        r matches Some(m) ==> (state_of(state@, index) matches Some(n) && crate::types::same_maybe(m, n)),
{
    let mut i: usize = state.len();
    assert(state@.take(i as int) =~= state@);
    while i > 0
        invariant
            i <= state@.len(),
            state_of(state@, index) == state_of(state@.take(i as int), index),
        decreases i,
    {
        proof {
            assert(state@.take(i as int).drop_last() =~= state@.take(i - 1));
            assert(state@.take(i as int).last() == state@[i - 1]);
        }
        if state[i - 1].0 == index {
            return Some(state[i - 1].1.copy());
        }
        i = i - 1;
    }
    None
}

/// Records a type for a slot, replacing what was recorded before.
fn state_set(state: &mut Vec<(usize, MaybeValueType)>, index: usize, t: MaybeValueType)
    ensures
        state_of(final(state)@, index) == Some(t),
        forall|j: usize| j != index ==> state_of(final(state)@, j) == state_of(old(state)@, j),
{
    state.push((index, t));
    proof {
        assert(state@.drop_last() =~= old(state)@);
    }
}

/// Whether the innermost of `scopes` that records slot `index` records it as surely set
/// with a type that `t` matches.
fn known_outside(scopes: &Vec<Scope>, index: usize, t: &ValueType) -> (b: bool)
    ensures
        b == (scope_type(scopes@, index) matches Some(m) && m is Known && same_type(inner_type(m), *t)),
{
    let mut i: usize = scopes.len();
    assert(scopes@.take(i as int) =~= scopes@);
    while i > 0
        invariant
            i <= scopes@.len(),
            scope_type(scopes@, index) == scope_type(scopes@.take(i as int), index),
        decreases i,
    {
        proof {
            assert(scopes@.take(i as int).drop_last() =~= scopes@.take(i - 1));
            assert(scopes@.take(i as int).last() == scopes@[i - 1]);
        }
        match state_get(&scopes[i - 1].variable_state, index) {
            Some(MaybeValueType::Known(k)) => return k.same(t),
            Some(MaybeValueType::Maybe(_)) => return false,
            None => {},
        }
        i = i - 1;
    }
    assert(scopes@.take(0) =~= Seq::<Scope>::empty());
    false
}

/// Copies of scope entries.
fn copy_state(state: &Vec<(usize, MaybeValueType)>) -> (r: Vec<(usize, MaybeValueType)>)
    ensures
        r@.len() == state@.len(),
        forall|i: int| 0 <= i < state@.len() ==> (#[trigger] r@[i]).0 == state@[i].0,
{
    let mut r: Vec<(usize, MaybeValueType)> = Vec::new();
    let mut i: usize = 0;
    while i < state.len()
        invariant
            i <= state@.len(),
            r@.len() == i,
            forall|k: int| 0 <= k < i ==> (#[trigger] r@[k]).0 == state@[k].0,
        decreases state.len() - i,
    {
        r.push((state[i].0, state[i].1.copy()));
        i = i + 1;
    }
    r
}

#[derive(Debug)]
pub enum AStmt {
    /// Slot, name, initializer
    SetVariable(Location, VariableSlot, String, Option<Box<AExpr>>),
    Loop(Box<AExpr>),
    /// Condition, body
    While(Location, Box<AExpr>, Box<AExpr>),
    /// Expression, whether its value is kept
    Expression(Location, AExpr, bool),
    Return(Location, Option<Box<AExpr>>),
    Break(Location),
    Continue(Location),
    /// Path, namespace, import index
    Import(Location, String, String, usize),
    /// Name, index, parameters, body, return type, local variable count
    Function(
        Location,
        String,
        usize,
        Vec<(VariableSlot, String, ValueType)>,
        Box<AExpr>,
        Option<ValueType>,
        usize,
    ),
}

#[derive(Debug)]
pub enum AExpr {
    /// The value itself and its type
    Constant(Location, Value, ValueType),
    /// Slot, name, value
    AssignVariable(Location, VariableSlot, String, Box<AExpr>),
    /// Slot, name, type
    RetrieveVariable(Location, VariableSlot, String, ValueType),
    Logical(Box<AExpr>, LogicalOp, Box<AExpr>),
    Block(Location, Vec<AStmt>, Scope),
    /// Name, receiver source, arguments (receiver first), kind, return type
    Call(Location, String, CallSource, Vec<Box<AExpr>>, FunctionKind, Option<ValueType>),
    /// Script function by index
    ScriptCall(Location, usize, Vec<Box<AExpr>>, Option<ValueType>),
    /// A script function used as a value
    FunctionReference(Location, usize, Vec<ValueType>, Option<ValueType>),
    /// Call through a function-typed value
    DynamicCall(Location, Box<AExpr>, Vec<Box<AExpr>>, Option<ValueType>),
    /// Import index, function index, parameter types, return type, arguments
    ImportedFunctionCall(Location, usize, usize, Vec<ValueType>, Option<ValueType>, Vec<Box<AExpr>>),
    /// Condition, body, otherwise
    If(Box<AExpr>, Box<AExpr>, Option<Box<AExpr>>),
}

/// Whether an expression is an integer, boolean, string or float literal.
pub open spec fn is_literal(e: Expr) -> bool {
    e is Integer || e is Bool || e is String || e is Float
}

/// The type of a literal.
pub open spec fn literal_type(e: Expr) -> ValueType {
    match e {
        Expr::Integer(_, _) => ValueType::Int,
        Expr::Bool(_, _) => ValueType::Bool,
        Expr::String(_, _) => ValueType::String,
        _ => ValueType::Float,
    }
}

/// What checking a call of the method `name` on literals of the types `ts` (the receiver's
/// first) gives: where no native method matches, `NoMethod`; where the first one that
/// matches is a method that does not change its receiver, that call.
pub open spec fn literal_call_checks(
    ms: Seq<(ValueType, FunctionInfo)>,
    name: Seq<char>,
    ts: Seq<ValueType>,
    r: Result<AExpr, ConstructError>,
) -> bool {
    &&& (forall|i: int| 0 <= i < ms.len() ==> !method_matches(#[trigger] ms[i], ts[0], name, ts)) ==> (r matches Err(e)
        && e.kind is NoMethod)
    &&& forall|i: int| #[trigger] first_method(ms, i, ts[0], name, ts) && ms[i].1.kind is Method ==> (r matches Ok(
        AExpr::Call(_, n, _, ps, k, _),
    ) && n@ == name && ps@.len() == ts.len() && k == ms[i].1.kind)
}

/// Whether every path through a statement leaves by `return`, `break` or `continue`.
pub open spec fn stmt_exits(s: AStmt) -> bool
    decreases s,
{
    match s {
        AStmt::Return(_, _) => true,
        AStmt::Break(_) => true,
        AStmt::Continue(_) => true,
        AStmt::Expression(_, e, _) => match e {
            AExpr::Block(_, stmts, _) => stmts@.len() > 0 && stmt_exits(stmts@.last()),
            AExpr::If(_, body, otherwise) => expr_exits(*body) && match otherwise {
                Some(o) => expr_exits(*o),
                None => false,
            },
            _ => false,
        },
        AStmt::Function(_, _, _, _, body, _, _) => expr_exits(*body),
        _ => false,
    }
}

/// Whether every path through an expression leaves by `return`, `break` or `continue`.
pub open spec fn expr_exits(e: AExpr) -> bool
    decreases e,
{
    match e {
        AExpr::Block(_, stmts, _) => stmts@.len() > 0 && stmt_exits(stmts@.last()),
        AExpr::If(_, body, otherwise) => expr_exits(*body) && match otherwise {
            Some(o) => expr_exits(*o),
            None => false,
        },
        _ => false,
    }
}

/// Whether some path through an expression leaves by `return`, `break` or `continue`.
pub open spec fn expr_may_exit(e: AExpr) -> bool
    decreases e,
{
    match e {
        AExpr::Block(_, stmts, _) => exists|i: int| 0 <= i < stmts@.len() && stmt_exits(#[trigger] stmts@[i]),
        AExpr::If(_, body, otherwise) => expr_may_exit(*body) || match otherwise {
            Some(o) => expr_may_exit(*o),
            None => false,
        },
        _ => false,
    }
}

/// Where a statement stands in the source.
pub open spec fn stmt_location(s: AStmt) -> Location {
    match s {
        AStmt::SetVariable(l, _, _, _) => l,
        AStmt::Expression(l, _, _) => l,
        AStmt::While(l, _, _) => l,
        AStmt::Loop(e) => expr_location(*e),
        AStmt::Return(l, _) => l,
        AStmt::Break(l) => l,
        AStmt::Continue(l) => l,
        AStmt::Function(l, _, _, _, _, _, _) => l,
        AStmt::Import(l, _, _, _) => l,
    }
}

/// A type hint admits a type: there is none, or it is the same type.
pub open spec fn hint_admits(hint: Option<&ValueType>, t: ValueType) -> bool {
    match hint {
        Some(h) => same_type(t, *h),
        None => true,
    }
}

/// Where an expression stands in the source: a logical operation and an `if` at their first
/// operand.
pub open spec fn expr_location(e: AExpr) -> Location
    decreases e,
{
    match e {
        AExpr::Constant(l, _, _) => l,
        AExpr::AssignVariable(l, _, _, _) => l,
        AExpr::RetrieveVariable(l, _, _, _) => l,
        AExpr::Logical(a, _, _) => expr_location(*a),
        AExpr::Block(l, _, _) => l,
        AExpr::Call(l, _, _, _, _, _) => l,
        AExpr::ScriptCall(l, _, _, _) => l,
        AExpr::FunctionReference(l, _, _, _) => l,
        AExpr::DynamicCall(l, _, _, _) => l,
        AExpr::ImportedFunctionCall(l, _, _, _, _, _) => l,
        AExpr::If(c, _, _) => expr_location(*c),
    }
}

/// Whether a checked argument certainly gives a value of type `t`.
pub open spec fn typed_as(a: AExpr, t: ValueType) -> bool {
    expr_value_type(a) matches Some(m) && m is Known && same_type(t, inner_type(m))
}

/// Whether two optional value types are both absent, or both present and the same.
pub open spec fn same_optional_maybe(a: Option<MaybeValueType>, b: Option<MaybeValueType>) -> bool {
    match (a, b) {
        (Some(x), Some(y)) => same_maybe(x, y),
        (None, None) => true,
        _ => false,
    }
}

/// `Known(t)` for a type `t` that is there.
pub open spec fn known_type(t: Option<ValueType>) -> Option<MaybeValueType> {
    match t {
        Some(v) => Some(MaybeValueType::Known(v)),
        None => None,
    }
}

/// The name a script function's type carries: its index as text.
pub open spec fn index_name(index: usize) -> String {
    choose|s: String| s@ == int_text(index as int)
}

/// The type of the value a statement leaves: an expression statement that produces a value
/// leaves its expression's, a function declaration its return type.
pub open spec fn stmt_value_type(s: AStmt) -> Option<MaybeValueType>
    decreases s,
{
    match s {
        AStmt::Expression(_, e, produces) => if produces {
            expr_value_type(e)
        } else {
            None
        },
        AStmt::Function(_, _, _, _, _, t, _) => known_type(t),
        _ => None,
    }
}

/// The type of the value an expression produces: a block gives its last statement's, an
/// `if` its body's, or its other branch's where the body always leaves.
pub open spec fn expr_value_type(e: AExpr) -> Option<MaybeValueType>
    decreases e,
{
    match e {
        AExpr::Constant(_, _, t) => Some(MaybeValueType::Known(t)),
        AExpr::RetrieveVariable(_, _, _, t) => Some(MaybeValueType::Known(t)),
        AExpr::AssignVariable(_, _, _, _) => None,
        AExpr::Logical(_, _, _) => Some(MaybeValueType::Known(ValueType::Bool)),
        AExpr::Block(_, stmts, _) => if stmts@.len() == 0 {
            None
        } else {
            stmt_value_type(stmts@.last())
        },
        AExpr::Call(_, _, _, _, _, t) => known_type(t),
        AExpr::ScriptCall(_, _, _, t) => known_type(t),
        AExpr::FunctionReference(_, index, params, rt) => Some(
            MaybeValueType::Known(
                ValueType::Function(
                    index_name(index),
                    params,
                    match rt {
                        Some(t) => Some(Box::new(t)),
                        None => None,
                    },
                ),
            ),
        ),
        AExpr::DynamicCall(_, _, _, t) => known_type(t),
        AExpr::ImportedFunctionCall(_, _, _, _, t, _) => known_type(t),
        AExpr::If(_, body, otherwise) => match otherwise {
            Some(o) => if expr_exits(*body) {
                expr_value_type(*o)
            } else {
                expr_value_type(*body)
            },
            None => expr_value_type(*body),
        },
    }
}

/// Whether two lists of returns agree: the same places, and the same types where there are
/// types.
pub open spec fn same_returns(a: Seq<(Location, Option<ValueType>)>, b: Seq<(Location, Option<ValueType>)>) -> bool {
    &&& a.len() == b.len()
    &&& forall|i: int| 0 <= i < a.len() ==> (#[trigger] a[i]).0 == b[i].0 && same_optional_type(a[i].1, b[i].1)
}

/// Lists that agree, joined, agree.
pub proof fn lemma_same_returns_append(
    a: Seq<(Location, Option<ValueType>)>,
    b: Seq<(Location, Option<ValueType>)>,
    c: Seq<(Location, Option<ValueType>)>,
    d: Seq<(Location, Option<ValueType>)>,
)
    requires
        same_returns(a, c),
        same_returns(b, d),
    ensures
        same_returns(a + b, c + d),
{
    assert forall|i: int| 0 <= i < (a + b).len() implies ((#[trigger] (a + b)[i]).0 == (c + d)[i].0 && same_optional_type((a + b)[i].1, (c + d)[i].1)) by {
        if i < a.len() {
            assert((a + b)[i] == a[i]);
            assert((c + d)[i] == c[i]);
        } else {
            assert((a + b)[i] == b[i - a.len()]);
            assert((c + d)[i] == d[i - a.len()]);
        }
    }
}

/// The returns inside a statement, in order: where each is and the type it gives back.
pub open spec fn stmt_returns(s: AStmt) -> Seq<(Location, Option<ValueType>)>
    decreases s,
{
    match s {
        AStmt::SetVariable(_, _, _, e) => match e {
            Some(e) => expr_returns(*e),
            None => Seq::empty(),
        },
        AStmt::Expression(_, e, _) => expr_returns(e),
        AStmt::While(_, c, b) => expr_returns(*c) + expr_returns(*b),
        AStmt::Loop(b) => expr_returns(*b),
        AStmt::Return(l, e) => seq![(l, match e {
            Some(e) => match expr_value_type(*e) {
                Some(m) => Some(inner_type(m)),
                None => None,
            },
            None => None,
        })],
        AStmt::Function(_, _, _, _, body, _, _) => expr_returns(*body),
        _ => Seq::empty(),
    }
}

/// The returns inside a list of statements, in order.
pub open spec fn stmts_returns(s: Seq<AStmt>) -> Seq<(Location, Option<ValueType>)>
    decreases s,
{
    if s.len() == 0 {
        Seq::empty()
    } else {
        stmts_returns(s.drop_last()) + stmt_returns(s.last())
    }
}

/// The returns inside a list of expressions, in order.
pub open spec fn exprs_returns(s: Seq<Box<AExpr>>) -> Seq<(Location, Option<ValueType>)>
    decreases s,
{
    if s.len() == 0 {
        Seq::empty()
    } else {
        exprs_returns(s.drop_last()) + expr_returns(*s.last())
    }
}

/// The returns inside an expression, in order.
pub open spec fn expr_returns(e: AExpr) -> Seq<(Location, Option<ValueType>)>
    decreases e,
{
    match e {
        AExpr::AssignVariable(_, _, _, v) => expr_returns(*v),
        AExpr::Logical(a, _, b) => expr_returns(*a) + expr_returns(*b),
        AExpr::Block(_, stmts, _) => stmts_returns(stmts@),
        AExpr::Call(_, _, _, args, _, _) => exprs_returns(args@),
        AExpr::ScriptCall(_, _, args, _) => exprs_returns(args@),
        AExpr::ImportedFunctionCall(_, _, _, _, _, args) => exprs_returns(args@),
        AExpr::DynamicCall(_, callee, args, _) => expr_returns(*callee) + exprs_returns(args@),
        AExpr::If(c, body, otherwise) => expr_returns(*c) + expr_returns(*body) + match otherwise {
            Some(o) => expr_returns(*o),
            None => Seq::empty(),
        },
        _ => Seq::empty(),
    }
}

/// Whether two lists of variables agree: the same slots, with the same types, each certain
/// or maybe alike.
pub open spec fn same_vars(a: Seq<(VariableSlot, MaybeValueType)>, b: Seq<(VariableSlot, MaybeValueType)>) -> bool {
    &&& a.len() == b.len()
    &&& forall|i: int| 0 <= i < a.len() ==> (#[trigger] a[i]).0 == b[i].0 && same_maybe(a[i].1, b[i].1)
}

/// Lists of variables that agree, joined, agree.
pub proof fn lemma_same_vars_append(
    a: Seq<(VariableSlot, MaybeValueType)>,
    b: Seq<(VariableSlot, MaybeValueType)>,
    c: Seq<(VariableSlot, MaybeValueType)>,
    d: Seq<(VariableSlot, MaybeValueType)>,
)
    requires
        same_vars(a, c),
        same_vars(b, d),
    ensures
        same_vars(a + b, c + d),
{
    assert forall|i: int| 0 <= i < (a + b).len() implies ((#[trigger] (a + b)[i]).0 == (c + d)[i].0 && same_maybe((a + b)[i].1, (c + d)[i].1)) by {
        if i < a.len() {
            assert((a + b)[i] == a[i]);
            assert((c + d)[i] == c[i]);
        } else {
            assert((a + b)[i] == b[i - a.len()]);
            assert((c + d)[i] == d[i - a.len()]);
        }
    }
}

/// Lists of variables that agree record the same certainty for every slot.
pub proof fn lemma_same_vars_certain(a: Seq<(VariableSlot, MaybeValueType)>, b: Seq<(VariableSlot, MaybeValueType)>, slot: VariableSlot)
    requires
        same_vars(a, b),
    ensures
        certain(a, slot) == certain(b, slot),
{
    if certain(a, slot) {
        let i = choose|i: int|
            0 <= i < a.len() && (#[trigger] a[i]).0 == slot && a[i].1 is Known && forall|k: int| 0 <= k < i ==> a[k].0 != slot;
        assert(b[i].0 == slot && b[i].1 is Known);
        assert(forall|k: int| 0 <= k < i ==> b[k].0 != slot) by {
            assert forall|k: int| 0 <= k < i implies b[k].0 != slot by {
                assert(a[k].0 == b[k].0);
            }
        }
    }
    if certain(b, slot) {
        let i = choose|i: int|
            0 <= i < b.len() && (#[trigger] b[i]).0 == slot && b[i].1 is Known && forall|k: int| 0 <= k < i ==> b[k].0 != slot;
        assert(a[i].0 == slot && a[i].1 is Known);
        assert(forall|k: int| 0 <= k < i ==> a[k].0 != slot) by {
            assert forall|k: int| 0 <= k < i implies a[k].0 != slot by {
                assert(a[k].0 == b[k].0);
            }
        }
    }
}

/// The same variables, each only maybe assigned.
pub open spec fn as_maybe(vars: Seq<(VariableSlot, MaybeValueType)>) -> Seq<(VariableSlot, MaybeValueType)> {
    Seq::new(vars.len(), |i: int| (vars[i].0, MaybeValueType::Maybe(inner_type(vars[i].1))))
}

/// Whether the first entry for `slot` records a certain type.
pub open spec fn certain(vars: Seq<(VariableSlot, MaybeValueType)>, slot: VariableSlot) -> bool {
    exists|i: int|
        0 <= i < vars.len() && (#[trigger] vars[i]).0 == slot && vars[i].1 is Known && forall|k: int|
            0 <= k < i ==> vars[k].0 != slot
}

/// What an `if` body assigns, seen after the `if`: certain only where the other branch
/// certainly assigns the variable too.
pub open spec fn branch_entries(body: Seq<(VariableSlot, MaybeValueType)>, other: Seq<(VariableSlot, MaybeValueType)>) -> Seq<(VariableSlot, MaybeValueType)> {
    Seq::new(
        body.len(),
        |i: int|
            (body[i].0, if body[i].1 is Known && !certain(other, body[i].0) {
                MaybeValueType::Maybe(inner_type(body[i].1))
            } else {
                body[i].1
            }),
    )
}

/// The variables a block's scope ends with, under the scope's slot kind.
pub open spec fn scope_vars(scope: Scope) -> Seq<(VariableSlot, MaybeValueType)> {
    Seq::new(
        scope.variable_state@.len(),
        |i: int| (VariableSlot { index: scope.variable_state@[i].0, is_global: scope.is_global }, scope.variable_state@[i].1),
    )
}

/// The variables a statement reads, in order.
pub open spec fn stmt_retrieved(s: AStmt) -> Seq<(VariableSlot, MaybeValueType)>
    decreases s,
{
    match s {
        AStmt::SetVariable(_, _, _, e) => match e {
            Some(e) => expr_retrieved(*e),
            None => Seq::empty(),
        },
        AStmt::While(_, c, b) => expr_retrieved(*c) + expr_retrieved(*b),
        AStmt::Loop(b) => expr_retrieved(*b),
        AStmt::Expression(_, e, _) => expr_retrieved(e),
        AStmt::Return(_, e) => match e {
            Some(e) => expr_retrieved(*e),
            None => Seq::empty(),
        },
        AStmt::Function(_, _, _, _, body, _, _) => expr_retrieved(*body),
        _ => Seq::empty(),
    }
}

/// The variables a list of expressions reads, in order.
pub open spec fn exprs_retrieved(s: Seq<Box<AExpr>>) -> Seq<(VariableSlot, MaybeValueType)>
    decreases s,
{
    if s.len() == 0 {
        Seq::empty()
    } else {
        exprs_retrieved(s.drop_last()) + expr_retrieved(*s.last())
    }
}

/// The variables an expression reads, in order; a block is summed up by its scope.
pub open spec fn expr_retrieved(e: AExpr) -> Seq<(VariableSlot, MaybeValueType)>
    decreases e,
{
    match e {
        AExpr::AssignVariable(_, _, _, v) => expr_retrieved(*v),
        AExpr::RetrieveVariable(_, slot, _, t) => seq![(slot, MaybeValueType::Known(t))],
        AExpr::Logical(a, _, b) => expr_retrieved(*a) + expr_retrieved(*b),
        AExpr::Block(_, _, scope) => scope_vars(scope),
        AExpr::Call(_, _, _, args, _, _) => exprs_retrieved(args@),
        AExpr::ScriptCall(_, _, args, _) => exprs_retrieved(args@),
        AExpr::ImportedFunctionCall(_, _, _, _, _, args) => exprs_retrieved(args@),
        AExpr::DynamicCall(_, callee, args, _) => expr_retrieved(*callee) + exprs_retrieved(args@),
        AExpr::If(c, body, otherwise) => expr_retrieved(*c) + expr_retrieved(*body) + match otherwise {
            Some(o) => expr_retrieved(*o),
            None => Seq::empty(),
        },
        _ => Seq::empty(),
    }
}

/// The variables a statement assigns, in order; a loop body's only maybe.
pub open spec fn stmt_modified(s: AStmt) -> Seq<(VariableSlot, MaybeValueType)>
    decreases s,
{
    match s {
        AStmt::Expression(_, e, _) => expr_modified(e),
        AStmt::SetVariable(_, _, _, e) => match e {
            Some(e) => expr_modified(*e),
            None => Seq::empty(),
        },
        AStmt::While(_, c, b) => expr_modified(*c) + as_maybe(expr_modified(*b)),
        AStmt::Loop(b) => expr_modified(*b),
        AStmt::Return(_, e) => match e {
            Some(e) => expr_modified(*e),
            None => Seq::empty(),
        },
        AStmt::Function(_, _, _, _, body, _, _) => expr_modified(*body),
        _ => Seq::empty(),
    }
}

/// The variables a list of statements assigns, in order.
pub open spec fn stmts_modified(s: Seq<AStmt>) -> Seq<(VariableSlot, MaybeValueType)>
    decreases s,
{
    if s.len() == 0 {
        Seq::empty()
    } else {
        stmts_modified(s.drop_last()) + stmt_modified(s.last())
    }
}

/// The variables a list of expressions assigns, in order.
pub open spec fn exprs_modified(s: Seq<Box<AExpr>>) -> Seq<(VariableSlot, MaybeValueType)>
    decreases s,
{
    if s.len() == 0 {
        Seq::empty()
    } else {
        exprs_modified(s.drop_last()) + expr_modified(*s.last())
    }
}

/// The variables an expression assigns, in order: an assignment first names its own slot
/// with the type of the value, then what the value assigns; after an `if`, what only one
/// branch certainly assigns is only maybe assigned.
pub open spec fn expr_modified(e: AExpr) -> Seq<(VariableSlot, MaybeValueType)>
    decreases e,
{
    match e {
        AExpr::AssignVariable(_, slot, _, v) => {
            let own = match expr_value_type(*v) {
                Some(t) => seq![(slot, t)],
                None => Seq::empty(),
            };
            own + expr_modified(*v)
        },
        AExpr::Logical(a, _, b) => expr_modified(*a) + expr_modified(*b),
        AExpr::Block(_, stmts, _) => stmts_modified(stmts@),
        AExpr::Call(_, _, _, args, _, _) => exprs_modified(args@),
        AExpr::ScriptCall(_, _, args, _) => exprs_modified(args@),
        AExpr::ImportedFunctionCall(_, _, _, _, _, args) => exprs_modified(args@),
        AExpr::DynamicCall(_, callee, args, _) => expr_modified(*callee) + exprs_modified(args@),
        AExpr::If(c, body, otherwise) => {
            let other = match otherwise {
                Some(o) => expr_modified(*o),
                None => Seq::empty(),
            };
            expr_modified(*c) + branch_entries(expr_modified(*body), other) + as_maybe(other)
        },
        _ => Seq::empty(),
    }
}

/// What the checker makes of a statement: a checked statement of the same kind at the same
/// place, where a kept expression value is one there is, a loop body gives no value (and a
/// `loop` body has a way out), a `while` condition is a boolean, and a function's body and
/// every return in it give the declared return type.
/// What checking keeps of an expression: a condition keeps its logical operator, a binary
/// or unary operator becomes a call of the native named by its text on two or one
/// arguments, and a literal becomes a constant of its value.
pub open spec fn expr_checked_as(e: Expr, a: AExpr) -> bool {
    match e {
        Expr::Condition(_, op, _) => a matches AExpr::Logical(_, op2, _) && op2 == op,
        Expr::Binary(_, op, _) => a matches AExpr::Call(_, n, _, ps, _, _) && n@ == binary_text(op) && ps@.len() == 2,
        Expr::Unary(op, _) => a matches AExpr::Call(_, n, _, ps, _, _) && n@ == unary_text(op) && ps@.len() == 1,
        Expr::Integer(_, v) => a matches AExpr::Constant(_, Value::Int(x), ValueType::Int) && x == v,
        Expr::Bool(_, v) => a matches AExpr::Constant(_, Value::Bool(x), ValueType::Bool) && x == v,
        Expr::String(_, v) => a matches AExpr::Constant(_, Value::Str(x), ValueType::String) && x@ == v@,
        Expr::Assign(d, op, _) => (op != AssignmentOp::Equal && !(*d is Index) && !(*d is DotAccess)) ==> (a matches AExpr::Call(
            _,
            n,
            _,
            ps,
            _,
            _,
        ) && n@ == assign_text(op) && ps@.len() == 2),
        _ => true,
    }
}

/// Checking an expression statement keeps what it says: where `a` is the checked form of
/// `s` (as `Constructor::generate` gives each statement), `x || y` stays `||` and `x && y`
/// stays `&&`, an operator becomes a call of the native named by the operator's text, and a
/// literal keeps its value.
pub proof fn law_checked_expression_keeps_operator(s: Stmt, a: AStmt)
    requires
        checked_as(s, a),
        s is Expression,
    ensures
        *s->Expression_0 matches Expr::Condition(_, op, _) ==> (a matches AStmt::Expression(_, AExpr::Logical(_, op2, _), _)
            && op2 == op),
        *s->Expression_0 matches Expr::Binary(_, op, _) ==> (a matches AStmt::Expression(_, AExpr::Call(_, n, _, ps, _, _), _)
            && n@ == binary_text(op) && ps@.len() == 2),
        *s->Expression_0 matches Expr::Unary(op, _) ==> (a matches AStmt::Expression(_, AExpr::Call(_, n, _, ps, _, _), _)
            && n@ == unary_text(op) && ps@.len() == 1),
        *s->Expression_0 matches Expr::Integer(_, v) ==> (a matches AStmt::Expression(
            _,
            AExpr::Constant(_, Value::Int(x), ValueType::Int),
            _,
        ) && x == v),
{
}

pub open spec fn checked_as(s: Stmt, a: AStmt) -> bool {
    match (s, a) {
        (Stmt::DefineVariable(tok, init, _), AStmt::SetVariable(l, _, name, value)) => l == tok.location && name@ == tok.lexeme@
            && (init is Some <==> value is Some),
        (Stmt::Expression(src, keep), AStmt::Expression(l, e, kept)) => l == expr_location(e) && (kept <==> keep && expr_value_type(e) is Some)
            && expr_checked_as(*src, e),
        (Stmt::Return(l, e), AStmt::Return(l2, v)) => l == l2 && (e is Some <==> v is Some),
        (Stmt::Break(l), AStmt::Break(l2)) => l == l2,
        (Stmt::Continue(l), AStmt::Continue(l2)) => l == l2,
        (Stmt::Loop(_), AStmt::Loop(body)) => expr_may_exit(*body) && expr_value_type(*body) is None,
        (Stmt::While(_, _), AStmt::While(l, c, body)) => l == expr_location(*c)
            && expr_value_type(*c) == Some(MaybeValueType::Known(ValueType::Bool)) && expr_value_type(*body) is None,
        (Stmt::Function(tok, _, _, _), AStmt::Function(l, name, _, _, body, rt, _)) => l == tok.location && name@ == tok.lexeme@
            && same_optional_maybe(known_type(rt), expr_value_type(*body))
            && forall|k: int| 0 <= k < expr_returns(*body).len() ==> same_optional_type(#[trigger] expr_returns(*body)[k].1, rt),
        (Stmt::Import(p, n), AStmt::Import(l, path, ns, _)) => l == p.location && path@ == p.lexeme@ && ns@ == n.lexeme@,
        _ => false,
    }
}

impl AStmt {
    pub fn get_location(&self) -> (l: Location)
        ensures
            l == stmt_location(*self),
    {
        match self {
            AStmt::SetVariable(l, _, _, _) => *l,
            AStmt::Expression(l, _, _) => *l,
            AStmt::While(l, _, _) => *l,
            AStmt::Loop(e) => e.get_location(),
            AStmt::Return(l, _) => *l,
            AStmt::Break(l) => *l,
            AStmt::Continue(l) => *l,
            AStmt::Function(l, _, _, _, _, _, _) => *l,
            AStmt::Import(l, _, _, _) => *l,
        }
    }

    /// The type of the value a statement leaves, if any.
    pub fn get_value_type(&self) -> (t: Option<MaybeValueType>)
        ensures
            same_optional_maybe(t, stmt_value_type(*self)),
        decreases self,
    {
        match self {
            AStmt::Expression(_, e, produces) => {
                if *produces {
                    e.get_value_type()
                } else {
                    None
                }
            },
            AStmt::Function(_, _, _, _, _, t, _) => match t {
                Some(v) => Some(MaybeValueType::Known(v.copy())),
                None => None,
            },
            _ => None,
        }
    }

    /// Whether every path through this statement leaves by `return`, `break` or `continue`.
    pub fn is_unconditional_exit(&self) -> (b: bool)
        ensures
            b == stmt_exits(*self),
        decreases self,
    {
        match self {
            AStmt::Return(_, _) => true,
            AStmt::Break(_) => true,
            AStmt::Continue(_) => true,
            AStmt::Expression(_, inner, _) => match inner {
                AExpr::Block(_, stmts, _) => {
                    if stmts.len() == 0 {
                        false
                    } else {
                        proof {
                            assert(decreases_to!(*self => self->Expression_1));
                            assert(decreases_to!(self->Expression_1 => self->Expression_1->Block_1));
                            assert(decreases_to!(self->Expression_1->Block_1 => self->Expression_1->Block_1@));
                        }
                        stmts[stmts.len() - 1].is_unconditional_exit()
                    }
                },
                AExpr::If(_, body, otherwise) => {
                    body.is_unconditional_exit() && match otherwise {
                        Some(o) => o.is_unconditional_exit(),
                        None => false,
                    }
                },
                _ => false,
            },
            AStmt::Function(_, _, _, _, body, _, _) => body.is_unconditional_exit(),
            _ => false,
        }
    }

    /// The returns inside this statement: where each is and the type it returns.
    pub fn get_returns(&self) -> (r: Vec<(Location, Option<ValueType>)>)
        ensures
            same_returns(r@, stmt_returns(*self)),
        decreases self,
    {
        match self {
            AStmt::SetVariable(_, _, _, e) => match e {
                Some(e) => e.get_returns(),
                None => Vec::new(),
            },
            AStmt::Expression(_, e, _) => e.get_returns(),
            AStmt::While(_, c, b) => {
                let mut r = c.get_returns();
                let mut more = b.get_returns();
                proof {
                    lemma_same_returns_append(r@, more@, expr_returns(**c), expr_returns(**b));
                }
                r.append(&mut more);
                r
            },
            AStmt::Loop(b) => b.get_returns(),
            AStmt::Return(l, e) => {
                let t = match e {
                    Some(e) => match e.get_value_type() {
                        Some(m) => Some(m.value_type()),
                        None => None,
                    },
                    None => None,
                };
                let mut r = Vec::new();
                r.push((*l, t));
                r
            },
            AStmt::Function(_, _, _, _, body, _, _) => body.get_returns(),
            _ => Vec::new(),
        }
    }

    /// The variables this statement reads, with their types.
    pub fn retrieved_variables(&self) -> (r: Vec<(VariableSlot, MaybeValueType)>)
        ensures
            same_vars(r@, stmt_retrieved(*self)),
        decreases self,
    {
        match self {
            AStmt::SetVariable(_, _, _, e) => match e {
                Some(e) => e.retrieved_variables(),
                None => Vec::new(),
            },
            AStmt::While(_, c, b) => {
                let mut r = c.retrieved_variables();
                let mut more = b.retrieved_variables();
                proof {
                    lemma_same_vars_append(r@, more@, expr_retrieved(**c), expr_retrieved(**b));
                }
                r.append(&mut more);
                r
            },
            AStmt::Loop(b) => b.retrieved_variables(),
            AStmt::Expression(_, e, _) => e.retrieved_variables(),
            AStmt::Return(_, e) => match e {
                Some(e) => e.retrieved_variables(),
                None => Vec::new(),
            },
            AStmt::Function(_, _, _, _, body, _, _) => body.retrieved_variables(),
            _ => Vec::new(),
        }
    }

    /// The variables this statement assigns, with the types assigned; a loop body's
    /// assignments are only "maybe" done.
    pub fn modified_variables(&self) -> (r: Vec<(VariableSlot, MaybeValueType)>)
        ensures
            same_vars(r@, stmt_modified(*self)),
        decreases self,
    {
        match self {
            AStmt::Expression(_, e, _) => e.modified_variables(),
            AStmt::SetVariable(_, _, _, e) => match e {
                Some(e) => e.modified_variables(),
                None => Vec::new(),
            },
            AStmt::While(_, c, b) => {
                let mut r = c.modified_variables();
                let body = b.modified_variables();
                let ghost spec_body = expr_modified(**b);
                let ghost head = expr_modified(**c);
                let mut i: usize = 0;
                while i < body.len()
                    invariant
                        i <= body@.len(),
                        same_vars(body@, spec_body),
                        same_vars(r@, head + as_maybe(spec_body).take(i as int)),
                    decreases body.len() - i,
                {
                    let entry = body[i].1.to_maybe();
                    proof {
                        let x = seq![(body@[i as int].0, entry)];
                        let y = seq![as_maybe(spec_body)[i as int]];
                        assert(same_vars(x, y));
                        lemma_same_vars_append(r@, x, head + as_maybe(spec_body).take(i as int), y);
                        assert(head + as_maybe(spec_body).take(i + 1) =~= head + as_maybe(spec_body).take(i as int) + y);
                        assert(r@.push((body@[i as int].0, entry)) =~= r@ + x);
                    }
                    r.push((body[i].0, entry));
                    i = i + 1;
                }
                assert(as_maybe(spec_body).take(i as int) =~= as_maybe(spec_body));
                r
            },
            AStmt::Loop(b) => b.modified_variables(),
            AStmt::Return(_, e) => match e {
                Some(e) => e.modified_variables(),
                None => Vec::new(),
            },
            AStmt::Function(_, _, _, _, body, _, _) => body.modified_variables(),
            _ => Vec::new(),
        }
    }
}

impl AExpr {
    pub fn get_location(&self) -> (l: Location)
        ensures
            l == expr_location(*self),
        decreases self,
    {
        match self {
            AExpr::Constant(l, _, _) => *l,
            AExpr::AssignVariable(l, _, _, _) => *l,
            AExpr::RetrieveVariable(l, _, _, _) => *l,
            AExpr::Logical(a, _, _) => a.get_location(),
            AExpr::Block(l, _, _) => *l,
            AExpr::Call(l, _, _, _, _, _) => *l,
            AExpr::ScriptCall(l, _, _, _) => *l,
            AExpr::FunctionReference(l, _, _, _) => *l,
            AExpr::DynamicCall(l, _, _, _) => *l,
            AExpr::ImportedFunctionCall(l, _, _, _, _, _) => *l,
            AExpr::If(c, _, _) => c.get_location(),
        }
    }

    /// The type of the value this expression produces, if any.
    pub fn get_value_type(&self) -> (t: Option<MaybeValueType>)
        ensures
            same_optional_maybe(t, expr_value_type(*self)),
        decreases self,
    {
        match self {
            AExpr::Constant(_, _, t) => Some(MaybeValueType::Known(t.copy())),
            AExpr::RetrieveVariable(_, _, _, t) => Some(MaybeValueType::Known(t.copy())),
            AExpr::AssignVariable(_, _, _, _) => None,
            AExpr::Logical(_, _, _) => Some(MaybeValueType::Known(ValueType::Bool)),
            AExpr::Block(_, stmts, _) => {
                if stmts.len() == 0 {
                    None
                } else {
                    proof {
                        assert(decreases_to!(*self => self->Block_1));
                        assert(decreases_to!(self->Block_1 => self->Block_1@));
                    }
                    stmts[stmts.len() - 1].get_value_type()
                }
            },
            AExpr::Call(_, _, _, _, _, t) => optional_known(t),
            AExpr::ScriptCall(_, _, _, t) => optional_known(t),
            AExpr::FunctionReference(_, index, params, rt) => {
                let r = match rt {
                    Some(t) => Some(Box::new(t.copy())),
                    None => None,
                };
                Some(
                    MaybeValueType::Known(
                        ValueType::Function(
                            crate::text::i64_to_string(*index as i64),
                            crate::types::copy_types(params),
                            r,
                        ),
                    ),
                )
            },
            AExpr::DynamicCall(_, _, _, t) => optional_known(t),
            AExpr::ImportedFunctionCall(_, _, _, _, t, _) => optional_known(t),
            AExpr::If(_, body, otherwise) => {
                let body_type = body.get_value_type();
                match otherwise {
                    Some(other) => {
                        if body.is_unconditional_exit() {
                            other.get_value_type()
                        } else {
                            body_type
                        }
                    },
                    None => body_type,
                }
            },
        }
    }

    /// Whether every path through this expression leaves by `return`, `break` or `continue`.
    pub fn is_unconditional_exit(&self) -> (b: bool)
        ensures
            b == expr_exits(*self),
        decreases self,
    {
        match self {
            AExpr::Block(_, stmts, _) => {
                if stmts.len() == 0 {
                    false
                } else {
                    proof {
                        assert(decreases_to!(*self => self->Block_1));
                        assert(decreases_to!(self->Block_1 => self->Block_1@));
                    }
                    stmts[stmts.len() - 1].is_unconditional_exit()
                }
            },
            AExpr::If(_, body, otherwise) => {
                body.is_unconditional_exit() && match otherwise {
                    Some(o) => o.is_unconditional_exit(),
                    None => false,
                }
            },
            _ => false,
        }
    }

    /// Whether some path through this expression leaves by `return`, `break` or `continue`.
    pub fn has_exit_path(&self) -> (b: bool)
        ensures
            b == expr_may_exit(*self),
        decreases self,
    {
        match self {
            AExpr::Block(_, stmts, _) => {
                let mut i: usize = 0;
                while i < stmts.len()
                    invariant
                        i <= stmts@.len(),
                        *self == AExpr::Block(self->Block_0, *stmts, self->Block_2),
                        forall|k: int| 0 <= k < i ==> !stmt_exits(#[trigger] stmts@[k]),
                    decreases stmts.len() - i,
                {
                    if stmts[i].is_unconditional_exit() {
                        assert(self->Block_1@[i as int] == stmts@[i as int]);
                        assert(stmt_exits(self->Block_1@[i as int]));
                        assert(expr_may_exit(*self));
                        return true;
                    }
                    i = i + 1;
                }
                false
            },
            AExpr::If(_, body, otherwise) => {
                body.has_exit_path() || match otherwise {
                    Some(o) => o.has_exit_path(),
                    None => false,
                }
            },
            _ => false,
        }
    }

    /// The returns inside this expression: where each is and the type it returns.
    pub fn get_returns(&self) -> (r: Vec<(Location, Option<ValueType>)>)
        ensures
            same_returns(r@, expr_returns(*self)),
        decreases self,
    {
        let mut r: Vec<(Location, Option<ValueType>)> = Vec::new();
        match self {
            AExpr::AssignVariable(_, _, _, e) => {
                r = e.get_returns();
            },
            AExpr::Logical(a, _, b) => {
                r = a.get_returns();
                let mut more = b.get_returns();
                proof {
                    lemma_same_returns_append(r@, more@, expr_returns(**a), expr_returns(**b));
                }
                r.append(&mut more);
            },
            AExpr::Block(_, stmts, _) => {
                let mut i: usize = 0;
                while i < stmts.len()
                    invariant
                        i <= stmts@.len(),
                        self->Block_1 == *stmts,
                        *self is Block,
                        same_returns(r@, stmts_returns(stmts@.take(i as int))),
                    decreases stmts.len() - i,
                {
                    proof {
                        assert(decreases_to!(*self => self->Block_1));
                        assert(decreases_to!(self->Block_1 => self->Block_1@));
                        assert(decreases_to!(self->Block_1@ => self->Block_1@[i as int]));
                    }
                    let mut more = stmts[i].get_returns();
                    proof {
                        lemma_same_returns_append(r@, more@, stmts_returns(stmts@.take(i as int)), stmt_returns(stmts@[i as int]));
                        assert(stmts@.take(i + 1).drop_last() =~= stmts@.take(i as int));
                    }
                    r.append(&mut more);
                    i = i + 1;
                }
                assert(stmts@.take(stmts@.len() as int) =~= stmts@);
            },
            AExpr::Call(_, _, _, args, _, _) => {
                r = Self::args_returns(args);
            },
            AExpr::ScriptCall(_, _, args, _) => {
                r = Self::args_returns(args);
            },
            AExpr::ImportedFunctionCall(_, _, _, _, _, args) => {
                r = Self::args_returns(args);
            },
            AExpr::DynamicCall(_, callee, args, _) => {
                r = callee.get_returns();
                let mut more = Self::args_returns(args);
                proof {
                    lemma_same_returns_append(r@, more@, expr_returns(**callee), exprs_returns(args@));
                }
                r.append(&mut more);
            },
            AExpr::If(c, body, otherwise) => {
                r = c.get_returns();
                let mut more = body.get_returns();
                proof {
                    lemma_same_returns_append(r@, more@, expr_returns(**c), expr_returns(**body));
                }
                r.append(&mut more);
                match otherwise {
                    Some(o) => {
                        let mut more = o.get_returns();
                        proof {
                            lemma_same_returns_append(r@, more@, expr_returns(**c) + expr_returns(**body), expr_returns(**o));
                        }
                        r.append(&mut more);
                    },
                    None => {
                        assert(r@ + Seq::empty() =~= r@);
                        assert(expr_returns(**c) + expr_returns(**body) + Seq::empty() =~= expr_returns(**c) + expr_returns(**body));
                    },
                }
            },
            _ => {},
        }
        r
    }

    /// The returns inside a list of arguments, in order.
    fn args_returns(args: &Vec<Box<AExpr>>) -> (r: Vec<(Location, Option<ValueType>)>)
        ensures
            same_returns(r@, exprs_returns(args@)),
        decreases args@, 0nat,
    {
        let mut r: Vec<(Location, Option<ValueType>)> = Vec::new();
        let mut i: usize = 0;
        while i < args.len()
            invariant
                i <= args@.len(),
                same_returns(r@, exprs_returns(args@.take(i as int))),
            decreases args.len() - i,
        {
            proof {
                assert(decreases_to!(args@ => args@[i as int]));
            }
            let mut more = args[i].get_returns();
            proof {
                lemma_same_returns_append(r@, more@, exprs_returns(args@.take(i as int)), expr_returns(*args@[i as int]));
                assert(args@.take(i + 1).drop_last() =~= args@.take(i as int));
            }
            r.append(&mut more);
            i = i + 1;
        }
        assert(args@.take(args@.len() as int) =~= args@);
        r
    }

    /// The variables this expression reads, with their types.
    pub fn retrieved_variables(&self) -> (r: Vec<(VariableSlot, MaybeValueType)>)
        ensures
            same_vars(r@, expr_retrieved(*self)),
        decreases self,
    {
        let mut r: Vec<(VariableSlot, MaybeValueType)> = Vec::new();
        match self {
            AExpr::AssignVariable(_, _, _, e) => {
                r = e.retrieved_variables();
            },
            AExpr::RetrieveVariable(_, slot, _, t) => {
                r.push((*slot, MaybeValueType::Known(t.copy())));
            },
            AExpr::Logical(a, _, b) => {
                r = a.retrieved_variables();
                let mut more = b.retrieved_variables();
                proof {
                    lemma_same_vars_append(r@, more@, expr_retrieved(**a), expr_retrieved(**b));
                }
                r.append(&mut more);
            },
            AExpr::Block(_, _, scope) => {
                let mut i: usize = 0;
                while i < scope.variable_state.len()
                    invariant
                        i <= scope.variable_state@.len(),
                        same_vars(r@, scope_vars(*scope).take(i as int)),
                    decreases scope.variable_state.len() - i,
                {
                    let slot = VariableSlot::new(scope.variable_state[i].0, scope.is_global);
                    let t = scope.variable_state[i].1.copy();
                    proof {
                        let x = seq![(slot, t)];
                        let y = seq![scope_vars(*scope)[i as int]];
                        assert(same_vars(x, y));
                        lemma_same_vars_append(r@, x, scope_vars(*scope).take(i as int), y);
                        assert(scope_vars(*scope).take(i + 1) =~= scope_vars(*scope).take(i as int) + y);
                        assert(r@.push((slot, t)) =~= r@ + x);
                    }
                    r.push((slot, t));
                    i = i + 1;
                }
                assert(scope_vars(*scope).take(i as int) =~= scope_vars(*scope));
            },
            AExpr::Call(_, _, _, args, _, _) => {
                r = Self::args_retrieved(args);
            },
            AExpr::ScriptCall(_, _, args, _) => {
                r = Self::args_retrieved(args);
            },
            AExpr::ImportedFunctionCall(_, _, _, _, _, args) => {
                r = Self::args_retrieved(args);
            },
            AExpr::DynamicCall(_, callee, args, _) => {
                r = callee.retrieved_variables();
                let mut more = Self::args_retrieved(args);
                proof {
                    lemma_same_vars_append(r@, more@, expr_retrieved(**callee), exprs_retrieved(args@));
                }
                r.append(&mut more);
            },
            AExpr::If(c, body, otherwise) => {
                r = c.retrieved_variables();
                let mut more = body.retrieved_variables();
                proof {
                    lemma_same_vars_append(r@, more@, expr_retrieved(**c), expr_retrieved(**body));
                }
                r.append(&mut more);
                match otherwise {
                    Some(o) => {
                        let mut more = o.retrieved_variables();
                        proof {
                            lemma_same_vars_append(r@, more@, expr_retrieved(**c) + expr_retrieved(**body), expr_retrieved(**o));
                        }
                        r.append(&mut more);
                    },
                    None => {
                        assert(expr_retrieved(**c) + expr_retrieved(**body) + Seq::empty() =~= expr_retrieved(**c) + expr_retrieved(**body));
                    },
                }
            },
            _ => {},
        }
        r
    }

    /// The variables a list of arguments reads, in order.
    fn args_retrieved(args: &Vec<Box<AExpr>>) -> (r: Vec<(VariableSlot, MaybeValueType)>)
        ensures
            same_vars(r@, exprs_retrieved(args@)),
        decreases args@, 0nat,
    {
        let mut r: Vec<(VariableSlot, MaybeValueType)> = Vec::new();
        let mut i: usize = 0;
        while i < args.len()
            invariant
                i <= args@.len(),
                same_vars(r@, exprs_retrieved(args@.take(i as int))),
            decreases args.len() - i,
        {
            proof {
                assert(decreases_to!(args@ => args@[i as int]));
            }
            let mut more = args[i].retrieved_variables();
            proof {
                lemma_same_vars_append(r@, more@, exprs_retrieved(args@.take(i as int)), expr_retrieved(*args@[i as int]));
                assert(args@.take(i + 1).drop_last() =~= args@.take(i as int));
            }
            r.append(&mut more);
            i = i + 1;
        }
        assert(args@.take(args@.len() as int) =~= args@);
        r
    }

    /// The variables this expression assigns, with the types assigned. Where only one
    /// branch of an `if` assigns a variable, the assignment is only "maybe" done.
    pub fn modified_variables(&self) -> (r: Vec<(VariableSlot, MaybeValueType)>)
        ensures
            same_vars(r@, expr_modified(*self)),
        decreases self,
    {
        let mut r: Vec<(VariableSlot, MaybeValueType)> = Vec::new();
        match self {
            AExpr::AssignVariable(_, slot, _, value) => {
                match value.get_value_type() {
                    Some(t) => r.push((*slot, t)),
                    None => {},
                }
                let ghost own = match expr_value_type(**value) {
                    Some(t) => seq![(*slot, t)],
                    None => Seq::empty(),
                };
                assert(same_vars(r@, own));
                let mut more = value.modified_variables();
                proof {
                    lemma_same_vars_append(r@, more@, own, expr_modified(**value));
                }
                r.append(&mut more);
            },
            AExpr::Logical(a, _, b) => {
                r = a.modified_variables();
                let mut more = b.modified_variables();
                proof {
                    lemma_same_vars_append(r@, more@, expr_modified(**a), expr_modified(**b));
                }
                r.append(&mut more);
            },
            AExpr::Block(_, stmts, _) => {
                let mut i: usize = 0;
                while i < stmts.len()
                    invariant
                        i <= stmts@.len(),
                        self->Block_1 == *stmts,
                        *self is Block,
                        same_vars(r@, stmts_modified(stmts@.take(i as int))),
                    decreases stmts.len() - i,
                {
                    proof {
                        assert(decreases_to!(*self => self->Block_1));
                        assert(decreases_to!(self->Block_1 => self->Block_1@));
                        assert(decreases_to!(self->Block_1@ => self->Block_1@[i as int]));
                    }
                    let mut more = stmts[i].modified_variables();
                    proof {
                        lemma_same_vars_append(r@, more@, stmts_modified(stmts@.take(i as int)), stmt_modified(stmts@[i as int]));
                        assert(stmts@.take(i + 1).drop_last() =~= stmts@.take(i as int));
                    }
                    r.append(&mut more);
                    i = i + 1;
                }
                assert(stmts@.take(stmts@.len() as int) =~= stmts@);
            },
            AExpr::Call(_, _, _, args, _, _) => {
                r = Self::args_modified(args);
            },
            AExpr::ScriptCall(_, _, args, _) => {
                r = Self::args_modified(args);
            },
            AExpr::ImportedFunctionCall(_, _, _, _, _, args) => {
                r = Self::args_modified(args);
            },
            AExpr::DynamicCall(_, callee, args, _) => {
                r = callee.modified_variables();
                let mut more = Self::args_modified(args);
                proof {
                    lemma_same_vars_append(r@, more@, expr_modified(**callee), exprs_modified(args@));
                }
                r.append(&mut more);
            },
            AExpr::If(c, body, otherwise) => {
                r = c.modified_variables();
                let body_vars = body.modified_variables();
                let other_vars = match otherwise {
                    Some(o) => o.modified_variables(),
                    None => Vec::new(),
                };
                let ghost spec_body = expr_modified(**body);
                let ghost spec_other = match otherwise {
                    Some(o) => expr_modified(**o),
                    None => Seq::empty(),
                };
                let ghost head = expr_modified(**c);
                let ghost branch = branch_entries(spec_body, spec_other);
                // A change in the body is certain only where the otherwise branch makes it
                // certainly as well.
                let mut i: usize = 0;
                while i < body_vars.len()
                    invariant
                        i <= body_vars@.len(),
                        same_vars(body_vars@, spec_body),
                        same_vars(other_vars@, spec_other),
                        branch == branch_entries(spec_body, spec_other),
                        same_vars(r@, head + branch.take(i as int)),
                    decreases body_vars.len() - i,
                {
                    let entry = &body_vars[i];
                    let kept = match &entry.1 {
                        MaybeValueType::Known(_) => certain_in(&other_vars, entry.0),
                        MaybeValueType::Maybe(_) => true,
                    };
                    proof {
                        lemma_same_vars_certain(other_vars@, spec_other, entry.0);
                    }
                    let t = if kept {
                        entry.1.copy()
                    } else {
                        entry.1.to_maybe()
                    };
                    proof {
                        let x = seq![(entry.0, t)];
                        let y = seq![branch[i as int]];
                        assert(same_vars(x, y));
                        lemma_same_vars_append(r@, x, head + branch.take(i as int), y);
                        assert(head + branch.take(i + 1) =~= head + branch.take(i as int) + y);
                        assert(r@.push((entry.0, t)) =~= r@ + x);
                    }
                    r.push((entry.0, t));
                    i = i + 1;
                }
                assert(branch.take(i as int) =~= branch);
                // What the otherwise branch changes is only maybe done.
                let ghost front = head + branch;
                let mut j: usize = 0;
                while j < other_vars.len()
                    invariant
                        j <= other_vars@.len(),
                        same_vars(other_vars@, spec_other),
                        same_vars(r@, front + as_maybe(spec_other).take(j as int)),
                    decreases other_vars.len() - j,
                {
                    let t = other_vars[j].1.to_maybe();
                    proof {
                        let x = seq![(other_vars@[j as int].0, t)];
                        let y = seq![as_maybe(spec_other)[j as int]];
                        assert(same_vars(x, y));
                        lemma_same_vars_append(r@, x, front + as_maybe(spec_other).take(j as int), y);
                        assert(front + as_maybe(spec_other).take(j + 1) =~= front + as_maybe(spec_other).take(j as int) + y);
                        assert(r@.push((other_vars@[j as int].0, t)) =~= r@ + x);
                    }
                    r.push((other_vars[j].0, t));
                    j = j + 1;
                }
                assert(as_maybe(spec_other).take(j as int) =~= as_maybe(spec_other));
            },
            _ => {},
        }
        r
    }

    /// The variables a list of arguments assigns, in order.
    fn args_modified(args: &Vec<Box<AExpr>>) -> (r: Vec<(VariableSlot, MaybeValueType)>)
        ensures
            same_vars(r@, exprs_modified(args@)),
        decreases args@, 0nat,
    {
        let mut r: Vec<(VariableSlot, MaybeValueType)> = Vec::new();
        let mut i: usize = 0;
        while i < args.len()
            invariant
                i <= args@.len(),
                same_vars(r@, exprs_modified(args@.take(i as int))),
            decreases args.len() - i,
        {
            proof {
                assert(decreases_to!(args@ => args@[i as int]));
            }
            let mut more = args[i].modified_variables();
            proof {
                lemma_same_vars_append(r@, more@, exprs_modified(args@.take(i as int)), expr_modified(*args@[i as int]));
                assert(args@.take(i + 1).drop_last() =~= args@.take(i as int));
            }
            r.append(&mut more);
            i = i + 1;
        }
        assert(args@.take(args@.len() as int) =~= args@);
        r
    }
}

/// Whether the first entry for `slot` in `vars` records a certain type.
fn certain_in(vars: &Vec<(VariableSlot, MaybeValueType)>, slot: VariableSlot) -> (b: bool)
    ensures
        b == certain(vars@, slot),
{
    let mut i: usize = 0;
    while i < vars.len()
        invariant
            i <= vars@.len(),
            forall|k: int| 0 <= k < i ==> vars@[k].0 != slot,
        decreases vars.len() - i,
    {
        if vars[i].0 == slot {
            return matches!(vars[i].1, MaybeValueType::Known(_));
        }
        i = i + 1;
    }
    false
}

/// `Some(Known(t))` for a return type `t`.
fn optional_known(t: &Option<ValueType>) -> (r: Option<MaybeValueType>)
    ensures
        r is Some <==> t is Some,
        r matches Some(m) ==> (m is Known && same_type(inner_type(m), t->0)),
{
    match t {
        Some(v) => Some(MaybeValueType::Known(v.copy())),
        None => None,
    }
}


// ---------------------------------------------------------------------------
// Errors

#[derive(Debug)]
pub enum ConstructErrorType {
    NoUnaryOperator(UnaryOp, ValueType),
    NoBinaryOperator(ValueType, BinaryOp, ValueType),
    NoAssignmentOperator(ValueType, AssignmentOp),
    ConstantMustBeInitialized,
    InitializerDoesntProduce,
    ExpressionDoesntProduce,
    AssignerDoesntProduce,
    VariableUndefined(String),
    VariableUninitialized,
    VariablePotentiallyUninitialized(MaybeValueType),
    VariableImmutable,
    /// Expected type, modified type
    VariableTypeAltered(MaybeValueType, MaybeValueType),
    VariableTypeMaybeAltered(ValueType, ValueType),
    InvalidAssignTarget,
    ExpectedBoolean(Option<ValueType>),
    NoValueProduced,
    UnexpectedValue,
    ExpectedInitializedRange(Option<MaybeValueType>),
    CantStringify(ValueType),
    UnknownType(String),
    /// Expected, provided
    UnexpectedReturnValue(Option<MaybeValueType>, Option<MaybeValueType>),
    BreakOutsideOfLoop,
    ContinueOutsideOfLoop,
    IfValueWithoutElse,
    IfElseTypeMismatched(Option<MaybeValueType>, Option<MaybeValueType>),
    ArrayTypeMismatch(ValueType, ValueType),
    TypeHintMismatch(Option<ValueType>, Option<MaybeValueType>),
    /// Receiver type, member name and parameter types that no registered method has
    NoMethod(ValueType, String, Vec<ValueType>),
    /// Name, expected, received
    InvalidCall(String, Vec<ValueType>, Vec<Option<MaybeValueType>>),
    PropertyCalledAsMethod(String),
    MethodCalledAsProperty(String),
    ImportPathCantBeResolved(String),
    ImportFileNotFound(String),
    /// Path token, source code, errors, tokens
    ImportSyntaxError(Token, String, Vec<SyntaxError>, Vec<Token>),
    /// Path token, source code, errors, tokens
    ImportParseError(Token, String, Vec<ParseError>, Vec<Token>),
    /// Path, source code, error, tokens
    ImportConstructError(String, String, Box<ConstructError>, Vec<Token>),
    ImportCircular(Token),
    ImportPathInvalid(Token),
    ImportShadowed(String),
    NamespaceNotImported(String),
    ImportedFunctionNotFound(String),
    /// Where a call was made on something that cannot be called
    UnexpectedCall(Location),
    /// Variable name, type, args
    UnknownCall(String, ValueType, Vec<ValueType>),
    /// Name, provided types, possible signature
    IncorrectCallSignature(String, Vec<ValueType>, FunctionInfo),
    QualifiedAccessNotCallOrGlobal(String),
    FunctionReturnTypeAndBodyTypeMismatch(Option<ValueType>, Option<ValueType>),
    ArrayTypeUnclear,
    LoopNeedsExitCondition,
}

#[derive(Debug)]
pub struct ConstructError {
    pub location: Location,
    pub kind: ConstructErrorType,
}

/// Whether an error comes with diagnostics of an imported script, shown with its source.
pub open spec fn is_import_diagnostic(k: ConstructErrorType) -> bool {
    k is ImportSyntaxError || k is ImportParseError || k is ImportConstructError
}

/// The text that describes a construction error, for every error but those that show an
/// imported script's diagnostics.
pub open spec fn construct_message(k: ConstructErrorType) -> Seq<char>
    recommends
        !is_import_diagnostic(k),
{
    match k {
        ConstructErrorType::NoUnaryOperator(op, ty) => "No unary operator `"@ + unary_name(op) + "` for type `"@ + type_text(ty) + "`."@,
        ConstructErrorType::NoBinaryOperator(l, op, r) => "No binary operator `"@ + binary_name(op) + "` between types `"@ + type_text(l) + "` and `"@ + type_text(r) + "`."@,
        ConstructErrorType::NoAssignmentOperator(ty, op) => "Cannot assign with operator `"@ + assign_name(op) + "` to type `"@ + type_text(ty) + "`."@,
        ConstructErrorType::ConstantMustBeInitialized => "Constants must be initialized."@,
        ConstructErrorType::InitializerDoesntProduce => "Initializer expression does not produce a value."@,
        ConstructErrorType::ExpressionDoesntProduce => "Expression does not produce a value."@,
        ConstructErrorType::AssignerDoesntProduce => "Assigner expression does not produce the expected type."@,
        ConstructErrorType::VariableUndefined(name) => "Variable `"@ + name@ + "` is not defined."@,
        ConstructErrorType::VariableUninitialized => "Variable may be uninitialized."@,
        ConstructErrorType::VariablePotentiallyUninitialized(typed) => "Variable might be uninitialized on this path. Typed: "@ + type_text(inner_type(typed)),
        ConstructErrorType::VariableImmutable => "Cannot assign to an immutable variable."@,
        ConstructErrorType::VariableTypeAltered(expected, actual) => "Variable type altered. Expected type `"@ + maybe_text(expected) + "` but got `"@ + maybe_text(actual) + "`."@,
        ConstructErrorType::VariableTypeMaybeAltered(expected, actual) => "Variable type maybe altered. Expected type `"@ + type_text(expected) + "` but got `"@ + type_text(actual) + "`."@,
        ConstructErrorType::InvalidAssignTarget => "Left hand side must be a valid assignment target."@,
        ConstructErrorType::ArrayTypeUnclear => "Can't determine array type. Hint: Type your array variable."@,
        ConstructErrorType::ArrayTypeMismatch(expected, found) => "Array type mismatch. Expected type `"@ + type_text(expected) + "` but found `"@ + type_text(found) + "`."@,
        ConstructErrorType::TypeHintMismatch(expected, found) => "Type hint mismatch. Expected type `"@ + optional_type_text(expected) + "` but found `"@ + optional_maybe_text(found) + "`."@,
        ConstructErrorType::ExpectedBoolean(found) => "Expected a boolean expression but found `"@ + optional_type_text(found) + "`."@,
        ConstructErrorType::NoValueProduced => "Statement does not produce a value."@,
        ConstructErrorType::UnexpectedValue => "Unexpected value produced."@,
        ConstructErrorType::ExpectedInitializedRange(maybe_ty) => "Expected an initialized range. Got `"@ + optional_maybe_text(maybe_ty) + "`."@,
        ConstructErrorType::CantStringify(ty) => "Cannot stringify type `"@ + type_text(ty) + "`."@,
        ConstructErrorType::UnknownType(name) => "Unknown type: `"@ + name@ + "`."@,
        ConstructErrorType::UnexpectedReturnValue(expected, actual) => "Expected return value `"@ + optional_maybe_text(expected) + "` but got `"@ + optional_maybe_text(actual) + "`."@,
        ConstructErrorType::BreakOutsideOfLoop => "Break outside of loop."@,
        ConstructErrorType::ContinueOutsideOfLoop => "Continue outside of loop."@,
        ConstructErrorType::IfValueWithoutElse => "If-else expression must have both branches."@,
        ConstructErrorType::IfElseTypeMismatched(l, r) => "If-else branches have mismatched types: `"@ + optional_maybe_text(l) + "` vs `"@ + optional_maybe_text(r) + "`."@,
        ConstructErrorType::NoMethod(ty, name, params) => "Type `"@ + type_text(ty) + "` has no method named `"@ + name@ + "` with parameters `"@ + joined_types(params@) + "`."@,
        ConstructErrorType::InvalidCall(name, expected, actual) => "Invalid call to `"@ + name@ + "`. Expected params ("@ + joined_types(expected@) + ") but got ("@ + joined_optional_maybes(actual@) + ")."@,
        ConstructErrorType::PropertyCalledAsMethod(name) => "`"@ + name@ + "` is a property, not a method."@,
        ConstructErrorType::MethodCalledAsProperty(name) => "`"@ + name@ + "` is a method, not a property."@,
        ConstructErrorType::ImportPathCantBeResolved(path) => "Can't resolve location of import file path '\""@ + path@ + "\"'"@,
        ConstructErrorType::ImportFileNotFound(path) => "Import file not found: `"@ + path@ + "`."@,
        ConstructErrorType::ImportCircular(_) => "Circular import detected."@,
        ConstructErrorType::ImportPathInvalid(_) => "Import path is invalid."@,
        ConstructErrorType::ImportShadowed(name) => "Import `"@ + name@ + "` shadows an existing binding."@,
        ConstructErrorType::NamespaceNotImported(ns) => "Namespace `"@ + ns@ + "` has not been imported."@,
        ConstructErrorType::ImportedFunctionNotFound(name) => "Imported function `"@ + name@ + "` not found."@,
        ConstructErrorType::UnexpectedCall(_) => "Unexpected call expression."@,
        ConstructErrorType::UnknownCall(name, vt, args) => "Unknown call attempted on '"@ + name@ + "' for '"@ + type_text(vt) + "' with args: "@ + joined_types(args@),
        ConstructErrorType::IncorrectCallSignature(name, args, func_info) => "Incorrect call signature for '"@ + name@ + "', found args: '"@ + joined_types(args@) + "'. Possibly need this signature '"@ + joined_types(func_info.param_types@) + "'?"@,
        ConstructErrorType::QualifiedAccessNotCallOrGlobal(name) => "Qualified access is not imported callable or global: '"@ + name@ + "'"@,
        ConstructErrorType::FunctionReturnTypeAndBodyTypeMismatch(expected, actual) => "Function return type `"@ + optional_type_text(expected) + "` does not match body type `"@ + optional_type_text(actual) + "`."@,
        ConstructErrorType::LoopNeedsExitCondition => "Loop needs to have an exit condition (break, return)."@,
        _ => Seq::empty(),
    }
}

/// The text that describes a construction error that shows no imported script's
/// diagnostics.
fn simple_message(k: &ConstructErrorType) -> (s: String)
    requires
        !is_import_diagnostic(*k),
    ensures
        s@ == construct_message(*k),
{
    let mut s = String::new();
    assert(s@ =~= Seq::<char>::empty());
    match k {
            ConstructErrorType::NoUnaryOperator(op, ty) => {
                push_str(&mut s, "No unary operator `");
                push_str(&mut s, op.name());
                push_str(&mut s, "` for type `");
                push_str(&mut s, ty.display().as_str());
                push_str(&mut s, "`.");
            },
            ConstructErrorType::NoBinaryOperator(l, op, r) => {
                push_str(&mut s, "No binary operator `");
                push_str(&mut s, op.name());
                push_str(&mut s, "` between types `");
                push_str(&mut s, l.display().as_str());
                push_str(&mut s, "` and `");
                push_str(&mut s, r.display().as_str());
                push_str(&mut s, "`.");
            },
            ConstructErrorType::NoAssignmentOperator(ty, op) => {
                push_str(&mut s, "Cannot assign with operator `");
                push_str(&mut s, op.name());
                push_str(&mut s, "` to type `");
                push_str(&mut s, ty.display().as_str());
                push_str(&mut s, "`.");
            },
            ConstructErrorType::ConstantMustBeInitialized => {
                push_str(&mut s, "Constants must be initialized.");
            },
            ConstructErrorType::InitializerDoesntProduce => {
                push_str(&mut s, "Initializer expression does not produce a value.");
            },
            ConstructErrorType::ExpressionDoesntProduce => {
                push_str(&mut s, "Expression does not produce a value.");
            },
            ConstructErrorType::AssignerDoesntProduce => {
                push_str(&mut s, "Assigner expression does not produce the expected type.");
            },
            ConstructErrorType::VariableUndefined(name) => {
                push_str(&mut s, "Variable `");
                push_str(&mut s, name.as_str());
                push_str(&mut s, "` is not defined.");
            },
            ConstructErrorType::VariableUninitialized => {
                push_str(&mut s, "Variable may be uninitialized.");
            },
            ConstructErrorType::VariablePotentiallyUninitialized(typed) => {
                push_str(&mut s, "Variable might be uninitialized on this path. Typed: ");
                match typed {
                    MaybeValueType::Known(t) => push_str(&mut s, t.display().as_str()),
                    MaybeValueType::Maybe(t) => push_str(&mut s, t.display().as_str()),
                }
            },
            ConstructErrorType::VariableImmutable => {
                push_str(&mut s, "Cannot assign to an immutable variable.");
            },
            ConstructErrorType::VariableTypeAltered(expected, actual) => {
                push_str(&mut s, "Variable type altered. Expected type `");
                push_str(&mut s, show_maybe(&expected).as_str());
                push_str(&mut s, "` but got `");
                push_str(&mut s, show_maybe(&actual).as_str());
                push_str(&mut s, "`.");
            },
            ConstructErrorType::VariableTypeMaybeAltered(expected, actual) => {
                push_str(&mut s, "Variable type maybe altered. Expected type `");
                push_str(&mut s, expected.display().as_str());
                push_str(&mut s, "` but got `");
                push_str(&mut s, actual.display().as_str());
                push_str(&mut s, "`.");
            },
            ConstructErrorType::InvalidAssignTarget => {
                push_str(&mut s, "Left hand side must be a valid assignment target.");
            },
            ConstructErrorType::ArrayTypeUnclear => {
                push_str(&mut s, "Can't determine array type. Hint: Type your array variable.");
            },
            ConstructErrorType::ArrayTypeMismatch(expected, found) => {
                push_str(&mut s, "Array type mismatch. Expected type `");
                push_str(&mut s, expected.display().as_str());
                push_str(&mut s, "` but found `");
                push_str(&mut s, found.display().as_str());
                push_str(&mut s, "`.");
            },
            ConstructErrorType::TypeHintMismatch(expected, found) => {
                push_str(&mut s, "Type hint mismatch. Expected type `");
                push_str(&mut s, show_optional_type(&expected).as_str());
                push_str(&mut s, "` but found `");
                push_str(&mut s, show_optional_maybe(&found).as_str());
                push_str(&mut s, "`.");
            },
            ConstructErrorType::ExpectedBoolean(found) => {
                push_str(&mut s, "Expected a boolean expression but found `");
                push_str(&mut s, show_optional_type(&found).as_str());
                push_str(&mut s, "`.");
            },
            ConstructErrorType::NoValueProduced => {
                push_str(&mut s, "Statement does not produce a value.");
            },
            ConstructErrorType::UnexpectedValue => {
                push_str(&mut s, "Unexpected value produced.");
            },
            ConstructErrorType::ExpectedInitializedRange(maybe_ty) => {
                push_str(&mut s, "Expected an initialized range. Got `");
                push_str(&mut s, show_optional_maybe(&maybe_ty).as_str());
                push_str(&mut s, "`.");
            },
            ConstructErrorType::CantStringify(ty) => {
                push_str(&mut s, "Cannot stringify type `");
                push_str(&mut s, ty.display().as_str());
                push_str(&mut s, "`.");
            },
            ConstructErrorType::UnknownType(name) => {
                push_str(&mut s, "Unknown type: `");
                push_str(&mut s, name.as_str());
                push_str(&mut s, "`.");
            },
            ConstructErrorType::UnexpectedReturnValue(expected, actual) => {
                push_str(&mut s, "Expected return value `");
                push_str(&mut s, show_optional_maybe(&expected).as_str());
                push_str(&mut s, "` but got `");
                push_str(&mut s, show_optional_maybe(&actual).as_str());
                push_str(&mut s, "`.");
            },
            ConstructErrorType::BreakOutsideOfLoop => {
                push_str(&mut s, "Break outside of loop.");
            },
            ConstructErrorType::ContinueOutsideOfLoop => {
                push_str(&mut s, "Continue outside of loop.");
            },
            ConstructErrorType::IfValueWithoutElse => {
                push_str(&mut s, "If-else expression must have both branches.");
            },
            ConstructErrorType::IfElseTypeMismatched(l, r) => {
                push_str(&mut s, "If-else branches have mismatched types: `");
                push_str(&mut s, show_optional_maybe(&l).as_str());
                push_str(&mut s, "` vs `");
                push_str(&mut s, show_optional_maybe(&r).as_str());
                push_str(&mut s, "`.");
            },
            ConstructErrorType::NoMethod(ty, name, params) => {
                push_str(&mut s, "Type `");
                push_str(&mut s, ty.display().as_str());
                push_str(&mut s, "` has no method named `");
                push_str(&mut s, name.as_str());
                push_str(&mut s, "` with parameters `");
                push_str(&mut s, join_types(&params).as_str());
                push_str(&mut s, "`.");
            },
            ConstructErrorType::InvalidCall(name, expected, actual) => {
                push_str(&mut s, "Invalid call to `");
                push_str(&mut s, name.as_str());
                push_str(&mut s, "`. Expected params (");
                push_str(&mut s, join_types(&expected).as_str());
                push_str(&mut s, ") but got (");
                push_str(&mut s, join_optional_maybes(&actual).as_str());
                push_str(&mut s, ").");
            },
            ConstructErrorType::PropertyCalledAsMethod(name) => {
                push_str(&mut s, "`");
                push_str(&mut s, name.as_str());
                push_str(&mut s, "` is a property, not a method.");
            },
            ConstructErrorType::MethodCalledAsProperty(name) => {
                push_str(&mut s, "`");
                push_str(&mut s, name.as_str());
                push_str(&mut s, "` is a method, not a property.");
            },
            ConstructErrorType::ImportPathCantBeResolved(path) => {
                push_str(&mut s, "Can't resolve location of import file path '\"");
                push_str(&mut s, path.as_str());
                push_str(&mut s, "\"'");
            },
            ConstructErrorType::ImportFileNotFound(path) => {
                push_str(&mut s, "Import file not found: `");
                push_str(&mut s, path.as_str());
                push_str(&mut s, "`.");
            },
            ConstructErrorType::ImportCircular(_) => {
                push_str(&mut s, "Circular import detected.");
            },
            ConstructErrorType::ImportPathInvalid(_) => {
                push_str(&mut s, "Import path is invalid.");
            },
            ConstructErrorType::ImportShadowed(name) => {
                push_str(&mut s, "Import `");
                push_str(&mut s, name.as_str());
                push_str(&mut s, "` shadows an existing binding.");
            },
            ConstructErrorType::NamespaceNotImported(ns) => {
                push_str(&mut s, "Namespace `");
                push_str(&mut s, ns.as_str());
                push_str(&mut s, "` has not been imported.");
            },
            ConstructErrorType::ImportedFunctionNotFound(name) => {
                push_str(&mut s, "Imported function `");
                push_str(&mut s, name.as_str());
                push_str(&mut s, "` not found.");
            },
            ConstructErrorType::UnexpectedCall(_) => {
                push_str(&mut s, "Unexpected call expression.");
            },
            ConstructErrorType::UnknownCall(name, vt, args) => {
                push_str(&mut s, "Unknown call attempted on '");
                push_str(&mut s, name.as_str());
                push_str(&mut s, "' for '");
                push_str(&mut s, vt.display().as_str());
                push_str(&mut s, "' with args: ");
                push_str(&mut s, join_types(&args).as_str());
            },
            ConstructErrorType::IncorrectCallSignature(name, args, func_info) => {
                push_str(&mut s, "Incorrect call signature for '");
                push_str(&mut s, name.as_str());
                push_str(&mut s, "', found args: '");
                push_str(&mut s, join_types(&args).as_str());
                push_str(&mut s, "'. Possibly need this signature '");
                push_str(&mut s, join_types(&func_info.param_types).as_str());
                push_str(&mut s, "'?");
            },
            ConstructErrorType::QualifiedAccessNotCallOrGlobal(name) => {
                push_str(&mut s, "Qualified access is not imported callable or global: '");
                push_str(&mut s, name.as_str());
                push_str(&mut s, "'");
            },
            ConstructErrorType::FunctionReturnTypeAndBodyTypeMismatch(expected, actual) => {
                push_str(&mut s, "Function return type `");
                push_str(&mut s, show_optional_type(&expected).as_str());
                push_str(&mut s, "` does not match body type `");
                push_str(&mut s, show_optional_type(&actual).as_str());
                push_str(&mut s, "`.");
            },
            ConstructErrorType::LoopNeedsExitCondition => {
                push_str(&mut s, "Loop needs to have an exit condition (break, return).");
            },
        _ => {},
    }
    s
}

/// How the message of an import's syntax or parse errors begins: the count of errors, then
/// what kind they are.
pub open spec fn import_head(count: nat, kind: Seq<char>) -> Seq<char> {
    "Import has "@ + nat_digits(count) + kind
}

impl ConstructError {
    pub fn new(location: Location, kind: ConstructErrorType) -> (e: ConstructError)
        ensures
            e.location == location,
            e.kind == kind,
    {
        ConstructError { location, kind }
    }

    /// The text that describes this error. The errors of an imported script are shown with
    /// their source context, the first three of them.
    pub fn message(&self) -> (s: String)
        ensures
            !is_import_diagnostic(self.kind) ==> s@ == construct_message(self.kind),
            self.kind matches ConstructErrorType::ImportSyntaxError(_, _, errors, _) ==> s@.len() >= import_head(errors@.len(), " syntax error(s):\n"@).len()
                && s@.take(import_head(errors@.len(), " syntax error(s):\n"@).len() as int) == import_head(errors@.len(), " syntax error(s):\n"@),
            self.kind matches ConstructErrorType::ImportParseError(_, _, errors, _) ==> s@.len() >= import_head(errors@.len(), " parse error(s):\n"@).len()
                && s@.take(import_head(errors@.len(), " parse error(s):\n"@).len() as int) == import_head(errors@.len(), " parse error(s):\n"@),
            self.kind is ImportConstructError ==> s@.len() > "Import has construct error: "@.len()
                && s@.take("Import has construct error: "@.len() as int) == "Import has construct error: "@
                && s@.last() == '\n',
        decreases self,
    {
        let is_import = match &self.kind {
            ConstructErrorType::ImportSyntaxError(_, _, _, _) => true,
            ConstructErrorType::ImportParseError(_, _, _, _) => true,
            ConstructErrorType::ImportConstructError(_, _, _, _) => true,
            _ => false,
        };
        if !is_import {
            return simple_message(&self.kind);
        }
        let mut s = String::new();
        match &self.kind {
            ConstructErrorType::ImportSyntaxError(path, source, errors, tokens) => {
                push_str(&mut s, "Import has ");
                push_usize(&mut s, errors.len());
                push_str(&mut s, " syntax error(s):\n");
                let ghost head = import_head(errors@.len(), " syntax error(s):\n"@);
                assert(s@ =~= head);
                let shown: usize = if errors.len() < 3 {
                    errors.len()
                } else {
                    3
                };
                let mut i: usize = 0;
                while i < shown
                    invariant
                        shown <= errors@.len(),
                        s@.len() >= head.len(),
                        s@.take(head.len() as int) == head,
                    decreases shown - i,
                {
                    let ghost before = s@;
                    if i > 0 {
                        push_str(&mut s, "\n");
                    }
                    push_str(&mut s, "Parse error '");
                    push_usize(&mut s, i);
                    push_str(&mut s, "':\n");
                    let e = &errors[i];
                    if can_format_at(source.as_str(), Some(path.lexeme.as_str()), e.location) {
                        push_str(
                            &mut s,
                            format_parts(source.as_str(), Some(path.lexeme.as_str()), Severity::Error, e.location, e.message().as_str(), tokens.as_slice()).as_str(),
                        );
                    } else {
                        push_str(&mut s, e.message().as_str());
                    }
                    assert(s@.take(head.len() as int) =~= before.take(head.len() as int));
                    i = i + 1;
                }
            },
            ConstructErrorType::ImportParseError(path, source, errors, tokens) => {
                push_str(&mut s, "Import has ");
                push_usize(&mut s, errors.len());
                push_str(&mut s, " parse error(s):\n");
                let ghost head = import_head(errors@.len(), " parse error(s):\n"@);
                assert(s@ =~= head);
                let shown: usize = if errors.len() < 3 {
                    errors.len()
                } else {
                    3
                };
                let mut i: usize = 0;
                while i < shown
                    invariant
                        shown <= errors@.len(),
                        s@.len() >= head.len(),
                        s@.take(head.len() as int) == head,
                    decreases shown - i,
                {
                    let ghost before = s@;
                    if i > 0 {
                        push_str(&mut s, "\n");
                    }
                    push_str(&mut s, "Parse error '");
                    push_usize(&mut s, i);
                    push_str(&mut s, "':\n");
                    let e = &errors[i];
                    if can_format_at(source.as_str(), Some(path.lexeme.as_str()), e.token.location) {
                        push_str(
                            &mut s,
                            format_parts(source.as_str(), Some(path.lexeme.as_str()), Severity::Error, e.token.location, e.message().as_str(), tokens.as_slice()).as_str(),
                        );
                    } else {
                        push_str(&mut s, e.message().as_str());
                    }
                    assert(s@.take(head.len() as int) =~= before.take(head.len() as int));
                    i = i + 1;
                }
            },
            ConstructErrorType::ImportConstructError(path, source, err, tokens) => {
                push_str(&mut s, "Import has construct error: ");
                let ghost head = s@;
                proof {
                    assert(decreases_to!(*self => self.kind));
                    assert(decreases_to!(self.kind => self.kind->ImportConstructError_2));
                }
                let inner = (**err).message();
                if can_format_at(source.as_str(), Some(path.as_str()), err.location) {
                    push_str(
                        &mut s,
                        format_parts(source.as_str(), Some(path.as_str()), Severity::Error, err.location, inner.as_str(), tokens.as_slice()).as_str(),
                    );
                } else {
                    push_str(&mut s, inner.as_str());
                }
                push_str(&mut s, "\n");
                proof {
                    reveal_strlit("\n");
                    assert(s@.take(head.len() as int) =~= head);
                    assert(s@.last() == '\n');
                }
            },
            _ => {},
        }
        s
    }

    pub fn kind(&self) -> (k: &ConstructErrorType)
        ensures
            *k == self.kind,
    {
        &self.kind
    }
}

#[derive(Clone, Debug)]
pub struct ScriptFunctionSignature {
    pub name: String,
    pub param_types: Vec<ValueType>,
    pub return_type: Option<ValueType>,
}

/// A checked program: its statements, and the programs it imports under their aliases.
#[derive(Debug)]
pub struct FinalizedConstruct {
    pub stmts: Vec<AStmt>,
    pub imports: Vec<(String, Program)>,
    pub visiting_paths: Vec<String>,
}

// ---------------------------------------------------------------------------
// The checker

#[derive(Debug)]
struct Frame {
    scope: Vec<Scope>,
    floating_stack: Vec<(Location, ValueType)>,
    is_global: bool,
    variable_slots: Vec<(Location, String, VariableMutability)>,
    loop_depth: usize,
}

impl Frame {
    fn new(is_global: bool) -> (f: Frame)
        ensures
            f.scope@.len() == 1,
            f.variable_slots@.len() == 0,
            f.is_global == is_global,
            f.loop_depth == 0,
            f.floating_stack@.len() == 0,
    {
        let mut scope = Vec::new();
        scope.push(Scope::new(0, is_global));
        Frame { scope, floating_stack: Vec::new(), is_global, variable_slots: Vec::new(), loop_depth: 0 }
    }
}

/// Type-checks statements against a module and resolves names to slots, functions and
/// imports.
pub struct Constructor<'a, R: ImportResolver> {
    module: &'a Module,
    call_frames: Vec<Frame>,
    stmts: Vec<AStmt>,
    functions: Vec<ScriptFunctionSignature>,
    is_import_mode: bool,
    source_path: Option<String>,
    import_resolver: &'a R,
    imports: Vec<(String, Program)>,
    visiting_paths: Vec<String>,
    /// How many imports deep this checker is.
    import_depth: usize,
}

/// Whether a string starts with a prefix, or holds a piece.
fn starts_with(s: &Vec<char>, p: &[char]) -> (b: bool)
    ensures
        b == (p@.len() <= s@.len() && s@.take(p@.len() as int) == p@),
{
    if p.len() > s.len() {
        return false;
    }
    let mut i: usize = 0;
    while i < p.len()
        invariant
            i <= p@.len() <= s@.len(),
            forall|k: int| 0 <= k < i ==> s@[k] == p@[k],
        decreases p.len() - i,
    {
        if s[i] != p[i] {
            assert(s@.take(p@.len() as int)[i as int] != p@[i as int]);
            return false;
        }
        i = i + 1;
    }
    assert(s@.take(p@.len() as int) =~= p@);
    true
}

fn contains_double_slash(s: &Vec<char>) -> (b: bool)
    ensures
        b == exists|i: int| 0 <= i < s@.len() - 1 && #[trigger] s@[i] == '/' && s@[i + 1] == '/',
{
    if s.len() < 2 {
        return false;
    }
    let mut i: usize = 0;
    while i + 1 < s.len()
        invariant
            s@.len() >= 2,
            i + 1 <= s@.len(),
            forall|k: int| 0 <= k < i ==> !(#[trigger] s@[k] == '/' && s@[k + 1] == '/'),
        decreases s.len() - i,
    {
        if s[i] == '/' && s[i + 1] == '/' {
            return true;
        }
        i = i + 1;
    }
    false
}

fn contains_string(v: &Vec<String>, s: &String) -> (b: bool)
    ensures
        b == exists|i: int| 0 <= i < v@.len() && v@[i]@ == s@,
{
    let mut i: usize = 0;
    while i < v.len()
        invariant
            i <= v@.len(),
            forall|k: int| 0 <= k < i ==> v@[k]@ != s@,
        decreases v.len() - i,
    {
        if v[i] == *s {
            return true;
        }
        i = i + 1;
    }
    false
}

/// The strings of a list other than `s`, in order.
pub open spec fn without_string(v: Seq<String>, s: Seq<char>) -> Seq<String>
    decreases v.len(),
{
    if v.len() == 0 {
        Seq::empty()
    } else if v.last()@ == s {
        without_string(v.drop_last(), s)
    } else {
        without_string(v.drop_last(), s).push(v.last())
    }
}

fn remove_string(v: &mut Vec<String>, s: &String)
    ensures
        final(v)@ == without_string(old(v)@, s@),
{
    let mut out: Vec<String> = Vec::new();
    let mut i: usize = 0;
    while i < v.len()
        invariant
            i <= v@.len(),
            v@ == old(v)@,
            out@ == without_string(v@.take(i as int), s@),
        decreases v.len() - i,
    {
        assert(v@.take(i + 1).drop_last() =~= v@.take(i as int));
        if v[i] != *s {
            out.push(v[i].clone());
        }
        i = i + 1;
    }
    assert(v@.take(v@.len() as int) =~= v@);
    *v = out;
}

/// Copies of optional types.
fn copy_optional(t: &Option<ValueType>) -> (r: Option<ValueType>)
    ensures
        r is Some <==> t is Some,
        r matches Some(x) ==> same_type(x, t->0),
{
    match t {
        Some(v) => Some(v.copy()),
        None => None,
    }
}

fn maybe_eq(a: &Option<MaybeValueType>, b: &Option<MaybeValueType>) -> (r: bool)
    ensures
        r == same_optional_maybe(*a, *b),
{
    match (a, b) {
        (Some(x), Some(y)) => x.eq(y),
        (None, None) => true,
        _ => false,
    }
}

fn optional_type_eq(a: &Option<ValueType>, b: &Option<ValueType>) -> (r: bool)
    ensures
        r == same_optional_type(*a, *b),
{
    match (a, b) {
        (Some(x), Some(y)) => x.same(y),
        (None, None) => true,
        _ => false,
    }
}

/// The value types of a list of checked arguments.
fn value_types_of(args: &Vec<Box<AExpr>>) -> (r: Vec<Option<MaybeValueType>>)
    ensures
        r@.len() == args@.len(),
        forall|k: int| 0 <= k < args@.len() ==> same_optional_maybe(#[trigger] r@[k], expr_value_type(*args@[k])),
{
    let mut r: Vec<Option<MaybeValueType>> = Vec::new();
    let mut i: usize = 0;
    while i < args.len()
        invariant
            i <= args@.len(),
            r@.len() == i,
            forall|k: int| 0 <= k < i ==> same_optional_maybe(#[trigger] r@[k], expr_value_type(*args@[k])),
        decreases args.len() - i,
    {
        r.push(args[i].get_value_type());
        i = i + 1;
    }
    r
}

/// The last slot of a body declared under `name`.
pub open spec fn last_slot(slots: Seq<(Location, String, VariableMutability)>, name: Seq<char>) -> Option<nat>
    decreases slots.len(),
{
    if slots.len() == 0 {
        None
    } else if slots.last().1@ == name {
        Some((slots.len() - 1) as nat)
    } else {
        last_slot(slots.drop_last(), name)
    }
}

/// The type that the innermost scope recording `slot` gives it.
pub open spec fn scope_type(scopes: Seq<Scope>, slot: usize) -> Option<MaybeValueType>
    decreases scopes.len(),
{
    if scopes.len() == 0 {
        None
    } else {
        match state_of(scopes.last().variable_state@, slot) {
            Some(t) => Some(t),
            None => scope_type(scopes.drop_last(), slot),
        }
    }
}

/// The index of the last function of a scope listed under `name`.
pub open spec fn latest_function(fs: Seq<(String, usize)>, name: Seq<char>) -> Option<usize>
    decreases fs.len(),
{
    if fs.len() == 0 {
        None
    } else if fs.last().0@ == name {
        Some(fs.last().1)
    } else {
        latest_function(fs.drop_last(), name)
    }
}

/// The index of the function `name` names in a stack of scopes: the innermost scope that
/// lists it decides.
pub open spec fn visible_function(scopes: Seq<Scope>, name: Seq<char>) -> Option<usize>
    decreases scopes.len(),
{
    if scopes.len() == 0 {
        None
    } else {
        match latest_function(scopes.last().available_functions@, name) {
            Some(i) => Some(i),
            None => visible_function(scopes.drop_last(), name),
        }
    }
}

/// Whether the module knows every type that a top-level function declares: each
/// parameter's and the return type, where there is one.
/// An import path that is refused as written: one that starts with `./` or `../`, or that
/// holds `//`.
pub open spec fn import_path_invalid(p: Seq<char>) -> bool {
    ||| (p.len() >= 2 && p.take(2) == seq!['.', '/'])
    ||| (p.len() >= 3 && p.take(3) == seq!['.', '.', '/'])
    ||| exists|i: int| 0 <= i < p.len() - 1 && #[trigger] p[i] == '/' && p[i + 1] == '/'
}

/// A statement that checks wherever it stands: a literal as an expression statement, and
/// a `return` with no value or with a literal.
pub open spec fn checks_anywhere(s: Stmt) -> bool {
    ||| s matches Stmt::Expression(e, _) && is_literal(*e)
    ||| s matches Stmt::Return(_, None)
    ||| s matches Stmt::Return(_, Some(e)) && is_literal(*e)
}

pub open spec fn signature_resolves(module: Module, s: Stmt) -> bool {
    match s {
        Stmt::Function(_, params, _, ret) => (ret matches Some(t) ==> module.spec_resolve_type(t.lexeme@) is Some)
            && forall|j: int| 0 <= j < params@.len() ==> module.spec_resolve_type((#[trigger] params@[j]).typing.lexeme@) is Some,
        _ => true,
    }
}

impl<'a, R: ImportResolver> Constructor<'a, R> {
    pub closed spec fn wf(&self) -> bool {
        &&& self.call_frames@.len() > 0
        &&& forall|i: int| 0 <= i < self.call_frames@.len() ==> (#[trigger] self.call_frames@[i]).scope@.len() > 0
    }

    pub closed spec fn depth(&self) -> nat {
        self.import_depth as nat
    }

    /// How many loops the statement being checked is inside, in the innermost function.
    pub closed spec fn loop_depth(&self) -> nat {
        self.call_frames@.last().loop_depth as nat
    }

    /// The slot and mutability of the variable `name` names where it is used: the newest
    /// of that name in the innermost function body, else in the script's top level.
    /// The type that a visible variable has been given so far, where a variable of that
    /// name is visible: none before it is set, "maybe" where it is set on some paths only.
    pub closed spec fn variable_state(&self, name: Seq<char>) -> Option<Option<MaybeValueType>> {
        let current = self.call_frames@.last();
        let global = self.call_frames@[0];
        match last_slot(current.variable_slots@, name) {
            Some(i) => Some(scope_type(current.scope@, i as usize)),
            None => if self.call_frames@.len() > 1 && last_slot(global.variable_slots@, name) is Some {
                Some(scope_type(global.scope@, last_slot(global.variable_slots@, name)->0 as usize))
            } else {
                None
            },
        }
    }

    /// The script function that `name` stands for here: the latest visible in this call
    /// frame's scopes, else, inside a function, in the global frame's.
    pub closed spec fn visible_script_function(&self, name: Seq<char>) -> Option<usize> {
        let current = self.call_frames@.last();
        let found = match visible_function(current.scope@, name) {
            Some(i) => Some(i),
            None => if current.is_global {
                None
            } else {
                visible_function(self.call_frames@[0].scope@, name)
            },
        };
        if found matches Some(i) && i < self.functions@.len() {
            found
        } else {
            None
        }
    }

    /// The native methods of the module, with their receiver types.
    pub closed spec fn module_methods(&self) -> Seq<(ValueType, FunctionInfo)> {
        self.module.method_entries()
    }

    /// A checked call uses the first native method that the module registers for some
    /// receiver type, its `name`, and parameter types as many as the call's arguments: its
    /// kind and return type.
    pub open spec fn uses_first_method(&self, name: Seq<char>, args: nat, kind: FunctionKind, rt: Option<ValueType>) -> bool {
        exists|i: int, recv: ValueType, ts: Seq<ValueType>|
            ts.len() == args && #[trigger] first_method(self.module_methods(), i, recv, name, ts) && kind
                == self.module_methods()[i].1.kind && same_optional_type(rt, self.module_methods()[i].1.return_type)
    }

    /// Whether the script at an import path is being checked already, further up the
    /// imports.
    pub closed spec fn visiting(&self, path: Seq<char>) -> bool {
        exists|i: int| 0 <= i < self.visiting_paths@.len() && self.visiting_paths@[i]@ == path
    }

    /// The global that the module registers under `name`, if any.
    pub closed spec fn module_global(&self, name: Seq<char>) -> Option<(ValueType, Value)> {
        crate::module::lookup_global(self.module.global_entries(), name)
    }

    spec fn visible_variable(&self, name: Seq<char>) -> Option<(VariableSlot, VariableMutability)> {
        let current = self.call_frames@.last();
        let global = self.call_frames@[0];
        match last_slot(current.variable_slots@, name) {
            Some(i) => Some((VariableSlot { index: i as usize, is_global: current.is_global }, current.variable_slots@[i as int].2)),
            None => if self.call_frames@.len() > 1 && last_slot(global.variable_slots@, name) is Some {
                let i = last_slot(global.variable_slots@, name)->0;
                Some((VariableSlot { index: i as usize, is_global: true }, global.variable_slots@[i as int].2))
            } else {
                None
            },
        }
    }

    /// The module that scripts are checked against.
    pub closed spec fn module_of(&self) -> Module {
        *self.module
    }

    /// The statements checked so far.
    pub closed spec fn checked(&self) -> Seq<AStmt> {
        self.stmts@
    }

    /// How many function bodies are being checked, the script's top level counted.
    spec fn frames(&self) -> nat {
        self.call_frames@.len()
    }

    /// The scopes of the innermost function body.
    spec fn scopes(&self) -> Seq<Scope> {
        self.call_frames@.last().scope@
    }

    /// The types of the values the innermost function body has left on its stack.
    spec fn floating(&self) -> Seq<(Location, ValueType)> {
        self.call_frames@.last().floating_stack@
    }

    pub fn new(module: &'a Module, import_resolver: &'a R, source_path: Option<String>) -> (c: Self)
        ensures
            c.wf(),
            c.depth() == 0,
            c.checked().len() == 0,
    {
        let mut frames = Vec::new();
        frames.push(Frame::new(true));
        Constructor {
            module,
            call_frames: frames,
            stmts: Vec::new(),
            functions: Vec::new(),
            is_import_mode: true,
            source_path,
            import_resolver,
            imports: Vec::new(),
            visiting_paths: Vec::new(),
            import_depth: 0,
        }
    }

    /// Checks a program: first every top-level function's signature, so that calls may come
    /// before definitions; then each statement in order.
    pub fn generate(self, stmts: &[Stmt]) -> (r: Result<FinalizedConstruct, ConstructError>)
        requires
            self.wf(),
        ensures
            (exists|k: int| 0 <= k < stmts@.len() && !signature_resolves(self.module_of(), #[trigger] stmts@[k])) ==> (r matches Err(e)
                && e.kind is UnknownType),
            stmts@.len() == 0 ==> r is Ok,
            (forall|k: int| 0 <= k < stmts@.len() ==> checks_anywhere(#[trigger] stmts@[k])) ==> r is Ok,
            r matches Ok(c) ==> c.stmts@.len() == self.checked().len() + stmts@.len()
                && c.stmts@.take(self.checked().len() as int) == self.checked()
                && forall|i: int| 0 <= i < stmts@.len() ==> checked_as(#[trigger] stmts@[i], c.stmts@[self.checked().len() + i]),
    {
        let mut this = self;
        let mut done: Vec<AStmt> = Vec::new();
        std::mem::swap(&mut done, &mut this.stmts);
        let ghost before = done@;
        let ghost simple = forall|k: int| 0 <= k < stmts@.len() ==> checks_anywhere(#[trigger] stmts@[k]);
        match this.prepare(stmts) {
            Ok(()) => {},
            Err(e) => return Err(e),
        }
        let mut i: usize = 0;
        while i < stmts.len()
            invariant
                this.wf(),
                i <= stmts@.len(),
                done@.len() == before.len() + i,
                forall|k: int| 0 <= k < stmts@.len() ==> signature_resolves(self.module_of(), #[trigger] stmts@[k]),
                done@.take(before.len() as int) == before,
                forall|k: int| 0 <= k < i ==> checked_as(#[trigger] stmts@[k], done@[before.len() + k]),
                simple ==> forall|k: int| 0 <= k < stmts@.len() ==> checks_anywhere(#[trigger] stmts@[k]),
            decreases stmts.len() - i,
        {
            match this.statement(&stmts[i], false, None) {
                Ok(a) => {
                    done.push(a);
                    assert(done@.take(before.len() as int) =~= before);
                },
                Err(e) => return Err(e),
            }
            i = i + 1;
        }
        Ok(FinalizedConstruct { stmts: done, imports: this.imports, visiting_paths: this.visiting_paths })
    }

    /// Registers the signatures of the top-level functions and makes them visible in the
    /// global scope.
    fn prepare(&mut self, stmts: &[Stmt]) -> (r: Result<(), ConstructError>)
        requires
            old(self).wf(),
        ensures
            final(self).wf(),
            final(self).depth() == old(self).depth(),
            final(self).module_methods() == old(self).module_methods(),
            r is Err <==> exists|k: int| 0 <= k < stmts@.len() && !signature_resolves(old(self).module_of(), #[trigger] stmts@[k]),
            r matches Err(e) ==> e.kind is UnknownType,
    {
        let mut i: usize = 0;
        while i < stmts.len()
            invariant
                self.wf(),
                self.depth() == old(self).depth(),
                self.module_methods() == old(self).module_methods(),
                self.module == old(self).module,
                i <= stmts@.len(),
                forall|k: int| 0 <= k < i ==> signature_resolves(old(self).module_of(), #[trigger] stmts@[k]),
            decreases stmts.len() - i,
        {
            match &stmts[i] {
                Stmt::Function(name, params, _, specified_return) => {
                    let return_type = match specified_return {
                        Some(tok) => match self.module.resolve_type(tok.lexeme.as_str()) {
                            Some(rt) => Some(rt),
                            None => {
                                return Err(ConstructError::new(
                                    tok.location,
                                    ConstructErrorType::UnknownType(tok.lexeme.clone()),
                                ));
                            },
                        },
                        None => None,
                    };
                    match self.register_script_signature(name, params, return_type) {
                        Ok(()) => {},
                        Err(e) => return Err(e),
                    }
                },
                _ => {},
            }
            i = i + 1;
        }
        let mut frames = Vec::new();
        frames.push(Frame::new(true));
        self.call_frames = frames;
        let mut k: usize = 0;
        let count = self.functions.len();
        while k < count
            invariant
                self.wf(),
                self.depth() == old(self).depth(),
                self.module_methods() == old(self).module_methods(),
                count == self.functions@.len(),
            decreases count - k,
        {
            let name = self.functions[k].name.clone();
            self.push_script_function(name, k);
            k = k + 1;
        }
        Ok(())
    }

    fn register_script_signature(
        &mut self,
        name: &Token,
        params: &Vec<FunctionParameter>,
        specified_return: Option<ValueType>,
    ) -> (r: Result<(), ConstructError>)
        requires
            old(self).wf(),
        ensures
            final(self).wf(),
            final(self).depth() == old(self).depth(),
            final(self).module_methods() == old(self).module_methods(),
            r is Err <==> exists|k: int| 0 <= k < params@.len() && old(self).module.spec_resolve_type(
                (#[trigger] params@[k]).typing.lexeme@,
            ) is None,
            r matches Err(e) ==> e.kind is UnknownType && final(self).functions == old(self).functions,
            final(self).module == old(self).module,
            r is Ok ==> final(self).functions@.len() == old(self).functions@.len() + 1
                && final(self).functions@.drop_last() == old(self).functions@ && ({
                let sig = final(self).functions@.last();
                &&& sig.name@ == name.lexeme@
                &&& sig.return_type == specified_return
                &&& sig.param_types@.len() == params@.len()
                &&& forall|k: int| 0 <= k < params@.len() ==> (old(self).module.spec_resolve_type(
                    (#[trigger] params@[k]).typing.lexeme@,
                ) matches Some(y) && same_type(sig.param_types@[k], y))
            }),
    {
        let mut param_types: Vec<ValueType> = Vec::new();
        let mut i: usize = 0;
        while i < params.len()
            invariant
                i <= params@.len(),
                self.wf(),
                self.depth() == old(self).depth(),
                self.module_methods() == old(self).module_methods(),
                self.functions == old(self).functions,
                self.module == old(self).module,
                param_types@.len() == i,
                forall|k: int| 0 <= k < i ==> (old(self).module.spec_resolve_type(
                    (#[trigger] params@[k]).typing.lexeme@,
                ) matches Some(y) && same_type(param_types@[k], y)),
            decreases params.len() - i,
        {
            match self.module.resolve_type(params[i].typing.lexeme.as_str()) {
                Some(pt) => param_types.push(pt),
                None => {
                    return Err(ConstructError::new(
                        params[i].typing.location,
                        ConstructErrorType::UnknownType(params[i].typing.lexeme.clone()),
                    ));
                },
            }
            i = i + 1;
        }
        self.functions.push(ScriptFunctionSignature { name: name.lexeme.clone(), param_types, return_type: specified_return });
        assert(self.functions@.drop_last() =~= old(self).functions@);
        Ok(())
    }

    fn frame_count(&self) -> (n: usize)
        ensures
            n == self.call_frames@.len(),
    {
        self.call_frames.len()
    }

    fn push_frame(&mut self)
        requires
            old(self).wf(),
        ensures
            final(self).wf(),
            final(self).depth() == old(self).depth(),
            final(self).module_methods() == old(self).module_methods(),
            final(self).call_frames@.drop_last() == old(self).call_frames@,
            final(self).loop_depth() == 0,
            final(self).floating().len() == 0,
            final(self).scopes().len() == 1,
            !final(self).call_frames@.last().is_global,
    {
        self.call_frames.push(Frame::new(false));
    }

    fn pop_frame(&mut self)
        requires
            old(self).wf(),
        ensures
            final(self).wf(),
            final(self).depth() == old(self).depth(),
            final(self).module_methods() == old(self).module_methods(),
            old(self).frames() > 1 ==> final(self).call_frames@ == old(self).call_frames@.drop_last(),
            old(self).frames() <= 1 ==> final(self).call_frames@ == old(self).call_frames@,
    {
        if self.call_frames.len() > 1 {
            self.call_frames.pop();
        }
    }

    fn increment_loop_depth(&mut self)
        requires
            old(self).wf(),
        ensures
            final(self).wf(),
            final(self).depth() == old(self).depth(),
            final(self).module_methods() == old(self).module_methods(),
            final(self).frames() == old(self).frames(),
            final(self).loop_depth() == if old(self).loop_depth() < usize::MAX { old(self).loop_depth() + 1 } else { old(self).loop_depth() },
            final(self).scopes() == old(self).scopes(),
            final(self).floating() == old(self).floating(),
    {
        let n = self.call_frames.len();
        let mut frame = self.call_frames.pop().unwrap();
        frame.loop_depth = frame.loop_depth.saturating_add(1);
        self.call_frames.push(frame);
        proof {
            assert forall|i: int| 0 <= i < self.call_frames@.len() implies (#[trigger] self.call_frames@[i]).scope@.len() > 0 by {
                if i < n - 1 {
                    assert(self.call_frames@[i] == old(self).call_frames@[i]);
                }
            }
        }
    }

    fn decrement_loop_depth(&mut self)
        requires
            old(self).wf(),
        ensures
            final(self).wf(),
            final(self).depth() == old(self).depth(),
            final(self).module_methods() == old(self).module_methods(),
            final(self).frames() == old(self).frames(),
            final(self).loop_depth() == if old(self).loop_depth() > 0 { old(self).loop_depth() - 1 } else { 0 },
            final(self).scopes() == old(self).scopes(),
            final(self).floating() == old(self).floating(),
    {
        let n = self.call_frames.len();
        let mut frame = self.call_frames.pop().unwrap();
        frame.loop_depth = frame.loop_depth.saturating_sub(1);
        self.call_frames.push(frame);
        proof {
            assert forall|i: int| 0 <= i < self.call_frames@.len() implies (#[trigger] self.call_frames@[i]).scope@.len() > 0 by {
                if i < n - 1 {
                    assert(self.call_frames@[i] == old(self).call_frames@[i]);
                }
            }
        }
    }

    fn current_loop_depth(&self) -> (d: usize)
        requires
            self.wf(),
        ensures
            d == self.loop_depth(),
    {
        self.call_frames[self.call_frames.len() - 1].loop_depth
    }

    /// Takes the innermost frame out, to work on it; `put_frame` puts it back.
    fn take_frame(&mut self) -> (f: Frame)
        requires
            old(self).wf(),
        ensures
            final(self).imports == old(self).imports,
            final(self).call_frames@ == old(self).call_frames@.drop_last(),
            f == old(self).call_frames@.last(),
            f.scope@.len() > 0,
            final(self).depth() == old(self).depth(),
            final(self).module_methods() == old(self).module_methods(),
            final(self).functions == old(self).functions,
    {
        self.call_frames.pop().unwrap()
    }

    fn put_frame(&mut self, f: Frame)
        requires
            f.scope@.len() > 0,
            forall|i: int| 0 <= i < old(self).call_frames@.len() ==> (#[trigger] old(self).call_frames@[i]).scope@.len() > 0,
        ensures
            final(self).imports == old(self).imports,
            final(self).wf(),
            final(self).call_frames@ == old(self).call_frames@.push(f),
            final(self).depth() == old(self).depth(),
            final(self).module_methods() == old(self).module_methods(),
            final(self).functions == old(self).functions,
    {
        self.call_frames.push(f);
    }

    fn push_scope(&mut self)
        requires
            old(self).wf(),
        ensures
            final(self).wf(),
            final(self).depth() == old(self).depth(),
            final(self).module_methods() == old(self).module_methods(),
            final(self).frames() == old(self).frames(),
            final(self).scopes().drop_last() == old(self).scopes(),
            final(self).scopes().last().variable_state@.len() == 0,
            final(self).loop_depth() == old(self).loop_depth(),
            final(self).floating() == old(self).floating(),
    {
        let mut frame = self.take_frame();
        let start = frame.variable_slots.len();
        frame.scope.push(Scope::new(start, frame.is_global));
        self.put_frame(frame);
    }

    /// Leaves the innermost scope, forgetting the variables declared in it.
    fn pop_scope(&mut self) -> (s: Scope)
        requires
            old(self).wf(),
        ensures
            final(self).wf(),
            final(self).depth() == old(self).depth(),
            final(self).module_methods() == old(self).module_methods(),
            s == old(self).scopes().last(),
            final(self).frames() == old(self).frames(),
            old(self).scopes().len() > 1 ==> final(self).scopes() == old(self).scopes().drop_last(),
            old(self).scopes().len() == 1 ==> final(self).scopes().len() == 1 && final(self).scopes()[0].variable_state@.len() == 0,
            final(self).loop_depth() == old(self).loop_depth(),
            final(self).floating() == old(self).floating(),
    {
        let mut frame = self.take_frame();
        let scope = if frame.scope.len() > 1 {
            frame.scope.pop().unwrap()
        } else {
            let s = frame.scope.pop().unwrap();
            frame.scope.push(Scope::new(0, frame.is_global));
            s
        };
        frame.variable_slots.truncate(scope.starting_variable_count);
        self.put_frame(frame);
        scope
    }

    /// Carries what a finished scope learned about older variables' types into the scope
    /// around it; `maybe` demotes types the enclosing scope does not know yet.
    fn apply_scope_variables(&mut self, scope: &Scope, maybe: bool) -> (r: Result<(), ConstructErrorType>)
        requires
            old(self).wf(),
        ensures
            final(self).wf(),
            final(self).depth() == old(self).depth(),
            final(self).module_methods() == old(self).module_methods(),
            final(self).frames() == old(self).frames(),
            final(self).scopes().len() == old(self).scopes().len(),
            final(self).scopes().drop_last() == old(self).scopes().drop_last(),
            r matches Err(e) ==> e is VariableTypeMaybeAltered,
            scope.variable_state@.len() == 0 ==> r is Ok,
            r is Ok && !maybe ==> forall|k: int|
                0 <= k < scope.variable_state@.len() && #[trigger] scope.variable_state@[k].0 < scope.starting_variable_count
                    ==> state_of(final(self).scopes().last().variable_state@, scope.variable_state@[k].0) is Some,
            forall|j: usize| state_of(old(self).scopes().last().variable_state@, j) is Some ==> state_of(
                final(self).scopes().last().variable_state@,
                j,
            ) is Some,
    {
        let mut frame = self.take_frame();
        let last = frame.scope.len() - 1;
        let mut calling = frame.scope.pop().unwrap();
        let ghost start_state = calling.variable_state@;
        let source_start = scope.starting_variable_count;
        let mut i: usize = 0;
        let mut result: Result<(), ConstructErrorType> = Ok(());
        while i < scope.variable_state.len()
            invariant_except_break
                result is Ok,
            invariant
                i <= scope.variable_state@.len(),
                result matches Err(e) ==> e is VariableTypeMaybeAltered,
                !maybe ==> forall|k: int|
                    0 <= k < i && #[trigger] scope.variable_state@[k].0 < source_start
                        ==> state_of(calling.variable_state@, scope.variable_state@[k].0) is Some,
                forall|j: usize| state_of(start_state, j) is Some ==> state_of(calling.variable_state@, j) is Some,
                source_start == scope.starting_variable_count,
            ensures
                result is Ok ==> i == scope.variable_state@.len(),
                scope.variable_state@.len() == 0 ==> result is Ok,
                result matches Err(e) ==> e is VariableTypeMaybeAltered,
                !maybe && result is Ok ==> forall|k: int|
                    0 <= k < scope.variable_state@.len() && #[trigger] scope.variable_state@[k].0 < source_start
                        ==> state_of(calling.variable_state@, scope.variable_state@[k].0) is Some,
                forall|j: usize| state_of(start_state, j) is Some ==> state_of(calling.variable_state@, j) is Some,
            decreases scope.variable_state.len() - i,
        {
            let index = scope.variable_state[i].0;
            let value_type = &scope.variable_state[i].1;
            if index < source_start {
                match state_get(&calling.variable_state, index) {
                    Some(existing) => {
                        if !existing.value_type().same(&value_type.value_type()) {
                            result = Err(ConstructErrorType::VariableTypeMaybeAltered(
                                existing.value_type(),
                                value_type.value_type(),
                            ));
                            break;
                        }
                    },
                    None => {
                        // A slot that an enclosing scope already holds as set stays set.
                        if !(maybe && known_outside(&frame.scope, index, &value_type.value_type())) {
                            let final_type = if maybe {
                                value_type.to_maybe()
                            } else {
                                value_type.copy()
                            };
                            state_set(&mut calling.variable_state, index, final_type);
                        }
                    },
                }
            }
            i = i + 1;
        }
        frame.scope.push(calling);
        self.put_frame(frame);
        assert(self.scopes().drop_last() =~= old(self).scopes().drop_last());
        result
    }

    fn alloc_variable(
        &mut self,
        source: Location,
        name: &str,
        initializer: Option<&Box<AExpr>>,
        mutability: VariableMutability,
    ) -> (r: Result<VariableSlot, ConstructError>)
        requires
            old(self).wf(),
        ensures
            final(self).wf(),
            final(self).depth() == old(self).depth(),
            final(self).module_methods() == old(self).module_methods(),
            initializer is None && mutability == VariableMutability::Constant ==> (r matches Err(e) && e.location == source
                && e.kind is ConstantMustBeInitialized),
            initializer matches Some(init) ==> (expr_value_type(**init) is None ==> (r matches Err(e) && e.kind is InitializerDoesntProduce)),
            initializer matches Some(init) ==> ((expr_value_type(**init) matches Some(m) && m is Maybe) ==> (r matches Err(e)
                && e.kind is VariablePotentiallyUninitialized)),
            !(initializer is None && mutability == VariableMutability::Constant)
                && (initializer matches Some(init) ==> (expr_value_type(**init) matches Some(m) && m is Known)) ==> (
                (r is Err <==> exists|k: int| 0 <= k < old(self).imports@.len() && (#[trigger] old(self).imports@[k]).0@ == name@)
                && (r matches Ok(slot) ==> slot.index == old(self).call_frames@.last().variable_slots@.len()
                    && final(self).call_frames@.last().variable_slots@.last().1@ == name@)),
    {
        if initializer.is_none() && mutability == VariableMutability::Constant {
            return Err(ConstructError::new(source, ConstructErrorType::ConstantMustBeInitialized));
        }
        let initialized_type = match initializer {
            Some(init) => match init.get_value_type() {
                Some(MaybeValueType::Known(v)) => Some(v),
                Some(MaybeValueType::Maybe(v)) => {
                    return Err(ConstructError::new(
                        init.get_location(),
                        ConstructErrorType::VariablePotentiallyUninitialized(MaybeValueType::Maybe(v)),
                    ));
                },
                None => {
                    return Err(ConstructError::new(
                        init.get_location(),
                        ConstructErrorType::InitializerDoesntProduce,
                    ));
                },
            },
            None => None,
        };
        self.push_variable(source, name, mutability, initialized_type)
    }

    fn push_variable(
        &mut self,
        source: Location,
        name: &str,
        mutability: VariableMutability,
        initialized_type: Option<ValueType>,
    ) -> (r: Result<VariableSlot, ConstructError>)
        requires
            old(self).wf(),
        ensures
            final(self).wf(),
            final(self).depth() == old(self).depth(),
            final(self).module_methods() == old(self).module_methods(),
            r is Err <==> exists|k: int| 0 <= k < old(self).imports@.len() && (#[trigger] old(self).imports@[k]).0@ == name@,
            r matches Err(e) ==> e.location == source && (e.kind matches ConstructErrorType::ImportShadowed(n) && n@ == name@),
            r matches Ok(slot) ==> ({
                let before = old(self).call_frames@.last().variable_slots@;
                let after = final(self).call_frames@.last().variable_slots@;
                &&& slot.index == before.len()
                &&& slot.is_global == (old(self).frames() <= 1)
                &&& after.drop_last() == before
                &&& after.len() == before.len() + 1
                &&& after.last().0 == source
                &&& after.last().1@ == name@
                &&& after.last().2 == mutability
                &&& final(self).frames() == old(self).frames()
            }),
    {
        let key = name.to_owned();
        let mut i: usize = 0;
        while i < self.imports.len()
            invariant
                i <= self.imports@.len(),
                self.wf(),
                self.depth() == old(self).depth(),
                self.module_methods() == old(self).module_methods(),
                *self == *old(self),
                key@ == name@,
                forall|k: int| 0 <= k < i ==> (#[trigger] self.imports@[k]).0@ != name@,
            decreases self.imports.len() - i,
        {
            if self.imports[i].0 == key {
                return Err(ConstructError::new(source, ConstructErrorType::ImportShadowed(key)));
            }
            i = i + 1;
        }
        let is_global = self.call_frames.len() <= 1;
        let mut frame = self.take_frame();
        let index = frame.variable_slots.len();
        match initialized_type {
            Some(t) => {
                let mut scope = frame.scope.pop().unwrap();
                state_set(&mut scope.variable_state, index, MaybeValueType::Known(t));
                frame.scope.push(scope);
            },
            None => {},
        }
        frame.variable_slots.push((source, key, mutability));
        self.put_frame(frame);
        assert(self.call_frames@.last().variable_slots@.drop_last() =~= old(self).call_frames@.last().variable_slots@);
        Ok(VariableSlot::new(index, is_global))
    }

    /// Finds the newest variable of a name in a frame: its slot index, mutability and its
    /// current type (none where it has none yet); `Err(())` where the frame has none.
    fn find_in_frame(frame: &Frame, name: &String) -> (r: Result<(usize, VariableMutability, Option<MaybeValueType>), bool>)
        ensures
            match last_slot(frame.variable_slots@, name@) {
                None => r == Err::<(usize, VariableMutability, Option<MaybeValueType>), bool>(false),
                Some(i) => if frame.scope@.len() == 0 {
                    r == Err::<(usize, VariableMutability, Option<MaybeValueType>), bool>(true)
                } else {
                    r matches Ok((j, m, t)) && j == i && m == frame.variable_slots@[i as int].2
                        && same_optional_maybe(t, scope_type(frame.scope@, j))
                },
            },
    {
        let mut i: usize = frame.variable_slots.len();
        assert(frame.variable_slots@.take(i as int) =~= frame.variable_slots@);
        while i > 0
            invariant
                i <= frame.variable_slots@.len(),
                last_slot(frame.variable_slots@, name@) == last_slot(frame.variable_slots@.take(i as int), name@),
            decreases i,
        {
            let slot = i - 1;
            proof {
                assert(frame.variable_slots@.take(i as int).drop_last() =~= frame.variable_slots@.take(slot as int));
                assert(frame.variable_slots@.take(i as int).last() == frame.variable_slots@[slot as int]);
            }
            if frame.variable_slots[slot].1 == *name {
                let mut s: usize = frame.scope.len();
                assert(frame.scope@.take(s as int) =~= frame.scope@);
                while s > 0
                    invariant
                        s <= frame.scope@.len(),
                        slot < frame.variable_slots@.len(),
                        last_slot(frame.variable_slots@, name@) == Some(slot as nat),
                        scope_type(frame.scope@, slot) == scope_type(frame.scope@.take(s as int), slot),
                    decreases s,
                {
                    proof {
                        assert(frame.scope@.take(s as int).drop_last() =~= frame.scope@.take(s - 1));
                        assert(frame.scope@.take(s as int).last() == frame.scope@[s - 1]);
                    }
                    match state_get(&frame.scope[s - 1].variable_state, slot) {
                        Some(t) => return Ok((slot, frame.variable_slots[slot].2, Some(t))),
                        None => {},
                    }
                    s = s - 1;
                }
                assert(frame.scope@.take(0) =~= Seq::<Scope>::empty());
                if frame.scope.len() > 0 {
                    return Ok((slot, frame.variable_slots[slot].2, None));
                }
                return Err(true);
            }
            i = i - 1;
        }
        Err(false)
    }

    fn find_variable(&self, source: Location, name: &str) -> (r: Result<
        (VariableSlot, VariableMutability, Option<MaybeValueType>),
        ConstructError,
    >)
        requires
            self.wf(),
        ensures
            ({
                let current = self.call_frames@.last();
                let global = self.call_frames@[0];
                match last_slot(current.variable_slots@, name@) {
                    Some(i) => r matches Ok((slot, m, t)) && slot == (VariableSlot { index: i as usize, is_global: current.is_global })
                        && m == current.variable_slots@[i as int].2 && same_optional_maybe(t, scope_type(current.scope@, i as usize)),
                    None => if self.call_frames@.len() > 1 && last_slot(global.variable_slots@, name@) is Some {
                        let i = last_slot(global.variable_slots@, name@)->0;
                        r matches Ok((slot, m, t)) && slot == (VariableSlot { index: i as usize, is_global: true })
                            && m == global.variable_slots@[i as int].2 && same_optional_maybe(t, scope_type(global.scope@, i as usize))
                    } else {
                        r matches Err(e) && e.location == source && (e.kind matches ConstructErrorType::VariableUndefined(k) && k@ == name@)
                    },
                }
            }),
    {
        let key = name.to_owned();
        let n = self.call_frames.len();
        let current = &self.call_frames[n - 1];
        match Self::find_in_frame(current, &key) {
            Ok((i, m, t)) => return Ok((VariableSlot::new(i, current.is_global), m, t)),
            Err(_) => {},
        }
        if n > 1 {
            match Self::find_in_frame(&self.call_frames[0], &key) {
                Ok((i, m, t)) => return Ok((VariableSlot::new(i, true), m, t)),
                Err(_) => {},
            }
        }
        Err(ConstructError::new(source, ConstructErrorType::VariableUndefined(key)))
    }

    /// The slot that an assignment to the variable `name` writes. It is refused where no
    /// variable of that name is visible, where the variable is a constant, and where it is
    /// immutable and has been set already.
    fn assign_target(&self, location: Location, name: &str) -> (r: Result<VariableSlot, ConstructError>)
        requires
            self.wf(),
        ensures
            self.visible_variable(name@) is None ==> (r matches Err(e) && e.location == location
                && e.kind is VariableUndefined),
            self.visible_variable(name@) matches Some((slot, m)) ==> {
                &&& m == VariableMutability::Constant ==> (r matches Err(e) && e.location == location
                    && e.kind is VariableImmutable)
                &&& m == VariableMutability::Immutable ==> (self.variable_state(name@) matches Some(Some(_))
                    <==> (r matches Err(e) && e.location == location && e.kind is VariableImmutable))
                &&& m == VariableMutability::Mutable ==> r == Ok::<VariableSlot, ConstructError>(slot)
                &&& r is Ok ==> r == Ok::<VariableSlot, ConstructError>(slot)
            },
    {
        let (slot, mutability, current) = match self.find_variable(location, name) {
            Ok(found) => found,
            Err(err) => return Err(err),
        };
        match mutability {
            VariableMutability::Constant => Err(ConstructError::new(location, ConstructErrorType::VariableImmutable)),
            VariableMutability::Immutable => {
                if current.is_some() {
                    Err(ConstructError::new(location, ConstructErrorType::VariableImmutable))
                } else {
                    Ok(slot)
                }
            },
            VariableMutability::Mutable => Ok(slot),
        }
    }

    fn modify_variable(&mut self, slot: &VariableSlot, value: ValueType)
        requires
            old(self).wf(),
        ensures
            final(self).wf(),
            final(self).depth() == old(self).depth(),
            final(self).module_methods() == old(self).module_methods(),
            final(self).frames() == old(self).frames(),
            ({
                let f = if slot.is_global { 0 } else { old(self).frames() - 1 };
                let before = old(self).call_frames@[f].scope@;
                let after = final(self).call_frames@[f].scope@;
                &&& after.len() == before.len()
                &&& after.drop_last() == before.drop_last()
                &&& state_of(after.last().variable_state@, slot.index) == Some(MaybeValueType::Known(value))
                &&& forall|j: usize| j != slot.index ==> state_of(after.last().variable_state@, j) == state_of(
                    before.last().variable_state@,
                    j,
                )
            }),
    {
        if slot.is_global {
            let mut frames = Vec::new();
            std::mem::swap(&mut frames, &mut self.call_frames);
            let mut global = frames.remove(0);
            let mut scope = global.scope.pop().unwrap();
            state_set(&mut scope.variable_state, slot.index, MaybeValueType::Known(value));
            global.scope.push(scope);
            frames.insert(0, global);
            self.call_frames = frames;
            proof {
                assert forall|i: int| 0 <= i < self.call_frames@.len() implies (#[trigger] self.call_frames@[i]).scope@.len() > 0 by {
                    if i > 0 {
                        assert(self.call_frames@[i] == old(self).call_frames@[i]);
                    }
                }
            }
        } else {
            let mut frame = self.take_frame();
            let mut scope = frame.scope.pop().unwrap();
            state_set(&mut scope.variable_state, slot.index, MaybeValueType::Known(value));
            frame.scope.push(scope);
            self.put_frame(frame);
        }
    }

    fn push_script_function(&mut self, name: String, index: usize)
        requires
            old(self).wf(),
        ensures
            final(self).wf(),
            final(self).depth() == old(self).depth(),
            final(self).module_methods() == old(self).module_methods(),
            final(self).functions == old(self).functions,
            final(self).call_frames@.drop_last() == old(self).call_frames@.drop_last(),
            final(self).scopes().len() == old(self).scopes().len(),
            final(self).scopes().drop_last() == old(self).scopes().drop_last(),
            final(self).scopes().last().available_functions@ == old(self).scopes().last().available_functions@.push((name, index)),
            final(self).loop_depth() == old(self).loop_depth(),
            final(self).floating() == old(self).floating(),
    {
        let mut frame = self.take_frame();
        let mut scope = frame.scope.pop().unwrap();
        scope.available_functions.push((name, index));
        frame.scope.push(scope);
        self.put_frame(frame);
        assert(self.scopes().drop_last() =~= old(self).scopes().drop_last());
    }

    fn find_function_in(frame: &Frame, name: &String) -> (r: Option<usize>)
        ensures
            r == visible_function(frame.scope@, name@),
    {
        let mut s: usize = frame.scope.len();
        assert(frame.scope@.take(s as int) =~= frame.scope@);
        while s > 0
            invariant
                s <= frame.scope@.len(),
                visible_function(frame.scope@, name@) == visible_function(frame.scope@.take(s as int), name@),
            decreases s,
        {
            let fs = &frame.scope[s - 1].available_functions;
            let mut k: usize = fs.len();
            proof {
                assert(frame.scope@.take(s as int).drop_last() =~= frame.scope@.take(s - 1));
                assert(frame.scope@.take(s as int).last() == frame.scope@[s - 1]);
                assert(fs@.take(k as int) =~= fs@);
            }
            while k > 0
                invariant
                    k <= fs@.len(),
                    *fs == frame.scope@[s - 1].available_functions,
                    0 < s <= frame.scope@.len(),
                    visible_function(frame.scope@, name@) == visible_function(frame.scope@.take(s as int), name@),
                    frame.scope@.take(s as int).drop_last() == frame.scope@.take(s - 1),
                    latest_function(fs@, name@) == latest_function(fs@.take(k as int), name@),
                decreases k,
            {
                proof {
                    assert(fs@.take(k as int).drop_last() =~= fs@.take(k - 1));
                }
                if fs[k - 1].0 == *name {
                    return Some(fs[k - 1].1);
                }
                k = k - 1;
            }
            assert(fs@.take(0) =~= Seq::<(String, usize)>::empty());
            s = s - 1;
        }
        None
    }

    fn resolve_script_function(&self, name: &str) -> (r: Option<usize>)
        requires
            self.wf(),
        ensures
            r matches Some(i) ==> i < self.functions@.len(),
            ({
                let current = self.call_frames@.last();
                let found = match visible_function(current.scope@, name@) {
                    Some(i) => Some(i),
                    None => if current.is_global {
                        None
                    } else {
                        visible_function(self.call_frames@[0].scope@, name@)
                    },
                };
                r == if found matches Some(i) && i < self.functions@.len() { found } else { None }
            }),
            r == self.visible_script_function(name@),
    {
        let key = name.to_owned();
        let n = self.call_frames.len();
        let current = &self.call_frames[n - 1];
        let found = match Self::find_function_in(current, &key) {
            Some(i) => Some(i),
            None => {
                if current.is_global {
                    None
                } else {
                    Self::find_function_in(&self.call_frames[0], &key)
                }
            },
        };
        match found {
            Some(i) => {
                if i < self.functions.len() {
                    Some(i)
                } else {
                    None
                }
            },
            None => None,
        }
    }

    fn push_stack(&mut self, source: Location, value: ValueType)
        requires
            old(self).wf(),
        ensures
            final(self).imports == old(self).imports,
            final(self).wf(),
            final(self).depth() == old(self).depth(),
            final(self).module_methods() == old(self).module_methods(),
            final(self).floating() == old(self).floating().push((source, value)),
            final(self).frames() == old(self).frames(),
            final(self).loop_depth() == old(self).loop_depth(),
            final(self).scopes() == old(self).scopes(),
    {
        let mut frame = self.take_frame();
        frame.floating_stack.push((source, value));
        self.put_frame(frame);
    }

    fn pop_stack(&mut self) -> (r: Option<(Location, ValueType)>)
        requires
            old(self).wf(),
        ensures
            final(self).wf(),
            final(self).depth() == old(self).depth(),
            final(self).module_methods() == old(self).module_methods(),
            old(self).floating().len() == 0 ==> r is None && final(self).floating() == old(self).floating(),
            old(self).floating().len() > 0 ==> r == Some(old(self).floating().last()) && final(self).floating() == old(self).floating().drop_last(),
            final(self).frames() == old(self).frames(),
            final(self).loop_depth() == old(self).loop_depth(),
            final(self).scopes() == old(self).scopes(),
    {
        let mut frame = self.take_frame();
        let r = frame.floating_stack.pop();
        self.put_frame(frame);
        r
    }


    fn statement(&mut self, stmt: &Stmt, is_maybe_mode: bool, type_hint: Option<&ValueType>) -> (r: Result<AStmt, ConstructError>)
        requires
            old(self).wf(),
        ensures
            final(self).wf(),
            final(self).depth() == old(self).depth(),
            final(self).module_methods() == old(self).module_methods(),
            r matches Ok(a) ==> checked_as(*stmt, a),
            (stmt is Break || stmt is Continue) ==> (r is Err <==> old(self).loop_depth() == 0),
            stmt is Break && r is Err ==> (r matches Err(e) && e.location == stmt->Break_0 && e.kind is BreakOutsideOfLoop),
            stmt is Continue && r is Err ==> (r matches Err(e) && e.location == stmt->Continue_0 && e.kind is ContinueOutsideOfLoop),
            stmt matches Stmt::While(c, _) ==> ((**c is Integer || **c is String || **c is Float) ==> (r matches Err(e)
                && e.kind is ExpectedBoolean && e.location == crate::parser::expr_location(**c))),
            stmt matches Stmt::While(c, _) ==> (**c is Integer ==> (r matches Err(e) && (e.kind matches ConstructErrorType::ExpectedBoolean(
                Some(t),
            ) && t == ValueType::Int) && (old(self).loop_depth() < usize::MAX ==> final(self).loop_depth() == old(self).loop_depth()))),
            stmt matches Stmt::While(c, _) ==> (**c is String ==> (r matches Err(e) && (e.kind matches ConstructErrorType::ExpectedBoolean(
                Some(t),
            ) && t == ValueType::String) && (old(self).loop_depth() < usize::MAX ==> final(self).loop_depth() == old(self).loop_depth()))),
            stmt matches Stmt::While(c, _) ==> (**c is Float ==> (r matches Err(e) && (e.kind matches ConstructErrorType::ExpectedBoolean(
                Some(t),
            ) && t == ValueType::Float) && (old(self).loop_depth() < usize::MAX ==> final(self).loop_depth() == old(self).loop_depth()))),
            stmt matches Stmt::Loop(_) ==> (r matches Ok(a) ==> (a matches AStmt::Loop(b) && expr_may_exit(*b))),
            stmt matches Stmt::Loop(b) ==> (**b matches Expr::Block(l, ss) ==> (ss@.len() == 0 ==> (r matches Err(e)
                && e.kind is LoopNeedsExitCondition && e.location == l))),
            stmt matches Stmt::Return(l, None) ==> (r matches Ok(AStmt::Return(l2, None)) && l2 == l),
            stmt matches Stmt::Import(p, _) ==> (import_path_invalid(p.lexeme@) ==> (r matches Err(e) && e.location
                == p.location && e.kind is ImportPathInvalid)),
            stmt matches Stmt::Import(p, _) ==> (!import_path_invalid(p.lexeme@) && old(self).visiting(p.lexeme@) ==> (
            r matches Err(e) && e.location == p.location && e.kind is ImportCircular)),
            stmt matches Stmt::Return(l, Some(e)) ==> (is_literal(**e) ==> (r matches Ok(AStmt::Return(l2, Some(a))) && l2 == l
                && *a is Constant)),
            stmt matches Stmt::Expression(e, _) ==> (is_literal(**e) && type_hint is None ==> (r matches Ok(
                AStmt::Expression(_, a, _),
            ) && a is Constant)),
            stmt matches Stmt::DefineVariable(token, Some(e), _) ==> (is_literal(**e) && type_hint is None ==> (r is Err
                <==> exists|k: int| 0 <= k < old(self).imports@.len() && (#[trigger] old(self).imports@[k]).0@ == token.lexeme@)),
        decreases 2 * (usize::MAX - old(self).depth()), *stmt, 2int,
    {
        if !matches!(stmt, Stmt::Import(_, _)) {
            self.is_import_mode = false;
        }
        match stmt {
            Stmt::DefineVariable(token, initializer, mutability) => {
                let init = match initializer {
                    Some(e) => match self.expression(e, false, type_hint) {
                        Ok(a) => Some(Box::new(a)),
                        Err(err) => return Err(err),
                    },
                    None => None,
                };
                let slot = match self.alloc_variable(token.location, token.lexeme.as_str(), init.as_ref(), *mutability) {
                    Ok(s) => s,
                    Err(e) => return Err(e),
                };
                Ok(AStmt::SetVariable(token.location, slot, token.lexeme.clone(), init))
            },
            Stmt::Expression(e, produces_value) => {
                let a = match self.expression(e, is_maybe_mode, type_hint) {
                    Ok(a) => a,
                    Err(err) => return Err(err),
                };
                let has_value = a.get_value_type().is_some();
                if !*produces_value && has_value {
                    self.pop_stack();
                }
                let location = a.get_location();
                Ok(AStmt::Expression(location, a, *produces_value && has_value))
            },
            Stmt::While(condition, body) => {
                self.increment_loop_depth();
                let condition = match self.expression(condition, false, None) {
                    Ok(a) => a,
                    Err(err) => {
                        return Err(err);
                    },
                };
                let ctype = condition.get_value_type();
                let is_bool = match &ctype {
                    Some(MaybeValueType::Known(ValueType::Bool)) => true,
                    _ => false,
                };
                if !is_bool {
                    self.decrement_loop_depth();
                    return Err(ConstructError::new(
                        condition.get_location(),
                        ConstructErrorType::ExpectedBoolean(match ctype {
                            Some(m) => Some(m.value_type()),
                            None => None,
                        }),
                    ));
                }
                let condition_retrieved = condition.retrieved_variables();
                let body = match self.expression(body, true, None) {
                    Ok(a) => a,
                    Err(err) => return Err(err),
                };
                let body_modified = body.modified_variables();
                let mut i: usize = 0;
                while i < body_modified.len()
                    invariant
                        self.wf(),
                        self.depth() == old(self).depth(),
                        self.module_methods() == old(self).module_methods(),
                        stmt is While,
                        stmt matches Stmt::While(c, _) ==> !(**c is Integer || **c is String || **c is Float),
                    decreases body_modified.len() - i,
                {
                    let modified = &body_modified[i];
                    let mut k: usize = 0;
                    while k < condition_retrieved.len()
                        invariant
                            self.wf(),
                            self.depth() == old(self).depth(),
                            self.module_methods() == old(self).module_methods(),
                            stmt is While,
                            stmt matches Stmt::While(c, _) ==> !(**c is Integer || **c is String || **c is Float),
                        decreases condition_retrieved.len() - k,
                    {
                        if condition_retrieved[k].0 == modified.0 {
                            let original = &condition_retrieved[k].1;
                            if !original.value_type().same(&modified.1.value_type()) {
                                self.decrement_loop_depth();
                                return Err(ConstructError::new(
                                    body.get_location(),
                                    ConstructErrorType::VariableTypeAltered(original.copy(), modified.1.copy()),
                                ));
                            }
                            break;
                        }
                        k = k + 1;
                    }
                    i = i + 1;
                }
                if body.get_value_type().is_some() {
                    self.decrement_loop_depth();
                    return Err(ConstructError::new(body.get_location(), ConstructErrorType::UnexpectedValue));
                }
                let location = condition.get_location();
                self.decrement_loop_depth();
                Ok(AStmt::While(location, Box::new(condition), Box::new(body)))
            },
            Stmt::Loop(body) => {
                self.increment_loop_depth();
                let body = match self.expression(body, false, None) {
                    Ok(a) => a,
                    Err(err) => return Err(err),
                };
                if !body.has_exit_path() {
                    self.decrement_loop_depth();
                    return Err(ConstructError::new(body.get_location(), ConstructErrorType::LoopNeedsExitCondition));
                }
                if body.get_value_type().is_some() {
                    self.decrement_loop_depth();
                    return Err(ConstructError::new(body.get_location(), ConstructErrorType::UnexpectedValue));
                }
                self.decrement_loop_depth();
                Ok(AStmt::Loop(Box::new(body)))
            },
            Stmt::Function(_, _, _, _) => self.function_statement(stmt),
            Stmt::Return(location, e) => {
                let a = match e {
                    Some(e) => match self.expression(e, false, None) {
                        Ok(a) => Some(Box::new(a)),
                        Err(err) => return Err(err),
                    },
                    None => None,
                };
                Ok(AStmt::Return(*location, a))
            },
            Stmt::Break(location) => {
                if self.current_loop_depth() == 0 {
                    return Err(ConstructError::new(*location, ConstructErrorType::BreakOutsideOfLoop));
                }
                Ok(AStmt::Break(*location))
            },
            Stmt::Continue(location) => {
                if self.current_loop_depth() == 0 {
                    return Err(ConstructError::new(*location, ConstructErrorType::ContinueOutsideOfLoop));
                }
                Ok(AStmt::Continue(*location))
            },
            Stmt::Import(_, _) => self.import_statement(stmt),
        }
    }

    fn function_statement(&mut self, stmt: &Stmt) -> (r: Result<AStmt, ConstructError>)
        requires
            old(self).wf(),
        ensures
            final(self).wf(),
            final(self).depth() == old(self).depth(),
            final(self).module_methods() == old(self).module_methods(),
            r matches Ok(a) ==> checked_as(*stmt, a),
        decreases 2 * (usize::MAX - old(self).depth()), *stmt, 1int,
    {
        let (name, params, body, specified_return) = match stmt {
            Stmt::Function(name, params, body, specified_return) => (name, params, body, specified_return),
            _ => return Err(ConstructError::new(stmt.get_location(), ConstructErrorType::UnexpectedValue)),
        };
        let mut param_types: Vec<ValueType> = Vec::new();
        let mut i: usize = 0;
        while i < params.len()
            invariant
                i <= params@.len(),
                param_types@.len() == i,
                self.wf(),
                self.depth() == old(self).depth(),
                self.module_methods() == old(self).module_methods(),
            decreases params.len() - i,
        {
            match self.module.resolve_type(params[i].typing.lexeme.as_str()) {
                Some(t) => param_types.push(t),
                None => {
                    return Err(ConstructError::new(
                        params[i].typing.location,
                        ConstructErrorType::UnknownType(params[i].typing.lexeme.clone()),
                    ));
                },
            }
            i = i + 1;
        }
        let return_type = match specified_return {
            Some(tok) => match self.module.resolve_type(tok.lexeme.as_str()) {
                Some(t) => Some(t),
                None => {
                    return Err(ConstructError::new(tok.location, ConstructErrorType::UnknownType(tok.lexeme.clone())));
                },
            },
            None => None,
        };
        let function_index = match self.resolve_script_function(name.lexeme.as_str()) {
            Some(index) => index,
            None => {
                let index = self.functions.len();
                self.functions.push(ScriptFunctionSignature {
                    name: name.lexeme.clone(),
                    param_types: crate::types::copy_types(&param_types),
                    return_type: copy_optional(&return_type),
                });
                self.push_script_function(name.lexeme.clone(), index);
                index
            },
        };
        self.push_frame();
        let mut param_slots: Vec<(VariableSlot, String, ValueType)> = Vec::new();
        let mut i: usize = 0;
        while i < params.len()
            invariant
                self.wf(),
                self.depth() == old(self).depth(),
                self.module_methods() == old(self).module_methods(),
                i <= params@.len(),
                param_types@.len() == params@.len(),
            decreases params.len() - i,
        {
            let slot = match self.push_variable(
                params[i].name.location,
                params[i].name.lexeme.as_str(),
                params[i].mutability,
                Some(param_types[i].copy()),
            ) {
                Ok(s) => s,
                Err(e) => return Err(e),
            };
            param_slots.push((slot, params[i].name.lexeme.clone(), param_types[i].copy()));
            i = i + 1;
        }
        let a_body = match self.expression(body, true, None) {
            Ok(a) => a,
            Err(e) => return Err(e),
        };
        let declared = match &return_type {
            Some(t) => Some(MaybeValueType::Known(t.copy())),
            None => None,
        };
        let body_type = a_body.get_value_type();
        if !maybe_eq(&declared, &body_type) {
            return Err(ConstructError::new(
                name.location,
                ConstructErrorType::FunctionReturnTypeAndBodyTypeMismatch(
                    copy_optional(&return_type),
                    match body_type {
                        Some(m) => Some(m.value_type()),
                        None => None,
                    },
                ),
            ));
        }
        let body_returns = a_body.get_returns();
        let mut k: usize = 0;
        while k < body_returns.len()
            invariant
                self.wf(),
                self.depth() == old(self).depth(),
                self.module_methods() == old(self).module_methods(),
                *stmt == Stmt::Function(*name, *params, *body, *specified_return),
                same_optional_maybe(declared, body_type),
                same_optional_maybe(body_type, expr_value_type(a_body)),
                same_returns(body_returns@, expr_returns(a_body)),
                declared is Some <==> return_type is Some,
                declared matches Some(d) ==> d is Known && same_type(inner_type(d), return_type->0),
                k <= body_returns@.len(),
                forall|j: int| 0 <= j < k ==> same_optional_type(#[trigger] body_returns@[j].1, return_type),
            decreases body_returns.len() - k,
        {
            if !optional_type_eq(&body_returns[k].1, &return_type) {
                return Err(ConstructError::new(
                    body_returns[k].0,
                    ConstructErrorType::UnexpectedReturnValue(
                        match &return_type {
                            Some(t) => Some(MaybeValueType::Known(t.copy())),
                            None => None,
                        },
                        match &body_returns[k].1 {
                            Some(t) => Some(MaybeValueType::Known(t.copy())),
                            None => None,
                        },
                    ),
                ));
            }
            k = k + 1;
        }
        let local_count = self.call_frames[self.call_frames.len() - 1].variable_slots.len();
        self.pop_frame();
        proof {
            assert forall|j: int| 0 <= j < expr_returns(a_body).len() implies same_optional_type(#[trigger] expr_returns(a_body)[j].1, return_type) by {
                assert(same_optional_type(body_returns@[j].1, return_type));
                assert(same_optional_type(body_returns@[j].1, expr_returns(a_body)[j].1));
            }
        }
        Ok(AStmt::Function(name.location, name.lexeme.clone(), function_index, param_slots, Box::new(a_body), return_type, local_count))
    }

    /// Checks an imported script and compiles it; its functions can then be called through
    /// the alias.
    fn import_statement(&mut self, stmt: &Stmt) -> (r: Result<AStmt, ConstructError>)
        requires
            old(self).wf(),
        ensures
            r matches Ok(a) ==> checked_as(*stmt, a),
            stmt matches Stmt::Import(p, _) ==> (import_path_invalid(p.lexeme@) ==> (r matches Err(e) && e.location
                == p.location && e.kind is ImportPathInvalid)),
            stmt matches Stmt::Import(p, _) ==> (!import_path_invalid(p.lexeme@) && old(self).visiting(p.lexeme@) ==> (
            r matches Err(e) && e.location == p.location && e.kind is ImportCircular)),
            final(self).wf(),
            final(self).depth() == old(self).depth(),
            final(self).module_methods() == old(self).module_methods(),
        decreases 2 * (usize::MAX - old(self).depth()), *stmt, 0int,
    {
        let (path, namespace) = match stmt {
            Stmt::Import(p, n) => (p, n),
            _ => return Err(ConstructError::new(stmt.get_location(), ConstructErrorType::UnexpectedValue)),
        };
        let cs = crate::text::chars_of(path.lexeme.as_str());
        if starts_with(&cs, &['.', '/']) || starts_with(&cs, &['.', '.', '/']) || contains_double_slash(&cs) {
            return Err(ConstructError::new(path.location, ConstructErrorType::ImportPathInvalid(path.copy())));
        }
        if contains_string(&self.visiting_paths, &path.lexeme) || self.import_depth == usize::MAX {
            return Err(ConstructError::new(path.location, ConstructErrorType::ImportCircular(path.copy())));
        }
        let base: Option<&str> = match &self.source_path {
            Some(p) => Some(p.as_str()),
            None => None,
        };
        let resolved_path = match self.import_resolver.resolve_path(base, path.lexeme.as_str()) {
            Ok(p) => p,
            Err(e) => {
                return Err(ConstructError::new(path.location, ConstructErrorType::ImportPathCantBeResolved(e)));
            },
        };
        let script = match self.import_resolver.get_script(resolved_path.as_str()) {
            Ok(s) => s,
            Err(_) => {
                return Err(ConstructError::new(path.location, ConstructErrorType::ImportFileNotFound(resolved_path)));
            },
        };
        self.visiting_paths.push(path.lexeme.clone());
        let mut scanner = Scanner::new(script.clone());
        scanner.scan();
        let tokens: Vec<Token> = match scanner.get() {
            Some(ts) => copy_tokens(ts),
            None => Vec::new(),
        };
        if scanner.errors().len() > 0 {
            let errs = copy_syntax_errors(scanner.errors());
            return Err(ConstructError::new(
                path.location,
                ConstructErrorType::ImportSyntaxError(path.copy(), script, errs, tokens),
            ));
        }
        if !tokens_readable(&tokens) {
            return Err(ConstructError::new(
                path.location,
                ConstructErrorType::ImportParseError(path.copy(), script, Vec::new(), tokens),
            ));
        }
        let mut parser = Parser::new(tokens.as_slice());
        parser.parse();
        if parser.errors().len() > 0 {
            let errs = copy_parse_errors(parser.errors());
            return Err(ConstructError::new(
                path.location,
                ConstructErrorType::ImportParseError(path.copy(), script, errs, tokens),
            ));
        }
        let child_stmts = match parser.take() {
            Some(s) => s,
            None => Vec::new(),
        };
        let mut visiting: Vec<String> = Vec::new();
        std::mem::swap(&mut visiting, &mut self.visiting_paths);
        let mut frames = Vec::new();
        frames.push(Frame::new(true));
        let mut child = Constructor {
            module: self.module,
            call_frames: frames,
            stmts: Vec::new(),
            functions: Vec::new(),
            is_import_mode: true,
            source_path: Some(resolved_path.clone()),
            import_resolver: self.import_resolver,
            imports: Vec::new(),
            visiting_paths: visiting,
            import_depth: self.import_depth + 1,
        };
        let child_result = child.check_all(&child_stmts);
        match child_result {
            Ok(()) => {},
            Err(err) => {
                return Err(ConstructError::new(
                    path.location,
                    ConstructErrorType::ImportConstructError(resolved_path, script, Box::new(err), tokens),
                ));
            },
        }
        let Constructor { stmts: child_checked, imports: child_imports, visiting_paths: back, .. } = child;
        self.visiting_paths = back;
        remove_string(&mut self.visiting_paths, &path.lexeme);
        let construct = FinalizedConstruct { stmts: child_checked, imports: child_imports, visiting_paths: Vec::new() };
        let program = Instructor::new(None).generate(construct, script, Vec::new());
        let import_index = self.imports.len();
        self.imports.push((namespace.lexeme.clone(), program));
        Ok(AStmt::Import(path.location, path.lexeme.clone(), namespace.lexeme.clone(), import_index))
    }

    /// Checks a whole script with this checker (as `generate` does), keeping the results
    /// in it.
    fn check_all(&mut self, stmts: &Vec<Stmt>) -> (r: Result<(), ConstructError>)
        requires
            old(self).wf(),
            old(self).depth() > 0,
        ensures
            final(self).wf(),
            final(self).depth() == old(self).depth(),
            final(self).module_methods() == old(self).module_methods(),
            (exists|k: int| 0 <= k < stmts@.len() && !signature_resolves(old(self).module_of(), #[trigger] stmts@[k])) ==> (r matches Err(e)
                && e.kind is UnknownType),
            stmts@.len() == 0 ==> r is Ok,
        decreases 2 * (usize::MAX - old(self).depth()) + 1, Option::<int>::None, 0int,
    {
        match self.prepare(stmts.as_slice()) {
            Ok(()) => {},
            Err(e) => return Err(e),
        }
        let mut i: usize = 0;
        while i < stmts.len()
            invariant
                self.wf(),
                self.depth() == old(self).depth(),
                self.module_methods() == old(self).module_methods(),
                self.depth() > 0,
                i <= stmts@.len(),
                forall|k: int| 0 <= k < stmts@.len() ==> signature_resolves(old(self).module_of(), #[trigger] stmts@[k]),
            decreases stmts.len() - i,
        {
            match self.statement(&stmts[i], false, None) {
                Ok(a) => self.stmts.push(a),
                Err(e) => return Err(e),
            }
            i = i + 1;
        }
        Ok(())
    }

    fn expression(&mut self, expr: &Expr, is_maybe_mode: bool, type_hint: Option<&ValueType>) -> (r: Result<AExpr, ConstructError>)
        requires
            old(self).wf(),
        ensures
            final(self).wf(),
            final(self).depth() == old(self).depth(),
            final(self).module_methods() == old(self).module_methods(),
            expr matches Expr::Integer(l, v) ==> (r matches Ok(a) ==> (a matches AExpr::Constant(l2, Value::Int(x), ValueType::Int) && l2 == l && x == v)),
            expr matches Expr::Bool(l, v) ==> (r matches Ok(a) ==> (a matches AExpr::Constant(l2, Value::Bool(x), ValueType::Bool) && l2 == l && x == v)),
            expr matches Expr::String(l, v) ==> (r matches Ok(a) ==> (a matches AExpr::Constant(l2, Value::Str(x), ValueType::String) && l2 == l && x@ == v@)),
            expr matches Expr::Float(l, v) ==> (r matches Ok(a) ==> (a matches AExpr::Constant(l2, Value::Float(x), ValueType::Float) && l2 == l && x@ == v@)),
            expr is Integer ==> (r is Ok <==> hint_admits(type_hint, ValueType::Int)),
            expr is Bool ==> (r is Ok <==> hint_admits(type_hint, ValueType::Bool)),
            expr is String ==> (r is Ok <==> hint_admits(type_hint, ValueType::String)),
            expr is Float ==> (r is Ok <==> hint_admits(type_hint, ValueType::Float)),
            (expr is Integer || expr is Bool || expr is String || expr is Float) ==> (r matches Err(e)
                ==> e.kind is TypeHintMismatch && e.location == crate::parser::expr_location(*expr)),
            expr matches Expr::Binary(_, op, _) ==> (r matches Ok(a) ==> (a matches AExpr::Call(_, n, _, ps, k, rt) && n@
                == binary_text(*op) && ps@.len() == 2 && old(self).uses_first_method(n@, 2, k, rt))),
            expr matches Expr::Unary(op, _) ==> (r matches Ok(a) ==> (a matches AExpr::Call(_, n, _, ps, k, rt) && n@
                == unary_text(*op) && ps@.len() == 1 && old(self).uses_first_method(n@, 1, k, rt))),
            expr matches Expr::Index(_, _) ==> (r matches Ok(a) ==> (a matches AExpr::Call(_, n, _, ps, k, rt) && n@
                == "index"@ && ps@.len() == 2 && old(self).uses_first_method(n@, 2, k, rt))),
            expr matches Expr::DotAccess(_, name, args) ==> (r matches Ok(a) ==> (a matches AExpr::Call(_, n, _, ps, k, rt)
                && n@ == name@ && ps@.len() == 1 + (if args is Some { args->0@.len() } else { 0 })
                && old(self).uses_first_method(n@, ps@.len(), k, rt))),
            expr matches Expr::Array(l, v) ==> (v@.len() == 0 ==> (r matches Err(err) && err.location == l
                && err.kind is ArrayTypeUnclear)),
            r matches Ok(a) ==> expr_checked_as(*expr, a),
            is_literal(*expr) ==> final(self).imports == old(self).imports,
            is_literal(*expr) ==> final(self).loop_depth() == old(self).loop_depth(),
            is_literal(*expr) && r is Ok ==> final(self).floating() == old(self).floating().push(
                (crate::parser::expr_location(*expr), literal_type(*expr)),
            ),
            expr matches Expr::Binary(a, op, b) ==> (is_literal(**a) && is_literal(**b) && type_hint is None ==> literal_call_checks(
                old(self).module_methods(),
                binary_text(*op),
                seq![literal_type(**a), literal_type(**b)],
                r,
            )),
            expr matches Expr::Unary(op, a) ==> (is_literal(**a) && type_hint is None ==> literal_call_checks(
                old(self).module_methods(),
                unary_text(*op),
                seq![literal_type(**a)],
                r,
            )),
            expr is If ==> (r matches Ok(a) ==> a is If),
            expr is Block ==> (r matches Ok(a) ==> a is Block),
            expr matches Expr::Block(l, ss) ==> (ss@.len() == 0 && type_hint is None ==> (r matches Ok(AExpr::Block(l2, vs, _))
                && vs@.len() == 0 && l2 == l)),
            expr is Array ==> (r matches Ok(a) ==> a is Block),
            expr is Assign ==> (r matches Ok(a) ==> (a is AssignVariable || a is Call)),
            expr is Variable ==> (r matches Ok(a) ==> (a is RetrieveVariable || a is FunctionReference || a is Constant)),
            expr matches Expr::Variable(l, n) ==> (old(self).variable_state(n@) matches Some(None) ==> (r matches Err(e)
                && e.location == l && e.kind is VariableUninitialized)),
            expr matches Expr::Variable(l, n) ==> (old(self).variable_state(n@) matches Some(Some(MaybeValueType::Maybe(_)))
                ==> (r matches Err(e) && e.location == l && e.kind is VariablePotentiallyUninitialized)),
            expr matches Expr::Variable(l, n) ==> (old(self).variable_state(n@) is None && old(self).visible_script_function(n@)
                is None && old(self).module_global(n@) is None ==> (r matches Err(e) && e.location == l
                && (e.kind matches ConstructErrorType::VariableUndefined(k) && k@ == n@))),
            expr matches Expr::Variable(l, n) ==> (old(self).visible_script_function(n@) matches Some(i) ==> (
                old(self).variable_state(n@) is None && type_hint is None ==> (r matches Ok(AExpr::FunctionReference(l2, j, _, _))
                && l2 == l && j == i))),
        decreases 2 * (usize::MAX - old(self).depth()), *expr, 3int,
    {
        let a = match expr {
            Expr::Float(l, v) => {
                self.push_stack(*l, ValueType::Float);
                AExpr::Constant(*l, Value::Float(v.clone()), ValueType::Float)
            },
            Expr::Integer(l, v) => {
                self.push_stack(*l, ValueType::Int);
                AExpr::Constant(*l, Value::Int(*v), ValueType::Int)
            },
            Expr::Bool(l, v) => {
                self.push_stack(*l, ValueType::Bool);
                AExpr::Constant(*l, Value::Bool(*v), ValueType::Bool)
            },
            Expr::String(l, v) => {
                self.push_stack(*l, ValueType::String);
                AExpr::Constant(*l, Value::Str(v.clone()), ValueType::String)
            },
            Expr::Array(_, _) => match self.array_expr(expr) {
                Ok(a) => a,
                Err(e) => return Err(e),
            },
            Expr::Unary(op, a) => {
                let args: Vec<&Expr> = Vec::new();
                match self.dot_access(expr, a, op.text(), Some(args), false) {
                    Ok(a) => a,
                    Err(e) => return Err(e),
                }
            },
            Expr::Binary(a, op, b) => {
                let mut args: Vec<&Expr> = Vec::new();
                args.push(b);
                match self.dot_access(expr, a, op.text(), Some(args), false) {
                    Ok(a) => a,
                    Err(e) => return Err(e),
                }
            },
            Expr::Variable(l, name) => match self.variable_expr(*l, name) {
                Ok(a) => a,
                Err(e) => return Err(e),
            },
            Expr::Condition(ea, op, eb) => {
                let hint = ValueType::Bool;
                let a = match self.expression(ea, is_maybe_mode, Some(&hint)) {
                    Ok(a) => a,
                    Err(e) => return Err(e),
                };
                let b = match self.expression(eb, is_maybe_mode, Some(&hint)) {
                    Ok(a) => a,
                    Err(e) => return Err(e),
                };
                let stack_b = self.pop_stack();
                let stack_a = self.pop_stack();
                match stack_a {
                    Some((_, t)) => {
                        if !t.same(&ValueType::Bool) {
                            return Err(ConstructError::new(a.get_location(), ConstructErrorType::ExpectedBoolean(Some(t))));
                        }
                    },
                    None => return Err(ConstructError::new(a.get_location(), ConstructErrorType::NoValueProduced)),
                }
                match stack_b {
                    Some((_, t)) => {
                        if !t.same(&ValueType::Bool) {
                            return Err(ConstructError::new(b.get_location(), ConstructErrorType::ExpectedBoolean(Some(t))));
                        }
                    },
                    None => return Err(ConstructError::new(b.get_location(), ConstructErrorType::NoValueProduced)),
                }
                let la = a.get_location();
                self.push_stack(la, ValueType::Bool);
                AExpr::Logical(Box::new(a), *op, Box::new(b))
            },
            Expr::Call(_, _) => match self.call_expr(expr, is_maybe_mode) {
                Ok(a) => a,
                Err(e) => return Err(e),
            },
            Expr::Block(_, _) => match self.block_expr(expr, is_maybe_mode, type_hint) {
                Ok(a) => a,
                Err(e) => return Err(e),
            },
            Expr::Index(receiver, index) => {
                let mut args: Vec<&Expr> = Vec::new();
                args.push(index);
                match self.dot_access(expr, receiver, "index".to_string(), Some(args), false) {
                    Ok(a) => a,
                    Err(e) => return Err(e),
                }
            },
            Expr::DotAccess(receiver, name, args) => {
                let refs: Option<Vec<&Expr>> = match args {
                    Some(v) => {
                        let mut out: Vec<&Expr> = Vec::new();
                        let mut i: usize = 0;
                        while i < v.len()
                            invariant
                                i <= v@.len(),
                                out@.len() == i,
                                *expr is DotAccess,
                                expr->DotAccess_2 == Some(*v),
                                forall|k: int| 0 <= k < i ==> decreases_to!(*expr => *out@[k]),
                            decreases v.len() - i,
                        {
                            proof {
                                assert(decreases_to!(*expr => expr->DotAccess_2));
                                assert(decreases_to!(expr->DotAccess_2 => expr->DotAccess_2->0));
                                assert(decreases_to!(expr->DotAccess_2->0 => expr->DotAccess_2->0@));
                                assert(decreases_to!(expr->DotAccess_2->0@ => expr->DotAccess_2->0@[i as int]));
                            }
                            out.push(&v[i]);
                            i = i + 1;
                        }
                        Some(out)
                    },
                    None => None,
                };
                match self.dot_access(expr, receiver, name.clone(), refs, is_maybe_mode) {
                    Ok(a) => a,
                    Err(e) => return Err(e),
                }
            },
            Expr::QualifiedAccess(l, alias, name) => {
                let mut full_name = alias.clone();
                crate::text::push_str(&mut full_name, "::");
                crate::text::push_str(&mut full_name, name.as_str());
                match self.module.resolve_global(full_name.as_str()) {
                    Some((t, v)) => {
                        self.push_stack(*l, t.copy());
                        AExpr::Constant(*l, v, t)
                    },
                    None => {
                        return Err(ConstructError::new(*l, ConstructErrorType::QualifiedAccessNotCallOrGlobal(full_name)));
                    },
                }
            },
            Expr::Assign(_, _, _) => match self.assign_expr(expr, type_hint) {
                Ok(a) => a,
                Err(e) => return Err(e),
            },
            Expr::If(_, _, _) => match self.if_expr(expr, type_hint) {
                Ok(a) => a,
                Err(e) => return Err(e),
            },
        };
        match type_hint {
            Some(h) => {
                let t = a.get_value_type();
                let matches = match &t {
                    Some(m) => m.value_type().same(h),
                    None => false,
                };
                if !matches {
                    return Err(ConstructError::new(a.get_location(), ConstructErrorType::TypeHintMismatch(Some(h.copy()), t)));
                }
            },
            None => {},
        }
        Ok(a)
    }

    /// Where a call's receiver comes from: a variable by its slot (and whether it may be
    /// changed), or the stack.
    fn call_source(&self, receiver: &Expr) -> (r: (CallSource, bool))
        requires
            self.wf(),
        ensures
            r == (match *receiver {
                Expr::Variable(_, n) => match self.visible_variable(n@) {
                    Some((slot, m)) => (CallSource::Variable(slot), m == VariableMutability::Mutable),
                    None => (CallSource::Stack, true),
                },
                _ => (CallSource::Stack, true),
            }),
    {
        match receiver {
            Expr::Variable(src, var_name) => match self.find_variable(*src, var_name.as_str()) {
                Ok((slot, mutability, _)) => (CallSource::Variable(slot), mutability == VariableMutability::Mutable),
                Err(_) => (CallSource::Stack, true),
            },
            _ => (CallSource::Stack, true),
        }
    }

    /// Reads a name: a variable, else a script function as a value, else a global.
    fn variable_expr(&mut self, location: Location, name: &String) -> (r: Result<AExpr, ConstructError>)
        requires
            old(self).wf(),
        ensures
            final(self).wf(),
            final(self).depth() == old(self).depth(),
            final(self).module_methods() == old(self).module_methods(),
            r matches Ok(a) ==> expr_location(a) == location && (a is RetrieveVariable || a is FunctionReference || a is Constant),
            old(self).visible_variable(name@) is Some && r is Ok ==> ({
                let (vslot, _) = old(self).visible_variable(name@)->0;
                r matches Ok(AExpr::RetrieveVariable(_, slot, n, _)) && slot == vslot && n@ == name@
            }),
            old(self).variable_state(name@) matches Some(None) ==> (r matches Err(e) && e.location == location
                && e.kind is VariableUninitialized),
            old(self).variable_state(name@) matches Some(Some(MaybeValueType::Maybe(_))) ==> (r matches Err(e)
                && e.location == location && e.kind is VariablePotentiallyUninitialized),
            old(self).visible_script_function(name@) matches Some(i) ==> (old(self).variable_state(name@) is None
                ==> (r matches Ok(AExpr::FunctionReference(l, j, _, _)) && l == location && j == i)),
            old(self).module_global(name@) matches Some(g) ==> (old(self).variable_state(name@) is None
                && old(self).visible_script_function(name@) is None ==> (r matches Ok(AExpr::Constant(l, v, t))
                && l == location && same_type(t, g.0) && crate::value::same_value(v, g.1))),
            old(self).variable_state(name@) is None && old(self).visible_script_function(name@) is None
                && old(self).module_global(name@) is None ==> (r matches Err(e) && e.location == location
                && (e.kind matches ConstructErrorType::VariableUndefined(k) && k@ == name@)),
    {
        match self.find_variable(location, name.as_str()) {
            Ok((slot, _, Some(vt))) => match vt {
                MaybeValueType::Known(t) => {
                    self.push_stack(location, t.copy());
                    Ok(AExpr::RetrieveVariable(location, slot, name.clone(), t))
                },
                MaybeValueType::Maybe(v) => Err(ConstructError::new(
                    location,
                    ConstructErrorType::VariablePotentiallyUninitialized(MaybeValueType::Maybe(v)),
                )),
            },
            Ok((_, _, None)) => Err(ConstructError::new(location, ConstructErrorType::VariableUninitialized)),
            Err(err) => {
                match self.resolve_script_function(name.as_str()) {
                    Some(index) => {
                        let params = crate::types::copy_types(&self.functions[index].param_types);
                        let rt = copy_optional(&self.functions[index].return_type);
                        let func_type = ValueType::Function(
                            name.clone(),
                            crate::types::copy_types(&params),
                            match &rt {
                                Some(t) => Some(Box::new(t.copy())),
                                None => None,
                            },
                        );
                        self.push_stack(location, func_type);
                        return Ok(AExpr::FunctionReference(location, index, params, rt));
                    },
                    None => {},
                }
                match self.module.resolve_global(name.as_str()) {
                    Some((t, v)) => {
                        self.push_stack(location, t.copy());
                        Ok(AExpr::Constant(location, v, t))
                    },
                    None => Err(err),
                }
            },
        }
    }

    /// A checked argument's certain type, or the error for an argument without one.
    fn argument_type(a: &AExpr) -> (r: Result<ValueType, ConstructError>)
        ensures
            expr_value_type(*a) is None ==> (r matches Err(e) && e.kind is NoValueProduced && e.location == expr_location(*a)),
            (expr_value_type(*a) matches Some(m) && m is Maybe) ==> (r matches Err(e) && e.kind is VariableUninitialized
                && e.location == expr_location(*a)),
            (expr_value_type(*a) matches Some(m) && m is Known) ==> (r matches Ok(t) && same_type(t, inner_type(expr_value_type(*a)->0))),
    {
        match a.get_value_type() {
            Some(MaybeValueType::Known(t)) => Ok(t),
            Some(MaybeValueType::Maybe(_)) => Err(ConstructError::new(a.get_location(), ConstructErrorType::VariableUninitialized)),
            None => Err(ConstructError::new(a.get_location(), ConstructErrorType::NoValueProduced)),
        }
    }

    /// `receiver.name` or `receiver.name(args)`: checks the receiver and the arguments, then
    /// finds the method.
    fn dot_access(
        &mut self,
        parent: &Expr,
        receiver: &Expr,
        name: String,
        args: Option<Vec<&Expr>>,
        is_maybe_mode: bool,
    ) -> (r: Result<AExpr, ConstructError>)
        requires
            old(self).wf(),
            decreases_to!(*parent => *receiver),
            args matches Some(v) ==> forall|k: int| 0 <= k < v@.len() ==> decreases_to!(*parent => *v@[k]),
        ensures
            final(self).wf(),
            final(self).depth() == old(self).depth(),
            final(self).module_methods() == old(self).module_methods(),
            r matches Ok(a) ==> a is Call,
            r matches Ok(AExpr::Call(_, n, _, ps, k, rt)) ==> n@ == name@ && ps@.len() == 1 + (if args is Some {
                args->0@.len()
            } else {
                0
            }) && old(self).uses_first_method(name@, ps@.len(), k, rt),
            is_literal(*receiver) && (args matches Some(v) && v@.len() == 0) ==> literal_call_checks(
                old(self).module_methods(),
                name@,
                seq![literal_type(*receiver)],
                r,
            ),
            is_literal(*receiver) && (args matches Some(v) && v@.len() == 1 && is_literal(*v@[0])) ==> literal_call_checks(
                old(self).module_methods(),
                name@,
                seq![literal_type(*receiver), literal_type(*args->0@[0])],
                r,
            ),
        decreases 2 * (usize::MAX - old(self).depth()), *parent, 0int,
    {
        let location = receiver.get_location();
        let a_receiver = match self.expression(receiver, is_maybe_mode, None) {
            Ok(a) => a,
            Err(e) => return Err(e),
        };
        let receiver_type = match self.pop_stack() {
            Some((_, t)) => t,
            None => return Err(ConstructError::new(location, ConstructErrorType::NoValueProduced)),
        };
        let (source, source_mutable) = self.call_source(receiver);
        let mut a_params: Vec<Box<AExpr>> = Vec::new();
        a_params.push(Box::new(a_receiver));
        let mut a_param_types: Vec<ValueType> = Vec::new();
        a_param_types.push(receiver_type.copy());
        let has_args = args.is_some();
        let ghost gargs = args;
        match args {
            Some(v) => {
                let mut i: usize = 0;
                while i < v.len()
                    invariant
                        self.wf(),
                        self.depth() == old(self).depth(),
                        self.module_methods() == old(self).module_methods(),
                        i <= v@.len(),
                        forall|k: int| 0 <= k < v@.len() ==> decreases_to!(*parent => *v@[k]),
                        a_params@.len() == i + 1,
                        a_param_types@.len() == i + 1,
                        gargs == Some(v),
                        gargs == args,
                        is_literal(*receiver) ==> a_param_types@[0] == literal_type(*receiver),
                        is_literal(*receiver) && v@.len() == 1 && is_literal(*v@[0]) && i >= 1 ==> a_param_types@[1]
                            == literal_type(*v@[0]),
                    decreases v.len() - i,
                {
                    let a = match self.expression(v[i], is_maybe_mode, None) {
                        Ok(a) => a,
                        Err(e) => return Err(e),
                    };
                    let t = match Self::argument_type(&a) {
                        Ok(t) => t,
                        Err(e) => return Err(e),
                    };
                    self.pop_stack();
                    a_params.push(Box::new(a));
                    a_param_types.push(t);
                    i = i + 1;
                }
            },
            None => {},
        }
        proof {
            if is_literal(*receiver) && (gargs matches Some(v) && v@.len() == 1 && is_literal(*v@[0])) {
                assert(a_param_types@ =~= seq![literal_type(*receiver), literal_type(*gargs->0@[0])]);
            }
            if is_literal(*receiver) && (gargs matches Some(v) && v@.len() == 0) {
                assert(a_param_types@ =~= seq![literal_type(*receiver)]);
            }
        }
        let ghost (recv, ts, nm) = (receiver_type, a_param_types@, name@);
        let r = self.finish_method(location, receiver_type, source, source_mutable, name, a_params, a_param_types, has_args);
        let ghost gr = r;
        proof {
            match gr {
                Ok(AExpr::Call(_, _, _, ps, k, rt)) => {
                    let i = choose|i: int| #[trigger] first_method(old(self).module_methods(), i, recv, nm, ts) && k
                        == old(self).module_methods()[i].1.kind && same_optional_type(rt, old(self).module_methods()[i].1.return_type);
                    assert(first_method(old(self).module_methods(), i, recv, nm, ts));
                },
                _ => {},
            }
        }
        r
    }

    /// Finds the method for a checked receiver and arguments and checks how it is called.
    fn finish_method(
        &mut self,
        location: Location,
        receiver_type: ValueType,
        source: CallSource,
        source_mutable: bool,
        name: String,
        a_params: Vec<Box<AExpr>>,
        a_param_types: Vec<ValueType>,
        has_args: bool,
    ) -> (r: Result<AExpr, ConstructError>)
        requires
            old(self).wf(),
        ensures
            final(self).wf(),
            final(self).depth() == old(self).depth(),
            final(self).module_methods() == old(self).module_methods(),
            r matches Ok(a) ==> a is Call,
            (forall|i: int| 0 <= i < old(self).module_methods().len() ==> !method_matches(
                #[trigger] old(self).module_methods()[i],
                receiver_type,
                name@,
                a_param_types@,
            )) ==> (r matches Err(e) && e.location == location && e.kind is NoMethod),
            forall|i: int| #[trigger] first_method(old(self).module_methods(), i, receiver_type, name@, a_param_types@) ==> ({
                let f = old(self).module_methods()[i].1;
                &&& (f.kind is Free || (f.kind is Property && has_args) || f.kind is Setter || (!has_args && (f.kind is Method
                    || f.kind is MethodMut)) || (f.kind is MethodMut && !source_mutable)) ==> (r matches Err(e)
                    && e.location == location)
                &&& f.kind is Free ==> (r matches Err(e) && e.kind is NoMethod)
                &&& ((f.kind is Property && has_args) || f.kind is Setter) ==> (r matches Err(e)
                    && e.kind is PropertyCalledAsMethod)
                &&& (!has_args && (f.kind is Method || f.kind is MethodMut)) ==> (r matches Err(e)
                    && e.kind is MethodCalledAsProperty)
                &&& (f.kind is MethodMut && has_args && !source_mutable) ==> (r matches Err(e) && e.kind is VariableImmutable)
                &&& ((f.kind is Property && !has_args) || (f.kind is Method && has_args) || (f.kind is MethodMut && has_args
                    && source_mutable)) ==> (r matches Ok(AExpr::Call(l, n, s, ps, k, rt)) && l == location && n@ == name@
                    && s == source && ps == a_params && k == f.kind && same_optional_type(rt, f.return_type))
            }),
            r matches Ok(AExpr::Call(_, n, _, ps, k, rt)) ==> (n@ == name@ && ps == a_params && exists|i: int|
                #[trigger] first_method(old(self).module_methods(), i, receiver_type, name@, a_param_types@) && k
                    == old(self).module_methods()[i].1.kind && same_optional_type(rt, old(self).module_methods()[i].1.return_type)),
    {
        let module = self.module;
        let info = match module.find_method(&receiver_type, name.as_str(), a_param_types.as_slice()) {
            Some(f) => f.copy(),
            None => {
                return Err(ConstructError::new(location, ConstructErrorType::NoMethod(receiver_type, name, a_param_types)));
            },
        };
        match info.kind {
            FunctionKind::Property(_) => {
                if has_args {
                    return Err(ConstructError::new(location, ConstructErrorType::PropertyCalledAsMethod(name)));
                }
            },
            FunctionKind::Method(_) => {
                if !has_args {
                    return Err(ConstructError::new(location, ConstructErrorType::MethodCalledAsProperty(name)));
                }
            },
            FunctionKind::MethodMut(_) => {
                if !has_args {
                    return Err(ConstructError::new(location, ConstructErrorType::MethodCalledAsProperty(name)));
                }
                if !source_mutable {
                    return Err(ConstructError::new(location, ConstructErrorType::VariableImmutable));
                }
            },
            FunctionKind::Free(_) => {
                return Err(ConstructError::new(location, ConstructErrorType::NoMethod(receiver_type, name, a_param_types)));
            },
            FunctionKind::Setter(_) => {
                return Err(ConstructError::new(location, ConstructErrorType::PropertyCalledAsMethod(name)));
            },
        }
        match &info.return_type {
            Some(rt) => self.push_stack(location, rt.copy()),
            None => {},
        }
        Ok(AExpr::Call(location, info.name, source, a_params, info.kind, info.return_type))
    }

    /// Checks a list of call arguments, each with a certain type.
    fn call_args(&mut self, parent: &Expr, params: &Vec<Box<Expr>>, is_maybe_mode: bool) -> (r: Result<(Vec<Box<AExpr>>, Vec<ValueType>), ConstructError>)
        requires
            old(self).wf(),
            forall|k: int| 0 <= k < params@.len() ==> decreases_to!(*parent => *params@[k]),
        ensures
            final(self).wf(),
            final(self).depth() == old(self).depth(),
            final(self).module_methods() == old(self).module_methods(),
            r matches Ok((a, t)) ==> a@.len() == params@.len() && t@.len() == params@.len() && forall|k: int| 0 <= k < params@.len() ==> #[trigger] typed_as(*a@[k], t@[k]),
        decreases 2 * (usize::MAX - old(self).depth()), *parent, 0int,
    {
        let mut a_params: Vec<Box<AExpr>> = Vec::new();
        let mut a_types: Vec<ValueType> = Vec::new();
        let mut i: usize = 0;
        while i < params.len()
            invariant
                self.wf(),
                self.depth() == old(self).depth(),
                self.module_methods() == old(self).module_methods(),
                i <= params@.len(),
                forall|k: int| 0 <= k < params@.len() ==> decreases_to!(*parent => *params@[k]),
                a_params@.len() == i,
                a_types@.len() == i,
                forall|k: int| 0 <= k < i ==> #[trigger] typed_as(*a_params@[k], a_types@[k]),
            decreases params.len() - i,
        {
            let a = match self.expression(&params[i], is_maybe_mode, None) {
                Ok(a) => a,
                Err(e) => return Err(e),
            };
            let t = match Self::argument_type(&a) {
                Ok(t) => t,
                Err(e) => return Err(e),
            };
            let ghost old_params = a_params@;
            let ghost old_types = a_types@;
            proof {
                if expr_value_type(a) is None {
                } else if expr_value_type(a)->0 is Maybe {
                }
                assert(typed_as(a, t));
            }
            a_params.push(Box::new(a));
            a_types.push(t);
            assert(*a_params@[i as int] == a);
            assert forall|k: int| 0 <= k < i + 1 implies #[trigger] typed_as(*a_params@[k], a_types@[k]) by {
                if k < i {
                    assert(a_params@[k] == old_params[k]);
                    assert(a_types@[k] == old_types[k]);
                }
            }
            i = i + 1;
        }
        Ok((a_params, a_types))
    }

    /// Checks arguments against a script function's parameter types.
    fn check_arguments(name: &String, expected: &Vec<ValueType>, args: &Vec<Box<AExpr>>, location: Location) -> (r: Result<(), ConstructError>)
        ensures
            r is Ok <==> args@.len() == expected@.len() && forall|k: int| 0 <= k < args@.len() ==> (#[trigger] expr_value_type(*args@[k]) matches Some(m)
                && same_type(inner_type(m), expected@[k])),
            args@.len() != expected@.len() ==> (r matches Err(e) && e.location == location && e.kind is InvalidCall),
    {
        if args.len() != expected.len() {
            return Err(ConstructError::new(
                location,
                ConstructErrorType::InvalidCall(name.clone(), crate::types::copy_types(expected), value_types_of(args)),
            ));
        }
        let mut i: usize = 0;
        while i < args.len()
            invariant
                i <= args@.len(),
                args@.len() == expected@.len(),
                forall|k: int| 0 <= k < i ==> (#[trigger] expr_value_type(*args@[k]) matches Some(m) && same_type(inner_type(m), expected@[k])),
            decreases args.len() - i,
        {
            let t = match args[i].get_value_type() {
                Some(m) => m.value_type(),
                None => return Err(ConstructError::new(args[i].get_location(), ConstructErrorType::NoValueProduced)),
            };
            if !t.same(&expected[i]) {
                return Err(ConstructError::new(
                    args[i].get_location(),
                    ConstructErrorType::InvalidCall(name.clone(), crate::types::copy_types(expected), value_types_of(args)),
                ));
            }
            i = i + 1;
        }
        Ok(())
    }

    fn pop_n(&mut self, n: usize)
        requires
            old(self).wf(),
        ensures
            final(self).wf(),
            final(self).depth() == old(self).depth(),
            final(self).module_methods() == old(self).module_methods(),
            final(self).floating() == old(self).floating().take(
                if old(self).floating().len() >= n { old(self).floating().len() - n } else { 0 },
            ),
            final(self).frames() == old(self).frames(),
            final(self).loop_depth() == old(self).loop_depth(),
            final(self).scopes() == old(self).scopes(),
    {
        let mut i: usize = 0;
        while i < n
            invariant
                self.wf(),
                self.depth() == old(self).depth(),
                self.module_methods() == old(self).module_methods(),
                i <= n,
                self.floating() == old(self).floating().take(
                    if old(self).floating().len() >= i { old(self).floating().len() - i } else { 0 },
                ),
                self.frames() == old(self).frames(),
                self.loop_depth() == old(self).loop_depth(),
                self.scopes() == old(self).scopes(),
            decreases n - i,
        {
            self.pop_stack();
            i = i + 1;
        }
    }

    /// `name(args)` or `alias::name(args)`.
    fn call_expr(&mut self, e: &Expr, is_maybe_mode: bool) -> (r: Result<AExpr, ConstructError>)
        requires
            old(self).wf(),
        ensures
            final(self).wf(),
            final(self).depth() == old(self).depth(),
            final(self).module_methods() == old(self).module_methods(),
            r matches Ok(a) ==> (a is Call || a is ScriptCall || a is Constant || a is ImportedFunctionCall || a is DynamicCall),
        decreases 2 * (usize::MAX - old(self).depth()), *e, 1int,
    {
        let (calling, params) = match e {
            Expr::Call(calling, params) => (calling, params),
            _ => return Err(ConstructError::new(e.get_location(), ConstructErrorType::UnexpectedCall(e.get_location()))),
        };
        proof {
            assert forall|k: int| 0 <= k < params@.len() implies decreases_to!(*e => *params@[k]) by {
                assert(decreases_to!(*e => e->Call_1));
                assert(decreases_to!(e->Call_1 => e->Call_1@));
                assert(decreases_to!(e->Call_1@ => e->Call_1@[k]));
            }
        }
        let location = calling.get_location();
        match &**calling {
            Expr::Variable(_, name) => {
                let (a_params, a_param_types) = match self.call_args(e, params, is_maybe_mode) {
                    Ok(p) => p,
                    Err(err) => return Err(err),
                };
                let module = self.module;
                match module.lookup_function(name.as_str(), a_param_types.as_slice()) {
                    Err(Some(possibly)) => {
                        return Err(ConstructError::new(
                            location,
                            ConstructErrorType::IncorrectCallSignature(name.clone(), a_param_types, possibly.copy()),
                        ));
                    },
                    Err(None) => {},
                    Ok(info) => {
                        self.pop_n(params.len());
                        match &info.return_type {
                            Some(rt) => self.push_stack(location, rt.copy()),
                            None => {},
                        }
                        return Ok(AExpr::Call(location, info.name.clone(), CallSource::Stack, a_params, info.kind, copy_optional(&info.return_type)));
                    },
                }
                match self.resolve_script_function(name.as_str()) {
                    Some(index) => {
                        let expected = crate::types::copy_types(&self.functions[index].param_types);
                        let rt = copy_optional(&self.functions[index].return_type);
                        match Self::check_arguments(name, &expected, &a_params, location) {
                            Ok(()) => {},
                            Err(err) => return Err(err),
                        }
                        self.pop_n(params.len());
                        match &rt {
                            Some(t) => self.push_stack(location, t.copy()),
                            None => {},
                        }
                        return Ok(AExpr::ScriptCall(location, index, a_params, rt));
                    },
                    None => {},
                }
                match module.resolve_global(name.as_str()) {
                    Some((t, v)) => {
                        self.push_stack(location, t.copy());
                        return Ok(AExpr::Constant(location, v, t));
                    },
                    None => {},
                }
                // A call through a variable that holds a function.
                let a_calling = match self.expression(calling, is_maybe_mode, None) {
                    Ok(a) => a,
                    Err(err) => return Err(err),
                };
                let value_type = match a_calling.get_value_type() {
                    Some(v) => v,
                    None => {
                        return Err(ConstructError::new(
                            location,
                            ConstructErrorType::InvalidCall(name.clone(), a_param_types, value_types_of(&a_params)),
                        ));
                    },
                };
                self.pop_stack();
                match value_type {
                    MaybeValueType::Known(ValueType::Function(fname, param_types, return_type)) => {
                        let rt: Option<ValueType> = match return_type {
                            Some(b) => Some(*b),
                            None => None,
                        };
                        let (args2, _) = match self.call_args(e, params, is_maybe_mode) {
                            Ok(p) => p,
                            Err(err) => return Err(err),
                        };
                        match Self::check_arguments(&fname, &param_types, &args2, location) {
                            Ok(()) => {},
                            Err(err) => return Err(err),
                        }
                        self.pop_n(params.len());
                        match &rt {
                            Some(t) => self.push_stack(location, t.copy()),
                            None => {},
                        }
                        Ok(AExpr::DynamicCall(location, Box::new(a_calling), args2, rt))
                    },
                    MaybeValueType::Known(vt) => Err(ConstructError::new(
                        location,
                        ConstructErrorType::UnknownCall(name.clone(), vt, a_param_types),
                    )),
                    other => Err(ConstructError::new(location, ConstructErrorType::VariablePotentiallyUninitialized(other))),
                }
            },
            Expr::QualifiedAccess(qlocation, namespace, function_name) => {
                let mut program_index: Option<usize> = None;
                let mut i: usize = 0;
                while i < self.imports.len()
                    invariant
                        i <= self.imports@.len(),
                        program_index matches Some(p) ==> p < self.imports@.len(),
                    decreases self.imports.len() - i,
                {
                    if self.imports[i].0 == *namespace {
                        program_index = Some(i);
                        break;
                    }
                    i = i + 1;
                }
                let program_index = match program_index {
                    Some(p) => p,
                    None => {
                        return Err(ConstructError::new(*qlocation, ConstructErrorType::NamespaceNotImported(namespace.clone())));
                    },
                };
                let mut found: Option<(usize, String, Vec<ValueType>, Option<ValueType>)> = None;
                let functions = &self.imports[program_index].1.functions;
                let mut k: usize = 0;
                while k < functions.len()
                    invariant
                        k <= functions@.len(),
                    decreases functions.len() - k,
                {
                    if functions[k].name == *function_name {
                        found = Some((
                            k,
                            functions[k].name.clone(),
                            crate::types::copy_types(&functions[k].params),
                            copy_optional(&functions[k].return_type),
                        ));
                        break;
                    }
                    k = k + 1;
                }
                match found {
                    Some((function_index, fname, fparams, frt)) => {
                        let (args, _) = match self.call_args(e, params, is_maybe_mode) {
                            Ok(p) => p,
                            Err(err) => return Err(err),
                        };
                        match Self::check_arguments(&fname, &fparams, &args, *qlocation) {
                            Ok(()) => {},
                            Err(err) => return Err(err),
                        }
                        self.pop_n(args.len());
                        let result = AExpr::ImportedFunctionCall(*qlocation, program_index, function_index, fparams, copy_optional(&frt), args);
                        match frt {
                            Some(t) => self.push_stack(*qlocation, t),
                            None => {},
                        }
                        Ok(result)
                    },
                    None => {
                        let mut full = namespace.clone();
                        crate::text::push_str(&mut full, "::");
                        crate::text::push_str(&mut full, function_name.as_str());
                        Err(ConstructError::new(*qlocation, ConstructErrorType::ImportedFunctionNotFound(full)))
                    },
                }
            },
            _ => Err(ConstructError::new(location, ConstructErrorType::UnexpectedCall(location))),
        }
    }

    fn block_expr(&mut self, e: &Expr, is_maybe_mode: bool, type_hint: Option<&ValueType>) -> (r: Result<AExpr, ConstructError>)
        requires
            old(self).wf(),
        ensures
            final(self).wf(),
            final(self).depth() == old(self).depth(),
            final(self).module_methods() == old(self).module_methods(),
            r matches Ok(a) ==> a is Block,
            e matches Expr::Block(_, ss) ==> (ss@.len() == 0 ==> (r matches Ok(AExpr::Block(l, vs, _)) && vs@.len() == 0
                && l == e->Block_0)),
        decreases 2 * (usize::MAX - old(self).depth()), *e, 1int,
    {
        let (location, stmts) = match e {
            Expr::Block(l, s) => (*l, s),
            _ => return Err(ConstructError::new(e.get_location(), ConstructErrorType::UnexpectedValue)),
        };
        self.push_scope();
        let mut values: Vec<AStmt> = Vec::new();
        let mut i: usize = 0;
        while i < stmts.len()
            invariant
                self.wf(),
                self.depth() == old(self).depth(),
                self.module_methods() == old(self).module_methods(),
                i <= stmts@.len(),
                *e is Block,
                e->Block_1 == *stmts,
                values@.len() == i,
                stmts@.len() == 0 ==> self.scopes().last().variable_state@.len() == 0,
            decreases stmts.len() - i,
        {
            proof {
                assert(decreases_to!(*e => e->Block_1));
                assert(decreases_to!(e->Block_1 => e->Block_1@));
                assert(decreases_to!(e->Block_1@ => e->Block_1@[i as int]));
            }
            match self.statement(&stmts[i], false, type_hint) {
                Ok(a) => values.push(a),
                Err(err) => return Err(err),
            }
            i = i + 1;
        }
        let scope = self.pop_scope();
        match self.apply_scope_variables(&scope, is_maybe_mode) {
            Ok(()) => {},
            Err(err) => return Err(ConstructError::new(location, err)),
        }
        Ok(AExpr::Block(location, values, scope))
    }

    /// `[a, b, ...]`: checks the elements share a type, then builds the vector with the
    /// module's `Vec<T>` constructor and `push`.
    fn array_expr(&mut self, e: &Expr) -> (r: Result<AExpr, ConstructError>)
        requires
            old(self).wf(),
        ensures
            final(self).wf(),
            final(self).depth() == old(self).depth(),
            final(self).module_methods() == old(self).module_methods(),
            r matches Ok(a) ==> a is Block,
            e matches Expr::Array(l, v) ==> (v@.len() == 0 ==> (r matches Err(err) && err.location == l
                && err.kind is ArrayTypeUnclear)),
        decreases 2 * (usize::MAX - old(self).depth()), *e, 1int,
    {
        let (location, vals) = match e {
            Expr::Array(l, v) => (*l, v),
            _ => return Err(ConstructError::new(e.get_location(), ConstructErrorType::UnexpectedValue)),
        };
        proof {
            assert forall|k: int| 0 <= k < vals@.len() implies decreases_to!(*e => vals@[k]) by {
                assert(decreases_to!(*e => e->Array_1));
                assert(decreases_to!(e->Array_1 => e->Array_1@));
                assert(decreases_to!(e->Array_1@ => e->Array_1@[k]));
            }
        }
        self.push_scope();
        let mut determined: Option<ValueType> = None;
        let mut i: usize = 0;
        while i < vals.len()
            invariant
                *e is Array,
                e->Array_1 == *vals,
                e->Array_0 == location,
                i == 0 ==> determined is None,
                determined is Some ==> i > 0,
                self.wf(),
                self.depth() == old(self).depth(),
                self.module_methods() == old(self).module_methods(),
                i <= vals@.len(),
                forall|k: int| 0 <= k < vals@.len() ==> decreases_to!(*e => vals@[k]),
            decreases vals.len() - i,
        {
            let a = match self.expression(&vals[i], false, determined.as_ref()) {
                Ok(a) => a,
                Err(err) => return Err(err),
            };
            match (a.get_value_type(), &determined) {
                (Some(m), Some(d)) => {
                    if !m.value_type().same(d) {
                        return Err(ConstructError::new(location, ConstructErrorType::ArrayTypeMismatch(d.copy(), m.value_type())));
                    }
                },
                (Some(m), None) => {
                    determined = Some(m.value_type());
                },
                (None, _) => {
                    return Err(ConstructError::new(location, ConstructErrorType::ExpressionDoesntProduce));
                },
            }
            i = i + 1;
        }
        let element_type = match determined {
            Some(t) => t,
            None => return Err(ConstructError::new(location, ConstructErrorType::ArrayTypeUnclear)),
        };
        self.pop_scope();
        self.push_scope();
        let mut astmts: Vec<AStmt> = Vec::new();
        // A variable name no script can write, from the array's place in the source.
        let mut unique_key = "ARRAY_INITIALIZE_".to_string();
        crate::text::push_u64(&mut unique_key, location.line as u64);
        crate::text::push_str(&mut unique_key, "_");
        crate::text::push_u64(&mut unique_key, location.column as u64);
        let mut vec_name = "Vec<".to_string();
        let element_text = element_type.display();
        crate::text::push_str(&mut vec_name, element_text.as_str());
        crate::text::push_str(&mut vec_name, ">");
        let module = self.module;
        let no_types: Vec<ValueType> = Vec::new();
        let init = match module.lookup_function(vec_name.as_str(), no_types.as_slice()) {
            Ok(info) => {
                match &info.return_type {
                    Some(rt) => self.push_stack(location, rt.copy()),
                    None => {},
                }
                AExpr::Call(location, info.name.clone(), CallSource::Stack, Vec::new(), info.kind, copy_optional(&info.return_type))
            },
            Err(Some(possibly)) => {
                return Err(ConstructError::new(
                    location,
                    ConstructErrorType::IncorrectCallSignature(vec_name, no_types, possibly.copy()),
                ));
            },
            Err(None) => {
                match self.variable_expr(location, &vec_name) {
                    Ok(a) => a,
                    Err(err) => return Err(err),
                }
            },
        };
        let init = Box::new(init);
        let slot = match self.alloc_variable(location, unique_key.as_str(), Some(&init), VariableMutability::Mutable) {
            Ok(s) => s,
            Err(err) => return Err(err),
        };
        astmts.push(AStmt::SetVariable(location, slot, unique_key.clone(), Some(init)));
        let mut i: usize = 0;
        while i < vals.len()
            invariant
                *e is Array,
                e->Array_1 == *vals,
                vals@.len() > 0,
                self.wf(),
                self.depth() == old(self).depth(),
                self.module_methods() == old(self).module_methods(),
                i <= vals@.len(),
                forall|k: int| 0 <= k < vals@.len() ==> decreases_to!(*e => vals@[k]),
            decreases vals.len() - i,
        {
            let receiver = match self.variable_expr(location, &unique_key) {
                Ok(a) => a,
                Err(err) => return Err(err),
            };
            let receiver_type = match self.pop_stack() {
                Some((_, t)) => t,
                None => return Err(ConstructError::new(location, ConstructErrorType::NoValueProduced)),
            };
            let (source, source_mutable) = match self.find_variable(location, unique_key.as_str()) {
                Ok((s, m, _)) => (CallSource::Variable(s), m == VariableMutability::Mutable),
                Err(_) => (CallSource::Stack, true),
            };
            let a = match self.expression(&vals[i], false, None) {
                Ok(a) => a,
                Err(err) => return Err(err),
            };
            let t = match Self::argument_type(&a) {
                Ok(t) => t,
                Err(err) => return Err(err),
            };
            self.pop_stack();
            let mut a_params: Vec<Box<AExpr>> = Vec::new();
            a_params.push(Box::new(receiver));
            a_params.push(Box::new(a));
            let mut a_types: Vec<ValueType> = Vec::new();
            a_types.push(receiver_type.copy());
            a_types.push(t);
            let pushed = match self.finish_method(location, receiver_type, source, source_mutable, "push".to_string(), a_params, a_types, true) {
                Ok(a) => a,
                Err(err) => return Err(err),
            };
            if pushed.get_value_type().is_some() {
                self.pop_stack();
            }
            let l = pushed.get_location();
            astmts.push(AStmt::Expression(l, pushed, false));
            i = i + 1;
        }
        let last = match self.variable_expr(location, &unique_key) {
            Ok(a) => a,
            Err(err) => return Err(err),
        };
        let produces = last.get_value_type().is_some();
        astmts.push(AStmt::Expression(location, last, produces));
        let scope = self.pop_scope();
        match self.apply_scope_variables(&scope, false) {
            Ok(()) => {},
            Err(err) => return Err(ConstructError::new(location, err)),
        }
        Ok(AExpr::Block(location, astmts, scope))
    }

    /// The error for a non-setter found where a setter was looked up.
    fn not_a_setter(kind: FunctionKind, field_name: &String, receiver_type: ValueType, value_type: ValueType) -> (e: ConstructErrorType)
        ensures
            kind is Property ==> (e matches ConstructErrorType::MethodCalledAsProperty(n) && n@ == field_name@),
            (kind is Method || kind is MethodMut) ==> (e matches ConstructErrorType::PropertyCalledAsMethod(n) && n@ == field_name@),
            !(kind is Property || kind is Method || kind is MethodMut) ==> (e matches ConstructErrorType::NoMethod(t, n, v)
                && t == receiver_type && n@ == field_name@ && v@ == seq![value_type]),
    {
        match kind {
            FunctionKind::Property(_) => ConstructErrorType::MethodCalledAsProperty(field_name.clone()),
            FunctionKind::Method(_) | FunctionKind::MethodMut(_) => ConstructErrorType::PropertyCalledAsMethod(field_name.clone()),
            _ => {
                let mut v = Vec::new();
                v.push(value_type);
                ConstructErrorType::NoMethod(receiver_type, field_name.clone(), v)
            },
        }
    }

    /// Whether assigning through a receiver is refused because it is a variable that cannot
    /// change.
    fn receiver_immutable(&self, receiver: &Expr) -> (b: bool)
        requires
            self.wf(),
        ensures
            b == (receiver matches Expr::Variable(_, n) && (self.visible_variable(n@) matches Some((_, m))
                && m != VariableMutability::Mutable)),
    {
        match receiver {
            Expr::Variable(l, var_name) => match self.find_variable(*l, var_name.as_str()) {
                Ok((_, mutability, _)) => mutability != VariableMutability::Mutable,
                Err(_) => false,
            },
            _ => false,
        }
    }

    /// `target = value` and `target op= value`, for a variable, an index or a property
    /// with a setter.
    fn assign_expr(&mut self, e: &Expr, type_hint: Option<&ValueType>) -> (r: Result<AExpr, ConstructError>)
        requires
            old(self).wf(),
        ensures
            final(self).wf(),
            final(self).depth() == old(self).depth(),
            final(self).module_methods() == old(self).module_methods(),
            r matches Ok(a) ==> (a is AssignVariable || a is Call),
            r matches Ok(a) ==> expr_checked_as(*e, a),
        decreases 2 * (usize::MAX - old(self).depth()), *e, 2int,
    {
        let (destination, op, value) = match e {
            Expr::Assign(d, o, v) => (d, *o, v),
            _ => return Err(ConstructError::new(e.get_location(), ConstructErrorType::UnexpectedValue)),
        };
        let is_dot_access = matches!(**destination, Expr::DotAccess(_, _, _));
        if !matches!(**destination, Expr::Variable(_, _)) && !matches!(**destination, Expr::Index(_, _)) && !is_dot_access {
            return Err(ConstructError::new(destination.get_location(), ConstructErrorType::InvalidAssignTarget));
        }
        if op == AssignmentOp::Equal {
            match &**destination {
                Expr::Index(target, index) => {
                    proof {
                        assert(decreases_to!(*e => e->Assign_0));
                        assert(decreases_to!(e->Assign_0 => e->Assign_0->Index_0));
                        assert(decreases_to!(e->Assign_0 => e->Assign_0->Index_1));
                        assert(decreases_to!(*e => e->Assign_2));
                    }
                    let mut args: Vec<&Expr> = Vec::new();
                    args.push(index);
                    args.push(value);
                    self.dot_access(e, target, "set".to_string(), Some(args), false)
                },
                Expr::DotAccess(receiver, field_name, _) => {
                    proof {
                        assert(decreases_to!(*e => e->Assign_0));
                        assert(decreases_to!(e->Assign_0 => e->Assign_0->DotAccess_0));
                    }
                    let value_expr = match self.expression(value, false, None) {
                        Ok(a) => a,
                        Err(err) => return Err(err),
                    };
                    let value_type = match value_expr.get_value_type() {
                        Some(MaybeValueType::Known(t)) => t,
                        _ => return Err(ConstructError::new(value_expr.get_location(), ConstructErrorType::NoValueProduced)),
                    };
                    let receiver_expr = match self.expression(receiver, false, None) {
                        Ok(a) => a,
                        Err(err) => return Err(err),
                    };
                    let rloc = receiver_expr.get_location();
                    let receiver_type = match self.pop_stack() {
                        Some((_, t)) => t,
                        None => return Err(ConstructError::new(rloc, ConstructErrorType::NoValueProduced)),
                    };
                    let mut setter_params: Vec<ValueType> = Vec::new();
                    setter_params.push(receiver_type.copy());
                    setter_params.push(value_type.copy());
                    let module = self.module;
                    let kind = match module.find_method(&receiver_type, field_name.as_str(), setter_params.as_slice()) {
                        Some(info) => info.kind,
                        None => {
                            let mut v = Vec::new();
                            v.push(value_type);
                            return Err(ConstructError::new(rloc, ConstructErrorType::NoMethod(receiver_type, field_name.clone(), v)));
                        },
                    };
                    if !matches!(kind, FunctionKind::Setter(_)) {
                        return Err(ConstructError::new(rloc, Self::not_a_setter(kind, field_name, receiver_type, value_type)));
                    }
                    if self.receiver_immutable(receiver) {
                        return Err(ConstructError::new(rloc, ConstructErrorType::VariableImmutable));
                    }
                    let (source, _) = self.call_source(receiver);
                    self.pop_stack();
                    let mut args: Vec<Box<AExpr>> = Vec::new();
                    args.push(Box::new(receiver_expr));
                    args.push(Box::new(value_expr));
                    Ok(AExpr::Call(rloc, field_name.clone(), source, args, kind, None))
                },
                Expr::Variable(location, name) => {
                    let value_expr = match self.expression(value, false, type_hint) {
                        Ok(a) => a,
                        Err(err) => return Err(err),
                    };
                    let stmt_type = match value_expr.get_value_type() {
                        Some(MaybeValueType::Known(t)) => t,
                        _ => return Err(ConstructError::new(value_expr.get_location(), ConstructErrorType::AssignerDoesntProduce)),
                    };
                    let slot = match self.assign_target(*location, name.as_str()) {
                        Ok(slot) => slot,
                        Err(err) => return Err(err),
                    };
                    self.modify_variable(&slot, stmt_type);
                    Ok(AExpr::AssignVariable(*location, slot, name.clone(), Box::new(value_expr)))
                },
                _ => Err(ConstructError::new(destination.get_location(), ConstructErrorType::InvalidAssignTarget)),
            }
        } else {
            match &**destination {
                Expr::Index(target, index) => {
                    proof {
                        assert(decreases_to!(*e => e->Assign_0));
                        assert(decreases_to!(e->Assign_0 => e->Assign_0->Index_0));
                        assert(decreases_to!(e->Assign_0 => e->Assign_0->Index_1));
                        assert(decreases_to!(*e => e->Assign_2));
                    }
                    self.index_compound(e, target, index, value, op)
                },
                Expr::DotAccess(receiver, field_name, _) => {
                    proof {
                        assert(decreases_to!(*e => e->Assign_0));
                        assert(decreases_to!(e->Assign_0 => e->Assign_0->DotAccess_0));
                        assert(decreases_to!(*e => e->Assign_2));
                    }
                    let mut op_args: Vec<&Expr> = Vec::new();
                    op_args.push(value);
                    let compute_expr = match self.dot_access(e, destination, op.base_op().to_string(), Some(op_args), false) {
                        Ok(a) => a,
                        Err(err) => return Err(err),
                    };
                    let cloc = compute_expr.get_location();
                    let compute_type = match self.pop_stack() {
                        Some((_, t)) => t,
                        None => return Err(ConstructError::new(cloc, ConstructErrorType::NoValueProduced)),
                    };
                    let receiver_expr = match self.expression(receiver, false, None) {
                        Ok(a) => a,
                        Err(err) => return Err(err),
                    };
                    let rloc = receiver_expr.get_location();
                    let receiver_type = match self.pop_stack() {
                        Some((_, t)) => t,
                        None => return Err(ConstructError::new(rloc, ConstructErrorType::NoValueProduced)),
                    };
                    let mut setter_params: Vec<ValueType> = Vec::new();
                    setter_params.push(receiver_type.copy());
                    setter_params.push(compute_type.copy());
                    let module = self.module;
                    let kind = match module.find_method(&receiver_type, field_name.as_str(), setter_params.as_slice()) {
                        Some(info) => info.kind,
                        None => {
                            let mut v = Vec::new();
                            v.push(compute_type);
                            return Err(ConstructError::new(rloc, ConstructErrorType::NoMethod(receiver_type, field_name.clone(), v)));
                        },
                    };
                    if !matches!(kind, FunctionKind::Setter(_)) {
                        return Err(ConstructError::new(rloc, Self::not_a_setter(kind, field_name, receiver_type, compute_type)));
                    }
                    if self.receiver_immutable(receiver) {
                        return Err(ConstructError::new(rloc, ConstructErrorType::VariableImmutable));
                    }
                    let (source, _) = self.call_source(receiver);
                    let mut args: Vec<Box<AExpr>> = Vec::new();
                    args.push(Box::new(receiver_expr));
                    args.push(Box::new(compute_expr));
                    Ok(AExpr::Call(rloc, field_name.clone(), source, args, kind, None))
                },
                _ => {
                    proof {
                        assert(decreases_to!(*e => e->Assign_0));
                        assert(decreases_to!(*e => e->Assign_2));
                    }
                    let mut args: Vec<&Expr> = Vec::new();
                    args.push(value);
                    self.dot_access(e, destination, op.text(), Some(args), false)
                },
            }
        }
    }

    /// `target[index] op= value`: reads `target.index(index)`, applies the operator, and
    /// writes the result back with `target.set(index, result)`.
    fn index_compound(&mut self, e: &Expr, target: &Expr, index: &Expr, value: &Expr, op: AssignmentOp) -> (r: Result<AExpr, ConstructError>)
        requires
            old(self).wf(),
            decreases_to!(*e => *target),
            decreases_to!(*e => *index),
            decreases_to!(*e => *value),
        ensures
            final(self).wf(),
            final(self).depth() == old(self).depth(),
            final(self).module_methods() == old(self).module_methods(),
            r matches Ok(a) ==> a is Call,
        decreases 2 * (usize::MAX - old(self).depth()), *e, 1int,
    {
        let location = target.get_location();
        let a_receiver = match self.expression(target, false, None) {
            Ok(a) => a,
            Err(err) => return Err(err),
        };
        let receiver_type = match self.pop_stack() {
            Some((_, t)) => t,
            None => return Err(ConstructError::new(location, ConstructErrorType::NoValueProduced)),
        };
        let (source, source_mutable) = self.call_source(target);
        let mut a_params: Vec<Box<AExpr>> = Vec::new();
        a_params.push(Box::new(a_receiver));
        let mut a_types: Vec<ValueType> = Vec::new();
        a_types.push(receiver_type.copy());
        let a_index = match self.expression(index, false, None) {
            Ok(a) => a,
            Err(err) => return Err(err),
        };
        let index_type = match Self::argument_type(&a_index) {
            Ok(t) => t,
            Err(err) => return Err(err),
        };
        self.pop_stack();
        a_params.push(Box::new(a_index));
        a_types.push(index_type);
        // The value written back: target.index(index) op value.
        let mut index_args: Vec<&Expr> = Vec::new();
        index_args.push(index);
        let inner = match self.dot_access(e, target, "index".to_string(), Some(index_args), false) {
            Ok(a) => a,
            Err(err) => return Err(err),
        };
        let inner_type = match self.pop_stack() {
            Some((_, t)) => t,
            None => return Err(ConstructError::new(location, ConstructErrorType::NoValueProduced)),
        };
        let mut op_params: Vec<Box<AExpr>> = Vec::new();
        op_params.push(Box::new(inner));
        let mut op_types: Vec<ValueType> = Vec::new();
        op_types.push(inner_type.copy());
        let a_value = match self.expression(value, false, None) {
            Ok(a) => a,
            Err(err) => return Err(err),
        };
        let value_type = match Self::argument_type(&a_value) {
            Ok(t) => t,
            Err(err) => return Err(err),
        };
        self.pop_stack();
        op_params.push(Box::new(a_value));
        op_types.push(value_type);
        let computed = match self.finish_method(location, inner_type, CallSource::Stack, true, op.base_op().to_string(), op_params, op_types, true) {
            Ok(a) => a,
            Err(err) => return Err(err),
        };
        let computed_type = match Self::argument_type(&computed) {
            Ok(t) => t,
            Err(err) => return Err(err),
        };
        self.pop_stack();
        a_params.push(Box::new(computed));
        a_types.push(computed_type);
        self.finish_method(location, receiver_type, source, source_mutable, "set".to_string(), a_params, a_types, true)
    }

    /// Combines the types two branches of an `if` give variables.
    fn merge_branches(
        body_state: &Vec<(usize, MaybeValueType)>,
        other_state: &Vec<(usize, MaybeValueType)>,
        body_exits: bool,
        other_exits: bool,
        location: Location,
    ) -> (r: Result<Vec<(usize, MaybeValueType)>, ConstructError>) {
        if other_exits && !body_exits {
            let mut merged = copy_state(body_state);
            let mut i: usize = 0;
            while i < other_state.len()
                invariant
                    i <= other_state@.len(),
                decreases other_state.len() - i,
            {
                let index = other_state[i].0;
                if state_get(&merged, index).is_none() {
                    state_set(&mut merged, index, other_state[i].1.to_maybe());
                }
                i = i + 1;
            }
            Ok(merged)
        } else if body_exits && !other_exits {
            let mut merged = copy_state(other_state);
            let mut i: usize = 0;
            while i < body_state.len()
                invariant
                    i <= body_state@.len(),
                decreases body_state.len() - i,
            {
                let index = body_state[i].0;
                if state_get(&merged, index).is_none() {
                    state_set(&mut merged, index, body_state[i].1.to_maybe());
                }
                i = i + 1;
            }
            Ok(merged)
        } else {
            let mut merged = copy_state(body_state);
            let mut i: usize = 0;
            while i < other_state.len()
                invariant
                    i <= other_state@.len(),
                decreases other_state.len() - i,
            {
                let index = other_state[i].0;
                let other_type = &other_state[i].1;
                match state_get(&merged, index) {
                    Some(body_type) => {
                        let both_known = matches!(body_type, MaybeValueType::Known(_)) && matches!(other_type, MaybeValueType::Known(_));
                        if !body_type.value_type().same(&other_type.value_type()) {
                            return Err(ConstructError::new(
                                location,
                                ConstructErrorType::VariableTypeMaybeAltered(body_type.value_type(), other_type.value_type()),
                            ));
                        }
                        if !both_known {
                            state_set(&mut merged, index, MaybeValueType::Maybe(body_type.value_type()));
                        }
                    },
                    None => {
                        state_set(&mut merged, index, other_type.to_maybe());
                    },
                }
                i = i + 1;
            }
            Ok(merged)
        }
    }

    /// `if condition { body } else { otherwise }`.
    fn if_expr(&mut self, e: &Expr, type_hint: Option<&ValueType>) -> (r: Result<AExpr, ConstructError>)
        requires
            old(self).wf(),
        ensures
            final(self).wf(),
            final(self).depth() == old(self).depth(),
            final(self).module_methods() == old(self).module_methods(),
            r matches Ok(a) ==> a is If,
        decreases 2 * (usize::MAX - old(self).depth()), *e, 1int,
    {
        let (condition_expr, body_expr, otherwise_expr) = match e {
            Expr::If(c, b, o) => (c, b, o),
            _ => return Err(ConstructError::new(e.get_location(), ConstructErrorType::UnexpectedValue)),
        };
        let condition = match self.expression(condition_expr, false, None) {
            Ok(a) => a,
            Err(err) => return Err(err),
        };
        let ctype = condition.get_value_type();
        let is_bool = match &ctype {
            Some(MaybeValueType::Known(ValueType::Bool)) => true,
            _ => false,
        };
        let cloc = condition.get_location();
        if !is_bool {
            return Err(ConstructError::new(
                cloc,
                ConstructErrorType::ExpectedBoolean(match ctype {
                    Some(m) => Some(m.value_type()),
                    None => None,
                }),
            ));
        }
        let pre_if_else_slot_count = self.call_frames[self.call_frames.len() - 1].variable_slots.len();
        self.push_scope();
        let body = match self.expression(body_expr, false, type_hint) {
            Ok(a) => a,
            Err(err) => return Err(err),
        };
        let body_scope = self.pop_scope();
        let otherwise = match otherwise_expr {
            Some(o) => {
                proof {
                    assert(decreases_to!(*e => e->If_2));
                    assert(decreases_to!(e->If_2 => e->If_2->0));
                }
                self.push_scope();
                let other = match self.expression(o, false, type_hint) {
                    Ok(a) => a,
                    Err(err) => return Err(err),
                };
                let other_scope = self.pop_scope();
                let body_exit = body.is_unconditional_exit();
                let other_exit = other.is_unconditional_exit();
                let body_has_exit = body.has_exit_path() && !body_exit;
                let other_has_exit = other.has_exit_path() && !other_exit;
                let body_type = body.get_value_type();
                let other_type = other.get_value_type();
                let types_match = maybe_eq(&body_type, &other_type) || body_exit || other_exit || (body_has_exit
                    && other_type.is_some()) || (other_has_exit && body_type.is_some());
                if !types_match {
                    return Err(ConstructError::new(
                        body.get_location(),
                        ConstructErrorType::IfElseTypeMismatched(body_type, other_type),
                    ));
                }
                let merged = match Self::merge_branches(
                    &body_scope.variable_state,
                    &other_scope.variable_state,
                    body_exit,
                    other_exit,
                    cloc,
                ) {
                    Ok(m) => m,
                    Err(err) => return Err(err),
                };
                // Apply to the enclosing scope, leaving out variables declared in the branches.
                let mut frame = self.take_frame();
                let mut target = frame.scope.pop().unwrap();
                let mut i: usize = 0;
                let mut failure: Option<ConstructError> = None;
                while i < merged.len()
                    invariant
                        i <= merged@.len(),
                    decreases merged.len() - i,
                {
                    let index = merged[i].0;
                    let value_type = &merged[i].1;
                    if index < pre_if_else_slot_count {
                        match state_get(&target.variable_state, index) {
                            Some(existing) => {
                                if !existing.value_type().same(&value_type.value_type()) {
                                    failure = Some(ConstructError::new(
                                        cloc,
                                        ConstructErrorType::VariableTypeMaybeAltered(existing.value_type(), value_type.value_type()),
                                    ));
                                    break;
                                }
                                if matches!(existing, MaybeValueType::Maybe(_)) {
                                    state_set(&mut target.variable_state, index, value_type.copy());
                                }
                            },
                            None => {
                                // A slot that an enclosing scope already holds as set stays set.
                                let stays_set = matches!(value_type, MaybeValueType::Maybe(_)) && known_outside(
                                    &frame.scope,
                                    index,
                                    &value_type.value_type(),
                                );
                                if !stays_set {
                                    state_set(&mut target.variable_state, index, value_type.copy());
                                }
                            },
                        }
                    }
                    i = i + 1;
                }
                frame.scope.push(target);
                self.put_frame(frame);
                match failure {
                    Some(err) => return Err(err),
                    None => {},
                }
                Some(Box::new(other))
            },
            None => {
                if body.get_value_type().is_some() {
                    return Err(ConstructError::new(body.get_location(), ConstructErrorType::IfValueWithoutElse));
                }
                match self.apply_scope_variables(&body_scope, true) {
                    Ok(()) => {},
                    Err(err) => return Err(ConstructError::new(cloc, err)),
                }
                None
            },
        };
        Ok(AExpr::If(Box::new(condition), Box::new(body), otherwise))
    }

}


fn copy_tokens(ts: &[Token]) -> (r: Vec<Token>)
    ensures
        r@ == ts@,
{
    let mut r: Vec<Token> = Vec::new();
    let mut i: usize = 0;
    while i < ts.len()
        invariant
            i <= ts@.len(),
            r@ == ts@.take(i as int),
        decreases ts.len() - i,
    {
        r.push(ts[i].copy());
        i = i + 1;
        proof {
            assert(r@ =~= ts@.take(i as int));
        }
    }
    assert(r@ =~= ts@);
    r
}

fn copy_syntax_errors(es: &[SyntaxError]) -> (r: Vec<SyntaxError>)
    ensures
        r@.len() == es@.len(),
        forall|k: int| 0 <= k < es@.len() ==> (#[trigger] r@[k]).location == es@[k].location,
{
    let mut r: Vec<SyntaxError> = Vec::new();
    let mut i: usize = 0;
    while i < es.len()
        invariant
            i <= es@.len(),
            r@.len() == i,
            forall|k: int| 0 <= k < i ==> (#[trigger] r@[k]).location == es@[k].location,
        decreases es.len() - i,
    {
        r.push(SyntaxError::new(es[i].location, es[i].error.clone()));
        i = i + 1;
    }
    r
}

fn copy_parse_errors(es: &[ParseError]) -> (r: Vec<ParseError>)
    ensures
        r@.len() == es@.len(),
        forall|k: int| 0 <= k < es@.len() ==> (#[trigger] r@[k]).token == es@[k].token,
{
    let mut r: Vec<ParseError> = Vec::new();
    let mut i: usize = 0;
    while i < es.len()
        invariant
            i <= es@.len(),
            r@.len() == i,
            forall|k: int| 0 <= k < i ==> (#[trigger] r@[k]).token == es@[k].token,
        decreases es.len() - i,
    {
        r.push(ParseError::new(es[i].token.copy(), es[i].error.clone()));
        i = i + 1;
    }
    r
}

/// Whether every integer token of a list fits `i64`, as the parser needs.
fn tokens_readable(ts: &Vec<Token>) -> (b: bool)
    ensures
        b == crate::parser::integers_readable(ts@),
{
    let mut i: usize = 0;
    while i < ts.len()
        invariant
            i <= ts@.len(),
            forall|k: int|
                0 <= k < i && (#[trigger] ts@[k]).token_type == crate::scanner::TokenType::Integer
                    ==> crate::parser::integer_lexeme_ok(ts@[k].lexeme@),
        decreases ts.len() - i,
    {
        if ts[i].token_type == crate::scanner::TokenType::Integer {
            if !crate::parser::integer_fits(ts[i].lexeme.as_str()) {
                return false;
            }
        }
        i = i + 1;
    }
    true
}
} // verus!
