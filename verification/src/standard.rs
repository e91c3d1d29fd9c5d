use vstd::prelude::*;

use crate::module::{FunctionInfo, FunctionKind, Module, ModuleError, RangeIterator, define_type_wrappers, method_matches, same_types, function_is};
use crate::natives::LIBRARY_NATIVES;
use crate::types::{ValueType, custom_type_of, same_type};
use crate::value::Value;

verus! {

// Natives of the standard module. Those on floats, and `print`, are left to the host that
// runs the library's natives: the library holds a float only as the text of its value.
pub const INT_PLUS: usize = LIBRARY_NATIVES + 100;
pub const INT_MINUS: usize = LIBRARY_NATIVES + 101;
pub const INT_MULTIPLY: usize = LIBRARY_NATIVES + 102;
pub const INT_DIVIDE: usize = LIBRARY_NATIVES + 103;
pub const INT_REMAINDER: usize = LIBRARY_NATIVES + 104;
pub const INT_PLUS_EQUAL: usize = LIBRARY_NATIVES + 105;
pub const INT_MINUS_EQUAL: usize = LIBRARY_NATIVES + 106;
pub const INT_MULTIPLY_EQUAL: usize = LIBRARY_NATIVES + 107;
pub const INT_DIVIDE_EQUAL: usize = LIBRARY_NATIVES + 108;
pub const INT_REMAINDER_EQUAL: usize = LIBRARY_NATIVES + 109;
pub const INT_GREATER: usize = LIBRARY_NATIVES + 110;
pub const INT_GREATER_EQUAL: usize = LIBRARY_NATIVES + 111;
pub const INT_LESSER: usize = LIBRARY_NATIVES + 112;
pub const INT_LESSER_EQUAL: usize = LIBRARY_NATIVES + 113;
pub const INT_EQUAL: usize = LIBRARY_NATIVES + 114;
pub const INT_NOT_EQUAL: usize = LIBRARY_NATIVES + 115;
pub const INT_NEGATE: usize = LIBRARY_NATIVES + 116;
pub const INT_ABS: usize = LIBRARY_NATIVES + 117;
pub const INT_POW: usize = LIBRARY_NATIVES + 118;
pub const INT_MIN: usize = LIBRARY_NATIVES + 119;
pub const INT_MAX: usize = LIBRARY_NATIVES + 120;
pub const INT_RANGE_INCLUSIVE: usize = LIBRARY_NATIVES + 121;
pub const INT_RANGE_EXCLUSIVE: usize = LIBRARY_NATIVES + 122;
pub const INT_RANGE_INTO_ITER: usize = LIBRARY_NATIVES + 123;
pub const INT_TO_STRING: usize = LIBRARY_NATIVES + 124;
pub const RANGE_ITER_NEXT: usize = LIBRARY_NATIVES + 125;
pub const INT_BIT_AND: usize = LIBRARY_NATIVES + 126;
pub const INT_BIT_OR: usize = LIBRARY_NATIVES + 127;
pub const INT_BIT_XOR: usize = LIBRARY_NATIVES + 128;
pub const INT_SHIFT_LEFT: usize = LIBRARY_NATIVES + 129;
pub const INT_SHIFT_RIGHT: usize = LIBRARY_NATIVES + 130;
pub const INT_BIT_AND_EQUAL: usize = LIBRARY_NATIVES + 131;
pub const INT_BIT_OR_EQUAL: usize = LIBRARY_NATIVES + 132;
pub const INT_BIT_XOR_EQUAL: usize = LIBRARY_NATIVES + 133;

pub const BOOL_EQUAL: usize = LIBRARY_NATIVES + 135;
pub const BOOL_NOT_EQUAL: usize = LIBRARY_NATIVES + 136;
pub const BOOL_INVERT: usize = LIBRARY_NATIVES + 137;
pub const BOOL_TO_STRING: usize = LIBRARY_NATIVES + 138;

pub const STRING_PLUS: usize = LIBRARY_NATIVES + 140;
pub const STRING_PLUS_EQUAL: usize = LIBRARY_NATIVES + 141;
pub const STRING_PLUS_INT: usize = LIBRARY_NATIVES + 142;
pub const STRING_PLUS_FLOAT: usize = LIBRARY_NATIVES + 143;
pub const STRING_PLUS_BOOL: usize = LIBRARY_NATIVES + 144;
pub const STRING_EQUAL: usize = LIBRARY_NATIVES + 145;
pub const STRING_NOT_EQUAL: usize = LIBRARY_NATIVES + 146;
pub const STRING_LEN: usize = LIBRARY_NATIVES + 147;
pub const STRING_IS_EMPTY: usize = LIBRARY_NATIVES + 148;
pub const STRING_CONTAINS: usize = LIBRARY_NATIVES + 149;
pub const STRING_REPEAT: usize = LIBRARY_NATIVES + 150;
pub const STRING_SUBSTRING: usize = LIBRARY_NATIVES + 151;
pub const FLOAT_TO_STRING: usize = LIBRARY_NATIVES + 152;
pub const TODO: usize = LIBRARY_NATIVES + 153;
pub const FAIL: usize = LIBRARY_NATIVES + 154;

// Left to the host.
pub const PRINT: usize = LIBRARY_NATIVES + 160;
pub const INT_TO_FLOAT: usize = LIBRARY_NATIVES + 161;
pub const FLOAT_PLUS: usize = LIBRARY_NATIVES + 170;
pub const FLOAT_MINUS: usize = LIBRARY_NATIVES + 171;
pub const FLOAT_MULTIPLY: usize = LIBRARY_NATIVES + 172;
pub const FLOAT_DIVIDE: usize = LIBRARY_NATIVES + 173;
pub const FLOAT_REMAINDER: usize = LIBRARY_NATIVES + 174;
pub const FLOAT_PLUS_EQUAL: usize = LIBRARY_NATIVES + 175;
pub const FLOAT_MINUS_EQUAL: usize = LIBRARY_NATIVES + 176;
pub const FLOAT_MULTIPLY_EQUAL: usize = LIBRARY_NATIVES + 177;
pub const FLOAT_DIVIDE_EQUAL: usize = LIBRARY_NATIVES + 178;
pub const FLOAT_REMAINDER_EQUAL: usize = LIBRARY_NATIVES + 179;
pub const FLOAT_GREATER: usize = LIBRARY_NATIVES + 180;
pub const FLOAT_GREATER_EQUAL: usize = LIBRARY_NATIVES + 181;
pub const FLOAT_LESSER: usize = LIBRARY_NATIVES + 182;
pub const FLOAT_LESSER_EQUAL: usize = LIBRARY_NATIVES + 183;
pub const FLOAT_EQUAL: usize = LIBRARY_NATIVES + 184;
pub const FLOAT_NOT_EQUAL: usize = LIBRARY_NATIVES + 185;
pub const FLOAT_NEGATE: usize = LIBRARY_NATIVES + 186;
pub const FLOAT_ABS: usize = LIBRARY_NATIVES + 187;
pub const FLOAT_POW: usize = LIBRARY_NATIVES + 188;
pub const FLOAT_MIN: usize = LIBRARY_NATIVES + 189;
pub const FLOAT_MAX: usize = LIBRARY_NATIVES + 190;
pub const FLOAT_TO_INT: usize = LIBRARY_NATIVES + 191;
pub const FLOAT_FLOOR: usize = LIBRARY_NATIVES + 192;
pub const FLOAT_CEILING: usize = LIBRARY_NATIVES + 193;
pub const FLOAT_LERP: usize = LIBRARY_NATIVES + 194;
pub const FLOAT_SIN: usize = LIBRARY_NATIVES + 195;
pub const FLOAT_COS: usize = LIBRARY_NATIVES + 196;
pub const FLOAT_TAN: usize = LIBRARY_NATIVES + 197;
pub const FLOAT_SQRT: usize = LIBRARY_NATIVES + 198;

/// The Rust type whose identity stands for script floats where a collection type over them
/// is made.
pub struct FloatNumber;

/// What registering a method does to the methods: on success, one more entry with the
/// given name, kind and return type, whose parameters are the receiver and then `params`;
/// a failure, exactly where a method of another kind matches the same receiver, name and
/// parameters, and then nothing changes.
#[verifier::opaque]
pub open spec fn method_registered(
    before: Seq<(ValueType, FunctionInfo)>,
    after: Seq<(ValueType, FunctionInfo)>,
    receiver: ValueType,
    name: Seq<char>,
    params: Seq<ValueType>,
    return_type: Option<ValueType>,
    kind: FunctionKind,
    failed: bool,
) -> bool {
    &&& (failed <==> exists|i: int|
        0 <= i < before.len() && method_matches(#[trigger] before[i], receiver, name, seq![receiver] + params)
            && before[i].1.kind != kind)
    &&& (failed ==> after == before)
    &&& (!failed ==> after.len() == before.len() + 1 && after.drop_last() == before && {
        let (t, info) = after.last();
        &&& t == receiver
        &&& info.name@ == name
        &&& same_types(info.param_types@, seq![receiver] + params)
        &&& info.param_types@.skip(1) == params
        &&& info.return_type == return_type
        &&& info.kind == kind
    })
}

/// What registering a free function does to the functions: on success, one more entry with
/// the given name, parameters, kind and return type; a failure, exactly where a function of
/// another kind has the same name and parameters, and then nothing changes.
#[verifier::opaque]
pub open spec fn function_registered(
    before: Seq<FunctionInfo>,
    after: Seq<FunctionInfo>,
    name: Seq<char>,
    params: Seq<ValueType>,
    return_type: Option<ValueType>,
    kind: FunctionKind,
    failed: bool,
) -> bool {
    &&& (failed <==> exists|i: int|
        0 <= i < before.len() && (#[trigger] before[i]).name@ == name && same_types(before[i].param_types@, params)
            && before[i].kind != kind)
    &&& (failed ==> after == before)
    &&& (!failed ==> after.len() == before.len() + 1 && after.drop_last() == before && {
        let info = after.last();
        &&& info.name@ == name
        &&& info.param_types@ == params
        &&& info.return_type == return_type
        &&& info.kind == kind
    })
}

/// Registers a method on `receiver` (its first parameter) with the other parameters.
fn method(
    module: &mut Module,
    receiver: ValueType,
    name: &str,
    params: Vec<ValueType>,
    return_type: Option<ValueType>,
    kind: FunctionKind,
) -> (r: Result<(), ModuleError>)
    ensures
        final(module).type_entries() == old(module).type_entries(),
        final(module).global_entries() == old(module).global_entries(),
        final(module).function_entries() == old(module).function_entries(),
        method_registered(old(module).method_entries(), final(module).method_entries(), receiver, name@, params@, return_type, kind, r is Err),
        r matches Err(e) ==> e is DuplicateMethod,
{
    reveal(method_registered);
    let mut param_types: Vec<ValueType> = vec![receiver.copy()];
    let mut rest = params;
    param_types.append(&mut rest);
    let ghost full = seq![receiver] + params@;
    assert(param_types@.skip(1) =~= params@);
    assert(same_types(param_types@, full));
    assert forall|i: int| 0 <= i < old(module).method_entries().len() implies (method_matches(
        #[trigger] old(module).method_entries()[i], receiver, name@, param_types@) == method_matches(
        old(module).method_entries()[i], receiver, name@, full)) by {
        let m = old(module).method_entries()[i];
        if same_types(m.1.param_types@, param_types@) {
            assert forall|k: int| 0 <= k < full.len() implies same_type(#[trigger] m.1.param_types@[k], full[k]) by {
                assert(same_type(m.1.param_types@[k], param_types@[k]));
            }
        }
        if same_types(m.1.param_types@, full) {
            assert forall|k: int| 0 <= k < full.len() implies same_type(#[trigger] m.1.param_types@[k], param_types@[k]) by {
                assert(same_type(m.1.param_types@[k], full[k]));
            }
        }
    }
    let r = module.register_method(
        receiver,
        FunctionInfo {
            name: name.to_owned(),
            param_types,
            param_names: Vec::new(),
            doc_comments: Vec::new(),
            return_type,
            kind,
        },
    );
    assert(r is Ok ==> module.method_entries().drop_last() =~= old(module).method_entries());
    r
}

/// Registers a free function.
fn function(
    module: &mut Module,
    name: &str,
    params: Vec<ValueType>,
    return_type: Option<ValueType>,
    kind: FunctionKind,
) -> (r: Result<(), ModuleError>)
    ensures
        final(module).type_entries() == old(module).type_entries(),
        final(module).global_entries() == old(module).global_entries(),
        final(module).method_entries() == old(module).method_entries(),
        function_registered(old(module).function_entries(), final(module).function_entries(), name@, params@, return_type, kind, r is Err),
        r matches Err(e) ==> e is DuplicateFunction,
{
    reveal(function_registered);
    let r = module.register_function(
        FunctionInfo {
            name: name.to_owned(),
            param_types: params,
            param_names: Vec::new(),
            doc_comments: Vec::new(),
            return_type,
            kind,
        },
    );
    assert(r is Ok ==> module.function_entries().drop_last() =~= old(module).function_entries());
    r
}

/// The type of integer ranges.
pub fn range_type() -> (t: ValueType)
    ensures
        t is CustomType,
{
    custom_type_of::<std::ops::Range<i64>>("Range<i64>".to_string())
}

/// The type of iterators over integer ranges.
pub fn range_iterator_type() -> (t: ValueType)
    ensures
        t is CustomType,
{
    custom_type_of::<RangeIterator<i64>>("RangeIterator<i64>".to_string())
}

/// The type of optional integers.
pub fn optional_int_type() -> (t: ValueType)
    ensures
        t is CustomType,
{
    custom_type_of::<Option<i64>>("Option<i64>".to_string())
}

/// The standard module: collection types over `i64`, `f64`, `bool` and `String`, the
/// global `PI`, arithmetic, comparison and conversion methods on integers, floats, booleans
/// and strings, `print`, and `todo`.
pub fn std_module() -> (r: Result<Module, ModuleError>)
    ensures
        r matches Ok(m) ==> (m.global_entries().len() == 1 && m.global_entries()[0].0@ == seq!['P', 'I']
            && m.global_entries()[0].1 == ValueType::Float),
        r matches Ok(m) ==> m.function_entries().len() >= 3,
        r matches Ok(m) ==> function_is(
            m.function_entries()[m.function_entries().len() - 3],
            "print"@,
            seq![ValueType::String],
            None,
            FunctionKind::Free(PRINT),
        ),
        r matches Ok(m) ==> function_is(
            m.function_entries()[m.function_entries().len() - 2],
            "todo"@,
            seq![ValueType::String],
            None,
            FunctionKind::Free(TODO),
        ),
        r matches Ok(m) ==> function_is(
            m.function_entries().last(),
            "fail"@,
            seq![ValueType::String],
            None,
            FunctionKind::Free(FAIL),
        ),
        r matches Err(e) ==> e is DuplicateMethod || e is DuplicateFunction,
{
    let mut module = Module::new();
    assert(module.wrapper_kinds_kept());

    define_type_wrappers::<i64>(&mut module, ValueType::Int)?;
    define_type_wrappers::<FloatNumber>(&mut module, ValueType::Float)?;
    define_type_wrappers::<bool>(&mut module, ValueType::Bool)?;
    define_type_wrappers::<String>(&mut module, ValueType::String)?;
    assert(module.global_entries().len() == 0);

    // Integers
    method(&mut module, ValueType::Int, "+", vec![ValueType::Int], Some(ValueType::Int), FunctionKind::Method(INT_PLUS))?;
    method(&mut module, ValueType::Int, "-", vec![ValueType::Int], Some(ValueType::Int), FunctionKind::Method(INT_MINUS))?;
    method(&mut module, ValueType::Int, "*", vec![ValueType::Int], Some(ValueType::Int), FunctionKind::Method(INT_MULTIPLY))?;
    method(&mut module, ValueType::Int, "/", vec![ValueType::Int], Some(ValueType::Int), FunctionKind::Method(INT_DIVIDE))?;
    method(&mut module, ValueType::Int, "%", vec![ValueType::Int], Some(ValueType::Int), FunctionKind::Method(INT_REMAINDER))?;
    method(&mut module, ValueType::Int, "+=", vec![ValueType::Int], None, FunctionKind::MethodMut(INT_PLUS_EQUAL))?;
    method(&mut module, ValueType::Int, "-=", vec![ValueType::Int], None, FunctionKind::MethodMut(INT_MINUS_EQUAL))?;
    method(&mut module, ValueType::Int, "*=", vec![ValueType::Int], None, FunctionKind::MethodMut(INT_MULTIPLY_EQUAL))?;
    method(&mut module, ValueType::Int, "/=", vec![ValueType::Int], None, FunctionKind::MethodMut(INT_DIVIDE_EQUAL))?;
    method(&mut module, ValueType::Int, "%=", vec![ValueType::Int], None, FunctionKind::MethodMut(INT_REMAINDER_EQUAL))?;
    method(&mut module, ValueType::Int, ">", vec![ValueType::Int], Some(ValueType::Bool), FunctionKind::Method(INT_GREATER))?;
    method(&mut module, ValueType::Int, ">=", vec![ValueType::Int], Some(ValueType::Bool), FunctionKind::Method(INT_GREATER_EQUAL))?;
    method(&mut module, ValueType::Int, "<", vec![ValueType::Int], Some(ValueType::Bool), FunctionKind::Method(INT_LESSER))?;
    method(&mut module, ValueType::Int, "<=", vec![ValueType::Int], Some(ValueType::Bool), FunctionKind::Method(INT_LESSER_EQUAL))?;
    method(&mut module, ValueType::Int, "==", vec![ValueType::Int], Some(ValueType::Bool), FunctionKind::Method(INT_EQUAL))?;
    method(&mut module, ValueType::Int, "!=", vec![ValueType::Int], Some(ValueType::Bool), FunctionKind::Method(INT_NOT_EQUAL))?;
    method(&mut module, ValueType::Int, "-", vec![], Some(ValueType::Int), FunctionKind::Method(INT_NEGATE))?;
    method(&mut module, ValueType::Int, "abs", vec![], Some(ValueType::Int), FunctionKind::Method(INT_ABS))?;
    method(&mut module, ValueType::Int, "pow", vec![ValueType::Int], Some(ValueType::Int), FunctionKind::Method(INT_POW))?;
    method(&mut module, ValueType::Int, "min", vec![ValueType::Int], Some(ValueType::Int), FunctionKind::Method(INT_MIN))?;
    method(&mut module, ValueType::Int, "max", vec![ValueType::Int], Some(ValueType::Int), FunctionKind::Method(INT_MAX))?;
    method(&mut module, ValueType::Int, "..=", vec![ValueType::Int], Some(range_type()), FunctionKind::Method(INT_RANGE_INCLUSIVE))?;
    method(&mut module, ValueType::Int, "..", vec![ValueType::Int], Some(range_type()), FunctionKind::Method(INT_RANGE_EXCLUSIVE))?;
    method(&mut module, range_type(), "into_iter", vec![], Some(range_iterator_type()), FunctionKind::Method(INT_RANGE_INTO_ITER))?;
    method(&mut module, range_iterator_type(), "next", vec![], Some(optional_int_type()), FunctionKind::MethodMut(RANGE_ITER_NEXT))?;
    method(&mut module, ValueType::Int, "to_float", vec![], Some(ValueType::Float), FunctionKind::Method(INT_TO_FLOAT))?;
    method(&mut module, ValueType::Int, "&", vec![ValueType::Int], Some(ValueType::Int), FunctionKind::Method(INT_BIT_AND))?;
    method(&mut module, ValueType::Int, "|", vec![ValueType::Int], Some(ValueType::Int), FunctionKind::Method(INT_BIT_OR))?;
    method(&mut module, ValueType::Int, "^", vec![ValueType::Int], Some(ValueType::Int), FunctionKind::Method(INT_BIT_XOR))?;
    method(&mut module, ValueType::Int, "<<", vec![ValueType::Int], Some(ValueType::Int), FunctionKind::Method(INT_SHIFT_LEFT))?;
    method(&mut module, ValueType::Int, ">>", vec![ValueType::Int], Some(ValueType::Int), FunctionKind::Method(INT_SHIFT_RIGHT))?;
    method(&mut module, ValueType::Int, "&=", vec![ValueType::Int], None, FunctionKind::MethodMut(INT_BIT_AND_EQUAL))?;
    method(&mut module, ValueType::Int, "|=", vec![ValueType::Int], None, FunctionKind::MethodMut(INT_BIT_OR_EQUAL))?;
    method(&mut module, ValueType::Int, "^=", vec![ValueType::Int], None, FunctionKind::MethodMut(INT_BIT_XOR_EQUAL))?;

    // Floats
    module.register_global_value("PI", ValueType::Float, Value::Float("3.141592653589793".to_string()))?;
    method(&mut module, ValueType::Float, "+", vec![ValueType::Float], Some(ValueType::Float), FunctionKind::Method(FLOAT_PLUS))?;
    method(&mut module, ValueType::Float, "-", vec![ValueType::Float], Some(ValueType::Float), FunctionKind::Method(FLOAT_MINUS))?;
    method(&mut module, ValueType::Float, "*", vec![ValueType::Float], Some(ValueType::Float), FunctionKind::Method(FLOAT_MULTIPLY))?;
    method(&mut module, ValueType::Float, "/", vec![ValueType::Float], Some(ValueType::Float), FunctionKind::Method(FLOAT_DIVIDE))?;
    method(&mut module, ValueType::Float, "%", vec![ValueType::Float], Some(ValueType::Float), FunctionKind::Method(FLOAT_REMAINDER))?;
    method(&mut module, ValueType::Float, "+=", vec![ValueType::Float], None, FunctionKind::MethodMut(FLOAT_PLUS_EQUAL))?;
    method(&mut module, ValueType::Float, "-=", vec![ValueType::Float], None, FunctionKind::MethodMut(FLOAT_MINUS_EQUAL))?;
    method(&mut module, ValueType::Float, "*=", vec![ValueType::Float], None, FunctionKind::MethodMut(FLOAT_MULTIPLY_EQUAL))?;
    method(&mut module, ValueType::Float, "/=", vec![ValueType::Float], None, FunctionKind::MethodMut(FLOAT_DIVIDE_EQUAL))?;
    method(&mut module, ValueType::Float, "%=", vec![ValueType::Float], None, FunctionKind::MethodMut(FLOAT_REMAINDER_EQUAL))?;
    method(&mut module, ValueType::Float, ">", vec![ValueType::Float], Some(ValueType::Bool), FunctionKind::Method(FLOAT_GREATER))?;
    method(&mut module, ValueType::Float, ">=", vec![ValueType::Float], Some(ValueType::Bool), FunctionKind::Method(FLOAT_GREATER_EQUAL))?;
    method(&mut module, ValueType::Float, "<", vec![ValueType::Float], Some(ValueType::Bool), FunctionKind::Method(FLOAT_LESSER))?;
    method(&mut module, ValueType::Float, "<=", vec![ValueType::Float], Some(ValueType::Bool), FunctionKind::Method(FLOAT_LESSER_EQUAL))?;
    method(&mut module, ValueType::Float, "==", vec![ValueType::Float], Some(ValueType::Bool), FunctionKind::Method(FLOAT_EQUAL))?;
    method(&mut module, ValueType::Float, "!=", vec![ValueType::Float], Some(ValueType::Bool), FunctionKind::Method(FLOAT_NOT_EQUAL))?;
    method(&mut module, ValueType::Float, "-", vec![], Some(ValueType::Float), FunctionKind::Method(FLOAT_NEGATE))?;
    method(&mut module, ValueType::Float, "abs", vec![], Some(ValueType::Float), FunctionKind::Method(FLOAT_ABS))?;
    method(&mut module, ValueType::Float, "pow", vec![ValueType::Float], Some(ValueType::Float), FunctionKind::Method(FLOAT_POW))?;
    method(&mut module, ValueType::Float, "min", vec![ValueType::Float], Some(ValueType::Float), FunctionKind::Method(FLOAT_MIN))?;
    method(&mut module, ValueType::Float, "max", vec![ValueType::Float], Some(ValueType::Float), FunctionKind::Method(FLOAT_MAX))?;
    method(&mut module, ValueType::Float, "to_int", vec![], Some(ValueType::Int), FunctionKind::Method(FLOAT_TO_INT))?;
    method(&mut module, ValueType::Float, "floor", vec![], Some(ValueType::Float), FunctionKind::Method(FLOAT_FLOOR))?;
    method(&mut module, ValueType::Float, "ceil", vec![], Some(ValueType::Float), FunctionKind::Method(FLOAT_CEILING))?;
    method(&mut module, ValueType::Float, "lerp", vec![ValueType::Float, ValueType::Float], Some(ValueType::Float), FunctionKind::Method(FLOAT_LERP))?;
    method(&mut module, ValueType::Float, "sin", vec![], Some(ValueType::Float), FunctionKind::Method(FLOAT_SIN))?;
    method(&mut module, ValueType::Float, "cos", vec![], Some(ValueType::Float), FunctionKind::Method(FLOAT_COS))?;
    method(&mut module, ValueType::Float, "tan", vec![], Some(ValueType::Float), FunctionKind::Method(FLOAT_TAN))?;
    method(&mut module, ValueType::Float, "sqrt", vec![], Some(ValueType::Float), FunctionKind::Method(FLOAT_SQRT))?;

    // Bools
    method(&mut module, ValueType::Bool, "==", vec![ValueType::Bool], Some(ValueType::Bool), FunctionKind::Method(BOOL_EQUAL))?;
    method(&mut module, ValueType::Bool, "!=", vec![ValueType::Bool], Some(ValueType::Bool), FunctionKind::Method(BOOL_NOT_EQUAL))?;
    method(&mut module, ValueType::Bool, "!", vec![], Some(ValueType::Bool), FunctionKind::Method(BOOL_INVERT))?;

    // Strings
    function(&mut module, "print", vec![ValueType::String], None, FunctionKind::Free(PRINT))?;
    let ghost with_print = module.function_entries();
    method(&mut module, ValueType::Int, "to_string", vec![], Some(ValueType::String), FunctionKind::Method(INT_TO_STRING))?;
    method(&mut module, ValueType::Float, "to_string", vec![], Some(ValueType::String), FunctionKind::Method(FLOAT_TO_STRING))?;
    method(&mut module, ValueType::Bool, "to_string", vec![], Some(ValueType::String), FunctionKind::Method(BOOL_TO_STRING))?;
    method(&mut module, ValueType::String, "+", vec![ValueType::String], Some(ValueType::String), FunctionKind::Method(STRING_PLUS))?;
    method(&mut module, ValueType::String, "+=", vec![ValueType::String], None, FunctionKind::MethodMut(STRING_PLUS_EQUAL))?;
    method(&mut module, ValueType::String, "+", vec![ValueType::Int], Some(ValueType::String), FunctionKind::Method(STRING_PLUS_INT))?;
    method(&mut module, ValueType::String, "+", vec![ValueType::Float], Some(ValueType::String), FunctionKind::Method(STRING_PLUS_FLOAT))?;
    method(&mut module, ValueType::String, "+", vec![ValueType::Bool], Some(ValueType::String), FunctionKind::Method(STRING_PLUS_BOOL))?;
    method(&mut module, ValueType::String, "==", vec![ValueType::String], Some(ValueType::Bool), FunctionKind::Method(STRING_EQUAL))?;
    method(&mut module, ValueType::String, "!=", vec![ValueType::String], Some(ValueType::Bool), FunctionKind::Method(STRING_NOT_EQUAL))?;
    method(&mut module, ValueType::String, "len", vec![], Some(ValueType::Int), FunctionKind::Method(STRING_LEN))?;
    method(&mut module, ValueType::String, "is_empty", vec![], Some(ValueType::Bool), FunctionKind::Method(STRING_IS_EMPTY))?;
    method(&mut module, ValueType::String, "contains", vec![ValueType::String], Some(ValueType::Bool), FunctionKind::Method(STRING_CONTAINS))?;
    method(&mut module, ValueType::String, "repeat", vec![ValueType::Int], Some(ValueType::String), FunctionKind::Method(STRING_REPEAT))?;
    method(&mut module, ValueType::String, "substring", vec![ValueType::Int, ValueType::Int], Some(ValueType::String), FunctionKind::Method(STRING_SUBSTRING))?;

    // Helper
    let ghost before_todo = module.function_entries();
    function(&mut module, "todo", vec![ValueType::String], None, FunctionKind::Free(TODO))?;
    let ghost with_todo = module.function_entries();
    function(&mut module, "fail", vec![ValueType::String], None, FunctionKind::Free(FAIL))?;
    proof {
        reveal_strlit("PI");
        reveal(function_registered);
        let fs = module.function_entries();
        assert(before_todo == with_print);
        assert(fs.drop_last() == with_todo);
        assert(with_todo.drop_last() == with_print);
        assert(fs[fs.len() - 3] == with_print.last());
        assert(fs[fs.len() - 2] == with_todo.last());
    }
    Ok(module)
}

} // verus!

use crate::executor::{ExecutorErrorKind, NativeHost};
use crate::instructor::CallInfo;
use crate::natives::{gives_holding, held, collection_outcome, is_collection_native, kind_id, native_id, run_collection_native};
use crate::stdlib::{
    abs, bool_text, checked_int_pow, exponent, in_i64, is_char_offset, pow, quot, rem,
    repeat_count, repeat_fits, repeated, spec_contains, bytes_of, char_index_at, clamp_end, clamp_low,
    is_offset,
};
use crate::text::{int_text, utf8_len};

verus! {

/// What an integer method gives for a receiver `a` and an argument `b`; `None` where the
/// result does not fit in an `i64` or is undefined (a division by zero).
pub open spec fn int_result(id: usize, a: int, b: int) -> Option<int> {
    let checked = |x: int| if in_i64(x) { Some(x) } else { None::<int> };
    if id == INT_PLUS || id == INT_PLUS_EQUAL {
        checked(a + b)
    } else if id == INT_MINUS || id == INT_MINUS_EQUAL {
        checked(a - b)
    } else if id == INT_MULTIPLY || id == INT_MULTIPLY_EQUAL {
        checked(a * b)
    } else if id == INT_DIVIDE || id == INT_DIVIDE_EQUAL {
        if b == 0 { None } else { checked(quot(a, b)) }
    } else if id == INT_REMAINDER || id == INT_REMAINDER_EQUAL {
        if b == 0 || (a == i64::MIN && b == -1) { None } else { Some(rem(a, b)) }
    } else if id == INT_POW {
        checked(pow(a, exponent(b as i64)))
    } else if id == INT_MIN {
        Some(if a <= b { a } else { b })
    } else if id == INT_BIT_AND || id == INT_BIT_AND_EQUAL {
        Some(((a as i64) & (b as i64)) as int)
    } else if id == INT_BIT_OR || id == INT_BIT_OR_EQUAL {
        Some(((a as i64) | (b as i64)) as int)
    } else if id == INT_BIT_XOR || id == INT_BIT_XOR_EQUAL {
        Some(((a as i64) ^ (b as i64)) as int)
    } else if id == INT_SHIFT_LEFT {
        if 0 <= b < 64 { Some(((a as i64) << (b as u32)) as int) } else { None }
    } else if id == INT_SHIFT_RIGHT {
        if 0 <= b < 64 { Some(((a as i64) >> (b as u32)) as int) } else { None }
    } else {
        Some(if b >= a { b } else { a })
    }
}

/// What an integer comparison gives.
pub open spec fn int_comparison(id: usize, a: int, b: int) -> bool {
    if id == INT_GREATER {
        a > b
    } else if id == INT_GREATER_EQUAL {
        a >= b
    } else if id == INT_LESSER {
        a < b
    } else if id == INT_LESSER_EQUAL {
        a <= b
    } else if id == INT_EQUAL {
        a == b
    } else {
        a != b
    }
}

pub open spec fn is_int_arithmetic(id: usize) -> bool {
    id == INT_PLUS || id == INT_MINUS || id == INT_MULTIPLY || id == INT_DIVIDE || id == INT_REMAINDER
        || id == INT_POW || id == INT_MIN || id == INT_MAX || id == INT_BIT_AND || id == INT_BIT_OR
        || id == INT_BIT_XOR || id == INT_SHIFT_LEFT || id == INT_SHIFT_RIGHT
}

pub open spec fn is_int_assignment(id: usize) -> bool {
    id == INT_PLUS_EQUAL || id == INT_MINUS_EQUAL || id == INT_MULTIPLY_EQUAL || id == INT_DIVIDE_EQUAL
        || id == INT_REMAINDER_EQUAL || id == INT_BIT_AND_EQUAL || id == INT_BIT_OR_EQUAL || id == INT_BIT_XOR_EQUAL
}

pub open spec fn is_int_comparison(id: usize) -> bool {
    INT_GREATER <= id <= INT_NOT_EQUAL
}

/// Whether a number is that of a native of the standard module that the library runs.
pub open spec fn is_std_native(id: usize) -> bool {
    &&& (INT_PLUS <= id <= INT_BIT_XOR_EQUAL) || (BOOL_EQUAL <= id <= BOOL_TO_STRING) || (STRING_PLUS <= id <= FAIL)
    &&& !is_float_text_native(id)
}

/// The natives that show a float as text: the host formats floats.
pub open spec fn is_float_text_native(id: usize) -> bool {
    id == FLOAT_TO_STRING || id == STRING_PLUS_FLOAT
}

/// The outcome of an integer native on receiver `c` and arguments `a` (last one first):
/// `r` is the result and `f` the receiver afterwards.
pub open spec fn int_outcome(
    id: usize,
    ret: Option<ValueType>,
    c: Value,
    a: Seq<Value>,
    r: Result<Option<Value>, ExecutorErrorKind>,
    f: Value,
) -> bool {
    &&& !is_int_assignment(id) && id != RANGE_ITER_NEXT ==> f == c
    &&& (is_int_arithmetic(id) && c is Int && a.len() > 0 && a.last() is Int) ==> {
        let x = c->Int_0 as int;
        let y = a.last()->Int_0 as int;
        &&& int_result(id, x, y) matches Some(v) ==> r == Ok::<Option<Value>, ExecutorErrorKind>(Some(Value::Int(v as i64)))
        &&& int_result(id, x, y) is None ==> r matches Err(ExecutorErrorKind::Fail(_))
    }
    &&& (is_int_assignment(id) && c is Int && a.len() > 0 && a.last() is Int) ==> {
        let x = c->Int_0 as int;
        let y = a.last()->Int_0 as int;
        &&& int_result(id, x, y) matches Some(v) ==> r == Ok::<Option<Value>, ExecutorErrorKind>(None) && f == Value::Int(v as i64)
        &&& int_result(id, x, y) is None ==> (r matches Err(ExecutorErrorKind::Fail(_))) && f == c
    }
    &&& (is_int_comparison(id) && c is Int && a.len() > 0 && a.last() is Int) ==> r == Ok::<Option<Value>, ExecutorErrorKind>(
        Some(Value::Bool(int_comparison(id, c->Int_0 as int, a.last()->Int_0 as int))),
    )
    &&& (id == INT_NEGATE && c is Int) ==> {
        &&& c->Int_0 != i64::MIN ==> r == Ok::<Option<Value>, ExecutorErrorKind>(Some(Value::Int((-c->Int_0) as i64)))
        &&& c->Int_0 == i64::MIN ==> r matches Err(ExecutorErrorKind::Fail(_))
    }
    &&& (id == INT_ABS && c is Int) ==> {
        &&& c->Int_0 != i64::MIN ==> r == Ok::<Option<Value>, ExecutorErrorKind>(Some(Value::Int(abs(c->Int_0 as int) as i64)))
        &&& c->Int_0 == i64::MIN ==> r matches Err(ExecutorErrorKind::Fail(_))
    }
    &&& (id == INT_RANGE_EXCLUSIVE && c is Int && a.len() > 0 && a.last() is Int) ==> (r matches Ok(
        Some(Value::Custom(t, vs)),
    ) && t is CustomType && vs@ == seq![c, a.last()])
    &&& (id == INT_RANGE_INCLUSIVE && c is Int && a.len() > 0 && a.last() is Int) ==> {
        &&& a.last()->Int_0 < i64::MAX ==> (r matches Ok(Some(Value::Custom(t, vs))) && t is CustomType
            && vs@ == seq![c, Value::Int((a.last()->Int_0 + 1) as i64)])
        &&& a.last()->Int_0 == i64::MAX ==> r matches Err(ExecutorErrorKind::Fail(_))
    }
    &&& (id == INT_RANGE_INTO_ITER && c is Custom && held(c).len() == 2 && held(c)[0] is Int && held(c)[1] is Int
        && ret is Some) ==> gives_holding(r, ret, held(c))
    &&& (id == RANGE_ITER_NEXT && c is Custom && held(c).len() == 2 && held(c)[0] is Int && held(c)[1] is Int
        && ret is Some) ==> {
        let k = held(c)[0]->Int_0;
        let end = held(c)[1]->Int_0;
        &&& k < end ==> gives_holding(r, ret, seq![Value::Int(k)]) && f == Value::Custom(c->Custom_0, f->Custom_1)
            && held(f) == seq![Value::Int((k + 1) as i64), Value::Int(end)]
        &&& k >= end ==> gives_holding(r, ret, Seq::empty()) && f == c
    }
    &&& (id == INT_TO_STRING && c is Int) ==> (r matches Ok(Some(Value::Str(s))) && s@ == int_text(c->Int_0 as int))
}

} // verus!

verus! {

fn fail(message: &str) -> (e: ExecutorErrorKind)
    ensures
        e is Fail,
{
    ExecutorErrorKind::Fail(message.to_string())
}

/// The integer result of an arithmetic native, where it fits.
fn int_arithmetic(id: usize, a: i64, b: i64) -> (r: Option<i64>)
    requires
        is_int_arithmetic(id) || is_int_assignment(id),
    ensures
        r matches Some(v) ==> int_result(id, a as int, b as int) == Some(v as int),
        r is None ==> int_result(id, a as int, b as int) is None,
{
    if id == INT_PLUS || id == INT_PLUS_EQUAL {
        match a.checked_add(b) {
            Some(_) => Some(crate::stdlib::int_plus(&a, b)),
            None => None,
        }
    } else if id == INT_MINUS || id == INT_MINUS_EQUAL {
        match a.checked_sub(b) {
            Some(_) => Some(crate::stdlib::int_minus(&a, b)),
            None => None,
        }
    } else if id == INT_MULTIPLY || id == INT_MULTIPLY_EQUAL {
        match a.checked_mul(b) {
            Some(_) => Some(crate::stdlib::int_multiply(&a, b)),
            None => None,
        }
    } else if id == INT_DIVIDE || id == INT_DIVIDE_EQUAL {
        if b == 0 {
            None
        } else if a == i64::MIN && b == -1 {
            proof {
                assert(quot(a as int, b as int) == 0x8000_0000_0000_0000int);
            }
            None
        } else {
            Some(crate::stdlib::int_divide(&a, b))
        }
    } else if id == INT_REMAINDER || id == INT_REMAINDER_EQUAL {
        if b == 0 || (a == i64::MIN && b == -1) {
            None
        } else {
            Some(crate::stdlib::int_remainder(&a, b))
        }
    } else if id == INT_POW {
        checked_int_pow(&a, b)
    } else if id == INT_MIN {
        Some(crate::stdlib::int_min(&a, b))
    } else if id == INT_BIT_AND || id == INT_BIT_AND_EQUAL {
        Some(a & b)
    } else if id == INT_BIT_OR || id == INT_BIT_OR_EQUAL {
        Some(a | b)
    } else if id == INT_BIT_XOR || id == INT_BIT_XOR_EQUAL {
        Some(a ^ b)
    } else if id == INT_SHIFT_LEFT {
        if 0 <= b && b < 64 {
            Some(a << (b as u32))
        } else {
            None
        }
    } else if id == INT_SHIFT_RIGHT {
        if 0 <= b && b < 64 {
            Some(a >> (b as u32))
        } else {
            None
        }
    } else {
        Some(crate::stdlib::int_max(&a, b))
    }
}

fn int_compare(id: usize, a: i64, b: i64) -> (r: bool)
    requires
        is_int_comparison(id),
    ensures
        r == int_comparison(id, a as int, b as int),
{
    if id == INT_GREATER {
        crate::stdlib::int_greater(&a, b)
    } else if id == INT_GREATER_EQUAL {
        crate::stdlib::int_greater_equal(&a, b)
    } else if id == INT_LESSER {
        crate::stdlib::int_lesser(&a, b)
    } else if id == INT_LESSER_EQUAL {
        crate::stdlib::int_lesser_equal(&a, b)
    } else if id == INT_EQUAL {
        crate::stdlib::int_equal(&a, b)
    } else {
        crate::stdlib::int_not_equal(&a, b)
    }
}

/// The first argument of a call, which must be an integer.
fn int_arg(args: &mut Vec<Value>) -> (r: Result<i64, ExecutorErrorKind>)
    ensures
        old(args)@.len() > 0 && old(args)@.last() is Int ==> r == Ok::<i64, ExecutorErrorKind>(old(args)@.last()->Int_0),
        old(args)@.len() > 0 ==> final(args)@ == old(args)@.drop_last(),
{
    match args.pop() {
        Some(Value::Int(i)) => Ok(i),
        _ => Err(fail("A native expected an integer argument.")),
    }
}

/// Runs `into_iter` on a range, or `next` on a range iterator; both hold two integers.
fn run_range_native(id: usize, info: &CallInfo, callee: &mut Value) -> (r: Result<Option<Value>, ExecutorErrorKind>)
    requires
        *old(callee) is Custom,
        INT_PLUS <= id <= INT_BIT_XOR_EQUAL,
    ensures
        int_outcome(id, info.return_type, *old(callee), Seq::empty(), r, *final(callee)),
        id != RANGE_ITER_NEXT ==> *final(callee) == *old(callee),
{
    let (start, end) = match callee {
        Value::Custom(_, vs) => {
            if vs.len() != 2 {
                return Err(fail("A range holds two integers."));
            }
            match (&vs[0], &vs[1]) {
                (Value::Int(start), Value::Int(end)) => (*start, *end),
                _ => return Err(fail("A range holds two integers.")),
            }
        },
        _ => return Err(fail("A range holds two integers.")),
    };
    let t = match &info.return_type {
        Some(t) => t.copy(),
        None => return Err(fail("A native that gives a value was declared without a type.")),
    };
    if id == INT_RANGE_INTO_ITER {
        let range = std::ops::Range { start, end };
        let it = crate::stdlib::int_range_into_iter(&range);
        let items = vec![Value::Int(it.current), Value::Int(it.end)];
        let r = Ok(Some(Value::Custom(t, items)));
        proof {
            let ws = r->Ok_0->0->Custom_1;
            assert(ws@ =~= held(*old(callee)));
            crate::value::lemma_same_value_reflexive(ws@[0]);
            crate::value::lemma_same_value_reflexive(ws@[1]);
        }
        r
    } else if id == RANGE_ITER_NEXT {
        let mut it = RangeIterator { current: start, end };
        let next = crate::stdlib::range_iterator_next(&mut it);
        let items: Vec<Value> = match next {
            Some(v) => vec![Value::Int(v)],
            None => Vec::new(),
        };
        if next.is_some() {
            let mut c = Value::Unit;
            std::mem::swap(&mut c, callee);
            match c {
                Value::Custom(rt, _) => {
                    *callee = Value::Custom(rt, vec![Value::Int(it.current), Value::Int(it.end)]);
                },
                other => {
                    *callee = other;
                },
            }
        }
        let r = Ok(Some(Value::Custom(t, items)));
        proof {
            let ws = r->Ok_0->0->Custom_1;
            if ws@.len() > 0 {
                crate::value::lemma_same_value_reflexive(ws@[0]);
            }
            if next.is_some() {
                assert(held(*final(callee)) =~= seq![Value::Int((start + 1) as i64), Value::Int(end)]);
            }
        }
        r
    } else {
        Err(fail("An integer native was called on a range."))
    }
}

/// Runs an integer native of the standard module.
fn run_int_native(id: usize, info: &CallInfo, callee: &mut Value, args: &mut Vec<Value>) -> (r: Result<Option<Value>, ExecutorErrorKind>)
    requires
        INT_PLUS <= id <= INT_BIT_XOR_EQUAL,
    ensures
        int_outcome(id, info.return_type, *old(callee), old(args)@, r, *final(callee)),
{
    let a = match callee {
        Value::Int(a) => *a,
        Value::Custom(_, _) => return run_range_native(id, info, callee),
        _ => return Err(fail("An integer native was called on another kind of value.")),
    };
    if id == INT_NEGATE {
        if a == i64::MIN {
            return Err(fail("attempt to negate with overflow"));
        }
        return Ok(Some(Value::Int(crate::stdlib::int_negate(&a))));
    }
    if id == INT_ABS {
        if a == i64::MIN {
            return Err(fail("attempt to negate with overflow"));
        }
        return Ok(Some(Value::Int(crate::stdlib::int_abs(&a))));
    }
    if id == INT_TO_STRING {
        return Ok(Some(Value::Str(crate::stdlib::int_to_string(&a))));
    }
    if id == INT_RANGE_INTO_ITER || id == RANGE_ITER_NEXT {
        return Err(fail("An integer native was called on another kind of value."));
    }
    let b = match int_arg(args) {
        Ok(b) => b,
        Err(e) => return Err(e),
    };
    if id == INT_RANGE_EXCLUSIVE {
        let range = crate::stdlib::int_range_exclusive(&a, b);
        return Ok(Some(Value::Custom(range_type(), vec![Value::Int(range.start), Value::Int(range.end)])));
    }
    if id == INT_RANGE_INCLUSIVE {
        if b == i64::MAX {
            return Err(fail("attempt to add with overflow"));
        }
        let range = crate::stdlib::int_range_inclusive(&a, b);
        return Ok(Some(Value::Custom(range_type(), vec![Value::Int(range.start), Value::Int(range.end)])));
    }
    if INT_GREATER <= id && id <= INT_NOT_EQUAL {
        return Ok(Some(Value::Bool(int_compare(id, a, b))));
    }
    match int_arithmetic(id, a, b) {
        Some(v) => {
            if (INT_PLUS_EQUAL <= id && id <= INT_REMAINDER_EQUAL) || (INT_BIT_AND_EQUAL <= id && id <= INT_BIT_XOR_EQUAL) {
                *callee = Value::Int(v);
                Ok(None)
            } else {
                Ok(Some(Value::Int(v)))
            }
        },
        None => Err(fail("An integer operation overflowed or divided by zero.")),
    }
}

} // verus!

verus! {

/// The outcome of a boolean or string native: `r` is the result and `f` the receiver
/// afterwards.
pub open spec fn text_outcome(
    id: usize,
    c: Value,
    a: Seq<Value>,
    r: Result<Option<Value>, ExecutorErrorKind>,
    f: Value,
) -> bool {
    let first = a.last();
    &&& id != STRING_PLUS_EQUAL ==> f == c
    &&& (id == BOOL_EQUAL && c is Bool && a.len() > 0 && first is Bool) ==> r == Ok::<Option<Value>, ExecutorErrorKind>(
        Some(Value::Bool(c->Bool_0 == first->Bool_0)),
    )
    &&& (id == BOOL_NOT_EQUAL && c is Bool && a.len() > 0 && first is Bool) ==> r == Ok::<Option<Value>, ExecutorErrorKind>(
        Some(Value::Bool(c->Bool_0 != first->Bool_0)),
    )
    &&& (id == BOOL_INVERT && c is Bool) ==> r == Ok::<Option<Value>, ExecutorErrorKind>(Some(Value::Bool(!c->Bool_0)))
    &&& (id == BOOL_TO_STRING && c is Bool) ==> (r matches Ok(Some(Value::Str(s))) && s@ == bool_text(c->Bool_0))
    &&& (c is Str && a.len() > 0) ==> {
        let x = c->Str_0@;
        &&& (id == STRING_PLUS && first is Str) ==> (r matches Ok(Some(Value::Str(s))) && s@ == x + first->Str_0@)
        &&& (id == STRING_PLUS_EQUAL && first is Str) ==> (r == Ok::<Option<Value>, ExecutorErrorKind>(None)
            && (f matches Value::Str(s) && s@ == x + first->Str_0@))
        &&& (id == STRING_PLUS_INT && first is Int) ==> (r matches Ok(Some(Value::Str(s))) && s@ == x + int_text(first->Int_0 as int))
        &&& (id == STRING_PLUS_BOOL && first is Bool) ==> (r matches Ok(Some(Value::Str(s))) && s@ == x + bool_text(first->Bool_0))
        &&& (id == STRING_EQUAL && first is Str) ==> r == Ok::<Option<Value>, ExecutorErrorKind>(Some(Value::Bool(x == first->Str_0@)))
        &&& (id == STRING_NOT_EQUAL && first is Str) ==> r == Ok::<Option<Value>, ExecutorErrorKind>(Some(Value::Bool(x != first->Str_0@)))
        &&& (id == STRING_CONTAINS && first is Str) ==> r == Ok::<Option<Value>, ExecutorErrorKind>(
            Some(Value::Bool(spec_contains(x, first->Str_0@))),
        )
        &&& (id == STRING_REPEAT && first is Int) ==> {
            &&& bytes_of(x).len() * repeat_count(first->Int_0) <= usize::MAX ==> (r matches Ok(Some(Value::Str(s)))
                && s@ == repeated(x, repeat_count(first->Int_0)))
            &&& bytes_of(x).len() * repeat_count(first->Int_0) > usize::MAX ==> r matches Err(ExecutorErrorKind::Fail(_))
        }
        &&& (id == STRING_SUBSTRING && a.len() > 1 && first is Int && a[a.len() - 2] is Int) ==> {
            let st = clamp_low(first->Int_0);
            let en = clamp_end(a[a.len() - 2]->Int_0, utf8_len(x) as int);
            &&& !(st < en && is_offset(x, st) && is_offset(x, en)) ==> (r matches Ok(Some(Value::Str(s)))
                && s@ == Seq::<char>::empty())
            &&& st < en && is_offset(x, st) && is_offset(x, en) ==> (r matches Ok(Some(Value::Str(s)))
                && s@ == x.subrange(char_index_at(x, st), char_index_at(x, en)))
        }
    }
    &&& (id == STRING_LEN && c is Str) ==> r == Ok::<Option<Value>, ExecutorErrorKind>(
        Some(Value::Int((utf8_len(c->Str_0@) as usize) as i64)),
    )
    &&& (id == STRING_IS_EMPTY && c is Str) ==> r == Ok::<Option<Value>, ExecutorErrorKind>(
        Some(Value::Bool(c->Str_0@.len() == 0)),
    )
    &&& (id == TODO && a.len() > 0 && first is Str) ==> (r matches Err(ExecutorErrorKind::Todo(m)) && m@ == first->Str_0@)
    &&& (id == FAIL && a.len() > 0 && first is Str) ==> (r matches Err(ExecutorErrorKind::Fail(m)) && m@ == first->Str_0@)
}

/// Runs a boolean or string native of the standard module, or `todo`.
fn run_text_native(id: usize, callee: &mut Value, args: &mut Vec<Value>) -> (r: Result<Option<Value>, ExecutorErrorKind>)
    requires
        (BOOL_EQUAL <= id <= BOOL_TO_STRING) || (STRING_PLUS <= id <= FAIL),
    ensures
        text_outcome(id, *old(callee), old(args)@, r, *final(callee)),
{
    let ghost a0 = args@;
    if id == TODO {
        return match args.pop() {
            Some(Value::Str(m)) => Err(ExecutorErrorKind::Todo(m)),
            _ => Err(fail("`todo` needs a message.")),
        };
    }
    if id == FAIL {
        return match args.pop() {
            Some(Value::Str(m)) => Err(ExecutorErrorKind::Fail(m)),
            _ => Err(fail("`fail` needs a message.")),
        };
    }
    match callee {
        Value::Bool(b) => {
            let b = *b;
            if id == BOOL_INVERT {
                return Ok(Some(Value::Bool(crate::stdlib::bool_invert(&b))));
            }
            if id == BOOL_TO_STRING {
                return Ok(Some(Value::Str(crate::stdlib::bool_to_string(&b))));
            }
            match args.pop() {
                Some(Value::Bool(x)) => {
                    if id == BOOL_EQUAL {
                        Ok(Some(Value::Bool(crate::stdlib::bool_equal(&b, x))))
                    } else if id == BOOL_NOT_EQUAL {
                        Ok(Some(Value::Bool(crate::stdlib::bool_not_equal(&b, x))))
                    } else {
                        Err(fail("A native was called on a boolean that it does not take."))
                    }
                },
                _ => Err(fail("A boolean native expected a boolean argument.")),
            }
        },
        Value::Float(_) => Err(fail("A native was called on a float that it does not take.")),
        Value::Str(s) => {
            if id == STRING_LEN {
                return Ok(Some(Value::Int(crate::stdlib::string_len(s))));
            }
            if id == STRING_IS_EMPTY {
                return Ok(Some(Value::Bool(crate::stdlib::string_is_empty(s))));
            }
            let first = match args.pop() {
                Some(v) => v,
                None => return Err(fail("A string native was called with too few arguments.")),
            };
            match first {
                Value::Str(x) => {
                    if id == STRING_PLUS {
                        Ok(Some(Value::Str(crate::stdlib::string_plus(s, x))))
                    } else if id == STRING_PLUS_EQUAL {
                        crate::stdlib::string_plus_equal(s, x);
                        Ok(None)
                    } else if id == STRING_EQUAL {
                        Ok(Some(Value::Bool(crate::stdlib::string_equal(s, x))))
                    } else if id == STRING_NOT_EQUAL {
                        Ok(Some(Value::Bool(crate::stdlib::string_not_equal(s, x))))
                    } else if id == STRING_CONTAINS {
                        Ok(Some(Value::Bool(crate::stdlib::string_contains(s, x))))
                    } else {
                        Err(fail("A string native got an argument that it does not take."))
                    }
                },
                Value::Int(n) => {
                    if id == STRING_PLUS_INT {
                        Ok(Some(Value::Str(crate::stdlib::string_plus_int(s, n))))
                    } else if id == STRING_REPEAT {
                        if repeat_fits(s, n) {
                            Ok(Some(Value::Str(crate::stdlib::string_repeat(s, n))))
                        } else {
                            Err(fail("capacity overflow"))
                        }
                    } else if id == STRING_SUBSTRING {
                        let end = match args.pop() {
                            Some(Value::Int(e)) => e,
                            _ => return Err(fail("`substring` takes two integers.")),
                        };
                        assert(end == a0[a0.len() - 2]->Int_0);
                        let ghost x = s@;
                        let ghost st = clamp_low(n);
                        let ghost en = clamp_end(end, utf8_len(x) as int);
                        let chars = crate::text::chars_of(s.as_str());
                        let len: u128 = crate::text::utf8_len_of(&chars);
                        let lo: i64 = if n < 0 { 0 } else { n };
                        let hi_raw: i64 = if end < 0 { 0 } else { end };
                        let hi: i64 = if (hi_raw as u128) <= len { hi_raw } else { len as i64 };
                        assert(lo == st);
                        assert(hi == en);
                        Ok(Some(Value::Str(crate::stdlib::string_substring(s, n, end))))
                    } else {
                        Err(fail("A string native got an argument that it does not take."))
                    }
                },
                Value::Float(_) => Err(fail("A string native got an argument that it does not take.")),
                Value::Bool(b) => {
                    if id == STRING_PLUS_BOOL {
                        Ok(Some(Value::Str(crate::stdlib::string_plus_bool(s, b))))
                    } else {
                        Err(fail("A string native got an argument that it does not take."))
                    }
                },
                _ => Err(fail("A string native got an argument that it does not take.")),
            }
        },
        _ => Err(fail("A native was called on a value of a kind that it does not take.")),
    }
}

} // verus!

verus! {

/// Runs a native of the standard module that the library runs itself; `None` where
/// `info.call_fn` names none of them.
pub fn run_std_native(info: &CallInfo, callee: &mut Value, args: Vec<Value>) -> (r: Option<
    Result<Option<Value>, ExecutorErrorKind>,
>)
    ensures
        r is None <==> !is_std_native(native_id(info.call_fn)),
        r is None ==> *final(callee) == *old(callee),
        r matches Some(x) ==> std_outcome(info.call_fn, info.return_type, *old(callee), args@, x, *final(callee)),
{
    let id = kind_id(info.call_fn);
    let mut args = args;
    if id == FLOAT_TO_STRING || id == STRING_PLUS_FLOAT {
        None
    } else if INT_PLUS <= id && id <= INT_BIT_XOR_EQUAL {
        Some(run_int_native(id, info, callee, &mut args))
    } else if (BOOL_EQUAL <= id && id <= BOOL_TO_STRING) || (STRING_PLUS <= id && id <= FAIL) {
        Some(run_text_native(id, callee, &mut args))
    } else {
        None
    }
}

/// The outcome of a native of the standard module of kind `kind`, declared to return `ret`,
/// on receiver `c` and arguments `a` (last one first): `x` is the result and `f` the receiver
/// afterwards.
pub open spec fn std_outcome(
    kind: FunctionKind,
    ret: Option<ValueType>,
    c: Value,
    a: Seq<Value>,
    x: Result<Option<Value>, ExecutorErrorKind>,
    f: Value,
) -> bool {
    let id = native_id(kind);
    &&& (INT_PLUS <= id <= INT_BIT_XOR_EQUAL) ==> int_outcome(id, ret, c, a, x, f)
    &&& ((BOOL_EQUAL <= id <= BOOL_TO_STRING) || (STRING_PLUS <= id <= FAIL)) && !is_float_text_native(id) ==> text_outcome(
        id,
        c,
        a,
        x,
        f,
    )
}

/// Runs the natives of this library (those of `define_type_wrappers` and of the standard
/// module), and hands every other native call to `inner`.
pub struct StdHost<H: NativeHost> {
    pub inner: H,
}

impl<H: NativeHost> NativeHost for StdHost<H> {
    fn call(&mut self, info: &CallInfo, callee: &mut Value, args: Vec<Value>) -> (r: Result<Option<Value>, ExecutorErrorKind>)
        ensures
            is_collection_native(native_id(info.call_fn)) ==> collection_outcome(info.call_fn, info.return_type, *old(callee), args@, r, *final(callee)),
            is_std_native(native_id(info.call_fn)) ==> std_outcome(info.call_fn, info.return_type, *old(callee), args@, r, *final(callee)),
    {
        let id = kind_id(info.call_fn);
        if id == FLOAT_TO_STRING || id == STRING_PLUS_FLOAT {
            self.inner.call(info, callee, args)
        } else if (crate::natives::VEC_NEW <= id && id <= crate::natives::ITER_NEXT) || (crate::natives::OPTION_NONE <= id
            && id <= crate::natives::OPTION_IS_NONE) {
            match run_collection_native(info, callee, args) {
                Some(r) => r,
                None => Err(fail("A native of this library is missing.")),
            }
        } else if (INT_PLUS <= id && id <= INT_BIT_XOR_EQUAL) || (BOOL_EQUAL <= id && id <= BOOL_TO_STRING) || (
        STRING_PLUS <= id && id <= FAIL) {
            match run_std_native(info, callee, args) {
                Some(r) => r,
                None => Err(fail("A native of this library is missing.")),
            }
        } else {
            self.inner.call(info, callee, args)
        }
    }
}

} // verus!

verus! {

/// Subtracting what was added gives back the integer, wherever the sum fits.
pub proof fn law_plus_then_minus(a: int, b: int)
    requires
        in_i64(a),
        in_i64(b),
        int_result(INT_PLUS, a, b) is Some,
    ensures
        int_result(INT_MINUS, int_result(INT_PLUS, a, b)->0, b) == Some(a),
{
}

/// The comparisons agree with one another: `<` is `!(>=)`, `<=` is `!(>)`, `!=` is
/// `!(==)`.
pub proof fn law_comparisons_agree(a: int, b: int)
    ensures
        int_comparison(INT_LESSER, a, b) == !int_comparison(INT_GREATER_EQUAL, a, b),
        int_comparison(INT_LESSER_EQUAL, a, b) == !int_comparison(INT_GREATER, a, b),
        int_comparison(INT_NOT_EQUAL, a, b) == !int_comparison(INT_EQUAL, a, b),
{
}

/// Integer division and remainder put the dividend back together, wherever both are
/// defined: `(a / b) * b + a % b == a`.
pub proof fn law_divide_remainder(a: int, b: int)
    requires
        int_result(INT_DIVIDE, a, b) is Some,
        int_result(INT_REMAINDER, a, b) is Some,
    ensures
        int_result(INT_DIVIDE, a, b)->0 * b + int_result(INT_REMAINDER, a, b)->0 == a,
{
    assert(quot(a, b) * b == b * quot(a, b)) by (nonlinear_arith);
}

/// A range iterator gives every integer from its start up to its end, one per `next`,
/// and then nothing.
pub proof fn law_range_iteration(
    c: Value,
    ret: Option<ValueType>,
    r: Result<Option<Value>, ExecutorErrorKind>,
    f: Value,
)
    requires
        c is Custom,
        held(c) == seq![Value::Int(held(c)[0]->Int_0), Value::Int(held(c)[1]->Int_0)],
        ret is Some,
        int_outcome(RANGE_ITER_NEXT, ret, c, Seq::empty(), r, f),
    ensures
        held(c)[0]->Int_0 < held(c)[1]->Int_0 ==> gives_holding(r, ret, seq![Value::Int(held(c)[0]->Int_0)])
            && held(f) == seq![Value::Int((held(c)[0]->Int_0 + 1) as i64), Value::Int(held(c)[1]->Int_0)],
        held(c)[0]->Int_0 >= held(c)[1]->Int_0 ==> gives_holding(r, ret, Seq::empty()) && f == c,
{
}

} // verus!
