use hail::standard::{self, StdHost, std_module};
use hail::{
    CallInfo, Constructor, Executor, ExecutorError, ExecutorErrorKind, FunctionKind, Instructor,
    MemoryImportResolver, NativeHost, Parser, Program, Scanner, Stmt, Value,
};

/// Compile a script against the standard module, returning `Err` if any stage fails.
fn try_compile(source: String) -> Result<Program, String> {
    let mut scanner = Scanner::new(source.clone());
    scanner.scan();
    if !scanner.errors().is_empty() {
        return Err(format!("Scanner errors for: {}", source));
    }

    let stmts = scanner.get().ok_or_else(|| "No tokens".to_string())?;
    let mut parser = Parser::new(stmts);
    parser.parse();
    if !parser.errors().is_empty() {
        return Err(format!("Parse errors for: {}", source));
    }

    let stmts = parser.take().ok_or_else(|| "No stmts".to_string())?;
    let module = std_module().expect("Should register");
    let resolver = MemoryImportResolver::default();

    let constructor = Constructor::new(&module, &resolver, None);
    let construct = constructor
        .generate(&stmts)
        .map_err(|_| format!("Constructor errors for: {}", source))?;

    Ok(Instructor::new(None).generate(construct, source, vec![]))
}

/// Compile a script against the standard module, panicking on any error.
fn expected_compile(source: String) -> Program {
    let stmts = expected_parse(source.clone());

    let module = std_module().expect("Should register");
    let resolver = MemoryImportResolver::default();

    // Type checking and such
    let constructor = Constructor::new(&module, &resolver, None);
    let construct = constructor
        .generate(&stmts)
        .expect("Should be able to construct");

    // Turn to machine code
    Instructor::new(None).generate(construct, source, vec![])
}

/// Scan and parse a script, panicking on any error.
fn expected_parse(source: String) -> Vec<Stmt> {
    let mut scanner = Scanner::new(source);
    scanner.scan();

    // We should have no errors
    assert_eq!(scanner.errors(), &[]);

    // Parse the scanned tokens
    let mut parser = Parser::new(scanner.get().unwrap());
    parser.parse();

    // We should have no errors
    assert_eq!(parser.errors(), &[]);

    parser.take().expect("Should have stmts")
}

/// The host that runs the library's natives, and floats and `print` besides.
fn host() -> StdHost<FloatHost> {
    StdHost { inner: FloatHost }
}

/// Run a program that gives a float.
fn run_f64(executor: Executor, program: &Program) -> Result<f64, ExecutorError> {
    executor
        .run_with_any_return(program, &mut host())
        .map(|v| float_of(&v))
}

/// Runs the natives that the library leaves to its host: floats and `print`.
struct FloatHost;

fn float_of(value: &Value) -> f64 {
    match value {
        Value::Float(text) => text.parse::<f64>().expect("Should be a float"),
        other => panic!("Should be a float: {other:?}"),
    }
}

fn float_value(f: f64) -> Value {
    Value::Float(f.to_string())
}

impl NativeHost for FloatHost {
    fn call(
        &mut self,
        info: &CallInfo,
        callee: &mut Value,
        mut args: Vec<Value>,
    ) -> Result<Option<Value>, ExecutorErrorKind> {
        let id = match info.call_fn {
            FunctionKind::Free(i)
            | FunctionKind::Method(i)
            | FunctionKind::MethodMut(i)
            | FunctionKind::Property(i)
            | FunctionKind::Setter(i) => i,
        };
        if id == standard::PRINT {
            if let Some(Value::Str(s)) = args.pop() {
                println!("Hail Print: {s}");
            }
            return Ok(None);
        }
        if id == standard::INT_TO_FLOAT {
            return match callee {
                Value::Int(i) => Ok(Some(float_value(*i as f64))),
                _ => Err(ExecutorErrorKind::Fail("to_float on a non-integer".to_string())),
            };
        }
        if id == standard::STRING_PLUS_FLOAT {
            let text = match callee {
                Value::Str(s) => s.clone(),
                _ => return Err(ExecutorErrorKind::Fail("A string native was called on another kind of value.".to_string())),
            };
            let f = float_of(&args.pop().expect("Should have an argument"));
            return Ok(Some(Value::Str(format!("{text}{f}"))));
        }
        let a = float_of(callee);
        let mut next = || float_of(&args.pop().expect("Should have an argument"));
        let out = match id {
            standard::FLOAT_PLUS => float_value(a + next()),
            standard::FLOAT_MINUS => float_value(a - next()),
            standard::FLOAT_MULTIPLY => float_value(a * next()),
            standard::FLOAT_DIVIDE => float_value(a / next()),
            standard::FLOAT_REMAINDER => float_value(a % next()),
            standard::FLOAT_PLUS_EQUAL => {
                *callee = float_value(a + next());
                return Ok(None);
            }
            standard::FLOAT_MINUS_EQUAL => {
                *callee = float_value(a - next());
                return Ok(None);
            }
            standard::FLOAT_MULTIPLY_EQUAL => {
                *callee = float_value(a * next());
                return Ok(None);
            }
            standard::FLOAT_DIVIDE_EQUAL => {
                *callee = float_value(a / next());
                return Ok(None);
            }
            standard::FLOAT_REMAINDER_EQUAL => {
                *callee = float_value(a % next());
                return Ok(None);
            }
            standard::FLOAT_GREATER => Value::Bool(a > next()),
            standard::FLOAT_GREATER_EQUAL => Value::Bool(a >= next()),
            standard::FLOAT_LESSER => Value::Bool(a < next()),
            standard::FLOAT_LESSER_EQUAL => Value::Bool(a <= next()),
            standard::FLOAT_EQUAL => Value::Bool(a == next()),
            standard::FLOAT_NOT_EQUAL => Value::Bool(a != next()),
            standard::FLOAT_NEGATE => float_value(-a),
            standard::FLOAT_ABS => float_value(a.abs()),
            standard::FLOAT_POW => float_value(a.powf(next())),
            standard::FLOAT_MIN => float_value(a.min(next())),
            standard::FLOAT_MAX => float_value(a.max(next())),
            standard::FLOAT_TO_INT => Value::Int(a as i64),
            standard::FLOAT_TO_STRING => Value::Str(a.to_string()),
            standard::FLOAT_FLOOR => float_value(a.floor()),
            standard::FLOAT_CEILING => float_value(a.ceil()),
            standard::FLOAT_LERP => {
                let b = next();
                let t = next();
                float_value(if t <= 0. {
                    a
                } else if t >= 1. {
                    b
                } else {
                    a + (b - a) * t
                })
            }
            standard::FLOAT_SIN => float_value(a.sin()),
            standard::FLOAT_COS => float_value(a.cos()),
            standard::FLOAT_TAN => float_value(a.tan()),
            standard::FLOAT_SQRT => float_value(a.sqrt()),
            other => return Err(ExecutorErrorKind::Fail(format!("No native {other}"))),
        };
        Ok(Some(out))
    }
}

/// Simple integer array
#[test]
fn int_array_literal() {
    let program = expected_compile("[1, 2, 3]".to_owned());
    let executor = Executor::default();
    let result = executor
        .run_with_return::<Vec<i64>, _>(&program, &mut host())
        .expect("Should execute");
    assert_eq!(result.len(), 3);
    assert_eq!(result[0], 1);
    assert_eq!(result[1], 2);
    assert_eq!(result[2], 3);
}

/// Single element
#[test]
fn single_element_array() {
    let program = expected_compile("[42]".to_owned());
    let executor = Executor::default();
    let result = executor
        .run_with_return::<Vec<i64>, _>(&program, &mut host())
        .expect("Should execute");
    assert_eq!(result.len(), 1);
    assert_eq!(result[0], 42);
}

/// Array stored in variable and used later
#[test]
fn array_in_variable() {
    let program = expected_compile("let arr = [1, 2, 3]; arr".to_owned());
    let executor = Executor::default();
    let result = executor
        .run_with_return::<Vec<i64>, _>(&program, &mut host())
        .expect("Should execute");
    assert_eq!(result.len(), 3);
    assert_eq!(result[0], 1);
    assert_eq!(result[1], 2);
    assert_eq!(result[2], 3);
}

/// Array used in sum
#[test]
fn array_used_in_expression() {
    let program = expected_compile("let arr = [1, 2, 3]; arr[0] + arr[1] + arr[2]".to_owned());
    let executor = Executor::default();
    let result = executor
        .run_with_return::<i64, _>(&program, &mut host())
        .expect("Should execute");
    assert_eq!(result, 6);
}

/// Empty array should fail to compile (ArrayTypeUnclear)
#[test]
fn empty_array_fails() {
    let result = try_compile("[]".to_owned());
    assert!(result.is_err(), "Empty array should fail compilation");
}

/// Mixed types in array should fail (ArrayTypeMismatch)
#[test]
fn mixed_types_in_array_fail() {
    let result = try_compile("[1, 2.0, 3]".to_owned());
    assert!(
        result.is_err(),
        "Mixed int and float in array should fail compilation"
    );
}

/// Array used in if condition (boolean array element access)
#[test]
fn array_in_if_condition() {
    let program =
        expected_compile("let arr = [true, false]; if arr[0] { 1 } else { 2 }".to_owned());
    let executor = Executor::default();
    let result = executor
        .run_with_return::<i64, _>(&program, &mut host())
        .expect("Should execute");
    assert_eq!(result, 1);
}

/// Array with many elements (stress test for push operations)
#[test]
fn array_with_many_elements() {
    let program = expected_compile("[0, 1, 2, 3, 4, 5, 6, 7, 8, 9]".to_owned());
    let executor = Executor::default();
    let result = executor
        .run_with_return::<Vec<i64>, _>(&program, &mut host())
        .expect("Should execute");
    assert_eq!(result.len(), 10);
    for i in 0..10 {
        assert_eq!(result[i], i as i64);
    }
}

/// Array with variable references as elements
#[test]
fn array_with_variable_references() {
    let program = expected_compile("let a = 10; let b = 20; let c = 30; [a, b, c]".to_owned());
    let executor = Executor::default();
    let result = executor
        .run_with_return::<Vec<i64>, _>(&program, &mut host())
        .expect("Should execute");
    assert_eq!(result.len(), 3);
    assert_eq!(result[0], 10);
    assert_eq!(result[1], 20);
    assert_eq!(result[2], 30);
}

/// Array with function that returns array
#[test]
fn array_returned_from_function() {
    let program = expected_compile(
        "fn make_array() -> Vec<i64> { [1, 2, 3] }
           make_array()[0]"
            .to_owned(),
    );
    let executor = Executor::default();
    let result = executor
        .run_with_return::<i64, _>(&program, &mut host())
        .expect("Should execute");
    assert_eq!(result, 1);
}

/// Array with negative indice
#[test]
fn array_negative_indice() {
    let program = expected_compile(
        "let arr = [1, 2, 3];
           arr[-1]"
            .to_owned(),
    );

    let executor = Executor::default();
    // This should fail
    if let Ok(_) = executor.run_with_return::<i64, _>(&program, &mut host()) {
        panic!("Returned when it should have failed!")
    }
}

/// Array with function that takes array parameter
#[test]
fn array_passed_to_function() {
    let program = expected_compile(
        "fn first(arr: Vec<i64>) -> i64 { arr[0] }
           first([99, 88, 77])"
            .to_owned(),
    );
    let executor = Executor::default();
    let result = executor
        .run_with_return::<i64, _>(&program, &mut host())
        .expect("Should execute");
    assert_eq!(result, 99);
}
