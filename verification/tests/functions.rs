use hail::standard::{self, StdHost, std_module};
use hail::{
    CallInfo, Constructor, Executor, ExecutorError, ExecutorErrorKind, FunctionKind, Instructor,
    MemoryImportResolver, NativeHost, Parser, Program, Scanner, Stmt, Value,
};

/// Compile a script against the standard module, returning `Err` if any stage fails.
fn try_compile(source: String) -> Result<Program, String> {
    let mut scanner = Scanner::new(source.clone());
    scanner.scan();
    if !scanner.errors().is_empty() {
        return Err(format!("Scanner errors for: {}", source));
    }

    let stmts = scanner.get().ok_or_else(|| "No tokens".to_string())?;
    let mut parser = Parser::new(stmts);
    parser.parse();
    if !parser.errors().is_empty() {
        return Err(format!("Parse errors for: {}", source));
    }

    let stmts = parser.take().ok_or_else(|| "No stmts".to_string())?;
    let module = std_module().expect("Should register");
    let resolver = MemoryImportResolver::default();

    let constructor = Constructor::new(&module, &resolver, None);
    let construct = constructor
        .generate(&stmts)
        .map_err(|_| format!("Constructor errors for: {}", source))?;

    Ok(Instructor::new(None).generate(construct, source, vec![]))
}

/// Compile a script against the standard module, panicking on any error.
fn expected_compile(source: String) -> Program {
    let stmts = expected_parse(source.clone());

    let module = std_module().expect("Should register");
    let resolver = MemoryImportResolver::default();

    // Type checking and such
    let constructor = Constructor::new(&module, &resolver, None);
    let construct = constructor
        .generate(&stmts)
        .expect("Should be able to construct");

    // Turn to machine code
    Instructor::new(None).generate(construct, source, vec![])
}

/// Scan and parse a script, panicking on any error.
fn expected_parse(source: String) -> Vec<Stmt> {
    let mut scanner = Scanner::new(source);
    scanner.scan();

    // We should have no errors
    assert_eq!(scanner.errors(), &[]);

    // Parse the scanned tokens
    let mut parser = Parser::new(scanner.get().unwrap());
    parser.parse();

    // We should have no errors
    assert_eq!(parser.errors(), &[]);

    parser.take().expect("Should have stmts")
}

/// The host that runs the library's natives, and floats and `print` besides.
fn host() -> StdHost<FloatHost> {
    StdHost { inner: FloatHost }
}

/// Run a program that gives a float.
fn run_f64(executor: Executor, program: &Program) -> Result<f64, ExecutorError> {
    executor
        .run_with_any_return(program, &mut host())
        .map(|v| float_of(&v))
}

/// Runs the natives that the library leaves to its host: floats and `print`.
struct FloatHost;

fn float_of(value: &Value) -> f64 {
    match value {
        Value::Float(text) => text.parse::<f64>().expect("Should be a float"),
        other => panic!("Should be a float: {other:?}"),
    }
}

fn float_value(f: f64) -> Value {
    Value::Float(f.to_string())
}

impl NativeHost for FloatHost {
    fn call(
        &mut self,
        info: &CallInfo,
        callee: &mut Value,
        mut args: Vec<Value>,
    ) -> Result<Option<Value>, ExecutorErrorKind> {
        let id = match info.call_fn {
            FunctionKind::Free(i)
            | FunctionKind::Method(i)
            | FunctionKind::MethodMut(i)
            | FunctionKind::Property(i)
            | FunctionKind::Setter(i) => i,
        };
        if id == standard::PRINT {
            if let Some(Value::Str(s)) = args.pop() {
                println!("Hail Print: {s}");
            }
            return Ok(None);
        }
        if id == standard::INT_TO_FLOAT {
            return match callee {
                Value::Int(i) => Ok(Some(float_value(*i as f64))),
                _ => Err(ExecutorErrorKind::Fail("to_float on a non-integer".to_string())),
            };
        }
        if id == standard::STRING_PLUS_FLOAT {
            let text = match callee {
                Value::Str(s) => s.clone(),
                _ => return Err(ExecutorErrorKind::Fail("A string native was called on another kind of value.".to_string())),
            };
            let f = float_of(&args.pop().expect("Should have an argument"));
            return Ok(Some(Value::Str(format!("{text}{f}"))));
        }
        let a = float_of(callee);
        let mut next = || float_of(&args.pop().expect("Should have an argument"));
        let out = match id {
            standard::FLOAT_PLUS => float_value(a + next()),
            standard::FLOAT_MINUS => float_value(a - next()),
            standard::FLOAT_MULTIPLY => float_value(a * next()),
            standard::FLOAT_DIVIDE => float_value(a / next()),
            standard::FLOAT_REMAINDER => float_value(a % next()),
            standard::FLOAT_PLUS_EQUAL => {
                *callee = float_value(a + next());
                return Ok(None);
            }
            standard::FLOAT_MINUS_EQUAL => {
                *callee = float_value(a - next());
                return Ok(None);
            }
            standard::FLOAT_MULTIPLY_EQUAL => {
                *callee = float_value(a * next());
                return Ok(None);
            }
            standard::FLOAT_DIVIDE_EQUAL => {
                *callee = float_value(a / next());
                return Ok(None);
            }
            standard::FLOAT_REMAINDER_EQUAL => {
                *callee = float_value(a % next());
                return Ok(None);
            }
            standard::FLOAT_GREATER => Value::Bool(a > next()),
            standard::FLOAT_GREATER_EQUAL => Value::Bool(a >= next()),
            standard::FLOAT_LESSER => Value::Bool(a < next()),
            standard::FLOAT_LESSER_EQUAL => Value::Bool(a <= next()),
            standard::FLOAT_EQUAL => Value::Bool(a == next()),
            standard::FLOAT_NOT_EQUAL => Value::Bool(a != next()),
            standard::FLOAT_NEGATE => float_value(-a),
            standard::FLOAT_ABS => float_value(a.abs()),
            standard::FLOAT_POW => float_value(a.powf(next())),
            standard::FLOAT_MIN => float_value(a.min(next())),
            standard::FLOAT_MAX => float_value(a.max(next())),
            standard::FLOAT_TO_INT => Value::Int(a as i64),
            standard::FLOAT_TO_STRING => Value::Str(a.to_string()),
            standard::FLOAT_FLOOR => float_value(a.floor()),
            standard::FLOAT_CEILING => float_value(a.ceil()),
            standard::FLOAT_LERP => {
                let b = next();
                let t = next();
                float_value(if t <= 0. {
                    a
                } else if t >= 1. {
                    b
                } else {
                    a + (b - a) * t
                })
            }
            standard::FLOAT_SIN => float_value(a.sin()),
            standard::FLOAT_COS => float_value(a.cos()),
            standard::FLOAT_TAN => float_value(a.tan()),
            standard::FLOAT_SQRT => float_value(a.sqrt()),
            other => return Err(ExecutorErrorKind::Fail(format!("No native {other}"))),
        };
        Ok(Some(out))
    }
}

/// User defined function: simple identity style call
#[test]
fn script_func_simple_call() {
    let program = expected_compile("fn double(x: i64) -> i64 { x + x } double(7)".to_owned());
    let executor = Executor::default();
    let result = executor
        .run_with_return::<i64, _>(&program, &mut host())
        .expect("Should execute");
    assert_eq!(result, 14);
}

/// User defined function with no return type (void body value ignored)
#[test]
fn script_func_no_return_type() {
    // Infer return type of function
    let program = expected_compile("fn say_hi(x: i64) -> i64 { x + 1 } say_hi(5); 99".to_owned());
    let executor = Executor::default();
    let result = executor
        .run_with_return::<i64, _>(&program, &mut host())
        .expect("Should execute");
    assert_eq!(result, 99);
}

/// User defined function: multiple parameters
#[test]
fn script_func_multiple_params() {
    let program = expected_compile(
        "fn add3(a: i64, b: i64, c: i64) -> i64 { a + b + c } add3(1, 2, 3)".to_owned(),
    );
    let executor = Executor::default();
    let result = executor
        .run_with_return::<i64, _>(&program, &mut host())
        .expect("Should execute");
    assert_eq!(result, 6);
}

/// User defined function: result used in arithmetic
#[test]
fn script_func_result_in_expr() {
    let program = expected_compile("fn inc(n: i64) -> i64 { n + 1 } inc(10) + inc(20)".to_owned());
    let executor = Executor::default();
    let result = executor
        .run_with_return::<i64, _>(&program, &mut host())
        .expect("Should execute");
    assert_eq!(result, 32);
}

/// User defined function: result stored in variable
#[test]
fn script_func_result_stored() {
    let program =
        expected_compile("fn square(n: i64) -> i64 { n * n } let x = square(6); x".to_owned());
    let executor = Executor::default();
    let result = executor
        .run_with_return::<i64, _>(&program, &mut host())
        .expect("Should execute");
    assert_eq!(result, 36);
}

/// User defined function: chained calls
#[test]
fn script_func_chained_calls() {
    let program = expected_compile("fn inc(n: i64) -> i64 { n + 1 } inc(inc(inc(0)))".to_owned());
    let executor = Executor::default();
    let result = executor
        .run_with_return::<i64, _>(&program, &mut host())
        .expect("Should execute");
    assert_eq!(result, 3);
}

/// User defined function: one function calls another (forward reference)
#[test]
fn script_func_calls_other_func() {
    let program = expected_compile(
        "fn double(n: i64) -> i64 { n + n } fn quad(n: i64) -> i64 { double(double(n)) } quad(3)"
            .to_owned(),
    );
    let executor = Executor::default();
    let result = executor
        .run_with_return::<i64, _>(&program, &mut host())
        .expect("Should execute");
    assert_eq!(result, 12);
}

/// User defined function with a String parameter and return
#[test]
fn script_func_string_param_return() {
    let program = expected_compile(
        r#"fn greet(name: String) -> String { "Hello, " + name } greet("World")"#.to_owned(),
    );
    let executor = Executor::default();
    let result = executor
        .run_with_return::<String, _>(&program, &mut host())
        .expect("Should execute");
    assert_eq!(result, "Hello, World".to_string());
}

/// User defined function: zero parameters
#[test]
fn script_func_zero_params() {
    let program = expected_compile("fn answer() -> i64 { 42 } answer()".to_owned());
    let executor = Executor::default();
    let result = executor
        .run_with_return::<i64, _>(&program, &mut host())
        .expect("Should execute");
    assert_eq!(result, 42);
}

/// User defined function: local variable declared inside body
#[test]
fn script_func_local_variable() {
    let program = expected_compile(
        "fn compute(x: i64) -> i64 { let mut tmp = x * 2; tmp + 1 } compute(5)".to_owned(),
    );
    let executor = Executor::default();
    let result = executor
        .run_with_return::<i64, _>(&program, &mut host())
        .expect("Should execute");
    assert_eq!(result, 11);
}

/// Function used as a first class value stored in a variable
#[test]
fn func_value_stored_and_called() {
    let program =
        expected_compile("fn double(n: i64) -> i64 { n + n } let f = double; f(5)".to_owned());
    let executor = Executor::default();
    let result = executor
        .run_with_return::<i64, _>(&program, &mut host())
        .expect("Should execute");
    assert_eq!(result, 10);
}

/// Function value: zero param function stored and called
#[test]
fn func_value_zero_params_stored_and_called() {
    let program = expected_compile("fn answer() -> i64 { 42 } let f = answer; f()".to_owned());
    let executor = Executor::default();
    let result = executor
        .run_with_return::<i64, _>(&program, &mut host())
        .expect("Should execute");
    assert_eq!(result, 42);
}

/// Function value: result used in expression
#[test]
fn func_value_result_in_expr() {
    let program =
        expected_compile("fn inc(n: i64) -> i64 { n + 1 } let f = inc; f(9) + f(1)".to_owned());
    let executor = Executor::default();
    let result = executor
        .run_with_return::<i64, _>(&program, &mut host())
        .expect("Should execute");
    assert_eq!(result, 12);
}

/// Multiple user defined functions
#[test]
fn script_func_multiple_functions_ordering() {
    let program = expected_compile(
        "fn first(n: i64) -> i64 { n + 1 }\n\
              fn second(n: i64) -> i64 { n * 2 }\n\
              fn third(n: i64) -> i64 { n - 3 }\n\
              first(10) + second(5) + third(8)"
            .to_owned(),
    );
    let executor = Executor::default();
    let result = executor
        .run_with_return::<i64, _>(&program, &mut host())
        .expect("Should execute");
    // first(10)=11, second(5)=10, third(8)=5 => 11+10+5=26
    assert_eq!(result, 26);
}

/// Three functions calling each other in a chain (A->B->C), all defined before calls
#[test]
fn script_func_chained_three_way() {
    let program = expected_compile(
        "fn step_a(n: i64) -> i64 { n + 1 }\n\
              fn step_b(n: i64) -> i64 { step_a(n) * 2 }\n\
              fn step_c(n: i64) -> i64 { step_b(n) - 3 }\n\
              step_c(5)"
            .to_owned(),
    );
    let executor = Executor::default();
    let result = executor
        .run_with_return::<i64, _>(&program, &mut host())
        .expect("Should execute");
    // step_a(5)=6, step_b(5)=12, step_c(5)=9
    assert_eq!(result, 9);
}

/// Multiple functions with different parameter counts and return types (String vs i64)
#[test]
fn script_func_mixed_types() {
    let program = expected_compile(
        "fn add(a: i64, b: i64) -> i64 { a + b }\n\
              fn greet(name: String) -> String { \"Hello, \" + name }\n\
              add(3, 4)"
            .to_owned(),
    );
    let executor = Executor::default();
    let result = executor
        .run_with_return::<i64, _>(&program, &mut host())
        .expect("Should execute");
    assert_eq!(result, 7);
}

/// Function stored as value and called later (tests LoadFunction + CallScript ordering)
#[test]
fn script_func_stored_and_called_later() {
    let program = expected_compile(
        "fn double(n: i64) -> i64 { n * 2 }\n\
              fn triple(n: i64) -> i64 { n * 3 }\n\
              let f = double;\n\
              let g = triple;\n\
              f(5) + g(7)"
            .to_owned(),
    );
    let executor = Executor::default();
    let result = executor
        .run_with_return::<i64, _>(&program, &mut host())
        .expect("Should execute");
    // double(5)=10, triple(7)=21 => 10+21=31
    assert_eq!(result, 31);
}

/// Deeply nested function calls with multiple functions in the program
#[test]
fn script_func_deep_nesting() {
    let program = expected_compile(
        "fn inc(n: i64) -> i64 { n + 1 }\n\
              fn double(n: i64) -> i64 { n * 2 }\n\
              fn triple(n: i64) -> i64 { n * 3 }\n\
              inc(double(triple(inc(0))))"
            .to_owned(),
    );
    let executor = Executor::default();
    let result = executor
        .run_with_return::<i64, _>(&program, &mut host())
        .expect("Should execute");
    // inc(0)=1, triple(1)=3, double(3)=6, inc(6)=7
    assert_eq!(result, 7);
}

/// Four functions defined in order, called in reverse
#[test]
fn script_func_reverse_call_order() {
    let program = expected_compile(
        "fn func_a(n: i64) -> i64 { n + 10 }\n\
              fn func_b(n: i64) -> i64 { n * 2 }\n\
              fn func_c(n: i64) -> i64 { n - 5 }\n\
              fn func_d(n: i64) -> i64 { n + n }\n\
              func_d(func_c(func_b(func_a(0))))"
            .to_owned(),
    );
    let executor = Executor::default();
    let result = executor
        .run_with_return::<i64, _>(&program, &mut host())
        .expect("Should execute");
    // func_a(0)=10, func_b(10)=20, func_c(20)=15, func_d(15)=30
    assert_eq!(result, 30);
}

/// Multiple functions with bodies that reference earlier defined functions by index
#[test]
fn script_func_index_resolution() {
    let program = expected_compile(
        "fn add_one(n: i64) -> i64 { n + 1 }\n\
              fn double(n: i64) -> i64 { n * 2 }\n\
              fn apply_add_then_double(n: i64) -> i64 { double(add_one(n)) }\n\
              apply_add_then_double(5)"
            .to_owned(),
    );
    let executor = Executor::default();
    let result = executor
        .run_with_return::<i64, _>(&program, &mut host())
        .expect("Should execute");
    // add_one(5)=6, double(6)=12 => 12
    assert_eq!(result, 12);
}

/// Bare return inside an if block should fail a return typing check
#[test]
fn script_func_bare_return_in_if_block() {
    let result = try_compile(
        "fn test() -> i64 {
            let mut my_condition = true;
            if my_condition {
                return;
            }

            5
        }
        test()"
            .to_owned(),
    );
    assert!(
        result.is_err(),
        "Bare `return;` in a function with explicit return type should fail compilation"
    );
}
