use hail::standard::{self, StdHost, std_module};
use hail::{
    CallInfo, Constructor, Executor, ExecutorError, ExecutorErrorKind, FunctionKind, Instructor,
    MemoryImportResolver, NativeHost, Parser, Program, Scanner, Stmt, Value,
};

/// Compile a script against the standard module, returning `Err` if any stage fails.
fn try_compile(source: String) -> Result<Program, String> {
    let mut scanner = Scanner::new(source.clone());
    scanner.scan();
    if !scanner.errors().is_empty() {
        return Err(format!("Scanner errors for: {}", source));
    }

    let stmts = scanner.get().ok_or_else(|| "No tokens".to_string())?;
    let mut parser = Parser::new(stmts);
    parser.parse();
    if !parser.errors().is_empty() {
        return Err(format!("Parse errors for: {}", source));
    }

    let stmts = parser.take().ok_or_else(|| "No stmts".to_string())?;
    let module = std_module().expect("Should register");
    let resolver = MemoryImportResolver::default();

    let constructor = Constructor::new(&module, &resolver, None);
    let construct = constructor
        .generate(&stmts)
        .map_err(|_| format!("Constructor errors for: {}", source))?;

    Ok(Instructor::new(None).generate(construct, source, vec![]))
}

/// Compile a script against the standard module, panicking on any error.
fn expected_compile(source: String) -> Program {
    let stmts = expected_parse(source.clone());

    let module = std_module().expect("Should register");
    let resolver = MemoryImportResolver::default();

    // Type checking and such
    let constructor = Constructor::new(&module, &resolver, None);
    let construct = constructor
        .generate(&stmts)
        .expect("Should be able to construct");

    // Turn to machine code
    Instructor::new(None).generate(construct, source, vec![])
}

/// Scan and parse a script, panicking on any error.
fn expected_parse(source: String) -> Vec<Stmt> {
    let mut scanner = Scanner::new(source);
    scanner.scan();

    // We should have no errors
    assert_eq!(scanner.errors(), &[]);

    // Parse the scanned tokens
    let mut parser = Parser::new(scanner.get().unwrap());
    parser.parse();

    // We should have no errors
    assert_eq!(parser.errors(), &[]);

    parser.take().expect("Should have stmts")
}

/// The host that runs the library's natives, and floats and `print` besides.
fn host() -> StdHost<FloatHost> {
    StdHost { inner: FloatHost }
}

/// Run a program that gives a float.
fn run_f64(executor: Executor, program: &Program) -> Result<f64, ExecutorError> {
    executor
        .run_with_any_return(program, &mut host())
        .map(|v| float_of(&v))
}

/// Runs the natives that the library leaves to its host: floats and `print`.
struct FloatHost;

fn float_of(value: &Value) -> f64 {
    match value {
        Value::Float(text) => text.parse::<f64>().expect("Should be a float"),
        other => panic!("Should be a float: {other:?}"),
    }
}

fn float_value(f: f64) -> Value {
    Value::Float(f.to_string())
}

impl NativeHost for FloatHost {
    fn call(
        &mut self,
        info: &CallInfo,
        callee: &mut Value,
        mut args: Vec<Value>,
    ) -> Result<Option<Value>, ExecutorErrorKind> {
        let id = match info.call_fn {
            FunctionKind::Free(i)
            | FunctionKind::Method(i)
            | FunctionKind::MethodMut(i)
            | FunctionKind::Property(i)
            | FunctionKind::Setter(i) => i,
        };
        if id == standard::PRINT {
            if let Some(Value::Str(s)) = args.pop() {
                println!("Hail Print: {s}");
            }
            return Ok(None);
        }
        if id == standard::INT_TO_FLOAT {
            return match callee {
                Value::Int(i) => Ok(Some(float_value(*i as f64))),
                _ => Err(ExecutorErrorKind::Fail("to_float on a non-integer".to_string())),
            };
        }
        if id == standard::STRING_PLUS_FLOAT {
            let text = match callee {
                Value::Str(s) => s.clone(),
                _ => return Err(ExecutorErrorKind::Fail("A string native was called on another kind of value.".to_string())),
            };
            let f = float_of(&args.pop().expect("Should have an argument"));
            return Ok(Some(Value::Str(format!("{text}{f}"))));
        }
        let a = float_of(callee);
        let mut next = || float_of(&args.pop().expect("Should have an argument"));
        let out = match id {
            standard::FLOAT_PLUS => float_value(a + next()),
            standard::FLOAT_MINUS => float_value(a - next()),
            standard::FLOAT_MULTIPLY => float_value(a * next()),
            standard::FLOAT_DIVIDE => float_value(a / next()),
            standard::FLOAT_REMAINDER => float_value(a % next()),
            standard::FLOAT_PLUS_EQUAL => {
                *callee = float_value(a + next());
                return Ok(None);
            }
            standard::FLOAT_MINUS_EQUAL => {
                *callee = float_value(a - next());
                return Ok(None);
            }
            standard::FLOAT_MULTIPLY_EQUAL => {
                *callee = float_value(a * next());
                return Ok(None);
            }
            standard::FLOAT_DIVIDE_EQUAL => {
                *callee = float_value(a / next());
                return Ok(None);
            }
            standard::FLOAT_REMAINDER_EQUAL => {
                *callee = float_value(a % next());
                return Ok(None);
            }
            standard::FLOAT_GREATER => Value::Bool(a > next()),
            standard::FLOAT_GREATER_EQUAL => Value::Bool(a >= next()),
            standard::FLOAT_LESSER => Value::Bool(a < next()),
            standard::FLOAT_LESSER_EQUAL => Value::Bool(a <= next()),
            standard::FLOAT_EQUAL => Value::Bool(a == next()),
            standard::FLOAT_NOT_EQUAL => Value::Bool(a != next()),
            standard::FLOAT_NEGATE => float_value(-a),
            standard::FLOAT_ABS => float_value(a.abs()),
            standard::FLOAT_POW => float_value(a.powf(next())),
            standard::FLOAT_MIN => float_value(a.min(next())),
            standard::FLOAT_MAX => float_value(a.max(next())),
            standard::FLOAT_TO_INT => Value::Int(a as i64),
            standard::FLOAT_TO_STRING => Value::Str(a.to_string()),
            standard::FLOAT_FLOOR => float_value(a.floor()),
            standard::FLOAT_CEILING => float_value(a.ceil()),
            standard::FLOAT_LERP => {
                let b = next();
                let t = next();
                float_value(if t <= 0. {
                    a
                } else if t >= 1. {
                    b
                } else {
                    a + (b - a) * t
                })
            }
            standard::FLOAT_SIN => float_value(a.sin()),
            standard::FLOAT_COS => float_value(a.cos()),
            standard::FLOAT_TAN => float_value(a.tan()),
            standard::FLOAT_SQRT => float_value(a.sqrt()),
            other => return Err(ExecutorErrorKind::Fail(format!("No native {other}"))),
        };
        Ok(Some(out))
    }
}

/// Test basic iteration over Vec
#[test]
fn for_loop_basic() {
    let program = expected_compile(
        "let arr = [10, 20, 30]; let mut sum = 0; for x in arr { sum += x; } sum".to_owned(),
    );

    let executor = Executor::default();
    let result = executor
        .run_with_return::<i64, _>(&program, &mut host())
        .expect("Should execute");

    assert_eq!(result, 60); // 10 + 20 + 30
}

/// If empty, it shouldn't iterate
#[test]
fn for_loop_empty() {
    let program = expected_compile(
        "let arr = Vec<i64>(); let mut count = 0; for x in arr { count += 1; } count".to_owned(),
    );

    let executor = Executor::default();
    let result = executor
        .run_with_return::<i64, _>(&program, &mut host())
        .expect("Should execute");

    assert_eq!(result, 0); // Loop body never executes
}

/// For loop with mutable variable
#[test]
fn for_loop_mutable() {
    let program = expected_compile(
        "let arr = [1, 2, 3]; let mut sum = 0; for mut x in arr { x *= 2; sum += x; } sum"
            .to_owned(),
    );

    let executor = Executor::default();
    let result = executor
        .run_with_return::<i64, _>(&program, &mut host())
        .expect("Should execute");

    assert_eq!(result, 12); // (1+2+3) * 2
}

/// Nested for loop
#[test]
fn for_loop_nested_loops() {
    let program = expected_compile(
        "let outer = [1, 2]; let inner = [10, 20]; let mut sum = 0; for a in outer { for b in inner { sum += a + b; } } sum"
        .to_owned(),
    );

    let executor = Executor::default();
    let result = executor
        .run_with_return::<i64, _>(&program, &mut host())
        .expect("Should execute");

    // (1+10) + (1+20) + (2+10) + (2+20) = 11 + 21 + 12 + 22 = 66
    assert_eq!(result, 66);
}

/// For loop modify external
#[test]
fn for_loop_modify_external() {
    let program = expected_compile(
        "let arr = [1, 2, 3, 4, 5]; let mut found = false; for x in arr { if x == 3 { found = true; } } found"
            .to_owned(),
    );

    let executor = Executor::default();
    let result = executor
        .run_with_return::<bool, _>(&program, &mut host())
        .expect("Should execute");

    assert_eq!(result, true);
}

/// Test for loop over exclusive range (0..4 -> 0,1,2,3)
#[test]
fn for_loop_exclusive_range() {
    let program = expected_compile("let mut sum = 0; for i in 0..4 { sum += i; } sum".to_owned());

    let executor = Executor::default();
    let result = executor
        .run_with_return::<i64, _>(&program, &mut host())
        .expect("Should execute");

    assert_eq!(result, 6); // 0+1+2+3
}

/// Test for loop over inclusive range (0..=4 -> 0,1,2,3,4)
#[test]
fn for_loop_inclusive_range() {
    let program = expected_compile("let mut sum = 0; for i in 0..=4 { sum += i; } sum".to_owned());

    let executor = Executor::default();
    let result = executor
        .run_with_return::<i64, _>(&program, &mut host())
        .expect("Should execute");

    assert_eq!(result, 10); // 0+1+2+3+4
}
