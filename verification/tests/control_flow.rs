use hail::standard::{self, StdHost, std_module};
use hail::{
    CallInfo, Constructor, Executor, ExecutorError, ExecutorErrorKind, FunctionKind, Instructor,
    MemoryImportResolver, NativeHost, Parser, Program, Scanner, Stmt, Value,
};

/// Compile a script against the standard module, returning `Err` if any stage fails.
fn try_compile(source: String) -> Result<Program, String> {
    let mut scanner = Scanner::new(source.clone());
    scanner.scan();
    if !scanner.errors().is_empty() {
        return Err(format!("Scanner errors for: {}", source));
    }

    let stmts = scanner.get().ok_or_else(|| "No tokens".to_string())?;
    let mut parser = Parser::new(stmts);
    parser.parse();
    if !parser.errors().is_empty() {
        return Err(format!("Parse errors for: {}", source));
    }

    let stmts = parser.take().ok_or_else(|| "No stmts".to_string())?;
    let module = std_module().expect("Should register");
    let resolver = MemoryImportResolver::default();

    let constructor = Constructor::new(&module, &resolver, None);
    let construct = constructor
        .generate(&stmts)
        .map_err(|_| format!("Constructor errors for: {}", source))?;

    Ok(Instructor::new(None).generate(construct, source, vec![]))
}

/// Compile a script against the standard module, panicking on any error.
fn expected_compile(source: String) -> Program {
    let stmts = expected_parse(source.clone());

    let module = std_module().expect("Should register");
    let resolver = MemoryImportResolver::default();

    // Type checking and such
    let constructor = Constructor::new(&module, &resolver, None);
    let construct = constructor
        .generate(&stmts)
        .expect("Should be able to construct");

    // Turn to machine code
    Instructor::new(None).generate(construct, source, vec![])
}

/// Scan and parse a script, panicking on any error.
fn expected_parse(source: String) -> Vec<Stmt> {
    let mut scanner = Scanner::new(source);
    scanner.scan();

    // We should have no errors
    assert_eq!(scanner.errors(), &[]);

    // Parse the scanned tokens
    let mut parser = Parser::new(scanner.get().unwrap());
    parser.parse();

    // We should have no errors
    assert_eq!(parser.errors(), &[]);

    parser.take().expect("Should have stmts")
}

/// The host that runs the library's natives, and floats and `print` besides.
fn host() -> StdHost<FloatHost> {
    StdHost { inner: FloatHost }
}

/// Run a program that gives a float.
fn run_f64(executor: Executor, program: &Program) -> Result<f64, ExecutorError> {
    executor
        .run_with_any_return(program, &mut host())
        .map(|v| float_of(&v))
}

/// Runs the natives that the library leaves to its host: floats and `print`.
struct FloatHost;

fn float_of(value: &Value) -> f64 {
    match value {
        Value::Float(text) => text.parse::<f64>().expect("Should be a float"),
        other => panic!("Should be a float: {other:?}"),
    }
}

fn float_value(f: f64) -> Value {
    Value::Float(f.to_string())
}

impl NativeHost for FloatHost {
    fn call(
        &mut self,
        info: &CallInfo,
        callee: &mut Value,
        mut args: Vec<Value>,
    ) -> Result<Option<Value>, ExecutorErrorKind> {
        let id = match info.call_fn {
            FunctionKind::Free(i)
            | FunctionKind::Method(i)
            | FunctionKind::MethodMut(i)
            | FunctionKind::Property(i)
            | FunctionKind::Setter(i) => i,
        };
        if id == standard::PRINT {
            if let Some(Value::Str(s)) = args.pop() {
                println!("Hail Print: {s}");
            }
            return Ok(None);
        }
        if id == standard::INT_TO_FLOAT {
            return match callee {
                Value::Int(i) => Ok(Some(float_value(*i as f64))),
                _ => Err(ExecutorErrorKind::Fail("to_float on a non-integer".to_string())),
            };
        }
        if id == standard::STRING_PLUS_FLOAT {
            let text = match callee {
                Value::Str(s) => s.clone(),
                _ => return Err(ExecutorErrorKind::Fail("A string native was called on another kind of value.".to_string())),
            };
            let f = float_of(&args.pop().expect("Should have an argument"));
            return Ok(Some(Value::Str(format!("{text}{f}"))));
        }
        let a = float_of(callee);
        let mut next = || float_of(&args.pop().expect("Should have an argument"));
        let out = match id {
            standard::FLOAT_PLUS => float_value(a + next()),
            standard::FLOAT_MINUS => float_value(a - next()),
            standard::FLOAT_MULTIPLY => float_value(a * next()),
            standard::FLOAT_DIVIDE => float_value(a / next()),
            standard::FLOAT_REMAINDER => float_value(a % next()),
            standard::FLOAT_PLUS_EQUAL => {
                *callee = float_value(a + next());
                return Ok(None);
            }
            standard::FLOAT_MINUS_EQUAL => {
                *callee = float_value(a - next());
                return Ok(None);
            }
            standard::FLOAT_MULTIPLY_EQUAL => {
                *callee = float_value(a * next());
                return Ok(None);
            }
            standard::FLOAT_DIVIDE_EQUAL => {
                *callee = float_value(a / next());
                return Ok(None);
            }
            standard::FLOAT_REMAINDER_EQUAL => {
                *callee = float_value(a % next());
                return Ok(None);
            }
            standard::FLOAT_GREATER => Value::Bool(a > next()),
            standard::FLOAT_GREATER_EQUAL => Value::Bool(a >= next()),
            standard::FLOAT_LESSER => Value::Bool(a < next()),
            standard::FLOAT_LESSER_EQUAL => Value::Bool(a <= next()),
            standard::FLOAT_EQUAL => Value::Bool(a == next()),
            standard::FLOAT_NOT_EQUAL => Value::Bool(a != next()),
            standard::FLOAT_NEGATE => float_value(-a),
            standard::FLOAT_ABS => float_value(a.abs()),
            standard::FLOAT_POW => float_value(a.powf(next())),
            standard::FLOAT_MIN => float_value(a.min(next())),
            standard::FLOAT_MAX => float_value(a.max(next())),
            standard::FLOAT_TO_INT => Value::Int(a as i64),
            standard::FLOAT_TO_STRING => Value::Str(a.to_string()),
            standard::FLOAT_FLOOR => float_value(a.floor()),
            standard::FLOAT_CEILING => float_value(a.ceil()),
            standard::FLOAT_LERP => {
                let b = next();
                let t = next();
                float_value(if t <= 0. {
                    a
                } else if t >= 1. {
                    b
                } else {
                    a + (b - a) * t
                })
            }
            standard::FLOAT_SIN => float_value(a.sin()),
            standard::FLOAT_COS => float_value(a.cos()),
            standard::FLOAT_TAN => float_value(a.tan()),
            standard::FLOAT_SQRT => float_value(a.sqrt()),
            other => return Err(ExecutorErrorKind::Fail(format!("No native {other}"))),
        };
        Ok(Some(out))
    }
}

/// Basic infinite loop with break condition
#[test]
fn basic_loop_with_break() {
    let program = expected_compile(
        "let mut i = 0; loop { i += 1; if i == 5 { break; } else { continue; } } i".to_owned(),
    );
    let executor = Executor::default();
    let result = executor
        .run_with_return::<i64, _>(&program, &mut host())
        .expect("Should execute");
    assert_eq!(result, 5);
}

/// Loop with continue skipping iterations
#[test]
fn loop_with_continue() {
    let program = expected_compile(
        "let mut i = 0; let mut sum = 0; loop { i += 1; if i % 2 == 0 { continue; } else { sum += i; if i >= 9 { break; } else { continue; } } } sum"
            .to_owned(),
    );
    let executor = Executor::default();
    let result = executor
        .run_with_return::<i64, _>(&program, &mut host())
        .expect("Should execute");
    assert_eq!(result, 25); // 1+3+5+7+9
}

/// Break in nested loops exits inner loop only
#[test]
fn nested_loop_break() {
    let program = expected_compile(
	"let mut i = 0; let mut j = 0; loop { i += 1; j = 0; loop { j += 1; if j == 3 { break; } else { continue; } } if i >= 2 { break; } else { continue; } } i * 10 + j".to_owned(),
	);

    let executor = Executor::default();

    let result = executor
        .run_with_return::<i64, _>(&program, &mut host())
        .expect("Should execute");

    assert_eq!(result, 23);
}

/// Count down and break early (non infinite loop fail case)
#[test]
fn break_statement() {
    let program = expected_compile(
        "let mut a = 5; while a > 0 { if a == 3 { break; } a -= 1; } a".to_owned(),
    );
    let executor = Executor::default();
    let result = executor
        .run_with_return::<i64, _>(&program, &mut host())
        .expect("Should execute");
    assert_eq!(result, 3);
}

/// Continue counting down then exit (non infinite loop fail case)
#[test]
fn continue_statement() {
    let program = expected_compile(
        "let mut a = 12; while a > 0 { a -= 1; if a > 7 { continue; } else { break; } } a"
            .to_owned(),
    );
    let executor = Executor::default();
    let result = executor
        .run_with_return::<i64, _>(&program, &mut host())
        .expect("Should execute");
    assert_eq!(result, 7);
}

/// If else with early return in else branch. Shouldn't have type mismatch.
/// The if branch produces i64, the else branch exits, expression type is i64.
#[test]
fn if_else_early_return_type_merge() {
    let program = expected_compile(
        "let x = true; let result = if x { 42 } else { print(\"missing\"); return; }; result"
            .to_owned(),
    );
    let executor = Executor::default();
    let result = executor
        .run_with_return::<i64, _>(&program, &mut host())
        .expect("Should execute");
    assert_eq!(result, 42);
}

/// If else with early return in if branch. Shouldn't have type mismatch.
/// The else branch produces i64, the if branch exits, expression type is i64.
#[test]
fn if_else_early_return_type_merge_reverse() {
    let program = expected_compile(
        "let x = false; let result = if x { print(\"found\"); return; } else { 99 }; result"
            .to_owned(),
    );
    let executor = Executor::default();
    let result = executor
        .run_with_return::<i64, _>(&program, &mut host())
        .expect("Should execute");
    assert_eq!(result, 99);
}

/// If else with early return in both branches. Expression type is none.
/// Both branches exit so the if else produces no value, trailing statement handles result.
#[test]
fn if_else_early_return_both_branches() {
    let program = expected_compile(
        "let x = false; if x { print(\"found\"); return 0; } else { print(\"missing\"); return 0; }; 42"
            .to_owned(),
    );
    let executor = Executor::default();
    // Both branches return, so the function exits early with NoReturnValue.
    // The trailing 42 is never reached.
    let result = executor.run_with_return::<i64, _>(&program, &mut host());
    assert!(result.is_err());
}

/// If else with early return in else branch. Expression value from if.
#[test]
fn if_else_early_return_expression_value() {
    let program = expected_compile(
        "let x = true; let result = if x { 100 } else { print(\"missing\"); return; }; result"
            .to_owned(),
    );
    let executor = Executor::default();
    let result = executor
        .run_with_return::<i64, _>(&program, &mut host())
        .expect("Should execute");
    assert_eq!(result, 100);
}

/// Nested else if chain with return in one branch should not produce type mismatch.
/// Each else if branch can have a return; without causing String vs none mismatches.
#[test]
fn nested_else_if_with_return_branch() {
    let program = expected_compile(
        "let state = 0; let result; if state == 0 { result = \"zero\"; } else if state == 1 { result = \"one\"; } else if state == 2 { return; } else { result = \"other\"; }; result"
            .to_owned(),
    );
    let executor = Executor::default();
    let result = executor
        .run_with_return::<String, _>(&program, &mut host())
        .expect("Should execute");
    assert_eq!(result, "zero".to_string());
}

/// Nested else if chain with return in middle branch, testing the true path.
#[test]
fn nested_else_if_with_return_branch_true_path() {
    let program = expected_compile(
        "let state = 1; let mut result = \"\"; if state == 0 { result = \"zero\"; } else if state == 1 { result = \"one\"; } else if state == 2 { return; } else { result = \"other\"; }; result"
            .to_owned(),
    );
    let executor = Executor::default();
    let result = executor
        .run_with_return::<String, _>(&program, &mut host())
        .expect("Should execute");
    assert_eq!(result, "one".to_string());
}

/// If else where one branch has a block with return in the middle (partial exit).
#[test]
fn if_else_block_partial_exit() {
    let program = expected_compile(
        "let x = true; let mut result = \"\"; if x { result = \"yes\"; } else { print(\"no\"); return; }; result"
            .to_owned(),
    );
    let executor = Executor::default();
    let result = executor
        .run_with_return::<String, _>(&program, &mut host())
        .expect("Should execute");
    assert_eq!(result, "yes".to_string());
}

/// If else where both branches produce String but one also has a return guard.
#[test]
fn if_else_both_strings_one_with_guard() {
    let program = expected_compile(
        "let x = true; let mut result = \"\"; if x { result = \"yes\"; } else if false { result = \"maybe\"; } else { print(\"no\"); return; }; result"
            .to_owned(),
    );
    let executor = Executor::default();
    let result = executor
        .run_with_return::<String, _>(&program, &mut host())
        .expect("Should execute");
    assert_eq!(result, "yes".to_string());
}
