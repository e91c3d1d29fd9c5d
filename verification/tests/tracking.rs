use hail::standard::{self, StdHost, std_module};
use hail::{
    CallInfo, Constructor, Executor, ExecutorError, ExecutorErrorKind, FunctionKind, Instructor,
    MemoryImportResolver, NativeHost, Parser, Program, Scanner, Stmt, Value,
};

/// Compile a script against the standard module, returning `Err` if any stage fails.
fn try_compile(source: String) -> Result<Program, String> {
    let mut scanner = Scanner::new(source.clone());
    scanner.scan();
    if !scanner.errors().is_empty() {
        return Err(format!("Scanner errors for: {}", source));
    }

    let stmts = scanner.get().ok_or_else(|| "No tokens".to_string())?;
    let mut parser = Parser::new(stmts);
    parser.parse();
    if !parser.errors().is_empty() {
        return Err(format!("Parse errors for: {}", source));
    }

    let stmts = parser.take().ok_or_else(|| "No stmts".to_string())?;
    let module = std_module().expect("Should register");
    let resolver = MemoryImportResolver::default();

    let constructor = Constructor::new(&module, &resolver, None);
    let construct = constructor
        .generate(&stmts)
        .map_err(|_| format!("Constructor errors for: {}", source))?;

    Ok(Instructor::new(None).generate(construct, source, vec![]))
}

/// Compile a script against the standard module, panicking on any error.
fn expected_compile(source: String) -> Program {
    let stmts = expected_parse(source.clone());

    let module = std_module().expect("Should register");
    let resolver = MemoryImportResolver::default();

    // Type checking and such
    let constructor = Constructor::new(&module, &resolver, None);
    let construct = constructor
        .generate(&stmts)
        .expect("Should be able to construct");

    // Turn to machine code
    Instructor::new(None).generate(construct, source, vec![])
}

/// Scan and parse a script, panicking on any error.
fn expected_parse(source: String) -> Vec<Stmt> {
    let mut scanner = Scanner::new(source);
    scanner.scan();

    // We should have no errors
    assert_eq!(scanner.errors(), &[]);

    // Parse the scanned tokens
    let mut parser = Parser::new(scanner.get().unwrap());
    parser.parse();

    // We should have no errors
    assert_eq!(parser.errors(), &[]);

    parser.take().expect("Should have stmts")
}

/// The host that runs the library's natives, and floats and `print` besides.
fn host() -> StdHost<FloatHost> {
    StdHost { inner: FloatHost }
}

/// Run a program that gives a float.
fn run_f64(executor: Executor, program: &Program) -> Result<f64, ExecutorError> {
    executor
        .run_with_any_return(program, &mut host())
        .map(|v| float_of(&v))
}

/// Runs the natives that the library leaves to its host: floats and `print`.
struct FloatHost;

fn float_of(value: &Value) -> f64 {
    match value {
        Value::Float(text) => text.parse::<f64>().expect("Should be a float"),
        other => panic!("Should be a float: {other:?}"),
    }
}

fn float_value(f: f64) -> Value {
    Value::Float(f.to_string())
}

impl NativeHost for FloatHost {
    fn call(
        &mut self,
        info: &CallInfo,
        callee: &mut Value,
        mut args: Vec<Value>,
    ) -> Result<Option<Value>, ExecutorErrorKind> {
        let id = match info.call_fn {
            FunctionKind::Free(i)
            | FunctionKind::Method(i)
            | FunctionKind::MethodMut(i)
            | FunctionKind::Property(i)
            | FunctionKind::Setter(i) => i,
        };
        if id == standard::PRINT {
            if let Some(Value::Str(s)) = args.pop() {
                println!("Hail Print: {s}");
            }
            return Ok(None);
        }
        if id == standard::INT_TO_FLOAT {
            return match callee {
                Value::Int(i) => Ok(Some(float_value(*i as f64))),
                _ => Err(ExecutorErrorKind::Fail("to_float on a non-integer".to_string())),
            };
        }
        if id == standard::STRING_PLUS_FLOAT {
            let text = match callee {
                Value::Str(s) => s.clone(),
                _ => return Err(ExecutorErrorKind::Fail("A string native was called on another kind of value.".to_string())),
            };
            let f = float_of(&args.pop().expect("Should have an argument"));
            return Ok(Some(Value::Str(format!("{text}{f}"))));
        }
        let a = float_of(callee);
        let mut next = || float_of(&args.pop().expect("Should have an argument"));
        let out = match id {
            standard::FLOAT_PLUS => float_value(a + next()),
            standard::FLOAT_MINUS => float_value(a - next()),
            standard::FLOAT_MULTIPLY => float_value(a * next()),
            standard::FLOAT_DIVIDE => float_value(a / next()),
            standard::FLOAT_REMAINDER => float_value(a % next()),
            standard::FLOAT_PLUS_EQUAL => {
                *callee = float_value(a + next());
                return Ok(None);
            }
            standard::FLOAT_MINUS_EQUAL => {
                *callee = float_value(a - next());
                return Ok(None);
            }
            standard::FLOAT_MULTIPLY_EQUAL => {
                *callee = float_value(a * next());
                return Ok(None);
            }
            standard::FLOAT_DIVIDE_EQUAL => {
                *callee = float_value(a / next());
                return Ok(None);
            }
            standard::FLOAT_REMAINDER_EQUAL => {
                *callee = float_value(a % next());
                return Ok(None);
            }
            standard::FLOAT_GREATER => Value::Bool(a > next()),
            standard::FLOAT_GREATER_EQUAL => Value::Bool(a >= next()),
            standard::FLOAT_LESSER => Value::Bool(a < next()),
            standard::FLOAT_LESSER_EQUAL => Value::Bool(a <= next()),
            standard::FLOAT_EQUAL => Value::Bool(a == next()),
            standard::FLOAT_NOT_EQUAL => Value::Bool(a != next()),
            standard::FLOAT_NEGATE => float_value(-a),
            standard::FLOAT_ABS => float_value(a.abs()),
            standard::FLOAT_POW => float_value(a.powf(next())),
            standard::FLOAT_MIN => float_value(a.min(next())),
            standard::FLOAT_MAX => float_value(a.max(next())),
            standard::FLOAT_TO_INT => Value::Int(a as i64),
            standard::FLOAT_TO_STRING => Value::Str(a.to_string()),
            standard::FLOAT_FLOOR => float_value(a.floor()),
            standard::FLOAT_CEILING => float_value(a.ceil()),
            standard::FLOAT_LERP => {
                let b = next();
                let t = next();
                float_value(if t <= 0. {
                    a
                } else if t >= 1. {
                    b
                } else {
                    a + (b - a) * t
                })
            }
            standard::FLOAT_SIN => float_value(a.sin()),
            standard::FLOAT_COS => float_value(a.cos()),
            standard::FLOAT_TAN => float_value(a.tan()),
            standard::FLOAT_SQRT => float_value(a.sqrt()),
            other => return Err(ExecutorErrorKind::Fail(format!("No native {other}"))),
        };
        Ok(Some(out))
    }
}

/// Stable case to ensure tracking is "ok"
#[test]
fn basic() {
    let program = expected_compile("let x = 42; x + 1".to_owned());
    let executor = Executor::tracking(5, 32);
    assert_eq!(executor.run_with_return::<i64, _>(&program, &mut host()), Ok(43));
}

#[test]
fn instruction_limit_exceeded() {
    let program = expected_compile("let mut i = 0; while i < 128 { i += 1; }".to_owned());

    // Takes roughly 1028 instructions, with 3 i64 in memory at max
    let executor = Executor::tracking(512, std::mem::size_of::<i64>() * 3);
    assert_eq!(
        executor.run(&program, &mut host()),
        Err(ExecutorError::new_with_program(
            ExecutorErrorKind::InstructionLimit(512),
            &program,
            // FIXME / NOTE: This may be fragile in the event of compiler optimizations
            8
        ))
    );
}

#[test]
fn memory_limit_exceeded() {
    // Make a big string
    let program = expected_compile(format!("let s = \"{}\"; s", "x".repeat(128)));

    let executor = Executor::tracking(3, 256);
    assert_eq!(
        executor.run(&program, &mut host()),
        Err(ExecutorError::new_with_program(
            ExecutorErrorKind::OutOfMemory(136, 136, 256),
            &program,
            // FIXME / NOTE: This may be fragile in the event of compiler optimizations
            2
        ))
    );
}

/// Expressions need to release memory
#[test]
fn memory_released() {
    let program = expected_compile(
        "let z = { let x = 1; let y = 2; x + y + 7 + 11 + 19 }; let w = { z + 12 + 13 }; z + w"
            .to_owned(),
    );
    let executor = Executor::tracking(32, 32);

    assert_eq!(executor.run_with_return::<i64, _>(&program, &mut host()), Ok(105));
}

/// Range iterator should not allocate a vector for large ranges
#[test]
fn range_iterator_large_range() {
    // Sum of 0..500 is 500*499/2 = 124750
    let program = expected_compile("let mut sum = 0; for i in 0..500 { sum += i; } sum".to_owned());

    // A simple iterator like this shouldn't use more than 57 bytes of memory:
    // 8: "Sum"
    // +16: 0 + 500 on stack
    // -+16: Stack to iterator
    // +9 (+16 temp): Option "i" from iterator
    // +8 (+9 temp): Unwrap "i"
    
    // Instruction limit of 8192 is "reasonable"
    let executor = Executor::tracking(8192, 57);
    let result = executor.run_with_return::<i64, _>(&program, &mut host());

    assert_eq!(result, Ok(124750));
}

#[test]
fn constant_above_the_memory_limit_is_out_of_memory() {
    let program = expected_compile("\"twenty characters..\"".to_owned());
    let executor = Executor::tracking(100, 10);
    let result = executor.run_with_any_return(&program, &mut host());
    match result {
        Err(ExecutorError { kind: ExecutorErrorKind::OutOfMemory(in_use, size, limit), .. }) => {
            assert_eq!((in_use, size, limit), (0, 27, 10));
        },
        other => panic!("expected running out of memory, got {other:?}"),
    }
}

#[test]
fn untracked_executor_counts_nothing() {
    let program = expected_compile("let a = 1; a + 2".to_owned());
    let mut executor = Executor::default();
    let mut native_host = host();
    let mut steps = 0;
    while let Ok(hail::StepResult::Continue) = executor.execute_instruction(&program, &mut native_host) {
        steps += 1;
    }
    assert!(steps > 0);
    let info = executor.take_tracking();
    assert_eq!((info.executed_instructions, info.memory_peak), (0, 0));
}
