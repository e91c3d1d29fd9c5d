use hail::docs::{generate_docs, get_function_entry};
use hail::memory_usage::value_memory;
use hail::standard::{self, StdHost, std_module};
use hail::visualize::{AnsiColor, Severity, format_diagnostic, format_diagnostics, split_lines};
use hail::executor::value_type_name;
use hail::{
    AStmt, MaybeValueType, CallInfo, Constructor, Executor, ExecutorError, ExecutorErrorKind, FunctionKind, Instructor,
    MemoryImportResolver, Module, ModuleError, NativeHost, Parser, Program, Scanner, Stmt, TypePath, Value,
    ValueType, ConstructError, ConstructErrorType, Location, SyntaxError, SyntaxErrorType, FunctionInfo,
};

/// Compile a script against the standard module, returning `Err` if any stage fails.
fn try_compile(source: String) -> Result<Program, String> {
    let mut scanner = Scanner::new(source.clone());
    scanner.scan();
    if !scanner.errors().is_empty() {
        return Err(format!("Scanner errors for: {}", source));
    }

    let stmts = scanner.get().ok_or_else(|| "No tokens".to_string())?;
    let mut parser = Parser::new(stmts);
    parser.parse();
    if !parser.errors().is_empty() {
        return Err(format!("Parse errors for: {}", source));
    }

    let stmts = parser.take().ok_or_else(|| "No stmts".to_string())?;
    let module = std_module().expect("Should register");
    let resolver = MemoryImportResolver::default();

    let constructor = Constructor::new(&module, &resolver, None);
    let construct = constructor
        .generate(&stmts)
        .map_err(|_| format!("Constructor errors for: {}", source))?;

    Ok(Instructor::new(None).generate(construct, source, vec![]))
}

/// Compile a script against the standard module, panicking on any error.
fn expected_compile(source: String) -> Program {
    let stmts = expected_parse(source.clone());

    let module = std_module().expect("Should register");
    let resolver = MemoryImportResolver::default();

    // Type checking and such
    let constructor = Constructor::new(&module, &resolver, None);
    let construct = constructor
        .generate(&stmts)
        .expect("Should be able to construct");

    // Turn to machine code
    Instructor::new(None).generate(construct, source, vec![])
}

/// Scan and parse a script, panicking on any error.
fn expected_parse(source: String) -> Vec<Stmt> {
    let mut scanner = Scanner::new(source);
    scanner.scan();

    // We should have no errors
    assert_eq!(scanner.errors(), &[]);

    // Parse the scanned tokens
    let mut parser = Parser::new(scanner.get().unwrap());
    parser.parse();

    // We should have no errors
    assert_eq!(parser.errors(), &[]);

    parser.take().expect("Should have stmts")
}

/// The host that runs the library's natives, and floats and `print` besides.
fn host() -> StdHost<FloatHost> {
    StdHost { inner: FloatHost }
}

/// Run a program that gives a float.
fn run_f64(executor: Executor, program: &Program) -> Result<f64, ExecutorError> {
    executor
        .run_with_any_return(program, &mut host())
        .map(|v| float_of(&v))
}

/// Runs the natives that the library leaves to its host: floats and `print`.
struct FloatHost;

fn float_of(value: &Value) -> f64 {
    match value {
        Value::Float(text) => text.parse::<f64>().expect("Should be a float"),
        other => panic!("Should be a float: {other:?}"),
    }
}

fn float_value(f: f64) -> Value {
    Value::Float(f.to_string())
}

impl NativeHost for FloatHost {
    fn call(
        &mut self,
        info: &CallInfo,
        callee: &mut Value,
        mut args: Vec<Value>,
    ) -> Result<Option<Value>, ExecutorErrorKind> {
        let id = match info.call_fn {
            FunctionKind::Free(i)
            | FunctionKind::Method(i)
            | FunctionKind::MethodMut(i)
            | FunctionKind::Property(i)
            | FunctionKind::Setter(i) => i,
        };
        if id == standard::PRINT {
            if let Some(Value::Str(s)) = args.pop() {
                println!("Hail Print: {s}");
            }
            return Ok(None);
        }
        if id == standard::INT_TO_FLOAT {
            return match callee {
                Value::Int(i) => Ok(Some(float_value(*i as f64))),
                _ => Err(ExecutorErrorKind::Fail("to_float on a non-integer".to_string())),
            };
        }
        if id == standard::STRING_PLUS_FLOAT {
            let text = match callee {
                Value::Str(s) => s.clone(),
                _ => return Err(ExecutorErrorKind::Fail("A string native was called on another kind of value.".to_string())),
            };
            let f = float_of(&args.pop().expect("Should have an argument"));
            return Ok(Some(Value::Str(format!("{text}{f}"))));
        }
        let a = float_of(callee);
        let mut next = || float_of(&args.pop().expect("Should have an argument"));
        let out = match id {
            standard::FLOAT_PLUS => float_value(a + next()),
            standard::FLOAT_MINUS => float_value(a - next()),
            standard::FLOAT_MULTIPLY => float_value(a * next()),
            standard::FLOAT_DIVIDE => float_value(a / next()),
            standard::FLOAT_REMAINDER => float_value(a % next()),
            standard::FLOAT_PLUS_EQUAL => {
                *callee = float_value(a + next());
                return Ok(None);
            }
            standard::FLOAT_MINUS_EQUAL => {
                *callee = float_value(a - next());
                return Ok(None);
            }
            standard::FLOAT_MULTIPLY_EQUAL => {
                *callee = float_value(a * next());
                return Ok(None);
            }
            standard::FLOAT_DIVIDE_EQUAL => {
                *callee = float_value(a / next());
                return Ok(None);
            }
            standard::FLOAT_REMAINDER_EQUAL => {
                *callee = float_value(a % next());
                return Ok(None);
            }
            standard::FLOAT_GREATER => Value::Bool(a > next()),
            standard::FLOAT_GREATER_EQUAL => Value::Bool(a >= next()),
            standard::FLOAT_LESSER => Value::Bool(a < next()),
            standard::FLOAT_LESSER_EQUAL => Value::Bool(a <= next()),
            standard::FLOAT_EQUAL => Value::Bool(a == next()),
            standard::FLOAT_NOT_EQUAL => Value::Bool(a != next()),
            standard::FLOAT_NEGATE => float_value(-a),
            standard::FLOAT_ABS => float_value(a.abs()),
            standard::FLOAT_POW => float_value(a.powf(next())),
            standard::FLOAT_MIN => float_value(a.min(next())),
            standard::FLOAT_MAX => float_value(a.max(next())),
            standard::FLOAT_TO_INT => Value::Int(a as i64),
            standard::FLOAT_TO_STRING => Value::Str(a.to_string()),
            standard::FLOAT_FLOOR => float_value(a.floor()),
            standard::FLOAT_CEILING => float_value(a.ceil()),
            standard::FLOAT_LERP => {
                let b = next();
                let t = next();
                float_value(if t <= 0. {
                    a
                } else if t >= 1. {
                    b
                } else {
                    a + (b - a) * t
                })
            }
            standard::FLOAT_SIN => float_value(a.sin()),
            standard::FLOAT_COS => float_value(a.cos()),
            standard::FLOAT_TAN => float_value(a.tan()),
            standard::FLOAT_SQRT => float_value(a.sqrt()),
            other => return Err(ExecutorErrorKind::Fail(format!("No native {other}"))),
        };
        Ok(Some(out))
    }
}

fn run_i64(source: &str) -> Result<i64, ExecutorError> {
    Executor::default().run_with_return::<i64, _>(&expected_compile(source.to_owned()), &mut host())
}

fn run_string(source: &str) -> Result<String, ExecutorError> {
    Executor::default().run_with_return::<String, _>(&expected_compile(source.to_owned()), &mut host())
}

fn run_bool(source: &str) -> Result<bool, ExecutorError> {
    Executor::default().run_with_return::<bool, _>(&expected_compile(source.to_owned()), &mut host())
}

fn error_kind(source: &str) -> ExecutorErrorKind {
    Executor::default()
        .run(&expected_compile(source.to_owned()), &mut host())
        .expect_err("Should fail")
        .kind
}

fn info(name: &str, params: Vec<ValueType>, names: Vec<&str>, ret: Option<ValueType>, kind: FunctionKind) -> FunctionInfo {
    FunctionInfo {
        name: name.to_string(),
        param_types: params,
        param_names: names.into_iter().map(|s| s.to_string()).collect(),
        doc_comments: vec![],
        return_type: ret,
        kind,
    }
}

// Globals and types read back as they were registered.
#[test]
fn global_reads_back_what_was_registered() {
    let mut module = Module::default();
    module
        .register_global_value("ANSWER", ValueType::Int, Value::Int(42))
        .expect("Should register");
    module
        .register_global_value("OTHER", ValueType::Bool, Value::Bool(true))
        .expect("Should register");
    assert!(matches!(module.resolve_global("ANSWER"), Some((ValueType::Int, Value::Int(42)))));
    assert!(matches!(module.resolve_global("OTHER"), Some((ValueType::Bool, Value::Bool(true)))));
    assert!(module.resolve_global("MISSING").is_none());
}

#[test]
fn global_registered_twice_is_reported_and_replaced() {
    let mut module = Module::default();
    module.register_global_value("X", ValueType::Int, Value::Int(1)).expect("Should register");
    let r = module.register_global_value("X", ValueType::Bool, Value::Bool(false));
    assert_eq!(r, Err(ModuleError::DuplicateGlobal("X".to_string(), ValueType::Int, ValueType::Bool)));
    assert!(matches!(module.resolve_global("X"), Some((ValueType::Bool, Value::Bool(false)))));
}

#[test]
fn named_type_reads_back() {
    struct Marker;
    impl TypePath for Marker {
        fn type_path() -> String {
            "library::named_type_reads_back::Marker".to_owned()
        }
    }
    let mut module = Module::default();
    let vt = module.register_type_named::<Marker>("Marker").expect("Should register");
    assert_eq!(module.resolve_type("Marker"), Some(vt));
    assert_eq!(module.resolve_type("i64"), Some(ValueType::Int));
    assert_eq!(module.resolve_type("Vec<Marker>").map(|t| t.display()), Some("Vec<Marker>".to_string()));
    assert_eq!(
        module.resolve_type("Option<Vec<Option<Marker>>>").map(|t| t.display()),
        Some("Option<Vec<Option<Marker>>>".to_string())
    );
}

#[test]
fn conflicting_function_is_refused_and_module_kept() {
    let mut module = Module::default();
    module
        .register_function(info("f", vec![ValueType::Int], vec!["x"], None, FunctionKind::Free(1)))
        .expect("Should register");
    let r = module.register_function(info("f", vec![ValueType::Int], vec!["x"], None, FunctionKind::Free(2)));
    assert!(matches!(r, Err(ModuleError::DuplicateFunction(_, _))));
    assert_eq!(module.functions().len(), 1);
    // The same kind again is no conflict.
    module
        .register_function(info("f", vec![ValueType::Int], vec!["x"], None, FunctionKind::Free(1)))
        .expect("Should register");
    assert_eq!(module.functions().len(), 2);
}

#[test]
fn merge_appends_everything() {
    let mut a = Module::default();
    a.register_global_value("A", ValueType::Int, Value::Int(1)).expect("Should register");
    let mut b = Module::default();
    b.register_global_value("B", ValueType::Int, Value::Int(2)).expect("Should register");
    b.register_function(info("g", vec![], vec![], Some(ValueType::Int), FunctionKind::Free(7)))
        .expect("Should register");
    a.merge(b).expect("Should merge");
    assert_eq!(a.globals().len(), 2);
    assert_eq!(a.functions().len(), 1);
    assert!(matches!(a.resolve_global("B"), Some((ValueType::Int, Value::Int(2)))));
}

#[test]
fn merge_refuses_a_taken_global() {
    let mut a = Module::default();
    a.register_global_value("A", ValueType::Int, Value::Int(1)).expect("Should register");
    let mut b = Module::default();
    b.register_global_value("A", ValueType::Bool, Value::Bool(true)).expect("Should register");
    assert!(matches!(a.merge(b), Err(ModuleError::DuplicateGlobal(_, _, _))));
}

#[test]
fn merge_refuses_a_taken_type() {
    struct One;
    impl TypePath for One {
        fn type_path() -> String {
            "library::merge_refuses_a_taken_type::One".to_owned()
        }
    }
    let mut a = Module::default();
    a.register_type_named::<One>("One").expect("Should register");
    let mut b = Module::default();
    b.register_type_named::<One>("One").expect("Should register");
    assert!(matches!(a.merge(b), Err(ModuleError::DuplicateType(_, _))));
}

// Natives of vectors and options.
#[test]
fn push_then_index_reads_the_pushed_value() {
    assert_eq!(run_i64("let mut v = Vec<i64>(); v.push(5); v.push(9); v.index(1)"), Ok(9));
    assert_eq!(run_i64("let mut v = Vec<i64>(); v.push(5); v.len()"), Ok(1));
}

#[test]
fn pop_undoes_push() {
    assert_eq!(run_i64("let mut v = [1, 2]; v.push(3); let x = v.pop().unwrap(); x * 10 + v.len()"), Ok(32));
    assert_eq!(run_bool("let mut v = Vec<i64>(); v.pop().is_none()"), Ok(true));
}

#[test]
fn vector_insert_remove_set_get() {
    assert_eq!(run_i64("let mut v = [1, 3]; v.insert(1, 2); v.index(1) * 100 + v.len()"), Ok(203));
    assert_eq!(run_i64("let mut v = [1, 2, 3]; v.remove(0); v.index(0)"), Ok(2));
    assert_eq!(run_i64("let mut v = [1, 2, 3]; v.set(2, 9); v.index(2)"), Ok(9));
    assert_eq!(run_bool("let v = [1, 2, 3]; v.get(7).is_none()"), Ok(true));
    assert_eq!(run_i64("let v = [1, 2, 3]; v.get(1).unwrap()"), Ok(2));
    assert_eq!(run_bool("let v = Vec<i64>(); v.is_empty()"), Ok(true));
}

#[test]
fn vector_index_errors() {
    assert_eq!(error_kind("let v = [1, 2]; v.index(-1)"), ExecutorErrorKind::NegativeIndex(-1));
    assert_eq!(error_kind("let v = [1, 2]; v.index(5)"), ExecutorErrorKind::IndexOutOfRange(5, 2));
    assert_eq!(error_kind("let mut v = [1, 2]; v.insert(3, 1)"), ExecutorErrorKind::IndexOutOfRange(3, 2));
    assert_eq!(error_kind("let mut v = [1, 2]; v.remove(2)"), ExecutorErrorKind::IndexOutOfRange(2, 2));
    assert_eq!(error_kind("let mut v = [1, 2]; v.set(-3, 1)"), ExecutorErrorKind::NegativeIndex(-3));
}

#[test]
fn some_then_unwrap_gives_the_value() {
    assert_eq!(run_i64("Some(4).unwrap()"), Ok(4));
    assert_eq!(run_string("Some(\"x\").expect(\"none\")"), Ok("x".to_string()));
}

#[test]
fn empty_option_fails_to_unwrap() {
    assert_eq!(error_kind("Option<i64>().unwrap()"), ExecutorErrorKind::UnwrapFailed);
    assert_eq!(
        error_kind("Option<i64>().expect(\"gone\")"),
        ExecutorErrorKind::ExpectFailed("gone".to_string())
    );
}

// Integers.
#[test]
fn plus_then_minus_gives_back_the_integer() {
    assert_eq!(run_i64("let a = 123456789; let b = -987; a + b - b"), Ok(123456789));
}

#[test]
fn comparisons_agree() {
    assert_eq!(run_bool("3 < 4"), Ok(true));
    assert_eq!(run_bool("!(3 >= 4)"), Ok(true));
    assert_eq!(run_bool("4 <= 4"), Ok(true));
    assert_eq!(run_bool("5 != 5"), Ok(false));
}

#[test]
fn division_and_remainder_rebuild_the_dividend() {
    assert_eq!(run_i64("-7 / 2"), Ok(-3));
    assert_eq!(run_i64("-7 % 2"), Ok(-1));
    assert_eq!(run_i64("(-7 / 2) * 2 + (-7 % 2)"), Ok(-7));
}

#[test]
fn integer_overflow_and_division_by_zero_fail() {
    assert!(matches!(error_kind("9223372036854775807 + 1"), ExecutorErrorKind::Fail(_)));
    assert!(matches!(error_kind("1 / 0"), ExecutorErrorKind::Fail(_)));
    assert!(matches!(error_kind("let mut x = 5; x %= 0; x"), ExecutorErrorKind::Fail(_)));
    assert!(matches!(error_kind("2.pow(64)"), ExecutorErrorKind::Fail(_)));
}

#[test]
fn integer_methods() {
    assert_eq!(run_i64("2.pow(10)"), Ok(1024));
    assert_eq!(run_i64("(-3).pow(3)"), Ok(-27));
    assert_eq!(run_i64("(-5).abs()"), Ok(5));
    assert_eq!(run_i64("3.min(-2)"), Ok(-2));
    assert_eq!(run_i64("3.max(-2)"), Ok(3));
    assert_eq!(run_string("(-42).to_string()"), Ok("-42".to_string()));
}

#[test]
fn range_iteration_gives_each_integer_once() {
    assert_eq!(run_i64("let mut s = 0; for i in 3..7 { s = s * 10 + i; } s"), Ok(3456));
    assert_eq!(run_i64("let mut s = 0; for i in 1..=3 { s += i; } s"), Ok(6));
    assert_eq!(run_i64("let mut n = 0; for i in 5..5 { n += 1; } n"), Ok(0));
}

// Strings and booleans.
#[test]
fn string_methods() {
    assert_eq!(run_string("\"hello\".substring(1, 3)"), Ok("el".to_string()));
    assert_eq!(run_string("\"ab\".repeat(3)"), Ok("ababab".to_string()));
    assert_eq!(run_string("\"ab\".repeat(-1)"), Ok("".to_string()));
    assert_eq!(run_bool("\"hello\".contains(\"ll\")"), Ok(true));
    assert_eq!(run_i64("\"héllo\".len()"), Ok(6));
    assert_eq!(run_string("\"n = \" + 4"), Ok("n = 4".to_string()));
    assert_eq!(run_string("\"b = \" + true"), Ok("b = true".to_string()));
    assert_eq!(run_string("false.to_string()"), Ok("false".to_string()));
    assert_eq!(run_string("let mut s = \"a\"; s += \"b\"; s"), Ok("ab".to_string()));
}

#[test]
fn substring_inside_a_character_is_empty() {
    assert_eq!(run_string("\"é\".substring(1, 2)").expect("Should run"), "");
    assert_eq!(run_string("\"aé\".substring(0, 1)").expect("Should run"), "a");
    assert_eq!(run_string("\"aé\".substring(0, 2)").expect("Should run"), "");
}

#[test]
fn default_location_is_the_start() {
    assert_eq!(Location::default(), Location::new(1, 1, 0));
}

#[test]
fn todo_and_fail_report_their_messages() {
    assert_eq!(error_kind("todo(\"later\")"), ExecutorErrorKind::Todo("later".to_string()));
    let e = Executor::default()
        .run(&expected_compile("fail(\"boom\")".to_owned()), &mut host())
        .expect_err("Should fail");
    assert_eq!(e.message(), "FAIL: boom");
}

// Messages.
#[test]
fn executor_messages() {
    assert_eq!(
        ExecutorError::new(ExecutorErrorKind::IndexOutOfRange(5, 2)).message(),
        "Array index 5 is out of bounds for array of length 2."
    );
    assert_eq!(
        ExecutorError::new(ExecutorErrorKind::NegativeIndex(-1)).message(),
        "Array index must be non-negative, got -1."
    );
    assert_eq!(
        ExecutorError::new(ExecutorErrorKind::InvalidFunctionCall(
            "f".to_string(),
            vec![ValueType::Int, ValueType::Bool],
            vec![]
        ))
        .message(),
        "Invalid call to `f`. Expected params (i64, bool) but got ()."
    );
    assert_eq!(
        ExecutorError::new(ExecutorErrorKind::InstructionLimit(7)).message(),
        "Out of instructions! The limit of 7 instruction executions was reached."
    );
    assert_eq!(ExecutorError::new(ExecutorErrorKind::UnwrapFailed).message(), "Attempted to unwrap a `None` value.");
}

#[test]
fn construct_messages() {
    let at = Location::new(1, 1, 1);
    assert_eq!(
        ConstructError::new(at, ConstructErrorType::VariableUndefined("x".to_string())).message(),
        "Variable `x` is not defined."
    );
    assert_eq!(
        ConstructError::new(at, ConstructErrorType::NoMethod(ValueType::Int, "foo".to_string(), vec![ValueType::Bool]))
            .message(),
        "Type `i64` has no method named `foo` with parameters `bool`."
    );
    assert_eq!(
        ConstructError::new(at, ConstructErrorType::BreakOutsideOfLoop).message(),
        "Break outside of loop."
    );
}

#[test]
fn construct_error_of_an_import_shows_its_source() {
    let mut resolver = MemoryImportResolver::default();
    resolver.insert("bad".to_string(), "fn f() -> i64 { true }".to_string());
    let stmts = expected_parse("import \"bad\" as bad; 1".to_string());
    let module = std_module().expect("Should register");
    let err = Constructor::new(&module, &resolver, None)
        .generate(&stmts)
        .expect_err("Should fail");
    let message = err.message();
    assert!(message.starts_with("Import has construct error: "), "{message}");
    assert!(message.contains("Function return type `i64` does not match body type `bool`."), "{message}");
    assert!(message.contains("Hail | Error @"), "{message}");
    assert!(message.ends_with("\n"), "{message}");
}

#[test]
fn syntax_error_kind_text() {
    assert_eq!(SyntaxErrorType::UnexpectedCharacter('$').display(), "unexpected character '$'");
    assert_eq!(SyntaxErrorType::UnterminatedString.display(), "unterminated string");
}

// Diagnostics.
#[test]
fn colors_wrap_text() {
    assert_eq!(AnsiColor::Red.apply("x"), "\x1b[31mx\x1b[0m");
    assert_eq!(Severity::Warning.title(), "Warning");
    assert_eq!(Severity::Lint.color(), AnsiColor::BrightCyan);
}

#[test]
fn lines_split_as_str_lines_does() {
    let lines = |s: &str| -> Vec<String> { split_lines(s).into_iter().map(|l| l.into_iter().collect()).collect() };
    assert_eq!(lines("a\r\nb\n"), vec!["a".to_string(), "b".to_string()]);
    assert_eq!(lines("a\r"), vec!["a\r".to_string()]);
    assert_eq!(lines(""), Vec::<String>::new());
    assert_eq!(lines("\n\nx"), vec!["".to_string(), "".to_string(), "x".to_string()]);
    for s in ["a\nb", "x\r\n\r\ny", "tail\n", "\r\n"] {
        assert_eq!(lines(s), s.lines().map(|l| l.to_string()).collect::<Vec<_>>());
    }
}

#[test]
fn diagnostic_has_title_context_and_message() {
    let source = "let a = 1;\nlet b = $;\nlet c = 3;";
    let mut scanner = Scanner::new(source.to_string());
    scanner.scan();
    let errors: Vec<SyntaxError> = scanner.errors().to_vec();
    assert_eq!(errors.len(), 1);
    let tokens = scanner.get().expect("Should have tokens").to_vec();
    let text = format_diagnostic(source, None, &errors[0], &tokens);
    let bar = format!("──[ Hail | Error ]──{}", "─".repeat(57));
    assert!(text.starts_with(&format!("\x1b[31m{bar}\x1b[0m\n")), "{text:?}");
    assert!(text.contains("   2 │ "), "{text:?}");
    assert!(text.ends_with("\x1b[31mUnexpected character '$'.\x1b[0m\n"), "{text:?}");
    assert_eq!(format_diagnostics::<SyntaxError>(source, None, &[], &tokens), "");
}

#[test]
fn diagnostic_without_source() {
    let error = SyntaxError::new(Location::new(1, 1, 1), SyntaxErrorType::UnterminatedString);
    let text = format_diagnostic("", None, &error, &[]);
    assert!(text.contains("   │ (source not available)\n"), "{text:?}");
}

// Documentation.
#[test]
fn function_entry_documents_parameters_and_return() {
    let mut f = info("add", vec![ValueType::Int, ValueType::Int], vec!["a", "b"], Some(ValueType::Int), FunctionKind::Free(0));
    f.doc_comments = vec!["Adds.".to_string(), "Twice.".to_string()];
    assert_eq!(
        get_function_entry(&f),
        "### [add](#add) (a: [`i64`](./i64), b: [`i64`](./i64)) -> [`i64`](./i64)\nAdds.\nTwice.\n"
    );
}

#[test]
fn docs_have_one_document_per_type() {
    struct Thing;
    impl TypePath for Thing {
        fn type_path() -> String {
            "library::docs_have_one_document_per_type::Thing".to_owned()
        }
    }
    let mut module = Module::default();
    let thing = module.register_type_named::<Thing>("Thing").expect("Should register");
    module
        .register_function(info("make", vec![], vec![], Some(thing.clone()), FunctionKind::Free(0)))
        .expect("Should register");
    let docs = generate_docs(&module);
    let (_, text) = docs.iter().find(|(name, _)| name == "Thing.md").expect("Should document Thing");
    assert!(text.starts_with("# [Thing](#Thing)\n"));
    assert!(text.contains("## Functions\n### [make](#make) () -> [`Thing`](./Thing)\n\n\n## Methods\n"));
    let mut names: Vec<&String> = docs.iter().map(|(n, _)| n).collect();
    names.sort();
    names.dedup();
    assert_eq!(names.len(), docs.len());
}

// Memory.
#[test]
fn memory_of_values() {
    assert_eq!(value_memory(&Value::Int(1)), 8);
    assert_eq!(value_memory(&Value::Str("abc".to_string())), 11);
    assert_eq!(value_memory(&Value::Bool(true)), 1);
}

// Tracking stays within its limits.
#[test]
fn tracking_stops_at_the_instruction_limit() {
    let program = expected_compile("let mut i = 0; while true { i += 1; } i".to_owned());
    let err = Executor::tracking(100, 1000).run(&program, &mut host()).expect_err("Should stop");
    assert_eq!(err.kind, ExecutorErrorKind::InstructionLimit(100));
}

#[test]
fn take_tracking_resets_the_count() {
    let mut executor = Executor::tracking(10, 10);
    let first = executor.take_tracking();
    assert_eq!(first.executed_instructions, 0);
    executor.update_limits(20, 30);
    let second = executor.take_tracking();
    assert_eq!(second.executed_instructions, 0);
    assert_eq!(second.memory_peak, 0);
    assert_eq!(executor.current_memory_usage(), 0);
}

// The checked tree.
fn construct(source: &str) -> Vec<AStmt> {
    let stmts = expected_parse(source.to_string());
    let module = std_module().expect("Should register");
    let resolver = MemoryImportResolver::default();
    Constructor::new(&module, &resolver, None)
        .generate(&stmts)
        .expect("Should construct")
        .stmts
}

#[test]
fn returns_are_listed_in_order() {
    let stmts = construct("fn f(x: i64) -> i64 { if x > 0 { return 1; } if x < 0 { return 2; } x }");
    let returns = stmts[0].get_returns();
    assert_eq!(returns.len(), 2);
    assert!(matches!(returns[0].1, Some(ValueType::Int)));
    assert!(matches!(returns[1].1, Some(ValueType::Int)));
    assert!(returns[0].0.line == 1 && returns[0].0.column < returns[1].0.column);
}

#[test]
fn an_assignment_in_one_branch_is_only_maybe() {
    let stmts = construct("let mut a = 1; if true { a = 2; }");
    let modified = stmts[1].modified_variables();
    assert_eq!(modified.len(), 1);
    assert!(matches!(modified[0].1, MaybeValueType::Maybe(ValueType::Int)));
}

#[test]
fn an_assignment_in_both_branches_is_certain() {
    let stmts = construct("let mut a = 1; if true { a = 2; } else { a = 3; }");
    let modified = stmts[1].modified_variables();
    assert_eq!(modified.len(), 2);
    assert!(matches!(modified[0].1, MaybeValueType::Known(ValueType::Int)));
    assert!(matches!(modified[1].1, MaybeValueType::Maybe(ValueType::Int)));
}

#[test]
fn a_loop_body_assigns_only_maybe() {
    let stmts = construct("let mut a = 1; while a < 3 { a = a + 1; }");
    let modified = stmts[1].modified_variables();
    assert!(!modified.is_empty());
    assert!(modified.iter().all(|(_, t)| matches!(t, MaybeValueType::Maybe(ValueType::Int))));
}

#[test]
fn reads_are_listed() {
    let stmts = construct("let a = 1; let b = a;");
    let read = stmts[1].retrieved_variables();
    assert_eq!(read.len(), 1);
    assert_eq!(read[0].0.index, 0);
    assert!(matches!(read[0].1, MaybeValueType::Known(ValueType::Int)));
}

#[test]
fn value_type_of_a_block_is_its_last_statement() {
    let stmts = construct("let a = { 1; true };");
    match &stmts[0] {
        AStmt::SetVariable(_, _, _, Some(init)) => {
            assert!(matches!(init.get_value_type(), Some(MaybeValueType::Known(ValueType::Bool))));
        }
        _ => panic!("Expected a variable"),
    }
}

#[test]
fn value_type_names() {
    assert_eq!(value_type_name(&Value::Int(1)), "i64");
    assert_eq!(value_type_name(&Value::Unit), "()");
    assert_eq!(value_type_name(&Value::Str("x".to_string())), "String");
}

#[test]
fn missing_function_is_reported() {
    let program = expected_compile("fn f() -> i64 { 1 }".to_string());
    let err = Executor::default()
        .run_function_with_any_return(&program, "g", vec![], vec![], Some(ValueType::Int), &mut host())
        .expect_err("Should fail");
    assert_eq!(err.kind, ExecutorErrorKind::MissingFunction("g".to_string()));
    let err = Executor::default()
        .run_function_with_any_return(&program, "f", vec![ValueType::Int], vec![Value::Int(1)], Some(ValueType::Int), &mut host())
        .expect_err("Should fail");
    assert!(matches!(err.kind, ExecutorErrorKind::InvalidFunctionCall(_, _, _)));
    let err = Executor::default()
        .run_function_with_any_return(&program, "f", vec![], vec![], None, &mut host())
        .expect_err("Should fail");
    assert!(matches!(err.kind, ExecutorErrorKind::InvalidFunctionReturnType(_, _, _)));
    let value = Executor::default()
        .run_function_with_any_return(&program, "f", vec![], vec![], Some(ValueType::Int), &mut host())
        .expect("Should run");
    assert!(matches!(value, Some(Value::Int(1))));
}

#[test]
fn call_returns_to_the_caller_with_its_stack() {
    // The caller's pending `x * 100` operand stays below the call; the result lands on top.
    assert_eq!(run_i64("fn f(a: i64) -> i64 { let b = a + 1; b } let x = 2; x * 100 + f(x) + x").expect("Should run"), 205);
}

#[test]
fn unterminated_block_comment_points_at_its_opening() {
    let mut scanner = Scanner::new("/* a".to_owned());
    scanner.scan();
    assert_eq!(
        scanner.errors(),
        &[SyntaxError::new(Location::new(1, 1, 2), SyntaxErrorType::UnterminatedComment)]
    );
    let tokens = scanner.get().expect("Should have tokens");
    assert_eq!(tokens.len(), 1);
    assert_eq!(tokens[0].token_type, hail::TokenType::Eof);
    assert_eq!(tokens[0].location, Location::new(1, 5, 0));
}

#[test]
fn closed_block_comment_leaves_no_error() {
    let mut scanner = Scanner::new("/* a /* b */ c */ 1".to_owned());
    scanner.scan();
    assert!(scanner.errors().is_empty());
    let tokens = scanner.get().expect("Should have tokens");
    assert_eq!(tokens.len(), 2);
    assert_eq!(tokens[0].token_type, hail::TokenType::Integer);
}

#[test]
fn number_kind_follows_its_decimal_point() {
    let mut scanner = Scanner::new("1..2 3.5 4. 5.".to_owned());
    scanner.scan();
    assert!(scanner.errors().is_empty());
    let kinds: Vec<hail::TokenType> = scanner.get().expect("Should have tokens").iter().map(|t| t.token_type).collect();
    assert_eq!(
        kinds,
        vec![
            hail::TokenType::Integer,
            hail::TokenType::DotDot,
            hail::TokenType::Integer,
            hail::TokenType::Float,
            hail::TokenType::Float,
            hail::TokenType::Integer,
            hail::TokenType::Dot,
            hail::TokenType::Eof,
        ]
    );
}

#[test]
fn plain_string_keeps_its_text() {
    let mut scanner = Scanner::new("\"a b\"".to_owned());
    scanner.scan();
    assert!(scanner.errors().is_empty());
    let tokens = scanner.get().expect("Should have tokens");
    assert_eq!(tokens[0].token_type, hail::TokenType::String);
    assert_eq!(tokens[0].lexeme, "a b");
}

#[test]
fn std_module_registers_print_todo_and_fail() {
    let module = std_module().expect("Should register");
    for (name, id) in [("print", standard::PRINT), ("todo", standard::TODO), ("fail", standard::FAIL)] {
        let f = module.lookup_function(name, &[ValueType::String]).expect("Should be registered");
        assert_eq!(f.kind, FunctionKind::Free(id));
        assert!(f.return_type.is_none());
    }
}

#[test]
fn diagnostic_message_closes_the_text() {
    let error = SyntaxError::new(Location::new(1, 1, 1), SyntaxErrorType::UnterminatedString);
    let text = format_diagnostic("", None, &error, &[]);
    assert!(text.ends_with("   │ (source not available)\n\n\x1b[31mUnterminated string literal.\x1b[0m\n"), "{text:?}");
}

#[test]
fn several_diagnostics_are_joined_by_a_gray_bar() {
    let first = SyntaxError::new(Location::new(1, 1, 1), SyntaxErrorType::UnterminatedString);
    let second = SyntaxError::new(Location::new(1, 1, 2), SyntaxErrorType::UnterminatedComment);
    let one = format_diagnostic("", None, &first, &[]);
    let two = format_diagnostic("", None, &second, &[]);
    let both = format_diagnostics("", None, &[first, second], &[]);
    let bar = format!("\x1b[90m{}\x1b[0m\n", "─".repeat(60));
    assert_eq!(both, format!("{one}{bar}{two}"));
}

#[test]
fn source_longer_than_a_column_field_scans() {
    let source = "let a = 1;\n".repeat(7000);
    let mut scanner = Scanner::new(source);
    scanner.scan();
    assert!(scanner.errors().is_empty());
    let tokens = scanner.get().expect("Should have tokens");
    assert_eq!(tokens.len(), 7000 * 5 + 1);
    assert_eq!(tokens[tokens.len() - 2].location, Location::new(7000, 10, 1));
}
