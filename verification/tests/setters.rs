use hail::{
    CallInfo,
    Constructor, Executor, ExecutorErrorKind, FunctionInfo, FunctionKind, Instructor,
    MemoryImportResolver, Module, NativeHost, Parser, Program, ProgramValue, Scanner, TypePath,
    Value, ValueType,
};

// == Counter type for setter testing ==
#[derive(Clone)]
struct Counter {
    value: i64,
}

impl ProgramValue for Counter {
    fn value_type() -> ValueType {
        ValueType::of::<Counter>()
    }
    fn into_value(self) -> Value {
        Value::Custom(Self::value_type(), vec![Value::Int(self.value)])
    }
    fn from_value(value: Value) -> Option<Self> {
        match value {
            Value::Custom(_, fields) => match fields.as_slice() {
                [Value::Int(n)] => Some(Counter { value: *n }),
                _ => None,
            },
            _ => None,
        }
    }
}

impl TypePath for Counter {
    fn type_path() -> String {
        "setters::Counter".to_owned()
    }
}

// == Point2D type for setter testing ==
#[derive(Clone)]
struct Point2D {
    x: i64,
    y: i64,
}

impl TypePath for Point2D {
    fn type_path() -> String {
        "setters::Point2D".to_owned()
    }
}

impl ProgramValue for Point2D {
    fn value_type() -> ValueType {
        ValueType::of::<Point2D>()
    }
    fn into_value(self) -> Value {
        Value::Custom(Self::value_type(), vec![Value::Int(self.x), Value::Int(self.y)])
    }
    fn from_value(value: Value) -> Option<Self> {
        match value {
            Value::Custom(_, fields) => match fields.as_slice() {
                [Value::Int(x), Value::Int(y)] => Some(Point2D { x: *x, y: *y }),
                _ => None,
            },
            _ => None,
        }
    }
}

const MAKE_COUNTER: usize = 0;
const COUNTER_VALUE: usize = 1;
const SET_COUNTER_VALUE: usize = 2;
const MAKE_POINT: usize = 3;
const POINT_X: usize = 4;
const SET_POINT_X: usize = 5;
const POINT_Y: usize = 6;
const SET_POINT_Y: usize = 7;

struct SetterHost;

fn int_arg(args: &mut Vec<Value>) -> i64 {
    match args.pop().expect("Should have a value") {
        Value::Int(n) => n,
        other => panic!("Should be an int: {other:?}"),
    }
}

impl NativeHost for SetterHost {
    fn call(
        &mut self,
        info: &CallInfo,
        callee: &mut Value,
        mut args: Vec<Value>,
    ) -> Result<Option<Value>, ExecutorErrorKind> {
        match info.call_fn {
            FunctionKind::Free(MAKE_COUNTER) => Ok(Some(Counter { value: 0 }.into_value())),
            FunctionKind::Property(COUNTER_VALUE) => {
                let c = Counter::from_value(callee.clone()).expect("Should be a Counter");
                Ok(Some(Value::Int(c.value)))
            }
            FunctionKind::Setter(SET_COUNTER_VALUE) => {
                let mut c = Counter::from_value(callee.clone()).expect("Should be a Counter");
                c.value = int_arg(&mut args);
                *callee = c.into_value();
                Ok(None)
            }
            FunctionKind::Free(MAKE_POINT) => Ok(Some(Point2D { x: 0, y: 0 }.into_value())),
            FunctionKind::Property(POINT_X) => {
                let p = Point2D::from_value(callee.clone()).expect("Should be a Point2D");
                Ok(Some(Value::Int(p.x)))
            }
            FunctionKind::Setter(SET_POINT_X) => {
                let mut p = Point2D::from_value(callee.clone()).expect("Should be a Point2D");
                p.x = int_arg(&mut args);
                *callee = p.into_value();
                Ok(None)
            }
            FunctionKind::Property(POINT_Y) => {
                let p = Point2D::from_value(callee.clone()).expect("Should be a Point2D");
                Ok(Some(Value::Int(p.y)))
            }
            FunctionKind::Setter(SET_POINT_Y) => {
                let mut p = Point2D::from_value(callee.clone()).expect("Should be a Point2D");
                p.y = int_arg(&mut args);
                *callee = p.into_value();
                Ok(None)
            }
            other => Err(ExecutorErrorKind::Fail(format!("No native for {other:?}"))),
        }
    }
}

fn info(name: &str, param_types: Vec<ValueType>, names: Vec<&str>, return_type: Option<ValueType>, kind: FunctionKind) -> FunctionInfo {
    FunctionInfo {
        name: name.to_string(),
        param_types,
        param_names: names.into_iter().map(|s| s.to_string()).collect(),
        doc_comments: vec![],
        return_type,
        kind,
    }
}

/// Build a module that knows about Counter and Point2D with setters.
fn setter_module() -> Module {
    let mut module = Module::default();
    let counter = ValueType::of::<Counter>();
    let point = ValueType::of::<Point2D>();
    module.register_type_named::<Counter>("Counter").expect("Should register");
    module.register_type_named::<Point2D>("Point2D").expect("Should register");
    module
        .register_function(info("make_counter", vec![], vec![], Some(counter.clone()), FunctionKind::Free(MAKE_COUNTER)))
        .expect("Should register");
    module
        .register_method(
            counter.clone(),
            info("value", vec![counter.clone()], vec!["counter"], Some(ValueType::Int), FunctionKind::Property(COUNTER_VALUE)),
        )
        .expect("Should register");
    module
        .register_method(
            counter.clone(),
            info(
                "value",
                vec![counter.clone(), ValueType::Int],
                vec!["counter", "value"],
                None,
                FunctionKind::Setter(SET_COUNTER_VALUE),
            ),
        )
        .expect("Should register");
    module
        .register_function(info("make_point", vec![], vec![], Some(point.clone()), FunctionKind::Free(MAKE_POINT)))
        .expect("Should register");
    module
        .register_method(point.clone(), info("x", vec![point.clone()], vec!["point"], Some(ValueType::Int), FunctionKind::Property(POINT_X)))
        .expect("Should register");
    module
        .register_method(
            point.clone(),
            info("x", vec![point.clone(), ValueType::Int], vec!["point", "x"], None, FunctionKind::Setter(SET_POINT_X)),
        )
        .expect("Should register");
    module
        .register_method(point.clone(), info("y", vec![point.clone()], vec!["counter"], Some(ValueType::Int), FunctionKind::Property(POINT_Y)))
        .expect("Should register");
    module
        .register_method(
            point.clone(),
            info("y", vec![point.clone(), ValueType::Int], vec!["counter", "y"], None, FunctionKind::Setter(SET_POINT_Y)),
        )
        .expect("Should register");
    module
}

fn try_compile_with_setters(source: String) -> Result<Program, String> {
    let mut scanner = Scanner::new(source.clone());
    scanner.scan();
    if !scanner.errors().is_empty() {
        return Err(format!("Scanner errors for: {}", source));
    }
    let tokens = scanner.get().ok_or_else(|| "No tokens".to_string())?;
    let mut parser = Parser::new(tokens);
    parser.parse();
    if !parser.errors().is_empty() {
        return Err(format!("Parse errors for: {}", source));
    }
    let stmts = parser.take().ok_or_else(|| "No stmts".to_string())?;
    let module = setter_module();
    let resolver = MemoryImportResolver::default();
    let construct = Constructor::new(&module, &resolver, None)
        .generate(&stmts)
        .map_err(|_| format!("Constructor errors for: {}", source))?;
    Ok(Instructor::new(None).generate(construct, source, vec![]))
}

fn compile_with_setters(source: String) -> Program {
    try_compile_with_setters(source).expect("Should be able to construct")
}

fn run_i64(program: &Program) -> i64 {
    Executor::default()
        .run_with_return::<i64, _>(program, &mut SetterHost)
        .expect("Should execute")
}

/// Basic setter: obj.field = value (e.g., `point.x = 10`)
#[test]
fn test_basic_setter() {
    let program = compile_with_setters("let mut p = make_point(); p.x = 10; p.x".to_string());
    assert_eq!(run_i64(&program), 10);
}

#[test]
fn test_setter_getter_counter() {
    let program = compile_with_setters("let mut c = make_counter(); c.value = 10; c.value".to_string());
    assert_eq!(run_i64(&program), 10);
}

#[test]
fn test_setter_not_found_error() {
    let result = try_compile_with_setters("let mut p = make_point(); p.z = 10".to_string());
    assert!(result.is_err(), "Setter not found should fail");
}

#[test]
fn test_multiple_setter_calls() {
    let program = compile_with_setters(
        "let mut c = make_counter(); c.value = 1; c.value; c.value = 2; c.value; c.value = 3; c.value".to_string(),
    );
    assert_eq!(run_i64(&program), 3);
}

#[test]
fn test_getter_setter_together() {
    let program = compile_with_setters("let mut c = make_counter(); c.value = 42; c.value".to_string());
    assert_eq!(run_i64(&program), 42);
}

#[test]
fn test_point2d_x_setter() {
    let program = compile_with_setters("let mut p = make_point(); p.x = 100; p.x".to_string());
    assert_eq!(run_i64(&program), 100);
}

#[test]
fn test_point2d_y_setter() {
    let program = compile_with_setters("let mut p = make_point(); p.y = 200; p.y".to_string());
    assert_eq!(run_i64(&program), 200);
}

/// Require setters to operate on mutable variables
#[test]
fn test_setter_on_immutable_error() {
    let result = try_compile_with_setters("let p = make_point(); p.x = 10".to_string());
    assert!(result.is_err(), "Should produce VariableImmutable error");
}
