use vstd::prelude::*;

pub mod text;
pub mod scanner;
pub mod parser;
pub mod types;
pub mod value;
pub mod module;
pub mod instructor;
pub mod constructor;
pub mod memory_usage;
pub mod executor;
pub mod stdlib;
pub mod natives;
pub mod standard;
pub mod visualize;
pub mod docs;

pub use crate::constructor::{
    AExpr, AStmt, ConstructError, ConstructErrorType, Constructor, FinalizedConstruct,
    ImportResolver, MemoryImportResolver, Scope, ScriptFunctionSignature,
};
pub use crate::executor::{
    ExecutionResult, Executor, ExecutorError, ExecutorErrorKind, NativeHost, StepResult,
    TrackingInfo,
};
pub use crate::instructor::{CallInfo, Instruction, Instructor, Program};
pub use crate::module::{
    BinarySignature, FunctionInfo, FunctionKind, Module, ModuleError, TypePath, UnarySignature,
    VecIterator,
};
pub use crate::parser::{
    AssignmentOp, BinaryOp, Expr, FunctionParameter, LogicalOp, ParseError, ParseErrorType, Parser,
    Precedence, Stmt, UnaryOp, VariableMutability,
};
pub use crate::scanner::{Scanner, SyntaxError, SyntaxErrorType, Token, TokenType};
pub use crate::types::{CallSource, MaybeValueType, ValueType, VariableSlot};
pub use crate::value::{FunctionEntry, ProgramValue, SyncProgramValue, Value};

verus! {

/// A position in a script's source: 1-based line and column, and the byte length it spans.
#[derive(Debug, Clone, Copy, PartialEq, Eq, Hash)]
pub struct Location {
    pub line: u32,
    pub column: u16,
    pub length: u16,
}

impl Default for Location {
    /// The start of a script: line 1, column 1, spanning nothing.
    fn default() -> (loc: Location)
        ensures
            loc == (Location { line: 1, column: 1, length: 0 }),
    {
        Location { line: 1, column: 1, length: 0 }
    }
}

impl Location {
    /// Builds a location from wide integers, keeping their low bits as the narrow fields hold them.
    pub fn new(line: usize, column: usize, length: usize) -> (loc: Location)
        ensures
            loc.line == line as u32,
            loc.column == column as u16,
            loc.length == length as u16,
    {
        Location { line: line as u32, column: column as u16, length: length as u16 }
    }
}

} // verus!
