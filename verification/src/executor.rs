use vstd::prelude::*;

use crate::Location;
use crate::instructor::{CallInfo, Instruction, Program};
use crate::memory_usage::MemoryUsage;
use crate::module::{FunctionKind, same_types};
use crate::types::{CallSource, ValueType, VariableSlot, same_optional_type, type_text, joined_types, join_types, optional_type_text, show_optional_type};
use crate::text::{int_text, nat_digits, push_i64, push_str, push_usize};
use crate::value::{FunctionEntry, ProgramValue, Value, same_value};

verus! {

#[derive(Debug, PartialEq, Eq)]
pub enum ExecutorErrorKind {
    /// Expected name, provided name
    WrongReturnValue(String, String),
    NoReturnValue,
    MissingFunction(String),
    InvalidFunctionCall(String, Vec<ValueType>, Vec<ValueType>),
    InvalidFunctionReturnType(String, Option<ValueType>, Option<ValueType>),
    FunctionDidNotObeyTyping(String, Option<ValueType>, String),
    ReturnDidNotObeyTyping,
    UnwrapFailed,
    ExpectFailed(String),
    Todo(String),
    Fail(String),
    NegativeIndex(i64),
    IndexOutOfRange(i64, usize),
    /// In use, allocation size, memory limit
    OutOfMemory(usize, usize, usize),
    InstructionLimit(usize),
}

#[derive(Debug, PartialEq, Eq)]
pub struct ExecutorError {
    pub location: Location,
    pub kind: ExecutorErrorKind,
}

/// Where an error at the instruction `counter` is reported: that instruction's source
/// location, or line 0 where the program has none for it.
pub open spec fn location_of(program: Program, counter: int) -> Location {
    if 0 <= counter < program.locations@.len() {
        program.locations@[counter]
    } else {
        Location { line: 0, column: 0, length: 0 }
    }
}

impl ExecutorError {
    pub fn new(kind: ExecutorErrorKind) -> (e: ExecutorError)
        ensures
            e.location == (Location { line: 0, column: 0, length: 0 }),
            e.kind == kind,
    {
        ExecutorError { location: Location { line: 0, column: 0, length: 0 }, kind }
    }

    /// An error at the source location of the instruction at `program_counter`, where there
    /// is one.
    pub fn new_with_program(kind: ExecutorErrorKind, program: &Program, program_counter: usize) -> (e: ExecutorError)
        ensures
            e.kind == kind,
            program_counter < program.locations@.len() ==> e.location == program.locations@[program_counter as int],
            program_counter >= program.locations@.len() ==> e.location == (Location { line: 0, column: 0, length: 0 }),
            e.location == location_of(*program, program_counter as int),
    {
        if program_counter < program.locations.len() {
            ExecutorError { location: program.locations[program_counter], kind }
        } else {
            Self::new(kind)
        }
    }
}

/// The text that describes an execution error.
pub open spec fn executor_message(kind: ExecutorErrorKind) -> Seq<char> {
    match kind {
        ExecutorErrorKind::WrongReturnValue(expected, found) => "Expected return type `"@ + expected@ + "` but got `"@
            + found@ + "`."@,
        ExecutorErrorKind::NoReturnValue => "Function was expected to return a value but returned none."@,
        ExecutorErrorKind::MissingFunction(name) => "Function `"@ + name@ + "` not found in program."@,
        ExecutorErrorKind::InvalidFunctionCall(name, expected, found) => "Invalid call to `"@ + name@
            + "`. Expected params ("@ + joined_types(expected@) + ") but got ("@ + joined_types(found@) + ")."@,
        ExecutorErrorKind::InvalidFunctionReturnType(name, expected, found) => "Function `"@ + name@
            + "` return type mismatch. Expected `"@ + optional_type_text(expected) + "` but got `"@
            + optional_type_text(found) + "`."@,
        ExecutorErrorKind::FunctionDidNotObeyTyping(name, expected, found) => "Function `"@ + name@
            + "` did not obey typing. Expected return `"@ + optional_type_text(expected) + "` but got `"@
            + found@ + "`."@,
        ExecutorErrorKind::ReturnDidNotObeyTyping => "Return value type does not match function signature."@,
        ExecutorErrorKind::UnwrapFailed => "Attempted to unwrap a `None` value."@,
        ExecutorErrorKind::ExpectFailed(msg) => "Expect failed: "@ + msg@,
        ExecutorErrorKind::Todo(msg) => "TODO: "@ + msg@,
        ExecutorErrorKind::Fail(msg) => "FAIL: "@ + msg@,
        ExecutorErrorKind::NegativeIndex(idx) => "Array index must be non-negative, got "@ + int_text(idx as int)
            + "."@,
        ExecutorErrorKind::IndexOutOfRange(idx, len) => "Array index "@ + int_text(idx as int)
            + " is out of bounds for array of length "@ + nat_digits(len as nat) + "."@,
        ExecutorErrorKind::OutOfMemory(used, allocating, max) => "Out of memory! In use: "@ + nat_digits(used as nat)
            + " bytes, Failed Allocation: "@ + nat_digits(allocating as nat) + " bytes, Memory Limit: "@
            + nat_digits(max as nat) + " bytes"@,
        ExecutorErrorKind::InstructionLimit(n) => "Out of instructions! The limit of "@ + nat_digits(n as nat)
            + " instruction executions was reached."@,
    }
}

impl ExecutorError {
    /// The text that describes this error.
    pub fn message(&self) -> (s: String)
        ensures
            s@ == executor_message(self.kind),
    {
        let mut s = String::new();
        assert(s@ =~= Seq::<char>::empty());
        match &self.kind {
            ExecutorErrorKind::WrongReturnValue(expected, found) => {
                push_str(&mut s, "Expected return type `");
                push_str(&mut s, expected.as_str());
                push_str(&mut s, "` but got `");
                push_str(&mut s, found.as_str());
                push_str(&mut s, "`.");
            },
            ExecutorErrorKind::NoReturnValue => {
                push_str(&mut s, "Function was expected to return a value but returned none.");
            },
            ExecutorErrorKind::MissingFunction(name) => {
                push_str(&mut s, "Function `");
                push_str(&mut s, name.as_str());
                push_str(&mut s, "` not found in program.");
            },
            ExecutorErrorKind::InvalidFunctionCall(name, expected, found) => {
                push_str(&mut s, "Invalid call to `");
                push_str(&mut s, name.as_str());
                push_str(&mut s, "`. Expected params (");
                push_str(&mut s, join_types(expected).as_str());
                push_str(&mut s, ") but got (");
                push_str(&mut s, join_types(found).as_str());
                push_str(&mut s, ").");
            },
            ExecutorErrorKind::InvalidFunctionReturnType(name, expected, found) => {
                push_str(&mut s, "Function `");
                push_str(&mut s, name.as_str());
                push_str(&mut s, "` return type mismatch. Expected `");
                push_str(&mut s, show_optional_type(expected).as_str());
                push_str(&mut s, "` but got `");
                push_str(&mut s, show_optional_type(found).as_str());
                push_str(&mut s, "`.");
            },
            ExecutorErrorKind::FunctionDidNotObeyTyping(name, expected, found) => {
                push_str(&mut s, "Function `");
                push_str(&mut s, name.as_str());
                push_str(&mut s, "` did not obey typing. Expected return `");
                push_str(&mut s, show_optional_type(expected).as_str());
                push_str(&mut s, "` but got `");
                push_str(&mut s, found.as_str());
                push_str(&mut s, "`.");
            },
            ExecutorErrorKind::ReturnDidNotObeyTyping => {
                push_str(&mut s, "Return value type does not match function signature.");
            },
            ExecutorErrorKind::UnwrapFailed => {
                push_str(&mut s, "Attempted to unwrap a `None` value.");
            },
            ExecutorErrorKind::ExpectFailed(msg) => {
                push_str(&mut s, "Expect failed: ");
                push_str(&mut s, msg.as_str());
            },
            ExecutorErrorKind::Todo(msg) => {
                push_str(&mut s, "TODO: ");
                push_str(&mut s, msg.as_str());
            },
            ExecutorErrorKind::Fail(msg) => {
                push_str(&mut s, "FAIL: ");
                push_str(&mut s, msg.as_str());
            },
            ExecutorErrorKind::NegativeIndex(idx) => {
                push_str(&mut s, "Array index must be non-negative, got ");
                push_i64(&mut s, *idx);
                push_str(&mut s, ".");
            },
            ExecutorErrorKind::IndexOutOfRange(idx, len) => {
                push_str(&mut s, "Array index ");
                push_i64(&mut s, *idx);
                push_str(&mut s, " is out of bounds for array of length ");
                push_usize(&mut s, *len);
                push_str(&mut s, ".");
            },
            ExecutorErrorKind::OutOfMemory(used, allocating, max) => {
                push_str(&mut s, "Out of memory! In use: ");
                push_usize(&mut s, *used);
                push_str(&mut s, " bytes, Failed Allocation: ");
                push_usize(&mut s, *allocating);
                push_str(&mut s, " bytes, Memory Limit: ");
                push_usize(&mut s, *max);
                push_str(&mut s, " bytes");
            },
            ExecutorErrorKind::InstructionLimit(n) => {
                push_str(&mut s, "Out of instructions! The limit of ");
                push_usize(&mut s, *n);
                push_str(&mut s, " instruction executions was reached.");
            },
        }
        s
    }
}

/// A native function, run by whoever hosts the scripts.
pub trait NativeHost {
    /// Runs the native function that `info.call_fn` names, declared with the parameter and
    /// return types in `info`. The receiver is `callee` for calls that have one (a property,
    /// method or setter), and may be changed by a mutating call; `args` holds the other
    /// arguments, last one first.
    fn call(&mut self, info: &CallInfo, callee: &mut Value, args: Vec<Value>) -> Result<Option<Value>, ExecutorErrorKind>;
}

#[derive(Clone, Copy, Debug)]
struct CallFrame {
    /// Where to resume after the function gives_value.
    return_address: usize,
    /// Where this frame's locals start among the variables.
    local_base: usize,
    /// The stack's depth when the call was made, after its arguments were taken.
    stack_base: usize,
    /// Whether returning from this frame ends the run.
    return_token: bool,
}

/// Runs programs: a value stack, variable slots and call frames, with optional limits on
/// executed instructions and memory.
#[derive(Debug)]
pub struct Executor {
    tracking: bool,
    memory_limit: usize,
    instruction_limit: usize,
    peak_memory_usage: usize,
    counter: usize,
    active_memory_usage: usize,
    executed_instructions: usize,
    variables: Vec<Value>,
    stack: Vec<Value>,
    call_stack: Vec<CallFrame>,
}

/// The result of running until the program yields or ends.
pub enum ExecutionResult {
    Result(Box<Result<Value, ExecutorError>>),
    Yield,
    InstructionLimit,
    MemoryOverflow,
}

/// What one step did.
pub enum StepResult {
    Result(Box<Option<Value>>),
    Continue,
    Yield,
    InstructionLimit,
}

pub struct TrackingInfo {
    pub executed_instructions: usize,
    pub memory_peak: usize,
}

/// How many values a native call takes off the stack: its arguments, and its receiver for
/// a call that has one.
pub open spec fn call_taken(info: CallInfo) -> nat {
    if info.call_fn is Free {
        info.params@.len()
    } else if info.params@.len() > 0 {
        info.params@.len()
    } else {
        1
    }
}

/// Whether a native call writes its receiver back to the variable it was read from.
pub open spec fn call_writes_back(info: CallInfo) -> bool {
    &&& !(info.call_fn is Free)
    &&& !(info.call_fn is Method)
    &&& info.source is Variable
}

/// What a native call that went through leaves, whatever the host did: the values it takes
/// are off the stack and the rest of the stack is as it was, with the result pushed where
/// there is one (always, and only, where a method or property declares a return type); a
/// call that writes its receiver back changes only that variable's slot, and any other
/// call leaves the variables as they were; the counter moves on by one.
pub open spec fn call_effect(before: Executor, after: Executor, info: CallInfo) -> bool {
    &&& after.spec_counter() == before.spec_counter() + 1
    &&& call_leaves(before, after, info)
}

/// The stack and variables that a native call that went through leaves (see `call_effect`).
pub open spec fn call_leaves(before: Executor, after: Executor, info: CallInfo) -> bool {
    let base = before.spec_stack().len() - call_taken(info);
    &&& before.spec_stack().len() >= call_taken(info)
    &&& after.spec_stack().len() == base || after.spec_stack().len() == base + 1
    &&& after.spec_stack().take(base) == before.spec_stack().take(base)
    &&& !(info.call_fn is Free) ==> (after.spec_stack().len() == base + 1 <==> info.return_type is Some)
    &&& if call_writes_back(info) {
        &&& before.slot_position(info.source->Variable_0) matches Some(p)
        &&& p < before.spec_variables().len()
        &&& after.spec_variables().len() == before.spec_variables().len()
        &&& forall|j: int| 0 <= j < before.spec_variables().len() && j != p ==> #[trigger] after.spec_variables()[j]
            == before.spec_variables()[j]
    } else {
        after.spec_variables() == before.spec_variables()
    }
}

/// What one step does with the instruction at the counter, for the instructions whose effect
/// the executor alone decides: where the counter goes, and what the stack, the variables
/// and the calls under way become.
pub open spec fn instruction_effect(before: Executor, after: Executor, program: Program, r: Result<StepResult, ExecutorError>) -> bool {
    match program.instructions@[before.spec_counter() as int] {
        Instruction::Jump(a) => r matches Ok(StepResult::Continue) && after.spec_counter() == a && after.spec_stack() == before.spec_stack()
            && after.spec_variables() == before.spec_variables(),
        Instruction::JumpIfFalse(a) => before.spec_stack().len() > 0 && before.spec_stack().last() is Bool ==> (r matches Ok(StepResult::Continue)
            && after.spec_stack() == before.spec_stack().drop_last()
            && after.spec_counter() == if before.spec_stack().last()->Bool_0 { before.spec_counter() + 1 } else { a as nat }),
        Instruction::JumpIfTrue(a) => before.spec_stack().len() > 0 && before.spec_stack().last() is Bool ==> (r matches Ok(StepResult::Continue)
            && after.spec_stack() == before.spec_stack().drop_last()
            && after.spec_counter() == if before.spec_stack().last()->Bool_0 { a as nat } else { before.spec_counter() + 1 }),
        Instruction::Constant(c) => (!before.spec_tracking() ==> (r matches Ok(StepResult::Continue)
            && after.spec_stack().len() == before.spec_stack().len() + 1
            && after.spec_stack().drop_last() == before.spec_stack()
            && same_value(after.spec_stack().last(), c)
            && after.spec_counter() == before.spec_counter() + 1))
            && (before.spec_tracking() ==> (r is Err <==> before.spec_active() + c.memory_usage_spec()
                > before.spec_memory_limit())
            && (r matches Err(e) ==> e.kind is OutOfMemory)
            && (r is Ok ==> (r matches Ok(StepResult::Continue))
                && after.spec_stack().len() == before.spec_stack().len() + 1
                && after.spec_stack().drop_last() == before.spec_stack()
                && same_value(after.spec_stack().last(), c)
                && after.spec_active() == before.spec_active() + c.memory_usage_spec()
                && after.spec_counter() == before.spec_counter() + 1)),
        Instruction::Drop(n) => r matches Ok(StepResult::Continue)
            && after.spec_stack() == before.spec_stack().take(
                if before.spec_stack().len() >= n { before.spec_stack().len() - n } else { 0 },
            )
            && after.spec_variables() == before.spec_variables()
            && after.spec_counter() == before.spec_counter() + 1,
        Instruction::SetVariable(slot) => before.spec_stack().len() > 0 && before.slot_position(slot) is Some ==> (
            r matches Ok(StepResult::Continue)
            && after.spec_stack() == before.spec_stack().drop_last()
            && after.spec_variables() == stored(before.spec_variables(), before.slot_position(slot)->0, before.spec_stack().last())
            && after.spec_counter() == before.spec_counter() + 1),
        Instruction::ReserveVariable(slot) => before.slot_position(slot) is Some ==> (r matches Ok(StepResult::Continue)
            && after.spec_stack() == before.spec_stack()
            && after.spec_variables() == stored(before.spec_variables(), before.slot_position(slot)->0, Value::Unit)
            && after.spec_counter() == before.spec_counter() + 1),
        Instruction::GetVariable(slot) => (before.slot_position(slot) matches Some(i) && i < before.spec_variables().len()) ==> (
            (!before.spec_tracking() ==> r is Ok)
            && (r is Ok ==> (r matches Ok(StepResult::Continue))
                && after.spec_stack().len() == before.spec_stack().len() + 1
                && after.spec_stack().drop_last() == before.spec_stack()
                && same_value(after.spec_stack().last(), before.spec_variables()[before.slot_position(slot)->0 as int])
                && after.spec_variables() == before.spec_variables()
                && after.spec_counter() == before.spec_counter() + 1)),
        Instruction::LoadFunction(index) => index < program.functions@.len() ==> (
            (!before.spec_tracking() ==> r is Ok)
            && (r is Ok ==> (r matches Ok(StepResult::Continue))
                && after.spec_stack().len() == before.spec_stack().len() + 1
                && after.spec_stack().drop_last() == before.spec_stack()
                && same_value(after.spec_stack().last(), Value::Function(program.functions@[index as int]))
                && after.spec_variables() == before.spec_variables()
                && after.spec_counter() == before.spec_counter() + 1)),
        Instruction::CallScript(index, n) => index < program.functions@.len() && n <= before.spec_stack().len() ==> (
            r matches Ok(StepResult::Continue)
            && after.spec_counter() == program.functions@[index as int].instruction
            && after.spec_call_depth() == before.spec_call_depth() + 1
            && after.spec_return_address() == before.spec_counter() + 1
            && !after.spec_return_ends_run()
            && after.spec_local_base() == before.spec_variables().len()
            && after.spec_stack_base() == before.spec_stack().len() - n
            && after.spec_stack() == before.spec_stack().take(before.spec_stack().len() - n)
            && after.spec_variables() == before.spec_variables() + before.spec_stack().skip(before.spec_stack().len() - n)
                + units(if program.functions@[index as int].local_count > n { (program.functions@[index as int].local_count - n) as nat } else { 0 })),
        Instruction::CallDynamic(n) => n < before.spec_stack().len()
            && before.spec_stack()[before.spec_stack().len() - n - 1] is Function ==> ({
            let f = before.spec_stack()[before.spec_stack().len() - n - 1]->Function_0;
            r matches Ok(StepResult::Continue)
            && after.spec_counter() == f.instruction
            && after.spec_call_depth() == before.spec_call_depth() + 1
            && after.spec_return_address() == before.spec_counter() + 1
            && !after.spec_return_ends_run()
            && after.spec_local_base() == before.spec_variables().len()
            && after.spec_stack_base() == before.spec_stack().len() - n - 1
            && after.spec_stack() == before.spec_stack().take(before.spec_stack().len() - n - 1)
            && after.spec_variables() == before.spec_variables() + before.spec_stack().skip(before.spec_stack().len() - n)
                + units(if f.local_count > n { (f.local_count - n) as nat } else { 0 })
        }),
        Instruction::Return(has_value) => (!has_value || before.spec_stack().len() > 0) ==> ({
            let rest = if has_value { before.spec_stack().drop_last() } else { before.spec_stack() };
            let given = if has_value { seq![before.spec_stack().last()] } else { Seq::empty() };
            if before.spec_call_depth() == 0 {
                r matches Ok(StepResult::Result(v)) && *v is None
            } else if before.spec_return_ends_run() {
                r matches Ok(StepResult::Result(v)) && (*v matches Some(x) ==> has_value && x == before.spec_stack().last())
                    && (has_value ==> *v is Some)
            } else {
                (!(before.spec_tracking() && has_value) ==> r is Ok)
                && (r is Ok ==> (r matches Ok(StepResult::Continue))
                    && after.spec_counter() == before.spec_return_address()
                    && after.spec_call_depth() == before.spec_call_depth() - 1
                    && before.pops_frame(after)
                    && after.spec_stack() == cut(rest, before.spec_stack_base()) + given
                    && after.spec_variables() == cut(before.spec_variables(), before.spec_local_base()))
            }
        }),
        Instruction::Call(ci) => r is Ok ==> (ci < program.call_info@.len() && (r matches Ok(StepResult::Continue))
            && call_effect(before, after, program.call_info@[ci as int])),
        Instruction::ImportedFunctionCall(p, f, n) => (before.spec_tracking() ==> (r matches Err(e) && e.kind is Todo))
            && (r is Ok ==> (r matches Ok(StepResult::Continue)) && n <= before.spec_stack().len()
            && p < program.imports@.len() && f < program.imports@[p as int].1.functions@.len()
            && after.spec_stack().take(before.spec_stack().len() - n) == before.spec_stack().take(before.spec_stack().len() - n)
            && (after.spec_stack().len() == before.spec_stack().len() - n + 1 <==> program.imports@[p as int].1.functions@[f as int].return_type is Some)
            && (after.spec_stack().len() == before.spec_stack().len() - n || after.spec_stack().len() == before.spec_stack().len() - n + 1)
            && after.spec_variables() == before.spec_variables()
            && after.spec_counter() == before.spec_counter() + 1),
    }
}

/// Whether a run goes on from `e`: its counter is inside the program and, where it is
/// tracked, the instruction limit is not reached.
pub open spec fn can_step(e: Executor, program: Program) -> bool {
    &&& e.spec_counter() < program.instructions@.len()
    &&& !(e.spec_tracking() && e.spec_executed() >= e.spec_instruction_limit())
}

/// The `k`-th state of `t` goes on to the next: the instruction at its counter had its
/// effect and let the run continue.
pub open spec fn steps_on(t: Seq<Executor>, k: int, program: Program) -> bool {
    &&& can_step(t[k], program)
    &&& (instruction_effect(t[k], t[k + 1], program, Ok(StepResult::Continue))
        || instruction_effect(t[k], t[k + 1], program, Ok(StepResult::Yield)))
}

/// `t` is a run of `program`: a first state, and each state but the last goes on to the next.
pub open spec fn is_run(t: Seq<Executor>, program: Program) -> bool {
    &&& t.len() >= 1
    &&& forall|k: int| 0 <= k < t.len() - 1 ==> #[trigger] steps_on(t, k, program)
}

/// The instruction at `a`'s counter can give `r`.
pub open spec fn step_gives(a: Executor, program: Program, r: Result<StepResult, ExecutorError>) -> bool {
    exists|b: Executor| #[trigger] instruction_effect(a, b, program, r)
}

/// How a run `t` ends with `r`. With a value: the counter left the program and `r` holds
/// what is on top of the stack (if anything), or the instruction at the counter returned
/// it from the outermost call. With an error: the instruction limit was reached, or the
/// instruction at the counter failed with it, or the run took `usize::MAX` steps.
pub open spec fn run_outcome(t: Seq<Executor>, program: Program, r: Result<Option<Value>, ExecutorError>) -> bool {
    let last = t.last();
    match r {
        Ok(v) => {
            ||| last.spec_counter() >= program.instructions@.len() && v == (if last.spec_stack().len() > 0 {
                Some(last.spec_stack().last())
            } else {
                None
            })
            ||| can_step(last, program) && step_gives(last, program, Ok(StepResult::Result(Box::new(v))))
        },
        Err(e) => {
            ||| last.spec_counter() < program.instructions@.len() && last.spec_tracking() && last.spec_executed()
                >= last.spec_instruction_limit() && e.kind == ExecutorErrorKind::InstructionLimit(
                last.spec_instruction_limit() as usize,
            )
            ||| can_step(last, program) && step_gives(last, program, Err(e))
            ||| t.len() > usize::MAX && e.kind == ExecutorErrorKind::InstructionLimit(usize::MAX)
        },
    }
}

/// Running `program` from `start` can end with `r`: by some run from `start` that ends so.
pub open spec fn runs_to(start: Executor, program: Program, r: Result<Option<Value>, ExecutorError>) -> bool {
    exists|t: Seq<Executor>| #[trigger] is_run(t, program) && t[0] == start && run_outcome(t, program, r)
}

/// A script call and the return that ends it: if the called function, when it returns a
/// value, is still the innermost call and has left the caller's part of the stack as it was,
/// the return resumes right after the call, at the caller's depth of calls, with the caller's
/// stack below the call's arguments plus the returned value, and the variables cut back to
/// where the call's locals began.
pub proof fn law_call_then_return(
    program: Program,
    caller: Executor,
    called: Executor,
    returning: Executor,
    returned: Executor,
    r_call: Result<StepResult, ExecutorError>,
    r_return: Result<StepResult, ExecutorError>,
)
    requires
        caller.spec_counter() < program.instructions@.len(),
        program.instructions@[caller.spec_counter() as int] matches Instruction::CallScript(index, n)
            && index < program.functions@.len() && n <= caller.spec_stack().len(),
        instruction_effect(caller, called, program, r_call),
        returning.spec_call_depth() == called.spec_call_depth(),
        returning.spec_return_address() == called.spec_return_address(),
        returning.spec_stack_base() == called.spec_stack_base(),
        returning.spec_local_base() == called.spec_local_base(),
        returning.spec_return_ends_run() == called.spec_return_ends_run(),
        returning.spec_stack().len() > called.spec_stack().len(),
        returning.spec_stack().take(called.spec_stack().len() as int) == called.spec_stack(),
        returning.spec_variables().len() >= caller.spec_variables().len(),
        returning.spec_counter() < program.instructions@.len(),
        program.instructions@[returning.spec_counter() as int] == Instruction::Return(true),
        instruction_effect(returning, returned, program, r_return),
        r_return is Ok,
    ensures
        r_call matches Ok(StepResult::Continue),
        r_return matches Ok(StepResult::Continue),
        returned.spec_counter() == caller.spec_counter() + 1,
        returned.spec_call_depth() == caller.spec_call_depth(),
        returned.spec_stack() == ({
            let n = program.instructions@[caller.spec_counter() as int]->CallScript_1;
            caller.spec_stack().take(caller.spec_stack().len() - n).push(returning.spec_stack().last())
        }),
        returned.spec_variables() == returning.spec_variables().take(caller.spec_variables().len() as int),
{
    let n = program.instructions@[caller.spec_counter() as int]->CallScript_1;
    let base = caller.spec_stack().len() - n;
    let rest = returning.spec_stack().drop_last();
    assert(rest.take(base) =~= called.spec_stack());
    assert(returned.spec_stack() =~= caller.spec_stack().take(base).push(returning.spec_stack().last()));
}

/// `n` empty values: the slots of a call's locals before they are set.
pub open spec fn units(n: nat) -> Seq<Value> {
    Seq::new(n, |k: int| Value::Unit)
}

/// The memory still counted after the sizes of `items` are taken off one by one, never
/// going below nothing.
pub open spec fn released(active: nat, items: Seq<Value>) -> nat
    decreases items.len(),
{
    if items.len() == 0 {
        active
    } else {
        let rest = released(active, items.drop_last());
        let size = items.last().memory_usage_spec();
        if rest >= size { (rest - size) as nat } else { 0 }
    }
}

/// The items from `from` on, or none where there are fewer.
pub open spec fn from_on(items: Seq<Value>, from: nat) -> Seq<Value> {
    if from < items.len() { items.subrange(from as int, items.len() as int) } else { Seq::empty() }
}

/// The index of the first function with the given name.
pub open spec fn first_named(functions: Seq<FunctionEntry>, name: Seq<char>) -> Option<int> {
    if exists|i: int| 0 <= i < functions.len() && functions[i].name@ == name {
        Some(choose|i: int| 0 <= i < functions.len() && functions[i].name@ == name
            && forall|k: int| 0 <= k < i ==> functions[k].name@ != name)
    } else {
        None
    }
}

/// The first `n` items, or all of them where there are fewer.
pub open spec fn cut(items: Seq<Value>, n: nat) -> Seq<Value> {
    if n <= items.len() {
        items.take(n as int)
    } else {
        items
    }
}

/// The variables after a value is written at `position`: in place where the slot exists,
/// as a new last slot where it does not.
pub open spec fn stored(variables: Seq<Value>, position: nat, value: Value) -> Seq<Value> {
    if position < variables.len() {
        variables.update(position as int, value)
    } else {
        variables.push(value)
    }
}

impl Default for Executor {
    fn default() -> (e: Executor)
        ensures
            !e.spec_tracking(),
            e.spec_executed() == 0,
            e.spec_active() == 0,
            e.spec_peak() == 0,
            e.spec_counter() == 0,
            e.spec_stack().len() == 0,
            e.spec_variables().len() == 0,
    {
        Executor {
            tracking: false,
            memory_limit: 0,
            instruction_limit: 0,
            peak_memory_usage: 0,
            counter: 0,
            active_memory_usage: 0,
            executed_instructions: 0,
            variables: Vec::new(),
            stack: Vec::new(),
            call_stack: Vec::new(),
        }
    }
}

impl Executor {
    /// A tracking executor has executed no more instructions, and holds no more memory, than
    /// its limits allow.
    pub open spec fn within_limits(&self) -> bool {
        self.spec_tracking() ==> self.spec_executed() <= self.spec_instruction_limit() && self.spec_active()
            <= self.spec_memory_limit()
    }

    pub closed spec fn spec_tracking(&self) -> bool {
        self.tracking
    }

    pub closed spec fn spec_counter(&self) -> nat {
        self.counter as nat
    }

    pub closed spec fn spec_stack(&self) -> Seq<Value> {
        self.stack@
    }

    pub closed spec fn spec_variables(&self) -> Seq<Value> {
        self.variables@
    }

    pub closed spec fn spec_instruction_limit(&self) -> nat {
        self.instruction_limit as nat
    }

    pub closed spec fn spec_memory_limit(&self) -> nat {
        self.memory_limit as nat
    }

    pub closed spec fn spec_executed(&self) -> nat {
        self.executed_instructions as nat
    }

    pub closed spec fn spec_peak(&self) -> nat {
        self.peak_memory_usage as nat
    }

    pub closed spec fn spec_active(&self) -> nat {
        self.active_memory_usage as nat
    }

    /// How many script calls are under way.
    /// `after` has this executor's calls but the innermost one: the frames below it are
    /// left as they were.
    pub closed spec fn pops_frame(&self, after: Executor) -> bool {
        after.call_stack@ == self.call_stack@.drop_last()
    }

    pub closed spec fn spec_call_depth(&self) -> nat {
        self.call_stack@.len()
    }

    /// Where the innermost call resumes when it returns.
    pub closed spec fn spec_return_address(&self) -> nat {
        self.call_stack@.last().return_address as nat
    }

    /// Where the innermost call's locals start among the variables.
    pub closed spec fn spec_local_base(&self) -> nat {
        self.call_stack@.last().local_base as nat
    }

    /// How deep the stack was when the innermost call began, its arguments taken.
    pub closed spec fn spec_stack_base(&self) -> nat {
        self.call_stack@.last().stack_base as nat
    }

    /// Whether returning from the innermost call ends the run.
    pub closed spec fn spec_return_ends_run(&self) -> bool {
        self.call_stack@.last().return_token
    }

    /// Where a slot is among the variables: a global slot at its index; a local one after
    /// the base of the innermost call, when there is a call.
    pub closed spec fn slot_position(&self, slot: VariableSlot) -> Option<nat> {
        if slot.is_global {
            Some(slot.index as nat)
        } else if self.call_stack@.len() == 0 || self.call_stack@.last().local_base + slot.index > usize::MAX {
            None
        } else {
            Some((self.call_stack@.last().local_base + slot.index) as nat)
        }
    }

    /// An executor that counts instructions and memory and stops at the limits.
    pub fn tracking(instruction_limit: usize, memory_limit: usize) -> (e: Executor)
        ensures
            e.within_limits(),
            e.spec_tracking(),
            e.spec_instruction_limit() == instruction_limit,
            e.spec_memory_limit() == memory_limit,
            e.spec_executed() == 0,
            e.spec_active() == 0,
            e.spec_peak() == 0,
            e.spec_counter() == 0,
            e.spec_stack().len() == 0,
            e.spec_variables().len() == 0,
    {
        Executor {
            tracking: true,
            memory_limit,
            instruction_limit,
            peak_memory_usage: 0,
            counter: 0,
            active_memory_usage: 0,
            executed_instructions: 0,
            variables: Vec::new(),
            stack: Vec::new(),
            call_stack: Vec::new(),
        }
    }

    pub fn instruction_in_bounds(&self, program: &Program) -> (b: bool)
        ensures
            b == (self.spec_counter() < program.instructions@.len()),
    {
        self.counter < program.instructions.len()
    }

    /// Sets new limits and resets the tracking, as `take_tracking` does: no instructions
    /// counted, and the peak back to the memory in use.
    pub fn update_limits(&mut self, instruction_limit: usize, memory_limit: usize)
        ensures
            final(self).spec_executed() == 0,
            final(self).spec_instruction_limit() == instruction_limit,
            final(self).spec_memory_limit() == memory_limit,
            final(self).spec_peak() == old(self).spec_active(),
            final(self).spec_active() == old(self).spec_active(),
            final(self).spec_tracking() == old(self).spec_tracking(),
            final(self).spec_counter() == old(self).spec_counter(),
            final(self).spec_stack() == old(self).spec_stack(),
            final(self).spec_variables() == old(self).spec_variables(),
    {
        self.executed_instructions = 0;
        self.instruction_limit = instruction_limit;
        self.memory_limit = memory_limit;
        self.peak_memory_usage = self.active_memory_usage;
    }

    /// Takes the counts, resetting them: the executed instructions to zero and the peak to
    /// the memory in use now.
    pub fn take_tracking(&mut self) -> (t: TrackingInfo)
        ensures
            t.executed_instructions == old(self).spec_executed(),
            t.memory_peak == old(self).spec_peak(),
            final(self).spec_executed() == 0,
            final(self).spec_peak() == old(self).spec_active(),
            final(self).spec_active() == old(self).spec_active(),
            final(self).spec_instruction_limit() == old(self).spec_instruction_limit(),
            final(self).spec_memory_limit() == old(self).spec_memory_limit(),
            final(self).spec_tracking() == old(self).spec_tracking(),
            final(self).spec_counter() == old(self).spec_counter(),
            final(self).spec_stack() == old(self).spec_stack(),
            final(self).spec_variables() == old(self).spec_variables(),
    {
        let executed_instructions = self.executed_instructions;
        self.executed_instructions = 0;
        let memory_peak = self.peak_memory_usage;
        self.peak_memory_usage = self.active_memory_usage;
        TrackingInfo { executed_instructions, memory_peak }
    }

    pub fn current_memory_usage(&self) -> (n: usize)
        ensures
            n == self.spec_active(),
    {
        self.active_memory_usage
    }

    /// Counts a value's memory, or reports that it would pass the limit.
    fn increment_memory(&mut self, value: &Value, program: &Program) -> (r: Result<(), ExecutorError>)
        ensures
            r is Ok ==> final(self).spec_active() == old(self).spec_active() + value.memory_usage_spec() && final(self).spec_active() <= final(self).spec_memory_limit(),
            r is Err ==> final(self).spec_active() == old(self).spec_active(),
            r is Err <==> old(self).spec_active() + value.memory_usage_spec() > old(self).spec_memory_limit(),
            r matches Err(e) ==> e.kind == ExecutorErrorKind::OutOfMemory(
                old(self).active_memory_usage,
                value.memory_usage_spec() as usize,
                old(self).memory_limit,
            ),
            r matches Err(e) ==> e.location == location_of(*program, old(self).spec_counter() as int),
            r is Ok ==> final(self).spec_peak() == if final(self).spec_active() > old(self).spec_peak() {
                final(self).spec_active()
            } else {
                old(self).spec_peak()
            },
            r is Err ==> final(self).spec_peak() == old(self).spec_peak(),
            final(self).spec_memory_limit() == old(self).spec_memory_limit(),
            final(self).spec_tracking() == old(self).spec_tracking(),
            final(self).spec_counter() == old(self).spec_counter(),
            final(self).spec_stack() == old(self).spec_stack(),
            final(self).spec_variables() == old(self).spec_variables(),
            final(self).call_stack == old(self).call_stack,
            final(self).spec_executed() == old(self).spec_executed(),
            final(self).spec_instruction_limit() == old(self).spec_instruction_limit(),
    {
        let size = value.memory_usage();
        if size > self.memory_limit || self.active_memory_usage > self.memory_limit - size {
            return Err(ExecutorError::new_with_program(
                ExecutorErrorKind::OutOfMemory(self.active_memory_usage, size, self.memory_limit),
                program,
                self.counter,
            ));
        }
        self.active_memory_usage = self.active_memory_usage + size;
        if self.active_memory_usage > self.peak_memory_usage {
            self.peak_memory_usage = self.active_memory_usage;
        }
        Ok(())
    }

    /// Stops counting a value's memory.
    fn decrement_memory(&mut self, value: &Value)
        ensures
            final(self).spec_active() == if old(self).spec_active() >= value.memory_usage_spec() { old(self).spec_active() - value.memory_usage_spec() } else { 0 },
            final(self).spec_memory_limit() == old(self).spec_memory_limit(),
            final(self).spec_tracking() == old(self).spec_tracking(),
            final(self).spec_counter() == old(self).spec_counter(),
            final(self).spec_stack() == old(self).spec_stack(),
            final(self).spec_variables() == old(self).spec_variables(),
            final(self).call_stack == old(self).call_stack,
            final(self).spec_executed() == old(self).spec_executed(),
            final(self).spec_instruction_limit() == old(self).spec_instruction_limit(),
            final(self).spec_peak() == old(self).spec_peak(),
    {
        self.active_memory_usage = self.active_memory_usage.saturating_sub(value.memory_usage());
    }

    fn fail(program: &Program, counter: usize, message: &str) -> (e: ExecutorError)
        ensures
            e.kind is Fail,
    {
        ExecutorError::new_with_program(ExecutorErrorKind::Fail(message.to_string()), program, counter)
    }

    /// Where a slot is among the variables: global slots as they are, local ones after the
    /// current frame's base.
    fn resolve_variable_slot(&self, slot: &VariableSlot) -> (r: Option<usize>)
        ensures
            slot.is_global ==> r == Some(slot.index),
            !slot.is_global && self.call_stack@.len() == 0 ==> r is None,
            !slot.is_global && self.call_stack@.len() > 0 ==> (r is Some <==> self.call_stack@.last().local_base + slot.index <= usize::MAX)
                && (r matches Some(i) ==> i == self.call_stack@.last().local_base + slot.index),
    {
        if slot.is_global {
            Some(slot.index)
        } else {
            let n = self.call_stack.len();
            if n == 0 {
                None
            } else {
                self.call_stack[n - 1].local_base.checked_add(slot.index)
            }
        }
    }

    fn pop_value(&mut self, program: &Program) -> (r: Result<Value, ExecutorError>)
        ensures
            !old(self).spec_tracking() ==> final(self).spec_active() == old(self).spec_active() && final(self).spec_peak() == old(self).spec_peak(),
            old(self).spec_stack().len() > 0 ==> (r matches Ok(v) && v == old(self).spec_stack().last() && final(self).spec_stack() == old(self).spec_stack().drop_last()),
            old(self).spec_stack().len() == 0 ==> r is Err && final(self).spec_stack() == old(self).spec_stack(),
            final(self).spec_variables() == old(self).spec_variables(),
            final(self).spec_counter() == old(self).spec_counter(),
            final(self).spec_tracking() == old(self).spec_tracking(),
            final(self).call_stack == old(self).call_stack,
            final(self).spec_executed() == old(self).spec_executed(),
            final(self).spec_instruction_limit() == old(self).spec_instruction_limit(),
            final(self).spec_memory_limit() == old(self).spec_memory_limit(),
            final(self).spec_active() == old(self).spec_active(),
    {
        match self.stack.pop() {
            Some(v) => Ok(v),
            None => Err(Self::fail(program, self.counter, "A value was expected on the stack.")),
        }
    }

    /// Writes a value into a variable slot, creating the slot where it is the next one.
    fn store_variable(&mut self, slot_index: usize, value: Value, program: &Program) -> (r: Result<(), ExecutorError>)
        ensures
            !old(self).spec_tracking() ==> final(self).spec_active() == old(self).spec_active() && final(self).spec_peak() == old(self).spec_peak(),
            r is Ok,
            r is Ok ==> (slot_index < old(self).spec_variables().len() ==> final(self).spec_variables() == old(self).spec_variables().update(slot_index as int, value))
                && (slot_index >= old(self).spec_variables().len() ==> final(self).spec_variables() == old(self).spec_variables().push(value)),
            final(self).spec_stack() == old(self).spec_stack(),
            final(self).spec_counter() == old(self).spec_counter(),
            final(self).spec_tracking() == old(self).spec_tracking(),
            final(self).call_stack == old(self).call_stack,
            final(self).spec_executed() == old(self).spec_executed(),
            final(self).spec_instruction_limit() == old(self).spec_instruction_limit(),
            final(self).spec_memory_limit() == old(self).spec_memory_limit(),
            final(self).spec_active() <= old(self).spec_active(),
    {
        if self.variables.len() <= slot_index {
            self.variables.push(value);
        } else {
            if self.tracking {
                let previous_size = self.variables[slot_index].memory_usage();
                self.variables.set(slot_index, value);
                self.active_memory_usage = self.active_memory_usage.saturating_sub(previous_size);
            } else {
                self.variables.set(slot_index, value);
            }
        }
        Ok(())
    }

    /// Takes the last `n` values off the stack, in their order.
    fn take_top(&mut self, n: usize, program: &Program) -> (r: Result<Vec<Value>, ExecutorError>)
        ensures
            !old(self).spec_tracking() ==> final(self).spec_active() == old(self).spec_active() && final(self).spec_peak() == old(self).spec_peak(),
            old(self).spec_stack().len() >= n ==> (r matches Ok(v) && v@ == old(self).spec_stack().skip(old(self).spec_stack().len() - n)
                && final(self).spec_stack() == old(self).spec_stack().take(old(self).spec_stack().len() - n)),
            old(self).spec_stack().len() < n ==> r is Err && final(self).spec_stack() == old(self).spec_stack(),
            final(self).spec_variables() == old(self).spec_variables(),
            final(self).spec_counter() == old(self).spec_counter(),
            final(self).spec_tracking() == old(self).spec_tracking(),
            final(self).call_stack == old(self).call_stack,
            final(self).spec_executed() == old(self).spec_executed(),
            final(self).spec_instruction_limit() == old(self).spec_instruction_limit(),
            final(self).spec_memory_limit() == old(self).spec_memory_limit(),
            final(self).spec_active() == old(self).spec_active(),
    {
        let len = self.stack.len();
        if len < n {
            return Err(Self::fail(program, self.counter, "Fewer values on the stack than a call takes."));
        }
        let tail = self.stack.split_off(len - n);
        proof {
            assert(tail@ =~= old(self).spec_stack().skip(len - n));
            assert(self.stack@ =~= old(self).spec_stack().take(len - n));
        }
        Ok(tail)
    }

    /// Stops counting the memory of the values from `from` on in the stack or the variables.
    fn release_from(&mut self, from: usize, in_stack: bool)
        ensures
            final(self).spec_active() == released(
                old(self).spec_active(),
                from_on(if in_stack { old(self).spec_stack() } else { old(self).spec_variables() }, from as nat),
            ),
            final(self).spec_peak() == old(self).spec_peak(),
            final(self).spec_stack() == old(self).spec_stack(),
            final(self).spec_variables() == old(self).spec_variables(),
            final(self).spec_counter() == old(self).spec_counter(),
            final(self).spec_tracking() == old(self).spec_tracking(),
            final(self).call_stack == old(self).call_stack,
            final(self).spec_executed() == old(self).spec_executed(),
            final(self).spec_instruction_limit() == old(self).spec_instruction_limit(),
            final(self).spec_memory_limit() == old(self).spec_memory_limit(),
            final(self).spec_active() <= old(self).spec_active(),
    {
        let len = if in_stack { self.stack.len() } else { self.variables.len() };
        let mut i: usize = from;
        while i < len
            invariant
                self.spec_stack() == old(self).spec_stack(),
                self.spec_variables() == old(self).spec_variables(),
                self.spec_counter() == old(self).spec_counter(),
                self.spec_tracking() == old(self).spec_tracking(),
                self.call_stack == old(self).call_stack,
                self.spec_executed() == old(self).spec_executed(),
                self.spec_instruction_limit() == old(self).spec_instruction_limit(),
                self.spec_memory_limit() == old(self).spec_memory_limit(),
                self.spec_active() <= old(self).spec_active(),
                self.spec_peak() == old(self).spec_peak(),
                len == if in_stack { self.stack@.len() } else { self.variables@.len() },
                from <= i,
                from < len ==> i <= len,
                from >= len ==> i == from,
                self.spec_active() == released(
                    old(self).spec_active(),
                    if from < i { (if in_stack { self.stack@ } else { self.variables@ }).subrange(from as int, i as int) } else { Seq::empty() },
                ),
            decreases len - i,
        {
            let ghost items = if in_stack { self.stack@ } else { self.variables@ };
            let size = if in_stack { self.stack[i].memory_usage() } else { self.variables[i].memory_usage() };
            proof {
                assert(items.subrange(from as int, i + 1).drop_last() =~= (if from < i { items.subrange(from as int, i as int) } else { Seq::empty() }));
                assert(items.subrange(from as int, i + 1).last() == items[i as int]);
            }
            self.active_memory_usage = self.active_memory_usage.saturating_sub(size);
            i = i + 1;
        }
        proof {
            let items = if in_stack { self.stack@ } else { self.variables@ };
            assert(items == (if in_stack { old(self).spec_stack() } else { old(self).spec_variables() }));
            if from < len {
                assert(i == len);
                assert(from_on(items, from as nat) =~= items.subrange(from as int, i as int));
            } else {
                assert(from_on(items, from as nat) =~= Seq::<Value>::empty());
                assert(!(from < i));
            }
        }
    }

    /// Writes a call's receiver back into the variable it came from.
    fn write_back(&mut self, slot: &VariableSlot, callee: Value, count_new: bool, release_old: bool, program: &Program, at: usize) -> (r: Result<(), ExecutorError>)
        ensures
            !count_new && !release_old ==> final(self).spec_active() == old(self).spec_active() && final(self).spec_peak() == old(self).spec_peak(),
            r is Ok ==> (old(self).slot_position(*slot) matches Some(i) && i < old(self).spec_variables().len()
                && final(self).spec_variables() == old(self).spec_variables().update(i as int, callee)),
            (old(self).slot_position(*slot) matches Some(i) && i < old(self).spec_variables().len()) && !count_new ==> r is Ok,
            r is Err ==> final(self).spec_variables() == old(self).spec_variables(),
            final(self).spec_stack() == old(self).spec_stack(),
            final(self).spec_counter() == old(self).spec_counter(),
            final(self).spec_tracking() == old(self).spec_tracking(),
            final(self).call_stack == old(self).call_stack,
            final(self).spec_executed() == old(self).spec_executed(),
            final(self).spec_instruction_limit() == old(self).spec_instruction_limit(),
            final(self).spec_memory_limit() == old(self).spec_memory_limit(),
            old(self).spec_active() <= old(self).spec_memory_limit() ==> final(self).spec_active() <= final(self).spec_memory_limit(),
    {
        let slot_index = match self.resolve_variable_slot(slot) {
            Some(i) => i,
            None => return Err(Self::fail(program, at, "A local variable was used outside a call.")),
        };
        if slot_index >= self.variables.len() {
            return Err(Self::fail(program, at, "A variable slot was used before it was set."));
        }
        if count_new {
            match self.increment_memory(&callee, program) {
                Ok(()) => {},
                Err(e) => return Err(e),
            }
        }
        if release_old {
            let previous_size = self.variables[slot_index].memory_usage();
            self.active_memory_usage = self.active_memory_usage.saturating_sub(previous_size);
        }
        self.variables.set(slot_index, callee);
        Ok(())
    }

    /// Runs a native call: takes its arguments (and its receiver, where it has one) off the
    /// stack, hands them to the host, writes a changed receiver back to its variable, and
    /// pushes the result.
    fn native_call<H: NativeHost>(&mut self, program: &Program, host: &mut H, instruction_index: usize, call_info_index: usize) -> (r: Result<(), ExecutorError>)
        ensures
            !old(self).spec_tracking() ==> final(self).spec_active() == old(self).spec_active() && final(self).spec_peak() == old(self).spec_peak(),
            r is Ok ==> call_info_index < program.call_info@.len() && call_leaves(*old(self), *final(self), program.call_info@[call_info_index as int]),
            final(self).spec_counter() == old(self).spec_counter(),
            final(self).call_stack == old(self).call_stack,
            final(self).spec_tracking() == old(self).spec_tracking(),
            final(self).spec_instruction_limit() == old(self).spec_instruction_limit(),
            final(self).spec_memory_limit() == old(self).spec_memory_limit(),
            final(self).spec_executed() == old(self).spec_executed(),
            old(self).spec_tracking() && old(self).spec_active() <= old(self).spec_memory_limit()
                ==> final(self).spec_active() <= final(self).spec_memory_limit(),
    {
        if call_info_index >= program.call_info.len() {
            return Err(Self::fail(program, instruction_index, "No such call."));
        }
        let call_info = &program.call_info[call_info_index];
        let has_callee = call_info.call_fn.has_callee();
        let count = if has_callee {
            call_info.params.len().saturating_sub(1)
        } else {
            call_info.params.len()
        };
        if self.stack.len() < count {
            return Err(Self::fail(program, instruction_index, "Fewer values on the stack than a call takes."));
        }
        // The arguments, last one first: popping them gives them in order.
        let mut args: Vec<Value> = Vec::new();
        let mut k: usize = 0;
        let ghost pre = *self;
        let ghost (t0, i0, m0, e0, a0) = (self.tracking, self.instruction_limit, self.memory_limit, self.executed_instructions, self.active_memory_usage);
        let ghost p0 = self.peak_memory_usage;
        while k < count
            invariant
                self.stack@.len() + k == old(self).spec_stack().len(),
                self.stack@ == pre.stack@.take(pre.stack@.len() - k),
                pre.stack@ == old(self).spec_stack(),
                self.variables@ == pre.variables@,
                self.call_stack == pre.call_stack,
                self.counter == pre.counter,
                k <= count,
                old(self).spec_stack().len() >= count,
                self.spec_tracking() == old(self).spec_tracking(),
                self.tracking == t0,
                self.instruction_limit == i0,
                self.memory_limit == m0,
                self.executed_instructions == e0,
                self.active_memory_usage == a0,
                self.peak_memory_usage == p0,
            decreases count - k,
        {
            let v = self.stack.pop().unwrap();
            args.push(v);
            k = k + 1;
        }
        if self.tracking {
            let mut k: usize = 0;
            while k < args.len()
                invariant
                    self.tracking == t0,
                    self.instruction_limit == i0,
                    self.memory_limit == m0,
                    self.executed_instructions == e0,
                    self.active_memory_usage <= a0,
                    self.peak_memory_usage == p0,
                    self.stack@.len() + count == old(self).spec_stack().len(),
                    self.stack@ == pre.stack@.take(pre.stack@.len() - count),
                    self.variables@ == pre.variables@,
                    self.call_stack == pre.call_stack,
                    self.counter == pre.counter,
                    old(self).spec_stack().len() >= count,
                decreases args.len() - k,
            {
                self.decrement_memory(&args[k]);
                k = k + 1;
            }
        }
        let mut callee = if has_callee {
            let c = match self.pop_value(program) {
                Ok(v) => v,
                Err(e) => return Err(e),
            };
            if self.tracking {
                self.decrement_memory(&c);
            }
            c
        } else {
            Value::Unit
        };
        let ghost taken_stack = self.stack@;
        let ghost taken_vars = self.variables@;
        proof {
            let info = program.call_info@[call_info_index as int];
            assert(taken_stack == pre.stack@.take(pre.stack@.len() - call_taken(info)));
            assert(taken_vars == pre.variables@);
        }
        let result = match host.call(call_info, &mut callee, args) {
            Ok(v) => v,
            Err(kind) => return Err(ExecutorError::new_with_program(kind, program, instruction_index)),
        };
        match call_info.call_fn {
            FunctionKind::Free(_) => {},
            _ => {
                if result.is_some() != call_info.return_type.is_some() {
                    return Err(Self::fail(program, instruction_index, "A native call's return did not match its declaration."));
                }
                let writes_back = !matches!(call_info.call_fn, FunctionKind::Method(_));
                if writes_back {
                    match &call_info.source {
                        CallSource::Variable(slot) => {
                            let is_setter = matches!(call_info.call_fn, FunctionKind::Setter(_));
                            let tracking = self.tracking;
                            match self.write_back(slot, callee, tracking, tracking && !is_setter, program, instruction_index) {
                                Ok(()) => {},
                                Err(e) => return Err(e),
                            }
                        },
                        CallSource::Stack => {},
                    }
                }
            },
        }
        match result {
            Some(v) => {
                if self.tracking {
                    match self.increment_memory(&v, program) {
                        Ok(()) => {},
                        Err(e) => return Err(e),
                    }
                }
                self.stack.push(v);
            },
            None => {},
        }
        proof {
            let info = program.call_info@[call_info_index as int];
            let base = pre.stack@.len() - call_taken(info);
            assert(self.stack@.take(base) =~= pre.stack@.take(base));
            if call_writes_back(info) {
                assert(self.variables@.len() == pre.variables@.len());
            } else {
                assert(self.variables@ == pre.variables@);
            }
        }
        Ok(())
    }

    /// Runs the instruction at the counter.
    pub fn execute_instruction<H: NativeHost>(&mut self, program: &Program, host: &mut H) -> (r: Result<StepResult, ExecutorError>)
        ensures
            !old(self).spec_tracking() ==> final(self).spec_active() == old(self).spec_active() && final(self).spec_peak() == old(self).spec_peak(),
            old(self).spec_tracking() && old(self).spec_executed() >= old(self).spec_instruction_limit() ==> (r matches Ok(StepResult::InstructionLimit) && *final(self) == *old(self)),
            old(self).spec_counter() >= program.instructions@.len() && !(old(self).spec_tracking() && old(self).spec_executed() >= old(self).spec_instruction_limit()) ==> (r matches Err(e) && e.kind is Fail),
            old(self).spec_counter() < program.instructions@.len() && !(old(self).spec_tracking() && old(self).spec_executed() >= old(self).spec_instruction_limit())
                ==> instruction_effect(*old(self), *final(self), *program, r),
            final(self).spec_tracking() == old(self).spec_tracking(),
            final(self).spec_instruction_limit() == old(self).spec_instruction_limit(),
            final(self).spec_memory_limit() == old(self).spec_memory_limit(),
            old(self).spec_tracking() && old(self).spec_executed() <= old(self).spec_instruction_limit()
                ==> final(self).spec_executed() <= final(self).spec_instruction_limit(),
            old(self).spec_tracking() && old(self).spec_active() <= old(self).spec_memory_limit()
                ==> final(self).spec_active() <= final(self).spec_memory_limit(),
            old(self).within_limits() ==> final(self).within_limits(),
            old(self).spec_tracking() && old(self).spec_executed() < old(self).spec_instruction_limit()
                ==> final(self).spec_executed() == old(self).spec_executed() + 1,
            !old(self).spec_tracking() ==> final(self).spec_executed() == old(self).spec_executed(),
            r matches Ok(StepResult::InstructionLimit) ==> old(self).spec_tracking() && old(self).spec_executed()
                >= old(self).spec_instruction_limit(),
        decreases *program, 2int,
    {
        self.step(program, host)
    }

    fn step<H: NativeHost>(&mut self, program: &Program, host: &mut H) -> (r: Result<StepResult, ExecutorError>)
        ensures
            !old(self).spec_tracking() ==> final(self).spec_active() == old(self).spec_active() && final(self).spec_peak() == old(self).spec_peak(),
            old(self).spec_tracking() && old(self).spec_executed() >= old(self).spec_instruction_limit() ==> (r matches Ok(StepResult::InstructionLimit) && *final(self) == *old(self)),
            old(self).spec_counter() >= program.instructions@.len() && !(old(self).spec_tracking() && old(self).spec_executed() >= old(self).spec_instruction_limit()) ==> (r matches Err(e) && e.kind is Fail),
            old(self).spec_counter() < program.instructions@.len() && !(old(self).spec_tracking() && old(self).spec_executed() >= old(self).spec_instruction_limit()) ==> (
                match program.instructions@[old(self).spec_counter() as int] {
                    Instruction::Jump(a) => r matches Ok(StepResult::Continue) && final(self).spec_counter() == a && final(self).spec_stack() == old(self).spec_stack()
                        && final(self).spec_variables() == old(self).spec_variables(),
                    Instruction::JumpIfFalse(a) => old(self).spec_stack().len() > 0 && old(self).spec_stack().last() is Bool ==> (r matches Ok(StepResult::Continue)
                        && final(self).spec_stack() == old(self).spec_stack().drop_last()
                        && final(self).spec_counter() == if old(self).spec_stack().last()->Bool_0 { old(self).spec_counter() + 1 } else { a as nat }),
                    Instruction::JumpIfTrue(a) => old(self).spec_stack().len() > 0 && old(self).spec_stack().last() is Bool ==> (r matches Ok(StepResult::Continue)
                        && final(self).spec_stack() == old(self).spec_stack().drop_last()
                        && final(self).spec_counter() == if old(self).spec_stack().last()->Bool_0 { a as nat } else { old(self).spec_counter() + 1 }),
                    Instruction::Constant(c) => (!old(self).spec_tracking() ==> (r matches Ok(StepResult::Continue)
                        && final(self).spec_stack().len() == old(self).spec_stack().len() + 1
                        && final(self).spec_stack().drop_last() == old(self).spec_stack()
                        && same_value(final(self).spec_stack().last(), c)
                        && final(self).spec_counter() == old(self).spec_counter() + 1))
                        && (old(self).spec_tracking() ==> (r is Err <==> old(self).spec_active() + c.memory_usage_spec()
                            > old(self).spec_memory_limit())
                        && (r matches Err(e) ==> e.kind is OutOfMemory)
                        && (r is Ok ==> (r matches Ok(StepResult::Continue))
                            && final(self).spec_stack().len() == old(self).spec_stack().len() + 1
                            && final(self).spec_stack().drop_last() == old(self).spec_stack()
                            && same_value(final(self).spec_stack().last(), c)
                            && final(self).spec_active() == old(self).spec_active() + c.memory_usage_spec()
                            && final(self).spec_counter() == old(self).spec_counter() + 1)),
                    Instruction::Drop(n) => r matches Ok(StepResult::Continue)
                        && final(self).spec_stack() == old(self).spec_stack().take(
                            if old(self).spec_stack().len() >= n { old(self).spec_stack().len() - n } else { 0 },
                        )
                        && final(self).spec_variables() == old(self).spec_variables()
                        && final(self).spec_counter() == old(self).spec_counter() + 1,
                    Instruction::SetVariable(slot) => old(self).spec_stack().len() > 0 && old(self).slot_position(slot) is Some ==> (
                        r matches Ok(StepResult::Continue)
                        && final(self).spec_stack() == old(self).spec_stack().drop_last()
                        && final(self).spec_variables() == stored(old(self).spec_variables(), old(self).slot_position(slot)->0, old(self).spec_stack().last())
                        && final(self).spec_counter() == old(self).spec_counter() + 1),
                    Instruction::ReserveVariable(slot) => old(self).slot_position(slot) is Some ==> (r matches Ok(StepResult::Continue)
                        && final(self).spec_stack() == old(self).spec_stack()
                        && final(self).spec_variables() == stored(old(self).spec_variables(), old(self).slot_position(slot)->0, Value::Unit)
                        && final(self).spec_counter() == old(self).spec_counter() + 1),
                    Instruction::GetVariable(slot) => (old(self).slot_position(slot) matches Some(i) && i < old(self).spec_variables().len()) ==> (
                        (!old(self).spec_tracking() ==> r is Ok)
                        && (r is Ok ==> (r matches Ok(StepResult::Continue))
                            && final(self).spec_stack().len() == old(self).spec_stack().len() + 1
                            && final(self).spec_stack().drop_last() == old(self).spec_stack()
                            && same_value(final(self).spec_stack().last(), old(self).spec_variables()[old(self).slot_position(slot)->0 as int])
                            && final(self).spec_variables() == old(self).spec_variables()
                            && final(self).spec_counter() == old(self).spec_counter() + 1)),
                    Instruction::LoadFunction(index) => index < program.functions@.len() ==> (
                        (!old(self).spec_tracking() ==> r is Ok)
                        && (r is Ok ==> (r matches Ok(StepResult::Continue))
                            && final(self).spec_stack().len() == old(self).spec_stack().len() + 1
                            && final(self).spec_stack().drop_last() == old(self).spec_stack()
                            && same_value(final(self).spec_stack().last(), Value::Function(program.functions@[index as int]))
                            && final(self).spec_variables() == old(self).spec_variables()
                            && final(self).spec_counter() == old(self).spec_counter() + 1)),
                    Instruction::CallScript(index, n) => index < program.functions@.len() && n <= old(self).spec_stack().len() ==> (
                        r matches Ok(StepResult::Continue)
                        && final(self).spec_counter() == program.functions@[index as int].instruction
                        && final(self).spec_call_depth() == old(self).spec_call_depth() + 1
                        && final(self).spec_return_address() == old(self).spec_counter() + 1
                        && !final(self).spec_return_ends_run()
                        && final(self).spec_local_base() == old(self).spec_variables().len()
                        && final(self).spec_stack_base() == old(self).spec_stack().len() - n
                        && final(self).spec_stack() == old(self).spec_stack().take(old(self).spec_stack().len() - n)
                        && final(self).spec_variables() == old(self).spec_variables() + old(self).spec_stack().skip(old(self).spec_stack().len() - n)
                            + units(if program.functions@[index as int].local_count > n { (program.functions@[index as int].local_count - n) as nat } else { 0 })),
                    Instruction::CallDynamic(n) => n < old(self).spec_stack().len()
                        && old(self).spec_stack()[old(self).spec_stack().len() - n - 1] is Function ==> ({
                        let f = old(self).spec_stack()[old(self).spec_stack().len() - n - 1]->Function_0;
                        r matches Ok(StepResult::Continue)
                        && final(self).spec_counter() == f.instruction
                        && final(self).spec_call_depth() == old(self).spec_call_depth() + 1
                        && final(self).spec_return_address() == old(self).spec_counter() + 1
                        && !final(self).spec_return_ends_run()
                        && final(self).spec_local_base() == old(self).spec_variables().len()
                        && final(self).spec_stack_base() == old(self).spec_stack().len() - n - 1
                        && final(self).spec_stack() == old(self).spec_stack().take(old(self).spec_stack().len() - n - 1)
                        && final(self).spec_variables() == old(self).spec_variables() + old(self).spec_stack().skip(old(self).spec_stack().len() - n)
                            + units(if f.local_count > n { (f.local_count - n) as nat } else { 0 })
                    }),
                    Instruction::Return(has_value) => (!has_value || old(self).spec_stack().len() > 0) ==> ({
                        let rest = if has_value { old(self).spec_stack().drop_last() } else { old(self).spec_stack() };
                        let given = if has_value { seq![old(self).spec_stack().last()] } else { Seq::empty() };
                        if old(self).spec_call_depth() == 0 {
                            r matches Ok(StepResult::Result(v)) && *v is None
                        } else if old(self).spec_return_ends_run() {
                            r matches Ok(StepResult::Result(v)) && (*v matches Some(x) ==> has_value && x == old(self).spec_stack().last())
                                && (has_value ==> *v is Some)
                        } else {
                            (!(old(self).spec_tracking() && has_value) ==> r is Ok)
                            && (r is Ok ==> (r matches Ok(StepResult::Continue))
                                && final(self).spec_counter() == old(self).spec_return_address()
                                && final(self).spec_call_depth() == old(self).spec_call_depth() - 1
                                && old(self).pops_frame(*final(self))
                                && final(self).spec_stack() == cut(rest, old(self).spec_stack_base()) + given
                                && final(self).spec_variables() == cut(old(self).spec_variables(), old(self).spec_local_base()))
                        }
                    }),
                    Instruction::Call(ci) => r is Ok ==> (ci < program.call_info@.len() && (r matches Ok(StepResult::Continue))
                        && call_effect(*old(self), *final(self), program.call_info@[ci as int])),
                    Instruction::ImportedFunctionCall(p, f, n) => (old(self).spec_tracking() ==> (r matches Err(e) && e.kind is Todo))
                        && (r is Ok ==> (r matches Ok(StepResult::Continue)) && n <= old(self).spec_stack().len()
                        && p < program.imports@.len() && f < program.imports@[p as int].1.functions@.len()
                        && final(self).spec_stack().take(old(self).spec_stack().len() - n) == old(self).spec_stack().take(old(self).spec_stack().len() - n)
                        && (final(self).spec_stack().len() == old(self).spec_stack().len() - n + 1 <==> program.imports@[p as int].1.functions@[f as int].return_type is Some)
                        && (final(self).spec_stack().len() == old(self).spec_stack().len() - n || final(self).spec_stack().len() == old(self).spec_stack().len() - n + 1)
                        && final(self).spec_variables() == old(self).spec_variables()
                        && final(self).spec_counter() == old(self).spec_counter() + 1),
                }
            ),
            final(self).spec_tracking() == old(self).spec_tracking(),
            final(self).spec_instruction_limit() == old(self).spec_instruction_limit(),
            final(self).spec_memory_limit() == old(self).spec_memory_limit(),
            old(self).spec_tracking() && old(self).spec_executed() <= old(self).spec_instruction_limit()
                ==> final(self).spec_executed() <= final(self).spec_instruction_limit(),
            old(self).spec_tracking() && old(self).spec_active() <= old(self).spec_memory_limit()
                ==> final(self).spec_active() <= final(self).spec_memory_limit(),
            old(self).within_limits() ==> final(self).within_limits(),
            old(self).spec_tracking() && old(self).spec_executed() < old(self).spec_instruction_limit()
                ==> final(self).spec_executed() == old(self).spec_executed() + 1,
            !old(self).spec_tracking() ==> final(self).spec_executed() == old(self).spec_executed(),
            r matches Ok(StepResult::InstructionLimit) ==> old(self).spec_tracking() && old(self).spec_executed()
                >= old(self).spec_instruction_limit(),
        decreases *program, 1int,
    {
        if self.tracking {
            if self.executed_instructions >= self.instruction_limit {
                return Ok(StepResult::InstructionLimit);
            }
            self.executed_instructions = self.executed_instructions + 1;
        }
        let instruction_index = self.counter;
        if instruction_index >= program.instructions.len() {
            return Err(Self::fail(program, instruction_index, "The counter is past the last instruction."));
        }
        match &program.instructions[instruction_index] {
            Instruction::Constant(constant) => {
                let value = constant.copy();
                proof {
                    crate::memory_usage::lemma_same_value_same_size(value, *constant);
                }
                if self.tracking {
                    match self.increment_memory(&value, program) {
                        Ok(()) => {},
                        Err(e) => return Err(e),
                    }
                }
                self.stack.push(value);
            },
            Instruction::SetVariable(slot) => {
                let value = match self.pop_value(program) {
                    Ok(v) => v,
                    Err(e) => return Err(e),
                };
                let slot_index = match self.resolve_variable_slot(slot) {
                    Some(i) => i,
                    None => return Err(Self::fail(program, instruction_index, "A local variable was used outside a call.")),
                };
                match self.store_variable(slot_index, value, program) {
                    Ok(()) => {},
                    Err(e) => return Err(e),
                }
            },
            Instruction::ReserveVariable(slot) => {
                let slot_index = match self.resolve_variable_slot(slot) {
                    Some(i) => i,
                    None => return Err(Self::fail(program, instruction_index, "A local variable was used outside a call.")),
                };
                if self.variables.len() <= slot_index {
                    self.variables.push(Value::Unit);
                } else {
                    self.variables.set(slot_index, Value::Unit);
                }
            },
            Instruction::JumpIfFalse(address) => {
                let value = match self.pop_value(program) {
                    Ok(v) => v,
                    Err(e) => return Err(e),
                };
                if self.tracking {
                    self.decrement_memory(&value);
                }
                match value {
                    Value::Bool(condition) => {
                        if !condition {
                            self.counter = *address;
                            return Ok(StepResult::Continue);
                        }
                    },
                    _ => return Err(Self::fail(program, instruction_index, "A jump's condition is not a boolean.")),
                }
            },
            Instruction::JumpIfTrue(address) => {
                let value = match self.pop_value(program) {
                    Ok(v) => v,
                    Err(e) => return Err(e),
                };
                if self.tracking {
                    self.decrement_memory(&value);
                }
                match value {
                    Value::Bool(condition) => {
                        if condition {
                            self.counter = *address;
                            return Ok(StepResult::Continue);
                        }
                    },
                    _ => return Err(Self::fail(program, instruction_index, "A jump's condition is not a boolean.")),
                }
            },
            Instruction::Jump(address) => {
                self.counter = *address;
                return Ok(StepResult::Continue);
            },
            Instruction::GetVariable(slot) => {
                let slot_index = match self.resolve_variable_slot(slot) {
                    Some(i) => i,
                    None => return Err(Self::fail(program, instruction_index, "A local variable was used outside a call.")),
                };
                if slot_index >= self.variables.len() {
                    return Err(Self::fail(program, instruction_index, "A variable slot was used before it was set."));
                }
                let value = self.variables[slot_index].copy();
                if self.tracking {
                    match self.increment_memory(&value, program) {
                        Ok(()) => {},
                        Err(e) => return Err(e),
                    }
                }
                self.stack.push(value);
            },
            Instruction::LoadFunction(index) => {
                if *index >= program.functions.len() {
                    return Err(Self::fail(program, instruction_index, "No such script function."));
                }
                let entry = Value::Function(program.functions[*index].copy());
                if self.tracking {
                    match self.increment_memory(&entry, program) {
                        Ok(()) => {},
                        Err(e) => return Err(e),
                    }
                }
                self.stack.push(entry);
            },
            Instruction::CallScript(index, arg_count) => {
                if *index >= program.functions.len() {
                    return Err(Self::fail(program, instruction_index, "No such script function."));
                }
                let entry = program.functions[*index].instruction;
                let local_count = program.functions[*index].local_count;
                let args = match self.take_top(*arg_count, program) {
                    Ok(a) => a,
                    Err(e) => return Err(e),
                };
                let local_base = self.variables.len();
                let stack_base = self.stack.len();
                self.call_stack.push(CallFrame { return_address: instruction_index + 1, local_base, stack_base, return_token: false });
                let mut args = args;
                self.variables.append(&mut args);
                let mut k: usize = *arg_count;
                let ghost (t0, i0, m0, e0, a0) = (self.tracking, self.instruction_limit, self.memory_limit, self.executed_instructions, self.active_memory_usage);
                let ghost p0 = self.peak_memory_usage;
                let ghost (base, s0, cs0) = (self.variables@, self.stack@, self.call_stack@);
                while k < local_count
                    invariant
                        *arg_count <= k,
                        self.call_stack@ == cs0,
                        k == *arg_count || k <= local_count,
                        self.variables@ == base + units((k - *arg_count) as nat),
                        self.stack@ == s0,
                        self.tracking == t0,
                        self.instruction_limit == i0,
                        self.memory_limit == m0,
                        self.executed_instructions == e0,
                        self.active_memory_usage == a0,
                        self.peak_memory_usage == p0,
                    decreases local_count - k,
                {
                    self.variables.push(Value::Unit);
                    k = k + 1;
                    assert(self.variables@ =~= base + units((k - *arg_count) as nat));
                }
                assert(k - *arg_count == if local_count > *arg_count { local_count - *arg_count } else { 0 });
                self.counter = entry;
                return Ok(StepResult::Continue);
            },
            Instruction::CallDynamic(arg_count) => {
                if self.stack.len() < *arg_count || self.stack.len() - *arg_count < 1 {
                    return Err(Self::fail(program, instruction_index, "Fewer values on the stack than a call takes."));
                }
                let args = match self.take_top(*arg_count, program) {
                    Ok(a) => a,
                    Err(e) => return Err(e),
                };
                let func_val = match self.pop_value(program) {
                    Ok(v) => v,
                    Err(e) => return Err(e),
                };
                if self.tracking {
                    self.decrement_memory(&func_val);
                }
                let func = match func_val {
                    Value::Function(f) => f,
                    _ => return Err(Self::fail(program, instruction_index, "The called value is not a function.")),
                };
                let local_base = self.variables.len();
                let stack_base = self.stack.len();
                self.call_stack.push(CallFrame { return_address: instruction_index + 1, local_base, stack_base, return_token: false });
                let mut args = args;
                self.variables.append(&mut args);
                let mut k: usize = *arg_count;
                let ghost (t0, i0, m0, e0, a0) = (self.tracking, self.instruction_limit, self.memory_limit, self.executed_instructions, self.active_memory_usage);
                let ghost p0 = self.peak_memory_usage;
                let ghost (base, s0, cs0) = (self.variables@, self.stack@, self.call_stack@);
                while k < func.local_count
                    invariant
                        *arg_count <= k,
                        k == *arg_count || k <= func.local_count,
                        self.variables@ == base + units((k - *arg_count) as nat),
                        self.stack@ == s0,
                        self.call_stack@ == cs0,
                        self.tracking == t0,
                        self.instruction_limit == i0,
                        self.memory_limit == m0,
                        self.executed_instructions == e0,
                        self.active_memory_usage == a0,
                        self.peak_memory_usage == p0,
                    decreases func.local_count - k,
                {
                    self.variables.push(Value::Unit);
                    k = k + 1;
                    assert(self.variables@ =~= base + units((k - *arg_count) as nat));
                }
                assert(k - *arg_count == if func.local_count > *arg_count { func.local_count - *arg_count } else { 0 });
                self.counter = func.instruction;
                return Ok(StepResult::Continue);
            },
            Instruction::Return(has_value) => {
                let return_value = if *has_value {
                    let value = match self.pop_value(program) {
                        Ok(v) => v,
                        Err(e) => return Err(e),
                    };
                    if self.tracking {
                        self.decrement_memory(&value);
                    }
                    Some(value)
                } else {
                    None
                };
                let frame = match self.call_stack.pop() {
                    Some(f) => f,
                    None => return Ok(StepResult::Result(Box::new(None))),
                };
                if frame.return_token {
                    return Ok(StepResult::Result(Box::new(return_value)));
                }
                self.counter = frame.return_address;
                if self.tracking {
                    self.release_from(frame.stack_base, true);
                    self.release_from(frame.local_base, false);
                }
                self.stack.truncate(frame.stack_base);
                self.variables.truncate(frame.local_base);
                match return_value {
                    Some(v) => {
                        if self.tracking {
                            match self.increment_memory(&v, program) {
                                Ok(()) => {},
                                Err(e) => return Err(e),
                            }
                        }
                        self.stack.push(v);
                    },
                    None => {},
                }
                return Ok(StepResult::Continue);
            },
            Instruction::Call(call_info_index) => {
                match self.native_call(program, host, instruction_index, *call_info_index) {
                    Ok(()) => {},
                    Err(e) => return Err(e),
                }
            },
            Instruction::ImportedFunctionCall(program_index, function_index, arg_count) => {
                if self.tracking {
                    return Err(ExecutorError::new_with_program(
                        ExecutorErrorKind::Todo("Imported function calls need to support partial execution".to_string()),
                        program,
                        instruction_index,
                    ));
                }
                let args = match self.take_top(*arg_count, program) {
                    Ok(a) => a,
                    Err(e) => return Err(e),
                };
                if *program_index >= program.imports.len() {
                    return Err(Self::fail(program, instruction_index, "No such import."));
                }
                let imported = &program.imports[*program_index].1;
                if *function_index >= imported.functions.len() {
                    return Err(Self::fail(program, instruction_index, "No such imported function."));
                }
                let gives_value = imported.functions[*function_index].return_type.is_some();
                proof {
                    assert(decreases_to!(*program => program.imports));
                    assert(decreases_to!(program.imports => program.imports@));
                    assert(decreases_to!(program.imports@ => program.imports@[*program_index as int]));
                    assert(decreases_to!(program.imports@[*program_index as int] => program.imports@[*program_index as int].1));
                }
                let mut executor = Executor::default();
                let result = match executor.run_function_with_any_return_impl(imported, *function_index, args, gives_value, host) {
                    Ok(v) => v,
                    Err(e) => return Err(e),
                };
                if result.is_some() != gives_value {
                    return Err(Self::fail(program, instruction_index, "An imported function's return did not match its declaration."));
                }
                match result {
                    Some(v) => self.stack.push(v),
                    None => {},
                }
            },
            Instruction::Drop(drop_count) => {
                let len = self.stack.len();
                let keep = len.saturating_sub(*drop_count);
                if self.tracking {
                    self.release_from(keep, true);
                }
                self.stack.truncate(keep);
            },
        }
        self.counter = instruction_index + 1;
        Ok(StepResult::Continue)
    }

    /// Runs until the program ends or gives_value from the outermost call; the value left on top
    /// of the stack is the result.
    fn execute_impl<H: NativeHost>(&mut self, program: &Program, host: &mut H) -> (r: Result<Option<Value>, ExecutorError>)
        ensures
            old(self).spec_counter() >= program.instructions@.len() ==> r == Ok::<Option<Value>, ExecutorError>(
                if old(self).spec_stack().len() > 0 { Some(old(self).spec_stack().last()) } else { None },
            ),
            runs_to(*old(self), *program, r),
        decreases *program, 3int,
    {
        let mut steps: usize = 0;
        let ghost mut t: Seq<Executor> = seq![*self];
        while self.counter < program.instructions.len()
            invariant
                old(self).spec_counter() >= program.instructions@.len() ==> *self == *old(self),
                is_run(t, *program),
                t[0] == *old(self),
                t.last() == *self,
                t.len() == steps + 1,
            decreases usize::MAX - steps,
        {
            if steps == usize::MAX {
                let e = ExecutorError::new_with_program(ExecutorErrorKind::InstructionLimit(usize::MAX), program, self.counter);
                assert(run_outcome(t, *program, Err(e)));
                return Err(e);
            }
            steps = steps + 1;
            let ghost before = *self;
            match self.execute_instruction(program, host) {
                Ok(StepResult::Result(result)) => {
                    proof {
                        assert(instruction_effect(before, *self, *program, Ok(StepResult::Result(Box::new(*result)))));
                        assert(run_outcome(t, *program, Ok(*result)));
                    }
                    return Ok(*result);
                },
                Ok(StepResult::Continue) | Ok(StepResult::Yield) => {
                    proof {
                        let next = t.push(*self);
                        assert forall|k: int| 0 <= k < next.len() - 1 implies #[trigger] steps_on(next, k, *program) by {
                            if k < t.len() - 1 {
                                assert(steps_on(t, k, *program));
                            }
                        }
                        t = next;
                    }
                },
                Ok(StepResult::InstructionLimit) => {
                    let e = ExecutorError::new_with_program(
                        ExecutorErrorKind::InstructionLimit(self.instruction_limit),
                        program,
                        self.counter,
                    );
                    proof {
                        assert(run_outcome(t, *program, Err(e)));
                    }
                    return Err(e);
                },
                Err(e) => {
                    proof {
                        assert(instruction_effect(before, *self, *program, Err(e)));
                        assert(run_outcome(t, *program, Err(e)));
                    }
                    return Err(e);
                },
            }
        }
        proof {
            let top = if self.stack@.len() > 0 { Some(self.stack@.last()) } else { None };
            assert(run_outcome(t, *program, Ok(top)));
        }
        let value = self.stack.pop();
        if self.tracking {
            match &value {
                Some(v) => self.decrement_memory(v),
                None => {},
            }
        }
        Ok(value)
    }

    /// Runs the whole script.
    pub fn run<H: NativeHost>(self, program: &Program, host: &mut H) -> (r: Result<(), ExecutorError>)
        ensures
            self.spec_counter() >= program.instructions@.len() ==> r is Ok,
            r is Ok ==> exists|v: Option<Value>| #[trigger] runs_to(self, *program, Ok(v)),
            r matches Err(e) ==> runs_to(self, *program, Err(e)),
    {
        let mut this = self;
        match this.execute_impl(program, host) {
            Ok(_) => Ok(()),
            Err(e) => Err(e),
        }
    }

    /// Runs the whole script; it must leave a value.
    pub fn run_with_any_return<H: NativeHost>(self, program: &Program, host: &mut H) -> (r: Result<Value, ExecutorError>)
        ensures
            self.spec_counter() >= program.instructions@.len() && self.spec_stack().len() > 0 ==> r == Ok::<Value, ExecutorError>(
                self.spec_stack().last(),
            ),
            self.spec_counter() >= program.instructions@.len() && self.spec_stack().len() == 0 ==> (r matches Err(e)
                && e.kind is NoReturnValue),
            r matches Ok(v) ==> runs_to(self, *program, Ok(Some(v))),
            r matches Err(e) ==> runs_to(self, *program, Err(e)) || (runs_to(self, *program, Ok(None))
                && e.kind is NoReturnValue),
    {
        let mut this = self;
        match this.execute_impl(program, host) {
            Ok(Some(v)) => Ok(v),
            Ok(None) => Err(ExecutorError::new(ExecutorErrorKind::NoReturnValue)),
            Err(e) => Err(e),
        }
    }

    /// Runs the whole script; it must leave a value of the Rust type `T`.
    pub fn run_with_return<T: ProgramValue, H: NativeHost>(self, program: &Program, host: &mut H) -> (r: Result<T, ExecutorError>)
        ensures
            self.spec_counter() >= program.instructions@.len() && self.spec_stack().len() == 0 ==> (r matches Err(e)
                && e.kind is NoReturnValue),
            r is Ok ==> exists|v: Value| #[trigger] runs_to(self, *program, Ok(Some(v))),
            r matches Err(e) ==> runs_to(self, *program, Err(e)) || (runs_to(self, *program, Ok(None))
                && e.kind is NoReturnValue) || (e.kind is WrongReturnValue && exists|v: Value|
                #[trigger] runs_to(self, *program, Ok(Some(v)))),
    {
        let value = match self.run_with_any_return(program, host) {
            Ok(v) => v,
            Err(e) => return Err(e),
        };
        let found = value_type_name(&value);
        match T::from_value(value) {
            Some(t) => Ok(t),
            None => Err(ExecutorError::new(ExecutorErrorKind::WrongReturnValue(T::value_type().display(), found))),
        }
    }

    /// Runs the script's function `name` with the given arguments, after checking its
    /// parameter and return types against the ones given.
    pub fn run_function_with_any_return<H: NativeHost>(
        self,
        program: &Program,
        name: &str,
        param_typing: Vec<ValueType>,
        params: Vec<Value>,
        return_type: Option<ValueType>,
        host: &mut H,
    ) -> (r: Result<Option<Value>, ExecutorError>)
        requires
            param_typing@.len() == params@.len(),
        ensures
            match first_named(program.functions@, name@) {
                None => r matches Err(e) && (e.kind matches ExecutorErrorKind::MissingFunction(n) && n@ == name@)
                    && e.location == (Location { line: 0, column: 0, length: 0 }),
                Some(i) => {
                    let f = program.functions@[i];
                    if !same_types(f.params@, param_typing@) {
                        r matches Err(e) && (e.kind matches ExecutorErrorKind::InvalidFunctionCall(n, expected, found)
                            && n@ == name@ && same_types(expected@, f.params@) && found == param_typing)
                            && e.location == (Location { line: 0, column: 0, length: 0 })
                    } else if !same_optional_type(f.return_type, return_type) {
                        r matches Err(e) && (e.kind matches ExecutorErrorKind::InvalidFunctionReturnType(n, expected, found)
                            && n@ == name@ && same_optional_type(expected, f.return_type) && found == return_type)
                            && e.location == (Location { line: 0, column: 0, length: 0 })
                    } else {
                        r matches Ok(v) ==> (v is Some <==> return_type is Some)
                    }
                },
            },
    {
        let key = name.to_owned();
        let mut found: Option<usize> = None;
        let mut i: usize = 0;
        while i < program.functions.len()
            invariant_except_break
                found is None,
            invariant
                i <= program.functions@.len(),
                key@ == name@,
                forall|k: int| 0 <= k < i ==> program.functions@[k].name@ != name@,
            ensures
                found matches Some(f) ==> f < program.functions@.len() && first_named(program.functions@, name@) == Some(f as int),
                found is None ==> forall|k: int| 0 <= k < program.functions@.len() ==> program.functions@[k].name@ != name@,
            decreases program.functions.len() - i,
        {
            if program.functions[i].name == key {
                proof {
                    let fs = program.functions@;
                    assert(0 <= i < fs.len() && fs[i as int].name@ == name@ && forall|k: int| 0 <= k < i ==> fs[k].name@ != name@);
                    let j = choose|j: int| 0 <= j < fs.len() && fs[j].name@ == name@ && forall|k: int| 0 <= k < j ==> fs[k].name@ != name@;
                    if j < i {
                        assert(fs[j].name@ != name@);
                    }
                    if j > i {
                        assert(fs[i as int].name@ != name@);
                    }
                }
                found = Some(i);
                break;
            }
            i = i + 1;
        }
        let function_index = match found {
            Some(f) => f,
            None => return Err(ExecutorError::new(ExecutorErrorKind::MissingFunction(key))),
        };
        let function = &program.functions[function_index];
        if !crate::module::types_match(&function.params, param_typing.as_slice()) {
            return Err(ExecutorError::new(ExecutorErrorKind::InvalidFunctionCall(
                key,
                crate::types::copy_types(&function.params),
                param_typing,
            )));
        }
        let same_return = match (&function.return_type, &return_type) {
            (Some(a), Some(b)) => a.same(b),
            (None, None) => true,
            _ => false,
        };
        if !same_return {
            return Err(ExecutorError::new(ExecutorErrorKind::InvalidFunctionReturnType(
                key,
                match &function.return_type {
                    Some(t) => Some(t.copy()),
                    None => None,
                },
                return_type,
            )));
        }
        let gives_value = return_type.is_some();
        let mut this = self;
        let result = match this.run_function_with_any_return_impl(program, function_index, params, gives_value, host) {
            Ok(v) => v,
            Err(e) => return Err(e),
        };
        if result.is_some() != gives_value {
            let shown = match &result {
                Some(v) => value_type_name(v),
                None => "No Return".to_string(),
            };
            return Err(ExecutorError::new(ExecutorErrorKind::FunctionDidNotObeyTyping(
                key,
                match &function.return_type {
                    Some(t) => Some(t.copy()),
                    None => None,
                },
                shown,
            )));
        }
        Ok(result)
    }

    /// Runs the script once (to set its globals), then calls one of its functions with the
    /// given arguments as its first locals.
    fn run_function_with_any_return_impl<H: NativeHost>(
        &mut self,
        program: &Program,
        function_index: usize,
        params: Vec<Value>,
        gives_value: bool,
        host: &mut H,
    ) -> (r: Result<Option<Value>, ExecutorError>)
        ensures
            function_index >= program.functions@.len() ==> (r matches Err(e) && e.kind is Fail),
        decreases *program, 4int,
    {
        if function_index >= program.functions.len() {
            return Err(Self::fail(program, self.counter, "No such script function."));
        }
        match self.execute_impl(program, host) {
            Ok(_) => {},
            Err(e) => return Err(e),
        }
        let local_base = self.variables.len();
        let stack_base = self.stack.len();
        self.call_stack.push(CallFrame {
            return_address: self.counter.saturating_add(1),
            local_base,
            stack_base,
            return_token: true,
        });
        self.counter = program.functions[function_index].instruction;
        let mut i: usize = 0;
        while i < params.len()
            invariant
                function_index < program.functions@.len(),
            decreases params.len() - i,
        {
            let arg = params[i].copy();
            if self.tracking {
                match self.increment_memory(&arg, program) {
                    Ok(()) => {},
                    Err(e) => return Err(e),
                }
            }
            self.variables.push(arg);
            i = i + 1;
        }
        let result = match self.execute_impl(program, host) {
            Ok(v) => v,
            Err(e) => return Err(e),
        };
        if gives_value != result.is_some() {
            return Err(ExecutorError::new(ExecutorErrorKind::ReturnDidNotObeyTyping));
        }
        Ok(result)
    }
}

/// The name of a value's type, as errors show it.
pub open spec fn value_type_text(v: Value) -> Seq<char> {
    match v {
        Value::Unit => "()"@,
        Value::Int(_) => "i64"@,
        Value::Float(_) => "f64"@,
        Value::Bool(_) => "bool"@,
        Value::Str(_) => "String"@,
        Value::Function(_) => "FunctionEntry"@,
        Value::Custom(t, _) => type_text(t),
    }
}

/// The name of a value's type, as errors show it.
pub fn value_type_name(v: &Value) -> (s: String)
    ensures
        s@ == value_type_text(*v),
{
    match v {
        Value::Unit => "()".to_owned(),
        Value::Int(_) => "i64".to_owned(),
        Value::Float(_) => "f64".to_owned(),
        Value::Bool(_) => "bool".to_owned(),
        Value::Str(_) => "String".to_owned(),
        Value::Function(_) => "FunctionEntry".to_owned(),
        Value::Custom(t, _) => t.display(),
    }
}

} // verus!
