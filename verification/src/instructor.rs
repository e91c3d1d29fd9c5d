use vstd::prelude::*;

use crate::Location;
use crate::constructor::{AExpr, AStmt, FinalizedConstruct};
use crate::module::FunctionKind;
use crate::parser::LogicalOp;
use crate::types::{CallSource, ValueType, VariableSlot, same_optional_type};
use crate::value::{FunctionEntry, Value, same_value};

verus! {

/// What the executor needs to make a native call: the function's name, parameter types,
/// return type, kind, and where its receiver comes from.
#[derive(Debug)]
pub struct CallInfo {
    pub name: String,
    pub params: Vec<ValueType>,
    pub return_type: Option<ValueType>,
    pub call_fn: FunctionKind,
    pub source: CallSource,
}

/// One step of a compiled program.
#[derive(Debug)]
pub enum Instruction {
    /// Push a constant.
    Constant(Value),
    /// Pop a value into a slot.
    SetVariable(VariableSlot),
    /// Give a slot an empty value.
    ReserveVariable(VariableSlot),
    /// Drop this many values from the stack.
    Drop(usize),
    /// Push a copy of a slot's value.
    GetVariable(VariableSlot),
    JumpIfFalse(usize),
    JumpIfTrue(usize),
    Jump(usize),
    /// Native call, by its index in the call table.
    Call(usize),
    /// Push a script function as a value.
    LoadFunction(usize),
    /// Call a script function: its index and the number of arguments.
    CallScript(usize, usize),
    /// Call the function value below this many arguments.
    CallDynamic(usize),
    /// Return from a script function, with a value or not.
    Return(bool),
    /// Call a function of an imported program: program index, function index, argument count.
    ImportedFunctionCall(usize, usize, usize),
}

/// A compiled program: instructions with their source locations, the script functions,
/// the native call table, and the programs it imports under their aliases.
#[derive(Debug)]
pub struct Program {
    pub instructions: Vec<Instruction>,
    pub locations: Vec<Location>,
    pub functions: Vec<FunctionEntry>,
    pub call_info: Vec<CallInfo>,
    pub imports: Vec<(String, Program)>,
    pub program_source: String,
    pub source_path: Option<String>,
}


/// Where a jump instruction goes, if it is one.
pub open spec fn jump_target(i: Instruction) -> Option<usize> {
    match i {
        Instruction::Jump(a) => Some(a),
        Instruction::JumpIfFalse(a) => Some(a),
        Instruction::JumpIfTrue(a) => Some(a),
        _ => None,
    }
}

/// Every jump in a list of instructions lands inside it or just past its end.
/// The jumps of the innermost loop of a kind: its `break`s, or its `continue`s.
pub open spec fn loop_jumps(pending: Seq<(Vec<usize>, Vec<usize>)>, breaks: bool) -> Seq<usize> {
    if pending.len() == 0 {
        Seq::empty()
    } else if breaks {
        pending.last().0@
    } else {
        pending.last().1@
    }
}

/// The code after every listed jump at `from` or later is pointed at `target`.
pub open spec fn patched(code: Seq<Instruction>, jumps: Seq<usize>, target: usize, from: usize) -> Seq<Instruction> {
    Seq::new(code.len(), |i: int| if listed(jumps, i) && i >= from { Instruction::Jump(target) } else { code[i] })
}

/// Whether `i` is one of the listed positions.
pub open spec fn listed(jumps: Seq<usize>, i: int) -> bool {
    exists|w: int| 0 <= w < jumps.len() && jumps[w] == i
}

pub open spec fn jumps_in_bounds(code: Seq<Instruction>) -> bool {
    forall|i: int|
        0 <= i < code.len() ==> (jump_target(#[trigger] code[i]) matches Some(a) ==> a <= code.len())
}

/// `after` keeps every instruction of `before` where it was, and may add more after them.
pub open spec fn code_kept(before: Seq<Instruction>, after: Seq<Instruction>) -> bool {
    &&& after.len() >= before.len()
    &&& forall|i: int| 0 <= i < before.len() ==> #[trigger] after[i] == before[i]
}

/// The call descriptions in `before` stay where they are in `after`.
pub open spec fn code_kept_infos(before: Seq<CallInfo>, after: Seq<CallInfo>) -> bool {
    &&& after.len() >= before.len()
    &&& forall|i: int| 0 <= i < before.len() ==> #[trigger] after[i] == before[i]
}

/// The code of an `if` from `start`: a conditional jump at `j` past the body to `e`; with an
/// else branch, a jump to the end of the code just before `e`, the else branch's code
/// following; without one, `e` is the end of the code.
pub open spec fn if_at(code: Seq<Instruction>, start: int, j: int, e: int, has_else: bool) -> bool {
    &&& start <= j < e <= code.len()
    &&& code[j] == Instruction::JumpIfFalse(e as usize)
    &&& has_else ==> j < e - 1 && code[e - 1] == Instruction::Jump(code.len() as usize)
    &&& !has_else ==> e == code.len()
}

/// The code of `a && b` (or, with `and` false, of `a || b`) from `start`: a conditional jump
/// at `j` after the left side, one more after the right side, both to the last instruction;
/// then the result when neither jumped, a jump to the end, and the result when one did.
pub open spec fn logical_at(code: Seq<Instruction>, start: int, j: int, and: bool) -> bool {
    let n = code.len() as int;
    let skip = if and { Instruction::JumpIfFalse((n - 1) as usize) } else { Instruction::JumpIfTrue((n - 1) as usize) };
    &&& start <= j < n - 4
    &&& code[j] == skip
    &&& code[n - 4] == skip
    &&& code[n - 3] == Instruction::Constant(Value::Bool(and))
    &&& code[n - 2] == Instruction::Jump(n as usize)
    &&& code[n - 1] == Instruction::Constant(Value::Bool(!and))
}

/// The code of a `while` loop from `start`: a conditional jump at `j` to the end, and a jump
/// back to `start` as the last instruction.
pub open spec fn while_at(code: Seq<Instruction>, start: int, j: int) -> bool {
    &&& start <= j < code.len() - 1
    &&& code[j] == Instruction::JumpIfFalse(code.len() as usize)
    &&& code[code.len() - 1] == Instruction::Jump(start as usize)
}

/// What `code` shows of the statement written from `start` to its end: a `let` ends in the
/// instruction that sets (or reserves) its slot; `break` and `continue` are one jump; an
/// import writes nothing; a `while` loop and a `loop` have their loop shape; a function is
/// a jump over its body, which ends in a return; a `return` ends in a return that gives a
/// value where it has one; an expression statement is its expression's code.
pub open spec fn writes(stmt: AStmt, start: int, code: Seq<Instruction>) -> bool {
    &&& code.len() >= start
    &&& stmt matches AStmt::SetVariable(_, slot, _, init) ==> (init is None ==> code.len() == start + 1
        && code.last() == Instruction::ReserveVariable(slot)) && (init is Some ==> code.len() > start
        && code.last() == Instruction::SetVariable(slot))
    &&& (stmt is Break || stmt is Continue) ==> code.len() == start + 1 && code.last() == Instruction::Jump(0)
    &&& stmt is Import ==> code.len() == start
    &&& stmt is While ==> exists|j: int| #[trigger] while_at(code, start, j)
    &&& stmt is Loop ==> code.len() > start && code.last() == Instruction::Jump(start as usize)
    &&& stmt matches AStmt::Function(_, _, _, _, _, rt, _) ==> code.len() >= start + 2 && code[start]
        == Instruction::Jump(code.len() as usize) && code.last() == Instruction::Return(rt is Some)
    &&& stmt matches AStmt::Return(_, e) ==> (code.len() > start && code.last() == Instruction::Return(e is Some)
        && (e is None ==> code.len() == start + 1))
    &&& stmt matches AStmt::Expression(_, e, _) ==> expression_writes(e, start, code)
}

/// What `code` shows of the expression written from `start` to its end: a constant, a read
/// of a variable and a reference to a script function are one instruction; an assignment
/// ends in the instruction that sets its slot; each kind of call ends in its call
/// instruction; an `if` and a logical operator have their jump shapes; an empty block
/// writes nothing.
pub open spec fn expression_writes(expr: AExpr, start: int, code: Seq<Instruction>) -> bool {
    &&& code.len() >= start
    &&& expr matches AExpr::Constant(_, v, _) ==> (code.len() == start + 1 && (code.last() matches Instruction::Constant(
        c,
    ) && same_value(c, v)))
    &&& expr matches AExpr::RetrieveVariable(_, slot, _, _) ==> (code.len() == start + 1 && code.last()
        == Instruction::GetVariable(slot))
    &&& expr matches AExpr::AssignVariable(_, slot, _, _) ==> (code.len() > start && code.last()
        == Instruction::SetVariable(slot))
    &&& expr matches AExpr::FunctionReference(_, index, _, _) ==> (code.len() == start + 1 && code.last()
        == Instruction::LoadFunction(index))
    &&& expr matches AExpr::ScriptCall(_, index, params, _) ==> (code.len() > start && code.last()
        == Instruction::CallScript(index, params@.len() as usize))
    &&& expr matches AExpr::DynamicCall(_, _, params, _) ==> (code.len() > start && code.last()
        == Instruction::CallDynamic(params@.len() as usize))
    &&& expr matches AExpr::ImportedFunctionCall(_, p, f, params, _, _) ==> (code.len() > start && code.last()
        == Instruction::ImportedFunctionCall(p, f, params@.len() as usize))
    &&& expr is Call ==> code.len() > start && code.last() is Call
    &&& expr matches AExpr::If(_, _, otherwise) ==> exists|j: int, e: int| #[trigger] if_at(
        code,
        start,
        j,
        e,
        otherwise is Some,
    )
    &&& expr matches AExpr::Logical(_, op, _) ==> exists|j: int| #[trigger] logical_at(code, start, j, op is And)
    &&& expr matches AExpr::Block(_, stmts, _) ==> (stmts@.len() == 0 ==> code.len() == start)
}

/// `spans` gives, for each statement of a block written from `start` to the end of `code`,
/// the part of `code` written for it: one after another, in their order.
pub open spec fn block_pieces(stmts: Seq<AStmt>, spans: Seq<(int, int)>, start: int, code: Seq<Instruction>) -> bool {
    &&& spans.len() == stmts.len()
    &&& stmts.len() == 0 ==> code.len() == start
    &&& stmts.len() > 0 ==> spans[0].0 == start && spans.last().1 == code.len()
    &&& spans_ok(stmts, spans, stmts.len() as int, code)
}

/// The first `n` statements were written at `spans`, one after another, and `code` shows
/// each there.
pub open spec fn spans_ok(stmts: Seq<AStmt>, spans: Seq<(int, int)>, n: int, code: Seq<Instruction>) -> bool {
    forall|k: int| #![trigger spans[k]] 0 <= k < n ==> piece_at(stmts, spans, n, code, k)
}

/// Statement `k` of the first `n` was written at `spans[k]`, which ends where the next one
/// starts, and `code` shows it there.
pub open spec fn piece_at(stmts: Seq<AStmt>, spans: Seq<(int, int)>, n: int, code: Seq<Instruction>, k: int) -> bool {
    &&& 0 <= spans[k].0
    &&& spans[k].0 <= spans[k].1
    &&& spans[k].1 <= code.len()
    &&& k + 1 < n ==> spans[k].1 == spans[k + 1].0
    &&& writes(stmts[k], spans[k].0, code.take(spans[k].1))
}

/// Writing one more statement of a block after the ones written at `spans` extends them by
/// its part of the code.
pub proof fn lemma_block_grows(
    stmts: Seq<AStmt>,
    spans: Seq<(int, int)>,
    start: int,
    before: Seq<Instruction>,
    after: Seq<Instruction>,
    i: int,
)
    requires
        0 <= i < stmts.len(),
        spans.len() == i,
        i == 0 ==> before.len() == start,
        i > 0 ==> spans[0].0 == start && spans.last().1 == before.len(),
        spans_ok(stmts, spans, i, before),
        code_kept(before, after),
        writes(stmts[i], before.len() as int, after),
    ensures
        spans.push((before.len() as int, after.len() as int))[0].0 == start,
        spans.push((before.len() as int, after.len() as int)).last().1 == after.len(),
        spans_ok(stmts, spans.push((before.len() as int, after.len() as int)), i + 1, after),
{
    let grown = spans.push((before.len() as int, after.len() as int));
    assert(after.take(after.len() as int) =~= after);
    assert forall|k: int| #![trigger grown[k]] 0 <= k < i + 1 implies piece_at(stmts, grown, i + 1, after, k) by {
        if k < i {
            assert(grown[k] == spans[k]);
            assert(piece_at(stmts, spans, i, before, k));
            lemma_kept_take(before, after, spans[k].1);
            if k + 1 == i {
                assert(spans[k] == spans.last());
                assert(grown[k + 1] == (before.len() as int, after.len() as int));
            }
        } else {
            assert(grown[k] == (before.len() as int, after.len() as int));
        }
    }
    if i > 0 {
        assert(grown[0] == spans[0]);
    }
}

/// Statement `k` was written at `spans[k]`, and `code` shows it there.
pub open spec fn piece_ok(stmts: Seq<AStmt>, spans: Seq<(int, int)>, code: Seq<Instruction>, k: int) -> bool {
    &&& 0 <= spans[k].0 <= spans[k].1 <= code.len()
    &&& writes(stmts[k], spans[k].0, code.take(spans[k].1))
}

/// Statement `k1` is written before statement `k2`: every function definition comes before
/// every other statement, and statements of each kind come in their order.
pub open spec fn written_before(stmts: Seq<AStmt>, k1: int, k2: int) -> bool {
    ||| stmts[k1] is Function && !(stmts[k2] is Function)
    ||| k1 < k2 && (stmts[k1] is Function <==> stmts[k2] is Function)
}

/// `spans` gives, for each statement, the part of `code` written for it, in the order of
/// `written_before`.
pub open spec fn written_in_order(stmts: Seq<AStmt>, spans: Seq<(int, int)>, code: Seq<Instruction>) -> bool {
    &&& spans.len() == stmts.len()
    &&& forall|k: int| 0 <= k < stmts.len() ==> #[trigger] piece_ok(stmts, spans, code, k)
    &&& forall|k1: int, k2: int|
        0 <= k1 < stmts.len() && 0 <= k2 < stmts.len() && #[trigger] written_before(stmts, k1, k2) ==> spans[k1].1
            <= spans[k2].0
}

/// Code that is kept reads the same up to any length it had.
pub proof fn lemma_kept_take(a: Seq<Instruction>, b: Seq<Instruction>, n: int)
    requires
        code_kept(a, b),
        0 <= n <= a.len(),
    ensures
        b.take(n) == a.take(n),
{
    assert(b.take(n) =~= a.take(n));
}

/// Turns a checked tree into instructions.
pub struct Instructor {
    program: Program,
    /// For each loop being written: the jumps that `break` and `continue` left to patch.
    pending_jumps: Vec<(Vec<usize>, Vec<usize>)>,
}

impl Instructor {
    pub closed spec fn wf(&self) -> bool {
        &&& self.program.instructions@.len() == self.program.locations@.len()
        &&& jumps_in_bounds(self.program.instructions@)
        &&& forall|k: int, j: int|
            0 <= k < self.pending_jumps@.len() && 0 <= j < self.pending_jumps@[k].0@.len() ==> #[trigger] self.pending_jumps@[k].0@[j]
                < self.program.instructions@.len()
        &&& forall|k: int, j: int|
            0 <= k < self.pending_jumps@.len() && 0 <= j < self.pending_jumps@[k].1@.len() ==> #[trigger] self.pending_jumps@[k].1@[j]
                < self.program.instructions@.len()
    }

    pub closed spec fn code(&self) -> Seq<Instruction> {
        self.program.instructions@
    }

    /// Whether two instructors write into programs with the same imports, source and path.
    pub closed spec fn same_header(&self, other: Instructor) -> bool {
        &&& self.program.imports == other.program.imports
        &&& self.program.program_source == other.program.program_source
        &&& self.program.source_path == other.program.source_path
    }

    /// The descriptions of the native calls written so far.
    pub closed spec fn call_infos(&self) -> Seq<CallInfo> {
        self.program.call_info@
    }

    /// The path of the script being compiled, if it has one.
    pub closed spec fn path(&self) -> Option<String> {
        self.program.source_path
    }

    /// The script functions written so far.
    pub closed spec fn written_functions(&self) -> Seq<FunctionEntry> {
        self.program.functions@
    }

    pub fn new(source_path: Option<String>) -> (i: Instructor)
        ensures
            i.wf(),
            i.code().len() == 0,
            i.path() == source_path,
            i.written_functions().len() == 0,
    {
        Instructor {
            program: Program {
                instructions: Vec::new(),
                locations: Vec::new(),
                functions: Vec::new(),
                call_info: Vec::new(),
                imports: Vec::new(),
                program_source: String::new(),
                source_path,
            },
            pending_jumps: Vec::new(),
        }
    }

    /// Writes the program: function bodies first, so that every call site can find them,
    /// then the other statements in order.
    pub fn generate(self, construct: FinalizedConstruct, source_code: String, extra_imports: Vec<(String, Program)>) -> (p: Program)
        requires
            self.wf(),
        ensures
            p.instructions@.len() == p.locations@.len(),
            jumps_in_bounds(p.instructions@),
            p.imports@ == construct.imports@ + extra_imports@,
            p.program_source == source_code,
            p.source_path == self.path(),
            exists|spans: Seq<(int, int)>| #[trigger] written_in_order(construct.stmts@, spans, p.instructions@),
    {
        let mut this = self;
        let FinalizedConstruct { stmts, imports, visiting_paths: _ } = construct;
        this.program.imports = imports;
        let mut extra = extra_imports;
        this.program.imports.append(&mut extra);
        this.program.program_source = source_code;
        let ghost start = this;
        let ghost all = stmts@;
        let ghost mut spans: Seq<(int, int)> = Seq::new(all.len(), |k: int| (0int, 0int));
        let mut i: usize = 0;
        while i < stmts.len()
            invariant
                start.same_header(this),
                this.wf(),
                all == stmts@,
                i <= all.len(),
                spans.len() == all.len(),
                forall|k: int| 0 <= k < i && all[k] is Function ==> #[trigger] piece_ok(all, spans, this.code(), k),
                forall|k1: int, k2: int|
                    0 <= k1 < i && 0 <= k2 < i && all[k1] is Function && all[k2] is Function && k1 < k2 ==> spans[k1].1
                        <= spans[k2].0,
                forall|k: int| 0 <= k < i && all[k] is Function ==> spans[k].1 <= this.code().len(),
            decreases stmts.len() - i,
        {
            if matches!(stmts[i], AStmt::Function(..)) {
                let ghost before = this.code();
                this.statement(&stmts[i]);
                proof {
                    let after = this.code();
                    let prior = spans;
                    spans = spans.update(i as int, (before.len() as int, after.len() as int));
                    assert forall|k: int| 0 <= k < i && all[k] is Function implies #[trigger] piece_ok(all, spans, after, k) by {
                        assert(piece_ok(all, prior, before, k));
                        assert(spans[k] == prior[k]);
                        lemma_kept_take(before, after, spans[k].1);
                    }
                    assert(after.take(after.len() as int) =~= after);
                    assert(piece_ok(all, spans, after, i as int));
                }
            }
            i = i + 1;
        }
        let ghost middle = this.code().len() as int;
        let mut i: usize = 0;
        while i < stmts.len()
            invariant
                start.same_header(this),
                this.wf(),
                all == stmts@,
                i <= all.len(),
                spans.len() == all.len(),
                middle <= this.code().len(),
                forall|k: int| 0 <= k < all.len() && all[k] is Function ==> #[trigger] piece_ok(all, spans, this.code(), k),
                forall|k: int| 0 <= k < all.len() && all[k] is Function ==> spans[k].1 <= middle,
                forall|k1: int, k2: int|
                    0 <= k1 < all.len() && 0 <= k2 < all.len() && all[k1] is Function && all[k2] is Function && k1 < k2
                        ==> spans[k1].1 <= spans[k2].0,
                forall|k: int| 0 <= k < i && !(all[k] is Function) ==> #[trigger] piece_ok(all, spans, this.code(), k),
                forall|k: int| 0 <= k < i && !(all[k] is Function) ==> middle <= spans[k].0,
                forall|k1: int, k2: int|
                    0 <= k1 < i && 0 <= k2 < i && !(all[k1] is Function) && !(all[k2] is Function) && k1 < k2 ==> spans[k1].1
                        <= spans[k2].0,
                forall|k: int| 0 <= k < i && !(all[k] is Function) ==> spans[k].1 <= this.code().len(),
            decreases stmts.len() - i,
        {
            if !matches!(stmts[i], AStmt::Function(..)) {
                let ghost before = this.code();
                this.statement(&stmts[i]);
                proof {
                    let after = this.code();
                    let prior = spans;
                    spans = spans.update(i as int, (before.len() as int, after.len() as int));
                    assert forall|k: int| 0 <= k < all.len() && all[k] is Function implies #[trigger] piece_ok(all, spans, after, k) by {
                        assert(piece_ok(all, prior, before, k));
                        assert(spans[k] == prior[k]);
                        lemma_kept_take(before, after, spans[k].1);
                    }
                    assert forall|k: int| 0 <= k < i && !(all[k] is Function) implies #[trigger] piece_ok(all, spans, after, k) by {
                        assert(piece_ok(all, prior, before, k));
                        assert(spans[k] == prior[k]);
                        lemma_kept_take(before, after, spans[k].1);
                    }
                    assert(after.take(after.len() as int) =~= after);
                    assert(piece_ok(all, spans, after, i as int));
                }
            }
            i = i + 1;
        }
        proof {
            assert(written_in_order(all, spans, this.code()));
        }
        this.program
    }

    fn push_instruction(&mut self, location: Location, instruction: Instruction)
        requires
            old(self).wf(),
            jump_target(instruction) matches Some(a) ==> a <= old(self).code().len() + 1,
        ensures
            final(self).call_infos() == old(self).call_infos(),
            old(self).same_header(*final(self)),
            final(self).wf(),
            final(self).code() == old(self).code().push(instruction),
            final(self).pending_jumps == old(self).pending_jumps,
    {
        self.program.locations.push(location);
        self.program.instructions.push(instruction);
        proof {
            assert forall|i: int| 0 <= i < self.code().len() implies (jump_target(#[trigger] self.code()[i]) matches Some(a) ==> a <= self.code().len()) by {
                if i < old(self).code().len() {
                    assert(self.code()[i] == old(self).code()[i]);
                }
            }
        }
    }

    /// Points the jump at `index` to `target`, keeping its kind.
    fn patch(&mut self, index: usize, instruction: Instruction)
        requires
            old(self).wf(),
            index < old(self).code().len(),
            jump_target(instruction) matches Some(a) ==> a <= old(self).code().len(),
        ensures
            final(self).call_infos() == old(self).call_infos(),
            old(self).same_header(*final(self)),
            final(self).wf(),
            final(self).code() == old(self).code().update(index as int, instruction),
            final(self).pending_jumps == old(self).pending_jumps,
    {
        self.program.instructions.set(index, instruction);
        proof {
            assert forall|i: int| 0 <= i < self.code().len() implies (jump_target(#[trigger] self.code()[i]) matches Some(a) ==> a <= self.code().len()) by {
                if i != index {
                    assert(self.code()[i] == old(self).code()[i]);
                }
            }
        }
    }

    fn len(&self) -> (n: usize)
        ensures
            n == self.code().len(),
    {
        self.program.instructions.len()
    }

    /// Patches the jumps that the innermost loop's `break`s and `continue`s left.
    fn patch_pending(&mut self, breaks: bool, target: usize, from: usize)
        requires
            old(self).wf(),
            target <= old(self).code().len(),
        ensures
            final(self).call_infos() == old(self).call_infos(),
            old(self).same_header(*final(self)),
            final(self).wf(),
            final(self).code() == patched(old(self).code(), loop_jumps(old(self).pending_jumps@, breaks), target, from),
            final(self).pending_jumps == old(self).pending_jumps,
    {
        let n = self.pending_jumps.len();
        if n == 0 {
            assert(self.code() =~= patched(old(self).code(), loop_jumps(old(self).pending_jumps@, breaks), target, from));
            return;
        }
        let ghost jumps = loop_jumps(old(self).pending_jumps@, breaks);
        let count = if breaks { self.pending_jumps[n - 1].0.len() } else { self.pending_jumps[n - 1].1.len() };
        let mut j: usize = 0;
        while j < count
            invariant
                old(self).same_header(*self),
                self.wf(),
                n == self.pending_jumps@.len(),
                n > 0,
                self.pending_jumps == old(self).pending_jumps,
                self.call_infos() == old(self).call_infos(),
                count == if breaks { self.pending_jumps@[n - 1].0@.len() } else { self.pending_jumps@[n - 1].1@.len() },
                self.code().len() == old(self).code().len(),
                target <= self.code().len(),
                j <= count,
                jumps == loop_jumps(old(self).pending_jumps@, breaks),
                count == jumps.len(),
                self.code() == patched(old(self).code(), jumps.take(j as int), target, from),
            decreases count - j,
        {
            let idx = if breaks { self.pending_jumps[n - 1].0[j] } else { self.pending_jumps[n - 1].1[j] };
            let ghost prev = self.code();
            if idx >= from {
                self.patch(idx, Instruction::Jump(target));
            }
            proof {
                let before = jumps.take(j as int);
                let after = jumps.take(j + 1);
                assert(after[j as int] == idx);
                assert forall|i: int| 0 <= i < self.code().len() implies #[trigger] self.code()[i] == patched(old(self).code(), after, target, from)[i] by {
                    assert(prev[i] == patched(old(self).code(), before, target, from)[i]);
                    if i == idx as int {
                        assert(after[j as int] == i);
                        assert(listed(after, i));
                    } else {
                        assert(self.code()[i] == prev[i]);
                        if listed(after, i) {
                            let w = choose|w: int| 0 <= w < after.len() && #[trigger] after[w] == i;
                            assert(w < j);
                            assert(before[w] == i);
                            assert(listed(before, i));
                        } else {
                            if listed(before, i) {
                                let w = choose|w: int| 0 <= w < before.len() && #[trigger] before[w] == i;
                                assert(after[w] == i);
                            }
                        }
                    }
                }
                assert(self.code() =~= patched(old(self).code(), after, target, from));
            }
            j = j + 1;
        }
        assert(jumps.take(count as int) =~= jumps);
    }

    /// Every jump that the innermost loop still has to patch lies before the end of the code.
    proof fn lemma_pending_before_end(&self)
        requires
            self.wf(),
        ensures
            forall|i: int| listed(loop_jumps(self.pending_jumps@, true), i) ==> i < self.code().len(),
            forall|i: int| listed(loop_jumps(self.pending_jumps@, false), i) ==> i < self.code().len(),
    {
        let p = self.pending_jumps@;
        if p.len() > 0 {
            let k = p.len() - 1;
            assert forall|i: int| listed(loop_jumps(p, true), i) implies i < self.code().len() by {
                let w = choose|w: int| 0 <= w < loop_jumps(p, true).len() && loop_jumps(p, true)[w] == i;
                assert(p[k].0@[w] < self.code().len());
            }
            assert forall|i: int| listed(loop_jumps(p, false), i) implies i < self.code().len() by {
                let w = choose|w: int| 0 <= w < loop_jumps(p, false).len() && loop_jumps(p, false)[w] == i;
                assert(p[k].1@[w] < self.code().len());
            }
        }
    }

    #[verifier::rlimit(40)]
    fn statement(&mut self, stmt: &AStmt)
        requires
            old(self).wf(),
        ensures
            code_kept_infos(old(self).call_infos(), final(self).call_infos()),
            old(self).same_header(*final(self)),
            final(self).wf(),
            code_kept(old(self).code(), final(self).code()),
            stmt is While ==> exists|j: int| #[trigger] while_at(final(self).code(), old(self).code().len() as int, j),
            stmt is Loop ==> final(self).code().len() > old(self).code().len() && final(self).code().last()
                == Instruction::Jump(old(self).code().len() as usize),
            stmt matches AStmt::Function(_, _, _, _, _, rt, _) ==> final(self).code().len() >= old(self).code().len() + 2
                && final(self).code()[old(self).code().len() as int] == Instruction::Jump(final(self).code().len() as usize)
                && final(self).code().last() == Instruction::Return(rt is Some),
            final(self).pending_jumps@.len() == old(self).pending_jumps@.len(),
            final(self).code().len() >= old(self).code().len(),
            stmt matches AStmt::SetVariable(_, slot, _, init) ==> (init is None ==> final(self).code() == old(self).code().push(
                Instruction::ReserveVariable(*slot),
            )) && (init is Some ==> final(self).code().len() > old(self).code().len()
                && final(self).code().last() == Instruction::SetVariable(*slot)),
            (stmt is Break || stmt is Continue) ==> final(self).code() == old(self).code().push(Instruction::Jump(0)),
            stmt is Import ==> final(self).code() == old(self).code(),
            writes(*stmt, old(self).code().len() as int, final(self).code()),
        decreases stmt,
    {
        match stmt {
            AStmt::SetVariable(location, slot, _, e) => {
                match e {
                    Some(init) => {
                        self.expression(init);
                        self.push_instruction(*location, Instruction::SetVariable(*slot));
                    },
                    None => {
                        self.push_instruction(*location, Instruction::ReserveVariable(*slot));
                    },
                }
            },
            AStmt::While(location, condition, body) => {
                let loop_start = self.len();
                self.pending_jumps.push((Vec::new(), Vec::new()));
                self.expression(condition);
                let jump_if_false_idx = self.len();
                self.push_instruction(*location, Instruction::JumpIfFalse(0));
                self.expression(body);
                let continue_target = self.len();
                proof {
                    self.lemma_pending_before_end();
                }
                self.push_instruction(*location, Instruction::Jump(loop_start));
                self.patch_pending(false, continue_target, loop_start);
                let break_target = self.len();
                self.patch_pending(true, break_target, loop_start);
                self.patch(jump_if_false_idx, Instruction::JumpIfFalse(break_target));
                self.pending_jumps.pop();
                assert(while_at(self.code(), loop_start as int, jump_if_false_idx as int));
            },
            AStmt::Loop(body) => {
                let loop_start = self.len();
                self.pending_jumps.push((Vec::new(), Vec::new()));
                self.expression(body);
                let continue_target = self.len();
                let location = body.get_location();
                proof {
                    self.lemma_pending_before_end();
                }
                self.push_instruction(location, Instruction::Jump(loop_start));
                self.patch_pending(false, continue_target, loop_start);
                let break_target = self.len();
                self.patch_pending(true, break_target, loop_start);
                self.pending_jumps.pop();
            },
            AStmt::Expression(_, e, _) => {
                self.expression(e);
            },
            AStmt::Function(location, name, index, params, body, return_type, local_count) => {
                let jump_index = self.len();
                self.push_instruction(*location, Instruction::Jump(0));
                while self.program.functions.len() <= *index
                    invariant
                        old(self).same_header(*self),
                        code_kept(old(self).code(), self.code()),
                        code_kept_infos(old(self).call_infos(), self.call_infos()),
                        self.wf(),
                        self.pending_jumps@.len() == old(self).pending_jumps@.len(),
                        self.code().len() >= old(self).code().len(),
                        jump_index < self.code().len(),
                    decreases *index + 1 - self.program.functions.len(),
                {
                    self.program.functions.push(FunctionEntry {
                        name: String::new(),
                        instruction: 0,
                        local_count: 0,
                        params: Vec::new(),
                        return_type: None,
                    });
                }
                let entry = self.len();
                let mut param_types: Vec<ValueType> = Vec::new();
                let mut k: usize = 0;
                while k < params.len()
                    invariant
                        old(self).same_header(*self),
                        code_kept(old(self).code(), self.code()),
                        code_kept_infos(old(self).call_infos(), self.call_infos()),
                        k <= params@.len(),
                    decreases params.len() - k,
                {
                    param_types.push(params[k].2.copy());
                    k = k + 1;
                }
                self.program.functions.set(*index, FunctionEntry {
                    name: name.clone(),
                    instruction: entry,
                    local_count: *local_count,
                    params: param_types,
                    return_type: match return_type {
                        Some(t) => Some(t.copy()),
                        None => None,
                    },
                });
                self.expression(body);
                self.push_instruction(*location, Instruction::Return(return_type.is_some()));
                let end = self.len();
                self.patch(jump_index, Instruction::Jump(end));
            },
            AStmt::Return(location, e) => {
                let has_value = e.is_some();
                match e {
                    Some(e) => self.expression(e),
                    None => {},
                }
                self.push_instruction(*location, Instruction::Return(has_value));
            },
            AStmt::Break(location) => {
                self.push_instruction(*location, Instruction::Jump(0));
                self.record_pending(true);
            },
            AStmt::Continue(location) => {
                self.push_instruction(*location, Instruction::Jump(0));
                self.record_pending(false);
            },
            AStmt::Import(_, _, _, _) => {},
        }
    }

    /// Records the last instruction as a jump that the innermost loop patches.
    fn record_pending(&mut self, breaks: bool)
        requires
            old(self).wf(),
            old(self).code().len() > 0,
        ensures
            final(self).call_infos() == old(self).call_infos(),
            old(self).same_header(*final(self)),
            final(self).wf(),
            final(self).code() == old(self).code(),
            final(self).pending_jumps@.len() == old(self).pending_jumps@.len(),
            old(self).pending_jumps@.len() == 0 ==> final(self).pending_jumps == old(self).pending_jumps,
            old(self).pending_jumps@.len() > 0 ==> final(self).pending_jumps@.drop_last() == old(self).pending_jumps@.drop_last()
                && loop_jumps(final(self).pending_jumps@, breaks) == loop_jumps(old(self).pending_jumps@, breaks).push(
                (old(self).code().len() - 1) as usize)
                && loop_jumps(final(self).pending_jumps@, !breaks) == loop_jumps(old(self).pending_jumps@, !breaks),
    {
        let n = self.pending_jumps.len();
        if n == 0 {
            return;
        }
        let idx = self.program.instructions.len() - 1;
        let mut top = self.pending_jumps.pop().unwrap();
        if breaks {
            top.0.push(idx);
        } else {
            top.1.push(idx);
        }
        self.pending_jumps.push(top);
        proof {
            assert forall|k: int, j: int|
                0 <= k < self.pending_jumps@.len() && 0 <= j < self.pending_jumps@[k].0@.len() implies #[trigger] self.pending_jumps@[k].0@[j]
                    < self.code().len() by {
                if k < n - 1 {
                    assert(self.pending_jumps@[k] == old(self).pending_jumps@[k]);
                } else if j < old(self).pending_jumps@[k].0@.len() {
                    assert(self.pending_jumps@[k].0@[j] == old(self).pending_jumps@[k].0@[j]);
                }
            }
            assert forall|k: int, j: int|
                0 <= k < self.pending_jumps@.len() && 0 <= j < self.pending_jumps@[k].1@.len() implies #[trigger] self.pending_jumps@[k].1@[j]
                    < self.code().len() by {
                if k < n - 1 {
                    assert(self.pending_jumps@[k] == old(self).pending_jumps@[k]);
                } else if j < old(self).pending_jumps@[k].1@.len() {
                    assert(self.pending_jumps@[k].1@[j] == old(self).pending_jumps@[k].1@[j]);
                }
            }
        }
    }

    fn expression(&mut self, expr: &AExpr)
        requires
            old(self).wf(),
        ensures
            old(self).same_header(*final(self)),
            final(self).wf(),
            code_kept(old(self).code(), final(self).code()),
            final(self).pending_jumps@.len() == old(self).pending_jumps@.len(),
            final(self).code().len() >= old(self).code().len(),
            expr matches AExpr::Constant(_, v, _) ==> (final(self).code().drop_last() == old(self).code()
                && final(self).code().len() == old(self).code().len() + 1
                && (final(self).code().last() matches Instruction::Constant(c) && same_value(c, *v))),
            expr matches AExpr::RetrieveVariable(_, slot, _, _) ==> final(self).code() == old(self).code().push(Instruction::GetVariable(*slot)),
            expr matches AExpr::AssignVariable(_, slot, _, _) ==> (final(self).code().len() > old(self).code().len()
                && final(self).code().last() == Instruction::SetVariable(*slot)),
            expr matches AExpr::If(_, _, Some(_)) ==> exists|j: int, e: int| #[trigger] if_at(
                final(self).code(),
                old(self).code().len() as int,
                j,
                e,
                true,
            ),
            expr matches AExpr::If(_, _, None) ==> exists|j: int, e: int| #[trigger] if_at(
                final(self).code(),
                old(self).code().len() as int,
                j,
                e,
                false,
            ),
            expr matches AExpr::Logical(_, LogicalOp::And, _) ==> exists|j: int| #[trigger] logical_at(
                final(self).code(),
                old(self).code().len() as int,
                j,
                true,
            ),
            expr matches AExpr::Logical(_, LogicalOp::Or, _) ==> exists|j: int| #[trigger] logical_at(
                final(self).code(),
                old(self).code().len() as int,
                j,
                false,
            ),
            expression_writes(*expr, old(self).code().len() as int, final(self).code()),
            *expr matches AExpr::Block(_, stmts, _) ==> exists|spans: Seq<(int, int)>| #[trigger] block_pieces(
                stmts@,
                spans,
                old(self).code().len() as int,
                final(self).code(),
            ),
            *expr matches AExpr::Call(_, name, source, _, kind, rt) ==> (final(self).code().last() matches Instruction::Call(
                i,
            ) && i < final(self).call_infos().len() && final(self).call_infos()[i as int].name == name
                && final(self).call_infos()[i as int].source == source && final(self).call_infos()[i as int].call_fn
                == kind && same_optional_type(final(self).call_infos()[i as int].return_type, rt)),
            code_kept_infos(old(self).call_infos(), final(self).call_infos()),
        decreases expr,
    {
        match expr {
            AExpr::Constant(location, v, _) => {
                self.push_instruction(*location, Instruction::Constant(v.copy()));
            },
            AExpr::AssignVariable(location, slot, _, e) => {
                self.expression(e);
                self.push_instruction(*location, Instruction::SetVariable(*slot));
            },
            AExpr::RetrieveVariable(location, slot, _, _) => {
                self.push_instruction(*location, Instruction::GetVariable(*slot));
            },
            AExpr::Logical(a, op, b) => {
                let la = a.get_location();
                let lb = b.get_location();
                match op {
                    LogicalOp::And => {
                        let ghost start = self.code().len() as int;
                        self.expression(a);
                        let fail_a = self.len();
                        self.push_instruction(la, Instruction::JumpIfFalse(0));
                        self.expression(b);
                        let fail_b = self.len();
                        self.push_instruction(lb, Instruction::JumpIfFalse(0));
                        self.push_instruction(lb, Instruction::Constant(Value::Bool(true)));
                        let jump_success = self.len();
                        self.push_instruction(lb, Instruction::Jump(0));
                        let fail_path = self.len();
                        self.patch(fail_a, Instruction::JumpIfFalse(fail_path));
                        self.patch(fail_b, Instruction::JumpIfFalse(fail_path));
                        self.push_instruction(la, Instruction::Constant(Value::Bool(false)));
                        let end = self.len();
                        self.patch(jump_success, Instruction::Jump(end));
                        assert(logical_at(self.code(), start, fail_a as int, true));
                    },
                    LogicalOp::Or => {
                        let ghost start = self.code().len() as int;
                        self.expression(a);
                        let ok_a = self.len();
                        self.push_instruction(la, Instruction::JumpIfTrue(0));
                        self.expression(b);
                        let ok_b = self.len();
                        self.push_instruction(lb, Instruction::JumpIfTrue(0));
                        self.push_instruction(lb, Instruction::Constant(Value::Bool(false)));
                        let jump_fail = self.len();
                        self.push_instruction(lb, Instruction::Jump(0));
                        let ok_path = self.len();
                        self.patch(ok_a, Instruction::JumpIfTrue(ok_path));
                        self.patch(ok_b, Instruction::JumpIfTrue(ok_path));
                        self.push_instruction(la, Instruction::Constant(Value::Bool(true)));
                        let end = self.len();
                        self.patch(jump_fail, Instruction::Jump(end));
                        assert(logical_at(self.code(), start, ok_a as int, false));
                    },
                }
            },
            AExpr::Block(_, stmts, _) => {
                let ghost start = old(self).code().len() as int;
                let ghost mut spans: Seq<(int, int)> = Seq::empty();
                let mut i: usize = 0;
                while i < stmts.len()
                    invariant
                        old(self).same_header(*self),
                        code_kept(old(self).code(), self.code()),
                        code_kept_infos(old(self).call_infos(), self.call_infos()),
                        self.wf(),
                        i <= stmts@.len(),
                        *expr is Block,
                        expr->Block_1 == *stmts,
                        i == 0 ==> self.code() == old(self).code(),
                        self.pending_jumps@.len() == old(self).pending_jumps@.len(),
                        self.code().len() >= old(self).code().len(),
                        start == old(self).code().len(),
                        spans.len() == i,
                        i > 0 ==> spans[0].0 == start && spans.last().1 == self.code().len(),
                        spans_ok(stmts@, spans, i as int, self.code()),
                    decreases stmts.len() - i,
                {
                    proof {
                        assert(decreases_to!(*expr => expr->Block_1));
                        assert(decreases_to!(expr->Block_1 => expr->Block_1@));
                        assert(decreases_to!(expr->Block_1@ => expr->Block_1@[i as int]));
                    }
                    let ghost before = self.code();
                    self.statement(&stmts[i]);
                    proof {
                        lemma_block_grows(stmts@, spans, start, before, self.code(), i as int);
                        spans = spans.push((before.len() as int, self.code().len() as int));
                    }
                    i = i + 1;
                }
                proof {
                    assert(block_pieces(stmts@, spans, start, self.code()));
                }
            },
            AExpr::Call(location, name, source, params, kind, return_type) => {
                let mut param_types: Vec<ValueType> = Vec::new();
                let mut i: usize = 0;
                while i < params.len()
                    invariant
                        old(self).same_header(*self),
                        code_kept(old(self).code(), self.code()),
                        code_kept_infos(old(self).call_infos(), self.call_infos()),
                        self.wf(),
                        i <= params@.len(),
                        *expr is Call,
                        expr->Call_3 == *params,
                        self.pending_jumps@.len() == old(self).pending_jumps@.len(),
                        self.code().len() >= old(self).code().len(),
                    decreases params.len() - i,
                {
                    proof {
                        assert(decreases_to!(*expr => expr->Call_3));
                        assert(decreases_to!(expr->Call_3 => expr->Call_3@));
                        assert(decreases_to!(expr->Call_3@ => expr->Call_3@[i as int]));
                    }
                    self.expression(&params[i]);
                    match params[i].get_value_type() {
                        Some(t) => param_types.push(t.value_type()),
                        None => {},
                    }
                    i = i + 1;
                }
                let index = self.program.call_info.len();
                self.program.call_info.push(CallInfo {
                    name: name.clone(),
                    params: param_types,
                    return_type: match return_type {
                        Some(t) => Some(t.copy()),
                        None => None,
                    },
                    call_fn: *kind,
                    source: *source,
                });
                self.push_instruction(*location, Instruction::Call(index));
            },
            AExpr::ScriptCall(location, index, params, _) => {
                let mut i: usize = 0;
                while i < params.len()
                    invariant
                        old(self).same_header(*self),
                        code_kept(old(self).code(), self.code()),
                        code_kept_infos(old(self).call_infos(), self.call_infos()),
                        self.wf(),
                        i <= params@.len(),
                        *expr is ScriptCall,
                        expr->ScriptCall_2 == *params,
                        self.pending_jumps@.len() == old(self).pending_jumps@.len(),
                        self.code().len() >= old(self).code().len(),
                    decreases params.len() - i,
                {
                    proof {
                        assert(decreases_to!(*expr => expr->ScriptCall_2));
                        assert(decreases_to!(expr->ScriptCall_2 => expr->ScriptCall_2@));
                        assert(decreases_to!(expr->ScriptCall_2@ => expr->ScriptCall_2@[i as int]));
                    }
                    self.expression(&params[i]);
                    i = i + 1;
                }
                self.push_instruction(*location, Instruction::CallScript(*index, params.len()));
            },
            AExpr::FunctionReference(location, index, _, _) => {
                self.push_instruction(*location, Instruction::LoadFunction(*index));
            },
            AExpr::DynamicCall(location, callee, params, _) => {
                self.expression(callee);
                let mut i: usize = 0;
                while i < params.len()
                    invariant
                        old(self).same_header(*self),
                        code_kept(old(self).code(), self.code()),
                        code_kept_infos(old(self).call_infos(), self.call_infos()),
                        self.wf(),
                        i <= params@.len(),
                        *expr is DynamicCall,
                        expr->DynamicCall_2 == *params,
                        self.pending_jumps@.len() == old(self).pending_jumps@.len(),
                        self.code().len() >= old(self).code().len(),
                    decreases params.len() - i,
                {
                    proof {
                        assert(decreases_to!(*expr => expr->DynamicCall_2));
                        assert(decreases_to!(expr->DynamicCall_2 => expr->DynamicCall_2@));
                        assert(decreases_to!(expr->DynamicCall_2@ => expr->DynamicCall_2@[i as int]));
                    }
                    self.expression(&params[i]);
                    i = i + 1;
                }
                self.push_instruction(*location, Instruction::CallDynamic(params.len()));
            },
            AExpr::ImportedFunctionCall(location, program_index, function_index, params, _, args) => {
                let mut i: usize = 0;
                while i < args.len()
                    invariant
                        old(self).same_header(*self),
                        code_kept(old(self).code(), self.code()),
                        code_kept_infos(old(self).call_infos(), self.call_infos()),
                        self.wf(),
                        i <= args@.len(),
                        *expr is ImportedFunctionCall,
                        expr->ImportedFunctionCall_5 == *args,
                        self.pending_jumps@.len() == old(self).pending_jumps@.len(),
                        self.code().len() >= old(self).code().len(),
                    decreases args.len() - i,
                {
                    proof {
                        assert(decreases_to!(*expr => expr->ImportedFunctionCall_5));
                        assert(decreases_to!(expr->ImportedFunctionCall_5 => expr->ImportedFunctionCall_5@));
                        assert(decreases_to!(expr->ImportedFunctionCall_5@ => expr->ImportedFunctionCall_5@[i as int]));
                    }
                    self.expression(&args[i]);
                    i = i + 1;
                }
                self.push_instruction(
                    *location,
                    Instruction::ImportedFunctionCall(*program_index, *function_index, params.len()),
                );
            },
            AExpr::If(condition, body, otherwise) => {
                let lc = condition.get_location();
                let ghost start = self.code().len() as int;
                self.expression(condition);
                let jump_false = self.len();
                self.push_instruction(lc, Instruction::JumpIfFalse(0));
                self.expression(body);
                let end_jump = if otherwise.is_some() {
                    let j = self.len();
                    self.push_instruction(lc, Instruction::Jump(0));
                    Some(j)
                } else {
                    None
                };
                let else_start = self.len();
                self.patch(jump_false, Instruction::JumpIfFalse(else_start));
                match otherwise {
                    Some(o) => self.expression(o),
                    None => {},
                }
                match end_jump {
                    Some(j) => {
                        let end = self.len();
                        self.patch(j, Instruction::Jump(end));
                    },
                    None => {},
                }
                assert(if_at(self.code(), start, jump_false as int, else_start as int, otherwise is Some));
            },
        }
    }
}
} // verus!
