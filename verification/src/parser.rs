use vstd::prelude::*;

use crate::Location;
use crate::scanner::{Token, TokenType, is_prefix, token_text};
use crate::text::{push_char, push_str, spec_is_digit};

verus! {


/// How tightly an operator binds, from loosest to tightest.
#[derive(Debug, Clone, Copy, PartialEq, Eq, Structural)]
pub enum Precedence {
    Lowest,
    Assignment,
    AssignTest,
    Or,
    And,
    Equality,
    Comparison,
    BitOr,
    BitXor,
    BitAnd,
    Shift,
    Range,
    Term,
    Factor,
    Unary,
    Call,
    Primary,
}

/// The binding strength of a precedence level.
pub open spec fn spec_rank(p: Precedence) -> u8 {
    match p {
        Precedence::Lowest => 0,
        Precedence::Assignment => 10,
        Precedence::AssignTest => 15,
        Precedence::Or => 20,
        Precedence::And => 30,
        Precedence::Equality => 40,
        Precedence::Comparison => 50,
        Precedence::BitOr => 51,
        Precedence::BitXor => 52,
        Precedence::BitAnd => 53,
        Precedence::Shift => 54,
        Precedence::Range => 55,
        Precedence::Term => 60,
        Precedence::Factor => 70,
        Precedence::Unary => 80,
        Precedence::Call => 90,
        Precedence::Primary => 100,
    }
}

impl Precedence {
    pub fn rank(&self) -> (r: u8)
        ensures
            r == spec_rank(*self),
    {
        match self {
            Precedence::Lowest => 0,
            Precedence::Assignment => 10,
            Precedence::AssignTest => 15,
            Precedence::Or => 20,
            Precedence::And => 30,
            Precedence::Equality => 40,
            Precedence::Comparison => 50,
            Precedence::BitOr => 51,
            Precedence::BitXor => 52,
            Precedence::BitAnd => 53,
            Precedence::Shift => 54,
            Precedence::Range => 55,
            Precedence::Term => 60,
            Precedence::Factor => 70,
            Precedence::Unary => 80,
            Precedence::Call => 90,
            Precedence::Primary => 100,
        }
    }
}

#[derive(Debug, Clone, Copy, PartialEq, Eq, Structural)]
pub enum VariableMutability {
    Immutable,
    Mutable,
    Constant,
}

#[derive(Debug, Clone, Copy, PartialEq, Eq, Hash, Structural)]
pub enum UnaryOp {
    Negate,
    Invert,
    /// `..` (false) or `..=` (true)
    Range(bool),
}

#[derive(Debug, Clone, Copy, PartialEq, Eq, Hash, Structural)]
pub enum BinaryOp {
    Plus,
    Minus,
    Multiply,
    Divide,
    Remainder,
    Greater,
    GreaterEqual,
    Less,
    LessEqual,
    EqualEqual,
    BangEqual,
    BitAnd,
    BitOr,
    BitXor,
    ShiftLeft,
    ShiftRight,
    /// `..` (false) or `..=` (true)
    Range(bool),
}

#[derive(Debug, Clone, Copy, PartialEq, Eq, Hash, Structural)]
pub enum LogicalOp {
    And,
    Or,
}

#[derive(Debug, Clone, Copy, PartialEq, Eq, Hash, Structural)]
pub enum AssignmentOp {
    Equal,
    PlusEqual,
    MinusEqual,
    MultiplyEqual,
    DivideEqual,
    RemainderEqual,
    BitAndEqual,
    BitOrEqual,
    BitXorEqual,
}

/// The binary operator that a compound assignment applies (empty for plain `=`).
pub open spec fn spec_base_op(op: AssignmentOp) -> Seq<char> {
    match op {
        AssignmentOp::Equal => seq![],
        AssignmentOp::PlusEqual => seq!['+'],
        AssignmentOp::MinusEqual => seq!['-'],
        AssignmentOp::MultiplyEqual => seq!['*'],
        AssignmentOp::DivideEqual => seq!['/'],
        AssignmentOp::RemainderEqual => seq!['%'],
        AssignmentOp::BitAndEqual => seq!['&'],
        AssignmentOp::BitOrEqual => seq!['|'],
        AssignmentOp::BitXorEqual => seq!['^'],
    }
}

impl AssignmentOp {
    pub fn base_op(&self) -> (s: &str)
        ensures
            s@ == spec_base_op(*self),
    {
        proof {
            reveal_strlit("");
            reveal_strlit("+");
            reveal_strlit("-");
            reveal_strlit("*");
            reveal_strlit("/");
            reveal_strlit("%");
            reveal_strlit("&");
            reveal_strlit("|");
            reveal_strlit("^");
        }
        match self {
            AssignmentOp::Equal => "",
            AssignmentOp::PlusEqual => "+",
            AssignmentOp::MinusEqual => "-",
            AssignmentOp::MultiplyEqual => "*",
            AssignmentOp::DivideEqual => "/",
            AssignmentOp::RemainderEqual => "%",
            AssignmentOp::BitAndEqual => "&",
            AssignmentOp::BitOrEqual => "|",
            AssignmentOp::BitXorEqual => "^",
        }
    }
}



// ---------------------------------------------------------------------------
// The syntax tree

#[derive(Debug, Clone, PartialEq)]
pub struct FunctionParameter {
    pub mutability: VariableMutability,
    pub name: Token,
    pub typing: Token,
}

impl FunctionParameter {
    pub fn new(mutability: VariableMutability, name: Token, typing: Token) -> (p: FunctionParameter)
        ensures
            p.mutability == mutability,
            p.name == name,
            p.typing == typing,
    {
        FunctionParameter { mutability, name, typing }
    }
}

#[derive(Debug, PartialEq)]
pub enum Stmt {
    /// Name, initializer, mutability
    DefineVariable(Token, Option<Box<Expr>>, VariableMutability),
    /// Evaluate; whether the value is kept (no semicolon followed)
    Expression(Box<Expr>, bool),
    Return(Location, Option<Box<Expr>>),
    Break(Location),
    Continue(Location),
    Loop(Box<Expr>),
    /// Condition, body
    While(Box<Expr>, Box<Expr>),
    /// Name, parameters, body, declared return type
    Function(Token, Vec<FunctionParameter>, Box<Expr>, Option<Token>),
    /// Path, alias
    Import(Token, Token),
}

/// An expression. A floating-point literal keeps its digits as text.
#[derive(Debug, PartialEq)]
pub enum Expr {
    Float(Location, String),
    Integer(Location, i64),
    Bool(Location, bool),
    String(Location, String),
    Array(Location, Vec<Expr>),
    Unary(UnaryOp, Box<Expr>),
    Binary(Box<Expr>, BinaryOp, Box<Expr>),
    Variable(Location, String),
    Condition(Box<Expr>, LogicalOp, Box<Expr>),
    /// Callee and its arguments
    Call(Box<Expr>, Vec<Box<Expr>>),
    /// Receiver, name, arguments (none for a property)
    DotAccess(Box<Expr>, String, Option<Vec<Box<Expr>>>),
    /// Source, index
    Index(Box<Expr>, Box<Expr>),
    /// Namespace alias, identifier (`utils::helper`)
    QualifiedAccess(Location, String, String),
    Block(Location, Vec<Stmt>),
    Assign(Box<Expr>, AssignmentOp, Box<Expr>),
    /// Condition, body, otherwise
    If(Box<Expr>, Box<Expr>, Option<Box<Expr>>),
}

/// Where an expression starts.
pub open spec fn expr_location(e: Expr) -> Location
    decreases e,
{
    match e {
        Expr::Float(l, _) => l,
        Expr::Integer(l, _) => l,
        Expr::Bool(l, _) => l,
        Expr::String(l, _) => l,
        Expr::Array(l, _) => l,
        Expr::Unary(_, x) => expr_location(*x),
        Expr::Binary(x, _, _) => expr_location(*x),
        Expr::Variable(l, _) => l,
        Expr::Condition(x, _, _) => expr_location(*x),
        Expr::Call(x, _) => expr_location(*x),
        Expr::DotAccess(x, _, _) => expr_location(*x),
        Expr::Index(x, _) => expr_location(*x),
        Expr::QualifiedAccess(l, _, _) => l,
        Expr::Block(l, _) => l,
        Expr::Assign(x, _, _) => expr_location(*x),
        Expr::If(x, _, _) => expr_location(*x),
    }
}

impl Expr {
    pub fn get_location(&self) -> (l: Location)
        ensures
            l == expr_location(*self),
        decreases self,
    {
        match self {
            Expr::Float(l, _) => *l,
            Expr::Integer(l, _) => *l,
            Expr::Bool(l, _) => *l,
            Expr::String(l, _) => *l,
            Expr::Array(l, _) => *l,
            Expr::Unary(_, x) => x.get_location(),
            Expr::Binary(x, _, _) => x.get_location(),
            Expr::Variable(l, _) => *l,
            Expr::Condition(x, _, _) => x.get_location(),
            Expr::Call(x, _) => x.get_location(),
            Expr::DotAccess(x, _, _) => x.get_location(),
            Expr::Index(x, _) => x.get_location(),
            Expr::QualifiedAccess(l, _, _) => *l,
            Expr::Block(l, _) => *l,
            Expr::Assign(x, _, _) => x.get_location(),
            Expr::If(x, _, _) => x.get_location(),
        }
    }
}

impl Stmt {
    pub fn get_location(&self) -> (l: Location)
        ensures
            l == match *self {
                Stmt::DefineVariable(t, _, _) => t.location,
                Stmt::Expression(e, _) => expr_location(*e),
                Stmt::Return(l, _) => l,
                Stmt::Break(l) => l,
                Stmt::Continue(l) => l,
                Stmt::While(e, _) => expr_location(*e),
                Stmt::Loop(e) => expr_location(*e),
                Stmt::Function(t, _, _, _) => t.location,
                Stmt::Import(t, _) => t.location,
            },
    {
        match self {
            Stmt::DefineVariable(t, _, _) => t.location,
            Stmt::Expression(e, _) => e.get_location(),
            Stmt::Return(l, _) => *l,
            Stmt::Break(l) => *l,
            Stmt::Continue(l) => *l,
            Stmt::While(e, _) => e.get_location(),
            Stmt::Loop(e) => e.get_location(),
            Stmt::Function(t, _, _, _) => t.location,
            Stmt::Import(t, _) => t.location,
        }
    }
}

// ---------------------------------------------------------------------------
// Parse rules

/// What a token starts when it begins an expression.
#[derive(Debug, Clone, Copy, PartialEq, Eq, Structural)]
pub enum PrefixRule {
    Unary,
    Integer,
    Float,
    String,
    Bool,
    Variable,
    Grouping,
    Block,
    Array,
    If,
}

/// What a token continues when it follows an expression.
#[derive(Debug, Clone, Copy, PartialEq, Eq, Structural)]
pub enum InfixRule {
    Logical,
    Binary,
    Call,
    MethodCall,
    QualifiedAccess,
    Assign,
    Index,
}

/// The parse rule of each token type: what it starts, what it continues, and how tightly.
pub open spec fn spec_rule(t: TokenType) -> (Option<PrefixRule>, Option<InfixRule>, Precedence) {
    match t {
        TokenType::Or => (None, Some(InfixRule::Logical), Precedence::Or),
        TokenType::And => (None, Some(InfixRule::Logical), Precedence::And),
        TokenType::Minus => (Some(PrefixRule::Unary), Some(InfixRule::Binary), Precedence::Term),
        TokenType::Bang => (Some(PrefixRule::Unary), None, Precedence::Term),
        TokenType::Plus => (None, Some(InfixRule::Binary), Precedence::Term),
        TokenType::Star => (None, Some(InfixRule::Binary), Precedence::Factor),
        TokenType::Slash => (None, Some(InfixRule::Binary), Precedence::Factor),
        TokenType::Percent => (None, Some(InfixRule::Binary), Precedence::Factor),
        TokenType::Integer => (Some(PrefixRule::Integer), None, Precedence::Primary),
        TokenType::Float => (Some(PrefixRule::Float), None, Precedence::Primary),
        TokenType::String => (Some(PrefixRule::String), None, Precedence::Primary),
        TokenType::True => (Some(PrefixRule::Bool), None, Precedence::Primary),
        TokenType::False => (Some(PrefixRule::Bool), None, Precedence::Primary),
        TokenType::Identifier => (Some(PrefixRule::Variable), None, Precedence::Primary),
        TokenType::LeftParenthese => (Some(PrefixRule::Grouping), Some(InfixRule::Call), Precedence::Call),
        TokenType::Dot => (None, Some(InfixRule::MethodCall), Precedence::Call),
        TokenType::Scope => (None, Some(InfixRule::QualifiedAccess), Precedence::Primary),
        TokenType::Greater | TokenType::GreaterEqual | TokenType::Less | TokenType::LessEqual => (
            None,
            Some(InfixRule::Binary),
            Precedence::Comparison,
        ),
        TokenType::EqualEqual | TokenType::BangEqual => (None, Some(InfixRule::Binary), Precedence::Equality),
        TokenType::BinaryOr => (None, Some(InfixRule::Binary), Precedence::BitOr),
        TokenType::BinaryXor => (None, Some(InfixRule::Binary), Precedence::BitXor),
        TokenType::BinaryAnd => (None, Some(InfixRule::Binary), Precedence::BitAnd),
        TokenType::ShiftLeft | TokenType::ShiftRight => (None, Some(InfixRule::Binary), Precedence::Shift),
        TokenType::Equal | TokenType::PlusEqual | TokenType::MinusEqual | TokenType::StarEqual
        | TokenType::SlashEqual | TokenType::PercentEqual | TokenType::BinaryAndEqual | TokenType::BinaryOrEqual
        | TokenType::BinaryXorEqual => (None, Some(InfixRule::Assign), Precedence::AssignTest),
        TokenType::LeftBrace => (Some(PrefixRule::Block), None, Precedence::Lowest),
        TokenType::DotDot | TokenType::DotDotEqual => (Some(PrefixRule::Unary), Some(InfixRule::Binary), Precedence::Range),
        TokenType::LeftSquare => (Some(PrefixRule::Array), Some(InfixRule::Index), Precedence::Call),
        TokenType::If => (Some(PrefixRule::If), None, Precedence::Call),
        _ => (None, None, Precedence::Lowest),
    }
}

impl TokenType {
    pub fn rule(&self) -> (r: (Option<PrefixRule>, Option<InfixRule>, Precedence))
        ensures
            r == spec_rule(*self),
    {
        match self {
            TokenType::Or => (None, Some(InfixRule::Logical), Precedence::Or),
            TokenType::And => (None, Some(InfixRule::Logical), Precedence::And),
            TokenType::Minus => (Some(PrefixRule::Unary), Some(InfixRule::Binary), Precedence::Term),
            TokenType::Bang => (Some(PrefixRule::Unary), None, Precedence::Term),
            TokenType::Plus => (None, Some(InfixRule::Binary), Precedence::Term),
            TokenType::Star => (None, Some(InfixRule::Binary), Precedence::Factor),
            TokenType::Slash => (None, Some(InfixRule::Binary), Precedence::Factor),
            TokenType::Percent => (None, Some(InfixRule::Binary), Precedence::Factor),
            TokenType::Integer => (Some(PrefixRule::Integer), None, Precedence::Primary),
            TokenType::Float => (Some(PrefixRule::Float), None, Precedence::Primary),
            TokenType::String => (Some(PrefixRule::String), None, Precedence::Primary),
            TokenType::True => (Some(PrefixRule::Bool), None, Precedence::Primary),
            TokenType::False => (Some(PrefixRule::Bool), None, Precedence::Primary),
            TokenType::Identifier => (Some(PrefixRule::Variable), None, Precedence::Primary),
            TokenType::LeftParenthese => (Some(PrefixRule::Grouping), Some(InfixRule::Call), Precedence::Call),
            TokenType::Dot => (None, Some(InfixRule::MethodCall), Precedence::Call),
            TokenType::Scope => (None, Some(InfixRule::QualifiedAccess), Precedence::Primary),
            TokenType::Greater | TokenType::GreaterEqual | TokenType::Less | TokenType::LessEqual => (
                None,
                Some(InfixRule::Binary),
                Precedence::Comparison,
            ),
            TokenType::EqualEqual | TokenType::BangEqual => (None, Some(InfixRule::Binary), Precedence::Equality),
            TokenType::BinaryOr => (None, Some(InfixRule::Binary), Precedence::BitOr),
            TokenType::BinaryXor => (None, Some(InfixRule::Binary), Precedence::BitXor),
            TokenType::BinaryAnd => (None, Some(InfixRule::Binary), Precedence::BitAnd),
            TokenType::ShiftLeft | TokenType::ShiftRight => (None, Some(InfixRule::Binary), Precedence::Shift),
            TokenType::Equal | TokenType::PlusEqual | TokenType::MinusEqual | TokenType::StarEqual
            | TokenType::SlashEqual | TokenType::PercentEqual | TokenType::BinaryAndEqual | TokenType::BinaryOrEqual
            | TokenType::BinaryXorEqual => (None, Some(InfixRule::Assign), Precedence::AssignTest),
            TokenType::LeftBrace => (Some(PrefixRule::Block), None, Precedence::Lowest),
            TokenType::DotDot | TokenType::DotDotEqual => (Some(PrefixRule::Unary), Some(InfixRule::Binary), Precedence::Range),
            TokenType::LeftSquare => (Some(PrefixRule::Array), Some(InfixRule::Index), Precedence::Call),
            TokenType::If => (Some(PrefixRule::If), None, Precedence::Call),
            _ => (None, None, Precedence::Lowest),
        }
    }
}

// ---------------------------------------------------------------------------
// Literals

pub open spec fn is_integer_char(c: char) -> bool {
    spec_is_digit(c) || c == '_'
}

/// The number that a run of digits and underscores writes (underscores are ignored).
pub open spec fn digits_value(s: Seq<char>) -> int
    decreases s.len(),
{
    if s.len() == 0 {
        0
    } else if s.last() == '_' {
        digits_value(s.drop_last())
    } else {
        digits_value(s.drop_last()) * 10 + (s.last() as int - '0' as int)
    }
}

/// An integer literal the parser can read: digits and underscores whose value fits `i64`.
pub open spec fn integer_lexeme_ok(s: Seq<char>) -> bool {
    &&& forall|i: int| 0 <= i < s.len() ==> is_integer_char(#[trigger] s[i])
    &&& digits_value(s) <= i64::MAX
}

/// Every integer token of a token list is one the parser can read.
pub open spec fn integers_readable(ts: Seq<Token>) -> bool {
    forall|i: int|
        0 <= i < ts.len() && (#[trigger] ts[i]).token_type == TokenType::Integer ==> integer_lexeme_ok(
            ts[i].lexeme@,
        )
}

/// A text with its underscores left out.
pub open spec fn without_underscores(s: Seq<char>) -> Seq<char>
    decreases s.len(),
{
    if s.len() == 0 {
        s
    } else if s.last() == '_' {
        without_underscores(s.drop_last())
    } else {
        without_underscores(s.drop_last()).push(s.last())
    }
}

proof fn lemma_digits_prefix(s: Seq<char>, i: int)
    requires
        0 <= i <= s.len(),
        forall|k: int| 0 <= k < s.len() ==> is_integer_char(#[trigger] s[k]),
    ensures
        0 <= digits_value(s.take(i)) <= digits_value(s),
    decreases s.len(),
{
    if s.len() == 0 {
        assert(s.take(i) =~= s);
    } else if i == s.len() {
        assert(s.take(i) =~= s);
        lemma_digits_prefix(s.drop_last(), s.len() - 1);
        assert(s.drop_last().take(s.len() - 1) =~= s.drop_last());
    } else {
        lemma_digits_prefix(s.drop_last(), i);
        assert(s.drop_last().take(i) =~= s.take(i));
        lemma_digits_prefix(s.drop_last(), s.len() - 1);
        assert(s.drop_last().take(s.len() - 1) =~= s.drop_last());
    }
}

/// Reads an integer literal.
pub fn parse_integer(lexeme: &str) -> (v: i64)
    requires
        integer_lexeme_ok(lexeme@),
    ensures
        v == digits_value(lexeme@),
{
    let cs = crate::text::chars_of(lexeme);
    let mut v: i64 = 0;
    let mut i: usize = 0;
    while i < cs.len()
        invariant
            i <= cs.len(),
            cs@ == lexeme@,
            integer_lexeme_ok(lexeme@),
            v == digits_value(cs@.take(i as int)),
        decreases cs.len() - i,
    {
        proof {
            lemma_digits_prefix(cs@, i + 1);
            assert(cs@.take(i + 1).drop_last() =~= cs@.take(i as int));
            assert(cs@.take(i + 1).last() == cs@[i as int]);
            assert(is_integer_char(cs@[i as int]));
        }
        let c = cs[i];
        if c != '_' {
            let d = (c as u32 - '0' as u32) as i64;
            v = v * 10 + d;
        }
        i = i + 1;
    }
    proof {
        assert(cs@.take(cs@.len() as int) =~= cs@);
    }
    v
}

/// A text with its underscores left out.
pub fn strip_underscores(s: &str) -> (r: String)
    ensures
        r@ == without_underscores(s@),
{
    let cs = crate::text::chars_of(s);
    let mut r = String::new();
    let mut i: usize = 0;
    while i < cs.len()
        invariant
            i <= cs.len(),
            cs@ == s@,
            r@ == without_underscores(cs@.take(i as int)),
        decreases cs.len() - i,
    {
        proof {
            assert(cs@.take(i + 1).drop_last() =~= cs@.take(i as int));
            assert(cs@.take(i + 1).last() == cs@[i as int]);
        }
        if cs[i] != '_' {
            push_char(&mut r, cs[i]);
        }
        i = i + 1;
    }
    proof {
        assert(cs@.take(cs@.len() as int) =~= cs@);
    }
    r
}

/// The name of a token type, as `{:?}` shows it.
pub open spec fn token_type_name(t: TokenType) -> Seq<char> {
    match t {
        TokenType::LeftParenthese => "LeftParenthese"@,
        TokenType::RightParenthese => "RightParenthese"@,
        TokenType::LeftBrace => "LeftBrace"@,
        TokenType::RightBrace => "RightBrace"@,
        TokenType::LeftSquare => "LeftSquare"@,
        TokenType::RightSquare => "RightSquare"@,
        TokenType::Comma => "Comma"@,
        TokenType::Dot => "Dot"@,
        TokenType::DotDot => "DotDot"@,
        TokenType::DotDotEqual => "DotDotEqual"@,
        TokenType::Minus => "Minus"@,
        TokenType::Plus => "Plus"@,
        TokenType::Colon => "Colon"@,
        TokenType::Scope => "Scope"@,
        TokenType::Semicolon => "Semicolon"@,
        TokenType::Slash => "Slash"@,
        TokenType::Star => "Star"@,
        TokenType::Percent => "Percent"@,
        TokenType::Bang => "Bang"@,
        TokenType::BangEqual => "BangEqual"@,
        TokenType::Equal => "Equal"@,
        TokenType::EqualEqual => "EqualEqual"@,
        TokenType::Greater => "Greater"@,
        TokenType::GreaterEqual => "GreaterEqual"@,
        TokenType::Less => "Less"@,
        TokenType::LessEqual => "LessEqual"@,
        TokenType::BinaryAnd => "BinaryAnd"@,
        TokenType::And => "And"@,
        TokenType::BinaryOr => "BinaryOr"@,
        TokenType::Or => "Or"@,
        TokenType::BinaryXor => "BinaryXor"@,
        TokenType::ShiftLeft => "ShiftLeft"@,
        TokenType::ShiftRight => "ShiftRight"@,
        TokenType::BinaryAndEqual => "BinaryAndEqual"@,
        TokenType::BinaryOrEqual => "BinaryOrEqual"@,
        TokenType::BinaryXorEqual => "BinaryXorEqual"@,
        TokenType::PlusEqual => "PlusEqual"@,
        TokenType::MinusEqual => "MinusEqual"@,
        TokenType::StarEqual => "StarEqual"@,
        TokenType::SlashEqual => "SlashEqual"@,
        TokenType::PercentEqual => "PercentEqual"@,
        TokenType::Arrow => "Arrow"@,
        TokenType::Identifier => "Identifier"@,
        TokenType::String => "String"@,
        TokenType::Integer => "Integer"@,
        TokenType::Float => "Float"@,
        TokenType::If => "If"@,
        TokenType::Else => "Else"@,
        TokenType::While => "While"@,
        TokenType::Loop => "Loop"@,
        TokenType::For => "For"@,
        TokenType::Fn => "Fn"@,
        TokenType::Return => "Return"@,
        TokenType::Break => "Break"@,
        TokenType::Continue => "Continue"@,
        TokenType::Let => "Let"@,
        TokenType::True => "True"@,
        TokenType::False => "False"@,
        TokenType::Struct => "Struct"@,
        TokenType::Import => "Import"@,
        TokenType::Mut => "Mut"@,
        TokenType::Const => "Const"@,
        TokenType::In => "In"@,
        TokenType::As => "As"@,
        TokenType::DocComment => "DocComment"@,
        TokenType::Eof => "Eof"@,
    }
}
/// The name of a token type, as `{:?}` shows it.
pub fn token_type_text(t: TokenType) -> (s: &'static str)
    ensures
        s@ == token_type_name(t),
{
    proof {
        reveal_strlit("LeftParenthese");
        reveal_strlit("RightParenthese");
        reveal_strlit("LeftBrace");
        reveal_strlit("RightBrace");
        reveal_strlit("LeftSquare");
        reveal_strlit("RightSquare");
        reveal_strlit("Comma");
        reveal_strlit("Dot");
        reveal_strlit("DotDot");
        reveal_strlit("DotDotEqual");
        reveal_strlit("Minus");
        reveal_strlit("Plus");
        reveal_strlit("Colon");
        reveal_strlit("Scope");
        reveal_strlit("Semicolon");
        reveal_strlit("Slash");
        reveal_strlit("Star");
        reveal_strlit("Percent");
        reveal_strlit("Bang");
        reveal_strlit("BangEqual");
        reveal_strlit("Equal");
        reveal_strlit("EqualEqual");
        reveal_strlit("Greater");
        reveal_strlit("GreaterEqual");
        reveal_strlit("Less");
        reveal_strlit("LessEqual");
        reveal_strlit("BinaryAnd");
        reveal_strlit("And");
        reveal_strlit("BinaryOr");
        reveal_strlit("Or");
        reveal_strlit("PlusEqual");
        reveal_strlit("MinusEqual");
        reveal_strlit("StarEqual");
        reveal_strlit("SlashEqual");
        reveal_strlit("PercentEqual");
        reveal_strlit("Arrow");
        reveal_strlit("Identifier");
        reveal_strlit("String");
        reveal_strlit("Integer");
        reveal_strlit("Float");
        reveal_strlit("If");
        reveal_strlit("Else");
        reveal_strlit("While");
        reveal_strlit("Loop");
        reveal_strlit("For");
        reveal_strlit("Fn");
        reveal_strlit("Return");
        reveal_strlit("Break");
        reveal_strlit("Continue");
        reveal_strlit("Let");
        reveal_strlit("True");
        reveal_strlit("False");
        reveal_strlit("Struct");
        reveal_strlit("Import");
        reveal_strlit("Mut");
        reveal_strlit("Const");
        reveal_strlit("In");
        reveal_strlit("As");
        reveal_strlit("DocComment");
        reveal_strlit("Eof");
        reveal_strlit("BinaryXor");
        reveal_strlit("ShiftLeft");
        reveal_strlit("ShiftRight");
        reveal_strlit("BinaryAndEqual");
        reveal_strlit("BinaryOrEqual");
        reveal_strlit("BinaryXorEqual");
    }
    match t {
        TokenType::LeftParenthese => "LeftParenthese",
        TokenType::RightParenthese => "RightParenthese",
        TokenType::LeftBrace => "LeftBrace",
        TokenType::RightBrace => "RightBrace",
        TokenType::LeftSquare => "LeftSquare",
        TokenType::RightSquare => "RightSquare",
        TokenType::Comma => "Comma",
        TokenType::Dot => "Dot",
        TokenType::DotDot => "DotDot",
        TokenType::DotDotEqual => "DotDotEqual",
        TokenType::Minus => "Minus",
        TokenType::Plus => "Plus",
        TokenType::Colon => "Colon",
        TokenType::Scope => "Scope",
        TokenType::Semicolon => "Semicolon",
        TokenType::Slash => "Slash",
        TokenType::Star => "Star",
        TokenType::Percent => "Percent",
        TokenType::Bang => "Bang",
        TokenType::BangEqual => "BangEqual",
        TokenType::Equal => "Equal",
        TokenType::EqualEqual => "EqualEqual",
        TokenType::Greater => "Greater",
        TokenType::GreaterEqual => "GreaterEqual",
        TokenType::Less => "Less",
        TokenType::LessEqual => "LessEqual",
        TokenType::BinaryAnd => "BinaryAnd",
        TokenType::And => "And",
        TokenType::BinaryOr => "BinaryOr",
        TokenType::Or => "Or",
        TokenType::BinaryXor => "BinaryXor",
        TokenType::ShiftLeft => "ShiftLeft",
        TokenType::ShiftRight => "ShiftRight",
        TokenType::BinaryAndEqual => "BinaryAndEqual",
        TokenType::BinaryOrEqual => "BinaryOrEqual",
        TokenType::BinaryXorEqual => "BinaryXorEqual",
        TokenType::PlusEqual => "PlusEqual",
        TokenType::MinusEqual => "MinusEqual",
        TokenType::StarEqual => "StarEqual",
        TokenType::SlashEqual => "SlashEqual",
        TokenType::PercentEqual => "PercentEqual",
        TokenType::Arrow => "Arrow",
        TokenType::Identifier => "Identifier",
        TokenType::String => "String",
        TokenType::Integer => "Integer",
        TokenType::Float => "Float",
        TokenType::If => "If",
        TokenType::Else => "Else",
        TokenType::While => "While",
        TokenType::Loop => "Loop",
        TokenType::For => "For",
        TokenType::Fn => "Fn",
        TokenType::Return => "Return",
        TokenType::Break => "Break",
        TokenType::Continue => "Continue",
        TokenType::Let => "Let",
        TokenType::True => "True",
        TokenType::False => "False",
        TokenType::Struct => "Struct",
        TokenType::Import => "Import",
        TokenType::Mut => "Mut",
        TokenType::Const => "Const",
        TokenType::In => "In",
        TokenType::As => "As",
        TokenType::DocComment => "DocComment",
        TokenType::Eof => "Eof",
    }
}

// ---------------------------------------------------------------------------
// Errors

#[derive(Debug, PartialEq, Eq, Clone)]
pub enum ParseErrorType {
    ExpectedClosingParenthese,
    ExpectedExpression,
    ExpectedParameters,
    InvalidOperator(TokenType),
    InvalidForStatement,
    UnexpectedEndOfFile,
    UnexpectedToken,
    MissingSemicolon,
    StatementInvalid,
    ExpectedIdentifier,
    ExpectedVariableName,
    ExpectedBlock,
    ExpectedCondition,
    ExpectedForBody,
    ExpectedAssignmentOp,
    ExpectedComma,
    ExpectedTypeColon,
    ExpectedType,
    ExpectedForIn,
    ExpectedRangeBinaryOp,
    ExpectedImportPath,
    ExpectedAs,
    ExpectedClosingSquareBracket,
}

/// A parse error: the token it was found at, and what was expected there.
#[derive(Debug, PartialEq, Clone)]
pub struct ParseError {
    pub token: Token,
    pub error: ParseErrorType,
}

/// The text that describes a parse error.
pub open spec fn parse_message(e: ParseErrorType) -> Seq<char> {
    match e {
        ParseErrorType::ExpectedClosingParenthese => "Expected ')' after expression."@,
        ParseErrorType::ExpectedExpression => "Expected an expression here."@,
        ParseErrorType::ExpectedParameters => "Expected function parameters in parentheses."@,
        ParseErrorType::InvalidOperator(op) => "Invalid operator: "@ + token_type_name(op) + "."@,
        ParseErrorType::InvalidForStatement => "Invalid 'for' statement syntax."@,
        ParseErrorType::UnexpectedEndOfFile => "Unexpected end of file."@,
        ParseErrorType::UnexpectedToken => "Unexpected token."@,
        ParseErrorType::MissingSemicolon => "Expected ';' before next statement."@,
        ParseErrorType::StatementInvalid => "Invalid statement syntax."@,
        ParseErrorType::ExpectedIdentifier => "Expected an identifier here."@,
        ParseErrorType::ExpectedVariableName => "Expected a variable name here."@,
        ParseErrorType::ExpectedBlock => "Expected a block '{ ... }'."@,
        ParseErrorType::ExpectedCondition => "Expected a condition expression."@,
        ParseErrorType::ExpectedForBody => "Expected 'for' body after the loop clause."@,
        ParseErrorType::ExpectedAssignmentOp => "Expected an assignment operator (=, +=, -=, *=, /=)."@,
        ParseErrorType::ExpectedComma => "Expected ',' between values."@,
        ParseErrorType::ExpectedTypeColon => "Expected ':' for type annotation."@,
        ParseErrorType::ExpectedType => "Expected a type name."@,
        ParseErrorType::ExpectedForIn => "Expected 'in' keyword in 'for ... in ...' loop."@,
        ParseErrorType::ExpectedRangeBinaryOp => "Expected '..' or '..=' for range syntax."@,
        ParseErrorType::ExpectedImportPath => "Expected a module path after 'import'."@,
        ParseErrorType::ExpectedAs => "Expected 'as' keyword for renaming."@,
        ParseErrorType::ExpectedClosingSquareBracket => "Expected ']' end bracket."@,
    }
}

impl ParseError {
    pub closed spec fn kind(&self) -> ParseErrorType {
        self.error
    }

    pub fn new(token: Token, error: ParseErrorType) -> (e: ParseError)
        ensures
            e.token == token,
            e.kind() == error,
    {
        ParseError { token, error }
    }

    pub fn message(&self) -> (m: String)
        ensures
            m@ == parse_message(self.kind()),
    {
        let mut m = String::new();
        match &self.error {
            ParseErrorType::ExpectedClosingParenthese => push_str(&mut m, "Expected ')' after expression."),
            ParseErrorType::ExpectedExpression => push_str(&mut m, "Expected an expression here."),
            ParseErrorType::ExpectedParameters => push_str(&mut m, "Expected function parameters in parentheses."),
            ParseErrorType::InvalidOperator(op) => {
                push_str(&mut m, "Invalid operator: ");
                push_str(&mut m, token_type_text(*op));
                push_str(&mut m, ".");
            },
            ParseErrorType::InvalidForStatement => push_str(&mut m, "Invalid 'for' statement syntax."),
            ParseErrorType::UnexpectedEndOfFile => push_str(&mut m, "Unexpected end of file."),
            ParseErrorType::UnexpectedToken => push_str(&mut m, "Unexpected token."),
            ParseErrorType::MissingSemicolon => push_str(&mut m, "Expected ';' before next statement."),
            ParseErrorType::StatementInvalid => push_str(&mut m, "Invalid statement syntax."),
            ParseErrorType::ExpectedIdentifier => push_str(&mut m, "Expected an identifier here."),
            ParseErrorType::ExpectedVariableName => push_str(&mut m, "Expected a variable name here."),
            ParseErrorType::ExpectedBlock => push_str(&mut m, "Expected a block '{ ... }'."),
            ParseErrorType::ExpectedCondition => push_str(&mut m, "Expected a condition expression."),
            ParseErrorType::ExpectedForBody => push_str(&mut m, "Expected 'for' body after the loop clause."),
            ParseErrorType::ExpectedAssignmentOp => push_str(&mut m, "Expected an assignment operator (=, +=, -=, *=, /=)."),
            ParseErrorType::ExpectedComma => push_str(&mut m, "Expected ',' between values."),
            ParseErrorType::ExpectedTypeColon => push_str(&mut m, "Expected ':' for type annotation."),
            ParseErrorType::ExpectedType => push_str(&mut m, "Expected a type name."),
            ParseErrorType::ExpectedForIn => push_str(&mut m, "Expected 'in' keyword in 'for ... in ...' loop."),
            ParseErrorType::ExpectedRangeBinaryOp => push_str(&mut m, "Expected '..' or '..=' for range syntax."),
            ParseErrorType::ExpectedImportPath => push_str(&mut m, "Expected a module path after 'import'."),
            ParseErrorType::ExpectedAs => push_str(&mut m, "Expected 'as' keyword for renaming."),
            ParseErrorType::ExpectedClosingSquareBracket => push_str(&mut m, "Expected ']' end bracket."),
        }
        m
    }
}


// ---------------------------------------------------------------------------
// The parser

/// Turns tokens into statements, recording an error and moving on to the next statement
/// where the tokens do not fit the grammar.
#[derive(Debug)]
pub struct Parser {
    tokens: Vec<Token>,
    statements: Vec<Stmt>,
    parse_errors: Vec<ParseError>,
    current: usize,
    /// Index of the first end-of-file token; parsing never moves past it.
    limit: usize,
    panicking: bool,
}

/// A token list the parser accepts: it holds an end-of-file token, and every integer
/// literal in it fits `i64`.
pub open spec fn parseable(ts: Seq<Token>) -> bool {
    &&& exists|i: int| 0 <= i < ts.len() && (#[trigger] ts[i]).token_type == TokenType::Eof
    &&& integers_readable(ts)
}

impl Token {
    /// An exact copy of this token.
    pub fn copy(&self) -> (t: Token)
        ensures
            t == *self,
    {
        Token { location: self.location, token_type: self.token_type, lexeme: self.lexeme.clone() }
    }
}

impl Parser {
    pub closed spec fn spec_tokens(&self) -> Seq<Token> {
        self.tokens@
    }

    pub closed spec fn spec_errors(&self) -> Seq<ParseError> {
        self.parse_errors@
    }

    /// Whether the parser is recovering from an error and reports no more until it has.
    pub closed spec fn is_panicking(&self) -> bool {
        self.panicking
    }

    pub closed spec fn spec_statements(&self) -> Seq<Stmt> {
        self.statements@
    }

    /// The index of the next token.
    pub closed spec fn cursor(&self) -> int {
        self.current as int
    }

    /// The index of the first end-of-file token.
    pub closed spec fn end(&self) -> int {
        self.limit as int
    }

    pub closed spec fn wf(&self) -> bool {
        &&& self.limit < self.tokens@.len()
        &&& self.tokens@[self.limit as int].token_type == TokenType::Eof
        &&& forall|i: int| 0 <= i < self.limit ==> (#[trigger] self.tokens@[i]).token_type != TokenType::Eof
        &&& self.current <= self.limit
        &&& integers_readable(self.tokens@)
    }

    pub open spec fn at_end(&self) -> bool {
        self.cursor() == self.end()
    }

    /// How the parser may change between two points: the same tokens, the cursor not
    /// moved back, errors only added, statements untouched.
    pub open spec fn evolves(&self, n: Parser) -> bool {
        &&& n.spec_tokens() == self.spec_tokens()
        &&& n.end() == self.end()
        &&& self.cursor() <= n.cursor()
        &&& is_prefix(self.spec_errors(), n.spec_errors())
        &&& n.spec_statements() == self.spec_statements()
    }

    pub fn new(tokens: &[Token]) -> (p: Parser)
        requires
            parseable(tokens@),
        ensures
            p.wf(),
            p.spec_tokens() == tokens@,
            p.cursor() == 0,
            p.spec_errors().len() == 0,
            p.spec_statements().len() == 0,
            !p.is_panicking(),
            p.spec_tokens()[p.end()].token_type == TokenType::Eof,
            forall|i: int| 0 <= i < p.end() ==> (#[trigger] p.spec_tokens()[i]).token_type != TokenType::Eof,
    {
        let mut v: Vec<Token> = Vec::new();
        let mut i: usize = 0;
        while i < tokens.len()
            invariant
                i <= tokens@.len(),
                v@ == tokens@.take(i as int),
            decreases tokens.len() - i,
        {
            v.push(tokens[i].copy());
            i = i + 1;
            proof {
                assert(v@ =~= tokens@.take(i as int));
            }
        }
        proof {
            assert(v@ =~= tokens@);
        }
        let mut limit: usize = 0;
        while v[limit].token_type != TokenType::Eof
            invariant
                v@ == tokens@,
                parseable(tokens@),
                limit < v@.len(),
                forall|k: int| 0 <= k < limit ==> (#[trigger] v@[k]).token_type != TokenType::Eof,
            decreases v@.len() - limit,
        {
            if limit >= v.len() - 1 {
                proof {
                    let w = choose|w: int| 0 <= w < tokens@.len() && (#[trigger] tokens@[w]).token_type == TokenType::Eof;
                    assert(v@[w].token_type == TokenType::Eof);
                }
            }
            limit = limit + 1;
        }
        Parser { tokens: v, statements: Vec::new(), parse_errors: Vec::new(), current: 0, limit, panicking: false }
    }

    /// Called after an error: skips tokens up to the start of the next statement.
    fn synchronize(&mut self)
        requires
            old(self).wf(),
        ensures
            !old(self).panicking && final(self).panicking ==> final(self).spec_errors().len() > old(self).spec_errors().len(),
            final(self).wf(),
            old(self).evolves(*final(self)),
            final(self).spec_errors() == old(self).spec_errors(),
            final(self).panicking == old(self).panicking,
            final(self).at_end() || spec_is_sync_token(final(self).spec_tokens()[final(self).cursor()].token_type),
            forall|k: int| old(self).cursor() <= k < final(self).cursor() ==> !spec_is_sync_token(
                #[trigger] old(self).spec_tokens()[k].token_type,
            ),
    {
        while !self.is_end() && !is_sync_token(self.tokens[self.current].token_type)
            invariant
                self.wf(),
                old(self).evolves(*self),
                !old(self).panicking && self.panicking ==> self.spec_errors().len() > old(self).spec_errors().len(),
                self.spec_errors() == old(self).spec_errors(),
                self.panicking == old(self).panicking,
                forall|k: int| old(self).cursor() <= k < self.cursor() ==> !spec_is_sync_token(
                    #[trigger] old(self).spec_tokens()[k].token_type,
                ),
            decreases self.limit - self.current,
        {
            self.advance();
        }
    }

    /// Reads all statements.
    pub fn parse(&mut self)
        requires
            old(self).wf(),
        ensures
            final(self).wf(),
            final(self).at_end(),
            final(self).spec_tokens() == old(self).spec_tokens(),
            is_prefix(old(self).spec_errors(), final(self).spec_errors()),
            is_prefix(old(self).spec_statements(), final(self).spec_statements()),
            !old(self).is_panicking() && !old(self).at_end() ==> final(self).spec_errors().len()
                + final(self).spec_statements().len() > old(self).spec_errors().len() + old(self).spec_statements().len(),
    {
        while !self.is_end()
            invariant
                self.wf(),
                self.spec_tokens() == old(self).spec_tokens(),
                self.end() == old(self).end(),
                is_prefix(old(self).spec_errors(), self.spec_errors()),
                is_prefix(old(self).spec_statements(), self.spec_statements()),
                old(self).cursor() <= self.cursor(),
                !old(self).panicking ==> !self.panicking,
                !old(self).panicking ==> (self.cursor() == old(self).cursor() || self.spec_errors().len()
                    + self.spec_statements().len() > old(self).spec_errors().len() + old(self).spec_statements().len()),
            decreases self.limit - self.current,
        {
            let ghost before = *self;
            let stmt = self.declaration();
            match stmt {
                Some(stmt) => {
                    self.statements.push(stmt);
                },
                None => {},
            }
            assert(is_prefix(before.spec_statements(), self.spec_statements()));
        }
    }

    fn declaration(&mut self) -> (r: Option<Stmt>)
        requires
            old(self).wf(),
        ensures
            !old(self).panicking ==> (r is Some || final(self).spec_errors().len() > old(self).spec_errors().len()),
            !final(self).panicking,
            final(self).wf(),
            old(self).evolves(*final(self)),
            !old(self).at_end() ==> final(self).cursor() > old(self).cursor(),
        decreases old(self).limit - old(self).current, 5int,
    {
        let stmt = if self.try_consume(TokenType::Fn).is_some() {
            self.function_declaration()
        } else if self.try_consume(TokenType::Let).is_some() {
            self.var_declaration()
        } else if self.try_consume(TokenType::Const).is_some() {
            self.const_declaration()
        } else {
            self.statement()
        };
        if self.panicking {
            self.synchronize();
            self.panicking = false;
        }
        stmt
    }

    fn function_declaration(&mut self) -> (r: Option<Stmt>)
        requires
            old(self).wf(),
        ensures
            !old(self).panicking && final(self).panicking ==> final(self).spec_errors().len() > old(self).spec_errors().len(),
            r is None ==> old(self).panicking || final(self).panicking || final(self).spec_errors().len() > old(
                self,
            ).spec_errors().len(),
            final(self).wf(),
            old(self).evolves(*final(self)),
            r matches Some(st) ==> st is Function,
        decreases old(self).limit - old(self).current, 4int,
    {
        let function_name = match self.try_consume(TokenType::Identifier) {
            Some(t) => t,
            None => {
                self.error(ParseErrorType::ExpectedIdentifier);
                return None;
            },
        };
        if self.consume(TokenType::LeftParenthese, ParseErrorType::ExpectedParameters).is_none() {
            return None;
        }
        let mut parameters: Vec<FunctionParameter> = Vec::new();
        if self.try_consume(TokenType::RightParenthese).is_none() {
            loop
                invariant
                    self.wf(),
                    old(self).evolves(*self),
                    !old(self).panicking && self.panicking ==> self.spec_errors().len() > old(self).spec_errors().len(),
                    old(self).cursor() < self.cursor(),
                decreases self.limit - self.current,
            {
                let mutability = if self.try_consume(TokenType::Mut).is_some() {
                    VariableMutability::Mutable
                } else if self.try_consume(TokenType::Const).is_some() {
                    VariableMutability::Constant
                } else {
                    VariableMutability::Immutable
                };
                let parameter_name = match self.consume(TokenType::Identifier, ParseErrorType::ExpectedIdentifier) {
                    Some(t) => t,
                    None => return None,
                };
                if self.consume(TokenType::Colon, ParseErrorType::ExpectedTypeColon).is_none() {
                    return None;
                }
                let typing = match self.consume(TokenType::Identifier, ParseErrorType::ExpectedType) {
                    Some(t) => t,
                    None => return None,
                };
                parameters.push(FunctionParameter::new(mutability, parameter_name, typing));
                if self.try_consume(TokenType::Comma).is_none() {
                    break;
                }
            }
            if self.consume(TokenType::RightParenthese, ParseErrorType::ExpectedClosingParenthese).is_none() {
                return None;
            }
        }
        let mut return_typing: Option<Token> = None;
        if self.try_consume(TokenType::Arrow).is_some() {
            match self.consume(TokenType::Identifier, ParseErrorType::ExpectedType) {
                Some(t) => {
                    return_typing = Some(t);
                },
                None => return None,
            }
        }
        if self.consume(TokenType::LeftBrace, ParseErrorType::ExpectedBlock).is_none() {
            return None;
        }
        let body = match self.block_expression() {
            Some(b) => b,
            None => return None,
        };
        Some(Stmt::Function(function_name, parameters, Box::new(body), return_typing))
    }

    fn const_declaration(&mut self) -> (r: Option<Stmt>)
        requires
            old(self).wf(),
        ensures
            !old(self).panicking && final(self).panicking ==> final(self).spec_errors().len() > old(self).spec_errors().len(),
            r is None ==> old(self).panicking || final(self).panicking || final(self).spec_errors().len() > old(
                self,
            ).spec_errors().len(),
            final(self).wf(),
            old(self).evolves(*final(self)),
            r matches Some(st) ==> (st matches Stmt::DefineVariable(_, init, m) && m == VariableMutability::Constant && init is Some),
        decreases old(self).limit - old(self).current, 4int,
    {
        let name = match self.try_consume(TokenType::Identifier) {
            Some(t) => t,
            None => {
                self.error(ParseErrorType::ExpectedIdentifier);
                return None;
            },
        };
        if self.consume(TokenType::Equal, ParseErrorType::ExpectedExpression).is_none() {
            return None;
        }
        let initializer = match self.expression() {
            Some(e) => e,
            None => return None,
        };
        if self.consume(TokenType::Semicolon, ParseErrorType::MissingSemicolon).is_none() {
            return None;
        }
        Some(Stmt::DefineVariable(name, Some(Box::new(initializer)), VariableMutability::Constant))
    }

    fn var_declaration(&mut self) -> (r: Option<Stmt>)
        requires
            old(self).wf(),
        ensures
            !old(self).panicking && final(self).panicking ==> final(self).spec_errors().len() > old(self).spec_errors().len(),
            r is None ==> old(self).panicking || final(self).panicking || final(self).spec_errors().len() > old(
                self,
            ).spec_errors().len(),
            final(self).wf(),
            old(self).evolves(*final(self)),
            r matches Some(st) ==> (st matches Stmt::DefineVariable(name, _, m) && m != VariableMutability::Constant && name.token_type == TokenType::Identifier),
        decreases old(self).limit - old(self).current, 4int,
    {
        let mutable = self.try_consume(TokenType::Mut).is_some();
        let name = match self.try_consume(TokenType::Identifier) {
            Some(t) => t,
            None => {
                self.error(ParseErrorType::ExpectedIdentifier);
                return None;
            },
        };
        let initializer = if self.try_consume(TokenType::Equal).is_some() {
            match self.expression() {
                Some(e) => Some(Box::new(e)),
                None => {
                    self.error(ParseErrorType::ExpectedAssignmentOp);
                    return None;
                },
            }
        } else {
            None
        };
        if self.consume(TokenType::Semicolon, ParseErrorType::MissingSemicolon).is_none() {
            return None;
        }
        Some(
            Stmt::DefineVariable(
                name,
                initializer,
                if mutable {
                    VariableMutability::Mutable
                } else {
                    VariableMutability::Immutable
                },
            ),
        )
    }

    fn statement(&mut self) -> (r: Option<Stmt>)
        requires
            old(self).wf(),
        ensures
            !old(self).panicking && final(self).panicking ==> final(self).spec_errors().len() > old(self).spec_errors().len(),
            r is None ==> old(self).panicking || final(self).panicking || final(self).spec_errors().len() > old(
                self,
            ).spec_errors().len(),
            final(self).wf(),
            old(self).evolves(*final(self)),
            !old(self).at_end() ==> final(self).cursor() > old(self).cursor(),
        decreases old(self).limit - old(self).current, 4int,
    {
        if self.try_consume(TokenType::For).is_some() {
            self.for_statement()
        } else if self.try_consume(TokenType::While).is_some() {
            self.while_statement()
        } else if self.try_consume(TokenType::Loop).is_some() {
            self.loop_statement()
        } else if self.try_consume(TokenType::Return).is_some() {
            self.return_statement()
        } else if self.try_consume(TokenType::Break).is_some() {
            self.break_statement()
        } else if self.try_consume(TokenType::Continue).is_some() {
            self.continue_statement()
        } else if self.try_consume(TokenType::Import).is_some() {
            self.import_statement()
        } else {
            self.expr_statement()
        }
    }

    fn import_statement(&mut self) -> (r: Option<Stmt>)
        requires
            old(self).wf(),
        ensures
            !old(self).panicking && final(self).panicking ==> final(self).spec_errors().len() > old(self).spec_errors().len(),
            r is None ==> old(self).panicking || final(self).panicking || final(self).spec_errors().len() > old(
                self,
            ).spec_errors().len(),
            final(self).wf(),
            old(self).evolves(*final(self)),
            r matches Some(st) ==> st is Import,
    {
        let path = match self.consume(TokenType::String, ParseErrorType::ExpectedImportPath) {
            Some(t) => t,
            None => return None,
        };
        if self.consume(TokenType::As, ParseErrorType::ExpectedAs).is_none() {
            return None;
        }
        let alias = match self.consume(TokenType::Identifier, ParseErrorType::ExpectedIdentifier) {
            Some(t) => t,
            None => return None,
        };
        if self.consume(TokenType::Semicolon, ParseErrorType::MissingSemicolon).is_none() {
            return None;
        }
        Some(Stmt::Import(path, alias))
    }

    fn for_statement(&mut self) -> (r: Option<Stmt>)
        requires
            old(self).wf(),
        ensures
            !old(self).panicking && final(self).panicking ==> final(self).spec_errors().len() > old(self).spec_errors().len(),
            r is None ==> old(self).panicking || final(self).panicking || final(self).spec_errors().len() > old(
                self,
            ).spec_errors().len(),
            final(self).wf(),
            old(self).evolves(*final(self)),
            r matches Some(st) ==> (st matches Stmt::Expression(b, kept) && *b is Block && !kept),
        decreases old(self).limit - old(self).current, 3int,
    {
        if self.try_consume(TokenType::LeftParenthese).is_some() {
            self.classic_for_statement()
        } else if self.try_consume(TokenType::Identifier).is_some() {
            self.range_for_statement(false)
        } else if self.try_consume(TokenType::Mut).is_some() {
            if self.consume(TokenType::Identifier, ParseErrorType::ExpectedVariableName).is_none() {
                return None;
            }
            self.range_for_statement(true)
        } else {
            self.error(ParseErrorType::InvalidForStatement);
            None
        }
    }

    /// `for name in iterable { body }`, written out as a block that walks an iterator:
    /// `into_iter`, then `next` / `is_some` / `unwrap` around the body.
    fn range_for_statement(&mut self, is_mutable: bool) -> (r: Option<Stmt>)
        requires
            old(self).wf(),
            old(self).cursor() > 0,
        ensures
            !old(self).panicking && final(self).panicking ==> final(self).spec_errors().len() > old(self).spec_errors().len(),
            r is None ==> old(self).panicking || final(self).panicking || final(self).spec_errors().len() > old(
                self,
            ).spec_errors().len(),
            final(self).wf(),
            old(self).evolves(*final(self)),
            r matches Some(st) ==> (st matches Stmt::Expression(b, kept) && *b is Block && !kept),
        decreases old(self).limit - old(self).current, 2int,
    {
        let variable = self.last();
        if self.consume(TokenType::In, ParseErrorType::ExpectedForIn).is_none() {
            return None;
        }
        let iterator_expr = match self.expression() {
            Some(e) => e,
            None => return None,
        };
        if self.consume(TokenType::LeftBrace, ParseErrorType::ExpectedBlock).is_none() {
            return None;
        }
        let body = match self.block_expression() {
            Some(b) => b,
            None => return None,
        };
        let for_location = self.last().location;
        let body_location = body.get_location();
        let loc = variable.location;
        let name = variable.lexeme.clone();
        let unwrap_stmt = Stmt::DefineVariable(
            variable.copy(),
            Some(Box::new(Expr::DotAccess(
                Box::new(Expr::Variable(loc, name.clone())),
                "unwrap".to_string(),
                Some(Vec::new()),
            ))),
            if is_mutable {
                VariableMutability::Mutable
            } else {
                VariableMutability::Immutable
            },
        );
        let mut then_stmts: Vec<Stmt> = Vec::new();
        then_stmts.push(unwrap_stmt);
        then_stmts.push(Stmt::Expression(Box::new(body), false));
        then_stmts.push(Stmt::Expression(Box::new(Expr::Bool(loc, true)), true));
        let mut else_stmts: Vec<Stmt> = Vec::new();
        else_stmts.push(Stmt::Expression(Box::new(Expr::Bool(loc, false)), true));
        let check = Expr::If(
            Box::new(Expr::DotAccess(
                Box::new(Expr::Variable(loc, name.clone())),
                "is_some".to_string(),
                Some(Vec::new()),
            )),
            Box::new(Expr::Block(loc, then_stmts)),
            Some(Box::new(Expr::Block(loc, else_stmts))),
        );
        let mut condition_stmts: Vec<Stmt> = Vec::new();
        condition_stmts.push(
            Stmt::DefineVariable(
                variable.copy(),
                Some(Box::new(Expr::DotAccess(
                    Box::new(Expr::Variable(loc, name.clone())),
                    "next".to_string(),
                    Some(Vec::new()),
                ))),
                VariableMutability::Immutable,
            ),
        );
        condition_stmts.push(Stmt::Expression(Box::new(check), true));
        let mut outer: Vec<Stmt> = Vec::new();
        outer.push(
            Stmt::DefineVariable(
                variable,
                Some(Box::new(Expr::DotAccess(Box::new(iterator_expr), "into_iter".to_string(), Some(Vec::new())))),
                VariableMutability::Mutable,
            ),
        );
        outer.push(
            Stmt::While(
                Box::new(Expr::Block(body_location, condition_stmts)),
                Box::new(Expr::Block(body_location, Vec::new())),
            ),
        );
        Some(Stmt::Expression(Box::new(Expr::Block(for_location, outer)), false))
    }

    /// `for (initializer; condition; chaser) { body }`, written out as a block holding the
    /// initializer and a `while` loop.
    fn classic_for_statement(&mut self) -> (r: Option<Stmt>)
        requires
            old(self).wf(),
        ensures
            !old(self).panicking && final(self).panicking ==> final(self).spec_errors().len() > old(self).spec_errors().len(),
            r is None ==> old(self).panicking || final(self).panicking || final(self).spec_errors().len() > old(
                self,
            ).spec_errors().len(),
            final(self).wf(),
            old(self).evolves(*final(self)),
            r matches Some(st) ==> (st matches Stmt::Expression(b, kept) && *b is Block && !kept),
        decreases old(self).limit - old(self).current, 6int,
    {
        let start = self.current;
        let initializer = match self.declaration() {
            Some(s) => s,
            None => return None,
        };
        if self.current == start {
            // Only at the end of the tokens does a declaration read nothing.
            self.error(ParseErrorType::UnexpectedEndOfFile);
            return None;
        }
        let condition = match self.expression() {
            Some(e) => e,
            None => return None,
        };
        if self.consume(TokenType::Semicolon, ParseErrorType::MissingSemicolon).is_none() {
            return None;
        }
        let chaser = match self.expression() {
            Some(e) => e,
            None => return None,
        };
        self.try_consume(TokenType::Semicolon);
        if self.consume(TokenType::RightParenthese, ParseErrorType::ExpectedClosingParenthese).is_none() {
            return None;
        }
        let block_start = match self.consume(TokenType::LeftBrace, ParseErrorType::ExpectedBlock) {
            Some(t) => t,
            None => return None,
        };
        let body = match self.block_expression() {
            Some(b) => b,
            None => return None,
        };
        let body_location = body.get_location();
        let mut inner: Vec<Stmt> = Vec::new();
        inner.push(Stmt::Expression(Box::new(body), false));
        inner.push(Stmt::Expression(Box::new(chaser), false));
        let mut outer: Vec<Stmt> = Vec::new();
        outer.push(initializer);
        outer.push(Stmt::While(Box::new(condition), Box::new(Expr::Block(body_location, inner))));
        Some(Stmt::Expression(Box::new(Expr::Block(block_start.location, outer)), false))
    }

    fn while_statement(&mut self) -> (r: Option<Stmt>)
        requires
            old(self).wf(),
        ensures
            !old(self).panicking && final(self).panicking ==> final(self).spec_errors().len() > old(self).spec_errors().len(),
            r is None ==> old(self).panicking || final(self).panicking || final(self).spec_errors().len() > old(
                self,
            ).spec_errors().len(),
            final(self).wf(),
            old(self).evolves(*final(self)),
            r matches Some(st) ==> st is While,
        decreases old(self).limit - old(self).current, 3int,
    {
        let condition = match self.expression() {
            Some(e) => e,
            None => return None,
        };
        if self.consume(TokenType::LeftBrace, ParseErrorType::ExpectedBlock).is_none() {
            return None;
        }
        let body = match self.block_expression() {
            Some(b) => b,
            None => return None,
        };
        Some(Stmt::While(Box::new(condition), Box::new(body)))
    }

    fn loop_statement(&mut self) -> (r: Option<Stmt>)
        requires
            old(self).wf(),
        ensures
            !old(self).panicking && final(self).panicking ==> final(self).spec_errors().len() > old(self).spec_errors().len(),
            r is None ==> old(self).panicking || final(self).panicking || final(self).spec_errors().len() > old(
                self,
            ).spec_errors().len(),
            final(self).wf(),
            old(self).evolves(*final(self)),
            r matches Some(st) ==> st is Loop,
        decreases old(self).limit - old(self).current, 3int,
    {
        if self.consume(TokenType::LeftBrace, ParseErrorType::ExpectedBlock).is_none() {
            return None;
        }
        let body = match self.block_expression() {
            Some(b) => b,
            None => return None,
        };
        Some(Stmt::Loop(Box::new(body)))
    }

    fn if_expression(&mut self) -> (r: Option<Expr>)
        requires
            old(self).wf(),
        ensures
            !old(self).panicking && final(self).panicking ==> final(self).spec_errors().len() > old(self).spec_errors().len(),
            r is None ==> old(self).panicking || final(self).panicking || final(self).spec_errors().len() > old(
                self,
            ).spec_errors().len(),
            final(self).wf(),
            old(self).evolves(*final(self)),
            r matches Some(e) ==> e is If,
        decreases old(self).limit - old(self).current, 3int,
    {
        let condition = match self.expression() {
            Some(e) => e,
            None => return None,
        };
        if self.consume(TokenType::LeftBrace, ParseErrorType::ExpectedBlock).is_none() {
            return None;
        }
        let body = match self.block_expression() {
            Some(b) => b,
            None => return None,
        };
        let else_block = if self.try_consume(TokenType::Else).is_some() {
            if self.try_consume(TokenType::If).is_some() {
                match self.if_expression() {
                    Some(e) => Some(Box::new(e)),
                    None => return None,
                }
            } else {
                if self.consume(TokenType::LeftBrace, ParseErrorType::ExpectedBlock).is_none() {
                    return None;
                }
                match self.block_expression() {
                    Some(e) => Some(Box::new(e)),
                    None => return None,
                }
            }
        } else {
            None
        };
        Some(Expr::If(Box::new(condition), Box::new(body), else_block))
    }

    fn block_expression(&mut self) -> (r: Option<Expr>)
        requires
            old(self).wf(),
        ensures
            !old(self).panicking && final(self).panicking ==> final(self).spec_errors().len() > old(self).spec_errors().len(),
            r is None ==> old(self).panicking || final(self).panicking || final(self).spec_errors().len() > old(
                self,
            ).spec_errors().len(),
            final(self).wf(),
            old(self).evolves(*final(self)),
            r matches Some(Expr::Block(l, _)) && l == (if final(self).cursor() > 0 {
                final(self).spec_tokens()[final(self).cursor() - 1]
            } else {
                final(self).spec_tokens()[0]
            }).location,
            old(self).spec_tokens()[old(self).cursor()].token_type == TokenType::RightBrace ==> (r matches Some(Expr::Block(_, b))
                && b@.len() == 0 && final(self).cursor() == old(self).cursor() + 1),
        decreases old(self).limit - old(self).current, 6int,
    {
        let mut stmts: Vec<Stmt> = Vec::new();
        while self.try_consume(TokenType::RightBrace).is_none() && !self.is_end()
            invariant
                self.wf(),
                old(self).evolves(*self),
                !old(self).panicking && self.panicking ==> self.spec_errors().len() > old(self).spec_errors().len(),
                old(self).spec_tokens()[old(self).cursor()].token_type == TokenType::RightBrace ==> self.cursor() == old(self).cursor()
                    && stmts@.len() == 0,
            decreases self.limit - self.current,
        {
            match self.declaration() {
                Some(s) => {
                    stmts.push(s);
                },
                None => {},
            }
        }
        Some(Expr::Block(self.last().location, stmts))
    }

    fn return_statement(&mut self) -> (r: Option<Stmt>)
        requires
            old(self).wf(),
        ensures
            !old(self).panicking && final(self).panicking ==> final(self).spec_errors().len() > old(self).spec_errors().len(),
            r is None ==> old(self).panicking || final(self).panicking || final(self).spec_errors().len() > old(
                self,
            ).spec_errors().len(),
            final(self).wf(),
            old(self).evolves(*final(self)),
            old(self).spec_tokens()[old(self).cursor()].token_type == TokenType::Semicolon ==> r == Some(
                Stmt::Return(old(self).spec_tokens()[old(self).cursor()].location, None),
            ),
            r matches Some(st) ==> st is Return && final(self).cursor() > 0
                && final(self).spec_tokens()[final(self).cursor() - 1].token_type == TokenType::Semicolon
                && st->Return_0 == final(self).spec_tokens()[final(self).cursor() - 1].location,
        decreases old(self).limit - old(self).current, 3int,
    {
        if self.try_consume(TokenType::Semicolon).is_some() {
            return Some(Stmt::Return(self.last().location, None));
        }
        let expr = match self.expression() {
            Some(e) => Box::new(e),
            None => {
                self.error(ParseErrorType::ExpectedExpression);
                return None;
            },
        };
        if self.consume(TokenType::Semicolon, ParseErrorType::MissingSemicolon).is_none() {
            return None;
        }
        Some(Stmt::Return(self.last().location, Some(expr)))
    }

    fn break_statement(&mut self) -> (r: Option<Stmt>)
        requires
            old(self).wf(),
        ensures
            !old(self).panicking && final(self).panicking ==> final(self).spec_errors().len() > old(self).spec_errors().len(),
            r is None ==> old(self).panicking || final(self).panicking || final(self).spec_errors().len() > old(
                self,
            ).spec_errors().len(),
            final(self).wf(),
            old(self).evolves(*final(self)),
            r is Some <==> old(self).spec_tokens()[old(self).cursor()].token_type == TokenType::Semicolon,
            r is Some ==> r == Some(Stmt::Break(old(self).spec_tokens()[old(self).cursor()].location)),
    {
        if self.consume(TokenType::Semicolon, ParseErrorType::MissingSemicolon).is_none() {
            return None;
        }
        Some(Stmt::Break(self.last().location))
    }

    fn continue_statement(&mut self) -> (r: Option<Stmt>)
        requires
            old(self).wf(),
        ensures
            !old(self).panicking && final(self).panicking ==> final(self).spec_errors().len() > old(self).spec_errors().len(),
            r is None ==> old(self).panicking || final(self).panicking || final(self).spec_errors().len() > old(
                self,
            ).spec_errors().len(),
            final(self).wf(),
            old(self).evolves(*final(self)),
            r is Some <==> old(self).spec_tokens()[old(self).cursor()].token_type == TokenType::Semicolon,
            r is Some ==> r == Some(Stmt::Continue(old(self).spec_tokens()[old(self).cursor()].location)),
    {
        if self.consume(TokenType::Semicolon, ParseErrorType::MissingSemicolon).is_none() {
            return None;
        }
        Some(Stmt::Continue(self.last().location))
    }

    fn expr_statement(&mut self) -> (r: Option<Stmt>)
        requires
            old(self).wf(),
        ensures
            !old(self).panicking && final(self).panicking ==> final(self).spec_errors().len() > old(self).spec_errors().len(),
            r is None ==> old(self).panicking || final(self).panicking || final(self).spec_errors().len() > old(
                self,
            ).spec_errors().len(),
            final(self).wf(),
            old(self).evolves(*final(self)),
            !old(self).at_end() ==> final(self).cursor() > old(self).cursor(),
        decreases old(self).limit - old(self).current, 3int,
    {
        let expr = match self.expression() {
            Some(e) => e,
            None => return None,
        };
        let produces = self.try_consume(TokenType::Semicolon).is_none();
        Some(Stmt::Expression(Box::new(expr), produces))
    }

    fn expression(&mut self) -> (r: Option<Expr>)
        requires
            old(self).wf(),
        ensures
            !old(self).panicking && final(self).panicking ==> final(self).spec_errors().len() > old(self).spec_errors().len(),
            r is None ==> old(self).panicking || final(self).panicking || final(self).spec_errors().len() > old(
                self,
            ).spec_errors().len(),
            final(self).wf(),
            old(self).evolves(*final(self)),
            !old(self).at_end() ==> final(self).cursor() > old(self).cursor(),
            old(self).at_end() ==> r is None,
        decreases old(self).limit - old(self).current, 2int,
    {
        match self.parse_precedence(Precedence::Assignment) {
            Some(e) => Some(e),
            None => {
                self.error(ParseErrorType::ExpectedExpression);
                None
            },
        }
    }

    fn is_end(&self) -> (b: bool)
        requires
            self.wf(),
        ensures
            b == self.at_end(),
    {
        self.tokens[self.current].token_type == TokenType::Eof
    }

    /// Reads an expression whose operators bind more tightly than `precedence`.
    fn parse_precedence(&mut self, precedence: Precedence) -> (r: Option<Expr>)
        requires
            old(self).wf(),
        ensures
            !old(self).panicking && final(self).panicking ==> final(self).spec_errors().len() > old(self).spec_errors().len(),
            r is None ==> old(self).panicking || final(self).panicking || final(self).spec_errors().len() > old(
                self,
            ).spec_errors().len(),
            final(self).wf(),
            old(self).evolves(*final(self)),
            !old(self).at_end() ==> final(self).cursor() > old(self).cursor(),
            old(self).at_end() ==> r is None,
        decreases old(self).limit - old(self).current, 1int,
    {
        if self.is_end() {
            self.panicking = true;
            let t = self.tokens[self.current].copy();
            self.parse_errors.push(ParseError::new(t, ParseErrorType::UnexpectedEndOfFile));
            return None;
        }
        let (prefix, _, _) = self.tokens[self.current].token_type.rule();
        let mut left = match prefix {
            Some(rule) => {
                self.advance();
                match self.prefix(rule) {
                    Some(e) => e,
                    None => return None,
                }
            },
            None => {
                self.error(ParseErrorType::UnexpectedToken);
                self.advance();
                return None;
            },
        };
        while !self.is_end()
            invariant
                self.wf(),
                old(self).evolves(*self),
                !old(self).panicking && self.panicking ==> self.spec_errors().len() > old(self).spec_errors().len(),
                old(self).cursor() < self.cursor(),
            decreases self.limit - self.current,
        {
            let (_, infix, token_precedence) = self.tokens[self.current].token_type.rule();
            if token_precedence.rank() <= precedence.rank() {
                break;
            }
            let rule = match infix {
                Some(rule) => rule,
                None => break,
            };
            self.advance();
            left = match self.infix(rule, left) {
                Some(e) => e,
                None => return None,
            };
        }
        Some(left)
    }

    /// Runs a prefix rule; the token that starts it has been read.
    fn prefix(&mut self, rule: PrefixRule) -> (r: Option<Expr>)
        requires
            old(self).wf(),
            old(self).cursor() > 0,
            spec_rule(old(self).spec_tokens()[old(self).cursor() - 1].token_type).0 == Some(rule),
        ensures
            !old(self).panicking && final(self).panicking ==> final(self).spec_errors().len() > old(self).spec_errors().len(),
            r is None ==> old(self).panicking || final(self).panicking || final(self).spec_errors().len() > old(
                self,
            ).spec_errors().len(),
            final(self).wf(),
            old(self).evolves(*final(self)),
            (rule is Unary ==> (r matches Some(e) ==> e is Unary))
                && (rule is Float ==> (r matches Some(e) && e is Float))
                && (rule is String ==> (r matches Some(e) && e is String))
                && (rule is Bool ==> (r matches Some(e) && e is Bool))
                && (rule is Variable ==> (r matches Some(e) && e is Variable))
                && (rule is Block ==> (r matches Some(e) && e is Block))
                && (rule is Array ==> (r matches Some(e) ==> e is Array))
                && (rule is If ==> (r matches Some(e) ==> e is If)),
        decreases old(self).limit - old(self).current, 7int,
    {
        match rule {
            PrefixRule::Unary => self.unary(),
            PrefixRule::Integer => self.integer(),
            PrefixRule::Float => self.float(),
            PrefixRule::String => self.string(),
            PrefixRule::Bool => self.bool(),
            PrefixRule::Variable => self.variable(),
            PrefixRule::Grouping => self.grouping(),
            PrefixRule::Block => self.block_expression(),
            PrefixRule::Array => self.array(),
            PrefixRule::If => self.if_expression(),
        }
    }

    /// Runs an infix rule on what was read so far; its token has been read.
    fn infix(&mut self, rule: InfixRule, left: Expr) -> (r: Option<Expr>)
        requires
            old(self).wf(),
            old(self).cursor() > 0,
        ensures
            !old(self).panicking && final(self).panicking ==> final(self).spec_errors().len() > old(self).spec_errors().len(),
            r is None ==> old(self).panicking || final(self).panicking || final(self).spec_errors().len() > old(
                self,
            ).spec_errors().len(),
            final(self).wf(),
            old(self).evolves(*final(self)),
            (rule is Logical ==> (r matches Some(e) ==> (e matches Expr::Condition(b, _, _) && *b == left)))
                && (rule is Binary ==> (r matches Some(e) ==> (e matches Expr::Binary(b, _, _) && *b == left)))
                && (rule is Call ==> (r matches Some(e) ==> (e matches Expr::Call(b, _) && *b == left)))
                && (rule is MethodCall ==> (r matches Some(e) ==> (e matches Expr::DotAccess(b, _, _) && *b == left)))
                && (rule is QualifiedAccess ==> (r matches Some(e) ==> e is QualifiedAccess))
                && (rule is Assign ==> (r matches Some(e) ==> (e matches Expr::Assign(b, _, _) && *b == left)))
                && (rule is Index ==> (r matches Some(e) ==> (e matches Expr::Index(b, _) && *b == left))),
        decreases old(self).limit - old(self).current, 7int,
    {
        match rule {
            InfixRule::Logical => self.logical(left),
            InfixRule::Binary => self.binary(left),
            InfixRule::Call => self.call(left),
            InfixRule::MethodCall => self.method_call(left),
            InfixRule::QualifiedAccess => self.qualified_access(left),
            InfixRule::Assign => self.assign(left),
            InfixRule::Index => self.index(left),
        }
    }

    fn call(&mut self, callee: Expr) -> (r: Option<Expr>)
        requires
            old(self).wf(),
        ensures
            !old(self).panicking && final(self).panicking ==> final(self).spec_errors().len() > old(self).spec_errors().len(),
            r is None ==> old(self).panicking || final(self).panicking || final(self).spec_errors().len() > old(
                self,
            ).spec_errors().len(),
            final(self).wf(),
            old(self).evolves(*final(self)),
            r matches Some(e) ==> (e matches Expr::Call(b, _) && *b == callee),
        decreases old(self).limit - old(self).current, 2int,
    {
        if self.try_consume(TokenType::RightParenthese).is_some() {
            return Some(Expr::Call(Box::new(callee), Vec::new()));
        }
        let mut params: Vec<Box<Expr>> = Vec::new();
        loop
            invariant
                self.wf(),
                old(self).evolves(*self),
                !old(self).panicking && self.panicking ==> self.spec_errors().len() > old(self).spec_errors().len(),
            decreases self.limit - self.current,
        {
            match self.parse_precedence(Precedence::Assignment) {
                Some(e) => params.push(Box::new(e)),
                None => return None,
            }
            if self.try_consume(TokenType::RightParenthese).is_some() {
                return Some(Expr::Call(Box::new(callee), params));
            }
            if self.consume(TokenType::Comma, ParseErrorType::ExpectedComma).is_none() {
                return None;
            }
        }
    }

    fn qualified_access(&mut self, left: Expr) -> (r: Option<Expr>)
        requires
            old(self).wf(),
        ensures
            !old(self).panicking && final(self).panicking ==> final(self).spec_errors().len() > old(self).spec_errors().len(),
            r is None ==> old(self).panicking || final(self).panicking || final(self).spec_errors().len() > old(
                self,
            ).spec_errors().len(),
            final(self).wf(),
            old(self).evolves(*final(self)),
            r matches Some(e) ==> e is QualifiedAccess,
    {
        let (location, namespace) = match left {
            Expr::Variable(l, n) => (l, n),
            _ => {
                self.error(ParseErrorType::UnexpectedToken);
                return None;
            },
        };
        let identifier = match self.consume(TokenType::Identifier, ParseErrorType::ExpectedIdentifier) {
            Some(t) => t,
            None => return None,
        };
        Some(Expr::QualifiedAccess(location, namespace, identifier.lexeme))
    }

    fn method_call(&mut self, receiver: Expr) -> (r: Option<Expr>)
        requires
            old(self).wf(),
        ensures
            !old(self).panicking && final(self).panicking ==> final(self).spec_errors().len() > old(self).spec_errors().len(),
            r is None ==> old(self).panicking || final(self).panicking || final(self).spec_errors().len() > old(
                self,
            ).spec_errors().len(),
            final(self).wf(),
            old(self).evolves(*final(self)),
            r matches Some(e) ==> (e matches Expr::DotAccess(b, _, _) && *b == receiver),
        decreases old(self).limit - old(self).current, 2int,
    {
        let name_token = match self.consume(TokenType::Identifier, ParseErrorType::ExpectedIdentifier) {
            Some(t) => t,
            None => return None,
        };
        let name = name_token.lexeme;
        let args = if self.try_consume(TokenType::LeftParenthese).is_some() {
            if self.try_consume(TokenType::RightParenthese).is_some() {
                Some(Vec::new())
            } else {
                let mut args: Vec<Box<Expr>> = Vec::new();
                loop
                    invariant
                        self.wf(),
                        old(self).evolves(*self),
                        !old(self).panicking && self.panicking ==> self.spec_errors().len() > old(self).spec_errors().len(),
                    decreases self.limit - self.current,
                {
                    match self.parse_precedence(Precedence::Assignment) {
                        Some(e) => args.push(Box::new(e)),
                        None => return None,
                    }
                    if self.try_consume(TokenType::RightParenthese).is_some() {
                        break;
                    }
                    if self.consume(TokenType::Comma, ParseErrorType::ExpectedComma).is_none() {
                        return None;
                    }
                }
                Some(args)
            }
        } else {
            None
        };
        Some(Expr::DotAccess(Box::new(receiver), name, args))
    }

    fn grouping(&mut self) -> (r: Option<Expr>)
        requires
            old(self).wf(),
        ensures
            !old(self).panicking && final(self).panicking ==> final(self).spec_errors().len() > old(self).spec_errors().len(),
            r is None ==> old(self).panicking || final(self).panicking || final(self).spec_errors().len() > old(
                self,
            ).spec_errors().len(),
            final(self).wf(),
            old(self).evolves(*final(self)),
            r is Some ==> final(self).cursor() > 0 && final(self).spec_tokens()[final(self).cursor() - 1].token_type == TokenType::RightParenthese,
        decreases old(self).limit - old(self).current, 2int,
    {
        let expr = match self.parse_precedence(Precedence::Assignment) {
            Some(e) => e,
            None => return None,
        };
        if self.consume(TokenType::RightParenthese, ParseErrorType::ExpectedClosingParenthese).is_none() {
            return None;
        }
        Some(expr)
    }

    fn logical(&mut self, left: Expr) -> (r: Option<Expr>)
        requires
            old(self).wf(),
            old(self).cursor() > 0,
        ensures
            !old(self).panicking && final(self).panicking ==> final(self).spec_errors().len() > old(self).spec_errors().len(),
            r is None ==> old(self).panicking || final(self).panicking || final(self).spec_errors().len() > old(
                self,
            ).spec_errors().len(),
            final(self).wf(),
            old(self).evolves(*final(self)),
            r matches Some(e) ==> (e matches Expr::Condition(b, _, _) && *b == left),
        decreases old(self).limit - old(self).current, 2int,
    {
        let token_type = self.last().token_type;
        let (_, _, precedence) = token_type.rule();
        let right = match self.parse_precedence(precedence) {
            Some(e) => e,
            None => {
                self.error(ParseErrorType::ExpectedCondition);
                return None;
            },
        };
        let op = if token_type == TokenType::And {
            LogicalOp::And
        } else {
            LogicalOp::Or
        };
        Some(Expr::Condition(Box::new(left), op, Box::new(right)))
    }

    fn binary(&mut self, left: Expr) -> (r: Option<Expr>)
        requires
            old(self).wf(),
            old(self).cursor() > 0,
        ensures
            !old(self).panicking && final(self).panicking ==> final(self).spec_errors().len() > old(self).spec_errors().len(),
            r is None ==> old(self).panicking || final(self).panicking || final(self).spec_errors().len() > old(
                self,
            ).spec_errors().len(),
            final(self).wf(),
            old(self).evolves(*final(self)),
            r matches Some(e) ==> (e matches Expr::Binary(b, _, _) && *b == left),
            r matches Some(Expr::Binary(_, op, _)) ==> token_text(old(self).spec_tokens()[old(self).cursor() - 1].token_type)
                == Some(binary_text(op)),
        decreases old(self).limit - old(self).current, 2int,
    {
        let token_type = self.last().token_type;
        let (_, _, precedence) = token_type.rule();
        let right = match self.parse_precedence(precedence) {
            Some(e) => e,
            None => {
                self.error(ParseErrorType::ExpectedExpression);
                return None;
            },
        };
        let op = match token_type {
            TokenType::Minus => BinaryOp::Minus,
            TokenType::Plus => BinaryOp::Plus,
            TokenType::Slash => BinaryOp::Divide,
            TokenType::Star => BinaryOp::Multiply,
            TokenType::Percent => BinaryOp::Remainder,
            TokenType::BangEqual => BinaryOp::BangEqual,
            TokenType::EqualEqual => BinaryOp::EqualEqual,
            TokenType::Greater => BinaryOp::Greater,
            TokenType::GreaterEqual => BinaryOp::GreaterEqual,
            TokenType::Less => BinaryOp::Less,
            TokenType::LessEqual => BinaryOp::LessEqual,
            TokenType::DotDot => BinaryOp::Range(false),
            TokenType::DotDotEqual => BinaryOp::Range(true),
            TokenType::BinaryAnd => BinaryOp::BitAnd,
            TokenType::BinaryOr => BinaryOp::BitOr,
            TokenType::BinaryXor => BinaryOp::BitXor,
            TokenType::ShiftLeft => BinaryOp::ShiftLeft,
            TokenType::ShiftRight => BinaryOp::ShiftRight,
            other => {
                self.error(ParseErrorType::InvalidOperator(other));
                return None;
            },
        };
        Some(Expr::Binary(Box::new(left), op, Box::new(right)))
    }

    fn assign(&mut self, left: Expr) -> (r: Option<Expr>)
        requires
            old(self).wf(),
            old(self).cursor() > 0,
        ensures
            !old(self).panicking && final(self).panicking ==> final(self).spec_errors().len() > old(self).spec_errors().len(),
            r is None ==> old(self).panicking || final(self).panicking || final(self).spec_errors().len() > old(
                self,
            ).spec_errors().len(),
            final(self).wf(),
            old(self).evolves(*final(self)),
            r matches Some(e) ==> (e matches Expr::Assign(b, _, _) && *b == left),
            r matches Some(Expr::Assign(_, op, _)) ==> token_text(old(self).spec_tokens()[old(self).cursor() - 1].token_type)
                == Some(assign_text(op)),
        decreases old(self).limit - old(self).current, 2int,
    {
        let token_type = self.last().token_type;
        let right = match self.parse_precedence(Precedence::Assignment) {
            Some(e) => e,
            None => {
                self.error(ParseErrorType::ExpectedExpression);
                return None;
            },
        };
        let op = match token_type {
            TokenType::Equal => AssignmentOp::Equal,
            TokenType::PlusEqual => AssignmentOp::PlusEqual,
            TokenType::MinusEqual => AssignmentOp::MinusEqual,
            TokenType::StarEqual => AssignmentOp::MultiplyEqual,
            TokenType::SlashEqual => AssignmentOp::DivideEqual,
            TokenType::PercentEqual => AssignmentOp::RemainderEqual,
            TokenType::BinaryAndEqual => AssignmentOp::BitAndEqual,
            TokenType::BinaryOrEqual => AssignmentOp::BitOrEqual,
            TokenType::BinaryXorEqual => AssignmentOp::BitXorEqual,
            other => {
                self.error(ParseErrorType::InvalidOperator(other));
                return None;
            },
        };
        Some(Expr::Assign(Box::new(left), op, Box::new(right)))
    }

    fn unary(&mut self) -> (r: Option<Expr>)
        requires
            old(self).wf(),
            old(self).cursor() > 0,
            spec_rule(old(self).spec_tokens()[old(self).cursor() - 1].token_type).0 == Some(PrefixRule::Unary),
        ensures
            !old(self).panicking && final(self).panicking ==> final(self).spec_errors().len() > old(self).spec_errors().len(),
            r is None ==> old(self).panicking || final(self).panicking || final(self).spec_errors().len() > old(
                self,
            ).spec_errors().len(),
            final(self).wf(),
            old(self).evolves(*final(self)),
            r matches Some(e) ==> e is Unary,
            r matches Some(Expr::Unary(op, _)) ==> token_text(old(self).spec_tokens()[old(self).cursor() - 1].token_type)
                == Some(unary_text(op)),
        decreases old(self).limit - old(self).current, 2int,
    {
        let token_type = self.last().token_type;
        let operand = match self.parse_precedence(Precedence::Unary) {
            Some(e) => e,
            None => {
                self.error(ParseErrorType::ExpectedExpression);
                return None;
            },
        };
        let op = match token_type {
            TokenType::Minus => UnaryOp::Negate,
            TokenType::Bang => UnaryOp::Invert,
            TokenType::DotDot => UnaryOp::Range(false),
            _ => UnaryOp::Range(true),
        };
        Some(Expr::Unary(op, Box::new(operand)))
    }

    fn integer(&self) -> (r: Option<Expr>)
        requires
            self.wf(),
            self.cursor() > 0,
        ensures
            self.spec_tokens()[self.cursor() - 1].token_type == TokenType::Integer ==> (r matches Some(
                Expr::Integer(_, v),
            ) && v == digits_value(self.spec_tokens()[self.cursor() - 1].lexeme@)),
    {
        let token = &self.tokens[self.current - 1];
        if token.token_type == TokenType::Integer {
            Some(Expr::Integer(token.location, parse_integer(token.lexeme.as_str())))
        } else {
            None
        }
    }

    fn float(&self) -> (r: Option<Expr>)
        requires
            self.wf(),
            self.cursor() > 0,
        ensures
            r matches Some(Expr::Float(l, v)) && l == self.spec_tokens()[self.cursor() - 1].location && v@ == without_underscores(self.spec_tokens()[self.cursor() - 1].lexeme@),
    {
        let token = &self.tokens[self.current - 1];
        Some(Expr::Float(token.location, strip_underscores(token.lexeme.as_str())))
    }

    fn bool(&self) -> (r: Option<Expr>)
        requires
            self.wf(),
            self.cursor() > 0,
        ensures
            r matches Some(Expr::Bool(l, v)) && l == self.spec_tokens()[self.cursor() - 1].location && v == (self.spec_tokens()[self.cursor() - 1].token_type == TokenType::True),
    {
        let token = &self.tokens[self.current - 1];
        Some(Expr::Bool(token.location, token.token_type == TokenType::True))
    }

    fn string(&self) -> (r: Option<Expr>)
        requires
            self.wf(),
            self.cursor() > 0,
        ensures
            r matches Some(Expr::String(l, v)) && l == self.spec_tokens()[self.cursor() - 1].location && v@ == self.spec_tokens()[self.cursor() - 1].lexeme@,
    {
        let token = &self.tokens[self.current - 1];
        Some(Expr::String(token.location, token.lexeme.clone()))
    }

    fn variable(&self) -> (r: Option<Expr>)
        requires
            self.wf(),
            self.cursor() > 0,
        ensures
            r matches Some(Expr::Variable(l, v)) && l == self.spec_tokens()[self.cursor() - 1].location && v@ == self.spec_tokens()[self.cursor() - 1].lexeme@,
    {
        let token = &self.tokens[self.current - 1];
        Some(Expr::Variable(token.location, token.lexeme.clone()))
    }

    fn array(&mut self) -> (r: Option<Expr>)
        requires
            old(self).wf(),
            old(self).cursor() > 0,
        ensures
            !old(self).panicking && final(self).panicking ==> final(self).spec_errors().len() > old(self).spec_errors().len(),
            r is None ==> old(self).panicking || final(self).panicking || final(self).spec_errors().len() > old(
                self,
            ).spec_errors().len(),
            final(self).wf(),
            old(self).evolves(*final(self)),
            r matches Some(e) ==> e is Array,
        decreases old(self).limit - old(self).current, 2int,
    {
        let location = self.last().location;
        let mut params: Vec<Expr> = Vec::new();
        loop
            invariant
                self.wf(),
                old(self).evolves(*self),
                !old(self).panicking && self.panicking ==> self.spec_errors().len() > old(self).spec_errors().len(),
            decreases self.limit - self.current,
        {
            if self.tokens[self.current].token_type == TokenType::RightSquare {
                break;
            }
            match self.parse_precedence(Precedence::Assignment) {
                Some(e) => params.push(e),
                None => return None,
            }
            if self.try_consume(TokenType::Comma).is_none() {
                break;
            }
        }
        if self.consume(TokenType::RightSquare, ParseErrorType::ExpectedClosingSquareBracket).is_none() {
            return None;
        }
        Some(Expr::Array(location, params))
    }

    fn index(&mut self, callee: Expr) -> (r: Option<Expr>)
        requires
            old(self).wf(),
        ensures
            !old(self).panicking && final(self).panicking ==> final(self).spec_errors().len() > old(self).spec_errors().len(),
            r is None ==> old(self).panicking || final(self).panicking || final(self).spec_errors().len() > old(
                self,
            ).spec_errors().len(),
            final(self).wf(),
            old(self).evolves(*final(self)),
            r matches Some(e) ==> (e matches Expr::Index(b, _) && *b == callee),
        decreases old(self).limit - old(self).current, 2int,
    {
        let index_value = match self.parse_precedence(Precedence::Assignment) {
            Some(e) => e,
            None => return None,
        };
        if self.consume(TokenType::RightSquare, ParseErrorType::ExpectedClosingSquareBracket).is_none() {
            return None;
        }
        Some(Expr::Index(Box::new(callee), Box::new(index_value)))
    }

    /// Records an error at the next token, unless one was recorded since the last
    /// statement boundary.
    fn error(&mut self, error: ParseErrorType)
        requires
            old(self).wf(),
        ensures
            !old(self).panicking && final(self).panicking ==> final(self).spec_errors().len() > old(self).spec_errors().len(),
            final(self).wf(),
            old(self).evolves(*final(self)),
            final(self).cursor() == old(self).cursor(),
            final(self).panicking,
            old(self).panicking ==> final(self).spec_errors() == old(self).spec_errors(),
            !old(self).panicking ==> final(self).spec_errors() == old(self).spec_errors().push(
                ParseError { token: old(self).spec_tokens()[old(self).cursor()], error },
            ),
    {
        if self.panicking {
            return;
        }
        self.panicking = true;
        let t = self.tokens[self.current].copy();
        self.parse_errors.push(ParseError::new(t, error));
    }

    /// Reads a token of the given type, or records `error`.
    fn consume(&mut self, token_type: TokenType, error: ParseErrorType) -> (r: Option<Token>)
        requires
            old(self).wf(),
            token_type != TokenType::Eof,
        ensures
            !old(self).panicking && final(self).panicking ==> final(self).spec_errors().len() > old(self).spec_errors().len(),
            r is None ==> old(self).panicking || final(self).panicking || final(self).spec_errors().len() > old(
                self,
            ).spec_errors().len(),
            final(self).wf(),
            old(self).evolves(*final(self)),
            r is Some <==> old(self).spec_tokens()[old(self).cursor()].token_type == token_type,
            r matches Some(t) ==> t == old(self).spec_tokens()[old(self).cursor()] && final(self).cursor()
                == old(self).cursor() + 1,
            r is None ==> final(self).cursor() == old(self).cursor(),
    {
        match self.try_consume(token_type) {
            Some(t) => Some(t),
            None => {
                self.error(error);
                None
            },
        }
    }

    /// The token before the next one.
    fn last(&self) -> (t: Token)
        requires
            self.wf(),
        ensures
            self.cursor() > 0 ==> t == self.spec_tokens()[self.cursor() - 1],
            self.cursor() == 0 ==> t == self.spec_tokens()[0],
    {
        if self.current == 0 {
            self.tokens[0].copy()
        } else {
            self.tokens[self.current - 1].copy()
        }
    }

    /// Moves to the next token.
    fn advance(&mut self)
        requires
            old(self).wf(),
            !old(self).at_end(),
        ensures
            !old(self).panicking && final(self).panicking ==> final(self).spec_errors().len() > old(self).spec_errors().len(),
            final(self).wf(),
            old(self).evolves(*final(self)),
            final(self).cursor() == old(self).cursor() + 1,
            final(self).spec_errors() == old(self).spec_errors(),
            final(self).panicking == old(self).panicking,
    {
        self.current = self.current + 1;
    }

    /// Reads the next token if it has the given type.
    fn try_consume(&mut self, expected: TokenType) -> (r: Option<Token>)
        requires
            old(self).wf(),
            expected != TokenType::Eof,
        ensures
            !old(self).panicking && final(self).panicking ==> final(self).spec_errors().len() > old(self).spec_errors().len(),
            final(self).wf(),
            old(self).evolves(*final(self)),
            final(self).spec_errors() == old(self).spec_errors(),
            final(self).panicking == old(self).panicking,
            r is Some <==> old(self).spec_tokens()[old(self).cursor()].token_type == expected,
            r matches Some(t) ==> t == old(self).spec_tokens()[old(self).cursor()] && final(self).cursor()
                == old(self).cursor() + 1,
            r is None ==> *final(self) == *old(self),
    {
        if self.tokens[self.current].token_type == expected {
            let t = self.tokens[self.current].copy();
            self.current = self.current + 1;
            Some(t)
        } else {
            None
        }
    }

    pub fn errors(&self) -> (e: &[ParseError])
        ensures
            e@ == self.spec_errors(),
    {
        self.parse_errors.as_slice()
    }

    /// The statements read, if no error was found.
    pub fn get(&self) -> (s: Option<&[Stmt]>)
        ensures
            s is Some <==> self.spec_errors().len() == 0,
            s matches Some(v) ==> v@ == self.spec_statements(),
    {
        if self.parse_errors.len() == 0 {
            Some(self.statements.as_slice())
        } else {
            None
        }
    }

    /// Takes the statements read, if no error was found.
    pub fn take(&mut self) -> (s: Option<Vec<Stmt>>)
        ensures
            s is Some <==> old(self).spec_errors().len() == 0,
            s matches Some(v) ==> v@ == old(self).spec_statements(),
    {
        if self.parse_errors.len() == 0 {
            let mut out: Vec<Stmt> = Vec::new();
            std::mem::swap(&mut out, &mut self.statements);
            Some(out)
        } else {
            None
        }
    }
}

/// The tokens at which recovery from an error stops skipping.
pub open spec fn spec_is_sync_token(t: TokenType) -> bool {
    t == TokenType::Semicolon || t == TokenType::If || t == TokenType::While || t == TokenType::Fn
        || t == TokenType::Return || t == TokenType::Let || t == TokenType::Struct || t
        == TokenType::Import || t == TokenType::DocComment || t == TokenType::Eof
}

fn is_sync_token(t: TokenType) -> (b: bool)
    ensures
        b == spec_is_sync_token(t),
{
    match t {
        TokenType::Semicolon | TokenType::If | TokenType::While | TokenType::Fn | TokenType::Return
        | TokenType::Let | TokenType::Struct | TokenType::Import | TokenType::DocComment
        | TokenType::Eof => true,
        _ => false,
    }
}


/// The text of a unary operator, as scripts write it.
pub open spec fn unary_text(op: UnaryOp) -> Seq<char> {
    match op {
        UnaryOp::Negate => seq!['-'],
        UnaryOp::Invert => seq!['!'],
        UnaryOp::Range(inclusive) => if inclusive { seq!['.', '.', '='] } else { seq!['.', '.'] },
    }
}

/// The text of a binary operator, as scripts write it.
pub open spec fn binary_text(op: BinaryOp) -> Seq<char> {
    match op {
        BinaryOp::Plus => seq!['+'],
        BinaryOp::Minus => seq!['-'],
        BinaryOp::Multiply => seq!['*'],
        BinaryOp::Divide => seq!['/'],
        BinaryOp::Remainder => seq!['%'],
        BinaryOp::Greater => seq!['>'],
        BinaryOp::GreaterEqual => seq!['>', '='],
        BinaryOp::Less => seq!['<'],
        BinaryOp::LessEqual => seq!['<', '='],
        BinaryOp::EqualEqual => seq!['=', '='],
        BinaryOp::BangEqual => seq!['!', '='],
        BinaryOp::BitAnd => seq!['&'],
        BinaryOp::BitOr => seq!['|'],
        BinaryOp::BitXor => seq!['^'],
        BinaryOp::ShiftLeft => seq!['<', '<'],
        BinaryOp::ShiftRight => seq!['>', '>'],
        BinaryOp::Range(inclusive) => if inclusive { seq!['.', '.', '='] } else { seq!['.', '.'] },
    }
}

/// How tightly a binary operator binds: products before sums, sums before ranges, then
/// shifts, the bit operators, comparisons and equality.
pub open spec fn binary_precedence(op: BinaryOp) -> Precedence {
    match op {
        BinaryOp::Multiply | BinaryOp::Divide | BinaryOp::Remainder => Precedence::Factor,
        BinaryOp::Plus | BinaryOp::Minus => Precedence::Term,
        BinaryOp::Range(_) => Precedence::Range,
        BinaryOp::ShiftLeft | BinaryOp::ShiftRight => Precedence::Shift,
        BinaryOp::BitAnd => Precedence::BitAnd,
        BinaryOp::BitXor => Precedence::BitXor,
        BinaryOp::BitOr => Precedence::BitOr,
        BinaryOp::Greater | BinaryOp::GreaterEqual | BinaryOp::Less | BinaryOp::LessEqual => Precedence::Comparison,
        BinaryOp::EqualEqual | BinaryOp::BangEqual => Precedence::Equality,
    }
}

/// A token read as a binary operator binds as tightly as that operator does: the token
/// whose text is `%` binds like `*` and `/`, more tightly than `+` and `-`, so
/// `a + b % c` groups as `a + (b % c)`; and so on down the levels.
pub proof fn law_binary_precedence(t: TokenType, op: BinaryOp)
    requires
        spec_rule(t).1 == Some(InfixRule::Binary),
        token_text(t) == Some(binary_text(op)),
    ensures
        spec_rule(t).2 == binary_precedence(op),
        spec_rank(Precedence::Factor) > spec_rank(Precedence::Term) > spec_rank(Precedence::Range) > spec_rank(
            Precedence::Shift,
        ) > spec_rank(Precedence::BitAnd) > spec_rank(Precedence::BitXor) > spec_rank(Precedence::BitOr)
            > spec_rank(Precedence::Comparison) > spec_rank(Precedence::Equality),
{
    let text = binary_text(op);
    assert(text == token_text(t)->0);
    assert(text[0] == token_text(t)->0[0]);
    if text.len() > 1 {
        assert(text[1] == token_text(t)->0[1]);
    }
    if text.len() > 2 {
        assert(text[2] == token_text(t)->0[2]);
    }
}

/// Every token read as an assignment names an assignment operator by its text: `%=` is the
/// remainder assignment, `+=` the sum, and so on.
pub proof fn law_assignment_tokens_name_operators(t: TokenType)
    requires
        spec_rule(t).1 == Some(InfixRule::Assign),
    ensures
        exists|op: AssignmentOp| token_text(t) == Some(#[trigger] assign_text(op)),
{
    match t {
        TokenType::Equal => assert(token_text(t) == Some(assign_text(AssignmentOp::Equal))),
        TokenType::PlusEqual => assert(token_text(t) == Some(assign_text(AssignmentOp::PlusEqual))),
        TokenType::MinusEqual => assert(token_text(t) == Some(assign_text(AssignmentOp::MinusEqual))),
        TokenType::StarEqual => assert(token_text(t) == Some(assign_text(AssignmentOp::MultiplyEqual))),
        TokenType::SlashEqual => assert(token_text(t) == Some(assign_text(AssignmentOp::DivideEqual))),
        TokenType::PercentEqual => assert(token_text(t) == Some(assign_text(AssignmentOp::RemainderEqual))),
        TokenType::BinaryAndEqual => assert(token_text(t) == Some(assign_text(AssignmentOp::BitAndEqual))),
        TokenType::BinaryOrEqual => assert(token_text(t) == Some(assign_text(AssignmentOp::BitOrEqual))),
        TokenType::BinaryXorEqual => assert(token_text(t) == Some(assign_text(AssignmentOp::BitXorEqual))),
        _ => {},
    }
}

/// A compound assignment is its base operator followed by `=`: `%=` applies `%`, `+=`
/// applies `+`, and so on; the base operator of a compound assignment is a binary operator.
pub proof fn law_compound_assignment_applies_its_base(op: AssignmentOp)
    ensures
        assign_text(op) == spec_base_op(op) + seq!['='],
        op != AssignmentOp::Equal ==> exists|b: BinaryOp| binary_text(b) == #[trigger] spec_base_op(op),
{
    assert(assign_text(op) =~= spec_base_op(op) + seq!['=']);
    match op {
        AssignmentOp::PlusEqual => assert(binary_text(BinaryOp::Plus) == spec_base_op(op)),
        AssignmentOp::MinusEqual => assert(binary_text(BinaryOp::Minus) == spec_base_op(op)),
        AssignmentOp::MultiplyEqual => assert(binary_text(BinaryOp::Multiply) == spec_base_op(op)),
        AssignmentOp::DivideEqual => assert(binary_text(BinaryOp::Divide) == spec_base_op(op)),
        AssignmentOp::RemainderEqual => assert(binary_text(BinaryOp::Remainder) == spec_base_op(op)),
        AssignmentOp::BitAndEqual => assert(binary_text(BinaryOp::BitAnd) == spec_base_op(op)),
        AssignmentOp::BitOrEqual => assert(binary_text(BinaryOp::BitOr) == spec_base_op(op)),
        AssignmentOp::BitXorEqual => assert(binary_text(BinaryOp::BitXor) == spec_base_op(op)),
        AssignmentOp::Equal => {},
    }
}

/// The text of an assignment operator, as scripts write it.
pub open spec fn assign_text(op: AssignmentOp) -> Seq<char> {
    match op {
        AssignmentOp::Equal => seq!['='],
        AssignmentOp::PlusEqual => seq!['+', '='],
        AssignmentOp::MinusEqual => seq!['-', '='],
        AssignmentOp::MultiplyEqual => seq!['*', '='],
        AssignmentOp::DivideEqual => seq!['/', '='],
        AssignmentOp::RemainderEqual => seq!['%', '='],
        AssignmentOp::BitAndEqual => seq!['&', '='],
        AssignmentOp::BitOrEqual => seq!['|', '='],
        AssignmentOp::BitXorEqual => seq!['^', '='],
    }
}

/// The name of a unary operator's variant.
pub open spec fn unary_name(op: UnaryOp) -> Seq<char> {
    match op {
        UnaryOp::Negate => "Negate"@,
        UnaryOp::Invert => "Invert"@,
        UnaryOp::Range(inclusive) => if inclusive { "Range(true)"@ } else { "Range(false)"@ },
    }
}

/// The name of a binary operator's variant.
pub open spec fn binary_name(op: BinaryOp) -> Seq<char> {
    match op {
        BinaryOp::Plus => "Plus"@,
        BinaryOp::Minus => "Minus"@,
        BinaryOp::Multiply => "Multiply"@,
        BinaryOp::Divide => "Divide"@,
        BinaryOp::Remainder => "Remainder"@,
        BinaryOp::Greater => "Greater"@,
        BinaryOp::GreaterEqual => "GreaterEqual"@,
        BinaryOp::Less => "Less"@,
        BinaryOp::LessEqual => "LessEqual"@,
        BinaryOp::EqualEqual => "EqualEqual"@,
        BinaryOp::BangEqual => "BangEqual"@,
        BinaryOp::BitAnd => "BitAnd"@,
        BinaryOp::BitOr => "BitOr"@,
        BinaryOp::BitXor => "BitXor"@,
        BinaryOp::ShiftLeft => "ShiftLeft"@,
        BinaryOp::ShiftRight => "ShiftRight"@,
        BinaryOp::Range(inclusive) => if inclusive { "Range(true)"@ } else { "Range(false)"@ },
    }
}

/// The name of an assignment operator's variant.
pub open spec fn assign_name(op: AssignmentOp) -> Seq<char> {
    match op {
        AssignmentOp::Equal => "Equal"@,
        AssignmentOp::PlusEqual => "PlusEqual"@,
        AssignmentOp::MinusEqual => "MinusEqual"@,
        AssignmentOp::MultiplyEqual => "MultiplyEqual"@,
        AssignmentOp::DivideEqual => "DivideEqual"@,
        AssignmentOp::RemainderEqual => "RemainderEqual"@,
        AssignmentOp::BitAndEqual => "BitAndEqual"@,
        AssignmentOp::BitOrEqual => "BitOrEqual"@,
        AssignmentOp::BitXorEqual => "BitXorEqual"@,
    }
}

impl UnaryOp {
    /// The name of this operator's variant.
    pub fn name(&self) -> (s: &'static str)
        ensures
            s@ == unary_name(*self),
    {
        match self {
            UnaryOp::Negate => "Negate",
            UnaryOp::Invert => "Invert",
            UnaryOp::Range(inclusive) => if *inclusive { "Range(true)" } else { "Range(false)" },
        }
    }
}

impl BinaryOp {
    /// The name of this operator's variant.
    pub fn name(&self) -> (s: &'static str)
        ensures
            s@ == binary_name(*self),
    {
        match self {
            BinaryOp::Plus => "Plus",
            BinaryOp::Minus => "Minus",
            BinaryOp::Multiply => "Multiply",
            BinaryOp::Divide => "Divide",
            BinaryOp::Remainder => "Remainder",
            BinaryOp::Greater => "Greater",
            BinaryOp::GreaterEqual => "GreaterEqual",
            BinaryOp::Less => "Less",
            BinaryOp::LessEqual => "LessEqual",
            BinaryOp::EqualEqual => "EqualEqual",
            BinaryOp::BangEqual => "BangEqual",
            BinaryOp::BitAnd => "BitAnd",
            BinaryOp::BitOr => "BitOr",
            BinaryOp::BitXor => "BitXor",
            BinaryOp::ShiftLeft => "ShiftLeft",
            BinaryOp::ShiftRight => "ShiftRight",
            BinaryOp::Range(inclusive) => if *inclusive { "Range(true)" } else { "Range(false)" },
        }
    }
}

impl AssignmentOp {
    /// The name of this operator's variant.
    pub fn name(&self) -> (s: &'static str)
        ensures
            s@ == assign_name(*self),
    {
        match self {
            AssignmentOp::Equal => "Equal",
            AssignmentOp::PlusEqual => "PlusEqual",
            AssignmentOp::MinusEqual => "MinusEqual",
            AssignmentOp::MultiplyEqual => "MultiplyEqual",
            AssignmentOp::DivideEqual => "DivideEqual",
            AssignmentOp::RemainderEqual => "RemainderEqual",
            AssignmentOp::BitAndEqual => "BitAndEqual",
            AssignmentOp::BitOrEqual => "BitOrEqual",
            AssignmentOp::BitXorEqual => "BitXorEqual",
        }
    }
}

impl UnaryOp {
    pub fn text(&self) -> (s: String)
        ensures
            s@ == unary_text(*self),
    {
        let mut s = String::new();
        match self {
            UnaryOp::Negate => push_char(&mut s, '-'),
            UnaryOp::Invert => push_char(&mut s, '!'),
            UnaryOp::Range(inclusive) => {
                push_char(&mut s, '.');
                push_char(&mut s, '.');
                if *inclusive {
                    push_char(&mut s, '=');
                }
            },
        }
        s
    }
}

impl BinaryOp {
    pub fn text(&self) -> (s: String)
        ensures
            s@ == binary_text(*self),
    {
        let mut s = String::new();
        match self {
            BinaryOp::Plus => push_char(&mut s, '+'),
            BinaryOp::Minus => push_char(&mut s, '-'),
            BinaryOp::Multiply => push_char(&mut s, '*'),
            BinaryOp::Divide => push_char(&mut s, '/'),
            BinaryOp::Remainder => push_char(&mut s, '%'),
            BinaryOp::Greater => push_char(&mut s, '>'),
            BinaryOp::GreaterEqual => {
                push_char(&mut s, '>');
                push_char(&mut s, '=');
            },
            BinaryOp::Less => push_char(&mut s, '<'),
            BinaryOp::LessEqual => {
                push_char(&mut s, '<');
                push_char(&mut s, '=');
            },
            BinaryOp::EqualEqual => {
                push_char(&mut s, '=');
                push_char(&mut s, '=');
            },
            BinaryOp::BangEqual => {
                push_char(&mut s, '!');
                push_char(&mut s, '=');
            },
            BinaryOp::BitAnd => push_char(&mut s, '&'),
            BinaryOp::BitOr => push_char(&mut s, '|'),
            BinaryOp::BitXor => push_char(&mut s, '^'),
            BinaryOp::ShiftLeft => {
                push_char(&mut s, '<');
                push_char(&mut s, '<');
            },
            BinaryOp::ShiftRight => {
                push_char(&mut s, '>');
                push_char(&mut s, '>');
            },
            BinaryOp::Range(inclusive) => {
                push_char(&mut s, '.');
                push_char(&mut s, '.');
                if *inclusive {
                    push_char(&mut s, '=');
                }
            },
        }
        s
    }
}

impl AssignmentOp {
    pub fn text(&self) -> (s: String)
        ensures
            s@ == assign_text(*self),
    {
        let mut s = String::new();
        match self {
            AssignmentOp::Equal => {},
            AssignmentOp::PlusEqual => push_char(&mut s, '+'),
            AssignmentOp::MinusEqual => push_char(&mut s, '-'),
            AssignmentOp::MultiplyEqual => push_char(&mut s, '*'),
            AssignmentOp::DivideEqual => push_char(&mut s, '/'),
            AssignmentOp::RemainderEqual => push_char(&mut s, '%'),
            AssignmentOp::BitAndEqual => push_char(&mut s, '&'),
            AssignmentOp::BitOrEqual => push_char(&mut s, '|'),
            AssignmentOp::BitXorEqual => push_char(&mut s, '^'),
        }
        push_char(&mut s, '=');
        s
    }
}

/// Whether a literal is one the parser can read as an integer.
pub fn integer_fits(lexeme: &str) -> (b: bool)
    ensures
        b == integer_lexeme_ok(lexeme@),
{
    let cs = crate::text::chars_of(lexeme);
    let mut v: i64 = 0;
    let mut i: usize = 0;
    while i < cs.len()
        invariant
            i <= cs.len(),
            cs@ == lexeme@,
            forall|k: int| 0 <= k < i ==> is_integer_char(#[trigger] cs@[k]),
            v == digits_value(cs@.take(i as int)),
            0 <= v,
        decreases cs.len() - i,
    {
        proof {
            assert(cs@.take(i + 1).drop_last() =~= cs@.take(i as int));
            assert(cs@.take(i + 1).last() == cs@[i as int]);
        }
        let c = cs[i];
        if !(crate::text::is_digit(c) || c == '_') {
            return false;
        }
        if c != '_' {
            let d = (c as u32 - '0' as u32) as i64;
            if v > (i64::MAX - d) / 10 {
                proof {
                    assert(digits_value(cs@.take(i + 1)) > i64::MAX);
                    lemma_digits_prefix_any(cs@, i + 1);
                }
                return false;
            }
            v = v * 10 + d;
        }
        i = i + 1;
    }
    proof {
        assert(cs@.take(cs@.len() as int) =~= cs@);
    }
    true
}

/// A prefix's value never exceeds the whole's (underscores and digits only up to `i`).
proof fn lemma_digits_prefix_any(s: Seq<char>, i: int)
    requires
        0 <= i <= s.len(),
        forall|k: int| 0 <= k < i ==> is_integer_char(#[trigger] s[k]),
    ensures
        (forall|k: int| 0 <= k < s.len() ==> is_integer_char(#[trigger] s[k])) ==> digits_value(s.take(i)) <= digits_value(s),
{
    if forall|k: int| 0 <= k < s.len() ==> is_integer_char(#[trigger] s[k]) {
        lemma_digits_prefix(s, i);
    }
}
} // verus!
