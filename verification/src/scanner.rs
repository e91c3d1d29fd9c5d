use vstd::prelude::*;

use crate::Location;
use crate::parser::AssignmentOp;
use crate::text::{push_char, push_str, spec_is_alnum, spec_is_digit, spec_is_alpha, spec_is_whitespace, spec_len_utf8, utf8_len};

verus! {

#[derive(Debug, Clone, Copy, PartialEq, Eq, Structural)]
pub enum TokenType {
    // Single Characters
    LeftParenthese,
    RightParenthese,
    LeftBrace,
    RightBrace,
    LeftSquare,
    RightSquare,
    Comma,
    Dot,
    DotDot,
    DotDotEqual,
    Minus,
    Plus,
    Colon,
    Scope,
    Semicolon,
    Slash,
    Star,
    Percent,
    //
    Bang,
    BangEqual,
    Equal,
    EqualEqual,
    Greater,
    GreaterEqual,
    Less,
    LessEqual,
    BinaryAnd,
    And,
    BinaryOr,
    Or,
    BinaryXor,
    ShiftLeft,
    ShiftRight,
    BinaryAndEqual,
    BinaryOrEqual,
    BinaryXorEqual,
    PlusEqual,
    MinusEqual,
    StarEqual,
    SlashEqual,
    PercentEqual,
    Arrow,
    // Literals
    Identifier,
    String,
    Integer,
    Float,
    // Keywords
    If,
    Else,
    While,
    Loop,
    For,
    Fn,
    Return,
    Break,
    Continue,
    Let,
    True,
    False,
    Struct,
    Import,
    Mut,
    Const,
    In,
    As,
    // Special
    DocComment,
    Eof,
}

/// The token types that an assignment may use, in the order `assignment_ops` lists them.
pub open spec fn spec_is_assignment_op(t: TokenType) -> bool {
    t == TokenType::Equal || t == TokenType::PlusEqual || t == TokenType::MinusEqual || t
        == TokenType::StarEqual || t == TokenType::SlashEqual
}

impl TokenType {
    pub fn is_assignment_op(&self) -> (b: bool)
        ensures
            b == spec_is_assignment_op(*self),
    {
        match self {
            TokenType::Equal
            | TokenType::PlusEqual
            | TokenType::MinusEqual
            | TokenType::StarEqual
            | TokenType::SlashEqual => true,
            _ => false,
        }
    }

    pub fn assignment_ops() -> (ops: Vec<TokenType>)
        ensures
            ops@ == seq![
                TokenType::Equal,
                TokenType::PlusEqual,
                TokenType::MinusEqual,
                TokenType::StarEqual,
                TokenType::SlashEqual,
            ],
    {
        vec![
            TokenType::Equal,
            TokenType::PlusEqual,
            TokenType::MinusEqual,
            TokenType::StarEqual,
            TokenType::SlashEqual,
        ]
    }

    pub fn unwrap_assignment_op(&self) -> (op: AssignmentOp)
        requires
            spec_is_assignment_op(*self),
        ensures
            *self == TokenType::Equal ==> op == AssignmentOp::Equal,
            *self == TokenType::PlusEqual ==> op == AssignmentOp::PlusEqual,
            *self == TokenType::MinusEqual ==> op == AssignmentOp::MinusEqual,
            *self == TokenType::StarEqual ==> op == AssignmentOp::MultiplyEqual,
            *self == TokenType::SlashEqual ==> op == AssignmentOp::DivideEqual,
    {
        match self {
            TokenType::Equal => AssignmentOp::Equal,
            TokenType::PlusEqual => AssignmentOp::PlusEqual,
            TokenType::MinusEqual => AssignmentOp::MinusEqual,
            TokenType::StarEqual => AssignmentOp::MultiplyEqual,
            _ => AssignmentOp::DivideEqual,
        }
    }
}

#[derive(Debug, Clone, PartialEq)]
pub struct Token {
    pub location: Location,
    pub token_type: TokenType,
    pub lexeme: String,
}

impl Token {
    pub fn new(location: Location, token_type: TokenType, lexeme: &str) -> (t: Token)
        ensures
            t.location == location,
            t.token_type == token_type,
            t.lexeme@ == lexeme@,
    {
        Token { location, token_type, lexeme: lexeme.to_owned() }
    }
}

#[derive(Debug, PartialEq, Eq, Clone)]
pub enum SyntaxErrorType {
    UnexpectedCharacter(char),
    UnterminatedString,
    UnterminatedComment,
}

#[derive(Debug, PartialEq, Eq, Clone)]
pub struct SyntaxError {
    pub location: Location,
    pub error: SyntaxErrorType,
}

impl SyntaxError {
    /// What went wrong.
    pub closed spec fn kind(&self) -> SyntaxErrorType {
        self.error
    }

    pub fn new(location: Location, error: SyntaxErrorType) -> (e: SyntaxError)
        ensures
            e.location == location,
            e.kind() == error,
    {
        SyntaxError { location, error }
    }

    pub fn message(&self) -> (m: String)
        ensures
            m@ == syntax_message(self.kind()),
    {
        let mut m = String::new();
        match &self.error {
            SyntaxErrorType::UnexpectedCharacter(c) => {
                push_str(&mut m, "Unexpected character '");
                push_char(&mut m, *c);
                push_str(&mut m, "'.");
            },
            SyntaxErrorType::UnterminatedString => {
                push_str(&mut m, "Unterminated string literal.");
            },
            SyntaxErrorType::UnterminatedComment => {
                push_str(&mut m, "Unterminated multi-line comment.");
            },
        }
        m
    }
}

/// The short text of a kind of syntax error.
pub open spec fn syntax_kind_text(e: SyntaxErrorType) -> Seq<char> {
    match e {
        SyntaxErrorType::UnexpectedCharacter(c) => "unexpected character '"@ + seq![c] + "'"@,
        SyntaxErrorType::UnterminatedString => "unterminated string"@,
        SyntaxErrorType::UnterminatedComment => "unterminated comment"@,
    }
}

impl SyntaxErrorType {
    /// The short text of this kind of syntax error.
    pub fn display(&self) -> (m: String)
        ensures
            m@ == syntax_kind_text(*self),
    {
        let mut m = String::new();
        assert(m@ =~= Seq::<char>::empty());
        match self {
            SyntaxErrorType::UnexpectedCharacter(c) => {
                push_str(&mut m, "unexpected character '");
                push_char(&mut m, *c);
                push_str(&mut m, "'");
            },
            SyntaxErrorType::UnterminatedString => {
                push_str(&mut m, "unterminated string");
            },
            SyntaxErrorType::UnterminatedComment => {
                push_str(&mut m, "unterminated comment");
            },
        }
        m
    }
}

/// The text that describes a syntax error.
pub open spec fn syntax_message(e: SyntaxErrorType) -> Seq<char> {
    match e {
        SyntaxErrorType::UnexpectedCharacter(c) => "Unexpected character '"@ + seq![c] + "'."@,
        SyntaxErrorType::UnterminatedString => "Unterminated string literal."@,
        SyntaxErrorType::UnterminatedComment => "Unterminated multi-line comment."@,
    }
}

// ---------------------------------------------------------------------------
// The lexical rules that the contracts state.
// ---------------------------------------------------------------------------

/// `a` is a prefix of `b`.
pub open spec fn is_prefix<T>(a: Seq<T>, b: Seq<T>) -> bool {
    a.len() <= b.len() && forall|i: int| 0 <= i < a.len() ==> #[trigger] a[i] == b[i]
}

pub proof fn lemma_prefix_trans<T>(a: Seq<T>, b: Seq<T>, c: Seq<T>)
    requires
        is_prefix(a, b),
        is_prefix(b, c),
    ensures
        is_prefix(a, c),
{
    assert forall|i: int| 0 <= i < a.len() implies #[trigger] a[i] == c[i] by {
        assert(a[i] == b[i]);
    }
}

/// A count as a `u16` location field holds it: modulo 2^16, as Rust's wrapping addition gives.
pub open spec fn wrap16(n: int) -> u16 {
    (n % 0x1_0000) as u16
}

/// A count as a `u32` location field holds it: modulo 2^32.
pub open spec fn wrap32(n: int) -> u32 {
    (n % 0x1_0000_0000) as u32
}

/// Wrapping before or after an addition gives the same field.
pub proof fn lemma_wrap16_add(a: int, b: int)
    ensures
        wrap16(a + wrap16(b) as int) == wrap16(a + b),
{
    vstd::arithmetic::div_mod::lemma_add_mod_noop(a, b, 0x1_0000);
    vstd::arithmetic::div_mod::lemma_mod_twice(b, 0x1_0000);
    vstd::arithmetic::div_mod::lemma_add_mod_noop(a, b % 0x1_0000, 0x1_0000);
}

/// The token for the characters `from..to` of `text`, read at `loc`.
pub open spec fn token_spans(loc: Location, text: Seq<char>, from: int, to: int, t: TokenType, tok: Token) -> bool {
    &&& tok.location == (Location { line: loc.line, column: loc.column, length: wrap16(utf8_len(text.subrange(from, to)) as int) })
    &&& tok.token_type == t
    &&& tok.lexeme@ == text.subrange(from, to)
}

/// `new` is `old` with one more item at the end.
pub open spec fn one_more<T>(old: Seq<T>, new: Seq<T>) -> bool {
    new.len() == old.len() + 1 && new.drop_last() == old
}

/// Where reading resumes after a token of `n` bytes that stayed on its line.
pub open spec fn after(loc: Location, n: nat) -> Location {
    Location { line: loc.line, column: wrap16(loc.column + n), length: 0 }
}

/// A block comment closes at `i`: `*` followed by `/`.
pub open spec fn closes_at(s: Seq<char>, i: int) -> bool {
    s[i] == '*' && s[i + 1] == '/'
}

/// No block comment closes anywhere in `s`.
pub open spec fn no_close(s: Seq<char>) -> bool {
    forall|i: int| 0 <= i < s.len() - 1 ==> !#[trigger] closes_at(s, i)
}

/// The error for a block comment that is never closed, at its opening `/*`.
pub open spec fn unterminated_comment(loc: Location) -> SyntaxError {
    SyntaxError {
        location: Location { line: loc.line, column: loc.column, length: 2 },
        error: SyntaxErrorType::UnterminatedComment,
    }
}

/// Scanner `t[k]` had text left, and one step took it to `t[k + 1]`.
pub open spec fn scans_on(t: Seq<Scanner>, k: int) -> bool {
    &&& t[k].position() < t[k].text().len()
    &&& t[k + 1].position() > t[k].position()
    &&& step_effect(t[k], t[k + 1])
}

/// `t` is a scan: each scanner but the last goes on to the next by one step.
pub open spec fn is_scan(t: Seq<Scanner>) -> bool {
    &&& t.len() >= 1
    &&& forall|k: int| 0 <= k < t.len() - 1 ==> #[trigger] scans_on(t, k)
}

/// A finished scan: `t` is a scan from `start` that read the whole text, and `end` holds
/// its last scanner's errors, and its tokens followed by `Eof` where that scanner stopped.
pub open spec fn scanned(start: Scanner, t: Seq<Scanner>, end: Scanner) -> bool {
    &&& is_scan(t)
    &&& t[0] == start
    &&& t.last().position() == t.last().text().len()
    &&& end.spec_errors() == t.last().spec_errors()
    &&& end.spec_tokens().len() == t.last().spec_tokens().len() + 1
    &&& end.spec_tokens().drop_last() == t.last().spec_tokens()
    &&& end.spec_tokens().last().location == t.last().here()
    &&& end.spec_tokens().last().token_type == TokenType::Eof
    &&& end.spec_tokens().last().lexeme@ == Seq::<char>::empty()
}

/// How the text `s` after a string's opening quote reads: the text the string stands
/// for, how many characters its content takes before the closing quote, whether a closing
/// quote ends it, and whether every escape in it is one the language has (`\n`, `\\`,
/// `\"` and `\x1b`; any other escape is left out of the text and reported).
pub open spec fn string_read(s: Seq<char>) -> (Seq<char>, nat, bool, bool)
    decreases s.len(),
{
    if s.len() == 0 {
        (Seq::empty(), 0, false, true)
    } else if s[0] == '"' {
        (Seq::empty(), 0, true, true)
    } else if s[0] == '\\' {
        if s.len() == 1 {
            (Seq::empty(), 1, false, true)
        } else if s[1] == 'n' {
            let r = string_read(s.skip(2));
            (seq!['\n'] + r.0, r.1 + 2, r.2, r.3)
        } else if s[1] == '\\' || s[1] == '"' {
            let r = string_read(s.skip(2));
            (seq![s[1]] + r.0, r.1 + 2, r.2, r.3)
        } else if s[1] == 'x' && char_at(s, 2) == Some('1') && char_at(s, 3) == Some('b') {
            let r = string_read(s.skip(4));
            (seq!['\x1b'] + r.0, r.1 + 4, r.2, r.3)
        } else {
            let r = string_read(s.skip(2));
            (r.0, r.1 + 2, r.2, false)
        }
    } else {
        let r = string_read(s.skip(1));
        (seq![s[0]] + r.0, r.1 + 1, r.2, r.3)
    }
}

/// Characters that continue a number's run of digits.
pub open spec fn is_digit_char(c: char) -> bool {
    spec_is_digit(c) || c == '_'
}

/// `text[a..b]` is a run of digits and underscores that goes as far as it can.
pub open spec fn digit_run(text: Seq<char>, a: int, b: int) -> bool {
    &&& 0 <= a <= b <= text.len()
    &&& forall|k: int| a <= k < b ==> is_digit_char(#[trigger] text[k])
    &&& !(char_at(text, b) matches Some(c) && is_digit_char(c))
}

/// Whether a `.` after a number's digits is its decimal point: the character after it is a
/// digit, or neither a `.` nor a letter or digit (so `1..2` is a range, `1.len` a call).
pub open spec fn point_follows(next: Option<char>) -> bool {
    next matches Some(v) && (spec_is_digit(v) || (v != '.' && !spec_is_alnum(v)))
}

/// A number read from `p` ends at `q`: its digits run from `p` to `i`; where a decimal point
/// follows them, the number takes it and the run of digits after it.
pub open spec fn number_ends(text: Seq<char>, p: int, i: int, q: int) -> bool {
    &&& digit_run(text, p, i)
    &&& if char_at(text, i) == Some('.') && point_follows(char_at(text, i + 1)) {
        digit_run(text, i + 1, q)
    } else {
        q == i
    }
}

/// No newline occurs in `s`.
pub open spec fn no_newline(s: Seq<char>) -> bool {
    forall|i: int| 0 <= i < s.len() ==> #[trigger] s[i] != '\n'
}

/// `text[a..b]` runs to the end of its line: no newline in it, and a newline or the end of
/// the text right after it.
pub open spec fn line_rest(text: Seq<char>, a: int, b: int) -> bool {
    &&& 0 <= a <= b <= text.len()
    &&& no_newline(text.subrange(a, b))
    &&& (b == text.len() || text[b] == '\n')
}

/// A number with a decimal point is a float; one without is an integer.
pub open spec fn number_type(lexeme: Seq<char>) -> TokenType {
    if lexeme.contains('.') {
        TokenType::Float
    } else {
        TokenType::Integer
    }
}

/// What one step does, by the character it starts at.
#[verifier::opaque]
pub open spec fn step_effect(o: Scanner, n: Scanner) -> bool {
    let text = o.text();
    let p = o.position() as int;
    let q = n.position() as int;
    let c0 = text[p];
    let c1 = char_at(text, p + 1);
    let c2 = char_at(text, p + 2);
    let loc = o.here();
    if c0 == '\n' {
        &&& q == p + 1
        &&& n.here() == (Location { line: wrap32(loc.line + 1), column: 1, length: 0 })
        &&& n.spec_tokens() == o.spec_tokens()
        &&& n.spec_errors() == o.spec_errors()
    } else if operator_token(c0, c1, c2) is Some {
        let (t, k) = operator_token(c0, c1, c2)->0;
        &&& q == p + k
        &&& n.spec_errors() == o.spec_errors()
        &&& one_more(o.spec_tokens(), n.spec_tokens())
        &&& token_spans(loc, text, p, q, t, n.spec_tokens().last())
        &&& n.here() == after(loc, utf8_len(text.subrange(p, q)))
    } else if c0 == '/' {
        if c1 == Some('=') {
            &&& q == p + 2
            &&& n.spec_errors() == o.spec_errors()
            &&& one_more(o.spec_tokens(), n.spec_tokens())
            &&& token_spans(loc, text, p, q, TokenType::SlashEqual, n.spec_tokens().last())
        } else if c1 == Some('*') {
            &&& n.spec_tokens() == o.spec_tokens()
            &&& (n.spec_errors() == o.spec_errors() || (n.spec_errors() == o.spec_errors().push(
                unterminated_comment(loc),
            ) && q == text.len()))
            &&& no_close(text.subrange(p + 2, text.len() as int)) ==> n.spec_errors() == o.spec_errors().push(
                unterminated_comment(loc),
            )
            &&& no_newline(text.subrange(p, q)) ==> n.here() == after(loc, utf8_len(text.subrange(p, q)))
        } else if c1 == Some('/') {
            &&& line_rest(text, p, q)
            &&& n.spec_errors() == o.spec_errors()
            &&& c2 == Some('/') ==> one_more(o.spec_tokens(), n.spec_tokens()) && token_spans(
                loc,
                text,
                p,
                q,
                TokenType::DocComment,
                n.spec_tokens().last(),
            )
            &&& c2 != Some('/') ==> n.spec_tokens() == o.spec_tokens()
            &&& n.here() == after(loc, utf8_len(text.subrange(p, q)))
        } else {
            &&& q == p + 1
            &&& n.spec_errors() == o.spec_errors()
            &&& one_more(o.spec_tokens(), n.spec_tokens())
            &&& token_spans(loc, text, p, q, TokenType::Slash, n.spec_tokens().last())
            &&& n.here() == after(loc, utf8_len(text.subrange(p, q)))
        }
    } else if c0 == '"' {
        let r = string_read(text.skip(p + 1));
        &&& r.2 ==> {
            &&& one_more(o.spec_tokens(), n.spec_tokens())
            &&& n.spec_tokens().last().token_type == TokenType::String
            &&& n.spec_tokens().last().lexeme@ == r.0
            &&& q == p + 1 + r.1 + 1
            &&& r.3 ==> n.spec_errors() == o.spec_errors()
        }
        &&& !r.2 ==> {
            &&& n.spec_tokens() == o.spec_tokens()
            &&& n.spec_errors().len() > o.spec_errors().len()
            &&& n.spec_errors().last().error == SyntaxErrorType::UnterminatedString
            &&& q == text.len()
        }
    } else if spec_is_digit(c0) {
        &&& n.spec_errors() == o.spec_errors()
        &&& one_more(o.spec_tokens(), n.spec_tokens())
        &&& token_spans(loc, text, p, q, number_type(text.subrange(p, q)), n.spec_tokens().last())
        &&& exists|i: int| #[trigger] number_ends(text, p, i, q)
        &&& forall|k: int| p <= k < q ==> {
            let c = #[trigger] text[k];
            spec_is_digit(c) || c == '_' || c == '.'
        }
        &&& n.here() == after(loc, utf8_len(text.subrange(p, q)))
    } else if spec_is_alpha(c0) || c0 == '_' {
        &&& n.spec_errors() == o.spec_errors()
        &&& one_more(o.spec_tokens(), n.spec_tokens())
        &&& token_spans(loc, text, p, q, word_type(text.subrange(p, q)), n.spec_tokens().last())
        &&& forall|k: int| p <= k < q ==> is_ident_char(#[trigger] text[k])
        &&& match char_at(text, q) {
            Some(c) => !is_ident_char(c),
            None => true,
        }
        &&& n.here() == after(loc, utf8_len(text.subrange(p, q)))
    } else if spec_is_whitespace(c0) {
        &&& q == p + 1
        &&& n.spec_tokens() == o.spec_tokens()
        &&& n.spec_errors() == o.spec_errors()
        &&& n.here() == after(loc, spec_len_utf8(c0))
    } else {
        &&& q == p + 1
        &&& n.spec_tokens() == o.spec_tokens()
        &&& n.spec_errors() == o.spec_errors().push(
            SyntaxError {
                location: Location { line: loc.line, column: loc.column, length: spec_len_utf8(c0) as u16 },
                error: SyntaxErrorType::UnexpectedCharacter(c0),
            },
        )
        &&& n.here() == after(loc, spec_len_utf8(c0))
    }
}

/// Appending a token other than `Eof` keeps `Eof` out of a token list.
pub proof fn lemma_no_eof_after_push(a: Seq<Token>, b: Seq<Token>)
    requires
        forall|i: int| 0 <= i < a.len() ==> (#[trigger] a[i]).token_type != TokenType::Eof,
        b == a || (one_more(a, b) && b.last().token_type != TokenType::Eof),
    ensures
        forall|i: int| 0 <= i < b.len() ==> (#[trigger] b[i]).token_type != TokenType::Eof,
{
    if b != a {
        assert forall|i: int| 0 <= i < b.len() implies (#[trigger] b[i]).token_type
            != TokenType::Eof by {
            if i < a.len() {
                assert(b[i] == b.drop_last()[i]);
            }
        }
    }
}

/// The character at `i`, if there is one.
pub open spec fn char_at(s: Seq<char>, i: int) -> Option<char> {
    if 0 <= i < s.len() {
        Some(s[i])
    } else {
        None
    }
}

/// Characters that continue an identifier (`<` and `>` let type names like `Vec<i64>` through).
pub open spec fn is_ident_char(c: char) -> bool {
    spec_is_alnum(c) || c == '_' || c == '<' || c == '>'
}

/// Operators and punctuation: for a leading character and the two after it, the token
/// type and how many characters it takes. `/` and `"` lead comments and strings and are not here.
pub open spec fn operator_token(c0: char, c1: Option<char>, c2: Option<char>) -> Option<
    (TokenType, nat),
> {
    if c0 == '(' {
        Some((TokenType::LeftParenthese, 1))
    } else if c0 == ')' {
        Some((TokenType::RightParenthese, 1))
    } else if c0 == '{' {
        Some((TokenType::LeftBrace, 1))
    } else if c0 == '}' {
        Some((TokenType::RightBrace, 1))
    } else if c0 == '[' {
        Some((TokenType::LeftSquare, 1))
    } else if c0 == ']' {
        Some((TokenType::RightSquare, 1))
    } else if c0 == ',' {
        Some((TokenType::Comma, 1))
    } else if c0 == '.' {
        if c1 == Some('.') {
            if c2 == Some('=') {
                Some((TokenType::DotDotEqual, 3))
            } else {
                Some((TokenType::DotDot, 2))
            }
        } else {
            Some((TokenType::Dot, 1))
        }
    } else if c0 == '-' {
        if c1 == Some('=') {
            Some((TokenType::MinusEqual, 2))
        } else if c1 == Some('>') {
            Some((TokenType::Arrow, 2))
        } else {
            Some((TokenType::Minus, 1))
        }
    } else if c0 == '+' {
        if c1 == Some('=') {
            Some((TokenType::PlusEqual, 2))
        } else {
            Some((TokenType::Plus, 1))
        }
    } else if c0 == '*' {
        if c1 == Some('=') {
            Some((TokenType::StarEqual, 2))
        } else {
            Some((TokenType::Star, 1))
        }
    } else if c0 == ':' {
        if c1 == Some(':') {
            Some((TokenType::Scope, 2))
        } else {
            Some((TokenType::Colon, 1))
        }
    } else if c0 == ';' {
        Some((TokenType::Semicolon, 1))
    } else if c0 == '!' {
        if c1 == Some('=') {
            Some((TokenType::BangEqual, 2))
        } else {
            Some((TokenType::Bang, 1))
        }
    } else if c0 == '=' {
        if c1 == Some('=') {
            Some((TokenType::EqualEqual, 2))
        } else {
            Some((TokenType::Equal, 1))
        }
    } else if c0 == '<' {
        if c1 == Some('=') {
            Some((TokenType::LessEqual, 2))
        } else if c1 == Some('<') {
            Some((TokenType::ShiftLeft, 2))
        } else {
            Some((TokenType::Less, 1))
        }
    } else if c0 == '>' {
        if c1 == Some('=') {
            Some((TokenType::GreaterEqual, 2))
        } else if c1 == Some('>') {
            Some((TokenType::ShiftRight, 2))
        } else {
            Some((TokenType::Greater, 1))
        }
    } else if c0 == '&' {
        if c1 == Some('&') {
            Some((TokenType::And, 2))
        } else if c1 == Some('=') {
            Some((TokenType::BinaryAndEqual, 2))
        } else {
            Some((TokenType::BinaryAnd, 1))
        }
    } else if c0 == '|' {
        if c1 == Some('|') {
            Some((TokenType::Or, 2))
        } else if c1 == Some('=') {
            Some((TokenType::BinaryOrEqual, 2))
        } else {
            Some((TokenType::BinaryOr, 1))
        }
    } else if c0 == '^' {
        if c1 == Some('=') {
            Some((TokenType::BinaryXorEqual, 2))
        } else {
            Some((TokenType::BinaryXor, 1))
        }
    } else if c0 == '%' {
        if c1 == Some('=') {
            Some((TokenType::PercentEqual, 2))
        } else {
            Some((TokenType::Percent, 1))
        }
    } else {
        None
    }
}

/// The fixed text that an operator, punctuation or keyword token stands for; none for the
/// other token types.
pub open spec fn token_text(t: TokenType) -> Option<Seq<char>> {
    match t {
        TokenType::LeftParenthese => Some(seq!['(']),
        TokenType::RightParenthese => Some(seq![')']),
        TokenType::LeftBrace => Some(seq!['{']),
        TokenType::RightBrace => Some(seq!['}']),
        TokenType::LeftSquare => Some(seq!['[']),
        TokenType::RightSquare => Some(seq![']']),
        TokenType::Comma => Some(seq![',']),
        TokenType::Dot => Some(seq!['.']),
        TokenType::DotDot => Some(seq!['.', '.']),
        TokenType::DotDotEqual => Some(seq!['.', '.', '=']),
        TokenType::Minus => Some(seq!['-']),
        TokenType::Plus => Some(seq!['+']),
        TokenType::Colon => Some(seq![':']),
        TokenType::Scope => Some(seq![':', ':']),
        TokenType::Semicolon => Some(seq![';']),
        TokenType::Slash => Some(seq!['/']),
        TokenType::Star => Some(seq!['*']),
        TokenType::Percent => Some(seq!['%']),
        TokenType::Bang => Some(seq!['!']),
        TokenType::BangEqual => Some(seq!['!', '=']),
        TokenType::Equal => Some(seq!['=']),
        TokenType::EqualEqual => Some(seq!['=', '=']),
        TokenType::Greater => Some(seq!['>']),
        TokenType::GreaterEqual => Some(seq!['>', '=']),
        TokenType::Less => Some(seq!['<']),
        TokenType::LessEqual => Some(seq!['<', '=']),
        TokenType::BinaryAnd => Some(seq!['&']),
        TokenType::And => Some(seq!['&', '&']),
        TokenType::BinaryOr => Some(seq!['|']),
        TokenType::Or => Some(seq!['|', '|']),
        TokenType::BinaryXor => Some(seq!['^']),
        TokenType::ShiftLeft => Some(seq!['<', '<']),
        TokenType::ShiftRight => Some(seq!['>', '>']),
        TokenType::BinaryAndEqual => Some(seq!['&', '=']),
        TokenType::BinaryOrEqual => Some(seq!['|', '=']),
        TokenType::BinaryXorEqual => Some(seq!['^', '=']),
        TokenType::PlusEqual => Some(seq!['+', '=']),
        TokenType::MinusEqual => Some(seq!['-', '=']),
        TokenType::StarEqual => Some(seq!['*', '=']),
        TokenType::SlashEqual => Some(seq!['/', '=']),
        TokenType::PercentEqual => Some(seq!['%', '=']),
        TokenType::Arrow => Some(seq!['-', '>']),
        TokenType::Let => Some(seq!['l', 'e', 't']),
        TokenType::If => Some(seq!['i', 'f']),
        TokenType::Else => Some(seq!['e', 'l', 's', 'e']),
        TokenType::While => Some(seq!['w', 'h', 'i', 'l', 'e']),
        TokenType::For => Some(seq!['f', 'o', 'r']),
        TokenType::Loop => Some(seq!['l', 'o', 'o', 'p']),
        TokenType::Fn => Some(seq!['f', 'n']),
        TokenType::Return => Some(seq!['r', 'e', 't', 'u', 'r', 'n']),
        TokenType::Break => Some(seq!['b', 'r', 'e', 'a', 'k']),
        TokenType::Continue => Some(seq!['c', 'o', 'n', 't', 'i', 'n', 'u', 'e']),
        TokenType::True => Some(seq!['t', 'r', 'u', 'e']),
        TokenType::False => Some(seq!['f', 'a', 'l', 's', 'e']),
        TokenType::Struct => Some(seq!['s', 't', 'r', 'u', 'c', 't']),
        TokenType::Import => Some(seq!['i', 'm', 'p', 'o', 'r', 't']),
        TokenType::Mut => Some(seq!['m', 'u', 't']),
        TokenType::Const => Some(seq!['c', 'o', 'n', 's', 't']),
        TokenType::In => Some(seq!['i', 'n']),
        TokenType::As => Some(seq!['a', 's']),
        _ => None,
    }
}

/// The characters an operator token takes from the characters `c0`, `c1`, `c2` of the
/// source: the first `k` of them.
pub open spec fn taken_text(c0: char, c1: Option<char>, c2: Option<char>, k: nat) -> Seq<char> {
    if k <= 1 {
        seq![c0]
    } else if k == 2 {
        seq![c0, c1->0]
    } else {
        seq![c0, c1->0, c2->0]
    }
}

/// Every operator and punctuation token is read from exactly the text its type stands
/// for: the characters it takes spell its type's text.
pub proof fn law_operator_reads_its_text(c0: char, c1: Option<char>, c2: Option<char>)
    ensures
        operator_token(c0, c1, c2) matches Some(p) ==> (token_text(p.0) matches Some(text) && text
            == taken_text(c0, c1, c2, p.1)),
{
}

/// The characters that `operator_token` covers.
pub open spec fn spec_is_operator_start(c: char) -> bool {
    c == '(' || c == ')' || c == '{' || c == '}' || c == '[' || c == ']' || c == ',' || c == '.'
        || c == '-' || c == '+' || c == '*' || c == ':' || c == ';' || c == '!' || c == '=' || c
        == '<' || c == '>' || c == '&' || c == '|' || c == '^' || c == '%'
}

fn is_operator_start(c: char) -> (b: bool)
    ensures
        b == spec_is_operator_start(c),
        b == (operator_token(c, None, None) is Some),
{
    c == '(' || c == ')' || c == '{' || c == '}' || c == '[' || c == ']' || c == ',' || c == '.'
        || c == '-' || c == '+' || c == '*' || c == ':' || c == ';' || c == '!' || c == '=' || c
        == '<' || c == '>' || c == '&' || c == '|' || c == '^' || c == '%'
}

/// The keyword that a word spells, if any.
pub open spec fn keyword_type(w: Seq<char>) -> Option<TokenType> {
    if w == seq!['l', 'e', 't'] {
        Some(TokenType::Let)
    } else if w == seq!['i', 'f'] {
        Some(TokenType::If)
    } else if w == seq!['e', 'l', 's', 'e'] {
        Some(TokenType::Else)
    } else if w == seq!['w', 'h', 'i', 'l', 'e'] {
        Some(TokenType::While)
    } else if w == seq!['f', 'o', 'r'] {
        Some(TokenType::For)
    } else if w == seq!['l', 'o', 'o', 'p'] {
        Some(TokenType::Loop)
    } else if w == seq!['f', 'n'] {
        Some(TokenType::Fn)
    } else if w == seq!['r', 'e', 't', 'u', 'r', 'n'] {
        Some(TokenType::Return)
    } else if w == seq!['b', 'r', 'e', 'a', 'k'] {
        Some(TokenType::Break)
    } else if w == seq!['c', 'o', 'n', 't', 'i', 'n', 'u', 'e'] {
        Some(TokenType::Continue)
    } else if w == seq!['t', 'r', 'u', 'e'] {
        Some(TokenType::True)
    } else if w == seq!['f', 'a', 'l', 's', 'e'] {
        Some(TokenType::False)
    } else if w == seq!['s', 't', 'r', 'u', 'c', 't'] {
        Some(TokenType::Struct)
    } else if w == seq!['i', 'm', 'p', 'o', 'r', 't'] {
        Some(TokenType::Import)
    } else if w == seq!['m', 'u', 't'] {
        Some(TokenType::Mut)
    } else if w == seq!['c', 'o', 'n', 's', 't'] {
        Some(TokenType::Const)
    } else if w == seq!['i', 'n'] {
        Some(TokenType::In)
    } else if w == seq!['a', 's'] {
        Some(TokenType::As)
    } else {
        None
    }
}

/// A word is read as a keyword only where it spells that keyword's text.
pub proof fn law_keyword_reads_its_text(w: Seq<char>)
    ensures
        keyword_type(w) matches Some(t) ==> token_text(t) == Some(w),
{
}

/// The type of a word token: its keyword, or `Identifier`.
pub open spec fn word_type(w: Seq<char>) -> TokenType {
    match keyword_type(w) {
        Some(t) => t,
        None => TokenType::Identifier,
    }
}

fn word_is(chars: &Vec<char>, start: usize, end: usize, word: &[char]) -> (b: bool)
    requires
        start <= end <= chars.len(),
    ensures
        b == (chars@.subrange(start as int, end as int) == word@),
{
    if end - start != word.len() {
        assert(chars@.subrange(start as int, end as int).len() != word@.len());
        return false;
    }
    let mut i: usize = 0;
    while i < word.len()
        invariant
            0 <= i <= word.len(),
            end - start == word.len(),
            start <= end <= chars.len(),
            forall|k: int| 0 <= k < i ==> chars@[start + k] == word@[k],
        decreases word.len() - i,
    {
        if chars[start + i] != word[i] {
            assert(chars@.subrange(start as int, end as int)[i as int] != word@[i as int]);
            return false;
        }
        i = i + 1;
    }
    assert(chars@.subrange(start as int, end as int) =~= word@);
    true
}

fn keyword_lookup(chars: &Vec<char>, start: usize, end: usize) -> (t: Option<TokenType>)
    requires
        start <= end <= chars.len(),
    ensures
        t == keyword_type(chars@.subrange(start as int, end as int)),
{
    let ghost w = chars@.subrange(start as int, end as int);
    if word_is(chars, start, end, &['l', 'e', 't']) {
        assert(w == seq!['l', 'e', 't']);
        Some(TokenType::Let)
    } else if word_is(chars, start, end, &['i', 'f']) {
        Some(TokenType::If)
    } else if word_is(chars, start, end, &['e', 'l', 's', 'e']) {
        Some(TokenType::Else)
    } else if word_is(chars, start, end, &['w', 'h', 'i', 'l', 'e']) {
        Some(TokenType::While)
    } else if word_is(chars, start, end, &['f', 'o', 'r']) {
        Some(TokenType::For)
    } else if word_is(chars, start, end, &['l', 'o', 'o', 'p']) {
        Some(TokenType::Loop)
    } else if word_is(chars, start, end, &['f', 'n']) {
        Some(TokenType::Fn)
    } else if word_is(chars, start, end, &['r', 'e', 't', 'u', 'r', 'n']) {
        Some(TokenType::Return)
    } else if word_is(chars, start, end, &['b', 'r', 'e', 'a', 'k']) {
        Some(TokenType::Break)
    } else if word_is(chars, start, end, &['c', 'o', 'n', 't', 'i', 'n', 'u', 'e']) {
        Some(TokenType::Continue)
    } else if word_is(chars, start, end, &['t', 'r', 'u', 'e']) {
        Some(TokenType::True)
    } else if word_is(chars, start, end, &['f', 'a', 'l', 's', 'e']) {
        Some(TokenType::False)
    } else if word_is(chars, start, end, &['s', 't', 'r', 'u', 'c', 't']) {
        Some(TokenType::Struct)
    } else if word_is(chars, start, end, &['i', 'm', 'p', 'o', 'r', 't']) {
        Some(TokenType::Import)
    } else if word_is(chars, start, end, &['m', 'u', 't']) {
        Some(TokenType::Mut)
    } else if word_is(chars, start, end, &['c', 'o', 'n', 's', 't']) {
        Some(TokenType::Const)
    } else if word_is(chars, start, end, &['i', 'n']) {
        Some(TokenType::In)
    } else if word_is(chars, start, end, &['a', 's']) {
        Some(TokenType::As)
    } else {
        None
    }
}


fn is_ident_char_exec(c: char) -> (b: bool)
    ensures
        b == is_ident_char(c),
{
    crate::text::is_alnum(c) || c == '_' || c == '<' || c == '>'
}

#[derive(Debug)]
pub struct Scanner {
    source: String,
    chars: Vec<char>,
    syntax_errors: Vec<SyntaxError>,
    tokens: Vec<Token>,
    /// Character index where the token being read starts.
    start: usize,
    /// Character index of the next character to read.
    cursor: usize,
    location: Location,
    is_done: bool,
}

impl Scanner {
    // ----- the abstract state that contracts speak of -----
    /// The source, as characters.
    pub closed spec fn text(&self) -> Seq<char> {
        self.chars@
    }

    /// How many characters have been read.
    pub closed spec fn position(&self) -> nat {
        self.cursor as nat
    }

    pub closed spec fn spec_tokens(&self) -> Seq<Token> {
        self.tokens@
    }

    pub closed spec fn spec_errors(&self) -> Seq<SyntaxError> {
        self.syntax_errors@
    }

    pub closed spec fn done(&self) -> bool {
        self.is_done
    }

    /// Where the next token starts.
    pub closed spec fn here(&self) -> Location {
        self.location
    }

    /// The state inside a step.
    closed spec fn inv(&self) -> bool {
        &&& self.chars@ == self.source@
        &&& self.start <= self.cursor <= self.chars.len()
        &&& self.location.length == wrap16(
            utf8_len(self.chars@.subrange(self.start as int, self.cursor as int)) as int,
        )
    }

    /// The state between steps.
    pub closed spec fn wf(&self) -> bool {
        &&& self.inv()
        &&& self.start == self.cursor
        &&& self.is_done ==> self.cursor == self.chars.len()
        &&& !self.is_done ==> forall|i: int|
            0 <= i < self.tokens@.len() ==> (#[trigger] self.tokens@[i]).token_type != TokenType::Eof
    }

    pub fn new(source: String) -> (s: Scanner)
        ensures
            s.wf(),
            s.text() == source@,
            s.position() == 0,
            s.spec_tokens() == Seq::<Token>::empty(),
            s.spec_errors() == Seq::<SyntaxError>::empty(),
            !s.done(),
            s.here() == (Location { line: 1, column: 1, length: 0 }),
    {
        let chars = crate::text::chars_of(source.as_str());
        proof {
            crate::text::lemma_utf8_len_ge_len(chars@);
            assert(chars@.take(0) =~= Seq::<char>::empty());
            assert(chars@.subrange(0, 0) =~= Seq::<char>::empty());
            assert(chars@.skip(0) =~= chars@);
        }
        Scanner {
            is_done: false,
            source,
            chars,
            syntax_errors: Vec::new(),
            tokens: Vec::new(),
            start: 0,
            cursor: 0,
            location: Location::new(1, 1, 0),
        }
    }

    fn peek(&self) -> (c: Option<char>)
        requires
            self.inv(),
        ensures
            c == char_at(self.chars@, self.cursor as int),
    {
        if self.cursor < self.chars.len() {
            Some(self.chars[self.cursor])
        } else {
            None
        }
    }

    fn peek_next(&self) -> (c: Option<char>)
        requires
            self.inv(),
        ensures
            c == char_at(self.chars@, self.cursor + 1),
    {
        if self.cursor < self.chars.len() && self.cursor + 1 < self.chars.len() {
            Some(self.chars[self.cursor + 1])
        } else {
            None
        }
    }

    fn consume(&mut self) -> (c: Option<char>)
        requires
            old(self).inv(),
        ensures
            final(self).inv(),
            c == char_at(old(self).chars@, old(self).cursor as int),
            c is Some ==> final(self).cursor == old(self).cursor + 1,
            c is None ==> final(self).cursor == old(self).cursor,
            final(self).location.line == old(self).location.line,
            final(self).location.column == old(self).location.column,
            final(self).start == old(self).start,
            final(self).chars == old(self).chars,
            final(self).source == old(self).source,
            final(self).tokens == old(self).tokens,
            final(self).syntax_errors == old(self).syntax_errors,
            final(self).is_done == old(self).is_done,
    {
        if self.cursor >= self.chars.len() {
            return None;
        }
        let c = self.chars[self.cursor];
        let n = crate::text::len_utf8(c);
        proof {
            let s = self.chars@;
            crate::text::lemma_utf8_len_split(s, self.start as int, self.cursor + 1, s.len() as int);
            assert(s.subrange(self.start as int, self.cursor + 1) =~= s.subrange(
                self.start as int,
                self.cursor as int,
            ).push(c));
            crate::text::lemma_utf8_len_push(s.subrange(self.start as int, self.cursor as int), c);
            assert(s.skip(self.start as int) =~= s.subrange(self.start as int, s.len() as int));
            crate::text::lemma_utf8_len_ge_len(s.subrange(self.cursor + 1, s.len() as int));
        }
        proof {
            let before = utf8_len(self.chars@.subrange(self.start as int, self.cursor as int)) as int;
            lemma_wrap16_add(n as int, before);
        }
        self.location.length = self.location.length.wrapping_add(n as u16);
        self.cursor = self.cursor + 1;
        Some(c)
    }

    fn try_match(&mut self, expected: char) -> (b: bool)
        requires
            old(self).inv(),
        ensures
            final(self).inv(),
            b == (char_at(old(self).chars@, old(self).cursor as int) == Some(expected)),
            b ==> final(self).cursor == old(self).cursor + 1,
            !b ==> *final(self) == *old(self),
            final(self).location.line == old(self).location.line,
            final(self).location.column == old(self).location.column,
            final(self).start == old(self).start,
            final(self).chars == old(self).chars,
            final(self).source == old(self).source,
            final(self).tokens == old(self).tokens,
            final(self).syntax_errors == old(self).syntax_errors,
            final(self).is_done == old(self).is_done,
    {
        if self.cursor < self.chars.len() && self.chars[self.cursor] == expected {
            let _ = self.consume();
            true
        } else {
            false
        }
    }

    /// Pushes a token over the characters read since the step began.
    fn push_token(&mut self, token_type: TokenType)
        requires
            old(self).inv(),
        ensures
            final(self).inv(),
            final(self).tokens@ == old(self).tokens@.push(
                Token {
                    location: old(self).location,
                    token_type,
                    lexeme: final(self).tokens@.last().lexeme,
                },
            ),
            final(self).tokens@.last().lexeme@ == old(self).chars@.subrange(
                old(self).start as int,
                old(self).cursor as int,
            ),
            one_more(old(self).tokens@, final(self).tokens@),
            final(self).cursor == old(self).cursor,
            final(self).location == old(self).location,
            final(self).start == old(self).start,
            final(self).chars == old(self).chars,
            final(self).source == old(self).source,
            final(self).syntax_errors == old(self).syntax_errors,
            final(self).is_done == old(self).is_done,
    {
        let lexeme = crate::text::string_from_chars(&self.chars, self.start, self.cursor);
        self.tokens.push(Token { location: self.location, token_type, lexeme });
        assert(self.tokens@.drop_last() =~= old(self).tokens@);
    }

    fn push_error(&mut self, location: Location, error: SyntaxErrorType)
        requires
            old(self).inv(),
        ensures
            final(self).inv(),
            final(self).syntax_errors@ == old(self).syntax_errors@.push(
                SyntaxError { location, error },
            ),
            is_prefix(old(self).syntax_errors@, final(self).syntax_errors@),
            final(self).cursor == old(self).cursor,
            final(self).location == old(self).location,
            final(self).start == old(self).start,
            final(self).chars == old(self).chars,
            final(self).source == old(self).source,
            final(self).tokens == old(self).tokens,
            final(self).is_done == old(self).is_done,
    {
        self.syntax_errors.push(SyntaxError::new(location, error));
        assert(forall|i: int|
            0 <= i < old(self).syntax_errors@.len() ==> #[trigger] old(
                self,
            ).syntax_errors@[i] == self.syntax_errors@[i]);
    }

    /// What never changes within a step.
    closed spec fn same_base(a: Scanner, b: Scanner) -> bool {
        &&& a.chars == b.chars
        &&& a.source == b.source
        &&& a.start == b.start
        &&& a.is_done == b.is_done
    }

    fn identifier_parse(&mut self)
        requires
            old(self).inv(),
        ensures
            final(self).inv(),
            Self::same_base(*old(self), *final(self)),
            old(self).cursor <= final(self).cursor,
            forall|k: int|
                old(self).cursor <= k < final(self).cursor ==> is_ident_char(
                    #[trigger] old(self).chars@[k],
                ),
            match char_at(old(self).chars@, final(self).cursor as int) {
                Some(c) => !is_ident_char(c),
                None => true,
            },
            final(self).location.line == old(self).location.line,
            final(self).location.column == old(self).location.column,
            final(self).syntax_errors == old(self).syntax_errors,
            final(self).tokens@ == old(self).tokens@.push(
                Token {
                    location: final(self).location,
                    token_type: word_type(
                        old(self).chars@.subrange(old(self).start as int, final(self).cursor as int),
                    ),
                    lexeme: final(self).tokens@.last().lexeme,
                },
            ),
            final(self).tokens@.last().lexeme@ == old(self).chars@.subrange(
                old(self).start as int,
                final(self).cursor as int,
            ),
            one_more(old(self).tokens@, final(self).tokens@),
            final(self).tokens@.last().token_type != TokenType::Eof,
    {
        while self.cursor < self.chars.len() && is_ident_char_exec(self.chars[self.cursor])
            invariant
                self.inv(),
                Self::same_base(*old(self), *self),
                old(self).cursor <= self.cursor,
                forall|k: int|
                    old(self).cursor <= k < self.cursor ==> is_ident_char(
                        #[trigger] old(self).chars@[k],
                    ),
                self.location.line == old(self).location.line,
                self.location.column == old(self).location.column,
                self.syntax_errors == old(self).syntax_errors,
                self.tokens == old(self).tokens,
            decreases self.chars.len() - self.cursor,
        {
            let _ = self.consume();
        }
        match keyword_lookup(&self.chars, self.start, self.cursor) {
            Some(t) => self.push_token(t),
            None => self.push_token(TokenType::Identifier),
        }
    }

    fn number_parse(&mut self)
        requires
            old(self).inv(),
            forall|k: int| old(self).start <= k < old(self).cursor ==> old(self).chars@[k] != '.',
            forall|k: int| old(self).start <= k < old(self).cursor ==> is_digit_char(old(self).chars@[k]),
        ensures
            exists|i: int| #[trigger] number_ends(old(self).chars@, old(self).start as int, i, final(self).cursor as int),
            final(self).inv(),
            Self::same_base(*old(self), *final(self)),
            old(self).cursor <= final(self).cursor,
            forall|k: int|
                old(self).cursor <= k < final(self).cursor ==> {
                    let c = #[trigger] old(self).chars@[k];
                    spec_is_digit(c) || c == '_' || c == '.'
                },
            final(self).location.line == old(self).location.line,
            final(self).location.column == old(self).location.column,
            final(self).syntax_errors == old(self).syntax_errors,
            final(self).tokens@.len() == old(self).tokens@.len() + 1,
            final(self).tokens@.drop_last() == old(self).tokens@,
            final(self).tokens@.last().location == final(self).location,
            final(self).tokens@.last().token_type == number_type(
                old(self).chars@.subrange(old(self).start as int, final(self).cursor as int),
            ),
            final(self).tokens@.last().lexeme@ == old(self).chars@.subrange(
                old(self).start as int,
                final(self).cursor as int,
            ),
    {
        while self.cursor < self.chars.len() && (crate::text::is_digit(self.chars[self.cursor])
            || self.chars[self.cursor] == '_')
            invariant
                self.inv(),
                Self::same_base(*old(self), *self),
                old(self).cursor <= self.cursor,
                forall|k: int|
                    old(self).cursor <= k < self.cursor ==> {
                        let c = #[trigger] old(self).chars@[k];
                        spec_is_digit(c) || c == '_' || c == '.'
                    },
                self.location.line == old(self).location.line,
                self.location.column == old(self).location.column,
                self.syntax_errors == old(self).syntax_errors,
                self.tokens == old(self).tokens,
                forall|k: int| old(self).start <= k < self.cursor ==> old(self).chars@[k] != '.',
                forall|k: int| old(self).start <= k < self.cursor ==> is_digit_char(old(self).chars@[k]),
            decreases self.chars.len() - self.cursor,
        {
            let _ = self.consume();
        }
        let ghost dot = self.cursor as int;
        assert(digit_run(old(self).chars@, old(self).start as int, dot));
        if self.peek() == Some('.') {
            let nc = self.peek_next();
            let float_follows = match nc {
                Some(v) => crate::text::is_digit(v) || (v != '.' && !crate::text::is_alnum(v)),
                None => false,
            };
            if float_follows {
                let _ = self.consume();
                while self.cursor < self.chars.len() && (crate::text::is_digit(
                    self.chars[self.cursor],
                ) || self.chars[self.cursor] == '_')
                    invariant
                        self.inv(),
                        Self::same_base(*old(self), *self),
                        old(self).cursor <= self.cursor,
                        forall|k: int|
                            old(self).cursor <= k < self.cursor ==> {
                                let c = #[trigger] old(self).chars@[k];
                                spec_is_digit(c) || c == '_' || c == '.'
                            },
                        self.location.line == old(self).location.line,
                        self.location.column == old(self).location.column,
                        self.syntax_errors == old(self).syntax_errors,
                        self.tokens == old(self).tokens,
                        old(self).start <= dot < self.cursor,
                        old(self).chars@[dot] == '.',
                        forall|k: int| dot + 1 <= k < self.cursor ==> is_digit_char(old(self).chars@[k]),
                    decreases self.chars.len() - self.cursor,
                {
                    let _ = self.consume();
                }
                proof {
                    let lexeme = old(self).chars@.subrange(old(self).start as int, self.cursor as int);
                    assert(lexeme[dot - old(self).start] == '.');
                    assert(number_ends(old(self).chars@, old(self).start as int, dot, self.cursor as int));
                }
                self.push_token(TokenType::Float);
            } else {
                proof {
                    let lexeme = old(self).chars@.subrange(old(self).start as int, self.cursor as int);
                    assert(!lexeme.contains('.'));
                    assert(number_ends(old(self).chars@, old(self).start as int, dot, self.cursor as int));
                }
                self.push_token(TokenType::Integer);
            }
        } else {
            proof {
                let lexeme = old(self).chars@.subrange(old(self).start as int, self.cursor as int);
                assert(!lexeme.contains('.'));
                assert(number_ends(old(self).chars@, old(self).start as int, dot, self.cursor as int));
            }
            self.push_token(TokenType::Integer);
        }
    }

    fn string_parse(&mut self)
        requires
            old(self).inv(),
            old(self).start < old(self).cursor,
        ensures
            final(self).inv(),
            Self::same_base(*old(self), *final(self)),
            old(self).cursor <= final(self).cursor,
            is_prefix(old(self).syntax_errors@, final(self).syntax_errors@),
            final(self).tokens@ == old(self).tokens@ || (final(self).tokens@.len()
                == old(self).tokens@.len() + 1 && final(self).tokens@.drop_last()
                == old(self).tokens@ && final(self).tokens@.last().token_type
                == TokenType::String),
            final(self).tokens@ != old(self).tokens@ ==> 0 < final(self).cursor <= final(self).chars@.len()
                && final(self).chars@[final(self).cursor - 1] == '"',
            final(self).tokens@ == old(self).tokens@ ==> final(self).syntax_errors@.len() > old(self).syntax_errors@.len()
                && final(self).syntax_errors@.last().error == SyntaxErrorType::UnterminatedString,
            (forall|k: int| old(self).cursor <= k < old(self).chars@.len() ==> old(self).chars@[k] != '"')
                ==> final(self).tokens@ == old(self).tokens@,
            ({
                let r = string_read(old(self).chars@.skip(old(self).cursor as int));
                &&& r.2 <==> final(self).tokens@ != old(self).tokens@
                &&& r.2 ==> final(self).tokens@.last().lexeme@ == r.0 && final(self).cursor == old(self).cursor + r.1 + 1
                &&& r.2 && r.3 ==> final(self).syntax_errors == old(self).syntax_errors
                &&& !r.2 ==> final(self).cursor == final(self).chars@.len()
            }),
    {
        let mut noted_location = self.location;
        let mut final_string = String::new();
        let mut backslashed = false;
        let ghost text = old(self).chars@;
        let ghost base = old(self).cursor as int;
        let ghost mut clean = true;
        proof {
            assert(final_string@ =~= Seq::<char>::empty());
            assert(Seq::<char>::empty() + string_read(text.skip(base)).0 =~= string_read(text.skip(base)).0);
        }
        while self.cursor < self.chars.len() && (backslashed || self.chars[self.cursor] != '"')
            invariant
                self.inv(),
                Self::same_base(*old(self), *self),
                old(self).cursor <= self.cursor,
                old(self).start < old(self).cursor,
                is_prefix(old(self).syntax_errors@, self.syntax_errors@),
                self.tokens == old(self).tokens,
                self.cursor <= self.chars@.len(),
                (forall|k: int| old(self).cursor <= k < old(self).chars@.len() ==> old(self).chars@[k] != '"')
                    ==> (forall|k: int| self.cursor <= k < self.chars@.len() ==> self.chars@[k] != '"'),
                text == self.chars@,
                base == old(self).cursor,
                backslashed ==> self.cursor > base && text[self.cursor - 1] == '\\',
                ({
                    let j = if backslashed { self.cursor - 1 } else { self.cursor as int };
                    let whole = string_read(text.skip(base));
                    let rest = string_read(text.skip(j));
                    &&& whole.0 == final_string@ + rest.0
                    &&& whole.1 == (j - base) + rest.1
                    &&& whole.2 == rest.2
                    &&& whole.3 == (clean && rest.3)
                }),
                clean ==> self.syntax_errors == old(self).syntax_errors,
            decreases self.chars.len() - self.cursor,
        {
            let ghost at = self.cursor as int;
            let ghost string_old = final_string@;
            let ghost was_backslashed = backslashed;
            proof {
                let s0 = text.skip(at);
                assert(s0.skip(1) =~= text.skip(at + 1));
                assert(s0[0] == text[at]);
                if at >= 1 {
                    let s1 = text.skip(at - 1);
                    assert(s1[0] == text[at - 1]);
                    assert(s1[1] == text[at]);
                    assert(s1.skip(2) =~= text.skip(at + 1));
                    if at + 2 < text.len() {
                        assert(s1.skip(4) =~= text.skip(at + 3));
                        assert(char_at(s1, 2) == Some(text[at + 1]));
                        assert(char_at(s1, 3) == Some(text[at + 2]));
                    }
                }
            }
            let next = self.chars[self.cursor];
            let _ = self.consume();
            if next == '\n' {
                self.location.line = self.location.line.wrapping_add(1);
                self.location.column = 1;
            }
            if backslashed {
                if next == 'n' {
                    push_char(&mut final_string, '\n');
                } else if next == '\\' || next == '"' {
                    push_char(&mut final_string, next);
                } else if next == 'x' {
                    if self.peek() == Some('1') && self.peek_next() == Some('b') {
                        let _ = self.consume();
                        let _ = self.consume();
                        push_char(&mut final_string, '\x1b');
                    } else {
                        let here = self.location;
                        self.push_error(here, SyntaxErrorType::UnexpectedCharacter('x'));
                        proof {
                            clean = false;
                        }
                    }
                } else {
                    let here = self.location;
                    self.push_error(here, SyntaxErrorType::UnexpectedCharacter(next));
                    proof {
                        clean = false;
                    }
                }
                backslashed = false;
            } else if next == '\\' {
                backslashed = true;
            } else {
                push_char(&mut final_string, next);
                backslashed = false;
            }
            proof {
                if !was_backslashed {
                    if next != '\\' {
                        let s0 = text.skip(at);
                        let r1 = string_read(text.skip(at + 1));
                        assert(string_read(s0) == (seq![next] + r1.0, r1.1 + 1, r1.2, r1.3));
                        assert(final_string@ =~= string_old.push(next));
                        assert(string_old + (seq![next] + r1.0) =~= final_string@ + r1.0);
                    }
                } else {
                    let s1 = text.skip(at - 1);
                    assert(s1.len() >= 2);
                    if next == 'n' {
                        let r1 = string_read(text.skip(at + 1));
                        assert(string_read(s1) == (seq!['\n'] + r1.0, r1.1 + 2, r1.2, r1.3));
                        assert(string_old + (seq!['\n'] + r1.0) =~= final_string@ + r1.0);
                    } else if next == '\\' || next == '"' {
                        let r1 = string_read(text.skip(at + 1));
                        assert(string_read(s1) == (seq![next] + r1.0, r1.1 + 2, r1.2, r1.3));
                        assert(string_old + (seq![next] + r1.0) =~= final_string@ + r1.0);
                    } else if next == 'x' && self.cursor == at + 3 {
                        let r3 = string_read(text.skip(at + 3));
                        assert(string_read(s1) == (seq!['\x1b'] + r3.0, r3.1 + 4, r3.2, r3.3));
                        assert(string_old + (seq!['\x1b'] + r3.0) =~= final_string@ + r3.0);
                    } else {
                        let r1 = string_read(text.skip(at + 1));
                        assert(string_read(s1) == (r1.0, r1.1 + 2, r1.2, false));
                    }
                }
            }
        }
        proof {
            if self.cursor >= self.chars@.len() {
                let j = if backslashed { self.cursor - 1 } else { self.cursor as int };
                if backslashed {
                    assert(text.skip(j).len() == 1);
                    assert(text.skip(j)[0] == '\\');
                } else {
                    assert(text.skip(j).len() == 0);
                }
            } else {
                assert(text.skip(self.cursor as int)[0] == '"');
                assert(final_string@ + Seq::<char>::empty() =~= final_string@);
            }
        }
        if !self.try_match('"') {
            self.push_error(noted_location, SyntaxErrorType::UnterminatedString);
        } else {
            proof {
                let s = self.chars@;
                crate::text::lemma_utf8_len_split(s, self.start as int, self.cursor as int, s.len() as int);
                assert(s.skip(self.start as int) =~= s.subrange(self.start as int, s.len() as int));
                crate::text::lemma_utf8_len_ge_len(s.subrange(self.start as int, self.cursor as int));
            }
            noted_location.column = self.location.column.wrapping_add(1);
            noted_location.length = if self.location.length >= 1 {
                self.location.length - 1
            } else {
                0
            };
            self.tokens.push(Token { location: noted_location, token_type: TokenType::String, lexeme: final_string });
        }
    }

    fn slash_parse(&mut self)
        requires
            old(self).inv(),
            old(self).cursor == old(self).start + 1,
            old(self).chars@[old(self).start as int] == '/',
        ensures
            char_at(old(self).chars@, old(self).cursor as int) == Some('/') ==> {
                &&& line_rest(old(self).chars@, old(self).start as int, final(self).cursor as int)
                &&& final(self).syntax_errors == old(self).syntax_errors
                &&& final(self).location.line == old(self).location.line
                &&& final(self).location.column == old(self).location.column
                &&& char_at(old(self).chars@, old(self).cursor + 1) == Some('/') ==> {
                    &&& one_more(old(self).tokens@, final(self).tokens@)
                    &&& final(self).tokens@.last().location == final(self).location
                    &&& final(self).tokens@.last().token_type == TokenType::DocComment
                    &&& final(self).tokens@.last().lexeme@ == old(self).chars@.subrange(
                        old(self).start as int,
                        final(self).cursor as int,
                    )
                }
                &&& char_at(old(self).chars@, old(self).cursor + 1) != Some('/') ==> final(self).tokens
                    == old(self).tokens
            },
            char_at(old(self).chars@, old(self).cursor as int) == Some('*') && no_newline(
                old(self).chars@.subrange(old(self).start as int, final(self).cursor as int),
            ) ==> final(self).location.line == old(self).location.line && final(self).location.column
                == old(self).location.column,
            final(self).inv(),
            Self::same_base(*old(self), *final(self)),
            old(self).cursor <= final(self).cursor,
            is_prefix(old(self).syntax_errors@, final(self).syntax_errors@),
            final(self).tokens@ == old(self).tokens@ || (final(self).tokens@.len()
                == old(self).tokens@.len() + 1 && final(self).tokens@.drop_last()
                == old(self).tokens@ && (final(self).tokens@.last().token_type
                == TokenType::Slash || final(self).tokens@.last().token_type
                == TokenType::DocComment)),
            char_at(old(self).chars@, old(self).cursor as int) != Some('/') && char_at(
                old(self).chars@,
                old(self).cursor as int,
            ) != Some('*') ==> {
                &&& *final(self) == Scanner { tokens: final(self).tokens, ..*old(self) }
                &&& final(self).tokens@ == old(self).tokens@.push(
                    Token {
                        location: old(self).location,
                        token_type: TokenType::Slash,
                        lexeme: final(self).tokens@.last().lexeme,
                    },
                )
                &&& final(self).tokens@.last().lexeme@ == old(self).chars@.subrange(
                    old(self).start as int,
                    old(self).cursor as int,
                )
            },
            char_at(old(self).chars@, old(self).cursor as int) == Some('*') ==> {
                let e = SyntaxError {
                    location: Location {
                        line: old(self).location.line,
                        column: old(self).location.column,
                        length: wrap16(old(self).location.length + 1),
                    },
                    error: SyntaxErrorType::UnterminatedComment,
                };
                &&& final(self).tokens == old(self).tokens
                &&& (final(self).syntax_errors@ == old(self).syntax_errors@ || (final(self).syntax_errors@
                    == old(self).syntax_errors@.push(e) && final(self).cursor == final(self).chars.len()))
                &&& no_close(old(self).chars@.subrange(old(self).cursor + 1, old(self).chars@.len() as int))
                    ==> final(self).syntax_errors@ == old(self).syntax_errors@.push(e)
            },
    {
        if self.try_match('/') {
            if self.try_match('/') {
                while self.cursor < self.chars.len() && self.chars[self.cursor] != '\n'
                    invariant
                        self.inv(),
                        Self::same_base(*old(self), *self),
                        old(self).cursor <= self.cursor,
                        self.syntax_errors == old(self).syntax_errors,
                        self.tokens == old(self).tokens,
                        self.location.line == old(self).location.line,
                        self.location.column == old(self).location.column,
                        forall|k: int| old(self).start <= k < self.cursor ==> old(self).chars@[k] != '\n',
                    decreases self.chars.len() - self.cursor,
                {
                    let _ = self.consume();
                }
                proof {
                    assert(no_newline(old(self).chars@.subrange(old(self).start as int, self.cursor as int)));
                }
                self.push_token(TokenType::DocComment);
            } else {
                while self.cursor < self.chars.len() && self.chars[self.cursor] != '\n'
                    invariant
                        self.inv(),
                        Self::same_base(*old(self), *self),
                        old(self).cursor <= self.cursor,
                        self.syntax_errors == old(self).syntax_errors,
                        self.tokens == old(self).tokens,
                        self.location.line == old(self).location.line,
                        self.location.column == old(self).location.column,
                        forall|k: int| old(self).start <= k < self.cursor ==> old(self).chars@[k] != '\n',
                    decreases self.chars.len() - self.cursor,
                {
                    let _ = self.consume();
                }
                proof {
                    assert(no_newline(old(self).chars@.subrange(old(self).start as int, self.cursor as int)));
                }
            }
        } else if self.try_match('*') {
            let error_location = self.location;
            let mut level: usize = 1;
            let mut running = true;
            let ghost rest = old(self).chars@.subrange(old(self).cursor + 1, old(self).chars@.len() as int);
            proof {
                crate::text::lemma_utf8_len_ge_len(self.chars@.skip(self.start as int));
                crate::text::lemma_utf8_len_push(
                    old(self).chars@.subrange(old(self).start as int, old(self).cursor as int),
                    '*',
                );
                assert(self.chars@.subrange(self.start as int, self.cursor as int) =~= old(self).chars@.subrange(
                    old(self).start as int,
                    old(self).cursor as int,
                ).push('*'));
            }
            while running
                invariant
                    self.inv(),
                    Self::same_base(*old(self), *self),
                    old(self).cursor + 1 <= self.cursor,
                    self.syntax_errors == old(self).syntax_errors,
                    self.tokens == old(self).tokens,
                    0 <= level <= (self.cursor - self.start) as int,
                    running ==> level >= 1,
                    !running ==> (level == 0 || self.cursor == self.chars.len()),
                    no_close(rest) ==> level >= 1,
                    rest == self.chars@.subrange(old(self).cursor + 1, self.chars@.len() as int),
                    no_newline(old(self).chars@.subrange(old(self).start as int, self.cursor as int)) ==> (
                        self.location.line == old(self).location.line && self.location.column
                        == old(self).location.column),
                decreases self.chars.len() - self.cursor + (if running { 1int } else { 0int }),
            {
                let ghost at = self.cursor as int;
                let ghost sub_old = old(self).chars@.subrange(old(self).start as int, at);
                let ghost line_old = self.location.line;
                let ghost column_old = self.location.column;
                match self.consume() {
                    Some(next) => {
                        if next == '\n' {
                            self.location.line = self.location.line.wrapping_add(1);
                            self.location.column = 1;
                        } else if next == '/' && self.try_match('*') {
                            level = level + 1;
                        } else if next == '*' && self.try_match('/') {
                            proof {
                                let i = at - (old(self).cursor + 1);
                                assert(rest[i] == '*' && rest[i + 1] == '/');
                                assert(closes_at(rest, i));
                            }
                            level = level - 1;
                            if level == 0 {
                                running = false;
                            }
                        }
                    },
                    None => {
                        running = false;
                    },
                }
                proof {
                    let sub_new = old(self).chars@.subrange(old(self).start as int, self.cursor as int);
                    if no_newline(sub_new) {
                        assert forall|k: int| 0 <= k < sub_old.len() implies sub_old[k] != '\n' by {
                            assert(sub_new[k] == sub_old[k]);
                        }
                        if self.cursor > at {
                            assert(sub_new[at - old(self).start] == old(self).chars@[at]);
                        }
                    }
                }
            }
            if level != 0 {
                self.push_error(error_location, SyntaxErrorType::UnterminatedComment);
            }
        } else {
            self.push_token(TokenType::Slash);
        }
    }

    /// Reads the rest of an operator or punctuation token whose first character was just read.
    #[verifier::rlimit(40)]
    fn lex_operator(&mut self, first: char)
        requires
            old(self).inv(),
            old(self).cursor == old(self).start + 1,
            old(self).chars@[old(self).start as int] == first,
            spec_is_operator_start(first),
        ensures
            final(self).inv(),
            Self::same_base(*old(self), *final(self)),
            final(self).syntax_errors == old(self).syntax_errors,
            final(self).location.line == old(self).location.line,
            final(self).location.column == old(self).location.column,
            ({
                let p = old(self).start as int;
                let text = old(self).chars@;
                let (t, k) = operator_token(text[p], char_at(text, p + 1), char_at(text, p + 2))->0;
                &&& operator_token(text[p], char_at(text, p + 1), char_at(text, p + 2)) is Some
                &&& final(self).cursor == p + k
                &&& one_more(old(self).tokens@, final(self).tokens@)
                &&& final(self).tokens@.last().location == final(self).location
                &&& final(self).tokens@.last().token_type == t
                &&& final(self).tokens@.last().lexeme@ == text.subrange(p, final(self).cursor as int)
            }),
            token_text(final(self).tokens@.last().token_type) == Some(final(self).tokens@.last().lexeme@),
    {
        match first {
            '(' => self.push_token(TokenType::LeftParenthese),
            ')' => self.push_token(TokenType::RightParenthese),
            '{' => self.push_token(TokenType::LeftBrace),
            '}' => self.push_token(TokenType::RightBrace),
            '[' => self.push_token(TokenType::LeftSquare),
            ']' => self.push_token(TokenType::RightSquare),
            ',' => self.push_token(TokenType::Comma),
            '.' => {
                if self.try_match('.') {
                    if self.try_match('=') {
                        self.push_token(TokenType::DotDotEqual);
                    } else {
                        self.push_token(TokenType::DotDot);
                    }
                } else {
                    self.push_token(TokenType::Dot)
                }
            },
            '-' => {
                if self.try_match('=') {
                    self.push_token(TokenType::MinusEqual);
                } else if self.try_match('>') {
                    self.push_token(TokenType::Arrow);
                } else {
                    self.push_token(TokenType::Minus);
                }
            },
            '+' => {
                if self.try_match('=') {
                    self.push_token(TokenType::PlusEqual);
                } else {
                    self.push_token(TokenType::Plus);
                }
            },
            '*' => {
                if self.try_match('=') {
                    self.push_token(TokenType::StarEqual);
                } else {
                    self.push_token(TokenType::Star);
                }
            },
            ':' => {
                if self.try_match(':') {
                    self.push_token(TokenType::Scope);
                } else {
                    self.push_token(TokenType::Colon);
                }
            },
            ';' => self.push_token(TokenType::Semicolon),
            '!' => {
                if self.try_match('=') {
                    self.push_token(TokenType::BangEqual);
                } else {
                    self.push_token(TokenType::Bang);
                }
            },
            '=' => {
                if self.try_match('=') {
                    self.push_token(TokenType::EqualEqual);
                } else {
                    self.push_token(TokenType::Equal);
                }
            },
            '<' => {
                if self.try_match('=') {
                    self.push_token(TokenType::LessEqual);
                } else if self.try_match('<') {
                    self.push_token(TokenType::ShiftLeft);
                } else {
                    self.push_token(TokenType::Less);
                }
            },
            '>' => {
                if self.try_match('=') {
                    self.push_token(TokenType::GreaterEqual);
                } else if self.try_match('>') {
                    self.push_token(TokenType::ShiftRight);
                } else {
                    self.push_token(TokenType::Greater);
                }
            },
            '&' => {
                if self.try_match('&') {
                    self.push_token(TokenType::And);
                } else if self.try_match('=') {
                    self.push_token(TokenType::BinaryAndEqual);
                } else {
                    self.push_token(TokenType::BinaryAnd);
                }
            },
            '|' => {
                if self.try_match('|') {
                    self.push_token(TokenType::Or);
                } else if self.try_match('=') {
                    self.push_token(TokenType::BinaryOrEqual);
                } else {
                    self.push_token(TokenType::BinaryOr);
                }
            },
            '^' => {
                if self.try_match('=') {
                    self.push_token(TokenType::BinaryXorEqual);
                } else {
                    self.push_token(TokenType::BinaryXor);
                }
            },
            _ => {
                if self.try_match('=') {
                    self.push_token(TokenType::PercentEqual);
                } else {
                    self.push_token(TokenType::Percent);
                }
            },
        }
        proof {
            let s = self.chars@;
            assert(s.take(self.cursor as int) =~= s.take(self.start as int) + s.subrange(
                self.start as int,
                self.cursor as int,
            ));
            crate::text::lemma_utf8_len_add(
                s.take(self.start as int),
                s.subrange(self.start as int, self.cursor as int),
            );
            assert(s.skip(self.start as int) =~= s.subrange(self.start as int, self.cursor as int)
                + s.skip(self.cursor as int));
            crate::text::lemma_utf8_len_add(
                s.subrange(self.start as int, self.cursor as int),
                s.skip(self.cursor as int),
            );
            let p = self.start as int;
            law_operator_reads_its_text(s[p], char_at(s, p + 1), char_at(s, p + 2));
            let pair = operator_token(s[p], char_at(s, p + 1), char_at(s, p + 2))->0;
            let k = pair.1;
            assert(s.subrange(p, self.cursor as int) =~= taken_text(s[p], char_at(s, p + 1), char_at(s, p + 2), k));
        }
    }

    /// Closes the current token: the next one starts where reading stopped.
    fn finish_token(&mut self)
        requires
            old(self).inv(),
        ensures
            final(self).inv(),
            final(self).start == final(self).cursor,
            final(self).cursor == old(self).cursor,
            final(self).chars == old(self).chars,
            final(self).source == old(self).source,
            final(self).tokens == old(self).tokens,
            final(self).syntax_errors == old(self).syntax_errors,
            final(self).is_done == old(self).is_done,
            final(self).location == after(old(self).location, old(self).location.length as nat),
    {
        proof {
            let s = self.chars@;
            assert(s.take(self.cursor as int) =~= s.take(self.start as int) + s.subrange(
                self.start as int,
                self.cursor as int,
            ));
            crate::text::lemma_utf8_len_add(
                s.take(self.start as int),
                s.subrange(self.start as int, self.cursor as int),
            );
            assert(s.skip(self.start as int) =~= s.subrange(self.start as int, self.cursor as int)
                + s.skip(self.cursor as int));
            crate::text::lemma_utf8_len_add(
                s.subrange(self.start as int, self.cursor as int),
                s.skip(self.cursor as int),
            );
            assert(s =~= s.take(self.cursor as int) + s.skip(self.cursor as int));
            crate::text::lemma_utf8_len_add(s.take(self.cursor as int), s.skip(self.cursor as int));
            assert(s.subrange(self.cursor as int, self.cursor as int) =~= Seq::<char>::empty());
        }
        self.start = self.cursor;
        self.location.column = self.location.column.wrapping_add(self.location.length);
        self.location.length = 0;
    }

    /// The state right after a step has read its first character (not a newline).
    closed spec fn lex_pre(o: Scanner, s: Scanner, next: char) -> bool {
        &&& o.wf()
        &&& !o.is_done
        &&& o.cursor < o.chars.len()
        &&& s.inv()
        &&& Self::same_base(o, s)
        &&& s.cursor == o.cursor + 1
        &&& next == o.chars@[o.cursor as int]
        &&& next != '\n'
        &&& s.tokens == o.tokens
        &&& s.syntax_errors == o.syntax_errors
        &&& s.location == (Location { line: o.location.line, column: o.location.column, length: spec_len_utf8(next) as u16 })
        &&& utf8_len(s.chars@.subrange(s.start as int, s.cursor as int)) == spec_len_utf8(next)
    }

    /// What a step guarantees when it read a character.
    closed spec fn lex_post(o: Scanner, n: Scanner) -> bool {
        &&& n.wf()
        &&& n.text() == o.text()
        &&& !n.done()
        &&& n.position() > o.position()
        &&& is_prefix(o.spec_errors(), n.spec_errors())
        &&& step_effect(o, n)
        &&& (n.spec_tokens() == o.spec_tokens() || (one_more(o.spec_tokens(), n.spec_tokens())
            && n.spec_tokens().last().token_type != TokenType::Eof))
    }

    fn lex_operator_step(&mut self, next: char, Ghost(o): Ghost<Scanner>)
        requires
            Self::lex_pre(o, *old(self), next),
            spec_is_operator_start(next),
        ensures
            Self::lex_post(o, *final(self)),
    {
        self.lex_operator(next);
        self.finish_token();
        assert(step_effect(o, *self)) by {
            reveal(step_effect);
        }
        proof {
            lemma_no_eof_after_push(o.tokens@, self.tokens@);
        }
    }

    fn lex_slash_step(&mut self, next: char, Ghost(o): Ghost<Scanner>)
        requires
            Self::lex_pre(o, *old(self), next),
            next == '/',
            !spec_is_operator_start(next),
        ensures
            Self::lex_post(o, *final(self)),
    {
        if self.try_match('=') {
            self.push_token(TokenType::SlashEqual);
        } else {
            self.slash_parse();
        }
        self.finish_token();
        assert(step_effect(o, *self)) by {
            reveal(step_effect);
        }
        proof {
            lemma_no_eof_after_push(o.tokens@, self.tokens@);
        }
    }

    fn lex_string_step(&mut self, next: char, Ghost(o): Ghost<Scanner>)
        requires
            Self::lex_pre(o, *old(self), next),
            next == '"',
            !spec_is_operator_start(next),
        ensures
            Self::lex_post(o, *final(self)),
    {
        self.string_parse();
        self.finish_token();
        assert(step_effect(o, *self)) by {
            reveal(step_effect);
        }
        proof {
            lemma_no_eof_after_push(o.tokens@, self.tokens@);
        }
    }

    fn lex_number_step(&mut self, next: char, Ghost(o): Ghost<Scanner>)
        requires
            Self::lex_pre(o, *old(self), next),
            spec_is_digit(next),
            next != '"',
            next != '/',
            !spec_is_operator_start(next),
        ensures
            Self::lex_post(o, *final(self)),
    {
        self.number_parse();
        self.finish_token();
        assert(step_effect(o, *self)) by {
            reveal(step_effect);
        }
        proof {
            lemma_no_eof_after_push(o.tokens@, self.tokens@);
        }
    }

    fn lex_word_step(&mut self, next: char, Ghost(o): Ghost<Scanner>)
        requires
            Self::lex_pre(o, *old(self), next),
            spec_is_alpha(next) || next == '_', !spec_is_digit(next), next != '"', next != '/', !spec_is_operator_start(next),
        ensures
            Self::lex_post(o, *final(self)),
    {
        self.identifier_parse();
        self.finish_token();
        assert(step_effect(o, *self)) by {
            reveal(step_effect);
        }
        proof {
            lemma_no_eof_after_push(o.tokens@, self.tokens@);
        }
    }

    fn lex_blank_step(&mut self, next: char, Ghost(o): Ghost<Scanner>)
        requires
            Self::lex_pre(o, *old(self), next),
            spec_is_whitespace(next), !spec_is_digit(next), !spec_is_alpha(next), next != '_', next != '"', next != '/', !spec_is_operator_start(next),
        ensures
            Self::lex_post(o, *final(self)),
    {
        self.finish_token();
        assert(step_effect(o, *self)) by {
            reveal(step_effect);
        }
        proof {
            lemma_no_eof_after_push(o.tokens@, self.tokens@);
        }
    }

    fn lex_unexpected_step(&mut self, next: char, Ghost(o): Ghost<Scanner>)
        requires
            Self::lex_pre(o, *old(self), next),
            !spec_is_whitespace(next), !spec_is_digit(next), !spec_is_alpha(next), next != '_', next != '"', next != '/', !spec_is_operator_start(next),
        ensures
            Self::lex_post(o, *final(self)),
    {
        let here = self.location;
        self.push_error(here, SyntaxErrorType::UnexpectedCharacter(next));
        self.finish_token();
        assert(step_effect(o, *self)) by {
            reveal(step_effect);
        }
        proof {
            lemma_no_eof_after_push(o.tokens@, self.tokens@);
        }
    }

    /// Reads the next token (or whitespace, comment, error), returning whether
    /// more may follow. At the end of the source it pushes `Eof` and marks the scan done.
    #[verifier::rlimit(40)]
    pub fn step(&mut self) -> (more: bool)
        requires
            old(self).wf(),
        ensures
            final(self).wf(),
            final(self).text() == old(self).text(),
            old(self).done() ==> more && *final(self) == *old(self),
            !old(self).done() && old(self).position() == old(self).text().len() ==> {
                &&& !more
                &&& final(self).done()
                &&& final(self).spec_errors() == old(self).spec_errors()
                &&& final(self).spec_tokens() == old(self).spec_tokens().push(
                    Token {
                        location: old(self).here(),
                        token_type: TokenType::Eof,
                        lexeme: final(self).spec_tokens().last().lexeme,
                    },
                )
                &&& final(self).spec_tokens().last().lexeme@ == Seq::<char>::empty()
            },
            !old(self).done() && old(self).position() < old(self).text().len() ==> {
                &&& more
                &&& !final(self).done()
                &&& final(self).position() > old(self).position()
                &&& is_prefix(old(self).spec_errors(), final(self).spec_errors())
                &&& step_effect(*old(self), *final(self))
                &&& (final(self).spec_tokens() == old(self).spec_tokens() || (one_more(
                    old(self).spec_tokens(),
                    final(self).spec_tokens(),
                ) && final(self).spec_tokens().last().token_type != TokenType::Eof))
            },
    {
        if self.is_done {
            return true;
        }
        if self.cursor >= self.chars.len() {
            self.is_done = true;
            self.tokens.push(
                Token { location: self.location, token_type: TokenType::Eof, lexeme: String::new() },
            );
            return false;
        }
        let ghost o = *self;
        proof {
            let s = self.chars@;
            assert(s =~= s.take(self.start as int) + s.skip(self.start as int));
            crate::text::lemma_utf8_len_add(s.take(self.start as int), s.skip(self.start as int));
        }
        let next = self.chars[self.cursor];
        let _ = self.consume();
        if next == '\n' {
            proof {
                let s = self.chars@;
                assert(s.take(self.cursor as int) =~= s.take(self.start as int) + s.subrange(
                    self.start as int,
                    self.cursor as int,
                ));
                crate::text::lemma_utf8_len_add(
                    s.take(self.start as int),
                    s.subrange(self.start as int, self.cursor as int),
                );
                assert(s.subrange(self.start as int, self.cursor as int) =~= seq![next]);
                crate::text::lemma_utf8_len_push(Seq::<char>::empty(), next);
                assert(Seq::<char>::empty().push(next) =~= seq![next]);
                assert(s.skip(self.start as int) =~= seq![next] + s.skip(self.cursor as int));
                crate::text::lemma_utf8_len_add(seq![next], s.skip(self.cursor as int));
            }
            self.location.line = self.location.line.wrapping_add(1);
            self.location.column = 1;
            self.location.length = 0;
            self.start = self.cursor;
            assert(step_effect(o, *self)) by {
                reveal(step_effect);
            }
            return true;
        }
        proof {
            crate::text::lemma_utf8_len_single(next);
            assert(self.chars@.subrange(self.start as int, self.cursor as int) =~= seq![next]);
        }
        if is_operator_start(next) {
            self.lex_operator_step(next, Ghost(o));
        } else if next == '/' {
            self.lex_slash_step(next, Ghost(o));
        } else if next == '"' {
            self.lex_string_step(next, Ghost(o));
        } else if crate::text::is_digit(next) {
            self.lex_number_step(next, Ghost(o));
        } else if crate::text::is_alpha(next) || next == '_' {
            self.lex_word_step(next, Ghost(o));
        } else if crate::text::is_whitespace(next) {
            self.lex_blank_step(next, Ghost(o));
        } else {
            self.lex_unexpected_step(next, Ghost(o));
        }
        true
    }

    /// Reads the whole source.
    pub fn scan(&mut self)
        requires
            old(self).wf(),
            !old(self).done(),
        ensures
            final(self).wf(),
            final(self).done(),
            final(self).text() == old(self).text(),
            final(self).spec_tokens().len() > 0,
            final(self).spec_tokens().last().token_type == TokenType::Eof,
            is_prefix(old(self).spec_errors(), final(self).spec_errors()),
            forall|i: int|
                0 <= i < final(self).spec_tokens().len() - 1 ==> (
                #[trigger] final(self).spec_tokens()[i]).token_type != TokenType::Eof,
            exists|t: Seq<Scanner>| #[trigger] scanned(*old(self), t, *final(self)),
    {
        let ghost mut t: Seq<Scanner> = seq![*self];
        loop
            invariant_except_break
                self.wf(),
                self.text() == old(self).text(),
                !self.done(),
                is_prefix(old(self).spec_errors(), self.spec_errors()),
                forall|i: int|
                    0 <= i < self.spec_tokens().len() ==> (#[trigger] self.spec_tokens()[i]).token_type
                        != TokenType::Eof,
                is_scan(t),
                t[0] == *old(self),
                t.last() == *self,
            ensures
                self.wf(),
                self.done(),
                self.text() == old(self).text(),
                self.spec_tokens().len() > 0,
                self.spec_tokens().last().token_type == TokenType::Eof,
                is_prefix(old(self).spec_errors(), self.spec_errors()),
                forall|i: int|
                    0 <= i < self.spec_tokens().len() - 1 ==> (#[trigger] self.spec_tokens()[i]).token_type
                        != TokenType::Eof,
                scanned(*old(self), t, *self),
            decreases self.text().len() - self.position(),
        {
            let ghost before = *self;
            let more = self.step();
            if !more {
                proof {
                    assert(self.spec_tokens().drop_last() =~= before.spec_tokens());
                    assert forall|i: int| 0 <= i < self.spec_tokens().len() - 1 implies (
                        #[trigger] self.spec_tokens()[i]).token_type != TokenType::Eof by {
                        assert(self.spec_tokens()[i] == before.spec_tokens()[i]);
                    }
                }
                break;
            }
            proof {
                let next = t.push(*self);
                assert forall|k: int| 0 <= k < next.len() - 1 implies #[trigger] scans_on(next, k) by {
                    if k < t.len() - 1 {
                        assert(scans_on(t, k));
                    }
                }
                t = next;
            }
        }
    }

    pub fn errors(&self) -> (e: &[SyntaxError])
        ensures
            e@ == self.spec_errors(),
    {
        self.syntax_errors.as_slice()
    }

    pub fn get(&self) -> (t: Option<&[Token]>)
        ensures
            t is None <==> !self.done(),
            t matches Some(ts) ==> ts@ == self.spec_tokens(),
    {
        if !self.is_done {
            None
        } else {
            Some(self.tokens.as_slice())
        }
    }

    /// Returns the source text that was scanned
    pub fn source(&self) -> (s: &str)
        requires
            self.wf(),
        ensures
            s@ == self.text(),
    {
        self.source.as_str()
    }
}

} // verus!
