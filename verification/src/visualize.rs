use vstd::prelude::*;

use crate::Location;
use crate::constructor::{ConstructError, construct_message, is_import_diagnostic};
use crate::executor::{ExecutorError, executor_message};
use crate::parser::{ParseError, parse_message};
use crate::scanner::{SyntaxError, Token, TokenType, syntax_message};
use crate::text::{chars_of, is_control, len_utf8, nat_digits, push_char, push_chars, push_str, spec_is_control, spec_len_utf8, utf8_len};

verus! {

pub const SEPERATOR_BAR_LENGTH: usize = 60;
pub const TAB_LENGTH: usize = 2;
pub const CONTEXT_LINES: u32 = 2;

/// ANSI color codes.
#[derive(Debug, Clone, Copy, PartialEq, Eq, Structural)]
pub enum AnsiColor {
    Reset,
    Bold,
    Red,
    Green,
    Yellow,
    Blue,
    Magenta,
    Cyan,
    White,
    Gray,
    BrightRed,
    BrightYellow,
    BrightCyan,
}

/// The escape sequence of a color.
pub open spec fn ansi_code(c: AnsiColor) -> Seq<char> {
    match c {
        AnsiColor::Reset => "\x1b[0m"@,
        AnsiColor::Bold => "\x1b[1m"@,
        AnsiColor::Red => "\x1b[31m"@,
        AnsiColor::Green => "\x1b[32m"@,
        AnsiColor::Yellow => "\x1b[33m"@,
        AnsiColor::Blue => "\x1b[34m"@,
        AnsiColor::Magenta => "\x1b[35m"@,
        AnsiColor::Cyan => "\x1b[36m"@,
        AnsiColor::White => "\x1b[97m"@,
        AnsiColor::Gray => "\x1b[90m"@,
        AnsiColor::BrightRed => "\x1b[91m"@,
        AnsiColor::BrightYellow => "\x1b[93m"@,
        AnsiColor::BrightCyan => "\x1b[96m"@,
    }
}

/// Text wrapped in a color, with a reset after it.
pub open spec fn colored(c: AnsiColor, text: Seq<char>) -> Seq<char> {
    ansi_code(c) + text + ansi_code(AnsiColor::Reset)
}

impl AnsiColor {
    /// The escape sequence of this color.
    pub fn code(self) -> (s: &'static str)
        ensures
            s@ == ansi_code(self),
    {
        match self {
            AnsiColor::Reset => "\x1b[0m",
            AnsiColor::Bold => "\x1b[1m",
            AnsiColor::Red => "\x1b[31m",
            AnsiColor::Green => "\x1b[32m",
            AnsiColor::Yellow => "\x1b[33m",
            AnsiColor::Blue => "\x1b[34m",
            AnsiColor::Magenta => "\x1b[35m",
            AnsiColor::Cyan => "\x1b[36m",
            AnsiColor::White => "\x1b[97m",
            AnsiColor::Gray => "\x1b[90m",
            AnsiColor::BrightRed => "\x1b[91m",
            AnsiColor::BrightYellow => "\x1b[93m",
            AnsiColor::BrightCyan => "\x1b[96m",
        }
    }

    /// Wraps text in this color, with a reset at the end.
    pub fn apply(self, text: &str) -> (s: String)
        ensures
            s@ == colored(self, text@),
    {
        let mut s = String::new();
        assert(s@ =~= Seq::<char>::empty());
        push_str(&mut s, self.code());
        push_str(&mut s, text);
        push_str(&mut s, AnsiColor::Reset.code());
        s
    }
}

/// How serious a diagnostic is.
#[derive(Debug, Clone, Copy, PartialEq, Eq, Structural)]
pub enum Severity {
    Error,
    Warning,
    Lint,
}

pub open spec fn severity_title(s: Severity) -> Seq<char> {
    match s {
        Severity::Error => "Error"@,
        Severity::Warning => "Warning"@,
        Severity::Lint => "Lint"@,
    }
}

pub open spec fn severity_color(s: Severity) -> AnsiColor {
    match s {
        Severity::Error => AnsiColor::Red,
        Severity::Warning => AnsiColor::BrightYellow,
        Severity::Lint => AnsiColor::BrightCyan,
    }
}

impl Severity {
    /// The word a diagnostic of this severity is titled with.
    pub fn title(self) -> (s: &'static str)
        ensures
            s@ == severity_title(self),
    {
        match self {
            Severity::Error => "Error",
            Severity::Warning => "Warning",
            Severity::Lint => "Lint",
        }
    }

    /// The color a diagnostic of this severity is shown in.
    pub fn color(self) -> (c: AnsiColor)
        ensures
            c == severity_color(self),
    {
        match self {
            Severity::Error => AnsiColor::Red,
            Severity::Warning => AnsiColor::BrightYellow,
            Severity::Lint => AnsiColor::BrightCyan,
        }
    }
}

/// Something to show a user about a script: how serious it is, where, and what.
pub trait Diagnostic {
    /// Where the diagnostic points.
    spec fn spec_location(&self) -> Location;

    /// How serious the diagnostic is.
    spec fn spec_severity(&self) -> Severity;

    fn severity(&self) -> (s: Severity)
        ensures
            s == self.spec_severity(),
    ;

    fn location(&self) -> (l: Location)
        ensures
            l == self.spec_location(),
    ;

    /// Whether `m` is what `message` gives for this diagnostic.
    spec fn message_is(&self, m: Seq<char>) -> bool;

    fn message(&self) -> (m: String)
        ensures
            self.message_is(m@),
    ;
}

impl Diagnostic for SyntaxError {
    open spec fn message_is(&self, m: Seq<char>) -> bool {
        m == syntax_message(self.kind())
    }

    open spec fn spec_severity(&self) -> Severity {
        Severity::Error
    }

    open spec fn spec_location(&self) -> Location {
        self.location
    }

    fn severity(&self) -> (s: Severity)
        ensures
            s == Severity::Error,
    {
        Severity::Error
    }

    fn location(&self) -> Location {
        self.location
    }

    fn message(&self) -> (m: String)
        ensures
            m@ == syntax_message(self.kind()),
    {
        SyntaxError::message(self)
    }
}

impl Diagnostic for ParseError {
    open spec fn message_is(&self, m: Seq<char>) -> bool {
        m == parse_message(self.kind())
    }

    open spec fn spec_severity(&self) -> Severity {
        Severity::Error
    }

    open spec fn spec_location(&self) -> Location {
        self.token.location
    }

    fn severity(&self) -> (s: Severity)
        ensures
            s == Severity::Error,
    {
        Severity::Error
    }

    fn location(&self) -> Location {
        self.token.location
    }

    fn message(&self) -> (m: String)
        ensures
            m@ == parse_message(self.kind()),
    {
        ParseError::message(self)
    }
}

impl Diagnostic for ConstructError {
    open spec fn message_is(&self, m: Seq<char>) -> bool {
        !is_import_diagnostic(self.kind) ==> m == construct_message(self.kind)
    }

    open spec fn spec_severity(&self) -> Severity {
        Severity::Error
    }

    open spec fn spec_location(&self) -> Location {
        self.location
    }

    fn severity(&self) -> (s: Severity)
        ensures
            s == Severity::Error,
    {
        Severity::Error
    }

    fn location(&self) -> Location {
        self.location
    }

    fn message(&self) -> (m: String)
        ensures
            !is_import_diagnostic(self.kind) ==> m@ == construct_message(self.kind),
    {
        ConstructError::message(self)
    }
}

impl Diagnostic for ExecutorError {
    open spec fn message_is(&self, m: Seq<char>) -> bool {
        m == executor_message(self.kind)
    }

    open spec fn spec_severity(&self) -> Severity {
        Severity::Error
    }

    open spec fn spec_location(&self) -> Location {
        self.location
    }

    fn severity(&self) -> (s: Severity)
        ensures
            s == Severity::Error,
    {
        Severity::Error
    }

    fn location(&self) -> Location {
        self.location
    }

    fn message(&self) -> (m: String)
        ensures
            m@ == executor_message(self.kind),
    {
        ExecutorError::message(self)
    }
}

// ---------------------------------------------------------------------------
// Lines of a text
// ---------------------------------------------------------------------------

/// The pieces of a text between its newlines: one more than it has newlines.
pub open spec fn pieces(s: Seq<char>) -> Seq<Seq<char>>
    decreases s.len(),
{
    if s.len() == 0 {
        seq![Seq::empty()]
    } else if s.last() == '\n' {
        pieces(s.drop_last()).push(Seq::empty())
    } else {
        let p = pieces(s.drop_last());
        p.update(p.len() - 1, p.last().push(s.last()))
    }
}

/// A line that ended at a newline, without the carriage return before it.
pub open spec fn without_cr(l: Seq<char>) -> Seq<char> {
    if l.len() > 0 && l.last() == '\r' {
        l.drop_last()
    } else {
        l
    }
}

/// The lines of a text as `str::lines` gives them: split at each newline, a carriage
/// return just before a newline dropped, and no empty line after a final newline.
pub open spec fn text_lines(s: Seq<char>) -> Seq<Seq<char>> {
    let p = pieces(s);
    if s.len() == 0 {
        Seq::empty()
    } else if s.last() == '\n' {
        p.drop_last().map_values(|l: Seq<char>| without_cr(l))
    } else {
        p.drop_last().map_values(|l: Seq<char>| without_cr(l)).push(p.last())
    }
}

proof fn lemma_pieces_nonempty(s: Seq<char>)
    ensures
        pieces(s).len() >= 1,
    decreases s.len(),
{
    if s.len() > 0 {
        lemma_pieces_nonempty(s.drop_last());
    }
}

/// The lines of a text, as `str::lines` gives them.
pub fn split_lines(source: &str) -> (lines: Vec<Vec<char>>)
    ensures
        lines@.len() == text_lines(source@).len(),
        forall|i: int| 0 <= i < lines@.len() ==> (#[trigger] lines@[i])@ == text_lines(source@)[i],
{
    let chars = chars_of(source);
    let mut done: Vec<Vec<char>> = Vec::new();
    let mut current: Vec<char> = Vec::new();
    let mut k: usize = 0;
    proof {
        assert(chars@.take(0) =~= Seq::<char>::empty());
    }
    while k < chars.len()
        invariant
            chars@ == source@,
            k <= chars@.len(),
            pieces(chars@.take(k as int)).len() == done@.len() + 1,
            forall|i: int| 0 <= i < done@.len() ==> (#[trigger] done@[i])@ == without_cr(pieces(chars@.take(k as int))[i]),
            current@ == pieces(chars@.take(k as int)).last(),
        decreases chars.len() - k,
    {
        let c = chars[k];
        proof {
            assert(chars@.take(k + 1).drop_last() =~= chars@.take(k as int));
            assert(chars@.take(k + 1).last() == c);
            lemma_pieces_nonempty(chars@.take(k as int));
        }
        if c == '\n' {
            let mut line = current;
            let n = line.len();
            if n > 0 && line[n - 1] == '\r' {
                line.pop();
            }
            done.push(line);
            current = Vec::new();
        } else {
            current.push(c);
        }
        k = k + 1;
    }
    proof {
        assert(chars@.take(chars@.len() as int) =~= chars@);
        lemma_pieces_nonempty(chars@);
    }
    let ends_with_newline = chars.len() > 0 && chars[chars.len() - 1] == '\n';
    if chars.len() > 0 && !ends_with_newline {
        done.push(current);
    }
    proof {
        let t = text_lines(source@);
        assert(done@.len() == t.len());
        assert forall|i: int| 0 <= i < done@.len() implies (#[trigger] done@[i])@ == t[i] by {}
    }
    done
}

} // verus!

verus! {

/// A token that is shown on a line: on that line, and neither a comment nor the end.
pub open spec fn shown_on_line(t: Token, line: u32) -> bool {
    t.location.line == line && !(t.token_type is DocComment) && !(t.token_type is Eof)
}

/// The places, in order, of the tokens shown on a line (numbered from 1).
fn tokens_on_line(tokens: &[Token], line: u32) -> (r: Vec<usize>)
    ensures
        forall|k: int| 0 <= k < r@.len() ==> r@[k] < tokens@.len() && shown_on_line(tokens@[r@[k] as int], line),
        forall|k: int, j: int| 0 <= k < j < r@.len() ==> r@[k] < r@[j],
        forall|i: int| 0 <= i < tokens@.len() && shown_on_line(#[trigger] tokens@[i], line) ==> r@.contains(i as usize),
{
    let mut r: Vec<usize> = Vec::new();
    let mut i: usize = 0;
    while i < tokens.len()
        invariant
            i <= tokens@.len(),
            forall|k: int| 0 <= k < r@.len() ==> r@[k] < i && shown_on_line(tokens@[r@[k] as int], line),
            forall|k: int, j: int| 0 <= k < j < r@.len() ==> r@[k] < r@[j],
            forall|m: int| 0 <= m < i && shown_on_line(#[trigger] tokens@[m], line) ==> r@.contains(m as usize),
        decreases tokens.len() - i,
    {
        let t = &tokens[i];
        let ghost before = r@;
        if t.location.line == line && !matches!(t.token_type, TokenType::DocComment) && !matches!(t.token_type, TokenType::Eof) {
            r.push(i);
            assert(r@[r@.len() - 1] == i);
        }
        proof {
            assert forall|m: int| 0 <= m < i + 1 && shown_on_line(#[trigger] tokens@[m], line) implies r@.contains(m as usize) by {
                if m < i {
                    let w = choose|w: int| 0 <= w < before.len() && before[w] == m as usize;
                    assert(r@[w] == m as usize);
                } else {
                    assert(r@[r@.len() - 1] == i);
                }
            }
        }
        i = i + 1;
    }
    r
}

/// The color a token is shown in.
pub open spec fn token_color(t: TokenType) -> AnsiColor {
    match t {
        TokenType::String => AnsiColor::Green,
        TokenType::Integer | TokenType::Float => AnsiColor::Cyan,
        TokenType::If | TokenType::Else | TokenType::While | TokenType::Loop | TokenType::For | TokenType::Fn
        | TokenType::Return | TokenType::Break | TokenType::Continue | TokenType::Let | TokenType::True
        | TokenType::False | TokenType::Struct | TokenType::Import | TokenType::Mut | TokenType::Const
        | TokenType::In | TokenType::As => AnsiColor::Yellow,
        TokenType::DocComment => AnsiColor::Gray,
        TokenType::Plus | TokenType::Minus | TokenType::Star | TokenType::Slash | TokenType::Percent
        | TokenType::Bang | TokenType::Equal | TokenType::And | TokenType::Or | TokenType::BinaryAnd
        | TokenType::BinaryOr | TokenType::BinaryXor | TokenType::ShiftLeft | TokenType::ShiftRight
        | TokenType::BinaryAndEqual | TokenType::BinaryOrEqual | TokenType::BinaryXorEqual
        | TokenType::Arrow | TokenType::SlashEqual | TokenType::PlusEqual
        | TokenType::MinusEqual | TokenType::StarEqual | TokenType::PercentEqual | TokenType::EqualEqual
        | TokenType::BangEqual | TokenType::GreaterEqual | TokenType::LessEqual => AnsiColor::Magenta,
        TokenType::LeftParenthese | TokenType::RightParenthese | TokenType::LeftBrace | TokenType::RightBrace
        | TokenType::LeftSquare | TokenType::RightSquare | TokenType::Comma | TokenType::Dot | TokenType::DotDot
        | TokenType::DotDotEqual | TokenType::Colon | TokenType::Scope | TokenType::Semicolon | TokenType::Less
        | TokenType::Greater => AnsiColor::Gray,
        TokenType::Identifier => AnsiColor::White,
        TokenType::Eof => AnsiColor::Reset,
    }
}

/// Colors a token by its type.
fn color_token(token: &Token) -> (c: AnsiColor)
    ensures
        c == token_color(token.token_type),
{
    match token.token_type {
        TokenType::String => AnsiColor::Green,
        TokenType::Integer | TokenType::Float => AnsiColor::Cyan,
        TokenType::If | TokenType::Else | TokenType::While | TokenType::Loop | TokenType::For | TokenType::Fn
        | TokenType::Return | TokenType::Break | TokenType::Continue | TokenType::Let | TokenType::True
        | TokenType::False | TokenType::Struct | TokenType::Import | TokenType::Mut | TokenType::Const
        | TokenType::In | TokenType::As => AnsiColor::Yellow,
        TokenType::DocComment => AnsiColor::Gray,
        TokenType::Plus | TokenType::Minus | TokenType::Star | TokenType::Slash | TokenType::Percent
        | TokenType::Bang | TokenType::Equal | TokenType::And | TokenType::Or | TokenType::BinaryAnd
        | TokenType::BinaryOr | TokenType::BinaryXor | TokenType::ShiftLeft | TokenType::ShiftRight
        | TokenType::BinaryAndEqual | TokenType::BinaryOrEqual | TokenType::BinaryXorEqual
        | TokenType::Arrow | TokenType::SlashEqual | TokenType::PlusEqual
        | TokenType::MinusEqual | TokenType::StarEqual | TokenType::PercentEqual | TokenType::EqualEqual
        | TokenType::BangEqual | TokenType::GreaterEqual | TokenType::LessEqual => AnsiColor::Magenta,
        TokenType::LeftParenthese | TokenType::RightParenthese | TokenType::LeftBrace | TokenType::RightBrace
        | TokenType::LeftSquare | TokenType::RightSquare | TokenType::Comma | TokenType::Dot | TokenType::DotDot
        | TokenType::DotDotEqual | TokenType::Colon | TokenType::Scope | TokenType::Semicolon | TokenType::Less
        | TokenType::Greater => AnsiColor::Gray,
        TokenType::Identifier => AnsiColor::White,
        TokenType::Eof => AnsiColor::Reset,
    }
}

/// How many columns a text takes: a tab takes `TAB_LENGTH`, any other character one.
pub open spec fn visible_len(s: Seq<char>) -> nat
    decreases s.len(),
{
    if s.len() == 0 {
        0
    } else {
        visible_len(s.drop_last()) + if s.last() == '\t' { TAB_LENGTH as nat } else { 1 }
    }
}

proof fn lemma_visible_len_bound(s: Seq<char>)
    ensures
        visible_len(s) <= 2 * s.len(),
    decreases s.len(),
{
    if s.len() > 0 {
        lemma_visible_len_bound(s.drop_last());
    }
}

/// How many columns the characters `chars[..end]` take.
fn visible_length(chars: &Vec<char>, end: usize) -> (n: usize)
    requires
        end <= chars@.len(),
        2 * chars@.len() <= usize::MAX,
    ensures
        n == visible_len(chars@.take(end as int)),
{
    let mut n: usize = 0;
    let mut i: usize = 0;
    proof {
        assert(chars@.take(0) =~= Seq::<char>::empty());
    }
    while i < end
        invariant
            i <= end <= chars@.len(),
            2 * chars@.len() <= usize::MAX,
            n == visible_len(chars@.take(i as int)),
        decreases end - i,
    {
        proof {
            assert(chars@.take(i + 1).drop_last() =~= chars@.take(i as int));
            lemma_visible_len_bound(chars@.take(i + 1));
        }
        if chars[i] == '\t' {
            n = n + TAB_LENGTH;
        } else {
            n = n + 1;
        }
        i = i + 1;
    }
    n
}

/// Appends `n` copies of a character.
fn push_repeated(s: &mut String, c: char, n: usize)
    ensures
        final(s)@ == old(s)@ + Seq::new(n as nat, |i: int| c),
{
    let mut i: usize = 0;
    while i < n
        invariant
            i <= n,
            s@ == old(s)@ + Seq::new(i as nat, |j: int| c),
        decreases n - i,
    {
        push_char(s, c);
        assert(old(s)@ + Seq::new((i + 1) as nat, |j: int| c) =~= old(s)@ + Seq::new(i as nat, |j: int| c) + seq![c]);
        i = i + 1;
    }
}

} // verus!

verus! {

/// Colors the tokens of a line, and the token under an error in the severity's color and
/// bold; the text between tokens is kept as it is, with tabs widened to `TAB_LENGTH`
/// spaces. Tokens are placed by their columns; a token moves the place on by the bytes
/// of its text.
fn highlight_line_with_tokens(
    line: &Vec<char>,
    severity: Severity,
    column: u16,
    length: u16,
    tokens: &[Token],
    on_line: &Vec<usize>,
) -> (s: String)
    requires
        forall|k: int| 0 <= k < on_line@.len() ==> on_line@[k] < tokens@.len(),
    ensures
        on_line@.len() == 0 ==> s@ == line@,
{
    let len = line.len();
    let mut result = String::new();
    let mut char_idx: usize = 0;
    let mut k: usize = 0;
    while k < on_line.len()
        invariant
            k <= on_line@.len(),
            len == line@.len(),
            on_line@.len() == 0 ==> char_idx == 0 && result@.len() == 0,
            forall|j: int| 0 <= j < on_line@.len() ==> on_line@[j] < tokens@.len(),
        decreases on_line.len() - k,
    {
        let token = &tokens[on_line[k]];
        let token_start_col: usize = if token.location.column >= 1 {
            (token.location.column - 1) as usize
        } else {
            0
        };
        while char_idx < len && char_idx < token_start_col
            invariant
                len == line@.len(),
            decreases len - char_idx,
        {
            let ch = line[char_idx];
            if ch == '\t' {
                push_str(&mut result, "  ");
            } else {
                push_char(&mut result, ch);
            }
            char_idx = char_idx + 1;
        }
        let lexeme_bytes = token.lexeme.as_str().len();
        let is_error = token.location.column >= column && (token.location.column - column) < length;
        if is_error {
            let inner = severity.color().apply(token.lexeme.as_str());
            push_str(&mut result, AnsiColor::Bold.apply(inner.as_str()).as_str());
        } else {
            let color = color_token(token);
            let bold = matches!(token.token_type, TokenType::Identifier) && char_idx < len && lexeme_bytes < len
                - char_idx && line[char_idx + lexeme_bytes] == ':';
            let colored_text = color.apply(token.lexeme.as_str());
            if bold {
                push_str(&mut result, AnsiColor::Bold.apply(colored_text.as_str()).as_str());
            } else {
                push_str(&mut result, colored_text.as_str());
            }
        }
        char_idx = if lexeme_bytes > usize::MAX - char_idx {
            usize::MAX
        } else {
            char_idx + lexeme_bytes
        };
        k = k + 1;
    }
    assert(on_line@.len() == 0 ==> char_idx == 0 && result@ =~= line@.take(0));
    while char_idx < len
        invariant
            len == line@.len(),
            char_idx <= len || on_line@.len() > 0,
            on_line@.len() == 0 ==> char_idx <= len && result@ == line@.take(char_idx as int),
        decreases len - char_idx,
    {
        push_char(&mut result, line[char_idx]);
        proof {
            if on_line@.len() == 0 {
                assert(result@ =~= line@.take(char_idx + 1));
            }
        }
        char_idx = char_idx + 1;
    }
    assert(on_line@.len() == 0 ==> line@.take(len as int) =~= line@);
    result
}

/// The number of characters of `line` that fit in its first `bytes` bytes.
fn chars_in_bytes(line: &Vec<char>, bytes: usize) -> (k: usize)
    ensures
        k <= line@.len(),
        utf8_len(line@.take(k as int)) <= bytes,
        k < line@.len() ==> utf8_len(line@.take(k + 1)) > bytes,
{
    let mut k: usize = 0;
    let mut off: usize = 0;
    assert(line@.take(0) =~= Seq::<char>::empty());
    while k < line.len()
        invariant
            k <= line@.len(),
            off <= bytes,
            off == utf8_len(line@.take(k as int)),
        decreases line.len() - k,
    {
        let w = len_utf8(line[k]);
        proof {
            crate::text::lemma_utf8_len_push(line@.take(k as int), line@[k as int]);
            assert(line@.take(k as int).push(line@[k as int]) =~= line@.take(k + 1));
        }
        if w > bytes - off {
            return k;
        }
        off = off + w;
        k = k + 1;
    }
    k
}

/// Appends a number right-aligned in `width` columns.
fn push_padded(s: &mut String, n: u32, width: usize)
    ensures
        final(s)@ == old(s)@ + Seq::new(
            if nat_digits(n as nat).len() < width { (width - nat_digits(n as nat).len()) as nat } else { 0 },
            |i: int| ' ',
        ) + nat_digits(n as nat),
{
    let mut digits = String::new();
    crate::text::push_u64(&mut digits, n as u64);
    assert(digits@ =~= nat_digits(n as nat));
    let chars = chars_of(digits.as_str());
    if chars.len() < width {
        push_repeated(s, ' ', width - chars.len());
    } else {
        assert(old(s)@ + Seq::new(0, |i: int| ' ') =~= old(s)@);
    }
    push_chars(s, &chars);
}

/// The line an error at `location` is shown on, counted from 0: its own line, or the last
/// line of the text where it lies beyond.
pub open spec fn error_line_index(lines: Seq<Seq<char>>, location: Location) -> int {
    let wanted = if location.line >= 1 { location.line - 1 } else { 0 };
    if wanted <= lines.len() - 1 { wanted } else { lines.len() - 1 }
}

/// The carets under an error can be placed: its column, cut to the length of its line,
/// falls between two characters of the line.
pub open spec fn caret_cut_fits(source: Seq<char>, location: Location) -> bool {
    let lines = text_lines(source);
    lines.len() == 0 || {
        let l = lines[error_line_index(lines, location)];
        let cut = if location.column as nat <= utf8_len(l) { location.column as nat } else { utf8_len(l) };
        crate::stdlib::is_offset(l, cut as int)
    }
}

/// The first line number (from 1) shown around an error on line `e`.
pub open spec fn context_first(e: int) -> int {
    if e > CONTEXT_LINES + 1 {
        e - CONTEXT_LINES
    } else {
        1
    }
}

/// The last line number shown around an error on line `e` of a text of `n` lines.
pub open spec fn context_last(e: int, n: int) -> int {
    if n - e >= CONTEXT_LINES {
        e + CONTEXT_LINES
    } else {
        n
    }
}

/// A line number right-aligned in four places, and the bar after it.
pub open spec fn numbered(n: nat) -> Seq<char> {
    Seq::new(if nat_digits(n).len() < 4 { (4 - nat_digits(n).len()) as nat } else { 0 }, |i: int| ' ')
        + nat_digits(n) + " │ "@
}

/// A shown line of the context other than the error line: its number, then the line as
/// highlighted (`shown`), then a newline.
pub open spec fn plain_piece(num: nat, shown: Seq<char>) -> Seq<char> {
    numbered(num) + shown + seq!['\n']
}

/// The error line of the context: its number in the severity's color, the line as
/// highlighted (`shown`), a newline; then a bar, `spaces` spaces past the bar's own, and as
/// many carets as the error is long (at least one) in the severity's color, and a newline.
pub open spec fn error_piece(severity: Severity, num: nat, shown: Seq<char>, spaces: nat, length: u16) -> Seq<char> {
    colored(severity_color(severity), numbered(num)) + shown + seq!['\n'] + "   │ "@ + seq![' '] + Seq::new(
        spaces,
        |i: int| ' ',
    ) + colored(severity_color(severity), Seq::new(if length > 1 { length as nat } else { 1 }, |i: int| '^'))
        + seq!['\n']
}

/// `piece` is the context's line `num`, shown as the error line where that is line `e`,
/// else as another line.
pub open spec fn context_piece(piece: Seq<char>, num: nat, e: int, severity: Severity, length: u16) -> bool {
    if num == e {
        exists|shown: Seq<char>, spaces: nat| piece == #[trigger] error_piece(severity, num, shown, spaces, length)
    } else {
        exists|shown: Seq<char>| piece == #[trigger] plain_piece(num, shown)
    }
}

/// The texts of `pieces`, one after another.
pub open spec fn concat_all(pieces: Seq<Seq<char>>) -> Seq<char>
    decreases pieces.len(),
{
    if pieces.len() == 0 {
        Seq::empty()
    } else {
        concat_all(pieces.drop_last()) + pieces.last()
    }
}

/// `ctx` is the context of an error in `source`: one piece for each line from
/// `CONTEXT_LINES` before the error line to `CONTEXT_LINES` after it (as far as the text
/// has lines), each with its number, the error line with carets under the error.
pub open spec fn context_shows(ctx: Seq<char>, source: Seq<char>, location: Location, severity: Severity) -> bool {
    let lines = text_lines(source);
    let e = error_line_index(lines, location) + 1;
    let first = context_first(e);
    let last = context_last(e, lines.len() as int);
    exists|pieces: Seq<Seq<char>>| {
        &&& pieces.len() == last - first + 1
        &&& ctx == #[trigger] concat_all(pieces)
        &&& forall|k: int| 0 <= k < pieces.len() ==> #[trigger] context_piece(pieces[k], (first + k) as nat, e, severity, location.length)
    }
}

/// Source context around an error: up to `CONTEXT_LINES` lines before and after the error
/// line, each with its number; the error line's tokens highlighted and carets under the
/// error. Empty for a text with no lines.
fn render_context(source: &str, severity: Severity, location: Location, tokens: &[Token]) -> (s: String)
    requires
        text_lines(source@).len() < u32::MAX,
        caret_cut_fits(source@, location),
    ensures
        text_lines(source@).len() == 0 <==> s@.len() == 0,
        text_lines(source@).len() > 0 ==> context_shows(s@, source@, location, severity),
{
    let lines = split_lines(source);
    if lines.len() == 0 {
        return String::new();
    }
    let n: u32 = lines.len() as u32;
    let wanted: u32 = if location.line >= 1 {
        location.line - 1
    } else {
        0
    };
    let error_line: u32 = if wanted <= n - 1 {
        wanted
    } else {
        n - 1
    };
    let actual_error_line = error_line + 1;
    let start_line: u32 = if actual_error_line > CONTEXT_LINES + 1 {
        actual_error_line - CONTEXT_LINES
    } else {
        1
    };
    let end_line: u32 = if n - actual_error_line >= CONTEXT_LINES {
        actual_error_line + CONTEXT_LINES
    } else {
        n
    };
    let mut result = String::new();
    let mut line_num: u32 = start_line;
    let ghost mut pieces: Seq<Seq<char>> = Seq::empty();
    proof {
        assert(actual_error_line == error_line_index(text_lines(source@), location) + 1);
        assert(start_line == context_first(actual_error_line as int));
        assert(end_line == context_last(actual_error_line as int, n as int));
        assert(result@ =~= concat_all(pieces));
    }
    while line_num <= end_line
        invariant
            1 <= start_line <= actual_error_line <= end_line <= n,
            n == lines@.len(),
            n < u32::MAX,
            start_line <= line_num <= end_line + 1,
            line_num > actual_error_line ==> result@.len() > 0,
            pieces.len() == line_num - start_line,
            result@ == concat_all(pieces),
            forall|k: int| 0 <= k < pieces.len() ==> #[trigger] context_piece(
                pieces[k],
                (start_line + k) as nat,
                actual_error_line as int,
                severity,
                location.length,
            ),
        decreases end_line + 1 - line_num,
    {
        let ghost before = result@;
        let line = &lines[(line_num - 1) as usize];
        let mut line_num_str = String::new();
        push_padded(&mut line_num_str, line_num, 4);
        push_str(&mut line_num_str, " │ ");
        let line_tokens = tokens_on_line(tokens, line_num);
        if line_num == actual_error_line {
            push_str(&mut result, severity.color().apply(line_num_str.as_str()).as_str());
            let highlighted = highlight_line_with_tokens(
                line,
                severity,
                location.column,
                location.length,
                tokens,
                &line_tokens,
            );
            push_str(&mut result, highlighted.as_str());
            push_char(&mut result, '\n');
            let line_bytes = crate::text::utf8_len_of(line);
            let cut: usize = if (location.column as u128) < line_bytes {
                location.column as usize
            } else {
                line_bytes as usize
            };
            let prefix_chars = chars_in_bytes(line, cut);
            proof {
                crate::text::lemma_utf8_len_ge_len(line@);
            }
            let spaces_before = if line.len() <= usize::MAX / 2 {
                visible_length(line, prefix_chars)
            } else {
                prefix_chars
            };
            let mut carets = String::new();
            let count: usize = if location.length > 1 {
                location.length as usize
            } else {
                1
            };
            push_repeated(&mut carets, '^', count);
            push_str(&mut result, "   │ ");
            push_char(&mut result, ' ');
            push_repeated(&mut result, ' ', spaces_before);
            push_str(&mut result, severity.color().apply(carets.as_str()).as_str());
            push_char(&mut result, '\n');
            proof {
                let piece = error_piece(severity, line_num as nat, highlighted@, spaces_before as nat, location.length);
                assert(result@ =~= before + piece);
                assert(context_piece(piece, line_num as nat, actual_error_line as int, severity, location.length));
                assert(pieces.push(piece).drop_last() =~= pieces);
                pieces = pieces.push(piece);
            }
        } else {
            push_str(&mut result, line_num_str.as_str());
            let highlighted = highlight_line_with_tokens(line, severity, 0, 0, tokens, &line_tokens);
            push_str(&mut result, highlighted.as_str());
            push_char(&mut result, '\n');
            proof {
                let piece = plain_piece(line_num as nat, highlighted@);
                assert(result@ =~= before + piece);
                assert(context_piece(piece, line_num as nat, actual_error_line as int, severity, location.length));
                assert(pieces.push(piece).drop_last() =~= pieces);
                pieces = pieces.push(piece);
            }
        }
        line_num = line_num + 1;
    }
    result
}

} // verus!

verus! {

/// The number of characters of a text that are not control characters.
pub open spec fn shown_count(s: Seq<char>) -> nat
    decreases s.len(),
{
    if s.len() == 0 {
        0
    } else {
        shown_count(s.drop_last()) + if spec_is_control(s.last()) { 0nat } else { 1nat }
    }
}

/// The title bar of a diagnostic before its fill: the severity, and the path as a link
/// where there is one.
pub open spec fn title_head(severity: Severity, path: Option<Seq<char>>) -> Seq<char> {
    "──[ Hail | "@ + severity_title(severity) + " "@ + match path {
        Some(p) => "@ \x1b]8;;file://"@ + p + "\x1b\\"@ + p + "\x1b]8;;\x1b\\ "@,
        None => Seq::empty(),
    } + "]──"@
}

/// How many bar characters are taken off the fill: the shown characters of the head,
/// less the link's own text and the path's bytes.
pub open spec fn title_taken(severity: Severity, path: Option<Seq<char>>) -> int {
    shown_count(title_head(severity, path)) - 17 - match path {
        Some(p) => utf8_len(p) as int,
        None => 0,
    }
}

/// The full title bar: the head, then bar characters up to `SEPERATOR_BAR_LENGTH`.
pub open spec fn title_bar(severity: Severity, path: Option<Seq<char>>) -> Seq<char> {
    let taken = title_taken(severity, path);
    let fill = if taken < SEPERATOR_BAR_LENGTH as int { SEPERATOR_BAR_LENGTH as int - taken } else { 0 };
    title_head(severity, path) + Seq::new(fill as nat, |i: int| '─')
}

/// The title bar of every severity leaves its fill length without underflow for this path.
pub open spec fn titles_fit(path: Option<&str>) -> bool {
    let p = match path {
        Some(p) => Some(p@),
        None => None::<Seq<char>>,
    };
    &&& title_taken(Severity::Error, p) >= 0
    &&& title_taken(Severity::Warning, p) >= 0
    &&& title_taken(Severity::Lint, p) >= 0
}

/// The shown characters of a text.
fn count_shown(s: &String) -> (n: usize)
    ensures
        n == shown_count(s@),
{
    let chars = chars_of(s.as_str());
    let mut n: usize = 0;
    let mut i: usize = 0;
    proof {
        assert(chars@.take(0) =~= Seq::<char>::empty());
    }
    while i < chars.len()
        invariant
            chars@ == s@,
            i <= chars@.len(),
            n == shown_count(chars@.take(i as int)),
            n <= i,
        decreases chars.len() - i,
    {
        proof {
            assert(chars@.take(i + 1).drop_last() =~= chars@.take(i as int));
        }
        if !is_control(chars[i]) {
            n = n + 1;
        }
        i = i + 1;
    }
    proof {
        assert(chars@.take(chars@.len() as int) =~= chars@);
    }
    n
}

/// The path as a sequence of characters, if there is one.
pub open spec fn path_view(path: Option<&str>) -> Option<Seq<char>> {
    match path {
        Some(p) => Some(p@),
        None => None::<Seq<char>>,
    }
}

/// `s` is a diagnostic as laid out: the title bar in the severity's color and a newline,
/// then the source context around `location` (or a note that no source is available, where
/// the source has no lines), then a newline, the message in the severity's color, and a
/// newline.
pub open spec fn laid_out(
    s: Seq<char>,
    source: Seq<char>,
    path: Option<Seq<char>>,
    severity: Severity,
    location: Location,
    message: Seq<char>,
) -> bool {
    let head = colored(severity_color(severity), title_bar(severity, path)) + "\n"@;
    let tail = "\n"@ + colored(severity_color(severity), message) + "\n"@;
    &&& s.len() >= head.len() + tail.len()
    &&& s.subrange(0, head.len() as int) == head
    &&& s.subrange(s.len() - tail.len(), s.len() as int) == tail
    &&& text_lines(source).len() == 0 ==> s == head + "   │ (source not available)\n"@ + tail
    &&& text_lines(source).len() > 0 ==> s.len() > head.len() + tail.len()
    &&& text_lines(source).len() > 0 ==> context_shows(
        s.subrange(head.len() as int, s.len() - tail.len()),
        source,
        location,
        severity,
    )
}

/// `s` is one diagnostic laid out with some message that the diagnostic gives.
pub open spec fn shows<D: Diagnostic>(s: Seq<char>, source: Seq<char>, path: Option<Seq<char>>, d: D) -> bool {
    exists|m: Seq<char>| #[trigger] d.message_is(m) && laid_out(s, source, path, d.spec_severity(), d.spec_location(), m)
}

/// The gray bar, and its newline, that stands between two diagnostics.
pub open spec fn separator_line() -> Seq<char> {
    colored(AnsiColor::Gray, Seq::new(SEPERATOR_BAR_LENGTH as nat, |i: int| '─')) + "\n"@
}

/// The parts one after another, with `sep` between two of them.
pub open spec fn joined(parts: Seq<Seq<char>>, sep: Seq<char>) -> Seq<char>
    decreases parts.len(),
{
    if parts.len() == 0 {
        Seq::empty()
    } else if parts.len() == 1 {
        parts[0]
    } else {
        joined(parts.drop_last(), sep) + sep + parts.last()
    }
}

/// Formats a diagnostic from its parts: a title bar in the severity's color, the source
/// context around its location (or a note that no source is available), and its message
/// in the severity's color.
#[verifier::rlimit(40)]
pub fn format_parts(
    source: &str,
    path: Option<&str>,
    severity: Severity,
    location: Location,
    message: &str,
    tokens: &[Token],
) -> (s: String)
    requires
        text_lines(source@).len() < u32::MAX,
        caret_cut_fits(source@, location),
        titles_fit(path),
    ensures
        laid_out(s@, source@, path_view(path), severity, location, message@),
{
    let ghost spec_path = match path {
        Some(p) => Some(p@),
        None => None::<Seq<char>>,
    };
    let title_color = severity.color();
    let mut bar = String::new();
    assert(bar@ =~= Seq::<char>::empty());
    push_str(&mut bar, "──[ Hail | ");
    push_str(&mut bar, severity.title());
    push_str(&mut bar, " ");
    let mut path_bytes: usize = 0;
    match path {
        Some(p) => {
            push_str(&mut bar, "@ \x1b]8;;file://");
            push_str(&mut bar, p);
            push_str(&mut bar, "\x1b\\");
            push_str(&mut bar, p);
            push_str(&mut bar, "\x1b]8;;\x1b\\ ");
            path_bytes = p.len();
        },
        None => {},
    }
    push_str(&mut bar, "]──");
    assert(bar@ == title_head(severity, spec_path));
    let shown = count_shown(&bar);
    proof {
        crate::text::lemma_utf8_len_encode(path.unwrap_or("")@);
    }
    let taken: usize = if shown >= 17 + path_bytes {
        shown - 17 - path_bytes
    } else {
        0
    };
    let fill: usize = if taken < SEPERATOR_BAR_LENGTH {
        SEPERATOR_BAR_LENGTH - taken
    } else {
        0
    };
    push_repeated(&mut bar, '─', fill);
    assert(bar@ == title_bar(severity, spec_path));
    let mut output = String::new();
    assert(output@ =~= Seq::<char>::empty());
    push_str(&mut output, title_color.apply(bar.as_str()).as_str());
    push_char(&mut output, '\n');
    let ghost head = output@;
    let context = render_context(source, severity, location, tokens);
    proof {
        crate::text::lemma_utf8_len_encode(context@);
        reveal_strlit("\n");
        if context@.len() == 0 {
            assert(context@ =~= Seq::<char>::empty());
        }
    }
    let ghost body: Seq<char>;
    if !context.as_str().is_empty() {
        push_str(&mut output, context.as_str());
        proof {
            body = context@;
        }
    } else {
        push_str(&mut output, "   │ (source not available)\n");
        proof {
            body = "   │ (source not available)\n"@;
            reveal_strlit("   │ (source not available)\n");
        }
    }
    push_char(&mut output, '\n');
    push_str(&mut output, severity.color().apply(message).as_str());
    push_char(&mut output, '\n');
    proof {
        let tail = "\n"@ + colored(severity_color(severity), message@) + "\n"@;
        assert(output@ =~= head + body + tail);
        assert(output@.subrange(0, head.len() as int) =~= head);
        assert(output@.subrange(output@.len() - tail.len(), output@.len() as int) =~= tail);
        assert(spec_path == path_view(path));
        assert(head == colored(severity_color(severity), title_bar(severity, path_view(path))) + "\n"@);
        assert(text_lines(source@).len() == 0 ==> body == "   │ (source not available)\n"@);
        assert(text_lines(source@).len() > 0 ==> body.len() > 0);
        assert(output@.subrange(head.len() as int, output@.len() - tail.len()) =~= body);
        assert(text_lines(source@).len() > 0 ==> body == context@);
        assert(text_lines(source@).len() > 0 ==> context_shows(body, source@, location, severity));
    }
    output
}

/// Formats a complete diagnostic: a title bar in the severity's color, the source
/// context around its location (or a note that no source is available), and its message
/// in the severity's color.
pub fn format_diagnostic<D: Diagnostic>(source: &str, path: Option<&str>, diagnostic: &D, tokens: &[Token]) -> (s: String)
    requires
        text_lines(source@).len() < u32::MAX,
        caret_cut_fits(source@, diagnostic.spec_location()),
        titles_fit(path),
    ensures
        shows(s@, source@, path_view(path), *diagnostic),
{
    let severity = diagnostic.severity();
    let location = diagnostic.location();
    let message = diagnostic.message();
    let s = format_parts(source, path, severity, location, message.as_str(), tokens);
    assert(diagnostic.message_is(message@));
    s
}

/// Formats several diagnostics, one after another, with a gray bar between two of them;
/// nothing for none.
pub fn format_diagnostics<T: Diagnostic>(source: &str, path: Option<&str>, diagnostics: &[T], tokens: &[Token]) -> (s: String)
    requires
        text_lines(source@).len() < u32::MAX,
        forall|i: int| 0 <= i < diagnostics@.len() ==> caret_cut_fits(source@, (#[trigger] diagnostics@[i]).spec_location()),
        titles_fit(path),
    ensures
        exists|parts: Seq<Seq<char>>| {
            &&& parts.len() == diagnostics@.len()
            &&& s@ == #[trigger] joined(parts, separator_line())
            &&& forall|i: int| 0 <= i < parts.len() ==> #[trigger] shows(parts[i], source@, path_view(path), diagnostics@[i])
        },
{
    let mut output = String::new();
    let ghost mut parts: Seq<Seq<char>> = Seq::empty();
    assert(output@ =~= joined(parts, separator_line()));
    let mut i: usize = 0;
    while i < diagnostics.len()
        invariant
            i <= diagnostics@.len(),
            parts.len() == i,
            output@ == joined(parts, separator_line()),
            forall|k: int| 0 <= k < i ==> #[trigger] shows(parts[k], source@, path_view(path), diagnostics@[k]),
            text_lines(source@).len() < u32::MAX,
            forall|j: int| 0 <= j < diagnostics@.len() ==> caret_cut_fits(source@, (#[trigger] diagnostics@[j]).spec_location()),
            titles_fit(path),
        decreases diagnostics.len() - i,
    {
        let ghost before = output@;
        if i > 0 {
            let mut separator = String::new();
            assert(separator@ =~= Seq::<char>::empty());
            push_repeated(&mut separator, '─', SEPERATOR_BAR_LENGTH);
            push_str(&mut output, AnsiColor::Gray.apply(separator.as_str()).as_str());
            push_char(&mut output, '\n');
            proof {
                reveal_strlit("\n");
                assert(separator@ =~= Seq::new(SEPERATOR_BAR_LENGTH as nat, |k: int| '─'));
                assert(output@ =~= before + separator_line());
            }
        }
        let ghost with_separator = output@;
        let shown = format_diagnostic(source, path, &diagnostics[i], tokens);
        push_str(&mut output, shown.as_str());
        proof {
            let next = parts.push(shown@);
            assert(next.drop_last() =~= parts);
            if i == 0 {
                assert(output@ =~= shown@);
            } else {
                assert(output@ =~= before + separator_line() + shown@);
            }
            assert(output@ == joined(next, separator_line()));
            parts = next;
        }
        i = i + 1;
    }
    output
}

} // verus!

verus! {

/// The head of the title bar for a severity and a path.
fn title_head_string(severity: Severity, path: Option<&str>) -> (s: String)
    ensures
        s@ == title_head(
            severity,
            match path {
                Some(p) => Some(p@),
                None => None,
            },
        ),
{
    let mut bar = String::new();
    assert(bar@ =~= Seq::<char>::empty());
    push_str(&mut bar, "──[ Hail | ");
    push_str(&mut bar, severity.title());
    push_str(&mut bar, " ");
    match path {
        Some(p) => {
            push_str(&mut bar, "@ \x1b]8;;file://");
            push_str(&mut bar, p);
            push_str(&mut bar, "\x1b\\");
            push_str(&mut bar, p);
            push_str(&mut bar, "\x1b]8;;\x1b\\ ");
        },
        None => {},
    }
    push_str(&mut bar, "]──");
    bar
}

/// Whether the title bar of a severity leaves its fill length without underflow.
fn title_fits(severity: Severity, path: Option<&str>) -> (b: bool)
    ensures
        b == (title_taken(
            severity,
            match path {
                Some(p) => Some(p@),
                None => None,
            },
        ) >= 0),
{
    let head = title_head_string(severity, path);
    let shown = count_shown(&head);
    let path_bytes: u128 = match path {
        Some(p) => crate::text::utf8_len_of(&chars_of(p)),
        None => 0,
    };
    path_bytes <= shown as u128 && shown as u128 - path_bytes >= 17
}

/// Whether a diagnostic at `location` can be formatted against `source` and `path`: the
/// text has fewer than `u32::MAX` lines, the carets can be placed, and the title bars fit.
pub fn can_format_at(source: &str, path: Option<&str>, location: Location) -> (b: bool)
    ensures
        b == (text_lines(source@).len() < u32::MAX && caret_cut_fits(source@, location) && titles_fit(path)),
{
    if !(title_fits(Severity::Error, path) && title_fits(Severity::Warning, path) && title_fits(Severity::Lint, path)) {
        return false;
    }
    let lines = split_lines(source);
    if lines.len() as u64 >= u32::MAX as u64 {
        return false;
    }
    if lines.len() == 0 {
        return true;
    }
    let n = lines.len();
    let wanted: usize = if location.line >= 1 {
        (location.line - 1) as usize
    } else {
        0
    };
    let index: usize = if wanted <= n - 1 {
        wanted
    } else {
        n - 1
    };
    let line = &lines[index];
    let line_bytes = crate::text::utf8_len_of(line);
    let cut: u128 = if (location.column as u128) <= line_bytes {
        location.column as u128
    } else {
        line_bytes
    };
    let text = crate::text::string_from_chars(line, 0, line.len());
    proof {
        assert(line@.subrange(0, line@.len() as int) =~= line@);
    }
    crate::stdlib::is_char_offset(&text, cut as i64)
}

} // verus!
