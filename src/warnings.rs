//! Source positions and the diagnostics of the compiler.
use vstd::prelude::*;

use crate::grammar::{line_end, rule_name, Rule};

verus! {

/// A position in the source: the line (counted from 0) and the column (counted from 1)
/// where a construct starts, and where it ends if that is known.
#[derive(Debug, Clone, Copy, PartialEq, Eq)]
pub struct ErrorPosition {
    pub start: (usize, usize),
    pub end: Option<(usize, usize)>,
}

/// The decimal digits of `n`.
pub open spec fn decimal(n: nat) -> Seq<char>
    decreases n,
{
    if n < 10 {
        seq![digit(n)]
    } else {
        decimal(n / 10) + seq![digit(n % 10)]
    }
}

/// The digit of a number below ten.
pub open spec fn digit(d: nat) -> char {
    if d == 0 {
        '0'
    } else if d == 1 {
        '1'
    } else if d == 2 {
        '2'
    } else if d == 3 {
        '3'
    } else if d == 4 {
        '4'
    } else if d == 5 {
        '5'
    } else if d == 6 {
        '6'
    } else if d == 7 {
        '7'
    } else if d == 8 {
        '8'
    } else {
        '9'
    }
}

/// Append the decimal digits of `n`.
pub fn push_decimal(out: &mut String, n: usize)
    ensures
        final(out)@ == old(out)@ + decimal(n as nat),
    decreases n,
{
    if n >= 10 {
        push_decimal(out, n / 10);
    }
    let d = n % 10;
    let text = if d == 0 {
        "0"
    } else if d == 1 {
        "1"
    } else if d == 2 {
        "2"
    } else if d == 3 {
        "3"
    } else if d == 4 {
        "4"
    } else if d == 5 {
        "5"
    } else if d == 6 {
        "6"
    } else if d == 7 {
        "7"
    } else if d == 8 {
        "8"
    } else {
        "9"
    };
    proof {
        reveal_strlit("0");
        reveal_strlit("1");
        reveal_strlit("2");
        reveal_strlit("3");
        reveal_strlit("4");
        reveal_strlit("5");
        reveal_strlit("6");
        reveal_strlit("7");
        reveal_strlit("8");
        reveal_strlit("9");
        assert(text@ =~= seq![digit(d as nat)]);
    }
    out.append(text);
    proof {
        if n < 10 {
            assert(old(out)@ + decimal(n as nat) =~= old(out)@ + seq![digit(n as nat)]);
        } else {
            assert(old(out)@ + decimal(n as nat) =~= old(out)@ + decimal((n / 10) as nat) + seq![
                digit(d as nat),
            ]);
        }
    }
}

/// The text of a (line, column) pair: `line:column`.
pub open spec fn line_col_text(p: (usize, usize)) -> Seq<char> {
    decimal(p.0 as nat) + seq![':'] + decimal(p.1 as nat)
}

/// The text of a position: `line:column`, or `line:column to line:column`.
pub open spec fn position_text(p: ErrorPosition) -> Seq<char> {
    match p.end {
        Some(e) => line_col_text(p.start) + " to "@ + line_col_text(e),
        None => line_col_text(p.start),
    }
}

impl ErrorPosition {
    /// The position as `line:column`, or `line:column to line:column`.
    pub fn to_string(&self) -> (r: String)
        ensures
            r@ == position_text(*self),
    {
        proof {
            reveal_strlit(":");
        }
        let mut r = String::new();
        push_decimal(&mut r, self.start.0);
        r.append(":");
        push_decimal(&mut r, self.start.1);
        match self.end {
            Some(e) => {
                r.append(" to ");
                push_decimal(&mut r, e.0);
                r.append(":");
                push_decimal(&mut r, e.1);
            },
            None => {},
        }
        r
    }

    pub fn new(start: (usize, usize), end: Option<(usize, usize)>) -> (r: Self)
        ensures
            r.start == start,
            r.end == end,
    {
        ErrorPosition { start, end }
    }
}

/// The line of offset `i`: the number of newlines before it.
pub open spec fn line_of(s: Seq<char>, i: int) -> nat
    decreases i,
{
    if i <= 0 {
        0
    } else {
        line_of(s, i - 1) + if s[i - 1] == '\n' {
            1nat
        } else {
            0nat
        }
    }
}

/// The offset where the line that holds offset `i` starts.
pub open spec fn line_start(s: Seq<char>, i: int) -> int
    decreases i,
{
    if i <= 0 {
        0
    } else if s[i - 1] == '\n' {
        i
    } else {
        line_start(s, i - 1)
    }
}

/// The column of offset `i`, counted from 1, stopping at the largest `usize`.
pub open spec fn col_of(s: Seq<char>, i: int) -> usize {
    let c = i - line_start(s, i) + 1;
    if c > usize::MAX {
        usize::MAX
    } else {
        c as usize
    }
}

/// The (line, column) of offset `i`.
pub open spec fn line_col(s: Seq<char>, i: int) -> (usize, usize) {
    (line_of(s, i) as usize, col_of(s, i))
}

/// The position of the construct that starts at offset `i`, with no end.
pub open spec fn point(s: Seq<char>, i: int) -> ErrorPosition {
    ErrorPosition { start: line_col(s, i), end: None }
}

/// The position of the construct that spans offsets `[a, b)`.
pub open spec fn span(s: Seq<char>, a: int, b: int) -> ErrorPosition {
    ErrorPosition { start: line_col(s, a), end: Some(line_col(s, b)) }
}

/// The text of the line that holds offset `i`.
pub open spec fn line_text(s: Seq<char>, i: int) -> Seq<char> {
    s.subrange(line_start(s, i), line_end(s, i))
}

/// The (line, column) of offset `i` of `s`, and the offset where its line starts.
pub fn position_at(s: &Vec<char>, i: usize) -> (r: ((usize, usize), usize))
    requires
        i <= s.len(),
    ensures
        r.0 == line_col(s@, i as int),
        r.1 == line_start(s@, i as int),
        r.1 <= i,
{
    let mut line: usize = 0;
    let mut start: usize = 0;
    let mut j: usize = 0;
    while j < i
        invariant
            j <= i <= s.len(),
            line == line_of(s@, j as int),
            start == line_start(s@, j as int),
            line <= j,
            start <= j,
        decreases i - j,
    {
        if s[j] == '\n' {
            line = line + 1;
            start = j + 1;
        }
        j = j + 1;
    }
    let col = if i - start < usize::MAX {
        i - start + 1
    } else {
        usize::MAX
    };
    ((line, col), start)
}

/// A warning of the compiler: it built the machine but the code may not mean what it says.
#[derive(Debug, Clone, PartialEq, Eq)]
pub enum CompilerWarning {
    /// An instruction replaced an earlier one for the same state and bit.
    StateOverwrite {
        position: ErrorPosition,
        /// The state whose instruction was replaced.
        state: String,
        value_from: bool,
    },
}

/// The mathematical value of a warning.
pub struct WarningView {
    pub position: ErrorPosition,
    pub state: Seq<char>,
    pub value_from: bool,
}

impl View for CompilerWarning {
    type V = WarningView;

    open spec fn view(&self) -> WarningView {
        match self {
            CompilerWarning::StateOverwrite { position, state, value_from } => WarningView {
                position: *position,
                state: state@,
                value_from: *value_from,
            },
        }
    }
}

/// A failure of the grammar: where it happened, what was expected there, and the text of
/// the line.
#[derive(Debug, Clone, PartialEq, Eq)]
pub struct ParseError {
    pub position: ErrorPosition,
    pub expected: Rule,
    pub line: String,
}

/// An error of the compiler; the code is not compiled.
#[derive(Debug, Clone, PartialEq, Eq)]
pub enum CompilerError {
    /// A construct that the grammar accepts but the compiler rejects.
    SyntaxError {
        position: ErrorPosition,
        /// The error message
        message: String,
        /// The code that caused the error
        code: String,
        expected: Rule,
        found: Option<Rule>,
    },
    /// The code does not follow the grammar.
    FileRuleError { error: ParseError },
}

/// The mathematical value of an error.
pub enum ErrorView {
    Syntax {
        position: ErrorPosition,
        message: Seq<char>,
        code: Seq<char>,
        expected: Rule,
        found: Option<Rule>,
    },
    FileRule { position: ErrorPosition, expected: Rule, line: Seq<char> },
}

/// The error for a failure of the grammar at offset `at`, where it expected `rule`.
pub open spec fn file_rule_view(s: Seq<char>, at: int, rule: Rule) -> ErrorView {
    ErrorView::FileRule { position: point(s, at), expected: rule, line: line_text(s, at) }
}

impl View for CompilerError {
    type V = ErrorView;

    open spec fn view(&self) -> ErrorView {
        match self {
            CompilerError::SyntaxError { position, message, code, expected, found } => {
                ErrorView::Syntax {
                    position: *position,
                    message: message@,
                    code: code@,
                    expected: *expected,
                    found: *found,
                }
            },
            CompilerError::FileRuleError { error } => ErrorView::FileRule {
                position: error.position,
                expected: error.expected,
                line: error.line@,
            },
        }
    }
}

/// The message of an error whose grammar expected `rule`: `expected <rule>`.
pub open spec fn expected_message(rule: Rule) -> Seq<char> {
    "expected "@ + rule_name(rule)
}

/// The text of an optional construct, as `Some(<rule>)` or `None`.
pub open spec fn found_text(found: Option<Rule>) -> Seq<char> {
    match found {
        Some(r) => "Some("@ + rule_name(r) + ")"@,
        None => "None"@,
    }
}

impl CompilerError {
    /// The error message.
    pub fn message(&self) -> (r: String)
        ensures
            r@ == match self@ {
                ErrorView::Syntax { message, .. } => message,
                ErrorView::FileRule { expected, .. } => expected_message(expected),
            },
    {
        match self {
            CompilerError::SyntaxError { message, .. } => message.clone(),
            CompilerError::FileRuleError { error } => {
                let mut r = String::new();
                r.append("expected ");
                r.append(error.expected.name());
                r
            },
        }
    }

    /// What was expected and what was found: `Expected <rule>, found <found>` for a
    /// syntax error, the message for a failure of the grammar.
    pub fn get_message_expected(&self) -> (r: String)
        ensures
            r@ == match self@ {
                ErrorView::Syntax { expected, found, .. } => "Expected "@ + rule_name(expected)
                    + ", found "@ + found_text(found),
                ErrorView::FileRule { expected, .. } => expected_message(expected),
            },
    {
        match self {
            CompilerError::SyntaxError { expected, found, .. } => {
                let mut r = String::new();
                r.append("Expected ");
                r.append(expected.name());
                r.append(", found ");
                match found {
                    Some(f) => {
                        r.append("Some(");
                        r.append(f.name());
                        r.append(")");
                    },
                    None => {
                        r.append("None");
                    },
                }
                r
            },
            CompilerError::FileRuleError { .. } => self.message(),
        }
    }

    /// The code that caused the error; for a failure of the grammar, its line.
    pub fn code(&self) -> (r: String)
        ensures
            r@ == match self@ {
                ErrorView::Syntax { code, .. } => code,
                ErrorView::FileRule { line, .. } => line,
            },
    {
        match self {
            CompilerError::SyntaxError { code, .. } => code.clone(),
            CompilerError::FileRuleError { error } => error.line.clone(),
        }
    }

    /// The line of a syntax error; 0 for a failure of the grammar.
    pub fn line(&self) -> (r: usize)
        ensures
            r == match self@ {
                ErrorView::Syntax { position, .. } => position.start.0,
                ErrorView::FileRule { .. } => 0,
            },
    {
        match self {
            CompilerError::SyntaxError { position, .. } => position.start.0,
            CompilerError::FileRuleError { .. } => 0,
        }
    }

    /// The position of the error.
    pub fn position(&self) -> (r: ErrorPosition)
        ensures
            r == match self@ {
                ErrorView::Syntax { position, .. } => position,
                ErrorView::FileRule { position, .. } => position,
            },
    {
        match self {
            CompilerError::SyntaxError { position, .. } => *position,
            CompilerError::FileRuleError { error } => error.position,
        }
    }

    /// The construct that was expected.
    pub fn expected(&self) -> (r: Rule)
        ensures
            r == match self@ {
                ErrorView::Syntax { expected, .. } => expected,
                ErrorView::FileRule { expected, .. } => expected,
            },
    {
        match self {
            CompilerError::SyntaxError { expected, .. } => *expected,
            CompilerError::FileRuleError { error } => error.expected,
        }
    }

    /// The construct that was found; for a failure of the grammar, the one it expected.
    pub fn found(&self) -> (r: Option<Rule>)
        ensures
            r == match self@ {
                ErrorView::Syntax { found, .. } => found,
                ErrorView::FileRule { expected, .. } => Some(expected),
            },
    {
        match self {
            CompilerError::SyntaxError { found, .. } => *found,
            CompilerError::FileRuleError { error } => Some(error.expected),
        }
    }
}

} // verus!
