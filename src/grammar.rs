//! The grammar of the machine language, stated over the characters of a source text.
use vstd::prelude::*;

verus! {

/// The constructs of the language.
#[allow(non_camel_case_types)]
#[derive(Debug, Clone, Copy, PartialEq, Eq, Structural, Hash, PartialOrd, Ord)]
pub enum Rule {
    EOI,
    file,
    description,
    COMMENT,
    tape,
    value,
    initial_state,
    final_state,
    composition,
    function_name,
    instruction,
    instructions,
    state,
    movement,
}

/// The name of a construct.
pub open spec fn rule_name(r: Rule) -> Seq<char> {
    match r {
        Rule::EOI => "EOI"@,
        Rule::file => "file"@,
        Rule::description => "description"@,
        Rule::COMMENT => "COMMENT"@,
        Rule::tape => "tape"@,
        Rule::value => "value"@,
        Rule::initial_state => "initial_state"@,
        Rule::final_state => "final_state"@,
        Rule::composition => "composition"@,
        Rule::function_name => "function_name"@,
        Rule::instruction => "instruction"@,
        Rule::instructions => "instructions"@,
        Rule::state => "state"@,
        Rule::movement => "movement"@,
    }
}

impl Rule {
    /// The name of the construct.
    pub fn name(&self) -> (r: &'static str)
        ensures
            r@ == rule_name(*self),
    {
        match self {
            Rule::EOI => "EOI",
            Rule::file => "file",
            Rule::description => "description",
            Rule::COMMENT => "COMMENT",
            Rule::tape => "tape",
            Rule::value => "value",
            Rule::initial_state => "initial_state",
            Rule::final_state => "final_state",
            Rule::composition => "composition",
            Rule::function_name => "function_name",
            Rule::instruction => "instruction",
            Rule::instructions => "instructions",
            Rule::state => "state",
            Rule::movement => "movement",
        }
    }
}

/// Whitespace between tokens.
pub open spec fn is_space(c: char) -> bool {
    c == ' ' || c == '\t' || c == '\n' || c == '\r'
}

/// A character of an identifier: an ASCII letter or digit, or `_`.
pub open spec fn is_word_char(c: char) -> bool {
    ('a' <= c && c <= 'z') || ('A' <= c && c <= 'Z') || ('0' <= c && c <= '9') || c == '_'
}

/// A description starts at `i`: `///`.
pub open spec fn description_at(s: Seq<char>, i: int) -> bool {
    0 <= i && i + 2 < s.len() && s[i] == '/' && s[i + 1] == '/' && s[i + 2] == '/'
}

/// A comment starts at `i`: `//` not followed by a third `/`.
pub open spec fn comment_at(s: Seq<char>, i: int) -> bool {
    0 <= i && i + 1 < s.len() && s[i] == '/' && s[i + 1] == '/' && !(i + 2 < s.len() && s[i
        + 2] == '/')
}

/// Where the whitespace and comments that start at `i` end; `in_comment` tells whether
/// `i` lies inside a comment.
pub open spec fn skip_from(s: Seq<char>, i: int, in_comment: bool) -> int
    decreases s.len() - i,
{
    if !(0 <= i < s.len()) {
        i
    } else if in_comment {
        skip_from(s, i + 1, s[i] != '\n')
    } else if is_space(s[i]) {
        skip_from(s, i + 1, false)
    } else if comment_at(s, i) {
        skip_from(s, i + 2, true)
    } else {
        i
    }
}

/// The start of the next token at or after `i`.
pub open spec fn skip(s: Seq<char>, i: int) -> int {
    skip_from(s, i, false)
}

/// The end of the line that holds `i` (the index of its newline, or the end of the text).
pub open spec fn line_end(s: Seq<char>, i: int) -> int
    decreases s.len() - i,
{
    if 0 <= i < s.len() && s[i] != '\n' {
        line_end(s, i + 1)
    } else {
        i
    }
}

/// The end of the identifier that starts at `i`.
pub open spec fn word_end(s: Seq<char>, i: int) -> int
    decreases s.len() - i,
{
    if 0 <= i < s.len() && is_word_char(s[i]) {
        word_end(s, i + 1)
    } else {
        i
    }
}

/// Blank characters that a description is trimmed of.
pub open spec fn is_blank(c: char) -> bool {
    c == ' ' || c == '\t' || c == '\r'
}

/// The first index in `[a, e)` that does not hold a blank, or `e`.
pub open spec fn trim_front(s: Seq<char>, a: int, e: int) -> int
    decreases e - a,
{
    if a < e && is_blank(s[a]) {
        trim_front(s, a + 1, e)
    } else {
        a
    }
}

/// The end of `[a, e)` without its trailing blanks.
pub open spec fn trim_back(s: Seq<char>, a: int, e: int) -> int
    decreases e - a,
{
    if a < e && is_blank(s[e - 1]) {
        trim_back(s, a, e - 1)
    } else {
        e
    }
}

/// The characters of `[a, e)` without leading and trailing blanks.
pub open spec fn trimmed(s: Seq<char>, a: int, e: int) -> Seq<char> {
    let f = trim_front(s, a, e);
    s.subrange(f, trim_back(s, f, e))
}

/// A punctuation token `c` at the next token from `i`; gives the index after it.
pub open spec fn punct(s: Seq<char>, i: int, c: char, rule: Rule) -> Result<int, (int, Rule)> {
    let j = skip(s, i);
    if 0 <= j < s.len() && s[j] == c {
        Ok(j + 1)
    } else {
        Err((j, rule))
    }
}

/// An identifier at the next token from `i`; gives its span.
pub open spec fn word(s: Seq<char>, i: int, rule: Rule) -> Result<(int, int), (int, Rule)> {
    let j = skip(s, i);
    let k = word_end(s, j);
    if k > j {
        Ok((j, k))
    } else {
        Err((j, rule))
    }
}

/// A bit `0` or `1` at the next token from `i`; gives the bit and the index after it.
pub open spec fn bit(s: Seq<char>, i: int) -> Result<(bool, int), (int, Rule)> {
    let j = skip(s, i);
    if 0 <= j < s.len() && (s[j] == '0' || s[j] == '1') {
        Ok((s[j] == '1', j + 1))
    } else {
        Err((j, Rule::value))
    }
}

/// A movement symbol, one identifier character, at the next token from `i`; gives its
/// index.
pub open spec fn movement_token(s: Seq<char>, i: int) -> Result<int, (int, Rule)> {
    let j = skip(s, i);
    if 0 <= j < s.len() && is_word_char(s[j]) {
        Ok(j)
    } else {
        Err((j, Rule::movement))
    }
}

/// An instruction declaration as it stands in the source.
pub struct InstructionRecordView {
    pub from_state: Seq<char>,
    pub from_value: bool,
    pub to_value: bool,
    pub movement: Seq<char>,
    pub movement_at: int,
    pub to_state: Seq<char>,
    pub start: int,
    pub end: int,
}

/// A declaration of a program.
pub enum RecordView {
    Description(Seq<char>),
    Tape { bits: Seq<bool>, at: int, code: Seq<char> },
    InitialState(Seq<char>),
    FinalStates(Seq<Seq<char>>),
    Composition(Seq<(Seq<char>, int)>),
    Instruction(InstructionRecordView),
}

/// The offsets that a declaration holds lie within `[0, n]`.
pub open spec fn record_within(r: RecordView, n: int) -> bool {
    match r {
        RecordView::Tape { at, .. } => 0 <= at <= n,
        RecordView::Composition(names) => forall|i: int|
            0 <= i < names.len() ==> 0 <= #[trigger] names[i].1 <= n,
        RecordView::Instruction(ir) => 0 <= ir.movement_at <= n && 0 <= ir.start <= ir.end <= n,
        _ => true,
    }
}

/// The bits of a tape literal from `j` on: the bits read so far are `acc`, and `last`
/// is the index after the last of them. Gives the bits, the index where they stop, and
/// the index after the last bit.
pub open spec fn bits_from(s: Seq<char>, j: int, acc: Seq<bool>, last: int) -> (Seq<bool>, int, int)
    decreases s.len() - j,
{
    let k = skip(s, j);
    if 0 <= j <= k < s.len() && (s[k] == '0' || s[k] == '1') {
        bits_from(s, k + 1, acc.push(s[k] == '1'), k + 1)
    } else {
        (acc, k, last)
    }
}

/// A tape literal `{<bits>};` whose `{` stands at `i`.
pub open spec fn tape_at(s: Seq<char>, i: int) -> Result<(RecordView, int), (int, Rule)> {
    let first = skip(s, i + 1);
    let (bits, k, last) = bits_from(s, i + 1, Seq::empty(), i + 1);
    if bits.len() == 0 {
        Err((k, Rule::value))
    } else {
        match punct(s, k, '}', Rule::tape) {
            Err(e) => Err(e),
            Ok(k2) => match punct(s, k2, ';', Rule::tape) {
                Err(e) => Err(e),
                Ok(k3) => Ok((RecordView::Tape { bits, at: i, code: s.subrange(first, last) }, k3)),
            },
        }
    }
}

/// The identifiers of a list after the first: `, <name>` repeated, from `j` on. `acc`
/// holds the spans read so far. Gives the spans and the index after the last.
pub open spec fn names_from(s: Seq<char>, j: int, acc: Seq<(int, int)>, rule: Rule) -> Result<
    (Seq<(int, int)>, int),
    (int, Rule),
>
    decreases s.len() - j,
{
    let k = skip(s, j);
    if 0 <= j <= k < s.len() && s[k] == ',' {
        match word(s, k + 1, rule) {
            Err(e) => Err(e),
            Ok((a, b)) => if j < b <= s.len() {
                names_from(s, b, acc.push((a, b)), rule)
            } else {
                Err((a, rule))
            },
        }
    } else {
        Ok((acc, j))
    }
}

/// A list `{<name> (, <name>)*};` from `i` on (before its `{`). Gives the spans of the
/// names and the index after the `;`.
pub open spec fn list_at(s: Seq<char>, i: int, rule: Rule, names: Rule) -> Result<
    (Seq<(int, int)>, int),
    (int, Rule),
> {
    match punct(s, i, '{', rule) {
        Err(e) => Err(e),
        Ok(k) => match word(s, k, names) {
            Err(e) => Err(e),
            Ok((a, b)) => match names_from(s, b, seq![(a, b)], names) {
                Err(e) => Err(e),
                Ok((spans, k2)) => match punct(s, k2, '}', rule) {
                    Err(e) => Err(e),
                    Ok(k3) => match punct(s, k3, ';', rule) {
                        Err(e) => Err(e),
                        Ok(k4) => Ok((spans, k4)),
                    },
                },
            },
        },
    }
}

/// The texts of a list of spans.
pub open spec fn span_texts(s: Seq<char>, spans: Seq<(int, int)>) -> Seq<Seq<char>> {
    spans.map_values(|p: (int, int)| s.subrange(p.0, p.1))
}

/// The texts of a list of spans, each with where it starts.
pub open spec fn span_names(s: Seq<char>, spans: Seq<(int, int)>) -> Seq<(Seq<char>, int)> {
    spans.map_values(|p: (int, int)| (s.subrange(p.0, p.1), p.0))
}

/// An initial state `I = {<state>};` whose `I` stands at `i`.
pub open spec fn initial_at(s: Seq<char>, i: int) -> Result<(RecordView, int), (int, Rule)> {
    match punct(s, i + 1, '=', Rule::initial_state) {
        Err(e) => Err(e),
        Ok(k) => match punct(s, k, '{', Rule::initial_state) {
            Err(e) => Err(e),
            Ok(k1) => match word(s, k1, Rule::state) {
                Err(e) => Err(e),
                Ok((a, b)) => match punct(s, b, '}', Rule::initial_state) {
                    Err(e) => Err(e),
                    Ok(k2) => match punct(s, k2, ';', Rule::initial_state) {
                        Err(e) => Err(e),
                        Ok(k3) => Ok((RecordView::InitialState(s.subrange(a, b)), k3)),
                    },
                },
            },
        },
    }
}

/// The final states `F = {<state> (, <state>)*};` whose `F` stands at `i`.
pub open spec fn final_at(s: Seq<char>, i: int) -> Result<(RecordView, int), (int, Rule)> {
    match punct(s, i + 1, '=', Rule::final_state) {
        Err(e) => Err(e),
        Ok(k) => match list_at(s, k, Rule::final_state, Rule::state) {
            Err(e) => Err(e),
            Ok((spans, k2)) => Ok((RecordView::FinalStates(span_texts(s, spans)), k2)),
        },
    }
}

/// The word `compose`.
pub open spec fn compose_word() -> Seq<char> {
    seq!['c', 'o', 'm', 'p', 'o', 's', 'e']
}

/// A composition `compose = {<name> (, <name>)*};` whose `compose` stands at `i`.
pub open spec fn composition_at(s: Seq<char>, i: int) -> Result<(RecordView, int), (int, Rule)> {
    match punct(s, i + 7, '=', Rule::composition) {
        Err(e) => Err(e),
        Ok(k) => match list_at(s, k, Rule::composition, Rule::function_name) {
            Err(e) => Err(e),
            Ok((spans, k2)) => Ok((RecordView::Composition(span_names(s, spans)), k2)),
        },
    }
}

/// An instruction `(<state>, <bit>, <bit>, <movement>, <state>);` whose `(` stands at `i`.
pub open spec fn instruction_at(s: Seq<char>, i: int) -> Result<(RecordView, int), (int, Rule)> {
    match word(s, i + 1, Rule::state) {
        Err(e) => Err(e),
        Ok((a1, b1)) => match punct(s, b1, ',', Rule::instruction) {
            Err(e) => Err(e),
            Ok(k1) => match bit(s, k1) {
                Err(e) => Err(e),
                Ok((v1, k2)) => match punct(s, k2, ',', Rule::instruction) {
                    Err(e) => Err(e),
                    Ok(k3) => match bit(s, k3) {
                        Err(e) => Err(e),
                        Ok((v2, k4)) => match punct(s, k4, ',', Rule::instruction) {
                            Err(e) => Err(e),
                            Ok(k5) => match movement_token(s, k5) {
                                Err(e) => Err(e),
                                Ok(m) => match punct(s, m + 1, ',', Rule::instruction) {
                                    Err(e) => Err(e),
                                    Ok(k6) => match word(s, k6, Rule::state) {
                                        Err(e) => Err(e),
                                        Ok((a2, b2)) => match punct(s, b2, ')', Rule::instruction) {
                                            Err(e) => Err(e),
                                            Ok(k7) => match punct(s, k7, ';', Rule::instruction) {
                                                Err(e) => Err(e),
                                                Ok(k8) => Ok(
                                                    (
                                                        RecordView::Instruction(
                                                            InstructionRecordView {
                                                                from_state: s.subrange(a1, b1),
                                                                from_value: v1,
                                                                to_value: v2,
                                                                movement: s.subrange(m, m + 1),
                                                                movement_at: m,
                                                                to_state: s.subrange(a2, b2),
                                                                start: i,
                                                                end: k8,
                                                            },
                                                        ),
                                                        k8,
                                                    ),
                                                ),
                                            },
                                        },
                                    },
                                },
                            },
                        },
                    },
                },
            },
        },
    }
}

/// The declaration that starts at `i`, a token start, with the index after it.
pub open spec fn record_at(s: Seq<char>, i: int) -> Result<(RecordView, int), (int, Rule)> {
    if description_at(s, i) {
        let e = line_end(s, i);
        Ok((RecordView::Description(trimmed(s, i + 3, e)), e))
    } else if s[i] == '{' {
        tape_at(s, i)
    } else if s[i] == '(' {
        instruction_at(s, i)
    } else if s[i] == 'I' {
        initial_at(s, i)
    } else if s[i] == 'F' {
        final_at(s, i)
    } else if i + 7 <= s.len() && s.subrange(i, i + 7) == compose_word() {
        composition_at(s, i)
    } else {
        Err((i, Rule::EOI))
    }
}

/// The declarations from `i` to the end, after those in `acc`.
pub open spec fn records_from(s: Seq<char>, i: int, acc: Seq<RecordView>) -> Result<
    Seq<RecordView>,
    (int, Rule),
>
    decreases s.len() - i,
{
    let j = skip(s, i);
    if !(0 <= i <= j < s.len()) {
        Ok(acc)
    } else {
        match record_at(s, j) {
            Err(e) => Err(e),
            Ok((r, k)) => if j < k <= s.len() {
                records_from(s, k, acc.push(r))
            } else {
                Err((j, Rule::EOI))
            },
        }
    }
}

/// The declarations of a source text, in order, or where and what the grammar expected
/// when it fails.
pub open spec fn parse_records(s: Seq<char>) -> Result<Seq<RecordView>, (int, Rule)> {
    records_from(s, 0, Seq::empty())
}

} // verus!
