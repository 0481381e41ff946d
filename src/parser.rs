//! The parser: source text to declarations, as the grammar states.
use vstd::prelude::*;

use crate::turing::names_of;
use crate::warnings::{
    file_rule_view, position_at, CompilerError, ErrorPosition, ParseError,
};
use crate::grammar::{
    bit, bits_from, composition_at, compose_word, description_at, final_at, initial_at,
    instruction_at, is_word_char, line_end, list_at, movement_token, names_from, punct,
    parse_records, record_at, record_within, records_from, skip, skip_from, span_names, span_texts, tape_at, trim_back,
    trim_front, trimmed, word, word_end, InstructionRecordView, RecordView, Rule,
};

verus! {

/// An instruction declaration as it stands in the source: the states and bits, the
/// movement symbol and where it stands, and the span of the declaration (character
/// offsets).
#[derive(Debug, Clone, PartialEq, Eq)]
pub struct InstructionRecord {
    pub from_state: String,
    pub from_value: bool,
    pub to_value: bool,
    /// The movement symbol, one character.
    pub movement: String,
    pub movement_at: usize,
    pub to_state: String,
    pub start: usize,
    pub end: usize,
}

/// A declaration of a program.
#[derive(Debug, Clone, PartialEq, Eq)]
pub enum Record {
    /// The text of a `///` line, trimmed.
    Description(String),
    /// A tape literal: its bits, the offset of its `{`, and the text of its bits.
    Tape { bits: Vec<bool>, at: usize, code: String },
    InitialState(String),
    FinalStates(Vec<String>),
    /// The composed library names, each with its offset.
    Composition(Vec<(String, usize)>),
    Instruction(InstructionRecord),
}

impl View for InstructionRecord {
    type V = InstructionRecordView;

    open spec fn view(&self) -> InstructionRecordView {
        InstructionRecordView {
            from_state: self.from_state@,
            from_value: self.from_value,
            to_value: self.to_value,
            movement: self.movement@,
            movement_at: self.movement_at as int,
            to_state: self.to_state@,
            start: self.start as int,
            end: self.end as int,
        }
    }
}

impl View for Record {
    type V = RecordView;

    open spec fn view(&self) -> RecordView {
        match self {
            Record::Description(d) => RecordView::Description(d@),
            Record::Tape { bits, at, code } => RecordView::Tape {
                bits: bits@,
                at: *at as int,
                code: code@,
            },
            Record::InitialState(st) => RecordView::InitialState(st@),
            Record::FinalStates(v) => RecordView::FinalStates(names_of(v@)),
            Record::Composition(v) => RecordView::Composition(located_names(v@)),
            Record::Instruction(r) => RecordView::Instruction(r@),
        }
    }
}

/// Names with their offsets, in the spec's terms.
pub open spec fn located_names(v: Seq<(String, usize)>) -> Seq<(Seq<char>, int)> {
    v.map_values(|x: (String, usize)| (x.0@, x.1 as int))
}

/// A failure of the grammar, with its offset, in the spec's terms.
pub open spec fn fail_view(e: (usize, Rule)) -> (int, Rule) {
    (e.0 as int, e.1)
}

/// The spans of a list, in the spec's terms.
pub open spec fn spans_view(v: Seq<(usize, usize)>) -> Seq<(int, int)> {
    v.map_values(|p: (usize, usize)| (p.0 as int, p.1 as int))
}

/// Each span is a range within `[0, n]`.
pub open spec fn spans_within(v: Seq<(usize, usize)>, n: int) -> bool {
    forall|x: int| 0 <= x < v.len() ==> #[trigger] v[x].0 <= v[x].1 <= n
}

fn word_char(c: char) -> (r: bool)
    ensures
        r == is_word_char(c),
{
    ('a' <= c && c <= 'z') || ('A' <= c && c <= 'Z') || ('0' <= c && c <= '9') || c == '_'
}

/// The start of the next token at or after `i`.
pub fn skip_trivia(s: &Vec<char>, i: usize) -> (r: usize)
    requires
        i <= s.len(),
    ensures
        r == skip(s@, i as int),
        i <= r <= s.len(),
{
    let mut j = i;
    let mut in_comment = false;
    while j < s.len()
        invariant
            i <= j <= s.len(),
            skip_from(s@, j as int, in_comment) == skip_from(s@, i as int, false),
        decreases s.len() - j,
    {
        let c = s[j];
        if in_comment {
            in_comment = c != '\n';
            j = j + 1;
        } else if c == ' ' || c == '\t' || c == '\n' || c == '\r' {
            j = j + 1;
        } else if c == '/' && j + 1 < s.len() && s[j + 1] == '/' && !(j + 2 < s.len() && s[j
            + 2] == '/') {
            in_comment = true;
            j = j + 2;
        } else {
            return j;
        }
    }
    j
}

fn find_line_end(s: &Vec<char>, i: usize) -> (r: usize)
    requires
        i <= s.len(),
    ensures
        r == line_end(s@, i as int),
        i <= r <= s.len(),
{
    let mut j = i;
    while j < s.len() && s[j] != '\n'
        invariant
            i <= j <= s.len(),
            line_end(s@, j as int) == line_end(s@, i as int),
        decreases s.len() - j,
    {
        j = j + 1;
    }
    j
}

fn find_word_end(s: &Vec<char>, i: usize) -> (r: usize)
    requires
        i <= s.len(),
    ensures
        r == word_end(s@, i as int),
        i <= r <= s.len(),
{
    let mut j = i;
    while j < s.len() && word_char(s[j])
        invariant
            i <= j <= s.len(),
            word_end(s@, j as int) == word_end(s@, i as int),
        decreases s.len() - j,
    {
        j = j + 1;
    }
    j
}

fn expect_punct(s: &Vec<char>, i: usize, c: char, rule: Rule) -> (r: Result<usize, (usize, Rule)>)
    requires
        i <= s.len(),
    ensures
        match r {
            Ok(k) => punct(s@, i as int, c, rule) == Ok::<int, (int, Rule)>(k as int) && i < k
                <= s.len(),
            Err(e) => punct(s@, i as int, c, rule) == Err::<int, (int, Rule)>(fail_view(e)) && e.0 <= s.len(),
        },
{
    let j = skip_trivia(s, i);
    if j < s.len() && s[j] == c {
        Ok(j + 1)
    } else {
        Err((j, rule))
    }
}

fn expect_word(s: &Vec<char>, i: usize, rule: Rule) -> (r: Result<(usize, usize), (usize, Rule)>)
    requires
        i <= s.len(),
    ensures
        match r {
            Ok((a, b)) => word(s@, i as int, rule) == Ok::<(int, int), (int, Rule)>(
                (a as int, b as int),
            ) && i <= a < b <= s.len(),
            Err(e) => word(s@, i as int, rule) == Err::<(int, int), (int, Rule)>(fail_view(e)) && e.0 <= s.len(),
        },
{
    let j = skip_trivia(s, i);
    let k = find_word_end(s, j);
    if k > j {
        Ok((j, k))
    } else {
        Err((j, rule))
    }
}

fn expect_bit(s: &Vec<char>, i: usize) -> (r: Result<(bool, usize), (usize, Rule)>)
    requires
        i <= s.len(),
    ensures
        match r {
            Ok((v, k)) => bit(s@, i as int) == Ok::<(bool, int), (int, Rule)>((v, k as int)) && i
                < k <= s.len(),
            Err(e) => bit(s@, i as int) == Err::<(bool, int), (int, Rule)>(fail_view(e)) && e.0 <= s.len(),
        },
{
    let j = skip_trivia(s, i);
    if j < s.len() && (s[j] == '0' || s[j] == '1') {
        Ok((s[j] == '1', j + 1))
    } else {
        Err((j, Rule::value))
    }
}

fn expect_movement(s: &Vec<char>, i: usize) -> (r: Result<usize, (usize, Rule)>)
    requires
        i <= s.len(),
    ensures
        match r {
            Ok(m) => movement_token(s@, i as int) == Ok::<int, (int, Rule)>(m as int) && i <= m
                < s.len(),
            Err(e) => movement_token(s@, i as int) == Err::<int, (int, Rule)>(fail_view(e)) && e.0 <= s.len(),
        },
{
    let j = skip_trivia(s, i);
    if j < s.len() && word_char(s[j]) {
        Ok(j)
    } else {
        Err((j, Rule::movement))
    }
}

/// The text of `[a, b)`.
fn text(code: &str, s: &Vec<char>, a: usize, b: usize) -> (r: String)
    requires
        code@ == s@,
        a <= b <= s.len(),
    ensures
        r@ == s@.subrange(a as int, b as int),
{
    code.substring_char(a, b).to_owned()
}

fn tape_record(code: &str, s: &Vec<char>, i: usize) -> (r: Result<(Record, usize), (usize, Rule)>)
    requires
        code@ == s@,
        i < s.len(),
    ensures
        match r {
            Ok((rec, k)) => tape_at(s@, i as int) == Ok::<(RecordView, int), (int, Rule)>(
                (rec@, k as int),
            ) && i < k <= s.len() && record_within(rec@, s.len() as int),
            Err(e) => tape_at(s@, i as int) == Err::<(RecordView, int), (int, Rule)>(fail_view(e)) && e.0 <= s.len(),
        },
{
    let first = skip_trivia(s, i + 1);
    let mut bits: Vec<bool> = Vec::new();
    let mut j = i + 1;
    let mut last = i + 1;
    let mut k = first;
    while k < s.len() && (s[k] == '0' || s[k] == '1')
        invariant
            i + 1 <= j <= k <= s.len(),
            i + 1 <= last <= s.len(),
            k == skip(s@, j as int),
            bits_from(s@, j as int, bits@, last as int) == bits_from(
                s@,
                i + 1,
                Seq::empty(),
                i + 1,
            ),
            bits@.len() > 0 ==> first < last,
            bits@.len() == 0 ==> j == i + 1,
            last == j,
            first == skip(s@, i + 1),
            first >= i + 1,
        decreases s.len() - j,
    {
        bits.push(s[k] == '1');
        j = k + 1;
        last = k + 1;
        k = skip_trivia(s, j);
    }
    if bits.len() == 0 {
        return Err((k, Rule::value));
    }
    let k2 = match expect_punct(s, k, '}', Rule::tape) {
        Ok(x) => x,
        Err(e) => {
            return Err(e);
        },
    };
    let k3 = match expect_punct(s, k2, ';', Rule::tape) {
        Ok(x) => x,
        Err(e) => {
            return Err(e);
        },
    };
    let code_text = text(code, s, first, last);
    Ok((Record::Tape { bits, at: i, code: code_text }, k3))
}

/// The names of a list after its first, `, <name>` repeated, from `j` on; appends their
/// spans to `spans`.
fn more_names(s: &Vec<char>, j0: usize, spans: &mut Vec<(usize, usize)>, rule: Rule) -> (r: Result<
    usize,
    (usize, Rule),
>)
    requires
        j0 <= s.len(),
        spans_within(old(spans)@, s.len() as int),
    ensures
        spans_within(final(spans)@, s.len() as int),
        match r {
            Ok(k) => names_from(s@, j0 as int, spans_view(old(spans)@), rule) == Ok::<
                (Seq<(int, int)>, int),
                (int, Rule),
            >((spans_view(final(spans)@), k as int)) && j0 <= k <= s.len(),
            Err(e) => names_from(s@, j0 as int, spans_view(old(spans)@), rule) == Err::<
                (Seq<(int, int)>, int),
                (int, Rule),
            >(fail_view(e)) && e.0 <= s.len(),
        },
{
    let ghost target = names_from(s@, j0 as int, spans_view(old(spans)@), rule);
    let mut j = j0;
    loop
        invariant
            j0 <= j <= s.len(),
            target == names_from(s@, j0 as int, spans_view(old(spans)@), rule),
            names_from(s@, j as int, spans_view(spans@), rule) == target,
            spans_within(spans@, s.len() as int),
        decreases s.len() - j,
    {
        let k = skip_trivia(s, j);
        if k < s.len() && s[k] == ',' {
            match expect_word(s, k + 1, rule) {
                Err(e) => {
                    return Err(e);
                },
                Ok((a, b)) => {
                    proof {
                        assert(spans_view(spans@.push((a, b))) =~= spans_view(spans@).push(
                            (a as int, b as int),
                        ));
                    }
                    spans.push((a, b));
                    j = b;
                },
            }
        } else {
            return Ok(j);
        }
    }
}

/// A list `{<name> (, <name>)*};` from `i` on; gives the spans of the names.
fn name_list(s: &Vec<char>, i: usize, rule: Rule, names: Rule) -> (r: Result<
    (Vec<(usize, usize)>, usize),
    (usize, Rule),
>)
    requires
        i <= s.len(),
    ensures
        match r {
            Ok((spans, k)) => list_at(s@, i as int, rule, names) == Ok::<
                (Seq<(int, int)>, int),
                (int, Rule),
            >((spans_view(spans@), k as int)) && i < k <= s.len() && spans_within(spans@, s.len() as int),
            Err(e) => list_at(s@, i as int, rule, names) == Err::<
                (Seq<(int, int)>, int),
                (int, Rule),
            >(fail_view(e)) && e.0 <= s.len(),
        },
{
    let k = match expect_punct(s, i, '{', rule) {
        Ok(x) => x,
        Err(e) => {
            return Err(e);
        },
    };
    let (a, b) = match expect_word(s, k, names) {
        Ok(x) => x,
        Err(e) => {
            return Err(e);
        },
    };
    let mut spans: Vec<(usize, usize)> = Vec::new();
    spans.push((a, b));
    proof {
        assert(spans_view(spans@) =~= seq![(a as int, b as int)]);
    }
    let k2 = match more_names(s, b, &mut spans, names) {
        Ok(x) => x,
        Err(e) => {
            return Err(e);
        },
    };
    let k3 = match expect_punct(s, k2, '}', rule) {
        Ok(x) => x,
        Err(e) => {
            return Err(e);
        },
    };
    let k4 = match expect_punct(s, k3, ';', rule) {
        Ok(x) => x,
        Err(e) => {
            return Err(e);
        },
    };
    Ok((spans, k4))
}

fn initial_record(code: &str, s: &Vec<char>, i: usize) -> (r: Result<(Record, usize), (usize, Rule)>)
    requires
        code@ == s@,
        i < s.len(),
    ensures
        match r {
            Ok((rec, k)) => initial_at(s@, i as int) == Ok::<(RecordView, int), (int, Rule)>(
                (rec@, k as int),
            ) && i < k <= s.len() && record_within(rec@, s.len() as int),
            Err(e) => initial_at(s@, i as int) == Err::<(RecordView, int), (int, Rule)>(
                fail_view(e),
            ) && e.0 <= s.len(),
        },
{
    let k = match expect_punct(s, i + 1, '=', Rule::initial_state) {
        Ok(x) => x,
        Err(e) => {
            return Err(e);
        },
    };
    let k1 = match expect_punct(s, k, '{', Rule::initial_state) {
        Ok(x) => x,
        Err(e) => {
            return Err(e);
        },
    };
    let (a, b) = match expect_word(s, k1, Rule::state) {
        Ok(x) => x,
        Err(e) => {
            return Err(e);
        },
    };
    let k2 = match expect_punct(s, b, '}', Rule::initial_state) {
        Ok(x) => x,
        Err(e) => {
            return Err(e);
        },
    };
    let k3 = match expect_punct(s, k2, ';', Rule::initial_state) {
        Ok(x) => x,
        Err(e) => {
            return Err(e);
        },
    };
    Ok((Record::InitialState(text(code, s, a, b)), k3))
}

fn final_record(code: &str, s: &Vec<char>, i: usize) -> (r: Result<(Record, usize), (usize, Rule)>)
    requires
        code@ == s@,
        i < s.len(),
    ensures
        match r {
            Ok((rec, k)) => final_at(s@, i as int) == Ok::<(RecordView, int), (int, Rule)>(
                (rec@, k as int),
            ) && i < k <= s.len() && record_within(rec@, s.len() as int),
            Err(e) => final_at(s@, i as int) == Err::<(RecordView, int), (int, Rule)>(fail_view(e)) && e.0 <= s.len(),
        },
{
    let k = match expect_punct(s, i + 1, '=', Rule::final_state) {
        Ok(x) => x,
        Err(e) => {
            return Err(e);
        },
    };
    let (spans, k2) = match name_list(s, k, Rule::final_state, Rule::state) {
        Ok(x) => x,
        Err(e) => {
            return Err(e);
        },
    };
    let mut states: Vec<String> = Vec::new();
    let mut x: usize = 0;
    while x < spans.len()
        invariant
            x <= spans.len(),
            code@ == s@,
            spans_within(spans@, s.len() as int),
            names_of(states@) == span_texts(s@, spans_view(spans@)).take(x as int),
        decreases spans.len() - x,
    {
        let t = text(code, s, spans[x].0, spans[x].1);
        assert(span_texts(s@, spans_view(spans@))[x as int] == t@);
        let ghost before = states@;
        states.push(t);
        assert(names_of(states@) =~= names_of(before).push(t@));
        assert(span_texts(s@, spans_view(spans@)).take(x + 1) =~= span_texts(
            s@,
            spans_view(spans@),
        ).take(x as int).push(t@));
        x = x + 1;
    }
    assert(span_texts(s@, spans_view(spans@)).take(x as int) =~= span_texts(
        s@,
        spans_view(spans@),
    ));
    Ok((Record::FinalStates(states), k2))
}

fn composition_record(code: &str, s: &Vec<char>, i: usize) -> (r: Result<
    (Record, usize),
    (usize, Rule),
>)
    requires
        code@ == s@,
        i + 7 <= s.len(),
    ensures
        match r {
            Ok((rec, k)) => composition_at(s@, i as int) == Ok::<(RecordView, int), (int, Rule)>(
                (rec@, k as int),
            ) && i < k <= s.len() && record_within(rec@, s.len() as int),
            Err(e) => composition_at(s@, i as int) == Err::<(RecordView, int), (int, Rule)>(
                fail_view(e),
            ) && e.0 <= s.len(),
        },
{
    let k = match expect_punct(s, i + 7, '=', Rule::composition) {
        Ok(x) => x,
        Err(e) => {
            return Err(e);
        },
    };
    let (spans, k2) = match name_list(s, k, Rule::composition, Rule::function_name) {
        Ok(x) => x,
        Err(e) => {
            return Err(e);
        },
    };
    let mut names: Vec<(String, usize)> = Vec::new();
    let mut x: usize = 0;
    while x < spans.len()
        invariant
            x <= spans.len(),
            code@ == s@,
            spans_within(spans@, s.len() as int),
            located_names(names@) == span_names(s@, spans_view(spans@)).take(x as int),
        decreases spans.len() - x,
    {
        let t = text(code, s, spans[x].0, spans[x].1);
        assert(span_names(s@, spans_view(spans@))[x as int] == (t@, spans[x as int].0 as int));
        let ghost before = names@;
        let ghost item = (t@, spans[x as int].0 as int);
        names.push((t, spans[x].0));
        assert(located_names(names@) =~= located_names(before).push(item));
        assert(span_names(s@, spans_view(spans@)).take(x + 1) =~= span_names(
            s@,
            spans_view(spans@),
        ).take(x as int).push(item));
        x = x + 1;
    }
    assert(span_names(s@, spans_view(spans@)).take(x as int) =~= span_names(
        s@,
        spans_view(spans@),
    ));
    Ok((Record::Composition(names), k2))
}

fn instruction_record(code: &str, s: &Vec<char>, i: usize) -> (r: Result<
    (Record, usize),
    (usize, Rule),
>)
    requires
        code@ == s@,
        i < s.len(),
    ensures
        match r {
            Ok((rec, k)) => instruction_at(s@, i as int) == Ok::<(RecordView, int), (int, Rule)>(
                (rec@, k as int),
            ) && i < k <= s.len() && record_within(rec@, s.len() as int),
            Err(e) => instruction_at(s@, i as int) == Err::<(RecordView, int), (int, Rule)>(
                fail_view(e),
            ) && e.0 <= s.len(),
        },
{
    let (a1, b1) = match expect_word(s, i + 1, Rule::state) {
        Ok(x) => x,
        Err(e) => {
            return Err(e);
        },
    };
    let k1 = match expect_punct(s, b1, ',', Rule::instruction) {
        Ok(x) => x,
        Err(e) => {
            return Err(e);
        },
    };
    let (v1, k2) = match expect_bit(s, k1) {
        Ok(x) => x,
        Err(e) => {
            return Err(e);
        },
    };
    let k3 = match expect_punct(s, k2, ',', Rule::instruction) {
        Ok(x) => x,
        Err(e) => {
            return Err(e);
        },
    };
    let (v2, k4) = match expect_bit(s, k3) {
        Ok(x) => x,
        Err(e) => {
            return Err(e);
        },
    };
    let k5 = match expect_punct(s, k4, ',', Rule::instruction) {
        Ok(x) => x,
        Err(e) => {
            return Err(e);
        },
    };
    let m = match expect_movement(s, k5) {
        Ok(x) => x,
        Err(e) => {
            return Err(e);
        },
    };
    let k6 = match expect_punct(s, m + 1, ',', Rule::instruction) {
        Ok(x) => x,
        Err(e) => {
            return Err(e);
        },
    };
    let (a2, b2) = match expect_word(s, k6, Rule::state) {
        Ok(x) => x,
        Err(e) => {
            return Err(e);
        },
    };
    let k7 = match expect_punct(s, b2, ')', Rule::instruction) {
        Ok(x) => x,
        Err(e) => {
            return Err(e);
        },
    };
    let k8 = match expect_punct(s, k7, ';', Rule::instruction) {
        Ok(x) => x,
        Err(e) => {
            return Err(e);
        },
    };
    let rec = InstructionRecord {
        from_state: text(code, s, a1, b1),
        from_value: v1,
        to_value: v2,
        movement: text(code, s, m, m + 1),
        movement_at: m,
        to_state: text(code, s, a2, b2),
        start: i,
        end: k8,
    };
    Ok((Record::Instruction(rec), k8))
}

fn description_record(code: &str, s: &Vec<char>, i: usize) -> (r: (Record, usize))
    requires
        code@ == s@,
        description_at(s@, i as int),
    ensures
        r.0@ == RecordView::Description(trimmed(s@, i + 3, line_end(s@, i as int))),
        r.1 == line_end(s@, i as int),
        i < r.1 <= s.len(),
{
    assert(i + 3 <= s.len());
    let e = find_line_end(s, i + 3);
    assert(line_end(s@, i as int) == line_end(s@, i + 1));
    assert(line_end(s@, i + 1) == line_end(s@, i + 2));
    assert(line_end(s@, i + 2) == line_end(s@, i + 3));
    let mut a = i + 3;
    while a < e && (s[a] == ' ' || s[a] == '\t' || s[a] == '\r')
        invariant
            i + 3 <= a <= e <= s.len(),
            trim_front(s@, a as int, e as int) == trim_front(s@, i + 3, e as int),
        decreases e - a,
    {
        a = a + 1;
    }
    let mut b = e;
    while a < b && (s[b - 1] == ' ' || s[b - 1] == '\t' || s[b - 1] == '\r')
        invariant
            a <= b <= e <= s.len(),
            trim_back(s@, a as int, b as int) == trim_back(s@, a as int, e as int),
        decreases b - a,
    {
        b = b - 1;
    }
    (Record::Description(text(code, s, a, b)), e)
}

fn starts_compose(s: &Vec<char>, i: usize) -> (r: bool)
    requires
        i <= s.len(),
    ensures
        r == (i + 7 <= s.len() && s@.subrange(i as int, i + 7) == compose_word()),
{
    if s.len() - i < 7 {
        return false;
    }
    let r = s[i] == 'c' && s[i + 1] == 'o' && s[i + 2] == 'm' && s[i + 3] == 'p' && s[i + 4]
        == 'o' && s[i + 5] == 's' && s[i + 6] == 'e';
    proof {
        let w = s@.subrange(i as int, i + 7);
        if r {
            assert(w =~= compose_word());
        } else if w == compose_word() {
            assert(w[0] == 'c' && w[1] == 'o' && w[2] == 'm' && w[3] == 'p');
            assert(w[4] == 'o' && w[5] == 's' && w[6] == 'e');
        }
    }
    r
}

fn next_record(code: &str, s: &Vec<char>, i: usize) -> (r: Result<(Record, usize), (usize, Rule)>)
    requires
        code@ == s@,
        i < s.len(),
    ensures
        match r {
            Ok((rec, k)) => record_at(s@, i as int) == Ok::<(RecordView, int), (int, Rule)>(
                (rec@, k as int),
            ) && i < k <= s.len() && record_within(rec@, s.len() as int),
            Err(e) => record_at(s@, i as int) == Err::<(RecordView, int), (int, Rule)>(fail_view(e)) && e.0 <= s.len(),
        },
{
    if s.len() - i > 2 && s[i] == '/' && s[i + 1] == '/' && s[i + 2] == '/' {
        let (rec, e) = description_record(code, s, i);
        Ok((rec, e))
    } else if s[i] == '{' {
        tape_record(code, s, i)
    } else if s[i] == '(' {
        instruction_record(code, s, i)
    } else if s[i] == 'I' {
        initial_record(code, s, i)
    } else if s[i] == 'F' {
        final_record(code, s, i)
    } else if starts_compose(s, i) {
        composition_record(code, s, i)
    } else {
        Err((i, Rule::EOI))
    }
}

/// The declarations of a source text whose characters are `s`.
pub fn parse_chars(code: &str, s: &Vec<char>) -> (r: Result<Vec<Record>, (usize, Rule)>)
    requires
        code@ == s@,
    ensures
        match r {
            Ok(v) => parse_records(s@) == Ok::<Seq<RecordView>, (int, Rule)>(records_view(v@))
                && forall|x: int|
                0 <= x < v@.len() ==> record_within(#[trigger] records_view(v@)[x], s.len() as int),
            Err(e) => parse_records(s@) == Err::<Seq<RecordView>, (int, Rule)>(fail_view(e)) && e.0 <= s.len(),
        },
{
    let mut records: Vec<Record> = Vec::new();
    let mut i: usize = 0;
    assert(records_view(records@) =~= Seq::empty());
    loop
        invariant
            code@ == s@,
            i <= s.len(),
            records_from(s@, i as int, records_view(records@)) == parse_records(s@),
            forall|x: int|
                0 <= x < records@.len() ==> record_within(
                    #[trigger] records_view(records@)[x],
                    s.len() as int,
                ),
        decreases s.len() - i,
    {
        let j = skip_trivia(s, i);
        if j >= s.len() {
            return Ok(records);
        }
        match next_record(code, s, j) {
            Err(e) => {
                return Err(e);
            },
            Ok((rec, k)) => {
                proof {
                    assert(records_view(records@.push(rec)) =~= records_view(records@).push(rec@));
                }
                records.push(rec);
                i = k;
            },
        }
    }
}

/// The views of a list of declarations.
pub open spec fn records_view(v: Seq<Record>) -> Seq<RecordView> {
    v.map_values(|r: Record| r@)
}

/// The characters of `s`, in order.
pub fn chars_of(s: &str) -> (r: Vec<char>)
    ensures
        r@ == s@,
{
    let mut r: Vec<char> = Vec::new();
    for c in it: s.chars()
        invariant
            r@ == it.seq().take(it.index() as int),
            it.seq() == s@,
    {
        r.push(c);
    }
    r
}

/// Whether two texts are equal.
pub fn same_text(a: &str, b: &str) -> (r: bool)
    ensures
        r == (a@ == b@),
{
    let x = chars_of(a);
    let y = chars_of(b);
    if x.len() != y.len() {
        return false;
    }
    let mut i: usize = 0;
    while i < x.len()
        invariant
            x.len() == y.len(),
            x@ == a@,
            y@ == b@,
            i <= x.len(),
            forall|j: int| 0 <= j < i ==> x@[j] == y@[j],
        decreases x.len() - i,
    {
        if x[i] != y[i] {
            return false;
        }
        i = i + 1;
    }
    assert(x@ =~= y@);
    true
}

/// The error for a failure of the grammar at offset `e.0` of `s`.
pub fn file_rule_error(code: &str, s: &Vec<char>, e: (usize, Rule)) -> (r: CompilerError)
    requires
        code@ == s@,
        e.0 <= s.len(),
    ensures
        r@ == file_rule_view(s@, e.0 as int, e.1),
{
    let (position, start) = position_at(s, e.0);
    let end = find_line_end(s, e.0);
    CompilerError::FileRuleError {
        error: ParseError {
            position: ErrorPosition::new(position, None),
            expected: e.1,
            line: text(code, s, start, end),
        },
    }
}

/// The parser of the machine language.
pub struct TuringParser;

impl TuringParser {
    /// The declarations of a source text, in order, or the error for where it does not
    /// follow the grammar.
    pub fn parse(code: &str) -> (r: Result<Vec<Record>, CompilerError>)
        ensures
            match r {
                Ok(v) => parse_records(code@) == Ok::<Seq<RecordView>, (int, Rule)>(
                    records_view(v@),
                ),
                Err(e) => exists|at: int, rule: Rule|
                    parse_records(code@) == Err::<Seq<RecordView>, (int, Rule)>((at, rule))
                        && e@ == file_rule_view(code@, at, rule),
            },
    {
        let s = chars_of(code);
        match parse_chars(code, &s) {
            Ok(v) => Ok(v),
            Err(e) => Err(file_rule_error(code, &s, e)),
        }
    }
}

} // verus!
