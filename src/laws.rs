//! Laws that relate the compiler's and the machine's operations.
use vstd::prelude::*;

use crate::compiler::{
    build_from, build_record, compile, compose_from, declare, empty_build, has_one, machine_of,
    tape_bits, tape_error, BuildView,
};
use crate::grammar::{
    bits_from, is_space, parse_records, record_at, records_from, skip, tape_at,
    InstructionRecordView, RecordView, Rule,
};
use crate::instruction::{
    instruction_from, movement_of, movement_of_token, unknown_movement_message, InstructionView,
    Movement,
};
use crate::library::{library_code, library_table};
use crate::turing::{has_margin, MachineView};
use crate::warnings::{point, span, ErrorView, WarningView};

verus! {

/// Every symbol of a movement denotes the same movement: `R` and `D` go right, `L` and
/// `I` go left, `H` and `N` halt.
pub proof fn movement_synonyms()
    ensures
        movement_of('R') == movement_of('D'),
        movement_of('R') == Some(Movement::RIGHT),
        movement_of('L') == movement_of('I'),
        movement_of('L') == Some(Movement::LEFT),
        movement_of('H') == movement_of('N'),
        movement_of('H') == Some(Movement::HALT),
{
}

/// An instruction whose movement symbol denotes no movement stops the build with a
/// syntax error at that symbol.
pub proof fn unknown_movement_fails(s: Seq<char>, b: BuildView, r: InstructionRecordView)
    requires
        movement_of_token(r.movement) is None,
    ensures
        build_record(s, b, RecordView::Instruction(r)) == Err::<BuildView, ErrorView>(
            ErrorView::Syntax {
                position: point(s, r.movement_at),
                message: unknown_movement_message(r.movement),
                code: r.movement,
                expected: Rule::movement,
                found: None,
            },
        ),
{
}

/// A tape literal without a `1` stops the build with the error "Expected at least a 1 in
/// the tape".
pub proof fn zero_tape_fails(s: Seq<char>, b: BuildView, bits: Seq<bool>, at: int, code: Seq<char>)
    requires
        forall|i: int| 0 <= i < bits.len() ==> !bits[i],
    ensures
        build_record(s, b, RecordView::Tape { bits, at, code }) == Err::<BuildView, ErrorView>(
            tape_error(s, at, code),
        ),
        tape_error(s, at, code) matches ErrorView::Syntax { message, .. } && message
            == "Expected at least a 1 in the tape"@,
{
}

/// Two instructions for the same (state, bit), where the program had none: the build goes
/// on, gives one warning, at the second declaration, and keeps the second instruction.
pub proof fn overwrite_keeps_second(
    s: Seq<char>,
    b: BuildView,
    r1: InstructionRecordView,
    r2: InstructionRecordView,
    x1: InstructionView,
    x2: InstructionView,
)
    requires
        instruction_from(r1, point(s, r1.movement_at)) == Ok::<InstructionView, ErrorView>(x1),
        instruction_from(r2, point(s, r2.movement_at)) == Ok::<InstructionView, ErrorView>(x2),
        x1.key() == x2.key(),
        !b.table.contains_key(x1.key()),
    ensures
        ({
            let b1 = declare(s, b, x1, r1.start, r1.end);
            &&& build_record(s, b, RecordView::Instruction(r1)) == Ok::<BuildView, ErrorView>(b1)
            &&& build_record(s, b1, RecordView::Instruction(r2)) == Ok::<BuildView, ErrorView>(
                declare(s, b1, x2, r2.start, r2.end),
            )
            &&& declare(s, b1, x2, r2.start, r2.end).table[x2.key()] == x2
            &&& declare(s, b1, x2, r2.start, r2.end).warnings == b.warnings.push(
                WarningView {
                    position: span(s, r2.start, r2.end),
                    state: x2.from_state,
                    value_from: x2.from_value,
                },
            )
        }),
{
}

/// Composing a library adds no warning, whatever it replaces; an instruction declared
/// after it for a key that the library defines wins over the library's.
pub proof fn declared_wins_over_library(
    s: Seq<char>,
    b: BuildView,
    name: Seq<char>,
    at: int,
    code: Seq<char>,
    t: Map<(Seq<char>, bool), InstructionView>,
    r: InstructionRecordView,
    x: InstructionView,
)
    requires
        library_code(name) == Some(code),
        library_table(code) == Ok::<Map<(Seq<char>, bool), InstructionView>, ErrorView>(t),
        instruction_from(r, point(s, r.movement_at)) == Ok::<InstructionView, ErrorView>(x),
        t.contains_key(x.key()),
    ensures
        ({
            let b1 = BuildView {
                table: b.table.union_prefer_right(t),
                composed: b.composed.push(name),
                ..b
            };
            &&& build_record(s, b, RecordView::Composition(seq![(name, at)])) == Ok::<
                BuildView,
                ErrorView,
            >(b1)
            &&& b1.warnings == b.warnings
            &&& build_record(s, b1, RecordView::Instruction(r)) == Ok::<BuildView, ErrorView>(
                declare(s, b1, x, r.start, r.end),
            )
            &&& declare(s, b1, x, r.start, r.end).table[x.key()] == x
        }),
{
    let b1 = BuildView { table: b.table.union_prefer_right(t), composed: b.composed.push(name), ..b };
    assert(compose_from(s, seq![(name, at)], 1, b1) == Ok::<BuildView, ErrorView>(b1));
}

/// A step keeps the head's margin of three cells on each side.
pub proof fn step_keeps_margin(m: MachineView)
    requires
        has_margin(m.tape, m.position),
    ensures
        has_margin(m.step().tape, m.step().position),
        has_margin(m.run(1).tape, m.run(1).position),
{
    assert(m.run(1) == m.step().run(0));
}

/// Just after the visit counts are reset, no state counts as looping.
pub proof fn reset_forgets_loops(m: MachineView, threshold: usize)
    ensures
        !(MachineView { frequencies: Map::empty(), ..m }).loops_past(threshold),
{
}

/// The bits that a text of `0`s and `1`s denotes.
pub open spec fn bits_of(t: Seq<char>) -> Seq<bool> {
    t.map_values(|c: char| c == '1')
}

/// The text holds only `0`s and `1`s.
pub open spec fn is_bit_text(t: Seq<char>) -> bool {
    forall|i: int| 0 <= i < t.len() ==> t[i] == '0' || t[i] == '1'
}

/// The program that only declares the tape literal `{t};`.
pub open spec fn tape_source(t: Seq<char>) -> Seq<char> {
    seq!['{'] + t + seq!['}', ';']
}

proof fn lemma_skip_at_token(s: Seq<char>, i: int)
    requires
        0 <= i < s.len(),
        !is_space(s[i]),
        s[i] != '/',
    ensures
        skip(s, i) == i,
{
}

proof fn lemma_skip_at_end(s: Seq<char>)
    ensures
        skip(s, s.len() as int) == s.len(),
{
}

proof fn lemma_tape_bits(t: Seq<char>, j: int, acc: Seq<bool>, last: int)
    requires
        is_bit_text(t),
        1 <= j <= t.len() + 1,
    ensures
        bits_from(tape_source(t), j, acc, last) == (
            acc + bits_of(t.subrange(j - 1, t.len() as int)),
            t.len() + 1int,
            if j <= t.len() {
                t.len() + 1int
            } else {
                last
            },
        ),
    decreases t.len() + 1 - j,
{
    let s = tape_source(t);
    let n = t.len() as int;
    if j == n + 1 {
        assert(s[n + 1] == '}');
        lemma_skip_at_token(s, n + 1);
        assert(acc + bits_of(t.subrange(n, n)) =~= acc);
    } else {
        assert(s[j] == t[j - 1]);
        lemma_skip_at_token(s, j);
        lemma_tape_bits(t, j + 1, acc.push(s[j] == '1'), j + 1);
        assert(acc.push(s[j] == '1') + bits_of(t.subrange(j, n)) =~= acc + bits_of(
            t.subrange(j - 1, n),
        ));
    }
}

/// How a program that only declares `{t};` parses: one tape declaration, with the bits
/// of `t`, at offset 0, whose code is `t`.
proof fn lemma_tape_source_parses(t: Seq<char>)
    requires
        is_bit_text(t),
        t.len() > 0,
    ensures
        parse_records(tape_source(t)) == Ok::<Seq<RecordView>, (int, Rule)>(
            seq![RecordView::Tape { bits: bits_of(t), at: 0, code: t }],
        ),
{
    let s = tape_source(t);
    let n = t.len() as int;
    assert(s[0] == '{');
    lemma_skip_at_token(s, 0);
    assert(s[1] == t[0]);
    lemma_skip_at_token(s, 1);
    lemma_tape_bits(t, 1, Seq::empty(), 1);
    assert(Seq::<bool>::empty() + bits_of(t.subrange(0, n)) =~= bits_of(t));
    assert(s[n + 1] == '}');
    lemma_skip_at_token(s, n + 1);
    assert(s[n + 2] == ';');
    lemma_skip_at_token(s, n + 2);
    assert(s.subrange(1, n + 1) =~= t);
    let rec = RecordView::Tape { bits: bits_of(t), at: 0, code: t };
    assert(tape_at(s, 0) == Ok::<(RecordView, int), (int, Rule)>((rec, n + 3)));
    assert(record_at(s, 0) == Ok::<(RecordView, int), (int, Rule)>((rec, n + 3)));
    lemma_skip_at_end(s);
    assert(records_from(s, n + 3, seq![rec]) == Ok::<Seq<RecordView>, (int, Rule)>(seq![rec]));
    assert(Seq::<RecordView>::empty().push(rec) =~= seq![rec]);
}

/// A program that only declares a tape literal of `0`s and `1`s with at least one `1`
/// compiles, with no warning, to a machine whose tape, past the three blank cells of the
/// margin where the head stands, holds the literal's bits, but for a single leading `0`.
pub proof fn tape_literal_round_trip(t: Seq<char>)
    requires
        is_bit_text(t),
        t.contains('1'),
    ensures
        compile(tape_source(t)) matches Ok((m, w)) && w.len() == 0 && m.position == 3
            && m.tape.subrange(3, 3 + tape_bits(bits_of(t)).len() as int) == tape_bits(bits_of(t))
            && forall|i: int| 0 <= i < 3 ==> !m.tape[i],
        tape_bits(bits_of(t)) == (if t[0] == '0' {
            bits_of(t.drop_first())
        } else {
            bits_of(t)
        }),
{
    let s = tape_source(t);
    lemma_tape_source_parses(t);
    let i = choose|i: int| 0 <= i < t.len() && t[i] == '1';
    assert(bits_of(t)[i]);
    assert(has_one(bits_of(t)));
    let rec = RecordView::Tape { bits: bits_of(t), at: 0, code: t };
    let b = BuildView { tape: tape_bits(bits_of(t)), ..empty_build() };
    assert(build_record(s, empty_build(), rec) == Ok::<BuildView, ErrorView>(b));
    assert(build_from(s, seq![rec], 1, b) == Ok::<BuildView, ErrorView>(b));
    assert(build_from(s, seq![rec], 0, empty_build()) == Ok::<BuildView, ErrorView>(b));
    let m = machine_of(s, b);
    let tb = tape_bits(bits_of(t));
    assert(m.tape.subrange(3, 3 + tb.len() as int) =~= tb);
    if t[0] == '0' {
        assert(bits_of(t).drop_first() =~= bits_of(t.drop_first()));
    }
}

/// A program that only declares a tape literal of `0`s fails to compile, with the error
/// for the tape at offset 0, whose code is the literal.
pub proof fn zero_tape_literal_fails(t: Seq<char>)
    requires
        t.len() > 0,
        forall|i: int| 0 <= i < t.len() ==> t[i] == '0',
    ensures
        compile(tape_source(t)) == Err::<(MachineView, Seq<WarningView>), ErrorView>(
            tape_error(tape_source(t), 0, t),
        ),
{
    let s = tape_source(t);
    lemma_tape_source_parses(t);
    let rec = RecordView::Tape { bits: bits_of(t), at: 0, code: t };
    assert(!has_one(bits_of(t)));
    assert(build_record(s, empty_build(), rec) == Err::<BuildView, ErrorView>(
        tape_error(s, 0, t),
    ));
}

} // verus!
