//! The compiler: from source text to a machine, declaration by declaration.
use vstd::prelude::*;

use crate::grammar::{parse_records, record_within, RecordView, Rule};
use crate::instruction::{instruction_from, InstructionView, TuringInstruction};
use crate::keyed::unique_keys;
use crate::library::{find_library, library_code, library_table};
use crate::parser::{chars_of, file_rule_error, parse_chars, records_view, Record};
use crate::turing::{
    count_entries, has_margin, insert_instruction, instruction_entries, names_of, pad_margin,
    pad_tape, table_of, MachineView, TuringMachine,
};
use crate::warnings::{
    file_rule_view, point, position_at, span, CompilerError, CompilerWarning, ErrorPosition,
    ErrorView, WarningView,
};

verus! {

/// What the declarations read so far have built.
pub struct BuildView {
    pub table: Map<(Seq<char>, bool), InstructionView>,
    pub final_states: Seq<Seq<char>>,
    pub initial_state: Seq<char>,
    pub tape: Seq<bool>,
    pub description: Option<Seq<char>>,
    pub composed: Seq<Seq<char>>,
    pub warnings: Seq<WarningView>,
}

/// Nothing built yet.
pub open spec fn empty_build() -> BuildView {
    BuildView {
        table: Map::empty(),
        final_states: Seq::empty(),
        initial_state: Seq::empty(),
        tape: Seq::empty(),
        description: None,
        composed: Seq::empty(),
        warnings: Seq::empty(),
    }
}

/// The tape that a literal gives: its bits, without a single leading `0`.
pub open spec fn tape_bits(bits: Seq<bool>) -> Seq<bool> {
    if bits.len() > 0 && !bits[0] {
        bits.drop_first()
    } else {
        bits
    }
}

/// Some bit is `1`.
pub open spec fn has_one(bits: Seq<bool>) -> bool {
    exists|i: int| 0 <= i < bits.len() && bits[i]
}

/// The error for a tape literal without a `1`, whose `{` stands at `at`.
pub open spec fn tape_error(s: Seq<char>, at: int, code: Seq<char>) -> ErrorView {
    ErrorView::Syntax {
        position: point(s, at),
        message: "Expected at least a 1 in the tape"@,
        code,
        expected: Rule::tape,
        found: None,
    }
}

/// The message for a library name that the registry does not have.
pub open spec fn missing_library_message(name: Seq<char>) -> Seq<char> {
    "Could not find the library \""@ + name + "\""@
}

/// The error for a library name that the registry does not have, standing at `at`.
pub open spec fn missing_library(s: Seq<char>, name: Seq<char>, at: int) -> ErrorView {
    ErrorView::Syntax {
        position: point(s, at),
        message: missing_library_message(name),
        code: name,
        expected: Rule::function_name,
        found: None,
    }
}

/// Compose the libraries `names[k..]`: each one's table is merged into the program's, its
/// instructions replacing those with the same keys, with no warning.
pub open spec fn compose_from(
    s: Seq<char>,
    names: Seq<(Seq<char>, int)>,
    k: int,
    b: BuildView,
) -> Result<BuildView, ErrorView>
    decreases names.len() - k,
{
    if !(0 <= k < names.len()) {
        Ok(b)
    } else {
        match library_code(names[k].0) {
            None => Err(missing_library(s, names[k].0, names[k].1)),
            Some(code) => match library_table(code) {
                Err(e) => Err(e),
                Ok(t) => compose_from(
                    s,
                    names,
                    k + 1,
                    BuildView {
                        table: b.table.union_prefer_right(t),
                        composed: b.composed.push(names[k].0),
                        ..b
                    },
                ),
            },
        }
    }
}

/// Declare an instruction that spans `[start, end)`: it replaces the one with the same
/// key, and a warning says so.
pub open spec fn declare(
    s: Seq<char>,
    b: BuildView,
    x: InstructionView,
    start: int,
    end: int,
) -> BuildView {
    BuildView {
        table: b.table.insert(x.key(), x),
        warnings: if b.table.contains_key(x.key()) {
            b.warnings.push(
                WarningView {
                    position: span(s, start, end),
                    state: x.from_state,
                    value_from: x.from_value,
                },
            )
        } else {
            b.warnings
        },
        ..b
    }
}

/// What one declaration does to what is built.
pub open spec fn build_record(s: Seq<char>, b: BuildView, r: RecordView) -> Result<
    BuildView,
    ErrorView,
> {
    match r {
        RecordView::Description(d) => Ok(BuildView { description: Some(d), ..b }),
        RecordView::Tape { bits, at, code } => if has_one(bits) {
            Ok(BuildView { tape: tape_bits(bits), ..b })
        } else {
            Err(tape_error(s, at, code))
        },
        RecordView::InitialState(q) => Ok(BuildView { initial_state: q, ..b }),
        RecordView::FinalStates(v) => Ok(BuildView { final_states: v, ..b }),
        RecordView::Composition(names) => compose_from(s, names, 0, b),
        RecordView::Instruction(ir) => match instruction_from(ir, point(s, ir.movement_at)) {
            Err(e) => Err(e),
            Ok(x) => Ok(declare(s, b, x, ir.start, ir.end)),
        },
    }
}

/// What the declarations `records[k..]` build after `b`.
pub open spec fn build_from(s: Seq<char>, records: Seq<RecordView>, k: int, b: BuildView) -> Result<
    BuildView,
    ErrorView,
>
    decreases records.len() - k,
{
    if !(0 <= k < records.len()) {
        Ok(b)
    } else {
        match build_record(s, b, records[k]) {
            Err(e) => Err(e),
            Ok(b2) => build_from(s, records, k + 1, b2),
        }
    }
}

/// The machine that is built from the source `s`: its tape gets its margin, and the head
/// stands on the first cell of the literal.
pub open spec fn machine_of(s: Seq<char>, b: BuildView) -> MachineView {
    let padded = pad_margin(b.tape, 0);
    MachineView {
        table: b.table,
        final_states: b.final_states,
        current_state: b.initial_state,
        tape: padded.0,
        position: padded.1,
        frequencies: Map::empty(),
        description: b.description,
        composed_libs: b.composed,
        code: s,
    }
}

/// The machine and warnings that a source text compiles to, or the error.
pub open spec fn compile(s: Seq<char>) -> Result<(MachineView, Seq<WarningView>), ErrorView> {
    match parse_records(s) {
        Err((at, rule)) => Err(file_rule_view(s, at, rule)),
        Ok(records) => match build_from(s, records, 0, empty_build()) {
            Err(e) => Err(e),
            Ok(b) => Ok((machine_of(s, b), b.warnings)),
        },
    }
}

/// The views of a list of warnings.
pub open spec fn warnings_view(w: Seq<CompilerWarning>) -> Seq<WarningView> {
    w.map_values(|x: CompilerWarning| x@)
}

/// What is built so far, while the compiler runs.
struct Builder {
    instructions: Vec<TuringInstruction>,
    final_states: Vec<String>,
    initial_state: String,
    tape: Vec<bool>,
    description: Option<String>,
    composed: Vec<String>,
    warnings: Vec<CompilerWarning>,
}

impl View for Builder {
    type V = BuildView;

    closed spec fn view(&self) -> BuildView {
        BuildView {
            table: table_of(self.instructions@),
            final_states: names_of(self.final_states@),
            initial_state: self.initial_state@,
            tape: self.tape@,
            description: match self.description {
                Some(d) => Some(d@),
                None => None,
            },
            composed: names_of(self.composed@),
            warnings: warnings_view(self.warnings@),
        }
    }
}

/// Proof that inserting the instructions `v[..j]` one by one merges their table.
proof fn lemma_merge_step(
    base: Map<(Seq<char>, bool), InstructionView>,
    v: Seq<TuringInstruction>,
    j: int,
)
    requires
        0 <= j < v.len(),
    ensures
        base.union_prefer_right(table_of(v.take(j + 1))) == base.union_prefer_right(
            table_of(v.take(j)),
        ).insert(v[j]@.key(), v[j]@),
{
    assert(instruction_entries(v.take(j + 1)).drop_last() =~= instruction_entries(v.take(j)));
    assert(base.union_prefer_right(table_of(v.take(j + 1))) =~= base.union_prefer_right(
        table_of(v.take(j)),
    ).insert(v[j]@.key(), v[j]@));
}

impl Builder {
    fn new() -> (r: Builder)
        ensures
            r@ == empty_build(),
            unique_keys(instruction_entries(r.instructions@)),
    {
        let r = Builder {
            instructions: Vec::new(),
            final_states: Vec::new(),
            initial_state: String::new(),
            tape: Vec::new(),
            description: None,
            composed: Vec::new(),
            warnings: Vec::new(),
        };
        assert(instruction_entries(r.instructions@) =~= Seq::empty());
        assert(r@.table =~= Map::empty());
        assert(names_of(r.final_states@) =~= Seq::empty());
        assert(names_of(r.composed@) =~= Seq::empty());
        assert(warnings_view(r.warnings@) =~= Seq::empty());
        r
    }

    /// Merge a table into the program's, its instructions replacing those with the same
    /// keys.
    fn merge(&mut self, v: Vec<TuringInstruction>)
        requires
            unique_keys(instruction_entries(old(self).instructions@)),
        ensures
            unique_keys(instruction_entries(final(self).instructions@)),
            final(self)@ == (BuildView {
                table: old(self)@.table.union_prefer_right(table_of(v@)),
                ..old(self)@
            }),
    {
        let ghost base = self@.table;
        assert(table_of(v@.take(0)) =~= Map::empty()) by {
            assert(instruction_entries(v@.take(0)) =~= Seq::empty());
        }
        assert(base.union_prefer_right(table_of(v@.take(0))) =~= base);
        let mut j: usize = 0;
        while j < v.len()
            invariant
                j <= v.len(),
                unique_keys(instruction_entries(self.instructions@)),
                self@ == (BuildView {
                    table: base.union_prefer_right(table_of(v@.take(j as int))),
                    ..old(self)@
                }),
                base == old(self)@.table,
            decreases v.len() - j,
        {
            proof {
                lemma_merge_step(base, v@, j as int);
            }
            insert_instruction(&mut self.instructions, v[j].copy());
            j = j + 1;
        }
        assert(v@.take(j as int) =~= v@);
    }

    /// Compose the libraries `names`.
    fn compose(&mut self, code: &str, s: &Vec<char>, names: &Vec<(String, usize)>) -> (r: Result<
        (),
        CompilerError,
    >)
        requires
            code@ == s@,
            unique_keys(instruction_entries(old(self).instructions@)),
            forall|i: int| 0 <= i < names@.len() ==> #[trigger] names@[i].1 <= s.len(),
        ensures
            unique_keys(instruction_entries(final(self).instructions@)),
            match r {
                Ok(_) => compose_from(s@, crate::parser::located_names(names@), 0, old(self)@)
                    == Ok::<BuildView, ErrorView>(final(self)@),
                Err(e) => compose_from(s@, crate::parser::located_names(names@), 0, old(self)@)
                    == Err::<BuildView, ErrorView>(e@),
            },
    {
        let ghost ns = crate::parser::located_names(names@);
        let ghost target = compose_from(s@, ns, 0, self@);
        let mut k: usize = 0;
        while k < names.len()
            invariant
                k <= names.len(),
                code@ == s@,
                ns == crate::parser::located_names(names@),
                forall|i: int| 0 <= i < names@.len() ==> #[trigger] names@[i].1 <= s.len(),
                unique_keys(instruction_entries(self.instructions@)),
                compose_from(s@, ns, k as int, self@) == target,
                target == compose_from(s@, ns, 0, old(self)@),
            decreases names.len() - k,
        {
            let name = names[k].0.as_str();
            match find_library(name) {
                None => {
                    let mut message = String::new();
                    message.append("Could not find the library \"");
                    message.append(name);
                    message.append("\"");
                    assert(message@ =~= missing_library_message(ns[k as int].0));
                    let (position, _) = position_at(s, names[k].1);
                    return Err(
                        CompilerError::SyntaxError {
                            position: ErrorPosition::new(position, None),
                            message,
                            code: names[k].0.clone(),
                            expected: Rule::function_name,
                            found: None,
                        },
                    );
                },
                Some(library) => {
                    match library.get_instructions() {
                        Err(e) => {
                            return Err(e);
                        },
                        Ok(v) => {
                            self.merge(v);
                            let ghost before = self.composed@;
                            self.composed.push(names[k].0.clone());
                            assert(names_of(self.composed@) =~= names_of(before).push(
                                ns[k as int].0,
                            ));
                        },
                    }
                },
            }
            k = k + 1;
        }
        Ok(())
    }

    /// Read one declaration.
    fn apply(&mut self, code: &str, s: &Vec<char>, rec: &Record) -> (r: Result<(), CompilerError>)
        requires
            code@ == s@,
            unique_keys(instruction_entries(old(self).instructions@)),
            record_within(rec@, s.len() as int),
        ensures
            unique_keys(instruction_entries(final(self).instructions@)),
            match r {
                Ok(_) => build_record(s@, old(self)@, rec@) == Ok::<BuildView, ErrorView>(
                    final(self)@,
                ),
                Err(e) => build_record(s@, old(self)@, rec@) == Err::<BuildView, ErrorView>(e@),
            },
    {
        match rec {
            Record::Description(d) => {
                self.description = Some(d.clone());
                Ok(())
            },
            Record::Tape { bits, at, code: text } => {
                let mut i: usize = 0;
                let mut one = false;
                while i < bits.len()
                    invariant
                        i <= bits.len(),
                        one == exists|j: int| 0 <= j < i && bits@[j],
                    decreases bits.len() - i,
                {
                    if bits[i] {
                        one = true;
                    }
                    i = i + 1;
                }
                if !one {
                    let (position, _) = position_at(s, *at);
                    proof {
                        reveal_strlit("Expected at least a 1 in the tape");
                    }
                    return Err(
                        CompilerError::SyntaxError {
                            position: ErrorPosition::new(position, None),
                            message: "Expected at least a 1 in the tape".to_owned(),
                            code: text.clone(),
                            expected: Rule::tape,
                            found: None,
                        },
                    );
                }
                let mut tape: Vec<bool> = Vec::new();
                let start: usize = if bits.len() > 0 && !bits[0] {
                    1
                } else {
                    0
                };
                let mut j: usize = start;
                while j < bits.len()
                    invariant
                        start <= j <= bits.len(),
                        tape@ == bits@.subrange(start as int, j as int),
                    decreases bits.len() - j,
                {
                    tape.push(bits[j]);
                    j = j + 1;
                    assert(tape@ =~= bits@.subrange(start as int, j as int));
                }
                assert(tape@ =~= tape_bits(bits@));
                self.tape = tape;
                Ok(())
            },
            Record::InitialState(q) => {
                self.initial_state = q.clone();
                Ok(())
            },
            Record::FinalStates(v) => {
                let mut states: Vec<String> = Vec::new();
                let mut i: usize = 0;
                while i < v.len()
                    invariant
                        i <= v.len(),
                        names_of(states@) == names_of(v@).take(i as int),
                    decreases v.len() - i,
                {
                    let ghost before = states@;
                    states.push(v[i].clone());
                    assert(names_of(states@) =~= names_of(before).push(v@[i as int]@));
                    assert(names_of(v@).take(i + 1) =~= names_of(v@).take(i as int).push(
                        v@[i as int]@,
                    ));
                    i = i + 1;
                }
                assert(names_of(v@).take(i as int) =~= names_of(v@));
                self.final_states = states;
                Ok(())
            },
            Record::Composition(names) => {
                proof {
                    assert forall|i: int| 0 <= i < names@.len() implies #[trigger] names@[i].1
                        <= s.len() by {
                        assert(crate::parser::located_names(names@)[i].1 == names@[i].1 as int);
                    }
                }
                self.compose(code, s, names)
            },
            Record::Instruction(ir) => {
                let (position, _) = position_at(s, ir.movement_at);
                match TuringInstruction::from(ir, ErrorPosition::new(position, None)) {
                    Err(e) => Err(e),
                    Ok(x) => {
                        let (a, _) = position_at(s, ir.start);
                        let (b, _) = position_at(s, ir.end);
                        let warning = CompilerWarning::StateOverwrite {
                            position: ErrorPosition::new(a, Some(b)),
                            state: x.from_state.clone(),
                            value_from: x.from_value,
                        };
                        let replaced = insert_instruction(&mut self.instructions, x);
                        if replaced {
                            let ghost before = self.warnings@;
                            self.warnings.push(warning);
                            assert(warnings_view(self.warnings@) =~= warnings_view(before).push(
                                warning@,
                            ));
                        }
                        Ok(())
                    },
                }
            },
        }
    }
}

impl TuringMachine {
    /// Compile a machine from its code: parse the declarations, then read them in order.
    /// Returns the machine, with its head on the first cell of the tape literal and the
    /// margin on both sides, and the warnings; or the first error.
    pub fn new(code: &str) -> (r: Result<(Self, Vec<CompilerWarning>), CompilerError>)
        ensures
            match r {
                Ok((m, w)) => {
                    &&& m.wf()
                    &&& has_margin(m@.tape, m@.position)
                    &&& compile(code@) == Ok::<(MachineView, Seq<WarningView>), ErrorView>(
                        (m@, warnings_view(w@)),
                    )
                },
                Err(e) => compile(code@) == Err::<(MachineView, Seq<WarningView>), ErrorView>(
                    e@,
                ),
            },
    {
        let s = chars_of(code);
        let records = match parse_chars(code, &s) {
            Ok(v) => v,
            Err(e) => {
                return Err(file_rule_error(code, &s, e));
            },
        };
        let ghost rv = records_view(records@);
        let mut b = Builder::new();
        let mut k: usize = 0;
        while k < records.len()
            invariant
                k <= records.len(),
                code@ == s@,
                rv == records_view(records@),
                parse_records(s@) == Ok::<Seq<RecordView>, (int, Rule)>(rv),
                forall|x: int|
                    0 <= x < records@.len() ==> record_within(
                        #[trigger] records_view(records@)[x],
                        s.len() as int,
                    ),
                unique_keys(instruction_entries(b.instructions@)),
                build_from(s@, rv, k as int, b@) == build_from(s@, rv, 0, empty_build()),
            decreases records.len() - k,
        {
            assert(record_within(rv[k as int], s.len() as int));
            match b.apply(code, &s, &records[k]) {
                Err(e) => {
                    return Err(e);
                },
                Ok(()) => {},
            }
            k = k + 1;
        }
        let ghost built = b@;
        let Builder {
            instructions,
            final_states,
            initial_state,
            tape,
            description,
            composed,
            warnings,
        } = b;
        let mut tape = tape;
        let position = pad_tape(&mut tape, 0);
        let m = TuringMachine {
            instructions,
            final_states,
            current_state: initial_state,
            tape_position: position,
            tape,
            frequencies: Vec::new(),
            description,
            composed_libs: composed,
            code: code.to_owned(),
        };
        proof {
            assert(count_entries(m.frequencies@) =~= Seq::empty());
            assert(m@.frequencies =~= Map::<Seq<char>, usize>::empty());
            assert(m@ == machine_of(s@, built));
        }
        Ok((m, warnings))
    }
}

} // verus!
