//! The built-in libraries: named machines that a program can compose.
use vstd::prelude::*;

use crate::grammar::{parse_records, RecordView};
use crate::instruction::{instruction_from, InstructionView, TuringInstruction};
use crate::keyed::unique_keys;
use crate::parser::{chars_of, file_rule_error, parse_chars, same_text, Record};
use crate::turing::{insert_instruction, instruction_entries, table_of};
use crate::warnings::{file_rule_view, point, position_at, CompilerError, ErrorPosition, ErrorView};

verus! {

/// `x + y`: erases the first `1` of each number.
pub const SUM_CODE: &'static str = "
(q0, 1, 0, R, q1);
(q1, 1, 1, R, q1);
(q1, 0, 0, R, q3);
(q3, 1, 0, H, q2);
";

/// `x * 2`: erases the first `1`, then writes two `1`s after the number for each `1`
/// left in it, erasing that one.
pub const DUPLICATE_CODE: &'static str = "
(q0, 1, 0, R, q1);
(q1, 1, 0, R, q2);
(q1, 0, 0, H, qf);
(q2, 1, 1, R, q2);
(q2, 0, 0, R, q3);
(q3, 1, 1, R, q3);
(q3, 0, 1, R, q4);
(q4, 0, 1, L, q5);
(q5, 1, 1, L, q5);
(q5, 0, 0, L, q6);
(q6, 1, 1, L, q6);
(q6, 0, 0, R, q1);
";

/// `x mod y`: a separator walks back and forth through `y`; each of its moves erases a
/// `1` of `x`. When `x` runs out, what the separator has passed in its current walk is
/// the rest.
pub const MOD_CODE: &'static str = "
(q0, 1, 0, R, q1);
(q1, 1, 1, R, q1);
(q1, 0, 0, R, q2);
(q2, 1, 0, L, q3);
(q3, 1, 1, L, q3);
(q3, 0, 0, L, q4);
(q4, 1, 1, L, q4);
(q4, 0, 0, R, q5);
(q5, 1, 0, R, q6);
(q5, 0, 0, R, q10);
(q6, 1, 1, R, q6);
(q6, 0, 0, R, q7);
(q7, 1, 1, R, q7);
(q7, 0, 0, R, q8);
(q8, 1, 0, L, q9);
(q8, 0, 0, L, q18);
(q9, 0, 1, L, q3);
(q10, 1, 1, R, q10);
(q10, 0, 0, R, q11);
(q11, 1, 0, R, q14);
(q11, 0, 0, L, q12);
(q12, 0, 0, L, q13);
(q13, 1, 0, L, q13);
(q13, 0, 0, H, qf);
(q14, 1, 0, R, q14);
(q14, 0, 0, H, qf);
(q15, 1, 0, R, q16);
(q15, 0, 0, R, q24);
(q16, 1, 1, R, q16);
(q16, 0, 0, R, q17);
(q17, 1, 1, R, q18);
(q17, 0, 0, R, q8);
(q18, 1, 1, R, q18);
(q18, 0, 0, L, q19);
(q19, 1, 0, R, q20);
(q20, 0, 1, L, q21);
(q21, 0, 0, L, q22);
(q22, 1, 1, L, q22);
(q22, 0, 0, L, q23);
(q23, 1, 1, L, q23);
(q23, 0, 0, R, q15);
(q24, 1, 0, R, q26);
(q24, 0, 0, R, q25);
(q25, 1, 0, R, q25);
(q25, 0, 0, H, qf);
(q26, 1, 0, R, q26);
(q26, 0, 0, H, qf);
";

/// `x div 2`: erases the first `1`, then every other one.
pub const DIV2_CODE: &'static str = "
(q0, 1, 0, R, q1);
(q1, 1, 0, R, q2);
(q1, 0, 0, H, qf);
(q2, 1, 1, R, q1);
(q2, 0, 0, H, qf);
";

/// `x - y`, or 0 where `y > x`: erases a `1` at the end of `y` and one at the start of
/// `x` in turn, until one of them runs out.
pub const BOUND_DIFF_CODE: &'static str = "
(q0, 1, 1, R, q0);
(q0, 0, 0, R, q1);
(q1, 1, 1, R, q1);
(q1, 0, 0, L, q2);
(q2, 1, 0, L, q3);
(q2, 0, 0, H, qf);
(q3, 1, 1, L, q3);
(q3, 0, 0, L, q4);
(q4, 1, 1, L, q4);
(q4, 0, 0, R, q5);
(q5, 1, 0, R, q0);
(q5, 0, 0, R, q6);
(q6, 1, 0, R, q6);
(q6, 0, 0, H, qf);
";

/// A built-in machine that programs can compose.
#[derive(Debug, Clone)]
pub struct Library {
    pub name: &'static str,
    pub description: &'static str,
    pub initial_state: &'static str,
    pub final_state: &'static str,
    /// The states that the machine uses; for information only.
    pub used_states: Vec<&'static str>,
    /// The instructions of the machine, in the language of programs.
    pub code: &'static str,
}

/// The mathematical value of a library.
pub struct LibraryView {
    pub name: Seq<char>,
    pub description: Seq<char>,
    pub initial_state: Seq<char>,
    pub final_state: Seq<char>,
    pub used_states: Seq<Seq<char>>,
    pub code: Seq<char>,
}

/// The texts of a list of names.
pub open spec fn texts_of(v: Seq<&'static str>) -> Seq<Seq<char>> {
    v.map_values(|x: &'static str| x@)
}

impl View for Library {
    type V = LibraryView;

    open spec fn view(&self) -> LibraryView {
        LibraryView {
            name: self.name@,
            description: self.description@,
            initial_state: self.initial_state@,
            final_state: self.final_state@,
            used_states: texts_of(self.used_states@),
            code: self.code@,
        }
    }
}

/// The names of the libraries, in the order of the registry.
pub open spec fn registry_names() -> Seq<Seq<char>> {
    seq!["sum"@, "x2"@, "mod"@, "div2"@, "bound_diff"@]
}

/// What the libraries compute, in the order of the registry.
pub open spec fn registry_descriptions() -> Seq<Seq<char>> {
    seq!["x + y"@, "x * 2"@, "x mod y"@, "x div 2"@, "x ∸ y"@]
}

/// The initial states of the libraries, in the order of the registry.
pub open spec fn registry_initial_states() -> Seq<Seq<char>> {
    seq!["q0"@, "q0"@, "q0"@, "q0"@, "q0"@]
}

/// The final states of the libraries, in the order of the registry.
pub open spec fn registry_final_states() -> Seq<Seq<char>> {
    seq!["q2"@, "qf"@, "qf"@, "qf"@, "qf"@]
}

/// The codes of the libraries, in the order of the registry.
pub open spec fn registry_codes() -> Seq<Seq<char>> {
    seq![SUM_CODE@, DUPLICATE_CODE@, MOD_CODE@, DIV2_CODE@, BOUND_DIFF_CODE@]
}

/// The code of the first library from index `i` on that is named `name`.
pub open spec fn code_named_from(name: Seq<char>, i: int) -> Option<Seq<char>>
    decreases 5 - i,
{
    if !(0 <= i < 5) {
        None
    } else if registry_names()[i] == name {
        Some(registry_codes()[i])
    } else {
        code_named_from(name, i + 1)
    }
}

/// The code of the library named `name`, if the registry has one.
pub open spec fn library_code(name: Seq<char>) -> Option<Seq<char>> {
    code_named_from(name, 0)
}

/// The table of instructions that the declarations `records[k..]` of `s` give, after
/// those of `table`; the other declarations are passed over.
pub open spec fn table_from(
    s: Seq<char>,
    records: Seq<RecordView>,
    k: int,
    table: Map<(Seq<char>, bool), InstructionView>,
) -> Result<Map<(Seq<char>, bool), InstructionView>, ErrorView>
    decreases records.len() - k,
{
    if !(0 <= k < records.len()) {
        Ok(table)
    } else {
        match records[k] {
            RecordView::Instruction(ir) => match instruction_from(ir, point(s, ir.movement_at)) {
                Err(e) => Err(e),
                Ok(x) => table_from(s, records, k + 1, table.insert(x.key(), x)),
            },
            _ => table_from(s, records, k + 1, table),
        }
    }
}

/// The table of instructions that the code of a library gives, a later instruction for a
/// state and bit replacing an earlier one.
pub open spec fn library_table(code: Seq<char>) -> Result<
    Map<(Seq<char>, bool), InstructionView>,
    ErrorView,
> {
    match parse_records(code) {
        Err((at, rule)) => Err(file_rule_view(code, at, rule)),
        Ok(records) => table_from(code, records, 0, Map::empty()),
    }
}

/// The table of instructions of a code.
pub fn instructions_of(code: &str) -> (r: Result<Vec<TuringInstruction>, CompilerError>)
    ensures
        match r {
            Ok(v) => unique_keys(instruction_entries(v@)) && library_table(code@) == Ok::<
                Map<(Seq<char>, bool), InstructionView>,
                ErrorView,
            >(table_of(v@)),
            Err(e) => library_table(code@) == Err::<
                Map<(Seq<char>, bool), InstructionView>,
                ErrorView,
            >(e@),
        },
{
    let s = chars_of(code);
    let records = match parse_chars(code, &s) {
        Ok(v) => v,
        Err(e) => {
            return Err(file_rule_error(code, &s, e));
        },
    };
    let ghost rv = crate::parser::records_view(records@);
    let mut table: Vec<TuringInstruction> = Vec::new();
    assert(instruction_entries(table@) =~= Seq::empty());
    assert(table_of(table@) =~= Map::empty());
    let mut k: usize = 0;
    while k < records.len()
        invariant
            k <= records.len(),
            rv == crate::parser::records_view(records@),
            forall|x: int|
                0 <= x < records@.len() ==> crate::grammar::record_within(
                    #[trigger] crate::parser::records_view(records@)[x],
                    s.len() as int,
                ),
            s@ == code@,
            parse_records(s@) == Ok::<Seq<RecordView>, (int, crate::grammar::Rule)>(rv),
            unique_keys(instruction_entries(table@)),
            table_from(s@, rv, k as int, table_of(table@)) == table_from(
                s@,
                rv,
                0,
                Map::empty(),
            ),
        decreases records.len() - k,
    {
        match &records[k] {
            Record::Instruction(ir) => {
                assert(crate::grammar::record_within(rv[k as int], s.len() as int));
                let (position, _) = position_at(&s, ir.movement_at);
                match TuringInstruction::from(ir, ErrorPosition::new(position, None)) {
                    Err(e) => {
                        return Err(e);
                    },
                    Ok(x) => {
                        insert_instruction(&mut table, x);
                    },
                }
            },
            _ => {},
        }
        k = k + 1;
    }
    Ok(table)
}

impl Library {
    /// The table of instructions of the library.
    pub fn get_instructions(&self) -> (r: Result<Vec<TuringInstruction>, CompilerError>)
        ensures
            match r {
                Ok(v) => unique_keys(instruction_entries(v@)) && library_table(self@.code)
                    == Ok::<Map<(Seq<char>, bool), InstructionView>, ErrorView>(table_of(v@)),
                Err(e) => library_table(self@.code) == Err::<
                    Map<(Seq<char>, bool), InstructionView>,
                    ErrorView,
                >(e@),
            },
    {
        instructions_of(self.code)
    }
}

/// The library named `name`, if the registry has one.
pub fn find_library(name: &str) -> (r: Option<Library>)
    ensures
        match r {
            Some(l) => library_code(name@) == Some(l@.code) && l@.name == name@,
            None => library_code(name@) is None,
        },
{
    let libs = libraries();
    let mut i: usize = 0;
    while i < libs.len()
        invariant
            i <= libs.len() == 5,
            forall|j: int| 0 <= j < 5 ==> (#[trigger] libs@[j]@).name == registry_names()[j],
            forall|j: int| 0 <= j < 5 ==> (#[trigger] libs@[j]@).code == registry_codes()[j],
            code_named_from(name@, i as int) == library_code(name@),
        decreases libs.len() - i,
    {
        if same_text(libs[i].name, name) {
            assert(libs@[i as int]@.name == registry_names()[i as int]);
            let mut libs = libs;
            return Some(libs.remove(i));
        }
        assert(libs@[i as int]@.name == registry_names()[i as int]);
        i = i + 1;
    }
    None
}

fn state_list(names: &[&'static str]) -> (r: Vec<&'static str>)
    ensures
        r@ == names@,
{
    let mut r: Vec<&'static str> = Vec::new();
    let mut i: usize = 0;
    while i < names.len()
        invariant
            i <= names.len(),
            r@ == names@.take(i as int),
        decreases names.len() - i,
    {
        r.push(names[i]);
        i = i + 1;
        assert(r@ =~= names@.take(i as int));
    }
    assert(names@.take(i as int) =~= names@);
    r
}

/// All the libraries that are included in the compiler.
///
/// * `sum`: adds two numbers.
/// * `x2`: doubles a number.
/// * `mod`: the remainder of dividing one number by another.
/// * `div2`: halves a number, rounding down.
/// * `bound_diff`: the difference of two numbers, or 0 where the second is larger.
pub fn libraries() -> (r: Vec<Library>)
    ensures
        r@.len() == 5,
        forall|i: int| 0 <= i < 5 ==> (#[trigger] r@[i]@).name == registry_names()[i],
        forall|i: int| 0 <= i < 5 ==> (#[trigger] r@[i]@).code == registry_codes()[i],
        forall|i: int|
            0 <= i < 5 ==> (#[trigger] r@[i]@).description == registry_descriptions()[i],
        forall|i: int|
            0 <= i < 5 ==> (#[trigger] r@[i]@).initial_state == registry_initial_states()[i],
        forall|i: int|
            0 <= i < 5 ==> (#[trigger] r@[i]@).final_state == registry_final_states()[i],
{
    let mut r: Vec<Library> = Vec::new();
    r.push(
        Library {
            name: "sum",
            description: "x + y",
            initial_state: "q0",
            final_state: "q2",
            used_states: state_list(&["q0", "q1", "q2", "q3"]),
            code: SUM_CODE,
        },
    );
    r.push(
        Library {
            name: "x2",
            description: "x * 2",
            initial_state: "q0",
            final_state: "qf",
            used_states: state_list(&["q0", "q1", "q2", "q3", "q4", "q5", "q6", "qf"]),
            code: DUPLICATE_CODE,
        },
    );
    r.push(
        Library {
            name: "mod",
            description: "x mod y",
            initial_state: "q0",
            final_state: "qf",
            used_states: state_list(
                &[
                    "q0", "q1", "q2", "q3", "q4", "q5", "q6", "q7", "q8", "q9", "q10", "q11",
                    "q12", "q13", "q14", "q15", "q16", "q17", "q18", "q19", "q20", "q21", "q22",
                    "q23", "q24", "q25", "q26", "qf",
                ],
            ),
            code: MOD_CODE,
        },
    );
    r.push(
        Library {
            name: "div2",
            description: "x div 2",
            initial_state: "q0",
            final_state: "qf",
            used_states: state_list(&["q0", "q1", "q2", "qf"]),
            code: DIV2_CODE,
        },
    );
    r.push(
        Library {
            name: "bound_diff",
            description: "x ∸ y",
            initial_state: "q0",
            final_state: "qf",
            used_states: state_list(&["q0", "q1", "q2", "q3", "q4", "q5", "q6", "qf"]),
            code: BOUND_DIFF_CODE,
        },
    );
    r
}

} // verus!
