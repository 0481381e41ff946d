use vstd::prelude::*;

use crate::instruction::{halt_view, InstructionView, Movement, TuringInstruction};
use crate::keyed::{
    lemma_to_map_contains, lemma_to_map_index, lemma_to_map_push, lemma_to_map_update, to_map,
    unique_keys,
};
use crate::output::TuringOutput;

verus! {

/// The number of cells that the head keeps free on each side.
pub const MARGIN: usize = 3;

/// The table entries that a list of instructions describes.
pub open spec fn instruction_entries(v: Seq<TuringInstruction>) -> Seq<
    ((Seq<char>, bool), InstructionView),
> {
    v.map_values(|x: TuringInstruction| (x@.key(), x@))
}

/// The table that a list of instructions describes, keyed by (state, bit read).
pub open spec fn table_of(v: Seq<TuringInstruction>) -> Map<(Seq<char>, bool), InstructionView> {
    to_map(instruction_entries(v))
}

/// The visit counts that a list of (state, count) entries describes.
pub open spec fn count_entries(v: Seq<(String, usize)>) -> Seq<(Seq<char>, usize)> {
    v.map_values(|e: (String, usize)| (e.0@, e.1))
}

/// The states of a list of names.
pub open spec fn names_of(v: Seq<String>) -> Seq<Seq<char>> {
    v.map_values(|s: String| s@)
}

/// A run of `n` blank cells.
pub open spec fn blanks(n: int) -> Seq<bool> {
    Seq::new(n as nat, |i: int| false)
}

/// The head at `p` has at least three cells on each side of it.
pub open spec fn has_margin(t: Seq<bool>, p: int) -> bool {
    MARGIN <= p && p + MARGIN < t.len()
}

/// The tape and head position after blanks are added at either end, as few as give the
/// head its margin on both sides.
pub open spec fn pad_margin(t: Seq<bool>, p: int) -> (Seq<bool>, int) {
    let l: int = if p < MARGIN { MARGIN - p } else { 0 };
    let t1 = blanks(l) + t;
    let p1 = p + l;
    let r: int = if p1 + MARGIN + 1 > t1.len() { p1 + MARGIN + 1 - t1.len() } else { 0 };
    (t1 + blanks(r), p1)
}

/// Where the head stands after a movement.
pub open spec fn moved(p: int, m: Movement) -> int {
    match m {
        Movement::RIGHT => p + 1,
        Movement::LEFT => p - 1,
        Movement::HALT => p,
    }
}

/// The number of `1`s on a tape.
pub open spec fn count_ones(t: Seq<bool>) -> nat
    decreases t.len(),
{
    if t.len() == 0 {
        0
    } else {
        count_ones(t.drop_last()) + if t.last() {
            1nat
        } else {
            0nat
        }
    }
}

/// The values on a tape: for each maximal run of `1`s, its length minus one. `run` is the
/// length of the run that ends just before cell `i`, `acc` the values of the runs before it.
pub open spec fn values_from(t: Seq<bool>, i: int, run: nat, acc: Seq<nat>) -> Seq<nat>
    decreases t.len() - i,
{
    if i >= t.len() {
        if run > 0 {
            acc.push((run - 1) as nat)
        } else {
            acc
        }
    } else if t[i] {
        values_from(t, i + 1, run + 1, acc)
    } else {
        values_from(t, i + 1, 0, if run > 0 { acc.push((run - 1) as nat) } else { acc })
    }
}

/// The values on a tape, from left to right.
pub open spec fn tape_values(t: Seq<bool>) -> Seq<nat> {
    values_from(t, 0, 0, Seq::empty())
}

/// The text of one cell of the tape line.
pub open spec fn cell_text(b: bool) -> Seq<char> {
    if b {
        seq!['1', ' ']
    } else {
        seq!['0', ' ']
    }
}

/// The text of one cell of the head line.
pub open spec fn head_text(here: bool) -> Seq<char> {
    if here {
        seq!['^', ' ']
    } else {
        seq![' ', ' ']
    }
}

/// The tape line of the first `n` cells.
pub open spec fn tape_line(t: Seq<bool>, n: int) -> Seq<char>
    decreases n,
{
    if n <= 0 {
        Seq::empty()
    } else {
        tape_line(t, n - 1) + cell_text(t[n - 1])
    }
}

/// The head line of the first `n` cells.
pub open spec fn head_line(p: int, n: int) -> Seq<char>
    decreases n,
{
    if n <= 0 {
        Seq::empty()
    } else {
        head_line(p, n - 1) + head_text(n - 1 == p)
    }
}

/// The two-line rendering of a tape and its head.
pub open spec fn render(t: Seq<bool>, p: int) -> Seq<char> {
    tape_line(t, t.len() as int) + seq!['\n'] + head_line(p, t.len() as int)
}

/// The mathematical state of a machine.
pub struct MachineView {
    pub table: Map<(Seq<char>, bool), InstructionView>,
    pub final_states: Seq<Seq<char>>,
    pub current_state: Seq<char>,
    pub tape: Seq<bool>,
    pub position: int,
    pub frequencies: Map<Seq<char>, usize>,
    pub description: Option<Seq<char>>,
    pub composed_libs: Seq<Seq<char>>,
    pub code: Seq<char>,
}

impl MachineView {
    /// The current state is one of the final states.
    pub open spec fn is_final(self) -> bool {
        self.final_states.contains(self.current_state)
    }

    /// The bit under the head.
    pub open spec fn read(self) -> bool {
        self.tape[self.position]
    }

    /// The instruction to run next: the table's, else the halt instruction of a final
    /// state, else none (an undefined transition).
    pub open spec fn instruction(self) -> Option<InstructionView> {
        let k = (self.current_state, self.read());
        if self.table.contains_key(k) {
            Some(self.table[k])
        } else if self.is_final() {
            Some(halt_view(self.current_state, self.read()))
        } else {
            None
        }
    }

    /// The number of visits of a state so far.
    pub open spec fn visits(self, s: Seq<char>) -> usize {
        if self.frequencies.contains_key(s) {
            self.frequencies[s]
        } else {
            0
        }
    }

    /// The visit counts after one more visit of `s` (a count stops at the largest `usize`).
    pub open spec fn visited(self, s: Seq<char>) -> Map<Seq<char>, usize> {
        let c = self.visits(s);
        self.frequencies.insert(s, if c < usize::MAX { (c + 1) as usize } else { c })
    }

    /// The machine after one step.
    pub open spec fn step(self) -> MachineView {
        match self.instruction() {
            None => self,
            Some(i) => {
                let padded = pad_margin(
                    self.tape.update(self.position, i.to_value),
                    moved(self.position, i.movement),
                );
                MachineView {
                    tape: padded.0,
                    position: padded.1,
                    current_state: i.to_state,
                    frequencies: self.visited(i.to_state),
                    ..self
                }
            }
        }
    }

    /// The machine after `n` steps.
    pub open spec fn run(self, n: nat) -> MachineView
        decreases n,
    {
        if n == 0 {
            self
        } else {
            self.step().run((n - 1) as nat)
        }
    }

    /// Some state has been visited more than `threshold` times.
    pub open spec fn loops_past(self, threshold: usize) -> bool {
        exists|s: Seq<char>| self.frequencies.contains_key(s) && self.frequencies[s] > threshold
    }
}

/// A Turing machine.
#[derive(Debug, Clone)]
pub struct TuringMachine {
    /// The instructions of the machine, at most one for each (state, bit read).
    pub(crate) instructions: Vec<TuringInstruction>,
    /// The final states. The machine stops when it reaches one of them.
    pub(crate) final_states: Vec<String>,
    pub(crate) current_state: String,
    pub(crate) tape_position: usize,
    pub(crate) tape: Vec<bool>,
    /// How often each state has been entered, at most one entry per state. Used to
    /// detect infinite loops.
    pub(crate) frequencies: Vec<(String, usize)>,
    /// The description of the machine, from the `///` line of its code.
    pub(crate) description: Option<String>,
    /// The names of the libraries that the machine composes; their instructions are
    /// already in the table.
    pub(crate) composed_libs: Vec<String>,
    /// The code that the machine was built from.
    pub(crate) code: String,
}

impl View for TuringMachine {
    type V = MachineView;

    open(crate) spec fn view(&self) -> MachineView {
        MachineView {
            table: table_of(self.instructions@),
            final_states: names_of(self.final_states@),
            current_state: self.current_state@,
            tape: self.tape@,
            position: self.tape_position as int,
            frequencies: to_map(count_entries(self.frequencies@)),
            description: match self.description {
                Some(d) => Some(d@),
                None => None,
            },
            composed_libs: names_of(self.composed_libs@),
            code: self.code@,
        }
    }
}

/// The index of the instruction for (`state`, `bit`), if there is one.
pub(crate) fn find_instruction(v: &Vec<TuringInstruction>, state: &String, bit: bool) -> (r: Option<
    usize,
>)
    ensures
        match r {
            Some(i) => i < v.len() && v@[i as int]@.key() == (state@, bit),
            None => forall|i: int| 0 <= i < v.len() ==> v@[i]@.key() != (state@, bit),
        },
{
    let mut i: usize = 0;
    while i < v.len()
        invariant
            i <= v.len(),
            forall|j: int| 0 <= j < i ==> v@[j]@.key() != (state@, bit),
        decreases v.len() - i,
    {
        if v[i].from_value == bit && v[i].from_state == *state {
            return Some(i);
        }
        i = i + 1;
    }
    None
}

/// The entry of an instruction list, seen as a table, at a found index.
pub(crate) proof fn lemma_table_at(v: Seq<TuringInstruction>, i: int)
    requires
        unique_keys(instruction_entries(v)),
        0 <= i < v.len(),
    ensures
        table_of(v).contains_key(v[i]@.key()),
        table_of(v)[v[i]@.key()] == v[i]@,
{
    lemma_to_map_index(instruction_entries(v), i);
}

/// A key that no instruction of the list carries is not in its table.
pub(crate) proof fn lemma_table_absent(v: Seq<TuringInstruction>, k: (Seq<char>, bool))
    requires
        forall|i: int| 0 <= i < v.len() ==> v[i]@.key() != k,
    ensures
        !table_of(v).contains_key(k),
{
    lemma_to_map_contains(instruction_entries(v), k);
}

/// Put an instruction in the table, in place of the one with the same key if there is
/// one. Returns whether one was replaced.
pub(crate) fn insert_instruction(v: &mut Vec<TuringInstruction>, x: TuringInstruction) -> (replaced:
    bool)
    requires
        unique_keys(instruction_entries(old(v)@)),
    ensures
        unique_keys(instruction_entries(final(v)@)),
        table_of(final(v)@) == table_of(old(v)@).insert(x@.key(), x@),
        replaced == table_of(old(v)@).contains_key(x@.key()),
{
    let ghost e = instruction_entries(v@);
    match find_instruction(v, &x.from_state, x.from_value) {
        Some(i) => {
            proof {
                lemma_to_map_update(e, i as int, x@);
                lemma_table_at(v@, i as int);
            }
            v.set(i, x);
            proof {
                assert(instruction_entries(v@) =~= e.update(i as int, (e[i as int].0, x@)));
            }
            true
        },
        None => {
            proof {
                lemma_table_absent(v@, x@.key());
                lemma_to_map_push(e, (x@.key(), x@));
                lemma_to_map_contains(e, x@.key());
            }
            v.push(x);
            proof {
                assert(instruction_entries(v@) =~= e.push((x@.key(), x@)));
            }
            false
        },
    }
}


/// Whether `s` is one of the names.
pub(crate) fn contains_name(v: &Vec<String>, s: &String) -> (r: bool)
    ensures
        r == names_of(v@).contains(s@),
{
    let mut i: usize = 0;
    while i < v.len()
        invariant
            i <= v.len(),
            forall|j: int| 0 <= j < i ==> v@[j]@ != s@,
        decreases v.len() - i,
    {
        if v[i] == *s {
            assert(names_of(v@)[i as int] == s@);
            return true;
        }
        i = i + 1;
    }
    assert(!names_of(v@).contains(s@)) by {
        if names_of(v@).contains(s@) {
            let j = choose|j: int| 0 <= j < names_of(v@).len() && names_of(v@)[j] == s@;
            assert(v@[j]@ == s@);
        }
    }
    false
}

/// Add blanks at either end of the tape, as few as give the head at `pos` its margin.
/// Returns the new position of the head.
pub(crate) fn pad_tape(tape: &mut Vec<bool>, pos: usize) -> (p: usize)
    requires
        pos <= old(tape).len(),
    ensures
        (final(tape)@, p as int) == pad_margin(old(tape)@, pos as int),
{
    let ghost t0 = tape@;
    let ghost l: int = if pos < MARGIN { MARGIN - pos } else { 0 };
    let mut p = pos;
    while p < MARGIN
        invariant
            pos <= p <= pos + l,
            p < MARGIN ==> p < pos + l,
            l == (if pos < MARGIN { MARGIN - pos } else { 0int }),
            p >= MARGIN ==> p == pos + l,
            tape@ == blanks(p - pos) + t0,
            p <= tape.len(),
        decreases MARGIN - p,
    {
        tape.insert(0, false);
        p = p + 1;
        assert(tape@ =~= blanks(p - pos) + t0);
    }
    let ghost t1 = tape@;
    while tape.len() - p <= MARGIN
        invariant
            p == pos + l,
            p <= tape.len(),
            t1.len() <= tape.len(),
            tape.len() > p + MARGIN + 1 ==> tape.len() == t1.len(),
            tape@ == t1 + blanks(tape.len() - t1.len()),
            tape.len() - t1.len() <= (if p + MARGIN + 1 > t1.len() { p + MARGIN + 1 - t1.len() } else { 0int }),
        decreases p + MARGIN + 1 - tape.len(),
    {
        tape.push(false);
        assert(tape@ =~= t1 + blanks(tape.len() - t1.len()));
    }
    assert(t1 =~= blanks(l) + t0);
    p
}

/// Proof that one more step of a run is a step of the run.
pub proof fn lemma_run_step(m: MachineView, n: nat)
    ensures
        m.run(n + 1) == m.run(n).step(),
    decreases n,
{
    assert(m.run(n + 1) == m.step().run(n));
    if n > 0 {
        assert(m.run(n) == m.step().run((n - 1) as nat));
        lemma_run_step(m.step(), (n - 1) as nat);
    }
}

impl TuringMachine {
    /// The description of the machine, from the `///` line of its code.
    pub fn description(&self) -> (r: &Option<String>)
        ensures
            match r {
                Some(d) => self@.description == Some(d@),
                None => self@.description is None,
            },
    {
        &self.description
    }

    /// The names of the libraries that the machine composes, in order.
    pub fn composed_libs(&self) -> (r: &Vec<String>)
        ensures
            names_of(r@) == self@.composed_libs,
    {
        &self.composed_libs
    }

    /// The code that the machine was built from.
    pub fn code(&self) -> (r: &String)
        ensures
            r@ == self@.code,
    {
        &self.code
    }

    /// The current state.
    pub fn current_state(&self) -> (r: &String)
        ensures
            r@ == self@.current_state,
    {
        &self.current_state
    }

    /// The final states, in the order of their declaration.
    pub fn final_states(&self) -> (r: &Vec<String>)
        ensures
            names_of(r@) == self@.final_states,
    {
        &self.final_states
    }

    /// The tape.
    pub fn tape(&self) -> (r: &Vec<bool>)
        ensures
            r@ == self@.tape,
    {
        &self.tape
    }

    /// The position of the head on the tape.
    pub fn tape_position(&self) -> (r: usize)
        ensures
            r == self@.position,
    {
        self.tape_position
    }

    /// The number of times that `state` has been entered since the counts were last reset.
    pub fn frequency(&self, state: &String) -> (r: usize)
        requires
            self.wf(),
        ensures
            r == self@.visits(state@),
    {
        let ghost e = count_entries(self.frequencies@);
        let mut i: usize = 0;
        while i < self.frequencies.len()
            invariant
                i <= self.frequencies.len(),
                e == count_entries(self.frequencies@),
                unique_keys(e),
                forall|j: int| 0 <= j < i ==> e[j].0 != state@,
            decreases self.frequencies.len() - i,
        {
            if self.frequencies[i].0 == *state {
                proof {
                    lemma_to_map_index(e, i as int);
                }
                return self.frequencies[i].1;
            }
            i = i + 1;
        }
        proof {
            lemma_to_map_contains(e, state@);
        }
        0
    }

    /// The machine's table has one instruction per key, its visit counts one entry per
    /// state, and its head its margin on both sides.
    pub open(crate) spec fn wf(&self) -> bool {
        &&& unique_keys(instruction_entries(self.instructions@))
        &&& unique_keys(count_entries(self.frequencies@))
        &&& has_margin(self.tape@, self.tape_position as int)
    }

    /// The parts of a machine that running it does not change.
    pub open(crate) spec fn same_program(&self, o: &TuringMachine) -> bool {
        &&& self.instructions == o.instructions
        &&& self.final_states == o.final_states
        &&& self.description == o.description
        &&& self.composed_libs == o.composed_libs
        &&& self.code == o.code
    }

    /// Create the empty machine: one state `f`, final, that halts on a blank tape.
    pub fn none() -> (r: Self)
        ensures
            r.wf(),
            r@.current_state == seq!['f'],
            r@.final_states == seq![seq!['f']],
            r@.table == map![(seq!['f'], false) => halt_view(seq!['f'], false)],
            r@.tape == blanks(7),
            r@.position == 3,
            r@.frequencies == Map::<Seq<char>, usize>::empty(),
            r@.description is None,
            r@.composed_libs.len() == 0,
            r@.code.len() == 0,
    {
        proof {
            reveal_strlit("f");
        }
        let state = "f".to_owned();
        assert(state@ =~= seq!['f']);
        let mut instructions: Vec<TuringInstruction> = Vec::new();
        instructions.push(TuringInstruction::halt((state.clone(), false)));
        let mut final_states: Vec<String> = Vec::new();
        final_states.push(state.clone());
        let mut tape: Vec<bool> = Vec::new();
        let position = pad_tape(&mut tape, 0);
        let r = Self {
            instructions,
            final_states,
            current_state: state,
            tape_position: position,
            tape,
            frequencies: Vec::new(),
            description: None,
            composed_libs: Vec::new(),
            code: String::new(),
        };
        proof {
            let e = instruction_entries(r.instructions@);
            assert(e =~= seq![((seq!['f'], false), halt_view(seq!['f'], false))]);
            lemma_to_map_push(Seq::empty(), e[0]);
            assert(e =~= Seq::empty().push(e[0]));
            assert(r@.table =~= map![(seq!['f'], false) => halt_view(seq!['f'], false)]);
            assert(names_of(r.final_states@) =~= seq![seq!['f']]);
            assert(r@.tape =~= blanks(7));
            assert(r@.frequencies =~= Map::<Seq<char>, usize>::empty());
            assert(r@.composed_libs =~= Seq::empty());
        }
        r
    }

    /// The instruction to run next: the table's for the current state and the bit under
    /// the head; else, in a final state, the halt instruction; else none.
    pub fn get_instruction(&self) -> (r: Option<TuringInstruction>)
        requires
            self.wf(),
        ensures
            match r {
                Some(i) => self@.instruction() == Some(i@),
                None => self@.instruction() is None,
            },
    {
        let bit = self.tape[self.tape_position];
        match find_instruction(&self.instructions, &self.current_state, bit) {
            Some(i) => {
                proof {
                    lemma_table_at(self.instructions@, i as int);
                }
                Some(self.instructions[i].copy())
            },
            None => {
                proof {
                    lemma_table_absent(self.instructions@, (self.current_state@, bit));
                }
                if contains_name(&self.final_states, &self.current_state) {
                    Some(TuringInstruction::halt((self.current_state.clone(), bit)))
                } else {
                    None
                }
            },
        }
    }

    /// The table's instruction for the current state and the bit under the head.
    pub fn get_current_instruction(&self) -> (r: Option<TuringInstruction>)
        requires
            self.wf(),
        ensures
            match r {
                Some(i) => self@.table.contains_key((self@.current_state, self@.read()))
                    && self@.table[(self@.current_state, self@.read())] == i@,
                None => !self@.table.contains_key((self@.current_state, self@.read())),
            },
    {
        let bit = self.tape[self.tape_position];
        self.instruction(&self.current_state, bit)
    }

    /// The table's instruction for (`state`, `bit`).
    pub fn instruction(&self, state: &String, bit: bool) -> (r: Option<TuringInstruction>)
        requires
            self.wf(),
        ensures
            match r {
                Some(i) => self@.table.contains_key((state@, bit)) && self@.table[(state@, bit)]
                    == i@,
                None => !self@.table.contains_key((state@, bit)),
            },
    {
        match find_instruction(&self.instructions, state, bit) {
            Some(i) => {
                proof {
                    lemma_table_at(self.instructions@, i as int);
                }
                Some(self.instructions[i].copy())
            },
            None => {
                proof {
                    lemma_table_absent(self.instructions@, (state@, bit));
                }
                None
            },
        }
    }

    /// The current state is undefined: it has no instruction for the bit under the head
    /// and is not final.
    pub fn is_undefined(&self) -> (r: bool)
        requires
            self.wf(),
        ensures
            r == self@.instruction() is None,
    {
        self.get_instruction().is_none()
    }

    /// The current state is a final state.
    pub fn finished(&self) -> (r: bool)
        ensures
            r == self@.is_final(),
    {
        contains_name(&self.final_states, &self.current_state)
    }

    /// Enter `state`, count the visit, and tell whether it is final.
    fn update_state(&mut self, state: String) -> (r: bool)
        requires
            unique_keys(count_entries(old(self).frequencies@)),
        ensures
            unique_keys(count_entries(final(self).frequencies@)),
            final(self)@.current_state == state@,
            final(self)@.frequencies == old(self)@.visited(state@),
            final(self).same_program(old(self)),
            final(self).tape == old(self).tape,
            final(self).tape_position == old(self).tape_position,
            r == final(self)@.is_final(),
    {
        let ghost e = count_entries(self.frequencies@);
        let mut i: usize = 0;
        let mut found: Option<usize> = None;
        while i < self.frequencies.len()
            invariant
                i <= self.frequencies.len(),
                e == count_entries(self.frequencies@),
                match found {
                    Some(j) => j < self.frequencies.len() && e[j as int].0 == state@,
                    None => forall|j: int| 0 <= j < i ==> e[j].0 != state@,
                },
            decreases self.frequencies.len() - i,
        {
            if found.is_none() && self.frequencies[i].0 == state {
                found = Some(i);
            }
            i = i + 1;
        }
        match found {
            Some(j) => {
                let c = self.frequencies[j].1;
                let n = if c < usize::MAX { c + 1 } else { c };
                let name = self.frequencies[j].0.clone();
                proof {
                    lemma_to_map_index(e, j as int);
                    lemma_to_map_update(e, j as int, n);
                }
                self.frequencies.set(j, (name, n));
                proof {
                    assert(count_entries(self.frequencies@) =~= e.update(j as int, (e[j as int].0, n)));
                }
            },
            None => {
                proof {
                    lemma_to_map_contains(e, state@);
                    lemma_to_map_push(e, (state@, 1usize));
                }
                self.frequencies.push((state.clone(), 1));
                proof {
                    assert(count_entries(self.frequencies@) =~= e.push((state@, 1usize)));
                }
            },
        }
        self.current_state = state;
        self.finished()
    }

    /// Run one step: write, move, restore the margin, enter the next state. Returns
    /// whether the machine has stopped: it is now in a final state, or it had no
    /// instruction to run (then nothing changes).
    pub fn step(&mut self) -> (done: bool)
        requires
            old(self).wf(),
        ensures
            final(self).wf(),
            has_margin(final(self)@.tape, final(self)@.position),
            final(self)@ == old(self)@.step(),
            final(self).same_program(old(self)),
            done == (old(self)@.instruction() is None || final(self)@.is_final()),
    {
        let instruction = match self.get_instruction() {
            Some(i) => i,
            None => {
                return true;
            },
        };
        let p = self.tape_position;
        self.tape.set(p, instruction.to_value);
        assert(p + 1 < self.tape.len());
        let q: usize = match instruction.movement {
            Movement::RIGHT => p + 1,
            Movement::LEFT => p - 1,
            Movement::HALT => p,
        };
        let np = pad_tape(&mut self.tape, q);
        self.tape_position = np;
        let done = self.update_state(instruction.to_state);
        proof {
            assert(self@ == old(self)@.step());
        }
        done
    }

    /// Some state has been entered more than `threshold` times.
    pub fn is_infinite_loop(&self, threshold: usize) -> (r: bool)
        requires
            self.wf(),
        ensures
            r == self@.loops_past(threshold),
    {
        let ghost e = count_entries(self.frequencies@);
        let mut i: usize = 0;
        while i < self.frequencies.len()
            invariant
                i <= self.frequencies.len(),
                e == count_entries(self.frequencies@),
                unique_keys(e),
                forall|j: int| 0 <= j < i ==> e[j].1 <= threshold,
            decreases self.frequencies.len() - i,
        {
            if self.frequencies[i].1 > threshold {
                proof {
                    lemma_to_map_index(e, i as int);
                    assert(self@.frequencies.contains_key(e[i as int].0));
                }
                return true;
            }
            i = i + 1;
        }
        proof {
            if self@.loops_past(threshold) {
                let s = choose|s: Seq<char>|
                    self@.frequencies.contains_key(s) && self@.frequencies[s] > threshold;
                lemma_to_map_contains(e, s);
                let j = choose|j: int| 0 <= j < e.len() && e[j].0 == s;
                lemma_to_map_index(e, j);
            }
        }
        false
    }

    /// Forget the visit counts, starting a new window of loop detection.
    pub fn reset_frequencies(&mut self)
        requires
            old(self).wf(),
        ensures
            final(self).wf(),
            final(self)@ == (MachineView { frequencies: Map::empty(), ..old(self)@ }),
            final(self).same_program(old(self)),
    {
        self.frequencies = Vec::new();
        proof {
            assert(count_entries(self.frequencies@) =~= Seq::empty());
            assert(self@.frequencies =~= Map::<Seq<char>, usize>::empty());
        }
    }

    /// The number of `1`s on the tape.
    pub fn count_ones(&self) -> (r: usize)
        ensures
            r == count_ones(self@.tape),
    {
        let mut n: usize = 0;
        let mut i: usize = 0;
        while i < self.tape.len()
            invariant
                i <= self.tape.len(),
                n == count_ones(self.tape@.take(i as int)),
                n <= i,
            decreases self.tape.len() - i,
        {
            assert(self.tape@.take(i + 1).drop_last() =~= self.tape@.take(i as int));
            if self.tape[i] {
                n = n + 1;
            }
            i = i + 1;
        }
        assert(self.tape@.take(i as int) =~= self.tape@);
        n
    }

    /// The values on the tape: for each maximal run of `1`s, its length minus one.
    pub fn values(&self) -> (r: Vec<u32>)
        ensures
            r@ == tape_values(self@.tape).map_values(|n: nat| n as u32),
    {
        let ghost t = self.tape@;
        let mut out: Vec<u32> = Vec::new();
        let ghost mut acc: Seq<nat> = Seq::empty();
        let mut run: usize = 0;
        let mut i: usize = 0;
        while i < self.tape.len()
            invariant
                i <= self.tape.len(),
                t == self.tape@,
                run <= i,
                values_from(t, i as int, run as nat, acc) == tape_values(t),
                out@ == acc.map_values(|n: nat| n as u32),
            decreases self.tape.len() - i,
        {
            if self.tape[i] {
                run = run + 1;
            } else {
                if run > 0 {
                    out.push((run - 1) as u32);
                    proof {
                        acc = acc.push((run - 1) as nat);
                    }
                    assert(out@ =~= acc.map_values(|n: nat| n as u32));
                }
                run = 0;
            }
            i = i + 1;
        }
        if run > 0 {
            out.push((run - 1) as u32);
            proof {
                acc = acc.push((run - 1) as nat);
            }
            assert(out@ =~= acc.map_values(|n: nat| n as u32));
        }
        out
    }

    /// The tape as space-separated bits, a newline, and a `^` under the head's cell.
    pub fn to_string(&self) -> (r: String)
        ensures
            r@ == render(self@.tape, self@.position),
    {
        let mut line1 = String::new();
        let mut line2 = String::new();
        let mut i: usize = 0;
        while i < self.tape.len()
            invariant
                i <= self.tape.len(),
                line1@ == tape_line(self.tape@, i as int),
                line2@ == head_line(self.tape_position as int, i as int),
            decreases self.tape.len() - i,
        {
            proof {
                reveal_strlit("1 ");
                reveal_strlit("0 ");
                reveal_strlit("^ ");
                reveal_strlit("  ");
            }
            if self.tape[i] {
                line1.append("1 ");
            } else {
                line1.append("0 ");
            }
            if i == self.tape_position {
                line2.append("^ ");
            } else {
                line2.append("  ");
            }
            i = i + 1;
        }
        proof {
            reveal_strlit("\n");
        }
        line1.append("\n");
        line1.append(line2.as_str());
        line1
    }

    /// What the tape holds now: undefined if the machine cannot go on, else no steps
    /// and the number of `1`s.
    pub fn tape_value(&self) -> (r: TuringOutput)
        requires
            self.wf(),
        ensures
            r == (if self@.instruction() is None {
                TuringOutput::Undefined(0)
            } else {
                TuringOutput::Defined((0, count_ones(self@.tape) as usize))
            }),
    {
        if self.is_undefined() {
            return TuringOutput::Undefined(0);
        }
        TuringOutput::Defined((0, self.count_ones()))
    }

    /// Run the machine until it is in a final state or has no instruction to run, and
    /// return the number of steps and the number of `1`s left on the tape. The count of
    /// steps stops at the largest `usize`.
    pub fn final_result(&mut self) -> (r: TuringOutput)
        requires
            old(self).wf(),
        ensures
            final(self).wf(),
            final(self).same_program(old(self)),
            match r {
                TuringOutput::Defined((n, ones)) => {
                    &&& final(self)@ == old(self)@.run(n as nat)
                    &&& ones == count_ones(final(self)@.tape)
                    &&& (final(self)@.is_final() || final(self)@.instruction() is None || n
                        == usize::MAX)
                    &&& forall|k: nat|
                        k < n ==> !(#[trigger] old(self)@.run(k)).is_final() && old(self)@.run(
                            k,
                        ).instruction() is Some
                },
                TuringOutput::Undefined(_) => false,
            },
    {
        let mut steps: usize = 0;
        while !self.finished() && !self.is_undefined() && steps < usize::MAX
            invariant
                self.wf(),
                self.same_program(old(self)),
                self@ == old(self)@.run(steps as nat),
                forall|k: nat|
                    k < steps ==> !(#[trigger] old(self)@.run(k)).is_final() && old(self)@.run(
                        k,
                    ).instruction() is Some,
            decreases usize::MAX - steps,
        {
            proof {
                lemma_run_step(old(self)@, steps as nat);
            }
            self.step();
            steps = steps + 1;
        }
        TuringOutput::Defined((steps, self.count_ones()))
    }
}

} // verus!
