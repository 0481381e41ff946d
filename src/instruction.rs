use vstd::prelude::*;

use crate::grammar::{InstructionRecordView, Rule};
use crate::parser::InstructionRecord;
use crate::warnings::{CompilerError, ErrorPosition, ErrorView};

verus! {

/// The possible movements of the tape head.
#[derive(Debug, Clone, Copy, PartialEq, Eq, Structural, PartialOrd, Ord)]
pub enum Movement {
    RIGHT,
    LEFT,
    HALT,
}

/// The movement that a symbol denotes. Each movement has an English letter and a
/// Spanish one (`D`erecha, `I`zquierda, `N`inguno).
pub open spec fn movement_of(c: char) -> Option<Movement> {
    if c == 'R' || c == 'D' {
        Some(Movement::RIGHT)
    } else if c == 'L' || c == 'I' {
        Some(Movement::LEFT)
    } else if c == 'H' || c == 'N' {
        Some(Movement::HALT)
    } else {
        None
    }
}

impl Movement {
    /// Parse a movement from its one-character symbol.
    pub fn from_symbol(c: char) -> (r: Option<Movement>)
        ensures
            r == movement_of(c),
    {
        if c == 'R' || c == 'D' {
            Some(Movement::RIGHT)
        } else if c == 'L' || c == 'I' {
            Some(Movement::LEFT)
        } else if c == 'H' || c == 'N' {
            Some(Movement::HALT)
        } else {
            None
        }
    }

    /// The canonical symbol of the movement.
    pub fn symbol(&self) -> (c: char)
        ensures
            movement_of(c) == Some(*self),
            c == match *self {
                Movement::RIGHT => 'R',
                Movement::LEFT => 'L',
                Movement::HALT => 'H',
            },
    {
        match self {
            Movement::RIGHT => 'R',
            Movement::LEFT => 'L',
            Movement::HALT => 'H',
        }
    }
}

impl std::str::FromStr for Movement {
    type Err = String;

    /// Parse a movement from its symbol.
    fn from_str(input: &str) -> Result<Self, Self::Err> {
        let movement = if input.unicode_len() == 1 {
            Movement::from_symbol(input.get_char(0))
        } else {
            None
        };
        match movement {
            Some(m) => Ok(m),
            None => {
                let mut message = String::new();
                message.append("\"");
                message.append(input);
                message.append("\" is an unknown movement");
                Err(message)
            },
        }
    }
}

/// A Turing machine instruction: in `from_state` reading `from_value`, write `to_value`,
/// move the head and go to `to_state`.
#[derive(Debug, Clone)]
pub struct TuringInstruction {
    pub from_state: String,
    pub from_value: bool,
    pub to_value: bool,
    pub movement: Movement,
    pub to_state: String,
}

/// The mathematical value of an instruction.
pub struct InstructionView {
    pub from_state: Seq<char>,
    pub from_value: bool,
    pub to_value: bool,
    pub movement: Movement,
    pub to_state: Seq<char>,
}

impl InstructionView {
    /// The key under which the instruction stands in a table.
    pub open spec fn key(self) -> (Seq<char>, bool) {
        (self.from_state, self.from_value)
    }
}

/// The instruction that a final state without an explicit rule runs: it keeps the bit,
/// does not move and stays in the state.
pub open spec fn halt_view(state: Seq<char>, bit: bool) -> InstructionView {
    InstructionView {
        from_state: state,
        from_value: bit,
        to_value: bit,
        movement: Movement::HALT,
        to_state: state,
    }
}

impl View for TuringInstruction {
    type V = InstructionView;

    open spec fn view(&self) -> InstructionView {
        InstructionView {
            from_state: self.from_state@,
            from_value: self.from_value,
            to_value: self.to_value,
            movement: self.movement,
            to_state: self.to_state@,
        }
    }
}

/// The movement that a symbol token denotes, if it is one character that denotes one.
pub open spec fn movement_of_token(t: Seq<char>) -> Option<Movement> {
    if t.len() == 1 {
        movement_of(t[0])
    } else {
        None
    }
}

/// The message for a movement symbol that denotes no movement.
pub open spec fn unknown_movement_message(t: Seq<char>) -> Seq<char> {
    "\""@ + t + "\" is an unknown movement"@
}

/// The instruction that a declaration gives, or the error for its movement symbol, which
/// stands at `position`.
pub open spec fn instruction_from(r: InstructionRecordView, position: ErrorPosition) -> Result<
    InstructionView,
    ErrorView,
> {
    match movement_of_token(r.movement) {
        Some(m) => Ok(
            InstructionView {
                from_state: r.from_state,
                from_value: r.from_value,
                to_value: r.to_value,
                movement: m,
                to_state: r.to_state,
            },
        ),
        None => Err(
            ErrorView::Syntax {
                position,
                message: unknown_movement_message(r.movement),
                code: r.movement,
                expected: Rule::movement,
                found: None,
            },
        ),
    }
}

/// The text of a bit.
pub open spec fn bit_text(b: bool) -> Seq<char> {
    if b {
        seq!['1']
    } else {
        seq!['0']
    }
}

/// The text of an instruction: `(<state>, <bit>, <bit>, <movement>, <state>)`.
pub open spec fn instruction_text(i: InstructionView) -> Seq<char> {
    seq!['('] + i.from_state + seq![',', ' '] + bit_text(i.from_value) + seq![',', ' '] + bit_text(
        i.to_value,
    ) + seq![',', ' '] + seq![
        match i.movement {
            Movement::RIGHT => 'R',
            Movement::LEFT => 'L',
            Movement::HALT => 'H',
        },
    ] + seq![',', ' '] + i.to_state + seq![')']
}

impl TuringInstruction {
    /// The instruction as it is declared: `(<state>, <bit>, <bit>, <movement>, <state>)`.
    pub fn to_string(&self) -> (r: String)
        ensures
            r@ == instruction_text(self@),
    {
        proof {
            reveal_strlit("(");
            reveal_strlit(", ");
            reveal_strlit("1");
            reveal_strlit("0");
            reveal_strlit("R");
            reveal_strlit("L");
            reveal_strlit("H");
            reveal_strlit(")");
        }
        let mut r = String::new();
        r.append("(");
        r.append(self.from_state.as_str());
        r.append(", ");
        r.append(if self.from_value { "1" } else { "0" });
        r.append(", ");
        r.append(if self.to_value { "1" } else { "0" });
        r.append(", ");
        r.append(
            match self.movement {
                Movement::RIGHT => "R",
                Movement::LEFT => "L",
                Movement::HALT => "H",
            },
        );
        r.append(", ");
        r.append(self.to_state.as_str());
        r.append(")");
        assert(r@ =~= instruction_text(self@));
        r
    }

    /// Create an instruction from the fields of its declaration; its movement symbol
    /// stands at `movement_position`.
    pub fn from(fields: &InstructionRecord, movement_position: ErrorPosition) -> (r: Result<
        Self,
        CompilerError,
    >)
        ensures
            match r {
                Ok(i) => instruction_from(fields@, movement_position) == Ok::<
                    InstructionView,
                    ErrorView,
                >(i@),
                Err(e) => instruction_from(fields@, movement_position) == Err::<
                    InstructionView,
                    ErrorView,
                >(e@),
            },
    {
        let symbol = fields.movement.as_str();
        let movement = if symbol.unicode_len() == 1 {
            Movement::from_symbol(symbol.get_char(0))
        } else {
            None
        };
        match movement {
            Some(m) => Ok(
                TuringInstruction {
                    from_state: fields.from_state.clone(),
                    from_value: fields.from_value,
                    to_value: fields.to_value,
                    movement: m,
                    to_state: fields.to_state.clone(),
                },
            ),
            None => {
                let mut message = String::new();
                message.append("\"");
                message.append(symbol);
                message.append("\" is an unknown movement");
                assert(message@ =~= unknown_movement_message(fields.movement@));
                Err(
                    CompilerError::SyntaxError {
                        position: movement_position,
                        message,
                        code: fields.movement.clone(),
                        expected: Rule::movement,
                        found: None,
                    },
                )
            },
        }
    }

    /// A copy of the instruction.
    pub fn copy(&self) -> (r: TuringInstruction)
        ensures
            r@ == self@,
    {
        TuringInstruction {
            from_state: self.from_state.clone(),
            from_value: self.from_value,
            to_value: self.to_value,
            movement: self.movement,
            to_state: self.to_state.clone(),
        }
    }

    /// Create the halt instruction of a (state, bit) pair that has no explicit rule.
    pub fn halt(index: (String, bool)) -> (r: Self)
        ensures
            r@ == halt_view(index.0@, index.1),
    {
        Self {
            from_state: index.0.clone(),
            from_value: index.1,
            to_value: index.1,
            movement: Movement::HALT,
            to_state: index.0,
        }
    }
}

} // verus!
