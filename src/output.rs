use vstd::prelude::*;

verus! {

/// What a run of a machine gives: the number of steps and the number of `1`s on the
/// tape, or undefined where the machine has no instruction to go on with.
#[derive(Debug, Clone, Copy, PartialEq, Eq)]
pub enum TuringOutput {
    Defined((usize, usize)),
    Undefined(usize),
}

} // verus!
