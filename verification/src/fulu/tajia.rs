use vstd::prelude::*;

verus! {

/// Another player, by seat relative to one's own.
#[derive(Debug, PartialEq, Eq, Structural, Clone, Copy)]
pub enum Tajia {
    /// The player to the right, next in turn.
    Xiajia,
    /// The player across the table.
    Duimian,
    /// The player to the left, previous in turn.
    Shangjia,
}

} // verus!
