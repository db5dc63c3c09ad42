//! The hand of a player in a running game: concealed tiles, declared melds
//! and the state of the turn.

pub mod candidates;
pub mod hand;
pub mod lists;

pub use hand::{Shoupai, ShoupaiError, ShoupaiView, Zimopai};
