//! Where the walls of a game come from.

pub mod fixed;
pub mod random;
