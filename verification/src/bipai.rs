//! The wall: the tiles of a hand in the order in which they are dealt and drawn.

pub mod bipai_trait;
pub mod common;
pub mod four_player;
pub mod provider;
pub mod random;
pub mod shuffle;
pub mod tile_deque;

pub use bipai_trait::Bipai;
