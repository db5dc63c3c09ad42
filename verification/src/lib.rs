//! Mahjong hand tools: replacement-number (shanten) calculation for the
//! standard, seven-pairs and thirteen-orphans shapes, together with the tile,
//! meld, wall, river and rule types of the surrounding simulator.

pub mod bipai;
pub mod fulu;
pub mod generate_hand;
pub mod hand_enumerator;
pub mod hand_tools;
pub mod he;
pub mod point;
pub mod random_hand;
pub mod rule;
pub mod shoupai;
pub mod tile;
pub mod tile_names;
pub mod xiangting;
