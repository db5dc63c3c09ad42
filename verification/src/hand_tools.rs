//! Tile counts and melds of a hand, as the tools that work on whole hands
//! take them.

pub mod bingpai;
pub mod constants;
pub mod fulu_mianzi;
pub mod shoupai;
pub mod tile;
pub mod tile_code;
