//! Replacement number of a hand: the least number of tiles that must be
//! exchanged to reach a winning shape.

pub mod bingpai;
pub mod bounds;
pub mod calculate;
pub mod complete_hand;
pub mod constants;
pub mod decomposition;
pub mod hand_facts;
pub mod mianzi;
pub mod qiduizi;
pub mod ready_hand;
pub mod shisanyao;
pub mod shoupai;
pub mod standard;
pub mod tile_flag;
