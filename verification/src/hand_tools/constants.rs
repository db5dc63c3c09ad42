use vstd::prelude::*;

verus! {

/// Most copies of one tile kind.
pub const MAX_TILE_COPIES: u8 = 4;

/// Number of tile kinds.
pub const NUM_TILE_INDEX: usize = 34;

/// Greatest tile index.
pub const MAX_TILE_INDEX: u8 = 33;

/// Greatest index of a numbered tile.
pub const MAX_SHUPAI_INDEX: u8 = 26;

/// Most concealed tiles of a hand that has not drawn.
pub const MAX_NUM_SHOUPAI: u8 = 13;

/// Most melds of a hand.
pub const MAX_NUM_MIANZI: u8 = 4;

} // verus!
