use vstd::prelude::*;

verus! {

/// Most copies of one tile kind that exist.
pub const MAX_NUM_SAME_TILE: u8 = 4;

/// Most tiles a hand holds, the drawn tile included.
pub const MAX_NUM_SHOUPAI: u8 = 14;

/// Most melds a hand can have claimed.
pub const MAX_NUM_FULU_MIANZI: usize = 4;

/// Number of tile kinds: 27 numbered kinds and 7 honors.
pub const NUM_TILE_INDEX: usize = 34;

} // verus!
