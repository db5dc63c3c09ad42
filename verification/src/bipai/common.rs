use vstd::prelude::*;

verus! {

/// Copies of each tile kind in a wall.
pub const MAX_TILE_COPIES: u8 = 4;

/// Tiles of the dead wall.
pub const NUM_WANGPAI: usize = 14;

/// Most quads in one hand.
pub const MAX_GANG_COUNT: usize = 4;

/// Most dora indicators: one, and one more for each quad.
pub const MAX_NUM_BAOPAI: usize = 5;

/// Tiles that each player is dealt.
pub const NUM_HAND_TILES: usize = 13;

} // verus!
