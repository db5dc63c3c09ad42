use crate::hand_tools::constants::{MAX_SHUPAI_INDEX, MAX_TILE_COPIES, MAX_TILE_INDEX,
    NUM_TILE_INDEX};
use vstd::prelude::*;

verus! {

/// A tile kind, by index: 0..=8 is 1m to 9m, 9..=17 is 1p to 9p, 18..=26 is
/// 1s to 9s, and 27..=33 is east, south, west, north, white, green, red.
pub type Tile = u8;

/// Questions about a tile index.
pub trait TileExt {
    /// Whether the index names a tile.
    spec fn is_valid_spec(&self) -> bool;

    /// Whether the index names a numbered tile.
    spec fn is_shupai_spec(&self) -> bool;

    /// Whether the index names a tile.
    fn is_valid(&self) -> (r: bool)
        ensures
            r == self.is_valid_spec(),
    ;

    /// Whether the index names a numbered tile.
    fn is_shupai(&self) -> (r: bool)
        ensures
            r == self.is_shupai_spec(),
    ;
}

impl TileExt for Tile {
    open spec fn is_valid_spec(&self) -> bool {
        *self <= MAX_TILE_INDEX
    }

    open spec fn is_shupai_spec(&self) -> bool {
        *self <= MAX_SHUPAI_INDEX
    }

    fn is_valid(&self) -> (r: bool) {
        *self <= MAX_TILE_INDEX
    }

    fn is_shupai(&self) -> (r: bool) {
        *self <= MAX_SHUPAI_INDEX
    }
}

/// For each tile kind, how many copies are held.
pub type TileCounts = [u8; NUM_TILE_INDEX];

/// Tiles one by one: copy `j` of kind `k` has id `4 * k + j`.
pub type TileIds = Vec<u8>;

/// The ids of the first `count` copies of kind `kind`.
pub open spec fn copies_of(kind: int, count: int) -> Seq<u8> {
    Seq::new(count as nat, |j: int| (4 * kind + j) as u8)
}

/// The ids of the tiles that the first `upto` kinds of `counts` hold, kind
/// by kind in ascending order. Red fives are not told from plain fives.
pub open spec fn ids_of(counts: Seq<u8>, upto: int) -> Seq<u8>
    decreases upto,
{
    if upto <= 0 {
        Seq::empty()
    } else {
        ids_of(counts, upto - 1) + copies_of(upto - 1, counts[upto - 1] as int)
    }
}

/// No kind is held more than 4 times.
pub open spec fn counts_ok(counts: Seq<u8>) -> bool {
    forall|i: int| 0 <= i < counts.len() ==> #[trigger] counts[i] <= MAX_TILE_COPIES
}

/// Turning counts into single tiles.
pub trait TileIdsExt {
    /// The ids of the tiles held.
    spec fn to_ids_spec(&self) -> Seq<u8>;

    /// Whether the counts can be turned into ids.
    spec fn to_ids_req(&self) -> bool;

    /// Lists the tiles held, one id per tile.
    fn to_ids(&self) -> (ids: TileIds)
        requires
            self.to_ids_req(),
        ensures
            ids@ == self.to_ids_spec(),
    ;
}

impl TileIdsExt for TileCounts {
    open spec fn to_ids_spec(&self) -> Seq<u8> {
        ids_of(self@, NUM_TILE_INDEX as int)
    }

    open spec fn to_ids_req(&self) -> bool {
        counts_ok(self@)
    }

    fn to_ids(&self) -> (ids: TileIds) {
        let mut ids: Vec<u8> = Vec::new();
        let mut index: usize = 0;
        while index < NUM_TILE_INDEX
            invariant
                0 <= index <= NUM_TILE_INDEX,
                counts_ok(self@),
                ids@ == ids_of(self@, index as int),
            decreases NUM_TILE_INDEX - index,
        {
            let count: u8 = self[index];
            let base_id: u8 = (index as u8) * 4;
            let ghost before = ids@;
            let mut j: u8 = 0;
            while j < count
                invariant
                    0 <= j <= count <= MAX_TILE_COPIES,
                    index < NUM_TILE_INDEX,
                    base_id == 4 * index,
                    ids@ == before + copies_of(index as int, j as int),
                decreases count - j,
            {
                ids.push(base_id + j);
                proof {
                    assert(ids@ =~= before + copies_of(index as int, j as int + 1));
                }
                j = j + 1;
            }
            index = index + 1;
        }
        ids
    }
}

} // verus!
