use crate::hand_tools::constants::{MAX_NUM_SHOUPAI, MAX_TILE_COPIES, NUM_TILE_INDEX};
use crate::hand_tools::tile::{Tile, TileCounts};
use crate::xiangting::bingpai::{first_excess, lemma_first_excess, lemma_total_bound, total_tiles,
    within_copies};
use vstd::prelude::*;

verus! {

/// Why the concealed tiles of a hand that has not drawn were rejected.
#[derive(Debug, Clone, Copy, PartialEq, Eq)]
pub enum BingpaiError {
    /// A kind is held more than 4 times.
    TooManyCopies {
        /// The first kind that is held too often.
        tile: Tile,
        /// How often it is held.
        count: u8,
    },
    /// More than 13 tiles in all.
    TooManyTiles(u8),
    /// The number of tiles is not a multiple of 3 plus 1.
    InvalidTileCount(u8),
}

/// What counting the concealed tiles yields: the first kind held more than
/// 4 times is reported with its count; else the number of tiles must be at
/// most 13 and one more than a multiple of 3, and is returned.
pub open spec fn count_spec(counts: Seq<u8>) -> Result<u8, BingpaiError> {
    let k = first_excess(counts, MAX_TILE_COPIES as int);
    let n = total_tiles(counts);
    if k < counts.len() {
        Err(BingpaiError::TooManyCopies { tile: k as u8, count: counts[k] })
    } else if n > MAX_NUM_SHOUPAI {
        Err(BingpaiError::TooManyTiles(n as u8))
    } else if n % 3 != 1 {
        Err(BingpaiError::InvalidTileCount(n as u8))
    } else {
        Ok(n as u8)
    }
}

/// Counting the tiles of a hand that has not drawn.
pub trait TileCountsExt {
    /// What `count` yields.
    spec fn count_result(&self) -> Result<u8, BingpaiError>;

    /// Validates the counts and returns the number of tiles.
    fn count(&self) -> (r: Result<u8, BingpaiError>)
        ensures
            r == self.count_result(),
    ;
}

impl TileCountsExt for TileCounts {
    open spec fn count_result(&self) -> Result<u8, BingpaiError> {
        count_spec(self@)
    }

    fn count(&self) -> (r: Result<u8, BingpaiError>) {
        let mut acc: u8 = 0;
        let mut i: usize = 0;
        while i < NUM_TILE_INDEX
            invariant
                0 <= i <= NUM_TILE_INDEX,
                self@.len() == NUM_TILE_INDEX,
                within_copies(self@.take(i as int), MAX_TILE_COPIES as int),
                acc == total_tiles(self@.take(i as int)),
            decreases NUM_TILE_INDEX - i,
        {
            let c: u8 = self[i];
            proof {
                let prefix = self@.take(i as int);
                let next = self@.take(i as int + 1);
                assert(next.drop_last() =~= prefix);
                assert(next.last() == c);
                lemma_total_bound(prefix, MAX_TILE_COPIES as int);
            }
            if c > MAX_TILE_COPIES {
                proof {
                    lemma_first_excess(self@, MAX_TILE_COPIES as int);
                    assert forall|j: int| 0 <= j < i implies self@[j] <= MAX_TILE_COPIES by {
                        assert(self@.take(i as int)[j] == self@[j]);
                    }
                    assert(first_excess(self@, MAX_TILE_COPIES as int) == i);
                }
                return Err(BingpaiError::TooManyCopies { tile: i as Tile, count: c });
            }
            acc = acc + c;
            i = i + 1;
        }
        proof {
            assert(self@.take(NUM_TILE_INDEX as int) =~= self@);
            lemma_first_excess(self@, MAX_TILE_COPIES as int);
            lemma_total_bound(self@, MAX_TILE_COPIES as int);
        }
        if acc > MAX_NUM_SHOUPAI {
            Err(BingpaiError::TooManyTiles(acc))
        } else if acc % 3 != 1 {
            Err(BingpaiError::InvalidTileCount(acc))
        } else {
            Ok(acc)
        }
    }
}

/// A kind held 5 times, with no kind before it held more than 4 times, has
/// the hand rejected for that kind with its count of 5.
pub proof fn lemma_fifth_copy_rejected(counts: Seq<u8>, kind: int)
    requires
        0 <= kind < counts.len() <= u8::MAX,
        counts[kind] == 5,
        forall|j: int| 0 <= j < kind ==> counts[j] <= MAX_TILE_COPIES,
    ensures
        count_spec(counts) == Err::<u8, BingpaiError>(
            BingpaiError::TooManyCopies { tile: kind as u8, count: 5 },
        ),
{
    lemma_first_excess(counts, MAX_TILE_COPIES as int);
}

} // verus!
