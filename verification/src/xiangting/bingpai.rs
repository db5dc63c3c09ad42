use crate::xiangting::constants::{MAX_NUM_SAME_TILE, MAX_NUM_SHOUPAI, NUM_TILE_INDEX};
use vstd::prelude::*;

verus! {

/// Concealed tiles of a hand: for each of the 34 tile kinds, how many copies
/// are held. Index 0..=8 is man 1-9, 9..=17 pin 1-9, 18..=26 sou 1-9 and
/// 27..=33 the seven honors.
pub type Bingpai = [u8; NUM_TILE_INDEX];

/// Why a concealed hand was rejected.
#[derive(Debug, Clone, Copy, PartialEq, Eq)]
pub enum InvalidBingpaiError {
    /// Some kind is held more than 4 times; carries the count of the first such kind.
    ExceedsMaxNumSameTile(u8),
    /// More than 14 tiles in total; carries the total.
    ExceedsMaxNumBingpai(u8),
    /// No tile at all.
    EmptyBingpai,
    /// The total is a multiple of 3; carries the total.
    InvalidNumBingpai(u8),
}

/// Sum of all counts.
pub open spec fn total_tiles(counts: Seq<u8>) -> int
    decreases counts.len(),
{
    if counts.len() == 0 {
        0
    } else {
        total_tiles(counts.drop_last()) + counts.last()
    }
}

/// No kind is counted more than `limit` times.
pub open spec fn within_copies(counts: Seq<u8>, limit: int) -> bool {
    forall|i: int| 0 <= i < counts.len() ==> counts[i] <= limit
}

/// Index of the first count above `limit`, or `counts.len()` if there is none.
pub open spec fn first_excess(counts: Seq<u8>, limit: int) -> int
    decreases counts.len(),
{
    if counts.len() == 0 {
        0
    } else {
        let k = first_excess(counts.drop_last(), limit);
        if k < counts.len() - 1 {
            k
        } else if counts.last() > limit {
            counts.len() - 1
        } else {
            counts.len() as int
        }
    }
}

/// What validating a concealed hand yields.
pub open spec fn count_bingpai_spec(counts: Seq<u8>) -> Result<u8, InvalidBingpaiError> {
    let k = first_excess(counts, MAX_NUM_SAME_TILE as int);
    let n = total_tiles(counts);
    if k < counts.len() {
        Err(InvalidBingpaiError::ExceedsMaxNumSameTile(counts[k]))
    } else if n > MAX_NUM_SHOUPAI {
        Err(InvalidBingpaiError::ExceedsMaxNumBingpai(n as u8))
    } else if n == 0 {
        Err(InvalidBingpaiError::EmptyBingpai)
    } else if n % 3 == 0 {
        Err(InvalidBingpaiError::InvalidNumBingpai(n as u8))
    } else {
        Ok(n as u8)
    }
}

/// `first_excess` is the least index whose count exceeds the limit.
pub proof fn lemma_first_excess(counts: Seq<u8>, limit: int)
    ensures
        0 <= first_excess(counts, limit) <= counts.len(),
        forall|i: int| 0 <= i < first_excess(counts, limit) ==> counts[i] <= limit,
        first_excess(counts, limit) < counts.len() ==> counts[first_excess(counts, limit)] > limit,
        first_excess(counts, limit) == counts.len() <==> within_copies(counts, limit),
    decreases counts.len(),
{
    if counts.len() > 0 {
        let prefix = counts.drop_last();
        lemma_first_excess(prefix, limit);
        assert forall|i: int| 0 <= i < prefix.len() implies prefix[i] == counts[i] by {}
        if within_copies(counts, limit) {
            assert forall|i: int| 0 <= i < prefix.len() implies prefix[i] <= limit by {
                assert(counts[i] <= limit);
            }
        }
    }
}

/// A sum of counts that are each at most `limit` is at most `limit` per entry.
pub proof fn lemma_total_bound(counts: Seq<u8>, limit: int)
    requires
        within_copies(counts, limit),
    ensures
        0 <= total_tiles(counts) <= limit * counts.len(),
    decreases counts.len(),
{
    if counts.len() > 0 {
        lemma_total_bound(counts.drop_last(), limit);
        assert(limit * counts.len() == limit * (counts.len() - 1) + limit) by (nonlinear_arith);
    } else {
        assert(limit * 0 == 0);
    }
}

/// Validates a concealed hand and returns its number of tiles.
///
/// Checks in this order: no kind above 4 copies, at most 14 tiles, at least
/// one tile, and a total that is not a multiple of 3.
pub fn count_bingpai(bingpai: &Bingpai) -> (r: Result<u8, InvalidBingpaiError>)
    ensures
        r == count_bingpai_spec(bingpai@),
{
    let mut acc: u8 = 0;
    let mut i: usize = 0;
    while i < NUM_TILE_INDEX
        invariant
            0 <= i <= NUM_TILE_INDEX,
            bingpai@.len() == NUM_TILE_INDEX,
            within_copies(bingpai@.take(i as int), MAX_NUM_SAME_TILE as int),
            acc == total_tiles(bingpai@.take(i as int)),
        decreases NUM_TILE_INDEX - i,
    {
        let num_tile: u8 = bingpai[i];
        proof {
            let prefix = bingpai@.take(i as int);
            let next = bingpai@.take(i as int + 1);
            assert(next.drop_last() =~= prefix);
            assert(next.last() == num_tile);
            lemma_total_bound(prefix, MAX_NUM_SAME_TILE as int);
        }
        if num_tile > MAX_NUM_SAME_TILE {
            proof {
                lemma_first_excess(bingpai@, MAX_NUM_SAME_TILE as int);
                let k = first_excess(bingpai@, MAX_NUM_SAME_TILE as int);
                assert forall|j: int| 0 <= j < i implies bingpai@[j] <= MAX_NUM_SAME_TILE by {
                    assert(bingpai@.take(i as int)[j] == bingpai@[j]);
                }
                assert(k == i);
            }
            return Err(InvalidBingpaiError::ExceedsMaxNumSameTile(num_tile));
        }
        acc = acc + num_tile;
        i = i + 1;
    }
    proof {
        assert(bingpai@.take(NUM_TILE_INDEX as int) =~= bingpai@);
        lemma_first_excess(bingpai@, MAX_NUM_SAME_TILE as int);
        lemma_total_bound(bingpai@, MAX_NUM_SAME_TILE as int);
    }
    if acc > MAX_NUM_SHOUPAI {
        return Err(InvalidBingpaiError::ExceedsMaxNumBingpai(acc));
    }
    if acc == 0 {
        return Err(InvalidBingpaiError::EmptyBingpai);
    }
    if acc % 3 == 0 {
        return Err(InvalidBingpaiError::InvalidNumBingpai(acc));
    }
    Ok(acc)
}

/// Concealed tiles with at most 4 copies of each kind are accepted exactly
/// when their number is one of 1, 2, 4, 5, 7, 8, 10, 11, 13, 14. No tile is
/// rejected as an empty hand, more than 14 as too many, and 3, 6, 9 or 12 as
/// a wrong number of tiles.
pub proof fn lemma_valid_totals(counts: Seq<u8>)
    requires
        within_copies(counts, MAX_NUM_SAME_TILE as int),
    ensures
        ({
            let t = total_tiles(counts);
            &&& count_bingpai_spec(counts) is Ok <==> (t == 1 || t == 2 || t == 4 || t == 5 || t
                == 7 || t == 8 || t == 10 || t == 11 || t == 13 || t == 14)
            &&& count_bingpai_spec(counts) is Ok ==> count_bingpai_spec(counts) == Ok::<
                u8,
                InvalidBingpaiError,
            >(t as u8)
            &&& t == 0 ==> count_bingpai_spec(counts) == Err::<u8, InvalidBingpaiError>(
                InvalidBingpaiError::EmptyBingpai,
            )
            &&& t > 14 ==> count_bingpai_spec(counts) == Err::<u8, InvalidBingpaiError>(
                InvalidBingpaiError::ExceedsMaxNumBingpai(t as u8),
            )
            &&& (t == 3 || t == 6 || t == 9 || t == 12) ==> count_bingpai_spec(counts) == Err::<
                u8,
                InvalidBingpaiError,
            >(InvalidBingpaiError::InvalidNumBingpai(t as u8))
        }),
{
    lemma_first_excess(counts, MAX_NUM_SAME_TILE as int);
    lemma_total_bound(counts, MAX_NUM_SAME_TILE as int);
}

/// A kind held 5 times, with no kind before it held more than 4 times, has
/// the hand rejected for that kind with its count of 5.
pub proof fn lemma_fifth_copy_rejected(counts: Seq<u8>, kind: int)
    requires
        0 <= kind < counts.len(),
        counts[kind] == 5,
        forall|j: int| 0 <= j < kind ==> counts[j] <= MAX_NUM_SAME_TILE,
    ensures
        first_excess(counts, MAX_NUM_SAME_TILE as int) == kind,
        count_bingpai_spec(counts) == Err::<u8, InvalidBingpaiError>(
            InvalidBingpaiError::ExceedsMaxNumSameTile(5),
        ),
{
    lemma_first_excess(counts, MAX_NUM_SAME_TILE as int);
}

} // verus!
