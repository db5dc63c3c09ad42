use crate::xiangting::bingpai::{first_excess, lemma_first_excess, lemma_total_bound, total_tiles,
    within_copies, Bingpai};
use crate::xiangting::constants::{MAX_NUM_FULU_MIANZI, MAX_NUM_SAME_TILE, MAX_NUM_SHOUPAI,
    NUM_TILE_INDEX};
use crate::xiangting::mianzi::{position_offset, validate_mianzi_spec, ClaimedTilePosition,
    InvalidMianziError, Mianzi};
use vstd::prelude::*;

verus! {

/// Why a hand of concealed tiles and claimed melds was rejected.
#[derive(Debug, Clone, Copy, PartialEq, Eq)]
pub enum InvalidShoupaiError {
    /// Some kind occurs more than 4 times in the concealed tiles and melds
    /// together; carries the count of the first such kind.
    ExceedsMaxNumSameTile(u8),
    /// More than 14 tiles, not counting the fourth tile of each quad; carries
    /// the number of tiles.
    ExceedsMaxNumShoupai(u8),
    /// The number of tiles, without the fourth tile of each quad, is a
    /// multiple of 3; carries the number of tiles.
    InvalidNumShoupai(u8),
    /// A meld is malformed; carries what is wrong with the first such meld.
    InvalidMianzi(InvalidMianziError),
}

/// How many tiles of `kind` a meld holds.
pub open spec fn mianzi_count(mianzi: Mianzi, kind: int) -> int {
    match mianzi {
        Mianzi::Shunzi(tile, position) => {
            let low = tile - position_offset(position);
            if low <= kind <= low + 2 {
                1
            } else {
                0
            }
        },
        Mianzi::Kezi(tile) => if kind == tile {
            3
        } else {
            0
        },
        Mianzi::Gangzi(tile) => if kind == tile {
            4
        } else {
            0
        },
    }
}

/// How many tiles of `kind` the melds hold together.
pub open spec fn fulupai_count(fulu_mianzi: Seq<Option<Mianzi>>, kind: int) -> int
    decreases fulu_mianzi.len(),
{
    if fulu_mianzi.len() == 0 {
        0
    } else {
        fulupai_count(fulu_mianzi.drop_last(), kind) + match fulu_mianzi.last() {
            Some(m) => mianzi_count(m, kind),
            None => 0,
        }
    }
}

/// Every meld that is present is well formed.
pub open spec fn all_mianzi_valid(fulu_mianzi: Seq<Option<Mianzi>>) -> bool {
    forall|i: int|
        0 <= i < fulu_mianzi.len() ==> (#[trigger] fulu_mianzi[i] matches Some(m)
            ==> m.is_valid())
}

/// A meld holds at most 4 tiles of a kind, so some melds hold at most 4 each.
pub proof fn lemma_fulupai_count_bound(fulu_mianzi: Seq<Option<Mianzi>>, kind: int)
    ensures
        0 <= fulupai_count(fulu_mianzi, kind) <= 4 * fulu_mianzi.len(),
    decreases fulu_mianzi.len(),
{
    if fulu_mianzi.len() > 0 {
        lemma_fulupai_count_bound(fulu_mianzi.drop_last(), kind);
    }
}

/// Counts, for each tile kind, the tiles that the claimed melds hold: one of
/// each of its three kinds for a run, 3 for a triplet and 4 for a quad.
pub fn count_fulupai(fulu_mianzi: &[Option<Mianzi>; MAX_NUM_FULU_MIANZI]) -> (fulupai: Bingpai)
    requires
        all_mianzi_valid(fulu_mianzi@),
    ensures
        forall|kind: int|
            0 <= kind < NUM_TILE_INDEX ==> #[trigger] fulupai@[kind] == fulupai_count(
                fulu_mianzi@,
                kind,
            ),
{
    let mut fulupai: Bingpai = [0;NUM_TILE_INDEX];
    let mut i: usize = 0;
    while i < MAX_NUM_FULU_MIANZI
        invariant
            0 <= i <= MAX_NUM_FULU_MIANZI,
            all_mianzi_valid(fulu_mianzi@),
            forall|kind: int|
                0 <= kind < NUM_TILE_INDEX ==> #[trigger] fulupai@[kind] == fulupai_count(
                    fulu_mianzi@.take(i as int),
                    kind,
                ),
        decreases MAX_NUM_FULU_MIANZI - i,
    {
        let ghost before = fulupai@;
        proof {
            assert(fulu_mianzi@.take(i as int + 1).drop_last() =~= fulu_mianzi@.take(i as int));
            assert forall|kind: int| 0 <= kind < NUM_TILE_INDEX implies before[kind] <= 12 by {
                lemma_fulupai_count_bound(fulu_mianzi@.take(i as int), kind);
            }
            assert(fulu_mianzi@[i as int] matches Some(m) ==> m.is_valid());
        }
        match fulu_mianzi[i] {
            Some(Mianzi::Shunzi(tile, position)) => {
                let low: u8 = match position {
                    ClaimedTilePosition::Low => tile,
                    ClaimedTilePosition::Middle => tile - 1,
                    ClaimedTilePosition::High => tile - 2,
                };
                let l: usize = low as usize;
                fulupai[l] = fulupai[l] + 1;
                fulupai[l + 1] = fulupai[l + 1] + 1;
                fulupai[l + 2] = fulupai[l + 2] + 1;
            },
            Some(Mianzi::Kezi(tile)) => {
                let t: usize = tile as usize;
                fulupai[t] = fulupai[t] + 3;
            },
            Some(Mianzi::Gangzi(tile)) => {
                let t: usize = tile as usize;
                fulupai[t] = fulupai[t] + 4;
            },
            None => (),
        }
        i = i + 1;
    }
    proof {
        assert(fulu_mianzi@.take(MAX_NUM_FULU_MIANZI as int) =~= fulu_mianzi@);
    }
    fulupai
}

/// Index of the first meld that is malformed, or the number of melds if none is.
pub open spec fn first_invalid(fulu_mianzi: Seq<Option<Mianzi>>) -> int
    decreases fulu_mianzi.len(),
{
    if fulu_mianzi.len() == 0 {
        0
    } else {
        let k = first_invalid(fulu_mianzi.drop_last());
        if k < fulu_mianzi.len() - 1 {
            k
        } else {
            match fulu_mianzi.last() {
                Some(m) => if m.is_valid() {
                    fulu_mianzi.len() as int
                } else {
                    fulu_mianzi.len() - 1
                },
                None => fulu_mianzi.len() as int,
            }
        }
    }
}

/// `first_invalid` is the least index of a malformed meld.
pub proof fn lemma_first_invalid(fulu_mianzi: Seq<Option<Mianzi>>)
    ensures
        0 <= first_invalid(fulu_mianzi) <= fulu_mianzi.len(),
        forall|i: int|
            0 <= i < first_invalid(fulu_mianzi) ==> (#[trigger] fulu_mianzi[i] matches Some(m)
                ==> m.is_valid()),
        first_invalid(fulu_mianzi) < fulu_mianzi.len() ==> (fulu_mianzi[first_invalid(
            fulu_mianzi,
        )] matches Some(m) && !m.is_valid()),
        first_invalid(fulu_mianzi) == fulu_mianzi.len() <==> all_mianzi_valid(fulu_mianzi),
    decreases fulu_mianzi.len(),
{
    if fulu_mianzi.len() > 0 {
        let prefix = fulu_mianzi.drop_last();
        lemma_first_invalid(prefix);
        assert forall|i: int| 0 <= i < prefix.len() implies prefix[i] == fulu_mianzi[i] by {}
        if all_mianzi_valid(fulu_mianzi) {
            assert forall|i: int| 0 <= i < prefix.len() implies (#[trigger] prefix[i] matches Some(
                m,
            ) ==> m.is_valid()) by {
                assert(fulu_mianzi[i] matches Some(m) ==> m.is_valid());
            }
        }
    }
}

/// Number of quads among the melds.
pub open spec fn num_gangzi(fulu_mianzi: Seq<Option<Mianzi>>) -> int
    decreases fulu_mianzi.len(),
{
    if fulu_mianzi.len() == 0 {
        0
    } else {
        num_gangzi(fulu_mianzi.drop_last()) + (if fulu_mianzi.last() matches Some(
            Mianzi::Gangzi(_),
        ) {
            1int
        } else {
            0int
        })
    }
}

/// Per kind, the concealed tiles and the tiles in melds together.
pub open spec fn shoupai_counts(bingpai: Seq<u8>, fulu_mianzi: Seq<Option<Mianzi>>) -> Seq<u8> {
    Seq::new(bingpai.len(), |kind: int| (bingpai[kind] + fulupai_count(fulu_mianzi, kind)) as u8)
}

/// No per-kind sum of concealed tiles and melds leaves the range of a byte.
pub open spec fn shoupai_fits(bingpai: Seq<u8>, fulu_mianzi: Seq<Option<Mianzi>>) -> bool {
    forall|kind: int|
        0 <= kind < bingpai.len() ==> #[trigger] bingpai[kind] + fulupai_count(fulu_mianzi, kind)
            <= u8::MAX
}

/// What validating a hand with its claimed melds yields.
///
/// In this order: a malformed meld, a kind held more than 4 times, more than
/// 14 tiles besides the fourth tile of each quad, a number of tiles that
/// (without those fourth tiles) is a multiple of 3.
pub open spec fn validate_shoupai_spec(bingpai: Seq<u8>, fulu_mianzi: Seq<Option<Mianzi>>) -> Result<
    (),
    InvalidShoupaiError,
> {
    let bad = first_invalid(fulu_mianzi);
    let shoupai = shoupai_counts(bingpai, fulu_mianzi);
    let k = first_excess(shoupai, MAX_NUM_SAME_TILE as int);
    let n = total_tiles(shoupai);
    let gangzi = num_gangzi(fulu_mianzi);
    if bad < fulu_mianzi.len() {
        match validate_mianzi_spec(fulu_mianzi[bad].unwrap()) {
            Err(e) => Err(InvalidShoupaiError::InvalidMianzi(e)),
            Ok(_) => Ok(()),
        }
    } else if k < shoupai.len() {
        Err(InvalidShoupaiError::ExceedsMaxNumSameTile(shoupai[k]))
    } else if n > MAX_NUM_SHOUPAI + gangzi {
        Err(InvalidShoupaiError::ExceedsMaxNumShoupai(n as u8))
    } else if (n - gangzi) % 3 == 0 {
        Err(InvalidShoupaiError::InvalidNumShoupai(n as u8))
    } else {
        Ok(())
    }
}

proof fn lemma_num_gangzi_bound(fulu_mianzi: Seq<Option<Mianzi>>)
    ensures
        0 <= num_gangzi(fulu_mianzi) <= fulu_mianzi.len(),
    decreases fulu_mianzi.len(),
{
    if fulu_mianzi.len() > 0 {
        lemma_num_gangzi_bound(fulu_mianzi.drop_last());
    }
}

/// Each quad brings 4 tiles of its kind.
proof fn lemma_gangzi_tiles(bingpai: Seq<u8>, fulu_mianzi: Seq<Option<Mianzi>>)
    requires
        bingpai.len() == NUM_TILE_INDEX,
        all_mianzi_valid(fulu_mianzi),
        shoupai_fits(bingpai, fulu_mianzi),
    ensures
        total_tiles(shoupai_counts(bingpai, fulu_mianzi)) >= 4 * num_gangzi(fulu_mianzi),
{
    lemma_fulu_tiles_gangzi(fulu_mianzi);
    lemma_prefix_total(bingpai, fulu_mianzi, bingpai.len() as int);
    let s = shoupai_counts(bingpai, fulu_mianzi);
    assert(s.take(bingpai.len() as int) =~= s);
}

/// Sum, over the kinds below `upto`, of the tiles that the melds hold.
spec fn fulu_tiles_below(fulu_mianzi: Seq<Option<Mianzi>>, upto: int) -> int
    decreases upto,
{
    if upto <= 0 {
        0
    } else {
        fulu_tiles_below(fulu_mianzi, upto - 1) + fulupai_count(fulu_mianzi, upto - 1)
    }
}

proof fn lemma_fulu_tiles_below_split(fulu_mianzi: Seq<Option<Mianzi>>, upto: int)
    requires
        fulu_mianzi.len() > 0,
        0 <= upto,
    ensures
        fulu_tiles_below(fulu_mianzi, upto) == fulu_tiles_below(fulu_mianzi.drop_last(), upto)
            + fulu_tiles_below(seq![fulu_mianzi.last()], upto),
    decreases upto,
{
    if upto > 0 {
        lemma_fulu_tiles_below_split(fulu_mianzi, upto - 1);
        let one = seq![fulu_mianzi.last()];
        assert(one.drop_last() =~= Seq::<Option<Mianzi>>::empty());
        assert(fulupai_count(one.drop_last(), upto - 1) == 0);
    }
}

proof fn lemma_one_gangzi_below(tile: u8, upto: int)
    requires
        0 <= upto,
    ensures
        fulu_tiles_below(seq![Some(Mianzi::Gangzi(tile))], upto) == (if tile < upto {
            4int
        } else {
            0int
        }),
    decreases upto,
{
    let one = seq![Some(Mianzi::Gangzi(tile))];
    if upto > 0 {
        lemma_one_gangzi_below(tile, upto - 1);
        assert(one.drop_last() =~= Seq::<Option<Mianzi>>::empty());
        assert(fulupai_count(one.drop_last(), upto - 1) == 0);
    }
}

proof fn lemma_fulu_tiles_below_nonneg(fulu_mianzi: Seq<Option<Mianzi>>, upto: int)
    ensures
        0 <= fulu_tiles_below(fulu_mianzi, upto),
    decreases upto,
{
    if upto > 0 {
        lemma_fulu_tiles_below_nonneg(fulu_mianzi, upto - 1);
        lemma_fulupai_count_bound(fulu_mianzi, upto - 1);
    }
}

proof fn lemma_fulu_tiles_gangzi(fulu_mianzi: Seq<Option<Mianzi>>)
    requires
        all_mianzi_valid(fulu_mianzi),
    ensures
        fulu_tiles_below(fulu_mianzi, NUM_TILE_INDEX as int) >= 4 * num_gangzi(fulu_mianzi),
    decreases fulu_mianzi.len(),
{
    if fulu_mianzi.len() > 0 {
        let prefix = fulu_mianzi.drop_last();
        assert forall|i: int| 0 <= i < prefix.len() implies (#[trigger] prefix[i] matches Some(m)
            ==> m.is_valid()) by {
            assert(fulu_mianzi[i] matches Some(m) ==> m.is_valid());
        }
        lemma_fulu_tiles_gangzi(prefix);
        lemma_fulu_tiles_below_split(fulu_mianzi, NUM_TILE_INDEX as int);
        lemma_fulu_tiles_below_nonneg(seq![fulu_mianzi.last()], NUM_TILE_INDEX as int);
        assert(fulu_mianzi[fulu_mianzi.len() - 1] matches Some(m) ==> m.is_valid());
        match fulu_mianzi.last() {
            Some(Mianzi::Gangzi(tile)) => {
                lemma_one_gangzi_below(tile, NUM_TILE_INDEX as int);
            },
            _ => {},
        }
    } else {
        lemma_fulu_tiles_below_nonneg(fulu_mianzi, NUM_TILE_INDEX as int);
    }
}

proof fn lemma_prefix_total(bingpai: Seq<u8>, fulu_mianzi: Seq<Option<Mianzi>>, upto: int)
    requires
        shoupai_fits(bingpai, fulu_mianzi),
        0 <= upto <= bingpai.len(),
    ensures
        total_tiles(shoupai_counts(bingpai, fulu_mianzi).take(upto)) == total_tiles(
            bingpai.take(upto),
        ) + fulu_tiles_below(fulu_mianzi, upto),
        0 <= total_tiles(bingpai.take(upto)),
    decreases upto,
{
    if upto > 0 {
        lemma_prefix_total(bingpai, fulu_mianzi, upto - 1);
        let s = shoupai_counts(bingpai, fulu_mianzi);
        assert(s.take(upto).drop_last() =~= s.take(upto - 1));
        assert(bingpai.take(upto).drop_last() =~= bingpai.take(upto - 1));
        lemma_fulupai_count_bound(fulu_mianzi, upto - 1);
        assert(bingpai[upto - 1] + fulupai_count(fulu_mianzi, upto - 1) <= u8::MAX);
    }
}

/// Validates a hand of concealed tiles and claimed melds.
///
/// The melds are checked first; then no kind may occur more than 4 times in
/// concealed tiles and melds together, and the number of tiles, the fourth
/// tile of a quad aside, must be at most 14 and no multiple of 3.
pub fn validate_shoupai(bingpai: &Bingpai, fulu_mianzi: &[Option<Mianzi>; MAX_NUM_FULU_MIANZI]) -> (r:
    Result<(), InvalidShoupaiError>)
    requires
        all_mianzi_valid(fulu_mianzi@) ==> shoupai_fits(bingpai@, fulu_mianzi@),
    ensures
        r == validate_shoupai_spec(bingpai@, fulu_mianzi@),
{
    let mut num_gang: u8 = 0;
    let mut i: usize = 0;
    while i < MAX_NUM_FULU_MIANZI
        invariant
            0 <= i <= MAX_NUM_FULU_MIANZI,
            all_mianzi_valid(fulu_mianzi@.take(i as int)),
            num_gang == num_gangzi(fulu_mianzi@.take(i as int)),
            num_gang <= i,
        decreases MAX_NUM_FULU_MIANZI - i,
    {
        proof {
            assert(fulu_mianzi@.take(i as int + 1).drop_last() =~= fulu_mianzi@.take(i as int));
        }
        match fulu_mianzi[i] {
            Some(m) => {
                match m.validate() {
                    Err(e) => {
                        proof {
                            lemma_first_invalid(fulu_mianzi@);
                            let bad = first_invalid(fulu_mianzi@);
                            assert forall|j: int| 0 <= j < i implies (
                            #[trigger] fulu_mianzi@[j] matches Some(x) ==> x.is_valid()) by {
                                assert(fulu_mianzi@.take(i as int)[j] == fulu_mianzi@[j]);
                            }
                            assert(bad == i);
                        }
                        return Err(InvalidShoupaiError::InvalidMianzi(e));
                    },
                    Ok(_) => {},
                }
                match m {
                    Mianzi::Gangzi(_) => {
                        num_gang = num_gang + 1;
                    },
                    _ => {},
                }
            },
            None => {},
        }
        proof {
            let next = fulu_mianzi@.take(i as int + 1);
            assert forall|j: int| 0 <= j < next.len() implies (#[trigger] next[j] matches Some(x)
                ==> x.is_valid()) by {
                if j < i {
                    assert(fulu_mianzi@.take(i as int)[j] == next[j]);
                }
            }
        }
        i = i + 1;
    }
    proof {
        assert(fulu_mianzi@.take(MAX_NUM_FULU_MIANZI as int) =~= fulu_mianzi@);
        lemma_first_invalid(fulu_mianzi@);
    }

    let fulupai = count_fulupai(fulu_mianzi);
    let ghost shoupai = shoupai_counts(bingpai@, fulu_mianzi@);
    let mut acc: u8 = 0;
    let mut k: usize = 0;
    while k < NUM_TILE_INDEX
        invariant
            0 <= k <= NUM_TILE_INDEX,
            shoupai == shoupai_counts(bingpai@, fulu_mianzi@),
            shoupai_fits(bingpai@, fulu_mianzi@),
            first_invalid(fulu_mianzi@) == fulu_mianzi@.len(),
            forall|kind: int|
                0 <= kind < NUM_TILE_INDEX ==> #[trigger] fulupai@[kind] == fulupai_count(
                    fulu_mianzi@,
                    kind,
                ),
            within_copies(shoupai.take(k as int), MAX_NUM_SAME_TILE as int),
            acc == total_tiles(shoupai.take(k as int)),
        decreases NUM_TILE_INDEX - k,
    {
        proof {
            assert(bingpai@[k as int] + fulupai_count(fulu_mianzi@, k as int) <= u8::MAX);
            assert(fulupai@[k as int] == fulupai_count(fulu_mianzi@, k as int));
        }
        let num_tile: u8 = bingpai[k] + fulupai[k];
        proof {
            let prefix = shoupai.take(k as int);
            let next = shoupai.take(k as int + 1);
            assert(next.drop_last() =~= prefix);
            assert(next.last() == num_tile);
            lemma_total_bound(prefix, MAX_NUM_SAME_TILE as int);
        }
        if num_tile > MAX_NUM_SAME_TILE {
            proof {
                lemma_first_excess(shoupai, MAX_NUM_SAME_TILE as int);
                assert forall|j: int| 0 <= j < k implies shoupai[j] <= MAX_NUM_SAME_TILE by {
                    assert(shoupai.take(k as int)[j] == shoupai[j]);
                }
                assert(first_excess(shoupai, MAX_NUM_SAME_TILE as int) == k);
            }
            return Err(InvalidShoupaiError::ExceedsMaxNumSameTile(num_tile));
        }
        acc = acc + num_tile;
        k = k + 1;
    }
    proof {
        assert(shoupai.take(NUM_TILE_INDEX as int) =~= shoupai);
        lemma_first_excess(shoupai, MAX_NUM_SAME_TILE as int);
        lemma_total_bound(shoupai, MAX_NUM_SAME_TILE as int);
        lemma_gangzi_tiles(bingpai@, fulu_mianzi@);
    }
    if acc > MAX_NUM_SHOUPAI + num_gang {
        return Err(InvalidShoupaiError::ExceedsMaxNumShoupai(acc));
    }
    if (acc - num_gang) % 3 == 0 {
        return Err(InvalidShoupaiError::InvalidNumShoupai(acc));
    }
    Ok(())
}

} // verus!
