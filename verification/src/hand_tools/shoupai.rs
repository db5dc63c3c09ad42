use crate::hand_tools::constants::NUM_TILE_INDEX;
use crate::hand_tools::fulu_mianzi::{position_offset, ClaimedTilePosition, FuluMianzi};
use crate::hand_tools::tile::TileCounts;
use vstd::prelude::*;

verus! {

/// How many tiles of `kind` a meld holds: one of each kind of a run, 3 of a
/// triplet, 4 of a quad.
pub open spec fn mianzi_count(mianzi: FuluMianzi, kind: int) -> int {
    match mianzi {
        FuluMianzi::Shunzi(tile, position) => {
            let low = tile - position_offset(position);
            if low <= kind <= low + 2 {
                1
            } else {
                0
            }
        },
        FuluMianzi::Kezi(tile) => if kind == tile {
            3
        } else {
            0
        },
        FuluMianzi::Angangzi(tile) | FuluMianzi::Minggangzi(tile) => if kind == tile {
            4
        } else {
            0
        },
    }
}

/// How many tiles of `kind` the melds hold together.
pub open spec fn list_count(list: Seq<FuluMianzi>, kind: int) -> int
    decreases list.len(),
{
    if list.len() == 0 {
        0
    } else {
        list_count(list.drop_last(), kind) + mianzi_count(list.last(), kind)
    }
}

/// Every meld is well formed, and no kind is held more often than a byte counts.
pub open spec fn list_ok(list: Seq<FuluMianzi>) -> bool {
    &&& forall|i: int| 0 <= i < list.len() ==> (#[trigger] list[i]).is_valid()
    &&& forall|kind: int| 0 <= kind < NUM_TILE_INDEX ==> #[trigger] list_count(list, kind) <= u8::MAX
}

proof fn lemma_list_count_prefix(list: Seq<FuluMianzi>, i: int, kind: int)
    requires
        0 <= i <= list.len(),
    ensures
        0 <= list_count(list.take(i), kind) <= list_count(list, kind),
    decreases list.len() - i,
{
    if i < list.len() {
        lemma_list_count_prefix(list, i + 1, kind);
        assert(list.take(i + 1).drop_last() =~= list.take(i));
    } else {
        assert(list.take(i) =~= list);
        lemma_list_count_nonneg(list, kind);
    }
    lemma_list_count_nonneg(list.take(i), kind);
}

proof fn lemma_list_count_nonneg(list: Seq<FuluMianzi>, kind: int)
    ensures
        0 <= list_count(list, kind),
    decreases list.len(),
{
    if list.len() > 0 {
        lemma_list_count_nonneg(list.drop_last(), kind);
    }
}

/// The tiles that a list of melds holds.
pub trait FuluMianziListExt {
    /// Whether the tiles of the melds can be counted.
    spec fn to_tile_counts_req(&self) -> bool;

    /// How many tiles of `kind` the melds hold.
    spec fn tile_count(&self, kind: int) -> int;

    /// Counts, for each tile kind, the tiles that the melds hold.
    fn to_tile_counts(&self) -> (counts: TileCounts)
        requires
            self.to_tile_counts_req(),
        ensures
            forall|kind: int|
                0 <= kind < NUM_TILE_INDEX ==> #[trigger] counts@[kind] == self.tile_count(kind),
    ;
}

impl FuluMianziListExt for [FuluMianzi] {
    open spec fn to_tile_counts_req(&self) -> bool {
        list_ok(self@)
    }

    open spec fn tile_count(&self, kind: int) -> int {
        list_count(self@, kind)
    }

    fn to_tile_counts(&self) -> (counts: TileCounts) {
        let mut fulupai: TileCounts = [0;NUM_TILE_INDEX];
        let mut i: usize = 0;
        while i < self.len()
            invariant
                0 <= i <= self@.len(),
                list_ok(self@),
                forall|kind: int|
                    0 <= kind < NUM_TILE_INDEX ==> #[trigger] fulupai@[kind] == list_count(
                        self@.take(i as int),
                        kind,
                    ),
            decreases self@.len() - i,
        {
            proof {
                assert(self@.take(i as int + 1).drop_last() =~= self@.take(i as int));
                assert(self@[i as int].is_valid());
            }
            match self[i] {
                FuluMianzi::Shunzi(t, position) => {
                    let low: u8 = match position {
                        ClaimedTilePosition::Low => t,
                        ClaimedTilePosition::Middle => t - 1,
                        ClaimedTilePosition::High => t - 2,
                    };
                    let l: usize = low as usize;
                    proof {
                        lemma_list_count_prefix(self@, i as int + 1, l as int);
                        lemma_list_count_prefix(self@, i as int + 1, l + 1);
                        lemma_list_count_prefix(self@, i as int + 1, l + 2);
                        assert(list_count(self@, l as int) <= u8::MAX);
                        assert(list_count(self@, l + 1) <= u8::MAX);
                        assert(list_count(self@, l + 2) <= u8::MAX);
                    }
                    fulupai[l] = fulupai[l] + 1;
                    fulupai[l + 1] = fulupai[l + 1] + 1;
                    fulupai[l + 2] = fulupai[l + 2] + 1;
                },
                FuluMianzi::Kezi(t) => {
                    let k: usize = t as usize;
                    proof {
                        lemma_list_count_prefix(self@, i as int + 1, k as int);
                        assert(list_count(self@, k as int) <= u8::MAX);
                    }
                    fulupai[k] = fulupai[k] + 3;
                },
                FuluMianzi::Angangzi(t) | FuluMianzi::Minggangzi(t) => {
                    let k: usize = t as usize;
                    proof {
                        lemma_list_count_prefix(self@, i as int + 1, k as int);
                        assert(list_count(self@, k as int) <= u8::MAX);
                    }
                    fulupai[k] = fulupai[k] + 4;
                },
            }
            i = i + 1;
        }
        proof {
            assert(self@.take(self@.len() as int) =~= self@);
        }
        fulupai
    }
}

} // verus!
