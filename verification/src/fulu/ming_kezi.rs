use crate::fulu::mianzi::{all_of_kind, count_hongbaopai, Mianzi, MianziError};
use crate::fulu::ming_mianzi::MingMianzi;
use crate::fulu::tajia::Tajia;
use crate::tile::{is_hongbaopai_id, normalized_id, Tile};
use vstd::prelude::*;

verus! {

/// A triplet made by claiming a discard for two tiles in hand.
#[derive(Debug, Clone, Copy)]
pub struct MingKezi {
    tiles: [Tile; 3],
    discarder: Tajia,
}

impl MingKezi {
    /// The triplet that `new` makes of tiles of one kind.
    pub closed spec fn of(claimed_tile: Tile, dazi: [Tile; 2], discarder: Tajia) -> MingKezi {
        MingKezi {
            tiles: if is_hongbaopai_id(dazi@[1]@) {
                [claimed_tile, dazi@[1], dazi@[0]]
            } else {
                [claimed_tile, dazi@[0], dazi@[1]]
            },
            discarder,
        }
    }

    /// Makes a claimed triplet of the claimed tile and two tiles of its kind.
    /// The claimed tile comes first; of the two others a red five comes first.
    pub fn new(claimed_tile: Tile, dazi: [Tile; 2], discarder: Tajia) -> (r: Result<
        Self,
        MianziError,
    >)
        ensures
            match r {
                Ok(kezi) => {
                    &&& kezi == MingKezi::of(claimed_tile, dazi, discarder)
                    &&& all_of_kind(dazi@, normalized_id(claimed_tile@))
                    &&& kezi.tiles_spec()@ == if is_hongbaopai_id(dazi@[1]@) {
                        seq![claimed_tile, dazi@[1], dazi@[0]]
                    } else {
                        seq![claimed_tile, dazi@[0], dazi@[1]]
                    }
                    &&& kezi.discarder_spec() == discarder
                },
                Err(e) => e == MianziError::NotSameKind && !all_of_kind(
                    dazi@,
                    normalized_id(claimed_tile@),
                ),
            },
    {
        let kind: u8 = claimed_tile.normalize_hongbaopai().as_u8();
        if count_hongbaopai(dazi.as_slice(), kind).is_none() {
            return Err(MianziError::NotSameKind);
        }
        let sorted_dazi: [Tile; 2] = if dazi[1].is_hongbaopai() {
            [dazi[1], dazi[0]]
        } else {
            dazi
        };
        let tiles: [Tile; 3] = [claimed_tile, sorted_dazi[0], sorted_dazi[1]];
        proof {
            if is_hongbaopai_id(dazi@[1]@) {
                assert(tiles@ =~= seq![claimed_tile, dazi@[1], dazi@[0]]);
            } else {
                assert(tiles@ =~= seq![claimed_tile, dazi@[0], dazi@[1]]);
            }
        }
        Ok(Self { tiles, discarder })
    }
}

impl Mianzi<3> for MingKezi {
    closed spec fn tiles_spec(&self) -> [Tile; 3] {
        self.tiles
    }

    fn tiles(&self) -> (r: &[Tile; 3]) {
        &self.tiles
    }
}

impl MingMianzi<3> for MingKezi {
    closed spec fn discarder_spec(&self) -> Tajia {
        self.discarder
    }

    fn claimed_tile(&self) -> (r: &Tile) {
        &self.tiles[0]
    }

    fn discarder(&self) -> (r: &Tajia) {
        &self.discarder
    }
}

} // verus!
