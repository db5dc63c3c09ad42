use crate::fulu::mianzi::{all_of_kind, count_hongbaopai, Mianzi, MianziError};
use crate::fulu::ming_kezi::MingKezi;
use crate::fulu::ming_mianzi::MingMianzi;
use crate::fulu::tajia::Tajia;
use crate::tile::{normalized_id, Tile};
use vstd::prelude::*;

verus! {

/// A quad made by adding the fourth tile to a claimed triplet.
#[derive(Debug, Clone, Copy)]
pub struct JiaGangzi {
    tiles: [Tile; 4],
    discarder: Tajia,
}

impl JiaGangzi {
    /// Makes an added quad of a claimed triplet and a fourth tile of its
    /// kind. The tiles of the triplet come first, as they stand in it.
    pub fn new(added_tile: Tile, kezi: MingKezi) -> (r: Result<Self, MianziError>)
        ensures
            match r {
                Ok(gangzi) => {
                    &&& all_of_kind(kezi.tiles_spec()@, normalized_id(added_tile@))
                    &&& gangzi.tiles_spec()@ == kezi.tiles_spec()@ + seq![added_tile]
                    &&& gangzi.discarder_spec() == kezi.discarder_spec()
                },
                Err(e) => e == MianziError::NotSameKind && !all_of_kind(
                    kezi.tiles_spec()@,
                    normalized_id(added_tile@),
                ),
            },
    {
        let kind: u8 = added_tile.normalize_hongbaopai().as_u8();
        if count_hongbaopai(kezi.tiles().as_slice(), kind).is_none() {
            return Err(MianziError::NotSameKind);
        }
        let tiles: [Tile; 4] = [kezi.tiles()[0], kezi.tiles()[1], kezi.tiles()[2], added_tile];
        proof {
            assert(tiles@ =~= kezi.tiles_spec()@ + seq![added_tile]);
        }
        Ok(Self { tiles, discarder: *kezi.discarder() })
    }

    /// The tile that was added to the triplet: the last tile of the quad.
    #[must_use]
    pub fn added_tile(&self) -> (r: &Tile)
        ensures
            *r == self.tiles_spec()@[3],
    {
        &self.tiles[3]
    }

    /// The three tiles of the triplet that the quad was made from.
    #[must_use]
    pub fn kezi(&self) -> (r: &[Tile])
        ensures
            r@ == self.tiles_spec()@.subrange(0, 3),
    {
        vstd::slice::slice_subrange(self.tiles.as_slice(), 0, 3)
    }
}

impl Mianzi<4> for JiaGangzi {
    closed spec fn tiles_spec(&self) -> [Tile; 4] {
        self.tiles
    }

    fn tiles(&self) -> (r: &[Tile; 4]) {
        &self.tiles
    }
}

impl MingMianzi<4> for JiaGangzi {
    closed spec fn discarder_spec(&self) -> Tajia {
        self.discarder
    }

    fn claimed_tile(&self) -> (r: &Tile) {
        &self.tiles[0]
    }

    fn discarder(&self) -> (r: &Tajia) {
        &self.discarder
    }
}

} // verus!
