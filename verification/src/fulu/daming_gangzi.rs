use crate::fulu::mianzi::{all_of_kind, count_hongbaopai, hongbaopai_first, num_hongbaopai,
    of_kind, Mianzi, MianziError};
use crate::fulu::ming_mianzi::MingMianzi;
use crate::fulu::tajia::Tajia;
use crate::tile::{normalized_id, Tile};
use vstd::prelude::*;

verus! {

/// A quad made by claiming a discard for three tiles in hand.
#[derive(Debug, Clone, Copy)]
pub struct DamingGangzi {
    tiles: [Tile; 4],
    discarder: Tajia,
}

impl DamingGangzi {
    /// The quad that `new` makes of tiles of one kind.
    pub closed spec fn of(claimed_tile: Tile, dazi: [Tile; 3], discarder: Tajia) -> DamingGangzi {
        let kind = normalized_id(claimed_tile@);
        let red = num_hongbaopai(dazi@);
        DamingGangzi {
            tiles: [
                claimed_tile,
                hongbaopai_first(kind, red, 3)[0],
                hongbaopai_first(kind, red, 3)[1],
                hongbaopai_first(kind, red, 3)[2],
            ],
            discarder,
        }
    }

    /// Makes an open quad of the claimed tile and three tiles of its kind.
    /// The claimed tile comes first; of the three others, red fives come first.
    pub fn new(claimed_tile: Tile, dazi: [Tile; 3], discarder: Tajia) -> (r: Result<
        Self,
        MianziError,
    >)
        ensures
            match r {
                Ok(gangzi) => {
                    &&& gangzi == DamingGangzi::of(claimed_tile, dazi, discarder)
                    &&& all_of_kind(dazi@, normalized_id(claimed_tile@))
                    &&& gangzi.tiles_spec()@ == seq![claimed_tile] + hongbaopai_first(
                        normalized_id(claimed_tile@),
                        num_hongbaopai(dazi@),
                        3,
                    )
                    &&& gangzi.discarder_spec() == discarder
                },
                Err(e) => e == MianziError::NotSameKind && !all_of_kind(
                    dazi@,
                    normalized_id(claimed_tile@),
                ),
            },
    {
        let kind: u8 = claimed_tile.normalize_hongbaopai().as_u8();
        let red: usize = match count_hongbaopai(dazi.as_slice(), kind) {
            Some(red) => red,
            None => {
                return Err(MianziError::NotSameKind);
            },
        };
        let tiles: [Tile; 4] = [
            claimed_tile,
            of_kind(&claimed_tile, 0 < red),
            of_kind(&claimed_tile, 1 < red),
            of_kind(&claimed_tile, 2 < red),
        ];
        proof {
            assert(tiles@ =~= seq![claimed_tile] + hongbaopai_first(kind, red as int, 3));
            assert(tiles@ =~= DamingGangzi::of(claimed_tile, dazi, discarder).tiles@);
        }
        Ok(Self { tiles, discarder })
    }
}

impl Mianzi<4> for DamingGangzi {
    closed spec fn tiles_spec(&self) -> [Tile; 4] {
        self.tiles
    }

    fn tiles(&self) -> (r: &[Tile; 4]) {
        &self.tiles
    }
}

impl MingMianzi<4> for DamingGangzi {
    closed spec fn discarder_spec(&self) -> Tajia {
        self.discarder
    }

    fn claimed_tile(&self) -> (r: &Tile) {
        &self.tiles[0]
    }

    fn discarder(&self) -> (r: &Tajia) {
        &self.discarder
    }
}

} // verus!
