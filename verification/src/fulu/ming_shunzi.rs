use crate::fulu::mianzi::{Mianzi, MianziError};
use crate::fulu::ming_mianzi::MingMianzi;
use crate::fulu::tajia::Tajia;
use crate::tile::{is_zipai_id, normalized_id, Tile, NUM_SHUPAI_RANK};
use vstd::prelude::*;

verus! {

/// Where the claimed tile stands in a claimed run.
#[derive(Debug, PartialEq, Eq, Structural, Clone, Copy)]
pub enum ClaimedTilePosition {
    /// The claimed tile is the lowest of the run.
    Low,
    /// The claimed tile is the middle of the run.
    Middle,
    /// The claimed tile is the highest of the run.
    High,
}

/// A run made by claiming a discard of the player to the left for two tiles
/// in hand.
#[derive(Debug, Clone, Copy)]
pub struct MingShunzi {
    tiles: [Tile; 3],
    discarder: Tajia,
    claimed_tile_position: ClaimedTilePosition,
    shiti_jin: Option<Tile>,
}

/// The least of three ids.
pub open spec fn lowest(a: u8, b: u8, c: u8) -> u8 {
    if a <= b && a <= c {
        a
    } else if b <= c {
        b
    } else {
        c
    }
}

/// The greatest of three ids.
pub open spec fn highest(a: u8, b: u8, c: u8) -> u8 {
    if a >= b && a >= c {
        a
    } else if b >= c {
        b
    } else {
        c
    }
}

/// Why tiles with these ids, red fives taken as plain, form no run; `None`
/// if they do. Checked in this order: one suit, no honor, three consecutive
/// ranks.
pub open spec fn shunzi_error(claimed: u8, d0: u8, d1: u8) -> Option<MianziError> {
    let lo = lowest(claimed, d0, d1);
    let hi = highest(claimed, d0, d1);
    if !(claimed / NUM_SHUPAI_RANK == d0 / NUM_SHUPAI_RANK && d0 / NUM_SHUPAI_RANK == d1
        / NUM_SHUPAI_RANK) {
        Some(MianziError::NotSameSuit)
    } else if is_zipai_id(claimed) {
        Some(MianziError::ShunziWithZipai)
    } else if !(hi == lo + 2 && claimed != d0 && claimed != d1 && d0 != d1) {
        Some(MianziError::NotConsecutive)
    } else {
        None
    }
}

/// Where the claimed tile stands in its run.
pub open spec fn position_of(claimed: u8, d0: u8, d1: u8) -> ClaimedTilePosition {
    if claimed == lowest(claimed, d0, d1) {
        ClaimedTilePosition::Low
    } else if claimed == highest(claimed, d0, d1) {
        ClaimedTilePosition::High
    } else {
        ClaimedTilePosition::Middle
    }
}

/// The id of the tile at the other end of the run, which also would have
/// made a run with the two tiles from the hand: three ranks above a claimed
/// tile that is lowest, three below one that is highest, where that rank
/// exists.
pub open spec fn shiti_jin_of(claimed: u8, position: ClaimedTilePosition) -> Option<u8> {
    match position {
        ClaimedTilePosition::Low => if claimed % NUM_SHUPAI_RANK == 6 {
            None
        } else {
            Some((claimed + 3) as u8)
        },
        ClaimedTilePosition::High => if claimed % NUM_SHUPAI_RANK == 2 {
            None
        } else {
            Some((claimed - 3) as u8)
        },
        ClaimedTilePosition::Middle => None,
    }
}

impl MingShunzi {
    #[verifier::type_invariant]
    spec fn jin_fits(self) -> bool {
        self.shiti_jin matches Some(j) ==> j@ == normalized_id(self.tiles@[0]@) + 3 || j@ + 3
            == normalized_id(self.tiles@[0]@)
    }

    /// The run that `new` makes of tiles that form one.
    pub closed spec fn of(claimed_tile: Tile, dazi: [Tile; 2]) -> MingShunzi {
        let claimed = normalized_id(claimed_tile@);
        let position = position_of(claimed, normalized_id(dazi@[0]@), normalized_id(dazi@[1]@));
        MingShunzi {
            tiles: if dazi@[0]@ <= dazi@[1]@ {
                [claimed_tile, dazi@[0], dazi@[1]]
            } else {
                [claimed_tile, dazi@[1], dazi@[0]]
            },
            discarder: Tajia::Shangjia,
            claimed_tile_position: position,
            shiti_jin: match shiti_jin_of(claimed, position) {
                Some(id) => Some(Tile::of(id)),
                None => None,
            },
        }
    }

    /// Where the claimed tile stands in the run.
    pub closed spec fn position_spec(&self) -> ClaimedTilePosition {
        self.claimed_tile_position
    }

    /// The tile at the other end of the run, if there is one.
    pub closed spec fn shiti_jin_spec(&self) -> Option<Tile> {
        self.shiti_jin
    }

    /// Makes a claimed run of the claimed tile and two tiles from the hand.
    /// A red five stands for a five. The claimed tile comes first, then the
    /// two others in ascending order of their ids.
    pub fn new(claimed_tile: Tile, dazi: [Tile; 2]) -> (r: Result<Self, MianziError>)
        ensures
            match shunzi_error(
                normalized_id(claimed_tile@),
                normalized_id(dazi@[0]@),
                normalized_id(dazi@[1]@),
            ) {
                Some(e) => r == Err::<Self, MianziError>(e),
                None => {
                    &&& r matches Ok(shunzi)
                    &&& shunzi == MingShunzi::of(claimed_tile, dazi)
                    &&& shunzi.tiles_spec()@ == if dazi@[0]@ <= dazi@[1]@ {
                        seq![claimed_tile, dazi@[0], dazi@[1]]
                    } else {
                        seq![claimed_tile, dazi@[1], dazi@[0]]
                    }
                    &&& shunzi.discarder_spec() == Tajia::Shangjia
                    &&& shunzi.position_spec() == position_of(
                        normalized_id(claimed_tile@),
                        normalized_id(dazi@[0]@),
                        normalized_id(dazi@[1]@),
                    )
                    &&& match shiti_jin_of(normalized_id(claimed_tile@), shunzi.position_spec()) {
                        Some(id) => shunzi.shiti_jin_spec() == Some(Tile::of(id)),
                        None => shunzi.shiti_jin_spec() is None,
                    }
                },
            },
    {
        let claimed: u8 = claimed_tile.normalize_hongbaopai().as_u8();
        let d0: u8 = dazi[0].normalize_hongbaopai().as_u8();
        let d1: u8 = dazi[1].normalize_hongbaopai().as_u8();

        if !((claimed / NUM_SHUPAI_RANK == d0 / NUM_SHUPAI_RANK) && (d0 / NUM_SHUPAI_RANK == d1
            / NUM_SHUPAI_RANK)) {
            return Err(MianziError::NotSameSuit);
        }
        if claimed_tile.normalize_hongbaopai().is_zipai() {
            return Err(MianziError::ShunziWithZipai);
        }
        // The three ids in ascending order.
        let (a, b): (u8, u8) = if d0 <= d1 {
            (d0, d1)
        } else {
            (d1, d0)
        };
        let (lo, mid, hi): (u8, u8, u8) = if claimed <= a {
            (claimed, a, b)
        } else if claimed <= b {
            (a, claimed, b)
        } else {
            (a, b, claimed)
        };
        if !((lo + 1 == mid) && (mid + 1 == hi)) {
            return Err(MianziError::NotConsecutive);
        }
        let (claimed_tile_position, shiti_jin): (ClaimedTilePosition, Option<Tile>) = if claimed
            == lo {
            let shiti_jin = if claimed == 6 || claimed == 15 || claimed == 24 {
                // A claimed 7 with 8 and 9.
                None
            } else {
                Some(Tile::new_unchecked(claimed + 3))
            };
            (ClaimedTilePosition::Low, shiti_jin)
        } else if claimed == hi {
            let shiti_jin = if claimed == 2 || claimed == 11 || claimed == 20 {
                // A claimed 3 with 1 and 2.
                None
            } else {
                Some(Tile::new_unchecked(claimed - 3))
            };
            (ClaimedTilePosition::High, shiti_jin)
        } else {
            (ClaimedTilePosition::Middle, None)
        };

        let sorted_dazi: [Tile; 2] = if dazi[0].as_u8() <= dazi[1].as_u8() {
            dazi
        } else {
            [dazi[1], dazi[0]]
        };
        let tiles: [Tile; 3] = [claimed_tile, sorted_dazi[0], sorted_dazi[1]];
        proof {
            if dazi@[0]@ <= dazi@[1]@ {
                assert(tiles@ =~= seq![claimed_tile, dazi@[0], dazi@[1]]);
            } else {
                assert(tiles@ =~= seq![claimed_tile, dazi@[1], dazi@[0]]);
            }
            assert(tiles@ =~= MingShunzi::of(claimed_tile, dazi).tiles@);
            match shiti_jin {
                Some(j) => {
                    Tile::lemma_same_id(j, Tile::of(j@));
                },
                None => {},
            }
        }
        Ok(Self { tiles, discarder: Tajia::Shangjia, claimed_tile_position, shiti_jin })
    }

    /// Where the claimed tile stands in the run.
    #[must_use]
    pub fn claimed_tile_position(&self) -> (r: &ClaimedTilePosition)
        ensures
            *r == self.position_spec(),
    {
        &self.claimed_tile_position
    }

    /// The tile at the other end of the run, if there is one: to discard it
    /// right after the claim would be to swap one tile of a run for another.
    #[must_use]
    pub fn shiti_jin(&self) -> (r: &Option<Tile>)
        ensures
            *r == self.shiti_jin_spec(),
            *r matches Some(j) ==> j@ == normalized_id(self.tiles_spec()@[0]@) + 3 || j@ + 3
                == normalized_id(self.tiles_spec()@[0]@),
    {
        proof {
            use_type_invariant(self);
        }
        &self.shiti_jin
    }
}

impl Mianzi<3> for MingShunzi {
    closed spec fn tiles_spec(&self) -> [Tile; 3] {
        self.tiles
    }

    fn tiles(&self) -> (r: &[Tile; 3]) {
        &self.tiles
    }
}

impl MingMianzi<3> for MingShunzi {
    closed spec fn discarder_spec(&self) -> Tajia {
        self.discarder
    }

    fn claimed_tile(&self) -> (r: &Tile) {
        &self.tiles[0]
    }

    fn discarder(&self) -> (r: &Tajia) {
        &self.discarder
    }
}

} // verus!
