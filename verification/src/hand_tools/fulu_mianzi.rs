use crate::hand_tools::tile::{Tile, TileExt};
use vstd::prelude::*;

verus! {

/// Where the claimed tile stands in a claimed run.
#[derive(Debug, Clone, Copy, PartialEq, Eq)]
pub enum ClaimedTilePosition {
    /// The claimed tile is the lowest of the run, as a 3 in 3-4-5.
    Low,
    /// The claimed tile is the middle of the run, as a 4 in 3-4-5.
    Middle,
    /// The claimed tile is the highest of the run, as a 5 in 3-4-5.
    High,
}

/// A claimed meld.
#[derive(Debug, Clone, Copy, PartialEq, Eq)]
pub enum FuluMianzi {
    /// A run, given by the claimed tile and its place in the run.
    Shunzi(Tile, ClaimedTilePosition),
    /// A triplet.
    Kezi(Tile),
    /// A concealed quad.
    Angangzi(Tile),
    /// An open quad.
    Minggangzi(Tile),
}

/// Why a meld was rejected.
#[derive(Debug, Clone, Copy, PartialEq, Eq)]
pub enum FuluMianziError {
    /// The tile index is above 33.
    IndexOutOfRange(Tile),
    /// A run of honors.
    ShunziWithZipai(Tile),
    /// The run would leave its suit.
    InvalidShunziCombination(Tile, ClaimedTilePosition),
}

/// How far the claimed tile stands above the lowest tile of its run.
pub open spec fn position_offset(position: ClaimedTilePosition) -> int {
    match position {
        ClaimedTilePosition::Low => 0,
        ClaimedTilePosition::Middle => 1,
        ClaimedTilePosition::High => 2,
    }
}

/// A run with the numbered tile `tile` at `position` stays inside the suit:
/// its lowest tile has rank 1 to 7.
pub open spec fn shunzi_in_suit(tile: Tile, position: ClaimedTilePosition) -> bool {
    0 <= tile % 9 - position_offset(position) <= 6
}

/// What validating a meld yields.
pub open spec fn validate_spec(mianzi: FuluMianzi) -> Result<(), FuluMianziError> {
    match mianzi {
        FuluMianzi::Shunzi(tile, position) => {
            if tile > 33 {
                Err(FuluMianziError::IndexOutOfRange(tile))
            } else if tile > 26 {
                Err(FuluMianziError::ShunziWithZipai(tile))
            } else if !shunzi_in_suit(tile, position) {
                Err(FuluMianziError::InvalidShunziCombination(tile, position))
            } else {
                Ok(())
            }
        },
        FuluMianzi::Kezi(tile) | FuluMianzi::Angangzi(tile) | FuluMianzi::Minggangzi(tile) => {
            if tile > 33 {
                Err(FuluMianziError::IndexOutOfRange(tile))
            } else {
                Ok(())
            }
        },
    }
}

impl FuluMianzi {
    /// Whether the meld is well formed.
    pub open spec fn is_valid(self) -> bool {
        validate_spec(self) is Ok
    }

    /// Checks that the tile is a tile and, for a run, that it is a numbered
    /// tile whose run stays inside its suit.
    pub fn validate(&self) -> (r: Result<(), FuluMianziError>)
        ensures
            r == validate_spec(*self),
    {
        match self {
            FuluMianzi::Shunzi(tile, position) => {
                if !tile.is_shupai() {
                    if !tile.is_valid() {
                        return Err(FuluMianziError::IndexOutOfRange(*tile));
                    }
                    return Err(FuluMianziError::ShunziWithZipai(*tile));
                }
                if !FuluMianzi::is_valid_shunzi_combination(tile, position) {
                    return Err(FuluMianziError::InvalidShunziCombination(*tile, *position));
                }
                Ok(())
            },
            FuluMianzi::Kezi(tile) | FuluMianzi::Angangzi(tile) | FuluMianzi::Minggangzi(tile) => {
                if !tile.is_valid() {
                    return Err(FuluMianziError::IndexOutOfRange(*tile));
                }
                Ok(())
            },
        }
    }

    /// Whether a run with the numbered tile `tile` at `position` stays
    /// inside its suit.
    pub fn is_valid_shunzi_combination(tile: &Tile, position: &ClaimedTilePosition) -> (r: bool)
        requires
            *tile <= 26,
        ensures
            r == shunzi_in_suit(*tile, *position),
    {
        let t: u8 = *tile;
        match position {
            // An 8 or 9 cannot be the lowest tile.
            ClaimedTilePosition::Low => !(t == 7 || t == 16 || t == 25 || t == 8 || t == 17 || t
                == 26),
            // A 1 or 9 cannot be the middle tile.
            ClaimedTilePosition::Middle => !(t == 0 || t == 8 || t == 9 || t == 17 || t == 18 || t
                == 26),
            // A 1 or 2 cannot be the highest tile.
            ClaimedTilePosition::High => !(t == 0 || t == 9 || t == 18 || t == 1 || t == 10 || t
                == 19),
        }
    }
}

} // verus!
