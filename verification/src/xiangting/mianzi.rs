use vstd::prelude::*;

verus! {

/// Index of a tile kind: 0..=8 man, 9..=17 pin, 18..=26 sou, 27..=33 honors.
pub type Tile = u8;

/// Where the claimed tile stands in a claimed run.
#[derive(Debug, Clone, Copy, PartialEq, Eq)]
pub enum ClaimedTilePosition {
    /// The claimed tile is the lowest of the run, as a 3 in 3-4-5.
    Low,
    /// The claimed tile is the middle of the run, as a 4 in 3-4-5.
    Middle,
    /// The claimed tile is the highest of the run, as a 5 in 3-4-5.
    High,
}

/// A claimed meld.
#[derive(Debug, Clone, Copy, PartialEq, Eq)]
pub enum Mianzi {
    /// A run, given by the claimed tile and its place in the run.
    Shunzi(Tile, ClaimedTilePosition),
    /// A triplet.
    Kezi(Tile),
    /// A quad.
    Gangzi(Tile),
}

/// Why a meld was rejected.
#[derive(Debug, Clone, Copy, PartialEq, Eq)]
pub enum InvalidMianziError {
    /// The tile index is above 33.
    IndexOutOfRange(Tile),
    /// A run of honors.
    ShunziWithZipai(Tile),
    /// The run would leave its suit.
    InvalidShunziCombination(Tile, ClaimedTilePosition),
}

/// How far the claimed tile stands above the lowest tile of its run.
pub open spec fn position_offset(position: ClaimedTilePosition) -> int {
    match position {
        ClaimedTilePosition::Low => 0,
        ClaimedTilePosition::Middle => 1,
        ClaimedTilePosition::High => 2,
    }
}

/// A run with the numbered tile `tile` at `position` stays inside the suit:
/// its lowest tile has rank 1 to 7.
pub open spec fn shunzi_in_suit(tile: Tile, position: ClaimedTilePosition) -> bool {
    0 <= tile % 9 - position_offset(position) <= 6
}

/// What validating a meld yields.
pub open spec fn validate_mianzi_spec(mianzi: Mianzi) -> Result<(), InvalidMianziError> {
    match mianzi {
        Mianzi::Shunzi(tile, position) => {
            if tile > 33 {
                Err(InvalidMianziError::IndexOutOfRange(tile))
            } else if tile > 26 {
                Err(InvalidMianziError::ShunziWithZipai(tile))
            } else if !shunzi_in_suit(tile, position) {
                Err(InvalidMianziError::InvalidShunziCombination(tile, position))
            } else {
                Ok(())
            }
        },
        Mianzi::Kezi(tile) | Mianzi::Gangzi(tile) => {
            if tile > 33 {
                Err(InvalidMianziError::IndexOutOfRange(tile))
            } else {
                Ok(())
            }
        },
    }
}

impl Mianzi {
    /// Whether the meld is well formed.
    pub open spec fn is_valid(self) -> bool {
        validate_mianzi_spec(self) is Ok
    }

    /// Checks that the tile is a tile and, for a run, that it is a numbered
    /// tile whose run stays inside its suit.
    pub fn validate(&self) -> (r: Result<(), InvalidMianziError>)
        ensures
            r == validate_mianzi_spec(*self),
    {
        match self {
            Mianzi::Shunzi(tile, position) => {
                if *tile > 26 {
                    if *tile > 33 {
                        return Err(InvalidMianziError::IndexOutOfRange(*tile));
                    }
                    return Err(InvalidMianziError::ShunziWithZipai(*tile));
                }
                if !Mianzi::is_valid_shunzi_combination(*tile, *position) {
                    return Err(InvalidMianziError::InvalidShunziCombination(*tile, *position));
                }
                Ok(())
            },
            Mianzi::Kezi(tile) | Mianzi::Gangzi(tile) => {
                if *tile > 33 {
                    return Err(InvalidMianziError::IndexOutOfRange(*tile));
                }
                Ok(())
            },
        }
    }

    fn is_valid_shunzi_combination(tile: Tile, position: ClaimedTilePosition) -> (r: bool)
        requires
            tile <= 26,
        ensures
            r == shunzi_in_suit(tile, position),
    {
        match position {
            // An 8 or 9 cannot be the lowest tile.
            ClaimedTilePosition::Low => !(tile == 7 || tile == 16 || tile == 25 || tile == 8
                || tile == 17 || tile == 26),
            // A 1 or 9 cannot be the middle tile.
            ClaimedTilePosition::Middle => !(tile == 0 || tile == 8 || tile == 9 || tile == 17
                || tile == 18 || tile == 26),
            // A 1 or 2 cannot be the highest tile.
            ClaimedTilePosition::High => !(tile == 0 || tile == 9 || tile == 18 || tile == 1
                || tile == 10 || tile == 19),
        }
    }
}

} // verus!
