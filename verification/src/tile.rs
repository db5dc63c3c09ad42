use vstd::prelude::*;
use vstd::std_specs::convert::TryFromSpecImpl;

verus! {

/// Greatest tile id: the red five of sou.
pub const MAX_TILE_ID: u8 = 36;

/// Copies of each tile kind in a wall.
pub const NUM_SAME_TILE: u8 = 4;

/// Ranks of a numbered suit.
pub const NUM_SHUPAI_RANK: u8 = 9;

/// Number of tile ids, the red fives included.
pub const NUM_TILE_INDEX: usize = 37;

/// Number of tile ids without the red fives.
pub const NUM_TILE_INDEX_WITHOUT_HONGBAOPAI: usize = 34;

/// A tile.
///
/// | id    | tile                                   |
/// | ----- | -------------------------------------- |
/// | 0-8   | 1m to 9m                               |
/// | 9-17  | 1p to 9p                               |
/// | 18-26 | 1s to 9s                               |
/// | 27-33 | east, south, west, north, white, green, red |
/// | 34-36 | red 5m, red 5p, red 5s                 |
#[derive(Debug, Clone, Copy, PartialEq, Eq, Structural, PartialOrd, Ord, Hash)]
pub struct Tile {
    id: u8,
}

/// Why an id is not a tile.
#[derive(Debug, Clone, Copy, PartialEq, Eq, Structural)]
pub enum TileError {
    /// The id is above 36.
    OutOfRange(u8),
}

/// Whether `id` is the id of an honor.
pub open spec fn is_zipai_id(id: u8) -> bool {
    27 <= id <= 33
}

/// Whether `id` is the id of a terminal or an honor.
pub open spec fn is_yaojiupai_id(id: u8) -> bool {
    27 <= id <= 33 || (id < 27 && (id % 9 == 0 || id % 9 == 8))
}

/// Whether `id` is the id of a red five.
pub open spec fn is_hongbaopai_id(id: u8) -> bool {
    34 <= id <= 36
}

/// The id of the plain five for the id of a red five, else the id itself.
pub open spec fn normalized_id(id: u8) -> u8 {
    if id == 34 {
        4
    } else if id == 35 {
        13
    } else if id == 36 {
        22
    } else {
        id
    }
}

/// The id of the red five for the id of a plain five, else the id itself.
pub open spec fn decorated_id(id: u8) -> u8 {
    if id == 4 {
        34
    } else if id == 13 {
        35
    } else if id == 22 {
        36
    } else {
        id
    }
}

/// The id of the tile that follows in the order in which a dora indicator
/// points to the dora: the next rank of the suit, 1 after 9; the next wind,
/// east after north; the next dragon, white after red. A red five is a five.
pub open spec fn next_id(id: u8) -> u8 {
    let n = normalized_id(id);
    if n < 27 {
        if n % 9 == 8 {
            (n - 8) as u8
        } else {
            (n + 1) as u8
        }
    } else if n <= 30 {
        if n == 30 {
            27
        } else {
            (n + 1) as u8
        }
    } else if n >= 33 {
        31
    } else {
        (n + 1) as u8
    }
}

/// The id of the tile that `next_id` leads on from.
pub open spec fn prev_id(id: u8) -> u8 {
    let n = normalized_id(id);
    if n < 27 {
        if n % 9 == 0 {
            (n + 8) as u8
        } else {
            (n - 1) as u8
        }
    } else if n <= 30 {
        if n == 27 {
            30
        } else {
            (n - 1) as u8
        }
    } else if n == 31 {
        33
    } else {
        (n - 1) as u8
    }
}

impl View for Tile {
    type V = u8;

    /// The id of the tile.
    closed spec fn view(&self) -> u8 {
        self.id
    }
}

impl Tile {
    #[verifier::type_invariant]
    spec fn in_range(self) -> bool {
        self.id <= MAX_TILE_ID
    }

    /// The tile with the given id, whatever the id.
    pub closed spec fn of(id: u8) -> Tile {
        Tile { id }
    }

    /// A tile is its id: tiles with one id are one tile.
    pub proof fn lemma_same_id(a: Tile, b: Tile)
        ensures
            a@ == b@ <==> a == b,
            Tile::of(a@) == a,
    {
    }

    /// The tile made from an id has that id.
    pub proof fn lemma_of(id: u8)
        ensures
            Tile::of(id)@ == id,
    {
    }

    /// Makes the tile with the given id, which the caller knows to be one.
    #[must_use]
    pub fn new_unchecked(id: u8) -> (t: Tile)
        requires
            id <= MAX_TILE_ID,
        ensures
            t@ == id,
            t == Tile::of(id),
    {
        Tile { id }
    }

    /// The id of the tile.
    #[must_use]
    pub fn as_u8(&self) -> (id: u8)
        ensures
            id == self@,
            id <= MAX_TILE_ID,
    {
        proof {
            use_type_invariant(self);
        }
        self.id
    }

    /// The id of the tile, as an index.
    #[must_use]
    pub fn to_usize(self) -> (id: usize)
        ensures
            id == self@,
            id <= MAX_TILE_ID,
    {
        proof {
            use_type_invariant(&self);
        }
        self.id as usize
    }

    /// Whether the tile is an honor.
    #[must_use]
    pub fn is_zipai(&self) -> (r: bool)
        ensures
            r == is_zipai_id(self@),
    {
        27 <= self.id && self.id <= 33
    }

    /// Whether the tile is a terminal or an honor.
    #[must_use]
    pub fn is_yaojiupai(&self) -> (r: bool)
        ensures
            r == is_yaojiupai_id(self@),
    {
        match self.id {
            0 | 8 | 9 | 17 | 18 | 26 | 27 | 28 | 29 | 30 | 31 | 32 | 33 => true,
            _ => false,
        }
    }

    /// Whether the tile is a red five.
    #[must_use]
    pub fn is_hongbaopai(&self) -> (r: bool)
        ensures
            r == is_hongbaopai_id(self@),
    {
        proof {
            use_type_invariant(self);
        }
        self.id >= 34
    }

    /// The plain five for a red five, else the tile itself.
    #[must_use]
    pub fn normalize_hongbaopai(&self) -> (t: Tile)
        ensures
            t@ == normalized_id(self@),
            t@ <= 33,
    {
        proof {
            use_type_invariant(self);
        }
        match self.id {
            34 => Tile { id: 4 },
            35 => Tile { id: 13 },
            36 => Tile { id: 22 },
            _ => *self,
        }
    }

    /// The tile that follows: the dora for a dora indicator.
    #[must_use]
    pub fn next(&self) -> (t: Tile)
        ensures
            t@ == next_id(self@),
            t@ <= 33,
    {
        let n: u8 = self.normalize_hongbaopai().id;
        let id: u8 = if n < 27 {
            if n % 9 == 8 {
                n - 8
            } else {
                n + 1
            }
        } else if n <= 30 {
            if n == 30 {
                27
            } else {
                n + 1
            }
        } else if n >= 33 {
            31
        } else {
            n + 1
        };
        Tile { id }
    }

    /// The tile that comes before: the dora indicator for a dora.
    #[must_use]
    pub fn prev(&self) -> (t: Tile)
        ensures
            t@ == prev_id(self@),
            t@ <= 33,
    {
        let n: u8 = self.normalize_hongbaopai().id;
        let id: u8 = if n < 27 {
            if n % 9 == 0 {
                n + 8
            } else {
                n - 1
            }
        } else if n <= 30 {
            if n == 27 {
                30
            } else {
                n - 1
            }
        } else if n == 31 {
            33
        } else {
            n - 1
        };
        Tile { id }
    }

    /// The red five for a plain five, else the tile itself.
    #[must_use]
    pub fn decorate_hongbaopai(&self) -> (t: Tile)
        ensures
            t@ == decorated_id(self@),
    {
        proof {
            use_type_invariant(self);
        }
        match self.id {
            4 => Tile { id: 34 },
            13 => Tile { id: 35 },
            22 => Tile { id: 36 },
            _ => *self,
        }
    }
}

impl TryFrom<u8> for Tile {
    type Error = TileError;

    /// The tile with the given id, if it is at most 36.
    fn try_from(id: u8) -> (r: Result<Self, Self::Error>) {
        if id <= MAX_TILE_ID {
            Ok(Self { id })
        } else {
            Err(TileError::OutOfRange(id))
        }
    }
}

impl TryFromSpecImpl<u8> for Tile {
    open spec fn obeys_try_from_spec() -> bool {
        true
    }

    open spec fn try_from_spec(id: u8) -> Result<Self, Self::Error> {
        if id <= MAX_TILE_ID {
            Ok(Tile::of(id))
        } else {
            Err(TileError::OutOfRange(id))
        }
    }
}

} // verus!
