use crate::bipai::common::{MAX_NUM_BAOPAI, MAX_TILE_COPIES, NUM_HAND_TILES, NUM_WANGPAI};
use crate::tile::{normalized_id, Tile, TileError, MAX_TILE_ID};
use crate::bipai::shuffle::shuffle;
use rand::rngs::StdRng;
use vstd::prelude::*;

verus! {

/// Tiles of a wall for 4 players.
pub const NUM_BIPAI_TILES: usize = 136;

/// Tiles that can be drawn after a quad.
pub const NUM_LINGSHANGPAI: usize = 4;

/// Where the fives of man stand in a wall in order of kind.
pub const RED_5M_INDEX: usize = 16;

/// Where the fives of pin stand in a wall in order of kind.
pub const RED_5P_INDEX: usize = 52;

/// Where the fives of sou stand in a wall in order of kind.
pub const RED_5S_INDEX: usize = 88;

/// Tiles that can be drawn in turn: the wall without the hands and the dead wall.
pub const NUM_ZIMOPAI: usize = 70;

/// Where the first tile to be drawn stands, behind the four hands.
pub const FIRST_ZIMO_INDEX: usize = 52;

/// How many fives of each suit are red.
#[derive(Debug, Clone, Copy, PartialEq, Eq, Structural)]
pub struct HongbaopaiConfig {
    m: u8,
    p: u8,
    s: u8,
}

/// Numbers of red fives of which one is above 4.
#[derive(Debug, Clone, Copy, PartialEq, Eq, Structural)]
pub struct HongbaopaiConfigError {
    pub m: u8,
    pub p: u8,
    pub s: u8,
}

impl View for HongbaopaiConfig {
    type V = (u8, u8, u8);

    /// The numbers of red fives of man, pin and sou.
    closed spec fn view(&self) -> (u8, u8, u8) {
        (self.m, self.p, self.s)
    }
}

impl HongbaopaiConfig {
    #[verifier::type_invariant]
    spec fn in_range(self) -> bool {
        self.m <= MAX_TILE_COPIES && self.p <= MAX_TILE_COPIES && self.s <= MAX_TILE_COPIES
    }

    /// The configuration with the given numbers of red fives.
    pub closed spec fn of(m: u8, p: u8, s: u8) -> HongbaopaiConfig {
        HongbaopaiConfig { m, p, s }
    }

    /// A configuration is its three numbers.
    pub proof fn lemma_same_numbers(a: HongbaopaiConfig, b: HongbaopaiConfig)
        ensures
            a@ == b@ <==> a == b,
            HongbaopaiConfig::of(a@.0, a@.1, a@.2) == a,
    {
    }

    /// Makes a configuration of at most 4 red fives of each suit.
    pub fn new(m: u8, p: u8, s: u8) -> (r: Result<Self, HongbaopaiConfigError>)
        ensures
            match r {
                Ok(config) => m <= MAX_TILE_COPIES && p <= MAX_TILE_COPIES && s <= MAX_TILE_COPIES
                    && config@ == (m, p, s),
                Err(e) => !(m <= MAX_TILE_COPIES && p <= MAX_TILE_COPIES && s <= MAX_TILE_COPIES)
                    && e == (HongbaopaiConfigError { m, p, s }),
            },
    {
        if m <= MAX_TILE_COPIES && p <= MAX_TILE_COPIES && s <= MAX_TILE_COPIES {
            Ok(Self { m, p, s })
        } else {
            Err(HongbaopaiConfigError { m, p, s })
        }
    }

    /// Red fives of man.
    #[must_use]
    pub fn m(&self) -> (m: u8)
        ensures
            m == self@.0,
            m <= MAX_TILE_COPIES,
    {
        proof {
            use_type_invariant(self);
        }
        self.m
    }

    /// Red fives of pin.
    #[must_use]
    pub fn p(&self) -> (p: u8)
        ensures
            p == self@.1,
            p <= MAX_TILE_COPIES,
    {
        proof {
            use_type_invariant(self);
        }
        self.p
    }

    /// Red fives of sou.
    #[must_use]
    pub fn s(&self) -> (s: u8)
        ensures
            s == self@.2,
            s <= MAX_TILE_COPIES,
    {
        proof {
            use_type_invariant(self);
        }
        self.s
    }
}

/// A wall for 4 players, with the places from which tiles are drawn next.
///
/// The first 52 tiles are the four hands, dealt in blocks of 4 and a last
/// single tile each. The next 70 are drawn in turn. The last 14 are the dead
/// wall: from its end, the 4 tiles drawn after quads, then 5 pairs of a dora
/// indicator and the ura dora indicator below it.
#[derive(Debug, PartialEq, Eq)]
pub struct Bipai4p {
    tiles: [Tile; 136],
    left_tile_count: u8,
    baopai_count: u8,
    zimo_index: usize,
    lingshangzimo_count: usize,
}

/// Why tiles are no wall.
#[derive(Debug, PartialEq, Eq)]
pub enum Bipai4pError {
    /// Not 136 tiles; carries their number.
    InvalidLength(usize),
    /// An id that is no tile.
    Tile(TileError),
    /// A kind of which there are not 4 tiles, red fives counted as fives;
    /// carries the first such kind and the number of its tiles.
    InvalidTileCount(Tile, u8),
    /// The wall holds other numbers of red fives than the configuration.
    HongbaopaiConfigMismatch { expected: HongbaopaiConfig, found: HongbaopaiConfig },
}

/// Index of the first id that is no tile, or the number of ids.
pub open spec fn first_invalid_id(ids: Seq<u8>) -> int
    decreases ids.len(),
{
    if ids.len() == 0 {
        0
    } else {
        let k = first_invalid_id(ids.drop_last());
        if k < ids.len() - 1 {
            k
        } else if ids.last() > MAX_TILE_ID {
            ids.len() - 1
        } else {
            ids.len() as int
        }
    }
}

/// How many of the ids are tiles of `kind`, red fives counted as fives.
pub open spec fn kind_count(ids: Seq<u8>, kind: int) -> int
    decreases ids.len(),
{
    if ids.len() == 0 {
        0
    } else {
        kind_count(ids.drop_last(), kind) + if normalized_id(ids.last()) == kind {
            1int
        } else {
            0int
        }
    }
}

/// How many of the ids are `id`.
pub open spec fn id_count(ids: Seq<u8>, id: int) -> int
    decreases ids.len(),
{
    if ids.len() == 0 {
        0
    } else {
        id_count(ids.drop_last(), id) + if ids.last() == id {
            1int
        } else {
            0int
        }
    }
}

/// The first kind below `upto` of which the ids do not hold 4 tiles, or `upto`.
pub open spec fn first_miscounted(ids: Seq<u8>, upto: int) -> int
    decreases upto,
{
    if upto <= 0 {
        0
    } else {
        let k = first_miscounted(ids, upto - 1);
        if k < upto - 1 {
            k
        } else if kind_count(ids, upto - 1) != MAX_TILE_COPIES {
            upto - 1
        } else {
            upto
        }
    }
}

/// Why the ids are no wall for the configuration `config`, if they are not.
/// Checked in this order: the number of tiles, the ids, the number of tiles
/// of each kind, the numbers of red fives.
pub open spec fn from_slice_error(ids: Seq<u8>, config: HongbaopaiConfig) -> Option<Bipai4pError> {
    let bad = first_invalid_id(ids);
    let kind = first_miscounted(ids, 34);
    let found = HongbaopaiConfig::of(
        id_count(ids, 34) as u8,
        id_count(ids, 35) as u8,
        id_count(ids, 36) as u8,
    );
    if ids.len() != NUM_BIPAI_TILES {
        Some(Bipai4pError::InvalidLength(ids.len() as usize))
    } else if bad < ids.len() {
        Some(Bipai4pError::Tile(TileError::OutOfRange(ids[bad])))
    } else if kind < 34 {
        Some(Bipai4pError::InvalidTileCount(Tile::of(kind as u8), kind_count(ids, kind) as u8))
    } else if found != config {
        Some(Bipai4pError::HongbaopaiConfigMismatch { expected: config, found })
    } else {
        None
    }
}

/// The ids of tiles.
pub open spec fn ids_of(tiles: Seq<Tile>) -> Seq<u8> {
    Seq::new(tiles.len(), |i: int| tiles[i]@)
}

/// The wall in order of kind, 4 tiles of each, the first fives of each suit red
/// as the numbers say.
pub open spec fn initial_tiles(m: u8, p: u8, s: u8) -> Seq<Tile> {
    Seq::new(
        NUM_BIPAI_TILES as nat,
        |i: int|
            if RED_5M_INDEX <= i < RED_5M_INDEX + m {
                Tile::of(34)
            } else if RED_5P_INDEX <= i < RED_5P_INDEX + p {
                Tile::of(35)
            } else if RED_5S_INDEX <= i < RED_5S_INDEX + s {
                Tile::of(36)
            } else {
                Tile::of((i / 4) as u8)
            },
    )
}

proof fn lemma_first_invalid_id(ids: Seq<u8>)
    ensures
        0 <= first_invalid_id(ids) <= ids.len(),
        forall|i: int| 0 <= i < first_invalid_id(ids) ==> ids[i] <= MAX_TILE_ID,
        first_invalid_id(ids) < ids.len() ==> ids[first_invalid_id(ids)] > MAX_TILE_ID,
    decreases ids.len(),
{
    if ids.len() > 0 {
        let prefix = ids.drop_last();
        lemma_first_invalid_id(prefix);
        assert forall|i: int| 0 <= i < prefix.len() implies prefix[i] == ids[i] by {}
    }
}

proof fn lemma_first_miscounted(ids: Seq<u8>, upto: int)
    requires
        0 <= upto,
    ensures
        0 <= first_miscounted(ids, upto) <= upto,
        forall|k: int|
            0 <= k < first_miscounted(ids, upto) ==> #[trigger] kind_count(ids, k)
                == MAX_TILE_COPIES,
        first_miscounted(ids, upto) < upto ==> kind_count(ids, first_miscounted(ids, upto))
            != MAX_TILE_COPIES,
    decreases upto,
{
    if upto > 0 {
        lemma_first_miscounted(ids, upto - 1);
    }
}

proof fn lemma_counts_bound(ids: Seq<u8>, k: int)
    ensures
        0 <= kind_count(ids, k) <= ids.len(),
        0 <= id_count(ids, k) <= ids.len(),
        34 <= k <= 36 ==> id_count(ids, k) <= kind_count(ids, normalized_id(k as u8) as int),
    decreases ids.len(),
{
    if ids.len() > 0 {
        lemma_counts_bound(ids.drop_last(), k);
    }
}

impl Bipai4p {
    #[verifier::type_invariant]
    spec fn consistent(self) -> bool {
        &&& FIRST_ZIMO_INDEX <= self.zimo_index
        &&& self.zimo_index + self.left_tile_count + self.lingshangzimo_count <= FIRST_ZIMO_INDEX
            + NUM_ZIMOPAI
        &&& self.lingshangzimo_count <= NUM_LINGSHANGPAI
        &&& 1 <= self.baopai_count <= MAX_NUM_BAOPAI
    }

    /// The tiles of the wall, in order.
    pub closed spec fn tiles_spec(&self) -> Seq<Tile> {
        self.tiles@
    }

    /// How many tiles can still be drawn.
    pub closed spec fn left_spec(&self) -> int {
        self.left_tile_count as int
    }

    /// How many dora indicators are revealed.
    pub closed spec fn baopai_spec(&self) -> int {
        self.baopai_count as int
    }

    /// How many tiles have been drawn in turn.
    pub closed spec fn zimo_spec(&self) -> int {
        self.zimo_index - FIRST_ZIMO_INDEX
    }

    /// How many tiles have been drawn after a quad.
    pub closed spec fn lingshangzimo_spec(&self) -> int {
        self.lingshangzimo_count as int
    }

    /// Whether nothing has been drawn or revealed yet.
    pub open spec fn is_fresh(&self) -> bool {
        &&& self.left_spec() == NUM_ZIMOPAI
        &&& self.baopai_spec() == 1
        &&& self.zimo_spec() == 0
        &&& self.lingshangzimo_spec() == 0
    }

    /// Builds a wall in random order, with red fives as `config` says.
    pub fn new(rng: &mut StdRng, config: &HongbaopaiConfig) -> (r: Self)
        ensures
            r.is_fresh(),
            r.tiles_spec().to_multiset() == initial_tiles(
                config@.0,
                config@.1,
                config@.2,
            ).to_multiset(),
    {
        let mut tiles: [Tile; 136] = [Tile::new_unchecked(0);136];
        let mut i: usize = 0;
        while i < NUM_BIPAI_TILES
            invariant
                0 <= i <= NUM_BIPAI_TILES,
                forall|j: int| 0 <= j < i ==> #[trigger] tiles@[j] == Tile::of((j / 4) as u8),
            decreases NUM_BIPAI_TILES - i,
        {
            tiles[i] = Tile::new_unchecked((i / 4) as u8);
            i = i + 1;
        }
        proof {
            assert(tiles@ =~= initial_tiles(0, 0, 0));
        }
        Self::apply_hongbaopai_config(&mut tiles, config);

        let mut shuffled: Vec<Tile> = Vec::new();
        let mut k: usize = 0;
        while k < NUM_BIPAI_TILES
            invariant
                0 <= k <= NUM_BIPAI_TILES,
                shuffled@ == tiles@.take(k as int),
            decreases NUM_BIPAI_TILES - k,
        {
            shuffled.push(tiles[k]);
            proof {
                assert(shuffled@ =~= tiles@.take(k as int + 1));
            }
            k = k + 1;
        }
        proof {
            assert(tiles@.take(NUM_BIPAI_TILES as int) =~= tiles@);
        }
        let ghost ordered = tiles@;
        shuffle(&mut shuffled, rng);
        proof {
            shuffled@.to_multiset_ensures();
            ordered.to_multiset_ensures();
        }
        let mut n: usize = 0;
        while n < NUM_BIPAI_TILES
            invariant
                0 <= n <= NUM_BIPAI_TILES,
                shuffled@.len() == NUM_BIPAI_TILES,
                forall|j: int| 0 <= j < n ==> #[trigger] tiles@[j] == shuffled@[j],
            decreases NUM_BIPAI_TILES - n,
        {
            tiles[n] = shuffled[n];
            n = n + 1;
        }
        proof {
            assert(tiles@ =~= shuffled@);
        }

        Self {
            tiles,
            left_tile_count: NUM_ZIMOPAI as u8,
            baopai_count: 1,
            zimo_index: FIRST_ZIMO_INDEX,
            lingshangzimo_count: 0,
        }
    }

    /// Makes the first fives of each suit red, as many as `config` says, in
    /// a wall that stands in order of kind.
    pub fn apply_hongbaopai_config(tiles: &mut [Tile; 136], config: &HongbaopaiConfig)
        requires
            old(tiles)@ == initial_tiles(0, 0, 0),
        ensures
            final(tiles)@ == initial_tiles(config@.0, config@.1, config@.2),
    {
        Self::replace_with_hongbaopai(tiles, RED_5M_INDEX, Tile::new_unchecked(34), config.m());
        Self::replace_with_hongbaopai(tiles, RED_5P_INDEX, Tile::new_unchecked(35), config.p());
        Self::replace_with_hongbaopai(tiles, RED_5S_INDEX, Tile::new_unchecked(36), config.s());
        proof {
            assert(tiles@ =~= initial_tiles(config@.0, config@.1, config@.2));
        }
    }

    /// Puts `red` in the `count` places from `base_index` on.
    pub fn replace_with_hongbaopai(
        tiles: &mut [Tile; 136],
        base_index: usize,
        red: Tile,
        count: u8,
    )
        requires
            base_index + count <= NUM_BIPAI_TILES,
        ensures
            forall|j: int|
                0 <= j < NUM_BIPAI_TILES ==> #[trigger] final(tiles)@[j] == if base_index <= j
                    < base_index + count {
                    red
                } else {
                    old(tiles)@[j]
                },
    {
        let mut i: u8 = 0;
        while i < count
            invariant
                0 <= i <= count,
                base_index + count <= NUM_BIPAI_TILES,
                forall|j: int|
                    0 <= j < NUM_BIPAI_TILES ==> #[trigger] tiles@[j] == if base_index <= j
                        < base_index + i {
                        red
                    } else {
                        old(tiles)@[j]
                    },
            decreases count - i,
        {
            let idx: usize = base_index + i as usize;
            tiles[idx] = red;
            i = i + 1;
        }
    }

    /// Reads a wall from the ids of its tiles, which must be 4 tiles of each
    /// kind with as many red fives as `config` says.
    pub fn from_slice(bipai: &[u8], config: &HongbaopaiConfig) -> (r: Result<Self, Bipai4pError>)
        ensures
            match from_slice_error(bipai@, *config) {
                Some(e) => r == Err::<Self, Bipai4pError>(e),
                None => r matches Ok(wall) && wall.is_fresh() && ids_of(wall.tiles_spec())
                    == bipai@,
            },
    {
        if bipai.len() != NUM_BIPAI_TILES {
            return Err(Bipai4pError::InvalidLength(bipai.len()));
        }
        let mut tiles: [Tile; 136] = [Tile::new_unchecked(0);136];
        let mut counts: [u8; 34] = [0u8;34];
        let mut num_0m: u8 = 0;
        let mut num_0p: u8 = 0;
        let mut num_0s: u8 = 0;
        let mut i: usize = 0;
        while i < NUM_BIPAI_TILES
            invariant
                0 <= i <= NUM_BIPAI_TILES,
                bipai@.len() == NUM_BIPAI_TILES,
                forall|j: int| 0 <= j < i ==> (#[trigger] tiles@[j])@ == bipai@[j],
                forall|j: int| 0 <= j < i ==> #[trigger] bipai@[j] <= MAX_TILE_ID,
                forall|k: int|
                    0 <= k < 34 ==> #[trigger] counts@[k] == kind_count(bipai@.take(i as int), k),
                num_0m == id_count(bipai@.take(i as int), 34),
                num_0p == id_count(bipai@.take(i as int), 35),
                num_0s == id_count(bipai@.take(i as int), 36),
            decreases NUM_BIPAI_TILES - i,
        {
            proof {
                assert(bipai@.take(i as int + 1).drop_last() =~= bipai@.take(i as int));
                lemma_counts_bound(bipai@.take(i as int), 34);
                lemma_counts_bound(bipai@.take(i as int), 35);
                lemma_counts_bound(bipai@.take(i as int), 36);
            }
            let tile: Tile = match Tile::try_from(bipai[i]) {
                Ok(tile) => tile,
                Err(e) => {
                    proof {
                        lemma_first_invalid_id(bipai@);
                        assert(first_invalid_id(bipai@) == i);
                    }
                    return Err(Bipai4pError::Tile(e));
                },
            };
            proof {
                Tile::lemma_of(bipai@[i as int]);
            }
            tiles[i] = tile;
            let kind: usize = tile.normalize_hongbaopai().to_usize();
            proof {
                lemma_counts_bound(bipai@.take(i as int), kind as int);
            }
            counts[kind] = counts[kind] + 1;
            let id: u8 = tile.as_u8();
            if id == 34 {
                num_0m = num_0m + 1;
            } else if id == 35 {
                num_0p = num_0p + 1;
            } else if id == 36 {
                num_0s = num_0s + 1;
            }
            i = i + 1;
        }
        proof {
            assert(bipai@.take(NUM_BIPAI_TILES as int) =~= bipai@);
            lemma_first_invalid_id(bipai@);
            assert(first_invalid_id(bipai@) == bipai@.len());
        }

        let mut k: usize = 0;
        while k < 34
            invariant
                0 <= k <= 34,
                bipai@.len() == NUM_BIPAI_TILES,
                first_invalid_id(bipai@) == bipai@.len(),
                forall|j: int| 0 <= j < 34 ==> #[trigger] counts@[j] == kind_count(bipai@, j),
                first_miscounted(bipai@, k as int) == k,
            decreases 34 - k,
        {
            let count: u8 = counts[k];
            if count != MAX_TILE_COPIES {
                proof {
                    assert(counts@[k as int] == kind_count(bipai@, k as int));
                    assert(first_miscounted(bipai@, k as int + 1) == k);
                    lemma_miscounted_stays(bipai@, k as int + 1, 34);
                    lemma_counts_bound(bipai@, k as int);
                }
                return Err(Bipai4pError::InvalidTileCount(Tile::new_unchecked(k as u8), count));
            }
            k = k + 1;
        }
        proof {
            lemma_first_miscounted(bipai@, 34);
            lemma_counts_bound(bipai@, 34);
            lemma_counts_bound(bipai@, 35);
            lemma_counts_bound(bipai@, 36);
            assert(kind_count(bipai@, 4) == MAX_TILE_COPIES);
            assert(kind_count(bipai@, 13) == MAX_TILE_COPIES);
            assert(kind_count(bipai@, 22) == MAX_TILE_COPIES);
        }
        let found = HongbaopaiConfig { m: num_0m, p: num_0p, s: num_0s };
        if found != *config {
            return Err(
                Bipai4pError::HongbaopaiConfigMismatch { expected: config.clone(), found },
            );
        }
        proof {
            assert(ids_of(tiles@) =~= bipai@);
        }
        Ok(
            Bipai4p {
                tiles,
                left_tile_count: NUM_ZIMOPAI as u8,
                baopai_count: 1,
                zimo_index: FIRST_ZIMO_INDEX,
                lingshangzimo_count: 0,
            },
        )
    }

    /// The tiles of the wall, in order.
    #[must_use]
    pub fn tiles(&self) -> (r: &[Tile; 136])
        ensures
            r@ == self.tiles_spec(),
    {
        &self.tiles
    }

    /// How many tiles can still be drawn.
    #[must_use]
    pub fn left_tile_count(&self) -> (r: u8)
        ensures
            r == self.left_spec(),
    {
        self.left_tile_count
    }

    /// How many dora indicators are revealed.
    #[must_use]
    pub fn baopai_count(&self) -> (r: u8)
        ensures
            r == self.baopai_spec(),
            1 <= r <= MAX_NUM_BAOPAI,
    {
        proof {
            use_type_invariant(self);
        }
        self.baopai_count
    }

    /// The dora indicators revealed so far: the upper tiles of the stacks of
    /// the dead wall, from the fifth tile from the end backwards.
    #[must_use]
    pub fn baopai_indicators(&self) -> (r: Vec<Tile>)
        ensures
            r@ == Seq::new(
                self.baopai_spec() as nat,
                |i: int| self.tiles_spec()[NUM_BIPAI_TILES - NUM_LINGSHANGPAI - 2 * i - 1],
            ),
    {
        proof {
            use_type_invariant(self);
        }
        let mut r: Vec<Tile> = Vec::new();
        let mut i: usize = 0;
        while i < self.baopai_count as usize
            invariant
                0 <= i <= self.baopai_count <= MAX_NUM_BAOPAI,
                r@ == Seq::new(
                    i as nat,
                    |j: int| self.tiles@[NUM_BIPAI_TILES - NUM_LINGSHANGPAI - 2 * j - 1],
                ),
            decreases self.baopai_count - i,
        {
            let pos: usize = NUM_BIPAI_TILES - NUM_LINGSHANGPAI - 2 * i - 1;
            r.push(self.tiles[pos]);
            proof {
                assert(r@ =~= Seq::new(
                    (i + 1) as nat,
                    |j: int| self.tiles@[NUM_BIPAI_TILES - NUM_LINGSHANGPAI - 2 * j - 1],
                ));
            }
            i = i + 1;
        }
        r
    }

    /// The ura dora indicators that belong to the dora indicators revealed so
    /// far: the tiles below them.
    #[must_use]
    pub fn libaopai_indicators(&self) -> (r: Vec<Tile>)
        ensures
            r@ == Seq::new(
                self.baopai_spec() as nat,
                |i: int| self.tiles_spec()[NUM_BIPAI_TILES - NUM_LINGSHANGPAI - 2 * i - 2],
            ),
    {
        proof {
            use_type_invariant(self);
        }
        let mut r: Vec<Tile> = Vec::new();
        let mut i: usize = 0;
        while i < self.baopai_count as usize
            invariant
                0 <= i <= self.baopai_count <= MAX_NUM_BAOPAI,
                r@ == Seq::new(
                    i as nat,
                    |j: int| self.tiles@[NUM_BIPAI_TILES - NUM_LINGSHANGPAI - 2 * j - 2],
                ),
            decreases self.baopai_count - i,
        {
            let pos: usize = NUM_BIPAI_TILES - NUM_LINGSHANGPAI - 2 * i - 1 - 1;
            r.push(self.tiles[pos]);
            proof {
                assert(r@ =~= Seq::new(
                    (i + 1) as nat,
                    |j: int| self.tiles@[NUM_BIPAI_TILES - NUM_LINGSHANGPAI - 2 * j - 2],
                ));
            }
            i = i + 1;
        }
        r
    }

    /// The hand dealt to the player with the given index: his block of 4
    /// tiles out of each of the first three rounds of 16, and his one tile
    /// out of the last round of 4.
    #[must_use]
    pub fn qipai(&self, player_index: usize) -> (r: [Tile; 13])
        requires
            player_index < 4,
            self.is_fresh(),
        ensures
            forall|k: int|
                0 <= k < 12 ==> #[trigger] r@[k] == self.tiles_spec()[(k / 4) * 16 + player_index
                    * 4 + k % 4],
            r@[12] == self.tiles_spec()[48 + player_index],
    {
        let p: usize = player_index * 4;
        [
            self.tiles[p],
            self.tiles[p + 1],
            self.tiles[p + 2],
            self.tiles[p + 3],
            self.tiles[16 + p],
            self.tiles[16 + p + 1],
            self.tiles[16 + p + 2],
            self.tiles[16 + p + 3],
            self.tiles[32 + p],
            self.tiles[32 + p + 1],
            self.tiles[32 + p + 2],
            self.tiles[32 + p + 3],
            self.tiles[48 + player_index],
        ]
    }

    /// Draws the next tile in turn.
    pub fn zimo(&mut self) -> (t: Tile)
        requires
            old(self).left_spec() > 0,
        ensures
            t == old(self).tiles_spec()[FIRST_ZIMO_INDEX + old(self).zimo_spec()],
            final(self).tiles_spec() == old(self).tiles_spec(),
            final(self).left_spec() == old(self).left_spec() - 1,
            final(self).zimo_spec() == old(self).zimo_spec() + 1,
            final(self).lingshangzimo_spec() == old(self).lingshangzimo_spec(),
            final(self).baopai_spec() == old(self).baopai_spec(),
    {
        proof {
            use_type_invariant(&*self);
        }
        let t = self.tiles[self.zimo_index];
        self.left_tile_count = self.left_tile_count - 1;
        self.zimo_index = self.zimo_index + 1;
        t
    }

    /// Draws the next tile from the end of the dead wall, after a quad.
    pub fn lingshangzimo(&mut self) -> (t: Tile)
        requires
            old(self).left_spec() > 0,
            old(self).lingshangzimo_spec() < NUM_LINGSHANGPAI,
        ensures
            t == old(self).tiles_spec()[NUM_BIPAI_TILES - old(self).lingshangzimo_spec() - 1],
            final(self).tiles_spec() == old(self).tiles_spec(),
            final(self).left_spec() == old(self).left_spec() - 1,
            final(self).zimo_spec() == old(self).zimo_spec(),
            final(self).lingshangzimo_spec() == old(self).lingshangzimo_spec() + 1,
            final(self).baopai_spec() == old(self).baopai_spec(),
    {
        proof {
            use_type_invariant(&*self);
        }
        let t = self.tiles[NUM_BIPAI_TILES - self.lingshangzimo_count - 1];
        self.left_tile_count = self.left_tile_count - 1;
        self.lingshangzimo_count = self.lingshangzimo_count + 1;
        t
    }

    /// Reveals one more dora indicator.
    pub fn kaigang(&mut self)
        requires
            old(self).baopai_spec() < MAX_NUM_BAOPAI,
        ensures
            final(self).tiles_spec() == old(self).tiles_spec(),
            final(self).left_spec() == old(self).left_spec(),
            final(self).zimo_spec() == old(self).zimo_spec(),
            final(self).lingshangzimo_spec() == old(self).lingshangzimo_spec(),
            final(self).baopai_spec() == old(self).baopai_spec() + 1,
    {
        proof {
            use_type_invariant(&*self);
        }
        self.baopai_count = self.baopai_count + 1;
    }
}

proof fn lemma_miscounted_stays(ids: Seq<u8>, from: int, upto: int)
    requires
        0 < from <= upto,
        first_miscounted(ids, from) < from,
    ensures
        first_miscounted(ids, upto) == first_miscounted(ids, from),
    decreases upto - from,
{
    if from < upto {
        lemma_miscounted_stays(ids, from, upto - 1);
    }
}

} // verus!
