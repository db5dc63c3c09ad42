use crate::fulu::{AnGangzi, DamingGangzi, FuluMianzi, JiaGangzi, Mianzi, MingKezi, MingShunzi};
use crate::shoupai::lists::{fulu_items, fulu_list_as_slice, fulu_list_new, fulu_list_push,
    fulu_list_set, MAX_NUM_FULU};
use crate::tile::{Tile, NUM_SAME_TILE, NUM_TILE_INDEX};
use crate::xiangting::bingpai::{first_excess, lemma_first_excess, within_copies};
use arrayvec::ArrayVec;
use vstd::prelude::*;

verus! {

/// Most concealed tiles of a hand.
pub const MAX_NUM_BINGPAI: usize = 14;

/// Id of north, the tile that can be set aside with 3 players.
pub const BEI: u8 = 30;

/// What the hand holds besides its standing tiles: the state of the turn.
#[derive(Debug, Clone, Copy)]
pub enum Zimopai {
    /// A tile was drawn, and which.
    Drawn(Tile),
    /// A tile was drawn that is not known.
    Unknown,
    /// A run was claimed, and a tile must be discarded.
    AfterChi(MingShunzi),
    /// A triplet was claimed, and a tile must be discarded.
    AfterPeng(MingKezi),
    /// The hand waits for its turn.
    Waiting,
}

/// Why the hand refuses.
#[derive(Debug, Clone, Copy, PartialEq, Eq, Structural)]
pub enum ShoupaiError {
    /// More than 4 tiles with one id.
    TooManySameTiles(Tile),
    /// More than 4 fives of a suit, red and plain together; carries the id
    /// of the plain five.
    TooManyFives(u8),
    /// A tile was drawn while a drawn or claimed tile is still held.
    AlreadyDrawn,
    /// The tile is not in the hand, and no unknown tile stands for it.
    NotInHand,
    /// A discard without a tile drawn or claimed before.
    NothingDrawn,
    /// The tile to be discarded as drawn is not the tile that was drawn.
    MoqieMismatch,
    /// A claim while a drawn or claimed tile is still held.
    NotClaimable,
    /// A quad or a north declared without a draw before.
    NotAfterDraw,
    /// A quad added to a triplet that the hand has not claimed.
    NoMatchingKezi,
}

/// The hand as plain values.
pub struct ShoupaiView {
    /// For each id, how many known tiles with it are held.
    pub bingpai: Seq<u8>,
    /// How many unknown tiles are held.
    pub num_hidden_bingpai: u8,
    /// The declared melds, in the order of their declaration.
    pub fulu_list: Seq<FuluMianzi>,
    /// How many norths have been set aside.
    pub num_ba_baopai: u8,
    /// The state of the turn.
    pub zimopai: Zimopai,
    /// Whether riichi is declared.
    pub is_lizhi: bool,
}

/// The hand of a player: the known concealed tiles by id, the number of
/// unknown ones, the declared melds and the state of the turn.
pub struct Shoupai {
    bingpai: [u8; 37],
    num_hidden_bingpai: u8,
    fulu_list: ArrayVec<FuluMianzi, 4>,
    num_ba_baopai: u8,
    zimopai: Zimopai,
    is_lizhi: bool,
}

/// How many of the dealt tiles have the id `id`.
pub open spec fn tile_count(qipai: Seq<Option<Tile>>, id: int) -> int
    decreases qipai.len(),
{
    if qipai.len() == 0 {
        0
    } else {
        tile_count(qipai.drop_last(), id) + match qipai.last() {
            Some(t) => if t@ == id {
                1int
            } else {
                0int
            },
            None => 0int,
        }
    }
}

/// How many of the dealt tiles are unknown.
pub open spec fn hidden_count(qipai: Seq<Option<Tile>>) -> int
    decreases qipai.len(),
{
    if qipai.len() == 0 {
        0
    } else {
        hidden_count(qipai.drop_last()) + match qipai.last() {
            Some(_) => 0int,
            None => 1int,
        }
    }
}

/// The known tiles of the deal, counted by id.
pub open spec fn counts_of(qipai: Seq<Option<Tile>>) -> Seq<u8> {
    Seq::new(NUM_TILE_INDEX as nat, |id: int| tile_count(qipai, id) as u8)
}

/// Why the counts are no hand, if they are not: the first id held more than
/// 4 times, else the first suit with more than 4 fives.
pub open spec fn counts_error(counts: Seq<u8>) -> Option<ShoupaiError> {
    let k = first_excess(counts, NUM_SAME_TILE as int);
    if k < counts.len() {
        Some(ShoupaiError::TooManySameTiles(Tile::of(k as u8)))
    } else if counts[4] + counts[34] > NUM_SAME_TILE {
        Some(ShoupaiError::TooManyFives(4))
    } else if counts[13] + counts[35] > NUM_SAME_TILE {
        Some(ShoupaiError::TooManyFives(13))
    } else if counts[22] + counts[36] > NUM_SAME_TILE {
        Some(ShoupaiError::TooManyFives(22))
    } else {
        None
    }
}

/// The hand without one tile with the id `id`: a known one if there is one,
/// else an unknown one; `None` if there is neither.
pub open spec fn decreased(v: ShoupaiView, id: int) -> Option<ShoupaiView> {
    if v.bingpai[id] > 0 {
        Some(ShoupaiView { bingpai: v.bingpai.update(id, (v.bingpai[id] - 1) as u8), ..v })
    } else if v.num_hidden_bingpai > 0 {
        Some(ShoupaiView { num_hidden_bingpai: (v.num_hidden_bingpai - 1) as u8, ..v })
    } else {
        None
    }
}

/// The hand without the tiles, taken out one after the other, and whether
/// all could be taken: taking stops at the first tile that is not there.
pub open spec fn decreased_all(v: ShoupaiView, tiles: Seq<Tile>) -> (ShoupaiView, bool)
    decreases tiles.len(),
{
    if tiles.len() == 0 {
        (v, true)
    } else {
        match decreased(v, tiles[0]@ as int) {
            Some(less) => decreased_all(less, tiles.drop_first()),
            None => (v, false),
        }
    }
}

/// Whether the state of the turn is that of waiting.
pub open spec fn is_waiting(z: Zimopai) -> bool {
    z is Waiting
}

/// Whether a tile was drawn, known or not.
pub open spec fn has_drawn(z: Zimopai) -> bool {
    z is Drawn || z is Unknown
}

proof fn lemma_tile_count_bound(qipai: Seq<Option<Tile>>, id: int)
    ensures
        0 <= tile_count(qipai, id) <= qipai.len(),
        0 <= hidden_count(qipai) <= qipai.len(),
    decreases qipai.len(),
{
    if qipai.len() > 0 {
        lemma_tile_count_bound(qipai.drop_last(), id);
    }
}

impl View for Shoupai {
    type V = ShoupaiView;

    closed spec fn view(&self) -> ShoupaiView {
        ShoupaiView {
            bingpai: self.bingpai@,
            num_hidden_bingpai: self.num_hidden_bingpai,
            fulu_list: fulu_items(self.fulu_list),
            num_ba_baopai: self.num_ba_baopai,
            zimopai: self.zimopai,
            is_lizhi: self.is_lizhi,
        }
    }
}

/// Whether no id is held more than 4 times.
pub open spec fn counts_ok(v: ShoupaiView) -> bool {
    v.bingpai.len() == NUM_TILE_INDEX && within_copies(v.bingpai, NUM_SAME_TILE as int)
}

impl Shoupai {
    /// Makes the hand of the tiles dealt, of which some may be unknown.
    #[must_use]
    pub fn new(qipai: Vec<Option<Tile>>) -> (r: Result<Self, ShoupaiError>)
        requires
            qipai@.len() <= u8::MAX,
        ensures
            match counts_error(counts_of(qipai@)) {
                Some(e) => r == Err::<Self, ShoupaiError>(e),
                None => r matches Ok(hand) && counts_ok(hand@) && hand@ == (ShoupaiView {
                    bingpai: counts_of(qipai@),
                    num_hidden_bingpai: hidden_count(qipai@) as u8,
                    fulu_list: Seq::empty(),
                    num_ba_baopai: 0,
                    zimopai: Zimopai::Waiting,
                    is_lizhi: false,
                }),
            },
    {
        let mut bingpai: [u8; 37] = [0u8;37];
        let mut num_hidden_bingpai: u8 = 0;
        let mut i: usize = 0;
        while i < qipai.len()
            invariant
                0 <= i <= qipai@.len() <= u8::MAX,
                num_hidden_bingpai == hidden_count(qipai@.take(i as int)),
                forall|id: int|
                    0 <= id < NUM_TILE_INDEX ==> #[trigger] bingpai@[id] == tile_count(
                        qipai@.take(i as int),
                        id,
                    ),
            decreases qipai@.len() - i,
        {
            proof {
                assert(qipai@.take(i as int + 1).drop_last() =~= qipai@.take(i as int));
                lemma_tile_count_bound(qipai@.take(i as int), 0);
            }
            match qipai[i] {
                None => {
                    num_hidden_bingpai = num_hidden_bingpai + 1;
                },
                Some(open) => {
                    let id: usize = open.to_usize();
                    proof {
                        lemma_tile_count_bound(qipai@.take(i as int), id as int);
                    }
                    bingpai[id] = bingpai[id] + 1;
                },
            }
            i = i + 1;
        }
        proof {
            assert(qipai@.take(qipai@.len() as int) =~= qipai@);
            assert forall|id: int| 0 <= id < NUM_TILE_INDEX implies bingpai@[id] == counts_of(
                qipai@,
            )[id] by {
                lemma_tile_count_bound(qipai@, id);
            }
            assert(bingpai@ =~= counts_of(qipai@));
            lemma_first_excess(bingpai@, NUM_SAME_TILE as int);
            lemma_tile_count_bound(qipai@, 0);
        }

        let mut k: usize = 0;
        while k < NUM_TILE_INDEX
            invariant
                0 <= k <= NUM_TILE_INDEX,
                bingpai@ == counts_of(qipai@),
                forall|j: int| 0 <= j < k ==> #[trigger] bingpai@[j] <= NUM_SAME_TILE,
            decreases NUM_TILE_INDEX - k,
        {
            if bingpai[k] > NUM_SAME_TILE {
                proof {
                    lemma_first_excess(bingpai@, NUM_SAME_TILE as int);
                    assert(first_excess(bingpai@, NUM_SAME_TILE as int) == k);
                }
                return Err(ShoupaiError::TooManySameTiles(Tile::new_unchecked(k as u8)));
            }
            k = k + 1;
        }
        proof {
            lemma_first_excess(bingpai@, NUM_SAME_TILE as int);
            assert(first_excess(bingpai@, NUM_SAME_TILE as int) == bingpai@.len());
        }
        if (bingpai[4] + bingpai[34]) > NUM_SAME_TILE {
            return Err(ShoupaiError::TooManyFives(4));
        }
        if (bingpai[13] + bingpai[35]) > NUM_SAME_TILE {
            return Err(ShoupaiError::TooManyFives(13));
        }
        if (bingpai[22] + bingpai[36]) > NUM_SAME_TILE {
            return Err(ShoupaiError::TooManyFives(22));
        }

        Ok(
            Self {
                bingpai,
                num_hidden_bingpai,
                fulu_list: fulu_list_new(),
                num_ba_baopai: 0,
                zimopai: Zimopai::Waiting,
                is_lizhi: false,
            },
        )
    }

    /// How many known tiles with the id `index` are held.
    pub fn count_of(&self, index: usize) -> (count: u8)
        requires
            index < NUM_TILE_INDEX,
        ensures
            count == self@.bingpai[index as int],
    {
        self.bingpai[index]
    }

    /// The state of the turn.
    pub fn zimopai(&self) -> (z: &Zimopai)
        ensures
            *z == self@.zimopai,
    {
        &self.zimopai
    }

    /// The declared melds, in the order of their declaration.
    pub fn fulu_list(&self) -> (melds: &[FuluMianzi])
        ensures
            melds@ == self@.fulu_list,
            melds@.len() <= MAX_NUM_FULU,
    {
        fulu_list_as_slice(&self.fulu_list)
    }

    /// How many unknown tiles are held.
    pub fn num_hidden_bingpai(&self) -> (n: u8)
        ensures
            n == self@.num_hidden_bingpai,
    {
        self.num_hidden_bingpai
    }

    /// How many norths have been set aside.
    pub fn num_ba_baopai(&self) -> (n: u8)
        ensures
            n == self@.num_ba_baopai,
    {
        self.num_ba_baopai
    }

    /// Why the tile cannot be drawn, if it cannot: the hand holds a drawn or
    /// claimed tile; or it holds 4 tiles with the id already; or, for a
    /// five, it holds more than 4 fives of the suit.
    pub open spec fn zimo_error(v: ShoupaiView, zimopai: Option<Tile>) -> Option<ShoupaiError> {
        if !is_waiting(v.zimopai) {
            Some(ShoupaiError::AlreadyDrawn)
        } else {
            match zimopai {
                None => None,
                Some(tile) => {
                    let id = tile@;
                    if v.bingpai[id as int] >= NUM_SAME_TILE {
                        Some(ShoupaiError::TooManySameTiles(tile))
                    } else if (id == 4 || id == 34) && v.bingpai[4] + v.bingpai[34]
                        > NUM_SAME_TILE {
                        Some(ShoupaiError::TooManyFives(4))
                    } else if (id == 13 || id == 35) && v.bingpai[13] + v.bingpai[35]
                        > NUM_SAME_TILE {
                        Some(ShoupaiError::TooManyFives(13))
                    } else if (id == 22 || id == 36) && v.bingpai[22] + v.bingpai[36]
                        > NUM_SAME_TILE {
                        Some(ShoupaiError::TooManyFives(22))
                    } else {
                        None
                    }
                },
            }
        }
    }

    /// The hand after the draw.
    pub open spec fn after_zimo(v: ShoupaiView, zimopai: Option<Tile>) -> ShoupaiView {
        match zimopai {
            None => ShoupaiView {
                num_hidden_bingpai: (v.num_hidden_bingpai + 1) as u8,
                zimopai: Zimopai::Unknown,
                ..v
            },
            Some(tile) => ShoupaiView {
                bingpai: v.bingpai.update(tile@ as int, (v.bingpai[tile@ as int] + 1) as u8),
                zimopai: Zimopai::Drawn(tile),
                ..v
            },
        }
    }

    /// Draws a tile, known or not.
    pub fn zimo(&mut self, zimopai: Option<Tile>) -> (r: Result<(), ShoupaiError>)
        requires
            counts_ok(old(self)@),
            zimopai is None ==> old(self)@.num_hidden_bingpai < u8::MAX,
        ensures
            counts_ok(final(self)@),
            match Self::zimo_error(old(self)@, zimopai) {
                Some(e) => r == Err::<(), ShoupaiError>(e) && final(self)@ == old(self)@,
                None => r is Ok && final(self)@ == Self::after_zimo(old(self)@, zimopai),
            },
    {
        match self.zimopai {
            Zimopai::Waiting => {},
            _ => {
                return Err(ShoupaiError::AlreadyDrawn);
            },
        }
        match zimopai {
            None => {
                self.num_hidden_bingpai = self.num_hidden_bingpai + 1;
                self.zimopai = Zimopai::Unknown;
            },
            Some(tile) => {
                let index: usize = tile.to_usize();
                if self.bingpai[index] >= NUM_SAME_TILE {
                    return Err(ShoupaiError::TooManySameTiles(tile));
                }
                if index == 4 || index == 34 {
                    if (self.bingpai[4] + self.bingpai[34]) > NUM_SAME_TILE {
                        return Err(ShoupaiError::TooManyFives(4));
                    }
                }
                if index == 13 || index == 35 {
                    if (self.bingpai[13] + self.bingpai[35]) > NUM_SAME_TILE {
                        return Err(ShoupaiError::TooManyFives(13));
                    }
                }
                if index == 22 || index == 36 {
                    if (self.bingpai[22] + self.bingpai[36]) > NUM_SAME_TILE {
                        return Err(ShoupaiError::TooManyFives(22));
                    }
                }
                self.bingpai[index] = self.bingpai[index] + 1;
                self.zimopai = Zimopai::Drawn(tile);
            },
        }
        Ok(())
    }

    /// Takes one tile with the id of `tile` out of the hand: a known one if
    /// there is one, else an unknown one.
    fn decrease(&mut self, tile: &Tile) -> (r: Result<(), ShoupaiError>)
        ensures
            counts_ok(old(self)@) ==> counts_ok(final(self)@),
            match decreased(old(self)@, tile@ as int) {
                Some(less) => r is Ok && final(self)@ == less,
                None => r == Err::<(), ShoupaiError>(ShoupaiError::NotInHand) && final(self)@
                    == old(self)@,
            },
    {
        let index: usize = tile.to_usize();
        if self.bingpai[index] == 0 {
            if self.num_hidden_bingpai == 0 {
                return Err(ShoupaiError::NotInHand);
            }
            self.num_hidden_bingpai = self.num_hidden_bingpai - 1;
        } else {
            self.bingpai[index] = self.bingpai[index] - 1;
        }
        Ok(())
    }

    /// Takes the tiles out of the hand, one after the other, and stops at
    /// the first that is not there.
    fn decrease_all(&mut self, tiles: &[Tile]) -> (r: Result<(), ShoupaiError>)
        ensures
            counts_ok(old(self)@) ==> counts_ok(final(self)@),
            final(self)@ == decreased_all(old(self)@, tiles@).0,
            match r {
                Ok(_) => decreased_all(old(self)@, tiles@).1,
                Err(e) => !decreased_all(old(self)@, tiles@).1 && e == ShoupaiError::NotInHand,
            },
    {
        let mut i: usize = 0;
        proof {
            assert(tiles@.subrange(0, tiles@.len() as int) =~= tiles@);
        }
        while i < tiles.len()
            invariant
                0 <= i <= tiles@.len(),
                counts_ok(old(self)@) ==> counts_ok(self@),
                decreased_all(old(self)@, tiles@) == decreased_all(
                    self@,
                    tiles@.subrange(i as int, tiles@.len() as int),
                ),
            decreases tiles@.len() - i,
        {
            let ghost rest = tiles@.subrange(i as int, tiles@.len() as int);
            proof {
                assert(rest[0] == tiles@[i as int]);
                assert(rest.drop_first() =~= tiles@.subrange(i as int + 1, tiles@.len() as int));
            }
            match self.decrease(&tiles[i]) {
                Ok(_) => {},
                Err(e) => {
                    return Err(e);
                },
            }
            i = i + 1;
        }
        proof {
            assert(tiles@.subrange(tiles@.len() as int, tiles@.len() as int) =~= Seq::<
                Tile,
            >::empty());
        }
        Ok(())
    }

    /// Why the tile cannot be discarded, if it cannot: nothing was drawn or
    /// claimed; or the tile is said to be the drawn tile and is not; or it is
    /// not in the hand.
    pub open spec fn dapai_error(v: ShoupaiView, tile: Tile, is_moqie: bool) -> Option<
        ShoupaiError,
    > {
        match v.zimopai {
            Zimopai::Unknown | Zimopai::Waiting => Some(ShoupaiError::NothingDrawn),
            Zimopai::Drawn(zimopai) if is_moqie && zimopai != tile => Some(
                ShoupaiError::MoqieMismatch,
            ),
            _ => if decreased(v, tile@ as int) is None {
                Some(ShoupaiError::NotInHand)
            } else {
                None
            },
        }
    }

    /// Discards a tile: as the tile just drawn (`is_moqie`) or out of the
    /// hand, with or without declaring riichi.
    pub fn dapai(&mut self, tile: Tile, is_moqie: bool, is_lizhi_declaration: bool) -> (r: Result<
        (),
        ShoupaiError,
    >)
        ensures
            counts_ok(old(self)@) ==> counts_ok(final(self)@),
            match Self::dapai_error(old(self)@, tile, is_moqie) {
                Some(e) => r == Err::<(), ShoupaiError>(e) && final(self)@ == old(self)@,
                None => r is Ok && final(self)@ == (ShoupaiView {
                    zimopai: Zimopai::Waiting,
                    is_lizhi: old(self)@.is_lizhi || is_lizhi_declaration,
                    ..decreased(old(self)@, tile@ as int).unwrap()
                }),
            },
    {
        match self.zimopai {
            Zimopai::Unknown | Zimopai::Waiting => {
                return Err(ShoupaiError::NothingDrawn);
            },
            Zimopai::AfterChi(_) | Zimopai::AfterPeng(_) => {},
            Zimopai::Drawn(zimopai) => {
                if is_moqie && (zimopai != tile) {
                    return Err(ShoupaiError::MoqieMismatch);
                }
            },
        }
        match self.decrease(&tile) {
            Ok(_) => {},
            Err(e) => {
                return Err(e);
            },
        }
        self.zimopai = Zimopai::Waiting;
        if is_lizhi_declaration {
            self.is_lizhi = true;
        }
        Ok(())
    }

    /// Whether the hand has declared nothing but concealed quads.
    #[must_use]
    pub fn is_menqian(&self) -> (r: bool)
        ensures
            r == forall|i: int|
                0 <= i < self@.fulu_list.len() ==> (#[trigger] self@.fulu_list[i]) is AnGangzi,
    {
        let melds = fulu_list_as_slice(&self.fulu_list);
        let mut i: usize = 0;
        while i < melds.len()
            invariant
                0 <= i <= melds@.len(),
                melds@ == self@.fulu_list,
                forall|j: int| 0 <= j < i ==> (#[trigger] melds@[j]) is AnGangzi,
            decreases melds@.len() - i,
        {
            match melds[i] {
                FuluMianzi::AnGangzi(_) => {},
                _ => {
                    proof {
                        assert(!(self@.fulu_list[i as int] is AnGangzi));
                    }
                    return false;
                },
            }
            i = i + 1;
        }
        true
    }

    /// Whether riichi is declared.
    #[must_use]
    pub fn is_lizhi(&self) -> (r: bool)
        ensures
            r == self@.is_lizhi,
    {
        self.is_lizhi
    }

    /// What a claim or declaration with the tiles `tiles` yields: the error
    /// `refusal` if the state of the turn does not allow it; else the tiles
    /// leave the hand one after the other and, if all were there, the meld
    /// joins the melds and the state of the turn becomes `next`.
    pub open spec fn declared(
        v: ShoupaiView,
        allowed: bool,
        refusal: ShoupaiError,
        tiles: Seq<Tile>,
        meld: FuluMianzi,
        next: Zimopai,
    ) -> (ShoupaiView, Result<(), ShoupaiError>) {
        if !allowed {
            (v, Err(refusal))
        } else {
            let (less, done) = decreased_all(v, tiles);
            if done {
                (
                    ShoupaiView { fulu_list: less.fulu_list.push(meld), zimopai: next, ..less },
                    Ok(()),
                )
            } else {
                (less, Err(ShoupaiError::NotInHand))
            }
        }
    }

    /// Claims a run. Its three tiles leave the hand, and a tile must be
    /// discarded next.
    pub fn chi(&mut self, shunzi: MingShunzi) -> (r: Result<(), ShoupaiError>)
        requires
            old(self)@.fulu_list.len() < MAX_NUM_FULU,
        ensures
            counts_ok(old(self)@) ==> counts_ok(final(self)@),
            (final(self)@, r) == Self::declared(
                old(self)@,
                is_waiting(old(self)@.zimopai),
                ShoupaiError::NotClaimable,
                shunzi.tiles_spec()@,
                FuluMianzi::MingShunzi(shunzi),
                Zimopai::AfterChi(shunzi),
            ),
    {
        match self.zimopai {
            Zimopai::Waiting => {},
            _ => {
                return Err(ShoupaiError::NotClaimable);
            },
        }
        match self.decrease_all(shunzi.tiles().as_slice()) {
            Ok(_) => {},
            Err(e) => {
                return Err(e);
            },
        }
        proof {
            lemma_decreased_all_keeps(old(self)@, shunzi.tiles_spec()@);
        }
        fulu_list_push(&mut self.fulu_list, FuluMianzi::MingShunzi(shunzi));
        self.zimopai = Zimopai::AfterChi(shunzi);
        Ok(())
    }

    /// Claims a triplet. Its three tiles leave the hand, and a tile must be
    /// discarded next.
    pub fn peng(&mut self, kezi: MingKezi) -> (r: Result<(), ShoupaiError>)
        requires
            old(self)@.fulu_list.len() < MAX_NUM_FULU,
        ensures
            counts_ok(old(self)@) ==> counts_ok(final(self)@),
            (final(self)@, r) == Self::declared(
                old(self)@,
                is_waiting(old(self)@.zimopai),
                ShoupaiError::NotClaimable,
                kezi.tiles_spec()@,
                FuluMianzi::MingKezi(kezi),
                Zimopai::AfterPeng(kezi),
            ),
    {
        match self.zimopai {
            Zimopai::Waiting => {},
            _ => {
                return Err(ShoupaiError::NotClaimable);
            },
        }
        match self.decrease_all(kezi.tiles().as_slice()) {
            Ok(_) => {},
            Err(e) => {
                return Err(e);
            },
        }
        proof {
            lemma_decreased_all_keeps(old(self)@, kezi.tiles_spec()@);
        }
        fulu_list_push(&mut self.fulu_list, FuluMianzi::MingKezi(kezi));
        self.zimopai = Zimopai::AfterPeng(kezi);
        Ok(())
    }

    /// Claims a quad. Its four tiles leave the hand.
    pub fn daminggang(&mut self, gangzi: DamingGangzi) -> (r: Result<(), ShoupaiError>)
        requires
            old(self)@.fulu_list.len() < MAX_NUM_FULU,
        ensures
            counts_ok(old(self)@) ==> counts_ok(final(self)@),
            (final(self)@, r) == Self::declared(
                old(self)@,
                is_waiting(old(self)@.zimopai),
                ShoupaiError::NotClaimable,
                gangzi.tiles_spec()@,
                FuluMianzi::DamingGangzi(gangzi),
                Zimopai::Waiting,
            ),
    {
        match self.zimopai {
            Zimopai::Waiting => {},
            _ => {
                return Err(ShoupaiError::NotClaimable);
            },
        }
        match self.decrease_all(gangzi.tiles().as_slice()) {
            Ok(_) => {},
            Err(e) => {
                return Err(e);
            },
        }
        proof {
            lemma_decreased_all_keeps(old(self)@, gangzi.tiles_spec()@);
        }
        fulu_list_push(&mut self.fulu_list, FuluMianzi::DamingGangzi(gangzi));
        Ok(())
    }

    /// Declares a concealed quad after a draw. Its four tiles leave the hand.
    pub fn angang(&mut self, gangzi: AnGangzi) -> (r: Result<(), ShoupaiError>)
        requires
            old(self)@.fulu_list.len() < MAX_NUM_FULU,
        ensures
            counts_ok(old(self)@) ==> counts_ok(final(self)@),
            (final(self)@, r) == Self::declared(
                old(self)@,
                has_drawn(old(self)@.zimopai),
                ShoupaiError::NotAfterDraw,
                gangzi.tiles_spec()@,
                FuluMianzi::AnGangzi(gangzi),
                Zimopai::Waiting,
            ),
    {
        match self.zimopai {
            Zimopai::Waiting | Zimopai::AfterChi(_) | Zimopai::AfterPeng(_) => {
                return Err(ShoupaiError::NotAfterDraw);
            },
            _ => {},
        }
        match self.decrease_all(gangzi.tiles().as_slice()) {
            Ok(_) => {},
            Err(e) => {
                return Err(e);
            },
        }
        proof {
            lemma_decreased_all_keeps(old(self)@, gangzi.tiles_spec()@);
        }
        fulu_list_push(&mut self.fulu_list, FuluMianzi::AnGangzi(gangzi));
        self.zimopai = Zimopai::Waiting;
        Ok(())
    }

    /// The place of the first claimed triplet among the melds whose tiles
    /// are `kezi`, or the number of melds if there is none.
    pub open spec fn kezi_place(melds: Seq<FuluMianzi>, kezi: Seq<Tile>) -> int
        decreases melds.len(),
    {
        if melds.len() == 0 {
            0
        } else {
            let k = Self::kezi_place(melds.drop_last(), kezi);
            if k < melds.len() - 1 {
                k
            } else {
                match melds.last() {
                    FuluMianzi::MingKezi(m) => if m.tiles_spec()@ == kezi {
                        melds.len() - 1
                    } else {
                        melds.len() as int
                    },
                    _ => melds.len() as int,
                }
            }
        }
    }

    /// What adding a quad yields: it must come after a draw, the hand must
    /// have claimed the triplet, and the added tile must be in the hand.
    /// Then the quad takes the place of the triplet.
    pub open spec fn after_jiagang(v: ShoupaiView, gangzi: JiaGangzi) -> (
        ShoupaiView,
        Result<(), ShoupaiError>,
    ) {
        let place = Self::kezi_place(v.fulu_list, gangzi.tiles_spec()@.subrange(0, 3));
        if !has_drawn(v.zimopai) {
            (v, Err(ShoupaiError::NotAfterDraw))
        } else if place >= v.fulu_list.len() {
            (v, Err(ShoupaiError::NoMatchingKezi))
        } else {
            match decreased(v, gangzi.tiles_spec()@[3]@ as int) {
                None => (v, Err(ShoupaiError::NotInHand)),
                Some(less) => (
                    ShoupaiView {
                        fulu_list: less.fulu_list.update(place, FuluMianzi::JiaGangzi(gangzi)),
                        zimopai: Zimopai::Waiting,
                        ..less
                    },
                    Ok(()),
                ),
            }
        }
    }

    /// Adds the fourth tile to a claimed triplet, after a draw.
    pub fn jiagang(&mut self, gangzi: JiaGangzi) -> (r: Result<(), ShoupaiError>)
        ensures
            counts_ok(old(self)@) ==> counts_ok(final(self)@),
            (final(self)@, r) == Self::after_jiagang(old(self)@, gangzi),
    {
        match self.zimopai {
            Zimopai::Waiting | Zimopai::AfterChi(_) | Zimopai::AfterPeng(_) => {
                return Err(ShoupaiError::NotAfterDraw);
            },
            _ => {},
        }
        let place: usize = find_kezi(fulu_list_as_slice(&self.fulu_list), gangzi.kezi());
        let found: Option<usize> = if place < fulu_list_as_slice(&self.fulu_list).len() {
            Some(place)
        } else {
            None
        };
        match found {
            Some(k) => {
                match self.decrease(gangzi.added_tile()) {
                    Ok(_) => {},
                    Err(e) => {
                        return Err(e);
                    },
                }
                fulu_list_set(&mut self.fulu_list, k, FuluMianzi::JiaGangzi(gangzi));
            },
            None => {
                return Err(ShoupaiError::NoMatchingKezi);
            },
        }
        self.zimopai = Zimopai::Waiting;
        Ok(())
    }

    /// What setting a north aside yields: it must come after a draw, and a
    /// north must be in the hand.
    pub open spec fn after_babei(v: ShoupaiView) -> (ShoupaiView, Result<(), ShoupaiError>) {
        if !has_drawn(v.zimopai) {
            (v, Err(ShoupaiError::NotAfterDraw))
        } else {
            match decreased(v, BEI as int) {
                None => (v, Err(ShoupaiError::NotInHand)),
                Some(less) => (
                    ShoupaiView {
                        num_ba_baopai: (less.num_ba_baopai + 1) as u8,
                        zimopai: Zimopai::Waiting,
                        ..less
                    },
                    Ok(()),
                ),
            }
        }
    }

    /// Sets a north aside, after a draw.
    pub fn babei(&mut self) -> (r: Result<(), ShoupaiError>)
        requires
            old(self)@.num_ba_baopai < u8::MAX,
        ensures
            counts_ok(old(self)@) ==> counts_ok(final(self)@),
            (final(self)@, r) == Self::after_babei(old(self)@),
    {
        match self.zimopai {
            Zimopai::Waiting | Zimopai::AfterChi(_) | Zimopai::AfterPeng(_) => {
                return Err(ShoupaiError::NotAfterDraw);
            },
            _ => {},
        }
        match self.decrease(&Tile::new_unchecked(BEI)) {
            Ok(_) => {},
            Err(e) => {
                return Err(e);
            },
        }
        self.num_ba_baopai = self.num_ba_baopai + 1;
        self.zimopai = Zimopai::Waiting;
        Ok(())
    }
}

/// The place of the first claimed triplet among the melds whose tiles are
/// `kezi`, or the number of melds if there is none.
pub fn find_kezi(melds: &[FuluMianzi], kezi: &[Tile]) -> (place: usize)
    ensures
        place == Shoupai::kezi_place(melds@, kezi@),
        place <= melds@.len(),
{
    let mut i: usize = 0;
    while i < melds.len()
        invariant
            0 <= i <= melds@.len(),
            Shoupai::kezi_place(melds@.take(i as int), kezi@) == i,
        decreases melds@.len() - i,
    {
        proof {
            assert(melds@.take(i as int + 1).drop_last() =~= melds@.take(i as int));
        }
        let is_match: bool = match melds[i] {
            FuluMianzi::MingKezi(m) => same_tiles(m.tiles().as_slice(), kezi),
            _ => false,
        };
        if is_match {
            proof {
                lemma_kezi_place_stays(melds@, kezi@, i as int + 1);
            }
            return i;
        }
        i = i + 1;
    }
    proof {
        assert(melds@.take(melds@.len() as int) =~= melds@);
    }
    i
}

/// Whether the two lists hold the same tiles in the same order.
pub fn same_tiles(a: &[Tile], b: &[Tile]) -> (r: bool)
    ensures
        r == (a@ == b@),
{
    if a.len() != b.len() {
        return false;
    }
    let mut i: usize = 0;
    while i < a.len()
        invariant
            0 <= i <= a@.len(),
            a@.len() == b@.len(),
            a@.take(i as int) == b@.take(i as int),
        decreases a@.len() - i,
    {
        if a[i] != b[i] {
            return false;
        }
        proof {
            assert(a@.take(i as int + 1) =~= a@.take(i as int).push(a@[i as int]));
            assert(b@.take(i as int + 1) =~= b@.take(i as int).push(b@[i as int]));
        }
        i = i + 1;
    }
    proof {
        assert(a@.take(a@.len() as int) =~= a@);
        assert(b@.take(b@.len() as int) =~= b@);
    }
    true
}

proof fn lemma_kezi_place_stays(melds: Seq<FuluMianzi>, kezi: Seq<Tile>, upto: int)
    requires
        0 < upto <= melds.len(),
        Shoupai::kezi_place(melds.take(upto), kezi) < upto,
    ensures
        Shoupai::kezi_place(melds, kezi) == Shoupai::kezi_place(melds.take(upto), kezi),
    decreases melds.len() - upto,
{
    if upto < melds.len() {
        assert(melds.take(upto + 1).drop_last() =~= melds.take(upto));
        lemma_kezi_place_stays(melds, kezi, upto + 1);
    } else {
        assert(melds.take(upto) =~= melds);
    }
}

/// Taking tiles out of the hand touches neither the melds nor the state of
/// the turn.
proof fn lemma_decreased_all_keeps(v: ShoupaiView, tiles: Seq<Tile>)
    ensures
        decreased_all(v, tiles).0.fulu_list == v.fulu_list,
        decreased_all(v, tiles).0.zimopai == v.zimopai,
        decreased_all(v, tiles).0.is_lizhi == v.is_lizhi,
        decreased_all(v, tiles).0.num_ba_baopai == v.num_ba_baopai,
    decreases tiles.len(),
{
    if tiles.len() > 0 {
        match decreased(v, tiles[0]@ as int) {
            Some(less) => {
                lemma_decreased_all_keeps(less, tiles.drop_first());
            },
            None => {},
        }
    }
}

} // verus!
