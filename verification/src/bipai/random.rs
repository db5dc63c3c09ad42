use crate::bipai::shuffle::shuffle_mt;
use crate::bipai::tile_deque::{indicator_items, indicators_as_slice, indicators_new,
    indicators_push, tile_deque_extend_back, tile_deque_get, tile_deque_items, tile_deque_len,
    tile_deque_new, tile_deque_pop_back, tile_deque_pop_front, TileDeque};
use crate::rule::{rule_error, NumPlayer, Rule, RuleView};
use crate::tile::Tile;
use arrayvec::ArrayVec;
use mt19937::MT19937;
use vstd::prelude::*;

verus! {

/// Tiles of a wall for 4 players.
pub const NUM_BIPAI_4: usize = 136;

/// Tiles of a wall for 3 players: without the 2 to 8 of man.
pub const NUM_BIPAI_3: usize = 108;

/// Tiles of the dead wall.
pub const NUM_WANGPAI: usize = 14;

/// Tiles that can be drawn after a quad.
pub const NUM_LINGSHANGPAI: usize = 4;

/// Tiles that can be drawn after a quad or a north set aside.
pub const NUM_LINGSHANGPAI_WITH_BABEI: usize = 8;

/// Most quads in one hand.
pub const MAX_GANG_COUNT: usize = 4;

/// Most dora indicators: one, and one more for each quad.
pub const MAX_NUM_BAOPAI: usize = 5;

/// Where the fives of man stand in a wall for 4 players in order of kind.
pub const BIPAI_RED_5M_INDEX_4: usize = 16;

/// Where the fives of pin stand in a wall for 4 players in order of kind.
pub const BIPAI_RED_5P_INDEX_4: usize = 52;

/// Where the fives of sou stand in a wall for 4 players in order of kind.
pub const BIPAI_RED_5S_INDEX_4: usize = 88;

/// Where the fives of pin stand in a wall for 3 players in order of kind.
pub const BIPAI_RED_5P_INDEX_3: usize = 24;

/// Where the fives of sou stand in a wall for 3 players in order of kind.
pub const BIPAI_RED_5S_INDEX_3: usize = 60;

/// Why the wall refuses.
#[derive(Debug, Clone, Copy, PartialEq, Eq, Structural)]
pub enum BipaiError {
    /// The hand is over.
    Closed,
    /// The hand is not over yet.
    NotClosed,
    /// No tile is left outside the dead wall.
    NoTilesLeft,
    /// A dora indicator is still to be revealed.
    KaigangPending,
    /// No dora indicator is to be revealed.
    NoKaigangPending,
    /// There have been 4 quads.
    FifthGang,
}

/// The kind with the given place among the kinds of a wall for 3 players:
/// 1m, 9m, then the kinds of pin, sou and the honors.
pub open spec fn kind_of_3(place: int) -> u8 {
    if place == 0 {
        0
    } else if place == 1 {
        8
    } else {
        (place + 7) as u8
    }
}

/// The wall for 4 players in order of kind, the first fives of each suit red
/// as the rule says.
pub open spec fn initial_bipai_4(m: int, p: int, s: int) -> Seq<Tile> {
    Seq::new(
        NUM_BIPAI_4 as nat,
        |i: int|
            if BIPAI_RED_5M_INDEX_4 <= i < BIPAI_RED_5M_INDEX_4 + m {
                Tile::of(34)
            } else if BIPAI_RED_5P_INDEX_4 <= i < BIPAI_RED_5P_INDEX_4 + p {
                Tile::of(35)
            } else if BIPAI_RED_5S_INDEX_4 <= i < BIPAI_RED_5S_INDEX_4 + s {
                Tile::of(36)
            } else {
                Tile::of((i / 4) as u8)
            },
    )
}

/// The wall for 3 players in order of kind, the first fives of pin and sou
/// red as the rule says.
pub open spec fn initial_bipai_3(p: int, s: int) -> Seq<Tile> {
    Seq::new(
        NUM_BIPAI_3 as nat,
        |i: int|
            if BIPAI_RED_5P_INDEX_3 <= i < BIPAI_RED_5P_INDEX_3 + p {
                Tile::of(35)
            } else if BIPAI_RED_5S_INDEX_3 <= i < BIPAI_RED_5S_INDEX_3 + s {
                Tile::of(36)
            } else {
                Tile::of(kind_of_3(i / 4))
            },
    )
}

/// The wall in order of kind that the rule asks for.
pub open spec fn initial_bipai(rule: RuleView) -> Seq<Tile> {
    match rule.num_player {
        NumPlayer::Four => initial_bipai_4(
            rule.hongbaopai_count.wanzi as int,
            rule.hongbaopai_count.bingzi as int,
            rule.hongbaopai_count.suozi as int,
        ),
        NumPlayer::Three => initial_bipai_3(
            rule.hongbaopai_count.bingzi as int,
            rule.hongbaopai_count.suozi as int,
        ),
    }
}

/// How many tiles at the front of the wall are kept for draws after quads.
pub open spec fn num_lingshangpai_of(rule: RuleView) -> int {
    match rule.num_player {
        NumPlayer::Four => NUM_LINGSHANGPAI as int,
        NumPlayer::Three => if rule.has_babei_baopai {
            NUM_LINGSHANGPAI_WITH_BABEI as int
        } else {
            NUM_LINGSHANGPAI as int
        },
    }
}

/// The view of an optional list of indicators.
pub open spec fn indicators_view(list: Option<ArrayVec<Tile, 5>>) -> Option<Seq<Tile>> {
    match list {
        Some(l) => Some(indicator_items(l)),
        None => None,
    }
}

/// A wall in random order. Tiles are drawn from its back; the dead wall is
/// its front: the tiles drawn after quads first, then the dora indicators,
/// then the ura dora indicators.
pub struct RandomBipai {
    closed: bool,
    rule: Rule,
    tiles: TileDeque,
    baopai_indicators: Option<ArrayVec<Tile, 5>>,
    li_baopai_indicators: Option<ArrayVec<Tile, 5>>,
    num_lingshangpai: usize,
    gang_count: usize,
    should_kaigang: bool,
}

fn ordered_tiles(rule: &Rule) -> (tiles: Vec<Tile>)
    ensures
        tiles@ == initial_bipai(rule@),
{
    let count = rule.hongbaopai_count();
    let mut tiles: Vec<Tile> = Vec::new();
    match rule.num_player() {
        NumPlayer::Four => {
            let num_r5m: usize = count.wanzi as usize;
            let num_r5p: usize = count.bingzi as usize;
            let num_r5s: usize = count.suozi as usize;
            let mut i: usize = 0;
            while i < NUM_BIPAI_4
                invariant
                    0 <= i <= NUM_BIPAI_4,
                    num_r5m <= 4 && num_r5p <= 4 && num_r5s <= 4,
                    tiles@ == initial_bipai_4(
                        num_r5m as int,
                        num_r5p as int,
                        num_r5s as int,
                    ).take(i as int),
                decreases NUM_BIPAI_4 - i,
            {
                let t = if BIPAI_RED_5M_INDEX_4 <= i && i < BIPAI_RED_5M_INDEX_4 + num_r5m {
                    Tile::new_unchecked(34)
                } else if BIPAI_RED_5P_INDEX_4 <= i && i < BIPAI_RED_5P_INDEX_4 + num_r5p {
                    Tile::new_unchecked(35)
                } else if BIPAI_RED_5S_INDEX_4 <= i && i < BIPAI_RED_5S_INDEX_4 + num_r5s {
                    Tile::new_unchecked(36)
                } else {
                    Tile::new_unchecked((i / 4) as u8)
                };
                tiles.push(t);
                proof {
                    assert(tiles@ =~= initial_bipai_4(
                        num_r5m as int,
                        num_r5p as int,
                        num_r5s as int,
                    ).take(i as int + 1));
                }
                i = i + 1;
            }
            proof {
                let all = initial_bipai_4(num_r5m as int, num_r5p as int, num_r5s as int);
                assert(all.take(NUM_BIPAI_4 as int) =~= all);
            }
        },
        NumPlayer::Three => {
            let num_r5p: usize = count.bingzi as usize;
            let num_r5s: usize = count.suozi as usize;
            let mut i: usize = 0;
            while i < NUM_BIPAI_3
                invariant
                    0 <= i <= NUM_BIPAI_3,
                    num_r5p <= 4 && num_r5s <= 4,
                    tiles@ == initial_bipai_3(num_r5p as int, num_r5s as int).take(i as int),
                decreases NUM_BIPAI_3 - i,
            {
                let place: usize = i / 4;
                let t = if BIPAI_RED_5P_INDEX_3 <= i && i < BIPAI_RED_5P_INDEX_3 + num_r5p {
                    Tile::new_unchecked(35)
                } else if BIPAI_RED_5S_INDEX_3 <= i && i < BIPAI_RED_5S_INDEX_3 + num_r5s {
                    Tile::new_unchecked(36)
                } else if place == 0 {
                    Tile::new_unchecked(0)
                } else if place == 1 {
                    Tile::new_unchecked(8)
                } else {
                    Tile::new_unchecked((place + 7) as u8)
                };
                tiles.push(t);
                proof {
                    assert(tiles@ =~= initial_bipai_3(num_r5p as int, num_r5s as int).take(
                        i as int + 1,
                    ));
                }
                i = i + 1;
            }
            proof {
                let all = initial_bipai_3(num_r5p as int, num_r5s as int);
                assert(all.take(NUM_BIPAI_3 as int) =~= all);
            }
        },
    }
    tiles
}

impl RandomBipai {
    /// The tiles still in the wall, from the dead wall at the front to the
    /// tile that is drawn next at the back.
    pub closed spec fn tiles_spec(&self) -> Seq<Tile> {
        tile_deque_items(self.tiles)
    }

    /// The rule that the wall was built for.
    pub closed spec fn rule_spec(&self) -> RuleView {
        self.rule@
    }

    /// Whether the hand is over.
    pub closed spec fn closed_spec(&self) -> bool {
        self.closed
    }

    /// The dora indicators revealed so far, if the rule has dora.
    pub closed spec fn baopai_spec(&self) -> Option<Seq<Tile>> {
        indicators_view(self.baopai_indicators)
    }

    /// The ura dora indicators that belong to the revealed dora indicators, if
    /// the rule has ura dora.
    pub closed spec fn li_baopai_spec(&self) -> Option<Seq<Tile>> {
        indicators_view(self.li_baopai_indicators)
    }

    /// How many quads have drawn their tile.
    pub closed spec fn gang_count_spec(&self) -> int {
        self.gang_count as int
    }

    /// Whether a dora indicator is still to be revealed for the last quad.
    pub closed spec fn should_kaigang_spec(&self) -> bool {
        self.should_kaigang
    }

    /// Whether the parts of the wall fit together.
    pub closed spec fn wf(&self) -> bool {
        &&& rule_error(self.rule@) is None
        &&& self.num_lingshangpai == num_lingshangpai_of(self.rule@)
        &&& NUM_WANGPAI <= tile_deque_items(self.tiles).len() <= NUM_BIPAI_4
        &&& self.gang_count <= MAX_GANG_COUNT
        &&& self.should_kaigang ==> self.rule@.has_gang_biao_baopai && self.gang_count >= 1
        &&& self.baopai_indicators matches Some(l) ==> indicator_items(l).len() + (
        if self.should_kaigang {
            1int
        } else {
            0int
        }) <= 1 + self.gang_count
        &&& self.li_baopai_indicators matches Some(l) ==> indicator_items(l).len() + (
        if self.should_kaigang {
            1int
        } else {
            0int
        }) <= 1 + self.gang_count
    }

    /// Builds a wall in random order for the rule, and reveals the first dora
    /// indicator.
    #[must_use]
    pub fn new(rule: Rule, mut rng: MT19937) -> (r: Self)
        ensures
            r.wf(),
            r.rule_spec() == rule@,
            !r.closed_spec(),
            r.gang_count_spec() == 0,
            !r.should_kaigang_spec(),
            r.tiles_spec().to_multiset() == initial_bipai(rule@).to_multiset(),
            r.baopai_spec() == if rule@.has_biao_baopai {
                Some(seq![r.tiles_spec()[num_lingshangpai_of(rule@)]])
            } else {
                None
            },
            r.li_baopai_spec() == if rule@.has_li_baopai {
                Some(seq![r.tiles_spec()[num_lingshangpai_of(rule@) + MAX_NUM_BAOPAI]])
            } else {
                None
            },
    {
        let mut init_tiles = ordered_tiles(&rule);
        let ghost ordered = init_tiles@;
        shuffle_mt(&mut init_tiles, &mut rng);
        proof {
            init_tiles@.to_multiset_ensures();
            ordered.to_multiset_ensures();
        }
        let mut tiles = tile_deque_new();
        tile_deque_extend_back(&mut tiles, &init_tiles);
        proof {
            assert(tile_deque_items(tiles) =~= init_tiles@);
        }

        let num_lingshangpai: usize = match rule.num_player() {
            NumPlayer::Four => NUM_LINGSHANGPAI,
            NumPlayer::Three => {
                if *rule.has_babei_baopai() {
                    NUM_LINGSHANGPAI_WITH_BABEI
                } else {
                    NUM_LINGSHANGPAI
                }
            },
        };

        let baopai_indicators: Option<ArrayVec<Tile, 5>> = if *rule.has_biao_baopai() {
            let mut b = indicators_new();
            indicators_push(&mut b, tile_deque_get(&tiles, num_lingshangpai));
            proof {
                assert(indicator_items(b) =~= seq![tile_deque_items(tiles)[num_lingshangpai as int]]);
            }
            Some(b)
        } else {
            None
        };

        let li_baopai_indicators: Option<ArrayVec<Tile, 5>> = if *rule.has_li_baopai() {
            let mut l = indicators_new();
            indicators_push(&mut l, tile_deque_get(&tiles, num_lingshangpai + MAX_NUM_BAOPAI));
            proof {
                assert(indicator_items(l) =~= seq![tile_deque_items(tiles)[num_lingshangpai
                    + MAX_NUM_BAOPAI]]);
            }
            Some(l)
        } else {
            None
        };

        Self {
            closed: false,
            rule,
            tiles,
            baopai_indicators,
            li_baopai_indicators,
            num_lingshangpai,
            gang_count: 0,
            should_kaigang: false,
        }
    }

    /// Whether a tile is left outside the dead wall.
    #[must_use]
    pub fn has_left_tile(&self) -> (r: bool)
        ensures
            r == (self.tiles_spec().len() > NUM_WANGPAI),
    {
        tile_deque_len(&self.tiles) > NUM_WANGPAI
    }

    /// The dora for a dora indicator: the tile that follows it.
    pub fn to_baopai(baopai_indicator: &Tile) -> (t: Tile)
        ensures
            t@ == crate::tile::next_id(baopai_indicator@),
    {
        baopai_indicator.next()
    }

    /// How many tiles are left outside the dead wall.
    pub fn left_tile_count(&self) -> (r: Result<u8, BipaiError>)
        ensures
            match r {
                Ok(n) => self.tiles_spec().len() >= NUM_WANGPAI && n == self.tiles_spec().len()
                    - NUM_WANGPAI,
                Err(e) => self.tiles_spec().len() < NUM_WANGPAI && e == BipaiError::NoTilesLeft,
            },
    {
        let left_bipai_count: usize = tile_deque_len(&self.tiles);
        if !(left_bipai_count >= NUM_WANGPAI) {
            return Err(BipaiError::NoTilesLeft);
        }
        Ok((left_bipai_count - NUM_WANGPAI) as u8)
    }

    /// The dora indicators revealed so far, if the rule has dora.
    #[must_use]
    pub fn baopai_indicators(&self) -> (r: Option<&[Tile]>)
        ensures
            match r {
                Some(s) => self.baopai_spec() == Some(s@),
                None => self.baopai_spec() is None,
            },
    {
        match &self.baopai_indicators {
            Some(b) => Some(indicators_as_slice(b)),
            None => None,
        }
    }

    /// The ura dora indicators, which may be looked at once the hand is over.
    pub fn li_baopai_indicators(&self) -> (r: Result<Option<&[Tile]>, BipaiError>)
        ensures
            match r {
                Ok(Some(s)) => self.closed_spec() && self.li_baopai_spec() == Some(s@),
                Ok(None) => self.closed_spec() && self.li_baopai_spec() is None,
                Err(e) => !self.closed_spec() && e == BipaiError::NotClosed,
            },
    {
        if !self.closed {
            return Err(BipaiError::NotClosed);
        }
        Ok(
            match &self.li_baopai_indicators {
                Some(l) => Some(indicators_as_slice(l)),
                None => None,
            },
        )
    }

    /// Ends the hand: no tile is drawn any more.
    pub fn close(&mut self)
        requires
            old(self).wf(),
        ensures
            final(self).wf(),
            final(self).closed_spec(),
            final(self).tiles_spec() == old(self).tiles_spec(),
            final(self).rule_spec() == old(self).rule_spec(),
            final(self).baopai_spec() == old(self).baopai_spec(),
            final(self).li_baopai_spec() == old(self).li_baopai_spec(),
            final(self).gang_count_spec() == old(self).gang_count_spec(),
            final(self).should_kaigang_spec() == old(self).should_kaigang_spec(),
    {
        self.closed = true;
    }

    /// Why no tile can be drawn in turn, if none can.
    pub open spec fn zimo_error(&self) -> Option<BipaiError> {
        if self.closed_spec() {
            Some(BipaiError::Closed)
        } else if self.tiles_spec().len() <= NUM_WANGPAI {
            Some(BipaiError::NoTilesLeft)
        } else if self.should_kaigang_spec() {
            Some(BipaiError::KaigangPending)
        } else {
            None
        }
    }

    /// Why no tile can be drawn after a quad, if none can.
    pub open spec fn lingshangzimo_error(&self) -> Option<BipaiError> {
        if self.zimo_error() is Some {
            self.zimo_error()
        } else if self.gang_count_spec() >= MAX_GANG_COUNT {
            Some(BipaiError::FifthGang)
        } else {
            None
        }
    }

    /// Draws the next tile in turn: the last tile of the wall.
    pub fn zimo(&mut self) -> (r: Result<Tile, BipaiError>)
        requires
            old(self).wf(),
        ensures
            final(self).wf(),
            final(self).rule_spec() == old(self).rule_spec(),
            final(self).closed_spec() == old(self).closed_spec(),
            final(self).baopai_spec() == old(self).baopai_spec(),
            final(self).li_baopai_spec() == old(self).li_baopai_spec(),
            final(self).gang_count_spec() == old(self).gang_count_spec(),
            final(self).should_kaigang_spec() == old(self).should_kaigang_spec(),
            match old(self).zimo_error() {
                Some(e) => {
                    &&& r == Err::<Tile, BipaiError>(e)
                    &&& final(self).tiles_spec() == old(self).tiles_spec()
                },
                None => {
                    &&& r == Ok::<Tile, BipaiError>(old(self).tiles_spec().last())
                    &&& final(self).tiles_spec() == old(self).tiles_spec().drop_last()
                },
            },
    {
        if self.closed {
            return Err(BipaiError::Closed);
        }
        if !self.has_left_tile() {
            return Err(BipaiError::NoTilesLeft);
        }
        if self.should_kaigang {
            return Err(BipaiError::KaigangPending);
        }
        match tile_deque_pop_back(&mut self.tiles) {
            Some(zimopai) => Ok(zimopai),
            None => Err(BipaiError::NoTilesLeft),
        }
    }

    /// Draws the tile for a quad: the first tile of the wall. If the rule
    /// has dora for quads, a dora indicator is then to be revealed before
    /// the next draw.
    pub fn lingshangzimo(&mut self) -> (r: Result<Tile, BipaiError>)
        requires
            old(self).wf(),
        ensures
            final(self).wf(),
            final(self).rule_spec() == old(self).rule_spec(),
            final(self).closed_spec() == old(self).closed_spec(),
            final(self).baopai_spec() == old(self).baopai_spec(),
            final(self).li_baopai_spec() == old(self).li_baopai_spec(),
            match old(self).lingshangzimo_error() {
                Some(e) => {
                    &&& r == Err::<Tile, BipaiError>(e)
                    &&& final(self).tiles_spec() == old(self).tiles_spec()
                    &&& final(self).gang_count_spec() == old(self).gang_count_spec()
                    &&& final(self).should_kaigang_spec() == old(self).should_kaigang_spec()
                },
                None => {
                    &&& r == Ok::<Tile, BipaiError>(old(self).tiles_spec().first())
                    &&& final(self).tiles_spec() == old(self).tiles_spec().drop_first()
                    &&& final(self).gang_count_spec() == old(self).gang_count_spec() + 1
                    &&& final(self).should_kaigang_spec() == old(self).rule_spec().has_gang_biao_baopai
                },
            },
    {
        if self.closed {
            return Err(BipaiError::Closed);
        }
        if !self.has_left_tile() {
            return Err(BipaiError::NoTilesLeft);
        }
        if self.should_kaigang {
            return Err(BipaiError::KaigangPending);
        }
        if !(self.gang_count < MAX_GANG_COUNT) {
            return Err(BipaiError::FifthGang);
        }
        let has_gang_biao_baopai: bool = *self.rule.has_gang_biao_baopai();
        match tile_deque_pop_front(&mut self.tiles) {
            Some(lingshangzimopai) => {
                if has_gang_biao_baopai {
                    self.should_kaigang = true;
                }
                self.gang_count = self.gang_count + 1;
                Ok(lingshangzimopai)
            },
            None => Err(BipaiError::NoTilesLeft),
        }
    }

    /// Reveals the dora indicator for the last quad, and notes its ura dora
    /// indicator if the rule has ura dora for quads: the tiles that now stand
    /// behind the tiles kept for quads, and 5 places further back.
    pub fn kaigang(&mut self) -> (r: Result<(), BipaiError>)
        requires
            old(self).wf(),
        ensures
            final(self).wf(),
            final(self).rule_spec() == old(self).rule_spec(),
            final(self).closed_spec() == old(self).closed_spec(),
            final(self).tiles_spec() == old(self).tiles_spec(),
            final(self).gang_count_spec() == old(self).gang_count_spec(),
            match r {
                Err(e) => {
                    &&& (old(self).closed_spec() || !old(self).should_kaigang_spec())
                    &&& e == if old(self).closed_spec() {
                        BipaiError::Closed
                    } else {
                        BipaiError::NoKaigangPending
                    }
                    &&& final(self).should_kaigang_spec() == old(self).should_kaigang_spec()
                    &&& final(self).baopai_spec() == old(self).baopai_spec()
                    &&& final(self).li_baopai_spec() == old(self).li_baopai_spec()
                },
                Ok(_) => {
                    &&& !old(self).closed_spec() && old(self).should_kaigang_spec()
                    &&& !final(self).should_kaigang_spec()
                    &&& final(self).baopai_spec() == match old(self).baopai_spec() {
                        Some(b) => Some(
                            b.push(old(self).tiles_spec()[num_lingshangpai_of(old(self).rule_spec())]),
                        ),
                        None => None,
                    }
                    &&& final(self).li_baopai_spec() == match old(self).li_baopai_spec() {
                        Some(l) => if old(self).rule_spec().has_gang_li_baopai {
                            Some(
                                l.push(
                                    old(self).tiles_spec()[num_lingshangpai_of(
                                        old(self).rule_spec(),
                                    ) + MAX_NUM_BAOPAI],
                                ),
                            )
                        } else {
                            Some(l)
                        },
                        None => None,
                    }
                },
            },
    {
        if self.closed {
            return Err(BipaiError::Closed);
        }
        if !self.should_kaigang {
            return Err(BipaiError::NoKaigangPending);
        }
        if *self.rule.has_gang_biao_baopai() {
            let tile = tile_deque_get(&self.tiles, self.num_lingshangpai);
            match &mut self.baopai_indicators {
                Some(baopai_indicators) => {
                    indicators_push(baopai_indicators, tile);
                },
                None => {},
            }
        }
        if *self.rule.has_gang_li_baopai() {
            let tile = tile_deque_get(&self.tiles, self.num_lingshangpai + MAX_NUM_BAOPAI);
            match &mut self.li_baopai_indicators {
                Some(li_baopai_indicators) => {
                    indicators_push(li_baopai_indicators, tile);
                },
                None => {},
            }
        }
        self.should_kaigang = false;
        Ok(())
    }
}

} // verus!
