use crate::fulu::ming_shunzi::shunzi_error;
use crate::fulu::{AnGangJiaGangMianzi, AnGangzi, DamingGangzi, Mianzi, MingKezi, MingMianzi,
    MingShunzi, Tajia};
use crate::shoupai::hand::{counts_ok, Shoupai, ShoupaiView, Zimopai};
use crate::shoupai::lists::{angang_items, angang_list_new, angang_list_push, chi_items,
    chi_list_new, chi_list_push, daminggang_items, daminggang_list_new, daminggang_list_push,
    dapai_items, dapai_list_new, dapai_list_push, deny_items, deny_list_as_slice, deny_list_new,
    deny_list_push, peng_items, peng_list_new, peng_list_push,
    MAX_NUM_ANGANG_JIAGANG_CANDIDATES, MAX_NUM_CHI_CANDIDATES, MAX_NUM_DAPAI_CANDIDATES,
    MAX_NUM_PENG_CANDIDATES};
use crate::tile::{decorated_id, is_zipai_id, next_id, normalized_id, prev_id, Tile,
    NUM_SAME_TILE, NUM_TILE_INDEX, NUM_TILE_INDEX_WITHOUT_HONGBAOPAI};
use crate::xiangting::bingpai::{lemma_total_bound, total_tiles};
use arrayvec::ArrayVec;
use vstd::prelude::*;

verus! {

/// Whether `id` is the id of a five, red or plain.
pub open spec fn is_five_id(id: u8) -> bool {
    id == 4 || id == 13 || id == 22 || 34 <= id <= 36
}

/// The ids that may not be discarded on account of the tile with id `id`:
/// the id itself; for a five both the red and the plain five. A red five
/// counts as a five only where `red_too` says so.
pub open spec fn deny_for(id: u8, red_too: bool) -> Seq<usize> {
    if id == 4 || id == 13 || id == 22 || (red_too && 34 <= id <= 36) {
        seq![decorated_id(id) as usize, normalized_id(id) as usize]
    } else {
        seq![id as usize]
    }
}

/// The ids that may not be discarded right after a claim, where swapping is
/// checked for: the claimed tile and, after a run, the tile at its other end.
pub open spec fn deny_list(z: Zimopai, check_shiti: bool) -> Seq<usize> {
    if !check_shiti {
        Seq::empty()
    } else {
        match z {
            Zimopai::AfterChi(s) => deny_for(s.tiles_spec()@[0]@, true) + match s.shiti_jin_spec() {
                Some(j) => deny_for(j@, false),
                None => Seq::empty(),
            },
            Zimopai::AfterPeng(k) => deny_for(k.tiles_spec()@[0]@, true),
            _ => Seq::empty(),
        }
    }
}

/// Whether the standing tile with id `i` can be discarded: it is held, it
/// is not denied, and it is not the drawn tile alone.
pub open spec fn can_discard(v: ShoupaiView, deny: Seq<usize>, i: int) -> bool {
    &&& v.bingpai[i] > 0
    &&& !deny.contains(i as usize)
    &&& !(v.zimopai matches Zimopai::Drawn(t) && t@ == i && v.bingpai[i] == 1)
}

/// The standing tiles with ids below `upto` that can be discarded, in
/// ascending order.
pub open spec fn standing(v: ShoupaiView, deny: Seq<usize>, upto: int) -> Seq<Tile>
    decreases upto,
{
    if upto <= 0 {
        Seq::empty()
    } else if can_discard(v, deny, upto - 1) {
        standing(v, deny, upto - 1).push(Tile::of((upto - 1) as u8))
    } else {
        standing(v, deny, upto - 1)
    }
}

/// The tiles that can be discarded: none while the hand waits; after riichi
/// the drawn tile; else the standing tiles that can be discarded, and last
/// the drawn tile.
pub open spec fn dapai_candidates(v: ShoupaiView, check_shiti: bool) -> Option<Seq<Tile>> {
    match v.zimopai {
        Zimopai::Waiting => None,
        Zimopai::Drawn(t) => if v.is_lizhi {
            Some(seq![t])
        } else {
            Some(standing(v, deny_list(v.zimopai, check_shiti), NUM_TILE_INDEX as int).push(t))
        },
        _ => Some(standing(v, deny_list(v.zimopai, check_shiti), NUM_TILE_INDEX as int)),
    }
}

/// The view of an optional list of tiles.
pub open spec fn dapai_view(list: Option<ArrayVec<Tile, 14>>) -> Option<Seq<Tile>> {
    match list {
        Some(l) => Some(dapai_items(l)),
        None => None,
    }
}

/// The triplets that can be claimed with the discard `tile`: none while a
/// tile is held or after riichi. For a five, one for each way to take two
/// fives out of the hand: two red, a red and a plain, two plain. Else the
/// one with two tiles of the hand, if it holds two.
pub open spec fn peng_candidates(v: ShoupaiView, tile: Tile, discarder: Tajia) -> Option<
    Seq<MingKezi>,
> {
    let red = Tile::of(decorated_id(tile@));
    let normal = Tile::of(normalized_id(tile@));
    let num_red = v.bingpai[decorated_id(tile@) as int];
    let num_normal = v.bingpai[normalized_id(tile@) as int];
    if !(v.zimopai is Waiting) {
        None
    } else if v.is_lizhi {
        Some(Seq::empty())
    } else if is_five_id(tile@) {
        Some(
            (if num_red >= 2 {
                seq![MingKezi::of(tile, [red, red], discarder)]
            } else {
                Seq::empty()
            }) + (if num_red >= 1 && num_normal >= 1 {
                seq![MingKezi::of(tile, [red, normal], discarder)]
            } else {
                Seq::empty()
            }) + (if num_normal >= 2 {
                seq![MingKezi::of(tile, [normal, normal], discarder)]
            } else {
                Seq::empty()
            }),
        )
    } else if v.bingpai[tile@ as int] >= 2 {
        Some(seq![MingKezi::of(tile, [tile, tile], discarder)])
    } else {
        Some(Seq::empty())
    }
}

/// The view of an optional list of triplets.
pub open spec fn peng_view(list: Option<ArrayVec<MingKezi, 2>>) -> Option<Seq<MingKezi>> {
    match list {
        Some(l) => Some(peng_items(l)),
        None => None,
    }
}

/// The quad that can be claimed with the discard `tile`: none while a tile
/// is held or after riichi; else the one with the three tiles of its kind
/// that the hand holds, if it holds exactly three.
pub open spec fn daminggang_candidates(v: ShoupaiView, tile: Tile, discarder: Tajia) -> Option<
    Seq<DamingGangzi>,
> {
    let red = Tile::of(decorated_id(tile@));
    let normal = Tile::of(normalized_id(tile@));
    let num_red = v.bingpai[decorated_id(tile@) as int];
    let num_normal = v.bingpai[normalized_id(tile@) as int];
    if !(v.zimopai is Waiting) {
        None
    } else if v.is_lizhi {
        Some(Seq::empty())
    } else if is_five_id(tile@) {
        if num_red == 3 {
            Some(seq![DamingGangzi::of(tile, [red, red, red], discarder)])
        } else if num_red == 2 && num_normal == 1 {
            Some(seq![DamingGangzi::of(tile, [red, red, normal], discarder)])
        } else if num_red == 1 && num_normal == 2 {
            Some(seq![DamingGangzi::of(tile, [red, normal, normal], discarder)])
        } else if num_normal == 3 {
            Some(seq![DamingGangzi::of(tile, [normal, normal, normal], discarder)])
        } else {
            Some(Seq::empty())
        }
    } else if v.bingpai[tile@ as int] == 3 {
        Some(seq![DamingGangzi::of(tile, [tile, tile, tile], discarder)])
    } else {
        Some(Seq::empty())
    }
}

/// The view of an optional list of claimed quads.
pub open spec fn daminggang_view(list: Option<ArrayVec<DamingGangzi, 1>>) -> Option<
    Seq<DamingGangzi>,
> {
    match list {
        Some(l) => Some(daminggang_items(l)),
        None => None,
    }
}

/// Whether a concealed quad of the kind with id `i` can be declared: the
/// hand holds 4 plain tiles of it and, after riichi, it is the kind of the
/// drawn tile.
pub open spec fn can_angang(v: ShoupaiView, i: int) -> bool {
    &&& v.bingpai[i] == 4
    &&& v.is_lizhi ==> (v.zimopai matches Zimopai::Drawn(t) && normalized_id(t@) == i)
}

/// The concealed quads of kinds with ids below `upto` that can be declared,
/// in ascending order.
pub open spec fn angang_upto(v: ShoupaiView, upto: int) -> Seq<AnGangJiaGangMianzi>
    decreases upto,
{
    if upto <= 0 {
        Seq::empty()
    } else if can_angang(v, upto - 1) {
        let t = Tile::of((upto - 1) as u8);
        angang_upto(v, upto - 1).push(AnGangJiaGangMianzi::AnGangzi(AnGangzi::of([t, t, t, t])))
    } else {
        angang_upto(v, upto - 1)
    }
}

/// The quads that can be declared after a draw: none without a draw.
pub open spec fn angang_jiagang_candidates(v: ShoupaiView) -> Option<Seq<AnGangJiaGangMianzi>> {
    if v.zimopai is Drawn || v.zimopai is Unknown {
        Some(angang_upto(v, NUM_TILE_INDEX_WITHOUT_HONGBAOPAI as int))
    } else {
        None
    }
}

/// The view of an optional list of declared quads.
pub open spec fn angang_view(list: Option<ArrayVec<AnGangJiaGangMianzi, 3>>) -> Option<
    Seq<AnGangJiaGangMianzi>,
> {
    match list {
        Some(l) => Some(angang_items(l)),
        None => None,
    }
}

/// How many tiles of the kind with id `i` are held, a red five being a five.
pub open spec fn kind_held(v: ShoupaiView, i: int) -> int {
    v.bingpai[i] + if i == 4 {
        v.bingpai[34] as int
    } else if i == 13 {
        v.bingpai[35] as int
    } else if i == 22 {
        v.bingpai[36] as int
    } else {
        0int
    }
}

/// Whether, after a run is claimed with a tile of the kind `index`, a tile
/// is left to discard that is neither of that kind nor of the kind `jin` at
/// the other end of the run.
pub open spec fn can_chi(v: ShoupaiView, index: int, jin: Option<int>) -> bool {
    kind_held(v, index) + (match jin {
        Some(j) => kind_held(v, j),
        None => 0,
    }) < total_tiles(v.bingpai) - 2
}

/// One way, of 9, to claim a run with the discard `tile`, if the hand
/// allows it. With `index` the kind of the discard and `rank` its rank from
/// 0 to 8, the ways are, in this order: a 7 with a red 5 and a 6; a 6 with a
/// 4 and a red 5; any tile as the highest; a 6 with a red 5 and a 7; a 4 with
/// a 3 and a red 5; any tile as the middle; a 4 with a red 5 and a 6; a 3
/// with a 4 and a red 5; any tile as the lowest. A way with a red 5 is taken
/// if the red 5 is held and swapping is not checked for, or if a tile is
/// left to discard afterwards; a way without if swapping is not checked for
/// or a tile is left to discard afterwards.
pub open spec fn chi_way(v: ShoupaiView, tile: Tile, check_shiti: bool, way: int) -> Option<
    MingShunzi,
> {
    let index = normalized_id(tile@) as int;
    let rank = index % 9;
    let b = v.bingpai;
    let prev = Tile::of(prev_id(tile@));
    let next = Tile::of(next_id(tile@));
    let prev2 = Tile::of((index - 2) as u8);
    let next2 = Tile::of((index + 2) as u8);
    let red_prev = Tile::of(decorated_id((index - 1) as u8));
    let red_prev2 = Tile::of(decorated_id((index - 2) as u8));
    let red_next = Tile::of(decorated_id((index + 1) as u8));
    let red_next2 = Tile::of(decorated_id((index + 2) as u8));
    if way == 0 {
        if rank == 6 && b[index - 1] > 0 && ((b[red_prev2@ as int] > 0 && !check_shiti) || can_chi(
            v,
            index,
            Some(index - 3),
        )) {
            Some(MingShunzi::of(tile, [red_prev2, prev]))
        } else {
            None
        }
    } else if way == 1 {
        if rank == 5 && b[index - 2] > 0 && ((b[red_prev@ as int] > 0 && !check_shiti) || can_chi(
            v,
            index,
            Some(index - 3),
        )) {
            Some(MingShunzi::of(tile, [prev2, red_prev]))
        } else {
            None
        }
    } else if way == 2 {
        if rank >= 2 && b[index - 2] > 0 && b[index - 1] > 0 && (!check_shiti || can_chi(
            v,
            index,
            if rank == 2 {
                None
            } else {
                Some(index - 3)
            },
        )) {
            Some(MingShunzi::of(tile, [prev2, prev]))
        } else {
            None
        }
    } else if way == 3 {
        if rank == 5 && b[index + 1] > 0 && ((b[red_prev@ as int] > 0 && !check_shiti) || can_chi(
            v,
            index,
            None,
        )) {
            Some(MingShunzi::of(tile, [red_prev, next]))
        } else {
            None
        }
    } else if way == 4 {
        if rank == 3 && b[index - 1] > 0 && ((b[red_next@ as int] > 0 && !check_shiti) || can_chi(
            v,
            index,
            None,
        )) {
            Some(MingShunzi::of(tile, [prev, red_next]))
        } else {
            None
        }
    } else if way == 5 {
        if 1 <= rank <= 7 && b[index - 1] > 0 && b[index + 1] > 0 && (!check_shiti || can_chi(
            v,
            index,
            None,
        )) {
            Some(MingShunzi::of(tile, [prev, next]))
        } else {
            None
        }
    } else if way == 6 {
        if rank == 3 && b[index + 2] > 0 && ((b[red_next@ as int] > 0 && !check_shiti) || can_chi(
            v,
            index,
            Some(index + 3),
        )) {
            Some(MingShunzi::of(tile, [red_next, next2]))
        } else {
            None
        }
    } else if way == 7 {
        if rank == 2 && b[index + 1] > 0 && ((b[red_next2@ as int] > 0 && !check_shiti) || can_chi(
            v,
            index,
            Some(index + 3),
        )) {
            Some(MingShunzi::of(tile, [next, red_next2]))
        } else {
            None
        }
    } else {
        if rank <= 6 && b[index + 1] > 0 && b[index + 2] > 0 && (!check_shiti || can_chi(
            v,
            index,
            if rank == 6 {
                None
            } else {
                Some(index + 3)
            },
        )) {
            Some(MingShunzi::of(tile, [next, next2]))
        } else {
            None
        }
    }
}

/// The runs of the first `ways` ways that the hand allows, in order.
pub open spec fn chi_ways(v: ShoupaiView, tile: Tile, check_shiti: bool, ways: int) -> Seq<
    MingShunzi,
>
    decreases ways,
{
    if ways <= 0 {
        Seq::empty()
    } else {
        match chi_way(v, tile, check_shiti, ways - 1) {
            Some(m) => chi_ways(v, tile, check_shiti, ways - 1).push(m),
            None => chi_ways(v, tile, check_shiti, ways - 1),
        }
    }
}

/// The runs that can be claimed with the discard `tile`: none while a tile
/// is held; none with an honor or after riichi.
pub open spec fn chi_candidates(v: ShoupaiView, tile: Tile, check_shiti: bool) -> Option<
    Seq<MingShunzi>,
> {
    if !(v.zimopai is Waiting) {
        None
    } else if is_zipai_id(tile@) || v.is_lizhi {
        Some(Seq::empty())
    } else {
        Some(chi_ways(v, tile, check_shiti, 9))
    }
}

/// The view of an optional list of runs.
pub open spec fn chi_view(list: Option<ArrayVec<MingShunzi, 5>>) -> Option<Seq<MingShunzi>> {
    match list {
        Some(l) => Some(chi_items(l)),
        None => None,
    }
}

proof fn lemma_standing_len(v: ShoupaiView, deny: Seq<usize>, upto: int)
    requires
        0 <= upto,
    ensures
        standing(v, deny, upto).len() <= upto,
        forall|k: int| 0 <= k <= upto ==> standing(v, deny, k).len() <= #[trigger] standing(
            v,
            deny,
            upto,
        ).len(),
    decreases upto,
{
    if upto > 0 {
        lemma_standing_len(v, deny, upto - 1);
    }
}

proof fn lemma_angang_len(v: ShoupaiView, upto: int, whole: int)
    requires
        0 <= upto <= whole,
    ensures
        angang_upto(v, upto).len() <= angang_upto(v, whole).len(),
    decreases whole - upto,
{
    if upto < whole {
        lemma_angang_len(v, upto + 1, whole);
    }
}

fn is_five(tile: &Tile) -> (r: bool)
    ensures
        r == is_five_id(tile@),
{
    let id: u8 = tile.as_u8();
    id == 4 || id == 13 || id == 22 || id >= 34
}

fn is_denied(deny: &ArrayVec<usize, 3>, i: usize) -> (r: bool)
    ensures
        r == deny_items(*deny).contains(i),
{
    let items = deny_list_as_slice(deny);
    let mut k: usize = 0;
    while k < items.len()
        invariant
            0 <= k <= items@.len(),
            items@ == deny_items(*deny),
            forall|j: int| 0 <= j < k ==> items@[j] != i,
        decreases items@.len() - k,
    {
        if items[k] == i {
            proof {
                assert(items@[k as int] == i);
            }
            return true;
        }
        k = k + 1;
    }
    false
}

fn deny_tile(deny: &mut ArrayVec<usize, 3>, tile: &Tile, red_too: bool)
    requires
        deny_items(*old(deny)).len() + deny_for(tile@, red_too).len() <= 3,
    ensures
        deny_items(*final(deny)) == deny_items(*old(deny)) + deny_for(tile@, red_too),
{
    let id: u8 = tile.as_u8();
    let ghost before = deny_items(*deny);
    if id == 4 || id == 13 || id == 22 || (red_too && id >= 34) {
        deny_list_push(deny, tile.decorate_hongbaopai().to_usize());
        deny_list_push(deny, tile.normalize_hongbaopai().to_usize());
        proof {
            assert(deny_items(*deny) =~= before + deny_for(tile@, red_too));
        }
    } else {
        deny_list_push(deny, tile.to_usize());
        proof {
            assert(deny_items(*deny) =~= before + deny_for(tile@, red_too));
        }
    }
}

impl Shoupai {
    /// The number of known tiles held.
    pub fn num_bingpai(&self) -> (n: u8)
        requires
            counts_ok(self@),
        ensures
            n == total_tiles(self@.bingpai),
    {
        let mut n: u8 = 0;
        let mut i: usize = 0;
        while i < NUM_TILE_INDEX
            invariant
                0 <= i <= NUM_TILE_INDEX,
                counts_ok(self@),
                n == total_tiles(self@.bingpai.take(i as int)),
                n <= 4 * i,
            decreases NUM_TILE_INDEX - i,
        {
            proof {
                assert(self@.bingpai.take(i as int + 1).drop_last() =~= self@.bingpai.take(
                    i as int,
                ));
                assert(self@.bingpai[i as int] <= NUM_SAME_TILE);
            }
            n = n + self.count_of(i);
            i = i + 1;
        }
        proof {
            assert(self@.bingpai.take(NUM_TILE_INDEX as int) =~= self@.bingpai);
        }
        n
    }

    /// Lists the tiles that can be discarded. With `check_shiti`, a tile
    /// claimed just before, and the tile at the other end of a claimed run,
    /// cannot.
    #[must_use]
    pub fn get_dapai_candidates(&self, check_shiti: bool) -> (r: Option<ArrayVec<Tile, 14>>)
        requires
            counts_ok(self@),
            self@.is_lizhi ==> self@.zimopai is Drawn || self@.zimopai is Waiting,
            dapai_candidates(self@, check_shiti) matches Some(tiles) ==> tiles.len()
                <= MAX_NUM_DAPAI_CANDIDATES,
        ensures
            dapai_view(r) == dapai_candidates(self@, check_shiti),
    {
        let zimopai: Zimopai = *self.zimopai();
        match zimopai {
            Zimopai::Waiting => {
                return None;
            },
            _ => {},
        }
        let mut candidates = dapai_list_new();
        if self.is_lizhi() {
            match zimopai {
                Zimopai::Drawn(t) => {
                    dapai_list_push(&mut candidates, t);
                    proof {
                        assert(dapai_items(candidates) =~= seq![t]);
                    }
                    return Some(candidates);
                },
                _ => {
                    return Some(candidates);
                },
            }
        }
        // The claimed tile and the tile at the other end of a run, red fives with them.

        let mut deny = deny_list_new();
        if check_shiti {
            match zimopai {
                Zimopai::AfterChi(s) => {
                    let t: Tile = *s.claimed_tile();
                    let jin: Option<Tile> = *s.shiti_jin();
                    deny_tile(&mut deny, &t, true);
                    match jin {
                        Some(j) => {
                            deny_tile(&mut deny, &j, false);
                        },
                        None => {
                            proof {
                                assert(deny_items(deny) + Seq::<usize>::empty() =~= deny_items(
                                    deny,
                                ));
                            }
                        },
                    }
                },
                Zimopai::AfterPeng(k) => {
                    let t: Tile = *k.claimed_tile();
                    deny_tile(&mut deny, &t, true);
                },
                _ => {},
            }
        }
        let ghost denied = deny_list(self@.zimopai, check_shiti);
        proof {
            assert(deny_items(deny) =~= denied);
            lemma_standing_len(self@, denied, NUM_TILE_INDEX as int);
        }
        let zimopai_index: usize = match zimopai {
            Zimopai::Drawn(t) => t.to_usize(),
            _ => usize::MAX,
        };
        let mut i: usize = 0;
        while i < NUM_TILE_INDEX
            invariant
                0 <= i <= NUM_TILE_INDEX,
                zimopai == self@.zimopai,
                deny_items(deny) == denied,
                zimopai matches Zimopai::Drawn(t) ==> zimopai_index == t@,
                !(zimopai is Drawn) ==> zimopai_index == usize::MAX,
                dapai_items(candidates) == standing(self@, denied, i as int),
                standing(self@, denied, NUM_TILE_INDEX as int).len() + (if zimopai is Drawn {
                    1int
                } else {
                    0int
                }) <= MAX_NUM_DAPAI_CANDIDATES,
            decreases NUM_TILE_INDEX - i,
        {
            let count: u8 = self.count_of(i);
            proof {
                lemma_standing_len(self@, denied, NUM_TILE_INDEX as int);
                assert(standing(self@, denied, i as int + 1).len() <= standing(
                    self@,
                    denied,
                    NUM_TILE_INDEX as int,
                ).len());
            }
            if count == 0 {
            } else if is_denied(&deny, i) {
            } else if (i == zimopai_index) && (count == 1) {
                // A drawn tile that stands alone is listed last.
            } else {
                dapai_list_push(&mut candidates, Tile::new_unchecked(i as u8));
            }
            i = i + 1;
        }
        // The drawn tile comes last.
        match zimopai {
            Zimopai::Drawn(t) => {
                dapai_list_push(&mut candidates, t);
            },
            _ => {},
        }
        Some(candidates)
    }

    /// Lists the triplets that can be claimed with the discard `tile` of
    /// `discarder`.
    #[must_use]
    pub fn get_peng_candidates(&self, tile: &Tile, discarder: &Tajia) -> (r: Option<
        ArrayVec<MingKezi, 2>,
    >)
        requires
            peng_candidates(self@, *tile, *discarder) matches Some(list) ==> list.len()
                <= MAX_NUM_PENG_CANDIDATES,
        ensures
            peng_view(r) == peng_candidates(self@, *tile, *discarder),
    {
        match *self.zimopai() {
            Zimopai::Waiting => {},
            _ => {
                return None;
            },
        }
        let mut candidates = peng_list_new();
        if self.is_lizhi() {
            return Some(candidates);
        }
        if is_five(tile) {
            let red: Tile = tile.decorate_hongbaopai();
            let normal: Tile = tile.normalize_hongbaopai();
            proof {
                Tile::lemma_same_id(red, Tile::of(decorated_id(tile@)));
                Tile::lemma_same_id(normal, Tile::of(normalized_id(tile@)));
                Tile::lemma_of(decorated_id(tile@));
                Tile::lemma_of(normalized_id(tile@));
            }
            let num_red: u8 = self.count_of(red.to_usize());
            let num_normal: u8 = self.count_of(normal.to_usize());
            let ghost first: Seq<MingKezi> = if num_red >= 2 {
                seq![MingKezi::of(*tile, [red, red], *discarder)]
            } else {
                Seq::empty()
            };
            let ghost second: Seq<MingKezi> = if num_red >= 1 && num_normal >= 1 {
                seq![MingKezi::of(*tile, [red, normal], *discarder)]
            } else {
                Seq::empty()
            };
            let ghost third: Seq<MingKezi> = if num_normal >= 2 {
                seq![MingKezi::of(*tile, [normal, normal], *discarder)]
            } else {
                Seq::empty()
            };
            proof {
                assert(peng_candidates(self@, *tile, *discarder) == Some(first + second + third));
            }
            if num_red >= 2 {
                peng_list_push(&mut candidates, make_kezi(*tile, [red, red], *discarder));
            }
            proof {
                assert(peng_items(candidates) =~= first);
            }
            if (num_red >= 1) && (num_normal >= 1) {
                peng_list_push(&mut candidates, make_kezi(*tile, [red, normal], *discarder));
            }
            proof {
                assert(peng_items(candidates) =~= first + second);
            }
            if num_normal >= 2 {
                peng_list_push(&mut candidates, make_kezi(*tile, [normal, normal], *discarder));
            }
            proof {
                assert(peng_items(candidates) =~= first + second + third);
            }
        } else {
            if self.count_of(tile.to_usize()) >= 2 {
                peng_list_push(&mut candidates, make_kezi(*tile, [*tile, *tile], *discarder));
                proof {
                    assert(peng_items(candidates) =~= seq![MingKezi::of(
                        *tile,
                        [*tile, *tile],
                        *discarder,
                    )]);
                }
            }
        }
        Some(candidates)
    }

    /// Lists the quad that can be claimed with the discard `tile` of
    /// `discarder`, if there is one.
    #[must_use]
    pub fn get_daminggang_candidates(&self, tile: &Tile, discarder: &Tajia) -> (r: Option<
        ArrayVec<DamingGangzi, 1>,
    >)
        ensures
            daminggang_view(r) == daminggang_candidates(self@, *tile, *discarder),
    {
        match *self.zimopai() {
            Zimopai::Waiting => {},
            _ => {
                return None;
            },
        }
        let mut candidates = daminggang_list_new();
        if self.is_lizhi() {
            return Some(candidates);
        }
        if is_five(tile) {
            let red: Tile = tile.decorate_hongbaopai();
            let normal: Tile = tile.normalize_hongbaopai();
            proof {
                Tile::lemma_same_id(red, Tile::of(decorated_id(tile@)));
                Tile::lemma_same_id(normal, Tile::of(normalized_id(tile@)));
                Tile::lemma_of(decorated_id(tile@));
                Tile::lemma_of(normalized_id(tile@));
            }
            let num_red: u8 = self.count_of(red.to_usize());
            let num_normal: u8 = self.count_of(normal.to_usize());
            if num_red == 3 {
                daminggang_list_push(
                    &mut candidates,
                    make_gangzi(*tile, [red, red, red], *discarder),
                );
                proof {
                    assert(daminggang_items(candidates) =~= seq![DamingGangzi::of(
                        *tile,
                        [red, red, red],
                        *discarder,
                    )]);
                }
            } else if (num_red == 2) && (num_normal == 1) {
                daminggang_list_push(
                    &mut candidates,
                    make_gangzi(*tile, [red, red, normal], *discarder),
                );
                proof {
                    assert(daminggang_items(candidates) =~= seq![DamingGangzi::of(
                        *tile,
                        [red, red, normal],
                        *discarder,
                    )]);
                }
            } else if (num_red == 1) && (num_normal == 2) {
                daminggang_list_push(
                    &mut candidates,
                    make_gangzi(*tile, [red, normal, normal], *discarder),
                );
                proof {
                    assert(daminggang_items(candidates) =~= seq![DamingGangzi::of(
                        *tile,
                        [red, normal, normal],
                        *discarder,
                    )]);
                }
            } else if num_normal == 3 {
                daminggang_list_push(
                    &mut candidates,
                    make_gangzi(*tile, [normal, normal, normal], *discarder),
                );
                proof {
                    assert(daminggang_items(candidates) =~= seq![DamingGangzi::of(
                        *tile,
                        [normal, normal, normal],
                        *discarder,
                    )]);
                }
            }
        } else {
            if self.count_of(tile.to_usize()) == 3 {
                daminggang_list_push(
                    &mut candidates,
                    make_gangzi(*tile, [*tile, *tile, *tile], *discarder),
                );
                proof {
                    assert(daminggang_items(candidates) =~= seq![DamingGangzi::of(
                        *tile,
                        [*tile, *tile, *tile],
                        *discarder,
                    )]);
                }
            }
        }
        Some(candidates)
    }

    /// Lists the quads that can be declared after a draw: the concealed
    /// quads of the kinds of which 4 plain tiles are held; after riichi only
    /// that of the kind of the drawn tile.
    #[must_use]
    pub fn get_angang_jiagang_candidates(&self) -> (r: Option<ArrayVec<AnGangJiaGangMianzi, 3>>)
        requires
            angang_jiagang_candidates(self@) matches Some(list) ==> list.len()
                <= MAX_NUM_ANGANG_JIAGANG_CANDIDATES,
        ensures
            angang_view(r) == angang_jiagang_candidates(self@),
    {
        let zimopai: Option<Tile> = match *self.zimopai() {
            Zimopai::Drawn(t) => Some(t.normalize_hongbaopai()),
            Zimopai::Unknown => None,
            Zimopai::AfterChi(_) | Zimopai::AfterPeng(_) | Zimopai::Waiting => {
                return None;
            },
        };
        let drawn_index: usize = match zimopai {
            Some(t) => t.to_usize(),
            None => NUM_TILE_INDEX_WITHOUT_HONGBAOPAI,
        };
        let is_lizhi: bool = self.is_lizhi();
        let mut candidates = angang_list_new();
        let mut i: usize = 0;
        while i < NUM_TILE_INDEX_WITHOUT_HONGBAOPAI
            invariant
                0 <= i <= NUM_TILE_INDEX_WITHOUT_HONGBAOPAI,
                is_lizhi == self@.is_lizhi,
                self@.zimopai is Drawn || self@.zimopai is Unknown,
                self@.zimopai matches Zimopai::Drawn(t) ==> drawn_index == normalized_id(t@),
                self@.zimopai is Unknown ==> drawn_index == NUM_TILE_INDEX_WITHOUT_HONGBAOPAI,
                angang_items(candidates) == angang_upto(self@, i as int),
                angang_upto(self@, NUM_TILE_INDEX_WITHOUT_HONGBAOPAI as int).len()
                    <= MAX_NUM_ANGANG_JIAGANG_CANDIDATES,
            decreases NUM_TILE_INDEX_WITHOUT_HONGBAOPAI - i,
        {
            let c: u8 = self.count_of(i);
            proof {
                lemma_angang_len(self@, i as int + 1, NUM_TILE_INDEX_WITHOUT_HONGBAOPAI as int);
            }
            // A quad takes 4 tiles of the hand; after riichi it must hold the drawn tile.
            if c == 4 && !(is_lizhi && i != drawn_index) {
                let t = Tile::new_unchecked(i as u8);
                candidates_push_angang(&mut candidates, t);
            }
            i = i + 1;
        }
        Some(candidates)
    }
}

fn candidates_push_angang(candidates: &mut ArrayVec<AnGangJiaGangMianzi, 3>, t: Tile)
    requires
        angang_items(*old(candidates)).len() < MAX_NUM_ANGANG_JIAGANG_CANDIDATES,
    ensures
        angang_items(*final(candidates)) == angang_items(*old(candidates)).push(
            AnGangJiaGangMianzi::AnGangzi(AnGangzi::of([t, t, t, t])),
        ),
{
    let dazi: [Tile; 4] = [t, t, t, t];
    let made = AnGangzi::new(dazi);
    proof {
        assert forall|i: int| 0 <= i < dazi@.len() implies normalized_id((#[trigger] dazi@[i])@)
            == normalized_id(dazi@[0]@) by {}
    }
    angang_list_push(candidates, AnGangJiaGangMianzi::AnGangzi(made.unwrap()));
}

/// The claimed triplet of tiles that are known to be of one kind.
fn make_kezi(claimed_tile: Tile, dazi: [Tile; 2], discarder: Tajia) -> (kezi: MingKezi)
    requires
        normalized_id(dazi@[0]@) == normalized_id(claimed_tile@),
        normalized_id(dazi@[1]@) == normalized_id(claimed_tile@),
    ensures
        kezi == MingKezi::of(claimed_tile, dazi, discarder),
{
    let made = MingKezi::new(claimed_tile, dazi, discarder);
    proof {
        assert forall|i: int| 0 <= i < dazi@.len() implies normalized_id((#[trigger] dazi@[i])@)
            == normalized_id(claimed_tile@) by {}
    }
    made.unwrap()
}

/// The claimed quad of tiles that are known to be of one kind.
fn make_gangzi(claimed_tile: Tile, dazi: [Tile; 3], discarder: Tajia) -> (gangzi: DamingGangzi)
    requires
        normalized_id(dazi@[0]@) == normalized_id(claimed_tile@),
        normalized_id(dazi@[1]@) == normalized_id(claimed_tile@),
        normalized_id(dazi@[2]@) == normalized_id(claimed_tile@),
    ensures
        gangzi == DamingGangzi::of(claimed_tile, dazi, discarder),
{
    let made = DamingGangzi::new(claimed_tile, dazi, discarder);
    proof {
        assert forall|i: int| 0 <= i < dazi@.len() implies normalized_id((#[trigger] dazi@[i])@)
            == normalized_id(claimed_tile@) by {}
    }
    made.unwrap()
}

/// The claimed run of tiles that are known to form one.
fn make_shunzi(claimed_tile: Tile, dazi: [Tile; 2]) -> (shunzi: MingShunzi)
    requires
        shunzi_error(
            normalized_id(claimed_tile@),
            normalized_id(dazi@[0]@),
            normalized_id(dazi@[1]@),
        ) is None,
    ensures
        shunzi == MingShunzi::of(claimed_tile, dazi),
{
    MingShunzi::new(claimed_tile, dazi).unwrap()
}

/// Adds to the runs the run of way `way`, which the hand allows.
fn push_chi(
    candidates: &mut ArrayVec<MingShunzi, 5>,
    tile: &Tile,
    tile_0: Tile,
    tile_1: Tile,
    Ghost(v): Ghost<ShoupaiView>,
    Ghost(check_shiti): Ghost<bool>,
    Ghost(way): Ghost<int>,
)
    requires
        0 <= way < 9,
        chi_items(*old(candidates)) == chi_ways(v, *tile, check_shiti, way),
        chi_ways(v, *tile, check_shiti, way + 1).len() <= MAX_NUM_CHI_CANDIDATES,
        chi_way(v, *tile, check_shiti, way) == Some(MingShunzi::of(*tile, [tile_0, tile_1])),
        shunzi_error(normalized_id(tile@), normalized_id(tile_0@), normalized_id(tile_1@)) is None,
    ensures
        chi_items(*final(candidates)) == chi_ways(v, *tile, check_shiti, way + 1),
{
    let dazi: [Tile; 2] = [tile_0, tile_1];
    chi_list_push(candidates, make_shunzi(*tile, dazi));
}

proof fn lemma_chi_ways_len(v: ShoupaiView, tile: Tile, check_shiti: bool)
    ensures
        forall|way: int|
            0 <= way <= 9 ==> (#[trigger] chi_ways(v, tile, check_shiti, way)).len()
                <= MAX_NUM_CHI_CANDIDATES,
{
    reveal_with_fuel(chi_ways, 10);
    assert(chi_ways(v, tile, check_shiti, 0).len() == 0);
    assert(chi_ways(v, tile, check_shiti, 1).len() <= 1);
    assert(chi_ways(v, tile, check_shiti, 2).len() <= 1);
    assert(chi_ways(v, tile, check_shiti, 3).len() <= 2);
    assert(chi_ways(v, tile, check_shiti, 4).len() <= 3);
    assert(chi_ways(v, tile, check_shiti, 5).len() <= 3);
    assert(chi_ways(v, tile, check_shiti, 6).len() <= 4);
    assert(chi_ways(v, tile, check_shiti, 7).len() <= 4);
    assert(chi_ways(v, tile, check_shiti, 8).len() <= 4);
    assert(chi_ways(v, tile, check_shiti, 9).len() <= 5);
}

impl Shoupai {
    /// How many tiles of the kind with id `index` are held, a red five being a five.
    fn kind_count(&self, index: usize) -> (n: u8)
        requires
            counts_ok(self@),
            index < NUM_TILE_INDEX,
        ensures
            n == kind_held(self@, index as int),
            n <= 8,
    {
        proof {
            assert(self@.bingpai[index as int] <= NUM_SAME_TILE);
            assert(self@.bingpai[34] <= NUM_SAME_TILE);
            assert(self@.bingpai[35] <= NUM_SAME_TILE);
            assert(self@.bingpai[36] <= NUM_SAME_TILE);
        }
        let mut count: u8 = self.count_of(index);
        if index == 4 {
            count = count + self.count_of(34);
        }
        if index == 13 {
            count = count + self.count_of(35);
        }
        if index == 22 {
            count = count + self.count_of(36);
        }
        count
    }

    /// Whether a tile is left to discard after a claim of a run.
    fn can_chi(&self, index: usize, jin: Option<usize>, num_bingpai: u8) -> (r: bool)
        requires
            counts_ok(self@),
            index < NUM_TILE_INDEX,
            jin matches Some(j) ==> j < NUM_TILE_INDEX,
            num_bingpai == total_tiles(self@.bingpai),
            num_bingpai >= 2,
        ensures
            r == can_chi(
                self@,
                index as int,
                match jin {
                    Some(j) => Some(j as int),
                    None => None,
                },
            ),
    {
        let mut count: u8 = self.kind_count(index);
        match jin {
            Some(j) => {
                count = count + self.kind_count(j);
            },
            None => {},
        }
        count < (num_bingpai - 2)
    }

    /// Lists the runs that can be claimed with the discard `tile`. With
    /// `check_shiti`, a run is listed only if a tile is left to discard that
    /// is neither the claimed tile nor the tile at the other end of the run.
    #[must_use]
    pub fn get_chi_candidates(&self, tile: &Tile, check_shiti: bool) -> (r: Option<
        ArrayVec<MingShunzi, 5>,
    >)
        requires
            counts_ok(self@),
            self@.zimopai is Waiting && !is_zipai_id(tile@) && !self@.is_lizhi ==> total_tiles(
                self@.bingpai,
            ) >= 2,
        ensures
            chi_view(r) == chi_candidates(self@, *tile, check_shiti),
    {
        match *self.zimopai() {
            Zimopai::Waiting => {},
            _ => {
                return None;
            },
        }
        let mut candidates = chi_list_new();
        if tile.is_zipai() {
            return Some(candidates);
        }
        if self.is_lizhi() {
            return Some(candidates);
        }
        let index: usize = tile.normalize_hongbaopai().to_usize();
        let rank: u8 = (index as u8) % 9;
        let num_bingpai: u8 = self.num_bingpai();
        let ghost v = self@;
        let ghost t = *tile;
        let ghost s = check_shiti;
        proof {
            lemma_chi_ways_len(v, t, s);
            reveal_with_fuel(chi_ways, 2);
            assert(index <= 26);
            Tile::lemma_of(prev_id(tile@));
            Tile::lemma_of(next_id(tile@));
            if index >= 2 {
                Tile::lemma_of((index - 2) as u8);
                Tile::lemma_of(decorated_id((index - 2) as u8));
            }
            if index >= 1 {
                Tile::lemma_of(decorated_id((index - 1) as u8));
            }
            Tile::lemma_of((index + 2) as u8);
            Tile::lemma_of(decorated_id((index + 1) as u8));
            Tile::lemma_of(decorated_id((index + 2) as u8));
            assert(chi_ways(v, t, s, 1).len() <= MAX_NUM_CHI_CANDIDATES);
            assert(chi_ways(v, t, s, 2).len() <= MAX_NUM_CHI_CANDIDATES);
            assert(chi_ways(v, t, s, 3).len() <= MAX_NUM_CHI_CANDIDATES);
            assert(chi_ways(v, t, s, 4).len() <= MAX_NUM_CHI_CANDIDATES);
            assert(chi_ways(v, t, s, 5).len() <= MAX_NUM_CHI_CANDIDATES);
            assert(chi_ways(v, t, s, 6).len() <= MAX_NUM_CHI_CANDIDATES);
            assert(chi_ways(v, t, s, 7).len() <= MAX_NUM_CHI_CANDIDATES);
            assert(chi_ways(v, t, s, 8).len() <= MAX_NUM_CHI_CANDIDATES);
            assert(chi_ways(v, t, s, 9).len() <= MAX_NUM_CHI_CANDIDATES);
        }

        proof {
            assert(chi_items(candidates) == chi_ways(v, t, s, 0));
        }
        // A 7 with a red 5 and a 6.
        if rank == 6 && self.count_of(index - 1) > 0 {
            let tile_1 = tile.prev();
            let tile_0 = tile_1.prev().decorate_hongbaopai();
            if self.count_of(tile_0.to_usize()) > 0 && !check_shiti || self.can_chi(
                index,
                Some(index - 3),
                num_bingpai,
            ) {
                proof {
                    Tile::lemma_same_id(tile_1, Tile::of(prev_id(tile@)));
                    Tile::lemma_same_id(tile_0, Tile::of(decorated_id((index - 2) as u8)));
                    Tile::lemma_of(decorated_id((index - 2) as u8));
                }
                push_chi(&mut candidates, tile, tile_0, tile_1, Ghost(v), Ghost(s), Ghost(0));
            }
        }
        proof {
            assert(chi_items(candidates) == chi_ways(v, t, s, 1));
        }
        // A 6 with a 4 and a red 5.
        if rank == 5 && self.count_of(index - 2) > 0 {
            let tile_1 = tile.prev().decorate_hongbaopai();
            if self.count_of(tile_1.to_usize()) > 0 && !check_shiti || self.can_chi(
                index,
                Some(index - 3),
                num_bingpai,
            ) {
                let tile_0 = tile_1.prev();
                proof {
                    Tile::lemma_same_id(tile_1, Tile::of(decorated_id((index - 1) as u8)));
                    Tile::lemma_same_id(tile_0, Tile::of((index - 2) as u8));
                    Tile::lemma_of(decorated_id((index - 1) as u8));
                    Tile::lemma_of((index - 2) as u8);
                }
                push_chi(&mut candidates, tile, tile_0, tile_1, Ghost(v), Ghost(s), Ghost(1));
            }
        }
        proof {
            assert(chi_items(candidates) == chi_ways(v, t, s, 2));
        }
        // The claimed tile as the highest.
        if rank >= 2 && self.count_of(index - 2) > 0 && self.count_of(index - 1) > 0 {
            if !check_shiti || self.can_chi(
                index,
                if rank == 2 {
                    None
                } else {
                    Some(index - 3)
                },
                num_bingpai,
            ) {
                let tile_1 = tile.prev();
                let tile_0 = tile_1.prev();
                proof {
                    Tile::lemma_same_id(tile_1, Tile::of(prev_id(tile@)));
                    Tile::lemma_same_id(tile_0, Tile::of((index - 2) as u8));
                    Tile::lemma_of((index - 2) as u8);
                }
                push_chi(&mut candidates, tile, tile_0, tile_1, Ghost(v), Ghost(s), Ghost(2));
            }
        }
        proof {
            assert(chi_items(candidates) == chi_ways(v, t, s, 3));
        }
        // A 6 with a red 5 and a 7.
        if rank == 5 && self.count_of(index + 1) > 0 {
            let tile_0 = tile.prev().decorate_hongbaopai();
            if self.count_of(tile_0.to_usize()) > 0 && !check_shiti || self.can_chi(
                index,
                None,
                num_bingpai,
            ) {
                let tile_1 = tile.next();
                proof {
                    Tile::lemma_same_id(tile_0, Tile::of(decorated_id((index - 1) as u8)));
                    Tile::lemma_same_id(tile_1, Tile::of(next_id(tile@)));
                    Tile::lemma_of(decorated_id((index - 1) as u8));
                }
                push_chi(&mut candidates, tile, tile_0, tile_1, Ghost(v), Ghost(s), Ghost(3));
            }
        }
        proof {
            assert(chi_items(candidates) == chi_ways(v, t, s, 4));
        }
        // A 4 with a 3 and a red 5.
        if rank == 3 && self.count_of(index - 1) > 0 {
            let tile_1 = tile.next().decorate_hongbaopai();
            if self.count_of(tile_1.to_usize()) > 0 && !check_shiti || self.can_chi(
                index,
                None,
                num_bingpai,
            ) {
                let tile_0 = tile.prev();
                proof {
                    Tile::lemma_same_id(tile_1, Tile::of(decorated_id((index + 1) as u8)));
                    Tile::lemma_same_id(tile_0, Tile::of(prev_id(tile@)));
                    Tile::lemma_of(decorated_id((index + 1) as u8));
                }
                push_chi(&mut candidates, tile, tile_0, tile_1, Ghost(v), Ghost(s), Ghost(4));
            }
        }
        proof {
            assert(chi_items(candidates) == chi_ways(v, t, s, 5));
        }
        // The claimed tile as the middle.
        if rank >= 1 && rank <= 7 && self.count_of(index - 1) > 0 && self.count_of(index + 1) > 0 {
            if !check_shiti || self.can_chi(index, None, num_bingpai) {
                let tile_0 = tile.prev();
                let tile_1 = tile.next();
                proof {
                    Tile::lemma_same_id(tile_0, Tile::of(prev_id(tile@)));
                    Tile::lemma_same_id(tile_1, Tile::of(next_id(tile@)));
                }
                push_chi(&mut candidates, tile, tile_0, tile_1, Ghost(v), Ghost(s), Ghost(5));
            }
        }
        proof {
            assert(chi_items(candidates) == chi_ways(v, t, s, 6));
        }
        // A 4 with a red 5 and a 6.
        if rank == 3 && self.count_of(index + 2) > 0 {
            let tile_0 = tile.next().decorate_hongbaopai();
            if self.count_of(tile_0.to_usize()) > 0 && !check_shiti || self.can_chi(
                index,
                Some(index + 3),
                num_bingpai,
            ) {
                let tile_1 = tile_0.next();
                proof {
                    Tile::lemma_same_id(tile_0, Tile::of(decorated_id((index + 1) as u8)));
                    Tile::lemma_same_id(tile_1, Tile::of((index + 2) as u8));
                    Tile::lemma_of(decorated_id((index + 1) as u8));
                    Tile::lemma_of((index + 2) as u8);
                }
                push_chi(&mut candidates, tile, tile_0, tile_1, Ghost(v), Ghost(s), Ghost(6));
            }
        }
        proof {
            assert(chi_items(candidates) == chi_ways(v, t, s, 7));
        }
        // A 3 with a 4 and a red 5.
        if rank == 2 && self.count_of(index + 1) > 0 {
            let tile_0 = tile.next();
            let tile_1 = tile_0.next().decorate_hongbaopai();
            if self.count_of(tile_1.to_usize()) > 0 && !check_shiti || self.can_chi(
                index,
                Some(index + 3),
                num_bingpai,
            ) {
                proof {
                    Tile::lemma_same_id(tile_0, Tile::of(next_id(tile@)));
                    Tile::lemma_same_id(tile_1, Tile::of(decorated_id((index + 2) as u8)));
                    Tile::lemma_of(decorated_id((index + 2) as u8));
                }
                push_chi(&mut candidates, tile, tile_0, tile_1, Ghost(v), Ghost(s), Ghost(7));
            }
        }
        proof {
            assert(chi_items(candidates) == chi_ways(v, t, s, 8));
        }
        // The claimed tile as the lowest.
        if rank <= 6 && self.count_of(index + 1) > 0 && self.count_of(index + 2) > 0 {
            if !check_shiti || self.can_chi(
                index,
                if rank == 6 {
                    None
                } else {
                    Some(index + 3)
                },
                num_bingpai,
            ) {
                let tile_0 = tile.next();
                let tile_1 = tile_0.next();
                proof {
                    Tile::lemma_same_id(tile_0, Tile::of(next_id(tile@)));
                    Tile::lemma_same_id(tile_1, Tile::of((index + 2) as u8));
                    Tile::lemma_of((index + 2) as u8);
                }
                push_chi(&mut candidates, tile, tile_0, tile_1, Ghost(v), Ghost(s), Ghost(8));
            }
        }
        proof {
            assert(chi_items(candidates) == chi_ways(v, t, s, 9));
        }
        Some(candidates)
    }
}

} // verus!
