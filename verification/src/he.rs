use crate::fulu::tajia::Tajia;
use crate::tile::{normalized_id, Tile};
use arrayvec::ArrayVec;
use hashbrown::HashSet;
use vstd::prelude::*;

verus! {

/// Most discards of one player in a hand.
pub const MAX_NUM_HE: usize = 27;

/// A discarded tile.
#[derive(Debug, Clone, Copy)]
pub struct Fushipai {
    /// The tile.
    pub tile: Tile,
    /// Whether it was the tile just drawn.
    pub is_moqie: bool,
    /// Whether riichi was declared with it.
    pub is_lizhi_declaration: bool,
    /// Who claimed it, if anyone.
    pub claimer: Option<Tajia>,
}

#[verifier::external_type_specification]
#[verifier::external_body]
#[verifier::reject_recursive_types(T)]
pub struct ExArrayVec<T, const CAP: usize>(ArrayVec<T, CAP>);

/// The ids of the kinds that a player has discarded, kept in a `HashSet` of
/// hashbrown.
#[verifier::external_body]
pub struct TileIdSet {
    ids: HashSet<u8>,
}

/// The discards that the list holds, in order.
pub uninterp spec fn fushipai_items(list: ArrayVec<Fushipai, 27>) -> Seq<Fushipai>;

/// The ids that the set holds.
pub uninterp spec fn tile_id_set_ids(set: TileIdSet) -> Set<u8>;

/// `ArrayVec::new` of arrayvec: an empty vector.
#[verifier::external_body]
fn fushipai_list_new() -> (list: ArrayVec<Fushipai, 27>)
    ensures
        fushipai_items(list) == Seq::<Fushipai>::empty(),
{
    ArrayVec::new()
}

/// `ArrayVec::push` of arrayvec: appends the discard at the end. It panics
/// when the vector is full, which the precondition excludes.
#[verifier::external_body]
fn fushipai_list_push(list: &mut ArrayVec<Fushipai, 27>, discard: Fushipai)
    requires
        fushipai_items(*old(list)).len() < MAX_NUM_HE,
    ensures
        fushipai_items(*final(list)) == fushipai_items(*old(list)).push(discard),
{
    list.push(discard);
}

/// `ArrayVec::as_slice` of arrayvec: the elements of the vector as a slice.
#[verifier::external_body]
fn fushipai_list_as_slice(list: &ArrayVec<Fushipai, 27>) -> (items: &[Fushipai])
    ensures
        items@ == fushipai_items(*list),
{
    list.as_slice()
}

/// `ArrayVec::pop` of arrayvec: takes the last element off the vector and
/// returns it, or returns `None` and leaves the vector empty as it is. A
/// vector never holds more elements than its capacity of 27.
#[verifier::external_body]
fn fushipai_list_pop(list: &mut ArrayVec<Fushipai, 27>) -> (last: Option<Fushipai>)
    ensures
        fushipai_items(*old(list)).len() <= MAX_NUM_HE,
        match last {
            Some(discard) => fushipai_items(*old(list)).len() > 0 && discard == fushipai_items(
                *old(list),
            ).last() && fushipai_items(*final(list)) == fushipai_items(*old(list)).drop_last(),
            None => fushipai_items(*old(list)).len() == 0 && fushipai_items(*final(list))
                == fushipai_items(*old(list)),
        },
{
    list.pop()
}

/// `HashSet::with_capacity` of hashbrown: an empty set.
#[verifier::external_body]
fn tile_id_set_with_capacity(capacity: usize) -> (set: TileIdSet)
    ensures
        tile_id_set_ids(set) == Set::<u8>::empty(),
{
    TileIdSet { ids: HashSet::with_capacity(capacity) }
}

/// `HashSet::insert` of hashbrown: afterwards the set holds the id besides
/// what it held.
#[verifier::external_body]
fn tile_id_set_insert(set: &mut TileIdSet, id: u8)
    ensures
        tile_id_set_ids(*final(set)) == tile_id_set_ids(*old(set)).insert(id),
{
    set.ids.insert(id);
}

/// `HashSet::contains` of hashbrown: whether the set holds the id.
#[verifier::external_body]
fn tile_id_set_contains(set: &TileIdSet, id: u8) -> (held: bool)
    ensures
        held == tile_id_set_ids(*set).contains(id),
{
    set.ids.contains(&id)
}

/// Why a discard could not be claimed.
#[derive(Debug, Clone, Copy, PartialEq, Eq, Structural)]
pub enum HeError {
    /// Nothing has been discarded.
    Empty,
    /// The last discard is another tile than the one claimed.
    TileMismatch,
}

/// The river: the discards of one player, in order.
pub struct He {
    tiles: ArrayVec<Fushipai, 27>,
    zhenting_tiles: TileIdSet,
}

/// The ids of the kinds of the discards, red fives taken as fives.
pub open spec fn discarded_kinds(discards: Seq<Fushipai>) -> Set<u8> {
    Set::new(
        |id: u8|
            exists|i: int|
                0 <= i < discards.len() && normalized_id((#[trigger] discards[i]).tile@) == id,
    )
}

impl He {
    /// The discards, in order.
    pub closed spec fn tiles_spec(&self) -> Seq<Fushipai> {
        fushipai_items(self.tiles)
    }

    /// Whether the river remembers exactly the kinds that were discarded.
    pub closed spec fn wf(&self) -> bool {
        tile_id_set_ids(self.zhenting_tiles) == discarded_kinds(fushipai_items(self.tiles))
    }

    /// An empty river.
    pub fn new() -> (he: Self)
        ensures
            he.wf(),
            he.tiles_spec() == Seq::<Fushipai>::empty(),
    {
        let he = Self {
            tiles: fushipai_list_new(),
            zhenting_tiles: tile_id_set_with_capacity(MAX_NUM_HE),
        };
        proof {
            assert(discarded_kinds(Seq::<Fushipai>::empty()) =~= Set::<u8>::empty());
        }
        he
    }

    /// The discards, in order.
    pub fn tiles(&self) -> (r: &[Fushipai])
        ensures
            r@ == self.tiles_spec(),
    {
        fushipai_list_as_slice(&self.tiles)
    }

    /// Adds a discard to the river.
    pub fn dapai(&mut self, tile: Tile, is_moqie: bool, is_lizhi_declaration: bool) -> (r: Result<
        (),
        HeError,
    >)
        requires
            old(self).wf(),
            old(self).tiles_spec().len() < MAX_NUM_HE,
        ensures
            r is Ok,
            final(self).wf(),
            final(self).tiles_spec() == old(self).tiles_spec().push(
                (Fushipai { tile, is_moqie, is_lizhi_declaration, claimer: None }),
            ),
    {
        let discard = Fushipai { tile, is_moqie, is_lizhi_declaration, claimer: None };
        let ghost before = fushipai_items(self.tiles);
        fushipai_list_push(&mut self.tiles, discard);

        let zhenting_tile = tile.normalize_hongbaopai();
        tile_id_set_insert(&mut self.zhenting_tiles, zhenting_tile.as_u8());
        proof {
            let after = before.push(discard);
            assert forall|id: u8|
                discarded_kinds(after).contains(id) <==> discarded_kinds(before).insert(
                    normalized_id(tile@),
                ).contains(id) by {
                if discarded_kinds(after).contains(id) {
                    let i = choose|i: int|
                        0 <= i < after.len() && normalized_id((#[trigger] after[i]).tile@) == id;
                    if i < before.len() {
                        assert(before[i] == after[i]);
                    }
                }
                if discarded_kinds(before).contains(id) {
                    let i = choose|i: int|
                        0 <= i < before.len() && normalized_id((#[trigger] before[i]).tile@) == id;
                    assert(after[i] == before[i]);
                }
                if id == normalized_id(tile@) {
                    assert(after[before.len() as int] == discard);
                }
            }
            assert(discarded_kinds(after) =~= discarded_kinds(before).insert(
                normalized_id(tile@),
            ));
        }
        Ok(())
    }

    /// Notes that the last discard, which must be `tile`, was claimed by `claimer`.
    pub fn fulu(&mut self, tile: Tile, claimer: Tajia) -> (r: Result<(), HeError>)
        requires
            old(self).wf(),
        ensures
            final(self).wf(),
            match r {
                Ok(_) => {
                    &&& old(self).tiles_spec().len() > 0
                    &&& old(self).tiles_spec().last().tile == tile
                    &&& final(self).tiles_spec() == old(self).tiles_spec().update(
                        old(self).tiles_spec().len() - 1,
                        (Fushipai { claimer: Some(claimer), ..old(self).tiles_spec().last() }),
                    )
                },
                Err(e) => {
                    &&& final(self).tiles_spec() == old(self).tiles_spec()
                    &&& e == if old(self).tiles_spec().len() == 0 {
                        HeError::Empty
                    } else {
                        HeError::TileMismatch
                    }
                    &&& old(self).tiles_spec().len() > 0 ==> old(self).tiles_spec().last().tile
                        != tile
                },
            },
    {
        let ghost before = fushipai_items(self.tiles);
        let last: Fushipai = match fushipai_list_pop(&mut self.tiles) {
            Some(last) => last,
            None => {
                return Err(HeError::Empty);
            },
        };
        if last.tile != tile {
            fushipai_list_push(&mut self.tiles, last);
            proof {
                assert(fushipai_items(self.tiles) =~= before);
            }
            return Err(HeError::TileMismatch);
        }
        fushipai_list_push(&mut self.tiles, Fushipai { claimer: Some(claimer), ..last });
        proof {
            let after = fushipai_items(self.tiles);
            assert(after =~= before.update(
                before.len() - 1,
                (Fushipai { claimer: Some(claimer), ..before.last() }),
            ));
            assert forall|id: u8|
                discarded_kinds(after).contains(id) <==> discarded_kinds(before).contains(id) by {
                if discarded_kinds(after).contains(id) {
                    let i = choose|i: int|
                        0 <= i < after.len() && normalized_id((#[trigger] after[i]).tile@) == id;
                    assert(before[i].tile == after[i].tile);
                }
                if discarded_kinds(before).contains(id) {
                    let i = choose|i: int|
                        0 <= i < before.len() && normalized_id((#[trigger] before[i]).tile@) == id;
                    assert(after[i].tile == before[i].tile);
                }
            }
            assert(discarded_kinds(after) =~= discarded_kinds(before));
        }
        Ok(())
    }

    /// Whether a tile of the kind of `tile` has been discarded, a red five
    /// being a five.
    pub fn find(&self, tile: &Tile) -> (found: bool)
        requires
            self.wf(),
        ensures
            found == exists|i: int|
                0 <= i < self.tiles_spec().len() && normalized_id(
                    (#[trigger] self.tiles_spec()[i]).tile@,
                ) == normalized_id(tile@),
    {
        tile_id_set_contains(&self.zhenting_tiles, tile.normalize_hongbaopai().as_u8())
    }
}

} // verus!
