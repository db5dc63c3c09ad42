use crate::tile::Tile;
use arraydeque::ArrayDeque;
use arrayvec::ArrayVec;
use vstd::prelude::*;

verus! {

/// Most tiles that a wall holds.
pub const TILE_DEQUE_CAPACITY: usize = 136;

/// Most dora indicators.
pub const INDICATOR_CAPACITY: usize = 5;

/// The tiles of a wall, which are taken from both ends, kept in an
/// `ArrayDeque` of arraydeque.
#[verifier::external_body]
pub struct TileDeque {
    tiles: ArrayDeque<Tile, 136>,
}

/// The tiles that the deque holds, from front to back.
pub uninterp spec fn tile_deque_items(deque: TileDeque) -> Seq<Tile>;

/// The tiles that the list holds, in order.
pub uninterp spec fn indicator_items(list: ArrayVec<Tile, 5>) -> Seq<Tile>;

/// `ArrayDeque::new` of arraydeque: an empty deque.
#[verifier::external_body]
pub(crate) fn tile_deque_new() -> (deque: TileDeque)
    ensures
        tile_deque_items(deque) == Seq::<Tile>::empty(),
{
    TileDeque { tiles: ArrayDeque::new() }
}

/// `ArrayDeque::extend_back` of arraydeque: appends the tiles at the back,
/// in order. It stops at the capacity of 136, which the precondition keeps
/// it from reaching.
#[verifier::external_body]
pub(crate) fn tile_deque_extend_back(deque: &mut TileDeque, tiles: &Vec<Tile>)
    requires
        tile_deque_items(*old(deque)).len() + tiles@.len() <= TILE_DEQUE_CAPACITY,
    ensures
        tile_deque_items(*final(deque)) == tile_deque_items(*old(deque)) + tiles@,
{
    deque.tiles.extend_back(tiles.iter().copied());
}

/// `ArrayDeque::len` of arraydeque: the number of tiles held, which never
/// exceeds the capacity of 136.
#[verifier::external_body]
pub(crate) fn tile_deque_len(deque: &TileDeque) -> (len: usize)
    ensures
        len == tile_deque_items(*deque).len(),
        len <= TILE_DEQUE_CAPACITY,
{
    deque.tiles.len()
}

/// Indexing an `ArrayDeque` of arraydeque: the tile at `index`, counted from
/// the front. It panics for an index beyond the tiles held, which the
/// precondition excludes.
#[verifier::external_body]
pub(crate) fn tile_deque_get(deque: &TileDeque, index: usize) -> (tile: Tile)
    requires
        index < tile_deque_items(*deque).len(),
    ensures
        tile == tile_deque_items(*deque)[index as int],
{
    deque.tiles[index]
}

/// `ArrayDeque::pop_back` of arraydeque: takes the last tile off and returns
/// it, or returns `None` for an empty deque.
#[verifier::external_body]
pub(crate) fn tile_deque_pop_back(deque: &mut TileDeque) -> (tile: Option<Tile>)
    ensures
        match tile {
            Some(t) => tile_deque_items(*old(deque)).len() > 0 && t == tile_deque_items(
                *old(deque),
            ).last() && tile_deque_items(*final(deque)) == tile_deque_items(
                *old(deque),
            ).drop_last(),
            None => tile_deque_items(*old(deque)).len() == 0 && tile_deque_items(*final(deque))
                == tile_deque_items(*old(deque)),
        },
{
    deque.tiles.pop_back()
}

/// `ArrayDeque::pop_front` of arraydeque: takes the first tile off and
/// returns it, or returns `None` for an empty deque.
#[verifier::external_body]
pub(crate) fn tile_deque_pop_front(deque: &mut TileDeque) -> (tile: Option<Tile>)
    ensures
        match tile {
            Some(t) => tile_deque_items(*old(deque)).len() > 0 && t == tile_deque_items(
                *old(deque),
            ).first() && tile_deque_items(*final(deque)) == tile_deque_items(
                *old(deque),
            ).drop_first(),
            None => tile_deque_items(*old(deque)).len() == 0 && tile_deque_items(*final(deque))
                == tile_deque_items(*old(deque)),
        },
{
    deque.tiles.pop_front()
}

/// `ArrayVec::new` of arrayvec: an empty vector.
#[verifier::external_body]
pub(crate) fn indicators_new() -> (list: ArrayVec<Tile, 5>)
    ensures
        indicator_items(list) == Seq::<Tile>::empty(),
{
    ArrayVec::new()
}

/// `ArrayVec::push` of arrayvec: appends the tile at the end. It panics when
/// the vector is full, which the precondition excludes.
#[verifier::external_body]
pub(crate) fn indicators_push(list: &mut ArrayVec<Tile, 5>, tile: Tile)
    requires
        indicator_items(*old(list)).len() < INDICATOR_CAPACITY,
    ensures
        indicator_items(*final(list)) == indicator_items(*old(list)).push(tile),
{
    list.push(tile);
}

/// `ArrayVec::as_slice` of arrayvec: the elements of the vector as a slice.
#[verifier::external_body]
pub(crate) fn indicators_as_slice(list: &ArrayVec<Tile, 5>) -> (items: &[Tile])
    ensures
        items@ == indicator_items(*list),
{
    list.as_slice()
}

} // verus!
