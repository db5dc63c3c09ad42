use crate::tile::{decorated_id, is_hongbaopai_id, normalized_id, Tile};
use vstd::prelude::*;

verus! {

/// Why tiles do not form the meld asked for.
#[derive(Debug, Clone, Copy, PartialEq, Eq, Structural)]
pub enum MianziError {
    /// The tiles of a triplet or quad are not all of one kind.
    NotSameKind,
    /// The tiles of a run are not all of one suit.
    NotSameSuit,
    /// A run claimed with an honor.
    ShunziWithZipai,
    /// The tiles of a run are not three consecutive ranks.
    NotConsecutive,
}

/// A meld of `N` tiles.
pub trait Mianzi<const N: usize> {
    /// The tiles of the meld.
    spec fn tiles_spec(&self) -> [Tile; N];

    /// The tiles of the meld.
    fn tiles(&self) -> (r: &[Tile; N])
        ensures
            *r == self.tiles_spec(),
    ;
}

/// Every tile of `tiles` is of the kind with id `kind`, red or plain.
pub open spec fn all_of_kind(tiles: Seq<Tile>, kind: u8) -> bool {
    forall|i: int| 0 <= i < tiles.len() ==> normalized_id((#[trigger] tiles[i])@) == kind
}

/// How many of the tiles are red fives.
pub open spec fn num_hongbaopai(tiles: Seq<Tile>) -> int
    decreases tiles.len(),
{
    if tiles.len() == 0 {
        0
    } else {
        num_hongbaopai(tiles.drop_last()) + if is_hongbaopai_id(tiles.last()@) {
            1int
        } else {
            0int
        }
    }
}

/// `len` tiles of the kind with id `kind`, the first `red` of them red fives.
pub open spec fn hongbaopai_first(kind: u8, red: int, len: nat) -> Seq<Tile> {
    Seq::new(
        len,
        |i: int|
            if i < red {
                Tile::of(decorated_id(kind))
            } else {
                Tile::of(kind)
            },
    )
}

/// No more tiles are red than there are.
pub proof fn lemma_num_hongbaopai_bound(tiles: Seq<Tile>)
    ensures
        0 <= num_hongbaopai(tiles) <= tiles.len(),
    decreases tiles.len(),
{
    if tiles.len() > 0 {
        lemma_num_hongbaopai_bound(tiles.drop_last());
    }
}

/// The red five of the kind of `tile` if `red`, else the plain tile.
pub fn of_kind(tile: &Tile, red: bool) -> (t: Tile)
    ensures
        t == if red {
            Tile::of(decorated_id(normalized_id(tile@)))
        } else {
            Tile::of(normalized_id(tile@))
        },
{
    let plain = tile.normalize_hongbaopai();
    let t = if red {
        plain.decorate_hongbaopai()
    } else {
        plain
    };
    proof {
        Tile::lemma_same_id(t, t);
    }
    t
}

/// Counts the red fives among `tiles`, if all of them are of the kind with
/// id `kind`.
pub fn count_hongbaopai(tiles: &[Tile], kind: u8) -> (r: Option<usize>)
    ensures
        match r {
            Some(red) => all_of_kind(tiles@, kind) && red == num_hongbaopai(tiles@),
            None => !all_of_kind(tiles@, kind),
        },
{
    let mut red: usize = 0;
    let mut i: usize = 0;
    while i < tiles.len()
        invariant
            0 <= i <= tiles@.len(),
            all_of_kind(tiles@.take(i as int), kind),
            red == num_hongbaopai(tiles@.take(i as int)),
        decreases tiles@.len() - i,
    {
        proof {
            assert(tiles@.take(i as int + 1).drop_last() =~= tiles@.take(i as int));
            lemma_num_hongbaopai_bound(tiles@.take(i as int));
        }
        if tiles[i].normalize_hongbaopai().as_u8() != kind {
            proof {
                assert(normalized_id(tiles@[i as int]@) != kind);
            }
            return None;
        }
        if tiles[i].is_hongbaopai() {
            red = red + 1;
        }
        proof {
            let next = tiles@.take(i as int + 1);
            assert forall|j: int| 0 <= j < next.len() implies normalized_id((#[trigger] next[j])@)
                == kind by {
                if j < i {
                    assert(tiles@.take(i as int)[j] == next[j]);
                }
            }
        }
        i = i + 1;
    }
    proof {
        assert(tiles@.take(tiles@.len() as int) =~= tiles@);
    }
    Some(red)
}

} // verus!
