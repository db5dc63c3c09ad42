use crate::fulu::mianzi::Mianzi;
use crate::fulu::tajia::Tajia;
use crate::tile::Tile;
use vstd::prelude::*;

verus! {

/// A meld made with a tile that another player discarded.
pub trait MingMianzi<const N: usize>: Mianzi<N> {
    /// Who discarded the claimed tile.
    spec fn discarder_spec(&self) -> Tajia;

    /// The tile that was claimed: the first tile of the meld.
    fn claimed_tile(&self) -> (r: &Tile)
        ensures
            *r == self.tiles_spec()@[0],
    ;

    /// Who discarded the claimed tile.
    fn discarder(&self) -> (r: &Tajia)
        ensures
            *r == self.discarder_spec(),
    ;
}

} // verus!
