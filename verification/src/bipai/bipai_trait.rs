use crate::bipai::random::{BipaiError, RandomBipai};
use crate::tile::{next_id, Tile};
use vstd::prelude::*;

verus! {

/// A wall of a hand that is being played: tiles are drawn from it in turn
/// and after quads, dora indicators are revealed, and the hand is closed.
pub trait Bipai {
    /// Whether the wall is in a state of its use.
    spec fn usable(&self) -> bool;

    /// Whether the hand is over.
    spec fn is_closed(&self) -> bool;

    /// How many tiles the wall holds, the dead wall included.
    spec fn num_tiles(&self) -> int;

    /// The dora indicators revealed so far, in the order in which they were
    /// revealed; `None` where there is no dora.
    spec fn revealed(&self) -> Option<Seq<Tile>>;

    /// The dora for a dora indicator: the tile that follows it.
    fn to_baopai(baopai_indicator: &Tile) -> (t: Tile)
        ensures
            t@ == next_id(baopai_indicator@),
    {
        baopai_indicator.next()
    }

    /// How many tiles are left outside the dead wall of 14 tiles.
    fn left_tile_count(&self) -> (r: Result<u8, BipaiError>)
        ensures
            match r {
                Ok(n) => self.num_tiles() >= 14 && n == self.num_tiles() - 14,
                Err(e) => self.num_tiles() < 14 && e == BipaiError::NoTilesLeft,
            },
    ;

    /// The dora indicators revealed so far, if there is dora.
    fn baopai_indicators(&self) -> (r: Option<&[Tile]>)
        ensures
            match r {
                Some(s) => self.revealed() == Some(s@),
                None => self.revealed() is None,
            },
    ;

    /// The ura dora indicators, once the hand is over.
    fn li_baopai_indicators(&self) -> (r: Result<Option<&[Tile]>, BipaiError>)
        ensures
            r is Ok <==> self.is_closed(),
            r matches Err(e) ==> e == BipaiError::NotClosed,
    ;

    /// Ends the hand.
    fn close(&mut self)
        requires
            old(self).usable(),
        ensures
            final(self).usable(),
            final(self).is_closed(),
            final(self).num_tiles() == old(self).num_tiles(),
    ;

    /// Draws the next tile in turn.
    fn zimo(&mut self) -> (r: Result<Tile, BipaiError>)
        requires
            old(self).usable(),
        ensures
            final(self).usable(),
            final(self).is_closed() == old(self).is_closed(),
            final(self).num_tiles() == old(self).num_tiles() - if r is Ok {
                1int
            } else {
                0int
            },
            old(self).is_closed() ==> r == Err::<Tile, BipaiError>(BipaiError::Closed),
    ;

    /// Draws the tile for a quad.
    fn lingshangzimo(&mut self) -> (r: Result<Tile, BipaiError>)
        requires
            old(self).usable(),
        ensures
            final(self).usable(),
            final(self).is_closed() == old(self).is_closed(),
            final(self).num_tiles() == old(self).num_tiles() - if r is Ok {
                1int
            } else {
                0int
            },
            old(self).is_closed() ==> r == Err::<Tile, BipaiError>(BipaiError::Closed),
    ;

    /// Reveals the dora indicator for the last quad.
    fn kaigang(&mut self) -> (r: Result<(), BipaiError>)
        requires
            old(self).usable(),
        ensures
            final(self).usable(),
            final(self).is_closed() == old(self).is_closed(),
            final(self).num_tiles() == old(self).num_tiles(),
            old(self).is_closed() ==> r == Err::<(), BipaiError>(BipaiError::Closed),
    ;
}

impl Bipai for RandomBipai {
    open spec fn usable(&self) -> bool {
        self.wf()
    }

    open spec fn is_closed(&self) -> bool {
        self.closed_spec()
    }

    open spec fn num_tiles(&self) -> int {
        self.tiles_spec().len() as int
    }

    open spec fn revealed(&self) -> Option<Seq<Tile>> {
        self.baopai_spec()
    }

    fn left_tile_count(&self) -> (r: Result<u8, BipaiError>) {
        RandomBipai::left_tile_count(self)
    }

    fn baopai_indicators(&self) -> (r: Option<&[Tile]>) {
        RandomBipai::baopai_indicators(self)
    }

    fn li_baopai_indicators(&self) -> (r: Result<Option<&[Tile]>, BipaiError>) {
        RandomBipai::li_baopai_indicators(self)
    }

    fn close(&mut self) {
        RandomBipai::close(self)
    }

    fn zimo(&mut self) -> (r: Result<Tile, BipaiError>) {
        RandomBipai::zimo(self)
    }

    fn lingshangzimo(&mut self) -> (r: Result<Tile, BipaiError>) {
        RandomBipai::lingshangzimo(self)
    }

    fn kaigang(&mut self) -> (r: Result<(), BipaiError>) {
        RandomBipai::kaigang(self)
    }
}

} // verus!
