use crate::fulu::mianzi::{all_of_kind, count_hongbaopai, hongbaopai_first, num_hongbaopai,
    of_kind, Mianzi, MianziError};
use crate::tile::{normalized_id, Tile};
use vstd::prelude::*;

verus! {

/// A concealed quad.
#[derive(Debug, Clone, Copy)]
pub struct AnGangzi {
    tiles: [Tile; 4],
}

impl AnGangzi {
    /// The quad that `new` makes of tiles of one kind.
    pub closed spec fn of(dazi: [Tile; 4]) -> AnGangzi {
        let kind = normalized_id(dazi@[0]@);
        let red = num_hongbaopai(dazi@);
        AnGangzi {
            tiles: [
                hongbaopai_first(kind, red, 4)[0],
                hongbaopai_first(kind, red, 4)[1],
                hongbaopai_first(kind, red, 4)[2],
                hongbaopai_first(kind, red, 4)[3],
            ],
        }
    }

    /// Makes a concealed quad of four tiles of one kind. Red fives come first
    /// among its tiles.
    pub fn new(dazi: [Tile; 4]) -> (r: Result<Self, MianziError>)
        ensures
            match r {
                Ok(gangzi) => {
                    &&& gangzi == AnGangzi::of(dazi)
                    &&& all_of_kind(dazi@, normalized_id(dazi@[0]@))
                    &&& gangzi.tiles_spec()@ == hongbaopai_first(
                        normalized_id(dazi@[0]@),
                        num_hongbaopai(dazi@),
                        4,
                    )
                },
                Err(e) => e == MianziError::NotSameKind && !all_of_kind(
                    dazi@,
                    normalized_id(dazi@[0]@),
                ),
            },
    {
        let kind: u8 = dazi[0].normalize_hongbaopai().as_u8();
        let red: usize = match count_hongbaopai(dazi.as_slice(), kind) {
            Some(red) => red,
            None => {
                return Err(MianziError::NotSameKind);
            },
        };
        let tiles: [Tile; 4] = [
            of_kind(&dazi[0], 0 < red),
            of_kind(&dazi[0], 1 < red),
            of_kind(&dazi[0], 2 < red),
            of_kind(&dazi[0], 3 < red),
        ];
        proof {
            assert(tiles@ =~= hongbaopai_first(kind, red as int, 4));
            assert(tiles@ =~= AnGangzi::of(dazi).tiles@);
        }
        Ok(Self { tiles })
    }
}

impl Mianzi<4> for AnGangzi {
    closed spec fn tiles_spec(&self) -> [Tile; 4] {
        self.tiles
    }

    fn tiles(&self) -> (r: &[Tile; 4]) {
        &self.tiles
    }
}

} // verus!
