use crate::xiangting::bingpai::Bingpai;
use crate::xiangting::constants::{MAX_NUM_SHOUPAI, NUM_TILE_INDEX};
use vstd::prelude::*;

verus! {

/// How many of the kinds below `upto` are held at least `least` times.
pub open spec fn kinds_held(counts: Seq<u8>, least: int, upto: int) -> int
    decreases upto,
{
    if upto <= 0 {
        0
    } else {
        kinds_held(counts, least, upto - 1) + if counts[upto - 1] >= least {
            1int
        } else {
            0int
        }
    }
}

/// The replacement number for seven pairs. The shape needs 7 pairs of 7
/// different kinds, so each pair short of 7 costs one exchange, and so does
/// each kind short of 7: 7 less the kinds held twice (at most 7 count), plus
/// 7 less the kinds held (at most 7 count). A hand of another size than 13
/// or 14 concealed tiles cannot reach the shape, which 255 says.
pub open spec fn qiduizi_replacement_number(counts: Seq<u8>, num_bingpai: int) -> int {
    if num_bingpai != MAX_NUM_SHOUPAI - 1 && num_bingpai != MAX_NUM_SHOUPAI {
        u8::MAX as int
    } else {
        let kinds = kinds_held(counts, 1, NUM_TILE_INDEX as int);
        let pairs = kinds_held(counts, 2, NUM_TILE_INDEX as int);
        (7 - if pairs > 7 { 7 } else { pairs }) + (7 - if kinds > 7 { 7 } else { kinds })
    }
}

/// No more kinds are held than there are, and no more twice than once.
pub proof fn lemma_kinds_held_bound(counts: Seq<u8>, upto: int)
    requires
        0 <= upto,
    ensures
        0 <= kinds_held(counts, 2, upto) <= kinds_held(counts, 1, upto) <= upto,
    decreases upto,
{
    if upto > 0 {
        lemma_kinds_held_bound(counts, upto - 1);
    }
}

/// Seven pairs is complete exactly when 7 kinds are held twice or more:
/// those and no others give replacement number 0.
pub proof fn lemma_qiduizi_complete(counts: Seq<u8>, num_bingpai: int)
    requires
        num_bingpai == 13 || num_bingpai == 14,
    ensures
        qiduizi_replacement_number(counts, num_bingpai) == 0 <==> kinds_held(
            counts,
            2,
            NUM_TILE_INDEX as int,
        ) >= 7,
        0 <= qiduizi_replacement_number(counts, num_bingpai) <= 14,
{
    lemma_kinds_held_bound(counts, NUM_TILE_INDEX as int);
}

/// Computes the replacement number for seven pairs.
pub fn calculate_replacement_number(bingpai: &Bingpai, num_bingpai: u8) -> (r: u8)
    ensures
        r == qiduizi_replacement_number(bingpai@, num_bingpai as int),
{
    if (num_bingpai != (MAX_NUM_SHOUPAI - 1)) && (num_bingpai != MAX_NUM_SHOUPAI) {
        return u8::MAX;
    }
    let mut num_kinds: u8 = 0;
    let mut num_duizi: u8 = 0;
    let mut i: usize = 0;
    while i < NUM_TILE_INDEX
        invariant
            0 <= i <= NUM_TILE_INDEX,
            num_kinds == kinds_held(bingpai@, 1, i as int),
            num_duizi == kinds_held(bingpai@, 2, i as int),
        decreases NUM_TILE_INDEX - i,
    {
        proof {
            lemma_kinds_held_bound(bingpai@, i as int);
        }
        if bingpai[i] >= 1 {
            num_kinds = num_kinds + 1;
        }
        if bingpai[i] >= 2 {
            num_duizi = num_duizi + 1;
        }
        i = i + 1;
    }
    let kinds: u8 = if num_kinds > 7 {
        7
    } else {
        num_kinds
    };
    let duizi: u8 = if num_duizi > 7 {
        7
    } else {
        num_duizi
    };
    (7 - duizi) + (7 - kinds)
}

} // verus!
