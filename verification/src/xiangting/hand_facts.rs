use crate::xiangting::bingpai::{total_tiles, within_copies};
use crate::xiangting::bounds::{lemma_not_complete_before_the_draw, lemma_total_by_suit,
    lemma_total_set, lemma_total_split};
use crate::xiangting::calculate::replacement_number;
use crate::xiangting::complete_hand::lemma_complete_hand;
use crate::xiangting::constants::{MAX_NUM_SAME_TILE, NUM_TILE_INDEX};
use crate::xiangting::decomposition::Selection;
use crate::xiangting::qiduizi::{kinds_held, lemma_kinds_held_bound, qiduizi_replacement_number};
use crate::xiangting::ready_hand::{is_complete, lemma_all_taken_tiles, lemma_honor_triplets,
    lemma_one_from_complete, without_tile};
use crate::xiangting::shisanyao::{lemma_shisanyao_complete, shisanyao_replacement_number,
    yaojiupai_held, yaojiupai_kinds, yaojiupai_paired, NUM_YAOJIUPAI};
use crate::xiangting::standard::{honor_blocks, num_fulu_of, standard_replacement_number, suit_of,
    without_jiangpai};
use vstd::prelude::*;

verus! {

proof fn lemma_pairs_take_tiles(counts: Seq<u8>, upto: int)
    requires
        0 <= upto <= counts.len(),
    ensures
        2 * kinds_held(counts, 2, upto) <= total_tiles(counts.take(upto)),
    decreases upto,
{
    if upto > 0 {
        lemma_pairs_take_tiles(counts, upto - 1);
        assert(counts.take(upto).drop_last() =~= counts.take(upto - 1));
    }
}

/// The tiles of the first `upto` terminal and honor kinds.
spec fn yaojiupai_tiles(counts: Seq<u8>, upto: int) -> int
    decreases upto,
{
    if upto <= 0 {
        0
    } else {
        yaojiupai_tiles(counts, upto - 1) + counts[yaojiupai_kinds()[upto - 1]]
    }
}

proof fn lemma_yaojiupai_take_tiles(counts: Seq<u8>, upto: int)
    requires
        0 <= upto <= NUM_YAOJIUPAI,
    ensures
        yaojiupai_held(counts, upto) + (if yaojiupai_paired(counts, upto) {
            1int
        } else {
            0int
        }) <= yaojiupai_tiles(counts, upto),
    decreases upto,
{
    if upto > 0 {
        lemma_yaojiupai_take_tiles(counts, upto - 1);
        if yaojiupai_paired(counts, upto) && !yaojiupai_paired(counts, upto - 1) {
            let i = choose|i: int| 0 <= i < upto && #[trigger] counts[yaojiupai_kinds()[i]] >= 2;
            assert(i == upto - 1);
        }
        if yaojiupai_paired(counts, upto - 1) {
            let i = choose|i: int|
                0 <= i < upto - 1 && #[trigger] counts[yaojiupai_kinds()[i]] >= 2;
            assert(0 <= i < upto && counts[yaojiupai_kinds()[i]] >= 2);
        }
    }
}

proof fn lemma_yaojiupai_tiles_in_hand(counts: Seq<u8>)
    requires
        counts.len() == NUM_TILE_INDEX,
    ensures
        yaojiupai_tiles(counts, NUM_YAOJIUPAI as int) <= total_tiles(counts),
{
    reveal_with_fuel(yaojiupai_tiles, 14);
    reveal_with_fuel(total_tiles, 35);
    let k = yaojiupai_kinds();
    assert(k[0] == 0 && k[1] == 8 && k[2] == 9 && k[3] == 17 && k[4] == 18 && k[5] == 26 && k[6]
        == 27 && k[7] == 28 && k[8] == 29 && k[9] == 30 && k[10] == 31 && k[11] == 32 && k[12]
        == 33);
    let s33 = counts.drop_last();
    let s32 = s33.drop_last();
    let s31 = s32.drop_last();
    let s30 = s31.drop_last();
    let s29 = s30.drop_last();
    let s28 = s29.drop_last();
    let s27 = s28.drop_last();
    assert(total_tiles(counts) == total_tiles(s27) + counts[27] + counts[28] + counts[29]
        + counts[30] + counts[31] + counts[32] + counts[33]);
    assert(s27 =~= counts.subrange(0, 27));
    lemma_total_split(s27, 18);
    let upper = s27.subrange(18, 27);
    let lower = s27.subrange(0, 18);
    lemma_total_split(lower, 9);
    let first = lower.subrange(0, 9);
    let second = lower.subrange(9, 18);
    lemma_ends(first);
    lemma_ends(second);
    lemma_ends(upper);
}

proof fn lemma_ends(suit: Seq<u8>)
    requires
        suit.len() == 9,
    ensures
        suit[0] + suit[8] <= total_tiles(suit),
{
    reveal_with_fuel(total_tiles, 10);
}

/// With 13 tiles no shape is complete: the replacement number of a valid
/// hand of 13 concealed tiles is at least 1.
pub proof fn lemma_replacement_number_before_the_draw(counts: Seq<u8>)
    requires
        counts.len() == NUM_TILE_INDEX,
        within_copies(counts, MAX_NUM_SAME_TILE as int),
        total_tiles(counts) == 13,
    ensures
        replacement_number(counts) >= 1,
{
    lemma_not_complete_before_the_draw(counts);
    lemma_pairs_take_tiles(counts, NUM_TILE_INDEX as int);
    assert(counts.take(NUM_TILE_INDEX as int) =~= counts);
    lemma_kinds_held_bound(counts, NUM_TILE_INDEX as int);
    lemma_yaojiupai_take_tiles(counts, NUM_YAOJIUPAI as int);
    lemma_yaojiupai_tiles_in_hand(counts);
    lemma_shisanyao_complete(counts, 13);
}

/// A complete hand of the standard shape needs no exchange: its
/// replacement number is 0.
pub proof fn lemma_complete_hand_needs_nothing(
    counts: Seq<u8>,
    jiangpai: int,
    wanzi: Selection,
    bingzi: Selection,
    suozi: Selection,
)
    requires
        is_complete(counts, jiangpai, wanzi, bingzi, suozi),
    ensures
        replacement_number(counts) == 0,
{
    let rest = without_jiangpai(counts, jiangpai);
    assert(total_tiles(rest) == 12) by {
        lemma_total_set(counts, jiangpai, (counts[jiangpai] - 2) as u8);
    }
    lemma_total_by_suit(rest);
    lemma_suit_len(rest, 0);
    lemma_suit_len(rest, 9);
    lemma_suit_len(rest, 18);
    lemma_all_taken_tiles(suit_of(rest, 0), wanzi);
    lemma_all_taken_tiles(suit_of(rest, 9), bingzi);
    lemma_all_taken_tiles(suit_of(rest, 18), suozi);
    lemma_honor_triplets(rest.subrange(27, 34));
    lemma_complete_hand(counts, 14, jiangpai, wanzi, bingzi, suozi);
    lemma_kinds_held_bound(counts, NUM_TILE_INDEX as int);
    lemma_shisanyao_complete(counts, 14);
}

/// A hand one tile from complete is one exchange from complete: a complete
/// hand of the standard shape from which one tile is taken has the
/// replacement number 1.
pub proof fn lemma_one_from_complete_needs_one(
    counts: Seq<u8>,
    jiangpai: int,
    wanzi: Selection,
    bingzi: Selection,
    suozi: Selection,
    kind: int,
)
    requires
        is_complete(counts, jiangpai, wanzi, bingzi, suozi),
        0 <= kind < NUM_TILE_INDEX,
        counts[kind] >= 1,
    ensures
        replacement_number(without_tile(counts, kind)) == 1,
{
    let hand = without_tile(counts, kind);
    lemma_one_from_complete(counts, jiangpai, wanzi, bingzi, suozi, kind);
    assert forall|i: int| 0 <= i < hand.len() implies hand[i] <= MAX_NUM_SAME_TILE by {
        assert(counts[i] <= MAX_NUM_SAME_TILE);
    }
    assert(total_tiles(hand) == 13) by {
        lemma_total_set(counts, kind, (counts[kind] - 1) as u8);
    }
    lemma_replacement_number_before_the_draw(hand);
}

proof fn lemma_suit_len(counts: Seq<u8>, base: int)
    requires
        counts.len() == NUM_TILE_INDEX,
        0 <= base <= 18,
    ensures
        suit_of(counts, base).len() == 9,
{
}

} // verus!
