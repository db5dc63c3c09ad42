use crate::xiangting::bingpai::within_copies;
use crate::xiangting::constants::{MAX_NUM_SAME_TILE, NUM_TILE_INDEX};
use crate::xiangting::decomposition::{lemma_search_optimal, num_mianzi, outcome, selection_ok,
    Selection};
use crate::xiangting::standard::{accounts_for, best_combination, combined, honor_blocks,
    lemma_honor_blocks_bound, lemma_standard_is_least, lemma_suit_search_conserves,
    lemma_tiles_from_bound, num_fulu_of, replacement_number_formula, replacement_number_inner,
    standard_replacement_number, suit_of, suit_ok, suit_search, tiles_from, without_jiangpai,
    Blocks, BlocksPattern};
use vstd::prelude::*;

verus! {

/// With 4 complete sets or more and a pair set aside, nothing is left to exchange.
pub proof fn lemma_formula_complete(mianzi: int, dazi: int, gulipai: int)
    requires
        4 <= mianzi,
        0 <= dazi,
        0 <= gulipai,
    ensures
        replacement_number_formula(mianzi, dazi, gulipai, true) == 0,
{
}

proof fn lemma_suit_of_ok(counts: Seq<u8>, base: int)
    requires
        counts.len() == NUM_TILE_INDEX,
        within_copies(counts, MAX_NUM_SAME_TILE as int),
        0 <= base <= 18,
    ensures
        suit_ok(suit_of(counts, base)),
        accounts_for(suit_search(suit_of(counts, base), 0).a, tiles_from(suit_of(counts, base), 0)),
        accounts_for(suit_search(suit_of(counts, base), 0).b, tiles_from(suit_of(counts, base), 0)),
{
    let suit = suit_of(counts, base);
    assert forall|i: int| 0 <= i < 9 implies 0 <= #[trigger] suit[i] <= 4 by {
        assert(counts.subrange(base, base + 9)[i] == counts[base + i]);
    }
    lemma_suit_search_conserves(suit, 0);
    lemma_tiles_from_bound(suit, 0);
}

proof fn lemma_combined_range(
    m: Blocks,
    p: Blocks,
    s: Blocks,
    z: Blocks,
    num_fulu: int,
    has_jiangpai: bool,
)
    requires
        0 <= num_fulu,
        m.mianzi >= 0 && m.dazi >= 0 && m.gulipai >= 0,
        p.mianzi >= 0 && p.dazi >= 0 && p.gulipai >= 0,
        s.mianzi >= 0 && s.dazi >= 0 && s.gulipai >= 0,
        z.mianzi >= 0 && z.dazi >= 0 && z.gulipai >= 0,
    ensures
        0 <= combined(m, p, s, z, num_fulu, has_jiangpai) <= 14,
{
    reveal(combined);
}

/// No replacement number for the standard shape, with or without a pair set
/// aside, is below 0 or above 14.
pub proof fn lemma_inner_range(counts: Seq<u8>, num_bingpai: int, has_jiangpai: bool)
    requires
        counts.len() == NUM_TILE_INDEX,
        within_copies(counts, MAX_NUM_SAME_TILE as int),
    ensures
        0 <= replacement_number_inner(counts, num_bingpai, has_jiangpai) <= 14,
{
    lemma_suit_of_ok(counts, 0);
    lemma_suit_of_ok(counts, 9);
    lemma_suit_of_ok(counts, 18);
    lemma_honor_blocks_bound(counts.subrange(27, 34));
    let m = suit_search(suit_of(counts, 0), 0);
    let p = suit_search(suit_of(counts, 9), 0);
    let s = suit_search(suit_of(counts, 18), 0);
    let z = honor_blocks(counts.subrange(27, 34));
    let f = num_fulu_of(num_bingpai);
    lemma_combined_range(m.a, p.a, s.a, z, f, has_jiangpai);
    lemma_combined_range(m.a, p.a, s.b, z, f, has_jiangpai);
    lemma_combined_range(m.a, p.b, s.a, z, f, has_jiangpai);
    lemma_combined_range(m.a, p.b, s.b, z, f, has_jiangpai);
    lemma_combined_range(m.b, p.a, s.a, z, f, has_jiangpai);
    lemma_combined_range(m.b, p.a, s.b, z, f, has_jiangpai);
    lemma_combined_range(m.b, p.b, s.a, z, f, has_jiangpai);
    lemma_combined_range(m.b, p.b, s.b, z, f, has_jiangpai);
}

/// The replacement number for the standard shape lies between 0 and 14.
pub proof fn lemma_standard_range(counts: Seq<u8>, num_bingpai: int)
    requires
        counts.len() == NUM_TILE_INDEX,
        within_copies(counts, MAX_NUM_SAME_TILE as int),
    ensures
        0 <= standard_replacement_number(counts, num_bingpai) <= 14,
{
    lemma_standard_is_least(counts, num_bingpai);
    lemma_inner_range(counts, num_bingpai, false);
    let r = standard_replacement_number(counts, num_bingpai);
    if r != replacement_number_inner(counts, num_bingpai, false) {
        let kind = choose|kind: int|
            0 <= kind < NUM_TILE_INDEX && counts[kind] >= 2 && r == replacement_number_inner(
                #[trigger] without_jiangpai(counts, kind),
                num_bingpai,
                true,
            );
        lemma_without_jiangpai_ok(counts, kind);
        lemma_inner_range(without_jiangpai(counts, kind), num_bingpai, true);
    }
}

proof fn lemma_without_jiangpai_ok(counts: Seq<u8>, kind: int)
    requires
        counts.len() == NUM_TILE_INDEX,
        within_copies(counts, MAX_NUM_SAME_TILE as int),
        0 <= kind < NUM_TILE_INDEX,
        counts[kind] >= 2,
    ensures
        without_jiangpai(counts, kind).len() == NUM_TILE_INDEX,
        within_copies(without_jiangpai(counts, kind), MAX_NUM_SAME_TILE as int),
{
    let less = without_jiangpai(counts, kind);
    assert forall|i: int| 0 <= i < less.len() implies less[i] <= MAX_NUM_SAME_TILE by {
        assert(counts[i] <= MAX_NUM_SAME_TILE);
    }
}

/// A complete hand needs no exchange: if, with two tiles of some kind set
/// aside as the pair, complete sets can be taken out of the three numbered
/// suits which, with the honor kinds held 3 times or more and the melds
/// claimed before, make 4, then the replacement number for the standard
/// shape is 0.
pub proof fn lemma_complete_hand(
    counts: Seq<u8>,
    num_bingpai: int,
    jiangpai: int,
    wanzi: Selection,
    bingzi: Selection,
    suozi: Selection,
)
    requires
        counts.len() == NUM_TILE_INDEX,
        within_copies(counts, MAX_NUM_SAME_TILE as int),
        0 <= jiangpai < NUM_TILE_INDEX,
        counts[jiangpai] >= 2,
        selection_ok(suit_of(without_jiangpai(counts, jiangpai), 0), wanzi),
        selection_ok(suit_of(without_jiangpai(counts, jiangpai), 9), bingzi),
        selection_ok(suit_of(without_jiangpai(counts, jiangpai), 18), suozi),
        num_fulu_of(num_bingpai) + num_mianzi(wanzi) + num_mianzi(bingzi) + num_mianzi(suozi)
            + honor_blocks(without_jiangpai(counts, jiangpai).subrange(27, 34)).mianzi >= 4,
    ensures
        standard_replacement_number(counts, num_bingpai) == 0,
{
    let rest = without_jiangpai(counts, jiangpai);
    lemma_without_jiangpai_ok(counts, jiangpai);
    lemma_suit_of_ok(rest, 0);
    lemma_suit_of_ok(rest, 9);
    lemma_suit_of_ok(rest, 18);
    lemma_honor_blocks_bound(rest.subrange(27, 34));
    lemma_search_optimal(suit_of(rest, 0), 0, wanzi);
    lemma_search_optimal(suit_of(rest, 9), 0, bingzi);
    lemma_search_optimal(suit_of(rest, 18), 0, suozi);
    let m = suit_search(suit_of(rest, 0), 0);
    let p = suit_search(suit_of(rest, 9), 0);
    let s = suit_search(suit_of(rest, 18), 0);
    let z = honor_blocks(rest.subrange(27, 34));
    let f = num_fulu_of(num_bingpai);
    assert(m.b.mianzi >= outcome(suit_of(rest, 0), wanzi).mianzi);
    assert(p.b.mianzi >= outcome(suit_of(rest, 9), bingzi).mianzi);
    assert(s.b.mianzi >= outcome(suit_of(rest, 18), suozi).mianzi);
    assert(combined(m.b, p.b, s.b, z, f, true) == 0) by {
        reveal(combined);
        lemma_formula_complete(
            f + m.b.mianzi + p.b.mianzi + s.b.mianzi + z.mianzi,
            m.b.dazi + p.b.dazi + s.b.dazi + z.dazi,
            m.b.gulipai + p.b.gulipai + s.b.gulipai + z.gulipai,
        );
    }
    assert(best_combination(m, p, s, z, f, true) <= 0);
    assert(replacement_number_inner(rest, num_bingpai, true) <= 0);
    lemma_standard_is_least(counts, num_bingpai);
    lemma_standard_range(counts, num_bingpai);
}

} // verus!
