use crate::xiangting::bingpai::{total_tiles, within_copies};
use crate::xiangting::complete_hand::lemma_inner_range;
use crate::xiangting::constants::{MAX_NUM_SAME_TILE, NUM_TILE_INDEX};
use crate::xiangting::standard::{accounts_for, best_combination, combined, honor_blocks, ints,
    lemma_honor_blocks_bound, lemma_standard_is_least, lemma_suit_search_conserves,
    lemma_tiles_from_bound, num_fulu_of, replacement_number_formula, replacement_number_inner,
    standard_replacement_number, suit_of, suit_ok, suit_search, tiles_from, without_jiangpai,
    Blocks};
use vstd::prelude::*;

verus! {

/// Each block stands for at most the tiles it is made of: a complete set
/// for 3, a partial set or the pair for 2, an isolated tile for 1. So the
/// replacement number is at least 14 less those tiles.
pub proof fn lemma_formula_lower_bound(mianzi: int, dazi: int, gulipai: int, has_jiangpai: bool)
    requires
        0 <= mianzi,
        0 <= dazi,
        0 <= gulipai,
    ensures
        replacement_number_formula(mianzi, dazi, gulipai, has_jiangpai) >= 14 - 3 * mianzi - 2
            * dazi - gulipai - if has_jiangpai {
            2int
        } else {
            0int
        },
{
}

/// The tiles of a hand are those of its first kinds and those of the rest.
pub proof fn lemma_total_split(counts: Seq<u8>, k: int)
    requires
        0 <= k <= counts.len(),
    ensures
        total_tiles(counts) == total_tiles(counts.subrange(0, k)) + total_tiles(
            counts.subrange(k, counts.len() as int),
        ),
    decreases counts.len(),
{
    if k == counts.len() {
        assert(counts.subrange(0, k) =~= counts);
        assert(counts.subrange(k, counts.len() as int) =~= Seq::<u8>::empty());
    } else {
        let shorter = counts.drop_last();
        lemma_total_split(shorter, k);
        assert(shorter.subrange(0, k) =~= counts.subrange(0, k));
        assert(counts.subrange(k, counts.len() as int).drop_last() =~= shorter.subrange(
            k,
            shorter.len() as int,
        ));
    }
}

proof fn lemma_suit_total(suit: Seq<u8>, n: int)
    requires
        suit.len() == 9,
        0 <= n <= 9,
    ensures
        tiles_from(ints(suit), n) == total_tiles(suit.subrange(n, 9)),
    decreases 9 - n,
{
    if n < 9 {
        lemma_suit_total(suit, n + 1);
        let rest = suit.subrange(n, 9);
        lemma_total_split(rest, 1);
        assert(rest.subrange(1, rest.len() as int) =~= suit.subrange(n + 1, 9));
        let one = rest.subrange(0, 1);
        assert(one.drop_last() =~= Seq::<u8>::empty());
        assert(total_tiles(one.drop_last()) == 0);
        assert(one.last() == suit[n]);
        assert(total_tiles(one) == suit[n]);
        assert(ints(suit)[n] == suit[n]);
    } else {
        assert(suit.subrange(n, 9) =~= Seq::<u8>::empty());
    }
}

proof fn lemma_honor_tiles(counts: Seq<u8>)
    ensures
        3 * honor_blocks(counts).mianzi + 2 * honor_blocks(counts).dazi + honor_blocks(
            counts,
        ).gulipai <= total_tiles(counts),
    decreases counts.len(),
{
    if counts.len() > 0 {
        lemma_honor_tiles(counts.drop_last());
    }
}

/// The tiles of a hand are the tiles of its three numbered suits and its honors.
pub proof fn lemma_total_by_suit(counts: Seq<u8>)
    requires
        counts.len() == NUM_TILE_INDEX,
    ensures
        total_tiles(counts) == tiles_from(suit_of(counts, 0), 0) + tiles_from(
            suit_of(counts, 9),
            0,
        ) + tiles_from(suit_of(counts, 18), 0) + total_tiles(counts.subrange(27, 34)),
{
    lemma_total_split(counts, 27);
    let numbered = counts.subrange(0, 27);
    lemma_total_split(numbered, 18);
    let lower = numbered.subrange(0, 18);
    lemma_total_split(lower, 9);
    assert(lower.subrange(0, 9) =~= counts.subrange(0, 9));
    assert(lower.subrange(9, 18) =~= counts.subrange(9, 18));
    assert(numbered.subrange(18, 27) =~= counts.subrange(18, 27));
    assert(counts.subrange(27, counts.len() as int) =~= counts.subrange(27, 34));
    lemma_suit_total(counts.subrange(0, 9), 0);
    lemma_suit_total(counts.subrange(9, 18), 0);
    lemma_suit_total(counts.subrange(18, 27), 0);
    assert(counts.subrange(0, 9).subrange(0, 9) =~= counts.subrange(0, 9));
    assert(counts.subrange(9, 18).subrange(0, 9) =~= counts.subrange(9, 18));
    assert(counts.subrange(18, 27).subrange(0, 9) =~= counts.subrange(18, 27));
}

proof fn lemma_combined_lower_bound(
    m: Blocks,
    p: Blocks,
    s: Blocks,
    z: Blocks,
    num_fulu: int,
    has_jiangpai: bool,
)
    requires
        0 <= num_fulu,
        m.mianzi >= 0 && m.dazi >= 0 && m.gulipai >= 0,
        p.mianzi >= 0 && p.dazi >= 0 && p.gulipai >= 0,
        s.mianzi >= 0 && s.dazi >= 0 && s.gulipai >= 0,
        z.mianzi >= 0 && z.dazi >= 0 && z.gulipai >= 0,
    ensures
        combined(m, p, s, z, num_fulu, has_jiangpai) >= 14 - 3 * num_fulu - (3 * m.mianzi + 2
            * m.dazi + m.gulipai) - (3 * p.mianzi + 2 * p.dazi + p.gulipai) - (3 * s.mianzi + 2
            * s.dazi + s.gulipai) - (3 * z.mianzi + 2 * z.dazi + z.gulipai) - if has_jiangpai {
            2int
        } else {
            0int
        },
{
    reveal(combined);
    lemma_formula_lower_bound(
        num_fulu + m.mianzi + p.mianzi + s.mianzi + z.mianzi,
        m.dazi + p.dazi + s.dazi + z.dazi,
        m.gulipai + p.gulipai + s.gulipai + z.gulipai,
        has_jiangpai,
    );
}

proof fn lemma_inner_lower_bound(counts: Seq<u8>, num_bingpai: int, has_jiangpai: bool)
    requires
        counts.len() == NUM_TILE_INDEX,
        within_copies(counts, MAX_NUM_SAME_TILE as int),
    ensures
        replacement_number_inner(counts, num_bingpai, has_jiangpai) >= 14 - 3 * num_fulu_of(
            num_bingpai,
        ) - total_tiles(counts) - if has_jiangpai {
            2int
        } else {
            0int
        },
{
    let wanzi = suit_of(counts, 0);
    let bingzi = suit_of(counts, 9);
    let suozi = suit_of(counts, 18);
    assert forall|i: int| 0 <= i < 9 implies 0 <= #[trigger] wanzi[i] <= 4 by {
        assert(counts.subrange(0, 9)[i] == counts[i]);
    }
    assert forall|i: int| 0 <= i < 9 implies 0 <= #[trigger] bingzi[i] <= 4 by {
        assert(counts.subrange(9, 18)[i] == counts[9 + i]);
    }
    assert forall|i: int| 0 <= i < 9 implies 0 <= #[trigger] suozi[i] <= 4 by {
        assert(counts.subrange(18, 27)[i] == counts[18 + i]);
    }
    lemma_suit_search_conserves(wanzi, 0);
    lemma_suit_search_conserves(bingzi, 0);
    lemma_suit_search_conserves(suozi, 0);
    lemma_honor_blocks_bound(counts.subrange(27, 34));
    lemma_honor_tiles(counts.subrange(27, 34));
    lemma_total_by_suit(counts);
    let m = suit_search(wanzi, 0);
    let p = suit_search(bingzi, 0);
    let s = suit_search(suozi, 0);
    let z = honor_blocks(counts.subrange(27, 34));
    let f = num_fulu_of(num_bingpai);
    lemma_combined_lower_bound(m.a, p.a, s.a, z, f, has_jiangpai);
    lemma_combined_lower_bound(m.a, p.a, s.b, z, f, has_jiangpai);
    lemma_combined_lower_bound(m.a, p.b, s.a, z, f, has_jiangpai);
    lemma_combined_lower_bound(m.a, p.b, s.b, z, f, has_jiangpai);
    lemma_combined_lower_bound(m.b, p.a, s.a, z, f, has_jiangpai);
    lemma_combined_lower_bound(m.b, p.a, s.b, z, f, has_jiangpai);
    lemma_combined_lower_bound(m.b, p.b, s.a, z, f, has_jiangpai);
    lemma_combined_lower_bound(m.b, p.b, s.b, z, f, has_jiangpai);
    lemma_inner_range(counts, num_bingpai, has_jiangpai);
}

/// A hand in which one kind is held otherwise has as many tiles more or
/// less as that kind has.
pub proof fn lemma_total_set(counts: Seq<u8>, kind: int, n: u8)
    requires
        0 <= kind < counts.len(),
    ensures
        total_tiles(counts.update(kind, n)) == total_tiles(counts) - counts[kind] + n,
    decreases counts.len(),
{
    let changed = counts.update(kind, n);
    if kind == counts.len() - 1 {
        assert(changed.drop_last() =~= counts.drop_last());
    } else {
        assert(changed.drop_last() =~= counts.drop_last().update(kind, n));
        lemma_total_set(counts.drop_last(), kind, n);
    }
}

/// No hand is nearer to the standard shape than its tiles allow: with 3
/// tiles for each meld claimed before, the replacement number is at least
/// 14 less the tiles of the hand.
pub proof fn lemma_standard_lower_bound(counts: Seq<u8>, num_bingpai: int)
    requires
        counts.len() == NUM_TILE_INDEX,
        within_copies(counts, MAX_NUM_SAME_TILE as int),
    ensures
        standard_replacement_number(counts, num_bingpai) >= 14 - 3 * num_fulu_of(num_bingpai)
            - total_tiles(counts),
{
    lemma_standard_is_least(counts, num_bingpai);
    lemma_inner_lower_bound(counts, num_bingpai, false);
    let r = standard_replacement_number(counts, num_bingpai);
    if r != replacement_number_inner(counts, num_bingpai, false) {
        let kind = choose|kind: int|
            0 <= kind < NUM_TILE_INDEX && counts[kind] >= 2 && r == replacement_number_inner(
                #[trigger] without_jiangpai(counts, kind),
                num_bingpai,
                true,
            );
        let less = without_jiangpai(counts, kind);
        assert forall|i: int| 0 <= i < less.len() implies less[i] <= MAX_NUM_SAME_TILE by {
            assert(counts[i] <= MAX_NUM_SAME_TILE);
        }
        lemma_inner_lower_bound(less, num_bingpai, true);
        lemma_total_set(counts, kind, (counts[kind] - 2) as u8);
    }
}

/// A hand of 13 concealed tiles is at least one tile from the standard
/// shape, and so is every hand of 3n+1 tiles with its n-th part of melds
/// claimed.
pub proof fn lemma_not_complete_before_the_draw(counts: Seq<u8>)
    requires
        counts.len() == NUM_TILE_INDEX,
        within_copies(counts, MAX_NUM_SAME_TILE as int),
        1 <= total_tiles(counts) <= 13,
        total_tiles(counts) % 3 == 1,
    ensures
        standard_replacement_number(counts, total_tiles(counts)) >= 1,
{
    lemma_standard_lower_bound(counts, total_tiles(counts));
}

} // verus!
