use crate::xiangting::bingpai::{total_tiles, within_copies};
use crate::xiangting::bounds::{lemma_not_complete_before_the_draw, lemma_total_by_suit,
    lemma_total_set};
use crate::xiangting::constants::{MAX_NUM_SAME_TILE, NUM_TILE_INDEX};
use crate::xiangting::decomposition::{lemma_search_optimal, num_mianzi, outcome, remainder,
    selection_ok, shunzi_at, taken, Selection};
use crate::xiangting::standard::{accounts_for, best_combination, combined, flush, flush_from,
    honor_blocks, ints, lemma_standard_is_least, lemma_suit_search_conserves, num_fulu_of,
    replacement_number_formula, replacement_number_inner, standard_replacement_number, suit_of,
    suit_ok, suit_search, tiles_from, without_jiangpai, Blocks};
use vstd::prelude::*;

verus! {

/// Whether the selection takes every tile of the suit.
pub open spec fn all_taken(counts: Seq<int>, s: Selection) -> bool {
    &&& selection_ok(counts, s)
    &&& forall|i: int| 0 <= i < 9 ==> #[trigger] remainder(counts, s)[i] == 0
}

/// Two tiles that are one tile away from a complete set pair off to one
/// partial set: two of a rank, or two single tiles at most two ranks apart.
proof fn lemma_flush_two_tiles(counts: Seq<int>, low: int, high: int)
    requires
        counts.len() == 9,
        0 <= low <= high <= 8,
        high <= low + 2,
        forall|i: int|
            0 <= i < 9 ==> #[trigger] counts[i] == (if i == low {
                1int
            } else {
                0int
            }) + (if i == high {
                1int
            } else {
                0int
            }),
    ensures
        flush(counts) == (Blocks { mianzi: 0, dazi: 1, gulipai: 0 }),
{
    reveal_with_fuel(flush_from, 10);
    assert(counts[0] + counts[1] + counts[2] + counts[3] + counts[4] + counts[5] + counts[6]
        + counts[7] + counts[8] == 2);
    if low == 0 {
        assert(flush(counts) == (Blocks { mianzi: 0, dazi: 1, gulipai: 0 }));
    } else if low == 1 {
        assert(flush(counts) == (Blocks { mianzi: 0, dazi: 1, gulipai: 0 }));
    } else if low == 2 {
        assert(flush(counts) == (Blocks { mianzi: 0, dazi: 1, gulipai: 0 }));
    } else if low == 3 {
        assert(flush(counts) == (Blocks { mianzi: 0, dazi: 1, gulipai: 0 }));
    } else if low == 4 {
        assert(flush(counts) == (Blocks { mianzi: 0, dazi: 1, gulipai: 0 }));
    } else if low == 5 {
        assert(flush(counts) == (Blocks { mianzi: 0, dazi: 1, gulipai: 0 }));
    } else if low == 6 {
        assert(flush(counts) == (Blocks { mianzi: 0, dazi: 1, gulipai: 0 }));
    } else if low == 7 {
        assert(flush(counts) == (Blocks { mianzi: 0, dazi: 1, gulipai: 0 }));
    } else {
        assert(flush(counts) == (Blocks { mianzi: 0, dazi: 1, gulipai: 0 }));
    }
}

/// Each complete set takes 3 tiles: a selection that takes every tile of
/// the suit takes a third as many sets as the suit has tiles.
pub proof fn lemma_all_taken_tiles(counts: Seq<int>, s: Selection)
    requires
        counts.len() == 9,
        all_taken(counts, s),
    ensures
        tiles_from(counts, 0) == 3 * num_mianzi(s),
{
    reveal_with_fuel(tiles_from, 10);
    assert(remainder(counts, s)[0] == 0);
    assert(remainder(counts, s)[1] == 0);
    assert(remainder(counts, s)[2] == 0);
    assert(remainder(counts, s)[3] == 0);
    assert(remainder(counts, s)[4] == 0);
    assert(remainder(counts, s)[5] == 0);
    assert(remainder(counts, s)[6] == 0);
    assert(remainder(counts, s)[7] == 0);
    assert(remainder(counts, s)[8] == 0);
}

proof fn lemma_broken_kezi(counts: Seq<int>, s: Selection, rank: int) -> (t: Selection)
    requires
        suit_ok(counts),
        all_taken(counts, s),
        0 <= rank < 9,
        s.kezi[rank] >= 1,
    ensures
        selection_ok(counts.update(rank, counts[rank] - 1), t),
        num_mianzi(t) == num_mianzi(s) - 1,
        flush(remainder(counts.update(rank, counts[rank] - 1), t)) == (Blocks {
            mianzi: 0,
            dazi: 1,
            gulipai: 0,
        }),
{
    let less = counts.update(rank, counts[rank] - 1);
    let t = Selection { shunzi: s.shunzi, kezi: s.kezi.update(rank, s.kezi[rank] - 1) };
    let rest = remainder(less, t);
    assert forall|i: int| 0 <= i < 9 implies #[trigger] rest[i] == (if i == rank {
        1int
    } else {
        0int
    }) + (if i == rank {
        1int
    } else {
        0int
    }) by {
        assert(remainder(counts, s)[i] == 0);
        assert(taken(t, i) == taken(s, i) - if i == rank {
            3int
        } else {
            0int
        });
    }
    assert forall|i: int| 0 <= i < 9 implies #[trigger] remainder(less, t)[i] >= 0 by {
        assert(rest[i] >= 0);
    }
    assert forall|i: int| 0 <= i < 9 implies #[trigger] t.kezi[i] >= 0 by {
        assert(s.kezi[i] >= 0);
    }
    lemma_flush_two_tiles(rest, rank, rank);
    t
}

proof fn lemma_broken_shunzi(counts: Seq<int>, s: Selection, rank: int, start: int) -> (t:
    Selection)
    requires
        suit_ok(counts),
        all_taken(counts, s),
        0 <= start <= 6,
        start <= rank <= start + 2,
        s.shunzi[start] >= 1,
    ensures
        selection_ok(counts.update(rank, counts[rank] - 1), t),
        num_mianzi(t) == num_mianzi(s) - 1,
        flush(remainder(counts.update(rank, counts[rank] - 1), t)) == (Blocks {
            mianzi: 0,
            dazi: 1,
            gulipai: 0,
        }),
{
    let less = counts.update(rank, counts[rank] - 1);
    let t = Selection { shunzi: s.shunzi.update(start, s.shunzi[start] - 1), kezi: s.kezi };
    let rest = remainder(less, t);
    let low: int = if rank == start {
        start + 1
    } else {
        start
    };
    let high: int = if rank == start + 2 {
        start + 1
    } else {
        start + 2
    };
    assert forall|i: int| 0 <= i < 9 implies #[trigger] rest[i] == (if i == low {
        1int
    } else {
        0int
    }) + (if i == high {
        1int
    } else {
        0int
    }) by {
        assert(remainder(counts, s)[i] == 0);
        assert(taken(t, i) == taken(s, i) - if start <= i <= start + 2 {
            1int
        } else {
            0int
        });
    }
    assert forall|i: int| 0 <= i < 9 implies #[trigger] remainder(less, t)[i] >= 0 by {
        assert(rest[i] >= 0);
    }
    assert forall|i: int| 0 <= i < 7 implies #[trigger] t.shunzi[i] >= 0 by {
        assert(s.shunzi[i] >= 0);
    }
    lemma_flush_two_tiles(rest, low, high);
    t
}

proof fn lemma_tile_in_a_set(counts: Seq<int>, s: Selection, rank: int)
    requires
        suit_ok(counts),
        all_taken(counts, s),
        0 <= rank < 9,
        counts[rank] >= 1,
    ensures
        s.kezi[rank] >= 1 || shunzi_at(s, rank) >= 1 || shunzi_at(s, rank - 1) >= 1 || shunzi_at(
            s,
            rank - 2,
        ) >= 1,
{
    assert(remainder(counts, s)[rank] == 0);
    assert(s.kezi[rank] >= 0);
}

/// A suit that is made of complete sets, less one tile: the search finds as
/// many complete sets as before less one, and then a partial set; or it
/// finds as many as before.
pub proof fn lemma_broken_suit(counts: Seq<int>, s: Selection, rank: int)
    requires
        suit_ok(counts),
        all_taken(counts, s),
        0 <= rank < 9,
        counts[rank] >= 1,
    ensures
        suit_ok(counts.update(rank, counts[rank] - 1)),
        tiles_from(counts.update(rank, counts[rank] - 1), 0) == 3 * num_mianzi(s) - 1,
        accounts_for(
            suit_search(counts.update(rank, counts[rank] - 1), 0).b,
            3 * num_mianzi(s) - 1,
        ),
        suit_search(counts.update(rank, counts[rank] - 1), 0).b.mianzi >= num_mianzi(s) || (
        suit_search(counts.update(rank, counts[rank] - 1), 0).b.mianzi == num_mianzi(s) - 1
            && suit_search(counts.update(rank, counts[rank] - 1), 0).b.dazi >= 1),
{
    let less = counts.update(rank, counts[rank] - 1);
    lemma_all_taken_tiles(counts, s);
    assert(tiles_from(less, 0) == tiles_from(counts, 0) - 1) by {
        reveal_with_fuel(tiles_from, 10);
    }
    assert(suit_ok(less));
    lemma_suit_search_conserves(less, 0);
    lemma_tile_in_a_set(counts, s, rank);
    let t = if s.kezi[rank] >= 1 {
        lemma_broken_kezi(counts, s, rank)
    } else if shunzi_at(s, rank) >= 1 {
        lemma_broken_shunzi(counts, s, rank, rank)
    } else if shunzi_at(s, rank - 1) >= 1 {
        lemma_broken_shunzi(counts, s, rank, rank - 1)
    } else {
        lemma_broken_shunzi(counts, s, rank, rank - 2)
    };
    assert(outcome(less, t).mianzi == num_mianzi(s) - 1);
    assert(outcome(less, t).dazi == 1);
    lemma_search_optimal(less, 0, t);
}

/// A suit that holds complete sets and perhaps more: the search finds no
/// fewer complete sets than a selection takes.
pub proof fn lemma_kept_suit(counts: Seq<int>, s: Selection)
    requires
        suit_ok(counts),
        selection_ok(counts, s),
    ensures
        suit_search(counts, 0).b.mianzi >= num_mianzi(s),
        accounts_for(suit_search(counts, 0).b, tiles_from(counts, 0)),
{
    lemma_search_optimal(counts, 0, s);
    lemma_suit_search_conserves(counts, 0);
}

/// A selection can still be taken out of a suit that has got one tile more.
pub proof fn lemma_grown_suit(counts: Seq<int>, s: Selection, rank: int)
    requires
        suit_ok(counts),
        selection_ok(counts, s),
        0 <= rank < 9,
        counts[rank] < 4,
    ensures
        suit_ok(counts.update(rank, counts[rank] + 1)),
        selection_ok(counts.update(rank, counts[rank] + 1), s),
        tiles_from(counts.update(rank, counts[rank] + 1), 0) == tiles_from(counts, 0) + 1,
{
    let more = counts.update(rank, counts[rank] + 1);
    assert(tiles_from(more, 0) == tiles_from(counts, 0) + 1) by {
        reveal_with_fuel(tiles_from, 10);
    }
    assert forall|i: int| 0 <= i < 9 implies #[trigger] remainder(more, s)[i] >= 0 by {
        assert(remainder(counts, s)[i] >= 0);
    }
}

/// Whether every honor kind is held 3 times or not at all.
pub open spec fn honors_in_triplets(honors: Seq<u8>) -> bool {
    forall|i: int| 0 <= i < honors.len() ==> #[trigger] honors[i] == 0 || honors[i] == 3
}

/// Whether the hand is a complete hand of the standard shape: 14 tiles that
/// are a pair of the kind `jiangpai` and complete sets, given for the three
/// numbered suits by the selections, for the honors by kinds held 3 times.
pub open spec fn is_complete(
    counts: Seq<u8>,
    jiangpai: int,
    wanzi: Selection,
    bingzi: Selection,
    suozi: Selection,
) -> bool {
    &&& counts.len() == NUM_TILE_INDEX
    &&& within_copies(counts, MAX_NUM_SAME_TILE as int)
    &&& total_tiles(counts) == 14
    &&& 0 <= jiangpai < NUM_TILE_INDEX
    &&& counts[jiangpai] >= 2
    &&& all_taken(suit_of(without_jiangpai(counts, jiangpai), 0), wanzi)
    &&& all_taken(suit_of(without_jiangpai(counts, jiangpai), 9), bingzi)
    &&& all_taken(suit_of(without_jiangpai(counts, jiangpai), 18), suozi)
    &&& honors_in_triplets(without_jiangpai(counts, jiangpai).subrange(27, 34))
}

/// The hand without one tile of `kind`.
pub open spec fn without_tile(counts: Seq<u8>, kind: int) -> Seq<u8> {
    counts.update(kind, (counts[kind] - 1) as u8)
}

/// What a kind held `n` times adds to the blocks of the honors.
pub open spec fn honor_part(n: u8) -> Blocks {
    Blocks {
        mianzi: if n >= 3 {
            1
        } else {
            0
        },
        dazi: if n == 2 {
            1
        } else {
            0
        },
        gulipai: if n == 1 {
            1
        } else {
            0
        },
    }
}

proof fn lemma_honor_update(honors: Seq<u8>, i: int, n: u8)
    requires
        0 <= i < honors.len(),
    ensures
        honor_blocks(honors.update(i, n)).mianzi == honor_blocks(honors).mianzi - honor_part(
            honors[i],
        ).mianzi + honor_part(n).mianzi,
        honor_blocks(honors.update(i, n)).dazi == honor_blocks(honors).dazi - honor_part(
            honors[i],
        ).dazi + honor_part(n).dazi,
        honor_blocks(honors.update(i, n)).gulipai == honor_blocks(honors).gulipai - honor_part(
            honors[i],
        ).gulipai + honor_part(n).gulipai,
    decreases honors.len(),
{
    let changed = honors.update(i, n);
    if i == honors.len() - 1 {
        assert(changed.drop_last() =~= honors.drop_last());
    } else {
        assert(changed.drop_last() =~= honors.drop_last().update(i, n));
        lemma_honor_update(honors.drop_last(), i, n);
    }
}

/// Honors that are held 3 times or not at all are complete sets and nothing else.
pub proof fn lemma_honor_triplets(honors: Seq<u8>)
    requires
        honors_in_triplets(honors),
    ensures
        honor_blocks(honors).dazi == 0,
        honor_blocks(honors).gulipai == 0,
        3 * honor_blocks(honors).mianzi == total_tiles(honors),
    decreases honors.len(),
{
    if honors.len() > 0 {
        let shorter = honors.drop_last();
        assert forall|i: int| 0 <= i < shorter.len() implies #[trigger] shorter[i] == 0
            || shorter[i] == 3 by {
            assert(honors[i] == 0 || honors[i] == 3);
        }
        lemma_honor_triplets(shorter);
        assert(honors[honors.len() - 1] == 0 || honors[honors.len() - 1] == 3);
    }
}

/// The suits and honors of a hand in which one kind is held otherwise.
proof fn lemma_suits_of_update(counts: Seq<u8>, kind: int, n: u8)
    requires
        counts.len() == NUM_TILE_INDEX,
        0 <= kind < NUM_TILE_INDEX,
    ensures
        forall|base: int|
            #![trigger suit_of(counts, base)]
            (base == 0 || base == 9 || base == 18) ==> suit_of(counts.update(kind, n), base) == (
            if base <= kind < base + 9 {
                suit_of(counts, base).update(kind - base, n as int)
            } else {
                suit_of(counts, base)
            }),
        counts.update(kind, n).subrange(27, 34) == (if kind >= 27 {
            counts.subrange(27, 34).update(kind - 27, n)
        } else {
            counts.subrange(27, 34)
        }),
{
    let changed = counts.update(kind, n);
    assert forall|base: int|
        #![trigger suit_of(counts, base)]
        (base == 0 || base == 9 || base == 18) implies suit_of(changed, base) == (if base <= kind
            < base + 9 {
        suit_of(counts, base).update(kind - base, n as int)
    } else {
        suit_of(counts, base)
    }) by {
        if base <= kind < base + 9 {
            assert(suit_of(changed, base) =~= suit_of(counts, base).update(kind - base, n as int));
        } else {
            assert(suit_of(changed, base) =~= suit_of(counts, base));
        }
    }
    if kind >= 27 {
        assert(changed.subrange(27, 34) =~= counts.subrange(27, 34).update(kind - 27, n));
    } else {
        assert(changed.subrange(27, 34) =~= counts.subrange(27, 34));
    }
}

proof fn lemma_suit_of_valid(counts: Seq<u8>, base: int)
    requires
        counts.len() == NUM_TILE_INDEX,
        within_copies(counts, MAX_NUM_SAME_TILE as int),
        base == 0 || base == 9 || base == 18,
    ensures
        suit_ok(suit_of(counts, base)),
        forall|i: int| 0 <= i < 9 ==> #[trigger] suit_of(counts, base)[i] == counts[base + i],
{
    let suit = suit_of(counts, base);
    assert forall|i: int| 0 <= i < 9 implies #[trigger] suit[i] == counts[base + i] by {
        assert(counts.subrange(base, base + 9)[i] == counts[base + i]);
    }
    assert forall|i: int| 0 <= i < 9 implies 0 <= #[trigger] suit[i] <= 4 by {
        assert(suit[i] == counts[base + i]);
    }
}

/// The blocks of a whole hand with 3 complete sets, a partial set and the
/// pair, or with 4 complete sets and one tile more, are one tile from the
/// standard shape.
proof fn lemma_one_away(
    m: Blocks,
    p: Blocks,
    s: Blocks,
    z: Blocks,
    tiles: int,
    has_jiangpai: bool,
    least_mianzi: int,
)
    requires
        m.mianzi >= 0 && m.dazi >= 0 && m.gulipai >= 0,
        p.mianzi >= 0 && p.dazi >= 0 && p.gulipai >= 0,
        s.mianzi >= 0 && s.dazi >= 0 && s.gulipai >= 0,
        z.mianzi >= 0 && z.dazi >= 0 && z.gulipai >= 0,
        3 * (m.mianzi + p.mianzi + s.mianzi + z.mianzi) + 2 * (m.dazi + p.dazi + s.dazi + z.dazi)
            + (m.gulipai + p.gulipai + s.gulipai + z.gulipai) == tiles,
        m.mianzi + p.mianzi + s.mianzi + z.mianzi >= least_mianzi,
        has_jiangpai ==> tiles == 11 && least_mianzi == 3 && (m.mianzi + p.mianzi + s.mianzi
            + z.mianzi == 3 ==> m.dazi + p.dazi + s.dazi + z.dazi >= 1),
        !has_jiangpai ==> tiles == 13 && least_mianzi == 4,
    ensures
        combined(m, p, s, z, 0, has_jiangpai) == 1,
{
    reveal(combined);
}

/// A hand one tile from complete is one exchange from complete: a complete
/// hand of the standard shape from which one tile is taken has the
/// replacement number 1 for the standard shape.
pub proof fn lemma_one_from_complete(
    counts: Seq<u8>,
    jiangpai: int,
    wanzi: Selection,
    bingzi: Selection,
    suozi: Selection,
    kind: int,
)
    requires
        is_complete(counts, jiangpai, wanzi, bingzi, suozi),
        0 <= kind < NUM_TILE_INDEX,
        counts[kind] >= 1,
    ensures
        standard_replacement_number(without_tile(counts, kind), 13) == 1,
{
    let hand = without_tile(counts, kind);
    let rest = without_jiangpai(counts, jiangpai);
    lemma_total_set(counts, kind, (counts[kind] - 1) as u8);
    lemma_total_set(counts, jiangpai, (counts[jiangpai] - 2) as u8);
    assert forall|i: int| 0 <= i < hand.len() implies hand[i] <= MAX_NUM_SAME_TILE by {
        assert(counts[i] <= MAX_NUM_SAME_TILE);
    }
    assert forall|i: int| 0 <= i < rest.len() implies rest[i] <= MAX_NUM_SAME_TILE by {
        assert(counts[i] <= MAX_NUM_SAME_TILE);
    }
    lemma_not_complete_before_the_draw(hand);
    lemma_standard_is_least(hand, 13);

    // The 12 tiles besides the pair are 4 complete sets.
    lemma_suit_of_valid(rest, 0);
    lemma_suit_of_valid(rest, 9);
    lemma_suit_of_valid(rest, 18);
    lemma_all_taken_tiles(suit_of(rest, 0), wanzi);
    lemma_all_taken_tiles(suit_of(rest, 9), bingzi);
    lemma_all_taken_tiles(suit_of(rest, 18), suozi);
    lemma_honor_triplets(rest.subrange(27, 34));
    lemma_total_by_suit(rest);
    let honors = rest.subrange(27, 34);

    if kind == jiangpai {
        // One tile of the pair is left, besides the 4 complete sets.
        let n = (rest[kind] + 1) as u8;
        assert(hand =~= rest.update(kind, n));
        lemma_suits_of_update(rest, kind, n);
        lemma_total_by_suit(hand);
        lemma_upper_without_pair(rest, hand, kind, wanzi, bingzi, suozi);
    } else {
        // The pair is set aside, and one complete set has lost a tile.
        let less = without_jiangpai(hand, jiangpai);
        let n = (rest[kind] - 1) as u8;
        assert(less =~= rest.update(kind, n));
        assert(hand[jiangpai] >= 2);
        lemma_suits_of_update(rest, kind, n);
        lemma_total_set(rest, kind, n);
        assert forall|i: int| 0 <= i < less.len() implies less[i] <= MAX_NUM_SAME_TILE by {
            assert(rest[i] <= MAX_NUM_SAME_TILE);
        }
        lemma_total_by_suit(less);
        lemma_upper_with_pair(rest, less, kind, wanzi, bingzi, suozi);
        assert(standard_replacement_number(hand, 13) <= replacement_number_inner(
            without_jiangpai(hand, jiangpai),
            13,
            true,
        ));
    }
}

proof fn lemma_upper_without_pair(
    rest: Seq<u8>,
    hand: Seq<u8>,
    kind: int,
    wanzi: Selection,
    bingzi: Selection,
    suozi: Selection,
)
    requires
        rest.len() == NUM_TILE_INDEX,
        within_copies(rest, MAX_NUM_SAME_TILE as int),
        within_copies(hand, MAX_NUM_SAME_TILE as int),
        0 <= kind < NUM_TILE_INDEX,
        rest[kind] <= 2,
        hand == rest.update(kind, (rest[kind] + 1) as u8),
        total_tiles(rest) == 12,
        total_tiles(hand) == 13,
        all_taken(suit_of(rest, 0), wanzi),
        all_taken(suit_of(rest, 9), bingzi),
        all_taken(suit_of(rest, 18), suozi),
        honors_in_triplets(rest.subrange(27, 34)),
    ensures
        replacement_number_inner(hand, 13, false) <= 1,
{
    let n = (rest[kind] + 1) as u8;
    lemma_suits_of_update(rest, kind, n);
    lemma_suit_of_valid(rest, 0);
    lemma_suit_of_valid(rest, 9);
    lemma_suit_of_valid(rest, 18);
    lemma_suit_of_valid(hand, 0);
    lemma_suit_of_valid(hand, 9);
    lemma_suit_of_valid(hand, 18);
    lemma_all_taken_tiles(suit_of(rest, 0), wanzi);
    lemma_all_taken_tiles(suit_of(rest, 9), bingzi);
    lemma_all_taken_tiles(suit_of(rest, 18), suozi);
    lemma_honor_triplets(rest.subrange(27, 34));
    lemma_total_by_suit(rest);
    lemma_total_by_suit(hand);
    if kind < 9 {
        lemma_grown_suit(suit_of(rest, 0), wanzi, kind);
    } else if kind < 18 {
        lemma_grown_suit(suit_of(rest, 9), bingzi, kind - 9);
    } else if kind < 27 {
        lemma_grown_suit(suit_of(rest, 18), suozi, kind - 18);
    } else {
        let honors = rest.subrange(27, 34);
        assert(honors[kind - 27] == rest[kind]);
        assert(honors[kind - 27] == 0 || honors[kind - 27] == 3);
        lemma_honor_update(honors, kind - 27, n);
    }
    lemma_kept_suit(suit_of(hand, 0), wanzi);
    lemma_kept_suit(suit_of(hand, 9), bingzi);
    lemma_kept_suit(suit_of(hand, 18), suozi);
    let m = suit_search(suit_of(hand, 0), 0);
    let p = suit_search(suit_of(hand, 9), 0);
    let s = suit_search(suit_of(hand, 18), 0);
    let z = honor_blocks(hand.subrange(27, 34));
    crate::xiangting::standard::lemma_honor_blocks_bound(hand.subrange(27, 34));
    assert(3 * z.mianzi + 2 * z.dazi + z.gulipai == total_tiles(hand.subrange(27, 34)));
    lemma_one_away(m.b, p.b, s.b, z, 13, false, 4);
}

proof fn lemma_upper_with_pair(
    rest: Seq<u8>,
    less: Seq<u8>,
    kind: int,
    wanzi: Selection,
    bingzi: Selection,
    suozi: Selection,
)
    requires
        rest.len() == NUM_TILE_INDEX,
        within_copies(rest, MAX_NUM_SAME_TILE as int),
        within_copies(less, MAX_NUM_SAME_TILE as int),
        0 <= kind < NUM_TILE_INDEX,
        rest[kind] >= 1,
        less == rest.update(kind, (rest[kind] - 1) as u8),
        total_tiles(rest) == 12,
        total_tiles(less) == 11,
        all_taken(suit_of(rest, 0), wanzi),
        all_taken(suit_of(rest, 9), bingzi),
        all_taken(suit_of(rest, 18), suozi),
        honors_in_triplets(rest.subrange(27, 34)),
    ensures
        replacement_number_inner(less, 13, true) <= 1,
{
    let n = (rest[kind] - 1) as u8;
    lemma_suits_of_update(rest, kind, n);
    lemma_suit_of_valid(rest, 0);
    lemma_suit_of_valid(rest, 9);
    lemma_suit_of_valid(rest, 18);
    lemma_suit_of_valid(less, 0);
    lemma_suit_of_valid(less, 9);
    lemma_suit_of_valid(less, 18);
    lemma_all_taken_tiles(suit_of(rest, 0), wanzi);
    lemma_all_taken_tiles(suit_of(rest, 9), bingzi);
    lemma_all_taken_tiles(suit_of(rest, 18), suozi);
    lemma_honor_triplets(rest.subrange(27, 34));
    lemma_total_by_suit(rest);
    lemma_total_by_suit(less);
    if kind < 9 {
        lemma_broken_suit(suit_of(rest, 0), wanzi, kind);
        lemma_kept_suit(suit_of(less, 9), bingzi);
        lemma_kept_suit(suit_of(less, 18), suozi);
    } else if kind < 18 {
        lemma_kept_suit(suit_of(less, 0), wanzi);
        lemma_broken_suit(suit_of(rest, 9), bingzi, kind - 9);
        lemma_kept_suit(suit_of(less, 18), suozi);
    } else if kind < 27 {
        lemma_kept_suit(suit_of(less, 0), wanzi);
        lemma_kept_suit(suit_of(less, 9), bingzi);
        lemma_broken_suit(suit_of(rest, 18), suozi, kind - 18);
    } else {
        lemma_kept_suit(suit_of(less, 0), wanzi);
        lemma_kept_suit(suit_of(less, 9), bingzi);
        lemma_kept_suit(suit_of(less, 18), suozi);
        let honors = rest.subrange(27, 34);
        assert(honors[kind - 27] == rest[kind]);
        assert(honors[kind - 27] == 0 || honors[kind - 27] == 3);
        lemma_honor_update(honors, kind - 27, n);
    }
    let m = suit_search(suit_of(less, 0), 0);
    let p = suit_search(suit_of(less, 9), 0);
    let s = suit_search(suit_of(less, 18), 0);
    let z = honor_blocks(less.subrange(27, 34));
    crate::xiangting::standard::lemma_honor_blocks_bound(less.subrange(27, 34));
    assert(3 * z.mianzi + 2 * z.dazi + z.gulipai == total_tiles(less.subrange(27, 34)));
    lemma_one_away(m.b, p.b, s.b, z, 11, true, 3);
}

} // verus!
