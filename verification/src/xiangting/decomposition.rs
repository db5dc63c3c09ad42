use crate::xiangting::standard::{accounts_for, better_a, better_b, flush, has_shunzi,
    lemma_flush_from_conserves, lemma_suit_search_conserves, suit_ok, suit_search, tiles_from,
    updated_max, with_mianzi, without_kezi, without_shunzi, Blocks, BlocksPattern};
use vstd::prelude::*;

verus! {

/// A choice of complete sets to take out of a numbered suit.
pub struct Selection {
    /// For each of the ranks 1 to 7, how many runs that start there are taken.
    pub shunzi: Seq<int>,
    /// For each of the ranks 1 to 9, how many triplets of it are taken.
    pub kezi: Seq<int>,
}

/// How many runs that start at the rank with index `i` are taken.
pub open spec fn shunzi_at(s: Selection, i: int) -> int {
    if 0 <= i < 7 {
        s.shunzi[i]
    } else {
        0
    }
}

/// How many tiles of the rank with index `i` the selection takes.
pub open spec fn taken(s: Selection, i: int) -> int {
    3 * s.kezi[i] + shunzi_at(s, i) + shunzi_at(s, i - 1) + shunzi_at(s, i - 2)
}

/// What is left of the suit when the selection is taken out.
pub open spec fn remainder(counts: Seq<int>, s: Selection) -> Seq<int> {
    Seq::new(9, |i: int| counts[i] - taken(s, i))
}

/// How many complete sets the selection takes.
pub open spec fn num_mianzi(s: Selection) -> int {
    s.shunzi[0] + s.shunzi[1] + s.shunzi[2] + s.shunzi[3] + s.shunzi[4] + s.shunzi[5]
        + s.shunzi[6] + s.kezi[0] + s.kezi[1] + s.kezi[2] + s.kezi[3] + s.kezi[4] + s.kezi[5]
        + s.kezi[6] + s.kezi[7] + s.kezi[8]
}

/// Whether the selection can be taken out of the suit.
pub open spec fn selection_ok(counts: Seq<int>, s: Selection) -> bool {
    &&& s.shunzi.len() == 7
    &&& s.kezi.len() == 9
    &&& forall|i: int| 0 <= i < 7 ==> #[trigger] s.shunzi[i] >= 0
    &&& forall|i: int| 0 <= i < 9 ==> #[trigger] s.kezi[i] >= 0
    &&& forall|i: int| 0 <= i < 9 ==> #[trigger] remainder(counts, s)[i] >= 0
}

/// Whether the selection takes nothing that starts below the rank with index `n`.
pub open spec fn from_rank(s: Selection, n: int) -> bool {
    &&& forall|i: int| 0 <= i < n && i < 7 ==> #[trigger] s.shunzi[i] == 0
    &&& forall|i: int| 0 <= i < n && i < 9 ==> #[trigger] s.kezi[i] == 0
}

/// The blocks that the selection gives: its complete sets, and the partial
/// sets and isolated tiles that pairing off what is left gives.
pub open spec fn outcome(counts: Seq<int>, s: Selection) -> Blocks {
    Blocks {
        mianzi: num_mianzi(s),
        dazi: flush(remainder(counts, s)).dazi,
        gulipai: flush(remainder(counts, s)).gulipai,
    }
}

/// `x` has no more isolated tiles than `y` and, with as many, no fewer
/// partial sets.
pub open spec fn no_worse_a(x: Blocks, y: Blocks) -> bool {
    x.gulipai < y.gulipai || (x.gulipai == y.gulipai && x.dazi >= y.dazi)
}

/// `x` has no fewer complete sets than `y` and, with as many, no fewer
/// partial sets.
pub open spec fn no_worse_b(x: Blocks, y: Blocks) -> bool {
    x.mianzi > y.mianzi || (x.mianzi == y.mianzi && x.dazi >= y.dazi)
}

/// The selection that takes nothing.
pub open spec fn empty_selection() -> Selection {
    Selection { shunzi: Seq::new(7, |i: int| 0int), kezi: Seq::new(9, |i: int| 0int) }
}

/// The selection with one more run that starts at the rank with index `n`.
pub open spec fn with_shunzi(s: Selection, n: int) -> Selection {
    Selection { shunzi: s.shunzi.update(n, s.shunzi[n] + 1), kezi: s.kezi }
}

/// The selection with one more triplet of the rank with index `n`.
pub open spec fn with_kezi(s: Selection, n: int) -> Selection {
    Selection { shunzi: s.shunzi, kezi: s.kezi.update(n, s.kezi[n] + 1) }
}

proof fn lemma_add_shunzi(counts: Seq<int>, s: Selection, n: int)
    requires
        suit_ok(counts),
        0 <= n <= 6,
        has_shunzi(counts, n),
        selection_ok(without_shunzi(counts, n), s),
    ensures
        selection_ok(counts, with_shunzi(s, n)),
        remainder(counts, with_shunzi(s, n)) == remainder(without_shunzi(counts, n), s),
        num_mianzi(with_shunzi(s, n)) == num_mianzi(s) + 1,
        forall|k: int| from_rank(s, k) && k <= n ==> from_rank(with_shunzi(s, n), k),
{
    let t = with_shunzi(s, n);
    let less = without_shunzi(counts, n);
    assert(remainder(counts, t) =~= remainder(less, s)) by {
        assert forall|i: int| 0 <= i < 9 implies remainder(counts, t)[i] == remainder(less, s)[i] by {
            assert(taken(t, i) == taken(s, i) + if n <= i <= n + 2 {
                1int
            } else {
                0int
            });
        }
    }
    assert forall|i: int| 0 <= i < 9 implies #[trigger] remainder(counts, t)[i] >= 0 by {
        assert(remainder(less, s)[i] >= 0);
    }
    assert forall|i: int| 0 <= i < 7 implies #[trigger] t.shunzi[i] >= 0 by {
        assert(s.shunzi[i] >= 0);
    }
}

proof fn lemma_add_kezi(counts: Seq<int>, s: Selection, n: int)
    requires
        suit_ok(counts),
        0 <= n <= 8,
        counts[n] >= 3,
        selection_ok(without_kezi(counts, n), s),
    ensures
        selection_ok(counts, with_kezi(s, n)),
        remainder(counts, with_kezi(s, n)) == remainder(without_kezi(counts, n), s),
        num_mianzi(with_kezi(s, n)) == num_mianzi(s) + 1,
        forall|k: int| from_rank(s, k) && k <= n ==> from_rank(with_kezi(s, n), k),
{
    let t = with_kezi(s, n);
    let less = without_kezi(counts, n);
    assert(remainder(counts, t) =~= remainder(less, s)) by {
        assert forall|i: int| 0 <= i < 9 implies remainder(counts, t)[i] == remainder(less, s)[i] by {
            assert(taken(t, i) == taken(s, i) + if i == n {
                3int
            } else {
                0int
            });
        }
    }
    assert forall|i: int| 0 <= i < 9 implies #[trigger] remainder(counts, t)[i] >= 0 by {
        assert(remainder(less, s)[i] >= 0);
    }
    assert forall|i: int| 0 <= i < 9 implies #[trigger] t.kezi[i] >= 0 by {
        assert(s.kezi[i] >= 0);
    }
}

/// The decomposition with the fewest isolated tiles that the search finds is
/// one that can be had: some selection of complete sets from rank `n` upwards
/// gives exactly its blocks.
pub proof fn lemma_search_a_attained(counts: Seq<int>, n: int) -> (s: Selection)
    requires
        suit_ok(counts),
        0 <= n,
    ensures
        selection_ok(counts, s),
        from_rank(s, n),
        outcome(counts, s) == suit_search(counts, n).a,
    decreases 9 - n, counts[n],
{
    if n > 8 {
        let s = empty_selection();
        assert(remainder(counts, s) =~= counts);
        lemma_flush_from_conserves(counts, 0, 0);
        assert(num_mianzi(s) == 0);
        s
    } else {
        let untouched = suit_search(counts, n + 1);
        let after_shunzi = if has_shunzi(counts, n) {
            updated_max(untouched, with_mianzi(suit_search(without_shunzi(counts, n), n)))
        } else {
            untouched
        };
        assert(suit_search(counts, n) == if counts[n] >= 3 {
            updated_max(after_shunzi, with_mianzi(suit_search(without_kezi(counts, n), n)))
        } else {
            after_shunzi
        });
        if counts[n] >= 3 && better_a(
            with_mianzi(suit_search(without_kezi(counts, n), n)).a,
            after_shunzi.a,
        ) {
            let less = without_kezi(counts, n);
            assert(suit_ok(less));
            let s1 = lemma_search_a_attained(less, n);
            lemma_add_kezi(counts, s1, n);
            assert(outcome(counts, with_kezi(s1, n)) == with_mianzi(suit_search(less, n)).a);
            with_kezi(s1, n)
        } else if has_shunzi(counts, n) && better_a(
            with_mianzi(suit_search(without_shunzi(counts, n), n)).a,
            untouched.a,
        ) {
            let less = without_shunzi(counts, n);
            assert(suit_ok(less));
            let s1 = lemma_search_a_attained(less, n);
            lemma_add_shunzi(counts, s1, n);
            assert(outcome(counts, with_shunzi(s1, n)) == with_mianzi(suit_search(less, n)).a);
            with_shunzi(s1, n)
        } else {
            let s = lemma_search_a_attained(counts, n + 1);
            assert(from_rank(s, n));
            s
        }
    }
}

/// The decomposition with the most complete sets that the search finds is
/// one that can be had: some selection of complete sets from rank `n` upwards
/// gives exactly its blocks.
pub proof fn lemma_search_b_attained(counts: Seq<int>, n: int) -> (s: Selection)
    requires
        suit_ok(counts),
        0 <= n,
    ensures
        selection_ok(counts, s),
        from_rank(s, n),
        outcome(counts, s) == suit_search(counts, n).b,
    decreases 9 - n, counts[n],
{
    if n > 8 {
        let s = empty_selection();
        assert(remainder(counts, s) =~= counts);
        lemma_flush_from_conserves(counts, 0, 0);
        assert(num_mianzi(s) == 0);
        s
    } else {
        let untouched = suit_search(counts, n + 1);
        let after_shunzi = if has_shunzi(counts, n) {
            updated_max(untouched, with_mianzi(suit_search(without_shunzi(counts, n), n)))
        } else {
            untouched
        };
        assert(suit_search(counts, n) == if counts[n] >= 3 {
            updated_max(after_shunzi, with_mianzi(suit_search(without_kezi(counts, n), n)))
        } else {
            after_shunzi
        });
        if counts[n] >= 3 && better_b(
            with_mianzi(suit_search(without_kezi(counts, n), n)).b,
            after_shunzi.b,
        ) {
            let less = without_kezi(counts, n);
            assert(suit_ok(less));
            let s1 = lemma_search_b_attained(less, n);
            lemma_add_kezi(counts, s1, n);
            assert(outcome(counts, with_kezi(s1, n)) == with_mianzi(suit_search(less, n)).b);
            with_kezi(s1, n)
        } else if has_shunzi(counts, n) && better_b(
            with_mianzi(suit_search(without_shunzi(counts, n), n)).b,
            untouched.b,
        ) {
            let less = without_shunzi(counts, n);
            assert(suit_ok(less));
            let s1 = lemma_search_b_attained(less, n);
            lemma_add_shunzi(counts, s1, n);
            assert(outcome(counts, with_shunzi(s1, n)) == with_mianzi(suit_search(less, n)).b);
            with_shunzi(s1, n)
        } else {
            let s = lemma_search_b_attained(counts, n + 1);
            assert(from_rank(s, n));
            s
        }
    }
}

/// The selection with one run less that starts at the rank with index `n`.
pub open spec fn less_shunzi(s: Selection, n: int) -> Selection {
    Selection { shunzi: s.shunzi.update(n, s.shunzi[n] - 1), kezi: s.kezi }
}

/// The selection with one triplet less of the rank with index `n`.
pub open spec fn less_kezi(s: Selection, n: int) -> Selection {
    Selection { shunzi: s.shunzi, kezi: s.kezi.update(n, s.kezi[n] - 1) }
}

proof fn lemma_selection_nonneg(counts: Seq<int>, s: Selection, i: int)
    requires
        selection_ok(counts, s),
        0 <= i < 9,
    ensures
        s.kezi[i] >= 0,
        shunzi_at(s, i) >= 0,
        shunzi_at(s, i - 1) >= 0,
        shunzi_at(s, i - 2) >= 0,
        counts[i] - taken(s, i) >= 0,
{
    if i < 7 {
        assert(s.shunzi[i] >= 0);
    }
    if 0 <= i - 1 < 7 {
        assert(s.shunzi[i - 1] >= 0);
    }
    if 0 <= i - 2 < 7 {
        assert(s.shunzi[i - 2] >= 0);
    }
    assert(remainder(counts, s)[i] >= 0);
}

#[verifier::rlimit(50)]
proof fn lemma_drop_shunzi(counts: Seq<int>, s: Selection, n: int)
    requires
        suit_ok(counts),
        0 <= n <= 6,
        selection_ok(counts, s),
        s.shunzi[n] >= 1,
    ensures
        has_shunzi(counts, n),
        suit_ok(without_shunzi(counts, n)),
        selection_ok(without_shunzi(counts, n), less_shunzi(s, n)),
        remainder(without_shunzi(counts, n), less_shunzi(s, n)) == remainder(counts, s),
        num_mianzi(less_shunzi(s, n)) == num_mianzi(s) - 1,
        forall|k: int| from_rank(s, k) ==> from_rank(less_shunzi(s, n), k),
{
    let t = less_shunzi(s, n);
    let less = without_shunzi(counts, n);
    lemma_selection_nonneg(counts, s, n);
    lemma_selection_nonneg(counts, s, n + 1);
    lemma_selection_nonneg(counts, s, n + 2);
    assert(counts[n] >= 1 && counts[n + 1] >= 1 && counts[n + 2] >= 1);
    assert forall|i: int| 0 <= i < 9 implies remainder(less, t)[i] == remainder(counts, s)[i] by {
        assert(taken(t, i) == taken(s, i) - if n <= i <= n + 2 {
            1int
        } else {
            0int
        });
    }
    assert(remainder(less, t) =~= remainder(counts, s));
    assert forall|i: int| 0 <= i < 9 implies #[trigger] remainder(less, t)[i] >= 0 by {
        assert(remainder(counts, s)[i] >= 0);
    }
    assert forall|i: int| 0 <= i < 7 implies #[trigger] t.shunzi[i] >= 0 by {
        assert(s.shunzi[i] >= 0);
    }
}

#[verifier::rlimit(50)]
proof fn lemma_drop_kezi(counts: Seq<int>, s: Selection, n: int)
    requires
        suit_ok(counts),
        0 <= n <= 8,
        selection_ok(counts, s),
        s.kezi[n] >= 1,
    ensures
        counts[n] >= 3,
        suit_ok(without_kezi(counts, n)),
        selection_ok(without_kezi(counts, n), less_kezi(s, n)),
        remainder(without_kezi(counts, n), less_kezi(s, n)) == remainder(counts, s),
        num_mianzi(less_kezi(s, n)) == num_mianzi(s) - 1,
        forall|k: int| from_rank(s, k) ==> from_rank(less_kezi(s, n), k),
{
    let t = less_kezi(s, n);
    let less = without_kezi(counts, n);
    lemma_selection_nonneg(counts, s, n);
    assert(counts[n] >= 3);
    assert forall|i: int| 0 <= i < 9 implies remainder(less, t)[i] == remainder(counts, s)[i] by {
        assert(taken(t, i) == taken(s, i) - if i == n {
            3int
        } else {
            0int
        });
    }
    assert(remainder(less, t) =~= remainder(counts, s));
    assert forall|i: int| 0 <= i < 9 implies #[trigger] remainder(less, t)[i] >= 0 by {
        assert(remainder(counts, s)[i] >= 0);
    }
    assert forall|i: int| 0 <= i < 9 implies #[trigger] t.kezi[i] >= 0 by {
        assert(s.kezi[i] >= 0);
    }
}

proof fn lemma_num_mianzi_nonneg(counts: Seq<int>, s: Selection)
    requires
        selection_ok(counts, s),
    ensures
        num_mianzi(s) >= 0,
{
    assert(s.shunzi[0] >= 0 && s.shunzi[1] >= 0 && s.shunzi[2] >= 0 && s.shunzi[3] >= 0
        && s.shunzi[4] >= 0 && s.shunzi[5] >= 0 && s.shunzi[6] >= 0);
    assert(s.kezi[0] >= 0 && s.kezi[1] >= 0 && s.kezi[2] >= 0 && s.kezi[3] >= 0 && s.kezi[4] >= 0
        && s.kezi[5] >= 0 && s.kezi[6] >= 0 && s.kezi[7] >= 0 && s.kezi[8] >= 0);
}

/// The search is as good as any selection: of all ways to take complete sets
/// from rank `n` upwards out of the suit, none leaves fewer isolated tiles
/// than its first decomposition, or as few with more partial sets; and none
/// has more complete sets than its second decomposition, or as many with more
/// partial sets.
pub proof fn lemma_search_optimal(counts: Seq<int>, n: int, s: Selection)
    requires
        suit_ok(counts),
        0 <= n,
        selection_ok(counts, s),
        from_rank(s, n),
    ensures
        no_worse_a(suit_search(counts, n).a, outcome(counts, s)),
        no_worse_b(suit_search(counts, n).b, outcome(counts, s)),
    decreases 9 - n, num_mianzi(s),
{
    lemma_num_mianzi_nonneg(counts, s);
    let result = suit_search(counts, n);
    let goal = outcome(counts, s);
    if n > 8 {
        assert(s.kezi[0] == 0 && s.kezi[1] == 0 && s.kezi[2] == 0 && s.kezi[3] == 0 && s.kezi[4]
            == 0 && s.kezi[5] == 0 && s.kezi[6] == 0 && s.kezi[7] == 0 && s.kezi[8] == 0);
        assert(s.shunzi[0] == 0 && s.shunzi[1] == 0 && s.shunzi[2] == 0 && s.shunzi[3] == 0
            && s.shunzi[4] == 0 && s.shunzi[5] == 0 && s.shunzi[6] == 0);
        assert(remainder(counts, s) =~= counts);
        lemma_flush_from_conserves(counts, 0, 0);
    } else {
        let untouched = suit_search(counts, n + 1);
        let after_shunzi = if has_shunzi(counts, n) {
            updated_max(untouched, with_mianzi(suit_search(without_shunzi(counts, n), n)))
        } else {
            untouched
        };
        assert(result == if counts[n] >= 3 {
            updated_max(after_shunzi, with_mianzi(suit_search(without_kezi(counts, n), n)))
        } else {
            after_shunzi
        });
        if s.kezi[n] >= 1 {
            lemma_drop_kezi(counts, s, n);
            let t = less_kezi(s, n);
            let less = without_kezi(counts, n);
            lemma_num_mianzi_nonneg(less, t);
            lemma_search_optimal(less, n, t);
            let found = with_mianzi(suit_search(less, n));
            assert(goal.mianzi == outcome(less, t).mianzi + 1);
            assert(goal.dazi == outcome(less, t).dazi);
            assert(goal.gulipai == outcome(less, t).gulipai);
            assert(no_worse_a(found.a, goal));
            assert(no_worse_b(found.b, goal));
            assert(result == updated_max(after_shunzi, found));
            assert(no_worse_a(result.a, found.a));
            assert(no_worse_b(result.b, found.b));
        } else if n < 7 && s.shunzi[n] >= 1 {
            lemma_drop_shunzi(counts, s, n);
            let t = less_shunzi(s, n);
            let less = without_shunzi(counts, n);
            lemma_num_mianzi_nonneg(less, t);
            lemma_search_optimal(less, n, t);
            let found = with_mianzi(suit_search(less, n));
            assert(goal.mianzi == outcome(less, t).mianzi + 1);
            assert(goal.dazi == outcome(less, t).dazi);
            assert(goal.gulipai == outcome(less, t).gulipai);
            assert(no_worse_a(found.a, goal));
            assert(no_worse_b(found.b, goal));
            assert(after_shunzi == updated_max(untouched, found));
            assert(no_worse_a(after_shunzi.a, found.a));
            assert(no_worse_b(after_shunzi.b, found.b));
            assert(no_worse_a(result.a, after_shunzi.a));
            assert(no_worse_b(result.b, after_shunzi.b));
        } else {
            assert(s.kezi[n] >= 0);
            if n < 7 {
                assert(s.shunzi[n] >= 0);
            }
            assert(from_rank(s, n + 1));
            lemma_search_optimal(counts, n + 1, s);
            assert(no_worse_a(untouched.a, goal));
            assert(no_worse_b(untouched.b, goal));
            assert(no_worse_a(after_shunzi.a, untouched.a));
            assert(no_worse_b(after_shunzi.b, untouched.b));
            assert(no_worse_a(result.a, after_shunzi.a));
            assert(no_worse_b(result.b, after_shunzi.b));
        }
    }
}

/// What the search yields for a whole suit is fixed by what can be had: its
/// first decomposition has the fewest isolated tiles of all selections and,
/// among those, the most partial sets; its second has the most complete sets
/// and, among those, the most partial sets; and every decomposition accounts
/// for all tiles of the suit.
pub proof fn lemma_suit_search_is_best(counts: Seq<int>)
    requires
        suit_ok(counts),
    ensures
        exists|s: Selection|
            selection_ok(counts, s) && #[trigger] outcome(counts, s) == suit_search(counts, 0).a,
        exists|s: Selection|
            selection_ok(counts, s) && #[trigger] outcome(counts, s) == suit_search(counts, 0).b,
        forall|s: Selection|
            selection_ok(counts, s) ==> no_worse_a(
                suit_search(counts, 0).a,
                #[trigger] outcome(counts, s),
            ) && no_worse_b(suit_search(counts, 0).b, outcome(counts, s)),
        accounts_for(suit_search(counts, 0).a, tiles_from(counts, 0)),
        accounts_for(suit_search(counts, 0).b, tiles_from(counts, 0)),
{
    let sa = lemma_search_a_attained(counts, 0);
    let sb = lemma_search_b_attained(counts, 0);
    assert(outcome(counts, sa) == suit_search(counts, 0).a);
    assert(outcome(counts, sb) == suit_search(counts, 0).b);
    assert forall|s: Selection| selection_ok(counts, s) implies no_worse_a(
        suit_search(counts, 0).a,
        #[trigger] outcome(counts, s),
    ) && no_worse_b(suit_search(counts, 0).b, outcome(counts, s)) by {
        lemma_search_optimal(counts, 0, s);
    }
    lemma_suit_search_conserves(counts, 0);
}

} // verus!
