use crate::bipai::shuffle::{choose_number, shuffle_mt};
use crate::generate_hand::count_in;
use crate::xiangting::bingpai::{lemma_total_bound, total_tiles, within_copies};
use crate::xiangting::bounds::lemma_total_set;
use mt19937::MT19937;
use vstd::prelude::*;

verus! {

/// Tiles of a full set.
pub const NUM_WALL: usize = 136;

/// The numbers of tiles that a hand can have.
pub const CHOICES: [usize; 10] = [1, 2, 4, 5, 7, 8, 10, 11, 13, 14];

/// Whether `n` is a number of tiles that a hand can have: from 1 to 14 and
/// no multiple of 3.
pub open spec fn is_hand_length(n: int) -> bool {
    1 <= n <= 14 && n % 3 != 0
}

/// The full set in order of kind: 4 tiles of each of the 34 kinds.
pub open spec fn ordered_wall() -> Seq<u8> {
    Seq::new(NUM_WALL as nat, |i: int| (i / 4) as u8)
}

proof fn lemma_count_in_multiset(tiles: Seq<u8>, kind: u8)
    ensures
        count_in(tiles, kind as int) == tiles.to_multiset().count(kind),
    decreases tiles.len(),
{
    broadcast use vstd::multiset::group_multiset_axioms;

    if tiles.len() > 0 {
        lemma_count_in_multiset(tiles.drop_last(), kind);
        assert(tiles =~= tiles.drop_last().push(tiles.last()));
        vstd::seq_lib::to_multiset_build(tiles.drop_last(), tiles.last());
    } else {
        tiles.to_multiset_ensures();
        assert(tiles.to_multiset().len() == 0);
    }
}

proof fn lemma_count_in_ordered(upto: int, kind: int)
    requires
        0 <= upto <= NUM_WALL,
        0 <= kind < 34,
    ensures
        count_in(ordered_wall().take(upto), kind) == if upto <= 4 * kind {
            0
        } else if upto >= 4 * kind + 4 {
            4
        } else {
            upto - 4 * kind
        },
    decreases upto,
{
    if upto > 0 {
        lemma_count_in_ordered(upto - 1, kind);
        assert(ordered_wall().take(upto).drop_last() =~= ordered_wall().take(upto - 1));
    }
}

proof fn lemma_count_in_prefix(tiles: Seq<u8>, upto: int, kind: int)
    requires
        0 <= upto <= tiles.len(),
    ensures
        0 <= count_in(tiles.take(upto), kind) <= count_in(tiles, kind),
    decreases tiles.len() - upto,
{
    if upto < tiles.len() {
        lemma_count_in_prefix(tiles, upto + 1, kind);
        assert(tiles.take(upto + 1).drop_last() =~= tiles.take(upto));
    } else {
        assert(tiles.take(upto) =~= tiles);
        lemma_count_nonneg(tiles, kind);
    }
    lemma_count_nonneg(tiles.take(upto), kind);
}

proof fn lemma_count_nonneg(tiles: Seq<u8>, kind: int)
    ensures
        0 <= count_in(tiles, kind),
    decreases tiles.len(),
{
    if tiles.len() > 0 {
        lemma_count_nonneg(tiles.drop_last(), kind);
    }
}

/// Draws a hand at random: a number of tiles that a hand can have, off a
/// full set in random order. No kind is held more than 4 times.
pub fn generate_random_pure_hand(rng: &mut MT19937) -> (hand: [u8; 34])
    ensures
        within_copies(hand@, 4),
        is_hand_length(total_tiles(hand@)),
{
    let mut wall: Vec<u8> = Vec::new();
    let mut i: usize = 0;
    while i < NUM_WALL
        invariant
            0 <= i <= NUM_WALL,
            wall@ == ordered_wall().take(i as int),
        decreases NUM_WALL - i,
    {
        wall.push((i / 4) as u8);
        proof {
            assert(wall@ =~= ordered_wall().take(i as int + 1));
        }
        i = i + 1;
    }
    proof {
        assert(ordered_wall().take(NUM_WALL as int) =~= ordered_wall());
    }
    shuffle_mt(&mut wall, rng);
    proof {
        wall@.to_multiset_ensures();
        ordered_wall().to_multiset_ensures();
        assert forall|kind: int| 0 <= kind < 34 implies count_in(wall@, kind) == 4 by {
            lemma_count_in_multiset(wall@, kind as u8);
            lemma_count_in_multiset(ordered_wall(), kind as u8);
            lemma_count_in_ordered(NUM_WALL as int, kind);
            assert(ordered_wall().take(NUM_WALL as int) =~= ordered_wall());
        }
        assert forall|k: int| 0 <= k < wall@.len() implies wall@[k] < 34 by {
            let t = wall@[k];
            assert(wall@.to_multiset().count(t) > 0) by {
                assert(wall@.contains(t));
            }
            assert(ordered_wall().contains(t));
            let j = choose|j: int| 0 <= j < ordered_wall().len() && ordered_wall()[j] == t;
            assert(ordered_wall()[j] == (j / 4) as u8);
        }
    }

    let hand_length: usize = match choose_number(&CHOICES, rng) {
        Some(n) => n,
        None => 1,
    };
    proof {
        assert(CHOICES@.len() == 10);
        assert(CHOICES@[0] == 1 && CHOICES@[1] == 2 && CHOICES@[2] == 4 && CHOICES@[3] == 5
            && CHOICES@[4] == 7 && CHOICES@[5] == 8 && CHOICES@[6] == 10 && CHOICES@[7] == 11
            && CHOICES@[8] == 13 && CHOICES@[9] == 14);
        assert(is_hand_length(hand_length as int));
    }

    let mut hand: [u8; 34] = [0u8;34];
    proof {
        lemma_total_bound(hand@, 0);
    }
    let mut k: usize = 0;
    while k < hand_length
        invariant
            0 <= k <= hand_length <= 14,
            wall@.len() == NUM_WALL,
            forall|j: int| 0 <= j < wall@.len() ==> wall@[j] < 34,
            forall|kind: int| 0 <= kind < 34 ==> count_in(wall@, kind) == 4,
            forall|kind: int|
                0 <= kind < 34 ==> #[trigger] hand@[kind] == count_in(wall@.take(k as int), kind),
            total_tiles(hand@) == k,
        decreases hand_length - k,
    {
        let t: usize = wall[k] as usize;
        proof {
            assert(wall@.take(k as int + 1).drop_last() =~= wall@.take(k as int));
            lemma_count_in_prefix(wall@, k as int + 1, t as int);
            lemma_total_set(hand@, t as int, (hand@[t as int] + 1) as u8);
        }
        hand[t] = hand[t] + 1;
        k = k + 1;
    }
    proof {
        assert forall|kind: int| 0 <= kind < hand@.len() implies hand@[kind] <= 4 by {
            lemma_count_in_prefix(wall@, hand_length as int, kind);
        }
    }
    hand
}

} // verus!
