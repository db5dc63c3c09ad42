use crate::generate_hand::{all_pure_hands, copy_hand, count_in, hands_from, length_error,
    tiles_left, MAX_NUM_HAND, MAX_NUM_SAME_TILE, NUM_TILE_INDEX};
use vstd::prelude::*;

verus! {

/// Hands out, one by one, all hands of a given number of tiles: each hand as
/// its kinds in ascending order, the hands in lexicographic order.
pub struct HandEnumerator {
    tiles: [u8; 34],
    current_hand: Vec<u8>,
    stack: Vec<usize>,
    length: usize,
}

/// The hands that a search yields which stands at the hand `hand` and has,
/// for each of its tiles and for the next tile, the kind in `stack` to go on
/// with: the hands that go on from the whole hand first, then those that go
/// on from its shorter beginnings.
pub open spec fn remaining_of(hand: Seq<u8>, stack: Seq<usize>, length: int) -> Seq<Seq<u8>>
    decreases stack.len(),
{
    if stack.len() == 0 {
        Seq::empty()
    } else {
        hands_from(hand.take(stack.len() - 1), stack.last() as int, length) + remaining_of(
            hand,
            stack.drop_last(),
            length,
        )
    }
}

spec fn pow36(n: nat) -> int
    decreases n,
{
    if n == 0 {
        1
    } else {
        36 * pow36((n - 1) as nat)
    }
}

/// A number that falls with every step of the search.
spec fn weight(stack: Seq<usize>, length: int) -> int
    decreases stack.len(),
{
    if stack.len() == 0 {
        0
    } else {
        weight(stack.drop_last(), length) + (35 - stack.last()) * pow36(
            (length - (stack.len() - 1)) as nat,
        )
    }
}

proof fn lemma_pow36_positive(n: nat)
    ensures
        pow36(n) >= 1,
    decreases n,
{
    if n > 0 {
        lemma_pow36_positive((n - 1) as nat);
    }
}

proof fn lemma_weight_nonneg(stack: Seq<usize>, length: int)
    requires
        forall|j: int| 0 <= j < stack.len() ==> stack[j] <= NUM_TILE_INDEX,
    ensures
        weight(stack, length) >= 0,
    decreases stack.len(),
{
    if stack.len() > 0 {
        lemma_weight_nonneg(stack.drop_last(), length);
        let p = pow36((length - (stack.len() - 1)) as nat);
        lemma_pow36_positive((length - (stack.len() - 1)) as nat);
        let f = 35 - stack.last();
        assert(f * p >= 0) by (nonlinear_arith)
            requires
                f >= 1,
                p >= 1,
        ;
    }
}

/// What is left of the search depends on the hand only as far as the stack
/// reaches into it.
proof fn lemma_remaining_prefix(hand: Seq<u8>, other: Seq<u8>, stack: Seq<usize>, length: int)
    requires
        stack.len() >= 1 ==> hand.take(stack.len() - 1) == other.take(stack.len() - 1),
        stack.len() <= hand.len() + 1,
        stack.len() <= other.len() + 1,
    ensures
        remaining_of(hand, stack, length) == remaining_of(other, stack, length),
    decreases stack.len(),
{
    if stack.len() > 0 {
        if stack.len() > 1 {
            assert(hand.take(stack.len() - 2) =~= hand.take(stack.len() - 1).take(stack.len() - 2));
            assert(other.take(stack.len() - 2) =~= other.take(stack.len() - 1).take(
                stack.len() - 2,
            ));
        }
        lemma_remaining_prefix(hand, other, stack.drop_last(), length);
    }
}

proof fn lemma_count_in_push(hand: Seq<u8>, tile: u8, kind: int)
    ensures
        count_in(hand.push(tile), kind) == count_in(hand, kind) + if tile == kind {
            1int
        } else {
            0int
        },
        count_in(hand, kind) >= 0,
{
    assert(hand.push(tile).drop_last() =~= hand);
    lemma_count_in_nonneg(hand, kind);
}

proof fn lemma_count_in_nonneg(hand: Seq<u8>, kind: int)
    ensures
        count_in(hand, kind) >= 0,
    decreases hand.len(),
{
    if hand.len() > 0 {
        lemma_count_in_nonneg(hand.drop_last(), kind);
    }
}

impl HandEnumerator {
    /// Whether the enumerator is in a state of its search.
    pub closed spec fn wf(&self) -> bool {
        &&& 1 <= self.length <= MAX_NUM_HAND
        &&& self.current_hand@.len() <= self.length
        &&& tiles_left(self.tiles@, self.current_hand@)
        &&& (self.stack@.len() == self.current_hand@.len() + 1 || (self.stack@.len() == 0
            && self.current_hand@.len() == 0))
        &&& forall|j: int| 0 <= j < self.stack@.len() ==> #[trigger] self.stack@[j] <= NUM_TILE_INDEX
        &&& forall|j: int|
            0 <= j < self.current_hand@.len() ==> #[trigger] self.current_hand@[j] < NUM_TILE_INDEX
    }

    /// The hands that are still to come, in the order in which they come.
    pub closed spec fn remaining(&self) -> Seq<Seq<u8>> {
        remaining_of(self.current_hand@, self.stack@, self.length as int)
    }

    /// The number of tiles of each hand.
    pub closed spec fn length_spec(&self) -> int {
        self.length as int
    }

    /// Starts the enumeration of the hands of `length` tiles, from 1 to 14.
    pub fn new(length: usize) -> (r: Result<Self, String>)
        ensures
            match r {
                Ok(e) => 1 <= length <= MAX_NUM_HAND && e.wf() && e.length_spec() == length
                    && e.remaining() == all_pure_hands(length as int),
                Err(_) => length < 1 || length > MAX_NUM_HAND,
            },
    {
        if length < 1 || length > MAX_NUM_HAND {
            return Err(length_error(length));
        }
        let mut stack: Vec<usize> = Vec::new();
        stack.push(0);
        let e = Self { tiles: [MAX_NUM_SAME_TILE;34], current_hand: Vec::new(), stack, length };
        proof {
            let s = e.stack@;
            let h = e.current_hand@;
            assert(s.drop_last() =~= Seq::<usize>::empty());
            assert(h.take(0) =~= Seq::<u8>::empty());
            assert(remaining_of(h, s.drop_last(), length as int) =~= Seq::<Seq<u8>>::empty());
            assert(remaining_of(h, s, length as int) =~= hands_from(
                Seq::<u8>::empty(),
                0,
                length as int,
            ));
        }
        Ok(e)
    }

    /// Hands out the next hand, or `None` when all hands have been handed out.
    pub fn next(&mut self) -> (r: Option<Vec<u8>>)
        requires
            old(self).wf(),
        ensures
            final(self).wf(),
            final(self).length_spec() == old(self).length_spec(),
            match r {
                Some(hand) => old(self).remaining().len() > 0 && hand@ == old(self).remaining()[0]
                    && final(self).remaining() == old(self).remaining().drop_first(),
                None => old(self).remaining().len() == 0 && final(self).remaining().len() == 0,
            },
    {
        loop
            invariant
                self.wf(),
                self.length == old(self).length,
                self.remaining() == old(self).remaining(),
            decreases weight(self.stack@, self.length as int),
        {
            let ghost s = self.stack@;
            let ghost h = self.current_hand@;
            let ghost len = self.length as int;
            let i: usize = match self.stack.pop() {
                Some(i) => i,
                None => {
                    return None;
                },
            };
            proof {
                assert(self.stack@ =~= s.drop_last());
                assert(h.take(s.len() - 1) =~= h);
                lemma_pow36_positive((len - (s.len() - 1)) as nat);
                lemma_weight_nonneg(s.drop_last(), len);
            }
            if self.current_hand.len() == self.length {
                let result = copy_hand(&self.current_hand);
                let last_tile: u8 = match self.current_hand.pop() {
                    Some(t) => t,
                    None => 0,
                };
                proof {
                    assert(self.current_hand@ =~= h.drop_last());
                    assert(h =~= h.drop_last().push(last_tile));
                    assert forall|kind: int| 0 <= kind < NUM_TILE_INDEX implies count_in(h, kind)
                        == count_in(h.drop_last(), kind) + if last_tile == kind {
                        1int
                    } else {
                        0int
                    } by {
                        lemma_count_in_push(h.drop_last(), last_tile, kind);
                    }
                    lemma_count_in_push(h.drop_last(), last_tile, last_tile as int);
                    assert(self.tiles@[last_tile as int] == MAX_NUM_SAME_TILE - count_in(
                        h,
                        last_tile as int,
                    ));
                }
                self.tiles[last_tile as usize] = self.tiles[last_tile as usize] + 1;
                proof {
                    assert(h.take(h.len() - 1) =~= h.drop_last());
                    assert(h.drop_last().take(h.len() - 1) =~= h.drop_last());
                    lemma_remaining_prefix(h, h.drop_last(), s.drop_last(), len);
                    assert(hands_from(h, i as int, len) =~= seq![h]);
                    assert((seq![h] + remaining_of(h, s.drop_last(), len)).drop_first()
                        =~= remaining_of(h, s.drop_last(), len));
                }
                return Some(result);
            }
            if i >= NUM_TILE_INDEX {
                // This level is done: step back.
                proof {
                    assert(hands_from(h, i as int, len) =~= Seq::<Seq<u8>>::empty());
                    assert(Seq::<Seq<u8>>::empty() + remaining_of(h, s.drop_last(), len)
                        =~= remaining_of(h, s.drop_last(), len));
                    let f = 35 - i as int;
                    let p = pow36((len - (s.len() - 1)) as nat);
                    assert(f * p >= 1) by (nonlinear_arith)
                        requires
                            f >= 1,
                            p >= 1,
                    ;
                }
                match self.current_hand.pop() {
                    Some(last_tile) => {
                        proof {
                            assert(self.current_hand@ =~= h.drop_last());
                            assert(h =~= h.drop_last().push(last_tile));
                            assert forall|kind: int| 0 <= kind < NUM_TILE_INDEX implies count_in(
                                h,
                                kind,
                            ) == count_in(h.drop_last(), kind) + if last_tile == kind {
                                1int
                            } else {
                                0int
                            } by {
                                lemma_count_in_push(h.drop_last(), last_tile, kind);
                            }
                            lemma_count_in_push(h.drop_last(), last_tile, last_tile as int);
                            assert(self.tiles@[last_tile as int] == MAX_NUM_SAME_TILE - count_in(
                                h,
                                last_tile as int,
                            ));
                            assert(h.take(h.len() - 1) =~= h.drop_last());
                            assert(h.drop_last().take(h.len() - 1) =~= h.drop_last());
                            lemma_remaining_prefix(h, h.drop_last(), s.drop_last(), len);
                        }
                        self.tiles[last_tile as usize] = self.tiles[last_tile as usize] + 1;
                    },
                    None => {},
                }
                continue ;
            }
            proof {
                assert(self.tiles@[i as int] == MAX_NUM_SAME_TILE - count_in(h, i as int));
            }
            if self.tiles[i] > 0 {
                // Take the tile, and go on with the same kind one level up.
                self.tiles[i] = self.tiles[i] - 1;
                self.current_hand.push(i as u8);
                self.stack.push(i + 1);
                self.stack.push(i);
                proof {
                    let h2 = h.push(i as u8);
                    let s1 = s.drop_last().push((i + 1) as usize);
                    let s2 = s1.push(i);
                    assert(self.stack@ =~= s2);
                    assert(s2.drop_last() =~= s1);
                    assert(s1.drop_last() =~= s.drop_last());
                    assert forall|kind: int| 0 <= kind < NUM_TILE_INDEX implies
                        #[trigger] self.tiles@[kind] == MAX_NUM_SAME_TILE - count_in(h2, kind) by {
                        lemma_count_in_push(h, i as u8, kind);
                    }
                    assert(h2.take(s2.len() - 1) =~= h2);
                    assert(h2.take(s1.len() - 1) =~= h);
                    if s.len() > 1 {
                        assert(h2.take(s.len() - 2) =~= h.take(s.len() - 2));
                    }
                    lemma_remaining_prefix(h2, h, s.drop_last(), len);
                    assert(s1.last() == i + 1);
                    assert(s2.last() == i);
                    assert(remaining_of(h2, s1, len) == hands_from(h, i as int + 1, len)
                        + remaining_of(h2, s.drop_last(), len));
                    assert(remaining_of(h2, s2, len) == hands_from(h2, i as int, len)
                        + remaining_of(h2, s1, len));
                    assert(hands_from(h2, i as int, len) + (hands_from(h, i as int + 1, len)
                        + remaining_of(h, s.drop_last(), len)) =~= (hands_from(
                        h2,
                        i as int,
                        len,
                    ) + hands_from(h, i as int + 1, len)) + remaining_of(h, s.drop_last(), len));
                    // The step lowers the weight.
                    let n = (len - (s.len() - 1)) as nat;
                    let p = pow36((n - 1) as nat);
                    lemma_pow36_positive((n - 1) as nat);
                    assert(pow36(n) == 36 * p);
                    let w0 = weight(s.drop_last(), len);
                    assert(weight(s1, len) == w0 + (35 - (i + 1)) * pow36(n));
                    assert(weight(s2, len) == weight(s1, len) + (35 - i) * p);
                    assert(weight(s, len) == w0 + (35 - i) * pow36(n));
                    let k = i as int;
                    assert((35 - (k + 1)) * (36 * p) + (35 - k) * p < (35 - k) * (36 * p))
                        by (nonlinear_arith)
                        requires
                            p >= 1,
                            0 <= k <= 33,
                    ;
                }
            } else {
                // None of this kind is left: go on with the next kind.
                self.stack.push(i + 1);
                proof {
                    let s1 = s.drop_last().push((i + 1) as usize);
                    assert(self.stack@ =~= s1);
                    assert(s1.drop_last() =~= s.drop_last());
                    assert(h.take(s1.len() - 1) =~= h);
                    let n = (len - (s.len() - 1)) as nat;
                    let p = pow36(n);
                    let w0 = weight(s.drop_last(), len);
                    assert(weight(s1, len) == w0 + (35 - (i + 1)) * p);
                    assert(weight(s, len) == w0 + (35 - i) * p);
                    let k = i as int;
                    assert((35 - (k + 1)) * p < (35 - k) * p) by (nonlinear_arith)
                        requires
                            p >= 1,
                    ;
                }
            }
        }
    }
}

} // verus!
