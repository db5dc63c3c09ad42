use vstd::prelude::*;

verus! {

/// Number of tile kinds.
pub const NUM_TILE_INDEX: usize = 34;

/// Copies of each tile kind.
pub const MAX_NUM_SAME_TILE: u8 = 4;

/// Most tiles of a hand.
pub const MAX_NUM_HAND: usize = 14;

/// How often `kind` occurs among the tiles.
pub open spec fn count_in(tiles: Seq<u8>, kind: int) -> int
    decreases tiles.len(),
{
    if tiles.len() == 0 {
        0
    } else {
        count_in(tiles.drop_last(), kind) + if tiles.last() == kind {
            1int
        } else {
            0int
        }
    }
}

/// The hands of `length` tiles that begin with `prefix` and go on with kinds
/// from `start` upwards, in ascending order of kind and with at most 4 tiles
/// of a kind, in lexicographic order.
pub open spec fn hands_from(prefix: Seq<u8>, start: int, length: int) -> Seq<Seq<u8>>
    decreases length - prefix.len(), NUM_TILE_INDEX - start,
{
    if prefix.len() >= length {
        seq![prefix]
    } else if start >= NUM_TILE_INDEX {
        Seq::empty()
    } else if count_in(prefix, start) < MAX_NUM_SAME_TILE {
        hands_from(prefix.push(start as u8), start, length) + hands_from(prefix, start + 1, length)
    } else {
        hands_from(prefix, start + 1, length)
    }
}

/// All hands of `length` tiles, each as its kinds in ascending order, in
/// lexicographic order.
pub open spec fn all_pure_hands(length: int) -> Seq<Seq<u8>> {
    hands_from(Seq::empty(), 0, length)
}

/// The hands as sequences of kinds.
pub open spec fn hands_view(hands: Seq<Vec<u8>>) -> Seq<Seq<u8>> {
    Seq::new(hands.len(), |i: int| hands[i]@)
}

/// What is left of each kind once `hand` is taken out of a full set.
pub open spec fn tiles_left(tiles: Seq<u8>, hand: Seq<u8>) -> bool {
    &&& tiles.len() == NUM_TILE_INDEX
    &&& forall|kind: int|
        0 <= kind < NUM_TILE_INDEX ==> #[trigger] tiles[kind] == MAX_NUM_SAME_TILE - count_in(
            hand,
            kind,
        )
}

/// A copy of the hand.
pub fn copy_hand(hand: &Vec<u8>) -> (r: Vec<u8>)
    ensures
        r@ == hand@,
{
    let mut r: Vec<u8> = Vec::new();
    let mut i: usize = 0;
    while i < hand.len()
        invariant
            0 <= i <= hand@.len(),
            r@ == hand@.take(i as int),
        decreases hand@.len() - i,
    {
        r.push(hand[i]);
        proof {
            assert(r@ =~= hand@.take(i as int + 1));
        }
        i = i + 1;
    }
    proof {
        assert(hand@.take(hand@.len() as int) =~= hand@);
    }
    r
}

/// `format!` of std: the message that says which length was asked for.
/// Nothing is claimed of the text.
#[verifier::external_body]
pub(crate) fn length_error(length: usize) -> String {
    format!("Hand length must be between 1 and 14.: {}", length)
}

/// Lists all hands of `length` tiles, from 1 to 14: each hand as its kinds
/// in ascending order, the hands in lexicographic order.
pub fn generate_all_pure_hand(length: usize) -> (r: Result<Vec<Vec<u8>>, String>)
    ensures
        match r {
            Ok(hands) => 1 <= length <= MAX_NUM_HAND && hands_view(hands@) == all_pure_hands(
                length as int,
            ),
            Err(_) => length < 1 || length > MAX_NUM_HAND,
        },
{
    if length < 1 || length > 14 {
        return Err(length_error(length));
    }
    let mut result: Vec<Vec<u8>> = Vec::new();
    let mut tiles: [u8; 34] = [4u8;34];
    let mut current_hand: Vec<u8> = Vec::new();
    proof {
        assert(hands_view(result@) =~= Seq::<Seq<u8>>::empty());
    }
    backtrack(&mut result, &mut current_hand, &mut tiles, length, 0);
    Ok(result)
}

/// Appends to `result` the hands of `length` tiles that begin with
/// `current_hand` and go on with kinds from `start` upwards. `tiles` holds
/// what is left of each kind; it and `current_hand` are as they were on return.
pub fn backtrack(
    result: &mut Vec<Vec<u8>>,
    current_hand: &mut Vec<u8>,
    tiles: &mut [u8; 34],
    length: usize,
    start: usize,
)
    requires
        old(current_hand)@.len() <= length,
        start <= NUM_TILE_INDEX,
        tiles_left(old(tiles)@, old(current_hand)@),
    ensures
        hands_view(final(result)@) == hands_view(old(result)@) + hands_from(
            old(current_hand)@,
            start as int,
            length as int,
        ),
        final(current_hand)@ == old(current_hand)@,
        final(tiles)@ == old(tiles)@,
    decreases length - old(current_hand)@.len(), NUM_TILE_INDEX - start,
{
    let ghost hand = current_hand@;
    let ghost before = hands_view(result@);
    if current_hand.len() == length {
        let copy = copy_hand(current_hand);
        result.push(copy);
        proof {
            assert(hands_view(result@) =~= before + seq![hand]);
        }
        return ;
    }
    let mut i: usize = start;
    while i < NUM_TILE_INDEX
        invariant
            start <= i <= NUM_TILE_INDEX,
            current_hand@ == hand,
            hand == old(current_hand)@,
            hand.len() < length,
            tiles@ == old(tiles)@,
            tiles_left(tiles@, hand),
            before + hands_from(hand, start as int, length as int) == hands_view(result@)
                + hands_from(hand, i as int, length as int),
        decreases NUM_TILE_INDEX - i,
    {
        let ghost so_far = hands_view(result@);
        if tiles[i] > 0 {
            tiles[i] = tiles[i] - 1;
            current_hand.push(i as u8);
            proof {
                let longer = hand.push(i as u8);
                assert(longer.drop_last() =~= hand);
                assert forall|kind: int| 0 <= kind < NUM_TILE_INDEX implies #[trigger] tiles@[kind]
                    == MAX_NUM_SAME_TILE - count_in(longer, kind) by {
                    assert(old(tiles)@[kind] == MAX_NUM_SAME_TILE - count_in(hand, kind));
                }
            }
            backtrack(result, current_hand, tiles, length, i);
            current_hand.pop();
            tiles[i] = tiles[i] + 1;
            proof {
                assert(current_hand@ =~= hand);
                assert(tiles@ =~= old(tiles)@);
                assert(so_far + (hands_from(hand.push(i as u8), i as int, length as int)
                    + hands_from(hand, i as int + 1, length as int)) =~= (so_far + hands_from(
                    hand.push(i as u8),
                    i as int,
                    length as int,
                )) + hands_from(hand, i as int + 1, length as int));
            }
        }
        i = i + 1;
    }
    proof {
        assert(hands_view(result@) + Seq::<Seq<u8>>::empty() =~= hands_view(result@));
    }
}

} // verus!
