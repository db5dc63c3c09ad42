use crate::hand_tools::constants::NUM_TILE_INDEX;
use crate::hand_tools::tile::TileCounts;
use vstd::prelude::*;
use vstd::string::StrSliceExecFns;

verus! {

/// The index of the first tile of the suit that a suit letter names.
pub open spec fn color_base(c: char) -> Option<int> {
    if c == 'm' {
        Some(0)
    } else if c == 'p' {
        Some(9)
    } else if c == 's' {
        Some(18)
    } else if c == 'z' {
        Some(27)
    } else {
        None
    }
}

/// The rank that a digit from 1 to 9 names.
pub open spec fn rank_of(c: char) -> Option<int> {
    if c == '1' {
        Some(1)
    } else if c == '2' {
        Some(2)
    } else if c == '3' {
        Some(3)
    } else if c == '4' {
        Some(4)
    } else if c == '5' {
        Some(5)
    } else if c == '6' {
        Some(6)
    } else if c == '7' {
        Some(7)
    } else if c == '8' {
        Some(8)
    } else if c == '9' {
        Some(9)
    } else {
        None
    }
}

/// The tile that the digit `c` names in the suit that starts at `color`:
/// ranks 1 to 9 of a numbered suit, 1 to 7 of the honors.
pub open spec fn tile_of(c: char, color: Option<int>) -> Option<int> {
    match (rank_of(c), color) {
        (Some(rank), Some(base)) => if base == 27 && rank > 7 {
            None
        } else {
            Some(base + rank - 1)
        },
        _ => None,
    }
}

/// Whether `code` is a hand in the usual notation: digits, each followed
/// further right by the letter of its suit, as in `123m456p789s12344z`.
/// `color` is the suit that a letter to the right of `code` has set.
pub open spec fn code_ok(code: Seq<char>, color: Option<int>) -> bool
    decreases code.len(),
{
    if code.len() == 0 {
        true
    } else if color_base(code.last()) is Some {
        code_ok(code.drop_last(), color_base(code.last()))
    } else {
        tile_of(code.last(), color) is Some && code_ok(code.drop_last(), color)
    }
}

/// How many tiles of `kind` the hand `code` names.
pub open spec fn code_count(code: Seq<char>, color: Option<int>, kind: int) -> int
    decreases code.len(),
{
    if code.len() == 0 {
        0
    } else if color_base(code.last()) is Some {
        code_count(code.drop_last(), color_base(code.last()), kind)
    } else {
        code_count(code.drop_last(), color, kind) + if tile_of(code.last(), color) == Some(kind) {
            1int
        } else {
            0int
        }
    }
}

proof fn lemma_code_count_nonneg(code: Seq<char>, color: Option<int>, kind: int)
    ensures
        0 <= code_count(code, color, kind),
    decreases code.len(),
{
    if code.len() > 0 {
        lemma_code_count_nonneg(code.drop_last(), color, kind);
        lemma_code_count_nonneg(code.drop_last(), color_base(code.last()), kind);
    }
}

/// Tile counts from a hand written in the usual notation.
pub trait FromTileCode: Sized {
    /// Whether `hand` can be read.
    spec fn from_code_req(hand: Seq<char>) -> bool;

    /// Whether `self` is what `hand` says.
    spec fn is_code(&self, hand: Seq<char>) -> bool;

    /// Whether `self` holds no tile.
    spec fn is_empty(&self) -> bool;

    /// Whether one more tile of kind `idx` can be counted.
    spec fn apply_req(&self, idx: usize) -> bool;

    /// Whether `self` is `before` with one more tile of kind `idx`.
    spec fn is_applied(&self, before: &Self, idx: usize) -> bool;

    /// Reads a hand such as `123m456p789s12344z`.
    fn from_code(hand: &str) -> (r: Self)
        requires
            Self::from_code_req(hand@),
        ensures
            r.is_code(hand@),
    ;

    /// The counts of no tiles.
    fn empty() -> (r: Self)
        ensures
            r.is_empty(),
    ;

    /// Counts one more tile of kind `idx`.
    fn apply(self, idx: usize) -> (r: Self)
        requires
            self.apply_req(idx),
        ensures
            r.is_applied(&self, idx),
    ;
}

fn suit_base(c: char) -> (r: Option<usize>)
    ensures
        match r {
            Some(b) => color_base(c) == Some(b as int),
            None => color_base(c) is None,
        },
{
    if c == 'm' {
        Some(0)
    } else if c == 'p' {
        Some(9)
    } else if c == 's' {
        Some(18)
    } else if c == 'z' {
        Some(27)
    } else {
        None
    }
}

fn rank(c: char) -> (r: Option<usize>)
    ensures
        match r {
            Some(d) => rank_of(c) == Some(d as int),
            None => rank_of(c) is None,
        },
{
    if c == '1' {
        Some(1)
    } else if c == '2' {
        Some(2)
    } else if c == '3' {
        Some(3)
    } else if c == '4' {
        Some(4)
    } else if c == '5' {
        Some(5)
    } else if c == '6' {
        Some(6)
    } else if c == '7' {
        Some(7)
    } else if c == '8' {
        Some(8)
    } else if c == '9' {
        Some(9)
    } else {
        None
    }
}

/// The color that the scan of a hand holds, as a spec value.
pub open spec fn color_view(color: Option<usize>) -> Option<int> {
    match color {
        Some(b) => Some(b as int),
        None => None,
    }
}

impl FromTileCode for TileCounts {
    open spec fn from_code_req(hand: Seq<char>) -> bool {
        &&& code_ok(hand, None)
        &&& forall|kind: int|
            0 <= kind < NUM_TILE_INDEX ==> #[trigger] code_count(hand, None, kind) <= u8::MAX
    }

    open spec fn is_code(&self, hand: Seq<char>) -> bool {
        forall|kind: int|
            0 <= kind < NUM_TILE_INDEX ==> #[trigger] self@[kind] == code_count(hand, None, kind)
    }

    open spec fn is_empty(&self) -> bool {
        forall|kind: int| 0 <= kind < NUM_TILE_INDEX ==> #[trigger] self@[kind] == 0
    }

    open spec fn apply_req(&self, idx: usize) -> bool {
        idx < NUM_TILE_INDEX && self@[idx as int] < u8::MAX
    }

    open spec fn is_applied(&self, before: &Self, idx: usize) -> bool {
        self@ == before@.update(idx as int, (before@[idx as int] + 1) as u8)
    }

    fn from_code(hand: &str) -> (r: Self) {
        let mut result = Self::empty();
        let mut current_color: Option<usize> = None;
        let mut i: usize = hand.unicode_len();
        proof {
            assert(hand@.take(i as int) =~= hand@);
        }
        while i > 0
            invariant
                0 <= i <= hand@.len(),
                Self::from_code_req(hand@),
                current_color matches Some(b) ==> b == 0 || b == 9 || b == 18 || b == 27,
                code_ok(hand@.take(i as int), color_view(current_color)),
                forall|kind: int|
                    0 <= kind < NUM_TILE_INDEX ==> #[trigger] result@[kind] + code_count(
                        hand@.take(i as int),
                        color_view(current_color),
                        kind,
                    ) == code_count(hand@, None, kind),
            decreases i,
        {
            let ghost here = hand@.take(i as int);
            let ghost color = color_view(current_color);
            proof {
                assert(here.drop_last() =~= hand@.take(i as int - 1));
                assert(here.last() == hand@[i as int - 1]);
            }
            i = i - 1;
            let c: char = hand.get_char(i);
            match suit_base(c) {
                Some(b) => {
                    current_color = Some(b);
                },
                None => {
                    proof {
                        assert(tile_of(c, color) is Some);
                    }
                    let d: usize = match rank(c) {
                        Some(d) => d,
                        None => 1,
                    };
                    let base: usize = match current_color {
                        Some(b) => b,
                        None => 0,
                    };
                    let idx: usize = base + d - 1;
                    proof {
                        assert(tile_of(c, color) == Some(idx as int));
                        lemma_code_count_nonneg(here.drop_last(), color, idx as int);
                        assert(result@[idx as int] + code_count(here, color, idx as int)
                            == code_count(hand@, None, idx as int));
                        assert(code_count(hand@, None, idx as int) <= u8::MAX);
                    }
                    result = result.apply(idx);
                },
            }
        }
        proof {
            assert(hand@.take(0) =~= Seq::<char>::empty());
        }
        result
    }

    fn empty() -> (r: Self) {
        [0u8;NUM_TILE_INDEX]
    }

    fn apply(self, idx: usize) -> (r: Self) {
        let mut r = self;
        r[idx] = r[idx] + 1;
        r
    }
}

} // verus!
