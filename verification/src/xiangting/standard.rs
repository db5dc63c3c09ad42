use crate::xiangting::bingpai::{within_copies, Bingpai};
use crate::xiangting::constants::{MAX_NUM_FULU_MIANZI, MAX_NUM_SAME_TILE, NUM_TILE_INDEX};
use crate::xiangting::mianzi::Mianzi;
use crate::xiangting::shoupai::{all_mianzi_valid, count_fulupai, fulupai_count, shoupai_fits};
use crate::xiangting::tile_flag::{tile_flag_bits, tile_flag_raise, tile_flag_zero, TileFlag};
use vstd::prelude::*;

verus! {

/// Blocks of a decomposition, as mathematical integers.
pub struct Blocks {
    /// Complete sets: runs of three consecutive ranks, or triplets.
    pub mianzi: int,
    /// Partial sets: two tiles one tile away from a complete set.
    pub dazi: int,
    /// Isolated tiles.
    pub gulipai: int,
}

/// The two decompositions of a suit that are carried forward.
pub struct BlocksPattern {
    /// Fewest isolated tiles; among those, most partial sets.
    pub a: Blocks,
    /// Most complete sets; among those, most partial sets.
    pub b: Blocks,
}

/// Numbers of complete sets, partial sets and isolated tiles.
#[derive(Debug, Clone, Copy, PartialEq, Eq)]
pub struct MianziDaziGulipai {
    pub num_mianzi: u8,
    pub num_dazi: u8,
    pub num_gulipai: u8,
}

/// The two candidate decompositions of one numbered suit.
#[derive(Debug, Clone, Copy, PartialEq, Eq)]
pub struct MianziDaziGulipaiPattern {
    pub a: MianziDaziGulipai,
    pub b: MianziDaziGulipai,
}

impl View for MianziDaziGulipai {
    type V = Blocks;

    open spec fn view(&self) -> Blocks {
        Blocks {
            mianzi: self.num_mianzi as int,
            dazi: self.num_dazi as int,
            gulipai: self.num_gulipai as int,
        }
    }
}

impl View for MianziDaziGulipaiPattern {
    type V = BlocksPattern;

    open spec fn view(&self) -> BlocksPattern {
        BlocksPattern { a: self.a@, b: self.b@ }
    }
}

/// The counts as mathematical integers.
pub open spec fn ints(counts: Seq<u8>) -> Seq<int> {
    Seq::new(counts.len(), |i: int| counts[i] as int)
}

/// The replacement number that `mianzi` complete sets, `dazi` partial sets and
/// `gulipai` isolated tiles give, with or without a pair set aside.
///
/// Sets above 4 count as partial sets, sets and partial sets above 4 together
/// count as isolated tiles, and blocks above the 4 (with a pair) or 5
/// (without) that a hand needs are dropped from the isolated tiles. The pair
/// counts as one more partial set.
pub open spec fn replacement_number_formula(
    mianzi: int,
    dazi: int,
    gulipai: int,
    has_jiangpai: bool,
) -> int {
    let required: int = if has_jiangpai { 4 } else { 5 };
    let m: int = if mianzi > 4 { 4 } else { mianzi };
    let d1: int = if mianzi > 4 { dazi + mianzi - 4 } else { dazi };
    let d2: int = if m + d1 > 4 { 4 - m } else { d1 };
    let g1: int = if m + d1 > 4 { gulipai + m + d1 - 4 } else { gulipai };
    let g2: int = if m + d2 + g1 > required { required - m - d2 } else { g1 };
    let d3: int = if has_jiangpai { d2 + 1 } else { d2 };
    14 - 3 * m - 2 * d3 - g2
}

/// The formula stays between 0 and 14.
pub proof fn lemma_formula_range(mianzi: int, dazi: int, gulipai: int, has_jiangpai: bool)
    requires
        0 <= mianzi,
        0 <= dazi,
        0 <= gulipai,
    ensures
        0 <= replacement_number_formula(mianzi, dazi, gulipai, has_jiangpai) <= 14,
{
}

/// Computes the replacement number from block counts.
pub fn calculate_replacement_number_formula(
    num_mianzi: u8,
    num_dazi: u8,
    num_gulipai: u8,
    has_jiangpai: bool,
) -> (r: u8)
    ensures
        r == replacement_number_formula(
            num_mianzi as int,
            num_dazi as int,
            num_gulipai as int,
            has_jiangpai,
        ),
        r <= 14,
{
    let mut mianzi: u16 = num_mianzi as u16;
    let mut dazi: u16 = num_dazi as u16;
    let mut gulipai: u16 = num_gulipai as u16;
    // Without a pair, 5 blocks are needed.
    let num_required_block: u16 = if has_jiangpai { 4 } else { 5 };

    if mianzi > 4 {
        dazi = dazi + (mianzi - 4);
        mianzi = 4;
    }
    if mianzi + dazi > 4 {
        gulipai = gulipai + (mianzi + dazi - 4);
        dazi = 4 - mianzi;
    }
    if mianzi + dazi + gulipai > num_required_block {
        gulipai = num_required_block - mianzi - dazi;
    }
    if has_jiangpai {
        dazi = dazi + 1;
    }
    (14 - mianzi * 3 - dazi * 2 - gulipai) as u8
}

/// Partial sets and isolated tiles of the ranks from `n` on, given that
/// `tally` tiles of the ranks just below are still waiting to be paired off.
///
/// The tally is paired off wherever the next two ranks are both empty, and
/// at the end of the suit.
pub open spec fn flush_from(counts: Seq<int>, n: int, tally: int) -> Blocks
    decreases 9 - n,
{
    if n >= 9 {
        Blocks { mianzi: 0, dazi: tally / 2, gulipai: tally % 2 }
    } else {
        let t = tally + counts[n];
        if n <= 6 && counts[n + 1] == 0 && counts[n + 2] == 0 {
            let rest = flush_from(counts, n + 1, 0);
            Blocks { mianzi: 0, dazi: t / 2 + rest.dazi, gulipai: t % 2 + rest.gulipai }
        } else {
            flush_from(counts, n + 1, t)
        }
    }
}

/// Partial sets and isolated tiles of a suit from which no complete set is taken.
pub open spec fn flush(counts: Seq<int>) -> Blocks {
    flush_from(counts, 0, 0)
}

/// Sum of the counts of the ranks from `n` on.
pub open spec fn tiles_from(counts: Seq<int>, n: int) -> int
    decreases 9 - n,
{
    if n >= 9 {
        0
    } else {
        counts[n] + tiles_from(counts, n + 1)
    }
}

/// Every rank of the suit holds between 0 and 4 tiles.
pub open spec fn suit_ok(counts: Seq<int>) -> bool {
    &&& counts.len() == 9
    &&& forall|i: int| 0 <= i < 9 ==> 0 <= #[trigger] counts[i] <= 4
}

/// Pairing off loses no tile: twice the partial sets plus the isolated tiles
/// is the number of tiles.
pub proof fn lemma_flush_from_conserves(counts: Seq<int>, n: int, tally: int)
    requires
        suit_ok(counts),
        0 <= n <= 9,
        0 <= tally,
    ensures
        flush_from(counts, n, tally).mianzi == 0,
        flush_from(counts, n, tally).dazi >= 0,
        flush_from(counts, n, tally).gulipai >= 0,
        2 * flush_from(counts, n, tally).dazi + flush_from(counts, n, tally).gulipai == tally
            + tiles_from(counts, n),
    decreases 9 - n,
{
    if n < 9 {
        let t = tally + counts[n];
        if n <= 6 && counts[n + 1] == 0 && counts[n + 2] == 0 {
            lemma_flush_from_conserves(counts, n + 1, 0);
        } else {
            lemma_flush_from_conserves(counts, n + 1, t);
        }
    }
}

/// A suit of valid counts holds at most 4 tiles per rank.
pub proof fn lemma_tiles_from_bound(counts: Seq<int>, n: int)
    requires
        suit_ok(counts),
        0 <= n <= 9,
    ensures
        0 <= tiles_from(counts, n) <= 4 * (9 - n),
    decreases 9 - n,
{
    if n < 9 {
        lemma_tiles_from_bound(counts, n + 1);
    }
}

/// Counts partial sets and isolated tiles of one numbered suit, taking no
/// complete set from it.
pub fn count_shupai_dazi_gulipai(bingpai: &[u8; 9]) -> (r: MianziDaziGulipaiPattern)
    requires
        within_copies(bingpai@, MAX_NUM_SAME_TILE as int),
    ensures
        r@.a == flush(ints(bingpai@)),
        r@.b == flush(ints(bingpai@)),
{
    let ghost counts = ints(bingpai@);
    let mut num_tile: u8 = 0;
    let mut num_dazi: u8 = 0;
    let mut num_gulipai: u8 = 0;

    proof {
        lemma_tiles_from_bound(counts, 0);
        lemma_flush_from_conserves(counts, 0, 0);
    }
    let mut n: usize = 0;
    while n < 9
        invariant
            0 <= n <= 9,
            counts == ints(bingpai@),
            suit_ok(counts),
            flush(counts).dazi == num_dazi + flush_from(counts, n as int, num_tile as int).dazi,
            flush(counts).gulipai == num_gulipai + flush_from(
                counts,
                n as int,
                num_tile as int,
            ).gulipai,
            2 * num_dazi + num_gulipai + num_tile + tiles_from(counts, n as int) == tiles_from(
                counts,
                0,
            ),
            tiles_from(counts, 0) <= 36,
        decreases 9 - n,
    {
        proof {
            lemma_tiles_from_bound(counts, n as int + 1);
            lemma_flush_from_conserves(counts, n as int + 1, 0);
        }
        num_tile = num_tile + bingpai[n];
        if n <= 6 && bingpai[n + 1] == 0 && bingpai[n + 2] == 0 {
            num_dazi = num_dazi + num_tile / 2;
            num_gulipai = num_gulipai + num_tile % 2;
            num_tile = 0;
        }
        n = n + 1;
    }
    num_dazi = num_dazi + num_tile / 2;
    num_gulipai = num_gulipai + num_tile % 2;

    MianziDaziGulipaiPattern {
        a: MianziDaziGulipai { num_mianzi: 0, num_dazi, num_gulipai },
        b: MianziDaziGulipai { num_mianzi: 0, num_dazi, num_gulipai },
    }
}

/// Whether `r` beats `max` as the decomposition with the fewest isolated
/// tiles, more partial sets breaking a tie.
pub open spec fn better_a(r: Blocks, max: Blocks) -> bool {
    r.gulipai < max.gulipai || (r.gulipai == max.gulipai && r.dazi > max.dazi)
}

/// Whether `r` beats `max` as the decomposition with the most complete sets,
/// more partial sets breaking a tie.
pub open spec fn better_b(r: Blocks, max: Blocks) -> bool {
    r.mianzi > max.mianzi || (r.mianzi == max.mianzi && r.dazi > max.dazi)
}

/// The running best after it has met the candidate `r`.
pub open spec fn updated_max(max: BlocksPattern, r: BlocksPattern) -> BlocksPattern {
    BlocksPattern {
        a: if better_a(r.a, max.a) { r.a } else { max.a },
        b: if better_b(r.b, max.b) { r.b } else { max.b },
    }
}

/// Both decompositions with one more complete set.
pub open spec fn with_mianzi(p: BlocksPattern) -> BlocksPattern {
    BlocksPattern {
        a: Blocks { mianzi: p.a.mianzi + 1, dazi: p.a.dazi, gulipai: p.a.gulipai },
        b: Blocks { mianzi: p.b.mianzi + 1, dazi: p.b.dazi, gulipai: p.b.gulipai },
    }
}

/// The suit without one run that starts at rank `n`.
pub open spec fn without_shunzi(counts: Seq<int>, n: int) -> Seq<int> {
    counts.update(n, counts[n] - 1).update(n + 1, counts[n + 1] - 1).update(
        n + 2,
        counts[n + 2] - 1,
    )
}

/// The suit without one triplet of rank `n`.
pub open spec fn without_kezi(counts: Seq<int>, n: int) -> Seq<int> {
    counts.update(n, counts[n] - 3)
}

/// Whether a run that starts at rank `n` can be taken.
pub open spec fn has_shunzi(counts: Seq<int>, n: int) -> bool {
    n <= 6 && counts[n] > 0 && counts[n + 1] > 0 && counts[n + 2] > 0
}

/// The two best decompositions of a suit that take complete sets only from
/// rank `n` upwards.
///
/// The search first leaves rank `n` alone, then tries a run that starts at
/// `n`, then a triplet of `n`; a later candidate replaces the running best
/// only where it is strictly better.
pub open spec fn suit_search(counts: Seq<int>, n: int) -> BlocksPattern
    decreases 9 - n, counts[n],
{
    if n < 0 || n > 8 || counts.len() != 9 {
        BlocksPattern { a: flush(counts), b: flush(counts) }
    } else {
        let untouched = suit_search(counts, n + 1);
        let after_shunzi = if has_shunzi(counts, n) {
            updated_max(untouched, with_mianzi(suit_search(without_shunzi(counts, n), n)))
        } else {
            untouched
        };
        if counts[n] >= 3 {
            updated_max(after_shunzi, with_mianzi(suit_search(without_kezi(counts, n), n)))
        } else {
            after_shunzi
        }
    }
}

/// Three tiles per complete set, two per partial set and one per isolated
/// tile make up the suit.
pub open spec fn accounts_for(blocks: Blocks, tiles: int) -> bool {
    &&& blocks.mianzi >= 0
    &&& blocks.dazi >= 0
    &&& blocks.gulipai >= 0
    &&& 3 * blocks.mianzi + 2 * blocks.dazi + blocks.gulipai == tiles
}

proof fn lemma_tiles_from_update(counts: Seq<int>, k: int, v: int, n: int)
    requires
        counts.len() == 9,
        0 <= k < 9,
        0 <= n <= 9,
    ensures
        tiles_from(counts.update(k, v), n) == tiles_from(counts, n) + (if n <= k {
            v - counts[k]
        } else {
            0
        }),
    decreases 9 - n,
{
    if n < 9 {
        lemma_tiles_from_update(counts, k, v, n + 1);
    }
}

/// The search loses no tile: both decompositions account for every tile of the suit.
pub proof fn lemma_suit_search_conserves(counts: Seq<int>, n: int)
    requires
        suit_ok(counts),
        0 <= n,
    ensures
        accounts_for(suit_search(counts, n).a, tiles_from(counts, 0)),
        accounts_for(suit_search(counts, n).b, tiles_from(counts, 0)),
    decreases 9 - n, counts[n],
{
    if n > 8 {
        lemma_flush_from_conserves(counts, 0, 0);
    } else {
        lemma_suit_search_conserves(counts, n + 1);
        if has_shunzi(counts, n) {
            let c1 = counts.update(n, counts[n] - 1);
            let c2 = c1.update(n + 1, counts[n + 1] - 1);
            let less = without_shunzi(counts, n);
            lemma_tiles_from_update(counts, n, counts[n] - 1, 0);
            lemma_tiles_from_update(c1, n + 1, counts[n + 1] - 1, 0);
            lemma_tiles_from_update(c2, n + 2, counts[n + 2] - 1, 0);
            assert(suit_ok(less));
            lemma_suit_search_conserves(less, n);
        }
        if counts[n] >= 3 {
            let less = without_kezi(counts, n);
            lemma_tiles_from_update(counts, n, counts[n] - 3, 0);
            assert(suit_ok(less));
            lemma_suit_search_conserves(less, n);
        }
    }
}

/// Keeps in `max` whichever of `max` and `r` is better, for each of the two
/// candidates.
pub fn update_max(max: &mut MianziDaziGulipaiPattern, r: MianziDaziGulipaiPattern)
    ensures
        final(max)@ == updated_max(old(max)@, r@),
{
    if (r.a.num_gulipai < max.a.num_gulipai) || (r.a.num_gulipai == max.a.num_gulipai) && (
    r.a.num_dazi > max.a.num_dazi) {
        max.a = r.a;
    }
    if (r.b.num_mianzi > max.b.num_mianzi) || (r.b.num_mianzi == max.b.num_mianzi) && (
    r.b.num_dazi > max.b.num_dazi) {
        max.b = r.b;
    }
}

/// Finds the two best decompositions of one numbered suit into complete
/// sets, partial sets and isolated tiles, taking complete sets only from rank
/// `n` upwards. The counts are changed while searching and are as they were
/// on return.
pub fn count_shupai_mianzi_dazi_gulipai(bingpai: &mut [u8; 9], n: usize) -> (r:
    MianziDaziGulipaiPattern)
    requires
        within_copies(old(bingpai)@, MAX_NUM_SAME_TILE as int),
    ensures
        *final(bingpai) == *old(bingpai),
        r@ == suit_search(ints(old(bingpai)@), n as int),
    decreases 9 - n, (if n < 9 { old(bingpai)@[n as int] as int } else { 0 }),
{
    if n > 8 {
        return count_shupai_dazi_gulipai(bingpai);
    }
    let ghost counts = ints(bingpai@);
    proof {
        lemma_tiles_from_bound(counts, 0);
    }

    let mut max = count_shupai_mianzi_dazi_gulipai(bingpai, n + 1);

    if (n <= 6) && (bingpai[n] > 0) && (bingpai[n + 1] > 0) && (bingpai[n + 2] > 0) {
        bingpai[n] = bingpai[n] - 1;
        bingpai[n + 1] = bingpai[n + 1] - 1;
        bingpai[n + 2] = bingpai[n + 2] - 1;
        proof {
            assert(ints(bingpai@) =~= without_shunzi(counts, n as int));
            lemma_suit_search_conserves(without_shunzi(counts, n as int), n as int);
            lemma_tiles_from_bound(without_shunzi(counts, n as int), 0);
        }
        let mut r = count_shupai_mianzi_dazi_gulipai(bingpai, n);
        bingpai[n] = bingpai[n] + 1;
        bingpai[n + 1] = bingpai[n + 1] + 1;
        bingpai[n + 2] = bingpai[n + 2] + 1;

        r.a.num_mianzi = r.a.num_mianzi + 1;
        r.b.num_mianzi = r.b.num_mianzi + 1;

        update_max(&mut max, r);
        assert(bingpai@ =~= old(bingpai)@);
    }

    if bingpai[n] >= 3 {
        bingpai[n] = bingpai[n] - 3;
        proof {
            assert(ints(bingpai@) =~= without_kezi(counts, n as int));
            lemma_suit_search_conserves(without_kezi(counts, n as int), n as int);
            lemma_tiles_from_bound(without_kezi(counts, n as int), 0);
        }
        let mut r = count_shupai_mianzi_dazi_gulipai(bingpai, n);
        bingpai[n] = bingpai[n] + 3;

        r.a.num_mianzi = r.a.num_mianzi + 1;
        r.b.num_mianzi = r.b.num_mianzi + 1;

        update_max(&mut max, r);
        assert(bingpai@ =~= old(bingpai)@);
    }

    max
}

/// Blocks of honor tiles: a kind held 3 or 4 times is a complete set, a kind
/// held twice a partial set, a kind held once an isolated tile.
pub open spec fn honor_blocks(counts: Seq<u8>) -> Blocks
    decreases counts.len(),
{
    if counts.len() == 0 {
        Blocks { mianzi: 0, dazi: 0, gulipai: 0 }
    } else {
        let rest = honor_blocks(counts.drop_last());
        let n = counts.last();
        Blocks {
            mianzi: rest.mianzi + if n >= 3 { 1int } else { 0int },
            dazi: rest.dazi + if n == 2 { 1int } else { 0int },
            gulipai: rest.gulipai + if n == 1 { 1int } else { 0int },
        }
    }
}

/// Each kind is at most one block.
pub proof fn lemma_honor_blocks_bound(counts: Seq<u8>)
    ensures
        0 <= honor_blocks(counts).mianzi,
        0 <= honor_blocks(counts).dazi,
        0 <= honor_blocks(counts).gulipai,
        honor_blocks(counts).mianzi + honor_blocks(counts).dazi + honor_blocks(counts).gulipai
            <= counts.len(),
    decreases counts.len(),
{
    if counts.len() > 0 {
        lemma_honor_blocks_bound(counts.drop_last());
    }
}

/// Counts the blocks of honor tiles, among which no run exists.
pub fn count_zipai_mianzi_dazi_gulipai(bingpai: &[u8]) -> (r: MianziDaziGulipai)
    requires
        bingpai@.len() <= u8::MAX,
    ensures
        r@ == honor_blocks(bingpai@),
{
    let mut acc = MianziDaziGulipai { num_mianzi: 0, num_dazi: 0, num_gulipai: 0 };
    let mut i: usize = 0;
    while i < bingpai.len()
        invariant
            0 <= i <= bingpai@.len() <= u8::MAX,
            acc@ == honor_blocks(bingpai@.take(i as int)),
        decreases bingpai@.len() - i,
    {
        proof {
            assert(bingpai@.take(i as int + 1).drop_last() =~= bingpai@.take(i as int));
            lemma_honor_blocks_bound(bingpai@.take(i as int));
        }
        let n: u8 = bingpai[i];
        if n >= 3 {
            acc.num_mianzi = acc.num_mianzi + 1;
        } else if n == 2 {
            acc.num_dazi = acc.num_dazi + 1;
        } else if n == 1 {
            acc.num_gulipai = acc.num_gulipai + 1;
        }
        i = i + 1;
    }
    proof {
        assert(bingpai@.take(bingpai@.len() as int) =~= bingpai@);
    }
    acc
}

/// Number of melds that a hand with `num_bingpai` concealed tiles has
/// claimed: each claimed meld takes 3 tiles out of the concealed hand.
pub open spec fn num_fulu_of(num_bingpai: int) -> int {
    if 12 <= num_bingpai <= 14 {
        0
    } else if 9 <= num_bingpai <= 11 {
        1
    } else if 6 <= num_bingpai <= 8 {
        2
    } else if 3 <= num_bingpai <= 5 {
        3
    } else {
        4
    }
}

/// The lesser of two integers.
pub open spec fn lesser(x: int, y: int) -> int {
    if y < x {
        y
    } else {
        x
    }
}

/// The replacement number of one choice of decomposition per suit.
#[verifier::opaque]
pub open spec fn combined(
    m: Blocks,
    p: Blocks,
    s: Blocks,
    z: Blocks,
    num_fulu: int,
    has_jiangpai: bool,
) -> int {
    replacement_number_formula(
        num_fulu + m.mianzi + p.mianzi + s.mianzi + z.mianzi,
        m.dazi + p.dazi + s.dazi + z.dazi,
        m.gulipai + p.gulipai + s.gulipai + z.gulipai,
        has_jiangpai,
    )
}

/// The least replacement number over the 8 ways to choose one of the two
/// candidate decompositions for each numbered suit.
pub open spec fn best_combination(
    m: BlocksPattern,
    p: BlocksPattern,
    s: BlocksPattern,
    z: Blocks,
    num_fulu: int,
    has_jiangpai: bool,
) -> int {
    let f = num_fulu;
    let j = has_jiangpai;
    let aa = lesser(
        lesser(combined(m.a, p.a, s.a, z, f, j), combined(m.a, p.a, s.b, z, f, j)),
        lesser(combined(m.a, p.b, s.a, z, f, j), combined(m.a, p.b, s.b, z, f, j)),
    );
    let bb = lesser(
        lesser(combined(m.b, p.a, s.a, z, f, j), combined(m.b, p.a, s.b, z, f, j)),
        lesser(combined(m.b, p.b, s.a, z, f, j), combined(m.b, p.b, s.b, z, f, j)),
    );
    lesser(14, lesser(aa, bb))
}

/// The counts of the numbered suit that starts at kind `base`.
pub open spec fn suit_of(counts: Seq<u8>, base: int) -> Seq<int> {
    ints(counts.subrange(base, base + 9))
}

/// The replacement number of the concealed tiles for the standard shape,
/// with a pair set aside beforehand (`has_jiangpai`) or without.
pub open spec fn replacement_number_inner(
    counts: Seq<u8>,
    num_bingpai: int,
    has_jiangpai: bool,
) -> int {
    best_combination(
        suit_search(suit_of(counts, 0), 0),
        suit_search(suit_of(counts, 9), 0),
        suit_search(suit_of(counts, 18), 0),
        honor_blocks(counts.subrange(27, 34)),
        num_fulu_of(num_bingpai),
        has_jiangpai,
    )
}

/// The counts without two tiles of `kind`.
pub open spec fn without_jiangpai(counts: Seq<u8>, kind: int) -> Seq<u8> {
    counts.update(kind, (counts[kind] - 2) as u8)
}

/// The least replacement number over setting no pair aside and setting aside
/// a pair of any kind below `upto` that is held at least twice.
pub open spec fn best_jiangpai(counts: Seq<u8>, num_bingpai: int, upto: int) -> int
    decreases upto,
{
    if upto <= 0 {
        replacement_number_inner(counts, num_bingpai, false)
    } else {
        let before = best_jiangpai(counts, num_bingpai, upto - 1);
        if counts[upto - 1] >= 2 {
            lesser(
                before,
                replacement_number_inner(without_jiangpai(counts, upto - 1), num_bingpai, true),
            )
        } else {
            before
        }
    }
}

/// The replacement number of the concealed tiles for the standard shape of 4
/// complete sets and a pair.
pub open spec fn standard_replacement_number(counts: Seq<u8>, num_bingpai: int) -> int {
    best_jiangpai(counts, num_bingpai, NUM_TILE_INDEX as int)
}

fn suit_counts(bingpai: &Bingpai, base: usize) -> (r: [u8; 9])
    requires
        base + 9 <= NUM_TILE_INDEX,
    ensures
        r@ == bingpai@.subrange(base as int, base + 9),
{
    let r: [u8; 9] = [
        bingpai[base],
        bingpai[base + 1],
        bingpai[base + 2],
        bingpai[base + 3],
        bingpai[base + 4],
        bingpai[base + 5],
        bingpai[base + 6],
        bingpai[base + 7],
        bingpai[base + 8],
    ];
    assert(r@ =~= bingpai@.subrange(base as int, base + 9));
    r
}

fn honor_counts(bingpai: &Bingpai) -> (r: [u8; 7])
    ensures
        r@ == bingpai@.subrange(27, 34),
{
    let r: [u8; 7] = [
        bingpai[27],
        bingpai[28],
        bingpai[29],
        bingpai[30],
        bingpai[31],
        bingpai[32],
        bingpai[33],
    ];
    assert(r@ =~= bingpai@.subrange(27, 34));
    r
}

/// The blocks of a suit of a valid hand fit the counters with room to spare.
proof fn lemma_suit_pattern_bound(counts: Seq<u8>, base: int)
    requires
        counts.len() == NUM_TILE_INDEX,
        within_copies(counts, MAX_NUM_SAME_TILE as int),
        0 <= base <= 18,
    ensures
        suit_ok(suit_of(counts, base)),
        within_copies(counts.subrange(base, base + 9), MAX_NUM_SAME_TILE as int),
        accounts_for(suit_search(suit_of(counts, base), 0).a, tiles_from(suit_of(counts, base), 0)),
        accounts_for(suit_search(suit_of(counts, base), 0).b, tiles_from(suit_of(counts, base), 0)),
        tiles_from(suit_of(counts, base), 0) <= 36,
{
    let suit = suit_of(counts, base);
    assert forall|i: int| 0 <= i < 9 implies 0 <= #[trigger] suit[i] <= 4 by {
        assert(counts.subrange(base, base + 9)[i] == counts[base + i]);
    }
    let sub = counts.subrange(base, base + 9);
    assert forall|i: int| 0 <= i < sub.len() implies #[trigger] sub[i] <= 4 by {
        assert(sub[i] == counts[base + i]);
    }
    lemma_suit_search_conserves(suit, 0);
    lemma_tiles_from_bound(suit, 0);
}

fn combine(
    m: &MianziDaziGulipai,
    p: &MianziDaziGulipai,
    s: &MianziDaziGulipai,
    z: &MianziDaziGulipai,
    num_fulu: u8,
    has_jiangpai: bool,
) -> (r: u8)
    requires
        num_fulu <= 4,
        m.num_mianzi <= 12 && m.num_dazi <= 18 && m.num_gulipai <= 36,
        p.num_mianzi <= 12 && p.num_dazi <= 18 && p.num_gulipai <= 36,
        s.num_mianzi <= 12 && s.num_dazi <= 18 && s.num_gulipai <= 36,
        z.num_mianzi <= 7 && z.num_dazi <= 7 && z.num_gulipai <= 7,
    ensures
        r == combined(m@, p@, s@, z@, num_fulu as int, has_jiangpai),
{
    proof {
        reveal(combined);
    }
    let num_mianzi: u8 = num_fulu + m.num_mianzi + p.num_mianzi + s.num_mianzi + z.num_mianzi;
    let num_dazi: u8 = m.num_dazi + p.num_dazi + s.num_dazi + z.num_dazi;
    let num_gulipai: u8 = m.num_gulipai + p.num_gulipai + s.num_gulipai + z.num_gulipai;
    calculate_replacement_number_formula(num_mianzi, num_dazi, num_gulipai, has_jiangpai)
}

fn lesser_of(x: u8, y: u8) -> (r: u8)
    ensures
        r == lesser(x as int, y as int),
{
    if y < x {
        y
    } else {
        x
    }
}

fn best_of(
    m: &MianziDaziGulipaiPattern,
    p: &MianziDaziGulipaiPattern,
    s: &MianziDaziGulipaiPattern,
    z: &MianziDaziGulipai,
    num_fulu: u8,
    has_jiangpai: bool,
) -> (r: u8)
    requires
        num_fulu <= 4,
        m.a.num_mianzi <= 12 && m.a.num_dazi <= 18 && m.a.num_gulipai <= 36,
        m.b.num_mianzi <= 12 && m.b.num_dazi <= 18 && m.b.num_gulipai <= 36,
        p.a.num_mianzi <= 12 && p.a.num_dazi <= 18 && p.a.num_gulipai <= 36,
        p.b.num_mianzi <= 12 && p.b.num_dazi <= 18 && p.b.num_gulipai <= 36,
        s.a.num_mianzi <= 12 && s.a.num_dazi <= 18 && s.a.num_gulipai <= 36,
        s.b.num_mianzi <= 12 && s.b.num_dazi <= 18 && s.b.num_gulipai <= 36,
        z.num_mianzi <= 7 && z.num_dazi <= 7 && z.num_gulipai <= 7,
    ensures
        r == best_combination(m@, p@, s@, z@, num_fulu as int, has_jiangpai),
        r <= 14,
{
    let aa: u8 = lesser_of(
        lesser_of(
            combine(&m.a, &p.a, &s.a, z, num_fulu, has_jiangpai),
            combine(&m.a, &p.a, &s.b, z, num_fulu, has_jiangpai),
        ),
        lesser_of(
            combine(&m.a, &p.b, &s.a, z, num_fulu, has_jiangpai),
            combine(&m.a, &p.b, &s.b, z, num_fulu, has_jiangpai),
        ),
    );
    let bb: u8 = lesser_of(
        lesser_of(
            combine(&m.b, &p.a, &s.a, z, num_fulu, has_jiangpai),
            combine(&m.b, &p.a, &s.b, z, num_fulu, has_jiangpai),
        ),
        lesser_of(
            combine(&m.b, &p.b, &s.a, z, num_fulu, has_jiangpai),
            combine(&m.b, &p.b, &s.b, z, num_fulu, has_jiangpai),
        ),
    );
    lesser_of(14, lesser_of(aa, bb))
}

/// Computes the replacement number of the concealed tiles for the standard
/// shape, with or without a pair set aside beforehand, as the least over the
/// candidate decompositions of the three numbered suits. The tiles are as
/// they were on return.
pub fn calculate_replacement_number_inner(
    bingpai: &mut Bingpai,
    num_bingpai: u8,
    has_jiangpai: bool,
) -> (r: u8)
    requires
        within_copies(old(bingpai)@, MAX_NUM_SAME_TILE as int),
        1 <= num_bingpai <= 14,
    ensures
        *final(bingpai) == *old(bingpai),
        r == replacement_number_inner(old(bingpai)@, num_bingpai as int, has_jiangpai),
        r <= 14,
{
    proof {
        lemma_suit_pattern_bound(bingpai@, 0);
        lemma_suit_pattern_bound(bingpai@, 9);
        lemma_suit_pattern_bound(bingpai@, 18);
        lemma_honor_blocks_bound(bingpai@.subrange(27, 34));
    }
    let mut wanzi = suit_counts(bingpai, 0);
    let mut bingzi = suit_counts(bingpai, 9);
    let mut suozi = suit_counts(bingpai, 18);
    let zipai = honor_counts(bingpai);
    let m = count_shupai_mianzi_dazi_gulipai(&mut wanzi, 0);
    let p = count_shupai_mianzi_dazi_gulipai(&mut bingzi, 0);
    let s = count_shupai_mianzi_dazi_gulipai(&mut suozi, 0);
    let z = count_zipai_mianzi_dazi_gulipai(zipai.as_slice());

    let num_fulu: u8 = if num_bingpai >= 12 {
        0
    } else if num_bingpai >= 9 {
        1
    } else if num_bingpai >= 6 {
        2
    } else if num_bingpai >= 3 {
        3
    } else {
        4
    };

    best_of(&m, &p, &s, &z, num_fulu, has_jiangpai)
}

/// Computes the replacement number of the concealed tiles for the standard
/// shape of 4 complete sets and a pair.
///
/// The search runs once with no pair set aside and once for each kind that
/// is held at least twice, with two tiles of that kind set aside as the
/// pair. Claimed melds enter through `num_bingpai` alone: each takes 3 tiles
/// out of the concealed hand.
pub fn calculate_replacement_number(
    mut bingpai: Bingpai,
    fulu_mianzi: &Option<[Option<Mianzi>; MAX_NUM_FULU_MIANZI]>,
    num_bingpai: u8,
) -> (r: u8)
    requires
        fulu_mianzi is None,
        within_copies(bingpai@, MAX_NUM_SAME_TILE as int),
        1 <= num_bingpai <= 14,
    ensures
        r == standard_replacement_number(bingpai@, num_bingpai as int),
        r <= 14,
{
    let ghost counts = bingpai@;
    // Without a pair.
    let mut min = calculate_replacement_number_inner(&mut bingpai, num_bingpai, false);

    // With each possible pair set aside.
    let mut n: usize = 0;
    while n < NUM_TILE_INDEX
        invariant
            0 <= n <= NUM_TILE_INDEX,
            bingpai@ == counts,
            within_copies(counts, MAX_NUM_SAME_TILE as int),
            1 <= num_bingpai <= 14,
            min == best_jiangpai(counts, num_bingpai as int, n as int),
            min <= 14,
        decreases NUM_TILE_INDEX - n,
    {
        if bingpai[n] >= 2 {
            bingpai[n] = bingpai[n] - 2;
            proof {
                assert(bingpai@ =~= without_jiangpai(counts, n as int));
            }
            let replacement_number = calculate_replacement_number_inner(
                &mut bingpai,
                num_bingpai,
                true,
            );
            bingpai[n] = bingpai[n] + 2;
            proof {
                assert(bingpai@ =~= counts);
            }
            if replacement_number < min {
                min = replacement_number;
            }
        }
        n = n + 1;
    }
    min
}

/// A tile that turns a partial set into a complete set, taken in place of an
/// isolated tile, never raises the replacement number.
pub proof fn lemma_formula_completing_dazi(mianzi: int, dazi: int, gulipai: int, has_jiangpai: bool)
    requires
        0 <= mianzi,
        1 <= dazi,
        1 <= gulipai,
    ensures
        replacement_number_formula(mianzi + 1, dazi - 1, gulipai - 1, has_jiangpai)
            <= replacement_number_formula(mianzi, dazi, gulipai, has_jiangpai),
{
}

/// More blocks of any sort never raise the replacement number, nor does a
/// partial set in place of an isolated tile or a complete set in place of a
/// partial set.
pub proof fn lemma_formula_monotone(mianzi: int, dazi: int, gulipai: int, has_jiangpai: bool)
    requires
        0 <= mianzi,
        0 <= dazi,
        0 <= gulipai,
    ensures
        replacement_number_formula(mianzi + 1, dazi, gulipai, has_jiangpai)
            <= replacement_number_formula(mianzi, dazi, gulipai, has_jiangpai),
        replacement_number_formula(mianzi, dazi + 1, gulipai, has_jiangpai)
            <= replacement_number_formula(mianzi, dazi, gulipai, has_jiangpai),
        replacement_number_formula(mianzi, dazi, gulipai + 1, has_jiangpai)
            <= replacement_number_formula(mianzi, dazi, gulipai, has_jiangpai),
        gulipai >= 1 ==> replacement_number_formula(mianzi, dazi + 1, gulipai - 1, has_jiangpai)
            <= replacement_number_formula(mianzi, dazi, gulipai, has_jiangpai),
        dazi >= 1 ==> replacement_number_formula(mianzi + 1, dazi - 1, gulipai, has_jiangpai)
            <= replacement_number_formula(mianzi, dazi, gulipai, has_jiangpai),
{
}

/// The result for the standard shape is the least over all ways to set a
/// pair aside, or none: it is no greater than any of them and equal to one.
pub proof fn lemma_standard_is_least(counts: Seq<u8>, num_bingpai: int)
    requires
        counts.len() == NUM_TILE_INDEX,
    ensures
        standard_replacement_number(counts, num_bingpai) <= replacement_number_inner(
            counts,
            num_bingpai,
            false,
        ),
        forall|kind: int|
            0 <= kind < NUM_TILE_INDEX && counts[kind] >= 2 ==> standard_replacement_number(
                counts,
                num_bingpai,
            ) <= replacement_number_inner(
                #[trigger] without_jiangpai(counts, kind),
                num_bingpai,
                true,
            ),
        standard_replacement_number(counts, num_bingpai) == replacement_number_inner(
            counts,
            num_bingpai,
            false,
        ) || exists|kind: int|
            0 <= kind < NUM_TILE_INDEX && counts[kind] >= 2 && standard_replacement_number(
                counts,
                num_bingpai,
            ) == replacement_number_inner(
                #[trigger] without_jiangpai(counts, kind),
                num_bingpai,
                true,
            ),
{
    lemma_best_jiangpai_is_least(counts, num_bingpai, NUM_TILE_INDEX as int);
}

proof fn lemma_best_jiangpai_is_least(counts: Seq<u8>, num_bingpai: int, upto: int)
    requires
        0 <= upto <= counts.len(),
    ensures
        best_jiangpai(counts, num_bingpai, upto) <= replacement_number_inner(
            counts,
            num_bingpai,
            false,
        ),
        forall|kind: int|
            0 <= kind < upto && counts[kind] >= 2 ==> best_jiangpai(counts, num_bingpai, upto)
                <= replacement_number_inner(
                #[trigger] without_jiangpai(counts, kind),
                num_bingpai,
                true,
            ),
        best_jiangpai(counts, num_bingpai, upto) == replacement_number_inner(
            counts,
            num_bingpai,
            false,
        ) || exists|kind: int|
            0 <= kind < upto && counts[kind] >= 2 && best_jiangpai(counts, num_bingpai, upto)
                == replacement_number_inner(
                #[trigger] without_jiangpai(counts, kind),
                num_bingpai,
                true,
            ),
    decreases upto,
{
    if upto > 0 {
        lemma_best_jiangpai_is_least(counts, num_bingpai, upto - 1);
        let before = best_jiangpai(counts, num_bingpai, upto - 1);
        let here = replacement_number_inner(without_jiangpai(counts, upto - 1), num_bingpai, true);
        if before != replacement_number_inner(counts, num_bingpai, false) {
            let w = choose|kind: int|
                0 <= kind < upto - 1 && counts[kind] >= 2 && before == replacement_number_inner(
                    #[trigger] without_jiangpai(counts, kind),
                    num_bingpai,
                    true,
                );
            assert(0 <= w < upto && counts[w] >= 2 && before == replacement_number_inner(
                without_jiangpai(counts, w),
                num_bingpai,
                true,
            ));
        }
        if counts[upto - 1] >= 2 {
            assert(here == replacement_number_inner(
                without_jiangpai(counts, upto - 1),
                num_bingpai,
                true,
            ));
        }
    }
}

/// The kinds of which the hand holds all 4 tiles, in concealed tiles and
/// melds together.
pub open spec fn kinds_held_4_times(counts: Seq<u8>, fulu_mianzi: Option<Seq<Option<Mianzi>>>) -> Set<
    int,
> {
    Set::new(
        |kind: int|
            0 <= kind < NUM_TILE_INDEX && counts[kind] + (match fulu_mianzi {
                Some(f) => fulupai_count(f, kind),
                None => 0,
            }) == 4,
    )
}

/// Flags the kinds of which the hand holds all 4 tiles, so that none is left
/// to wait for.
pub fn count_4_tiles_in_shoupai(
    bingpai: &Bingpai,
    fulu_mianzi: &Option<[Option<Mianzi>; MAX_NUM_FULU_MIANZI]>,
) -> (result: TileFlag)
    requires
        fulu_mianzi matches Some(f) ==> all_mianzi_valid(f@) && shoupai_fits(bingpai@, f@),
    ensures
        tile_flag_bits(result) == kinds_held_4_times(
            bingpai@,
            match *fulu_mianzi {
                Some(f) => Some(f@),
                None => None,
            },
        ),
{
    let ghost melds: Option<Seq<Option<Mianzi>>> = match *fulu_mianzi {
        Some(f) => Some(f@),
        None => None,
    };
    let fulupai: Bingpai = match fulu_mianzi {
        Some(f) => count_fulupai(f),
        None => [0u8;NUM_TILE_INDEX],
    };
    let mut result = tile_flag_zero();
    let mut i: usize = 0;
    while i < NUM_TILE_INDEX
        invariant
            0 <= i <= NUM_TILE_INDEX,
            melds == (match *fulu_mianzi {
                Some(f) => Some(f@),
                None => None,
            }),
            fulu_mianzi matches Some(f) ==> shoupai_fits(bingpai@, f@),
            forall|kind: int|
                0 <= kind < NUM_TILE_INDEX ==> #[trigger] fulupai@[kind] == (match melds {
                    Some(f) => fulupai_count(f, kind),
                    None => 0,
                }),
            forall|kind: int|
                tile_flag_bits(result).contains(kind) <==> kind < i && kinds_held_4_times(
                    bingpai@,
                    melds,
                ).contains(kind),
        decreases NUM_TILE_INDEX - i,
    {
        proof {
            assert(fulupai@[i as int] == (match melds {
                Some(f) => fulupai_count(f, i as int),
                None => 0,
            }));
            if let Some(f) = *fulu_mianzi {
                assert(bingpai@[i as int] + fulupai_count(f@, i as int) <= u8::MAX);
            }
        }
        if bingpai[i] + fulupai[i] == 4 {
            tile_flag_raise(&mut result, i);
        }
        i = i + 1;
    }
    proof {
        assert(tile_flag_bits(result) =~= kinds_held_4_times(bingpai@, melds));
    }
    result
}

} // verus!
