use crate::xiangting::bingpai::Bingpai;
use crate::xiangting::constants::MAX_NUM_SHOUPAI;
use vstd::prelude::*;

verus! {

/// Number of terminal and honor kinds.
pub const NUM_YAOJIUPAI: usize = 13;

/// The terminal and honor kinds: the 1 and 9 of each suit and the 7 honors.
pub const YAOJIUPAI_INDICES: [usize; 13] = [0, 8, 9, 17, 18, 26, 27, 28, 29, 30, 31, 32, 33];

/// The terminal and honor kinds, in ascending order.
pub open spec fn yaojiupai_kinds() -> Seq<int> {
    seq![0int, 8, 9, 17, 18, 26, 27, 28, 29, 30, 31, 32, 33]
}

/// Whether `kind` is a terminal or an honor.
pub open spec fn is_yaojiupai_kind(kind: int) -> bool {
    27 <= kind <= 33 || (0 <= kind < 27 && (kind % 9 == 0 || kind % 9 == 8))
}

/// How many of the first `upto` terminal and honor kinds are held.
pub open spec fn yaojiupai_held(counts: Seq<u8>, upto: int) -> int
    decreases upto,
{
    if upto <= 0 {
        0
    } else {
        yaojiupai_held(counts, upto - 1) + if counts[yaojiupai_kinds()[upto - 1]] >= 1 {
            1int
        } else {
            0int
        }
    }
}

/// Whether one of the first `upto` terminal and honor kinds is held twice.
pub open spec fn yaojiupai_paired(counts: Seq<u8>, upto: int) -> bool {
    exists|i: int| 0 <= i < upto && #[trigger] counts[yaojiupai_kinds()[i]] >= 2
}

/// The replacement number for thirteen orphans: 14, less the terminal and
/// honor kinds held, less 1 if one of them is held twice. A hand of another
/// size than 13 or 14 concealed tiles cannot reach the shape, which 255 says.
pub open spec fn shisanyao_replacement_number(counts: Seq<u8>, num_bingpai: int) -> int {
    if num_bingpai != MAX_NUM_SHOUPAI - 1 && num_bingpai != MAX_NUM_SHOUPAI {
        u8::MAX as int
    } else {
        14 - yaojiupai_held(counts, NUM_YAOJIUPAI as int) - if yaojiupai_paired(
            counts,
            NUM_YAOJIUPAI as int,
        ) {
            1int
        } else {
            0int
        }
    }
}

/// The listed kinds are exactly the terminals and honors.
pub proof fn lemma_yaojiupai_kinds()
    ensures
        yaojiupai_kinds().len() == NUM_YAOJIUPAI,
        YAOJIUPAI_INDICES@.len() == NUM_YAOJIUPAI,
        forall|i: int|
            0 <= i < NUM_YAOJIUPAI ==> #[trigger] YAOJIUPAI_INDICES@[i] == yaojiupai_kinds()[i],
        forall|i: int| 0 <= i < NUM_YAOJIUPAI ==> is_yaojiupai_kind(#[trigger] yaojiupai_kinds()[i]),
        forall|kind: int|
            is_yaojiupai_kind(kind) ==> exists|i: int|
                0 <= i < NUM_YAOJIUPAI && #[trigger] yaojiupai_kinds()[i] == kind,
{
    let kinds = yaojiupai_kinds();
    assert forall|kind: int| is_yaojiupai_kind(kind) implies exists|i: int|
        0 <= i < NUM_YAOJIUPAI && #[trigger] kinds[i] == kind by {
        assert(kinds[0] == 0 && kinds[1] == 8 && kinds[2] == 9 && kinds[3] == 17 && kinds[4] == 18
            && kinds[5] == 26 && kinds[6] == 27 && kinds[7] == 28 && kinds[8] == 29 && kinds[9]
            == 30 && kinds[10] == 31 && kinds[11] == 32 && kinds[12] == 33);
    }
}

proof fn lemma_yaojiupai_held_bound(counts: Seq<u8>, upto: int)
    requires
        0 <= upto,
    ensures
        0 <= yaojiupai_held(counts, upto) <= upto,
    decreases upto,
{
    if upto > 0 {
        lemma_yaojiupai_held_bound(counts, upto - 1);
    }
}

/// Computes the replacement number for thirteen orphans.
pub fn calculate_replacement_number(bingpai: &Bingpai, num_bingpai: u8) -> (r: u8)
    ensures
        r == shisanyao_replacement_number(bingpai@, num_bingpai as int),
{
    if (num_bingpai != (MAX_NUM_SHOUPAI - 1)) && (num_bingpai != MAX_NUM_SHOUPAI) {
        return u8::MAX;
    }
    let mut num_kinds: u8 = 0;
    let mut has_jiangpai: bool = false;

    proof {
        lemma_yaojiupai_kinds();
    }
    let mut i: usize = 0;
    while i < NUM_YAOJIUPAI
        invariant
            0 <= i <= NUM_YAOJIUPAI,
            yaojiupai_kinds().len() == NUM_YAOJIUPAI,
            YAOJIUPAI_INDICES@.len() == NUM_YAOJIUPAI,
            forall|j: int|
                0 <= j < NUM_YAOJIUPAI ==> #[trigger] YAOJIUPAI_INDICES@[j] == yaojiupai_kinds()[j],
            num_kinds == yaojiupai_held(bingpai@, i as int),
            has_jiangpai == yaojiupai_paired(bingpai@, i as int),
        decreases NUM_YAOJIUPAI - i,
    {
        proof {
            lemma_yaojiupai_held_bound(bingpai@, i as int);
            assert(YAOJIUPAI_INDICES@[i as int] == yaojiupai_kinds()[i as int]);
            assert(yaojiupai_kinds()[i as int] <= 33);
        }
        let index: usize = YAOJIUPAI_INDICES[i];
        let count: u8 = bingpai[index];
        if count >= 1 {
            num_kinds = num_kinds + 1;
            has_jiangpai = has_jiangpai || count >= 2;
        }
        i = i + 1;
    }
    proof {
        lemma_yaojiupai_held_bound(bingpai@, NUM_YAOJIUPAI as int);
    }
    14 - num_kinds - (if has_jiangpai {
        1
    } else {
        0
    })
}

/// Thirteen orphans is complete exactly when all 13 terminal and honor
/// kinds are held and one of them twice; each kind that is missing costs one
/// exchange, and so does the missing pair.
pub proof fn lemma_shisanyao_complete(counts: Seq<u8>, num_bingpai: int)
    requires
        num_bingpai == 13 || num_bingpai == 14,
    ensures
        0 <= shisanyao_replacement_number(counts, num_bingpai) <= 14,
        shisanyao_replacement_number(counts, num_bingpai) == 0 <==> yaojiupai_held(
            counts,
            NUM_YAOJIUPAI as int,
        ) == 13 && yaojiupai_paired(counts, NUM_YAOJIUPAI as int),
        shisanyao_replacement_number(counts, num_bingpai) == (13 - yaojiupai_held(
            counts,
            NUM_YAOJIUPAI as int,
        )) + if yaojiupai_paired(counts, NUM_YAOJIUPAI as int) {
            0int
        } else {
            1int
        },
{
    lemma_yaojiupai_held_bound(counts, NUM_YAOJIUPAI as int);
}

} // verus!
