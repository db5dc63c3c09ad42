use crate::xiangting::bingpai::{count_bingpai, count_bingpai_spec, first_excess,
    lemma_first_excess, lemma_total_bound, total_tiles, Bingpai, InvalidBingpaiError};
use crate::xiangting::constants::{MAX_NUM_FULU_MIANZI, MAX_NUM_SAME_TILE};
use crate::xiangting::mianzi::Mianzi;
use crate::xiangting::qiduizi;
use crate::xiangting::qiduizi::qiduizi_replacement_number;
use crate::xiangting::shisanyao;
use crate::xiangting::shisanyao::shisanyao_replacement_number;
use crate::xiangting::shoupai::{fulupai_count, lemma_fulupai_count_bound, validate_shoupai,
    validate_shoupai_spec, InvalidShoupaiError};
use crate::xiangting::standard;
use crate::xiangting::standard::{lesser, standard_replacement_number};
use vstd::prelude::*;

verus! {

/// Why no replacement number was computed.
#[derive(Debug, Clone, Copy, PartialEq, Eq)]
pub enum XiangtingError {
    /// The concealed tiles are not a hand.
    InvalidBingpai(InvalidBingpaiError),
    /// The concealed tiles and the claimed melds are not a hand.
    InvalidShoupai(InvalidShoupaiError),
}

/// The replacement number of valid concealed tiles: the least over the
/// standard shape, seven pairs and thirteen orphans.
pub open spec fn replacement_number(counts: Seq<u8>) -> int {
    let n = total_tiles(counts);
    lesser(
        lesser(standard_replacement_number(counts, n), qiduizi_replacement_number(counts, n)),
        shisanyao_replacement_number(counts, n),
    )
}

/// What validating the hand yields: the error of the concealed tiles, else
/// the error of the concealed tiles with the melds, else nothing.
pub open spec fn validation_error(
    counts: Seq<u8>,
    fulu_mianzi: Option<Seq<Option<Mianzi>>>,
) -> Option<XiangtingError> {
    match count_bingpai_spec(counts) {
        Err(e) => Some(XiangtingError::InvalidBingpai(e)),
        Ok(_) => match fulu_mianzi {
            None => None,
            Some(f) => match validate_shoupai_spec(counts, f) {
                Err(e) => Some(XiangtingError::InvalidShoupai(e)),
                Ok(_) => None,
            },
        },
    }
}

/// The melds as a sequence.
pub open spec fn fulu_view(fulu_mianzi: Option<[Option<Mianzi>; MAX_NUM_FULU_MIANZI]>) -> Option<
    Seq<Option<Mianzi>>,
> {
    match fulu_mianzi {
        Some(f) => Some(f@),
        None => None,
    }
}

/// Computes the replacement number of a hand: how many tiles must be
/// exchanged at least to complete it, 0 for a complete hand.
///
/// The hand is validated first. The search for the standard shape takes
/// claimed melds through the number of concealed tiles alone, so a hand is
/// given by its concealed tiles; melds that are handed in are validated, and
/// a hand whose melds pass lies outside this function.
pub fn calculate_replacement_number(
    bingpai: &Bingpai,
    fulu_mianzi: &Option<[Option<Mianzi>; MAX_NUM_FULU_MIANZI]>,
) -> (r: Result<u8, XiangtingError>)
    requires
        fulu_mianzi is Some ==> validation_error(bingpai@, fulu_view(*fulu_mianzi)) is Some,
    ensures
        match validation_error(bingpai@, fulu_view(*fulu_mianzi)) {
            Some(e) => r == Err::<u8, XiangtingError>(e),
            None => r matches Ok(n) && n == replacement_number(bingpai@),
        },
        r matches Ok(n) ==> n <= 14,
{
    let num_bingpai: u8 = match count_bingpai(bingpai) {
        Ok(n) => n,
        Err(e) => {
            return Err(XiangtingError::InvalidBingpai(e));
        },
    };
    proof {
        lemma_first_excess(bingpai@, MAX_NUM_SAME_TILE as int);
        assert(count_bingpai_spec(bingpai@) == Ok::<u8, InvalidBingpaiError>(num_bingpai));
        assert(first_excess(bingpai@, MAX_NUM_SAME_TILE as int) == bingpai@.len());
        lemma_total_bound(bingpai@, MAX_NUM_SAME_TILE as int);
        assert(num_bingpai == total_tiles(bingpai@));
        assert(1 <= num_bingpai <= 14);
    }
    match fulu_mianzi {
        Some(f) => {
            proof {
                assert forall|kind: int| 0 <= kind < bingpai@.len() implies #[trigger] bingpai@[kind]
                    + fulupai_count(f@, kind) <= u8::MAX by {
                    lemma_fulupai_count_bound(f@, kind);
                }
            }
            match validate_shoupai(bingpai, f) {
                Err(e) => {
                    return Err(XiangtingError::InvalidShoupai(e));
                },
                Ok(_) => {},
            }
        },
        None => {},
    }

    let r0: u8 = standard::calculate_replacement_number(*bingpai, fulu_mianzi, num_bingpai);
    let r1: u8 = qiduizi::calculate_replacement_number(bingpai, num_bingpai);
    let r2: u8 = shisanyao::calculate_replacement_number(bingpai, num_bingpai);
    let mut min: u8 = r0;
    if r1 < min {
        min = r1;
    }
    if r2 < min {
        min = r2;
    }
    Ok(min)
}

/// Computes the xiangting number of a hand: the replacement number less 1,
/// the distance to a ready hand; -1 for a complete hand.
pub fn calculate_xiangting_number(
    bingpai: &Bingpai,
    fulu_mianzi: &Option<[Option<Mianzi>; MAX_NUM_FULU_MIANZI]>,
) -> (r: Result<i8, XiangtingError>)
    requires
        fulu_mianzi is Some ==> validation_error(bingpai@, fulu_view(*fulu_mianzi)) is Some,
    ensures
        match validation_error(bingpai@, fulu_view(*fulu_mianzi)) {
            Some(e) => r == Err::<i8, XiangtingError>(e),
            None => r matches Ok(n) && n == replacement_number(bingpai@) - 1,
        },
        r matches Ok(n) ==> -1 <= n <= 13,
{
    match calculate_replacement_number(bingpai, fulu_mianzi) {
        Ok(n) => Ok(n as i8 - 1),
        Err(e) => Err(e),
    }
}

} // verus!
