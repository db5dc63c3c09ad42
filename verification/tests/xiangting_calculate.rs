use lizhisim::hand_tools::tile_code::FromTileCode;
use lizhisim::xiangting::bingpai::{Bingpai, InvalidBingpaiError};
use lizhisim::xiangting::calculate::{
    calculate_replacement_number, calculate_xiangting_number, XiangtingError,
};
use lizhisim::xiangting::mianzi::{ClaimedTilePosition, InvalidMianziError, Mianzi};
use lizhisim::xiangting::shoupai::{validate_shoupai, InvalidShoupaiError};
use lizhisim::xiangting::standard::{
    calculate_replacement_number_formula, calculate_replacement_number_inner,
    count_4_tiles_in_shoupai, count_zipai_mianzi_dazi_gulipai,
};

#[test]
fn complete_standard_hand() {
    let bingpai = Bingpai::from_code("123m456p789s11222z");
    assert_eq!(bingpai.iter().sum::<u8>(), 14);
    assert_eq!(calculate_replacement_number(&bingpai, &None), Ok(0));
    assert_eq!(calculate_xiangting_number(&bingpai, &None), Ok(-1));
}

#[test]
fn complete_hand_with_one_tile_too_many_is_rejected() {
    let bingpai = Bingpai::from_code("1123m456p789s11222z");
    assert_eq!(bingpai.iter().sum::<u8>(), 15);
    assert_eq!(
        calculate_replacement_number(&bingpai, &None),
        Err(XiangtingError::InvalidBingpai(
            InvalidBingpaiError::ExceedsMaxNumBingpai(15)
        ))
    );
}

#[test]
fn one_tile_from_complete() {
    // The complete hand without one tile of a run, of the pair, of the triplet.
    for code in [
        "23m456p789s11222z",
        "13m456p789s11222z",
        "123m456p789s1222z",
        "123m456p789s1122z",
    ] {
        let bingpai = Bingpai::from_code(code);
        assert_eq!(bingpai.iter().sum::<u8>(), 13);
        assert_eq!(calculate_replacement_number(&bingpai, &None), Ok(1));
        assert_eq!(calculate_xiangting_number(&bingpai, &None), Ok(0));
    }
}

#[test]
fn thirteen_orphans_complete() {
    let bingpai = Bingpai::from_code("119m19p19s1234567z");
    assert_eq!(bingpai.iter().sum::<u8>(), 14);
    assert_eq!(calculate_replacement_number(&bingpai, &None), Ok(0));
}

#[test]
fn thirteen_orphans_twelve_kinds_without_pair() {
    // All kinds but 1m, none twice, and a 5m.
    let bingpai = Bingpai::from_code("59m19p19s1234567z");
    assert_eq!(bingpai.iter().sum::<u8>(), 13);
    assert_eq!(
        lizhisim::xiangting::shisanyao::calculate_replacement_number(&bingpai, 13),
        2
    );
    assert_eq!(calculate_replacement_number(&bingpai, &None), Ok(2));
}

#[test]
fn seven_pairs_is_least_of_the_shapes() {
    let bingpai = Bingpai::from_code("1188m2277p3399s11z");
    assert_eq!(
        lizhisim::xiangting::standard::calculate_replacement_number(bingpai, &None, 14),
        4
    );
    assert_eq!(calculate_replacement_number(&bingpai, &None), Ok(0));
}

#[test]
fn same_input_same_result_and_input_unchanged() {
    let bingpai = Bingpai::from_code("1333455668m2367z");
    let before = bingpai;
    let first = calculate_replacement_number(&bingpai, &None);
    let second = calculate_replacement_number(&bingpai, &None);
    assert_eq!(first, Ok(4));
    assert_eq!(first, second);
    assert_eq!(bingpai, before);

    let mut scratch = Bingpai::from_code("1333455668m2367z");
    let a = calculate_replacement_number_inner(&mut scratch, 14, false);
    assert_eq!(scratch, before);
    let b = calculate_replacement_number_inner(&mut scratch, 14, false);
    assert_eq!(a, b);
}

#[test]
fn suits_that_disagree_on_the_best_split() {
    // The split of the suit with the most sets is not the one with the
    // fewest isolated tiles.
    let bingpai = Bingpai::from_code("1333455668m23677z");
    assert_eq!(bingpai.iter().sum::<u8>(), 15);
    let hand = Bingpai::from_code("133345568m23677z");
    assert_eq!(hand.iter().sum::<u8>(), 14);
    assert_eq!(calculate_replacement_number(&hand, &None), Ok(3));

    let hand = Bingpai::from_code("1111234444m1111p");
    assert_eq!(hand.iter().sum::<u8>(), 14);
    assert_eq!(calculate_replacement_number(&hand, &None), Ok(1));
}

#[test]
fn rejected_concealed_tiles() {
    assert_eq!(
        calculate_replacement_number(&Bingpai::from_code(""), &None),
        Err(XiangtingError::InvalidBingpai(InvalidBingpaiError::EmptyBingpai))
    );
    assert_eq!(
        calculate_replacement_number(&Bingpai::from_code("11111m"), &None),
        Err(XiangtingError::InvalidBingpai(
            InvalidBingpaiError::ExceedsMaxNumSameTile(5)
        ))
    );
    assert_eq!(
        calculate_replacement_number(&Bingpai::from_code("123456789m123456p"), &None),
        Err(XiangtingError::InvalidBingpai(
            InvalidBingpaiError::ExceedsMaxNumBingpai(15)
        ))
    );
    for (code, total) in [("123m", 3u8), ("123456m", 6), ("123456789m", 9), ("123456789m123p", 12)] {
        assert_eq!(
            calculate_replacement_number(&Bingpai::from_code(code), &None),
            Err(XiangtingError::InvalidBingpai(
                InvalidBingpaiError::InvalidNumBingpai(total)
            ))
        );
    }
    assert_eq!(
        calculate_xiangting_number(&Bingpai::from_code("123m"), &None),
        Err(XiangtingError::InvalidBingpai(
            InvalidBingpaiError::InvalidNumBingpai(3)
        ))
    );
}

#[test]
fn every_valid_total_is_accepted() {
    let codes = [
        "1m", "11m", "1234m", "12345m", "1234567m", "12345678m", "123456789m1p",
        "123456789m12p", "123456789m1234p", "123456789m12345p",
    ];
    let totals = [1u8, 2, 4, 5, 7, 8, 10, 11, 13, 14];
    for (code, total) in codes.iter().zip(totals) {
        let bingpai = Bingpai::from_code(code);
        assert_eq!(bingpai.iter().sum::<u8>(), total);
        assert!(calculate_replacement_number(&bingpai, &None).is_ok());
    }
}

#[test]
fn rejected_melds() {
    let bingpai = Bingpai::from_code("12z");
    let melds = Some([
        Some(Mianzi::Shunzi(0, ClaimedTilePosition::Low)),
        Some(Mianzi::Shunzi(0, ClaimedTilePosition::Low)),
        Some(Mianzi::Shunzi(27, ClaimedTilePosition::Low)),
        None,
    ]);
    assert_eq!(
        calculate_replacement_number(&bingpai, &melds),
        Err(XiangtingError::InvalidShoupai(InvalidShoupaiError::InvalidMianzi(
            InvalidMianziError::ShunziWithZipai(27)
        )))
    );
    let quads = Some([
        Some(Mianzi::Gangzi(0)),
        Some(Mianzi::Gangzi(1)),
        Some(Mianzi::Gangzi(2)),
        Some(Mianzi::Gangzi(2)),
    ]);
    assert_eq!(
        calculate_replacement_number(&bingpai, &quads),
        Err(XiangtingError::InvalidShoupai(
            InvalidShoupaiError::ExceedsMaxNumSameTile(8)
        ))
    );
    let too_many = Some([
        Some(Mianzi::Kezi(0)),
        Some(Mianzi::Kezi(1)),
        Some(Mianzi::Kezi(2)),
        Some(Mianzi::Kezi(3)),
    ]);
    assert_eq!(
        calculate_replacement_number(&Bingpai::from_code("1234z"), &too_many),
        Err(XiangtingError::InvalidShoupai(
            InvalidShoupaiError::ExceedsMaxNumShoupai(16)
        ))
    );
    let wrong_number = [Some(Mianzi::Kezi(0)), Some(Mianzi::Gangzi(1)), None, None];
    assert_eq!(
        validate_shoupai(&Bingpai::from_code("123z"), &wrong_number),
        Err(InvalidShoupaiError::InvalidNumShoupai(10))
    );
}

#[test]
fn formula_values() {
    assert_eq!(calculate_replacement_number_formula(0, 0, 0, false), 14);
    assert_eq!(calculate_replacement_number_formula(5, 0, 0, false), 1);
    assert_eq!(calculate_replacement_number_formula(6, 3, 9, true), 0);
    assert_eq!(calculate_replacement_number_formula(2, 4, 1, false), 3);
    assert_eq!(calculate_replacement_number_formula(2, 4, 1, true), 2);
    assert_eq!(calculate_replacement_number_formula(255, 255, 255, true), 0);
    // A tile that completes a partial set, in place of an isolated tile.
    assert_eq!(calculate_replacement_number_formula(1, 2, 3, true), 4);
    assert_eq!(calculate_replacement_number_formula(2, 1, 2, true), 3);
}

#[test]
fn honor_blocks() {
    let r = count_zipai_mianzi_dazi_gulipai(&[3, 4, 2, 1, 0, 2, 1]);
    assert_eq!(r.num_mianzi, 2);
    assert_eq!(r.num_dazi, 2);
    assert_eq!(r.num_gulipai, 2);
}

#[test]
fn kinds_held_four_times() {
    let bingpai = Bingpai::from_code("1111m234p1z");
    let flags = count_4_tiles_in_shoupai(&bingpai, &None);
    assert!(flags.is_raised(0));
    assert!(!flags.is_raised(1));
    assert!(!flags.is_raised(10));
    assert!(!flags.is_raised(64));

    let melds = Some([
        Some(Mianzi::Kezi(10)),
        Some(Mianzi::Shunzi(12, ClaimedTilePosition::Middle)),
        None,
        None,
    ]);
    let bingpai = Bingpai::from_code("1111m2444p1z");
    let flags = count_4_tiles_in_shoupai(&bingpai, &melds);
    assert!(flags.is_raised(0));
    assert!(flags.is_raised(10));
    assert!(flags.is_raised(12));
    assert!(!flags.is_raised(11));
    assert!(!flags.is_raised(13));
    assert!(!flags.is_raised(27));
}

#[test]
fn melds_are_validated() {
    assert_eq!(Mianzi::Shunzi(0, ClaimedTilePosition::Low).validate(), Ok(()));
    assert_eq!(Mianzi::Shunzi(6, ClaimedTilePosition::Low).validate(), Ok(()));
    assert_eq!(Mianzi::Shunzi(26, ClaimedTilePosition::High).validate(), Ok(()));
    assert_eq!(Mianzi::Kezi(33).validate(), Ok(()));
    assert_eq!(Mianzi::Gangzi(33).validate(), Ok(()));
    assert_eq!(
        Mianzi::Shunzi(34, ClaimedTilePosition::Low).validate(),
        Err(InvalidMianziError::IndexOutOfRange(34))
    );
    assert_eq!(
        Mianzi::Kezi(34).validate(),
        Err(InvalidMianziError::IndexOutOfRange(34))
    );
    assert_eq!(
        Mianzi::Gangzi(255).validate(),
        Err(InvalidMianziError::IndexOutOfRange(255))
    );
    assert_eq!(
        Mianzi::Shunzi(27, ClaimedTilePosition::Middle).validate(),
        Err(InvalidMianziError::ShunziWithZipai(27))
    );
    assert_eq!(
        Mianzi::Shunzi(7, ClaimedTilePosition::Low).validate(),
        Err(InvalidMianziError::InvalidShunziCombination(7, ClaimedTilePosition::Low))
    );
    assert_eq!(
        Mianzi::Shunzi(9, ClaimedTilePosition::Middle).validate(),
        Err(InvalidMianziError::InvalidShunziCombination(9, ClaimedTilePosition::Middle))
    );
    assert_eq!(
        Mianzi::Shunzi(19, ClaimedTilePosition::High).validate(),
        Err(InvalidMianziError::InvalidShunziCombination(19, ClaimedTilePosition::High))
    );
}
