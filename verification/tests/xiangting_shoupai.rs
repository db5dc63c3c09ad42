use lizhisim::hand_tools::tile_code::FromTileCode;
use lizhisim::xiangting::bingpai::Bingpai;
use lizhisim::xiangting::mianzi::{ClaimedTilePosition, Mianzi};
use lizhisim::xiangting::shoupai::{count_fulupai, validate_shoupai, InvalidShoupaiError};

#[test]
fn count_fulupai_menqian() {
    let fulupai_menqian_1: Bingpai = Bingpai::from_code("");
    let menqian = [None, None, None, None];
    let fulupai_menqian_2 = count_fulupai(&menqian);
    assert_eq!(fulupai_menqian_1, fulupai_menqian_2);
}

#[test]
fn count_fulupai_3_fulu() {
    let fulupai_3_chi_1: Bingpai = Bingpai::from_code("112233m123p");
    let shunzi_3 = [
        Some(Mianzi::Shunzi(0, ClaimedTilePosition::Low)),
        Some(Mianzi::Shunzi(0, ClaimedTilePosition::Low)),
        Some(Mianzi::Shunzi(9, ClaimedTilePosition::Low)),
        None,
    ];
    let fulupai_3_chi_2 = count_fulupai(&shunzi_3);
    assert_eq!(fulupai_3_chi_1, fulupai_3_chi_2);

    let fulupai_3_peng_1: Bingpai = Bingpai::from_code("222333444m");
    let kezi_3 = [
        None,
        Some(Mianzi::Kezi(1)),
        Some(Mianzi::Kezi(2)),
        Some(Mianzi::Kezi(3)),
    ];
    let fulupai_3_peng_2 = count_fulupai(&kezi_3);
    assert_eq!(fulupai_3_peng_1, fulupai_3_peng_2);

    let fulupai_3_gang_1: Bingpai = Bingpai::from_code("111133334444m");
    let gangzi_3 = [
        Some(Mianzi::Gangzi(0)),
        None,
        Some(Mianzi::Gangzi(2)),
        Some(Mianzi::Gangzi(3)),
    ];
    let fulupai_3_gang_2 = count_fulupai(&gangzi_3);
    assert_eq!(fulupai_3_gang_1, fulupai_3_gang_2);
}

#[test]
fn count_fulupai_4_fulu() {
    let fulupai_4_chi_1: Bingpai = Bingpai::from_code("123456789m123p");
    let shunzi_4 = [
        Some(Mianzi::Shunzi(0, ClaimedTilePosition::Low)),
        Some(Mianzi::Shunzi(3, ClaimedTilePosition::Low)),
        Some(Mianzi::Shunzi(6, ClaimedTilePosition::Low)),
        Some(Mianzi::Shunzi(9, ClaimedTilePosition::Low)),
    ];
    let fulupai_4_chi_2 = count_fulupai(&shunzi_4);
    assert_eq!(fulupai_4_chi_1, fulupai_4_chi_2);

    let fulupai_4_peng_1: Bingpai = Bingpai::from_code("111222333444m");
    let kezi_4 = [
        Some(Mianzi::Kezi(0)),
        Some(Mianzi::Kezi(1)),
        Some(Mianzi::Kezi(2)),
        Some(Mianzi::Kezi(3)),
    ];
    let fulupai_4_peng_2 = count_fulupai(&kezi_4);
    assert_eq!(fulupai_4_peng_1, fulupai_4_peng_2);

    let fulupai_4_gang_1: Bingpai = Bingpai::from_code("1111222233334444m");
    let gangzi_4 = [
        Some(Mianzi::Gangzi(0)),
        Some(Mianzi::Gangzi(1)),
        Some(Mianzi::Gangzi(2)),
        Some(Mianzi::Gangzi(3)),
    ];
    let fulupai_4_gang_2 = count_fulupai(&gangzi_4);
    assert_eq!(fulupai_4_gang_1, fulupai_4_gang_2);
}

#[test]
fn valid_shoupai_menqian() {
    let bingpai: Bingpai = Bingpai::from_code("1234m1234p1234s12z");
    let menqian = [None, None, None, None];
    validate_shoupai(&bingpai, &menqian).unwrap();
}

#[test]
fn invalid_shoupai_menqian_too_many_tiles() {
    let bingpai: Bingpai = Bingpai::from_code("1234m1234p1234s123z");
    let menqian = [None, None, None, None];
    let result = validate_shoupai(&bingpai, &menqian).unwrap_err();
    assert!(matches!(
        result,
        InvalidShoupaiError::ExceedsMaxNumShoupai(15)
    ));
}

#[test]
fn invalid_shoupai_menqian_5th_tile() {
    let bingpai: Bingpai = Bingpai::from_code("11111m1234p1234s1z");
    let menqian = [None, None, None, None];
    let result = validate_shoupai(&bingpai, &menqian).unwrap_err();
    assert!(matches!(
        result,
        InvalidShoupaiError::ExceedsMaxNumSameTile(5)
    ));
}

#[test]
fn valid_shoupai_4_fulu() {
    let bingpai: Bingpai = Bingpai::from_code("12z");

    let kezi_4 = [
        Some(Mianzi::Kezi(0)),
        Some(Mianzi::Kezi(1)),
        Some(Mianzi::Kezi(2)),
        Some(Mianzi::Kezi(3)),
    ];
    validate_shoupai(&bingpai, &kezi_4).unwrap();

    let gangzi_4 = [
        Some(Mianzi::Gangzi(0)),
        Some(Mianzi::Gangzi(1)),
        Some(Mianzi::Gangzi(2)),
        Some(Mianzi::Gangzi(3)),
    ];
    validate_shoupai(&bingpai, &gangzi_4).unwrap();
}

#[test]
fn invalid_shoupai_4_fulu() {
    let bingpai: Bingpai = Bingpai::from_code("123z");

    let kezi_4 = [
        Some(Mianzi::Kezi(0)),
        Some(Mianzi::Kezi(1)),
        Some(Mianzi::Kezi(2)),
        Some(Mianzi::Kezi(3)),
    ];
    let result_1 = validate_shoupai(&bingpai, &kezi_4).unwrap_err();
    assert!(matches!(
        result_1,
        InvalidShoupaiError::ExceedsMaxNumShoupai(15)
    ));

    let gangzi_4 = [
        Some(Mianzi::Gangzi(0)),
        Some(Mianzi::Gangzi(1)),
        Some(Mianzi::Gangzi(2)),
        Some(Mianzi::Gangzi(2)),
    ];
    let result_2 = validate_shoupai(&bingpai, &gangzi_4).unwrap_err();
    assert!(matches!(
        result_2,
        InvalidShoupaiError::ExceedsMaxNumSameTile(8)
    ));

    let shunzi_3 = [
        Some(Mianzi::Shunzi(0, ClaimedTilePosition::Low)),
        Some(Mianzi::Shunzi(0, ClaimedTilePosition::Low)),
        Some(Mianzi::Shunzi(27, ClaimedTilePosition::Low)),
        None,
    ];
    let result_3 = validate_shoupai(&bingpai, &shunzi_3).unwrap_err();
    assert!(matches!(result_3, InvalidShoupaiError::InvalidMianzi(_)));
}
