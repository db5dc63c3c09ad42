use lizhisim::hand_tools::tile_code::FromTileCode;
use lizhisim::xiangting::bingpai::{count_bingpai, Bingpai, InvalidBingpaiError};

#[test]
fn valid_bingpai() {
    let bingpai_1: Bingpai = Bingpai::from_code("1m");
    let bingpai_2: Bingpai = Bingpai::from_code("123456789m34567z");
    let bingpai_3: Bingpai = Bingpai::from_code("11112222333344m");

    let num_bingpai_1 = count_bingpai(&bingpai_1).unwrap();
    let num_bingpai_2 = count_bingpai(&bingpai_2).unwrap();
    let num_bingpai_3 = count_bingpai(&bingpai_3).unwrap();

    assert_eq!(num_bingpai_1, bingpai_1.iter().sum());
    assert_eq!(num_bingpai_2, bingpai_2.iter().sum());
    assert_eq!(num_bingpai_3, bingpai_3.iter().sum());
}

#[test]
fn invalid_bingpai() {
    let bingpai_1: Bingpai = Bingpai::from_code("");
    let bingpai_2: Bingpai = Bingpai::from_code("123456789m234567z");
    let bingpai_3: Bingpai = Bingpai::from_code("111112222333344m");
    let bingpai_4: Bingpai = Bingpai::from_code("1111122223333444455m");
    let bingpai_5: Bingpai = Bingpai::from_code("123456789m567z");

    let num_bingpai_1 = count_bingpai(&bingpai_1).unwrap_err();
    let num_bingpai_2 = count_bingpai(&bingpai_2).unwrap_err();
    let num_bingpai_3 = count_bingpai(&bingpai_3).unwrap_err();
    let num_bingpai_4 = count_bingpai(&bingpai_4).unwrap_err();
    let num_bingpai_5 = count_bingpai(&bingpai_5).unwrap_err();

    assert!(matches!(num_bingpai_1, InvalidBingpaiError::EmptyBingpai));
    assert!(matches!(
        num_bingpai_2,
        InvalidBingpaiError::ExceedsMaxNumBingpai(15)
    ));
    assert!(matches!(
        num_bingpai_3,
        InvalidBingpaiError::ExceedsMaxNumSameTile(5)
    ));
    assert!(matches!(
        num_bingpai_4,
        InvalidBingpaiError::ExceedsMaxNumSameTile(5)
    ));
    assert!(matches!(
        num_bingpai_5,
        InvalidBingpaiError::InvalidNumBingpai(12)
    ));
}
