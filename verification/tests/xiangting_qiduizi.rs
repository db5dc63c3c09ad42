use lizhisim::hand_tools::tile_code::FromTileCode;
use lizhisim::xiangting::bingpai::Bingpai;
use lizhisim::xiangting::qiduizi::calculate_replacement_number;

#[test]
fn seven_pairs_complete() {
    let bingpai = Bingpai::from_code("1188m2277p3399s11z");
    assert_eq!(calculate_replacement_number(&bingpai, 14), 0);
}

#[test]
fn seven_pairs_ready() {
    let bingpai = Bingpai::from_code("1188m2277p3399s1z");
    assert_eq!(calculate_replacement_number(&bingpai, 13), 1);
}

#[test]
fn seven_pairs_four_of_a_kind_is_one_pair() {
    // 6 kinds held twice or more, and only 6 kinds in all.
    let bingpai = Bingpai::from_code("1111m2277p3399s11z");
    assert_eq!(calculate_replacement_number(&bingpai, 14), 2);
}

#[test]
fn seven_pairs_no_pair() {
    let bingpai = Bingpai::from_code("123456789m12345p");
    assert_eq!(calculate_replacement_number(&bingpai, 14), 7);
}

#[test]
fn seven_pairs_few_kinds() {
    // 4 kinds, 3 of them held twice or more: 4 pairs and 3 kinds are missing.
    let bingpai = Bingpai::from_code("1111m2222p3333s1z");
    assert_eq!(calculate_replacement_number(&bingpai, 13), 7);
}

#[test]
fn seven_pairs_needs_13_or_14_tiles() {
    let bingpai = Bingpai::from_code("1188m2277p33s");
    assert_eq!(calculate_replacement_number(&bingpai, 10), u8::MAX);
    assert_eq!(calculate_replacement_number(&bingpai, 12), u8::MAX);
    assert_eq!(calculate_replacement_number(&bingpai, 15), u8::MAX);
}
