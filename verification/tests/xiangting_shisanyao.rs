use lizhisim::hand_tools::tile_code::FromTileCode;
use lizhisim::xiangting::bingpai::Bingpai;
use lizhisim::xiangting::shisanyao::calculate_replacement_number;

#[test]
fn calculate_replacement_number_no_terminals_and_honors() {
    let bingpai: Bingpai = Bingpai::from_code("23455m345p45678s");
    let num_bingpai: u8 = bingpai.iter().sum();
    let replacement_number = calculate_replacement_number(&bingpai, num_bingpai);
    assert_eq!(replacement_number, 14);
}

#[test]
fn shisanyao_calculate_replacement_number_without_pair() {
    let bingpai: Bingpai = Bingpai::from_code("189m12p249s12345z");
    let num_bingpai: u8 = bingpai.iter().sum();
    let replacement_number = calculate_replacement_number(&bingpai, num_bingpai);
    assert_eq!(replacement_number, 5);
}

#[test]
fn calculate_replacement_number_with_pair() {
    let bingpai: Bingpai = Bingpai::from_code("119m12p299s12345z");
    let num_bingpai: u8 = bingpai.iter().sum();
    let replacement_number = calculate_replacement_number(&bingpai, num_bingpai);
    assert_eq!(replacement_number, 4);
}

#[test]
fn shisanyao_calculate_replacement_number_tenpai() {
    let bingpai: Bingpai = Bingpai::from_code("11m19p19s1234567z");
    let num_bingpai: u8 = bingpai.iter().sum();
    let replacement_number = calculate_replacement_number(&bingpai, num_bingpai);
    assert_eq!(replacement_number, 1);
}

#[test]
fn calculate_replacement_number_tenpai_13_wait() {
    let bingpai: Bingpai = Bingpai::from_code("19m19p19s1234567z");
    let num_bingpai: u8 = bingpai.iter().sum();
    let replacement_number = calculate_replacement_number(&bingpai, num_bingpai);
    assert_eq!(replacement_number, 1);
}

#[test]
fn shisanyao_calculate_replacement_number_win() {
    let bingpai: Bingpai = Bingpai::from_code("119m19p19s1234567z");
    let num_bingpai: u8 = bingpai.iter().sum();
    let replacement_number = calculate_replacement_number(&bingpai, num_bingpai);
    assert_eq!(replacement_number, 0);
}

#[test]
fn calculate_replacement_number_incomplete_hand() {
    let bingpai_12: Bingpai = Bingpai::from_code("9m19p19s1234567z");
    let num_bingpai_12: u8 = bingpai_12.iter().sum();
    let replacement_number_12 = calculate_replacement_number(&bingpai_12, num_bingpai_12);
    assert_eq!(replacement_number_12, u8::MAX);

    let bingpai_13: Bingpai = Bingpai::from_code("19m19p19s1234567z");
    let replacement_number_13 = calculate_replacement_number(&bingpai_13, 12);
    assert_eq!(replacement_number_13, u8::MAX);
}
