use lizhisim::hand_tools::tile_code::FromTileCode;
use lizhisim::xiangting::bingpai::Bingpai;
use lizhisim::xiangting::standard::{
    calculate_replacement_number, calculate_replacement_number_formula,
    count_shupai_dazi_gulipai, count_shupai_mianzi_dazi_gulipai,
};

#[test]
fn calculate_replacement_number_formula_works() {
    assert_eq!(calculate_replacement_number_formula(0, 0, 14, false), 9);
    assert_eq!(calculate_replacement_number_formula(4, 0, 0, true), 0);
    assert_eq!(calculate_replacement_number_formula(3, 1, 0, true), 1);
    assert_eq!(calculate_replacement_number_formula(4, 1, 0, false), 1);
    assert_eq!(calculate_replacement_number_formula(4, 0, 2, false), 1);
}

#[test]
fn count_dazi_gulipai_works() {
    let bingpai = [0, 2, 0, 2, 1, 0, 0, 1, 1];
    let r = count_shupai_dazi_gulipai(&bingpai);
    assert_eq!(r.a.num_mianzi, 0);
    assert_eq!(r.a.num_dazi, 3);
    assert_eq!(r.a.num_gulipai, 1);
    assert_eq!(r.b.num_mianzi, 0);
    assert_eq!(r.b.num_dazi, 3);
    assert_eq!(r.b.num_gulipai, 1);
}

#[test]
fn count_mianzi_dazi_gulipai_works() {
    let mut bingpai = [1, 0, 3, 1, 2, 1, 0, 1, 0];
    let r = count_shupai_mianzi_dazi_gulipai(&mut bingpai, 0);
    assert_eq!(r.a.num_mianzi, 1);
    assert_eq!(r.a.num_dazi, 3);
    assert_eq!(r.a.num_gulipai, 0);
    assert_eq!(r.b.num_mianzi, 2);
    assert_eq!(r.b.num_dazi, 0);
    assert_eq!(r.b.num_gulipai, 3);
}

#[test]
fn calculate_replacement_number_shisanyao() {
    let bingpai_14: Bingpai = Bingpai::from_code("119m19p19s1234567z");
    let num_bingpai_1: u8 = bingpai_14.iter().sum();
    let replacement_number_1 = calculate_replacement_number(bingpai_14, &None, num_bingpai_1);
    assert_eq!(replacement_number_1, 8);

    let bingpai_13: Bingpai = Bingpai::from_code("19m19p19s1234567z");
    let num_bingpai_2: u8 = bingpai_13.iter().sum();
    let replacement_number_2 = calculate_replacement_number(bingpai_13, &None, num_bingpai_2);
    assert_eq!(replacement_number_2, 9);

    let bingpai_12: Bingpai = Bingpai::from_code("9m19p19s1234567z");
    let num_bingpai_3: u8 = bingpai_12.iter().sum();
    let replacement_number_3 = calculate_replacement_number(bingpai_13, &None, num_bingpai_3);
    assert_eq!(replacement_number_3, 9);
}

#[test]
fn standard_calculate_replacement_number_tenpai() {
    let bingpai: Bingpai = Bingpai::from_code("123m456p789s1122z");
    let num_bingpai: u8 = bingpai.iter().sum();
    let replacement_number = calculate_replacement_number(bingpai, &None, num_bingpai);
    assert_eq!(replacement_number, 1);
}

#[test]
fn standard_calculate_replacement_number_win() {
    let bingpai: Bingpai = Bingpai::from_code("123m456p789s11222z");
    let num_bingpai: u8 = bingpai.iter().sum();
    let replacement_number = calculate_replacement_number(bingpai, &None, num_bingpai);
    assert_eq!(replacement_number, 0);
}

#[test]
fn calculate_replacement_number_with_meld() {
    let bingpai: Bingpai = Bingpai::from_code("123m456p789s2z");
    let num_bingpai: u8 = bingpai.iter().sum();
    let replacement_number = calculate_replacement_number(bingpai, &None, num_bingpai);
    assert_eq!(replacement_number, 1);
}

#[test]
fn standard_calculate_replacement_number_without_pair() {
    // Source: https://blog.kobalab.net/entry/20151216/1450191666 雀頭がない場合
    let bingpai: Bingpai = Bingpai::from_code("12389m456p12789s1z");
    let num_bingpai: u8 = bingpai.iter().sum();
    let replacement_number = calculate_replacement_number(bingpai, &None, num_bingpai);
    assert_eq!(replacement_number, 2);
}

#[test]
fn calculate_replacement_number_too_many_meld_candidates() {
    // Source: https://blog.kobalab.net/entry/20151216/1450191666 搭子過多の場合
    let bingpai: Bingpai = Bingpai::from_code("12389m456p1289s11z");
    let num_bingpai: u8 = bingpai.iter().sum();
    let replacement_number = calculate_replacement_number(bingpai, &None, num_bingpai);
    assert_eq!(replacement_number, 2);
}

#[test]
fn calculate_replacement_number_not_enough_meld_candidates() {
    // Source: https://blog.kobalab.net/entry/20151216/1450191666 搭子不足の場合
    let bingpai: Bingpai = Bingpai::from_code("133345568m23677z");
    let num_bingpai: u8 = bingpai.iter().sum();
    let replacement_number = calculate_replacement_number(bingpai, &None, num_bingpai);
    assert_eq!(replacement_number, 3);
}

#[test]
fn calculate_replacement_number_incomplete_hand_4_melds_without_a_pair() {
    let bingpai: Bingpai = Bingpai::from_code("234p567s");
    let num_bingpai: u8 = bingpai.iter().sum();
    let replacement_number = calculate_replacement_number(bingpai, &None, num_bingpai);
    assert_eq!(replacement_number, 2);
}

#[test]
fn calculate_replacement_number_triplet_sequence() {
    let bingpai: Bingpai = Bingpai::from_code("222345p1234567z");
    let num_bingpai: u8 = bingpai.iter().sum();
    let replacement_number = calculate_replacement_number(bingpai, &None, num_bingpai);
    assert_eq!(replacement_number, 5);
}

#[test]
fn calculate_replacement_number_sequence_isolated_sequence() {
    let bingpai: Bingpai = Bingpai::from_code("2344456p123456z");
    let num_bingpai: u8 = bingpai.iter().sum();
    let replacement_number = calculate_replacement_number(bingpai, &None, num_bingpai);
    assert_eq!(replacement_number, 5);
}

#[test]
fn calculate_replacement_number_pair_triplet_sequence() {
    let bingpai: Bingpai = Bingpai::from_code("11222345p12345z");
    let num_bingpai: u8 = bingpai.iter().sum();
    let replacement_number = calculate_replacement_number(bingpai, &None, num_bingpai);
    assert_eq!(replacement_number, 4);
}

#[test]
fn calculate_replacement_number_pair_sequence_sequence_pair() {
    let bingpai: Bingpai = Bingpai::from_code("2234556788p123z");
    let num_bingpai: u8 = bingpai.iter().sum();
    let replacement_number = calculate_replacement_number(bingpai, &None, num_bingpai);
    assert_eq!(replacement_number, 3);
}

#[test]
fn calculate_replacement_number_prioritize_meld_candidates() {
    // Source: https://blog.kobalab.net/entry/2022/04/17/174206 面子の分け方
    let bingpai: Bingpai = Bingpai::from_code("133345568s11567z");
    let num_bingpai: u8 = bingpai.iter().sum();
    let replacement_number = calculate_replacement_number(bingpai, &None, num_bingpai);
    assert_eq!(replacement_number, 3);
}

#[test]
fn calculate_replacement_number_waiting_for_the_5th_tile() {
    // Source: https://blog.kobalab.net/entry/2022/04/17/174206 5枚目の牌を待つ形
    let bingpai: Bingpai = Bingpai::from_code("1111m123p112233s");
    let num_bingpai: u8 = bingpai.iter().sum();
    let replacement_number = calculate_replacement_number(bingpai, &None, num_bingpai);
    assert_eq!(replacement_number, 1); // 現状はアルゴリズム上聴牌と判定される あとで修正する
}

#[test]
fn calculate_replacement_number_waiting_for_the_5th_tile_2() {
    let bingpai: Bingpai = Bingpai::from_code("1111234444m1111p");
    let num_bingpai: u8 = bingpai.iter().sum();
    let replacement_number = calculate_replacement_number(bingpai, &None, num_bingpai);
    assert_eq!(replacement_number, 1); // 現状はアルゴリズム上聴牌と判定される あとで修正する
}
