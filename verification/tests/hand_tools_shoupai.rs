use lizhisim::hand_tools::fulu_mianzi::{ClaimedTilePosition, FuluMianzi};
use lizhisim::hand_tools::shoupai::FuluMianziListExt;
use lizhisim::hand_tools::tile::TileCounts;
use lizhisim::hand_tools::tile_code::FromTileCode;

#[test]
fn to_tile_counts_1m_23m() {
    let fulu_mianzi_list = [FuluMianzi::Shunzi(0, ClaimedTilePosition::Low)];
    assert_eq!(
        fulu_mianzi_list.to_tile_counts(),
        TileCounts::from_code("123m")
    );
}

#[test]
fn to_tile_counts_4p_35p() {
    let fulu_mianzi_list = [FuluMianzi::Shunzi(12, ClaimedTilePosition::Middle)];
    assert_eq!(
        fulu_mianzi_list.to_tile_counts(),
        TileCounts::from_code("435p")
    );
}

#[test]
fn to_tile_counts_9s_78s() {
    let fulu_mianzi_list = [FuluMianzi::Shunzi(26, ClaimedTilePosition::High)];
    assert_eq!(
        fulu_mianzi_list.to_tile_counts(),
        TileCounts::from_code("978s")
    );
}

#[test]
fn to_tile_counts_111z() {
    let fulu_mianzi_list = [FuluMianzi::Kezi(27)];
    assert_eq!(
        fulu_mianzi_list.to_tile_counts(),
        TileCounts::from_code("111z")
    );
}

#[test]
fn to_tile_counts_concealed_7777z() {
    let fulu_mianzi_list = [FuluMianzi::Angangzi(33)];
    assert_eq!(
        fulu_mianzi_list.to_tile_counts(),
        TileCounts::from_code("7777z")
    );
}

#[test]
fn to_tile_counts_open_7777z() {
    let fulu_mianzi_list = [FuluMianzi::Minggangzi(33)];
    assert_eq!(
        fulu_mianzi_list.to_tile_counts(),
        TileCounts::from_code("7777z")
    );
}
