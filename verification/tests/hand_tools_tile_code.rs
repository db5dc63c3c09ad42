use lizhisim::hand_tools::tile::TileCounts;
use lizhisim::hand_tools::tile_code::FromTileCode;

#[test]
fn test_from_code_tile_counts_normal() {
    let counts = TileCounts::from_code("123m456p789s12344z");
    let expected_counts: TileCounts = [
        1, 1, 1, 0, 0, 0, 0, 0, 0, // m
        0, 0, 0, 1, 1, 1, 0, 0, 0, // p
        0, 0, 0, 0, 0, 0, 1, 1, 1, // s
        1, 1, 1, 2, 0, 0, 0, // z
    ];
    assert_eq!(counts, expected_counts);
}

#[test]
fn test_from_code_tile_counts_multiple_types() {
    let counts = TileCounts::from_code("11m22p33s44z11m2p7s");
    let expected_counts: TileCounts = [
        4, 0, 0, 0, 0, 0, 0, 0, 0, // m
        0, 3, 0, 0, 0, 0, 0, 0, 0, // p
        0, 0, 2, 0, 0, 0, 1, 0, 0, // s
        0, 0, 0, 2, 0, 0, 0, // z
    ];
    assert_eq!(counts, expected_counts);
}

#[test]
fn test_from_code_tile_counts_empty() {
    let counts = TileCounts::from_code("");
    let expected_counts: TileCounts = [0u8; 34];
    assert_eq!(counts, expected_counts);
}
