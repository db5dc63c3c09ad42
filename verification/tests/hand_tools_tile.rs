use lizhisim::hand_tools::tile::{Tile, TileExt};

#[test]
fn is_valid_7z() {
    let t_7z: Tile = 33;
    assert!(t_7z.is_valid());
}

#[test]
fn is_invalid_8z() {
    let t_8z: Tile = 34;
    assert!(!t_8z.is_valid());
}

#[test]
fn is_shupai_9s() {
    let t_9s: Tile = 26;
    assert!(t_9s.is_shupai());
}

#[test]
fn is_not_shupai_1z() {
    let t_1z: Tile = 27;
    assert!(!t_1z.is_shupai());
}

#[test]
fn is_not_shupai_8z() {
    let t_8z: Tile = 34;
    assert!(!t_8z.is_shupai());
}
