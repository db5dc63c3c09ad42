use lizhisim::tile::{Tile, TileError};

#[test]
fn tile_valid_7z() {
    assert_eq!(Tile::try_from(33).unwrap(), Tile::new_unchecked(33));
}

#[test]
fn tile_valid_0s() {
    assert_eq!(Tile::try_from(36).unwrap(), Tile::new_unchecked(36));
}

#[test]
fn tile_invalid_id_37() {
    assert!(matches!(
        Tile::try_from(37).unwrap_err(),
        TileError::OutOfRange(37)
    ));
}

#[test]
fn is_zipai_7z() {
    let t = Tile::try_from(33).unwrap();
    assert!(t.is_zipai());
}

#[test]
fn is_not_zipai_0m() {
    let t = Tile::try_from(34).unwrap();
    assert!(!t.is_zipai());
}

#[test]
fn is_yaojiupai_1m() {
    let t = Tile::try_from(0).unwrap();
    assert!(t.is_yaojiupai());
}

#[test]
fn is_not_yaojiupai_2m() {
    let t = Tile::try_from(1).unwrap();
    assert!(!t.is_yaojiupai());
}

#[test]
fn is_hongbaopai_0m() {
    let t = Tile::try_from(34).unwrap();
    assert!(t.is_hongbaopai());
}

#[test]
fn is_not_hongbaopai_7z() {
    let t = Tile::try_from(33).unwrap();
    assert!(!t.is_hongbaopai());
}

#[test]
fn normalize_hongbaopai_0m_to_5m() {
    let t_0m = Tile::try_from(34).unwrap();
    let t_5m = Tile::try_from(4).unwrap();
    assert_eq!(t_0m.normalize_hongbaopai(), t_5m);
}

#[test]
fn normalize_hongbaopai_5m_to_5m() {
    let t_5m = Tile::try_from(4).unwrap();
    assert_eq!(t_5m.normalize_hongbaopai(), t_5m);
}

#[test]
fn normalize_hongbaopai_1m_to_1m() {
    let t_1m = Tile::try_from(0).unwrap();
    assert_eq!(t_1m.normalize_hongbaopai(), t_1m);
}

#[test]
fn decorate_hongbaopai_5p_to_0p() {
    let t_5p = Tile::try_from(13).unwrap();
    let t_0p = Tile::try_from(35).unwrap();
    assert_eq!(t_5p.decorate_hongbaopai(), t_0p);
}

#[test]
fn decorate_hongbaopai_0p_to_0p() {
    let t_0p = Tile::try_from(35).unwrap();
    assert_eq!(t_0p.decorate_hongbaopai(), t_0p);
}

#[test]
fn decorate_hongbaopai_7z_to_7z() {
    let t_7z = Tile::try_from(33).unwrap();
    assert_eq!(t_7z.decorate_hongbaopai(), t_7z);
}

#[test]
fn tu8_1m() {
    assert_eq!(lizhisim::tile_names::TILE_1M, 0u8);
}

#[test]
fn tu8_1z() {
    assert_eq!(lizhisim::tile_names::TILE_1Z, 27u8);
}

#[test]
fn tu8_0s() {
    assert_eq!(lizhisim::tile_names::TILE_0S, 36u8);
}

#[test]
fn tuz_1m() {
    assert_eq!(lizhisim::tile_names::TILE_1M as usize, 0usize);
}

#[test]
fn t_1m() {
    assert_eq!(
        Tile::new_unchecked(lizhisim::tile_names::TILE_1M),
        Tile::try_from(0).unwrap()
    );
}
