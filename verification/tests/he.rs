use lizhisim::fulu::Tajia;
use lizhisim::he::{He, HeError};
use lizhisim::tile::Tile;

fn t(id: u8) -> Tile {
    Tile::try_from(id).unwrap()
}

#[test]
fn new_river_is_empty() {
    let he = He::new();
    assert!(he.tiles().is_empty());
    assert!(!he.find(&t(0)));
}

#[test]
fn discards_are_kept_in_order() {
    let mut he = He::new();
    he.dapai(t(3), false, false).unwrap();
    he.dapai(t(27), true, true).unwrap();
    let tiles = he.tiles();
    assert_eq!(tiles.len(), 2);
    assert_eq!(tiles[0].tile, t(3));
    assert!(!tiles[0].is_moqie);
    assert!(!tiles[0].is_lizhi_declaration);
    assert!(tiles[0].claimer.is_none());
    assert_eq!(tiles[1].tile, t(27));
    assert!(tiles[1].is_moqie);
    assert!(tiles[1].is_lizhi_declaration);
}

#[test]
fn find_takes_red_five_as_five() {
    let mut he = He::new();
    he.dapai(t(34), false, false).unwrap();
    assert!(he.find(&t(4)));
    assert!(he.find(&t(34)));
    assert!(!he.find(&t(13)));
    assert!(!he.find(&t(35)));
}

#[test]
fn fulu_marks_the_last_discard() {
    let mut he = He::new();
    he.dapai(t(5), false, false).unwrap();
    he.dapai(t(6), false, false).unwrap();
    he.fulu(t(6), Tajia::Duimian).unwrap();
    let tiles = he.tiles();
    assert_eq!(tiles.len(), 2);
    assert!(tiles[0].claimer.is_none());
    assert_eq!(tiles[1].claimer, Some(Tajia::Duimian));
    assert_eq!(tiles[1].tile, t(6));
    assert!(he.find(&t(5)));
    assert!(he.find(&t(6)));
}

#[test]
fn fulu_of_empty_river_fails() {
    let mut he = He::new();
    assert_eq!(he.fulu(t(0), Tajia::Xiajia).unwrap_err(), HeError::Empty);
}

#[test]
fn fulu_of_another_tile_fails_and_changes_nothing() {
    let mut he = He::new();
    he.dapai(t(5), false, false).unwrap();
    assert_eq!(
        he.fulu(t(6), Tajia::Xiajia).unwrap_err(),
        HeError::TileMismatch
    );
    assert_eq!(he.tiles().len(), 1);
    assert!(he.tiles()[0].claimer.is_none());
}
