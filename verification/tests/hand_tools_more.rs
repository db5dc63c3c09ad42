use lizhisim::fulu::{AnGangzi, Mianzi, MianziError, MingShunzi, ClaimedTilePosition};
use lizhisim::hand_tools::bingpai::{BingpaiError, TileCountsExt};
use lizhisim::hand_tools::tile::{TileCounts, TileIdsExt};
use lizhisim::hand_tools::tile_code::FromTileCode;
use lizhisim::tile::Tile;

fn t(id: u8) -> Tile {
    Tile::try_from(id).unwrap()
}

#[test]
fn count_of_a_hand_that_has_not_drawn() {
    assert_eq!(TileCounts::from_code("1m").count(), Ok(1));
    assert_eq!(TileCounts::from_code("123m456p789s1122z").count(), Ok(13));
    assert_eq!(
        TileCounts::from_code("123m456p789s11222z").count(),
        Err(BingpaiError::TooManyTiles(14))
    );
    assert_eq!(
        TileCounts::from_code("11m").count(),
        Err(BingpaiError::InvalidTileCount(2))
    );
    assert_eq!(
        TileCounts::from_code("").count(),
        Err(BingpaiError::InvalidTileCount(0))
    );
    assert_eq!(
        TileCounts::from_code("1m22222p666666z").count(),
        Err(BingpaiError::TooManyCopies { tile: 10, count: 5 })
    );
}

#[test]
fn ids_of_the_tiles_of_a_hand() {
    assert_eq!(TileCounts::from_code("").to_ids(), Vec::<u8>::new());
    assert_eq!(
        TileCounts::from_code("112m3333p7z").to_ids(),
        vec![0, 1, 4, 44, 45, 46, 47, 132]
    );
}

#[test]
fn concealed_quad() {
    let gangzi = AnGangzi::new([t(9), t(9), t(9), t(9)]).unwrap();
    assert_eq!(*gangzi.tiles(), [t(9), t(9), t(9), t(9)]);
    let gangzi = AnGangzi::new([t(4), t(34), t(4), t(34)]).unwrap();
    assert_eq!(*gangzi.tiles(), [t(34), t(34), t(4), t(4)]);
    assert_eq!(
        AnGangzi::new([t(4), t(34), t(13), t(4)]).unwrap_err(),
        MianziError::NotSameKind
    );
}

#[test]
fn claimed_run_positions() {
    let low = MingShunzi::new(t(6), [t(7), t(8)]).unwrap();
    assert_eq!(*low.claimed_tile_position(), ClaimedTilePosition::Low);
    assert!(low.shiti_jin().is_none());
    let high = MingShunzi::new(t(2), [t(1), t(0)]).unwrap();
    assert_eq!(*high.claimed_tile_position(), ClaimedTilePosition::High);
    assert!(high.shiti_jin().is_none());
    let high = MingShunzi::new(t(8), [t(7), t(6)]).unwrap();
    assert_eq!(high.shiti_jin().unwrap(), t(5));
    let middle = MingShunzi::new(t(10), [t(9), t(11)]).unwrap();
    assert_eq!(*middle.claimed_tile_position(), ClaimedTilePosition::Middle);
    assert!(middle.shiti_jin().is_none());
    assert_eq!(
        MingShunzi::new(t(8), [t(9), t(10)]).unwrap_err(),
        MianziError::NotSameSuit
    );
    assert_eq!(
        MingShunzi::new(t(27), [t(28), t(29)]).unwrap_err(),
        MianziError::ShunziWithZipai
    );
    assert_eq!(
        MingShunzi::new(t(0), [t(1), t(3)]).unwrap_err(),
        MianziError::NotConsecutive
    );
}
