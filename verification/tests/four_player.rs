use lizhisim::bipai::four_player::{Bipai4p, Bipai4pError, HongbaopaiConfig};
use lizhisim::tile::{Tile, TileError};
use rand::{rngs::StdRng, SeedableRng};

fn t(id: u8) -> Tile {
    Tile::try_from(id).unwrap()
}

#[test]
fn hongbaopai_config_valid_all_0() {
    let config = HongbaopaiConfig::new(0, 0, 0).unwrap();
    assert_eq!(config.m(), 0);
    assert_eq!(config.p(), 0);
    assert_eq!(config.s(), 0);
}

#[test]
fn hongbaopai_config_valid_all_4() {
    let config = HongbaopaiConfig::new(4, 4, 4).unwrap();
    assert_eq!(config.m(), 4);
    assert_eq!(config.p(), 4);
    assert_eq!(config.s(), 4);
}

#[test]
fn hongbaopai_config_invalid_m_5() {
    let err = HongbaopaiConfig::new(5, 0, 0).unwrap_err();
    assert_eq!(err.m, 5);
    assert_eq!(err.p, 0);
    assert_eq!(err.s, 0);
}

#[test]
fn new_bipai() {
    let mut rng = StdRng::seed_from_u64(42);
    let config = HongbaopaiConfig::new(0, 1, 2).unwrap();
    let bipai = Bipai4p::new(&mut rng, &config);

    let mut counts = [0u8; 34];
    let mut num_0m = 0;
    let mut num_0p = 0;
    let mut num_0s = 0;
    for tile in *bipai.tiles() {
        counts[tile.normalize_hongbaopai().to_usize()] += 1;

        match tile.as_u8() {
            34 => num_0m += 1,
            35 => num_0p += 1,
            36 => num_0s += 1,
            _ => (),
        }
    }

    assert_eq!(counts, [4; 34]);
    assert_eq!(num_0m, 0);
    assert_eq!(num_0p, 1);
    assert_eq!(num_0s, 2);
}

#[test]
fn from_slice_valid() {
    let mut tiles = (0..136).map(|t| t / 4).collect::<Vec<u8>>();
    tiles[13 * 4] = 35;
    tiles[22 * 4] = 36;
    tiles[22 * 4 + 1] = 36;
    let config = HongbaopaiConfig::new(0, 1, 2).unwrap();
    let bipai = Bipai4p::from_slice(&tiles, &config).unwrap();

    let mut counts = [0u8; 34];
    let mut num_0m = 0;
    let mut num_0p = 0;
    let mut num_0s = 0;
    for tile in *bipai.tiles() {
        counts[tile.normalize_hongbaopai().to_usize()] += 1;

        match tile.as_u8() {
            34 => num_0m += 1,
            35 => num_0p += 1,
            36 => num_0s += 1,
            _ => (),
        }
    }

    assert_eq!(counts, [4; 34]);
    assert_eq!(num_0m, 0);
    assert_eq!(num_0p, 1);
    assert_eq!(num_0s, 2);
}

#[test]
fn from_slice_invalid_135_tiles() {
    let tiles = (0..135).map(|t| t / 4).collect::<Vec<u8>>();
    let config = HongbaopaiConfig::new(0, 0, 0).unwrap();
    let err = Bipai4p::from_slice(&tiles, &config).unwrap_err();

    assert!(matches!(err, Bipai4pError::InvalidLength(135)));
}

#[test]
fn from_slice_invalid_137_tiles() {
    let tiles = (0..137).map(|t| t / 4).collect::<Vec<u8>>();
    let config = HongbaopaiConfig::new(0, 0, 0).unwrap();
    let err = Bipai4p::from_slice(&tiles, &config).unwrap_err();

    assert!(matches!(err, Bipai4pError::InvalidLength(137)));
}

#[test]
fn from_slice_invalid_tiles_id() {
    let mut tiles = (0..136).map(|t| t / 4).collect::<Vec<u8>>();
    tiles[135] = 37;
    let config = HongbaopaiConfig::new(0, 0, 0).unwrap();
    let err = Bipai4p::from_slice(&tiles, &config).unwrap_err();

    assert!(matches!(err, Bipai4pError::Tile(TileError::OutOfRange(37))));
}

#[test]
fn from_slice_invalid_1m_5_copies() {
    let mut tiles = (0..136).map(|t| t / 4).collect::<Vec<u8>>();
    tiles[135] = 0;
    let config = HongbaopaiConfig::new(0, 0, 0).unwrap();
    let err = Bipai4p::from_slice(&tiles, &config).unwrap_err();

    if let Bipai4pError::InvalidTileCount(tile, 5) = err {
        assert_eq!(tile, t(0));
    } else {
        panic!("unexpected error: {:?}", err);
    }
}

#[test]
fn from_slice_invalid_config_mismatch() {
    let tiles = (0..136).map(|t| t / 4).collect::<Vec<u8>>();
    let config = HongbaopaiConfig::new(0, 1, 2).unwrap();
    let err = Bipai4p::from_slice(&tiles, &config).unwrap_err();

    if let Bipai4pError::HongbaopaiConfigMismatch { expected, found } = err {
        assert_eq!(expected, config);
        assert_eq!(found, HongbaopaiConfig::new(0, 0, 0).unwrap());
    } else {
        panic!("unexpected error: {:?}", err);
    }
}

fn get_bipai_for_test() -> Bipai4p {
    let tiles = [
        22, 9, 20, 4, 10, 33, 15, 1, 30, 28, 27, 24,
        30, 31, 11, 15, 17, 29, 20, 25, 8, 27, 12, 11,
        30, 15, 23, 14, 31, 16, 24, 32, 32, 30, 7, 28,
        24, 33, 9, 7, 19, 9, 12, 28, 26, 15, 20, 3,
        0, 12, 6, 11, 21,

        18, 34, 20, 6, 25, 21, 33, 25, 1, 28, 5, 3,
        26, 22, 13, 31, 19, 0, 19, 29, 4, 21, 18, 7,
        2, 14, 33, 23, 36, 2, 21, 9, 35, 25, 17, 16,
        31, 29, 17, 10, 14, 16, 26, 19, 1, 5, 3, 24,
        13, 11, 27, 12, 8, 2, 26, 2, 23, 32, 22, 32,
        13, 8, 18, 0, 10, 27, 4, 18, 10,

        7, 23, 5, 6, 5, 0, 29, 17, 8, 6, 3, 1,
        14, 16,
    ];
    let config = HongbaopaiConfig::new(1, 1, 1).unwrap();
    Bipai4p::from_slice(&tiles, &config).unwrap()
}

#[test]
fn left_tile_count_before_zimo() {
    let bipai = get_bipai_for_test();

    assert_eq!(bipai.left_tile_count(), 70);
}

#[test]
fn left_tile_count_after_first_zimo() {
    let mut bipai = get_bipai_for_test();

    let _ = bipai.zimo();
    assert_eq!(bipai.left_tile_count(), 69);
}

#[test]
fn left_tile_count_no_tiles() {
    let mut bipai = get_bipai_for_test();

    for _ in 0..70 {
        let _ = bipai.zimo();
    }

    assert_eq!(bipai.left_tile_count(), 0);
}

#[test]
fn baopai_indicators_no_kaigang() {
    let bipai = get_bipai_for_test();
    assert_eq!(bipai.baopai_indicators(), vec![t(6)]);
}

#[test]
fn baopai_indicators_4_kaigang() {
    let mut bipai = get_bipai_for_test();
    for _ in 0..4 {
        bipai.kaigang();
    }
    assert_eq!(
        bipai.baopai_indicators(),
        vec![t(6), t(17), t(0), t(6), t(23)]
    );
}

#[test]
fn libaopai_indicators_no_kaigang() {
    let bipai = get_bipai_for_test();
    assert_eq!(bipai.libaopai_indicators(), vec![t(8)]);
}

#[test]
fn libaopai_indicators_4_kaigang() {
    let mut bipai = get_bipai_for_test();
    for _ in 0..4 {
        bipai.kaigang();
    }
    assert_eq!(
        bipai.libaopai_indicators(),
        vec![t(8), t(29), t(5), t(5), t(7)]
    );
}

#[test]
fn qipai_index_0() {
    let bipai = get_bipai_for_test();
    let bingpai = bipai.qipai(0);

    let expected = [
        t(22), t(9), t(20), t(4),
        t(17), t(29), t(20), t(25),
        t(32), t(30), t(7), t(28),
        t(0),
    ];
    assert_eq!(bingpai, expected);
}

#[test]
fn qipai_index_3() {
    let bipai = get_bipai_for_test();
    let bingpai = bipai.qipai(3);

    let expected = [
        t(30), t(31), t(11), t(15),
        t(31), t(16), t(24), t(32),
        t(26), t(15), t(20), t(3),
        t(11),
        
    ];
    assert_eq!(bingpai, expected);
}

#[test]
fn zimo_first() {
    let mut bipai = get_bipai_for_test();

    let zimopai = bipai.zimo();
    assert_eq!(zimopai, t(21));
}

#[test]
fn zimo_second() {
    let mut bipai = get_bipai_for_test();

    let _ = bipai.zimo();
    let zimopai = bipai.zimo();
    assert_eq!(zimopai, t(18));
}

#[test]
fn lingshangzimo_first() {
    let mut bipai = get_bipai_for_test();

    let zimopai = bipai.lingshangzimo();
    assert_eq!(zimopai, t(16));
}

#[test]
fn lingshangzimo_last() {
    let mut bipai = get_bipai_for_test();

    for _ in 0..3 {
        let _ = bipai.lingshangzimo();
    }

    let zimopai = bipai.lingshangzimo();
    assert_eq!(zimopai, t(3));
}

#[test]
fn lingshangzimo_not_affect_zimo_index() {
    let mut bipai = get_bipai_for_test();

    let _ = bipai.lingshangzimo();
    let zimopai = bipai.zimo();
    assert_eq!(zimopai, t(21));
}
