use lizhisim::fulu::{JiaGangzi, Mianzi, MingKezi, MingMianzi, Tajia};
use lizhisim::tile::Tile;

fn t(id: u8) -> Tile {
    Tile::try_from(id).unwrap()
}

#[test]
fn test_valid_jia_gangzi() {
    let kezi_1m = MingKezi::new(t(0), [t(0), t(0)], Tajia::Xiajia).unwrap();
    let kezi_1p = MingKezi::new(t(9), [t(9), t(9)], Tajia::Xiajia).unwrap();
    let kezi_1s = MingKezi::new(t(18), [t(18), t(18)], Tajia::Xiajia).unwrap();
    let kezi_1z = MingKezi::new(t(27), [t(27), t(27)], Tajia::Xiajia).unwrap();

    let gangzi_1m = JiaGangzi::new(t(0), kezi_1m).unwrap();
    let gangzi_1p = JiaGangzi::new(t(9), kezi_1p).unwrap();
    let gangzi_1s = JiaGangzi::new(t(18), kezi_1s).unwrap();
    let gangzi_1z = JiaGangzi::new(t(27), kezi_1z).unwrap();

    assert_eq!(*gangzi_1m.tiles(), [t(0), t(0), t(0), t(0)]);
    assert_eq!(*gangzi_1p.tiles(), [t(9), t(9), t(9), t(9)]);
    assert_eq!(*gangzi_1s.tiles(), [t(18), t(18), t(18), t(18)]);
    assert_eq!(*gangzi_1z.tiles(), [t(27), t(27), t(27), t(27)]);
}

#[test]
fn test_valid_jia_gangzi_5() {
    let kezi_000m = MingKezi::new(t(34), [t(34), t(34)], Tajia::Xiajia).unwrap();
    let kezi_000p = MingKezi::new(t(35), [t(35), t(35)], Tajia::Xiajia).unwrap();
    let kezi_000s = MingKezi::new(t(36), [t(36), t(36)], Tajia::Xiajia).unwrap();
    let kezi_555m = MingKezi::new(t(4), [t(4), t(4)], Tajia::Xiajia).unwrap();
    let kezi_555p = MingKezi::new(t(13), [t(13), t(13)], Tajia::Xiajia).unwrap();
    let kezi_555s = MingKezi::new(t(22), [t(22), t(22)], Tajia::Xiajia).unwrap();

    let gangzi_0005m = JiaGangzi::new(t(4), kezi_000m).unwrap();
    let gangzi_0005p = JiaGangzi::new(t(13), kezi_000p).unwrap();
    let gangzi_0005s = JiaGangzi::new(t(22), kezi_000s).unwrap();
    let gangzi_5550m = JiaGangzi::new(t(34), kezi_555m).unwrap();
    let gangzi_5550p = JiaGangzi::new(t(35), kezi_555p).unwrap();
    let gangzi_5550s = JiaGangzi::new(t(36), kezi_555s).unwrap();

    assert_eq!(*gangzi_0005m.tiles(), [t(34), t(34), t(34), t(4)]);
    assert_eq!(*gangzi_0005p.tiles(), [t(35), t(35), t(35), t(13)]);
    assert_eq!(*gangzi_0005s.tiles(), [t(36), t(36), t(36), t(22)]);
    assert_eq!(*gangzi_5550m.tiles(), [t(4), t(4), t(4), t(34)]);
    assert_eq!(*gangzi_5550p.tiles(), [t(13), t(13), t(13), t(35)]);
    assert_eq!(*gangzi_5550s.tiles(), [t(22), t(22), t(22), t(36)]);
}

#[test]
fn test_invalid_jia_gangzi() {
    let kezi_1m = MingKezi::new(t(0), [t(0), t(0)], Tajia::Xiajia).unwrap();

    _ = JiaGangzi::new(t(1), kezi_1m).unwrap_err();

    let kezi_left = MingKezi::new(t(0), [t(0), t(0)], Tajia::Shangjia).unwrap();
    let kezi_across = MingKezi::new(t(0), [t(0), t(0)], Tajia::Duimian).unwrap();
    let kezi_right = MingKezi::new(t(0), [t(0), t(0)], Tajia::Xiajia).unwrap();

    let gangzi_left = JiaGangzi::new(t(0), kezi_left).unwrap();
    let gangzi_across = JiaGangzi::new(t(0), kezi_across).unwrap();
    let gangzi_right = JiaGangzi::new(t(0), kezi_right).unwrap();

    assert_ne!(*gangzi_left.discarder(), *gangzi_across.discarder());
    assert_ne!(*gangzi_left.discarder(), *gangzi_right.discarder());
    assert_ne!(*gangzi_across.discarder(), *gangzi_right.discarder());
}
