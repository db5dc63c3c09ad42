use lizhisim::fulu::{Mianzi, MingKezi, MingMianzi, Tajia};
use lizhisim::tile::Tile;

fn t(id: u8) -> Tile {
    Tile::try_from(id).unwrap()
}

#[test]
fn test_valid_ming_kezi() {
    let kezi_1m = MingKezi::new(t(0), [t(0), t(0)], Tajia::Xiajia).unwrap();
    let kezi_1p = MingKezi::new(t(9), [t(9), t(9)], Tajia::Xiajia).unwrap();
    let kezi_1s = MingKezi::new(t(18), [t(18), t(18)], Tajia::Xiajia).unwrap();
    let kezi_1z = MingKezi::new(t(27), [t(27), t(27)], Tajia::Xiajia).unwrap();

    assert_eq!(*kezi_1m.tiles(), [t(0), t(0), t(0)]);
    assert_eq!(*kezi_1p.tiles(), [t(9), t(9), t(9)]);
    assert_eq!(*kezi_1s.tiles(), [t(18), t(18), t(18)]);
    assert_eq!(*kezi_1z.tiles(), [t(27), t(27), t(27)]);

    assert_eq!(*kezi_1m.discarder(), *kezi_1p.discarder());
}

#[test]
fn test_valid_ming_kezi_5() {
    let kezi_000m = MingKezi::new(t(34), [t(34), t(34)], Tajia::Xiajia).unwrap();
    let kezi_005m = MingKezi::new(t(34), [t(34), t(4)], Tajia::Xiajia).unwrap();
    let kezi_050m = MingKezi::new(t(34), [t(4), t(34)], Tajia::Xiajia).unwrap();
    let kezi_055m = MingKezi::new(t(34), [t(4), t(4)], Tajia::Xiajia).unwrap();
    let kezi_500m = MingKezi::new(t(4), [t(34), t(34)], Tajia::Xiajia).unwrap();
    let kezi_505m = MingKezi::new(t(4), [t(34), t(4)], Tajia::Xiajia).unwrap();
    let kezi_550m = MingKezi::new(t(4), [t(4), t(34)], Tajia::Xiajia).unwrap();
    let kezi_555m = MingKezi::new(t(4), [t(4), t(4)], Tajia::Xiajia).unwrap();

    assert_eq!(*kezi_000m.tiles(), [t(34), t(34), t(34)]);
    assert_eq!(*kezi_005m.tiles(), [t(34), t(34), t(4)]);
    assert_eq!(*kezi_050m.tiles(), [t(34), t(34), t(4)]);
    assert_eq!(*kezi_055m.tiles(), [t(34), t(4), t(4)]);
    assert_eq!(*kezi_500m.tiles(), [t(4), t(34), t(34)]);
    assert_eq!(*kezi_505m.tiles(), [t(4), t(34), t(4)]);
    assert_eq!(*kezi_550m.tiles(), [t(4), t(34), t(4)]);
    assert_eq!(*kezi_555m.tiles(), [t(4), t(4), t(4)]);

    assert_eq!(kezi_005m.tiles(), kezi_050m.tiles());
    assert_eq!(kezi_505m.tiles(), kezi_550m.tiles());

    let kezi_000p = MingKezi::new(t(35), [t(35), t(35)], Tajia::Xiajia).unwrap();
    let kezi_005p = MingKezi::new(t(35), [t(35), t(13)], Tajia::Xiajia).unwrap();
    let kezi_050p = MingKezi::new(t(35), [t(13), t(35)], Tajia::Xiajia).unwrap();
    let kezi_055p = MingKezi::new(t(35), [t(13), t(13)], Tajia::Xiajia).unwrap();
    let kezi_500p = MingKezi::new(t(13), [t(35), t(35)], Tajia::Xiajia).unwrap();
    let kezi_505p = MingKezi::new(t(13), [t(35), t(13)], Tajia::Xiajia).unwrap();
    let kezi_550p = MingKezi::new(t(13), [t(13), t(35)], Tajia::Xiajia).unwrap();
    let kezi_555p = MingKezi::new(t(13), [t(13), t(13)], Tajia::Xiajia).unwrap();

    assert_eq!(*kezi_000p.tiles(), [t(35), t(35), t(35)]);
    assert_eq!(*kezi_005p.tiles(), [t(35), t(35), t(13)]);
    assert_eq!(*kezi_050p.tiles(), [t(35), t(35), t(13)]);
    assert_eq!(*kezi_055p.tiles(), [t(35), t(13), t(13)]);
    assert_eq!(*kezi_500p.tiles(), [t(13), t(35), t(35)]);
    assert_eq!(*kezi_505p.tiles(), [t(13), t(35), t(13)]);
    assert_eq!(*kezi_550p.tiles(), [t(13), t(35), t(13)]);
    assert_eq!(*kezi_555p.tiles(), [t(13), t(13), t(13)]);

    assert_eq!(kezi_005p.tiles(), kezi_050p.tiles());
    assert_eq!(kezi_505p.tiles(), kezi_550p.tiles());

    let kezi_000s = MingKezi::new(t(36), [t(36), t(36)], Tajia::Xiajia).unwrap();
    let kezi_005s = MingKezi::new(t(36), [t(36), t(22)], Tajia::Xiajia).unwrap();
    let kezi_050s = MingKezi::new(t(36), [t(22), t(36)], Tajia::Xiajia).unwrap();
    let kezi_055s = MingKezi::new(t(36), [t(22), t(22)], Tajia::Xiajia).unwrap();
    let kezi_500s = MingKezi::new(t(22), [t(36), t(36)], Tajia::Xiajia).unwrap();
    let kezi_505s = MingKezi::new(t(22), [t(36), t(22)], Tajia::Xiajia).unwrap();
    let kezi_550s = MingKezi::new(t(22), [t(22), t(36)], Tajia::Xiajia).unwrap();
    let kezi_555s = MingKezi::new(t(22), [t(22), t(22)], Tajia::Xiajia).unwrap();

    assert_eq!(*kezi_000s.tiles(), [t(36), t(36), t(36)]);
    assert_eq!(*kezi_005s.tiles(), [t(36), t(36), t(22)]);
    assert_eq!(*kezi_050s.tiles(), [t(36), t(36), t(22)]);
    assert_eq!(*kezi_055s.tiles(), [t(36), t(22), t(22)]);
    assert_eq!(*kezi_500s.tiles(), [t(22), t(36), t(36)]);
    assert_eq!(*kezi_505s.tiles(), [t(22), t(36), t(22)]);
    assert_eq!(*kezi_550s.tiles(), [t(22), t(36), t(22)]);
    assert_eq!(*kezi_555s.tiles(), [t(22), t(22), t(22)]);

    assert_eq!(kezi_005s.tiles(), kezi_050s.tiles());
    assert_eq!(kezi_505s.tiles(), kezi_550s.tiles());
}

#[test]
fn test_invalid_ming_kezi() {
    _ = MingKezi::new(t(0), [t(0), t(1)], Tajia::Xiajia).unwrap_err();
    _ = MingKezi::new(t(0), [t(1), t(0)], Tajia::Xiajia).unwrap_err();
    _ = MingKezi::new(t(0), [t(1), t(1)], Tajia::Xiajia).unwrap_err();

    let kezi_left = MingKezi::new(t(0), [t(0), t(0)], Tajia::Shangjia).unwrap();
    let kezi_across = MingKezi::new(t(0), [t(0), t(0)], Tajia::Duimian).unwrap();
    let kezi_right = MingKezi::new(t(0), [t(0), t(0)], Tajia::Xiajia).unwrap();

    assert_ne!(*kezi_left.discarder(), *kezi_across.discarder());
    assert_ne!(*kezi_left.discarder(), *kezi_right.discarder());
    assert_ne!(*kezi_across.discarder(), *kezi_right.discarder());
}
