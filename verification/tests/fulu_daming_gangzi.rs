use lizhisim::fulu::{DamingGangzi, Mianzi, MingMianzi, Tajia};
use lizhisim::tile::Tile;

fn t(id: u8) -> Tile {
    Tile::try_from(id).unwrap()
}

#[test]
fn test_valid_daming_gangzi() {
    let gangzi_1m =
        DamingGangzi::new(t(0), [t(0), t(0), t(0)], Tajia::Xiajia).unwrap();
    let gangzi_1p =
        DamingGangzi::new(t(9), [t(9), t(9), t(9)], Tajia::Xiajia).unwrap();
    let gangzi_1s =
        DamingGangzi::new(t(18), [t(18), t(18), t(18)], Tajia::Xiajia).unwrap();
    let gangzi_1z =
        DamingGangzi::new(t(27), [t(27), t(27), t(27)], Tajia::Xiajia).unwrap();

    assert_eq!(*gangzi_1m.tiles(), [t(0), t(0), t(0), t(0)]);
    assert_eq!(*gangzi_1p.tiles(), [t(9), t(9), t(9), t(9)]);
    assert_eq!(*gangzi_1s.tiles(), [t(18), t(18), t(18), t(18)]);
    assert_eq!(*gangzi_1z.tiles(), [t(27), t(27), t(27), t(27)]);
}

#[test]
fn test_valid_daming_gangzi_5() {
    let gangzi_0000m =
        DamingGangzi::new(t(34), [t(34), t(34), t(34)], Tajia::Xiajia).unwrap();
    let gangzi_0005m =
        DamingGangzi::new(t(34), [t(34), t(34), t(4)], Tajia::Xiajia).unwrap();
    let gangzi_0050m =
        DamingGangzi::new(t(34), [t(34), t(4), t(34)], Tajia::Xiajia).unwrap();
    let gangzi_0055m =
        DamingGangzi::new(t(34), [t(34), t(4), t(4)], Tajia::Xiajia).unwrap();
    let gangzi_0500m =
        DamingGangzi::new(t(34), [t(4), t(34), t(34)], Tajia::Xiajia).unwrap();
    let gangzi_0505m =
        DamingGangzi::new(t(34), [t(4), t(34), t(4)], Tajia::Xiajia).unwrap();
    let gangzi_0550m =
        DamingGangzi::new(t(34), [t(4), t(4), t(34)], Tajia::Xiajia).unwrap();
    let gangzi_0555m =
        DamingGangzi::new(t(34), [t(4), t(4), t(4)], Tajia::Xiajia).unwrap();
    let gangzi_5000m =
        DamingGangzi::new(t(4), [t(34), t(34), t(34)], Tajia::Xiajia).unwrap();
    let gangzi_5005m =
        DamingGangzi::new(t(4), [t(34), t(34), t(4)], Tajia::Xiajia).unwrap();
    let gangzi_5050m =
        DamingGangzi::new(t(4), [t(34), t(4), t(34)], Tajia::Xiajia).unwrap();
    let gangzi_5055m =
        DamingGangzi::new(t(4), [t(34), t(4), t(4)], Tajia::Xiajia).unwrap();
    let gangzi_5500m =
        DamingGangzi::new(t(4), [t(4), t(34), t(34)], Tajia::Xiajia).unwrap();
    let gangzi_5505m =
        DamingGangzi::new(t(4), [t(4), t(34), t(4)], Tajia::Xiajia).unwrap();
    let gangzi_5550m =
        DamingGangzi::new(t(4), [t(4), t(4), t(34)], Tajia::Xiajia).unwrap();
    let gangzi_5555m =
        DamingGangzi::new(t(4), [t(4), t(4), t(4)], Tajia::Xiajia).unwrap();

    assert_eq!(*gangzi_0000m.tiles(), [t(34), t(34), t(34), t(34)]);
    assert_eq!(*gangzi_0005m.tiles(), [t(34), t(34), t(34), t(4)]);
    assert_eq!(*gangzi_0050m.tiles(), [t(34), t(34), t(34), t(4)]);
    assert_eq!(*gangzi_0055m.tiles(), [t(34), t(34), t(4), t(4)]);
    assert_eq!(*gangzi_0500m.tiles(), [t(34), t(34), t(34), t(4)]);
    assert_eq!(*gangzi_0505m.tiles(), [t(34), t(34), t(4), t(4)]);
    assert_eq!(*gangzi_0550m.tiles(), [t(34), t(34), t(4), t(4)]);
    assert_eq!(*gangzi_0555m.tiles(), [t(34), t(4), t(4), t(4)]);
    assert_eq!(*gangzi_5000m.tiles(), [t(4), t(34), t(34), t(34)]);
    assert_eq!(*gangzi_5005m.tiles(), [t(4), t(34), t(34), t(4)]);
    assert_eq!(*gangzi_5050m.tiles(), [t(4), t(34), t(34), t(4)]);
    assert_eq!(*gangzi_5055m.tiles(), [t(4), t(34), t(4), t(4)]);
    assert_eq!(*gangzi_5500m.tiles(), [t(4), t(34), t(34), t(4)]);
    assert_eq!(*gangzi_5505m.tiles(), [t(4), t(34), t(4), t(4)]);
    assert_eq!(*gangzi_5550m.tiles(), [t(4), t(34), t(4), t(4)]);
    assert_eq!(*gangzi_5555m.tiles(), [t(4), t(4), t(4), t(4)]);

    assert_eq!(*gangzi_0005m.tiles(), *gangzi_0050m.tiles());
    assert_eq!(*gangzi_0005m.tiles(), *gangzi_0500m.tiles());
    assert_eq!(*gangzi_0055m.tiles(), *gangzi_0550m.tiles());
    assert_eq!(*gangzi_5005m.tiles(), *gangzi_5050m.tiles());
    assert_eq!(*gangzi_5005m.tiles(), *gangzi_5500m.tiles());
    assert_eq!(*gangzi_5055m.tiles(), *gangzi_5550m.tiles());

    let gangzi_0000p =
        DamingGangzi::new(t(35), [t(35), t(35), t(35)], Tajia::Xiajia).unwrap();
    let gangzi_0005p =
        DamingGangzi::new(t(35), [t(35), t(35), t(13)], Tajia::Xiajia).unwrap();
    let gangzi_0050p =
        DamingGangzi::new(t(35), [t(35), t(13), t(35)], Tajia::Xiajia).unwrap();
    let gangzi_0055p =
        DamingGangzi::new(t(35), [t(35), t(13), t(13)], Tajia::Xiajia).unwrap();
    let gangzi_0500p =
        DamingGangzi::new(t(35), [t(13), t(35), t(35)], Tajia::Xiajia).unwrap();
    let gangzi_0505p =
        DamingGangzi::new(t(35), [t(13), t(35), t(13)], Tajia::Xiajia).unwrap();
    let gangzi_0550p =
        DamingGangzi::new(t(35), [t(13), t(13), t(35)], Tajia::Xiajia).unwrap();
    let gangzi_0555p =
        DamingGangzi::new(t(35), [t(13), t(13), t(13)], Tajia::Xiajia).unwrap();
    let gangzi_5000p =
        DamingGangzi::new(t(13), [t(35), t(35), t(35)], Tajia::Xiajia).unwrap();
    let gangzi_5005p =
        DamingGangzi::new(t(13), [t(35), t(35), t(13)], Tajia::Xiajia).unwrap();
    let gangzi_5050p =
        DamingGangzi::new(t(13), [t(35), t(13), t(35)], Tajia::Xiajia).unwrap();
    let gangzi_5055p =
        DamingGangzi::new(t(13), [t(35), t(13), t(13)], Tajia::Xiajia).unwrap();
    let gangzi_5500p =
        DamingGangzi::new(t(13), [t(13), t(35), t(35)], Tajia::Xiajia).unwrap();
    let gangzi_5505p =
        DamingGangzi::new(t(13), [t(13), t(35), t(13)], Tajia::Xiajia).unwrap();
    let gangzi_5550p =
        DamingGangzi::new(t(13), [t(13), t(13), t(35)], Tajia::Xiajia).unwrap();
    let gangzi_5555p =
        DamingGangzi::new(t(13), [t(13), t(13), t(13)], Tajia::Xiajia).unwrap();

    assert_eq!(*gangzi_0000p.tiles(), [t(35), t(35), t(35), t(35)]);
    assert_eq!(*gangzi_0005p.tiles(), [t(35), t(35), t(35), t(13)]);
    assert_eq!(*gangzi_0050p.tiles(), [t(35), t(35), t(35), t(13)]);
    assert_eq!(*gangzi_0055p.tiles(), [t(35), t(35), t(13), t(13)]);
    assert_eq!(*gangzi_0500p.tiles(), [t(35), t(35), t(35), t(13)]);
    assert_eq!(*gangzi_0505p.tiles(), [t(35), t(35), t(13), t(13)]);
    assert_eq!(*gangzi_0550p.tiles(), [t(35), t(35), t(13), t(13)]);
    assert_eq!(*gangzi_0555p.tiles(), [t(35), t(13), t(13), t(13)]);
    assert_eq!(*gangzi_5000p.tiles(), [t(13), t(35), t(35), t(35)]);
    assert_eq!(*gangzi_5005p.tiles(), [t(13), t(35), t(35), t(13)]);
    assert_eq!(*gangzi_5050p.tiles(), [t(13), t(35), t(35), t(13)]);
    assert_eq!(*gangzi_5055p.tiles(), [t(13), t(35), t(13), t(13)]);
    assert_eq!(*gangzi_5500p.tiles(), [t(13), t(35), t(35), t(13)]);
    assert_eq!(*gangzi_5505p.tiles(), [t(13), t(35), t(13), t(13)]);
    assert_eq!(*gangzi_5550p.tiles(), [t(13), t(35), t(13), t(13)]);
    assert_eq!(*gangzi_5555p.tiles(), [t(13), t(13), t(13), t(13)]);

    assert_eq!(*gangzi_0005p.tiles(), *gangzi_0050p.tiles());
    assert_eq!(*gangzi_0005p.tiles(), *gangzi_0500p.tiles());
    assert_eq!(*gangzi_0055p.tiles(), *gangzi_0550p.tiles());
    assert_eq!(*gangzi_5005p.tiles(), *gangzi_5050p.tiles());
    assert_eq!(*gangzi_5005p.tiles(), *gangzi_5500p.tiles());
    assert_eq!(*gangzi_5055p.tiles(), *gangzi_5550p.tiles());

    let gangzi_0000s =
        DamingGangzi::new(t(36), [t(36), t(36), t(36)], Tajia::Xiajia).unwrap();
    let gangzi_0005s =
        DamingGangzi::new(t(36), [t(36), t(36), t(22)], Tajia::Xiajia).unwrap();
    let gangzi_0050s =
        DamingGangzi::new(t(36), [t(36), t(22), t(36)], Tajia::Xiajia).unwrap();
    let gangzi_0055s =
        DamingGangzi::new(t(36), [t(36), t(22), t(22)], Tajia::Xiajia).unwrap();
    let gangzi_0500s =
        DamingGangzi::new(t(36), [t(22), t(36), t(36)], Tajia::Xiajia).unwrap();
    let gangzi_0505s =
        DamingGangzi::new(t(36), [t(22), t(36), t(22)], Tajia::Xiajia).unwrap();
    let gangzi_0550s =
        DamingGangzi::new(t(36), [t(22), t(22), t(36)], Tajia::Xiajia).unwrap();
    let gangzi_0555s =
        DamingGangzi::new(t(36), [t(22), t(22), t(22)], Tajia::Xiajia).unwrap();
    let gangzi_5000s =
        DamingGangzi::new(t(22), [t(36), t(36), t(36)], Tajia::Xiajia).unwrap();
    let gangzi_5005s =
        DamingGangzi::new(t(22), [t(36), t(36), t(22)], Tajia::Xiajia).unwrap();
    let gangzi_5050s =
        DamingGangzi::new(t(22), [t(36), t(22), t(36)], Tajia::Xiajia).unwrap();
    let gangzi_5055s =
        DamingGangzi::new(t(22), [t(36), t(22), t(22)], Tajia::Xiajia).unwrap();
    let gangzi_5500s =
        DamingGangzi::new(t(22), [t(22), t(36), t(36)], Tajia::Xiajia).unwrap();
    let gangzi_5505s =
        DamingGangzi::new(t(22), [t(22), t(36), t(22)], Tajia::Xiajia).unwrap();
    let gangzi_5550s =
        DamingGangzi::new(t(22), [t(22), t(22), t(36)], Tajia::Xiajia).unwrap();
    let gangzi_5555s =
        DamingGangzi::new(t(22), [t(22), t(22), t(22)], Tajia::Xiajia).unwrap();

    assert_eq!(*gangzi_0000s.tiles(), [t(36), t(36), t(36), t(36)]);
    assert_eq!(*gangzi_0005s.tiles(), [t(36), t(36), t(36), t(22)]);
    assert_eq!(*gangzi_0050s.tiles(), [t(36), t(36), t(36), t(22)]);
    assert_eq!(*gangzi_0055s.tiles(), [t(36), t(36), t(22), t(22)]);
    assert_eq!(*gangzi_0500s.tiles(), [t(36), t(36), t(36), t(22)]);
    assert_eq!(*gangzi_0505s.tiles(), [t(36), t(36), t(22), t(22)]);
    assert_eq!(*gangzi_0550s.tiles(), [t(36), t(36), t(22), t(22)]);
    assert_eq!(*gangzi_0555s.tiles(), [t(36), t(22), t(22), t(22)]);
    assert_eq!(*gangzi_5000s.tiles(), [t(22), t(36), t(36), t(36)]);
    assert_eq!(*gangzi_5005s.tiles(), [t(22), t(36), t(36), t(22)]);
    assert_eq!(*gangzi_5050s.tiles(), [t(22), t(36), t(36), t(22)]);
    assert_eq!(*gangzi_5055s.tiles(), [t(22), t(36), t(22), t(22)]);
    assert_eq!(*gangzi_5500s.tiles(), [t(22), t(36), t(36), t(22)]);
    assert_eq!(*gangzi_5505s.tiles(), [t(22), t(36), t(22), t(22)]);
    assert_eq!(*gangzi_5550s.tiles(), [t(22), t(36), t(22), t(22)]);
    assert_eq!(*gangzi_5555s.tiles(), [t(22), t(22), t(22), t(22)]);

    assert_eq!(*gangzi_0005s.tiles(), *gangzi_0050s.tiles());
    assert_eq!(*gangzi_0005s.tiles(), *gangzi_0500s.tiles());
    assert_eq!(*gangzi_0055s.tiles(), *gangzi_0550s.tiles());
    assert_eq!(*gangzi_5005s.tiles(), *gangzi_5050s.tiles());
    assert_eq!(*gangzi_5005s.tiles(), *gangzi_5500s.tiles());
    assert_eq!(*gangzi_5055s.tiles(), *gangzi_5550s.tiles());
}

#[test]
fn test_invalid_daming_gangzi() {
    _ = DamingGangzi::new(t(0), [t(0), t(0), t(1)], Tajia::Xiajia).unwrap_err();
    _ = DamingGangzi::new(t(0), [t(0), t(1), t(0)], Tajia::Xiajia).unwrap_err();
    _ = DamingGangzi::new(t(0), [t(0), t(1), t(1)], Tajia::Xiajia).unwrap_err();
    _ = DamingGangzi::new(t(0), [t(1), t(0), t(0)], Tajia::Xiajia).unwrap_err();
    _ = DamingGangzi::new(t(0), [t(1), t(0), t(1)], Tajia::Xiajia).unwrap_err();
    _ = DamingGangzi::new(t(0), [t(1), t(1), t(0)], Tajia::Xiajia).unwrap_err();
    _ = DamingGangzi::new(t(0), [t(1), t(1), t(1)], Tajia::Xiajia).unwrap_err();

    let gangzi_left =
        DamingGangzi::new(t(0), [t(0), t(0), t(0)], Tajia::Shangjia).unwrap();
    let gangzi_across =
        DamingGangzi::new(t(0), [t(0), t(0), t(0)], Tajia::Duimian).unwrap();
    let gangzi_right =
        DamingGangzi::new(t(0), [t(0), t(0), t(0)], Tajia::Xiajia).unwrap();

    assert_ne!(*gangzi_left.discarder(), *gangzi_across.discarder());
    assert_ne!(*gangzi_left.discarder(), *gangzi_right.discarder());
    assert_ne!(*gangzi_across.discarder(), *gangzi_right.discarder());
}
