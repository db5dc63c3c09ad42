use lizhisim::fulu::{Mianzi, MingMianzi, MingShunzi, Tajia};
use lizhisim::tile::Tile;

fn t(id: u8) -> Tile {
    Tile::try_from(id).unwrap()
}

#[test]
fn test_valid_ming_shunzi() {
    let shunzi_123m = MingShunzi::new(t(0), [t(1), t(2)]).unwrap();
    let shunzi_132m = MingShunzi::new(t(0), [t(2), t(1)]).unwrap();

    assert_eq!(*shunzi_123m.tiles(), [t(0), t(1), t(2)]);
    assert_eq!(*shunzi_123m.tiles(), *shunzi_132m.tiles());
    assert_eq!(*shunzi_123m.discarder(), Tajia::Shangjia);
    assert_eq!(shunzi_123m.shiti_jin().unwrap(), t(3));
}

#[test]
fn test_valid_ming_shunzi_0() {
    let shunzi_034m = MingShunzi::new(t(34), [t(2), t(3)]).unwrap();
    let shunzi_043m = MingShunzi::new(t(34), [t(3), t(2)]).unwrap();

    assert_eq!(*shunzi_034m.tiles(), [t(34), t(2), t(3)]);
    assert_eq!(*shunzi_034m.tiles(), *shunzi_043m.tiles());
    assert_eq!(*shunzi_034m.discarder(), Tajia::Shangjia);
    assert_eq!(shunzi_034m.shiti_jin().unwrap(), t(1));
}

#[test]
fn test_invalid_ming_shunzi() {
    _ = MingShunzi::new(t(27), [t(1), t(2)]).unwrap_err();
    _ = MingShunzi::new(t(0), [t(1), t(29)]).unwrap_err();

    _ = MingShunzi::new(t(0), [t(0), t(0)]).unwrap_err();
    _ = MingShunzi::new(t(0), [t(1), t(3)]).unwrap_err();
    _ = MingShunzi::new(t(0), [t(2), t(3)]).unwrap_err();

    _ = MingShunzi::new(t(0), [t(1), t(11)]).unwrap_err();
    _ = MingShunzi::new(t(9), [t(1), t(2)]).unwrap_err();
}
