use lizhisim::bipai::four_player::HongbaopaiConfig;
use lizhisim::bipai::provider::fixed::{FixedBipaiProvider, FixedBipaiProviderError};
use lizhisim::bipai::provider::random::RandomBipaiProvider;
use rand::{rngs::StdRng, SeedableRng};

fn get_bipai_list_for_test() -> Vec<Vec<u8>> {
    let tiles1 = (0..136).map(|t| t / 4).collect::<Vec<u8>>();
    let tiles2 = (0..136).rev().map(|t| t / 4).collect::<Vec<u8>>();
    vec![tiles1, tiles2]
}

#[test]
fn fixed_provide_bipai_returns_new_instance() {
    let bipai_list = get_bipai_list_for_test();
    let config = HongbaopaiConfig::new(0, 0, 0).unwrap();
    let mut provider = FixedBipaiProvider::new(bipai_list, config);

    provider.provide_bipai().unwrap();
}

#[test]
fn fixed_cloned_provide_bipai_returns_same_bipai() {
    let bipai_list = get_bipai_list_for_test();
    let config = HongbaopaiConfig::new(0, 0, 0).unwrap();
    let mut provider1 = FixedBipaiProvider::new(bipai_list, config);
    let mut provider2 = provider1.clone();

    let bipai1 = provider1.provide_bipai().unwrap();
    let bipai2 = provider2.provide_bipai().unwrap();
    assert_eq!(bipai1, bipai2);
}

#[test]
fn provide_bipai_returns_error_when_empty() {
    let bipai_list = get_bipai_list_for_test();
    let config = HongbaopaiConfig::new(0, 0, 0).unwrap();
    let mut provider = FixedBipaiProvider::new(bipai_list, config);

    provider.provide_bipai().unwrap();
    provider.provide_bipai().unwrap();

    assert!(matches!(
        provider.provide_bipai().unwrap_err(),
        FixedBipaiProviderError::Empty
    ));
}

#[test]
fn fixed_provider_hands_out_in_order() {
    let bipai_list = get_bipai_list_for_test();
    let config = HongbaopaiConfig::new(0, 0, 0).unwrap();
    let mut provider = FixedBipaiProvider::new(bipai_list, config);

    let first = provider.provide_bipai().unwrap();
    assert_eq!(first.tiles()[0].as_u8(), 0);
    assert_eq!(first.tiles()[135].as_u8(), 33);
    let second = provider.provide_bipai().unwrap();
    assert_eq!(second.tiles()[0].as_u8(), 33);
    assert_eq!(second.tiles()[135].as_u8(), 0);
}

#[test]
fn fixed_provider_passes_on_what_is_wrong_with_a_wall() {
    let config = HongbaopaiConfig::new(1, 0, 0).unwrap();
    let mut provider = FixedBipaiProvider::new(get_bipai_list_for_test(), config);
    assert!(matches!(
        provider.provide_bipai().unwrap_err(),
        FixedBipaiProviderError::Bipai(_)
    ));
}

#[test]
fn random_provide_bipai_returns_new_instance() {
    let rng = StdRng::seed_from_u64(42);
    let config = HongbaopaiConfig::new(1, 1, 1).unwrap();
    let mut provider = RandomBipaiProvider::new(rng, config);

    provider.provide_bipai().unwrap();
}

#[test]
fn random_cloned_provide_bipai_returns_same_bipai() {
    let rng = StdRng::seed_from_u64(42);
    let config = HongbaopaiConfig::new(1, 1, 1).unwrap();
    let mut provider1 = RandomBipaiProvider::new(rng, config);
    let mut provider2 = provider1.clone();

    let bipai1 = provider1.provide_bipai().unwrap();
    let bipai2 = provider2.provide_bipai().unwrap();
    assert_eq!(bipai1, bipai2);
}

#[test]
fn random_provider_shuffles() {
    let rng = StdRng::seed_from_u64(7);
    let config = HongbaopaiConfig::new(0, 0, 0).unwrap();
    let mut provider = RandomBipaiProvider::new(rng, config);
    let wall = provider.provide_bipai().unwrap();
    let ids: Vec<u8> = wall.tiles().iter().map(|t| t.as_u8()).collect();
    let ordered: Vec<u8> = (0..136).map(|t| t / 4).collect();
    assert_ne!(ids, ordered);
    let mut sorted = ids;
    sorted.sort();
    assert_eq!(sorted, ordered);
}
