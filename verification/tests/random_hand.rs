use lizhisim::random_hand::generate_random_pure_hand;
use lizhisim::xiangting::calculate::calculate_replacement_number;
use mt19937::MT19937;

#[test]
fn random_hands_are_hands() {
    let mut rng = MT19937::new_with_slice_seed(&[1]);
    let mut lengths = [0usize; 15];
    for _ in 0..2000 {
        let hand = generate_random_pure_hand(&mut rng);
        let total: u8 = hand.iter().sum();
        assert!([1, 2, 4, 5, 7, 8, 10, 11, 13, 14].contains(&total));
        assert!(hand.iter().all(|&c| c <= 4));
        lengths[total as usize] += 1;
        let r = calculate_replacement_number(&hand, &None).unwrap();
        assert!(r <= 9);
    }
    for total in [1, 2, 4, 5, 7, 8, 10, 11, 13, 14] {
        assert!(lengths[total] > 0);
    }
}

#[test]
fn random_hands_differ() {
    let mut rng = MT19937::new_with_slice_seed(&[2]);
    let first = generate_random_pure_hand(&mut rng);
    let mut other = false;
    for _ in 0..20 {
        other = other || generate_random_pure_hand(&mut rng) != first;
    }
    assert!(other);
}
