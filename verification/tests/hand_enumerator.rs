use lizhisim::generate_hand::generate_all_pure_hand;
use lizhisim::hand_enumerator::HandEnumerator;

const MAX_NUM_HAND: usize = 14;

#[test]
fn valid_length() {
    (1..=MAX_NUM_HAND).into_iter().for_each(|i| {
        let result = HandEnumerator::new(i);
        assert!(result.is_ok())
    });
}

#[test]
fn invalid_length() {
    let result0 = HandEnumerator::new(0);
    assert!(result0.is_err());
    let result15 = HandEnumerator::new(MAX_NUM_HAND + 1);
    assert!(result15.is_err());
}

fn all_hands(length: usize) -> Vec<Vec<u8>> {
    let mut generator = HandEnumerator::new(length).unwrap();
    let mut hands = Vec::new();
    while let Some(hand) = generator.next() {
        hands.push(hand);
    }
    hands
}

#[test]
fn hands_of_one_tile() {
    let hands = all_hands(1);
    assert_eq!(hands.len(), 34);
    assert_eq!(hands.first().unwrap(), &vec![0]);
    assert_eq!(hands.last().unwrap(), &vec![33]);
}

#[test]
fn hands_of_two_tiles() {
    let hands = all_hands(2);
    assert_eq!(hands.len(), 595);
    assert_eq!(hands.first().unwrap(), &vec![0, 0]);
    assert_eq!(hands[1], vec![0, 1]);
    assert_eq!(hands.last().unwrap(), &vec![33, 33]);
}

#[test]
fn hands_of_three_tiles() {
    let hands = all_hands(3);
    assert_eq!(hands.len(), 7_140);
    assert_eq!(hands.first().unwrap(), &vec![0, 0, 0]);
    assert_eq!(hands.last().unwrap(), &vec![33, 33, 33]);
}

#[test]
fn hands_of_five_tiles_hold_no_kind_five_times() {
    let mut generator = HandEnumerator::new(5).unwrap();
    let first = generator.next().unwrap();
    assert_eq!(first, vec![0, 0, 0, 0, 1]);
}

#[test]
fn enumerator_ends_and_stays_ended() {
    let mut generator = HandEnumerator::new(1).unwrap();
    for _ in 0..34 {
        assert!(generator.next().is_some());
    }
    assert!(generator.next().is_none());
    assert!(generator.next().is_none());
}

#[test]
fn enumerator_agrees_with_list() {
    for length in 1..=3 {
        assert_eq!(all_hands(length), generate_all_pure_hand(length).unwrap());
    }
}

#[test]
fn list_of_hands_rejects_lengths_out_of_range() {
    assert!(generate_all_pure_hand(0).is_err());
    assert!(generate_all_pure_hand(15).is_err());
    assert_eq!(generate_all_pure_hand(1).unwrap().len(), 34);
}

fn correct_hands(
    length: usize,
    expected_first: &[u8],
    expected_last: &[u8],
    expected_count: usize,
) {
    let mut generator = HandEnumerator::new(length).unwrap();

    let first_hand = generator.next().unwrap();
    let mut last_hand = first_hand.clone();
    let mut count = 1;
    while let Some(hand) = generator.next() {
        last_hand = hand;
        count += 1;
    }

    assert_eq!(first_hand, expected_first);
    assert_eq!(last_hand, expected_last);
    assert_eq!(count, expected_count);
}

#[test]
fn correct_hands_1() {
    correct_hands(1, &[0], &[33], 34);
}

#[test]
fn correct_hands_2() {
    correct_hands(2, &[0, 0], &[33, 33], 595);
}

#[test]
fn correct_hands_3() {
    correct_hands(3, &[0, 0, 0], &[33, 33, 33], 7_140);
}

#[test]
fn correct_hands_4() {
    correct_hands(4, &[0, 0, 0, 0], &[33, 33, 33, 33], 66_045);
}
