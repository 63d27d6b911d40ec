use cambio::cards::{Card, Face, Suit};
use cambio::decisions::{valid_set, Decision, DecisionSet};

#[test]
fn set_impl() {
    let set = DecisionSet::from_array([Decision::Discard, Decision::Replace]);
    assert!(set.contains(&Decision::Discard));
    assert!(set.contains(&Decision::Replace));

    let set = DecisionSet::only(Decision::Discard);

    assert!(set.contains(&Decision::Discard));
    assert!(!set.contains(&Decision::Replace));
}

#[test]
fn from_array_holds_exactly_its_members() {
    let set = DecisionSet::from_array([Decision::LookAtOther, Decision::BlindSwap, Decision::LookAtOther]);
    for d in [
        Decision::Discard,
        Decision::Replace,
        Decision::LookAtOwn,
        Decision::LookAtOther,
        Decision::BlindSwap,
        Decision::LookAndSwap,
    ] {
        let expected = d == Decision::LookAtOther || d == Decision::BlindSwap;
        assert_eq!(set.contains(&d), expected);
    }
    let empty = DecisionSet::from_array::<0>([]);
    assert!(!empty.contains(&Decision::Discard));
    assert!(DecisionSet::new().into_vec().is_empty());
    assert!(DecisionSet::default().into_vec().is_empty());
}

#[test]
fn into_vec_lists_in_declaration_order() {
    let set = DecisionSet::new().and(Decision::LookAndSwap).and(Decision::Discard).and(Decision::LookAtOwn);
    assert_eq!(set.into_vec(), vec![Decision::Discard, Decision::LookAtOwn, Decision::LookAndSwap]);
}

fn normal(suit: Suit, face: Face) -> Card {
    Card::Normal { suit, face }
}

#[test]
fn valid_set_by_card() {
    let king = valid_set(normal(Suit::Hearts, Face::King)).into_vec();
    assert_eq!(king, vec![Decision::Discard, Decision::Replace, Decision::LookAndSwap]);
    let queen = valid_set(normal(Suit::Clubs, Face::Queen)).into_vec();
    assert_eq!(queen, vec![Decision::Discard, Decision::Replace, Decision::BlindSwap]);
    let jack = valid_set(normal(Suit::Clubs, Face::Jack)).into_vec();
    assert_eq!(jack, vec![Decision::Discard, Decision::Replace, Decision::BlindSwap]);
    let ten = valid_set(normal(Suit::Spades, Face::Ten)).into_vec();
    assert_eq!(ten, vec![Decision::Discard, Decision::Replace, Decision::LookAtOther]);
    let nine = valid_set(normal(Suit::Spades, Face::Nine)).into_vec();
    assert_eq!(nine, vec![Decision::Discard, Decision::Replace, Decision::LookAtOther]);
    let eight = valid_set(normal(Suit::Diamonds, Face::Eight)).into_vec();
    assert_eq!(eight, vec![Decision::Discard, Decision::Replace, Decision::LookAtOwn]);
    let seven = valid_set(normal(Suit::Diamonds, Face::Seven)).into_vec();
    assert_eq!(seven, vec![Decision::Discard, Decision::Replace, Decision::LookAtOwn]);
    let ace = valid_set(normal(Suit::Hearts, Face::Ace)).into_vec();
    assert_eq!(ace, vec![Decision::Discard, Decision::Replace]);
    let joker = valid_set(Card::Joker).into_vec();
    assert_eq!(joker, vec![Decision::Discard, Decision::Replace]);
}

#[test]
fn is_valid_only_for_listed_decisions() {
    let set = valid_set(normal(Suit::Hearts, Face::Seven));
    assert!(Decision::LookAtOwn.is_valid(set));
    assert!(Decision::Discard.is_valid(set));
    assert!(!Decision::LookAtOther.is_valid(set));
    assert!(!Decision::LookAndSwap.is_valid(set));
    let joker = valid_set(Card::Joker);
    assert!(!Decision::BlindSwap.is_valid(joker));
}
