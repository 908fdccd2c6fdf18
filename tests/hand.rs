use rummy::card::Card;
use rummy::hand::Hand;

#[test]
fn hand_test_try_from() {
    // Valid
    assert_eq!(
        Some(Hand::new(vec![
            Card::try_from("3S").unwrap(),
            Card::try_from("5C").unwrap()
        ])),
        Hand::try_from("3S,5C")
    );
    // Leading/trailing spaces are ok
    assert_eq!(
        Some(Hand::new(vec![
            Card::try_from("10H").unwrap(),
            Card::try_from("QD").unwrap()
        ])),
        Hand::try_from("10H, QD")
    );
    assert_eq!(
        Some(Hand::new(vec![
            Card::try_from("10H").unwrap(),
            Card::try_from("QD").unwrap()
        ])),
        Hand::try_from("   10H   ,    QD   ")
    );
    // Single card is ok
    assert_eq!(
        Some(Hand::new(vec![
            Card::try_from("KR").unwrap(),
        ])),
        Hand::try_from("KR")
    );
    // Empty is ok
    assert_eq!(Some(Hand::new(Vec::new())), Hand::try_from(""));
    // No trailing commas
    assert_eq!(None, Hand::try_from("3S,"));
    // Invalid rank
    assert_eq!(None, Hand::try_from("11C"));
    // Invalid suit
    assert_eq!(None, Hand::try_from("7A"));
}

#[test]
fn hand_white_space() {
    assert_eq!(Some(Hand::new(Vec::new())), Hand::try_from("   \t "));
    assert_eq!(
        Some(Hand::new(vec![Card::Joker, Card::try_from("3S").unwrap()])),
        Hand::try_from("\tJoker ,\n3S\n")
    );
    assert_eq!(None, Hand::try_from(",3S"));
    assert_eq!(None, Hand::try_from("3S,,5C"));
    assert_eq!(None, Hand::try_from("3S 5C"));
    assert_eq!(None, Hand::try_from("3S, ,5C"));
}

#[test]
fn hand_cards_in_order() {
    let hand = Hand::try_from("KR,3S,Joker").unwrap();
    assert_eq!(
        &[Card::try_from("KR").unwrap(), Card::try_from("3S").unwrap(), Card::Joker][..],
        hand.cards()
    );
}
