use rummy::suit::Suit;

#[test]
fn suit_test_try_from() {
    assert_eq!(Some(Suit::Spade), Suit::try_from('S'));
    assert_eq!(Some(Suit::Club), Suit::try_from('C'));
    assert_eq!(Some(Suit::Heart), Suit::try_from('H'));
    assert_eq!(Some(Suit::Diamond), Suit::try_from('D'));
    assert_eq!(Some(Suit::Star), Suit::try_from('R'));
    assert_eq!(None, Suit::try_from('A'));
    assert_eq!(None, Suit::try_from('B'));
    assert_eq!(None, Suit::try_from('E'));
    assert_eq!(None, Suit::try_from('F'));
}

#[test]
fn suit_tokens() {
    assert_eq!("S", Suit::Spade.to_string());
    assert_eq!("C", Suit::Club.to_string());
    assert_eq!("H", Suit::Heart.to_string());
    assert_eq!("D", Suit::Diamond.to_string());
    assert_eq!("R", Suit::Star.to_string());
    assert_eq!('R', Suit::Star.to_char());
    assert_eq!(Suit::Star, Suit::at(4));
}

#[test]
fn suit_lower_case_refused() {
    assert_eq!(None, Suit::try_from('s'));
    assert_eq!(None, Suit::try_from('r'));
}
