use rummy::rank::Rank;

#[test]
fn test_next() {
    assert_eq!(Rank::Three.next(), Some(Rank::Four));
    assert_eq!(Rank::Ten.next(), Some(Rank::Jack));
    assert_eq!(Rank::Queen.next(), Some(Rank::King));
    assert_eq!(Rank::King.next(), None);
}

#[test]
fn test_plus() {
    assert_eq!(Rank::Three.plus(0), Some(Rank::Three));
    assert_eq!(Rank::Three.plus(1), Some(Rank::Four));
    assert_eq!(Rank::Three.plus(2), Some(Rank::Five));
    assert_eq!(Rank::Three.plus(5), Some(Rank::Eight));
    assert_eq!(Rank::Three.plus(5), Some(Rank::Eight));
    assert_eq!(Rank::Three.plus(10), Some(Rank::King));
    assert_eq!(Rank::Three.plus(11), None);
    assert_eq!(Rank::Three.plus(12), None);
    assert_eq!(Rank::Three.plus(20), None);
    assert_eq!(Rank::Four.plus(0), Some(Rank::Four));
    assert_eq!(Rank::Four.plus(1), Some(Rank::Five));
    assert_eq!(Rank::Four.plus(2), Some(Rank::Six));
    assert_eq!(Rank::Four.plus(5), Some(Rank::Nine));
    assert_eq!(Rank::Four.plus(9), Some(Rank::King));
    assert_eq!(Rank::Four.plus(10), None);
    assert_eq!(Rank::Four.plus(11), None);
    assert_eq!(Rank::Four.plus(50), None);
    assert_eq!(Rank::Ten.plus(0), Some(Rank::Ten));
    assert_eq!(Rank::Ten.plus(1), Some(Rank::Jack));
    assert_eq!(Rank::Ten.plus(2), Some(Rank::Queen));
    assert_eq!(Rank::Ten.plus(3), Some(Rank::King));
    assert_eq!(Rank::Ten.plus(4), None);
    assert_eq!(Rank::Ten.plus(5), None);
    assert_eq!(Rank::Ten.plus(99), None);
}

#[test]
fn rank_test_try_from() {
    assert_eq!(Some(Rank::Three), Rank::try_from("3"));
    assert_eq!(Some(Rank::Four), Rank::try_from("4"));
    assert_eq!(Some(Rank::Five), Rank::try_from("5"));
    assert_eq!(Some(Rank::Six), Rank::try_from("6"));
    assert_eq!(Some(Rank::Seven), Rank::try_from("7"));
    assert_eq!(Some(Rank::Eight), Rank::try_from("8"));
    assert_eq!(Some(Rank::Nine), Rank::try_from("9"));
    assert_eq!(Some(Rank::Ten), Rank::try_from("10"));
    assert_eq!(Some(Rank::Jack), Rank::try_from("J"));
    assert_eq!(Some(Rank::Queen), Rank::try_from("Q"));
    assert_eq!(Some(Rank::King), Rank::try_from("K"));
    assert_eq!(None, Rank::try_from("1"));
    assert_eq!(None, Rank::try_from("2"));
    assert_eq!(None, Rank::try_from("11"));
    assert_eq!(None, Rank::try_from("12"));
    assert_eq!(None, Rank::try_from("13"));
    assert_eq!(None, Rank::try_from("14"));
    assert_eq!(None, Rank::try_from("14"));
    assert_eq!(None, Rank::try_from("A"));
    assert_eq!(None, Rank::try_from("S"));
    assert_eq!(None, Rank::try_from("C"));
    assert_eq!(None, Rank::try_from("H"));
    assert_eq!(None, Rank::try_from("D"));
    assert_eq!(None, Rank::try_from("R"));
    assert_eq!(None, Rank::try_from(""));
}

#[test]
fn rank_minus_stops_at_three() {
    assert_eq!(Rank::King.minus(0), Some(Rank::King));
    assert_eq!(Rank::King.minus(10), Some(Rank::Three));
    assert_eq!(Rank::King.minus(11), None);
    assert_eq!(Rank::Five.minus(2), Some(Rank::Three));
    assert_eq!(Rank::Five.minus(3), None);
    assert_eq!(Rank::Three.minus(1), None);
    assert_eq!(Rank::Three.minus(usize::MAX), None);
    assert_eq!(Rank::King.plus(usize::MAX), None);
}

#[test]
fn rank_scores_are_face_values() {
    assert_eq!(3, Rank::Three.score().value());
    assert_eq!(10, Rank::Ten.score().value());
    assert_eq!(11, Rank::Jack.score().value());
    assert_eq!(13, Rank::King.score().value());
    assert_eq!(12, Rank::Queen.number());
    assert_eq!(0, Rank::Three.index());
    assert_eq!(10, Rank::King.index());
    assert_eq!(Rank::Nine, Rank::at(6));
}

#[test]
fn rank_tokens_round_trip() {
    assert_eq!("10", Rank::Ten.to_string());
    assert_eq!("J", Rank::Jack.to_string());
    assert_eq!("3", Rank::Three.to_string());
    for i in 0..11 {
        let rank = Rank::at(i);
        assert_eq!(Some(rank), Rank::try_from(&rank.to_string()));
    }
}
