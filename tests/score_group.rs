use rummy::card::Card;
use rummy::game_state::GameState;
use rummy::hand::Hand;
use rummy::rank::Rank;
use rummy::score_group::{Error, RankSet, Run, RunInfo, SetInfo};
use rummy::suit::Suit;

fn cards_from_str(string: &str) -> Vec<Card> {
    Hand::try_from(string).unwrap().cards().to_vec()
}

#[test]
fn run_try_from_low_cards() -> Result<(), Error> {
    let game_state = GameState::new(Rank::Six);
    assert_eq!(
        RunInfo::Normal {
            suit: Suit::Spade,
            low_rank: Rank::Three,
            high_rank: Rank::Five
        },
        Run::try_from(&cards_from_str("3S,4S,5S"), &game_state)?.info()
    );
    Ok(())
}

#[test]
fn run_try_from_middle_cards() -> Result<(), Error> {
    let game_state = GameState::new(Rank::Six);
    assert_eq!(
        RunInfo::Normal {
            suit: Suit::Heart,
            low_rank: Rank::Seven,
            high_rank: Rank::Ten
        },
        Run::try_from(&cards_from_str("7H,8H,9H,10H"), &game_state)?.info()
    );
    Ok(())
}

#[test]
fn run_try_from_high_cards() -> Result<(), Error> {
    let game_state = GameState::new(Rank::Six);
    assert_eq!(
        RunInfo::Normal {
            suit: Suit::Club,
            low_rank: Rank::Ten,
            high_rank: Rank::King
        },
        Run::try_from(&cards_from_str("10C,JC,QC,KC"), &game_state)?.info()
    );
    Ok(())
}

#[test]
fn run_try_from_joker() -> Result<(), Error> {
    let game_state = GameState::new(Rank::Six);
    assert_eq!(
        RunInfo::Normal {
            suit: Suit::Diamond,
            low_rank: Rank::Five,
            high_rank: Rank::Seven
        },
        Run::try_from(&cards_from_str("5D,Joker,7D"), &game_state)?.info()
    );
    Ok(())
}

#[test]
fn run_try_from_game_state_wild() -> Result<(), Error> {
    let game_state = GameState::new(Rank::Six);
    assert_eq!(
        RunInfo::Normal {
            suit: Suit::Star,
            low_rank: Rank::Nine,
            high_rank: Rank::Jack,
        },
        Run::try_from(&cards_from_str("9R,10R,6H"), &game_state)?.info()
    );
    Ok(())
}

#[test]
fn run_try_from_all_jokers() -> Result<(), Error> {
    let game_state = GameState::new(Rank::Six);
    let run = Run::try_from(
        &cards_from_str("Joker,Joker,Joker"),
        &game_state,
    )?;
    assert_eq!(run.info(), RunInfo::AllWilds);
    Ok(())
}

#[test]
fn run_try_from_all_wilds() -> Result<(), Error> {
    let game_state = GameState::new(Rank::Six);
    let run = Run::try_from(
        &cards_from_str("Joker,Joker,6D"),
        &game_state,
    )?;
    assert_eq!(run.info(), RunInfo::AllWilds);
    Ok(())
}

#[test]
fn run_try_from_not_all_same_suit() {
    let game_state = GameState::new(Rank::Six);
    let result = Run::try_from(&cards_from_str("7H,8H,9D"), &game_state);
    assert_eq!(result, Err(Error::NotAllSameSuit));
}

#[test]
fn run_try_from_not_all_in_order() {
    let game_state = GameState::new(Rank::Six);
    let result = Run::try_from(&cards_from_str("7H,8H,10H"), &game_state);
    assert_eq!(result, Err(Error::NotAllInOrder));
}

#[test]
fn run_try_from_before_three() {
    let game_state = GameState::new(Rank::Six);
    let result = Run::try_from(&cards_from_str("Joker,3S,4S"), &game_state);
    assert_eq!(result, Err(Error::OutOfRange));
}

#[test]
fn run_try_from_after_king() {
    let game_state = GameState::new(Rank::Six);
    let result = Run::try_from(&cards_from_str("QD,KD,Joker"), &game_state);
    assert_eq!(result, Err(Error::OutOfRange));
}

#[test]
fn run_try_from_too_few_cards() {
    let game_state = GameState::new(Rank::Six);
    let result = Run::try_from(&cards_from_str("4H,5H"), &game_state);
    assert_eq!(result, Err(Error::TooFewCards));
}

#[test]
fn run_try_from_too_many_cards() {
    let game_state = GameState::new(Rank::Six);
    let result = Run::try_from(
        &cards_from_str("3H,4H,5H,6H,7H,8H,9H,10H,JH,QH,KH,Joker"),
        &game_state,
    );
    assert_eq!(result, Err(Error::TooManyCards));
}

#[test]
fn set_try_from_low_cards() -> Result<(), Error> {
    let game_state = GameState::new(Rank::Six);
    assert_eq!(
        SetInfo::Normal { rank: Rank::Three },
        RankSet::try_from(&cards_from_str("3S,3H,3D"), &game_state)?.info()
    );
    Ok(())
}

#[test]
fn set_try_from_high_cards() -> Result<(), Error> {
    let game_state = GameState::new(Rank::Six);
    assert_eq!(
        SetInfo::Normal { rank: Rank::King },
        RankSet::try_from(&cards_from_str("KR,KD,KS"), &game_state)?.info()
    );
    Ok(())
}

#[test]
fn set_try_from_middle_cards() -> Result<(), Error> {
    let game_state = GameState::new(Rank::Six);
    assert_eq!(
        SetInfo::Normal { rank: Rank::Ten },
        RankSet::try_from(&cards_from_str("10S,10R,10D"), &game_state)?.info()
    );
    Ok(())
}

#[test]
fn set_try_from_repeated_suit() -> Result<(), Error> {
    let game_state = GameState::new(Rank::Six);
    assert_eq!(
        SetInfo::Normal { rank: Rank::Five },
        RankSet::try_from(&cards_from_str("5S,5D,5D"), &game_state)?.info()
    );
    Ok(())
}

#[test]
fn set_try_from_joker() -> Result<(), Error> {
    let game_state = GameState::new(Rank::Six);
    assert_eq!(
        SetInfo::Normal { rank: Rank::Queen },
        RankSet::try_from(&cards_from_str("Joker,QD,QR"), &game_state)?.info()
    );
    Ok(())
}

#[test]
fn set_try_from_game_state_wild() -> Result<(), Error> {
    let game_state = GameState::new(Rank::Six);
    assert_eq!(
        SetInfo::Normal { rank: Rank::Queen },
        RankSet::try_from(&cards_from_str("6H,QD,QR"), &game_state)?.info()
    );
    Ok(())
}

#[test]
fn set_try_from_many_cards() -> Result<(), Error> {
    let game_state = GameState::new(Rank::Six);
    assert_eq!(
        SetInfo::Normal { rank: Rank::Seven },
        RankSet::try_from(&cards_from_str("7D,7H,7R,Joker,7S,7D"), &game_state)?.info()
    );
    Ok(())
}

#[test]
fn set_try_from_all_jokers() -> Result<(), Error> {
    let game_state = GameState::new(Rank::Six);
    let set = RankSet::try_from(
        &cards_from_str("Joker,Joker,Joker"),
        &game_state,
    )?;
    assert_eq!(set.info(), SetInfo::AllWilds);
    Ok(())
}

#[test]
fn set_try_from_all_wilds() -> Result<(), Error> {
    let game_state = GameState::new(Rank::Six);
    let set = RankSet::try_from(
        &cards_from_str("Joker,Joker,6D"),
        &game_state,
    )?;
    assert_eq!(set.info(), SetInfo::AllWilds);
    Ok(())
}

#[test]
fn set_try_from_not_all_same_rank() {
    let game_state = GameState::new(Rank::Six);
    let result = RankSet::try_from(&cards_from_str("7H,7D,8D"), &game_state);
    assert_eq!(result, Err(Error::NotAllSameRank));
}

#[test]
fn set_try_from_too_few_cards() {
    let game_state = GameState::new(Rank::Six);
    let result = RankSet::try_from(&cards_from_str("8D,8H"), &game_state);
    assert_eq!(result, Err(Error::TooFewCards));
}

#[test]
fn run_scrambled_with_wild_in_place() -> Result<(), Error> {
    let game_state = GameState::new(Rank::Six);
    assert_eq!(
        RunInfo::Normal {
            suit: Suit::Heart,
            low_rank: Rank::Four,
            high_rank: Rank::Seven
        },
        Run::try_from(&cards_from_str("Joker,5H,6D,7H"), &game_state)?.info()
    );
    Ok(())
}

#[test]
fn run_every_length_and_start() {
    for wild in 0..11 {
        let game_state = GameState::new(Rank::at(wild));
        for n in 3..=11 {
            for low in 0..=(11 - n) {
                let cards: Vec<Card> =
                    (0..n).map(|i| Card::new(Suit::Club, Rank::at(low + i))).collect();
                let run = Run::try_from(&cards, &game_state).unwrap();
                assert_eq!(
                    RunInfo::Normal {
                        suit: Suit::Club,
                        low_rank: Rank::at(low),
                        high_rank: Rank::at(low + n - 1)
                    },
                    run.info()
                );
                assert_eq!(&cards[..], run.cards());
            }
        }
    }
}

#[test]
fn run_after_king_with_wild_six() {
    let game_state = GameState::new(Rank::Six);
    let result = Run::try_from(&cards_from_str("QD,KD,Joker"), &game_state);
    assert_eq!(result, Err(Error::OutOfRange));
}

#[test]
fn run_all_jokers_any_wild() {
    for wild in 0..11 {
        let game_state = GameState::new(Rank::at(wild));
        let run = Run::try_from(&cards_from_str("Joker,Joker,Joker"), &game_state).unwrap();
        assert_eq!(RunInfo::AllWilds, run.info());
        let set = RankSet::try_from(&cards_from_str("Joker,Joker,Joker"), &game_state).unwrap();
        assert_eq!(SetInfo::AllWilds, set.info());
    }
}

#[test]
fn set_repeated_suit_any_wild() {
    for wild in 0..11 {
        if wild == 2 {
            continue;
        }
        let game_state = GameState::new(Rank::at(wild));
        let set = RankSet::try_from(&cards_from_str("5S,5D,5D"), &game_state).unwrap();
        assert_eq!(SetInfo::Normal { rank: Rank::Five }, set.info());
        assert_eq!(&cards_from_str("5S,5D,5D")[..], set.cards());
    }
}

#[test]
fn length_bounds() {
    let game_state = GameState::new(Rank::Six);
    assert_eq!(Err(Error::TooFewCards), Run::try_from(&[], &game_state));
    assert_eq!(Err(Error::TooFewCards), RankSet::try_from(&[], &game_state));
    assert_eq!(
        Err(Error::TooFewCards),
        Run::try_from(&cards_from_str("Joker,Joker"), &game_state)
    );
    assert_eq!(
        Err(Error::TooFewCards),
        RankSet::try_from(&cards_from_str("Joker,Joker"), &game_state)
    );
    let eleven = cards_from_str("3H,4H,5H,6H,7H,8H,9H,10H,JH,QH,KH");
    assert!(Run::try_from(&eleven, &game_state).is_ok());
    let twelve = cards_from_str("Joker,Joker,Joker,Joker,Joker,Joker,Joker,Joker,Joker,Joker,Joker,Joker");
    assert_eq!(Err(Error::TooManyCards), Run::try_from(&twelve, &game_state));
    assert_eq!(SetInfo::AllWilds, RankSet::try_from(&twelve, &game_state).unwrap().info());
}

#[test]
fn run_suit_checked_before_order() {
    let game_state = GameState::new(Rank::Six);
    let result = Run::try_from(&cards_from_str("7H,9D,8H"), &game_state);
    assert_eq!(result, Err(Error::NotAllSameSuit));
    let result = Run::try_from(&cards_from_str("KH,Joker,3H"), &game_state);
    assert_eq!(result, Err(Error::OutOfRange));
}
