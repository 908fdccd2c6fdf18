use vstd::prelude::*;

use crate::game_state::{card_is_wild, non_wild_of, GameState};
use crate::rank::{face_value, rank_at, rank_of, rank_token, lemma_rank_token, Rank, NUM_RANKS};
use crate::score::Score;
use crate::suit::{suit_at, suit_char, suit_of, Suit, NUM_SUITS};
use crate::utils::{chars_of, split_last_char};

verus! {

/// The number of jokers in a deck.
pub const NUM_JOKERS_IN_DECK: usize = 4;

/// The score of a joker.
pub const JOKER_SCORE: u32 = 25;

/// A card: a suit and a rank, or a joker.
#[derive(Debug, Clone, Copy, PartialEq, Eq, Structural, PartialOrd, Ord, Hash)]
pub enum Card {
    Normal(NormalCard),
    Joker,
}

/// The suit and rank of a card that is not a joker.
#[derive(Debug, Clone, Copy, PartialEq, Eq, Structural, PartialOrd, Ord, Hash)]
pub struct NormalCard {
    pub suit: Suit,
    pub rank: Rank,
}

/// The points a card is worth: its face value, or 25 for a joker.
pub open spec fn card_score(c: Card) -> nat {
    match c {
        Card::Normal(n) => face_value(n.rank),
        Card::Joker => JOKER_SCORE as nat,
    }
}

/// The token that stands for a joker.
pub open spec fn joker_token() -> Seq<char> {
    seq!['J', 'o', 'k', 'e', 'r']
}

/// The canonical token of a card: rank token then suit character, or the joker token.
pub open spec fn card_token(c: Card) -> Seq<char> {
    match c {
        Card::Normal(n) => rank_token(n.rank).push(suit_char(n.suit)),
        Card::Joker => joker_token(),
    }
}

/// The card whose token is `t`, if any.
pub open spec fn card_of(t: Seq<char>) -> Option<Card> {
    if t == joker_token() {
        Some(Card::Joker)
    } else if t.len() == 0 {
        None
    } else {
        match (rank_of(t.drop_last()), suit_of(t.last())) {
            (Some(rank), Some(suit)) => Some(Card::Normal(NormalCard { suit, rank })),
            _ => None,
        }
    }
}

/// A card token names exactly one card: parsing the token of a card gives that card back,
/// and a token that parses to a card is that card's token.
pub proof fn lemma_card_token(c: Card, t: Seq<char>)
    ensures
        card_of(card_token(c)) == Some(c),
        card_of(t) == Some(c) ==> t == card_token(c),
{
    match c {
        Card::Normal(n) => {
            let tok = card_token(c);
            lemma_rank_token(n.rank, tok.drop_last());
            assert(tok.drop_last() =~= rank_token(n.rank));
            assert(tok != joker_token()) by {
                if tok == joker_token() {
                    assert(tok.last() == 'r');
                }
            }
            if card_of(t) == Some(c) {
                lemma_rank_token(n.rank, t.drop_last());
                assert(t =~= t.drop_last().push(t.last()));
            }
        },
        Card::Joker => {
        },
    }
}

/// The card at position `i` of a full deck: every suit with every rank, suit by suit, then
/// the jokers.
pub open spec fn deck_card(i: int) -> Card {
    if i < NUM_SUITS * NUM_RANKS {
        Card::Normal(NormalCard { suit: suit_at(i / NUM_RANKS as int), rank: rank_at(i % NUM_RANKS as int) })
    } else {
        Card::Joker
    }
}

impl Card {
    pub fn new(suit: Suit, rank: Rank) -> (r: Card)
        ensures
            r == Card::Normal(NormalCard { suit, rank }),
    {
        Card::Normal(NormalCard { suit, rank })
    }

    pub fn joker() -> (r: Card)
        ensures
            r == Card::Joker,
    {
        Card::Joker
    }

    /// The points this card is worth.
    pub fn score(&self) -> (r: Score)
        ensures
            r.0 == card_score(*self),
    {
        match self {
            Card::Normal(card) => card.rank.score(),
            Card::Joker => Score(JOKER_SCORE),
        }
    }

    /// The suit, for a normal card.
    pub fn suit(&self) -> (r: Option<Suit>)
        ensures
            r == (match *self {
                Card::Normal(n) => Some(n.suit),
                Card::Joker => None,
            }),
    {
        match self {
            Card::Normal(card) => Some(card.suit),
            Card::Joker => None,
        }
    }

    /// The rank, for a normal card.
    pub fn rank(&self) -> (r: Option<Rank>)
        ensures
            r == (match *self {
                Card::Normal(n) => Some(n.rank),
                Card::Joker => None,
            }),
    {
        match self {
            Card::Normal(card) => Some(card.rank),
            Card::Joker => None,
        }
    }

    /// Whether this card is wild in the round of `game_state`.
    pub fn is_wild(&self, game_state: &GameState) -> (r: bool)
        ensures
            r == card_is_wild(*game_state, *self),
    {
        game_state.is_card_wild(*self)
    }

    /// The suit and rank, for a normal card.
    pub fn normal(&self) -> (r: Option<&NormalCard>)
        ensures
            r is Some <==> *self is Normal,
            r matches Some(n) ==> *self == Card::Normal(*n),
    {
        match self {
            Card::Normal(card) => Some(card),
            Card::Joker => None,
        }
    }

    /// The suit and rank, for a normal card that is not wild in the round of `game_state`.
    pub fn non_wild(&self, game_state: &GameState) -> (r: Option<&NormalCard>)
        ensures
            r is Some <==> non_wild_of(*game_state, *self) is Some,
            r matches Some(n) ==> non_wild_of(*game_state, *self) == Some(*n),
    {
        match self {
            Card::Normal(card) => {
                if self.is_wild(game_state) {
                    None
                } else {
                    Some(card)
                }
            },
            Card::Joker => None,
        }
    }

    pub fn is_normal(&self) -> (r: bool)
        ensures
            r == (*self is Normal),
    {
        match self {
            Card::Normal(_) => true,
            Card::Joker => false,
        }
    }

    pub fn is_joker(&self) -> (r: bool)
        ensures
            r == (*self is Joker),
    {
        match self {
            Card::Normal(_) => false,
            Card::Joker => true,
        }
    }

    /// Parses a card from its token, such as "10D", "JR" or "Joker".
    pub fn try_from(string: &str) -> (r: Option<Card>)
        ensures
            r == card_of(string@),
    {
        let chars = chars_of(string);
        if chars.len() == 5 && chars[0] == 'J' && chars[1] == 'o' && chars[2] == 'k'
            && chars[3] == 'e' && chars[4] == 'r' {
            assert(string@ =~= joker_token());
            return Some(Card::Joker);
        }
        assert(string@ != joker_token()) by {
            if string@ == joker_token() {
                assert(chars@[4] == 'r');
            }
        }
        let (rank_str, suit_char) = match split_last_char(string) {
            Some(parts) => parts,
            None => return None,
        };
        let suit = match Suit::try_from(suit_char) {
            Some(suit) => suit,
            None => return None,
        };
        let rank = match Rank::try_from(rank_str.as_str()) {
            Some(rank) => rank,
            None => return None,
        };
        Some(Card::new(suit, rank))
    }

    /// The canonical token of this card.
    pub fn to_string(&self) -> (r: String)
        ensures
            r@ == card_token(*self),
    {
        match self {
            Card::Normal(card) => {
                let mut s = card.rank.to_string();
                s.push(card.suit.to_char());
                s
            },
            Card::Joker => {
                let mut s = String::new();
                s.push('J');
                s.push('o');
                s.push('k');
                s.push('e');
                s.push('r');
                assert(s@ =~= joker_token());
                s
            },
        }
    }
}

impl NormalCard {
    pub fn new(suit: Suit, rank: Rank) -> (r: NormalCard)
        ensures
            r == (NormalCard { suit, rank }),
    {
        NormalCard { suit, rank }
    }

    /// The points this card is worth, its face value.
    pub fn score(&self) -> (r: Score)
        ensures
            r.0 == face_value(self.rank),
    {
        self.rank.score()
    }

    pub fn suit(&self) -> (r: Suit)
        ensures
            r == self.suit,
    {
        self.suit
    }

    pub fn rank(&self) -> (r: Rank)
        ensures
            r == self.rank,
    {
        self.rank
    }
}

/// The card at a deck position, split into its suit and rank positions.
proof fn lemma_deck_position(s: int, k: int)
    requires
        0 <= s < NUM_SUITS,
        0 <= k < NUM_RANKS,
    ensures
        deck_card(s * NUM_RANKS + k) == Card::Normal(NormalCard { suit: suit_at(s), rank: rank_at(k) }),
{
    let i = s * NUM_RANKS + k;
    assert(i / 11 == s && i % 11 == k && i < 55) by (nonlinear_arith)
        requires
            i == s * 11 + k,
            0 <= s < 5,
            0 <= k < 11,
    ;
}

/// A full deck: each suit with each rank, then the jokers.
pub fn full_deck() -> (r: Vec<Card>)
    ensures
        r@.len() == NUM_SUITS * NUM_RANKS + NUM_JOKERS_IN_DECK,
        forall|i: int| 0 <= i < r@.len() ==> #[trigger] r@[i] == deck_card(i),
{
    let mut deck: Vec<Card> = Vec::new();
    let mut s: usize = 0;
    while s < NUM_SUITS
        invariant
            s <= NUM_SUITS,
            deck@.len() == s * NUM_RANKS,
            forall|i: int| 0 <= i < deck@.len() ==> #[trigger] deck@[i] == deck_card(i),
        decreases NUM_SUITS - s,
    {
        let suit = Suit::at(s);
        let mut k: usize = 0;
        while k < NUM_RANKS
            invariant
                s < NUM_SUITS,
                k <= NUM_RANKS,
                suit == suit_at(s as int),
                deck@.len() == s * NUM_RANKS + k,
                forall|i: int| 0 <= i < deck@.len() ==> #[trigger] deck@[i] == deck_card(i),
            decreases NUM_RANKS - k,
        {
            proof {
                lemma_deck_position(s as int, k as int);
            }
            deck.push(Card::Normal(NormalCard::new(suit, Rank::at(k))));
            k = k + 1;
        }
        s = s + 1;
    }
    let mut j: usize = 0;
    while j < NUM_JOKERS_IN_DECK
        invariant
            j <= NUM_JOKERS_IN_DECK,
            deck@.len() == NUM_SUITS * NUM_RANKS + j,
            forall|i: int| 0 <= i < deck@.len() ==> #[trigger] deck@[i] == deck_card(i),
        decreases NUM_JOKERS_IN_DECK - j,
    {
        deck.push(Card::Joker);
        j = j + 1;
    }
    deck
}

} // verus!
