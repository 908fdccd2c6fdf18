use vstd::prelude::*;

use crate::card::{Card, NormalCard};
use crate::rank::{face_value, Rank};

verus! {

/// The context of one round: the rank that is wild in it.
#[derive(Debug, Clone, Copy, PartialEq, Eq, Structural, PartialOrd, Ord, Hash)]
pub struct GameState {
    pub wild_rank: Rank,
}

/// Whether `card` is wild in `state`: a joker always is, a normal card when its rank is the
/// wild rank.
pub open spec fn card_is_wild(state: GameState, card: Card) -> bool {
    match card {
        Card::Normal(n) => n.rank == state.wild_rank,
        Card::Joker => true,
    }
}

/// The suit and rank of `card` when it is a normal card that is not wild in `state`.
pub open spec fn non_wild_of(state: GameState, card: Card) -> Option<NormalCard> {
    match card {
        Card::Normal(n) => if n.rank == state.wild_rank {
            None
        } else {
            Some(n)
        },
        Card::Joker => None,
    }
}

/// A joker is wild in every round; a normal card is wild exactly in the rounds whose wild
/// rank is its rank.
pub proof fn lemma_wildness(state: GameState, n: NormalCard)
    ensures
        card_is_wild(state, Card::Joker),
        card_is_wild(state, Card::Normal(n)) <==> n.rank == state.wild_rank,
        non_wild_of(state, Card::Normal(n)) is None <==> card_is_wild(state, Card::Normal(n)),
{
}

impl GameState {
    pub fn new(wild_rank: Rank) -> (r: GameState)
        ensures
            r.wild_rank == wild_rank,
    {
        GameState { wild_rank }
    }

    /// Whether `card` is wild in this round.
    pub fn is_card_wild(&self, card: Card) -> (r: bool)
        ensures
            r == card_is_wild(*self, card),
    {
        match card {
            Card::Normal(c) => self.is_rank_wild(c.rank()),
            Card::Joker => true,
        }
    }

    /// Whether `rank` is the wild rank of this round.
    pub fn is_rank_wild(&self, rank: Rank) -> (r: bool)
        ensures
            r == (rank == self.wild_rank),
    {
        self.wild_rank == rank
    }

    /// The suit and rank of `card`, if it is a normal card that is not wild in this round.
    pub fn non_wild(&self, card: Card) -> (r: Option<NormalCard>)
        ensures
            r == non_wild_of(*self, card),
    {
        match card {
            Card::Normal(c) => if self.is_rank_wild(c.rank()) {
                None
            } else {
                Some(c)
            },
            Card::Joker => None,
        }
    }

    pub fn wild_rank(self) -> (r: Rank)
        ensures
            r == self.wild_rank,
    {
        self.wild_rank
    }

    /// The number of the round whose wild rank this is: 1 for `Three` up to 11 for `King`.
    pub fn round_num(self) -> (r: usize)
        ensures
            r == face_value(self.wild_rank) - 2,
    {
        self.wild_rank.number() - 2
    }

    /// The number of cards dealt to each player in this round, the face value of the wild rank.
    pub fn num_cards(self) -> (r: usize)
        ensures
            r == face_value(self.wild_rank),
    {
        self.wild_rank.number()
    }
}

} // verus!
