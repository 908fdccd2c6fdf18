use vstd::prelude::*;

use crate::card::{Card, NormalCard};
use crate::game_state::{non_wild_of, GameState};
use crate::rank::{rank_at, rank_index, lemma_rank_index, Rank, NUM_RANKS};
use crate::suit::Suit;
use vstd::slice::slice_to_vec;

verus! {

/// The fewest cards of any meld.
pub const MIN_CARDS: usize = 3;

/// The fewest cards of a run.
pub const MIN_CARDS_RUN: usize = MIN_CARDS;

/// The most cards of a run: one for each rank.
pub const MAX_CARDS_RUN: usize = NUM_RANKS;

/// The fewest cards of a set.
pub const MIN_CARDS_SET: usize = MIN_CARDS;

/// Why a sequence of cards is not a meld of the shape asked for.
#[derive(Debug, Clone, Copy, PartialEq, Eq, Structural, PartialOrd, Ord, Hash)]
pub enum Error {
    TooFewCards,
    TooManyCards,
    NotAllSameSuit,
    NotAllSameRank,
    NotAllInOrder,
    OutOfRange,
}

/// A meld: a run or a set.
#[derive(Debug, Clone, PartialEq, Eq, PartialOrd, Ord)]
pub enum ScoreGroup {
    Run(Run),
    RankSet(RankSet),
}

/// A sequence of cards that forms a run.
#[derive(Debug, Clone, PartialEq, Eq, PartialOrd, Ord)]
pub struct Run {
    cards: Vec<Card>,
    info: RunInfo,
}

/// What a run is: a window of ranks in one suit, or wild cards only.
#[derive(Debug, Clone, Copy, PartialEq, Eq, Structural, PartialOrd, Ord, Hash)]
pub enum RunInfo {
    Normal { suit: Suit, low_rank: Rank, high_rank: Rank },
    AllWilds,
}

/// A sequence of cards that forms a set.
#[derive(Debug, Clone, PartialEq, Eq, PartialOrd, Ord)]
pub struct RankSet {
    cards: Vec<Card>,
    info: SetInfo,
}

/// What a set is: cards of one rank, or wild cards only.
#[derive(Debug, Clone, Copy, PartialEq, Eq, Structural, PartialOrd, Ord, Hash)]
pub enum SetInfo {
    Normal { rank: Rank },
    AllWilds,
}

/// Every card of `cards` is wild in `gs`.
pub open spec fn all_wild(cards: Seq<Card>, gs: GameState) -> bool {
    forall|j: int| 0 <= j < cards.len() ==> #[trigger] non_wild_of(gs, cards[j]) is None
}

/// Position `i` holds the first card of `cards` that is not wild in `gs`.
pub open spec fn is_anchor(cards: Seq<Card>, gs: GameState, i: int) -> bool {
    &&& 0 <= i < cards.len()
    &&& non_wild_of(gs, cards[i]) is Some
    &&& forall|j: int| 0 <= j < i ==> #[trigger] non_wild_of(gs, cards[j]) is None
}

/// The position of the first card that is not wild (meaningful unless all are wild).
pub open spec fn anchor_index(cards: Seq<Card>, gs: GameState) -> int {
    choose|i: int| is_anchor(cards, gs, i)
}

/// The first card that is not wild (meaningful unless all are wild).
pub open spec fn anchor(cards: Seq<Card>, gs: GameState) -> NormalCard {
    non_wild_of(gs, cards[anchor_index(cards, gs)])->0
}

/// Every card of `cards` that is not wild has suit `suit`.
pub open spec fn suits_agree(cards: Seq<Card>, gs: GameState, suit: Suit) -> bool {
    forall|j: int|
        0 <= j < cards.len() ==> (#[trigger] non_wild_of(gs, cards[j]) matches Some(n) ==> n.suit
            == suit)
}

/// Every card of `cards` that is not wild has rank `rank`.
pub open spec fn ranks_agree(cards: Seq<Card>, gs: GameState, rank: Rank) -> bool {
    forall|j: int|
        0 <= j < cards.len() ==> (#[trigger] non_wild_of(gs, cards[j]) matches Some(n) ==> n.rank
            == rank)
}

/// Every card of `cards` that is not wild stands at the place of its rank in a window of
/// ranks that starts at position `low`.
pub open spec fn ranks_in_place(cards: Seq<Card>, gs: GameState, low: int) -> bool {
    forall|j: int|
        0 <= j < cards.len() ==> (#[trigger] non_wild_of(gs, cards[j]) matches Some(n) ==> rank_index(
            n.rank,
        ) == low + j)
}

/// The window of `total` ranks in which `rank` stands at place `index`, as its lowest and
/// highest rank; `None` if it would reach below `Three` or above `King`.
pub open spec fn window(rank: Rank, index: int, total: int) -> Option<(Rank, Rank)> {
    let low = rank_index(rank) - index;
    if 0 <= low && low + total - 1 < NUM_RANKS {
        Some((rank_at(low), rank_at(low + total - 1)))
    } else {
        None
    }
}

/// What a run made of `cards` is in the round of `gs`, or why there is none.
pub open spec fn run_result(cards: Seq<Card>, gs: GameState) -> Result<RunInfo, Error> {
    if cards.len() < MIN_CARDS_RUN {
        Err(Error::TooFewCards)
    } else if cards.len() > MAX_CARDS_RUN {
        Err(Error::TooManyCards)
    } else if all_wild(cards, gs) {
        Ok(RunInfo::AllWilds)
    } else {
        let first = anchor(cards, gs);
        if !suits_agree(cards, gs, first.suit) {
            Err(Error::NotAllSameSuit)
        } else {
            match window(first.rank, anchor_index(cards, gs), cards.len() as int) {
                None => Err(Error::OutOfRange),
                Some((low_rank, high_rank)) => if !ranks_in_place(
                    cards,
                    gs,
                    rank_index(low_rank) as int,
                ) {
                    Err(Error::NotAllInOrder)
                } else {
                    Ok(RunInfo::Normal { suit: first.suit, low_rank, high_rank })
                },
            }
        }
    }
}

/// What a set made of `cards` is in the round of `gs`, or why there is none.
pub open spec fn set_result(cards: Seq<Card>, gs: GameState) -> Result<SetInfo, Error> {
    if cards.len() < MIN_CARDS_SET {
        Err(Error::TooFewCards)
    } else if all_wild(cards, gs) {
        Ok(SetInfo::AllWilds)
    } else {
        let rank = anchor(cards, gs).rank;
        if !ranks_agree(cards, gs, rank) {
            Err(Error::NotAllSameRank)
        } else {
            Ok(SetInfo::Normal { rank })
        }
    }
}

/// The cards of `cards` that are not wild, in order, as suit and rank.
pub open spec fn non_wild_seq(cards: Seq<Card>, gs: GameState) -> Seq<NormalCard>
    decreases cards.len(),
{
    if cards.len() == 0 {
        Seq::empty()
    } else {
        let rest = non_wild_seq(cards.drop_last(), gs);
        match non_wild_of(gs, cards.last()) {
            Some(n) => rest.push(n),
            None => rest,
        }
    }
}

/// The first card that is not wild is the one at the position of any anchor.
pub proof fn lemma_anchor_unique(cards: Seq<Card>, gs: GameState, i: int)
    requires
        is_anchor(cards, gs, i),
    ensures
        anchor_index(cards, gs) == i,
        anchor(cards, gs) == non_wild_of(gs, cards[i])->0,
{
    let k = anchor_index(cards, gs);
    assert(is_anchor(cards, gs, k));
    if k < i {
        assert(non_wild_of(gs, cards[k]) is None);
    } else if k > i {
        assert(non_wild_of(gs, cards[i]) is None);
    }
}

/// A suit and rank is among the cards that are not wild exactly when some card of the
/// sequence is it and is not wild.
proof fn lemma_non_wild_seq(cards: Seq<Card>, gs: GameState, n: NormalCard)
    ensures
        non_wild_seq(cards, gs).contains(n) <==> exists|j: int|
            0 <= j < cards.len() && #[trigger] non_wild_of(gs, cards[j]) == Some(n),
    decreases cards.len(),
{
    if cards.len() > 0 {
        let init = cards.drop_last();
        lemma_non_wild_seq(init, gs, n);
        let rest = non_wild_seq(init, gs);
        if non_wild_seq(cards, gs).contains(n) {
            if rest.contains(n) {
                let j = choose|j: int| 0 <= j < init.len() && #[trigger] non_wild_of(gs, init[j]) == Some(n);
                assert(non_wild_of(gs, cards[j]) == Some(n));
            } else {
                let k = choose|k: int| 0 <= k < non_wild_seq(cards, gs).len() && non_wild_seq(cards, gs)[k] == n;
                assert(non_wild_of(gs, cards[cards.len() - 1]) == Some(n));
            }
        }
        if exists|j: int| 0 <= j < cards.len() && #[trigger] non_wild_of(gs, cards[j]) == Some(n) {
            let j = choose|j: int| 0 <= j < cards.len() && #[trigger] non_wild_of(gs, cards[j]) == Some(n);
            if j < cards.len() - 1 {
                assert(non_wild_of(gs, init[j]) == Some(n));
                let k = choose|k: int| 0 <= k < rest.len() && rest[k] == n;
                match non_wild_of(gs, cards.last()) {
                    Some(m) => assert(rest.push(m)[k] == n),
                    None => {},
                }
            } else {
                assert(non_wild_seq(cards, gs) == rest.push(n));
                assert(rest.push(n)[rest.len() as int] == n);
            }
        }
    }
}

/// The cards that are not wild, in order, as suit and rank.
fn non_wilds(cards: &[Card], game_state: &GameState) -> (r: Vec<NormalCard>)
    ensures
        r@ == non_wild_seq(cards@, *game_state),
{
    let mut out: Vec<NormalCard> = Vec::new();
    let mut i: usize = 0;
    while i < cards.len()
        invariant
            i <= cards@.len(),
            out@ == non_wild_seq(cards@.take(i as int), *game_state),
        decreases cards@.len() - i,
    {
        assert(cards@.take(i + 1).drop_last() =~= cards@.take(i as int));
        match game_state.non_wild(cards[i]) {
            Some(n) => out.push(n),
            None => {},
        }
        i = i + 1;
    }
    assert(cards@.take(i as int) =~= cards@);
    out
}

/// The first card that is not wild, with its position.
fn first_non_wild_with_index(cards: &[Card], game_state: &GameState) -> (r: Option<(usize, NormalCard)>)
    ensures
        r is None <==> all_wild(cards@, *game_state),
        r matches Some((i, n)) ==> is_anchor(cards@, *game_state, i as int) && non_wild_of(
            *game_state,
            cards@[i as int],
        ) == Some(n),
{
    let mut i: usize = 0;
    while i < cards.len()
        invariant
            i <= cards@.len(),
            forall|j: int| 0 <= j < i ==> #[trigger] non_wild_of(*game_state, cards@[j]) is None,
        decreases cards@.len() - i,
    {
        if let Some(n) = game_state.non_wild(cards[i]) {
            assert(!all_wild(cards@, *game_state)) by {
                assert(non_wild_of(*game_state, cards@[i as int]) is Some);
            }
            return Some((i, n));
        }
        i = i + 1;
    }
    None
}

/// The first card that is not wild.
fn first_non_wild(cards: &[Card], game_state: &GameState) -> (r: Option<NormalCard>)
    ensures
        r is None <==> all_wild(cards@, *game_state),
        r matches Some(n) ==> n == anchor(cards@, *game_state),
{
    match first_non_wild_with_index(cards, game_state) {
        Some((i, n)) => {
            proof {
                lemma_anchor_unique(cards@, *game_state, i as int);
            }
            Some(n)
        },
        None => None,
    }
}

/// The lowest and highest rank of the window of `total` ranks in which `rank` stands at
/// place `index`.
fn get_low_high_ranks(rank: Rank, index: usize, total: usize) -> (r: Option<(Rank, Rank)>)
    requires
        total >= 1,
    ensures
        r == window(rank, index as int, total as int),
{
    let low_rank = match rank.minus(index) {
        Some(low) => low,
        None => return None,
    };
    proof {
        lemma_rank_index(low_rank, 0);
    }
    let high_rank = match low_rank.plus(total - 1) {
        Some(high) => high,
        None => return None,
    };
    Some((low_rank, high_rank))
}

/// Whether every card that is not wild has suit `suit`.
fn all_match_expected_suit(cards: &[Card], game_state: &GameState, suit: Suit) -> (r: bool)
    ensures
        r == suits_agree(cards@, *game_state, suit),
{
    let non_wild = non_wilds(cards, game_state);
    let mut k: usize = 0;
    while k < non_wild.len()
        invariant
            k <= non_wild@.len(),
            non_wild@ == non_wild_seq(cards@, *game_state),
            forall|m: int| 0 <= m < k ==> (#[trigger] non_wild@[m]).suit == suit,
        decreases non_wild@.len() - k,
    {
        if non_wild[k].suit() != suit {
            proof {
                let n = non_wild@[k as int];
                assert(non_wild@.contains(n));
                lemma_non_wild_seq(cards@, *game_state, n);
            }
            return false;
        }
        k = k + 1;
    }
    assert forall|j: int|
        0 <= j < cards@.len() implies (#[trigger] non_wild_of(*game_state, cards@[j]) matches Some(
        n,
    ) ==> n.suit == suit) by {
        if let Some(n) = non_wild_of(*game_state, cards@[j]) {
            lemma_non_wild_seq(cards@, *game_state, n);
        }
    }
    true
}

/// Whether every card that is not wild stands at the place of its rank in the window from
/// `low_rank` to `high_rank`.
fn all_match_expected_ranks(
    cards: &[Card],
    game_state: &GameState,
    low_rank: Rank,
    high_rank: Rank,
) -> (r: bool)
    requires
        rank_index(low_rank) + cards@.len() - 1 == rank_index(high_rank),
    ensures
        r == ranks_in_place(cards@, *game_state, rank_index(low_rank) as int),
{
    let mut i: usize = 0;
    while i < cards.len()
        invariant
            i <= cards@.len(),
            rank_index(low_rank) + cards@.len() - 1 == rank_index(high_rank),
            forall|j: int|
                0 <= j < i ==> (#[trigger] non_wild_of(*game_state, cards@[j]) matches Some(n)
                    ==> rank_index(n.rank) == rank_index(low_rank) + j),
        decreases cards@.len() - i,
    {
        let expected = match low_rank.plus(i) {
            Some(rank) => rank,
            None => {
                proof {
                    lemma_rank_index(high_rank, 0);
                }
                return false;
            },
        };
        proof {
            lemma_rank_index(expected, rank_index(low_rank) + i);
        }
        if let Some(n) = game_state.non_wild(cards[i]) {
            if n.rank() != expected {
                proof {
                    lemma_rank_index(n.rank, 0);
                    lemma_rank_index(expected, 0);
                }
                return false;
            }
        }
        i = i + 1;
    }
    true
}

/// Whether every card that is not wild has rank `rank`.
fn all_match_expected_rank(cards: &[Card], game_state: &GameState, rank: Rank) -> (r: bool)
    ensures
        r == ranks_agree(cards@, *game_state, rank),
{
    let mut i: usize = 0;
    while i < cards.len()
        invariant
            i <= cards@.len(),
            forall|j: int|
                0 <= j < i ==> (#[trigger] non_wild_of(*game_state, cards@[j]) matches Some(n)
                    ==> n.rank == rank),
        decreases cards@.len() - i,
    {
        if let Some(n) = game_state.non_wild(cards[i]) {
            if n.rank() != rank {
                return false;
            }
        }
        i = i + 1;
    }
    true
}

/// `n` cards of one suit whose ranks climb one step at a time from position `low`.
pub open spec fn ascending_run(suit: Suit, low: int, n: int) -> Seq<Card> {
    Seq::new(n as nat, |i: int| Card::Normal(NormalCard { suit, rank: rank_at(low + i) }))
}

/// Each card of `cards` is wild in `gs`, or has suit `suit` and the rank at its own place
/// in the window of ranks that starts at position `low`.
pub open spec fn fits_window(cards: Seq<Card>, gs: GameState, suit: Suit, low: int) -> bool {
    forall|j: int|
        0 <= j < cards.len() ==> (#[trigger] non_wild_of(gs, cards[j]) matches Some(n) ==> n
            == NormalCard { suit, rank: rank_at(low + j) })
}

/// From 3 to 11 cards, not all wild, whose cards that are not wild all have one suit and
/// each stand at the place of its rank in one window of ranks, in whatever order the wild
/// cards fill the other places, form a run from the lowest to the highest rank of that
/// window.
pub proof fn lemma_run_window(cards: Seq<Card>, gs: GameState, suit: Suit, low: int)
    requires
        MIN_CARDS_RUN <= cards.len() <= MAX_CARDS_RUN,
        0 <= low,
        low + cards.len() - 1 < NUM_RANKS,
        !all_wild(cards, gs),
        fits_window(cards, gs, suit, low),
    ensures
        run_result(cards, gs) == Ok::<RunInfo, Error>(
            RunInfo::Normal {
                suit,
                low_rank: rank_at(low),
                high_rank: rank_at(low + cards.len() - 1),
            },
        ),
{
    let n = cards.len() as int;
    let i = choose|i: int| 0 <= i < n && non_wild_of(gs, cards[i]) is Some;
    assert(is_anchor(cards, gs, anchor_index(cards, gs))) by {
        let k = first_non_wild_at(cards, gs, i);
        assert(is_anchor(cards, gs, k));
    }
    let k = anchor_index(cards, gs);
    assert(non_wild_of(gs, cards[k]) is Some);
    lemma_rank_index(rank_at(low + k), low + k);
    lemma_rank_index(rank_at(low), low);
    lemma_rank_index(rank_at(low + n - 1), low + n - 1);
    assert(suits_agree(cards, gs, suit));
    assert forall|j: int|
        0 <= j < cards.len() implies (#[trigger] non_wild_of(gs, cards[j]) matches Some(m)
        ==> rank_index(m.rank) == low + j) by {
        lemma_rank_index(rank_at(low + j), low + j);
    }
}

/// Some card at or before position `i` that is not wild is the first such card.
proof fn first_non_wild_at(cards: Seq<Card>, gs: GameState, i: int) -> (k: int)
    requires
        0 <= i < cards.len(),
        non_wild_of(gs, cards[i]) is Some,
    ensures
        is_anchor(cards, gs, k),
    decreases i,
{
    if exists|j: int| 0 <= j < i && #[trigger] non_wild_of(gs, cards[j]) is Some {
        let j = choose|j: int| 0 <= j < i && #[trigger] non_wild_of(gs, cards[j]) is Some;
        first_non_wild_at(cards, gs, j)
    } else {
        i
    }
}

/// Cards of one suit with consecutive ranks, from 3 to 11 of them and given from the lowest
/// rank up, form a run from their lowest to their highest rank, whatever rank is wild.
pub proof fn lemma_ascending_run(suit: Suit, low: int, n: int, gs: GameState)
    requires
        MIN_CARDS_RUN <= n <= MAX_CARDS_RUN,
        0 <= low,
        low + n - 1 < NUM_RANKS,
    ensures
        run_result(ascending_run(suit, low, n), gs) == Ok::<RunInfo, Error>(
            RunInfo::Normal { suit, low_rank: rank_at(low), high_rank: rank_at(low + n - 1) },
        ),
{
    let cards = ascending_run(suit, low, n);
    lemma_rank_index(rank_at(low), low);
    lemma_rank_index(rank_at(low + 1), low + 1);
    assert(!all_wild(cards, gs)) by {
        if all_wild(cards, gs) {
            assert(non_wild_of(gs, cards[0]) is None);
            assert(non_wild_of(gs, cards[1]) is None);
        }
    }
    lemma_run_window(cards, gs, suit, low);
}

/// Fewer than three cards are never a meld, and more than eleven are never a run.
pub proof fn lemma_length_bounds(cards: Seq<Card>, gs: GameState)
    ensures
        cards.len() < MIN_CARDS ==> run_result(cards, gs) == Err::<RunInfo, Error>(
            Error::TooFewCards,
        ) && set_result(cards, gs) == Err::<SetInfo, Error>(Error::TooFewCards),
        cards.len() > MAX_CARDS_RUN ==> run_result(cards, gs) == Err::<RunInfo, Error>(
            Error::TooManyCards,
        ),
{
}

impl Run {
    /// The cards of this run, in the order given.
    pub closed spec fn spec_cards(&self) -> Seq<Card> {
        self.cards@
    }

    /// What this run is.
    pub closed spec fn spec_info(&self) -> RunInfo {
        self.info
    }

    /// Judges whether `cards`, in the order given, form a run in the round of `game_state`.
    pub fn try_from(cards: &[Card], game_state: &GameState) -> (r: Result<Run, Error>)
        ensures
            r matches Ok(run) ==> run_result(cards@, *game_state) == Ok::<RunInfo, Error>(
                run.spec_info(),
            ) && run.spec_cards() == cards@,
            r matches Err(e) ==> run_result(cards@, *game_state) == Err::<RunInfo, Error>(e),
    {
        if cards.len() < MIN_CARDS_RUN {
            return Err(Error::TooFewCards);
        }
        if cards.len() > MAX_CARDS_RUN {
            return Err(Error::TooManyCards);
        }
        let (index, first_non_wild) = match first_non_wild_with_index(cards, game_state) {
            Some(index_and_card) => index_and_card,
            None => {
                return Ok(Run { cards: slice_to_vec(cards), info: RunInfo::AllWilds });
            },
        };
        proof {
            lemma_anchor_unique(cards@, *game_state, index as int);
        }
        let suit = first_non_wild.suit();
        if !all_match_expected_suit(cards, game_state, suit) {
            return Err(Error::NotAllSameSuit);
        }
        let (low_rank, high_rank) = match get_low_high_ranks(
            first_non_wild.rank(),
            index,
            cards.len(),
        ) {
            Some(ranks) => ranks,
            None => return Err(Error::OutOfRange),
        };
        proof {
            lemma_rank_index(low_rank, 0);
            lemma_rank_index(high_rank, rank_index(low_rank) + cards@.len() - 1);
        }
        if !all_match_expected_ranks(cards, game_state, low_rank, high_rank) {
            return Err(Error::NotAllInOrder);
        }
        let info = RunInfo::Normal { suit, low_rank, high_rank };
        Ok(Run { cards: slice_to_vec(cards), info })
    }

    /// The cards of this run, in the order given.
    pub fn cards(&self) -> (r: &[Card])
        ensures
            r@ == self.spec_cards(),
    {
        self.cards.as_slice()
    }

    /// What this run is.
    pub fn info(&self) -> (r: RunInfo)
        ensures
            r == self.spec_info(),
    {
        self.info
    }
}

impl RankSet {
    /// The cards of this set, in the order given.
    pub closed spec fn spec_cards(&self) -> Seq<Card> {
        self.cards@
    }

    /// What this set is.
    pub closed spec fn spec_info(&self) -> SetInfo {
        self.info
    }

    /// Judges whether `cards` form a set in the round of `game_state`.
    pub fn try_from(cards: &[Card], game_state: &GameState) -> (r: Result<RankSet, Error>)
        ensures
            r matches Ok(set) ==> set_result(cards@, *game_state) == Ok::<SetInfo, Error>(
                set.spec_info(),
            ) && set.spec_cards() == cards@,
            r matches Err(e) ==> set_result(cards@, *game_state) == Err::<SetInfo, Error>(e),
    {
        if cards.len() < MIN_CARDS_SET {
            return Err(Error::TooFewCards);
        }
        let first_non_wild = match first_non_wild(cards, game_state) {
            Some(card) => card,
            None => {
                return Ok(RankSet { cards: slice_to_vec(cards), info: SetInfo::AllWilds });
            },
        };
        let rank = first_non_wild.rank();
        if !all_match_expected_rank(cards, game_state, rank) {
            return Err(Error::NotAllSameRank);
        }
        let info = SetInfo::Normal { rank };
        Ok(RankSet { cards: slice_to_vec(cards), info })
    }

    /// The cards of this set, in the order given.
    pub fn cards(&self) -> (r: &[Card])
        ensures
            r@ == self.spec_cards(),
    {
        self.cards.as_slice()
    }

    /// What this set is.
    pub fn info(&self) -> (r: SetInfo)
        ensures
            r == self.spec_info(),
    {
        self.info
    }
}

} // verus!
