use vstd::prelude::*;

use rand::rngs::ThreadRng;
use rand::seq::SliceRandom;

use crate::card::{card_score, card_token, deck_card, full_deck, Card, JOKER_SCORE, NUM_JOKERS_IN_DECK};
use crate::game_state::GameState;
use crate::rank::{face_value, lemma_rank_index, Rank, NUM_RANKS};
use crate::score::Score;
use crate::score_group::ScoreGroup;
use crate::suit::NUM_SUITS;
use crate::utils::{decimal_digits, decimal_text};

verus! {

broadcast use vstd::seq_lib::group_to_multiset_ensures;

/// `rand`'s thread-local random number generator, carried through as an opaque value.
#[verifier::external_type_specification]
#[verifier::external_body]
pub struct ExThreadRng(ThreadRng);

/// Relies on `rand::thread_rng`: the random number generator of the calling thread (it
/// panics only if the operating system cannot seed it).
#[verifier::external_body]
fn thread_rng() -> ThreadRng {
    rand::thread_rng()
}

/// Relies on `SliceRandom::shuffle` for slices: it only swaps elements, so the cards stay
/// the same, in a random order.
#[verifier::external_body]
fn shuffle(cards: &mut Vec<Card>, rng: &mut ThreadRng)
    ensures
        final(cards)@.len() == old(cards)@.len(),
        final(cards)@.to_multiset() == old(cards)@.to_multiset(),
{
    cards.shuffle(rng)
}

/// One player's cards and points.
#[derive(Debug, Clone, PartialEq, Eq)]
pub struct PlayerInfo {
    pub hand: Vec<Card>,
    pub score: Score,
}

/// Where a player draws a card from.
#[derive(Debug, Clone, Copy, PartialEq, Eq, Structural)]
pub enum DrawLocation {
    DiscardPile,
    DrawPile,
}

/// What a player does at the end of a turn: discard a card, or discard one and go out with
/// melds.
#[derive(Debug, Clone, PartialEq, Eq)]
pub enum Action {
    Discard(Card),
    GoOut(Card, Vec<ScoreGroup>),
}

/// What a player does on the last turn of a round.
#[derive(Debug, Clone, PartialEq, Eq)]
pub struct EndOfRoundAction {
    pub discard: Card,
    pub go_out: Vec<ScoreGroup>,
    pub remaining: Vec<Card>,
}

/// The card to discard is not in the current player's hand.
#[derive(Debug, Clone, Copy, PartialEq, Eq, Structural, PartialOrd, Ord)]
pub struct Error;

/// A game in progress: the players, whose turn it is, the draw pile and the discard pile.
pub struct Game {
    players: Vec<PlayerInfo>,
    current_player_index: usize,
    first_player_gone_out_index: Option<usize>,
    deck: Vec<Card>,
    discard_pile: Vec<Card>,
    state: GameState,
}

/// The state of a game as values.
pub struct GameView {
    pub players: Seq<PlayerInfo>,
    pub current: int,
    pub gone_out: Option<usize>,
    pub deck: Seq<Card>,
    pub discard_pile: Seq<Card>,
    pub state: GameState,
}

impl View for Game {
    type V = GameView;

    closed spec fn view(&self) -> GameView {
        GameView {
            players: self.players@,
            current: self.current_player_index as int,
            gone_out: self.first_player_gone_out_index,
            deck: self.deck@,
            discard_pile: self.discard_pile@,
            state: self.state,
        }
    }
}

/// The points the cards of `cards` are worth together.
pub open spec fn sum_scores(cards: Seq<Card>) -> nat
    decreases cards.len(),
{
    if cards.len() == 0 {
        0
    } else {
        sum_scores(cards.drop_last()) + card_score(cards.last())
    }
}

/// A full deck, in order.
pub open spec fn full_deck_seq() -> Seq<Card> {
    Seq::new((NUM_SUITS * NUM_RANKS + NUM_JOKERS_IN_DECK) as nat, |i: int| deck_card(i))
}

/// `g` is the first round of `n` players dealt from `deck`: each player in turn takes three
/// cards from the top (the end) of the deck, then one more card starts the discard pile.
pub open spec fn dealt_from(g: GameView, deck: Seq<Card>, n: int) -> bool {
    let len = deck.len() as int;
    &&& g.players.len() == n
    &&& g.current == 0
    &&& g.gone_out is None
    &&& g.state == GameState { wild_rank: Rank::Three }
    &&& forall|p: int|
        0 <= p < n ==> (#[trigger] g.players[p]).hand@ == deck.subrange(len - 3 * (p + 1), len - 3
            * p) && g.players[p].score.0 == 0
    &&& g.discard_pile == seq![deck[len - 3 * n - 1]]
    &&& g.deck == deck.take(len - 3 * n - 1)
}

/// `d` holds the same cards as `e`.
pub open spec fn same_cards(d: Seq<Card>, e: Seq<Card>) -> bool {
    d.to_multiset() == e.to_multiset()
}

/// The tokens of `cards`, separated by commas.
pub open spec fn cards_text(cards: Seq<Card>) -> Seq<char>
    decreases cards.len(),
{
    if cards.len() == 0 {
        Seq::empty()
    } else if cards.len() == 1 {
        card_token(cards[0])
    } else {
        cards_text(cards.drop_last()) + seq![','] + card_token(cards.last())
    }
}

/// The line that describes a player: a tab, the points, then the cards.
pub open spec fn player_text(player: PlayerInfo) -> Seq<char> {
    "\t"@ + decimal_digits(player.score.0 as nat) + " points, cards: "@ + cards_text(player.hand@)
}

/// The tokens of `cards`, separated by commas.
pub fn pretty_cards(cards: &[Card]) -> (r: String)
    ensures
        r@ == cards_text(cards@),
{
    let mut text = String::new();
    let mut i: usize = 0;
    while i < cards.len()
        invariant
            i <= cards@.len(),
            text@ == cards_text(cards@.take(i as int)),
        decreases cards@.len() - i,
    {
        assert(cards@.take(i + 1).drop_last() =~= cards@.take(i as int));
        if i > 0 {
            text.push(',');
        }
        let token = cards[i].to_string();
        text.push_str(token.as_str());
        proof {
            if i == 0 {
                assert(text@ =~= card_token(cards@[0]));
            } else {
                assert(text@ =~= cards_text(cards@.take(i as int)) + seq![','] + card_token(
                    cards@[i as int],
                ));
            }
        }
        i = i + 1;
    }
    assert(cards@.take(i as int) =~= cards@);
    text
}

/// `i` is the first position of `card` in `s`.
pub open spec fn is_first_index(s: Seq<Card>, card: Card, i: int) -> bool {
    &&& 0 <= i < s.len()
    &&& s[i] == card
    &&& forall|j: int| 0 <= j < i ==> s[j] != card
}

/// No card is worth more than a joker.
pub proof fn lemma_card_score_bound(c: Card)
    ensures
        card_score(c) <= JOKER_SCORE,
{
    if let Card::Normal(n) = c {
        lemma_rank_index(n.rank, 0);
    }
}

impl Game {
    /// The players are well formed: there is a current player.
    pub open spec fn wf(&self) -> bool {
        0 <= self@.current < self@.players.len()
    }

    /// A new game of `num_players` players, dealt from a shuffled full deck.
    pub fn new(num_players: usize) -> (r: Game)
        requires
            1 <= num_players,
            3 * num_players < NUM_SUITS * NUM_RANKS + NUM_JOKERS_IN_DECK,
        ensures
            r.wf(),
            exists|d: Seq<Card>|
                same_cards(d, full_deck_seq()) && #[trigger] dealt_from(r@, d, num_players as int),
    {
        let mut deck = full_deck();
        assert(deck@ =~= full_deck_seq());
        let mut rng = thread_rng();
        shuffle(&mut deck, &mut rng);
        let ghost shuffled = deck@;
        let game = Game::with_deck(num_players, deck);
        assert(same_cards(shuffled, full_deck_seq()));
        game
    }

    /// A new game of `num_players` players, dealt from `deck` as it lies.
    pub fn with_deck(num_players: usize, deck: Vec<Card>) -> (r: Game)
        requires
            1 <= num_players,
            3 * num_players < deck@.len(),
        ensures
            r.wf(),
            dealt_from(r@, deck@, num_players as int),
    {
        let ghost given = deck@;
        let mut players: Vec<PlayerInfo> = Vec::new();
        let mut p: usize = 0;
        while p < num_players
            invariant
                p <= num_players,
                players@.len() == p,
                forall|q: int|
                    0 <= q < p ==> (#[trigger] players@[q]).hand@.len() == 0
                        && players@[q].score.0 == 0,
            decreases num_players - p,
        {
            players.push(PlayerInfo::new());
            p = p + 1;
        }
        let mut game = Game {
            players,
            current_player_index: 0,
            first_player_gone_out_index: None,
            deck,
            discard_pile: Vec::new(),
            state: GameState::new(Rank::Three),
        };
        game.deal();
        let top = game.deck.pop().unwrap();
        game.discard_pile.push(top);
        proof {
            let len = given.len() as int;
            let n = num_players as int;
            assert(game@.discard_pile =~= seq![given[len - 3 * n - 1]]);
            assert(game@.deck =~= given.take(len - 3 * n - 1));
        }
        game
    }

    /// Gives each player, in turn, as many cards from the top of the deck as the round asks.
    fn deal(&mut self)
        requires
            old(self)@.state == (GameState { wild_rank: Rank::Three }),
            old(self)@.deck.len() >= 3 * old(self)@.players.len(),
            forall|q: int|
                0 <= q < old(self)@.players.len() ==> (#[trigger] old(self)@.players[q]).hand@.len()
                    == 0,
        ensures
            final(self)@.players.len() == old(self)@.players.len(),
            final(self)@.current == old(self)@.current,
            final(self)@.gone_out == old(self)@.gone_out,
            final(self)@.state == old(self)@.state,
            final(self)@.discard_pile == old(self)@.discard_pile,
            final(self)@.deck == old(self)@.deck.take(
                old(self)@.deck.len() - 3 * old(self)@.players.len(),
            ),
            forall|q: int|
                0 <= q < old(self)@.players.len() ==> (#[trigger] final(self)@.players[q]).hand@
                    == old(self)@.deck.subrange(
                    old(self)@.deck.len() - 3 * (q + 1),
                    old(self)@.deck.len() - 3 * q,
                ) && final(self)@.players[q].score == old(self)@.players[q].score,
    {
        let ghost start = self@;
        let num_cards = self.state.wild_rank().number();
        let mut p: usize = 0;
        while p < self.players.len()
            invariant
                num_cards == 3,
                p <= self@.players.len() == start.players.len(),
                self@.current == start.current,
                self@.gone_out == start.gone_out,
                self@.state == start.state,
                self@.discard_pile == start.discard_pile,
                start.deck.len() >= 3 * start.players.len(),
                forall|q: int|
                    0 <= q < start.players.len() ==> (#[trigger] start.players[q]).hand@.len()
                        == 0,
                self@.deck == start.deck.take(start.deck.len() - 3 * p),
                forall|q: int|
                    0 <= q < p ==> (#[trigger] self@.players[q]).hand@ == start.deck.subrange(
                        start.deck.len() - 3 * (q + 1),
                        start.deck.len() - 3 * q,
                    ) && self@.players[q].score == start.players[q].score,
                forall|q: int|
                    p <= q < start.players.len() ==> #[trigger] self@.players[q]
                        == start.players[q],
            decreases start.players.len() - p,
        {
            let index = self.deck.len() - num_cards;
            let mut taken = self.deck.split_off(index);
            self.players[p].hand.append(&mut taken);
            proof {
                assert(self@.players[p as int].hand@ =~= start.deck.subrange(
                    start.deck.len() - 3 * (p + 1),
                    start.deck.len() - 3 * p,
                ));
                assert(self@.deck =~= start.deck.take(start.deck.len() - 3 * (p + 1)));
            }
            p = p + 1;
        }
    }

    /// Whether there is a current player.
    pub fn has_current_player(&self) -> (r: bool)
        ensures
            r == self.wf(),
    {
        self.current_player_index < self.players.len()
    }

    /// Whether the current player can draw from `location`: the pile holds a card (the draw
    /// pile may be refilled from the discard pile but its top card).
    pub fn can_draw(&self, location: DrawLocation) -> (r: bool)
        ensures
            r == (self.wf() && match location {
                DrawLocation::DrawPile => self@.deck.len() > 0 || self@.discard_pile.len() >= 2,
                DrawLocation::DiscardPile => self@.discard_pile.len() > 0,
            }),
    {
        if self.current_player_index >= self.players.len() {
            return false;
        }
        match location {
            DrawLocation::DrawPile => self.deck.len() > 0 || self.discard_pile.len() >= 2,
            DrawLocation::DiscardPile => self.discard_pile.len() > 0,
        }
    }

    /// The player whose turn it is.
    pub fn cur_player(&self) -> (r: &PlayerInfo)
        requires
            self.wf(),
        ensures
            *r == self@.players[self@.current],
    {
        &self.players[self.current_player_index]
    }

    /// The player whose turn it is, to change.
    pub fn cur_player_mut(&mut self) -> (r: &mut PlayerInfo)
        requires
            old(self).wf(),
        ensures
            *r == old(self)@.players[old(self)@.current],
            final(self)@.players == old(self)@.players.update(old(self)@.current, *final(r)),
            final(self)@.current == old(self)@.current,
            final(self)@.gone_out == old(self)@.gone_out,
            final(self)@.deck == old(self)@.deck,
            final(self)@.discard_pile == old(self)@.discard_pile,
            final(self)@.state == old(self)@.state,
    {
        &mut self.players[self.current_player_index]
    }

    /// Lines that describe the game: the round, each player, the discard pile and the deck.
    pub fn debug_strings(&self) -> (r: Vec<String>)
        ensures
            r@.len() == self@.players.len() + 4,
            r@[0]@ == "Round: "@ + decimal_digits(face_value(self@.state.wild_rank)) + " cards"@,
            r@[1]@ == "PlayerInfos:"@,
            forall|p: int|
                0 <= p < self@.players.len() ==> (#[trigger] r@[p + 2])@ == player_text(
                    self@.players[p],
                ),
            r@[self@.players.len() as int + 2]@ == "Discard Pile: "@ + cards_text(self@.discard_pile),
            r@[self@.players.len() as int + 3]@ == "Deck: "@ + cards_text(self@.deck),
    {
        let mut strings: Vec<String> = Vec::new();
        let mut round = "Round: ".to_owned();
        round.push_str(decimal_text(self.state.wild_rank().number() as u64).as_str());
        round.push_str(" cards");
        strings.push(round);
        strings.push("PlayerInfos:".to_owned());
        let mut p: usize = 0;
        while p < self.players.len()
            invariant
                p <= self@.players.len(),
                strings@.len() == p + 2,
                strings@[0]@ == "Round: "@ + decimal_digits(face_value(self@.state.wild_rank))
                    + " cards"@,
                strings@[1]@ == "PlayerInfos:"@,
                forall|q: int|
                    0 <= q < p ==> (#[trigger] strings@[q + 2])@ == player_text(self@.players[q]),
            decreases self@.players.len() - p,
        {
            strings.push(self.players[p].debug_string());
            p = p + 1;
        }
        let mut discard = "Discard Pile: ".to_owned();
        discard.push_str(pretty_cards(self.discard_pile.as_slice()).as_str());
        strings.push(discard);
        let mut deck = "Deck: ".to_owned();
        deck.push_str(pretty_cards(self.deck.as_slice()).as_str());
        strings.push(deck);
        strings
    }

    /// The state of the round being played.
    pub fn state(&self) -> (r: GameState)
        ensures
            r == self@.state,
    {
        self.state
    }

    /// Takes the top card of the draw pile. When the draw pile is empty, the discard pile but
    /// its top card is shuffled into a new draw pile first.
    fn next_card_from_deck(&mut self) -> (r: Card)
        requires
            old(self)@.deck.len() > 0 || old(self)@.discard_pile.len() >= 2,
        ensures
            final(self)@.players == old(self)@.players,
            final(self)@.current == old(self)@.current,
            final(self)@.gone_out == old(self)@.gone_out,
            final(self)@.state == old(self)@.state,
            old(self)@.deck.len() > 0 ==> r == old(self)@.deck.last() && final(self)@.deck
                == old(self)@.deck.drop_last() && final(self)@.discard_pile
                == old(self)@.discard_pile,
            old(self)@.deck.len() == 0 ==> final(self)@.discard_pile == seq![
                old(self)@.discard_pile.last(),
            ] && same_cards(final(self)@.deck.push(r), old(self)@.discard_pile.drop_last()),
    {
        let ghost start = self@;
        if let Some(card) = self.deck.pop() {
            return card;
        }
        let mut bottom_discarded_cards = self.discard_pile.split_off(self.discard_pile.len() - 1);
        std::mem::swap(&mut self.discard_pile, &mut bottom_discarded_cards);
        let mut rng = thread_rng();
        shuffle(&mut bottom_discarded_cards, &mut rng);
        self.deck = bottom_discarded_cards;
        let ghost shuffled = self@.deck;
        let card = self.deck.pop().unwrap();
        proof {
            assert(self@.deck.push(card) =~= shuffled);
            assert(self@.discard_pile =~= seq![start.discard_pile.last()]);
            assert(start.discard_pile.drop_last() =~= start.discard_pile.subrange(
                0,
                start.discard_pile.len() - 1,
            ));
        }
        card
    }

    /// Takes the top card of the discard pile.
    fn next_card_from_discard_pile(&mut self) -> (r: Card)
        requires
            old(self)@.discard_pile.len() > 0,
        ensures
            r == old(self)@.discard_pile.last(),
            final(self)@ == (GameView { discard_pile: old(self)@.discard_pile.drop_last(), ..old(self)@ }),
    {
        self.discard_pile.pop().unwrap()
    }

    /// The current player draws a card from `location` into the hand.
    pub fn draw(&mut self, location: DrawLocation) -> (r: Card)
        requires
            old(self).wf(),
            location == DrawLocation::DrawPile ==> old(self)@.deck.len() > 0
                || old(self)@.discard_pile.len() >= 2,
            location == DrawLocation::DiscardPile ==> old(self)@.discard_pile.len() > 0,
        ensures
            final(self).wf(),
            final(self)@.players.len() == old(self)@.players.len(),
            final(self)@.current == old(self)@.current,
            forall|q: int|
                0 <= q < old(self)@.players.len() && q != old(self)@.current
                    ==> #[trigger] final(self)@.players[q] == old(self)@.players[q],
            final(self)@.players[old(self)@.current].hand@ == old(self)@.players[old(self)@.current].hand@.push(r),
            final(self)@.players[old(self)@.current].score == old(self)@.players[old(self)@.current].score,
            location == DrawLocation::DiscardPile ==> r == old(self)@.discard_pile.last()
                && final(self)@.discard_pile == old(self)@.discard_pile.drop_last()
                && final(self)@.deck == old(self)@.deck,
            location == DrawLocation::DrawPile && old(self)@.deck.len() > 0 ==> r == old(self)@.deck.last() && final(self)@.deck == old(self)@.deck.drop_last()
                && final(self)@.discard_pile == old(self)@.discard_pile,
            location == DrawLocation::DrawPile && old(self)@.deck.len() == 0
                ==> final(self)@.discard_pile == seq![old(self)@.discard_pile.last()]
                && same_cards(final(self)@.deck.push(r), old(self)@.discard_pile.drop_last()),
    {
        let card = match location {
            DrawLocation::DrawPile => self.next_card_from_deck(),
            DrawLocation::DiscardPile => self.next_card_from_discard_pile(),
        };
        self.cur_player_mut().hand.push(card);
        card
    }

    /// The current player discards `card` from the hand onto the discard pile; an error if
    /// the hand does not hold it.
    pub fn discard(&mut self, card: Card) -> (r: Result<(), Error>)
        requires
            old(self).wf(),
        ensures
            final(self).wf(),
            r is Err <==> !old(self)@.players[old(self)@.current].hand@.contains(card),
            r is Err ==> final(self)@ == old(self)@,
            r is Ok ==> exists|i: int|
                #[trigger] is_first_index(old(self)@.players[old(self)@.current].hand@, card, i)
                    && final(self)@.players[old(self)@.current].hand@ == old(
                    self)@.players[old(self)@.current].hand@.remove(i),
            r is Ok ==> final(self)@.discard_pile == old(self)@.discard_pile.push(card),
            r is Ok ==> final(self)@.players[old(self)@.current].score == old(self)@.players[old(self)@.current].score,
            r is Ok ==> forall|q: int|
                0 <= q < old(self)@.players.len() && q != old(self)@.current
                    ==> #[trigger] final(self)@.players[q] == old(self)@.players[q],
            r is Ok ==> final(self)@.players.len() == old(self)@.players.len() && final(self)@.current == old(self)@.current && final(self)@.deck == old(self)@.deck,
    {
        let hand = &self.cur_player().hand;
        let mut index: usize = 0;
        while index < hand.len()
            invariant
                index <= hand@.len(),
                forall|j: int| 0 <= j < index ==> hand@[j] != card,
            ensures
                index <= hand@.len(),
                index < hand@.len() ==> hand@[index as int] == card,
                forall|j: int| 0 <= j < index ==> hand@[j] != card,
            decreases hand@.len() - index,
        {
            if hand[index] == card {
                break;
            }
            index = index + 1;
        }
        if index == hand.len() {
            return Err(Error);
        }
        assert(is_first_index(hand@, card, index as int));
        let taken = self.cur_player_mut().hand.remove(index);
        self.discard_pile.push(taken);
        Ok(())
    }

    /// The current player ends a turn with `action`.
    pub fn turn(&mut self, action: Action)
        requires
            old(self).wf(),
        ensures
            final(self).wf(),
            final(self)@.discard_pile == old(self)@.discard_pile.push(action.discard_card()),
            final(self)@.gone_out == (match action {
                Action::GoOut(..) => Some(old(self)@.current as usize),
                Action::Discard(_) => old(self)@.gone_out,
            }),
            final(self)@.players == old(self)@.players,
            final(self)@.current == old(self)@.current,
            final(self)@.deck == old(self)@.deck,
            final(self)@.state == old(self)@.state,
    {
        let discard = action.discard();
        self.discard_pile.push(discard);
        if let Action::GoOut(_, _) = action {
            self.first_player_gone_out_index = Some(self.current_player_index);
        }
    }

    /// The current player plays the last turn of the round: discards, and scores the cards
    /// left in hand.
    pub fn last_turn(&mut self, action: EndOfRoundAction)
        requires
            old(self).wf(),
            old(self)@.players[old(self)@.current].score.0 + JOKER_SCORE * action.remaining@.len()
                <= u32::MAX,
        ensures
            final(self).wf(),
            final(self)@.discard_pile == old(self)@.discard_pile.push(action.discard),
            final(self)@.players == old(self)@.players.update(
                old(self)@.current,
                PlayerInfo {
                    score: Score(
                        (old(self)@.players[old(self)@.current].score.0 + sum_scores(
                            action.remaining@,
                        )) as u32,
                    ),
                    ..old(self)@.players[old(self)@.current]
                },
            ),
            final(self)@.current == old(self)@.current,
            final(self)@.gone_out == old(self)@.gone_out,
            final(self)@.deck == old(self)@.deck,
            final(self)@.state == old(self)@.state,
    {
        let discard = action.discard;
        self.discard_pile.push(discard);
        let remaining = &action.remaining;
        let mut points = Score::new();
        let mut i: usize = 0;
        while i < remaining.len()
            invariant
                i <= remaining@.len(),
                points.0 == sum_scores(remaining@.take(i as int)),
                points.0 <= JOKER_SCORE * i,
                JOKER_SCORE * remaining@.len() <= u32::MAX,
            decreases remaining@.len() - i,
        {
            assert(remaining@.take(i + 1).drop_last() =~= remaining@.take(i as int));
            assert(remaining@.take(i + 1).last() == remaining@[i as int]);
            proof {
                lemma_card_score_bound(remaining@[i as int]);
            }
            let card_points = remaining[i].score();
            assert(points.0 + card_points.0 <= u32::MAX);
            points = points + card_points;
            i = i + 1;
        }
        assert(remaining@.take(i as int) =~= remaining@);
        let index = self.current_player_index;
        self.players[index].score = self.players[index].score + points;
    }
}

impl Action {
    /// The card this action discards.
    pub open spec fn discard_card(&self) -> Card {
        match self {
            Action::Discard(card) => *card,
            Action::GoOut(card, _) => *card,
        }
    }

    /// The card this action discards.
    pub fn discard(&self) -> (r: Card)
        ensures
            r == self.discard_card(),
    {
        match self {
            Action::Discard(discard) => *discard,
            Action::GoOut(discard, _) => *discard,
        }
    }
}

impl PlayerInfo {
    /// A line that describes this player: points and cards.
    pub fn debug_string(&self) -> (r: String)
        ensures
            r@ == player_text(*self),
    {
        let mut text = "\t".to_owned();
        text.push_str(decimal_text(self.score.0 as u64).as_str());
        text.push_str(" points, cards: ");
        text.push_str(pretty_cards(self.hand.as_slice()).as_str());
        text
    }

    /// A player with no cards and no points.
    pub fn new() -> (r: PlayerInfo)
        ensures
            r.hand@.len() == 0,
            r.score.0 == 0,
    {
        PlayerInfo { hand: Vec::new(), score: Score::new() }
    }
}

} // verus!
