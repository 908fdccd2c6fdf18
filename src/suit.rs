use vstd::prelude::*;

verus! {

/// The number of suits.
pub const NUM_SUITS: usize = 5;

/// The five suits, in their declared order.
#[derive(Debug, Clone, Copy, PartialEq, Eq, Structural, PartialOrd, Ord, Hash)]
pub enum Suit {
    Spade,
    Club,
    Heart,
    Diamond,
    Star,
}

/// The one-character token of a suit.
pub open spec fn suit_char(s: Suit) -> char {
    match s {
        Suit::Spade => 'S',
        Suit::Club => 'C',
        Suit::Heart => 'H',
        Suit::Diamond => 'D',
        Suit::Star => 'R',
    }
}

/// The suit whose token is `c`, if any.
pub open spec fn suit_of(c: char) -> Option<Suit> {
    if c == 'S' {
        Some(Suit::Spade)
    } else if c == 'C' {
        Some(Suit::Club)
    } else if c == 'H' {
        Some(Suit::Heart)
    } else if c == 'D' {
        Some(Suit::Diamond)
    } else if c == 'R' {
        Some(Suit::Star)
    } else {
        None
    }
}

/// The suit at position `i` of the declared order (meaningful for `0 <= i < 5`).
pub open spec fn suit_at(i: int) -> Suit {
    if i <= 0 {
        Suit::Spade
    } else if i == 1 {
        Suit::Club
    } else if i == 2 {
        Suit::Heart
    } else if i == 3 {
        Suit::Diamond
    } else {
        Suit::Star
    }
}

impl Suit {
    /// The suit at position `i` of the declared order.
    pub fn at(i: usize) -> (r: Suit)
        requires
            i < NUM_SUITS,
        ensures
            r == suit_at(i as int),
    {
        match i {
            0 => Suit::Spade,
            1 => Suit::Club,
            2 => Suit::Heart,
            3 => Suit::Diamond,
            _ => Suit::Star,
        }
    }

    /// The one-character token of this suit.
    pub fn to_char(&self) -> (r: char)
        ensures
            r == suit_char(*self),
    {
        match self {
            Suit::Spade => 'S',
            Suit::Club => 'C',
            Suit::Heart => 'H',
            Suit::Diamond => 'D',
            Suit::Star => 'R',
        }
    }

    /// The token of this suit, as a string.
    pub fn to_string(&self) -> (r: String)
        ensures
            r@ == seq![suit_char(*self)],
    {
        let mut s = String::new();
        s.push(self.to_char());
        assert(s@ =~= seq![suit_char(*self)]);
        s
    }

    /// Parses a suit from its token.
    pub fn try_from(c: char) -> (r: Option<Suit>)
        ensures
            r == suit_of(c),
            r matches Some(s) ==> suit_char(s) == c,
    {
        match c {
            'S' => Some(Suit::Spade),
            'C' => Some(Suit::Club),
            'H' => Some(Suit::Heart),
            'D' => Some(Suit::Diamond),
            'R' => Some(Suit::Star),
            _ => None,
        }
    }
}

} // verus!
