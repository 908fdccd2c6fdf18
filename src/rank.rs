use vstd::prelude::*;

use crate::score::Score;
use crate::utils::chars_of;

verus! {

/// The number of ranks.
pub const NUM_RANKS: usize = 11;

/// The eleven ranks, from `Three` up to `King`.
#[derive(Debug, Clone, Copy, PartialEq, Eq, Structural, PartialOrd, Ord, Hash)]
pub enum Rank {
    Three,
    Four,
    Five,
    Six,
    Seven,
    Eight,
    Nine,
    Ten,
    Jack,
    Queen,
    King,
}

/// The position of a rank in the order `Three` (0) .. `King` (10).
pub open spec fn rank_index(r: Rank) -> nat {
    match r {
        Rank::Three => 0,
        Rank::Four => 1,
        Rank::Five => 2,
        Rank::Six => 3,
        Rank::Seven => 4,
        Rank::Eight => 5,
        Rank::Nine => 6,
        Rank::Ten => 7,
        Rank::Jack => 8,
        Rank::Queen => 9,
        Rank::King => 10,
    }
}

/// The rank at position `i` (meaningful for `0 <= i < 11`).
pub open spec fn rank_at(i: int) -> Rank {
    if i <= 0 {
        Rank::Three
    } else if i == 1 {
        Rank::Four
    } else if i == 2 {
        Rank::Five
    } else if i == 3 {
        Rank::Six
    } else if i == 4 {
        Rank::Seven
    } else if i == 5 {
        Rank::Eight
    } else if i == 6 {
        Rank::Nine
    } else if i == 7 {
        Rank::Ten
    } else if i == 8 {
        Rank::Jack
    } else if i == 9 {
        Rank::Queen
    } else {
        Rank::King
    }
}

/// Face value of a rank: 3 for `Three` up to 13 for `King`.
pub open spec fn face_value(r: Rank) -> nat {
    rank_index(r) + 3
}

/// The rank `offset` steps from `r` (negative steps go down), if it exists.
pub open spec fn rank_step(r: Rank, offset: int) -> Option<Rank> {
    let i = rank_index(r) + offset;
    if 0 <= i < NUM_RANKS {
        Some(rank_at(i))
    } else {
        None
    }
}

/// The canonical token of a rank.
pub open spec fn rank_token(r: Rank) -> Seq<char> {
    match r {
        Rank::Three => seq!['3'],
        Rank::Four => seq!['4'],
        Rank::Five => seq!['5'],
        Rank::Six => seq!['6'],
        Rank::Seven => seq!['7'],
        Rank::Eight => seq!['8'],
        Rank::Nine => seq!['9'],
        Rank::Ten => seq!['1', '0'],
        Rank::Jack => seq!['J'],
        Rank::Queen => seq!['Q'],
        Rank::King => seq!['K'],
    }
}

/// The rank whose token is `t`, if any.
pub open spec fn rank_of(t: Seq<char>) -> Option<Rank> {
    if t.len() == 1 {
        let c = t[0];
        if c == '3' {
            Some(Rank::Three)
        } else if c == '4' {
            Some(Rank::Four)
        } else if c == '5' {
            Some(Rank::Five)
        } else if c == '6' {
            Some(Rank::Six)
        } else if c == '7' {
            Some(Rank::Seven)
        } else if c == '8' {
            Some(Rank::Eight)
        } else if c == '9' {
            Some(Rank::Nine)
        } else if c == 'J' {
            Some(Rank::Jack)
        } else if c == 'Q' {
            Some(Rank::Queen)
        } else if c == 'K' {
            Some(Rank::King)
        } else {
            None
        }
    } else if t.len() == 2 && t[0] == '1' && t[1] == '0' {
        Some(Rank::Ten)
    } else {
        None
    }
}

/// Positions and ranks correspond one to one.
pub proof fn lemma_rank_index(r: Rank, i: int)
    ensures
        rank_index(r) < NUM_RANKS,
        rank_at(rank_index(r) as int) == r,
        0 <= i < NUM_RANKS ==> rank_index(rank_at(i)) == i,
{
}

/// A token names exactly one rank: parsing the token of `r` gives `r` back, and whatever
/// parses to `r` is its token.
pub proof fn lemma_rank_token(r: Rank, t: Seq<char>)
    ensures
        rank_of(rank_token(r)) == Some(r),
        rank_of(t) == Some(r) ==> t == rank_token(r),
{
    if rank_of(t) == Some(r) {
        if t.len() == 1 {
            assert(t =~= seq![t[0]]);
        } else {
            assert(t =~= seq![t[0], t[1]]);
        }
    }
}

impl Rank {
    /// The rank at position `i` of the order.
    pub fn at(i: usize) -> (r: Rank)
        requires
            i < NUM_RANKS,
        ensures
            r == rank_at(i as int),
            rank_index(r) == i,
    {
        match i {
            0 => Rank::Three,
            1 => Rank::Four,
            2 => Rank::Five,
            3 => Rank::Six,
            4 => Rank::Seven,
            5 => Rank::Eight,
            6 => Rank::Nine,
            7 => Rank::Ten,
            8 => Rank::Jack,
            9 => Rank::Queen,
            _ => Rank::King,
        }
    }

    /// The position of this rank in the order.
    pub fn index(&self) -> (r: usize)
        ensures
            r == rank_index(*self),
            r < NUM_RANKS,
    {
        match self {
            Rank::Three => 0,
            Rank::Four => 1,
            Rank::Five => 2,
            Rank::Six => 3,
            Rank::Seven => 4,
            Rank::Eight => 5,
            Rank::Nine => 6,
            Rank::Ten => 7,
            Rank::Jack => 8,
            Rank::Queen => 9,
            Rank::King => 10,
        }
    }

    /// The face value: 3 for `Three` up to 13 for `King`.
    pub fn number(&self) -> (r: usize)
        ensures
            r == face_value(*self),
    {
        self.index() + 3
    }

    /// The score of a card of this rank, equal to its face value.
    pub fn score(&self) -> (r: Score)
        ensures
            r.0 == face_value(*self),
    {
        Score((self.index() + 3) as u32)
    }

    /// The rank one step up; `None` for `King`.
    pub fn next(&self) -> (r: Option<Rank>)
        ensures
            r == rank_step(*self, 1),
    {
        self.plus(1)
    }

    /// The rank `offset` steps up; `None` past `King`.
    pub fn plus(&self, offset: usize) -> (r: Option<Rank>)
        ensures
            r == rank_step(*self, offset as int),
    {
        let i = self.index();
        if offset < NUM_RANKS - i {
            Some(Rank::at(i + offset))
        } else {
            None
        }
    }

    /// The rank `offset` steps down; `None` below `Three`.
    pub fn minus(&self, offset: usize) -> (r: Option<Rank>)
        ensures
            r == rank_step(*self, -offset),
    {
        let i = self.index();
        if offset <= i {
            Some(Rank::at(i - offset))
        } else {
            None
        }
    }

    /// Parses a rank from its token ("3" .. "10", "J", "Q", "K").
    pub fn try_from(string: &str) -> (r: Option<Rank>)
        ensures
            r == rank_of(string@),
    {
        let chars = chars_of(string);
        if chars.len() == 1 {
            match chars[0] {
                '3' => Some(Rank::Three),
                '4' => Some(Rank::Four),
                '5' => Some(Rank::Five),
                '6' => Some(Rank::Six),
                '7' => Some(Rank::Seven),
                '8' => Some(Rank::Eight),
                '9' => Some(Rank::Nine),
                'J' => Some(Rank::Jack),
                'Q' => Some(Rank::Queen),
                'K' => Some(Rank::King),
                _ => None,
            }
        } else if chars.len() == 2 && chars[0] == '1' && chars[1] == '0' {
            Some(Rank::Ten)
        } else {
            None
        }
    }

    /// The canonical token of this rank.
    pub fn to_string(&self) -> (r: String)
        ensures
            r@ == rank_token(*self),
    {
        let mut s = String::new();
        match self {
            Rank::Ten => {
                s.push('1');
                s.push('0');
            },
            Rank::Three => s.push('3'),
            Rank::Four => s.push('4'),
            Rank::Five => s.push('5'),
            Rank::Six => s.push('6'),
            Rank::Seven => s.push('7'),
            Rank::Eight => s.push('8'),
            Rank::Nine => s.push('9'),
            Rank::Jack => s.push('J'),
            Rank::Queen => s.push('Q'),
            Rank::King => s.push('K'),
        }
        assert(s@ =~= rank_token(*self));
        s
    }
}

} // verus!
