use vstd::prelude::*;

use crate::card::{card_of, Card};
use crate::utils::{chars_of, string_of};

verus! {

/// Whether `c` has the Unicode `White_Space` property.
pub uninterp spec fn white_space(c: char) -> bool;

/// Relies on `char::is_whitespace`: whether the character has the Unicode `White_Space`
/// property, which depends on the character alone.
#[verifier::external_body]
fn is_whitespace(c: char) -> (r: bool)
    ensures
        r == white_space(c),
{
    c.is_whitespace()
}

/// `t` without its leading white space.
pub open spec fn trim_start(t: Seq<char>) -> Seq<char>
    decreases t.len(),
{
    if t.len() > 0 && white_space(t[0]) {
        trim_start(t.drop_first())
    } else {
        t
    }
}

/// `t` without its trailing white space.
pub open spec fn trim_end(t: Seq<char>) -> Seq<char>
    decreases t.len(),
{
    if t.len() > 0 && white_space(t.last()) {
        trim_end(t.drop_last())
    } else {
        t
    }
}

/// `t` without leading and trailing white space.
pub open spec fn trim(t: Seq<char>) -> Seq<char> {
    trim_end(trim_start(t))
}

/// The pieces of `t` between commas, in order; as many as there are commas, plus one.
pub open spec fn split_commas(t: Seq<char>) -> Seq<Seq<char>>
    decreases t.len(),
{
    if t.len() == 0 {
        seq![Seq::empty()]
    } else {
        let pieces = split_commas(t.drop_last());
        if t.last() == ',' {
            pieces.push(Seq::empty())
        } else {
            pieces.update(pieces.len() - 1, pieces.last().push(t.last()))
        }
    }
}

/// The cards named by `fields`, each trimmed; `None` if any names no card.
pub open spec fn cards_of(fields: Seq<Seq<char>>) -> Option<Seq<Card>>
    decreases fields.len(),
{
    if fields.len() == 0 {
        Some(Seq::empty())
    } else {
        match (cards_of(fields.drop_last()), card_of(trim(fields.last()))) {
            (Some(cards), Some(card)) => Some(cards.push(card)),
            _ => None,
        }
    }
}

/// The cards of a hand written as `t`: card tokens between commas, each with optional white
/// space around it; white space alone is the empty hand.
pub open spec fn hand_of(t: Seq<char>) -> Option<Seq<Card>> {
    let u = trim(t);
    if u.len() == 0 {
        Some(Seq::empty())
    } else {
        cards_of(split_commas(u))
    }
}

/// The bounds of `chars[from..to]` without its leading and trailing white space.
fn trim_bounds(chars: &Vec<char>, from: usize, to: usize) -> (r: (usize, usize))
    requires
        from <= to <= chars@.len(),
    ensures
        from <= r.0 <= r.1 <= to,
        chars@.subrange(r.0 as int, r.1 as int) == trim(chars@.subrange(from as int, to as int)),
{
    let mut lo: usize = from;
    while lo < to && is_whitespace(chars[lo])
        invariant
            from <= lo <= to <= chars@.len(),
            trim_start(chars@.subrange(from as int, to as int)) == trim_start(
                chars@.subrange(lo as int, to as int),
            ),
        decreases to - lo,
    {
        assert(chars@.subrange(lo as int, to as int).drop_first() =~= chars@.subrange(
            lo + 1,
            to as int,
        ));
        lo = lo + 1;
    }
    let mut hi: usize = to;
    while hi > lo && is_whitespace(chars[hi - 1])
        invariant
            from <= lo <= hi <= to <= chars@.len(),
            trim_start(chars@.subrange(from as int, to as int)) == chars@.subrange(
                lo as int,
                to as int,
            ),
            trim_end(chars@.subrange(lo as int, to as int)) == trim_end(
                chars@.subrange(lo as int, hi as int),
            ),
        decreases hi - lo,
    {
        assert(chars@.subrange(lo as int, hi as int).drop_last() =~= chars@.subrange(
            lo as int,
            hi - 1,
        ));
        hi = hi - 1;
    }
    (lo, hi)
}

/// The card named by `chars[from..to]` once trimmed.
fn parse_field(chars: &Vec<char>, from: usize, to: usize) -> (r: Option<Card>)
    requires
        from <= to <= chars@.len(),
    ensures
        r == card_of(trim(chars@.subrange(from as int, to as int))),
{
    let (lo, hi) = trim_bounds(chars, from, to);
    let token = string_of(chars, lo, hi);
    Card::try_from(token.as_str())
}

/// The cards a player holds.
#[derive(Debug, Clone, PartialEq, Eq, PartialOrd, Ord)]
pub struct Hand {
    pub cards: Vec<Card>,
}

impl View for Hand {
    type V = Seq<Card>;

    open spec fn view(&self) -> Seq<Card> {
        self.cards@
    }
}

impl Hand {
    pub fn new(cards: Vec<Card>) -> (r: Hand)
        ensures
            r@ == cards@,
    {
        Hand { cards }
    }

    pub fn cards(&self) -> (r: &[Card])
        ensures
            r@ == self@,
    {
        self.cards.as_slice()
    }

    /// Parses a hand from comma-separated card tokens, such as "10H, QD"; the empty string
    /// is the empty hand, and a trailing comma is refused.
    pub fn try_from(string: &str) -> (r: Option<Hand>)
        ensures
            r is Some <==> hand_of(string@) is Some,
            r matches Some(h) ==> hand_of(string@) == Some(h@),
    {
        let chars = chars_of(string);
        let (lo, hi) = trim_bounds(&chars, 0, chars.len());
        assert(chars@.subrange(0, chars@.len() as int) =~= string@);
        if lo == hi {
            return Some(Hand::new(Vec::new()));
        }
        let ghost u = chars@.subrange(lo as int, hi as int);
        let ghost mut done: Seq<Seq<char>> = Seq::empty();
        let mut cards: Vec<Card> = Vec::new();
        let mut ok = true;
        let mut start: usize = lo;
        let mut i: usize = lo;
        assert(chars@.subrange(lo as int, lo as int) =~= Seq::<char>::empty());
        assert(split_commas(Seq::<char>::empty()) =~= done.push(Seq::<char>::empty()));
        while i < hi
            invariant
                lo <= start <= i <= hi <= chars@.len(),
                u == chars@.subrange(lo as int, hi as int),
                split_commas(chars@.subrange(lo as int, i as int)) == done.push(
                    chars@.subrange(start as int, i as int),
                ),
                ok ==> cards_of(done) == Some(cards@),
                !ok ==> cards_of(done) is None,
            decreases hi - i,
        {
            let ghost before = chars@.subrange(lo as int, i as int);
            assert(chars@.subrange(lo as int, i + 1).drop_last() =~= before);
            if chars[i] == ',' {
                let field = parse_field(&chars, start, i);
                proof {
                    let cur = chars@.subrange(start as int, i as int);
                    assert(done.push(cur).drop_last() =~= done);
                    done = done.push(cur);
                    assert(chars@.subrange((i + 1) as int, (i + 1) as int) =~= Seq::<char>::empty());
                }
                match field {
                    Some(card) => {
                        if ok {
                            cards.push(card);
                        }
                    },
                    None => {
                        ok = false;
                    },
                }
                start = i + 1;
            } else {
                proof {
                    let cur = chars@.subrange(start as int, i as int);
                    assert(cur.push(chars@[i as int]) =~= chars@.subrange(start as int, i + 1));
                    assert(done.push(cur).update(done.len() as int, cur.push(chars@[i as int]))
                        =~= done.push(chars@.subrange(start as int, i + 1)));
                }
            }
            i = i + 1;
        }
        let last = parse_field(&chars, start, hi);
        proof {
            let cur = chars@.subrange(start as int, hi as int);
            assert(chars@.subrange(lo as int, i as int) =~= u);
            assert(done.push(cur).drop_last() =~= done);
        }
        match last {
            Some(card) => {
                if ok {
                    cards.push(card);
                    Some(Hand::new(cards))
                } else {
                    None
                }
            },
            None => None,
        }
    }
}

} // verus!
