use vstd::prelude::*;

verus! {

/// The four suits; each has a fixed role in the dungeon.
#[derive(Clone, Copy, Debug, PartialEq, Eq, Structural)]
pub enum Suit {
    Spades,
    Clubs,
    Diamonds,
    Hearts,
}

/// The thirteen ranks of a French deck.
#[derive(Clone, Copy, Debug, PartialEq, Eq, Structural)]
pub enum Rank {
    Two,
    Three,
    Four,
    Five,
    Six,
    Seven,
    Eight,
    Nine,
    Ten,
    Jack,
    Queen,
    King,
    Ace,
}

/// An immutable playing card.
#[derive(Clone, Copy, Debug, PartialEq, Eq, Structural)]
pub struct Card {
    pub rank: Rank,
    pub suit: Suit,
}

/// Spades and Clubs are monsters.
pub open spec fn is_monster(s: Suit) -> bool {
    s == Suit::Spades || s == Suit::Clubs
}

/// Ranks two to ten, the only ones the red suits hold in the dungeon.
pub open spec fn is_numeric(r: Rank) -> bool {
    !(r == Rank::Jack || r == Rank::Queen || r == Rank::King || r == Rank::Ace)
}

/// Numeric ranks count their face value; Jack to Ace count 11 to 14.
pub open spec fn rank_weight(r: Rank) -> u8 {
    match r {
        Rank::Two => 2,
        Rank::Three => 3,
        Rank::Four => 4,
        Rank::Five => 5,
        Rank::Six => 6,
        Rank::Seven => 7,
        Rank::Eight => 8,
        Rank::Nine => 9,
        Rank::Ten => 10,
        Rank::Jack => 11,
        Rank::Queen => 12,
        Rank::King => 13,
        Rank::Ace => 14,
    }
}

pub open spec fn card_weight(c: Card) -> u8 {
    rank_weight(c.rank)
}

/// The game weight of a card, which depends on its rank alone.
pub fn weight(card: &Card) -> (r: u8)
    ensures
        r == card_weight(*card),
        2 <= r <= 14,
{
    match card.rank {
        Rank::Two => 2,
        Rank::Three => 3,
        Rank::Four => 4,
        Rank::Five => 5,
        Rank::Six => 6,
        Rank::Seven => 7,
        Rank::Eight => 8,
        Rank::Nine => 9,
        Rank::Ten => 10,
        Rank::Jack => 11,
        Rank::Queen => 12,
        Rank::King => 13,
        Rank::Ace => 14,
    }
}

impl Card {
    pub fn new(rank: Rank, suit: Suit) -> (r: Card)
        ensures
            r.rank == rank,
            r.suit == suit,
    {
        Card { rank, suit }
    }

    pub fn is_monster(&self) -> (r: bool)
        ensures
            r == is_monster(self.suit),
    {
        match self.suit {
            Suit::Spades | Suit::Clubs => true,
            _ => false,
        }
    }
}

} // verus!
