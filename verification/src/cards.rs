//! Playing cards: ranks, suits, and the standard deck of fifty-two.

use crate::shuffle::shuffle_cards;
use vstd::prelude::*;
use vstd::seq_lib::to_multiset_len;

verus! {

/// The thirteen ranks, Ace low.
#[derive(Debug, Copy, Clone, PartialEq, Eq, PartialOrd, Ord, Structural)]
pub enum Rank {
    Ace,
    R2,
    R3,
    R4,
    R5,
    R6,
    R7,
    R8,
    R9,
    R10,
    Jack,
    Queen,
    King,
}

impl Rank {
    /// The number of a rank: 1 for the Ace up to 13 for the King.
    pub open spec fn spec_value(self) -> int {
        match self {
            Rank::Ace => 1,
            Rank::R2 => 2,
            Rank::R3 => 3,
            Rank::R4 => 4,
            Rank::R5 => 5,
            Rank::R6 => 6,
            Rank::R7 => 7,
            Rank::R8 => 8,
            Rank::R9 => 9,
            Rank::R10 => 10,
            Rank::Jack => 11,
            Rank::Queen => 12,
            Rank::King => 13,
        }
    }

    /// The rank with number `v`. Outside 1..=13 the answer is the King, and
    /// means nothing.
    pub open spec fn of_value(v: int) -> Rank {
        if v == 1 {
            Rank::Ace
        } else if v == 2 {
            Rank::R2
        } else if v == 3 {
            Rank::R3
        } else if v == 4 {
            Rank::R4
        } else if v == 5 {
            Rank::R5
        } else if v == 6 {
            Rank::R6
        } else if v == 7 {
            Rank::R7
        } else if v == 8 {
            Rank::R8
        } else if v == 9 {
            Rank::R9
        } else if v == 10 {
            Rank::R10
        } else if v == 11 {
            Rank::Jack
        } else if v == 12 {
            Rank::Queen
        } else {
            Rank::King
        }
    }

    /// What a rank is written as on a card face.
    pub open spec fn spec_symbol(self) -> Seq<char> {
        match self {
            Rank::Ace => "A"@,
            Rank::R2 => "2"@,
            Rank::R3 => "3"@,
            Rank::R4 => "4"@,
            Rank::R5 => "5"@,
            Rank::R6 => "6"@,
            Rank::R7 => "7"@,
            Rank::R8 => "8"@,
            Rank::R9 => "9"@,
            Rank::R10 => "10"@,
            Rank::Jack => "J"@,
            Rank::Queen => "Q"@,
            Rank::King => "K"@,
        }
    }

    /// Numbers and ranks correspond one to one.
    pub proof fn lemma_value_round_trip(self)
        ensures
            1 <= self.spec_value() <= 13,
            Rank::of_value(self.spec_value()) == self,
    {
    }

    /// Every number from 1 to 13 is the number of its rank.
    pub proof fn lemma_of_value(v: int)
        requires
            1 <= v <= 13,
        ensures
            Rank::of_value(v).spec_value() == v,
    {
    }

    pub fn value(self) -> (v: u8)
        ensures
            v == self.spec_value(),
    {
        match self {
            Rank::Ace => 1,
            Rank::R2 => 2,
            Rank::R3 => 3,
            Rank::R4 => 4,
            Rank::R5 => 5,
            Rank::R6 => 6,
            Rank::R7 => 7,
            Rank::R8 => 8,
            Rank::R9 => 9,
            Rank::R10 => 10,
            Rank::Jack => 11,
            Rank::Queen => 12,
            Rank::King => 13,
        }
    }

    /// The rank with the given number, if it is one of 1..=13.
    pub fn from_value(v: u8) -> (rank: Option<Rank>)
        ensures
            rank == (if 1 <= v <= 13 {
                Some(Rank::of_value(v as int))
            } else {
                None
            }),
    {
        match v {
            1 => Some(Rank::Ace),
            2 => Some(Rank::R2),
            3 => Some(Rank::R3),
            4 => Some(Rank::R4),
            5 => Some(Rank::R5),
            6 => Some(Rank::R6),
            7 => Some(Rank::R7),
            8 => Some(Rank::R8),
            9 => Some(Rank::R9),
            10 => Some(Rank::R10),
            11 => Some(Rank::Jack),
            12 => Some(Rank::Queen),
            13 => Some(Rank::King),
            _ => None,
        }
    }

    pub fn is_odd(self) -> (odd: bool)
        ensures
            odd == (self.spec_value() % 2 == 1),
    {
        self.value() % 2 == 1
    }

    /// The text of this rank on a card face.
    pub fn symbol(self) -> (s: &'static str)
        ensures
            s@ == self.spec_symbol(),
    {
        match self {
            Rank::Ace => "A",
            Rank::R2 => "2",
            Rank::R3 => "3",
            Rank::R4 => "4",
            Rank::R5 => "5",
            Rank::R6 => "6",
            Rank::R7 => "7",
            Rank::R8 => "8",
            Rank::R9 => "9",
            Rank::R10 => "10",
            Rank::Jack => "J",
            Rank::Queen => "Q",
            Rank::King => "K",
        }
    }
}

/// The four suits, in the order of their foundations.
#[derive(Debug, Copy, Clone, PartialEq, Eq, Structural)]
pub enum Suit {
    Hearts,
    Spades,
    Diamonds,
    Clubs,
}

impl Suit {
    /// The place of a suit among the four: Hearts 0, Spades 1, Diamonds 2,
    /// Clubs 3. It is also the index of the suit's foundation.
    pub open spec fn spec_index(self) -> int {
        match self {
            Suit::Hearts => 0,
            Suit::Spades => 1,
            Suit::Diamonds => 2,
            Suit::Clubs => 3,
        }
    }

    /// The suit at place `i`. Outside 0..4 the answer is Clubs, and means
    /// nothing.
    pub open spec fn of_index(i: int) -> Suit {
        if i == 0 {
            Suit::Hearts
        } else if i == 1 {
            Suit::Spades
        } else if i == 2 {
            Suit::Diamonds
        } else {
            Suit::Clubs
        }
    }

    pub open spec fn spec_is_red(self) -> bool {
        self == Suit::Hearts || self == Suit::Diamonds
    }

    /// The sign of a suit on a card face.
    pub open spec fn spec_symbol(self) -> Seq<char> {
        match self {
            Suit::Hearts => "♥"@,
            Suit::Spades => "♠"@,
            Suit::Diamonds => "♦"@,
            Suit::Clubs => "♣"@,
        }
    }

    /// Places and suits correspond one to one.
    pub proof fn lemma_index_round_trip(self)
        ensures
            0 <= self.spec_index() < 4,
            Suit::of_index(self.spec_index()) == self,
    {
    }

    /// Every place from 0 to 3 is the place of its suit.
    pub proof fn lemma_of_index(i: int)
        requires
            0 <= i < 4,
        ensures
            Suit::of_index(i).spec_index() == i,
    {
    }

    pub fn index(self) -> (i: usize)
        ensures
            i == self.spec_index(),
    {
        match self {
            Suit::Hearts => 0,
            Suit::Spades => 1,
            Suit::Diamonds => 2,
            Suit::Clubs => 3,
        }
    }

    /// The suit whose foundation has the given index, if there is one.
    pub fn from_index(index: usize) -> (suit: Option<Suit>)
        ensures
            suit == (if index < 4 {
                Some(Suit::of_index(index as int))
            } else {
                None
            }),
    {
        match index {
            0 => Some(Suit::Hearts),
            1 => Some(Suit::Spades),
            2 => Some(Suit::Diamonds),
            3 => Some(Suit::Clubs),
            _ => None,
        }
    }

    #[verifier::when_used_as_spec(spec_is_red)]
    pub fn is_red(self) -> (red: bool)
        ensures
            red == self.spec_is_red(),
    {
        match self {
            Self::Hearts | Self::Diamonds => true,
            Self::Spades | Self::Clubs => false,
        }
    }

    /// The sign of this suit on a card face.
    pub fn symbol(self) -> (s: &'static str)
        ensures
            s@ == self.spec_symbol(),
    {
        match self {
            Self::Hearts => "♥",
            Self::Spades => "♠",
            Self::Diamonds => "♦",
            Self::Clubs => "♣",
        }
    }
}

/// A card is its suit and its rank, and nothing else.
#[derive(Debug, Copy, Clone, PartialEq, Eq, Structural)]
pub struct Card {
    pub suit: Suit,
    pub rank: Rank,
}

impl Card {
    /// The card at place `i` of the ordered deck: suit after suit, and
    /// within a suit from the Ace up to the King.
    pub open spec fn ordered_card(i: int) -> Card {
        Card { suit: Suit::of_index(i / 13), rank: Rank::of_value(i % 13 + 1) }
    }

    /// The deck in its fixed order, as a sequence.
    pub open spec fn spec_ordered_deck() -> Seq<Card> {
        Seq::new(52, |i: int| Card::ordered_card(i))
    }

    /// The place of a card in the ordered deck.
    pub open spec fn ordered_place(self) -> int {
        13 * self.suit.spec_index() + self.rank.spec_value() - 1
    }

    /// What a card face shows: the rank, then the suit.
    pub open spec fn spec_label(self) -> Seq<char> {
        self.rank.spec_symbol() + self.suit.spec_symbol()
    }

    /// Each of the fifty-two places holds the one card that names it.
    pub proof fn lemma_ordered_place(i: int)
        requires
            0 <= i < 52,
        ensures
            Card::ordered_card(i).ordered_place() == i,
    {
        Suit::lemma_of_index(i / 13);
        Rank::lemma_of_value(i % 13 + 1);
    }

    /// Every card stands in the ordered deck, at its place.
    pub proof fn lemma_card_in_ordered_deck(self)
        ensures
            0 <= self.ordered_place() < 52,
            Card::spec_ordered_deck()[self.ordered_place()] == self,
    {
        self.suit.lemma_index_round_trip();
        self.rank.lemma_value_round_trip();
        let i = self.ordered_place();
        assert(i / 13 == self.suit.spec_index());
        assert(i % 13 + 1 == self.rank.spec_value());
    }

    /// The ordered deck holds no card twice.
    pub proof fn lemma_ordered_deck_distinct()
        ensures
            Card::spec_ordered_deck().len() == 52,
            Card::spec_ordered_deck().no_duplicates(),
    {
        let deck = Card::spec_ordered_deck();
        assert forall|i: int, j: int| 0 <= i < 52 && 0 <= j < 52 && i != j implies deck[i]
            != deck[j] by {
            Card::lemma_ordered_place(i);
            Card::lemma_ordered_place(j);
        }
    }

    /// A sequence with the cards of the ordered deck, each as often, is a
    /// full deck too: fifty-two cards, none of them twice.
    pub proof fn lemma_permuted_deck(deck: Seq<Card>)
        requires
            deck.to_multiset() == Card::spec_ordered_deck().to_multiset(),
        ensures
            deck.len() == 52,
            deck.no_duplicates(),
    {
        let ordered = Card::spec_ordered_deck();
        Card::lemma_ordered_deck_distinct();
        to_multiset_len(deck);
        to_multiset_len(ordered);
        ordered.lemma_multiset_has_no_duplicates();
        deck.lemma_multiset_has_no_duplicates_conv();
    }

    pub fn new(suit: Suit, rank: Rank) -> (card: Card)
        ensures
            card == (Card { suit, rank }),
    {
        Card { suit, rank }
    }

    pub fn suit(&self) -> (suit: Suit)
        ensures
            suit == self.suit,
    {
        self.suit
    }

    pub fn rank(&self) -> (rank: Rank)
        ensures
            rank == self.rank,
    {
        self.rank
    }

    /// The text of a card face: the rank, then the suit.
    pub fn label(&self) -> (s: String)
        ensures
            s@ == self.spec_label(),
    {
        String::from_str(self.rank.symbol()).concat(self.suit.symbol())
    }

    /// The deck of fifty-two in its fixed order: Hearts, Spades, Diamonds,
    /// Clubs, each from the Ace up to the King.
    pub fn ordered_deck() -> (deck: Vec<Card>)
        ensures
            deck@ == Card::spec_ordered_deck(),
            deck@.len() == 52,
            deck@.no_duplicates(),
            forall|i: int|
                0 <= i < 52 ==> (#[trigger] deck@[i]).suit.spec_index() == i / 13 && deck@[i].rank.spec_value()
                    == i % 13 + 1,
    {
        let mut cards: Vec<Card> = Vec::new();
        let mut s: usize = 0;
        while s < 4
            invariant
                s <= 4,
                cards@.len() == 13 * s,
                forall|i: int| 0 <= i < cards@.len() ==> cards@[i] == Card::ordered_card(i),
            decreases 4 - s,
        {
            let suit: Suit = Suit::from_index(s).unwrap();
            let mut r: u8 = 1;
            while r <= 13
                invariant
                    s < 4,
                    1 <= r <= 14,
                    suit == Suit::of_index(s as int),
                    cards@.len() == 13 * s + (r - 1),
                    forall|i: int| 0 <= i < cards@.len() ==> cards@[i] == Card::ordered_card(i),
                decreases 14 - r,
            {
                let rank: Rank = Rank::from_value(r).unwrap();
                cards.push(Card { suit, rank });
                r = r + 1;
            }
            s = s + 1;
        }
        proof {
            assert(cards@ =~= Card::spec_ordered_deck());
            Card::lemma_ordered_deck_distinct();
            assert forall|i: int| 0 <= i < 52 implies (#[trigger] cards@[i]).suit.spec_index() == i
                / 13 && cards@[i].rank.spec_value() == i % 13 + 1 by {
                Suit::lemma_of_index(i / 13);
                Rank::lemma_of_value(i % 13 + 1);
            }
        }
        cards
    }

    /// A deck of the same fifty-two cards in an order drawn at random.
    /// The order is the generator's; that no card is lost, added or doubled
    /// is stated here.
    pub fn shuffled_deck() -> (deck: Vec<Card>)
        ensures
            deck@.to_multiset() == Card::spec_ordered_deck().to_multiset(),
            deck@.len() == 52,
            deck@.no_duplicates(),
    {
        let mut rng = rand::thread_rng();
        let mut deck = Self::ordered_deck();
        shuffle_cards(&mut deck, &mut rng);
        proof {
            Card::lemma_permuted_deck(deck@);
        }
        deck
    }
}

} // verus!
