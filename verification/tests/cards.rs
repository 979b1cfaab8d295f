use solitext::cards::{Card, Rank, Suit};

fn show(cards: &Vec<Card>) {
    let mut black = String::from("Black: ");
    let mut red = String::from("Red:   ");
    for card in cards {
        if card.suit.is_red() {
            red.push_str(&format!("{} ", card.label()));
        } else {
            black.push_str(&format!("{} ", card.label()));
        }
    }
    println!("{}", black);
    println!("{}", red);
}

#[test]
fn test_rank_is_odd_ace() {
    assert_eq!(Rank::Ace.is_odd(), true);
}

#[test]
fn test_rank_is_odd_two() {
    assert_eq!(Rank::R2.is_odd(), false);
}

#[test]
fn test_ordered_deck() {
    const PRINT: bool = true;
    let cards = Card::ordered_deck();
    if PRINT {
        show(&cards);
    }
    assert_eq!(cards.len(), 52);
}

#[test]
fn test_shuffled_deck() {
    const PRINT: bool = true;
    let cards = Card::shuffled_deck();
    if PRINT {
        show(&cards);
    }
    assert_eq!(cards.len(), 52);
}

#[test]
fn rank_values_run_from_one_to_thirteen() {
    let ranks = [
        Rank::Ace,
        Rank::R2,
        Rank::R3,
        Rank::R4,
        Rank::R5,
        Rank::R6,
        Rank::R7,
        Rank::R8,
        Rank::R9,
        Rank::R10,
        Rank::Jack,
        Rank::Queen,
        Rank::King,
    ];
    for (i, rank) in ranks.iter().enumerate() {
        assert_eq!(rank.value() as usize, i + 1);
        assert_eq!(Rank::from_value(rank.value()), Some(*rank));
        assert_eq!(rank.is_odd(), (i + 1) % 2 == 1);
    }
    assert_eq!(Rank::from_value(0), None);
    assert_eq!(Rank::from_value(14), None);
    assert_eq!(Rank::from_value(255), None);
}

#[test]
fn rank_order_follows_value() {
    assert!(Rank::Ace < Rank::R2);
    assert!(Rank::R10 < Rank::Jack);
    assert!(Rank::Queen < Rank::King);
}

#[test]
fn suit_indices_and_colours() {
    assert_eq!(Suit::Hearts.index(), 0);
    assert_eq!(Suit::Spades.index(), 1);
    assert_eq!(Suit::Diamonds.index(), 2);
    assert_eq!(Suit::Clubs.index(), 3);
    assert_eq!(Suit::from_index(0), Some(Suit::Hearts));
    assert_eq!(Suit::from_index(1), Some(Suit::Spades));
    assert_eq!(Suit::from_index(2), Some(Suit::Diamonds));
    assert_eq!(Suit::from_index(3), Some(Suit::Clubs));
    assert_eq!(Suit::from_index(4), None);
    assert!(Suit::Hearts.is_red());
    assert!(Suit::Diamonds.is_red());
    assert!(!Suit::Spades.is_red());
    assert!(!Suit::Clubs.is_red());
}

#[test]
fn card_labels() {
    assert_eq!(Rank::Ace.symbol(), "A");
    assert_eq!(Rank::R10.symbol(), "10");
    assert_eq!(Rank::King.symbol(), "K");
    assert_eq!(Suit::Hearts.symbol(), "♥");
    assert_eq!(Suit::Clubs.symbol(), "♣");
    assert_eq!(Card::new(Suit::Spades, Rank::R10).label(), "10♠");
    assert_eq!(Card::new(Suit::Diamonds, Rank::Queen).label(), "Q♦");
}

#[test]
fn card_getters() {
    let card = Card::new(Suit::Clubs, Rank::R7);
    assert_eq!(card.suit(), Suit::Clubs);
    assert_eq!(card.rank(), Rank::R7);
    assert_eq!(card, Card { suit: Suit::Clubs, rank: Rank::R7 });
}

#[test]
fn ordered_deck_is_suit_major_and_rank_ascending() {
    let cards = Card::ordered_deck();
    assert_eq!(cards.len(), 52);
    for (i, card) in cards.iter().enumerate() {
        assert_eq!(card.suit.index(), i / 13);
        assert_eq!(card.rank.value() as usize, i % 13 + 1);
    }
    assert_eq!(cards[0], Card::new(Suit::Hearts, Rank::Ace));
    assert_eq!(cards[12], Card::new(Suit::Hearts, Rank::King));
    assert_eq!(cards[13], Card::new(Suit::Spades, Rank::Ace));
    assert_eq!(cards[26], Card::new(Suit::Diamonds, Rank::Ace));
    assert_eq!(cards[51], Card::new(Suit::Clubs, Rank::King));
}

#[test]
fn ordered_deck_has_no_duplicates() {
    let cards = Card::ordered_deck();
    for i in 0..cards.len() {
        for j in 0..i {
            assert_ne!(cards[i], cards[j]);
        }
    }
}

fn place(card: &Card) -> usize {
    card.suit.index() * 13 + card.rank.value() as usize - 1
}

#[test]
fn shuffled_deck_holds_the_cards_of_the_ordered_deck() {
    for _ in 0..20 {
        let cards = Card::shuffled_deck();
        assert_eq!(cards.len(), 52);
        let mut seen = [false; 52];
        for card in &cards {
            assert!(!seen[place(card)]);
            seen[place(card)] = true;
        }
        assert!(seen.iter().all(|s| *s));
    }
}

#[test]
fn shuffled_deck_changes_the_order() {
    let ordered = Card::ordered_deck();
    let mut changed = false;
    for _ in 0..5 {
        if Card::shuffled_deck() != ordered {
            changed = true;
        }
    }
    assert!(changed);
}

#[test]
fn shuffled_decks_put_every_card_first_sometimes() {
    // Over many shuffles each place of the deck should see many cards.
    let mut first = [0usize; 52];
    let rounds = 5200;
    for _ in 0..rounds {
        let cards = Card::shuffled_deck();
        first[place(&cards[0])] += 1;
    }
    for count in first {
        // expected 100 each; a fair shuffle stays far inside these bounds
        assert!(count > 40, "a card came first only {} times", count);
        assert!(count < 180, "a card came first {} times", count);
    }
}
