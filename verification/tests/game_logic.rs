use solitext::cards::{Card, Rank, Suit};
use solitext::game_logic::{
    face_up_on_columns, valid_move, valid_move_card_to_column, valid_move_card_to_pile,
    valid_move_column_to_column, valid_move_column_to_pile, valid_move_deck_to_column,
    valid_move_deck_to_pile, valid_move_pile_to_column, victory,
};
use solitext::game_state::{CardColumn, CardPile, CardState, GameState};
use solitext::selection::Selection;

#[test]
fn test_victory() {
    assert!(victory(&GameState::victory()));
    assert!(!victory(&GameState::almost_victory()));
    assert!(!victory(&GameState::init(Card::ordered_deck())));
}

fn up(cards: &[Card]) -> CardColumn {
    CardColumn(cards.iter().map(|c| (*c, CardState::FaceUp)).collect())
}

#[test]
fn victory_needs_a_king_on_every_foundation() {
    let mut a = GameState::default();
    assert!(!victory(&a));
    for (i, suit) in [Suit::Hearts, Suit::Spades, Suit::Diamonds, Suit::Clubs].iter().enumerate() {
        assert!(!victory(&a));
        a.card_piles[i] = CardPile(vec![Card::new(*suit, Rank::King)]);
    }
    assert!(victory(&a));
    a.card_piles[3].0.push(Card::new(Suit::Clubs, Rank::Queen));
    assert!(!victory(&a));
}

#[test]
fn foundation_accepts_the_ace_of_its_suit_when_empty() {
    let a = GameState::default();
    assert_eq!(valid_move_card_to_pile(Card::new(Suit::Hearts, Rank::Ace), 0, &a), Ok(()));
    assert_eq!(valid_move_card_to_pile(Card::new(Suit::Clubs, Rank::Ace), 3, &a), Ok(()));
    assert_eq!(valid_move_card_to_pile(Card::new(Suit::Spades, Rank::Ace), 0, &a), Err(()));
    assert_eq!(valid_move_card_to_pile(Card::new(Suit::Hearts, Rank::R2), 0, &a), Err(()));
    assert_eq!(valid_move_card_to_pile(Card::new(Suit::Hearts, Rank::King), 0, &a), Err(()));
}

#[test]
fn foundation_accepts_the_next_rank_of_its_suit() {
    let mut a = GameState::default();
    a.card_piles[1] =
        CardPile(vec![Card::new(Suit::Spades, Rank::Ace), Card::new(Suit::Spades, Rank::R2)]);
    assert_eq!(valid_move_card_to_pile(Card::new(Suit::Spades, Rank::R3), 1, &a), Ok(()));
    // the same rank again, a gap, a step down, another suit
    assert_eq!(valid_move_card_to_pile(Card::new(Suit::Spades, Rank::R2), 1, &a), Err(()));
    assert_eq!(valid_move_card_to_pile(Card::new(Suit::Spades, Rank::R4), 1, &a), Err(()));
    assert_eq!(valid_move_card_to_pile(Card::new(Suit::Spades, Rank::Ace), 1, &a), Err(()));
    assert_eq!(valid_move_card_to_pile(Card::new(Suit::Clubs, Rank::R3), 1, &a), Err(()));
    assert_eq!(valid_move_card_to_pile(Card::new(Suit::Spades, Rank::R3), 2, &a), Err(()));
}

#[test]
fn column_accepts_a_black_jack_on_a_red_queen() {
    let mut a = GameState::default();
    a.columns[0] = up(&[Card::new(Suit::Hearts, Rank::Queen)]);
    assert_eq!(valid_move_card_to_column(Card::new(Suit::Spades, Rank::Jack), 0, &a), Ok(()));
    assert_eq!(valid_move_card_to_column(Card::new(Suit::Clubs, Rank::Jack), 0, &a), Ok(()));
    assert_eq!(valid_move_card_to_column(Card::new(Suit::Hearts, Rank::Jack), 0, &a), Err(()));
    assert_eq!(valid_move_card_to_column(Card::new(Suit::Diamonds, Rank::Jack), 0, &a), Err(()));
    assert_eq!(valid_move_card_to_column(Card::new(Suit::Spades, Rank::R10), 0, &a), Err(()));
    assert_eq!(valid_move_card_to_column(Card::new(Suit::Spades, Rank::Queen), 0, &a), Err(()));
    assert_eq!(valid_move_card_to_column(Card::new(Suit::Spades, Rank::King), 0, &a), Err(()));
}

#[test]
fn empty_column_accepts_kings_only() {
    let a = GameState::default();
    assert_eq!(valid_move_card_to_column(Card::new(Suit::Spades, Rank::King), 6, &a), Ok(()));
    assert_eq!(valid_move_card_to_column(Card::new(Suit::Hearts, Rank::King), 6, &a), Ok(()));
    assert_eq!(valid_move_card_to_column(Card::new(Suit::Hearts, Rank::Queen), 6, &a), Err(()));
    assert_eq!(valid_move_card_to_column(Card::new(Suit::Hearts, Rank::Ace), 6, &a), Err(()));
}

#[test]
fn column_looks_at_its_top_card_whatever_its_state() {
    let mut a = GameState::default();
    a.columns[2] = CardColumn(vec![(Card::new(Suit::Clubs, Rank::R5), CardState::FaceDown)]);
    assert_eq!(valid_move_card_to_column(Card::new(Suit::Hearts, Rank::R4), 2, &a), Ok(()));
}

#[test]
fn moves_from_the_waste() {
    let mut a = GameState::default();
    assert_eq!(valid_move_deck_to_pile(0, &a), Err(()));
    assert_eq!(valid_move_deck_to_column(0, &a), Err(()));
    a.deck_drawn = vec![Card::new(Suit::Hearts, Rank::King), Card::new(Suit::Diamonds, Rank::Ace)];
    assert_eq!(valid_move_deck_to_pile(2, &a), Ok(()));
    assert_eq!(valid_move_deck_to_pile(0, &a), Err(()));
    assert_eq!(valid_move_deck_to_column(0, &a), Err(()));
    a.deck_drawn.pop();
    assert_eq!(valid_move_deck_to_column(0, &a), Ok(()));
    assert_eq!(valid_move_deck_to_pile(0, &a), Err(()));
}

#[test]
fn moves_from_a_column_to_a_foundation_take_one_card() {
    let mut a = GameState::default();
    a.columns[1] = up(&[Card::new(Suit::Spades, Rank::R2), Card::new(Suit::Hearts, Rank::Ace)]);
    assert_eq!(valid_move_column_to_pile(1, 1, 0, &a), Ok(()));
    assert_eq!(valid_move_column_to_pile(1, 2, 0, &a), Err(()));
    assert_eq!(valid_move_column_to_pile(1, 0, 0, &a), Err(()));
    assert_eq!(valid_move_column_to_pile(1, 1, 1, &a), Err(()));
    assert_eq!(valid_move_column_to_pile(0, 1, 0, &a), Err(()));
}

#[test]
fn moves_from_column_to_column_go_by_the_lowest_selected_card() {
    let mut a = GameState::default();
    a.columns[0] = up(&[
        Card::new(Suit::Clubs, Rank::R9),
        Card::new(Suit::Hearts, Rank::R8),
        Card::new(Suit::Spades, Rank::R7),
    ]);
    a.columns[1] = up(&[Card::new(Suit::Diamonds, Rank::R10)]);
    a.columns[2] = up(&[Card::new(Suit::Clubs, Rank::R9)]);
    assert_eq!(valid_move_column_to_column(0, 3, 1, &a), Ok(()));
    assert_eq!(valid_move_column_to_column(0, 2, 1, &a), Err(()));
    assert_eq!(valid_move_column_to_column(0, 2, 2, &a), Ok(()));
    assert_eq!(valid_move_column_to_column(0, 1, 2, &a), Err(()));
    assert_eq!(valid_move_column_to_column(0, 0, 1, &a), Err(()));
    assert_eq!(valid_move_column_to_column(0, 4, 1, &a), Err(()));
    assert_eq!(valid_move_column_to_column(3, 1, 1, &a), Err(()));
}

#[test]
fn moves_from_a_foundation_go_to_columns_only() {
    let mut a = GameState::default();
    a.card_piles[0] = CardPile(vec![Card::new(Suit::Hearts, Rank::Ace), Card::new(Suit::Hearts, Rank::R2)]);
    a.columns[4] = up(&[Card::new(Suit::Clubs, Rank::R3)]);
    assert_eq!(valid_move_pile_to_column(0, 4, &a), Ok(()));
    assert_eq!(valid_move_pile_to_column(0, 3, &a), Err(()));
    assert_eq!(valid_move_pile_to_column(1, 4, &a), Err(()));
    let pile = Selection::Pile { index: 0 };
    assert_eq!(valid_move(pile, Selection::Column { index: 4, card_count: 0 }, &a), Ok(()));
    assert_eq!(valid_move(pile, Selection::Pile { index: 1 }, &a), Err(()));
    assert_eq!(valid_move(pile, Selection::Pile { index: 0 }, &a), Err(()));
    assert_eq!(valid_move(pile, Selection::Deck, &a), Err(()));
}

#[test]
fn nothing_moves_to_the_deck() {
    let mut a = GameState::init(Card::ordered_deck());
    a.deck_hit();
    face_up_on_columns(&mut a);
    assert_eq!(valid_move(Selection::Deck, Selection::Deck, &a), Err(()));
    assert_eq!(valid_move(Selection::Column { index: 0, card_count: 1 }, Selection::Deck, &a), Err(()));
    assert_eq!(valid_move(Selection::Pile { index: 0 }, Selection::Deck, &a), Err(()));
}

#[test]
fn valid_move_dispatches_on_both_selections() {
    let mut a = GameState::default();
    a.deck_drawn = vec![Card::new(Suit::Spades, Rank::Ace)];
    a.columns[0] = up(&[Card::new(Suit::Hearts, Rank::R2)]);
    a.columns[1] = up(&[Card::new(Suit::Clubs, Rank::R3)]);
    let col = |index, card_count| Selection::Column { index, card_count };
    assert_eq!(valid_move(Selection::Deck, Selection::Pile { index: 1 }, &a), Ok(()));
    assert_eq!(valid_move(Selection::Deck, Selection::Pile { index: 0 }, &a), Err(()));
    assert_eq!(valid_move(Selection::Deck, col(0, 0), &a), Ok(()));
    assert_eq!(valid_move(Selection::Deck, col(1, 0), &a), Err(()));
    assert_eq!(valid_move(col(0, 1), col(1, 5), &a), Ok(()));
    assert_eq!(valid_move(col(1, 1), col(0, 1), &a), Err(()));
    assert_eq!(valid_move(col(0, 1), Selection::Pile { index: 0 }, &a), Err(()));
}

#[test]
fn no_move_leads_back_to_the_pile_it_starts_from() {
    let mut a = GameState::default();
    let col = |index, card_count| Selection::Column { index, card_count };
    // the 5 of Hearts would fit on the 6 of Spades, were it another column
    a.columns[0] = up(&[Card::new(Suit::Hearts, Rank::R5), Card::new(Suit::Spades, Rank::R6)]);
    a.columns[1] = up(&[Card::new(Suit::Clubs, Rank::R6)]);
    assert_eq!(valid_move(col(0, 2), col(0, 0), &a), Err(()));
    assert_eq!(valid_move(col(0, 2), col(0, 2), &a), Err(()));
    assert_eq!(valid_move(col(0, 1), col(0, 1), &a), Err(()));
    a.columns[2] = up(&[Card::new(Suit::Hearts, Rank::R5)]);
    assert_eq!(valid_move(col(2, 1), col(1, 0), &a), Ok(()));
    a.deck_drawn = vec![Card::new(Suit::Hearts, Rank::Ace)];
    a.card_piles[0] = CardPile(vec![Card::new(Suit::Hearts, Rank::Ace)]);
    assert_eq!(valid_move(Selection::Deck, Selection::Deck, &a), Err(()));
    assert_eq!(valid_move(Selection::Pile { index: 0 }, Selection::Pile { index: 0 }, &a), Err(()));
}

#[test]
fn face_up_on_columns_turns_only_the_top_cards() {
    let mut a = GameState::init(Card::ordered_deck());
    let before = a.clone();
    face_up_on_columns(&mut a);
    for (i, column) in a.columns.iter().enumerate() {
        for (j, entry) in column.0.iter().enumerate() {
            let expected = if j == i { CardState::FaceUp } else { CardState::FaceDown };
            assert_eq!(*entry, (before.columns[i].0[j].0, expected));
        }
        assert_eq!(column.face_up_cards(), 1);
    }
    assert_eq!(a.deck, before.deck);
    assert_eq!(a.deck_drawn, before.deck_drawn);
    assert_eq!(a.card_piles, before.card_piles);
    let once = a.clone();
    face_up_on_columns(&mut a);
    assert_eq!(a, once);
    let mut empty = GameState::default();
    face_up_on_columns(&mut empty);
    assert_eq!(empty, GameState::default());
}
