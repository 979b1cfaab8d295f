use solitext::cards::{Card, Rank, Suit};
use solitext::game_logic::face_up_on_columns;
use solitext::game_state::CardState::{FaceDown, FaceUp};
use solitext::game_state::{CardColumn, CardState, GameState};
use solitext::selection::{Collection, Selection};

#[test]
fn test_same_collection() {
    assert!(!Selection::Deck.same_collection(Selection::Column { index: 1, card_count: 1 }));
    assert!(!Selection::Column { index: 1, card_count: 1 }
        .same_collection(Selection::Pile { index: 1 }));
    assert!(!Selection::Pile { index: 1 }.same_collection(Selection::Deck));

    assert!(Selection::Deck.same_collection(Selection::Deck));

    assert!(Selection::Column { index: 1, card_count: 1 }
        .same_collection(Selection::Column { index: 1, card_count: 1 }));
    assert!(Selection::Column { index: 1, card_count: 2 }
        .same_collection(Selection::Column { index: 1, card_count: 1 }));
    assert!(!Selection::Column { index: 2, card_count: 1 }
        .same_collection(Selection::Column { index: 1, card_count: 1 }));

    assert!(Selection::Pile { index: 1 }.same_collection(Selection::Pile { index: 1 }));
    assert!(!Selection::Pile { index: 2 }.same_collection(Selection::Pile { index: 1 }));
}

#[test]
fn test_selected_collection() {
    let mut a = GameState::init(Card::ordered_deck());
    let _b = Selection::Deck.selected_collection(&mut a);
}

#[test]
fn selected_collection_names_the_right_pile() {
    let mut a = GameState::init(Card::ordered_deck());
    a.deck_hit();
    let deck = Card::ordered_deck();
    let waste = Selection::Deck;
    assert!(matches!(waste.selected_collection(&a), Collection::Waste(_)));
    assert_eq!(waste.selected_collection(&a).peek(), Some(deck[23]));
    let column = Selection::Column { index: 6, card_count: 0 };
    assert!(matches!(column.selected_collection(&a), Collection::Column(_)));
    assert_eq!(column.selected_collection(&a).peek(), Some(deck[24]));
    assert_eq!(
        column.selected_collection(&a).peek_n(3),
        Some(vec![deck[26], deck[25], deck[24]])
    );
    assert_eq!(column.selected_collection(&a).peek_n(8), None);
    let pile = Selection::Pile { index: 3 };
    assert!(matches!(pile.selected_collection(&a), Collection::Pile(_)));
    assert_eq!(pile.selected_collection(&a).peek(), None);
    assert_eq!(pile.selected_collection(&a).peek_n(0), Some(vec![]));
}

#[test]
fn card_count_is_one_but_for_columns() {
    assert_eq!(Selection::Deck.card_count(), 1);
    assert_eq!(Selection::Pile { index: 2 }.card_count(), 1);
    assert_eq!(Selection::Column { index: 2, card_count: 0 }.card_count(), 0);
    assert_eq!(Selection::Column { index: 2, card_count: 5 }.card_count(), 5);
    assert_eq!(Selection::Column { index: 2, card_count: 255 }.card_count(), 255);
}

#[test]
fn move_right_walks_from_the_deck_to_the_first_pile_and_stays() {
    let mut a = GameState::init(Card::ordered_deck());
    a.columns[3] = CardColumn(vec![]);
    let mut s = Selection::Deck;
    for i in 0..7u8 {
        s.move_right(&a);
        let expected = if i == 3 { 0 } else { 1 };
        assert_eq!(s, Selection::Column { index: i, card_count: expected });
    }
    s.move_right(&a);
    assert_eq!(s, Selection::Pile { index: 0 });
    s.move_right(&a);
    assert_eq!(s, Selection::Pile { index: 0 });
    let mut p = Selection::Pile { index: 2 };
    p.move_right(&a);
    assert_eq!(p, Selection::Pile { index: 2 });
}

#[test]
fn move_left_walks_from_a_pile_to_the_deck_and_stays() {
    let mut a = GameState::init(Card::ordered_deck());
    a.columns[6] = CardColumn(vec![]);
    let mut s = Selection::Pile { index: 3 };
    s.move_left(&a);
    assert_eq!(s, Selection::Column { index: 6, card_count: 0 });
    for i in (0..6u8).rev() {
        s.move_left(&a);
        assert_eq!(s, Selection::Column { index: i, card_count: 1 });
    }
    s.move_left(&a);
    assert_eq!(s, Selection::Deck);
    s.move_left(&a);
    assert_eq!(s, Selection::Deck);
}

#[test]
fn moving_resets_the_count() {
    let a = GameState::init(Card::ordered_deck());
    let mut s = Selection::Column { index: 4, card_count: 4 };
    s.move_left(&a);
    assert_eq!(s, Selection::Column { index: 3, card_count: 1 });
    let mut s = Selection::Column { index: 4, card_count: 0 };
    s.move_right(&a);
    assert_eq!(s, Selection::Column { index: 5, card_count: 1 });
}

#[test]
fn select_up_and_down_on_a_column() {
    let a = GameState::init(Card::ordered_deck());
    let mut s = Selection::Column { index: 2, card_count: 1 };
    s.select_up();
    assert_eq!(s, Selection::Column { index: 2, card_count: 2 });
    s.select_down(&a);
    s.select_down(&a);
    assert_eq!(s, Selection::Column { index: 2, card_count: 0 });
    s.select_down(&a);
    assert_eq!(s, Selection::Column { index: 2, card_count: 0 });
    let mut top = Selection::Column { index: 2, card_count: 254 };
    top.select_up();
    assert_eq!(top, Selection::Column { index: 2, card_count: 255 });
    top.select_up();
    assert_eq!(top, Selection::Column { index: 2, card_count: 255 });
}

#[test]
fn select_up_and_down_among_the_piles() {
    let a = GameState::init(Card::ordered_deck());
    let mut s = Selection::Pile { index: 0 };
    s.select_up();
    assert_eq!(s, Selection::Pile { index: 0 });
    for i in 1..4u8 {
        s.select_down(&a);
        assert_eq!(s, Selection::Pile { index: i });
    }
    s.select_down(&a);
    assert_eq!(s, Selection::Pile { index: 3 });
    s.select_up();
    assert_eq!(s, Selection::Pile { index: 2 });
}

#[test]
fn select_up_and_down_leave_the_deck_alone() {
    let a = GameState::init(Card::ordered_deck());
    let mut s = Selection::Deck;
    s.select_up();
    assert_eq!(s, Selection::Deck);
    s.select_down(&a);
    assert_eq!(s, Selection::Deck);
}

fn column_with(states: &[CardState]) -> CardColumn {
    let deck = Card::ordered_deck();
    CardColumn(states.iter().enumerate().map(|(i, s)| (deck[i], *s)).collect())
}

#[test]
fn column_rules_cut_the_count_down_to_the_face_up_run() {
    let mut a = GameState::default();
    a.columns[2] = column_with(&[FaceDown, FaceDown, FaceUp, FaceUp, FaceUp]);
    let mut s = Selection::Column { index: 2, card_count: 5 };
    s.apply_column_selection_rules(&a, false);
    assert_eq!(s, Selection::Column { index: 2, card_count: 3 });
    let mut s = Selection::Column { index: 2, card_count: 2 };
    s.apply_column_selection_rules(&a, false);
    assert_eq!(s, Selection::Column { index: 2, card_count: 2 });
    let mut s = Selection::Column { index: 2, card_count: 0 };
    s.apply_column_selection_rules(&a, false);
    assert_eq!(s, Selection::Column { index: 2, card_count: 1 });
    let mut s = Selection::Column { index: 2, card_count: 255 };
    s.apply_column_selection_rules(&a, false);
    assert_eq!(s, Selection::Column { index: 2, card_count: 3 });
}

#[test]
fn column_rules_in_debug_mode_allow_the_whole_column() {
    let mut a = GameState::default();
    a.columns[2] = column_with(&[FaceDown, FaceDown, FaceUp]);
    let mut s = Selection::Column { index: 2, card_count: 9 };
    s.apply_column_selection_rules(&a, true);
    assert_eq!(s, Selection::Column { index: 2, card_count: 3 });
    let mut s = Selection::Column { index: 2, card_count: 2 };
    s.apply_column_selection_rules(&a, true);
    assert_eq!(s, Selection::Column { index: 2, card_count: 2 });
}

#[test]
fn column_rules_on_an_empty_column_select_nothing() {
    let a = GameState::default();
    for debug in [false, true] {
        let mut s = Selection::Column { index: 5, card_count: 3 };
        s.apply_column_selection_rules(&a, debug);
        assert_eq!(s, Selection::Column { index: 5, card_count: 0 });
        let mut s = Selection::Column { index: 5, card_count: 0 };
        s.apply_column_selection_rules(&a, debug);
        assert_eq!(s, Selection::Column { index: 5, card_count: 0 });
    }
}

#[test]
fn column_rules_leave_deck_and_piles_alone() {
    let a = GameState::init(Card::ordered_deck());
    let mut s = Selection::Deck;
    s.apply_column_selection_rules(&a, false);
    assert_eq!(s, Selection::Deck);
    let mut s = Selection::Pile { index: 3 };
    s.apply_column_selection_rules(&a, false);
    assert_eq!(s, Selection::Pile { index: 3 });
}

#[test]
fn column_rules_twice_are_column_rules_once() {
    let fresh = GameState::init(Card::ordered_deck());
    let mut repaired = fresh.clone();
    face_up_on_columns(&mut repaired);
    repaired.columns[1].0.push((Card::new(Suit::Hearts, Rank::R2), CardState::FaceUp));
    let mut mixed = repaired.clone();
    mixed.columns[4] = CardColumn(vec![]);
    mixed.columns[5] = column_with(&[FaceUp, FaceDown, FaceUp, FaceDown]);
    for a in [&fresh, &repaired, &mixed, &GameState::default()] {
        for debug in [false, true] {
            for index in 0..7u8 {
                for card_count in [0u8, 1, 2, 3, 4, 5, 6, 7, 8, 9, 100, 254, 255] {
                    let mut once = Selection::Column { index, card_count };
                    once.apply_column_selection_rules(a, debug);
                    let mut twice = once;
                    twice.apply_column_selection_rules(a, debug);
                    assert_eq!(once, twice);
                }
            }
        }
    }
}

#[test]
fn column_rules_select_one_card_while_the_top_card_is_face_down() {
    // Fresh from the deal every card lies face down. A column with cards
    // still has one card selected, however often the rules are applied.
    let a = GameState::init(Card::ordered_deck());
    let mut s = Selection::Column { index: 0, card_count: 0 };
    s.apply_column_selection_rules(&a, false);
    assert_eq!(s, Selection::Column { index: 0, card_count: 1 });
    s.apply_column_selection_rules(&a, false);
    assert_eq!(s, Selection::Column { index: 0, card_count: 1 });
    let mut s = Selection::Column { index: 6, card_count: 5 };
    s.apply_column_selection_rules(&a, false);
    assert_eq!(s, Selection::Column { index: 6, card_count: 1 });
    s.apply_column_selection_rules(&a, false);
    assert_eq!(s, Selection::Column { index: 6, card_count: 1 });
}

#[test]
fn column_rules_never_select_nothing_on_a_column_with_cards() {
    let mut a = GameState::init(Card::ordered_deck());
    a.columns[2] = column_with(&[FaceUp, FaceDown]);
    for debug in [false, true] {
        for index in 0..7u8 {
            for card_count in 0..10u8 {
                let mut s = Selection::Column { index, card_count };
                s.apply_column_selection_rules(&a, debug);
                assert!(s.card_count() >= 1);
            }
        }
    }
}
