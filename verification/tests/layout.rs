use solitext::cards::{Card, Rank, Suit};
use solitext::game_state::{CardState, GameMode, GameState};
use solitext::layout::{
    card_face, centered_box_corners, column_cursor_rows, deck_selection_cursor_row,
    empty_pile_label, max_visible_cards, pile_row, scrolled_column, scrolled_column_offset,
    selection_col, selection_count, text_box, victory_box_corners, visible_waste, BoxCorners,
    CardColumnScroll, CardFace, ScrolledColumn, TextBox, Tint, COLUMN_MAX_VISIBLE_CARDS,
    CURSOR_ROW,
};
use solitext::selection::Selection;
use solitext::turn::Cursor;

#[test]
fn card_faces() {
    let red = Card::new(Suit::Hearts, Rank::R10);
    let black = Card::new(Suit::Clubs, Rank::Ace);
    let face = |text: &str, foreground, background| CardFace {
        text: text.to_string(),
        foreground,
        background,
    };
    assert_eq!(card_face(red, CardState::FaceUp, false), face("10♥", Tint::Red, Tint::White));
    assert_eq!(card_face(black, CardState::FaceUp, true), face("A♣", Tint::Black, Tint::White));
    assert_eq!(
        card_face(red, CardState::FaceDown, false),
        face("st", Tint::LightGreen, Tint::LightBlack)
    );
    assert_eq!(
        card_face(red, CardState::FaceDown, true),
        face("10♥", Tint::LightRed, Tint::Black)
    );
    assert_eq!(
        card_face(black, CardState::FaceDown, true),
        face("A♣", Tint::LightBlack, Tint::Black)
    );
}

#[test]
fn short_columns_are_not_scrolled() {
    assert_eq!(COLUMN_MAX_VISIBLE_CARDS, 7);
    for cards in 0..=7 {
        for selected in 0..10 {
            assert_eq!(scrolled_column_offset(cards, selected), None);
        }
    }
}

#[test]
fn long_columns_scroll_to_the_selection() {
    assert_eq!(scrolled_column_offset(10, 0), Some((3, Some(CardColumnScroll::AtMinRow))));
    assert_eq!(scrolled_column_offset(10, 1), Some((3, Some(CardColumnScroll::AtMinRow))));
    assert_eq!(scrolled_column_offset(10, 7), Some((3, Some(CardColumnScroll::AtMinRow))));
    assert_eq!(scrolled_column_offset(10, 8), Some((2, None)));
    assert_eq!(scrolled_column_offset(10, 9), Some((1, None)));
    assert_eq!(scrolled_column_offset(10, 10), Some((0, Some(CardColumnScroll::AtMaxRow))));
    assert_eq!(scrolled_column_offset(10, 200), Some((0, Some(CardColumnScroll::AtMaxRow))));
    assert_eq!(scrolled_column_offset(8, 8), Some((0, Some(CardColumnScroll::AtMaxRow))));
    assert_eq!(scrolled_column_offset(8, 3), Some((1, Some(CardColumnScroll::AtMinRow))));
}

#[test]
fn scrolled_column_shows_seven_cards() {
    let deck = Card::ordered_deck();
    let cards: Vec<(Card, CardState)> =
        deck[..10].iter().map(|c| (*c, CardState::FaceUp)).collect();
    assert_eq!(
        scrolled_column(&cards, 9),
        Some(ScrolledColumn { visible_cards: cards[1..8].to_vec(), at_edge: None })
    );
    assert_eq!(
        scrolled_column(&cards, 2),
        Some(ScrolledColumn {
            visible_cards: cards[3..10].to_vec(),
            at_edge: Some(CardColumnScroll::AtMinRow)
        })
    );
    assert_eq!(scrolled_column(&cards[..7].to_vec(), 2), None);
}

#[test]
fn selection_count_prefers_the_cursor() {
    let col = |index, card_count| Selection::Column { index, card_count };
    let cursor = Cursor { cursor: col(2, 3), selected: Some(col(4, 2)) };
    assert_eq!(selection_count(&cursor, 2), 3);
    assert_eq!(selection_count(&cursor, 4), 2);
    assert_eq!(selection_count(&cursor, 0), 0);
    let both = Cursor { cursor: col(2, 3), selected: Some(col(2, 5)) };
    assert_eq!(selection_count(&both, 2), 3);
    let none = Cursor { cursor: Selection::Deck, selected: Some(Selection::Pile { index: 2 }) };
    assert_eq!(selection_count(&none, 2), 0);
}

#[test]
fn column_cursor_rows_run_beside_the_selected_cards() {
    // a short column: rows 2.. hold the cards
    assert_eq!(column_cursor_rows(5, 2), (5, 7));
    assert_eq!(column_cursor_rows(5, 0), (7, 7));
    assert_eq!(column_cursor_rows(0, 0), (2, 2));
    assert_eq!(column_cursor_rows(7, 7), (2, 9));
    // a long column, scrolled to the selection
    assert_eq!(column_cursor_rows(10, 2), (7, 9));
    assert_eq!(column_cursor_rows(10, 9), (2, 9));
    assert_eq!(column_cursor_rows(10, 10), (2, 9));
}

#[test]
fn waste_shows_its_top_cards() {
    assert_eq!(max_visible_cards(GameMode::DrawOne), 1);
    assert_eq!(max_visible_cards(GameMode::DrawThree), 3);
    let deck = Card::ordered_deck();
    let mut a = GameState::default();
    assert_eq!(visible_waste(&a), vec![]);
    assert_eq!(deck_selection_cursor_row(&a), None);
    a.deck_drawn = deck[..5].to_vec();
    assert_eq!(visible_waste(&a), vec![deck[4]]);
    assert_eq!(deck_selection_cursor_row(&a), Some(4));
    a.game_mode = GameMode::DrawThree;
    assert_eq!(visible_waste(&a), vec![deck[2], deck[3], deck[4]]);
    assert_eq!(deck_selection_cursor_row(&a), Some(6));
    a.deck_drawn = deck[..2].to_vec();
    assert_eq!(visible_waste(&a), vec![deck[0], deck[1]]);
    assert_eq!(deck_selection_cursor_row(&a), Some(5));
}

#[test]
fn piles_stand_two_rows_apart() {
    assert_eq!(pile_row(0), 2);
    assert_eq!(pile_row(1), 4);
    assert_eq!(pile_row(3), 8);
    assert_eq!(empty_pile_label(0), "♥_");
    assert_eq!(empty_pile_label(1), "♠_");
    assert_eq!(empty_pile_label(2), "♦_");
    assert_eq!(empty_pile_label(3), "♣_");
    assert_eq!(CURSOR_ROW, 10);
}

#[test]
fn selection_columns() {
    assert_eq!(selection_col(Selection::Deck), 2);
    assert_eq!(selection_col(Selection::Column { index: 0, card_count: 3 }), 8);
    assert_eq!(selection_col(Selection::Column { index: 6, card_count: 0 }), 38);
    assert_eq!(selection_col(Selection::Pile { index: 2 }), 48);
}

#[test]
fn boxes_round_the_middle() {
    assert_eq!(
        centered_box_corners(38, 5),
        BoxCorners { col1: 7, row1: 3, col2: 45, row2: 7 }
    );
    assert_eq!(
        centered_box_corners(0, 0),
        BoxCorners { col1: 26, row1: 5, col2: 26, row2: 5 }
    );
    assert_eq!(victory_box_corners(3), BoxCorners { col1: 20, row1: 2, col2: 32, row2: 8 });
    assert_eq!(victory_box_corners(1), BoxCorners { col1: 22, row1: 4, col2: 30, row2: 6 });
    assert_eq!(
        text_box(3),
        TextBox {
            frame: BoxCorners { col1: 7, row1: 3, col2: 45, row2: 7 },
            ground: BoxCorners { col1: 8, row1: 4, col2: 44, row2: 6 },
            text_col: 8,
            text_row: 4,
        }
    );
    assert_eq!(text_box(7).text_row, 2);
}
