//! Where things stand on the screen, and in which colours.
//!
//! Everything here computes positions, texts and colours from the game.
//! Nothing here draws: the numbers are screen columns and rows, counted
//! from one, for whoever writes to the terminal.

use crate::cards::{Card, Suit};
use crate::game_state::{CardState, GameMode, GameState};
use crate::selection::Selection;
use crate::turn::Cursor;
use vstd::prelude::*;

verus! {

pub const COLUMNS_INIT_COL: usize = 8;

pub const COLUMNS_INIT_ROW: usize = 2;

pub const COLUMNS_COL_STEP: usize = 5;

pub const COLUMNS_ROW_STEP: usize = 1;

pub const COLUMN_MAX_VISIBLE_CARDS: usize = 7;

pub const DECK_INIT_COL: usize = 2;

pub const DECK_INIT_ROW: usize = 2;

pub const DECK_DRAWN_STEP: usize = 2;

pub const DECK_ROW_STEP: usize = 1;

pub const DECK_DRAWN_MAX_DISPLAY_CARDS: usize = 3;

pub const PILES_INIT_COL: usize = 48;

pub const PILES_INIT_ROW: usize = 2;

pub const PILES_ROW_STEP: usize = 2;

pub const CURSOR_ROW: usize = 10;

pub const CENTER_COL: usize = 26;

pub const CENTER_ROW: usize = 5;

pub const TEXT_BOX_WIDTH: usize = 38;

/// The colours that the game is drawn in.
#[derive(Debug, Copy, Clone, PartialEq, Eq, Structural)]
pub enum Tint {
    Black,
    Red,
    Green,
    Blue,
    White,
    LightBlack,
    LightRed,
    LightGreen,
    LightYellow,
    LightBlue,
    LightWhite,
}

/// At which end a column that is too long to show stands.
#[derive(Debug, Copy, Clone, PartialEq, Eq, Structural)]
pub enum CardColumnScroll {
    AtMaxRow,
    AtMinRow,
}

/// The part of a long column that is shown.
#[derive(Debug, Clone, PartialEq, Eq)]
pub struct ScrolledColumn {
    pub visible_cards: Vec<(Card, CardState)>,
    pub at_edge: Option<CardColumnScroll>,
}

/// How one card is shown.
#[derive(Debug, Clone, PartialEq, Eq)]
pub struct CardFace {
    pub text: String,
    pub foreground: Tint,
    pub background: Tint,
}

/// The corners of a box on the screen.
#[derive(Debug, Copy, Clone, PartialEq, Eq, Structural)]
pub struct BoxCorners {
    pub col1: usize,
    pub row1: usize,
    pub col2: usize,
    pub row2: usize,
}

/// The smaller of two numbers.
pub open spec fn spec_least(a: int, b: int) -> int {
    if a <= b {
        a
    } else {
        b
    }
}

fn least(a: usize, b: usize) -> (m: usize)
    ensures
        m == spec_least(a as int, b as int),
{
    if a <= b {
        a
    } else {
        b
    }
}

/// How a card is shown: face up by its label, red on white or black on
/// white; face down as the back of a card, or with `debug_mode` by its
/// label in dim colours.
pub open spec fn spec_card_face(card: Card, card_state: CardState, debug_mode: bool) -> (
    Seq<char>,
    Tint,
    Tint,
) {
    match card_state {
        CardState::FaceUp => if card.suit.is_red() {
            (card.spec_label(), Tint::Red, Tint::White)
        } else {
            (card.spec_label(), Tint::Black, Tint::White)
        },
        CardState::FaceDown => if debug_mode {
            if card.suit.is_red() {
                (card.spec_label(), Tint::LightRed, Tint::Black)
            } else {
                (card.spec_label(), Tint::LightBlack, Tint::Black)
            }
        } else {
            ("st"@, Tint::LightGreen, Tint::LightBlack)
        },
    }
}

/// The text and the colours of a card on the screen.
pub fn card_face(card: Card, card_state: CardState, debug_mode: bool) -> (face: CardFace)
    ensures
        (face.text@, face.foreground, face.background) == spec_card_face(
            card,
            card_state,
            debug_mode,
        ),
{
    match card_state {
        CardState::FaceUp => {
            if card.suit.is_red() {
                CardFace { text: card.label(), foreground: Tint::Red, background: Tint::White }
            } else {
                CardFace { text: card.label(), foreground: Tint::Black, background: Tint::White }
            }
        },
        CardState::FaceDown => {
            if debug_mode {
                if card.suit.is_red() {
                    CardFace {
                        text: card.label(),
                        foreground: Tint::LightRed,
                        background: Tint::Black,
                    }
                } else {
                    CardFace {
                        text: card.label(),
                        foreground: Tint::LightBlack,
                        background: Tint::Black,
                    }
                }
            } else {
                CardFace {
                    text: String::from_str("st"),
                    foreground: Tint::LightGreen,
                    background: Tint::LightBlack,
                }
            }
        },
    }
}

/// How far a column of `cards` cards is scrolled when `selected` of them
/// are selected, and whether it stands at an end. A column of up to seven
/// cards is not scrolled. A longer one shows seven cards: those from the
/// lowest selected card upwards, or the top seven where fewer than seven
/// cards are selected.
pub open spec fn spec_scrolled_column_offset(cards: int, selected: int) -> Option<
    (int, Option<CardColumnScroll>),
> {
    if cards <= 7 {
        None
    } else {
        let max_offset = cards - 7;
        let unselected = cards - spec_least(selected, cards);
        let offset = spec_least(unselected, max_offset);
        Some(
            (
                offset,
                if offset == 0 {
                    Some(CardColumnScroll::AtMaxRow)
                } else if offset == max_offset {
                    Some(CardColumnScroll::AtMinRow)
                } else {
                    None
                },
            ),
        )
    }
}

/// Scrolled offset in card column + position info, or None if not scrolled
pub fn scrolled_column_offset(cards: usize, selected: usize) -> (r: Option<
    (usize, Option<CardColumnScroll>),
>)
    ensures
        match spec_scrolled_column_offset(cards as int, selected as int) {
            Some((offset, position)) => r == Some((offset as usize, position)) && 0 <= offset
                <= cards - 7,
            None => r is None,
        },
{
    if cards <= COLUMN_MAX_VISIBLE_CARDS {
        return None;
    }
    let max_offset = cards - COLUMN_MAX_VISIBLE_CARDS;
    let unselected = cards - least(selected, cards);
    let offset = least(unselected, max_offset);

    let position = if offset == 0 {
        Some(CardColumnScroll::AtMaxRow)
    } else if offset == max_offset {
        Some(CardColumnScroll::AtMinRow)
    } else {
        None
    };

    Some((offset, position))
}

/// A scrolled card column's visible cards, or None if not scrolled
pub fn scrolled_column(cards: &Vec<(Card, CardState)>, selected: usize) -> (r: Option<
    ScrolledColumn,
>)
    ensures
        match spec_scrolled_column_offset(cards@.len() as int, selected as int) {
            Some((offset, position)) => r matches Some(scrolled) && scrolled.visible_cards@
                == cards@.subrange(offset, offset + 7) && scrolled.at_edge == position,
            None => r is None,
        },
{
    match scrolled_column_offset(cards.len(), selected) {
        Some((offset, at_edge)) => {
            let mut visible_cards: Vec<(Card, CardState)> = Vec::new();
            let mut i: usize = 0;
            while i < COLUMN_MAX_VISIBLE_CARDS
                invariant
                    i <= 7,
                    offset + 7 <= cards@.len() <= usize::MAX,
                    visible_cards@ == cards@.subrange(offset as int, offset + i),
                decreases 7 - i,
            {
                visible_cards.push(cards[offset + i]);
                proof {
                    assert(visible_cards@ =~= cards@.subrange(offset as int, offset + i + 1));
                }
                i = i + 1;
            }
            Some(ScrolledColumn { visible_cards, at_edge })
        },
        None => None,
    }
}

/// How many cards of column `column_index` are selected: what the cursor
/// says if it stands there, else what was picked up there, else none.
pub open spec fn spec_selection_count(cursor: Cursor, column_index: int) -> usize {
    match (cursor.cursor, cursor.selected) {
        (Selection::Column { index, card_count }, _) if index == column_index => card_count as usize,
        (_, Some(Selection::Column { index, card_count })) if index == column_index => card_count as usize,
        _ => 0,
    }
}

/// A column's active selection count; 0 if not selected.
pub fn selection_count(cursor: &Cursor, column_index: usize) -> (count: usize)
    ensures
        count == spec_selection_count(*cursor, column_index as int),
{
    if let Selection::Column { index, card_count } = cursor.cursor {
        if column_index == index as usize {
            return card_count as usize;
        }
    }
    if let Some(Selection::Column { index, card_count }) = cursor.selected {
        if column_index == index as usize {
            return card_count as usize;
        }
    }
    0
}

/// How far a column is scrolled: none if it is short enough to show.
pub open spec fn spec_scroll(length: int, card_count: int) -> int {
    match spec_scrolled_column_offset(length, card_count) {
        Some((offset, _)) => offset,
        None => 0,
    }
}

/// The screen rows beside which the marks of a column selection stand:
/// from the first row up to, but without, the second. The marks run
/// beside the selected cards, as far as the column is shown.
pub fn column_cursor_rows(length: usize, card_count: usize) -> (rows: (usize, usize))
    requires
        card_count <= length + 2,
        length + 2 <= usize::MAX,
    ensures
        rows.0 == 2 + length - spec_scroll(length as int, card_count as int) - card_count,
        rows.1 == spec_least(2 + length - spec_scroll(length as int, card_count as int), 9),
{
    let scroll = match scrolled_column_offset(length, card_count) {
        Some((offset, _)) => offset,
        None => 0,
    };
    let upper = COLUMNS_INIT_ROW + COLUMNS_ROW_STEP * (length - scroll);
    let lower = upper - card_count;

    // Don't draw past the end of the column
    let upper = least(upper, COLUMNS_INIT_ROW + COLUMNS_ROW_STEP * COLUMN_MAX_VISIBLE_CARDS);
    (lower, upper)
}

/// How many cards of the waste pile are shown at most.
pub open spec fn spec_max_visible_cards(game_mode: GameMode) -> usize {
    match game_mode {
        GameMode::DrawOne => 1,
        GameMode::DrawThree => 3,
    }
}

#[verifier::when_used_as_spec(spec_max_visible_cards)]
pub fn max_visible_cards(game_mode: GameMode) -> (count: usize)
    ensures
        count == spec_max_visible_cards(game_mode),
{
    match game_mode {
        GameMode::DrawOne => 1,
        GameMode::DrawThree => DECK_DRAWN_MAX_DISPLAY_CARDS,
    }
}

/// The cards of the waste pile that are shown: its topmost ones, as many
/// as the mode shows, the lowest of them first.
pub fn visible_waste(game_state: &GameState) -> (shown: Vec<Card>)
    ensures
        shown@ == game_state.deck_drawn@.skip(
            game_state.deck_drawn@.len() - spec_least(
                game_state.deck_drawn@.len() as int,
                max_visible_cards(game_state.game_mode) as int,
            ),
        ),
{
    let len = game_state.deck_drawn.len();
    let count = least(len, max_visible_cards(game_state.game_mode));
    let mut shown: Vec<Card> = Vec::new();
    let mut i: usize = len - count;
    while i < len
        invariant
            len == game_state.deck_drawn@.len(),
            count <= len,
            len - count <= i <= len,
            shown@ == game_state.deck_drawn@.subrange(len - count, i as int),
        decreases len - i,
    {
        shown.push(game_state.deck_drawn[i]);
        proof {
            assert(shown@ =~= game_state.deck_drawn@.subrange(len - count, i + 1));
        }
        i = i + 1;
    }
    proof {
        assert(shown@ =~= game_state.deck_drawn@.skip(len - count));
    }
    shown
}

/// The screen row of the mark beside the waste pile: that of the last
/// card shown, or none where the waste pile is empty.
pub fn deck_selection_cursor_row(game_state: &GameState) -> (row: Option<usize>)
    ensures
        row == (if game_state.deck_drawn@.len() == 0 {
            None
        } else {
            Some(
                (3 + spec_least(
                    game_state.deck_drawn@.len() as int,
                    max_visible_cards(game_state.game_mode) as int,
                )) as usize,
            )
        }),
{
    let max_cards = max_visible_cards(game_state.game_mode);

    let displayed_cards = least(game_state.deck_drawn.len(), max_cards);
    if displayed_cards > 0 {
        Some(DECK_INIT_ROW + DECK_DRAWN_STEP + DECK_ROW_STEP * (displayed_cards - 1))
    } else {
        None
    }
}

/// The screen row of the foundation with the given index.
pub fn pile_row(index: usize) -> (row: usize)
    requires
        index < 4,
    ensures
        row == 2 + 2 * index,
{
    PILES_INIT_ROW + PILES_ROW_STEP * index
}

/// What stands in the place of an empty foundation: the sign of its suit
/// and a line for the rank to come.
pub fn empty_pile_label(index: usize) -> (label: String)
    requires
        index < 4,
    ensures
        label@ == Suit::of_index(index as int).spec_symbol() + "_"@,
{
    let suit: Suit = Suit::from_index(index).unwrap();
    String::from_str(suit.symbol()).concat("_")
}

/// The screen column of the pile that a selection names.
pub open spec fn spec_selection_col(selection: Selection) -> int {
    match selection {
        Selection::Deck => 2,
        Selection::Column { index, .. } => 8 + index * 5,
        Selection::Pile { .. } => 48,
    }
}

pub fn selection_col(selection: Selection) -> (col: usize)
    ensures
        col == spec_selection_col(selection),
{
    match selection {
        Selection::Deck => DECK_INIT_COL,
        Selection::Column { index, .. } => COLUMNS_INIT_COL + (index as usize) * COLUMNS_COL_STEP,
        Selection::Pile { .. } => PILES_INIT_COL,
    }
}

/// The corners of a box of the given width and height around the middle
/// of the screen.
pub fn centered_box_corners(width: usize, height: usize) -> (corners: BoxCorners)
    requires
        width / 2 <= 26,
        height / 2 <= 5,
    ensures
        corners == (BoxCorners {
            col1: (26 - width / 2) as usize,
            row1: (5 - height / 2) as usize,
            col2: (26 + width / 2) as usize,
            row2: (5 + height / 2) as usize,
        }),
{
    BoxCorners {
        col1: CENTER_COL - width / 2,
        row1: CENTER_ROW - height / 2,
        col2: CENTER_COL + width / 2,
        row2: CENTER_ROW + height / 2,
    }
}

/// The corners of one of the boxes drawn round the message of victory:
/// three columns wider than its size to either side of the middle.
pub fn victory_box_corners(size: usize) -> (corners: BoxCorners)
    requires
        size <= 5,
    ensures
        corners == (BoxCorners {
            col1: (23 - size) as usize,
            row1: (5 - size) as usize,
            col2: (29 + size) as usize,
            row2: (5 + size) as usize,
        }),
{
    BoxCorners {
        col1: CENTER_COL - 3 - size,
        row1: CENTER_ROW - size,
        col2: CENTER_COL + 3 + size,
        row2: CENTER_ROW + size,
    }
}

/// The frame, the ground and the first line of a box of text.
#[derive(Debug, Copy, Clone, PartialEq, Eq, Structural)]
pub struct TextBox {
    pub frame: BoxCorners,
    pub ground: BoxCorners,
    pub text_col: usize,
    pub text_row: usize,
}

/// Where a box of text with `height` lines stands: a frame one line
/// higher than the text above and below it, the ground that the text is
/// written on, and the place of the first line.
pub fn text_box(height: usize) -> (placed: TextBox)
    requires
        (height + 2) / 2 <= 5,
    ensures
        placed.frame == (BoxCorners {
            col1: 7,
            row1: (5 - (height + 2) / 2) as usize,
            col2: 45,
            row2: (5 + (height + 2) / 2) as usize,
        }),
        placed.ground == (BoxCorners {
            col1: 8,
            row1: (5 - height / 2) as usize,
            col2: 44,
            row2: (5 + height / 2) as usize,
        }),
        placed.text_col == 8,
        placed.text_row == 5 - height / 2,
{
    let frame = centered_box_corners(TEXT_BOX_WIDTH, height + 2);
    let ground = centered_box_corners(TEXT_BOX_WIDTH - 2, height);
    TextBox { frame, ground, text_col: ground.col1, text_row: ground.row1 }
}

} // verus!
