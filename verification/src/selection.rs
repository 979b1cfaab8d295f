//! What the cursor points at, and how it moves.
//!
//! A `Selection` names one pile of the game, and for a tableau column also
//! how many of its top cards are chosen. It belongs to whoever drives the
//! game, not to the `GameState`.

use crate::cards::Card;
use crate::game_state::{
    face_up_run, lemma_face_up_run, top_card, CardCollection, CardColumn, CardPile, GameState,
};
use vstd::prelude::*;

verus! {

/// The waste pile, a tableau column with a number of chosen cards, or a
/// foundation.
#[derive(Debug, Copy, Clone, Eq, PartialEq, Structural)]
pub enum Selection {
    Deck,
    Column { index: u8, card_count: u8 },
    Pile { index: u8 },
}

impl Selection {
    /// Whether the selection names a pile that exists: one of the seven
    /// columns, one of the four foundations, or the waste pile.
    pub open spec fn wf(self) -> bool {
        match self {
            Selection::Deck => true,
            Selection::Column { index, .. } => index < 7,
            Selection::Pile { index } => index < 4,
        }
    }

    /// Whether the selection names column `i`.
    pub open spec fn is_column(self, i: int) -> bool {
        self matches Selection::Column { index, .. } && index == i
    }

    /// Whether the selection names foundation `i`.
    pub open spec fn is_pile(self, i: int) -> bool {
        self matches Selection::Pile { index } && index == i
    }

    pub open spec fn spec_same_collection(&self, other: Self) -> bool {
        match (*self, other) {
            (Selection::Deck, Selection::Deck) => true,
            (Selection::Column { index: a, .. }, Selection::Column { index: b, .. }) => a == b,
            (Selection::Pile { index: a }, Selection::Pile { index: b }) => a == b,
            _ => false,
        }
    }

    pub open spec fn spec_card_count(&self) -> usize {
        match *self {
            Selection::Column { card_count, .. } => card_count as usize,
            _ => 1,
        }
    }

    /// Does the selection name a pile that exists?
    pub fn in_bounds(&self) -> (valid: bool)
        ensures
            valid == self.wf(),
    {
        match self {
            Self::Deck => true,
            Self::Column { index, .. } => *index < 7,
            Self::Pile { index } => *index < 4,
        }
    }

    /// Is this selection in the same deck, column or pile as `other`?
    /// The number of chosen cards plays no part.
    #[verifier::when_used_as_spec(spec_same_collection)]
    pub fn same_collection(&self, other: Self) -> (same: bool)
        ensures
            same == self.spec_same_collection(other),
    {
        match self {
            Self::Deck => matches!(other, Self::Deck),
            Self::Column { index: self_index, .. } => {
                if let Self::Column { index: other_index, .. } = other {
                    *self_index == other_index
                } else {
                    false
                }
            },
            Self::Pile { index: self_index } => {
                if let Self::Pile { index: other_index } = other {
                    *self_index == other_index
                } else {
                    false
                }
            },
        }
    }

    /// The number of cards selected: what a column selection says, and one
    /// for the waste pile and for a foundation.
    #[verifier::when_used_as_spec(spec_card_count)]
    pub fn card_count(&self) -> (count: usize)
        ensures
            count == self.spec_card_count(),
    {
        match self {
            Self::Column { card_count, .. } => *card_count as usize,
            _ => 1,
        }
    }

    /// The selection that entering column `index` gives: its top card if
    /// the column has cards, and no card if it has none.
    pub open spec fn column_entry(index: u8, game_state: &GameState) -> Selection {
        Selection::Column {
            index,
            card_count: if game_state.columns[index as int]@.len() == 0 {
                0
            } else {
                1
            },
        }
    }

    /// Where the cursor stands after a step to the left: from a
    /// foundation to the last column, from a column to the one before it,
    /// from the first column to the waste pile, where it stays.
    pub open spec fn moved_left(self, game_state: &GameState) -> Selection {
        match self {
            Selection::Deck => Selection::Deck,
            Selection::Column { index, .. } => if index > 0 {
                Selection::column_entry((index - 1) as u8, game_state)
            } else {
                Selection::Deck
            },
            Selection::Pile { .. } => Selection::column_entry(6, game_state),
        }
    }

    /// Where the cursor stands after a step to the right: from the waste
    /// pile to the first column, from a column to the next one, from the
    /// last column to the first foundation; on a foundation it stays.
    pub open spec fn moved_right(self, game_state: &GameState) -> Selection {
        match self {
            Selection::Deck => Selection::column_entry(0, game_state),
            Selection::Column { index, .. } => if index < 6 {
                Selection::column_entry((index + 1) as u8, game_state)
            } else {
                Selection::Pile { index: 0 }
            },
            Selection::Pile { .. } => self,
        }
    }

    /// The selection after a step up: on a column one card more, as far
    /// as the count can go; among the foundations the one before, if there
    /// is one. The waste pile stays as it is.
    pub open spec fn selected_up(self) -> Selection {
        match self {
            Selection::Deck => Selection::Deck,
            Selection::Column { index, card_count } => Selection::Column {
                index,
                card_count: if card_count < u8::MAX {
                    (card_count + 1) as u8
                } else {
                    card_count
                },
            },
            Selection::Pile { index } => if index > 0 {
                Selection::Pile { index: (index - 1) as u8 }
            } else {
                self
            },
        }
    }

    /// The selection after a step down: on a column one card fewer, but
    /// not fewer than none; among the foundations the next one, if there
    /// is one. The waste pile stays as it is.
    pub open spec fn selected_down(self) -> Selection {
        match self {
            Selection::Deck => Selection::Deck,
            Selection::Column { index, card_count } => if card_count > 0 {
                Selection::Column { index, card_count: (card_count - 1) as u8 }
            } else {
                self
            },
            Selection::Pile { index } => if index < 3 {
                Selection::Pile { index: (index + 1) as u8 }
            } else {
                self
            },
        }
    }

    /// How many cards of column `index` can be selected: those of the
    /// face-up run at its top. With `debug_mode` every card of the column
    /// can, face down or not.
    pub open spec fn selectable_cards(index: u8, game_state: &GameState, debug_mode: bool) -> nat {
        if debug_mode {
            game_state.columns[index as int]@.len()
        } else {
            face_up_run(game_state.columns[index as int]@)
        }
    }

    /// The number of cards that a selection of `card_count` cards comes to
    /// on a column of `length` cards of which `selectable` can be selected.
    /// On an empty column it is none. On a column with cards it is the
    /// lesser of `card_count` and `selectable`, but never fewer than one.
    pub open spec fn count_in_line(card_count: int, length: int, selectable: int) -> int {
        let cut = if card_count <= selectable {
            card_count
        } else {
            selectable
        };
        if length <= 0 {
            0
        } else if cut >= 1 {
            cut
        } else {
            1
        }
    }

    /// A selection brought in line with the column it names. On a column
    /// with cards it selects at least one card, and otherwise no more than
    /// can be selected. On an empty column it selects nothing. Selections
    /// of the waste pile and of a foundation stay as they are.
    pub open spec fn with_column_rules(self, game_state: &GameState, debug_mode: bool) -> Selection {
        match self {
            Selection::Column { index, card_count } => Selection::Column {
                index,
                card_count: Selection::count_in_line(
                    card_count as int,
                    game_state.columns[index as int]@.len() as int,
                    Selection::selectable_cards(index, game_state, debug_mode) as int,
                ) as u8,
            },
            _ => self,
        }
    }

    /// Bringing a selection in line twice gives what doing it once gives.
    pub proof fn lemma_column_rules_idempotent(
        self,
        game_state: &GameState,
        debug_mode: bool,
    )
        requires
            self.wf(),
        ensures
            self.with_column_rules(game_state, debug_mode).with_column_rules(
                game_state,
                debug_mode,
            ) == self.with_column_rules(game_state, debug_mode),
    {
        if let Selection::Column { index, .. } = self {
            lemma_face_up_run(game_state.columns[index as int]@, 0);
        }
    }

    /// A selection in line with its column names the same pile as before.
    /// On a column with cards it selects at least one card, and no more
    /// than can be selected wherever any card can; on an empty column it
    /// selects none.
    pub proof fn lemma_column_rules_bound(self, game_state: &GameState, debug_mode: bool)
        requires
            self.wf(),
        ensures
            self.with_column_rules(game_state, debug_mode).wf(),
            self.with_column_rules(game_state, debug_mode).same_collection(self),
            self.with_column_rules(game_state, debug_mode) matches Selection::Column {
                index,
                card_count,
            } ==> {
                let length = game_state.columns[index as int]@.len();
                let selectable = Selection::selectable_cards(index, game_state, debug_mode);
                &&& selectable <= length
                &&& length == 0 ==> card_count == 0
                &&& length > 0 ==> card_count >= 1
                &&& selectable > 0 ==> card_count <= selectable
                &&& selectable == 0 && length > 0 ==> card_count == 1
            },
    {
        if let Selection::Column { index, .. } = self {
            lemma_face_up_run(game_state.columns[index as int]@, 0);
        }
    }

    fn card_column(index: u8, game_state: &GameState) -> (entered: Selection)
        requires
            index < 7,
        ensures
            entered == Selection::column_entry(index, game_state),
    {
        let card_count: u8 = if game_state.columns[index as usize].0.is_empty() {
            0
        } else {
            1
        };
        Self::Column { index, card_count }
    }

    /// For the Left key.
    pub fn move_left(&mut self, game_state: &GameState)
        requires
            old(self).wf(),
        ensures
            *final(self) == old(self).moved_left(game_state),
            final(self).wf(),
    {
        *self = match *self {
            Self::Deck => Self::Deck,
            Self::Column { index, .. } => if index > 0 {
                Self::card_column(index - 1, game_state)
            } else {
                Self::Deck
            },
            Self::Pile { .. } => Self::card_column(6, game_state),
        };
    }

    /// For the Right key.
    pub fn move_right(&mut self, game_state: &GameState)
        requires
            old(self).wf(),
        ensures
            *final(self) == old(self).moved_right(game_state),
            final(self).wf(),
    {
        *self = match *self {
            Self::Deck => Self::card_column(0, game_state),
            Self::Column { index, .. } => if index < 6 {
                Self::card_column(index + 1, game_state)
            } else {
                Self::Pile { index: 0 }
            },
            Self::Pile { index } => Self::Pile { index },
        };
    }

    /// For the Up key.
    pub fn select_up(&mut self)
        ensures
            *final(self) == old(self).selected_up(),
            old(self).wf() ==> final(self).wf(),
    {
        *self = match *self {
            Self::Deck => Self::Deck,
            Self::Column { index, card_count } => Self::Column {
                index,
                card_count: if card_count < u8::MAX {
                    card_count + 1
                } else {
                    card_count
                },
            },
            Self::Pile { index } => if index > 0 {
                Self::Pile { index: index - 1 }
            } else {
                Self::Pile { index }
            },
        }
    }

    /// For the Down key.
    pub fn select_down(&mut self, game_state: &GameState)
        ensures
            *final(self) == old(self).selected_down(),
            old(self).wf() ==> final(self).wf(),
    {
        *self = match *self {
            Self::Deck => Self::Deck,
            Self::Column { index, card_count } => if card_count > 0 {
                Self::Column { index, card_count: card_count - 1 }
            } else {
                Self::Column { index, card_count }
            },
            Self::Pile { index } => if (index as usize) < game_state.card_piles.len() - 1 {
                Self::Pile { index: index + 1 }
            } else {
                Self::Pile { index }
            },
        }
    }

    /// Brings the selection in line with the column it names, as
    /// `with_column_rules` says. A second call changes nothing.
    pub fn apply_column_selection_rules(&mut self, game_state: &GameState, debug_mode: bool)
        requires
            old(self).wf(),
        ensures
            *final(self) == old(self).with_column_rules(game_state, debug_mode),
            final(self).with_column_rules(game_state, debug_mode) == *final(self),
            final(self).wf(),
    {
        proof {
            self.lemma_column_rules_idempotent(game_state, debug_mode);
        }
        if let Self::Column { index, card_count } = *self {
            if game_state.columns[index as usize].0.is_empty() {
                *self = Self::Column { index, card_count: 0 };
                return;
            }
            let max_count: usize = if debug_mode {
                // In debug mode, allow selection of face-down cards
                game_state.columns[index as usize].0.len()
            } else {
                // Only allow selection of face-up cards
                game_state.columns[index as usize].face_up_cards()
            };
            proof {
                lemma_face_up_run(game_state.columns[index as int]@, 0);
            }
            let cut: u8 = if (card_count as usize) > max_count {
                max_count as u8
            } else {
                card_count
            };
            // Prevent size zero selection for non-empty column
            let card_count: u8 = if cut == 0 {
                1
            } else {
                cut
            };
            *self = Self::Column { index, card_count };
        }
    }

    /// The pile that the selection names, for looking at its cards.
    pub fn selected_collection<'a>(&'a self, game_state: &'a GameState) -> (collection: Collection<
        'a,
    >)
        requires
            self.wf(),
        ensures
            collection.cards() == game_state.cards_at(*self),
            match *self {
                Selection::Deck => collection == Collection::Waste(&game_state.deck_drawn),
                Selection::Column { index, .. } => collection == Collection::Column(
                    &game_state.columns[index as int],
                ),
                Selection::Pile { index } => collection == Collection::Pile(
                    &game_state.card_piles[index as int],
                ),
            },
    {
        match self {
            Self::Deck => Collection::Waste(&game_state.deck_drawn),
            Self::Column { index, .. } => Collection::Column(&game_state.columns[*index as usize]),
            Self::Pile { index } => Collection::Pile(&game_state.card_piles[*index as usize]),
        }
    }
}

/// One pile of a game, borrowed to look at its cards.
pub enum Collection<'a> {
    Waste(&'a Vec<Card>),
    Column(&'a CardColumn),
    Pile(&'a CardPile),
}

impl<'a> Collection<'a> {
    /// The cards of the pile, the bottom one first.
    pub open spec fn cards(&self) -> Seq<Card> {
        match *self {
            Collection::Waste(waste) => waste@,
            Collection::Column(column) => column.cards(),
            Collection::Pile(pile) => pile@,
        }
    }

    /// The topmost card, if there is any.
    pub fn peek(&self) -> (r: Option<Card>)
        ensures
            r == top_card(self.cards()),
    {
        match self {
            Collection::Waste(waste) => waste.peek(),
            Collection::Column(column) => column.peek(),
            Collection::Pile(pile) => pile.peek(),
        }
    }

    /// The top `count` cards, the lowest first, if there are that many.
    pub fn peek_n(&self, count: usize) -> (r: Option<Vec<Card>>)
        ensures
            r is Some <==> count <= self.cards().len(),
            r matches Some(top) ==> top@ == self.cards().skip(self.cards().len() - count),
    {
        match self {
            Collection::Waste(waste) => waste.peek_n(count),
            Collection::Column(column) => column.peek_n(count),
            Collection::Pile(pile) => pile.peek_n(count),
        }
    }
}

} // verus!
