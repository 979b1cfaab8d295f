//! One turn of play: what a key press does to the game, and what is set
//! right after it.
//!
//! A move is judged first and carried out only if it stands, so a refused
//! move leaves the game as it was. After every action the turn pipeline
//! turns the top card of each column face up, brings the selections in
//! line with their columns, and looks whether the game is won.

use crate::cards::Card;
use crate::game_logic::{
    face_up_on_columns, foundation_ordered, foundations_ordered, is_won,
    lemma_foundation_stays_ordered, move_is_valid, valid_move, victory, with_top_face_up,
};
use crate::game_state::{face_up, CardCollection, GameMode, GameState};
use crate::selection::Selection;
use vstd::prelude::*;

verus! {

/// Why a move did not happen.
#[derive(Debug, Copy, Clone, PartialEq, Eq, Structural)]
pub enum MoveError {
    /// The rules do not allow the move from the one pile to the other.
    InvalidMove,
    /// The piles cannot carry it out: a pile does not give or receive so
    /// many cards at once. A move that the rules allow never ends so; one
    /// made without asking the rules may.
    CollectionTransferFailed,
}

/// What the turn pipeline found.
#[derive(Debug, Copy, Clone, PartialEq, Eq, Structural)]
pub enum TurnOutcome {
    Continue,
    Victory,
}

/// What can be done to the cursor.
#[derive(Debug, Copy, Clone, PartialEq, Eq, Structural)]
pub enum CursorAction {
    MoveLeft,
    MoveRight,
    ExtendUp,
    ExtendDown,
    JumpToDeck,
    JumpToLastPile,
}

/// What the action on the cards did.
#[derive(Debug, Copy, Clone, PartialEq, Eq, Structural)]
pub enum CardsActionOutcome {
    /// The cards under the cursor are picked up now.
    PickedUp,
    /// Nothing was picked up before, and the cursor selects no card.
    NothingToPick,
    /// The cards picked up before lie under the cursor now.
    Moved,
    /// The cards picked up before stay where they were.
    Rejected(MoveError),
}

/// The two selections of a player: where the cursor stands, and what has
/// been picked up to be moved, if anything.
#[derive(Debug, Copy, Clone, PartialEq, Eq, Structural)]
pub struct Cursor {
    pub cursor: Selection,
    pub selected: Option<Selection>,
}

impl Cursor {
    /// Whether both selections name piles that exist.
    pub open spec fn wf(self) -> bool {
        &&& self.cursor.wf()
        &&& self.selected matches Some(selected) ==> selected.wf()
    }

    /// The selections brought in line with their columns.
    pub open spec fn with_column_rules(self, game_state: &GameState, debug_mode: bool) -> Cursor {
        Cursor {
            cursor: self.cursor.with_column_rules(game_state, debug_mode),
            selected: match self.selected {
                Some(selected) => Some(selected.with_column_rules(game_state, debug_mode)),
                None => None,
            },
        }
    }

    /// The cursor at the start of a game: on the waste pile, with nothing
    /// picked up.
    pub fn new() -> (cursor: Cursor)
        ensures
            cursor == (Cursor { cursor: Selection::Deck, selected: None }),
            cursor.wf(),
    {
        Cursor { cursor: Selection::Deck, selected: None }
    }

    /// Do both selections name piles that exist?
    pub fn in_bounds(&self) -> (valid: bool)
        ensures
            valid == self.wf(),
    {
        self.cursor.in_bounds() && match self.selected {
            Some(selected) => selected.in_bounds(),
            None => true,
        }
    }

    /// Brings both selections in line with their columns.
    pub fn apply_column_selection_rules(&mut self, game_state: &GameState, debug_mode: bool)
        requires
            old(self).wf(),
        ensures
            *final(self) == old(self).with_column_rules(game_state, debug_mode),
            final(self).wf(),
    {
        self.cursor.apply_column_selection_rules(game_state, debug_mode);
        if let Some(mut selected) = self.selected {
            selected.apply_column_selection_rules(game_state, debug_mode);
            self.selected = Some(selected);
        }
    }
}

/// Whether the piles can carry out a move of what `from` selects to the
/// pile that `to` names: the two are not the same pile, the one gives so
/// many cards at once, and the other receives so many.
pub open spec fn transfer_allowed(from: Selection, to: Selection, game_state: &GameState) -> bool {
    &&& !from.same_collection(to)
    &&& game_state.may_take_at(from, from.card_count() as int)
    &&& GameState::may_receive_at(to, from.card_count() as int)
}

/// Whether `after` is `before` with the cards that `from` selects moved
/// onto the pile that `to` names: they have left the top of the one pile
/// and lie on top of the other in the same order, on a column face up.
/// The cards that stay on a column keep their states, and every other
/// pile is as it was.
pub open spec fn is_transfer_of(
    after: &GameState,
    before: &GameState,
    from: Selection,
    to: Selection,
) -> bool {
    let count = from.card_count() as int;
    let source = before.cards_at(from);
    let moved = source.skip(source.len() - count);
    &&& count <= source.len()
    &&& after.cards_at(from) == source.take(source.len() - count)
    &&& after.cards_at(to) == before.cards_at(to) + moved
    &&& after.same_except(before, from, to)
    &&& from matches Selection::Column { index, .. } ==> after.columns[index as int]@
        == before.columns[index as int]@.take(before.columns[index as int]@.len() - count)
    &&& to matches Selection::Column { index, .. } ==> after.columns[index as int]@
        == before.columns[index as int]@ + face_up(moved)
}

/// A move that the rules allow can be carried out by the piles.
pub proof fn lemma_valid_move_transfers(from: Selection, to: Selection, game_state: &GameState)
    requires
        from.wf(),
        to.wf(),
        move_is_valid(from, to, game_state),
    ensures
        transfer_allowed(from, to, game_state),
{
}

/// A move that the rules allow and the piles carry out keeps the
/// foundations in order.
pub proof fn lemma_valid_move_keeps_order(
    after: &GameState,
    before: &GameState,
    from: Selection,
    to: Selection,
)
    requires
        from.wf(),
        to.wf(),
        move_is_valid(from, to, before),
        is_transfer_of(after, before, from, to),
        foundations_ordered(before),
    ensures
        foundations_ordered(after),
{
    assert forall|p: int| 0 <= p < 4 implies foundation_ordered(
        (#[trigger] after.card_piles[p])@,
        p,
    ) by {
        let old_pile = before.card_piles[p]@;
        assert(foundation_ordered(old_pile, p));
        if to.is_pile(p) {
            let source = before.cards_at(from);
            let moved = source.skip(source.len() - 1);
            assert(moved =~= seq![source.last()]);
            assert(after.card_piles[p]@ =~= old_pile.push(source.last()));
            lemma_foundation_stays_ordered(old_pile, p, source.last());
        } else if from.is_pile(p) {
            assert(after.card_piles[p]@ =~= old_pile.drop_last());
            lemma_foundation_stays_ordered(old_pile, p, old_pile.last());
        } else {
            assert(after.card_piles[p] == before.card_piles[p]);
        }
    }
}

/// Moves what `from` selects onto the pile that `to` names, whatever the
/// rules say of the cards. The piles are asked first: where one of them
/// cannot do its part, or both are the same pile, nothing changes.
pub fn move_cards(from: Selection, to: Selection, game_state: &mut GameState) -> (r: Result<
    (),
    (),
>)
    requires
        from.wf(),
        to.wf(),
    ensures
        r is Ok <==> transfer_allowed(from, to, old(game_state)),
        r is Ok ==> is_transfer_of(final(game_state), old(game_state), from, to),
        r is Err ==> *final(game_state) == *old(game_state),
        final(game_state).all_cards() == old(game_state).all_cards(),
{
    if from.same_collection(to) {
        return Err(());
    }
    let count = from.card_count();
    let receives = match to {
        Selection::Column { .. } => true,
        _ => count == 1,
    };
    if !receives {
        return Err(());
    }
    match game_state.take_from(from, count) {
        Ok(cards) => {
            let ghost lifted = *game_state;
            let received = game_state.receive_at(to, cards);
            proof {
                lifted.lemma_same_elsewhere(old(game_state), from, from, to);
                game_state.lemma_same_elsewhere(&lifted, to, to, from);
                game_state.lemma_same_except_both(&lifted, old(game_state), from, to);
            }
            received
        },
        Err(_) => Err(()),
    }
}

/// Moves what `from` selects onto the pile that `to` names if the rules
/// allow it. A move that the rules refuse changes nothing and is an
/// `InvalidMove`; so is every move onto the pile that it starts from. A
/// move that the rules allow is always carried out.
pub fn attempt_move(from: Selection, to: Selection, game_state: &mut GameState) -> (r: Result<
    (),
    MoveError,
>)
    requires
        from.wf(),
        to.wf(),
    ensures
        r is Ok <==> move_is_valid(from, to, old(game_state)),
        r is Err ==> r == Err::<(), MoveError>(MoveError::InvalidMove),
        from.same_collection(to) ==> r is Err,
        r is Ok ==> is_transfer_of(final(game_state), old(game_state), from, to),
        r is Err ==> *final(game_state) == *old(game_state),
        final(game_state).all_cards() == old(game_state).all_cards(),
        foundations_ordered(old(game_state)) ==> foundations_ordered(final(game_state)),
{
    if valid_move(from, to, game_state).is_err() {
        return Err(MoveError::InvalidMove);
    }
    proof {
        lemma_valid_move_transfers(from, to, game_state);
    }
    match move_cards(from, to, game_state) {
        Ok(_) => {
            proof {
                if foundations_ordered(old(game_state)) {
                    lemma_valid_move_keeps_order(game_state, old(game_state), from, to);
                }
            }
            Ok(())
        },
        Err(_) => Err(MoveError::CollectionTransferFailed),
    }
}

/// The top card of a column, as a selection.
pub open spec fn top_of_column(column_index: u8) -> Selection {
    Selection::Column { index: column_index, card_count: 1 }
}

/// Whether the rules allow the top card of a column to go to the
/// foundation with index `pile_index`.
pub open spec fn top_goes_to(column_index: u8, pile_index: u8, game_state: &GameState) -> bool {
    move_is_valid(top_of_column(column_index), Selection::Pile { index: pile_index }, game_state)
}

/// At most one foundation accepts the top card of a column: the one of
/// the card's suit.
pub proof fn lemma_one_foundation_at_most(
    column_index: u8,
    pile_index: u8,
    other_index: u8,
    game_state: &GameState,
)
    requires
        top_goes_to(column_index, pile_index, game_state),
        top_goes_to(column_index, other_index, game_state),
    ensures
        pile_index == other_index,
        pile_index == game_state.columns[column_index as int].cards().last().suit.spec_index(),
{
}

/// Tries the four foundations in turn for the top card of a column and
/// moves the card to the first one that accepts it. Returns the index of
/// that foundation; where none accepts the card, nothing changes.
pub fn auto_place_to_foundation(column_index: u8, game_state: &mut GameState) -> (placed: Option<
    u8,
>)
    requires
        column_index < 7,
    ensures
        placed matches Some(p) ==> {
            &&& p < 4
            &&& top_goes_to(column_index, p, old(game_state))
            &&& forall|q: u8|
                q < p ==> !#[trigger] top_goes_to(column_index, q, old(game_state))
            &&& is_transfer_of(
                final(game_state),
                old(game_state),
                top_of_column(column_index),
                Selection::Pile { index: p },
            )
        },
        placed is None ==> {
            &&& forall|q: u8|
                q < 4 ==> !#[trigger] top_goes_to(column_index, q, old(game_state))
            &&& *final(game_state) == *old(game_state)
        },
        final(game_state).all_cards() == old(game_state).all_cards(),
        foundations_ordered(old(game_state)) ==> foundations_ordered(final(game_state)),
{
    let from = Selection::Column { index: column_index, card_count: 1 };
    let mut i: u8 = 0;
    while i < 4
        invariant
            i <= 4,
            column_index < 7,
            from == top_of_column(column_index),
            *game_state == *old(game_state),
            forall|q: u8|
                q < i ==> !#[trigger] top_goes_to(column_index, q, old(game_state)),
        decreases 4 - i,
    {
        let to = Selection::Pile { index: i };
        if attempt_move(from, to, game_state).is_ok() {
            return Some(i);
        }
        i = i + 1;
    }
    None
}

/// Where the cursor stands after `action`, before it is brought in line
/// with its column. A jump to the foundations lands on the first of them.
pub open spec fn cursor_after(
    action: CursorAction,
    game_state: &GameState,
    selection: Selection,
) -> Selection {
    match action {
        CursorAction::MoveLeft => selection.moved_left(game_state),
        CursorAction::MoveRight => selection.moved_right(game_state),
        CursorAction::ExtendUp => selection.selected_up(),
        CursorAction::ExtendDown => selection.selected_down(),
        CursorAction::JumpToDeck => Selection::Deck,
        CursorAction::JumpToLastPile => Selection::Pile { index: 0 },
    }
}

/// Moves the cursor or changes how many cards it selects, and brings the
/// outcome in line with the column it names: a step that would select
/// more cards than can be selected is cut down, and on a column with cards
/// a selection of none becomes one of a single card.
pub fn apply_cursor_action(
    action: CursorAction,
    game_state: &GameState,
    selection: Selection,
    debug_mode: bool,
) -> (moved: Selection)
    requires
        selection.wf(),
    ensures
        moved == cursor_after(action, game_state, selection).with_column_rules(
            game_state,
            debug_mode,
        ),
        moved.wf(),
{
    let mut moved = selection;
    match action {
        CursorAction::MoveLeft => moved.move_left(game_state),
        CursorAction::MoveRight => moved.move_right(game_state),
        CursorAction::ExtendUp => moved.select_up(),
        CursorAction::ExtendDown => moved.select_down(game_state),
        CursorAction::JumpToDeck => {
            moved = Selection::Deck;
        },
        CursorAction::JumpToLastPile => {
            moved = Selection::Pile { index: 0 };
        },
    }
    moved.apply_column_selection_rules(game_state, debug_mode);
    moved
}

/// The action of the key that selects and moves. With cards picked up,
/// it tries to move them to where the cursor stands, and nothing is picked
/// up afterwards, whatever came of the move. With nothing picked up, it
/// picks up what the cursor selects, if that is any card at all.
pub fn cards_action(game_state: &mut GameState, cursor: &mut Cursor) -> (outcome:
    CardsActionOutcome)
    requires
        old(cursor).wf(),
    ensures
        final(cursor).cursor == old(cursor).cursor,
        final(cursor).wf(),
        final(game_state).all_cards() == old(game_state).all_cards(),
        foundations_ordered(old(game_state)) ==> foundations_ordered(final(game_state)),
        match old(cursor).selected {
            Some(from) => {
                &&& final(cursor).selected is None
                &&& outcome == (if move_is_valid(from, old(cursor).cursor, old(game_state)) {
                    CardsActionOutcome::Moved
                } else {
                    CardsActionOutcome::Rejected(MoveError::InvalidMove)
                })
                &&& outcome == CardsActionOutcome::Moved ==> is_transfer_of(
                    final(game_state),
                    old(game_state),
                    from,
                    old(cursor).cursor,
                )
                &&& outcome != CardsActionOutcome::Moved ==> *final(game_state) == *old(game_state)
            },
            None => {
                &&& *final(game_state) == *old(game_state)
                &&& old(cursor).cursor.card_count() > 0 ==> outcome == CardsActionOutcome::PickedUp
                    && final(cursor).selected == Some(old(cursor).cursor)
                &&& old(cursor).cursor.card_count() == 0 ==> outcome
                    == CardsActionOutcome::NothingToPick && final(cursor).selected is None
            },
        },
{
    match cursor.selected {
        Some(from) => {
            cursor.selected = None;
            match attempt_move(from, cursor.cursor, game_state) {
                Ok(_) => CardsActionOutcome::Moved,
                Err(e) => CardsActionOutcome::Rejected(e),
            }
        },
        None => {
            if cursor.cursor.card_count() > 0 {
                cursor.selected = Some(cursor.cursor);
                CardsActionOutcome::PickedUp
            } else {
                CardsActionOutcome::NothingToPick
            }
        },
    }
}

/// The action of the key that moves without asking the rules. With cards
/// picked up, it moves them to where the cursor stands if the piles can
/// carry that out. With nothing picked up, it picks up what the cursor
/// selects.
pub fn unchecked_cards_action(game_state: &mut GameState, cursor: &mut Cursor) -> (outcome:
    CardsActionOutcome)
    requires
        old(cursor).wf(),
    ensures
        final(cursor).cursor == old(cursor).cursor,
        final(cursor).wf(),
        final(game_state).all_cards() == old(game_state).all_cards(),
        match old(cursor).selected {
            Some(from) => {
                &&& final(cursor).selected is None
                &&& outcome == (if transfer_allowed(from, old(cursor).cursor, old(game_state)) {
                    CardsActionOutcome::Moved
                } else {
                    CardsActionOutcome::Rejected(MoveError::CollectionTransferFailed)
                })
                &&& outcome == CardsActionOutcome::Moved ==> is_transfer_of(
                    final(game_state),
                    old(game_state),
                    from,
                    old(cursor).cursor,
                )
                &&& outcome != CardsActionOutcome::Moved ==> *final(game_state) == *old(game_state)
            },
            None => {
                &&& *final(game_state) == *old(game_state)
                &&& outcome == CardsActionOutcome::PickedUp
                &&& final(cursor).selected == Some(old(cursor).cursor)
            },
        },
{
    match cursor.selected {
        Some(from) => {
            cursor.selected = None;
            match move_cards(from, cursor.cursor, game_state) {
                Ok(_) => CardsActionOutcome::Moved,
                Err(_) => CardsActionOutcome::Rejected(MoveError::CollectionTransferFailed),
            }
        },
        None => {
            cursor.selected = Some(cursor.cursor);
            CardsActionOutcome::PickedUp
        },
    }
}

/// What the Enter key did.
#[derive(Debug, Copy, Clone, PartialEq, Eq, Structural)]
pub enum EnterOutcome {
    /// The cursor stood on the waste pile: a draw was made.
    Drew,
    /// The cursor stood on a column: its top card went to the foundation
    /// with this index.
    Placed(u8),
    /// Nothing happened.
    Nothing,
}

/// The action of the Enter key. On the waste pile it draws from the deck.
/// On a column it sends the top card to the first foundation that accepts
/// it. On a foundation it does nothing.
pub fn enter_key_action(game_state: &mut GameState, cursor: Selection) -> (outcome: EnterOutcome)
    requires
        cursor.wf(),
    ensures
        final(game_state).all_cards() == old(game_state).all_cards(),
        foundations_ordered(old(game_state)) ==> foundations_ordered(final(game_state)),
        match cursor {
            Selection::Deck => outcome == EnterOutcome::Drew && final(game_state).is_hit_of(
                old(game_state),
            ),
            Selection::Column { index, .. } => match outcome {
                EnterOutcome::Placed(p) => {
                    &&& p < 4
                    &&& top_goes_to(index, p, old(game_state))
                    &&& forall|q: u8| q < p ==> !#[trigger] top_goes_to(index, q, old(game_state))
                    &&& is_transfer_of(
                        final(game_state),
                        old(game_state),
                        top_of_column(index),
                        Selection::Pile { index: p },
                    )
                },
                EnterOutcome::Nothing => {
                    &&& forall|q: u8|
                        q < 4 ==> !#[trigger] top_goes_to(index, q, old(game_state))
                    &&& *final(game_state) == *old(game_state)
                },
                EnterOutcome::Drew => false,
            },
            Selection::Pile { .. } => {
                &&& outcome == EnterOutcome::Nothing
                &&& *final(game_state) == *old(game_state)
            },
        },
{
    match cursor {
        Selection::Deck => {
            game_state.deck_hit();
            EnterOutcome::Drew
        },
        Selection::Column { index, .. } => {
            match auto_place_to_foundation(index, game_state) {
                Some(p) => EnterOutcome::Placed(p),
                None => EnterOutcome::Nothing,
            }
        },
        Selection::Pile { .. } => EnterOutcome::Nothing,
    }
}

/// The hint for the Enter key, as a sequence of characters.
pub open spec fn spec_context_help_message(cursor: Selection) -> Seq<char> {
    match cursor {
        Selection::Deck => "Enter: Hit"@,
        Selection::Column { .. } => "Enter: Try to Move to Stack"@,
        Selection::Pile { .. } => ""@,
    }
}

/// What the Enter key would do where the cursor stands, in words.
pub fn context_help_message(cursor: Selection) -> (message: &'static str)
    ensures
        message@ == spec_context_help_message(cursor),
{
    match cursor {
        Selection::Deck => "Enter: Hit",
        Selection::Column { .. } => "Enter: Try to Move to Stack",
        _ => "",
    }
}

/// Whether `after` is what the first steps of the turn pipeline make of
/// `before`: the top card of every column lies face up, and a draw was
/// made if `auto_draw` asks for one and the deck has cards while the waste
/// pile has none. No card has moved otherwise.
pub open spec fn is_repair_of(after: &GameState, before: &GameState, auto_draw: bool) -> bool {
    &&& after.game_mode == before.game_mode
    &&& after.card_piles == before.card_piles
    &&& forall|c: int|
        0 <= c < 7 ==> (#[trigger] after.columns[c])@ == with_top_face_up(before.columns[c]@)
    &&& if auto_draw && before.deck@.len() > 0 && before.deck_drawn@.len() == 0 {
        after.stock_is_hit_of(before)
    } else {
        after.deck == before.deck && after.deck_drawn == before.deck_drawn
    }
}

/// What is set right after every action, in this order: the top card of
/// each column is turned face up; if `auto_draw` is on, a draw is made
/// where the deck has cards and the waste pile has none; both selections
/// are brought in line with their columns; and the game is looked at for
/// victory.
pub fn run_turn_pipeline(
    game_state: &mut GameState,
    cursor: &mut Cursor,
    auto_draw: bool,
    debug_mode: bool,
) -> (outcome: TurnOutcome)
    requires
        old(cursor).wf(),
    ensures
        is_repair_of(final(game_state), old(game_state), auto_draw),
        final(game_state).all_cards() == old(game_state).all_cards(),
        *final(cursor) == old(cursor).with_column_rules(final(game_state), debug_mode),
        final(cursor).with_column_rules(final(game_state), debug_mode) == *final(cursor),
        final(cursor).wf(),
        outcome == (if is_won(final(game_state)) {
            TurnOutcome::Victory
        } else {
            TurnOutcome::Continue
        }),
{
    // Ensure a face-up card at the end of each column
    face_up_on_columns(game_state);
    // Hit if the deck has cards and the drawn deck is empty
    if auto_draw {
        game_state.auto_hit();
    }
    // Fix column selections, if needed
    cursor.apply_column_selection_rules(game_state, debug_mode);
    proof {
        old(cursor).cursor.lemma_column_rules_idempotent(game_state, debug_mode);
        if let Some(selected) = old(cursor).selected {
            selected.lemma_column_rules_idempotent(game_state, debug_mode);
        }
    }
    if victory(game_state) {
        TurnOutcome::Victory
    } else {
        TurnOutcome::Continue
    }
}

/// Deals a new game in the given mode from a deck that is shuffled here.
pub fn new_game(game_mode: GameMode) -> (state: GameState)
    ensures
        state.game_mode == game_mode,
        state.all_cards() == Card::spec_ordered_deck().to_multiset(),
        exists|deck: Seq<Card>|
            deck.to_multiset() == Card::spec_ordered_deck().to_multiset()
                && #[trigger] state.is_deal_of(deck),
{
    let deck = Card::shuffled_deck();
    restart_game(deck, game_mode)
}

/// Deals a game in the given mode from `seed_deck`, card by card as
/// `GameState::init` says. The same deck gives the same game.
pub fn restart_game(seed_deck: Vec<Card>, game_mode: GameMode) -> (state: GameState)
    requires
        seed_deck@.len() >= 28,
    ensures
        state.game_mode == game_mode,
        state.is_deal_of(seed_deck@),
        state.all_cards() == seed_deck@.to_multiset(),
{
    let mut state = GameState::init(seed_deck);
    state.game_mode = game_mode;
    state
}

} // verus!
