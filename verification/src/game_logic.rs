//! The rules: which card may go where, and when the game is won.
//!
//! Nothing here changes a pile but `face_up_on_columns`. The functions
//! that judge a move only look.

use crate::cards::{Card, Rank, Suit};
use crate::game_state::{
    cards_of, face_up_run, full_suit, lemma_face_up_run, CardCollection, CardState, GameState,
};
use crate::selection::Selection;
use vstd::prelude::*;

verus! {

/// Whether `card` may be put on a column that holds `column`: a King on an
/// empty column, and on any other column a card of the other colour whose
/// rank is one below that of the top card.
pub open spec fn column_accepts(column: Seq<Card>, card: Card) -> bool {
    if column.len() == 0 {
        card.rank == Rank::King
    } else {
        &&& card.rank.spec_value() + 1 == column.last().rank.spec_value()
        &&& card.suit.is_red() != column.last().suit.is_red()
    }
}

/// Whether `card` may be put on the foundation with index `pile_index`
/// that holds `pile`: a card of the foundation's suit, and then the Ace
/// on an empty foundation, and on any other one the card whose rank is
/// one above that of the top card.
pub open spec fn foundation_accepts(pile: Seq<Card>, pile_index: int, card: Card) -> bool {
    &&& card.suit.spec_index() == pile_index
    &&& if pile.len() == 0 {
        card.rank == Rank::Ace
    } else {
        card.rank.spec_value() == pile.last().rank.spec_value() + 1
    }
}

/// Whether a foundation is in order: it holds cards of its own suit only,
/// from the Ace upwards without a gap.
pub open spec fn foundation_ordered(pile: Seq<Card>, pile_index: int) -> bool {
    forall|k: int|
        0 <= k < pile.len() ==> (#[trigger] pile[k]).suit.spec_index() == pile_index && pile[k].rank.spec_value()
            == k + 1
}

/// Whether the rules allow moving what `from` selects onto the pile that
/// `to` names. Nothing goes to the pile that it comes from, whatever the
/// cards are. Nothing goes to the waste pile, and nothing from one
/// foundation to another. A move needs a card to move: from an empty pile,
/// or with no card selected, there is none. From a column to a foundation
/// a single card goes; from a column to a column the selected run goes,
/// and its lowest card decides.
pub open spec fn move_is_valid(from: Selection, to: Selection, game_state: &GameState) -> bool {
    let source = game_state.cards_at(from);
    let target = game_state.cards_at(to);
    &&& !from.same_collection(to)
    &&& match (from, to) {
        (Selection::Deck, Selection::Pile { index }) => {
            source.len() > 0 && foundation_accepts(target, index as int, source.last())
        },
        (Selection::Deck, Selection::Column { .. }) => {
            source.len() > 0 && column_accepts(target, source.last())
        },
        (Selection::Pile { .. }, Selection::Column { .. }) => {
            source.len() > 0 && column_accepts(target, source.last())
        },
        (Selection::Column { card_count, .. }, Selection::Pile { index }) => {
            card_count == 1 && source.len() > 0 && foundation_accepts(
                target,
                index as int,
                source.last(),
            )
        },
        (Selection::Column { card_count, .. }, Selection::Column { .. }) => {
            1 <= card_count <= source.len() && column_accepts(
                target,
                source[source.len() - card_count],
            )
        },
        _ => false,
    }
}

/// A move onto the pile that it starts from is never allowed, whatever
/// the cards are.
pub proof fn lemma_same_collection_is_invalid(
    from: Selection,
    to: Selection,
    game_state: &GameState,
)
    requires
        from.same_collection(to),
    ensures
        !move_is_valid(from, to, game_state),
{
}

/// Whether every foundation of a state is in order.
pub open spec fn foundations_ordered(game_state: &GameState) -> bool {
    forall|p: int| 0 <= p < 4 ==> foundation_ordered((#[trigger] game_state.card_piles[p])@, p)
}

/// Whether the game is won: there is a King on top of every foundation.
pub open spec fn is_won(game_state: &GameState) -> bool {
    forall|p: int|
        0 <= p < 4 ==> (#[trigger] game_state.card_piles[p])@.len() > 0 && game_state.card_piles[p]@.last().rank
            == Rank::King
}

/// A foundation accepts a card if and only if either the foundation is
/// empty and the card is an Ace, or the card is of the foundation's suit
/// and its rank is one above that of the top card. Every other card is
/// refused: so one that repeats the rank of the top card, and one of
/// another suit. An Ace of another suit on an empty foundation is left
/// out here: it is refused as well, because the suit has to fit on an
/// empty foundation too.
pub proof fn lemma_foundation_acceptance(pile: Seq<Card>, pile_index: int, card: Card)
    requires
        !(pile.len() == 0 && card.rank == Rank::Ace && card.suit.spec_index() != pile_index),
    ensures
        foundation_accepts(pile, pile_index, card) <==> (pile.len() == 0 && card.rank == Rank::Ace)
            || (pile.len() > 0 && card.rank.spec_value() == pile.last().rank.spec_value() + 1
            && card.suit.spec_index() == pile_index),
        card.suit.spec_index() != pile_index ==> !foundation_accepts(pile, pile_index, card),
        pile.len() > 0 && card.rank == pile.last().rank ==> !foundation_accepts(
            pile,
            pile_index,
            card,
        ),
{
}

/// A column accepts a card if and only if either the column is empty and
/// the card is a King, or the card is of the other colour than the top
/// card and its rank is one below that of the top card.
pub proof fn lemma_column_acceptance(column: Seq<Card>, card: Card)
    ensures
        column_accepts(column, card) <==> (column.len() == 0 && card.rank == Rank::King) || (
        column.len() > 0 && card.rank.spec_value() == column.last().rank.spec_value() - 1
            && card.suit.is_red() != column.last().suit.is_red()),
{
}

/// On a foundation that is in order, the card accepted is the next card
/// of the suit, and the top card has the same suit as the card accepted.
/// An Ace of another suit than that of the foundation is left out: on an
/// empty foundation it is refused, although no top card differs from it.
pub proof fn lemma_foundation_acceptance_in_order(pile: Seq<Card>, pile_index: int, card: Card)
    requires
        foundation_ordered(pile, pile_index),
        !(pile.len() == 0 && card.rank == Rank::Ace && card.suit.spec_index() != pile_index),
    ensures
        foundation_accepts(pile, pile_index, card) <==> (pile.len() == 0 && card.rank == Rank::Ace)
            || (pile.len() > 0 && card.rank.spec_value() == pile.last().rank.spec_value() + 1
            && card.suit == pile.last().suit),
        foundation_accepts(pile, pile_index, card) ==> card.rank.spec_value() == pile.len() + 1,
{
    if pile.len() > 0 {
        assert(pile[pile.len() - 1].suit.spec_index() == pile_index);
        card.suit.lemma_index_round_trip();
        pile.last().suit.lemma_index_round_trip();
    }
}

/// A foundation in order stays in order when it gets a card that it
/// accepts, and when its top card leaves.
pub proof fn lemma_foundation_stays_ordered(pile: Seq<Card>, pile_index: int, card: Card)
    requires
        foundation_ordered(pile, pile_index),
    ensures
        foundation_accepts(pile, pile_index, card) ==> foundation_ordered(
            pile.push(card),
            pile_index,
        ),
        pile.len() > 0 ==> foundation_ordered(pile.drop_last(), pile_index),
{
    if foundation_accepts(pile, pile_index, card) {
        if pile.len() > 0 {
            assert(pile[pile.len() - 1].rank.spec_value() == pile.len());
        }
        assert forall|k: int| 0 <= k < pile.push(card).len() implies (#[trigger] pile.push(
            card,
        )[k]).suit.spec_index() == pile_index && pile.push(card)[k].rank.spec_value() == k + 1 by {
            if k < pile.len() {
                assert(pile.push(card)[k] == pile[k]);
            }
        }
    }
    if pile.len() > 0 {
        assert forall|k: int| 0 <= k < pile.drop_last().len() implies (
        #[trigger] pile.drop_last()[k]).suit.spec_index() == pile_index
            && pile.drop_last()[k].rank.spec_value() == k + 1 by {
            assert(pile.drop_last()[k] == pile[k]);
        }
    }
}

/// A foundation in order has a King on top if and only if it holds its
/// whole suit.
pub proof fn lemma_ordered_foundation_complete(pile: Seq<Card>, pile_index: int)
    requires
        0 <= pile_index < 4,
        foundation_ordered(pile, pile_index),
    ensures
        (pile.len() > 0 && pile.last().rank == Rank::King) <==> pile == full_suit(pile_index),
        pile.len() <= 13,
{
    if pile.len() > 13 {
        assert(pile[13].rank.spec_value() == 14);
    }
    if pile.len() > 0 {
        assert(pile[pile.len() - 1].rank.spec_value() == pile.len());
    }
    if pile.len() == 13 {
        assert forall|k: int| 0 <= k < 13 implies pile[k] == full_suit(pile_index)[k] by {
            pile[k].suit.lemma_index_round_trip();
            pile[k].rank.lemma_value_round_trip();
        }
        assert(pile =~= full_suit(pile_index));
    }
    if pile == full_suit(pile_index) {
        assert(pile.len() == 13);
        assert(pile[12].rank == Rank::King);
    }
}

/// With every foundation in order, the game is won if and only if each
/// foundation holds all thirteen cards of its suit.
pub proof fn lemma_won_iff_complete(game_state: &GameState)
    requires
        foundations_ordered(game_state),
    ensures
        is_won(game_state) <==> (forall|p: int|
            0 <= p < 4 ==> (#[trigger] game_state.card_piles[p])@ == full_suit(p)),
{
    assert forall|p: int| 0 <= p < 4 implies (((#[trigger] game_state.card_piles[p])@.len() > 0
        && game_state.card_piles[p]@.last().rank == Rank::King) <==> game_state.card_piles[p]@
        == full_suit(p)) by {
        lemma_ordered_foundation_complete(game_state.card_piles[p]@, p);
    }
}

/// A state with the four full suits on its foundations is won.
pub proof fn lemma_full_foundations_win(game_state: &GameState)
    requires
        forall|p: int| 0 <= p < 4 ==> (#[trigger] game_state.card_piles[p])@ == full_suit(p),
    ensures
        is_won(game_state),
        foundations_ordered(game_state),
{
    assert forall|p: int| 0 <= p < 4 implies foundation_ordered(
        (#[trigger] game_state.card_piles[p])@,
        p,
    ) by {
        assert forall|k: int| 0 <= k < 13 implies (#[trigger] full_suit(p)[k]).suit.spec_index() == p
            && full_suit(p)[k].rank.spec_value() == k + 1 by {
            Suit::lemma_of_index(p);
            Rank::lemma_of_value(k + 1);
        }
    }
    lemma_won_iff_complete(game_state);
}

/// A state with a foundation that lacks its King is not won: so a game
/// fresh from the deal, whose foundations are empty, and a game whose
/// King has gone back to the tableau.
pub proof fn lemma_incomplete_is_not_won(game_state: &GameState, pile_index: int)
    requires
        0 <= pile_index < 4,
        game_state.card_piles[pile_index]@.len() == 0 || game_state.card_piles[pile_index]@
            == full_suit(pile_index).drop_last(),
    ensures
        !is_won(game_state),
{
    let pile = game_state.card_piles[pile_index]@;
    if pile.len() > 0 {
        assert(pile.last() == full_suit(pile_index)[11]);
        Rank::lemma_of_value(12);
    }
}

/// Whether the game is won: every foundation has a King on top.
pub fn victory(game_state: &GameState) -> (won: bool)
    ensures
        won == is_won(game_state),
{
    let mut p: usize = 0;
    while p < 4
        invariant
            p <= 4,
            forall|q: int|
                0 <= q < p ==> (#[trigger] game_state.card_piles[q])@.len() > 0
                    && game_state.card_piles[q]@.last().rank == Rank::King,
        decreases 4 - p,
    {
        match game_state.card_piles[p].peek() {
            Some(card) => {
                if card.rank != Rank::King {
                    return false;
                }
            },
            None => {
                return false;
            },
        }
        p = p + 1;
    }
    true
}

/// May `card` go onto the foundation with index `pile_index`?
pub fn valid_move_card_to_pile(card: Card, pile_index: usize, game_state: &GameState) -> (r:
    Result<(), ()>)
    requires
        pile_index < 4,
    ensures
        r is Ok <==> foundation_accepts(
            game_state.card_piles[pile_index as int]@,
            pile_index as int,
            card,
        ),
{
    let pile_card = game_state.card_piles[pile_index].peek();

    if card.suit.index() != pile_index {
        //wrong pile
        return Err(());
    }
    if let Some(pile_card) = pile_card {
        if card.rank.value() == pile_card.rank.value() + 1 {
            Ok(())
        } else {
            Err(())
        }
    } else if card.rank == Rank::Ace {
        Ok(())
    } else {
        Err(())
    }
}

/// May the top card of the waste pile go onto a foundation?
pub fn valid_move_deck_to_pile(pile_index: usize, game_state: &GameState) -> (r: Result<(), ()>)
    requires
        pile_index < 4,
    ensures
        r is Ok <==> game_state.deck_drawn@.len() > 0 && foundation_accepts(
            game_state.card_piles[pile_index as int]@,
            pile_index as int,
            game_state.deck_drawn@.last(),
        ),
{
    match game_state.deck_drawn.peek() {
        Some(deck_card) => valid_move_card_to_pile(deck_card, pile_index, game_state),
        None => Err(()),
    }
}

/// May `card` go onto the column with index `column_index`?
pub fn valid_move_card_to_column(card: Card, column_index: usize, game_state: &GameState) -> (r:
    Result<(), ()>)
    requires
        column_index < 7,
    ensures
        r is Ok <==> column_accepts(game_state.columns[column_index as int].cards(), card),
{
    let column_card = game_state.columns[column_index].peek();

    if let Some(column_card) = column_card {
        if card.rank.value() + 1 == column_card.rank.value() && card.suit.is_red()
            != column_card.suit.is_red() {
            Ok(())
        } else {
            Err(())
        }
    } else if card.rank == Rank::King {
        Ok(())
    } else {
        Err(())
    }
}

/// May the top card of the waste pile go onto a column?
pub fn valid_move_deck_to_column(column_index: usize, game_state: &GameState) -> (r: Result<
    (),
    (),
>)
    requires
        column_index < 7,
    ensures
        r is Ok <==> game_state.deck_drawn@.len() > 0 && column_accepts(
            game_state.columns[column_index as int].cards(),
            game_state.deck_drawn@.last(),
        ),
{
    match game_state.deck_drawn.peek() {
        Some(deck_card) => valid_move_card_to_column(deck_card, column_index, game_state),
        None => Err(()),
    }
}

/// May the top `card_count` cards of one column go onto another? The
/// lowest of them has to fit.
pub fn valid_move_column_to_column(
    from_index: usize,
    card_count: usize,
    to_index: usize,
    game_state: &GameState,
) -> (r: Result<(), ()>)
    requires
        from_index < 7,
        to_index < 7,
    ensures
        r is Ok <==> 1 <= card_count <= game_state.columns[from_index as int]@.len()
            && column_accepts(
            game_state.columns[to_index as int].cards(),
            game_state.columns[from_index as int].cards()[game_state.columns[from_index as int]@.len()
                - card_count],
        ),
{
    match game_state.columns[from_index].peek_n(card_count) {
        Some(cards) => {
            if cards.len() == 0 {
                Err(())
            } else {
                let first_card = cards[0];
                valid_move_card_to_column(first_card, to_index, game_state)
            }
        },
        None => Err(()),
    }
}

/// May the selected cards of a column go onto a foundation? Only a
/// single card may.
pub fn valid_move_column_to_pile(
    column_index: usize,
    card_count: usize,
    pile_index: usize,
    game_state: &GameState,
) -> (r: Result<(), ()>)
    requires
        column_index < 7,
        pile_index < 4,
    ensures
        r is Ok <==> card_count == 1 && game_state.columns[column_index as int]@.len() > 0
            && foundation_accepts(
            game_state.card_piles[pile_index as int]@,
            pile_index as int,
            game_state.columns[column_index as int].cards().last(),
        ),
{
    if card_count != 1 {
        return Err(());
    }
    match game_state.columns[column_index].peek() {
        Some(column_card) => valid_move_card_to_pile(column_card, pile_index, game_state),
        None => Err(()),
    }
}

/// May the top card of a foundation go back onto a column?
pub fn valid_move_pile_to_column(pile_index: usize, column_index: usize, game_state: &GameState) -> (r:
    Result<(), ()>)
    requires
        pile_index < 4,
        column_index < 7,
    ensures
        r is Ok <==> game_state.card_piles[pile_index as int]@.len() > 0 && column_accepts(
            game_state.columns[column_index as int].cards(),
            game_state.card_piles[pile_index as int]@.last(),
        ),
{
    match game_state.card_piles[pile_index].peek() {
        Some(card) => valid_move_card_to_column(card, column_index, game_state),
        None => Err(()),
    }
}

/// Do the rules allow moving what `from` selects onto the pile that `to`
/// names? A move onto the pile that it starts from is refused first;
/// after that the cards decide.
pub fn valid_move(from: Selection, to: Selection, game_state: &GameState) -> (r: Result<(), ()>)
    requires
        from.wf(),
        to.wf(),
    ensures
        r is Ok <==> move_is_valid(from, to, game_state),
        from.same_collection(to) ==> r is Err,
{
    if from.same_collection(to) {
        return Err(());
    }
    match from {
        Selection::Deck => match to {
            Selection::Deck => Err(()),
            Selection::Pile { index } => valid_move_deck_to_pile(index as usize, game_state),
            Selection::Column { index, .. } => valid_move_deck_to_column(
                index as usize,
                game_state,
            ),
        },
        Selection::Pile { index } => match to {
            Selection::Deck => Err(()),
            Selection::Pile { .. } => Err(()),
            Selection::Column { index: column_index, .. } => valid_move_pile_to_column(
                index as usize,
                column_index as usize,
                game_state,
            ),
        },
        Selection::Column { index, card_count } => match to {
            Selection::Deck => Err(()),
            Selection::Pile { index: pile_index } => valid_move_column_to_pile(
                index as usize,
                card_count as usize,
                pile_index as usize,
                game_state,
            ),
            Selection::Column { index: to_index, .. } => valid_move_column_to_column(
                index as usize,
                card_count as usize,
                to_index as usize,
                game_state,
            ),
        },
    }
}

/// A column with its top card turned face up, if it has one.
pub open spec fn with_top_face_up(entries: Seq<(Card, CardState)>) -> Seq<(Card, CardState)> {
    if entries.len() == 0 {
        entries
    } else {
        entries.update(entries.len() - 1, (entries.last().0, CardState::FaceUp))
    }
}

/// Ensure all card columns end with at least one face-up card.
/// No card moves, and no other card is turned.
pub fn face_up_on_columns(game_state: &mut GameState)
    ensures
        forall|c: int|
            0 <= c < 7 ==> (#[trigger] final(game_state).columns[c])@ == with_top_face_up(
                old(game_state).columns[c]@,
            ),
        forall|c: int|
            0 <= c < 7 ==> (#[trigger] final(game_state).columns[c])@.len() > 0 ==> face_up_run(
                final(game_state).columns[c]@,
            ) >= 1,
        forall|c: int|
            0 <= c < 7 ==> (#[trigger] final(game_state).columns[c]).cards() == old(game_state).columns[c].cards(),
        final(game_state).game_mode == old(game_state).game_mode,
        final(game_state).deck == old(game_state).deck,
        final(game_state).deck_drawn == old(game_state).deck_drawn,
        final(game_state).card_piles == old(game_state).card_piles,
        final(game_state).all_cards() == old(game_state).all_cards(),
{
    let mut c: usize = 0;
    while c < 7
        invariant
            c <= 7,
            forall|i: int|
                0 <= i < c ==> (#[trigger] game_state.columns[i])@ == with_top_face_up(
                    old(game_state).columns[i]@,
                ),
            forall|i: int| c <= i < 7 ==> (#[trigger] game_state.columns[i]) == old(game_state).columns[i],
            game_state.game_mode == old(game_state).game_mode,
            game_state.deck == old(game_state).deck,
            game_state.deck_drawn == old(game_state).deck_drawn,
            game_state.card_piles == old(game_state).card_piles,
        decreases 7 - c,
    {
        let len = game_state.columns[c].0.len();
        if len > 0 {
            let card = game_state.columns[c].0[len - 1].0;
            game_state.columns[c].0[len - 1] = (card, CardState::FaceUp);
        }
        c = c + 1;
    }
    proof {
        assert forall|i: int| 0 <= i < 7 implies (#[trigger] game_state.columns[i]).cards() == old(game_state).columns[i].cards() by {
            assert(cards_of(with_top_face_up(old(game_state).columns[i]@)) =~= cards_of(
                old(game_state).columns[i]@,
            ));
        }
        assert forall|i: int|
            0 <= i < 7 && (#[trigger] game_state.columns[i])@.len() > 0 implies face_up_run(
            game_state.columns[i]@,
        ) >= 1 by {
            lemma_face_up_run(game_state.columns[i]@, 0);
            let entries = game_state.columns[i]@;
            assert(entries[entries.len() - 1].1 == CardState::FaceUp);
        }
        assert(game_state.all_cards() =~= old(game_state).all_cards());
    }
}

} // verus!
