//! The piles of a game and what may be done to each of them.
//!
//! A `GameState` owns every card: the deck, the waste pile, seven tableau
//! columns and four foundations. Cards only ever move between these, so
//! the cards of a state, counted as a multiset, never change.

use crate::cards::{Card, Rank, Suit};
use crate::selection::Selection;
use vstd::multiset::Multiset;
use vstd::prelude::*;
use vstd::seq_lib::{
    lemma_multiset_commutative, to_multiset_build, to_multiset_contains, to_multiset_len,
};

verus! {

/// Whether a card in a tableau column shows its face.
#[derive(Debug, Default, Copy, Clone, Eq, PartialEq, Structural)]
pub enum CardState {
    #[default]
    FaceUp,
    FaceDown,
}

/// A tableau column: cards with their states, the bottom one first.
#[derive(Debug, Clone, Eq, PartialEq)]
pub struct CardColumn(pub Vec<(Card, CardState)>);

/// A foundation: cards, the bottom one first.
#[derive(Debug, Clone, Eq, PartialEq)]
pub struct CardPile(pub Vec<Card>);

/// How many cards one draw moves from the deck to the waste pile.
#[derive(Debug, Default, Copy, Clone, Eq, PartialEq, Structural)]
pub enum GameMode {
    #[default]
    DrawOne,
    DrawThree,
}

impl View for CardColumn {
    type V = Seq<(Card, CardState)>;

    open spec fn view(&self) -> Seq<(Card, CardState)> {
        self.0@
    }
}

impl View for CardPile {
    type V = Seq<Card>;

    open spec fn view(&self) -> Seq<Card> {
        self.0@
    }
}

/// The cards of a column, without their states.
pub open spec fn cards_of(entries: Seq<(Card, CardState)>) -> Seq<Card> {
    entries.map_values(|e: (Card, CardState)| e.0)
}

/// Cards as a column holds them once it has received them: all face up.
pub open spec fn face_up(cards: Seq<Card>) -> Seq<(Card, CardState)> {
    cards.map_values(|c: Card| (c, CardState::FaceUp))
}

/// The topmost card, if there is any.
pub open spec fn top_card(cards: Seq<Card>) -> Option<Card> {
    if cards.len() == 0 {
        None
    } else {
        Some(cards.last())
    }
}

/// The length of the unbroken run of face-up cards that ends at the top.
pub open spec fn face_up_run(entries: Seq<(Card, CardState)>) -> nat
    decreases entries.len(),
{
    if entries.len() == 0 || entries.last().1 != CardState::FaceUp {
        0
    } else {
        1 + face_up_run(entries.drop_last())
    }
}

/// What `face_up_run` counts: the top `n` entries are face up, and the
/// entry below them, if there is one, is not.
pub open spec fn is_face_up_run(entries: Seq<(Card, CardState)>, n: int) -> bool {
    &&& 0 <= n <= entries.len()
    &&& forall|i: int| entries.len() - n <= i < entries.len() ==> (#[trigger] entries[i]).1 == CardState::FaceUp
    &&& n < entries.len() ==> entries[entries.len() - n - 1].1 == CardState::FaceDown
}

/// `face_up_run` is the one number that `is_face_up_run` holds of.
pub proof fn lemma_face_up_run(entries: Seq<(Card, CardState)>, n: int)
    ensures
        is_face_up_run(entries, face_up_run(entries) as int),
        is_face_up_run(entries, n) ==> n == face_up_run(entries),
    decreases entries.len(),
{
    if entries.len() == 0 {
    } else if entries.last().1 != CardState::FaceUp {
        if is_face_up_run(entries, n) && n > 0 {
            assert(entries[entries.len() - 1].1 == CardState::FaceUp);
        }
    } else {
        let rest = entries.drop_last();
        lemma_face_up_run(rest, n - 1);
        let k = face_up_run(rest) as int;
        assert(is_face_up_run(entries, k + 1)) by {
            assert forall|i: int| entries.len() - (k + 1) <= i < entries.len() implies (
            #[trigger] entries[i]).1 == CardState::FaceUp by {
                if i < rest.len() {
                    assert(rest[i] == entries[i]);
                }
            }
            if k + 1 < entries.len() {
                assert(rest[rest.len() - k - 1] == entries[entries.len() - (k + 1) - 1]);
            }
        }
        if is_face_up_run(entries, n) {
            assert(n >= 1);
            assert(is_face_up_run(rest, n - 1)) by {
                assert forall|i: int| rest.len() - (n - 1) <= i < rest.len() implies (
                #[trigger] rest[i]).1 == CardState::FaceUp by {
                    assert(rest[i] == entries[i]);
                }
                if n - 1 < rest.len() {
                    assert(rest[rest.len() - (n - 1) - 1] == entries[entries.len() - n - 1]);
                }
            }
        }
    }
}

/// Taking the states off commutes with cutting a column in two.
pub proof fn lemma_cards_of_split(entries: Seq<(Card, CardState)>, at: int)
    requires
        0 <= at <= entries.len(),
    ensures
        cards_of(entries.take(at)) == cards_of(entries).take(at),
        cards_of(entries.skip(at)) == cards_of(entries).skip(at),
{
    assert(cards_of(entries.take(at)) =~= cards_of(entries).take(at));
    assert(cards_of(entries.skip(at)) =~= cards_of(entries).skip(at));
}

/// Received cards lie on a column face up, and are the cards received.
pub proof fn lemma_cards_of_received(entries: Seq<(Card, CardState)>, cards: Seq<Card>)
    ensures
        cards_of(entries + face_up(cards)) == cards_of(entries) + cards,
        cards_of(face_up(cards)) == cards,
{
    assert(cards_of(entries + face_up(cards)) =~= cards_of(entries) + cards);
    assert(cards_of(face_up(cards)) =~= cards);
}

/// What a column holds after its top `count` cards were taken and then
/// received again.
pub open spec fn taken_and_received(entries: Seq<(Card, CardState)>, count: int) -> Seq<
    (Card, CardState),
> {
    entries.take(entries.len() - count) + face_up(cards_of(entries).skip(entries.len() - count))
}

/// Taking the top cards of a column and giving them back restores the
/// cards in their order and the states of the cards below. The cards that
/// were taken lie face up afterwards, whatever they were before: the
/// column is as it was if and only if all of them lay face up.
pub proof fn lemma_column_round_trip(entries: Seq<(Card, CardState)>, count: int)
    requires
        0 <= count <= entries.len(),
    ensures
        cards_of(taken_and_received(entries, count)) == cards_of(entries),
        taken_and_received(entries, count).len() == entries.len(),
        forall|i: int|
            0 <= i < entries.len() - count ==> #[trigger] taken_and_received(entries, count)[i]
                == entries[i],
        forall|i: int|
            entries.len() - count <= i < entries.len() ==> #[trigger] taken_and_received(
                entries,
                count,
            )[i] == (entries[i].0, CardState::FaceUp),
        taken_and_received(entries, count) == entries <==> count <= face_up_run(entries),
{
    let back = taken_and_received(entries, count);
    let run = face_up_run(entries) as int;
    assert(cards_of(back) =~= cards_of(entries));
    lemma_face_up_run(entries, 0);
    if count <= run {
        assert(back =~= entries);
    }
    if back == entries && run < count {
        assert(back[entries.len() - run - 1].1 == CardState::FaceUp);
    }
}

/// Taking the top cards of a pile and giving them back restores the pile.
pub proof fn lemma_pile_round_trip(cards: Seq<Card>, count: int)
    requires
        0 <= count <= cards.len(),
    ensures
        cards.take(cards.len() - count) + cards.skip(cards.len() - count) == cards,
{
    assert(cards.take(cards.len() - count) + cards.skip(cards.len() - count) =~= cards);
}

/// A pile cut in two holds, as a multiset, what the two parts hold.
pub proof fn lemma_split_multiset(cards: Seq<Card>, at: int)
    requires
        0 <= at <= cards.len(),
    ensures
        cards.to_multiset() == cards.take(at).to_multiset().add(cards.skip(at).to_multiset()),
{
    assert(cards =~= cards.take(at) + cards.skip(at));
    lemma_multiset_commutative(cards.take(at), cards.skip(at));
}

/// What every pile of the game can do: give its top cards, take cards on
/// top, and show its top cards. Each kind of pile has its own rule on how
/// many cards may leave or arrive at once.
pub trait CardCollection {
    /// The cards held, the bottom one first.
    spec fn cards(&self) -> Seq<Card>;

    /// Whether `count` cards may be taken at once.
    spec fn may_take(&self, count: int) -> bool;

    /// Whether `count` cards may be received at once.
    spec fn may_receive(&self, count: int) -> bool;

    /// Removes the top `count` cards and returns them, the lowest first.
    /// Where the pile does not allow it, nothing changes.
    fn take(&mut self, count: usize) -> (r: Result<Vec<Card>, ()>)
        ensures
            r is Ok <==> old(self).may_take(count as int),
            r matches Ok(taken) ==> {
                &&& count <= old(self).cards().len()
                &&& taken@ == old(self).cards().skip(old(self).cards().len() - count)
                &&& final(self).cards() == old(self).cards().take(old(self).cards().len() - count)
            },
            r is Err ==> final(self).cards() == old(self).cards(),
    ;

    /// Puts the cards on top, the first one lowest.
    /// Where the pile does not allow it, nothing changes.
    fn receive(&mut self, cards: Vec<Card>) -> (r: Result<(), ()>)
        ensures
            r is Ok <==> old(self).may_receive(cards@.len() as int),
            r is Ok ==> final(self).cards() == old(self).cards() + cards@,
            r is Err ==> final(self).cards() == old(self).cards(),
    ;

    /// The topmost card, if there is any.
    fn peek(&self) -> (r: Option<Card>)
        ensures
            r == top_card(self.cards()),
    ;

    /// The top `count` cards, the lowest first, if there are that many.
    fn peek_n(&self, count: usize) -> (r: Option<Vec<Card>>)
        ensures
            r is Some <==> count <= self.cards().len(),
            r matches Some(top) ==> top@ == self.cards().skip(self.cards().len() - count),
    ;
}

/// Copies the top `count` cards of a pile, the lowest first.
fn copy_top(cards: &Vec<Card>, count: usize) -> (top: Vec<Card>)
    requires
        count <= cards@.len(),
    ensures
        top@ == cards@.skip(cards@.len() - count),
{
    let len = cards.len();
    let start = len - count;
    let mut top: Vec<Card> = Vec::new();
    let mut i: usize = start;
    while i < len
        invariant
            len == cards@.len(),
            start == len - count,
            start <= i <= len,
            top@.len() == i - start,
            forall|k: int| 0 <= k < top@.len() ==> top@[k] == cards@[start + k],
        decreases len - i,
    {
        top.push(cards[i]);
        i = i + 1;
    }
    assert(top@ =~= cards@.skip(cards@.len() - count));
    top
}

impl CardCollection for CardColumn {
    open spec fn cards(&self) -> Seq<Card> {
        cards_of(self@)
    }

    /// A column gives any number of cards that it holds.
    open spec fn may_take(&self, count: int) -> bool {
        count <= self@.len()
    }

    /// A column receives any number of cards.
    open spec fn may_receive(&self, count: int) -> bool {
        true
    }

    /// The cards leave without their states; those that stay keep theirs.
    fn take(&mut self, count: usize) -> (r: Result<Vec<Card>, ()>)
        ensures
            r is Ok ==> final(self)@ == old(self)@.take(old(self)@.len() - count),
            r is Err ==> *final(self) == *old(self),
    {
        match self.peek_n(count) {
            Some(taken) => {
                let rest = self.0.len() - count;
                proof {
                    lemma_cards_of_split(self@, rest as int);
                }
                self.0.truncate(rest);
                Ok(taken)
            },
            None => Err(()),
        }
    }

    /// Every card received lies face up.
    fn receive(&mut self, cards: Vec<Card>) -> (r: Result<(), ()>)
        ensures
            r is Ok,
            final(self)@ == old(self)@ + face_up(cards@),
    {
        let n = cards.len();
        let mut i: usize = 0;
        while i < n
            invariant
                n == cards@.len(),
                i <= n,
                self@ == old(self)@ + face_up(cards@.take(i as int)),
            decreases n - i,
        {
            self.0.push((cards[i], CardState::FaceUp));
            proof {
                assert(cards@.take(i + 1) =~= cards@.take(i as int).push(cards@[i as int]));
                assert(self@ =~= old(self)@ + face_up(cards@.take(i + 1)));
            }
            i = i + 1;
        }
        proof {
            assert(cards@.take(n as int) =~= cards@);
            lemma_cards_of_received(old(self)@, cards@);
        }
        Ok(())
    }

    fn peek(&self) -> (r: Option<Card>) {
        let len = self.0.len();
        if len == 0 {
            None
        } else {
            Some(self.0[len - 1].0)
        }
    }

    fn peek_n(&self, count: usize) -> (r: Option<Vec<Card>>) {
        let len = self.0.len();
        if count > len {
            return None;
        }
        let start = len - count;
        let mut top: Vec<Card> = Vec::new();
        let mut i: usize = start;
        while i < len
            invariant
                len == self@.len(),
                start == len - count,
                start <= i <= len,
                top@.len() == i - start,
                forall|k: int| 0 <= k < top@.len() ==> top@[k] == self@[start + k].0,
            decreases len - i,
        {
            top.push(self.0[i].0);
            i = i + 1;
        }
        assert(top@ =~= cards_of(self@).skip(self@.len() - count));
        Some(top)
    }
}

impl CardCollection for CardPile {
    open spec fn cards(&self) -> Seq<Card> {
        self@
    }

    /// A foundation gives one card at a time.
    open spec fn may_take(&self, count: int) -> bool {
        count == 1 && self@.len() >= 1
    }

    /// A foundation receives one card at a time.
    open spec fn may_receive(&self, count: int) -> bool {
        count == 1
    }

    fn take(&mut self, count: usize) -> (r: Result<Vec<Card>, ()>)
        ensures
            r is Err ==> *final(self) == *old(self),
    {
        self.0.take(count)
    }

    fn receive(&mut self, cards: Vec<Card>) -> (r: Result<(), ()>)
        ensures
            r is Err ==> *final(self) == *old(self),
    {
        self.0.receive(cards)
    }

    fn peek(&self) -> (r: Option<Card>) {
        self.0.peek()
    }

    fn peek_n(&self, count: usize) -> (r: Option<Vec<Card>>) {
        self.0.peek_n(count)
    }
}

impl CardCollection for Vec<Card> {
    open spec fn cards(&self) -> Seq<Card> {
        self@
    }

    /// The waste pile gives one card at a time.
    open spec fn may_take(&self, count: int) -> bool {
        count == 1 && self@.len() >= 1
    }

    /// The waste pile receives one card at a time.
    open spec fn may_receive(&self, count: int) -> bool {
        count == 1
    }

    fn take(&mut self, count: usize) -> (r: Result<Vec<Card>, ()>)
        ensures
            r is Err ==> *final(self) == *old(self),
    {
        if count != 1 || self.len() == 0 {
            return Err(());
        }
        let card = self.pop().unwrap();
        let mut taken: Vec<Card> = Vec::new();
        taken.push(card);
        proof {
            assert(taken@ =~= old(self)@.skip(old(self)@.len() - 1));
            assert(self@ =~= old(self)@.take(old(self)@.len() - 1));
        }
        Ok(taken)
    }

    fn receive(&mut self, cards: Vec<Card>) -> (r: Result<(), ()>)
        ensures
            r is Err ==> *final(self) == *old(self),
    {
        if cards.len() != 1 {
            return Err(());
        }
        self.push(cards[0]);
        proof {
            assert(self@ =~= old(self)@ + cards@);
        }
        Ok(())
    }

    fn peek(&self) -> (r: Option<Card>) {
        let len = self.len();
        if len == 0 {
            None
        } else {
            Some(self[len - 1])
        }
    }

    fn peek_n(&self, count: usize) -> (r: Option<Vec<Card>>) {
        if count > self.len() {
            None
        } else {
            Some(copy_top(self, count))
        }
    }
}

impl CardColumn {
    /// How many cards at the top of the column lie face up in an unbroken
    /// run.
    pub fn face_up_cards(&self) -> (n: usize)
        ensures
            n == face_up_run(self@),
            is_face_up_run(self@, n as int),
    {
        let len = self.0.len();
        let mut n: usize = 0;
        while n < len && self.0[len - 1 - n].1 == CardState::FaceUp
            invariant
                len == self@.len(),
                n <= len,
                forall|i: int| len - n <= i < len ==> (#[trigger] self@[i]).1 == CardState::FaceUp,
            decreases len - n,
        {
            n = n + 1;
        }
        proof {
            lemma_face_up_run(self@, n as int);
        }
        n
    }
}

/// The whole of a game: the deck to draw from, the waste pile that draws
/// go to, the seven columns of the tableau and the four foundations, one
/// for each suit in the order Hearts, Spades, Diamonds, Clubs.
#[derive(Debug, Clone, Eq, PartialEq)]
pub struct GameState {
    pub game_mode: GameMode,
    pub deck: Vec<Card>,
    pub deck_drawn: Vec<Card>,
    pub columns: [CardColumn; 7],
    pub card_piles: [CardPile; 4],
}

/// The cards of the seven columns together, each as often as it occurs.
pub open spec fn tableau_cards(columns: [CardColumn; 7]) -> Multiset<Card> {
    columns[0].cards().to_multiset().add(columns[1].cards().to_multiset()).add(
        columns[2].cards().to_multiset(),
    ).add(columns[3].cards().to_multiset()).add(columns[4].cards().to_multiset()).add(
        columns[5].cards().to_multiset(),
    ).add(columns[6].cards().to_multiset())
}

/// The cards of the four foundations together, each as often as it occurs.
pub open spec fn foundation_cards(piles: [CardPile; 4]) -> Multiset<Card> {
    piles[0]@.to_multiset().add(piles[1]@.to_multiset()).add(piles[2]@.to_multiset()).add(
        piles[3]@.to_multiset(),
    )
}

/// Where one column gains cards and the others stay, the tableau gains
/// those cards.
pub proof fn lemma_tableau_gain(
    before: [CardColumn; 7],
    after: [CardColumn; 7],
    i: int,
    gained: Multiset<Card>,
)
    requires
        0 <= i < 7,
        forall|j: int| 0 <= j < 7 && j != i ==> after[j] == before[j],
        after[i].cards().to_multiset() == before[i].cards().to_multiset().add(gained),
    ensures
        tableau_cards(after) == tableau_cards(before).add(gained),
{
    assert(tableau_cards(after) =~= tableau_cards(before).add(gained));
}

/// Where one foundation gains cards and the others stay, the foundations
/// gain those cards.
pub proof fn lemma_foundation_gain(
    before: [CardPile; 4],
    after: [CardPile; 4],
    i: int,
    gained: Multiset<Card>,
)
    requires
        0 <= i < 4,
        forall|j: int| 0 <= j < 4 && j != i ==> after[j] == before[j],
        after[i]@.to_multiset() == before[i]@.to_multiset().add(gained),
    ensures
        foundation_cards(after) == foundation_cards(before).add(gained),
{
    assert(foundation_cards(after) =~= foundation_cards(before).add(gained));
}

impl GameState {
    pub const COLUMN_COUNT: usize = 7;

    pub const CARD_PILES_COUNT: usize = 4;

    /// Every card of the game, each as often as it occurs in any pile.
    /// No operation of the game changes this.
    pub open spec fn all_cards(&self) -> Multiset<Card> {
        self.deck@.to_multiset().add(self.deck_drawn@.to_multiset()).add(
            tableau_cards(self.columns),
        ).add(foundation_cards(self.card_piles))
    }

    /// The cards of the pile that a selection names, the bottom one first.
    pub open spec fn cards_at(&self, at: Selection) -> Seq<Card> {
        match at {
            Selection::Deck => self.deck_drawn@,
            Selection::Column { index, .. } => self.columns[index as int].cards(),
            Selection::Pile { index } => self.card_piles[index as int]@,
        }
    }

    /// Whether the pile that a selection names gives `count` cards at once.
    pub open spec fn may_take_at(&self, at: Selection, count: int) -> bool {
        match at {
            Selection::Deck => self.deck_drawn.may_take(count),
            Selection::Column { index, .. } => self.columns[index as int].may_take(count),
            Selection::Pile { index } => self.card_piles[index as int].may_take(count),
        }
    }

    /// Whether the pile that a selection names receives `count` cards at
    /// once: a column always, the others one card only.
    pub open spec fn may_receive_at(at: Selection, count: int) -> bool {
        at is Column || count == 1
    }

    /// Whether two states agree in everything but the piles that `a` and
    /// `b` name.
    pub open spec fn same_except(&self, other: &GameState, a: Selection, b: Selection) -> bool {
        &&& self.game_mode == other.game_mode
        &&& self.deck == other.deck
        &&& a is Deck || b is Deck || self.deck_drawn == other.deck_drawn
        &&& forall|i: int|
            0 <= i < 7 ==> a.is_column(i) || b.is_column(i) || self.columns[i] == other.columns[i]
        &&& forall|i: int|
            0 <= i < 4 ==> a.is_pile(i) || b.is_pile(i) || self.card_piles[i]
                == other.card_piles[i]
    }

    /// A game that holds the cards of the deck holds fifty-two cards, and
    /// every card there is exactly once: no card is in two piles, and none
    /// is missing.
    pub proof fn lemma_every_card_once(&self, card: Card)
        requires
            self.all_cards() == Card::spec_ordered_deck().to_multiset(),
        ensures
            self.all_cards().len() == 52,
            self.all_cards().count(card) == 1,
    {
        let deck = Card::spec_ordered_deck();
        Card::lemma_ordered_deck_distinct();
        to_multiset_len(deck);
        deck.lemma_multiset_has_no_duplicates();
        card.lemma_card_in_ordered_deck();
        assert(deck.contains(card));
        to_multiset_contains(deck, card);
    }

    /// Two states that agree in everything but two piles agree in every
    /// third pile.
    pub proof fn lemma_same_elsewhere(
        &self,
        other: &GameState,
        a: Selection,
        b: Selection,
        at: Selection,
    )
        requires
            self.same_except(other, a, b),
            at.wf(),
            !at.same_collection(a),
            !at.same_collection(b),
        ensures
            self.cards_at(at) == other.cards_at(at),
            at matches Selection::Column { index, .. } ==> self.columns[index as int]
                == other.columns[index as int],
            at matches Selection::Pile { index } ==> self.card_piles[index as int]
                == other.card_piles[index as int],
            at is Deck ==> self.deck_drawn == other.deck_drawn,
    {
        match at {
            Selection::Deck => {},
            Selection::Column { index, .. } => {
                assert(!a.is_column(index as int));
                assert(!b.is_column(index as int));
            },
            Selection::Pile { index } => {
                assert(!a.is_pile(index as int));
                assert(!b.is_pile(index as int));
            },
        }
    }

    /// A change of one pile followed by a change of another is a change of
    /// these two piles and of nothing else.
    pub proof fn lemma_same_except_both(
        &self,
        between: &GameState,
        before: &GameState,
        a: Selection,
        b: Selection,
    )
        requires
            between.same_except(before, a, a),
            self.same_except(between, b, b),
        ensures
            self.same_except(before, a, b),
    {
        assert forall|i: int| 0 <= i < 7 implies a.is_column(i) || b.is_column(i)
            || self.columns[i] == before.columns[i] by {
            assert(a.is_column(i) || between.columns[i] == before.columns[i]);
            assert(b.is_column(i) || self.columns[i] == between.columns[i]);
        }
        assert forall|i: int| 0 <= i < 4 implies a.is_pile(i) || b.is_pile(i)
            || self.card_piles[i] == before.card_piles[i] by {
            assert(a.is_pile(i) || between.card_piles[i] == before.card_piles[i]);
            assert(b.is_pile(i) || self.card_piles[i] == between.card_piles[i]);
        }
    }

    /// Removes the top `count` cards of the pile that `at` names and
    /// returns them, the lowest first. Where that pile does not give
    /// `count` cards at once, nothing changes.
    pub fn take_from(&mut self, at: Selection, count: usize) -> (r: Result<Vec<Card>, ()>)
        requires
            at.wf(),
        ensures
            r is Ok <==> old(self).may_take_at(at, count as int),
            r matches Ok(taken) ==> {
                &&& count <= old(self).cards_at(at).len()
                &&& taken@ == old(self).cards_at(at).skip(old(self).cards_at(at).len() - count)
                &&& final(self).cards_at(at) == old(self).cards_at(at).take(
                    old(self).cards_at(at).len() - count,
                )
                &&& final(self).same_except(old(self), at, at)
                &&& final(self).all_cards().add(taken@.to_multiset()) == old(self).all_cards()
            },
            at matches Selection::Column { index, .. } ==> (r is Ok ==> final(self).columns[index as int]@
                == old(self).columns[index as int]@.take(
                old(self).columns[index as int]@.len() - count,
            )),
            r is Err ==> *final(self) == *old(self),
    {
        match at {
            Selection::Deck => {
                let r = self.deck_drawn.take(count);
                proof {
                    if r is Ok {
                        let cards = old(self).deck_drawn@;
                        lemma_split_multiset(cards, cards.len() - count);
                        assert(self.all_cards().add(r->Ok_0@.to_multiset()) =~= old(self).all_cards());
                    }
                }
                r
            },
            Selection::Column { index, .. } => {
                let r = self.columns[index as usize].take(count);
                proof {
                    if r is Ok {
                        let cards = old(self).columns[index as int].cards();
                        lemma_split_multiset(cards, cards.len() - count);
                        lemma_tableau_gain(
                            self.columns,
                            old(self).columns,
                            index as int,
                            r->Ok_0@.to_multiset(),
                        );
                        assert(self.all_cards().add(r->Ok_0@.to_multiset()) =~= old(self).all_cards());
                    } else {
                        assert(self.columns =~= old(self).columns);
                    }
                }
                r
            },
            Selection::Pile { index } => {
                let r = self.card_piles[index as usize].take(count);
                proof {
                    if r is Ok {
                        let cards = old(self).card_piles[index as int]@;
                        lemma_split_multiset(cards, cards.len() - count);
                        lemma_foundation_gain(
                            self.card_piles,
                            old(self).card_piles,
                            index as int,
                            r->Ok_0@.to_multiset(),
                        );
                        assert(self.all_cards().add(r->Ok_0@.to_multiset()) =~= old(self).all_cards());
                    } else {
                        assert(self.card_piles =~= old(self).card_piles);
                    }
                }
                r
            },
        }
    }

    /// Puts the cards on top of the pile that `at` names, the first one
    /// lowest; on a column they lie face up. Where that pile does not
    /// receive so many cards at once, nothing changes.
    pub fn receive_at(&mut self, at: Selection, cards: Vec<Card>) -> (r: Result<(), ()>)
        requires
            at.wf(),
        ensures
            r is Ok <==> GameState::may_receive_at(at, cards@.len() as int),
            r is Ok ==> {
                &&& final(self).cards_at(at) == old(self).cards_at(at) + cards@
                &&& final(self).same_except(old(self), at, at)
                &&& final(self).all_cards() == old(self).all_cards().add(cards@.to_multiset())
            },
            at matches Selection::Column { index, .. } ==> (r is Ok ==> final(self).columns[index as int]@
                == old(self).columns[index as int]@ + face_up(cards@)),
            r is Err ==> *final(self) == *old(self),
    {
        let ghost received = cards@;
        match at {
            Selection::Deck => {
                let r = self.deck_drawn.receive(cards);
                proof {
                    if r is Ok {
                        lemma_multiset_commutative(old(self).deck_drawn@, received);
                        assert(self.all_cards() =~= old(self).all_cards().add(
                            received.to_multiset(),
                        ));
                    }
                }
                r
            },
            Selection::Column { index, .. } => {
                let r = self.columns[index as usize].receive(cards);
                proof {
                    lemma_multiset_commutative(old(self).columns[index as int].cards(), received);
                    lemma_tableau_gain(
                        old(self).columns,
                        self.columns,
                        index as int,
                        received.to_multiset(),
                    );
                    assert(self.all_cards() =~= old(self).all_cards().add(
                        received.to_multiset(),
                    ));
                }
                r
            },
            Selection::Pile { index } => {
                let r = self.card_piles[index as usize].receive(cards);
                proof {
                    if r is Ok {
                        lemma_multiset_commutative(old(self).card_piles[index as int]@, received);
                        lemma_foundation_gain(
                            old(self).card_piles,
                            self.card_piles,
                            index as int,
                            received.to_multiset(),
                        );
                        assert(self.all_cards() =~= old(self).all_cards().add(
                            received.to_multiset(),
                        ));
                    } else {
                        assert(self.card_piles =~= old(self).card_piles);
                    }
                }
                r
            },
        }
    }
}

/// How many cards have been dealt before the first card of a column: the
/// columns get one card, two cards, three and so on, in turn.
pub open spec fn dealt_before(column: int) -> int {
    column * (column + 1) / 2
}

/// The card that the deal puts at `row` of `column`, counted from the
/// bottom. The deal takes the cards from the end of the deck backwards.
pub open spec fn dealt_card(deck: Seq<Card>, column: int, row: int) -> Card {
    deck[deck.len() - 1 - dealt_before(column) - row]
}

/// The thirteen cards of one suit, from the Ace up to the King.
pub open spec fn full_suit(suit: int) -> Seq<Card> {
    Seq::new(13, |k: int| Card { suit: Suit::of_index(suit), rank: Rank::of_value(k + 1) })
}

/// Each column is dealt one card more than the column before it, and the
/// seven columns take twenty-eight cards in all.
pub proof fn lemma_dealt_before(column: int)
    requires
        0 <= column < 7,
    ensures
        dealt_before(0) == 0,
        dealt_before(7) == 28,
        dealt_before(column + 1) == dealt_before(column) + column + 1,
        0 <= dealt_before(column) <= 21,
{
    assert(column * (column + 1) + 2 * (column + 1) == (column + 1) * (column + 2))
        by (nonlinear_arith);
    assert(0 <= column * (column + 1) <= 42) by (nonlinear_arith)
        requires
            0 <= column < 7,
    ;
}

/// A pile without cards holds the empty multiset.
pub proof fn lemma_no_cards(cards: Seq<Card>)
    requires
        cards.len() == 0,
    ensures
        cards.to_multiset() == Multiset::<Card>::empty(),
{
    to_multiset_len(cards);
    assert(cards.to_multiset() =~= Multiset::<Card>::empty());
}

/// Columns without cards hold, all together, the empty multiset.
pub proof fn lemma_empty_tableau(columns: [CardColumn; 7])
    requires
        forall|i: int| 0 <= i < 7 ==> (#[trigger] columns[i])@.len() == 0,
    ensures
        tableau_cards(columns) == Multiset::<Card>::empty(),
{
    assert forall|i: int| 0 <= i < 7 implies (#[trigger] columns[i]).cards().to_multiset()
        == Multiset::<Card>::empty() by {
        lemma_no_cards(columns[i].cards());
    }
    assert(tableau_cards(columns) =~= Multiset::<Card>::empty());
}

/// Foundations without cards hold, all together, the empty multiset.
pub proof fn lemma_empty_foundations(piles: [CardPile; 4])
    requires
        forall|i: int| 0 <= i < 4 ==> (#[trigger] piles[i])@.len() == 0,
    ensures
        foundation_cards(piles) == Multiset::<Card>::empty(),
{
    assert forall|i: int| 0 <= i < 4 implies (#[trigger] piles[i])@.to_multiset()
        == Multiset::<Card>::empty() by {
        lemma_no_cards(piles[i]@);
    }
    assert(foundation_cards(piles) =~= Multiset::<Card>::empty());
}

/// The four suits, one after the other, make up the ordered deck.
pub proof fn lemma_suits_make_deck()
    ensures
        full_suit(0) + full_suit(1) + full_suit(2) + full_suit(3) == Card::spec_ordered_deck(),
        full_suit(0).to_multiset().add(full_suit(1).to_multiset()).add(
            full_suit(2).to_multiset(),
        ).add(full_suit(3).to_multiset()) == Card::spec_ordered_deck().to_multiset(),
{
    let deck = full_suit(0) + full_suit(1) + full_suit(2) + full_suit(3);
    assert(deck =~= Card::spec_ordered_deck());
    lemma_multiset_commutative(full_suit(0), full_suit(1));
    lemma_multiset_commutative(full_suit(0) + full_suit(1), full_suit(2));
    lemma_multiset_commutative(full_suit(0) + full_suit(1) + full_suit(2), full_suit(3));
}

/// Two piles hold the same cards whichever is counted first.
pub proof fn lemma_pair_swap(a: Seq<Card>, b: Seq<Card>)
    ensures
        a.to_multiset().add(b.to_multiset()) == b.to_multiset().add(a.to_multiset()),
{
    assert(a.to_multiset().add(b.to_multiset()) =~= b.to_multiset().add(a.to_multiset()));
}

/// Moves up to `count` cards, one by one, from the top of `from` to the
/// top of `to`: the card that was topmost comes to lie lowest.
fn pour(from: &mut Vec<Card>, to: &mut Vec<Card>, count: usize)
    ensures
        final(from)@ == old(from)@.take(old(from)@.len() - poured(old(from)@, count as int)),
        final(to)@ == old(to)@ + old(from)@.skip(
            old(from)@.len() - poured(old(from)@, count as int),
        ).reverse(),
        final(from)@.to_multiset().add(final(to)@.to_multiset()) == old(from)@.to_multiset().add(
            old(to)@.to_multiset(),
        ),
{
    let ghost source = from@;
    let ghost target = to@;
    let mut moved: usize = 0;
    while moved < count && from.len() > 0
        invariant
            moved <= count,
            moved <= source.len(),
            from@ == source.take(source.len() - moved),
            to@ == target + source.skip(source.len() - moved).reverse(),
        decreases count - moved,
    {
        let card = from.pop().unwrap();
        to.push(card);
        moved = moved + 1;
        proof {
            assert(from@ =~= source.take(source.len() - moved));
            assert(to@ =~= target + source.skip(source.len() - moved).reverse());
        }
    }
    proof {
        let rest = source.take(source.len() - moved);
        let top = source.skip(source.len() - moved);
        lemma_split_multiset(source, source.len() - moved);
        lemma_multiset_commutative(target, top.reverse());
        top.lemma_reverse_to_multiset();
        assert(from@.to_multiset().add(to@.to_multiset()) =~= source.to_multiset().add(
            target.to_multiset(),
        ));
    }
}

/// How many cards leave a pile that is asked for `count` of them.
pub open spec fn poured(cards: Seq<Card>, count: int) -> int {
    if count <= cards.len() {
        count
    } else {
        cards.len() as int
    }
}

impl GameMode {
    /// The number of cards that one draw moves, as far as the deck has
    /// them.
    pub open spec fn spec_draw_count(self) -> usize {
        match self {
            GameMode::DrawOne => 1,
            GameMode::DrawThree => 3,
        }
    }

    #[verifier::when_used_as_spec(spec_draw_count)]
    pub fn draw_count(self) -> (count: usize)
        ensures
            count == self.spec_draw_count(),
    {
        match self {
            GameMode::DrawOne => 1,
            GameMode::DrawThree => 3,
        }
    }
}

impl Default for CardColumn {
    fn default() -> (column: Self)
        ensures
            column@ == Seq::<(Card, CardState)>::empty(),
    {
        CardColumn(Vec::new())
    }
}

impl Default for CardPile {
    fn default() -> (pile: Self)
        ensures
            pile@ == Seq::<Card>::empty(),
    {
        CardPile(Vec::new())
    }
}

impl Default for GameState {
    /// A state without any card, in the mode that draws one.
    fn default() -> (state: Self)
        ensures
            state.is_bare(),
            state.all_cards() == Multiset::<Card>::empty(),
    {
        let state = GameState {
            game_mode: GameMode::DrawOne,
            deck: Vec::new(),
            deck_drawn: Vec::new(),
            columns: [
                CardColumn::default(),
                CardColumn::default(),
                CardColumn::default(),
                CardColumn::default(),
                CardColumn::default(),
                CardColumn::default(),
                CardColumn::default(),
            ],
            card_piles: [
                CardPile::default(),
                CardPile::default(),
                CardPile::default(),
                CardPile::default(),
            ],
        };
        proof {
            state.lemma_bare_holds_nothing();
        }
        state
    }
}

impl GameState {
    /// Whether the state holds no card at all and draws one card at a time.
    pub open spec fn is_bare(&self) -> bool {
        &&& self.game_mode == GameMode::DrawOne
        &&& self.deck@.len() == 0
        &&& self.deck_drawn@.len() == 0
        &&& forall|i: int| 0 <= i < 7 ==> (#[trigger] self.columns[i])@.len() == 0
        &&& forall|i: int| 0 <= i < 4 ==> (#[trigger] self.card_piles[i])@.len() == 0
    }

    /// Whether the piles are those that dealing from `deck` leaves: each
    /// column has one card more than the one before it, all face down, in
    /// the order in which the cards came off the end of the deck; the rest
    /// of the deck is there to draw from, and no card lies elsewhere.
    pub open spec fn is_deal_of(&self, deck: Seq<Card>) -> bool {
        &&& deck.len() >= 28
        &&& self.deck@ == deck.take(deck.len() - 28)
        &&& self.deck_drawn@.len() == 0
        &&& forall|c: int| 0 <= c < 7 ==> (#[trigger] self.columns[c])@.len() == c + 1
        &&& forall|c: int, r: int|
            0 <= r <= c < 7 ==> #[trigger] self.columns[c]@[r] == (
                dealt_card(deck, c, r),
                CardState::FaceDown,
            )
        &&& forall|p: int| 0 <= p < 4 ==> (#[trigger] self.card_piles[p])@.len() == 0
    }

    /// What one draw makes of the deck and the waste pile. With cards in
    /// the deck, the top ones go to the waste pile, as many as the mode says
    /// and the deck has, the topmost first. With an empty deck, the waste
    /// pile is turned over and becomes the deck, and nothing is drawn yet.
    pub open spec fn stock_is_hit_of(&self, before: &GameState) -> bool {
        &&& before.deck@.len() == 0 ==> {
            &&& self.deck@ == before.deck_drawn@.reverse()
            &&& self.deck_drawn@ == Seq::<Card>::empty()
        }
        &&& before.deck@.len() > 0 ==> {
            let drawn = poured(before.deck@, before.game_mode.draw_count() as int);
            &&& self.deck@ == before.deck@.take(before.deck@.len() - drawn)
            &&& self.deck_drawn@ == before.deck_drawn@ + before.deck@.skip(
                before.deck@.len() - drawn,
            ).reverse()
        }
    }

    /// What one draw makes of a state: of the deck and the waste pile
    /// what `stock_is_hit_of` says, while the tableau, the foundations and
    /// the mode stay.
    pub open spec fn is_hit_of(&self, before: &GameState) -> bool {
        &&& self.game_mode == before.game_mode
        &&& self.columns == before.columns
        &&& self.card_piles == before.card_piles
        &&& self.stock_is_hit_of(before)
    }

    /// A bare state holds no cards.
    pub proof fn lemma_bare_holds_nothing(&self)
        requires
            self.is_bare(),
        ensures
            self.all_cards() == Multiset::<Card>::empty(),
    {
        lemma_no_cards(self.deck@);
        self.lemma_deal_start(self.deck@);
    }

    /// Deals a new game from `deck`. The cards come off the end of the
    /// deck: one to the first column, two to the second, up to seven to the
    /// last, all of them face down. What is left of the deck is there to
    /// draw from.
    pub fn init(deck: Vec<Card>) -> (state: Self)
        requires
            deck@.len() >= 28,
        ensures
            state.game_mode == GameMode::DrawOne,
            state.is_deal_of(deck@),
            state.all_cards() == deck@.to_multiset(),
    {
        let ghost dealt = deck@;
        let mut state = GameState::default();
        state.deck = deck;
        proof {
            lemma_dealt_before(0);
            assert(state.deck@ =~= dealt.take(dealt.len() - dealt_before(0)));
            state.lemma_deal_start(dealt);
        }
        let mut c: usize = 0;
        while c < 7
            invariant
                c <= 7,
                dealt.len() >= 28,
                state.game_mode == GameMode::DrawOne,
                state.deck_drawn@.len() == 0,
                state.deck@ == dealt.take(dealt.len() - dealt_before(c as int)),
                forall|i: int| 0 <= i < c ==> (#[trigger] state.columns[i])@.len() == i + 1,
                forall|i: int| c <= i < 7 ==> (#[trigger] state.columns[i])@.len() == 0,
                forall|i: int, r: int|
                    0 <= r <= i < c ==> #[trigger] state.columns[i]@[r] == (
                        dealt_card(dealt, i, r),
                        CardState::FaceDown,
                    ),
                forall|p: int| 0 <= p < 4 ==> (#[trigger] state.card_piles[p])@.len() == 0,
                state.all_cards() == dealt.to_multiset(),
            decreases 7 - c,
        {
            let mut r: usize = 0;
            while r <= c
                invariant
                    c < 7,
                    r <= c + 1,
                    dealt.len() >= 28,
                    state.game_mode == GameMode::DrawOne,
                    state.deck_drawn@.len() == 0,
                    state.deck@ == dealt.take(dealt.len() - dealt_before(c as int) - r),
                    forall|i: int| 0 <= i < c ==> (#[trigger] state.columns[i])@.len() == i + 1,
                    state.columns[c as int]@.len() == r,
                    forall|i: int| c < i < 7 ==> (#[trigger] state.columns[i])@.len() == 0,
                    forall|i: int, k: int|
                        0 <= k <= i < c ==> #[trigger] state.columns[i]@[k] == (
                            dealt_card(dealt, i, k),
                            CardState::FaceDown,
                        ),
                    forall|k: int|
                        0 <= k < r ==> #[trigger] state.columns[c as int]@[k] == (
                            dealt_card(dealt, c as int, k),
                            CardState::FaceDown,
                        ),
                    forall|p: int| 0 <= p < 4 ==> (#[trigger] state.card_piles[p])@.len() == 0,
                    state.all_cards() == dealt.to_multiset(),
                decreases c + 1 - r,
            {
                proof {
                    lemma_dealt_before(c as int);
                }
                let ghost before = state;
                let card = state.deck.pop().unwrap();
                state.columns[c].0.push((card, CardState::FaceDown));
                proof {
                    assert(card == dealt_card(dealt, c as int, r as int));
                    assert(state.deck@ =~= dealt.take(dealt.len() - dealt_before(c as int) - (r + 1)));
                    state.lemma_dealt_one(&before, c as int, card);
                }
                r = r + 1;
            }
            proof {
                lemma_dealt_before(c as int);
            }
            c = c + 1;
        }
        proof {
            lemma_dealt_before(0);
        }
        state
    }

    /// Draws from the deck. With cards in the deck, the top ones go to
    /// the waste pile, as many as the mode says and the deck has. With an
    /// empty deck, the waste pile is turned over to be the new deck.
    pub fn deck_hit(&mut self)
        ensures
            final(self).is_hit_of(old(self)),
            final(self).all_cards() == old(self).all_cards(),
    {
        if self.deck.is_empty() {
            let count = self.deck_drawn.len();
            pour(&mut self.deck_drawn, &mut self.deck, count);
            proof {
                assert(self.deck@ =~= old(self).deck_drawn@.reverse());
                assert(self.deck_drawn@ =~= Seq::<Card>::empty());
                lemma_pair_swap(self.deck_drawn@, self.deck@);
                lemma_pair_swap(old(self).deck_drawn@, old(self).deck@);
            }
        } else {
            let count = self.game_mode.draw_count();
            pour(&mut self.deck, &mut self.deck_drawn, count);
        }
    }

    /// Draws once if there are cards in the deck and none on the waste
    /// pile; else does nothing.
    pub fn auto_hit(&mut self)
        ensures
            old(self).deck@.len() > 0 && old(self).deck_drawn@.len() == 0 ==> final(self).is_hit_of(
                old(self),
            ),
            !(old(self).deck@.len() > 0 && old(self).deck_drawn@.len() == 0) ==> *final(self)
                == *old(self),
            final(self).all_cards() == old(self).all_cards(),
    {
        if !self.deck.is_empty() && self.deck_drawn.is_empty() {
            self.deck_hit();
        }
    }

    /// A game that is won: each foundation holds its suit from the Ace up
    /// to the King, and no card lies anywhere else.
    pub fn victory() -> (state: Self)
        ensures
            state.game_mode == GameMode::DrawOne,
            state.deck@.len() == 0,
            state.deck_drawn@.len() == 0,
            forall|c: int| 0 <= c < 7 ==> (#[trigger] state.columns[c])@.len() == 0,
            forall|p: int| 0 <= p < 4 ==> (#[trigger] state.card_piles[p])@ == full_suit(p),
            state.all_cards() == Card::spec_ordered_deck().to_multiset(),
    {
        let mut state = GameState::default();
        let mut s: usize = 0;
        while s < 4
            invariant
                s <= 4,
                state.game_mode == GameMode::DrawOne,
                state.deck@.len() == 0,
                state.deck_drawn@.len() == 0,
                forall|c: int| 0 <= c < 7 ==> (#[trigger] state.columns[c])@.len() == 0,
                forall|p: int| 0 <= p < s ==> (#[trigger] state.card_piles[p])@ == full_suit(p),
                forall|p: int| s <= p < 4 ==> (#[trigger] state.card_piles[p])@.len() == 0,
            decreases 4 - s,
        {
            let suit: Suit = Suit::from_index(s).unwrap();
            let mut r: u8 = 1;
            while r <= 13
                invariant
                    s < 4,
                    1 <= r <= 14,
                    suit == Suit::of_index(s as int),
                    state.game_mode == GameMode::DrawOne,
                    state.deck@.len() == 0,
                    state.deck_drawn@.len() == 0,
                    forall|c: int| 0 <= c < 7 ==> (#[trigger] state.columns[c])@.len() == 0,
                    forall|p: int| 0 <= p < s ==> (#[trigger] state.card_piles[p])@ == full_suit(p),
                    forall|p: int| s < p < 4 ==> (#[trigger] state.card_piles[p])@.len() == 0,
                    state.card_piles[s as int]@ == full_suit(s as int).take(r - 1),
                decreases 14 - r,
            {
                let rank: Rank = Rank::from_value(r).unwrap();
                state.card_piles[s].0.push(Card { suit, rank });
                proof {
                    assert(state.card_piles[s as int]@ =~= full_suit(s as int).take(r as int));
                }
                r = r + 1;
            }
            proof {
                assert(state.card_piles[s as int]@ =~= full_suit(s as int));
            }
            s = s + 1;
        }
        proof {
            state.lemma_won_holds_deck();
        }
        state
    }

    /// A game one move away from being won: as `victory`, but the King
    /// of Hearts lies face up on the first column.
    pub fn almost_victory() -> (state: Self)
        ensures
            state.game_mode == GameMode::DrawOne,
            state.deck@.len() == 0,
            state.deck_drawn@.len() == 0,
            state.columns[0]@ == seq![
                (Card { suit: Suit::Hearts, rank: Rank::King }, CardState::FaceUp),
            ],
            forall|c: int| 1 <= c < 7 ==> (#[trigger] state.columns[c])@.len() == 0,
            state.card_piles[0]@ == full_suit(0).drop_last(),
            forall|p: int| 1 <= p < 4 ==> (#[trigger] state.card_piles[p])@ == full_suit(p),
            state.all_cards() == Card::spec_ordered_deck().to_multiset(),
    {
        let mut x = Self::victory();
        let ghost won = x;
        let card = x.card_piles[0].0.pop().unwrap();
        let ghost lifted = x;
        x.columns[0].0.push((card, CardState::FaceUp));
        proof {
            assert(x.columns[0]@ =~= seq![
                (Card { suit: Suit::Hearts, rank: Rank::King }, CardState::FaceUp),
            ]);
            let gained = Multiset::<Card>::singleton(card);
            assert(won.card_piles[0]@ =~= lifted.card_piles[0]@.push(card));
            to_multiset_build(lifted.card_piles[0]@, card);
            assert(won.card_piles[0]@.to_multiset() =~= lifted.card_piles[0]@.to_multiset().add(
                gained,
            ));
            lemma_foundation_gain(lifted.card_piles, won.card_piles, 0, gained);
            assert(x.columns[0].cards() =~= lifted.columns[0].cards().push(card));
            to_multiset_build(lifted.columns[0].cards(), card);
            assert(x.columns[0].cards().to_multiset() =~= lifted.columns[0].cards().to_multiset().add(
                gained,
            ));
            lemma_tableau_gain(lifted.columns, x.columns, 0, gained);
            assert(x.all_cards() =~= won.all_cards());
        }
        x
    }

    /// A state with the four full suits on the foundations and nothing
    /// else holds exactly the cards of the deck.
    proof fn lemma_won_holds_deck(&self)
        requires
            self.deck@.len() == 0,
            self.deck_drawn@.len() == 0,
            forall|c: int| 0 <= c < 7 ==> (#[trigger] self.columns[c])@.len() == 0,
            forall|p: int| 0 <= p < 4 ==> (#[trigger] self.card_piles[p])@ == full_suit(p),
        ensures
            self.all_cards() == Card::spec_ordered_deck().to_multiset(),
    {
        lemma_no_cards(self.deck@);
        lemma_no_cards(self.deck_drawn@);
        lemma_empty_tableau(self.columns);
        lemma_suits_make_deck();
        assert(self.card_piles[0]@ == full_suit(0));
        assert(self.card_piles[1]@ == full_suit(1));
        assert(self.card_piles[2]@ == full_suit(2));
        assert(self.card_piles[3]@ == full_suit(3));
        assert(self.all_cards() =~= Card::spec_ordered_deck().to_multiset());
    }

    /// A state with nothing but a deck holds the cards of that deck.
    proof fn lemma_deal_start(&self, deck: Seq<Card>)
        requires
            self.deck@ == deck,
            self.deck_drawn@.len() == 0,
            forall|i: int| 0 <= i < 7 ==> (#[trigger] self.columns[i])@.len() == 0,
            forall|i: int| 0 <= i < 4 ==> (#[trigger] self.card_piles[i])@.len() == 0,
        ensures
            self.all_cards() == deck.to_multiset(),
    {
        lemma_no_cards(self.deck_drawn@);
        lemma_empty_tableau(self.columns);
        lemma_empty_foundations(self.card_piles);
        assert(self.all_cards() =~= deck.to_multiset());
    }

    /// Dealing the top card of the deck to a column keeps the cards of the
    /// game.
    proof fn lemma_dealt_one(&self, before: &GameState, column: int, card: Card)
        requires
            0 <= column < 7,
            before.deck@.len() > 0,
            card == before.deck@.last(),
            self.deck@ == before.deck@.drop_last(),
            self.deck_drawn == before.deck_drawn,
            self.card_piles == before.card_piles,
            forall|j: int| 0 <= j < 7 && j != column ==> self.columns[j] == before.columns[j],
            self.columns[column]@ == before.columns[column]@.push((card, CardState::FaceDown)),
        ensures
            self.all_cards() == before.all_cards(),
    {
        let gained = Multiset::<Card>::singleton(card);
        assert(before.deck@ =~= self.deck@.push(card));
        to_multiset_build(self.deck@, card);
        assert(self.columns[column].cards() =~= before.columns[column].cards().push(card));
        to_multiset_build(before.columns[column].cards(), card);
        assert(self.columns[column].cards().to_multiset() =~= before.columns[column].cards().to_multiset().add(
            gained,
        ));
        lemma_tableau_gain(before.columns, self.columns, column, gained);
        assert(self.all_cards() =~= before.all_cards());
    }
}

} // verus!
