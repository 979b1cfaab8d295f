//! A Klondike Solitaire rules-and-state engine.
//!
//! The engine tracks a deck, a waste pile, seven tableau columns and four
//! foundations, and decides which card movements between them are legal.
//!
//! Every function carries a contract, and Verus proves each of them but
//! those of the module `shuffle`. That module is the boundary to the
//! `rand` crate: what it states of `rand::thread_rng` and of the shuffle
//! of a slice is believed, not proved. That a shuffled deck holds the
//! cards of the ordered deck rests on it.

pub mod cards;
pub mod flow;
pub mod game_logic;
pub mod game_state;
pub mod layout;
pub mod selection;
pub mod shuffle;
pub mod turn;
