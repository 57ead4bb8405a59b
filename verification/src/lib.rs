//! Rules of the UNO card game as a verified library: cards and the deck,
//! hands and players, the game state machine, the per-player view that a
//! server sends out, the lobby, and the decisions of a server session.

pub mod card;
pub mod client;
pub mod action;
pub mod event;
pub mod player;
pub mod protocol;
pub mod error;
pub mod laws;
pub mod lobby;
pub mod locale;
pub mod rules;
pub mod session;
pub mod state;
pub mod view;
