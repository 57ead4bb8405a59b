use crate::card::{Card, Color};
use vstd::prelude::*;

verus! {

/// What a player can do on their turn.
#[derive(Debug, Clone, Copy, PartialEq, Eq, Structural)]
pub enum PlayerAction {
    /// Play a card. Wild cards must include a `declared_color`.
    PlayCard { card: Card, declared_color: Option<Color> },
    /// Draw one card from the pile (or accept a stacked penalty).
    DrawCard,
    /// Announce "UNO!" when the hand drops to one card.
    CallUno,
    /// Challenge the previous player's WildDrawFour as illegal.
    ChallengeFour,
}

} // verus!
