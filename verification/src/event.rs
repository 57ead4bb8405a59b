use crate::card::{Card, Color};
use vstd::prelude::*;

verus! {

/// A player's identity: the 128-bit value of the player's UUID.
pub type PlayerId = u128;

/// What happened in the game; the server broadcasts these to every player.
#[derive(Debug, Clone, PartialEq, Eq)]
pub enum GameEvent {
    // ── Lifecycle ───────────────────────────────────────────────────────────
    GameStarted { player_order: Vec<PlayerId>, first_card: Card },
    GameOver { winner: PlayerId },
    // ── Turn flow ───────────────────────────────────────────────────────────
    TurnStarted { player: PlayerId },
    TurnSkipped { player: PlayerId },
    DirectionReversed,
    // ── Cards ───────────────────────────────────────────────────────────────
    CardPlayed {
        player: PlayerId,
        card: Card,
        /// Set when a Wild or WildDrawFour was played.
        declared_color: Option<Color>,
    },
    CardDrawn {
        player: PlayerId,
        /// Actual number drawn (may differ if the deck ran out).
        count: u8,
    },
    DeckReshuffled,
    // ── UNO calls ───────────────────────────────────────────────────────────
    UnoCalled { player: PlayerId },
    /// A player was left with one card without having called UNO, and was caught:
    /// they draw two cards as penalty.
    UnoPenalty { player: PlayerId },
    // ── Wild +4 challenge ───────────────────────────────────────────────────
    FourChallengeSuccess {
        /// Player whose +4 was challenged successfully.
        offender: PlayerId,
        challenger: PlayerId,
    },
    FourChallengeFailure { challenger: PlayerId },
}

} // verus!
