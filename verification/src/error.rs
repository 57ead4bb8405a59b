use crate::event::PlayerId;
use vstd::arithmetic::power::pow;
use vstd::prelude::*;

verus! {

/// Why an action or a request was refused.
#[derive(Debug, Clone, Copy, PartialEq, Eq, Structural)]
pub enum GameError {
    NotYourTurn,
    CardNotInHand,
    InvalidCardPlay,
    MissingDeclaredColor,
    GameNotInProgress,
    AlreadyStarted,
    NotEnoughPlayers,
    TooManyPlayers,
    PlayerNotFound(PlayerId),
    EmptyDiscard,
}

/// The lowercase hexadecimal digit of `v` (0 to 15).
pub open spec fn hex_digit(v: int) -> char {
    if v < 10 {
        (48 + v) as char
    } else {
        (87 + v) as char
    }
}

/// The `k`-th hexadecimal digit of `id`, counting from the most significant (0 to 31).
pub open spec fn nibble(id: u128, k: int) -> int {
    (id as int / pow(16, (31 - k) as nat)) % 16
}

/// Where the `i`-th character of the hyphenated form takes its digit from.
pub open spec fn hyphenated_digit_index(i: int) -> int {
    if i < 8 {
        i
    } else if i < 13 {
        i - 1
    } else if i < 18 {
        i - 2
    } else if i < 23 {
        i - 3
    } else {
        i - 4
    }
}

/// The hyphenated lowercase text of a UUID, `xxxxxxxx-xxxx-xxxx-xxxx-xxxxxxxxxxxx`,
/// whose 32 hexadecimal digits are those of `id`, most significant first.
pub open spec fn uuid_text(id: u128) -> Seq<char> {
    Seq::new(
        36,
        |i: int|
            if i == 8 || i == 13 || i == 18 || i == 23 {
                '-'
            } else {
                hex_digit(nibble(id, hyphenated_digit_index(i)))
            },
    )
}

/// The text of a player id: `uuid::Uuid::from_u128(id).to_string()`.
/// Claimed: uuid's `Display` writes the hyphenated lowercase form of the 16
/// big-endian bytes of `id`, which `uuid_text` spells out digit by digit.
#[verifier::external_body]
fn player_id_text(id: PlayerId) -> (text: String)
    ensures
        text@ == uuid_text(id),
{
    uuid::Uuid::from_u128(id).to_string()
}

impl GameError {
    /// The message that the error is shown with.
    pub open spec fn spec_message(self) -> Seq<char> {
        match self {
            GameError::NotYourTurn => "not your turn"@,
            GameError::CardNotInHand => "that card is not in your hand"@,
            GameError::InvalidCardPlay => "that card cannot be played on the current top card"@,
            GameError::MissingDeclaredColor => "wild card requires a declared color"@,
            GameError::GameNotInProgress => "game is not in progress"@,
            GameError::AlreadyStarted => "game has already started"@,
            GameError::NotEnoughPlayers => "at least 2 players are required"@,
            GameError::TooManyPlayers => "maximum 10 players allowed"@,
            GameError::PlayerNotFound(id) => "player "@ + uuid_text(id) + " not found"@,
            GameError::EmptyDiscard => "no card on the discard pile"@,
        }
    }

    /// The message that the error is shown with (its `to_string`).
    pub fn message(&self) -> (text: String)
        ensures
            text@ == self.spec_message(),
    {
        match self {
            GameError::NotYourTurn => String::from_str("not your turn"),
            GameError::CardNotInHand => String::from_str("that card is not in your hand"),
            GameError::InvalidCardPlay => String::from_str(
                "that card cannot be played on the current top card",
            ),
            GameError::MissingDeclaredColor => String::from_str(
                "wild card requires a declared color",
            ),
            GameError::GameNotInProgress => String::from_str("game is not in progress"),
            GameError::AlreadyStarted => String::from_str("game has already started"),
            GameError::NotEnoughPlayers => String::from_str("at least 2 players are required"),
            GameError::TooManyPlayers => String::from_str("maximum 10 players allowed"),
            GameError::PlayerNotFound(id) => {
                let mut text = String::from_str("player ");
                let id_text = player_id_text(*id);
                text.append(id_text.as_str());
                text.append(" not found");
                text
            },
            GameError::EmptyDiscard => String::from_str("no card on the discard pile"),
        }
    }
}

} // verus!
