use crate::action::PlayerAction;
use crate::event::{GameEvent, PlayerId};
use crate::view::GameStateView;
use vstd::prelude::*;

verus! {

/// The first message of a client on a new connection.
#[derive(Debug, Clone)]
pub struct JoinRequest {
    pub name: String,
    /// `None` creates a new room; `Some(code)` joins an existing room.
    pub room_code: Option<String>,
    /// True when the connecting client is an AI program.
    pub is_ai: bool,
    /// Simple shared-secret token checked when `ai_api_enabled` is true.
    pub auth_token: Option<String>,
}

/// What a client sends to the server.
#[derive(Debug, Clone)]
pub enum ClientMessage {
    /// Must be the first message on any new connection.
    Join(JoinRequest),
    /// Toggle ready state; host sending this also works as a ready toggle.
    SetReady(bool),
    /// Host-only: begins the game once all players are ready.
    StartGame,
    /// In-game: submit a player action.
    Action(PlayerAction),
    /// Keepalive; the server responds with `ServerMessage::Pong`.
    Ping,
}

/// A member of the lobby.
#[derive(Debug, Clone)]
pub struct PlayerInfo {
    pub id: PlayerId,
    pub name: String,
    pub is_host: bool,
    pub is_ready: bool,
    pub is_ai: bool,
}

/// The lobby of a room.
#[derive(Debug, Clone)]
pub struct LobbyState {
    /// Short alphanumeric code others use to join (e.g. "X7KQ2")
    pub room_code: String,
    pub players: Vec<PlayerInfo>,
    pub max_players: u8,
    /// Whether the server is accepting AI WebSocket connections for this room
    pub ai_api_enabled: bool,
}

/// What the server sends to a client.
#[derive(Debug, Clone)]
pub enum ServerMessage {
    /// Sent once after a successful `ClientMessage::Join`.
    Welcome { your_id: PlayerId, lobby: LobbyState },
    /// Lobby membership or readiness changed.
    LobbyUpdated(LobbyState),
    /// Game has started; contains the player's private opening hand.
    GameSnapshot(GameStateView),
    /// Something happened in the game; sent to every player in the room.
    Event(GameEvent),
    /// Follows every `Event` with the recipient's updated personal view.
    StateUpdate(GameStateView),
    /// The server refused an action the client sent.
    ActionRejected { reason: String },
    /// Unrecoverable error (room closed, kicked, server shutting down).
    Error { message: String },
    /// Response to `ClientMessage::Ping`.
    Pong,
}

impl PlayerInfo {
    /// A copy of the member, field by field.
    pub fn duplicate(&self) -> (copy: PlayerInfo)
        ensures
            copy == *self,
    {
        PlayerInfo {
            id: self.id,
            name: self.name.clone(),
            is_host: self.is_host,
            is_ready: self.is_ready,
            is_ai: self.is_ai,
        }
    }
}

impl LobbyState {
    /// A copy of the lobby: the same code, members (in order), limit and AI setting.
    pub fn duplicate(&self) -> (copy: LobbyState)
        ensures
            copy.room_code == self.room_code,
            copy.players@ == self.players@,
            copy.max_players == self.max_players,
            copy.ai_api_enabled == self.ai_api_enabled,
    {
        let mut players: Vec<PlayerInfo> = Vec::new();
        let mut k: usize = 0;
        while k < self.players.len()
            invariant
                0 <= k <= self.players@.len(),
                players@ == self.players@.take(k as int),
            decreases self.players@.len() - k,
        {
            players.push(self.players[k].duplicate());
            assert(self.players@.take(k + 1) =~= self.players@.take(k as int).push(
                self.players@[k as int],
            ));
            k = k + 1;
        }
        assert(self.players@.take(self.players@.len() as int) =~= self.players@);
        LobbyState {
            room_code: self.room_code.clone(),
            players,
            max_players: self.max_players,
            ai_api_enabled: self.ai_api_enabled,
        }
    }
}

} // verus!
