use crate::action::PlayerAction;
use crate::error::GameError;
use crate::event::{GameEvent, PlayerId};
use crate::laws::{
    law_discard_stays_nonempty, law_standard_deck_numbers_have_colors, law_turn_stays_in_range,
};
use crate::lobby::{with_host, with_ready, without_player, SharedLobby};
use crate::player::Player;
use crate::protocol::{ClientMessage, LobbyState, PlayerInfo, ServerMessage};
use crate::rules::{action_overflows, apply_outcome, has_player, start_outcome, turn_in_range};
use crate::card::Color;
use crate::state::{Direction, GamePhase, GameState};
use crate::view::{is_view_of, GameStateView};
use rand::rngs::StdRng;
use vstd::prelude::*;

verus! {

/// A message that a session decided to send, and to whom.
#[derive(Debug)]
pub enum Outgoing {
    /// To the connection that the request came from.
    Reply(ServerMessage),
    /// To every connected player.
    Broadcast(ServerMessage),
    /// To the player with this id, if connected.
    SendTo(PlayerId, ServerMessage),
}

/// A new random player id: `uuid::Uuid::new_v4()`, as its 128-bit value.
/// Nothing is claimed of the value: it is random.
#[verifier::external_body]
fn fresh_player_id() -> PlayerId {
    uuid::Uuid::new_v4().as_u128()
}

/// The two lobbies hold the same values.
pub open spec fn same_lobby(a: LobbyState, b: LobbyState) -> bool {
    &&& a.room_code == b.room_code
    &&& a.players@ == b.players@
    &&& a.max_players == b.max_players
    &&& a.ai_api_enabled == b.ai_api_enabled
}

/// The state that the session logic keeps: a stored game has started properly.
pub open spec fn lobby_ok(l: SharedLobby) -> bool {
    l.game matches Some(g) ==> g.phase != GamePhase::Lobby && turn_in_range(g)
        && g.discard_pile@.len() > 0
}

/// `out` announces `lobby` to everybody.
pub open spec fn announces(out: Outgoing, lobby: LobbyState) -> bool {
    out matches Outgoing::Broadcast(ServerMessage::LobbyUpdated(l)) && same_lobby(l, lobby)
}

/// `out` rejects the request with a reason.
pub open spec fn rejects(out: Outgoing, reason: Seq<char>) -> bool {
    out matches Outgoing::Reply(ServerMessage::ActionRejected { reason: r }) && r@ == reason
}

/// `out` sends to each player of `ids` that has a seat in game `g` (in that order) their
/// view of `g`, as a snapshot when `snapshot` holds and as an update otherwise.
pub open spec fn views_sent(out: Seq<Outgoing>, ids: Seq<PlayerId>, g: GameState, snapshot: bool) -> bool
    decreases ids.len(),
{
    if ids.len() == 0 {
        out.len() == 0
    } else if has_player(g.players@, ids.last()) {
        &&& out.len() > 0
        &&& out.last() matches Outgoing::SendTo(p, m) && p == ids.last() && (if snapshot {
            m matches ServerMessage::GameSnapshot(v) && is_view_of(v, g, p)
        } else {
            m matches ServerMessage::StateUpdate(v) && is_view_of(v, g, p)
        })
        &&& views_sent(out.drop_last(), ids.drop_last(), g, snapshot)
    } else {
        views_sent(out, ids.drop_last(), g, snapshot)
    }
}

/// The ids of the lobby members, in order.
pub open spec fn member_ids(players: Seq<PlayerInfo>) -> Seq<PlayerId> {
    players.map_values(|p: PlayerInfo| p.id)
}

/// Whether every member is ready.
pub open spec fn all_ready(players: Seq<PlayerInfo>) -> bool {
    forall|i: int| 0 <= i < players.len() ==> #[trigger] players[i].is_ready
}

/// Whether the member with id `id` is a host.
pub open spec fn is_host_member(players: Seq<PlayerInfo>, id: PlayerId) -> bool {
    exists|i: int| 0 <= i < players.len() && players[i].id == id && #[trigger] players[i].is_host
}

/// The game a new start is made with: a fresh game and, in order, the first ten members
/// of the lobby as players with empty hands.
pub open spec fn seats_members(g: GameState, members: Seq<PlayerInfo>) -> bool {
    let n: int = if members.len() < 10 {
        members.len() as int
    } else {
        10
    };
    &&& g.phase == GamePhase::Lobby
    &&& g.turn_index == 0
    &&& g.direction == Direction::Clockwise
    &&& g.draw_pile@ == crate::card::standard_deck()
    &&& g.discard_pile@.len() == 0
    &&& g.active_color == Color::Red
    &&& g.stacked_draw == 0
    &&& g.players@.len() == n
    &&& forall|k: int|
        0 <= k < n ==> {
            &&& #[trigger] g.players@[k].id == members[k].id
            &&& g.players@[k].name@ == members[k].name@
            &&& g.players@[k].hand@.len() == 0
            &&& !g.players@[k].called_uno
        }
}

/// The events, each broadcast to everybody.
pub open spec fn events_broadcast(out: Seq<Outgoing>, events: Seq<GameEvent>) -> bool {
    &&& out.len() == events.len()
    &&& forall|k: int|
        0 <= k < events.len() ==> #[trigger] out[k] == Outgoing::Broadcast(
            ServerMessage::Event(events[k]),
        )
}


/// Whether handling `msg` from a connection that joined as `session` would have the game
/// push the stacked draw penalty past what a `u8` holds.
pub open spec fn message_overflows(l: SharedLobby, session: Option<PlayerId>, msg: ClientMessage) -> bool {
    &&& msg matches ClientMessage::Action(action)
    &&& session matches Some(id)
    &&& l.game matches Some(g)
    &&& action_overflows(g, id, action)
}

/// `t` is `s` after a player with id `id` and name `name` joined; `out` is what was sent:
/// a welcome to them, and the new lobby to everybody.
pub open spec fn join_outcome(
    s: SharedLobby,
    t: SharedLobby,
    id: PlayerId,
    name: String,
    out: Seq<Outgoing>,
) -> bool {
    let info = PlayerInfo {
        id,
        name,
        is_host: s.lobby.players@.len() == 0,
        is_ready: false,
        is_ai: false,
    };
    &&& lobby_ok(t)
    &&& t.game == s.game
    &&& t.lobby.players@ == s.lobby.players@.push(info)
    &&& t.lobby.room_code == s.lobby.room_code
    &&& t.lobby.max_players == s.lobby.max_players
    &&& t.lobby.ai_api_enabled == s.lobby.ai_api_enabled
    &&& out.len() == 2
    &&& out[0] matches Outgoing::Reply(ServerMessage::Welcome { your_id, lobby }) && your_id == id
        && same_lobby(lobby, t.lobby)
    &&& announces(out[1], t.lobby)
}

/// `t` is `s` after the player with id `id` set their readiness to `ready`; `out` is what
/// was sent: the new lobby to everybody.
pub open spec fn ready_outcome(
    s: SharedLobby,
    t: SharedLobby,
    id: PlayerId,
    ready: bool,
    out: Seq<Outgoing>,
) -> bool {
    &&& lobby_ok(t)
    &&& t.game == s.game
    &&& t.lobby.players@ == with_ready(s.lobby.players@, id, ready)
    &&& t.lobby.room_code == s.lobby.room_code
    &&& t.lobby.max_players == s.lobby.max_players
    &&& t.lobby.ai_api_enabled == s.lobby.ai_api_enabled
    &&& out.len() == 1
    &&& announces(out[0], t.lobby)
}

/// `t` is `s` after the player with id `id` disconnected; `out` is what was sent: the new
/// lobby to everybody.
pub open spec fn leave_outcome(s: SharedLobby, t: SharedLobby, id: PlayerId, out: Seq<Outgoing>) -> bool {
    &&& lobby_ok(t)
    &&& t.game == s.game
    &&& t.lobby.players@ == with_host(without_player(s.lobby.players@, id))
    &&& t.lobby.room_code == s.lobby.room_code
    &&& t.lobby.max_players == s.lobby.max_players
    &&& t.lobby.ai_api_enabled == s.lobby.ai_api_enabled
    &&& out.len() == 1
    &&& announces(out[0], t.lobby)
}

/// `t` is `s` after the player with id `id` asked to start the game; `out` is what was sent.
/// Only a host may, and only once every member is ready: a new game is then dealt to the
/// (first ten) members, and each member with a seat gets their opening view; when the game
/// cannot start, the reason is sent back.
pub open spec fn start_game_outcome(
    s: SharedLobby,
    t: SharedLobby,
    id: PlayerId,
    out: Seq<Outgoing>,
) -> bool {
    &&& lobby_ok(t)
    &&& t.lobby == s.lobby
    &&& if !is_host_member(s.lobby.players@, id) {
        &&& t.game == s.game
        &&& out.len() == 1
        &&& rejects(out[0], "Only the host can start the game"@)
    } else if !all_ready(s.lobby.players@) {
        &&& t.game == s.game
        &&& out.len() == 1
        &&& rejects(out[0], "Not all players are ready"@)
    } else {
        exists|g0: GameState, g1: GameState, res: Result<Vec<GameEvent>, GameError>|
            {
                &&& seats_members(g0, s.lobby.players@)
                &&& start_outcome(g0, g1, res)
                &&& match res {
                    Ok(_) => {
                        &&& t.game == Some(g1)
                        &&& views_sent(out, member_ids(s.lobby.players@), g1, true)
                    },
                    Err(e) => {
                        &&& t.game == s.game
                        &&& out.len() == 1
                        &&& rejects(out[0], e.spec_message())
                    },
                }
            }
    }
}

/// `t` is `s` after the player with id `id` asked to take `action`; `out` is what was sent.
/// Without a game nothing happens. Otherwise the action is applied: each event goes to
/// everybody, then each member with a seat gets their updated view; a refused action is
/// answered with the reason.
pub open spec fn action_outcome(
    s: SharedLobby,
    t: SharedLobby,
    id: PlayerId,
    action: PlayerAction,
    out: Seq<Outgoing>,
) -> bool {
    &&& lobby_ok(t)
    &&& t.lobby == s.lobby
    &&& match s.game {
        None => t.game is None && out.len() == 0,
        Some(g) => {
            exists|g1: GameState, res: Result<Vec<GameEvent>, GameError>|
                {
                    &&& apply_outcome(g, g1, id, action, res)
                    &&& t.game == Some(g1)
                    &&& match res {
                        Ok(events) => {
                            &&& out.len() >= events@.len()
                            &&& events_broadcast(out.take(events@.len() as int), events@)
                            &&& views_sent(
                                out.skip(events@.len() as int),
                                member_ids(s.lobby.players@),
                                g1,
                                false,
                            )
                        },
                        Err(e) => {
                            &&& out.len() == 1
                            &&& rejects(out[0], e.spec_message())
                        },
                    }
                }
        },
    }
}

impl SharedLobby {
    /// A new player joined: welcome them and tell everybody of the new lobby.
    pub fn handle_join(&mut self, id: PlayerId, name: String) -> (out: Vec<Outgoing>)
        requires
            lobby_ok(*old(self)),
        ensures
            join_outcome(*old(self), *final(self), id, name, out@),
    {
        let _info = self.join(id, name);
        // Tell this client who they are and what the lobby looks like,
        // and everyone that the lobby changed
        let lobby_state = self.lobby.duplicate();
        let mut out: Vec<Outgoing> = Vec::new();
        out.push(
            Outgoing::Reply(ServerMessage::Welcome { your_id: id, lobby: lobby_state.duplicate() }),
        );
        out.push(Outgoing::Broadcast(ServerMessage::LobbyUpdated(lobby_state)));
        out
    }

    /// A player toggled their readiness: tell everybody of the new lobby.
    pub fn handle_set_ready(&mut self, id: PlayerId, ready: bool) -> (out: Vec<Outgoing>)
        requires
            lobby_ok(*old(self)),
        ensures
            ready_outcome(*old(self), *final(self), id, ready, out@),
    {
        let updated = self.set_ready(id, ready);
        let mut out: Vec<Outgoing> = Vec::new();
        out.push(Outgoing::Broadcast(ServerMessage::LobbyUpdated(updated)));
        out
    }

    /// A player's connection closed: they leave, and everybody hears of the new lobby.
    pub fn handle_disconnect(&mut self, id: PlayerId) -> (out: Vec<Outgoing>)
        requires
            lobby_ok(*old(self)),
        ensures
            leave_outcome(*old(self), *final(self), id, out@),
    {
        let updated = self.leave(id);
        let mut out: Vec<Outgoing> = Vec::new();
        out.push(Outgoing::Broadcast(ServerMessage::LobbyUpdated(updated)));
        out
    }

    /// Sends each member that has a seat in `game` their view of it.
    fn send_views(
        &self,
        game: &GameState,
        snapshot: bool,
        out: &mut Vec<Outgoing>,
    )
        requires
            game.phase != GamePhase::Lobby,
            turn_in_range(*game),
            game.discard_pile@.len() > 0,
        ensures
            final(out)@.len() >= old(out)@.len(),
            final(out)@.take(old(out)@.len() as int) == old(out)@,
            views_sent(
                final(out)@.skip(old(out)@.len() as int),
                member_ids(self.lobby.players@),
                *game,
                snapshot,
            ),
    {
        let ghost start = out@;
        let ghost ids = member_ids(self.lobby.players@);
        let mut k: usize = 0;
        assert(out@.skip(start.len() as int) =~= Seq::<Outgoing>::empty());
        assert(ids.take(0) =~= Seq::<PlayerId>::empty());
        while k < self.lobby.players.len()
            invariant
                0 <= k <= self.lobby.players@.len(),
                ids == member_ids(self.lobby.players@),
                game.phase != GamePhase::Lobby,
                turn_in_range(*game),
                game.discard_pile@.len() > 0,
                out@.len() >= start.len(),
                out@.take(start.len() as int) == start,
                views_sent(out@.skip(start.len() as int), ids.take(k as int), *game, snapshot),
            decreases self.lobby.players@.len() - k,
        {
            let pid = self.lobby.players[k].id;
            let ghost before = out@;
            assert(ids.take(k + 1).drop_last() =~= ids.take(k as int));
            assert(ids.take(k + 1).last() == pid);
            match GameStateView::for_player(game, pid) {
                Some(view) => {
                    if snapshot {
                        out.push(Outgoing::SendTo(pid, ServerMessage::GameSnapshot(view)));
                    } else {
                        out.push(Outgoing::SendTo(pid, ServerMessage::StateUpdate(view)));
                    }
                    assert(out@.skip(start.len() as int).drop_last() =~= before.skip(
                        start.len() as int,
                    ));
                    assert(out@.take(start.len() as int) =~= before.take(start.len() as int));
                },
                None => {},
            }
            k = k + 1;
        }
        assert(ids.take(self.lobby.players@.len() as int) =~= ids);
    }

    /// The host asked to start the game: a new game is dealt to the (first ten) members and
    /// each is sent their opening view; anybody else is refused.
    pub fn handle_start(&mut self, id: PlayerId, rng: &mut StdRng) -> (out: Vec<Outgoing>)
        requires
            lobby_ok(*old(self)),
        ensures
            start_game_outcome(*old(self), *final(self), id, out@),
    {
        let mut out: Vec<Outgoing> = Vec::new();
        // Only the host can start
        let mut is_host = false;
        let mut k: usize = 0;
        while k < self.lobby.players.len()
            invariant
                0 <= k <= self.lobby.players@.len(),
                is_host <==> exists|i: int|
                    0 <= i < k && self.lobby.players@[i].id == id
                        && #[trigger] self.lobby.players@[i].is_host,
            decreases self.lobby.players@.len() - k,
        {
            if self.lobby.players[k].id == id && self.lobby.players[k].is_host {
                is_host = true;
            }
            k = k + 1;
        }
        if !is_host {
            out.push(
                Outgoing::Reply(
                    ServerMessage::ActionRejected {
                        reason: String::from_str("Only the host can start the game"),
                    },
                ),
            );
            return out;
        }
        // The game begins only once every member is ready
        let mut k: usize = 0;
        while k < self.lobby.players.len()
            invariant
                0 <= k <= self.lobby.players@.len(),
                *self == *old(self),
                lobby_ok(*old(self)),
                out@.len() == 0,
                is_host_member(self.lobby.players@, id),
                forall|i: int| 0 <= i < k ==> #[trigger] self.lobby.players@[i].is_ready,
            decreases self.lobby.players@.len() - k,
        {
            if !self.lobby.players[k].is_ready {
                out.push(
                    Outgoing::Reply(
                        ServerMessage::ActionRejected {
                            reason: String::from_str("Not all players are ready"),
                        },
                    ),
                );
                return out;
            }
            k = k + 1;
        }
        // Build the game from the lobby members
        let mut game = GameState::new();
        let ghost members = self.lobby.players@;
        let mut k: usize = 0;
        while k < self.lobby.players.len()
            invariant
                0 <= k <= self.lobby.players@.len(),
                members == self.lobby.players@,
                game.phase == GamePhase::Lobby,
                game.turn_index == 0,
                game.direction == Direction::Clockwise,
                game.draw_pile@ == crate::card::standard_deck(),
                game.discard_pile@.len() == 0,
                game.active_color == Color::Red,
                game.stacked_draw == 0,
                game.players@.len() == (if k < 10 {
                    k as int
                } else {
                    10
                }),
                forall|j: int|
                    0 <= j < game.players@.len() ==> {
                        &&& #[trigger] game.players@[j].id == members[j].id
                        &&& game.players@[j].name@ == members[j].name@
                        &&& game.players@[j].hand@.len() == 0
                        &&& !game.players@[j].called_uno
                    },
            decreases self.lobby.players@.len() - k,
        {
            let player = Player::new(self.lobby.players[k].id, self.lobby.players[k].name.clone());
            let _ = game.add_player(player);
            k = k + 1;
        }
        let ghost g0 = game;
        assert(seats_members(g0, members));
        proof {
            law_standard_deck_numbers_have_colors();
        }
        let res = game.start(rng);
        match res {
            Err(e) => {
                out.push(Outgoing::Reply(ServerMessage::ActionRejected { reason: e.message() }));
                assert(start_outcome(g0, game, Err::<Vec<GameEvent>, GameError>(e)));
                out
            },
            Ok(events) => {
                let ghost r = Ok::<Vec<GameEvent>, GameError>(events);
                assert(start_outcome(g0, game, r));
                // Send each player their personal snapshot
                self.send_views(&game, true, &mut out);
                assert(out@.skip(0) =~= out@);
                self.game = Some(game);
                out
            },
        }
    }

    /// A player took an action in the game: each event that it caused goes to everybody,
    /// then each player gets their updated view; a refused action is answered with why.
    pub fn handle_action(&mut self, id: PlayerId, action: PlayerAction, rng: &mut StdRng) -> (out:
        Vec<Outgoing>)
        requires
            lobby_ok(*old(self)),
            old(self).game matches Some(g) ==> !action_overflows(g, id, action),
        ensures
            action_outcome(*old(self), *final(self), id, action, out@),
    {
        let mut out: Vec<Outgoing> = Vec::new();
        let mut game = match self.game.take() {
            Some(g) => g,
            None => return out,
        };
        let ghost g0 = game;
        let res = game.apply(id, action, rng);
        proof {
            law_turn_stays_in_range(g0, game, id, action, res);
            law_discard_stays_nonempty(g0, game, id, action, res);
        }
        match res {
            Err(e) => {
                let ghost r = Err::<Vec<GameEvent>, GameError>(e);
                assert(apply_outcome(g0, game, id, action, r));
                out.push(Outgoing::Reply(ServerMessage::ActionRejected { reason: e.message() }));
                self.game = Some(game);
                out
            },
            Ok(events) => {
                let ghost r = Ok::<Vec<GameEvent>, GameError>(events);
                let ghost evs = events@;
                assert(apply_outcome(g0, game, id, action, r));
                assert(game.phase != GamePhase::Lobby);
                // Broadcast each event
                for event in it: events
                    invariant
                        it.seq() == evs,
                        out@.len() == it.index(),
                        forall|j: int|
                            0 <= j < it.index() ==> #[trigger] out@[j] == Outgoing::Broadcast(
                                ServerMessage::Event(evs[j]),
                            ),
                {
                    out.push(Outgoing::Broadcast(ServerMessage::Event(event)));
                }
                assert(out@.take(evs.len() as int) =~= out@);
                // Then send each player their updated view
                self.send_views(&game, false, &mut out);
                self.game = Some(game);
                out
            },
        }
    }

    /// Decides what a message from a connection does: `session` is the id that the
    /// connection has joined as (none before its first `Join`). Returns what to send.
    pub fn handle_message(
        &mut self,
        session: &mut Option<PlayerId>,
        msg: ClientMessage,
        rng: &mut StdRng,
    ) -> (out: Vec<Outgoing>)
        requires
            lobby_ok(*old(self)),
            !message_overflows(*old(self), *old(session), msg),
        ensures
            lobby_ok(*final(self)),
            match msg {
                ClientMessage::Join(req) => *final(session) matches Some(id) && join_outcome(
                    *old(self),
                    *final(self),
                    id,
                    req.name,
                    out@,
                ),
                ClientMessage::Ping => *final(session) == *old(session) && *final(self) == *old(
                    self,
                ) && out@.len() == 1 && out@[0] matches Outgoing::Reply(ServerMessage::Pong),
                _ => *final(session) == *old(session) && match *old(session) {
                    None => *final(self) == *old(self) && out@.len() == 0,
                    Some(id) => match msg {
                        ClientMessage::SetReady(ready) => ready_outcome(
                            *old(self),
                            *final(self),
                            id,
                            ready,
                            out@,
                        ),
                        ClientMessage::StartGame => start_game_outcome(
                            *old(self),
                            *final(self),
                            id,
                            out@,
                        ),
                        ClientMessage::Action(action) => action_outcome(
                            *old(self),
                            *final(self),
                            id,
                            action,
                            out@,
                        ),
                        _ => true,
                    },
                },
            },
    {
        match msg {
            ClientMessage::Join(req) => {
                let id = fresh_player_id();
                *session = Some(id);
                self.handle_join(id, req.name)
            },
            ClientMessage::SetReady(ready) => match *session {
                Some(id) => self.handle_set_ready(id, ready),
                None => Vec::new(),
            },
            ClientMessage::StartGame => match *session {
                Some(id) => self.handle_start(id, rng),
                None => Vec::new(),
            },
            ClientMessage::Action(action) => match *session {
                Some(id) => self.handle_action(id, action, rng),
                None => Vec::new(),
            },
            ClientMessage::Ping => {
                let mut out: Vec<Outgoing> = Vec::new();
                out.push(Outgoing::Reply(ServerMessage::Pong));
                out
            },
        }
    }
}

} // verus!
