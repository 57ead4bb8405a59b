use crate::event::PlayerId;
use crate::protocol::{LobbyState, PlayerInfo};
use crate::state::GameState;
use vstd::prelude::*;

verus! {

/// The state of one server instance (a single room for now): its lobby and, once
/// started, its game. The connections to the players are kept beside it by the server.
pub struct SharedLobby {
    pub lobby: LobbyState,
    pub game: Option<GameState>,
}

/// The members that stay when the player with id `id` leaves.
pub open spec fn without_player(players: Seq<PlayerInfo>, id: PlayerId) -> Seq<PlayerInfo> {
    players.filter(|p: PlayerInfo| p.id != id)
}

/// Whether some member is the host.
pub open spec fn has_host(players: Seq<PlayerInfo>) -> bool {
    exists|i: int| 0 <= i < players.len() && #[trigger] players[i].is_host
}

/// `players` with the first member made host when there are members and none is host.
pub open spec fn with_host(players: Seq<PlayerInfo>) -> Seq<PlayerInfo> {
    if players.len() > 0 && !has_host(players) {
        players.update(0, PlayerInfo { is_host: true, ..players[0] })
    } else {
        players
    }
}

/// `i` is the first member with id `id`.
pub open spec fn is_first_member(players: Seq<PlayerInfo>, id: PlayerId, i: int) -> bool {
    &&& 0 <= i < players.len()
    &&& players[i].id == id
    &&& forall|j: int| 0 <= j < i ==> players[j].id != id
}

/// `players` with the readiness of the first member with id `id` set to `ready`.
pub open spec fn with_ready(players: Seq<PlayerInfo>, id: PlayerId, ready: bool) -> Seq<PlayerInfo> {
    if exists|i: int| 0 <= i < players.len() && players[i].id == id {
        let i = choose|i: int| is_first_member(players, id, i);
        players.update(i, PlayerInfo { is_ready: ready, ..players[i] })
    } else {
        players
    }
}

impl SharedLobby {
    pub fn new() -> (lobby: SharedLobby)
        ensures
            lobby.lobby.room_code@ == "MAIN"@,
            lobby.lobby.players@.len() == 0,
            lobby.lobby.max_players == 10,
            !lobby.lobby.ai_api_enabled,
            lobby.game is None,
    {
        SharedLobby {
            lobby: LobbyState {
                room_code: String::from_str("MAIN"),
                players: Vec::new(),
                max_players: 10,
                ai_api_enabled: false,
            },
            game: None,
        }
    }

    /// Add a player to the lobby; returns their entry. The first to join is the host.
    pub fn join(&mut self, id: PlayerId, name: String) -> (info: PlayerInfo)
        ensures
            info.id == id,
            info.name == name,
            info.is_host == (old(self).lobby.players@.len() == 0),
            !info.is_ready,
            !info.is_ai,
            final(self).lobby.players@ == old(self).lobby.players@.push(info),
            final(self).lobby.room_code == old(self).lobby.room_code,
            final(self).lobby.max_players == old(self).lobby.max_players,
            final(self).lobby.ai_api_enabled == old(self).lobby.ai_api_enabled,
            final(self).game == old(self).game,
    {
        let is_host = self.lobby.players.len() == 0;
        let info = PlayerInfo { id, name, is_host, is_ready: false, is_ai: false };
        self.lobby.players.push(info.duplicate());
        info
    }

    /// Remove a player; returns the updated lobby. When the host left, the first
    /// remaining member becomes host.
    pub fn leave(&mut self, id: PlayerId) -> (updated: LobbyState)
        ensures
            final(self).lobby.players@ == with_host(without_player(old(self).lobby.players@, id)),
            final(self).lobby.room_code == old(self).lobby.room_code,
            final(self).lobby.max_players == old(self).lobby.max_players,
            final(self).lobby.ai_api_enabled == old(self).lobby.ai_api_enabled,
            final(self).game == old(self).game,
            updated.players@ == final(self).lobby.players@,
            updated.room_code == final(self).lobby.room_code,
            updated.max_players == final(self).lobby.max_players,
            updated.ai_api_enabled == final(self).lobby.ai_api_enabled,
    {
        let ghost before = self.lobby.players@;
        let ghost pred = |p: PlayerInfo| p.id != id;
        let mut kept: Vec<PlayerInfo> = Vec::new();
        let mut k: usize = 0;
        while k < self.lobby.players.len()
            invariant
                0 <= k <= self.lobby.players@.len(),
                self.lobby.players@ == before,
                pred == (|p: PlayerInfo| p.id != id),
                kept@ == before.take(k as int).filter(pred),
            decreases self.lobby.players@.len() - k,
        {
            proof {
                reveal(Seq::filter);
                assert(before.take(k + 1).drop_last() =~= before.take(k as int));
            }
            if self.lobby.players[k].id != id {
                kept.push(self.lobby.players[k].duplicate());
            }
            k = k + 1;
        }
        assert(before.take(before.len() as int) =~= before);
        self.lobby.players = kept;
        // Promote the first remaining player to host if needed
        let mut any_host = false;
        let mut j: usize = 0;
        while j < self.lobby.players.len()
            invariant
                0 <= j <= self.lobby.players@.len(),
                any_host <==> exists|i: int| 0 <= i < j && #[trigger] self.lobby.players@[i].is_host,
            decreases self.lobby.players@.len() - j,
        {
            if self.lobby.players[j].is_host {
                any_host = true;
            }
            j = j + 1;
        }
        if self.lobby.players.len() > 0 && !any_host {
            self.lobby.players[0].is_host = true;
            assert(self.lobby.players@ =~= with_host(without_player(before, id)));
        }
        self.lobby.duplicate()
    }

    /// Set the ready state of a player; returns the updated lobby.
    pub fn set_ready(&mut self, id: PlayerId, ready: bool) -> (updated: LobbyState)
        ensures
            final(self).lobby.players@ == with_ready(old(self).lobby.players@, id, ready),
            final(self).lobby.room_code == old(self).lobby.room_code,
            final(self).lobby.max_players == old(self).lobby.max_players,
            final(self).lobby.ai_api_enabled == old(self).lobby.ai_api_enabled,
            final(self).game == old(self).game,
            updated.players@ == final(self).lobby.players@,
            updated.room_code == final(self).lobby.room_code,
            updated.max_players == final(self).lobby.max_players,
            updated.ai_api_enabled == final(self).lobby.ai_api_enabled,
    {
        let ghost before = self.lobby.players@;
        let mut k: usize = 0;
        while k < self.lobby.players.len()
            invariant
                0 <= k <= self.lobby.players@.len(),
                self.lobby.players@ == before,
                before == old(self).lobby.players@,
                self.lobby.room_code == old(self).lobby.room_code,
                self.lobby.max_players == old(self).lobby.max_players,
                self.lobby.ai_api_enabled == old(self).lobby.ai_api_enabled,
                self.game == old(self).game,
                forall|j: int| 0 <= j < k ==> before[j].id != id,
            decreases self.lobby.players@.len() - k,
        {
            if self.lobby.players[k].id == id {
                self.lobby.players[k].is_ready = ready;
                proof {
                    assert(is_first_member(before, id, k as int));
                    assert(before[k as int].id == id);
                    let i = choose|i: int| is_first_member(before, id, i);
                    if i < k {
                        assert(before[i].id != id);
                    } else if k < i {
                        assert(before[k as int].id != id);
                    }
                }
                assert(self.lobby.players@ =~= with_ready(before, id, ready));
                return self.lobby.duplicate();
            }
            k = k + 1;
        }
        assert(self.lobby.players@ =~= with_ready(before, id, ready));
        self.lobby.duplicate()
    }
}

/// How many members are hosts.
pub open spec fn host_count(players: Seq<PlayerInfo>) -> nat
    decreases players.len(),
{
    if players.len() == 0 {
        0
    } else {
        host_count(players.drop_last()) + (if players.last().is_host {
            1nat
        } else {
            0nat
        })
    }
}

/// A lobby with members has exactly one host.
pub open spec fn one_host(players: Seq<PlayerInfo>) -> bool {
    players.len() > 0 ==> host_count(players) == 1
}

proof fn lemma_has_host_count(players: Seq<PlayerInfo>)
    ensures
        has_host(players) <==> host_count(players) > 0,
    decreases players.len(),
{
    if players.len() > 0 {
        lemma_has_host_count(players.drop_last());
        if has_host(players.drop_last()) {
            let i = choose|i: int|
                0 <= i < players.drop_last().len() && #[trigger] players.drop_last()[i].is_host;
            assert(players[i].is_host);
        }
        if has_host(players) && !players.last().is_host {
            let i = choose|i: int| 0 <= i < players.len() && #[trigger] players[i].is_host;
            assert(players.drop_last()[i].is_host);
        }
    }
}

proof fn lemma_host_count_update(players: Seq<PlayerInfo>, i: int, p: PlayerInfo)
    requires
        0 <= i < players.len(),
    ensures
        host_count(players.update(i, p)) + (if players[i].is_host {
            1nat
        } else {
            0nat
        }) == host_count(players) + (if p.is_host {
            1nat
        } else {
            0nat
        }),
    decreases players.len(),
{
    let u = players.update(i, p);
    if i == players.len() - 1 {
        assert(u.drop_last() =~= players.drop_last());
    } else {
        lemma_host_count_update(players.drop_last(), i, p);
        assert(u.drop_last() =~= players.drop_last().update(i, p));
    }
}

proof fn lemma_host_count_without(players: Seq<PlayerInfo>, id: PlayerId)
    ensures
        host_count(without_player(players, id)) <= host_count(players),
    decreases players.len(),
{
    reveal(Seq::filter);
    if players.len() > 0 {
        lemma_host_count_without(players.drop_last(), id);
        let rest = without_player(players.drop_last(), id);
        if players.last().id != id {
            assert(without_player(players, id) == rest.push(players.last()));
            assert(rest.push(players.last()).drop_last() =~= rest);
        } else {
            assert(without_player(players, id) == rest);
        }
    }
}

/// Law: a lobby left with members always has a host, whoever left.
pub proof fn law_leave_leaves_a_host(players: Seq<PlayerInfo>, id: PlayerId)
    ensures
        with_host(without_player(players, id)).len() > 0 ==> has_host(
            with_host(without_player(players, id)),
        ),
{
    let kept = without_player(players, id);
    if kept.len() > 0 && !has_host(kept) {
        let after = with_host(kept);
        assert(after[0].is_host);
    }
}

/// Law: every lobby operation keeps exactly one host among the members: joining (the
/// first to join becomes host), leaving (the first remaining member takes over from a
/// host who left) and setting readiness.
pub proof fn law_one_host_is_kept(players: Seq<PlayerInfo>, info: PlayerInfo, id: PlayerId, ready: bool)
    requires
        one_host(players),
        info.is_host == (players.len() == 0),
    ensures
        one_host(players.push(info)),
        one_host(with_host(without_player(players, id))),
        one_host(with_ready(players, id, ready)),
{
    // joining
    assert(players.push(info).drop_last() =~= players);
    // leaving
    let kept = without_player(players, id);
    lemma_host_count_without(players, id);
    lemma_has_host_count(kept);
    if kept.len() > 0 && !has_host(kept) {
        lemma_host_count_update(kept, 0, PlayerInfo { is_host: true, ..kept[0] });
    }
    // readiness
    if exists|i: int| 0 <= i < players.len() && players[i].id == id {
        let i = choose|i: int| is_first_member(players, id, i);
        lemma_first_member_exists(players, id);
        lemma_host_count_update(players, i, PlayerInfo { is_ready: ready, ..players[i] });
    }
}

proof fn lemma_first_member_exists(players: Seq<PlayerInfo>, id: PlayerId)
    requires
        exists|i: int| 0 <= i < players.len() && players[i].id == id,
    ensures
        exists|i: int| is_first_member(players, id, i),
    decreases players.len(),
{
    if exists|i: int| 0 <= i < players.len() - 1 && players[i].id == id {
        let j = choose|i: int| 0 <= i < players.len() - 1 && players[i].id == id;
        assert(players.drop_last()[j].id == id);
        lemma_first_member_exists(players.drop_last(), id);
        let k = choose|i: int| is_first_member(players.drop_last(), id, i);
        assert forall|m: int| 0 <= m < k implies players[m].id != id by {
            assert(players[m] == players.drop_last()[m]);
        }
        assert(players[k] == players.drop_last()[k]);
        assert(is_first_member(players, id, k));
    } else {
        let last = players.len() - 1;
        assert(is_first_member(players, id, last));
    }
}

} // verus!
