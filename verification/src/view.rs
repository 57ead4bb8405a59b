use crate::card::{Card, Color};
use crate::event::PlayerId;
use crate::player::Player;
use crate::rules::{has_player, is_first_seat_of, seat_of};
use crate::laws::{lemma_first_seat_exists, lemma_first_seat_unique};
use crate::state::{Direction, GameState};
use vstd::prelude::*;

verus! {

/// What you can see of an opponent: their hand size, not their cards.
#[derive(Debug, Clone)]
pub struct OpponentView {
    pub id: PlayerId,
    pub name: String,
    pub card_count: u8,
    pub called_uno: bool,
}

/// A snapshot of the game as seen by one specific player.
/// The server rebuilds and sends this after every state-changing event.
#[derive(Debug, Clone)]
pub struct GameStateView {
    pub your_id: PlayerId,
    pub your_hand: Vec<Card>,
    /// Other players in turn order, starting from the player after you
    pub opponents: Vec<OpponentView>,
    pub top_card: Card,
    pub active_color: Color,
    pub draw_pile_size: usize,
    pub current_player: PlayerId,
    pub stacked_draw: u8,
    pub direction_clockwise: bool,
}

/// The seat `offset` turns after seat `you`, around a table of `n` seats, when play runs in
/// direction `d`.
pub open spec fn seat_after(n: int, you: int, offset: int, d: Direction) -> int {
    match d {
        Direction::Clockwise => (you + offset) % n,
        Direction::CounterClockwise => (you + n - offset) % n,
    }
}

/// What `opponent` shows of `player`: id, name, hand size (as a `u8`, wrapping) and UNO call.
pub open spec fn shows(opponent: OpponentView, player: Player) -> bool {
    &&& opponent.id == player.id
    &&& opponent.name@ == player.name@
    &&& opponent.card_count == (player.hand@.len() % 256) as u8
    &&& opponent.called_uno == player.called_uno
}

/// `view` is the game `state` as the player with id `id` sees it from their (first) seat.
pub open spec fn is_view_of(view: GameStateView, state: GameState, id: PlayerId) -> bool {
    let n = state.players@.len() as int;
    let you = seat_of(state.players@, id);
    &&& view.your_id == id
    &&& view.your_hand@ == state.players@[you].hand@
    &&& view.opponents@.len() == n - 1
    &&& forall|k: int|
        0 <= k < n - 1 ==> shows(
            #[trigger] view.opponents@[k],
            state.players@[seat_after(n, you, k + 1, state.direction)],
        )
    &&& view.top_card == state.discard_pile@.last()
    &&& view.active_color == state.active_color
    &&& view.draw_pile_size == state.draw_pile@.len()
    &&& view.current_player == state.current_id()
    &&& view.stacked_draw == state.stacked_draw
    &&& view.direction_clockwise == (state.direction == Direction::Clockwise)
}

impl GameStateView {
    /// Build the view of `game_state` from the perspective of `player_id`.
    /// Returns `None` if the player is not in the game (or no card has been played yet).
    pub fn for_player(state: &GameState, player_id: PlayerId) -> (view: Option<GameStateView>)
        requires
            has_player(state.players@, player_id) && state.discard_pile@.len() > 0
                ==> state.turn_index < state.players@.len(),
        ensures
            view is Some <==> has_player(state.players@, player_id)
                && state.discard_pile@.len() > 0,
            view matches Some(v) ==> is_view_of(v, *state, player_id),
    {
        let n = state.players.len();
        let mut your_idx: usize = 0;
        while your_idx < n && state.players[your_idx].id != player_id
            invariant
                n == state.players@.len(),
                0 <= your_idx <= n,
                forall|j: int| 0 <= j < your_idx ==> state.players@[j].id != player_id,
            decreases n - your_idx,
        {
            your_idx = your_idx + 1;
        }
        if your_idx == n {
            return None;
        }
        proof {
            lemma_first_seat_unique(state.players@, player_id, your_idx as int);
        }
        let top_card = match state.top_card() {
            Some(card) => *card,
            None => return None,
        };
        // Opponents in turn order starting from the seat after yours
        let mut opponents: Vec<OpponentView> = Vec::new();
        let mut offset: usize = 1;
        while offset < n
            invariant
                n == state.players@.len(),
                your_idx < n,
                1 <= offset <= n,
                opponents@.len() == offset - 1,
                forall|k: int|
                    0 <= k < offset - 1 ==> shows(
                        #[trigger] opponents@[k],
                        state.players@[seat_after(n as int, your_idx as int, k + 1, state.direction)],
                    ),
            decreases n - offset,
        {
            // the seat `offset` turns after yours, without overflow
            let seat = match state.direction {
                Direction::Clockwise => if offset < n - your_idx {
                    your_idx + offset
                } else {
                    offset - (n - your_idx)
                },
                Direction::CounterClockwise => if offset <= your_idx {
                    your_idx - offset
                } else {
                    your_idx + (n - offset)
                },
            };
            proof {
                lemma_wrap_seat(n as int, your_idx as int, offset as int);
            }
            let p = &state.players[seat];
            let count = p.hand.len() % 256;
            opponents.push(
                OpponentView {
                    id: p.id,
                    name: p.name.clone(),
                    card_count: count as u8,
                    called_uno: p.called_uno,
                },
            );
            offset = offset + 1;
        }
        let cards = state.players[your_idx].hand.cards();
        let mut your_hand: Vec<Card> = Vec::new();
        let mut k: usize = 0;
        while k < cards.len()
            invariant
                0 <= k <= cards@.len(),
                your_hand@ == cards@.take(k as int),
            decreases cards@.len() - k,
        {
            your_hand.push(cards[k]);
            assert(cards@.take(k + 1) =~= cards@.take(k as int).push(cards@[k as int]));
            k = k + 1;
        }
        assert(cards@.take(cards@.len() as int) =~= cards@);
        Some(
            GameStateView {
                your_id: player_id,
                your_hand,
                opponents,
                top_card,
                active_color: state.active_color,
                draw_pile_size: state.draw_pile.len(),
                current_player: state.current_player_id(),
                stacked_draw: state.stacked_draw,
                direction_clockwise: state.direction == Direction::Clockwise,
            },
        )
    }
}

/// `s2` is `s1` but for which cards the hands of the players other than `id` and the draw
/// pile hold: the same players, hand sizes, piles' sizes, top card and turn.
pub open spec fn differ_only_in_hidden_cards(s1: GameState, s2: GameState, id: PlayerId) -> bool {
    &&& s2.players@.len() == s1.players@.len()
    &&& forall|k: int|
        0 <= k < s1.players@.len() ==> {
            &&& #[trigger] s2.players@[k].id == s1.players@[k].id
            &&& s2.players@[k].name == s1.players@[k].name
            &&& s2.players@[k].called_uno == s1.players@[k].called_uno
            &&& s2.players@[k].hand@.len() == s1.players@[k].hand@.len()
        }
    &&& s2.players@[seat_of(s1.players@, id)].hand@ == s1.players@[seat_of(s1.players@, id)].hand@
    &&& s2.draw_pile@.len() == s1.draw_pile@.len()
    &&& s2.discard_pile@ == s1.discard_pile@
    &&& s2.active_color == s1.active_color
    &&& s2.turn_index == s1.turn_index
    &&& s2.stacked_draw == s1.stacked_draw
    &&& s2.direction == s1.direction
}

/// The two views hold the same values, field by field (names compared as text).
pub open spec fn same_view(a: GameStateView, b: GameStateView) -> bool {
    &&& a.your_id == b.your_id
    &&& a.your_hand@ == b.your_hand@
    &&& a.opponents@.len() == b.opponents@.len()
    &&& forall|k: int|
        0 <= k < a.opponents@.len() ==> {
            &&& #[trigger] a.opponents@[k].id == b.opponents@[k].id
            &&& a.opponents@[k].name@ == b.opponents@[k].name@
            &&& a.opponents@[k].card_count == b.opponents@[k].card_count
            &&& a.opponents@[k].called_uno == b.opponents@[k].called_uno
        }
    &&& a.top_card == b.top_card
    &&& a.active_color == b.active_color
    &&& a.draw_pile_size == b.draw_pile_size
    &&& a.current_player == b.current_player
    &&& a.stacked_draw == b.stacked_draw
    &&& a.direction_clockwise == b.direction_clockwise
}

/// Law: a view shows of the other players' hands and of the draw pile only their sizes:
/// two games that differ only in which cards those hold have the same views.
pub proof fn law_view_shows_only_sizes(s1: GameState, s2: GameState, id: PlayerId, v: GameStateView)
    requires
        has_player(s1.players@, id),
        s1.turn_index < s1.players@.len(),
        differ_only_in_hidden_cards(s1, s2, id),
    ensures
        is_view_of(v, s1, id) == is_view_of(v, s2, id),
{
    lemma_first_seat_exists(s1.players@, id);
    let i = seat_of(s1.players@, id);
    assert(is_first_seat_of(s2.players@, id, i)) by {
        assert(s2.players@[i].id == s1.players@[i].id);
        assert forall|j: int| 0 <= j < i implies s2.players@[j].id != id by {
            assert(s2.players@[j].id == s1.players@[j].id);
        }
    }
    lemma_first_seat_unique(s2.players@, id, i);
    assert(s2.current_id() == s1.current_id()) by {
        assert(s2.players@[s1.turn_index as int].id == s1.players@[s1.turn_index as int].id);
    }
    let n = s1.players@.len() as int;
    if n > 0 {
        assert forall|k: int| 0 <= k < n - 1 implies (shows(
            #[trigger] v.opponents@[k],
            s1.players@[seat_after(n, i, k + 1, s1.direction)],
        ) == shows(v.opponents@[k], s2.players@[seat_after(n, i, k + 1, s1.direction)])) by {
            let m = seat_after(n, i, k + 1, s1.direction);
            lemma_seat_after_in_range(n, i, k + 1, s1.direction);
            assert(s2.players@[m].id == s1.players@[m].id);
        }
    }
}

/// Law: the views of a player in two games that differ only in hidden cards (as `for_player`
/// gives them) hold the same values.
pub proof fn law_hidden_cards_give_equal_views(
    s1: GameState,
    s2: GameState,
    id: PlayerId,
    v1: GameStateView,
    v2: GameStateView,
)
    requires
        has_player(s1.players@, id),
        s1.turn_index < s1.players@.len(),
        differ_only_in_hidden_cards(s1, s2, id),
        is_view_of(v1, s1, id),
        is_view_of(v2, s2, id),
    ensures
        same_view(v1, v2),
{
    law_view_shows_only_sizes(s1, s2, id, v2);
    assert forall|k: int| 0 <= k < v1.opponents@.len() implies {
        &&& #[trigger] v1.opponents@[k].id == v2.opponents@[k].id
        &&& v1.opponents@[k].name@ == v2.opponents@[k].name@
        &&& v1.opponents@[k].card_count == v2.opponents@[k].card_count
        &&& v1.opponents@[k].called_uno == v2.opponents@[k].called_uno
    } by {
        assert(shows(v1.opponents@[k], s1.players@[seat_after(
            s1.players@.len() as int,
            seat_of(s1.players@, id),
            k + 1,
            s1.direction,
        )]));
        assert(shows(v2.opponents@[k], s1.players@[seat_after(
            s1.players@.len() as int,
            seat_of(s1.players@, id),
            k + 1,
            s1.direction,
        )]));
    }
}

/// Seats counted around the table stay at the table.
proof fn lemma_seat_after_in_range(n: int, you: int, offset: int, d: Direction)
    requires
        0 <= you < n,
        1 <= offset < n,
    ensures
        0 <= seat_after(n, you, offset, d) < n,
{
    lemma_wrap_seat(n, you, offset);
}

/// The seat `offset` turns on, written without overflow.
proof fn lemma_wrap_seat(n: int, you: int, offset: int)
    requires
        0 <= you < n,
        1 <= offset < n,
    ensures
        seat_after(n, you, offset, Direction::Clockwise) == (if offset < n - you {
            you + offset
        } else {
            offset - (n - you)
        }),
        seat_after(n, you, offset, Direction::CounterClockwise) == (if offset <= you {
            you - offset
        } else {
            you + (n - offset)
        }),
{
    if offset < n - you {
        vstd::arithmetic::div_mod::lemma_small_mod((you + offset) as nat, n as nat);
    } else {
        vstd::arithmetic::div_mod::lemma_mod_add_multiples_vanish(offset - (n - you), n);
        vstd::arithmetic::div_mod::lemma_small_mod((offset - (n - you)) as nat, n as nat);
    }
    if offset <= you {
        vstd::arithmetic::div_mod::lemma_mod_add_multiples_vanish(you - offset, n);
        vstd::arithmetic::div_mod::lemma_small_mod((you - offset) as nat, n as nat);
    } else {
        vstd::arithmetic::div_mod::lemma_small_mod((you + n - offset) as nat, n as nat);
    }
}

} // verus!
