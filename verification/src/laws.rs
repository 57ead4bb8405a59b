use crate::action::PlayerAction;
use crate::card::{color_block, color_round, standard_deck, wild_pairs, Card, CardKind, Color};
use crate::error::GameError;
use crate::event::{GameEvent, PlayerId};
use crate::player::{first_index_of, is_first_index_of, lemma_first_index_unique, Player};
use crate::state::{Direction, GamePhase, GameState};
use crate::rules::{caught_without_uno, apply_outcome, turn_in_range, has_player, next_seat, previous_seat, flipped, lost_only_action_cards, numbers_have_colors, is_first_seat_of, seat_of, hands_multiset, draw_rounds};
use vstd::multiset::Multiset;
use vstd::prelude::*;

verus! {

broadcast use {
    vstd::seq_lib::group_to_multiset_ensures,
    vstd::multiset::group_multiset_axioms,
    vstd::multiset::group_multiset_properties,
};

pub(crate) proof fn lemma_first_seat_unique(players: Seq<Player>, id: PlayerId, i: int)
    requires
        is_first_seat_of(players, id, i),
    ensures
        seat_of(players, id) == i,
{
    let k = seat_of(players, id);
    assert(is_first_seat_of(players, id, k));
    if k < i {
        assert(players[k].id != id);
    } else if i < k {
        assert(players[i].id != id);
    }
}

/// Replacing the hand of one seat changes the cards held by exactly that difference.
pub(crate) proof fn lemma_hands_update(before: Seq<Player>, after: Seq<Player>, i: int, hand: Seq<Card>)
    requires
        after.len() == before.len(),
        0 <= i < before.len(),
        forall|j: int| 0 <= j < before.len() && j != i ==> #[trigger] after[j].hand@ == before[j].hand@,
        after[i].hand@ == hand,
    ensures
        hands_multiset(after).add(before[i].hand@.to_multiset()) == hands_multiset(before).add(
            hand.to_multiset(),
        ),
    decreases before.len(),
{
    let n = before.len();
    let old_hand = before[i].hand@.to_multiset();
    if i == n - 1 {
        lemma_hands_same(before.drop_last(), after.drop_last());
        assert(hands_multiset(after).add(old_hand) =~= hands_multiset(before).add(
            hand.to_multiset(),
        ));
    } else {
        lemma_hands_update(before.drop_last(), after.drop_last(), i, hand);
        assert(after.last().hand@ == before.last().hand@);
        assert(before.drop_last()[i] == before[i]);
        let ha = hands_multiset(after.drop_last());
        let hb = hands_multiset(before.drop_last());
        let last = before.last().hand@.to_multiset();
        assert(ha.add(old_hand) == hb.add(hand.to_multiset()));
        assert(hands_multiset(after) == ha.add(last));
        assert(hands_multiset(before) == hb.add(last));
        assert forall|v: Card| #[trigger]
            hands_multiset(after).add(old_hand).count(v) == hands_multiset(before).add(
                hand.to_multiset(),
            ).count(v) by {
            assert(ha.add(old_hand).count(v) == hb.add(hand.to_multiset()).count(v));
        }
        assert(hands_multiset(after).add(old_hand) =~= hands_multiset(before).add(
            hand.to_multiset(),
        ));
    }
}

/// Stepping one seat forward or back, written without wrapping arithmetic.
pub(crate) proof fn lemma_seat_arith(n: int, t: int)
    requires
        0 <= t < n,
    ensures
        (t + n - 1) % n == (if t == 0 {
            n - 1
        } else {
            t - 1
        }),
        (t + 1) % n == (if t == n - 1 {
            0
        } else {
            t + 1
        }),
{
    if t == 0 {
        vstd::arithmetic::div_mod::lemma_small_mod((n - 1) as nat, n as nat);
    } else {
        vstd::arithmetic::div_mod::lemma_mod_add_multiples_vanish(t - 1, n);
        vstd::arithmetic::div_mod::lemma_small_mod((t - 1) as nat, n as nat);
    }
    if t == n - 1 {
        vstd::arithmetic::div_mod::lemma_mod_self_0(n);
    } else {
        vstd::arithmetic::div_mod::lemma_small_mod((t + 1) as nat, n as nat);
    }
}

/// Only the hands count towards `hands_multiset`.
pub(crate) proof fn lemma_hands_same(a: Seq<Player>, b: Seq<Player>)
    requires
        a.len() == b.len(),
        forall|j: int| 0 <= j < a.len() ==> #[trigger] a[j].hand@ == b[j].hand@,
    ensures
        hands_multiset(a) == hands_multiset(b),
    decreases a.len(),
{
    if a.len() > 0 {
        lemma_hands_same(a.drop_last(), b.drop_last());
        assert(a.last().hand@ == b.last().hand@);
    }
}

/// Moving one card from a hand to the discard pile keeps the total of cards.
pub(crate) proof fn lemma_move_to_discard(
    draw: Multiset<Card>,
    discard: Seq<Card>,
    card: Card,
    hands_before: Multiset<Card>,
    hands_after: Multiset<Card>,
    hand: Multiset<Card>,
)
    requires
        hand.count(card) > 0,
        hands_after.add(hand) == hands_before.add(hand.remove(card)),
    ensures
        draw.add(discard.push(card).to_multiset()).add(hands_after) == draw.add(
            discard.to_multiset(),
        ).add(hands_before),
{
    assert forall|v: Card|
        #[trigger] draw.add(discard.push(card).to_multiset()).add(hands_after).count(v) == draw.add(
            discard.to_multiset(),
        ).add(hands_before).count(v) by {
        assert(hands_after.add(hand).count(v) == hands_before.add(hand.remove(card)).count(v));
        assert(discard.push(card).to_multiset() == discard.to_multiset().insert(card));
        let dp = discard.push(card).to_multiset();
        let d0 = discard.to_multiset();
        assert(draw.add(dp).add(hands_after).count(v) == draw.count(v) + dp.count(v)
            + hands_after.count(v));
        assert(draw.add(d0).add(hands_before).count(v) == draw.count(v) + d0.count(v)
            + hands_before.count(v));
        assert(hands_after.add(hand).count(v) == hands_after.count(v) + hand.count(v));
        assert(hands_before.add(hand.remove(card)).count(v) == hands_before.count(v) + hand.remove(
            card,
        ).count(v));
        if v == card {
            assert(hand.remove(card).count(v) == hand.count(v) - 1);
            assert(discard.to_multiset().insert(card).count(v) == discard.to_multiset().count(v) + 1);
        } else {
            assert(hand.remove(card).count(v) == hand.count(v));
            assert(discard.to_multiset().insert(card).count(v) == discard.to_multiset().count(v));
        }
    }
    assert(draw.add(discard.push(card).to_multiset()).add(hands_after) =~= draw.add(
        discard.to_multiset(),
    ).add(hands_before));
}

/// A draw round never draws or reshuffles more than once.
pub(crate) proof fn lemma_draw_rounds_bounds(deck: nat, discard: nat, k: nat)
    ensures
        draw_rounds(deck, discard, k).2 <= k,
        draw_rounds(deck, discard, k).3 <= k,
        draw_rounds(deck, discard, k).1 == (if draw_rounds(deck, discard, k).2 > 0 && discard > 0 {
            1
        } else {
            discard
        }),
        draw_rounds(deck, discard, k).2 == 0 ==> draw_rounds(deck, discard, k).0 + draw_rounds(
            deck,
            discard,
            k,
        ).3 == deck,
        deck >= k ==> draw_rounds(deck, discard, k) == ((deck - k) as nat, discard, 0nat, k),
    decreases k,
{
    if k > 0 {
        lemma_draw_rounds_bounds(deck, discard, (k - 1) as nat);
    }
}

/// Refilling the draw pile from the discard pile keeps the cards of the two piles.
pub(crate) proof fn lemma_refill_keeps(
    deck: Seq<Card>,
    discard: Seq<Card>,
    new_deck: Seq<Card>,
    new_discard: Seq<Card>,
)
    requires
        discard.len() > 0,
        new_discard == seq![discard.last()],
        new_deck.to_multiset() == deck.to_multiset().add(discard.drop_last().to_multiset()),
    ensures
        new_deck.to_multiset().add(new_discard.to_multiset()) == deck.to_multiset().add(
            discard.to_multiset(),
        ),
{
    assert(discard.drop_last().push(discard.last()) =~= discard);
    assert(new_discard =~= Seq::<Card>::empty().push(discard.last()));
    assert(new_deck.to_multiset().add(new_discard.to_multiset()) =~= deck.to_multiset().add(
        discard.to_multiset(),
    ));
}

/// Moving the top card of the draw pile into a hand keeps the total of cards.
pub(crate) proof fn lemma_move_to_hand(
    deck: Seq<Card>,
    discard: Multiset<Card>,
    hands_before: Multiset<Card>,
    hands_after: Multiset<Card>,
    hand: Seq<Card>,
)
    requires
        deck.len() > 0,
        hands_after.add(hand.to_multiset()) == hands_before.add(hand.push(deck.last()).to_multiset()),
    ensures
        deck.drop_last().to_multiset().add(discard).add(hands_after) == deck.to_multiset().add(
            discard,
        ).add(hands_before),
{
    let top = deck.last();
    assert(deck.drop_last().push(top) =~= deck);
    assert(deck.to_multiset() == deck.drop_last().to_multiset().insert(top));
    assert(hand.push(top).to_multiset() == hand.to_multiset().insert(top));
    assert forall|v: Card|
        #[trigger] deck.drop_last().to_multiset().add(discard).add(hands_after).count(v)
            == deck.to_multiset().add(discard).add(hands_before).count(v) by {
        assert(hands_after.add(hand.to_multiset()).count(v) == hands_before.add(
            hand.push(top).to_multiset(),
        ).count(v));
    }
    assert(deck.drop_last().to_multiset().add(discard).add(hands_after) =~= deck.to_multiset().add(
        discard,
    ).add(hands_before));
}

/// A reordering keeps every number card colored.
pub(crate) proof fn lemma_numbers_have_colors_multiset(a: Seq<Card>, b: Seq<Card>)
    requires
        numbers_have_colors(a),
        b.to_multiset() == a.to_multiset(),
    ensures
        numbers_have_colors(b),
{
    assert forall|c: Card| b.contains(c) && c.kind is Number implies c.color is Some by {
        assert(b.to_multiset().count(c) > 0);
        assert(a.contains(c));
    }
}

/// Taking the top card keeps every number card of the rest colored.
pub(crate) proof fn lemma_numbers_have_colors_drop_last(a: Seq<Card>)
    requires
        numbers_have_colors(a),
        a.len() > 0,
    ensures
        numbers_have_colors(a.drop_last()),
        a.last().kind is Number ==> a.last().color is Some,
{
    assert forall|c: Card| a.drop_last().contains(c) && c.kind is Number implies c.color is Some by {
        let i = choose|i: int| 0 <= i < a.drop_last().len() && a.drop_last()[i] == c;
        assert(a[i] == c);
        assert(a.contains(c));
    }
    assert(a.contains(a.last()));
}

/// The cards of a pile are those under its top card and the top card.
pub(crate) proof fn lemma_draw_top(a: Seq<Card>, rest: Seq<Card>)
    requires
        a.len() > 0,
        rest == a.drop_last(),
    ensures
        rest.to_multiset().insert(a.last()) == a.to_multiset(),
{
    assert(rest.push(a.last()) =~= a);
}

/// Losing a card that is not a number card keeps `lost_only_action_cards`.
pub(crate) proof fn lemma_lose_action_card(start: Multiset<Card>, now: Multiset<Card>, card: Card)
    requires
        lost_only_action_cards(start, now.insert(card)),
        !(card.kind is Number),
    ensures
        lost_only_action_cards(start, now),
{
    assert forall|c: Card| #[trigger] now.count(c) <= start.count(c) && (c.kind is Number ==> now.count(c) == start.count(c)) by {
        assert(now.insert(card).count(c) == now.count(c) + (if c == card { 1int } else { 0 }));
    }
}

} // verus!
verus! {

/// A card that a hand contains has a first occurrence, which `first_index_of` names.
pub proof fn lemma_first_index_exists(s: Seq<Card>, c: Card)
    requires
        s.contains(c),
    ensures
        is_first_index_of(s, c, first_index_of(s, c)),
    decreases s.len(),
{
    if s.drop_last().contains(c) {
        lemma_first_index_exists(s.drop_last(), c);
        let i = first_index_of(s.drop_last(), c);
        assert(s[i] == s.drop_last()[i]);
        assert forall|j: int| 0 <= j < i implies s[j] != c by {
            assert(s[j] == s.drop_last()[j]);
        }
        assert(is_first_index_of(s, c, i));
        lemma_first_index_unique(s, c, i);
    } else {
        let i = s.len() - 1;
        assert forall|j: int| 0 <= j < i implies s[j] != c by {
            if s[j] == c {
                assert(s.drop_last()[j] == c);
            }
        }
        assert(is_first_index_of(s, c, i));
        lemma_first_index_unique(s, c, i);
    }
}

/// A player who has a seat has a first seat, which `seat_of` names.
pub proof fn lemma_first_seat_exists(players: Seq<Player>, id: PlayerId)
    requires
        has_player(players, id),
    ensures
        is_first_seat_of(players, id, seat_of(players, id)),
    decreases players.len(),
{
    if has_player(players.drop_last(), id) {
        lemma_first_seat_exists(players.drop_last(), id);
        let i = seat_of(players.drop_last(), id);
        assert(players[i] == players.drop_last()[i]);
        assert forall|j: int| 0 <= j < i implies players[j].id != id by {
            assert(players[j] == players.drop_last()[j]);
        }
        assert(is_first_seat_of(players, id, i));
        lemma_first_seat_unique(players, id, i);
    } else {
        let i = players.len() - 1;
        assert forall|j: int| 0 <= j < i implies players[j].id != id by {
            if players[j].id == id {
                assert(players.drop_last()[j].id == id);
            }
        }
        assert(is_first_seat_of(players, id, i));
        lemma_first_seat_unique(players, id, i);
    }
}

/// Passing the turn on from a seat lands on a seat.
pub proof fn lemma_next_seat_in_range(n: int, t: int, d: Direction)
    requires
        0 <= t < n,
    ensures
        0 <= next_seat(n, t, d) < n,
        0 <= previous_seat(n, t, d) < n,
{
    lemma_seat_arith(n, t);
}

/// Law: the seat before the seat after `t` is `t`, in either direction; so the player who
/// is challenged after a turn has passed on is the one who just played.
pub proof fn law_previous_undoes_next(n: int, t: int, d: Direction)
    requires
        0 <= t < n,
    ensures
        previous_seat(n, next_seat(n, t, d), d) == t,
        next_seat(n, previous_seat(n, t, d), d) == t,
{
    lemma_seat_arith(n, t);
    let a = next_seat(n, t, d);
    let b = previous_seat(n, t, d);
    lemma_seat_arith(n, a);
    lemma_seat_arith(n, b);
}

/// Law: an action that `apply` refuses leaves the game as it was.
pub proof fn law_refused_action_changes_nothing(
    s: GameState,
    t: GameState,
    actor: PlayerId,
    action: PlayerAction,
    res: Result<Vec<GameEvent>, GameError>,
)
    requires
        turn_in_range(s),
        apply_outcome(s, t, actor, action, res),
        res is Err,
    ensures
        t.same_as(s),
{
}

/// Law: `apply` never creates or destroys a card: the draw pile, the discard pile and the
/// hands together hold the same cards before and after an accepted action.
pub proof fn law_accepted_action_keeps_cards(
    s: GameState,
    t: GameState,
    actor: PlayerId,
    action: PlayerAction,
    res: Result<Vec<GameEvent>, GameError>,
)
    requires
        turn_in_range(s),
        apply_outcome(s, t, actor, action, res),
        res is Ok,
    ensures
        t.all_cards() == s.all_cards(),
{
    if s.phase == GamePhase::Playing && s.current_id() == actor {
        assert(has_player(s.players@, actor)) by {
            assert(s.players@[s.turn_index as int].id == actor);
        }
        lemma_first_seat_exists(s.players@, actor);
        let i = seat_of(s.players@, actor);
        match action {
            PlayerAction::PlayCard { card, declared_color } => {
                let hand = s.players@[i].hand@;
                let left = hand.remove(first_index_of(hand, card));
                // a caught player's penalty draw keeps every card, as `play_piles` states;
                // otherwise the card only moved from the hand to the discard pile
                if !(left.len() > 0 && caught_without_uno(left.len() as int, s.players@[i].called_uno)) {
                    lemma_first_index_exists(hand, card);
                    lemma_hands_update(s.players@, t.players@, i, t.players@[i].hand@);
                    assert(hand.to_multiset().count(card) > 0);
                    lemma_move_to_discard(
                        s.draw_pile@.to_multiset(),
                        s.discard_pile@,
                        card,
                        hands_multiset(s.players@),
                        hands_multiset(t.players@),
                        hand.to_multiset(),
                    );
                    assert(t.all_cards() =~= s.all_cards());
                }
            },
            PlayerAction::CallUno => {
                lemma_hands_same(s.players@, t.players@);
                assert(t.all_cards() =~= s.all_cards());
            },
            _ => {},
        }
    }
}

/// Law: once a game has started, the turn always points at a seat.
pub proof fn law_turn_stays_in_range(
    s: GameState,
    t: GameState,
    actor: PlayerId,
    action: PlayerAction,
    res: Result<Vec<GameEvent>, GameError>,
)
    requires
        turn_in_range(s),
        apply_outcome(s, t, actor, action, res),
    ensures
        turn_in_range(t),
{
    if s.phase == GamePhase::Playing && s.current_id() == actor {
        let n = s.players@.len() as int;
        lemma_next_seat_in_range(n, s.turn_index as int, s.direction);
        lemma_next_seat_in_range(n, s.turn_index as int, flipped(s.direction));
    }
}

/// Law: `apply` never changes who sits where: the same players, by id and name, in the
/// same seats.
pub proof fn law_seating_is_kept(
    s: GameState,
    t: GameState,
    actor: PlayerId,
    action: PlayerAction,
    res: Result<Vec<GameEvent>, GameError>,
)
    requires
        turn_in_range(s),
        apply_outcome(s, t, actor, action, res),
    ensures
        t.players@.len() == s.players@.len(),
        forall|k: int|
            0 <= k < s.players@.len() ==> #[trigger] t.players@[k].id == s.players@[k].id
                && t.players@[k].name == s.players@[k].name,
{
}

/// Law: the report of an accepted action that passes the turn ends by naming the player
/// whose turn it now is; the report of the winning play ends by naming the winner.
pub proof fn law_report_ends_with_the_turn(
    s: GameState,
    t: GameState,
    actor: PlayerId,
    action: PlayerAction,
    events: Vec<GameEvent>,
)
    requires
        turn_in_range(s),
        apply_outcome(s, t, actor, action, Ok::<Vec<GameEvent>, GameError>(events)),
        !(action is CallUno),
    ensures
        events@.len() > 0,
        events@.last() == (if t.phase == GamePhase::Finished {
            GameEvent::GameOver { winner: actor }
        } else {
            GameEvent::TurnStarted { player: t.current_id() }
        }),
{
    assert(has_player(s.players@, actor)) by {
        assert(s.players@[s.turn_index as int].id == actor);
    }
    lemma_first_seat_exists(s.players@, actor);
    let i = seat_of(s.players@, actor);
    match action {
        PlayerAction::PlayCard { card, declared_color } => {
            let hand = s.players@[i].hand@;
            let left = hand.remove(first_index_of(hand, card));
            if left.len() > 0 {
                assert(t.phase == s.phase);
            }
        },
        _ => {},
    }
}

/// Law: an accepted action ends the game exactly when it is a play that empties the hand
/// of the player who made it.
pub proof fn law_game_ends_when_a_hand_empties(
    s: GameState,
    t: GameState,
    actor: PlayerId,
    action: PlayerAction,
    events: Vec<GameEvent>,
)
    requires
        turn_in_range(s),
        apply_outcome(s, t, actor, action, Ok::<Vec<GameEvent>, GameError>(events)),
    ensures
        (t.phase == GamePhase::Finished) == (action is PlayCard && t.players@[seat_of(
            s.players@,
            actor,
        )].hand@.len() == 0),
{
    assert(has_player(s.players@, actor)) by {
        assert(s.players@[s.turn_index as int].id == actor);
    }
    lemma_first_seat_exists(s.players@, actor);
    let i = seat_of(s.players@, actor);
    match action {
        PlayerAction::PlayCard { card, declared_color } => {
            let hand = s.players@[i].hand@;
            let left = hand.remove(first_index_of(hand, card));
            if left.len() > 0 && caught_without_uno(left.len() as int, s.players@[i].called_uno) {
                let tally = draw_rounds(s.draw_pile@.len(), s.discard_pile@.len(), 2);
                assert(t.players@[i].hand@.len() == left.len() + tally.3);
            }
        },
        _ => {},
    }
}

} // verus!
verus! {

/// Every card of a block of one color has that color.
proof fn lemma_color_block_colored(color: Color)
    ensures
        forall|i: int|
            0 <= i < color_block(color).len() ==> #[trigger] color_block(color)[i].color == Some(
                color,
            ),
{
    let r = color_round(color);
    assert forall|i: int| 0 <= i < color_block(color).len() implies #[trigger] color_block(
        color,
    )[i].color == Some(color) by {
        if i == 0 {
        } else if i < 13 {
            assert(color_block(color)[i] == r[i - 1]);
        } else {
            assert(color_block(color)[i] == r[i - 13]);
        }
    }
}

/// Law: in the standard deck every number card has a color, so a new game can start.
pub proof fn law_standard_deck_numbers_have_colors()
    ensures
        numbers_have_colors(standard_deck()),
        standard_deck().len() == 108,
{
    lemma_color_block_colored(Color::Red);
    lemma_color_block_colored(Color::Green);
    lemma_color_block_colored(Color::Blue);
    lemma_color_block_colored(Color::Yellow);
    let d = standard_deck();
    let a = color_block(Color::Red);
    let b = color_block(Color::Green);
    let c = color_block(Color::Blue);
    let e = color_block(Color::Yellow);
    let w = wild_pairs(4);
    assert forall|card: Card| d.contains(card) && card.kind is Number implies card.color is Some by {
        let i = choose|i: int| 0 <= i < d.len() && d[i] == card;
        if i < 25 {
            assert(d[i] == a[i]);
        } else if i < 50 {
            assert(d[i] == b[i - 25]);
        } else if i < 75 {
            assert(d[i] == c[i - 50]);
        } else if i < 100 {
            assert(d[i] == e[i - 75]);
        } else {
            assert(d[i] == w[i - 100]);
        }
    }
}

/// Law: `apply` never empties the discard pile, so there is always a top card to play on.
pub proof fn law_discard_stays_nonempty(
    s: GameState,
    t: GameState,
    actor: PlayerId,
    action: PlayerAction,
    res: Result<Vec<GameEvent>, GameError>,
)
    requires
        turn_in_range(s),
        apply_outcome(s, t, actor, action, res),
        s.discard_pile@.len() > 0,
    ensures
        t.discard_pile@.len() > 0,
{
}

/// How many copies of `c` a standard deck holds: per color one 0 and two of each of the
/// numbers 1 to 9, Skip, Reverse and DrawTwo; four Wild and four WildDrawFour, uncolored.
pub open spec fn standard_count(c: Card) -> nat {
    match c.color {
        None => if c.kind is Wild || c.kind is WildDrawFour {
            4
        } else {
            0
        },
        Some(_) => match c.kind {
            CardKind::Number(n) => if n == 0 {
                1
            } else if n <= 9 {
                2
            } else {
                0
            },
            CardKind::Skip | CardKind::Reverse | CardKind::DrawTwo => 2,
            _ => 0,
        },
    }
}

/// The place of a card kind within a round of a color (12 for kinds that are not there).
spec fn round_place(k: CardKind) -> int {
    match k {
        CardKind::Number(n) => if 1 <= n <= 9 {
            n - 1
        } else {
            12
        },
        CardKind::Skip => 9,
        CardKind::Reverse => 10,
        CardKind::DrawTwo => 11,
        _ => 12,
    }
}

/// The copies of `c` among the first `k` cards of a round of a color.
proof fn lemma_round_prefix_count(color: Color, c: Card, k: int)
    requires
        0 <= k <= 12,
    ensures
        color_round(color).take(k).to_multiset().count(c) == (if c.color == Some(color)
            && round_place(c.kind) < k {
            1nat
        } else {
            0nat
        }),
    decreases k,
{
    let r = color_round(color);
    if k == 0 {
        assert(r.take(0) =~= Seq::<Card>::empty());
    } else {
        lemma_round_prefix_count(color, c, k - 1);
        assert(r.take(k) =~= r.take(k - 1).push(r[k - 1]));
        if r[k - 1] == c {
            assert(round_place(c.kind) == k - 1);
        }
        if c.color == Some(color) && round_place(c.kind) == k - 1 {
            assert(r[k - 1] == c);
        }
    }
}

/// The copies of `c` in one round of a color: the numbers 1 to 9, Skip, Reverse, DrawTwo.
proof fn lemma_round_count(color: Color, c: Card)
    ensures
        color_round(color).to_multiset().count(c) == (if c.color == Some(color)
            && round_place(c.kind) < 12 {
            1nat
        } else {
            0nat
        }),
{
    lemma_round_prefix_count(color, c, 12);
    assert(color_round(color).take(12) =~= color_round(color));
}

/// The copies of `c` among `n` pairs of Wild and WildDrawFour.
proof fn lemma_wild_pairs_count(n: nat, c: Card)
    ensures
        wild_pairs(n).to_multiset().count(c) == (if c.color is None && (c.kind is Wild
            || c.kind is WildDrawFour) {
            n
        } else {
            0nat
        }),
    decreases n,
{
    if n > 0 {
        lemma_wild_pairs_count((n - 1) as nat, c);
        assert(wild_pairs(n) =~= wild_pairs((n - 1) as nat).push(
            Card { color: None, kind: CardKind::Wild },
        ).push(Card { color: None, kind: CardKind::WildDrawFour }));
    } else {
        assert(wild_pairs(0) =~= Seq::<Card>::empty());
    }
}

/// The copies of `c` in the block of one color.
proof fn lemma_block_count(color: Color, c: Card)
    ensures
        color_block(color).to_multiset().count(c) == (if c.color == Some(color) {
            standard_count(c)
        } else {
            0nat
        }),
{
    lemma_round_count(color, c);
    let zero = seq![Card { color: Some(color), kind: CardKind::Number(0) }];
    vstd::seq_lib::lemma_multiset_commutative(zero, color_round(color));
    vstd::seq_lib::lemma_multiset_commutative(zero + color_round(color), color_round(color));
    assert(zero =~= Seq::<Card>::empty().push(
        Card { color: Some(color), kind: CardKind::Number(0) },
    ));
}

/// Law: the standard deck holds one 0 and two of each other number, Skip, Reverse and
/// DrawTwo in every color, and four Wild and four WildDrawFour: 108 cards.
pub proof fn law_standard_deck_composition(c: Card)
    ensures
        standard_deck().to_multiset().count(c) == standard_count(c),
        standard_deck().len() == 108,
{
    let r = color_block(Color::Red);
    let g = color_block(Color::Green);
    let b = color_block(Color::Blue);
    let y = color_block(Color::Yellow);
    let w = wild_pairs(4);
    lemma_block_count(Color::Red, c);
    lemma_block_count(Color::Green, c);
    lemma_block_count(Color::Blue, c);
    lemma_block_count(Color::Yellow, c);
    lemma_wild_pairs_count(4, c);
    vstd::seq_lib::lemma_multiset_commutative(r, g);
    vstd::seq_lib::lemma_multiset_commutative(r + g, b);
    vstd::seq_lib::lemma_multiset_commutative(r + g + b, y);
    vstd::seq_lib::lemma_multiset_commutative(r + g + b + y, w);
    assert(standard_deck().to_multiset().count(c) == r.to_multiset().count(c) + g.to_multiset().count(
        c,
    ) + b.to_multiset().count(c) + y.to_multiset().count(c) + w.to_multiset().count(c));
    match c.color {
        None => {},
        Some(Color::Red) => {},
        Some(Color::Green) => {},
        Some(Color::Blue) => {},
        Some(Color::Yellow) => {},
    }
}

/// Law: a card added to a hand and then removed again leaves the hand with the cards it
/// had (the first equal card goes, so the order may differ).
pub proof fn law_add_then_remove_keeps_cards(hand: Seq<Card>, c: Card)
    ensures
        hand.push(c).contains(c),
        hand.push(c).remove(first_index_of(hand.push(c), c)).to_multiset() == hand.to_multiset(),
{
    let h = hand.push(c);
    assert(h[hand.len() as int] == c);
    lemma_first_index_exists(h, c);
    let i = first_index_of(h, c);
    assert(h.remove(i).to_multiset() == h.to_multiset().remove(c));
    assert(h.to_multiset() == hand.to_multiset().insert(c));
    assert(h.remove(i).to_multiset() =~= hand.to_multiset());
}

} // verus!
