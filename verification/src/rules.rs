use crate::action::PlayerAction;
use crate::card::{Card, CardKind, Color};
use crate::error::GameError;
use crate::event::{GameEvent, PlayerId};
use crate::player::{first_index_of, Player};
use crate::state::{Direction, GamePhase, GameState};
use vstd::multiset::Multiset;
use vstd::prelude::*;

verus! {

/// The direction opposite to `d`.
pub open spec fn flipped(d: Direction) -> Direction {
    match d {
        Direction::Clockwise => Direction::CounterClockwise,
        Direction::CounterClockwise => Direction::Clockwise,
    }
}

/// The seat after seat `t` of `n` seats, going in direction `d`.
pub open spec fn next_seat(n: int, t: int, d: Direction) -> int {
    match d {
        Direction::Clockwise => (t + 1) % n,
        Direction::CounterClockwise => (t + n - 1) % n,
    }
}

/// The seat before seat `t` of `n` seats, going in direction `d`.
pub open spec fn previous_seat(n: int, t: int, d: Direction) -> int {
    match d {
        Direction::Clockwise => (t + n - 1) % n,
        Direction::CounterClockwise => (t + 1) % n,
    }
}

/// `i` is the first seat taken by the player with id `id`.
pub open spec fn is_first_seat_of(players: Seq<Player>, id: PlayerId, i: int) -> bool {
    &&& 0 <= i < players.len()
    &&& players[i].id == id
    &&& forall|j: int| 0 <= j < i ==> players[j].id != id
}

/// Whether some seat is taken by the player with id `id`.
pub open spec fn has_player(players: Seq<Player>, id: PlayerId) -> bool {
    exists|i: int| 0 <= i < players.len() && players[i].id == id
}

/// The first seat taken by the player with id `id` (meaningful when `has_player`).
pub open spec fn seat_of(players: Seq<Player>, id: PlayerId) -> int {
    choose|i: int| is_first_seat_of(players, id, i)
}

/// The ids of the players, in seat order.
pub open spec fn player_ids(players: Seq<Player>) -> Seq<PlayerId> {
    players.map_values(|p: Player| p.id)
}

/// All cards held in the hands of `players`.
pub open spec fn hands_multiset(players: Seq<Player>) -> Multiset<Card>
    decreases players.len(),
{
    if players.len() == 0 {
        Multiset::empty()
    } else {
        hands_multiset(players.drop_last()).add(players.last().hand@.to_multiset())
    }
}

/// `after` is `before` with only the hand of seat `i` changed, to `hand`.
pub open spec fn only_hand_changed(
    before: Seq<Player>,
    after: Seq<Player>,
    i: int,
    hand: Seq<Card>,
) -> bool {
    &&& after.len() == before.len()
    &&& 0 <= i < before.len()
    &&& forall|j: int| 0 <= j < before.len() && j != i ==> after[j] == before[j]
    &&& after[i].id == before[i].id
    &&& after[i].name == before[i].name
    &&& after[i].called_uno == before[i].called_uno
    &&& after[i].hand@ == hand
}

/// The color reported with a played card: the declared one for a wild card; a declared
/// color means nothing for any other card.
pub open spec fn reported_color(card: Card, declared: Option<Color>) -> Option<Color> {
    if card.spec_is_wild() {
        declared
    } else {
        None
    }
}

/// The color that becomes active when `card` is played with `declared`: the declared color
/// of a wild card, else the card's own color (red for a card that has none).
pub open spec fn color_after_play(card: Card, declared: Option<Color>) -> Color {
    match reported_color(card, declared) {
        Some(c) => c,
        None => match card.color {
            Some(c) => c,
            None => Color::Red,
        },
    }
}

/// Why playing `card` is refused, checked in this order; `None` when it is accepted.
pub open spec fn play_refusal(
    s: GameState,
    actor: PlayerId,
    card: Card,
    declared: Option<Color>,
) -> Option<GameError> {
    if s.discard_pile@.len() == 0 {
        Some(GameError::EmptyDiscard)
    } else if !card.spec_can_play_on(s.discard_pile@.last(), s.active_color) {
        Some(GameError::InvalidCardPlay)
    } else if card.spec_is_wild() && declared is None {
        Some(GameError::MissingDeclaredColor)
    } else if !s.players@[seat_of(s.players@, actor)].hand@.contains(card) {
        Some(GameError::CardNotInHand)
    } else {
        None
    }
}

/// Whether an accepted play of `card` that does not end the game would push the stacked
/// draw penalty past what a `u8` holds.
pub open spec fn play_overflows(
    s: GameState,
    actor: PlayerId,
    card: Card,
    declared: Option<Color>,
) -> bool {
    &&& play_refusal(s, actor, card, declared) is None
    &&& s.players@[seat_of(s.players@, actor)].hand@.len() > 1
    &&& s.stacked_draw + card.spec_penalty() > u8::MAX
}

/// Whether `apply` would get as far as adding a penalty past what a `u8` holds.
pub open spec fn action_overflows(s: GameState, actor: PlayerId, action: PlayerAction) -> bool {
    &&& s.phase == GamePhase::Playing
    &&& s.current_id() == actor
    &&& action matches PlayerAction::PlayCard { card, declared_color } && play_overflows(
        s,
        actor,
        card,
        declared_color,
    )
}

/// The UNO penalty event, raised when a player is left with one card without having called UNO.
pub open spec fn uno_penalty_events(
    hand_len: int,
    called_uno: bool,
    actor: PlayerId,
) -> Seq<GameEvent> {
    if caught_without_uno(hand_len, called_uno) {
        seq![GameEvent::UnoPenalty { player: actor }]
    } else {
        Seq::empty()
    }
}

/// How many cards a player caught without having called UNO draws as penalty.
pub open spec fn uno_penalty_cards() -> nat {
    2
}

/// Whether a player left with `hand_len` cards after a play, who had `called_uno`, is caught.
pub open spec fn caught_without_uno(hand_len: int, called_uno: bool) -> bool {
    hand_len == 1 && !called_uno
}

/// The reshuffles that the penalty draw of a caught player makes, starting from `s`.
pub open spec fn penalty_reshuffles(s: GameState, caught: bool) -> nat {
    if caught {
        draw_rounds(s.draw_pile@.len(), s.discard_pile@.len(), uno_penalty_cards()).2
    } else {
        0
    }
}

/// The piles and the hand of seat `i` in `t`, after the play of `card` from `s` left that
/// hand as `hand`: a caught player drew the penalty cards in draw rounds (see `draw_rounds`),
/// all cards staying in the game; otherwise nothing was drawn. The card then went on top
/// of the discard pile.
pub open spec fn play_piles(
    s: GameState,
    t: GameState,
    i: int,
    hand: Seq<Card>,
    card: Card,
    caught: bool,
) -> bool {
    let deck = s.draw_pile@;
    if caught {
        let tally = draw_rounds(deck.len(), s.discard_pile@.len(), uno_penalty_cards());
        &&& t.draw_pile@.len() == tally.0
        &&& t.discard_pile@ == (if tally.2 > 0 && s.discard_pile@.len() > 0 {
            seq![s.discard_pile@.last()]
        } else {
            s.discard_pile@
        }).push(card)
        &&& t.players@[i].hand@.len() == hand.len() + tally.3
        &&& t.players@[i].hand@.take(hand.len() as int) == hand
        &&& (tally.2 == 0 ==> {
            &&& t.draw_pile@ == deck.take(deck.len() - tally.3)
            &&& t.players@[i].hand@ == hand + deck.skip(deck.len() - tally.3).reverse()
        })
        &&& t.all_cards() == s.all_cards()
    } else {
        &&& t.draw_pile@ == deck
        &&& t.discard_pile@ == s.discard_pile@.push(card)
        &&& t.players@[i].hand@ == hand
    }
}

/// `t` is `s` after `actor` played `card` (accepted) and `events` were reported.
pub open spec fn played_outcome(
    s: GameState,
    t: GameState,
    actor: PlayerId,
    card: Card,
    declared: Option<Color>,
    events: Seq<GameEvent>,
) -> bool {
    let i = seat_of(s.players@, actor);
    let hand = s.players@[i].hand@.remove(first_index_of(s.players@[i].hand@, card));
    let n = s.players@.len() as int;
    let played = GameEvent::CardPlayed {
        player: actor,
        card,
        declared_color: reported_color(card, declared),
    };
    &&& t.active_color == color_after_play(card, declared)
    &&& t.players@.len() == n
    &&& forall|j: int| 0 <= j < n && j != i ==> t.players@[j] == s.players@[j]
    &&& t.players@[i].id == s.players@[i].id
    &&& t.players@[i].name == s.players@[i].name
    &&& if hand.len() == 0 {
        // the player has won
        &&& t.draw_pile@ == s.draw_pile@
        &&& t.discard_pile@ == s.discard_pile@.push(card)
        &&& t.players@[i].hand@ == hand
        &&& t.phase == GamePhase::Finished
        &&& t.players@[i].called_uno == s.players@[i].called_uno
        &&& t.turn_index == s.turn_index
        &&& t.direction == s.direction
        &&& t.stacked_draw == s.stacked_draw
        &&& events == seq![played, GameEvent::GameOver { winner: actor }]
    } else {
        let caught = caught_without_uno(hand.len() as int, s.players@[i].called_uno);
        let head = seq![played] + uno_penalty_events(
            hand.len() as int,
            s.players@[i].called_uno,
            actor,
        ) + reshuffle_events(penalty_reshuffles(s, caught));
        &&& play_piles(s, t, i, hand, card, caught)
        &&& t.phase == s.phase
        &&& !t.players@[i].called_uno
        &&& t.turn_index < n
        &&& match card.kind {
            CardKind::Skip => {
                let skipped = next_seat(n, s.turn_index as int, s.direction);
                &&& t.direction == s.direction
                &&& t.stacked_draw == s.stacked_draw
                &&& t.turn_index == next_seat(n, skipped, s.direction)
                &&& events == head + seq![
                    GameEvent::TurnSkipped { player: s.players@[skipped].id },
                    GameEvent::TurnStarted { player: t.current_id() },
                ]
            },
            CardKind::Reverse => {
                &&& t.direction == flipped(s.direction)
                &&& t.stacked_draw == s.stacked_draw
                &&& t.turn_index == next_seat(n, s.turn_index as int, flipped(s.direction))
                &&& events == head + seq![
                    GameEvent::DirectionReversed,
                    GameEvent::TurnStarted { player: t.current_id() },
                ]
            },
            _ => {
                &&& t.direction == s.direction
                &&& t.stacked_draw == s.stacked_draw + card.spec_penalty()
                &&& t.turn_index == s.next_turn()
                &&& events == head + seq![GameEvent::TurnStarted { player: t.current_id() }]
            },
        }
    }
}

/// What playing `card` does to `s`: refused with the state unchanged, or played.
pub open spec fn play_card_outcome(
    s: GameState,
    t: GameState,
    actor: PlayerId,
    card: Card,
    declared: Option<Color>,
    res: Result<Vec<GameEvent>, GameError>,
) -> bool {
    match play_refusal(s, actor, card, declared) {
        Some(e) => res == Err::<Vec<GameEvent>, GameError>(e) && t.same_as(s),
        None => res matches Ok(events) && played_outcome(s, t, actor, card, declared, events@),
    }
}

/// Where the draw pile, the discard pile, the reshuffles and the drawn cards stand after
/// `k` rounds of: refill the draw pile from the discard pile if it is empty (a reshuffle),
/// then draw a card if there is one. Returns (draw pile size, discard pile size,
/// reshuffles, cards drawn), starting from piles of sizes `deck` and `discard`.
pub open spec fn draw_rounds(deck: nat, discard: nat, k: nat) -> (nat, nat, nat, nat)
    decreases k,
{
    if k == 0 {
        (deck, discard, 0, 0)
    } else {
        let prev = draw_rounds(deck, discard, (k - 1) as nat);
        let refilled = if prev.0 == 0 {
            if prev.1 > 0 {
                ((prev.1 - 1) as nat, 1nat, prev.2 + 1)
            } else {
                (0nat, prev.1, prev.2 + 1)
            }
        } else {
            (prev.0, prev.1, prev.2)
        };
        if refilled.0 > 0 {
            ((refilled.0 - 1) as nat, refilled.1, refilled.2, prev.3 + 1)
        } else {
            (refilled.0, refilled.1, refilled.2, prev.3)
        }
    }
}

/// `r` reshuffle events.
pub open spec fn reshuffle_events(r: nat) -> Seq<GameEvent> {
    Seq::new(r, |i: int| GameEvent::DeckReshuffled)
}

/// `t` is `s` after `k` draw rounds (see `draw_rounds`) into the hand of seat `i`, which
/// reported `reshuffles` and drew `drawn` cards. The cards drawn come from the top of the
/// draw pile; when a reshuffle took place, which ones is left to the shuffle.
pub open spec fn drew_rounds(
    s: GameState,
    t: GameState,
    i: int,
    k: nat,
    reshuffles: nat,
    drawn: nat,
) -> bool {
    let tally = draw_rounds(s.draw_pile@.len(), s.discard_pile@.len(), k);
    let deck = s.draw_pile@;
    let hand = s.players@[i].hand@;
    &&& reshuffles == tally.2
    &&& drawn == tally.3
    &&& t.draw_pile@.len() == tally.0
    &&& t.discard_pile@ == (if reshuffles > 0 && s.discard_pile@.len() > 0 {
        seq![s.discard_pile@.last()]
    } else {
        s.discard_pile@
    })
    &&& only_hand_changed(s.players@, t.players@, i, t.players@[i].hand@)
    &&& t.players@[i].hand@.len() == hand.len() + drawn
    &&& t.players@[i].hand@.take(hand.len() as int) == hand
    &&& (reshuffles == 0 ==> {
        &&& t.draw_pile@ == deck.take(deck.len() - drawn)
        &&& t.players@[i].hand@ == hand + deck.skip(deck.len() - drawn).reverse()
    })
    &&& t.all_cards() == s.all_cards()
}

/// `t` is `s` after `actor` drew (the stacked penalty, or one card) and passed the turn.
pub open spec fn draw_card_outcome(
    s: GameState,
    t: GameState,
    actor: PlayerId,
    res: Result<Vec<GameEvent>, GameError>,
) -> bool {
    let count: nat = if s.stacked_draw > 0 {
        s.stacked_draw as nat
    } else {
        1
    };
    let i = seat_of(s.players@, actor);
    let tally = draw_rounds(s.draw_pile@.len(), s.discard_pile@.len(), count);
    &&& drew_rounds(s, t, i, count, tally.2, tally.3)
    &&& t.phase == s.phase
    &&& t.direction == s.direction
    &&& t.active_color == s.active_color
    &&& t.stacked_draw == 0
    &&& t.turn_index == s.next_turn()
    &&& res matches Ok(events) && events@ == reshuffle_events(tally.2) + seq![
        GameEvent::CardDrawn { player: actor, count: tally.3 as u8 },
        GameEvent::TurnStarted { player: t.current_id() },
    ]
}

/// `t` is `s` after up to `count` cards went from the top of the draw pile, without any
/// refill, into the hand of seat `i`; `drawn` cards were there to take.
pub open spec fn drew_from_top(s: GameState, t: GameState, i: int, count: nat, drawn: nat) -> bool {
    let deck = s.draw_pile@;
    &&& drawn == (if deck.len() < count {
        deck.len()
    } else {
        count
    })
    &&& t.draw_pile@ == deck.take(deck.len() - drawn)
    &&& t.discard_pile@ == s.discard_pile@
    &&& only_hand_changed(
        s.players@,
        t.players@,
        i,
        s.players@[i].hand@ + deck.skip(deck.len() - drawn).reverse(),
    )
    &&& t.all_cards() == s.all_cards()
}

/// `t` is `s` after `actor` called UNO.
pub open spec fn call_uno_outcome(
    s: GameState,
    t: GameState,
    actor: PlayerId,
    res: Result<Vec<GameEvent>, GameError>,
) -> bool {
    let i = seat_of(s.players@, actor);
    &&& res matches Ok(events) && events@ == seq![GameEvent::UnoCalled { player: actor }]
    &&& t.players@.len() == s.players@.len()
    &&& forall|j: int| 0 <= j < s.players@.len() && j != i ==> t.players@[j] == s.players@[j]
    &&& t.players@[i].id == s.players@[i].id
    &&& t.players@[i].name == s.players@[i].name
    &&& t.players@[i].hand@ == s.players@[i].hand@
    &&& t.players@[i].called_uno
    &&& t.phase == s.phase
    &&& t.turn_index == s.turn_index
    &&& t.direction == s.direction
    &&& t.draw_pile@ == s.draw_pile@
    &&& t.discard_pile@ == s.discard_pile@
    &&& t.active_color == s.active_color
    &&& t.stacked_draw == s.stacked_draw
}

/// The color `c`, or `fallback` when there is none.
pub open spec fn color_or(c: Option<Color>, fallback: Color) -> Color {
    match c {
        Some(c) => c,
        None => fallback,
    }
}

/// Whether the player in seat `o` held a card, other than a wild, that could have been
/// played on the card under the top of the discard pile (under its color, or the active
/// color when it has none).
pub open spec fn held_legal_play(s: GameState, o: int) -> bool {
    let discard = s.discard_pile@;
    let hand = s.players@[o].hand@;
    discard.len() >= 2 && {
        let prev = discard[discard.len() - 2];
        let prev_color = color_or(prev.color, s.active_color);
        exists|k: int|
            0 <= k < hand.len() && !hand[k].spec_is_wild() && #[trigger] hand[k].spec_can_play_on(
                prev,
                prev_color,
            )
    }
}

/// `t` is `s` after `challenger` challenged the previous player's WildDrawFour: when that
/// player held a legal play, they draw up to 4 cards from the top of the draw pile; else the
/// challenger draws 6 (the 4 of the penalty and 2 more), with refills. A pending penalty
/// stays as it was.
pub open spec fn challenge_outcome(
    s: GameState,
    t: GameState,
    challenger: PlayerId,
    res: Result<Vec<GameEvent>, GameError>,
) -> bool {
    let n = s.players@.len() as int;
    let o = previous_seat(n, s.turn_index as int, s.direction);
    let offender = s.players@[o].id;
    &&& t.phase == s.phase
    &&& t.direction == s.direction
    &&& t.active_color == s.active_color
    &&& t.stacked_draw == s.stacked_draw
    &&& t.turn_index == s.next_turn()
    &&& if held_legal_play(s, o) {
        let deck_len = s.draw_pile@.len();
        let drawn: nat = if deck_len < 4 {
            deck_len
        } else {
            4
        };
        &&& drew_from_top(s, t, seat_of(s.players@, offender), 4, drawn)
        &&& res matches Ok(events) && events@ == seq![
            GameEvent::FourChallengeSuccess { offender, challenger },
            GameEvent::CardDrawn { player: offender, count: drawn as u8 },
            GameEvent::TurnStarted { player: t.current_id() },
        ]
    } else {
        let tally = draw_rounds(s.draw_pile@.len(), s.discard_pile@.len(), 6);
        &&& drew_rounds(s, t, seat_of(s.players@, challenger), 6, tally.2, tally.3)
        &&& res matches Ok(events) && events@ == reshuffle_events(tally.2) + seq![
            GameEvent::FourChallengeFailure { challenger },
            GameEvent::CardDrawn { player: challenger, count: tally.3 as u8 },
            GameEvent::TurnStarted { player: t.current_id() },
        ]
    }
}

/// Whether `after` holds the cards of `before` less, possibly, some that are not number cards.
pub open spec fn lost_only_action_cards(before: Multiset<Card>, after: Multiset<Card>) -> bool {
    forall|c: Card|
        #![trigger after.count(c)]
        after.count(c) <= before.count(c) && (c.kind is Number ==> after.count(c) == before.count(
            c,
        ))
}

/// How many cards seat `k` gets when seven cards are dealt to each seat in turn, from the top
/// of a draw pile of `deck` cards.
pub open spec fn dealt_to(deck: int, k: int) -> int {
    clamp(deck - 7 * k, 7)
}

/// `x` held between 0 and `hi`.
pub open spec fn clamp(x: int, hi: int) -> int {
    if x <= 0 {
        0
    } else if x < hi {
        x
    } else {
        hi
    }
}

/// Every number card in `cards` has a color.
pub open spec fn numbers_have_colors(cards: Seq<Card>) -> bool {
    forall|c: Card| cards.contains(c) && c.kind is Number ==> c.color is Some
}

/// `t` is `s` after `start` was asked to begin the game, with result `res`.
pub open spec fn start_outcome(s: GameState, t: GameState, res: Result<Vec<GameEvent>, GameError>) -> bool {
    if s.phase != GamePhase::Lobby {
        res == Err::<Vec<GameEvent>, GameError>(GameError::AlreadyStarted) && t == s
    } else if s.players@.len() < 2 {
        res == Err::<Vec<GameEvent>, GameError>(GameError::NotEnoughPlayers) && t == s
    } else {
        let deck = s.draw_pile@.len() as int;
        &&& t.players@.len() == s.players@.len()
        &&& forall|k: int|
            #![trigger t.players@[k]]
            0 <= k < s.players@.len() ==> {
                &&& t.players@[k].id == s.players@[k].id
                &&& t.players@[k].name == s.players@[k].name
                &&& t.players@[k].called_uno == s.players@[k].called_uno
                &&& t.players@[k].hand@.len() == s.players@[k].hand@.len() + dealt_to(deck, k)
                &&& t.players@[k].hand@.take(s.players@[k].hand@.len() as int)
                    == s.players@[k].hand@
            }
        &&& t.turn_index == s.turn_index
        &&& t.direction == s.direction
        &&& t.stacked_draw == s.stacked_draw
        &&& lost_only_action_cards(s.all_cards(), t.all_cards())
        &&& match res {
            Ok(events) => {
                let first = t.discard_pile@.last();
                &&& t.phase == GamePhase::Playing
                &&& t.discard_pile@ == s.discard_pile@.push(first)
                &&& first.kind is Number
                &&& first.color == Some(t.active_color)
                &&& events@.len() == 2
                &&& events@[0] matches GameEvent::GameStarted { player_order, first_card } && (
                player_order@ == player_ids(s.players@) && first_card == first)
                &&& events@[1] == GameEvent::TurnStarted { player: t.current_id() }
            },
            Err(e) => {
                &&& e == GameError::GameNotInProgress
                &&& t.phase == s.phase
                &&& t.draw_pile@.len() == 0
                &&& t.discard_pile@ == s.discard_pile@
                &&& t.active_color == s.active_color
            },
        }
    }
}

/// `t` is `s` after `actor` asked to take `action`, with result `res`: refused while the
/// game is not being played or when it is not the actor's turn, else as the action says.
pub open spec fn apply_outcome(
    s: GameState,
    t: GameState,
    actor: PlayerId,
    action: PlayerAction,
    res: Result<Vec<GameEvent>, GameError>,
) -> bool {
    if s.phase != GamePhase::Playing {
        res == Err::<Vec<GameEvent>, GameError>(GameError::GameNotInProgress) && t == s
    } else if s.current_id() != actor {
        res == Err::<Vec<GameEvent>, GameError>(GameError::NotYourTurn) && t == s
    } else {
        match action {
            PlayerAction::PlayCard { card, declared_color } => play_card_outcome(
                s,
                t,
                actor,
                card,
                declared_color,
                res,
            ),
            PlayerAction::DrawCard => draw_card_outcome(s, t, actor, res),
            PlayerAction::CallUno => call_uno_outcome(s, t, actor, res),
            PlayerAction::ChallengeFour => challenge_outcome(s, t, actor, res),
        }
    }
}

/// Once the game has started, the turn points at a seat.
pub open spec fn turn_in_range(s: GameState) -> bool {
    s.phase != GamePhase::Lobby ==> s.turn_index < s.players@.len()
}

impl GameState {
    /// The two states hold the same values (compared through the views of their collections).
    pub open spec fn same_as(&self, other: GameState) -> bool {
        &&& self.phase == other.phase
        &&& self.players@ == other.players@
        &&& self.turn_index == other.turn_index
        &&& self.direction == other.direction
        &&& self.draw_pile@ == other.draw_pile@
        &&& self.discard_pile@ == other.discard_pile@
        &&& self.active_color == other.active_color
        &&& self.stacked_draw == other.stacked_draw
    }

    /// The id of the player whose turn it is.
    pub open spec fn current_id(&self) -> PlayerId {
        self.players@[self.turn_index as int].id
    }

    /// Every card of the game: draw pile, discard pile and hands.
    pub open spec fn all_cards(&self) -> Multiset<Card> {
        self.draw_pile@.to_multiset().add(self.discard_pile@.to_multiset()).add(
            hands_multiset(self.players@),
        )
    }

    /// The seat after the current one.
    pub open spec fn next_turn(&self) -> int {
        next_seat(self.players@.len() as int, self.turn_index as int, self.direction)
    }
}

} // verus!
