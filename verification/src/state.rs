use crate::action::PlayerAction;
use crate::card::{standard_deck, Card, CardKind, Color, Deck};
use crate::error::GameError;
use crate::event::{GameEvent, PlayerId};
use crate::laws::{lemma_numbers_have_colors_multiset, lemma_numbers_have_colors_drop_last, lemma_draw_top, lemma_lose_action_card, lemma_first_seat_unique, lemma_hands_update, lemma_seat_arith, lemma_hands_same, lemma_move_to_discard, lemma_draw_rounds_bounds, lemma_refill_keeps, lemma_move_to_hand};
use crate::player::Player;
use crate::rules::{lost_only_action_cards, caught_without_uno, penalty_reshuffles, action_overflows, play_overflows, apply_outcome, numbers_have_colors, dealt_to, clamp, start_outcome, player_ids, flipped, next_seat, previous_seat, is_first_seat_of, has_player, seat_of, hands_multiset, only_hand_changed, uno_penalty_events, play_card_outcome, draw_rounds, reshuffle_events, drew_rounds, draw_card_outcome, drew_from_top, call_uno_outcome, color_or, held_legal_play, challenge_outcome};
use rand::rngs::StdRng;
use vstd::prelude::*;

verus! {

broadcast use {
    vstd::seq_lib::group_to_multiset_ensures,
    vstd::multiset::group_multiset_axioms,
    vstd::multiset::group_multiset_properties,
};

/// The order in which turns pass around the table.
#[derive(Debug, Clone, Copy, PartialEq, Eq, Structural)]
pub enum Direction {
    Clockwise,
    CounterClockwise,
}

#[derive(Debug, Clone, Copy, PartialEq, Eq, Structural)]
pub enum GamePhase {
    Lobby,
    Playing,
    Finished,
}

/// The whole state of one game.
#[derive(Debug, Clone)]
pub struct GameState {
    pub phase: GamePhase,
    pub players: Vec<Player>,
    pub turn_index: usize,
    pub direction: Direction,
    pub draw_pile: Deck,
    pub discard_pile: Vec<Card>,
    /// The currently active color (matters after a Wild is played).
    pub active_color: Color,
    /// Stacked draw penalty waiting to be resolved by the next player.
    pub stacked_draw: u8,
}

impl GameState {
    pub fn new() -> (state: GameState)
        ensures
            state.phase == GamePhase::Lobby,
            state.players@.len() == 0,
            state.turn_index == 0,
            state.direction == Direction::Clockwise,
            state.draw_pile@ == standard_deck(),
            state.discard_pile@.len() == 0,
            state.active_color == Color::Red,
            state.stacked_draw == 0,
    {
        GameState {
            phase: GamePhase::Lobby,
            players: Vec::new(),
            turn_index: 0,
            direction: Direction::Clockwise,
            draw_pile: Deck::standard(),
            discard_pile: Vec::new(),
            active_color: Color::Red,  // overwritten on game start
            stacked_draw: 0,
        }
    }

    // ── Lobby ────────────────────────────────────────────────────────────────

    pub fn add_player(&mut self, player: Player) -> (res: Result<(), GameError>)
        ensures
            old(self).phase != GamePhase::Lobby ==> res == Err::<(), GameError>(
                GameError::AlreadyStarted,
            ) && *final(self) == *old(self),
            old(self).phase == GamePhase::Lobby && old(self).players@.len() >= 10 ==> res == Err::<
                (),
                GameError,
            >(GameError::TooManyPlayers) && *final(self) == *old(self),
            old(self).phase == GamePhase::Lobby && old(self).players@.len() < 10 ==> res == Ok::<
                (),
                GameError,
            >(()) && final(self).players@ == old(self).players@.push(player) && *final(self) == (
            GameState { players: final(self).players, ..*old(self) }),
    {
        match self.phase {
            GamePhase::Lobby => {},
            _ => return Err(GameError::AlreadyStarted),
        }
        if self.players.len() >= 10 {
            return Err(GameError::TooManyPlayers);
        }
        self.players.push(player);
        Ok(())
    }

    // ── Turn helpers ─────────────────────────────────────────────────────────

    fn advance(&mut self)
        requires
            old(self).turn_index < old(self).players@.len(),
        ensures
            final(self).turn_index == old(self).next_turn(),
            final(self).turn_index < final(self).players@.len(),
            *final(self) == (GameState { turn_index: final(self).turn_index, ..*old(self) }),
    {
        let n = self.players.len();
        proof {
            lemma_seat_arith(n as int, self.turn_index as int);
        }
        self.turn_index = match self.direction {
            Direction::Clockwise => (self.turn_index + 1) % n,
            Direction::CounterClockwise => if self.turn_index == 0 {
                n - 1
            } else {
                self.turn_index - 1
            },
        };
    }

    fn flip_direction(&mut self)
        ensures
            *final(self) == (GameState { direction: flipped(old(self).direction), ..*old(self) }),
    {
        self.direction = match self.direction {
            Direction::Clockwise => Direction::CounterClockwise,
            Direction::CounterClockwise => Direction::Clockwise,
        };
    }

    fn previous_index(&self) -> (i: usize)
        requires
            self.turn_index < self.players@.len(),
        ensures
            i == previous_seat(self.players@.len() as int, self.turn_index as int, self.direction),
            i < self.players@.len(),
    {
        let n = self.players.len();
        proof {
            lemma_seat_arith(n as int, self.turn_index as int);
        }
        match self.direction {
            Direction::Clockwise => if self.turn_index == 0 {
                n - 1
            } else {
                self.turn_index - 1
            },
            Direction::CounterClockwise => (self.turn_index + 1) % n,
        }
    }

    pub fn current_player_id(&self) -> (id: PlayerId)
        requires
            self.turn_index < self.players@.len(),
        ensures
            id == self.current_id(),
    {
        self.players[self.turn_index].id
    }

    fn player_index(&self, id: PlayerId) -> (res: Result<usize, GameError>)
        ensures
            match res {
                Ok(i) => is_first_seat_of(self.players@, id, i as int) && i == seat_of(
                    self.players@,
                    id,
                ),
                Err(e) => e == GameError::PlayerNotFound(id) && !has_player(self.players@, id),
            },
    {
        let mut i: usize = 0;
        while i < self.players.len()
            invariant
                0 <= i <= self.players@.len(),
                forall|j: int| 0 <= j < i ==> self.players@[j].id != id,
            decreases self.players@.len() - i,
        {
            if self.players[i].id == id {
                proof {
                    lemma_first_seat_unique(self.players@, id, i as int);
                }
                return Ok(i);
            }
            i = i + 1;
        }
        Err(GameError::PlayerNotFound(id))
    }

    pub fn top_card(&self) -> (top: Option<&Card>)
        ensures
            self.discard_pile@.len() == 0 ==> top is None,
            self.discard_pile@.len() > 0 ==> top == Some(&self.discard_pile@.last()),
    {
        let n = self.discard_pile.len();
        if n == 0 {
            None
        } else {
            Some(&self.discard_pile[n - 1])
        }
    }

    /// Starts the game: shuffles the draw pile, deals seven cards to each player, and flips
    /// the first number card onto the discard pile. A card flipped on the way that is not a
    /// number card leaves the game, and the draw pile is shuffled again.
    pub fn start(&mut self, rng: &mut StdRng) -> (res: Result<Vec<GameEvent>, GameError>)
        requires
            old(self).phase == GamePhase::Lobby && old(self).players@.len() >= 2 ==> old(
                self,
            ).turn_index < old(self).players@.len(),
            numbers_have_colors(old(self).draw_pile@),
        ensures
            start_outcome(*old(self), *final(self), res),
            old(self).phase != GamePhase::Lobby || old(self).players@.len() < 2 ==> *final(rng)
                == *old(rng),
    {
        if self.phase != GamePhase::Lobby {
            return Err(GameError::AlreadyStarted);
        }
        if self.players.len() < 2 {
            return Err(GameError::NotEnoughPlayers);
        }
        let ghost s0 = *self;
        self.draw_pile.shuffle(rng);
        proof {
            lemma_numbers_have_colors_multiset(s0.draw_pile@, self.draw_pile@);
        }
        let ghost deck_len = self.draw_pile@.len() as int;
        // Deal 7 cards to each player
        let n = self.players.len();
        let mut p: usize = 0;
        while p < n
            invariant
                0 <= p <= n,
                *old(self) == s0,
                n == s0.players@.len(),
                deck_len == s0.draw_pile@.len(),
                self.draw_pile@.len() == (if deck_len - 7 * p <= 0 {
                    0
                } else {
                    deck_len - 7 * p
                }),
                numbers_have_colors(self.draw_pile@),
                self.players@.len() == n,
                forall|k: int|
                    #![trigger self.players@[k]]
                    0 <= k < n ==> {
                        &&& self.players@[k].id == s0.players@[k].id
                        &&& self.players@[k].name == s0.players@[k].name
                        &&& self.players@[k].called_uno == s0.players@[k].called_uno
                        &&& self.players@[k].hand@.len() == s0.players@[k].hand@.len() + (if k < p {
                            dealt_to(deck_len, k)
                        } else {
                            0
                        })
                        &&& self.players@[k].hand@.take(s0.players@[k].hand@.len() as int)
                            == s0.players@[k].hand@
                    },
                self.all_cards() == s0.all_cards(),
                self.phase == s0.phase,
                self.turn_index == s0.turn_index,
                self.direction == s0.direction,
                self.stacked_draw == s0.stacked_draw,
                self.discard_pile@ == s0.discard_pile@,
                self.active_color == s0.active_color,
            decreases n - p,
        {
            let mut c: usize = 0;
            while c < 7
                invariant
                    0 <= c <= 7,
                    p < n,
                    *old(self) == s0,
                    n == s0.players@.len(),
                    deck_len == s0.draw_pile@.len(),
                    self.draw_pile@.len() == (if deck_len - 7 * p - c <= 0 {
                        0
                    } else {
                        deck_len - 7 * p - c
                    }),
                    numbers_have_colors(self.draw_pile@),
                    self.players@.len() == n,
                    forall|k: int|
                        #![trigger self.players@[k]]
                        0 <= k < n ==> {
                            &&& self.players@[k].id == s0.players@[k].id
                            &&& self.players@[k].name == s0.players@[k].name
                            &&& self.players@[k].called_uno == s0.players@[k].called_uno
                            &&& self.players@[k].hand@.len() == s0.players@[k].hand@.len() + (if k
                                < p {
                                dealt_to(deck_len, k)
                            } else if k == p {
                                clamp(deck_len - 7 * p, c as int)
                            } else {
                                0
                            })
                            &&& self.players@[k].hand@.take(s0.players@[k].hand@.len() as int)
                                == s0.players@[k].hand@
                        },
                    self.all_cards() == s0.all_cards(),
                    self.phase == s0.phase,
                    self.turn_index == s0.turn_index,
                    self.direction == s0.direction,
                    self.stacked_draw == s0.stacked_draw,
                    self.discard_pile@ == s0.discard_pile@,
                    self.active_color == s0.active_color,
                decreases 7 - c,
            {
                let ghost mid = *self;
                if let Some(card) = self.draw_pile.draw() {
                    self.give_card(p, card);
                    proof {
                        lemma_hands_update(
                            mid.players@,
                            self.players@,
                            p as int,
                            mid.players@[p as int].hand@.push(card),
                        );
                        lemma_move_to_hand(
                            mid.draw_pile@,
                            mid.discard_pile@.to_multiset(),
                            hands_multiset(mid.players@),
                            hands_multiset(self.players@),
                            mid.players@[p as int].hand@,
                        );
                        let h = mid.players@[p as int].hand@;
                        let h0 = s0.players@[p as int].hand@;
                        assert(h.push(card).take(h0.len() as int) =~= h.take(h0.len() as int));
                        lemma_numbers_have_colors_drop_last(mid.draw_pile@);
                    }
                }
                c = c + 1;
            }
            p = p + 1;
        }
        assert(self.all_cards() == s0.all_cards());
        // Flip the first card; re-draw until it is a number card. A card flipped on the way
        // that is not a number card is taken out of the game, and the draw pile is shuffled.
        let mut first: Option<Card> = None;
        while first.is_none()
            invariant
                numbers_have_colors(self.draw_pile@),
                first is None ==> lost_only_action_cards(s0.all_cards(), self.all_cards()),
                first matches Some(card) ==> card.kind is Number && card.color is Some,
                first matches Some(card) ==> lost_only_action_cards(
                    s0.all_cards(),
                    self.all_cards().insert(card),
                ),
                // unchanged by the flip
                *old(self) == s0,
                s0.phase == GamePhase::Lobby,
                s0.players@.len() >= 2,
                deck_len == s0.draw_pile@.len(),
                self.players@.len() == s0.players@.len(),
                forall|k: int|
                    #![trigger self.players@[k]]
                    0 <= k < s0.players@.len() ==> {
                        &&& self.players@[k].id == s0.players@[k].id
                        &&& self.players@[k].name == s0.players@[k].name
                        &&& self.players@[k].called_uno == s0.players@[k].called_uno
                        &&& self.players@[k].hand@.len() == s0.players@[k].hand@.len()
                            + dealt_to(deck_len, k)
                        &&& self.players@[k].hand@.take(s0.players@[k].hand@.len() as int)
                            == s0.players@[k].hand@
                    },
                self.phase == s0.phase,
                self.turn_index == s0.turn_index,
                self.direction == s0.direction,
                self.stacked_draw == s0.stacked_draw,
                self.discard_pile@ == s0.discard_pile@,
                self.active_color == s0.active_color,
            decreases self.draw_pile@.len() + (if first is None {
                1int
            } else {
                0
            }),
        {
            let ghost prev = *self;
            match self.draw_pile.draw() {
                Some(card) => {
                    proof {
                        lemma_numbers_have_colors_drop_last(prev.draw_pile@);
                        lemma_draw_top(prev.draw_pile@, self.draw_pile@);
                        assert(self.all_cards().insert(card) =~= prev.all_cards());
                    }
                    if let CardKind::Number(_) = card.kind {
                        first = Some(card);
                    } else {
                        let ghost drawn_state = *self;
                        let mut flipped: Vec<Card> = Vec::new();
                        flipped.push(card);
                        self.draw_pile.refill_from_discard(&mut flipped, rng);
                        proof {
                            assert(flipped@.drop_last() =~= Seq::<Card>::empty());
                            assert(self.draw_pile@.to_multiset() =~= drawn_state.draw_pile@.to_multiset());
                            assert(self.all_cards() =~= drawn_state.all_cards());
                            lemma_numbers_have_colors_multiset(drawn_state.draw_pile@, self.draw_pile@);
                            lemma_lose_action_card(s0.all_cards(), self.all_cards(), card);
                        }
                    }
                },
                None => return Err(GameError::GameNotInProgress),
            }
        }
        let first_card = match first {
            Some(card) => card,
            None => return Err(GameError::GameNotInProgress),
        };
        self.active_color = first_card.color.unwrap();
        let ghost before_push = *self;
        self.discard_pile.push(first_card);
        assert(self.all_cards() =~= before_push.all_cards().insert(first_card));
        self.phase = GamePhase::Playing;
        let mut player_order: Vec<PlayerId> = Vec::new();
        let mut k: usize = 0;
        while k < self.players.len()
            invariant
                0 <= k <= self.players@.len(),
                player_order@ == player_ids(self.players@).take(k as int),
            decreases self.players@.len() - k,
        {
            player_order.push(self.players[k].id);
            assert(player_ids(self.players@).take(k + 1) =~= player_ids(self.players@).take(
                k as int,
            ).push(self.players@[k as int].id));
            k = k + 1;
        }
        assert(player_ids(self.players@).take(self.players@.len() as int) =~= player_ids(
            self.players@,
        ));
        assert(player_ids(self.players@) =~= player_ids(s0.players@)) by {
            assert forall|k: int| 0 <= k < s0.players@.len() implies player_ids(self.players@)[k]
                == player_ids(s0.players@)[k] by {
                assert(self.players@[k].id == s0.players@[k].id);
            }
        }
        let first_player = self.current_player_id();
        let mut events: Vec<GameEvent> = Vec::new();
        events.push(GameEvent::GameStarted { player_order, first_card });
        events.push(GameEvent::TurnStarted { player: first_player });
        Ok(events)
    }

    // ── Main action entry point ───────────────────────────────────────────────

    /// Apply an action from `actor`. Returns the list of events that occurred.
    /// Callers (server) broadcast these events to all connected clients.
    pub fn apply(&mut self, actor: PlayerId, action: PlayerAction, rng: &mut StdRng) -> (res:
        Result<Vec<GameEvent>, GameError>)
        requires
            old(self).phase == GamePhase::Playing ==> old(self).turn_index < old(self).players@.len(),
            !action_overflows(*old(self), actor, action),
        ensures
            apply_outcome(*old(self), *final(self), actor, action, res),
            res is Err ==> *final(rng) == *old(rng),
    {
        if self.phase != GamePhase::Playing {
            return Err(GameError::GameNotInProgress);
        }
        if self.current_player_id() != actor {
            return Err(GameError::NotYourTurn);
        }
        match action {
            PlayerAction::PlayCard { card, declared_color } => self.apply_play_card(
                actor,
                card,
                declared_color,
                rng,
            ),
            PlayerAction::DrawCard => self.apply_draw_card(actor, rng),
            PlayerAction::CallUno => self.apply_call_uno(actor),
            PlayerAction::ChallengeFour => self.apply_challenge_four(actor, rng),
        }
    }

    /// Whether `apply` would push the stacked draw penalty past what a `u8` holds when
    /// `actor` takes `action`: the play is accepted, does not end the game, and its penalty
    /// does not fit. `apply` must not be asked to do that.
    pub fn penalty_would_overflow(&self, actor: PlayerId, action: &PlayerAction) -> (b: bool)
        requires
            self.phase == GamePhase::Playing ==> self.turn_index < self.players@.len(),
        ensures
            b == action_overflows(*self, actor, *action),
    {
        if self.phase != GamePhase::Playing || self.current_player_id() != actor {
            return false;
        }
        let (card, declared_color) = match action {
            PlayerAction::PlayCard { card, declared_color } => (*card, *declared_color),
            _ => return false,
        };
        if u8::MAX - self.stacked_draw >= card.penalty_draw_count() {
            return false;
        }
        let n_discard = self.discard_pile.len();
        if n_discard == 0 || !card.can_play_on(&self.discard_pile[n_discard - 1], &self.active_color) {
            return false;
        }
        if card.is_wild() && declared_color.is_none() {
            return false;
        }
        assert(self.players@[self.turn_index as int].id == actor);
        let idx = match self.player_index(actor) {
            Ok(i) => i,
            Err(_) => return false,
        };
        let cards = self.players[idx].hand.cards();
        let mut held = false;
        let mut k: usize = 0;
        while k < cards.len()
            invariant
                0 <= k <= cards@.len(),
                cards@ == self.players@[idx as int].hand@,
                held <==> exists|j: int| 0 <= j < k && cards@[j] == card,
            decreases cards@.len() - k,
        {
            if cards[k] == card {
                held = true;
            }
            k = k + 1;
        }
        proof {
            if cards@.contains(card) {
                let j = choose|j: int| 0 <= j < cards@.len() && cards@[j] == card;
                assert(held);
            }
        }
        held && cards.len() > 1
    }

    // ── Action handlers ──────────────────────────────────────────────────────

    #[verifier::spinoff_prover]
    #[verifier::rlimit(60)]
    fn apply_play_card(
        &mut self,
        actor: PlayerId,
        card: Card,
        declared_color: Option<Color>,
        rng: &mut StdRng,
    ) -> (res:
        Result<Vec<GameEvent>, GameError>)
        requires
            old(self).turn_index < old(self).players@.len(),
            old(self).current_id() == actor,
            !play_overflows(*old(self), actor, card, declared_color),
        ensures
            play_card_outcome(*old(self), *final(self), actor, card, declared_color, res),
            res is Err ==> *final(rng) == *old(rng),
            res is Ok ==> final(self).all_cards() == old(self).all_cards(),
    {
        let n_discard = self.discard_pile.len();
        if n_discard == 0 {
            return Err(GameError::EmptyDiscard);
        }
        let top = self.discard_pile[n_discard - 1];
        if !card.can_play_on(&top, &self.active_color) {
            return Err(GameError::InvalidCardPlay);
        }
        if card.is_wild() && declared_color.is_none() {
            return Err(GameError::MissingDeclaredColor);
        }
        assert(self.players@[self.turn_index as int].id == actor);
        let idx = match self.player_index(actor) {
            Ok(i) => i,
            Err(e) => return Err(e),
        };
        let ghost s0 = *self;
        let ghost old_hand = self.players@[idx as int].hand@;
        if !self.players[idx].hand.remove(&card) {
            assert(self.players@ =~= s0.players@);
            return Err(GameError::CardNotInHand);
        }
        proof {
            lemma_hands_update(s0.players@, self.players@, idx as int, self.players@[idx as int].hand@);
            assert(old_hand.to_multiset().count(card) > 0);
            lemma_move_to_discard(
                s0.draw_pile@.to_multiset(),
                s0.discard_pile@,
                card,
                hands_multiset(s0.players@),
                hands_multiset(self.players@),
                old_hand.to_multiset(),
            );
        }
        // A declared color belongs to a wild card only; any other card brings its own
        let reported = if card.is_wild() {
            declared_color
        } else {
            None
        };
        // Update active color
        self.active_color = match reported {
            Some(c) => c,
            None => match card.color {
                Some(c) => c,
                None => Color::Red,
            },
        };
        let mut events: Vec<GameEvent> = Vec::new();
        events.push(GameEvent::CardPlayed { player: actor, card, declared_color: reported });
        // Win condition
        if self.players[idx].hand.is_empty() {
            self.phase = GamePhase::Finished;
            self.discard_pile.push(card);
            events.push(GameEvent::GameOver { winner: actor });
            assert(events@ =~= seq![
                GameEvent::CardPlayed { player: actor, card, declared_color: reported },
                GameEvent::GameOver { winner: actor },
            ]);
            assert(self.all_cards() =~= s0.all_cards());
            return Ok(events);
        }
        // UNO penalty check: a player left with one card who did not call UNO is caught,
        // and draws two cards as penalty
        let ghost sr = *self;
        let ghost hand = self.players@[idx as int].hand@;
        let caught = self.players[idx].hand.len() == 1 && !self.players[idx].called_uno;
        if caught {
            events.push(GameEvent::UnoPenalty { player: actor });
            let _drawn = self.draw_rounds_into(idx, 2, &mut events, rng);
        }
        let ghost s1 = *self;
        let ghost head = events@;
        proof {
            assert(caught == caught_without_uno(hand.len() as int, s0.players@[idx as int].called_uno));
            assert(head =~= seq![GameEvent::CardPlayed { player: actor, card, declared_color: reported }]
                + uno_penalty_events(hand.len() as int, s0.players@[idx as int].called_uno, actor)
                + reshuffle_events(penalty_reshuffles(s0, caught)));
            if !caught {
                assert(s1 == sr);
            }
        }
        self.players[idx].called_uno = false;
        proof {
            lemma_hands_same(s1.players@, self.players@);
        }
        // Card effects
        match card.kind {
            CardKind::Skip => {
                self.advance();
                let skipped = self.current_player_id();
                events.push(GameEvent::TurnSkipped { player: skipped });
                self.advance();
            },
            CardKind::Reverse => {
                self.flip_direction();
                events.push(GameEvent::DirectionReversed);
                self.advance();
            },
            CardKind::DrawTwo | CardKind::WildDrawFour => {
                self.stacked_draw = self.stacked_draw + card.penalty_draw_count();
                // Next player must immediately resolve the draw
                self.advance();
            },
            _ => {
                self.advance();
            },
        }
        self.discard_pile.push(card);
        let next = self.current_player_id();
        events.push(GameEvent::TurnStarted { player: next });
        assert(hands_multiset(self.players@) == hands_multiset(s1.players@));
        assert(self.draw_pile@ == s1.draw_pile@);
        assert(self.discard_pile@ == s1.discard_pile@.push(card));
        assert(self.players@[idx as int].hand@ == s1.players@[idx as int].hand@);
        proof {
            assert(sr.draw_pile@ == s0.draw_pile@);
            assert(sr.discard_pile@ == s0.discard_pile@);
            assert(sr.draw_pile@.to_multiset().add(sr.discard_pile@.push(card).to_multiset()).add(
                hands_multiset(sr.players@),
            ) == s0.all_cards());
            assert(s1.all_cards() == sr.all_cards());
            assert(self.all_cards() =~= s1.all_cards().insert(card));
            assert(sr.all_cards().insert(card) =~= sr.draw_pile@.to_multiset().add(
                sr.discard_pile@.push(card).to_multiset(),
            ).add(hands_multiset(sr.players@)));
        }
        assert(self.all_cards() == s0.all_cards());
        proof {
            let n = s0.players@.len() as int;
            match card.kind {
                CardKind::Skip => {
                    let skipped = next_seat(n, s0.turn_index as int, s0.direction);
                    assert(events@ =~= head + seq![
                        GameEvent::TurnSkipped { player: s0.players@[skipped].id },
                        GameEvent::TurnStarted { player: next },
                    ]);
                },
                CardKind::Reverse => {
                    assert(events@ =~= head + seq![
                        GameEvent::DirectionReversed,
                        GameEvent::TurnStarted { player: next },
                    ]);
                },
                _ => {
                    assert(events@ =~= head + seq![GameEvent::TurnStarted { player: next }]);
                },
            }
        }
        Ok(events)
    }

    fn apply_draw_card(&mut self, actor: PlayerId, rng: &mut StdRng) -> (res: Result<
        Vec<GameEvent>,
        GameError,
    >)
        requires
            old(self).turn_index < old(self).players@.len(),
            old(self).current_id() == actor,
        ensures
            draw_card_outcome(*old(self), *final(self), actor, res),
            res is Err ==> *final(rng) == *old(rng),
    {
        let count: u8 = if self.stacked_draw > 0 {
            let c = self.stacked_draw;
            self.stacked_draw = 0;
            c
        } else {
            1
        };
        let mut events: Vec<GameEvent> = Vec::new();
        assert(self.players@[self.turn_index as int].id == actor);
        let idx = match self.player_index(actor) {
            Ok(i) => i,
            Err(e) => return Err(e),
        };
        let drawn = self.draw_rounds_into(idx, count, &mut events, rng);
        events.push(GameEvent::CardDrawn { player: actor, count: drawn });
        self.advance();
        let next = self.current_player_id();
        events.push(GameEvent::TurnStarted { player: next });
        proof {
            let tally = draw_rounds(
                old(self).draw_pile@.len(),
                old(self).discard_pile@.len(),
                count as nat,
            );
            assert(events@ =~= reshuffle_events(tally.2) + seq![
                GameEvent::CardDrawn { player: actor, count: tally.3 as u8 },
                GameEvent::TurnStarted { player: next },
            ]);
        }
        Ok(events)
    }

    fn apply_call_uno(&mut self, actor: PlayerId) -> (res: Result<Vec<GameEvent>, GameError>)
        requires
            old(self).turn_index < old(self).players@.len(),
            old(self).current_id() == actor,
        ensures
            call_uno_outcome(*old(self), *final(self), actor, res),
    {
        assert(self.players@[self.turn_index as int].id == actor);
        let idx = match self.player_index(actor) {
            Ok(i) => i,
            Err(e) => return Err(e),
        };
        self.players[idx].called_uno = true;
        let mut events: Vec<GameEvent> = Vec::new();
        events.push(GameEvent::UnoCalled { player: actor });
        assert(events@ =~= seq![GameEvent::UnoCalled { player: actor }]);
        Ok(events)
    }

    /// Moves up to `count` cards from the top of the draw pile, without refill, into the
    /// hand of seat `idx`. Returns how many there were.
    fn draw_from_top(&mut self, idx: usize, count: u8) -> (drawn: u8)
        requires
            idx < old(self).players@.len(),
        ensures
            drew_from_top(*old(self), *final(self), idx as int, count as nat, drawn as nat),
            final(self).phase == old(self).phase,
            final(self).turn_index == old(self).turn_index,
            final(self).direction == old(self).direction,
            final(self).active_color == old(self).active_color,
            final(self).stacked_draw == old(self).stacked_draw,
    {
        let ghost s0 = *self;
        let ghost d0 = s0.draw_pile@;
        let ghost h0 = s0.players@[idx as int].hand@;
        let mut drawn: u8 = 0;
        let mut k: u8 = 0;
        assert(h0 + d0.skip(d0.len() as int).reverse() =~= h0);
        assert(d0.take(d0.len() as int) =~= d0);
        assert(self.players@ =~= s0.players@);
        while k < count
            invariant
                0 <= k <= count,
                drawn <= k,
                drawn <= d0.len(),
                idx < s0.players@.len(),
                d0 == s0.draw_pile@,
                h0 == s0.players@[idx as int].hand@,
                drawn == (if d0.len() < k {
                    d0.len()
                } else {
                    k as nat
                }),
                self.draw_pile@ == d0.take(d0.len() - drawn),
                self.discard_pile@ == s0.discard_pile@,
                only_hand_changed(
                    s0.players@,
                    self.players@,
                    idx as int,
                    h0 + d0.skip(d0.len() - drawn).reverse(),
                ),
                self.all_cards() == s0.all_cards(),
                self.phase == s0.phase,
                self.turn_index == s0.turn_index,
                self.direction == s0.direction,
                self.active_color == s0.active_color,
                self.stacked_draw == s0.stacked_draw,
            decreases count - k,
        {
            let ghost mid = *self;
            if let Some(card) = self.draw_pile.draw() {
                self.give_card(idx, card);
                proof {
                    let m = d0.len() - drawn;
                    assert(card == d0[m - 1]);
                    assert(self.draw_pile@ =~= d0.take(m - 1));
                    assert((h0 + d0.skip(m).reverse()).push(d0[m - 1]) =~= h0 + d0.skip(
                        m - 1,
                    ).reverse());
                    lemma_hands_update(
                        mid.players@,
                        self.players@,
                        idx as int,
                        mid.players@[idx as int].hand@.push(card),
                    );
                    lemma_move_to_hand(
                        mid.draw_pile@,
                        mid.discard_pile@.to_multiset(),
                        hands_multiset(mid.players@),
                        hands_multiset(self.players@),
                        mid.players@[idx as int].hand@,
                    );
                }
                drawn = drawn + 1;
            }
            k = k + 1;
        }
        drawn
    }

    fn apply_challenge_four(&mut self, challenger: PlayerId, rng: &mut StdRng) -> (res: Result<
        Vec<GameEvent>,
        GameError,
    >)
        requires
            old(self).turn_index < old(self).players@.len(),
            old(self).current_id() == challenger,
        ensures
            challenge_outcome(*old(self), *final(self), challenger, res),
            res is Err ==> *final(rng) == *old(rng),
    {
        let offender_idx = self.previous_index();
        let offender = self.players[offender_idx].id;
        // The offender played an illegal +4 if they held a card playable on the card
        // that was on top *before* the +4 (two cards back in the discard pile).
        let n_discard = self.discard_pile.len();
        let had_legal_play = if n_discard >= 2 {
            let prev_top = self.discard_pile[n_discard - 2];
            let prev_color = match prev_top.color {
                Some(c) => c,
                None => self.active_color,
            };
            let cards = self.players[offender_idx].hand.cards();
            let mut found = false;
            let mut k: usize = 0;
            while k < cards.len()
                invariant
                    0 <= k <= cards@.len(),
                    cards@ == self.players@[offender_idx as int].hand@,
                    found <==> exists|j: int|
                        0 <= j < k && !cards@[j].spec_is_wild() && #[trigger] cards@[j].spec_can_play_on(
                            prev_top,
                            prev_color,
                        ),
                decreases cards@.len() - k,
            {
                let c = cards[k];
                if !c.is_wild() && c.can_play_on(&prev_top, &prev_color) {
                    found = true;
                }
                k = k + 1;
            }
            proof {
                let hand = old(self).players@[offender_idx as int].hand@;
                if held_legal_play(*old(self), offender_idx as int) {
                    let j = choose|j: int|
                        0 <= j < hand.len() && !hand[j].spec_is_wild() && #[trigger] hand[j].spec_can_play_on(
                            prev_top,
                            prev_color,
                        );
                    assert(cards@[j].spec_can_play_on(prev_top, prev_color));
                }
            }
            found
        } else {
            false
        };
        assert(had_legal_play == held_legal_play(*old(self), offender_idx as int));
        let mut events: Vec<GameEvent> = Vec::new();
        if had_legal_play {
            // Challenge succeeds: offender draws 4, challenger is safe
            assert(self.players@[offender_idx as int].id == offender);
            let idx = match self.player_index(offender) {
                Ok(i) => i,
                Err(e) => return Err(e),
            };
            let drawn = self.draw_from_top(idx, 4);
            events.push(GameEvent::FourChallengeSuccess { offender, challenger });
            events.push(GameEvent::CardDrawn { player: offender, count: drawn });
            self.advance();
            let next = self.current_player_id();
            events.push(GameEvent::TurnStarted { player: next });
            assert(events@ =~= seq![
                GameEvent::FourChallengeSuccess { offender, challenger },
                GameEvent::CardDrawn { player: offender, count: drawn },
                GameEvent::TurnStarted { player: next },
            ]);
        } else {
            // Challenge fails: challenger draws 6 (4 penalty + 2 for failed challenge)
            assert(self.players@[self.turn_index as int].id == challenger);
            let idx = match self.player_index(challenger) {
                Ok(i) => i,
                Err(e) => return Err(e),
            };
            let drawn = self.draw_rounds_into(idx, 6, &mut events, rng);
            events.push(GameEvent::FourChallengeFailure { challenger });
            events.push(GameEvent::CardDrawn { player: challenger, count: drawn });
            self.advance();
            let next = self.current_player_id();
            events.push(GameEvent::TurnStarted { player: next });
            proof {
                let tally = draw_rounds(old(self).draw_pile@.len(), old(self).discard_pile@.len(), 6);
                assert(events@ =~= reshuffle_events(tally.2) + seq![
                    GameEvent::FourChallengeFailure { challenger },
                    GameEvent::CardDrawn { player: challenger, count: tally.3 as u8 },
                    GameEvent::TurnStarted { player: next },
                ]);
            }
        }
        Ok(events)
    }

    /// Runs `count` draw rounds into the hand of seat `idx`: refill the draw pile from the
    /// discard pile when it is empty (reporting a reshuffle), then draw a card if there is one.
    /// Returns the number of cards drawn.
    fn draw_rounds_into(
        &mut self,
        idx: usize,
        count: u8,
        events: &mut Vec<GameEvent>,
        rng: &mut StdRng,
    ) -> (drawn: u8)
        requires
            idx < old(self).players@.len(),
        ensures
            ({
                let tally = draw_rounds(
                    old(self).draw_pile@.len(),
                    old(self).discard_pile@.len(),
                    count as nat,
                );
                &&& drew_rounds(*old(self), *final(self), idx as int, count as nat, tally.2, tally.3)
                &&& final(events)@ == old(events)@ + reshuffle_events(tally.2)
                &&& drawn == tally.3
            }),
            final(self).phase == old(self).phase,
            final(self).turn_index == old(self).turn_index,
            final(self).direction == old(self).direction,
            final(self).active_color == old(self).active_color,
            final(self).stacked_draw == old(self).stacked_draw,
    {
        let ghost s0 = *self;
        let ghost ev0 = events@;
        let ghost d0 = s0.draw_pile@;
        let ghost h0 = s0.players@[idx as int].hand@;
        let mut drawn: u8 = 0;
        let mut k: u8 = 0;
        assert(events@ =~= ev0 + reshuffle_events(0));
        assert(h0.take(h0.len() as int) =~= h0);
        assert(d0.take(d0.len() as int) =~= d0);
        assert(h0 + d0.skip(d0.len() as int).reverse() =~= h0);
        assert(self.players@[idx as int].hand@ == h0);
        while k < count
            invariant
                0 <= k <= count,
                idx < s0.players@.len(),
                d0 == s0.draw_pile@,
                h0 == s0.players@[idx as int].hand@,
                ({
                    let tally = draw_rounds(d0.len(), s0.discard_pile@.len(), k as nat);
                    &&& drew_rounds(s0, *self, idx as int, k as nat, tally.2, tally.3)
                    &&& events@ == ev0 + reshuffle_events(tally.2)
                    &&& drawn == tally.3
                }),
                self.phase == s0.phase,
                self.turn_index == s0.turn_index,
                self.direction == s0.direction,
                self.active_color == s0.active_color,
                self.stacked_draw == s0.stacked_draw,
            decreases count - k,
        {
            proof {
                lemma_draw_rounds_bounds(d0.len(), s0.discard_pile@.len(), (k + 1) as nat);
                lemma_draw_rounds_bounds(d0.len(), s0.discard_pile@.len(), k as nat);
            }
            let ghost before = *self;
            let ghost r_before = events@.len() - ev0.len();
            if self.draw_pile.is_empty() {
                self.draw_pile.refill_from_discard(&mut self.discard_pile, rng);
                events.push(GameEvent::DeckReshuffled);
                proof {
                    if before.discard_pile@.len() > 0 {
                        lemma_refill_keeps(
                            before.draw_pile@,
                            before.discard_pile@,
                            self.draw_pile@,
                            self.discard_pile@,
                        );
                    }
                    assert(reshuffle_events((r_before + 1) as nat) =~= reshuffle_events(
                        r_before as nat,
                    ).push(GameEvent::DeckReshuffled));
                }
            }
            let ghost mid = *self;
            assert(mid.all_cards() == s0.all_cards());
            if let Some(card) = self.draw_pile.draw() {
                self.give_card(idx, card);
                drawn = drawn + 1;
                proof {
                    let mh = mid.players@[idx as int].hand@;
                    assert(before.players@ == mid.players@);
                    assert(mh.len() == h0.len() + drawn - 1);
                    assert(mh.push(card).take(h0.len() as int) =~= mh.take(h0.len() as int));
                    if events@.len() == ev0.len() {
                        let m = d0.len() - (drawn - 1);
                        assert(mid.draw_pile@.last() == d0[m - 1]);
                        assert(self.draw_pile@ =~= d0.take(m - 1));
                        assert((h0 + d0.skip(m).reverse()).push(d0[m - 1]) =~= h0 + d0.skip(
                            m - 1,
                        ).reverse());
                    }
                    lemma_hands_update(
                        mid.players@,
                        self.players@,
                        idx as int,
                        mid.players@[idx as int].hand@.push(card),
                    );
                    lemma_move_to_hand(
                        mid.draw_pile@,
                        mid.discard_pile@.to_multiset(),
                        hands_multiset(mid.players@),
                        hands_multiset(self.players@),
                        mid.players@[idx as int].hand@,
                    );
                }
            }
            proof {
                let tally = draw_rounds(d0.len(), s0.discard_pile@.len(), (k + 1) as nat);
                let hand = self.players@[idx as int].hand@;
                assert(only_hand_changed(s0.players@, self.players@, idx as int, hand));
            }
            k = k + 1;
        }
        drawn
    }

    /// Gives `card` to the player in seat `idx`.
    fn give_card(&mut self, idx: usize, card: Card)
        requires
            idx < old(self).players@.len(),
        ensures
            only_hand_changed(
                old(self).players@,
                final(self).players@,
                idx as int,
                old(self).players@[idx as int].hand@.push(card),
            ),
            *final(self) == (GameState { players: final(self).players, ..*old(self) }),
    {
        self.players[idx].hand.add(card);
    }
}

impl Default for GameState {
    fn default() -> (state: GameState)
        ensures
            state.phase == GamePhase::Lobby,
            state.players@.len() == 0,
            state.turn_index == 0,
            state.direction == Direction::Clockwise,
            state.draw_pile@ == standard_deck(),
            state.discard_pile@.len() == 0,
            state.active_color == Color::Red,
            state.stacked_draw == 0,
    {
        Self::new()
    }
}

} // verus!
