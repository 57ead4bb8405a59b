use rand::rngs::StdRng;
use rand::SeedableRng;
use uno_game::action::PlayerAction;
use uno_game::card::{Card, CardKind, Color, Deck};
use uno_game::error::GameError;
use uno_game::event::GameEvent;
use uno_game::player::{Hand, Player};
use uno_game::state::{Direction, GamePhase, GameState};
use uno_game::view::GameStateView;

fn c(color: Color, n: u8) -> Card {
    Card::new(color, CardKind::Number(n))
}

fn rng() -> StdRng {
    StdRng::seed_from_u64(11)
}

/// A game being played: player `i` has id `i + 1`; the last card of `discard` is on top.
fn playing(hands: Vec<Vec<Card>>, deck: Vec<Card>, discard: Vec<Card>, active: Color) -> GameState {
    let mut g = GameState::new();
    g.players = hands
        .into_iter()
        .enumerate()
        .map(|(i, h)| {
            let mut p = Player::new(i as u128 + 1, format!("P{}", i + 1));
            p.hand = Hand::from_cards(h);
            p
        })
        .collect();
    g.phase = GamePhase::Playing;
    g.draw_pile = Deck::from_cards(deck);
    g.discard_pile = discard;
    g.active_color = active;
    g
}

fn total_cards(g: &GameState) -> usize {
    g.draw_pile.len() + g.discard_pile.len() + g.players.iter().map(|p| p.hand.len()).sum::<usize>()
}

#[test]
fn new_game_is_in_the_lobby() {
    let g = GameState::new();
    assert_eq!(g.phase, GamePhase::Lobby);
    assert!(g.players.is_empty());
    assert_eq!(g.turn_index, 0);
    assert_eq!(g.direction, Direction::Clockwise);
    assert_eq!(g.draw_pile.len(), 108);
    assert!(g.discard_pile.is_empty());
    assert_eq!(g.active_color, Color::Red);
    assert_eq!(g.stacked_draw, 0);
    assert_eq!(GameState::default().draw_pile.len(), 108);
}

#[test]
fn at_most_ten_players() {
    let mut g = GameState::new();
    for i in 0..10 {
        assert_eq!(g.add_player(Player::new(i, "p".to_string())), Ok(()));
    }
    assert_eq!(g.add_player(Player::new(10, "p".to_string())), Err(GameError::TooManyPlayers));
    assert_eq!(g.players.len(), 10);
}

#[test]
fn no_player_joins_a_started_game() {
    let mut g = playing(vec![vec![], vec![]], vec![], vec![c(Color::Red, 1)], Color::Red);
    assert_eq!(g.add_player(Player::new(9, "late".to_string())), Err(GameError::AlreadyStarted));
    assert_eq!(g.players.len(), 2);
}

#[test]
fn start_needs_two_players() {
    let mut g = GameState::new();
    g.add_player(Player::new(1, "a".to_string())).unwrap();
    assert_eq!(g.start(&mut rng()).unwrap_err(), GameError::NotEnoughPlayers);
    assert_eq!(g.phase, GamePhase::Lobby);
    assert_eq!(g.draw_pile.len(), 108);
}

#[test]
fn start_deals_seven_cards_and_flips_a_number() {
    let mut g = GameState::new();
    g.add_player(Player::new(1, "a".to_string())).unwrap();
    g.add_player(Player::new(2, "b".to_string())).unwrap();
    g.add_player(Player::new(3, "c".to_string())).unwrap();
    let events = g.start(&mut rng()).unwrap();
    assert_eq!(g.phase, GamePhase::Playing);
    for p in &g.players {
        assert_eq!(p.hand.len(), 7);
    }
    assert_eq!(g.discard_pile.len(), 1);
    let first = g.discard_pile[0].clone();
    assert!(matches!(first.kind, CardKind::Number(_)));
    assert_eq!(first.color, Some(g.active_color.clone()));
    assert_eq!(events.len(), 2);
    match &events[0] {
        GameEvent::GameStarted { player_order, first_card } => {
            assert_eq!(player_order, &vec![1, 2, 3]);
            assert_eq!(first_card, &first);
        }
        other => panic!("unexpected {:?}", other),
    }
    assert_eq!(events[1], GameEvent::TurnStarted { player: 1 });
    // only action cards flipped before the first number card leave the game
    assert!(total_cards(&g) <= 108);
    assert_eq!(total_cards(&g) + (108 - 21 - 1 - g.draw_pile.len()), 108);
    assert_eq!(g.start(&mut rng()).unwrap_err(), GameError::AlreadyStarted);
}

#[test]
fn start_keeps_every_number_card() {
    for seed in 0..20 {
        let mut g = GameState::new();
        g.add_player(Player::new(1, "a".to_string())).unwrap();
        g.add_player(Player::new(2, "b".to_string())).unwrap();
        g.start(&mut StdRng::seed_from_u64(seed)).unwrap();
        let mut numbers = g.discard_pile.iter().filter(|c| matches!(c.kind, CardKind::Number(_))).count();
        for p in &g.players {
            numbers += p.hand.cards().iter().filter(|c| matches!(c.kind, CardKind::Number(_))).count();
        }
        let mut deck = g.draw_pile.clone();
        while let Some(card) = deck.draw() {
            if matches!(card.kind, CardKind::Number(_)) {
                numbers += 1;
            }
        }
        assert_eq!(numbers, 76);
    }
}

#[test]
fn start_flips_a_number_card() {
    for seed in 0..20 {
        let mut g = GameState::new();
        for i in 0..4u128 {
            g.add_player(Player::new(i + 1, "p".to_string())).unwrap();
        }
        g.start(&mut StdRng::seed_from_u64(seed)).unwrap();
        // flipped action cards leave the game, so some cards may be gone
        assert!(total_cards(&g) <= 108);
        assert_eq!(g.discard_pile.len(), 1);
        assert!(matches!(g.discard_pile[0].kind, CardKind::Number(_)));
    }
}

#[test]
fn flipped_action_cards_leave_the_game() {
    let (mut started, mut refused) = (0, 0);
    for seed in 0..60 {
        let mut g = GameState::new();
        g.add_player(Player::new(1, "a".to_string())).unwrap();
        g.add_player(Player::new(2, "b".to_string())).unwrap();
        // two cards are left after dealing; a flipped Skip is taken out of the game
        let mut cards = vec![Card::new(Color::Red, CardKind::Skip); 10];
        cards.extend(vec![c(Color::Green, 4); 6]);
        g.draw_pile = Deck::from_cards(cards);
        match g.start(&mut StdRng::seed_from_u64(seed)) {
            Ok(_) => {
                started += 1;
                assert_eq!(g.top_card(), Some(&c(Color::Green, 4)));
                // a Skip flipped first is gone, with the pile one card shorter
                assert_eq!(total_cards(&g), 15 + g.draw_pile.len());
            }
            Err(e) => {
                refused += 1;
                assert_eq!(e, GameError::GameNotInProgress);
                assert!(g.draw_pile.is_empty());
                assert_eq!(total_cards(&g), 14);
            }
        }
    }
    assert!(started > 0 && refused > 0);
}

#[test]
fn start_fails_when_the_pile_has_no_number_card() {
    let mut g = GameState::new();
    g.add_player(Player::new(1, "a".to_string())).unwrap();
    g.add_player(Player::new(2, "b".to_string())).unwrap();
    g.draw_pile = Deck::from_cards(vec![Card::wild(CardKind::Wild); 16]);
    assert_eq!(g.start(&mut rng()).unwrap_err(), GameError::GameNotInProgress);
    // the two wild cards left after dealing were flipped and left the game
    assert!(g.draw_pile.is_empty());
    assert_eq!(total_cards(&g), 14);
    assert_eq!(g.phase, GamePhase::Lobby);
    assert_eq!(g.players[0].hand.len(), 7);
    assert_eq!(g.players[1].hand.len(), 7);
}

#[test]
fn actions_need_a_running_game() {
    let mut g = GameState::new();
    g.add_player(Player::new(1, "a".to_string())).unwrap();
    assert_eq!(g.apply(1, PlayerAction::DrawCard, &mut rng()).unwrap_err(), GameError::GameNotInProgress);
}

#[test]
fn only_the_current_player_acts() {
    let mut g = playing(vec![vec![c(Color::Red, 2)], vec![c(Color::Red, 3)]], vec![], vec![c(Color::Red, 1)], Color::Red);
    let err = g.apply(2, PlayerAction::DrawCard, &mut rng()).unwrap_err();
    assert_eq!(err, GameError::NotYourTurn);
    assert_eq!(g.turn_index, 0);
    assert_eq!(g.players[1].hand.len(), 1);
}

#[test]
fn play_a_number_card() {
    let mut g = playing(
        vec![vec![c(Color::Red, 2), c(Color::Blue, 3), c(Color::Red, 4)], vec![c(Color::Green, 3)]],
        vec![c(Color::Yellow, 9)],
        vec![c(Color::Red, 1)],
        Color::Red,
    );
    let events = g
        .apply(1, PlayerAction::PlayCard { card: c(Color::Red, 2), declared_color: None }, &mut rng())
        .unwrap();
    assert_eq!(
        events,
        vec![
            GameEvent::CardPlayed { player: 1, card: c(Color::Red, 2), declared_color: None },
            GameEvent::TurnStarted { player: 2 },
        ]
    );
    assert_eq!(g.turn_index, 1);
    assert_eq!(g.top_card(), Some(&c(Color::Red, 2)));
    assert_eq!(g.players[0].hand.cards(), &[c(Color::Blue, 3), c(Color::Red, 4)]);
    assert_eq!(g.draw_pile.len(), 1);
    assert_eq!(g.current_player_id(), 2);
}

#[test]
fn caught_without_uno_draws_two() {
    let mut g = playing(
        vec![vec![c(Color::Red, 2), c(Color::Blue, 3)], vec![c(Color::Green, 3)]],
        vec![c(Color::Yellow, 9), c(Color::Green, 7), c(Color::Blue, 5)],
        vec![c(Color::Red, 1)],
        Color::Red,
    );
    let events = g
        .apply(1, PlayerAction::PlayCard { card: c(Color::Red, 2), declared_color: None }, &mut rng())
        .unwrap();
    assert_eq!(
        events,
        vec![
            GameEvent::CardPlayed { player: 1, card: c(Color::Red, 2), declared_color: None },
            GameEvent::UnoPenalty { player: 1 },
            GameEvent::TurnStarted { player: 2 },
        ]
    );
    // the two top cards of the draw pile, top first
    assert_eq!(
        g.players[0].hand.cards(),
        &[c(Color::Blue, 3), c(Color::Blue, 5), c(Color::Green, 7)]
    );
    assert_eq!(g.draw_pile.len(), 1);
    assert_eq!(g.discard_pile, vec![c(Color::Red, 1), c(Color::Red, 2)]);
    assert!(!g.players[0].called_uno);
    assert_eq!(g.turn_index, 1);
}

#[test]
fn penalty_draw_refills_an_empty_pile() {
    let mut g = playing(
        vec![vec![c(Color::Red, 2), c(Color::Blue, 3)], vec![c(Color::Green, 3)]],
        vec![],
        vec![c(Color::Green, 8), c(Color::Yellow, 6), c(Color::Red, 1)],
        Color::Red,
    );
    let before = total_cards(&g);
    let events = g
        .apply(1, PlayerAction::PlayCard { card: c(Color::Red, 2), declared_color: None }, &mut rng())
        .unwrap();
    assert_eq!(
        events,
        vec![
            GameEvent::CardPlayed { player: 1, card: c(Color::Red, 2), declared_color: None },
            GameEvent::UnoPenalty { player: 1 },
            GameEvent::DeckReshuffled,
            GameEvent::TurnStarted { player: 2 },
        ]
    );
    // the two cards under the top card came back and were drawn
    assert_eq!(g.players[0].hand.len(), 3);
    assert!(g.players[0].hand.cards().contains(&c(Color::Green, 8)));
    assert!(g.players[0].hand.cards().contains(&c(Color::Yellow, 6)));
    assert_eq!(g.draw_pile.len(), 0);
    assert_eq!(g.discard_pile, vec![c(Color::Red, 1), c(Color::Red, 2)]);
    assert_eq!(total_cards(&g), before);
}

#[test]
fn refused_plays_change_nothing() {
    let mut g = playing(
        vec![vec![c(Color::Green, 2), Card::wild(CardKind::Wild)], vec![]],
        vec![],
        vec![c(Color::Red, 1)],
        Color::Red,
    );
    let mut r = rng();
    assert_eq!(
        g.apply(1, PlayerAction::PlayCard { card: c(Color::Green, 2), declared_color: None }, &mut r).unwrap_err(),
        GameError::InvalidCardPlay
    );
    assert_eq!(
        g.apply(1, PlayerAction::PlayCard { card: Card::wild(CardKind::Wild), declared_color: None }, &mut r).unwrap_err(),
        GameError::MissingDeclaredColor
    );
    assert_eq!(
        g.apply(1, PlayerAction::PlayCard { card: c(Color::Red, 5), declared_color: None }, &mut r).unwrap_err(),
        GameError::CardNotInHand
    );
    assert_eq!(g.players[0].hand.len(), 2);
    assert_eq!(g.discard_pile.len(), 1);
    assert_eq!(g.turn_index, 0);
}

#[test]
fn playing_needs_a_top_card() {
    let mut g = playing(vec![vec![c(Color::Red, 2)], vec![]], vec![], vec![], Color::Red);
    assert_eq!(
        g.apply(1, PlayerAction::PlayCard { card: c(Color::Red, 2), declared_color: None }, &mut rng()).unwrap_err(),
        GameError::EmptyDiscard
    );
}

#[test]
fn wild_sets_the_declared_color() {
    let mut g = playing(
        vec![vec![Card::wild(CardKind::Wild), c(Color::Red, 1), c(Color::Red, 2)], vec![c(Color::Red, 3)]],
        vec![],
        vec![c(Color::Blue, 1)],
        Color::Blue,
    );
    g.apply(1, PlayerAction::PlayCard { card: Card::wild(CardKind::Wild), declared_color: Some(Color::Green) }, &mut rng())
        .unwrap();
    assert_eq!(g.active_color, Color::Green);
    assert_eq!(g.top_card(), Some(&Card::wild(CardKind::Wild)));
}

#[test]
fn skip_passes_over_the_next_player() {
    let skip = Card::new(Color::Red, CardKind::Skip);
    let mut g = playing(
        vec![vec![skip.clone(), c(Color::Red, 4), c(Color::Red, 5)], vec![c(Color::Red, 6)], vec![c(Color::Red, 7)]],
        vec![],
        vec![c(Color::Red, 1)],
        Color::Red,
    );
    let events = g.apply(1, PlayerAction::PlayCard { card: skip.clone(), declared_color: None }, &mut rng()).unwrap();
    assert_eq!(
        events,
        vec![
            GameEvent::CardPlayed { player: 1, card: skip, declared_color: None },
            GameEvent::TurnSkipped { player: 2 },
            GameEvent::TurnStarted { player: 3 },
        ]
    );
    assert_eq!(g.turn_index, 2);
}

#[test]
fn reverse_turns_the_direction() {
    let rev = Card::new(Color::Red, CardKind::Reverse);
    let mut g = playing(
        vec![vec![rev.clone(), c(Color::Red, 4), c(Color::Red, 5)], vec![c(Color::Red, 6)], vec![c(Color::Red, 7)]],
        vec![],
        vec![c(Color::Red, 1)],
        Color::Red,
    );
    let events = g.apply(1, PlayerAction::PlayCard { card: rev.clone(), declared_color: None }, &mut rng()).unwrap();
    assert_eq!(
        events,
        vec![
            GameEvent::CardPlayed { player: 1, card: rev, declared_color: None },
            GameEvent::DirectionReversed,
            GameEvent::TurnStarted { player: 3 },
        ]
    );
    assert_eq!(g.direction, Direction::CounterClockwise);
    assert_eq!(g.turn_index, 2);
}

#[test]
fn draw_two_stacks_and_is_drawn() {
    let two = Card::new(Color::Red, CardKind::DrawTwo);
    let mut g = playing(
        vec![vec![two.clone(), c(Color::Red, 4), c(Color::Red, 5)], vec![c(Color::Blue, 6)]],
        vec![c(Color::Green, 1), c(Color::Green, 2), c(Color::Green, 3)],
        vec![c(Color::Red, 1)],
        Color::Red,
    );
    let mut r = rng();
    g.apply(1, PlayerAction::PlayCard { card: two, declared_color: None }, &mut r).unwrap();
    assert_eq!(g.stacked_draw, 2);
    let events = g.apply(2, PlayerAction::DrawCard, &mut r).unwrap();
    assert_eq!(
        events,
        vec![GameEvent::CardDrawn { player: 2, count: 2 }, GameEvent::TurnStarted { player: 1 }]
    );
    assert_eq!(g.stacked_draw, 0);
    // the top two cards of the pile, top first
    assert_eq!(g.players[1].hand.cards(), &[c(Color::Blue, 6), c(Color::Green, 3), c(Color::Green, 2)]);
    assert_eq!(g.draw_pile.len(), 1);
}

#[test]
fn drawing_from_an_empty_pile_reshuffles() {
    let mut g = playing(
        vec![vec![c(Color::Red, 4)], vec![c(Color::Blue, 6)]],
        vec![],
        vec![c(Color::Green, 1), c(Color::Green, 2), c(Color::Red, 3)],
        Color::Red,
    );
    let events = g.apply(1, PlayerAction::DrawCard, &mut rng()).unwrap();
    assert_eq!(
        events,
        vec![
            GameEvent::DeckReshuffled,
            GameEvent::CardDrawn { player: 1, count: 1 },
            GameEvent::TurnStarted { player: 2 },
        ]
    );
    assert_eq!(g.discard_pile, vec![c(Color::Red, 3)]);
    assert_eq!(g.players[0].hand.len(), 2);
    assert_eq!(g.draw_pile.len(), 1);
    assert_eq!(total_cards(&g), 5);
}

#[test]
fn drawing_with_nothing_left_draws_nothing() {
    let mut g = playing(vec![vec![c(Color::Red, 4)], vec![]], vec![], vec![c(Color::Red, 3)], Color::Red);
    let events = g.apply(1, PlayerAction::DrawCard, &mut rng()).unwrap();
    assert_eq!(
        events,
        vec![
            GameEvent::DeckReshuffled,
            GameEvent::CardDrawn { player: 1, count: 0 },
            GameEvent::TurnStarted { player: 2 },
        ]
    );
}

#[test]
fn calling_uno_avoids_the_penalty() {
    let mut g = playing(
        vec![vec![c(Color::Red, 2), c(Color::Red, 3)], vec![c(Color::Red, 6)]],
        vec![],
        vec![c(Color::Red, 1)],
        Color::Red,
    );
    let mut r = rng();
    let events = g.apply(1, PlayerAction::CallUno, &mut r).unwrap();
    assert_eq!(events, vec![GameEvent::UnoCalled { player: 1 }]);
    assert!(g.players[0].called_uno);
    assert_eq!(g.turn_index, 0);
    let events = g.apply(1, PlayerAction::PlayCard { card: c(Color::Red, 2), declared_color: None }, &mut r).unwrap();
    assert!(!events.contains(&GameEvent::UnoPenalty { player: 1 }));
    assert!(!g.players[0].called_uno);
}

#[test]
fn playing_the_last_card_wins() {
    let mut g = playing(vec![vec![c(Color::Red, 2)], vec![c(Color::Red, 6)]], vec![], vec![c(Color::Red, 1)], Color::Red);
    let events = g.apply(1, PlayerAction::PlayCard { card: c(Color::Red, 2), declared_color: None }, &mut rng()).unwrap();
    assert_eq!(
        events,
        vec![
            GameEvent::CardPlayed { player: 1, card: c(Color::Red, 2), declared_color: None },
            GameEvent::GameOver { winner: 1 },
        ]
    );
    assert_eq!(g.phase, GamePhase::Finished);
    assert_eq!(g.turn_index, 0);
    assert_eq!(
        g.apply(2, PlayerAction::DrawCard, &mut rng()).unwrap_err(),
        GameError::GameNotInProgress
    );
}

#[test]
fn challenge_succeeds_when_the_offender_could_play() {
    let four = Card::wild(CardKind::WildDrawFour);
    // player 1 played +4 on a red 1 while holding a red card
    let mut g = playing(
        vec![vec![c(Color::Red, 5)], vec![c(Color::Blue, 6)]],
        vec![c(Color::Green, 1), c(Color::Green, 2), c(Color::Green, 3), c(Color::Green, 4), c(Color::Green, 5)],
        vec![c(Color::Red, 1), four],
        Color::Blue,
    );
    g.turn_index = 1;
    g.stacked_draw = 4;
    let events = g.apply(2, PlayerAction::ChallengeFour, &mut rng()).unwrap();
    // a pending penalty stays as it was
    assert_eq!(g.stacked_draw, 4);
    assert_eq!(
        events,
        vec![
            GameEvent::FourChallengeSuccess { offender: 1, challenger: 2 },
            GameEvent::CardDrawn { player: 1, count: 4 },
            GameEvent::TurnStarted { player: 1 },
        ]
    );
    assert_eq!(g.players[0].hand.len(), 5);
    assert_eq!(g.players[1].hand.len(), 1);
    assert_eq!(g.draw_pile.len(), 1);
}

#[test]
fn challenge_fails_when_the_offender_could_not_play() {
    let four = Card::wild(CardKind::WildDrawFour);
    let mut g = playing(
        vec![vec![c(Color::Green, 5)], vec![c(Color::Blue, 6)]],
        (1..=7).map(|n| c(Color::Yellow, n)).collect(),
        vec![c(Color::Red, 1), four],
        Color::Blue,
    );
    g.turn_index = 1;
    g.stacked_draw = 4;
    let events = g.apply(2, PlayerAction::ChallengeFour, &mut rng()).unwrap();
    // a pending penalty stays as it was
    assert_eq!(g.stacked_draw, 4);
    assert_eq!(
        events,
        vec![
            GameEvent::FourChallengeFailure { challenger: 2 },
            GameEvent::CardDrawn { player: 2, count: 6 },
            GameEvent::TurnStarted { player: 1 },
        ]
    );
    assert_eq!(g.players[1].hand.len(), 7);
    assert_eq!(g.draw_pile.len(), 1);
}

#[test]
fn accepted_actions_keep_every_card() {
    let mut g = GameState::new();
    for i in 1..=4 {
        g.add_player(Player::new(i, format!("p{}", i))).unwrap();
    }
    let mut r = StdRng::seed_from_u64(99);
    g.start(&mut r).unwrap();
    let before = total_cards(&g);
    for _ in 0..200 {
        if g.phase != GamePhase::Playing {
            break;
        }
        let actor = g.current_player_id();
        let idx = g.turn_index;
        let top = g.top_card().unwrap().clone();
        let playable = g.players[idx]
            .hand
            .cards()
            .iter()
            .find(|card| card.can_play_on(&top, &g.active_color))
            .cloned();
        let action = match playable {
            Some(card) if g.stacked_draw == 0 => PlayerAction::PlayCard {
                declared_color: if card.is_wild() { Some(Color::Yellow) } else { None },
                card,
            },
            _ => PlayerAction::DrawCard,
        };
        g.apply(actor, action, &mut r).unwrap();
        assert_eq!(total_cards(&g), before);
        assert!(g.turn_index < g.players.len());
    }
}

#[test]
fn previous_player_is_the_one_before_the_turn() {
    // after a play passes the turn, a challenge goes to the player who played
    let four = Card::wild(CardKind::WildDrawFour);
    let mut g = playing(
        vec![vec![c(Color::Red, 6)], vec![four.clone(), c(Color::Red, 2)], vec![c(Color::Blue, 3)]],
        vec![c(Color::Green, 1), c(Color::Green, 2), c(Color::Green, 3), c(Color::Green, 4)],
        vec![c(Color::Red, 1)],
        Color::Red,
    );
    g.turn_index = 1;
    g.direction = Direction::CounterClockwise;
    let mut r = rng();
    g.apply(2, PlayerAction::PlayCard { card: four, declared_color: Some(Color::Blue) }, &mut r).unwrap();
    assert_eq!(g.current_player_id(), 1);
    let events = g.apply(1, PlayerAction::ChallengeFour, &mut r).unwrap();
    assert_eq!(events[0], GameEvent::FourChallengeSuccess { offender: 2, challenger: 1 });
}

#[test]
fn view_for_a_player() {
    let mut g = playing(
        vec![vec![c(Color::Red, 2)], vec![c(Color::Blue, 3), c(Color::Blue, 4)], vec![]],
        vec![c(Color::Green, 1)],
        vec![c(Color::Red, 1)],
        Color::Red,
    );
    g.turn_index = 2;
    g.players[0].called_uno = true;
    let v = GameStateView::for_player(&g, 2).unwrap();
    assert_eq!(v.your_id, 2);
    assert_eq!(v.your_hand, vec![c(Color::Blue, 3), c(Color::Blue, 4)]);
    assert_eq!(v.opponents.len(), 2);
    assert_eq!(v.opponents[0].id, 3);
    assert_eq!(v.opponents[0].card_count, 0);
    assert_eq!(v.opponents[1].id, 1);
    assert_eq!(v.opponents[1].name, "P1");
    assert!(v.opponents[1].called_uno);
    assert_eq!(v.top_card, c(Color::Red, 1));
    assert_eq!(v.active_color, Color::Red);
    assert_eq!(v.draw_pile_size, 1);
    assert_eq!(v.current_player, 3);
    assert_eq!(v.stacked_draw, 0);
    assert!(v.direction_clockwise);
    assert!(GameStateView::for_player(&g, 7).is_none());
}

#[test]
fn view_lists_opponents_in_turn_order() {
    let mut g = playing(
        vec![vec![], vec![c(Color::Blue, 3)], vec![], vec![]],
        vec![],
        vec![c(Color::Red, 1)],
        Color::Red,
    );
    let ids = |v: &GameStateView| v.opponents.iter().map(|o| o.id).collect::<Vec<_>>();
    let v = GameStateView::for_player(&g, 2).unwrap();
    assert_eq!(ids(&v), vec![3, 4, 1]);
    g.direction = Direction::CounterClockwise;
    let v = GameStateView::for_player(&g, 2).unwrap();
    assert_eq!(ids(&v), vec![1, 4, 3]);
    assert!(!v.direction_clockwise);
}

#[test]
fn a_declared_color_counts_only_for_wild_cards() {
    let mut g = playing(
        vec![vec![c(Color::Red, 7), c(Color::Green, 1), c(Color::Green, 2)], vec![c(Color::Blue, 2)]],
        vec![],
        vec![c(Color::Red, 5)],
        Color::Red,
    );
    let events = g
        .apply(1, PlayerAction::PlayCard { card: c(Color::Red, 7), declared_color: Some(Color::Blue) }, &mut rng())
        .unwrap();
    assert_eq!(g.active_color, Color::Red);
    assert_eq!(events[0], GameEvent::CardPlayed { player: 1, card: c(Color::Red, 7), declared_color: None });
    assert_eq!(g.top_card(), Some(&c(Color::Red, 7)));
    assert_eq!(g.turn_index, 1);
}

#[test]
fn no_view_without_a_top_card() {
    let g = playing(vec![vec![], vec![]], vec![], vec![], Color::Red);
    assert!(GameStateView::for_player(&g, 1).is_none());
}

#[test]
fn penalty_overflow_is_detected_only_for_accepted_plays() {
    let two = Card::new(Color::Red, CardKind::DrawTwo);
    let mut g = playing(
        vec![vec![two, c(Color::Red, 1)], vec![c(Color::Blue, 2)]],
        vec![c(Color::Green, 3)],
        vec![c(Color::Red, 5)],
        Color::Red,
    );
    let play = PlayerAction::PlayCard { card: two, declared_color: None };
    g.stacked_draw = 253;
    assert!(!g.penalty_would_overflow(1, &play));
    g.stacked_draw = 254;
    assert!(g.penalty_would_overflow(1, &play));
    // not this player's turn, or a draw: nothing is added
    assert!(!g.penalty_would_overflow(2, &play));
    assert!(!g.penalty_would_overflow(1, &PlayerAction::DrawCard));
    // a card that is not held is refused before anything is added
    let other = PlayerAction::PlayCard {
        card: Card::new(Color::Red, CardKind::Skip),
        declared_color: None,
    };
    assert!(!g.penalty_would_overflow(1, &other));
    // playing the last card wins before anything is added
    g.players[0].hand = Hand::from_cards(vec![two]);
    assert!(!g.penalty_would_overflow(1, &play));
}

#[test]
fn largest_stack_that_fits_is_played() {
    let two = Card::new(Color::Red, CardKind::DrawTwo);
    let mut g = playing(
        vec![vec![two, c(Color::Red, 1)], vec![c(Color::Blue, 2)]],
        vec![c(Color::Green, 3)],
        vec![c(Color::Red, 5)],
        Color::Red,
    );
    g.stacked_draw = 253;
    let play = PlayerAction::PlayCard { card: two, declared_color: None };
    let events = g.apply(1, play, &mut rng()).unwrap();
    assert_eq!(g.stacked_draw, 255);
    assert_eq!(g.turn_index, 1);
    assert_eq!(
        events,
        vec![
            GameEvent::CardPlayed { player: 1, card: two, declared_color: None },
            GameEvent::UnoPenalty { player: 1 },
            GameEvent::DeckReshuffled,
            GameEvent::TurnStarted { player: 2 },
        ]
    );
    // the penalty found one card to draw
    assert_eq!(g.players[0].hand.cards(), &[c(Color::Red, 1), c(Color::Green, 3)]);
}

#[test]
fn a_whole_game_keeps_the_laws() {
    let mut g = GameState::new();
    for i in 0..3u128 {
        g.add_player(Player::new(i + 1, format!("P{}", i + 1))).unwrap();
    }
    let mut r = StdRng::seed_from_u64(2024);
    g.start(&mut r).unwrap();
    let cards = total_cards(&g);
    let ids: Vec<u128> = g.players.iter().map(|p| p.id).collect();
    let mut steps = 0;
    while g.phase == GamePhase::Playing && steps < 5000 {
        steps += 1;
        let actor = g.current_player_id();
        let seat = g.turn_index;
        let top = *g.top_card().unwrap();
        let hand: Vec<Card> = g.players[seat].hand.cards().to_vec();
        let action = if top.kind == CardKind::WildDrawFour && steps % 2 == 0 {
            PlayerAction::ChallengeFour
        } else if hand.len() == 2 && !g.players[seat].called_uno && steps % 3 == 0 {
            PlayerAction::CallUno
        } else if g.stacked_draw > 0 {
            PlayerAction::DrawCard
        } else {
            match hand.iter().find(|c| c.can_play_on(&top, &g.active_color)) {
                Some(card) => PlayerAction::PlayCard {
                    card: *card,
                    declared_color: if card.is_wild() { Some(Color::Blue) } else { None },
                },
                None => PlayerAction::DrawCard,
            }
        };
        let events = g.apply(actor, action, &mut r).unwrap();
        // no card is created or lost
        assert_eq!(total_cards(&g), cards);
        // the same players keep their seats, and the turn points at one of them
        assert_eq!(g.players.iter().map(|p| p.id).collect::<Vec<_>>(), ids);
        assert!(g.turn_index < ids.len());
        // there is always a card to play on
        assert!(!g.discard_pile.is_empty());
        // the game ends exactly when a play empties the actor's hand
        let emptied = matches!(action, PlayerAction::PlayCard { .. }) && g.players[seat].hand.is_empty();
        assert_eq!(g.phase == GamePhase::Finished, emptied);
        // the report ends with the winner, or with whose turn it now is
        if action != PlayerAction::CallUno {
            let last = events.last().unwrap().clone();
            if g.phase == GamePhase::Finished {
                assert_eq!(last, GameEvent::GameOver { winner: actor });
            } else {
                assert_eq!(last, GameEvent::TurnStarted { player: g.current_player_id() });
            }
        }
    }
    assert!(steps > 10);
}

#[test]
fn a_view_shows_only_the_sizes_of_hidden_cards() {
    let g1 = playing(
        vec![vec![c(Color::Red, 2)], vec![c(Color::Blue, 3), c(Color::Blue, 4)]],
        vec![c(Color::Green, 1), c(Color::Green, 2)],
        vec![c(Color::Red, 1)],
        Color::Red,
    );
    let g2 = playing(
        vec![vec![Card::wild(CardKind::Wild)], vec![c(Color::Blue, 3), c(Color::Blue, 4)]],
        vec![c(Color::Yellow, 9), Card::new(Color::Red, CardKind::Skip)],
        vec![c(Color::Red, 1)],
        Color::Red,
    );
    let v1 = GameStateView::for_player(&g1, 2).unwrap();
    let v2 = GameStateView::for_player(&g2, 2).unwrap();
    assert_eq!(format!("{:?}", v1), format!("{:?}", v2));
}
