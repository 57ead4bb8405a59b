use uno_game::card::{Card, CardKind, Color, Deck};
use uno_game::error::GameError;
use uno_game::player::{Hand, Player};
use rand::rngs::StdRng;
use rand::SeedableRng;

fn red(n: u8) -> Card {
    Card::new(Color::Red, CardKind::Number(n))
}

#[test]
fn new_card_has_its_color() {
    let c = Card::new(Color::Blue, CardKind::Skip);
    assert_eq!(c.color, Some(Color::Blue));
    assert_eq!(c.kind, CardKind::Skip);
    assert!(!c.is_wild());
}

#[test]
fn wild_card_has_no_color() {
    let c = Card::wild(CardKind::WildDrawFour);
    assert_eq!(c.color, None);
    assert!(c.is_wild());
    assert!(Card::wild(CardKind::Wild).is_wild());
}

#[test]
fn penalty_counts() {
    assert_eq!(Card::new(Color::Green, CardKind::DrawTwo).penalty_draw_count(), 2);
    assert_eq!(Card::wild(CardKind::WildDrawFour).penalty_draw_count(), 4);
    assert_eq!(Card::wild(CardKind::Wild).penalty_draw_count(), 0);
    assert_eq!(red(7).penalty_draw_count(), 0);
    assert_eq!(Card::new(Color::Red, CardKind::Skip).penalty_draw_count(), 0);
}

#[test]
fn can_play_on_rules() {
    let top = Card::new(Color::Blue, CardKind::Number(5));
    // same active color
    assert!(red(1).can_play_on(&top, &Color::Red));
    // same kind
    assert!(Card::new(Color::Green, CardKind::Number(5)).can_play_on(&top, &Color::Blue));
    // neither
    assert!(!Card::new(Color::Green, CardKind::Number(4)).can_play_on(&top, &Color::Blue));
    // the active color counts, not the color of the top card
    assert!(!Card::new(Color::Blue, CardKind::Number(4)).can_play_on(&top, &Color::Yellow));
    // wild cards always
    assert!(Card::wild(CardKind::Wild).can_play_on(&top, &Color::Blue));
    assert!(Card::wild(CardKind::WildDrawFour).can_play_on(&top, &Color::Red));
    // same action kind across colors
    let skip = Card::new(Color::Yellow, CardKind::Skip);
    assert!(Card::new(Color::Red, CardKind::Skip).can_play_on(&skip, &Color::Yellow));
}

#[test]
fn standard_deck_has_108_cards() {
    let deck = Deck::standard();
    assert_eq!(deck.len(), 108);
    assert!(!deck.is_empty());
}

#[test]
fn standard_deck_composition() {
    let mut deck = Deck::standard();
    let mut cards = Vec::new();
    while let Some(c) = deck.draw() {
        cards.push(c);
    }
    assert!(deck.is_empty());
    assert_eq!(cards.len(), 108);
    let count = |c: &Card| cards.iter().filter(|x| *x == c).count();
    assert_eq!(count(&Card::wild(CardKind::Wild)), 4);
    assert_eq!(count(&Card::wild(CardKind::WildDrawFour)), 4);
    for color in [Color::Red, Color::Green, Color::Blue, Color::Yellow] {
        assert_eq!(count(&Card::new(color.clone(), CardKind::Number(0))), 1);
        for n in 1..=9 {
            assert_eq!(count(&Card::new(color.clone(), CardKind::Number(n))), 2);
        }
        assert_eq!(count(&Card::new(color.clone(), CardKind::Skip)), 2);
        assert_eq!(count(&Card::new(color.clone(), CardKind::Reverse)), 2);
        assert_eq!(count(&Card::new(color.clone(), CardKind::DrawTwo)), 2);
    }
}

#[test]
fn standard_deck_order() {
    let mut deck = Deck::standard();
    // the wild cards are laid out last, so they are drawn first
    assert_eq!(deck.draw(), Some(Card::wild(CardKind::WildDrawFour)));
    assert_eq!(deck.draw(), Some(Card::wild(CardKind::Wild)));
    assert_eq!(deck.len(), 106);
}

#[test]
fn draw_takes_the_top_card() {
    let mut deck = Deck::from_cards(vec![red(1), red(2)]);
    assert_eq!(deck.draw(), Some(red(2)));
    assert_eq!(deck.draw(), Some(red(1)));
    assert_eq!(deck.draw(), None);
    assert!(deck.is_empty());
}

#[test]
fn shuffle_keeps_the_cards() {
    let mut rng = StdRng::seed_from_u64(3);
    let mut deck = Deck::standard();
    deck.shuffle(&mut rng);
    assert_eq!(deck.len(), 108);
    let mut reds = 0;
    while let Some(c) = deck.draw() {
        if c.color == Some(Color::Red) {
            reds += 1;
        }
    }
    assert_eq!(reds, 25);
}

#[test]
fn refill_keeps_top_of_discard() {
    let mut rng = StdRng::seed_from_u64(5);
    let mut deck = Deck::from_cards(vec![red(9)]);
    let mut discard = vec![red(1), red(2), red(3)];
    deck.refill_from_discard(&mut discard, &mut rng);
    assert_eq!(discard, vec![red(3)]);
    assert_eq!(deck.len(), 3);
    let mut drawn = Vec::new();
    while let Some(c) = deck.draw() {
        drawn.push(c);
    }
    drawn.sort_by_key(|c| match c.kind {
        CardKind::Number(n) => n,
        _ => 0,
    });
    assert_eq!(drawn, vec![red(1), red(2), red(9)]);
}

#[test]
fn refill_from_empty_discard_does_nothing() {
    let mut rng = StdRng::seed_from_u64(5);
    let mut deck = Deck::from_cards(vec![red(4)]);
    let mut discard: Vec<Card> = Vec::new();
    deck.refill_from_discard(&mut discard, &mut rng);
    assert!(discard.is_empty());
    assert_eq!(deck.draw(), Some(red(4)));
}

#[test]
fn hand_add_and_remove_first_match() {
    let mut hand = Hand::default();
    assert!(hand.is_empty());
    hand.add(red(1));
    hand.add(red(2));
    hand.add(red(1));
    assert_eq!(hand.len(), 3);
    assert!(hand.remove(&red(1)));
    assert_eq!(hand.cards(), &[red(2), red(1)]);
    assert!(!hand.remove(&red(5)));
    assert_eq!(hand.cards(), &[red(2), red(1)]);
}

#[test]
fn hand_add_then_remove_keeps_cards() {
    let mut hand = Hand::from_cards(vec![red(3), red(4)]);
    hand.add(red(3));
    assert!(hand.remove(&red(3)));
    let mut cards = hand.cards().to_vec();
    cards.sort_by_key(|c| match c.kind {
        CardKind::Number(n) => n,
        _ => 0,
    });
    assert_eq!(cards, vec![red(3), red(4)]);
}

#[test]
fn new_player_has_an_empty_hand() {
    let p = Player::new(42, "Ann".to_string());
    assert_eq!(p.id, 42);
    assert_eq!(p.name, "Ann");
    assert!(p.hand.is_empty());
    assert!(!p.called_uno);
}

#[test]
fn error_messages() {
    assert_eq!(GameError::NotYourTurn.message(), "not your turn");
    assert_eq!(GameError::CardNotInHand.message(), "that card is not in your hand");
    assert_eq!(
        GameError::InvalidCardPlay.message(),
        "that card cannot be played on the current top card"
    );
    assert_eq!(GameError::MissingDeclaredColor.message(), "wild card requires a declared color");
    assert_eq!(GameError::GameNotInProgress.message(), "game is not in progress");
    assert_eq!(GameError::AlreadyStarted.message(), "game has already started");
    assert_eq!(GameError::NotEnoughPlayers.message(), "at least 2 players are required");
    assert_eq!(GameError::TooManyPlayers.message(), "maximum 10 players allowed");
    assert_eq!(GameError::EmptyDiscard.message(), "no card on the discard pile");
}

#[test]
fn player_not_found_message_shows_the_uuid() {
    let id: u128 = 0x67e55044_10b1_426f_9247_bb680e5fe0c8;
    assert_eq!(
        GameError::PlayerNotFound(id).message(),
        "player 67e55044-10b1-426f-9247-bb680e5fe0c8 not found"
    );
    assert_eq!(
        GameError::PlayerNotFound(1).message(),
        "player 00000000-0000-0000-0000-000000000001 not found"
    );
}
