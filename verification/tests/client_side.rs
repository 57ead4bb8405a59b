use uno_game::action::PlayerAction;
use uno_game::card::{Card, CardKind, Color};
use uno_game::client::{
    card_label, count_text, direction_arrow, join_message, member_label, opponent_label, turn_label, uno_button_visible,
    HandState, Language, NetStatus, Settings,
};
use uno_game::locale::Locale;
use uno_game::protocol::{ClientMessage, PlayerInfo};
use uno_game::view::{GameStateView, OpponentView};

#[test]
fn card_labels() {
    assert_eq!(card_label(&Card::new(Color::Red, CardKind::Number(0))), "0");
    assert_eq!(card_label(&Card::new(Color::Red, CardKind::Number(9))), "9");
    assert_eq!(card_label(&Card::new(Color::Red, CardKind::Number(12))), "?");
    assert_eq!(card_label(&Card::new(Color::Red, CardKind::Skip)), "⊘");
    assert_eq!(card_label(&Card::new(Color::Red, CardKind::Reverse)), "↺");
    assert_eq!(card_label(&Card::new(Color::Red, CardKind::DrawTwo)), "+2");
    assert_eq!(card_label(&Card::wild(CardKind::Wild)), "W");
    assert_eq!(card_label(&Card::wild(CardKind::WildDrawFour)), "+4");
}

#[test]
fn languages() {
    assert_eq!(Language::EnUs.display_name(), "English");
    assert_eq!(Language::DeDe.display_name(), "Deutsch");
    assert_eq!(Language::all(), vec![Language::EnUs, Language::DeDe]);
}

#[test]
fn default_settings() {
    let s = Settings::default();
    assert_eq!(s.language, Language::EnUs);
    assert_eq!(s.server_url, "ws://127.0.0.1:9001");
    assert!(!s.ai_api_enabled);
    assert_eq!(s.player_name, "Player");
}

#[test]
fn counts_in_decimal() {
    assert_eq!(count_text(0), "0");
    assert_eq!(count_text(7), "7");
    assert_eq!(count_text(10), "10");
    assert_eq!(count_text(42), "42");
    assert_eq!(count_text(100), "100");
    assert_eq!(count_text(255), "255");
}

#[test]
fn lobby_member_labels() {
    let host = PlayerInfo { id: 1, name: "Ann".to_string(), is_host: true, is_ready: false, is_ai: false };
    let guest = PlayerInfo { id: 2, name: "Bob".to_string(), is_host: false, is_ready: true, is_ai: false };
    assert_eq!(member_label(&host), "♛ Ann");
    assert_eq!(member_label(&guest), "● Bob ✓");
}

#[test]
fn opponent_labels() {
    let o = OpponentView { id: 1, name: "Ann".to_string(), card_count: 3, called_uno: false };
    assert_eq!(opponent_label(&o), "Ann (3🃏)");
    let o = OpponentView { id: 1, name: "Bob".to_string(), card_count: 1, called_uno: true };
    assert_eq!(opponent_label(&o), "Bob (1🃏 UNO)");
}

fn view(current: u128, hand: usize) -> GameStateView {
    GameStateView {
        your_id: 1,
        your_hand: vec![Card::new(Color::Red, CardKind::Number(1)); hand],
        opponents: vec![],
        top_card: Card::new(Color::Red, CardKind::Number(2)),
        active_color: Color::Red,
        draw_pile_size: 0,
        current_player: current,
        stacked_draw: 0,
        direction_clockwise: true,
    }
}

#[test]
fn turn_labels() {
    assert_eq!(turn_label(&view(1, 2), Some(1)), "Your turn!");
    assert_eq!(turn_label(&view(2, 2), Some(1)), "Waiting for player…");
    assert_eq!(turn_label(&view(1, 2), None), "Waiting for player…");
}

#[test]
fn uno_button() {
    assert!(uno_button_visible(Some(&view(1, 1))));
    assert!(!uno_button_visible(Some(&view(1, 2))));
    assert!(!uno_button_visible(None));
}

#[test]
fn direction_arrows() {
    assert_eq!(direction_arrow(true), "↻");
    assert_eq!(direction_arrow(false), "↺");
}

#[test]
fn clicking_a_colored_card_plays_it() {
    let mut h = HandState::default();
    let v = view(7, 3);
    let card = Card::new(Color::Blue, CardKind::Number(4));
    let msg = h.click_card(Some(&v), Some(7), card.clone());
    assert!(matches!(
        msg,
        Some(ClientMessage::Action(PlayerAction::PlayCard { card: c, declared_color: None })) if c == card
    ));
    assert!(h.pending_wild.is_none());
}

#[test]
fn a_wild_card_waits_for_a_color() {
    let mut h = HandState::default();
    let v = view(7, 3);
    let wild = Card::wild(CardKind::Wild);
    assert!(h.click_card(Some(&v), Some(7), wild.clone()).is_none());
    assert_eq!(h.pending_wild, Some(wild.clone()));
    let msg = h.pick_color(Color::Green);
    assert!(matches!(
        msg,
        Some(ClientMessage::Action(PlayerAction::PlayCard { card, declared_color: Some(Color::Green) })) if card == wild
    ));
    assert!(h.pending_wild.is_none());
    assert!(h.pick_color(Color::Red).is_none());
}

#[test]
fn clicks_count_only_on_your_turn() {
    let mut h = HandState::default();
    let v = view(7, 3);
    let card = Card::new(Color::Blue, CardKind::Number(4));
    assert!(h.click_card(Some(&v), Some(8), card.clone()).is_none());
    assert!(h.click_card(Some(&v), None, card.clone()).is_none());
    assert!(h.click_card(None, Some(7), card.clone()).is_none());
    assert!(h.click_card(Some(&v), Some(8), Card::wild(CardKind::Wild)).is_none());
    assert!(h.pending_wild.is_none());
}

#[test]
fn connection_status() {
    let mut s = NetStatus::Disconnected;
    s.message_received();
    assert_eq!(s, NetStatus::Disconnected);
    s.connect();
    assert_eq!(s, NetStatus::Connecting);
    s.message_received();
    assert_eq!(s, NetStatus::Connected);
    s.message_received();
    assert_eq!(s, NetStatus::Connected);
    s.disconnected();
    assert_eq!(s, NetStatus::Disconnected);
}

#[test]
fn locale_reads_key_value_lines() {
    let src = "# comment\nmenu.host = Host game\n  menu.join=Join  \nno equals sign here\r\nsettings.title = A = B\r\n   # indented comment = x\nmenu.host = Override";
    let l = Locale::parse(src);
    assert_eq!(l.t("menu.host"), "Override");
    assert_eq!(l.t("menu.join"), "Join");
    assert_eq!(l.t("settings.title"), "A = B");
    assert_eq!(l.t("# indented comment"), "# indented comment");
    assert_eq!(l.t("missing.key"), "missing.key");
}

#[test]
fn locale_handles_empty_text() {
    let l = Locale::parse("");
    assert_eq!(l.t("a"), "a");
    let l = Locale::parse("\n\n=\n");
    assert_eq!(l.t(""), "");
}

#[test]
fn locale_last_line_keeps_carriage_return_trimmed() {
    let l = Locale::parse("k = v\r");
    assert_eq!(l.t("k"), "v");
}

#[test]
fn joining_uses_the_player_name() {
    let mut settings = Settings::default();
    settings.player_name = "Ada".to_string();
    match join_message(&settings) {
        ClientMessage::Join(r) => {
            assert_eq!(r.name, "Ada");
            assert_eq!(r.room_code, None);
            assert!(!r.is_ai);
            assert_eq!(r.auth_token, None);
        }
        other => panic!("not a join: {:?}", other),
    }
}

#[test]
fn locale_trims_unicode_white_space() {
    let l = Locale::parse("\u{3000}menu.play\u{a0}= Spielen\u{2003}\n\u{85}#x = y\n");
    assert_eq!(l.t("menu.play"), "Spielen");
    assert_eq!(l.t("#x"), "#x");
}
