use crate::action::PlayerAction;
use crate::card::{Card, CardKind, Color};
use crate::event::PlayerId;
use crate::protocol::{ClientMessage, JoinRequest, PlayerInfo};
use crate::view::{GameStateView, OpponentView};
use vstd::prelude::*;

verus! {

// ── Settings ─────────────────────────────────────────────────────────────────

/// The languages of the user interface.
#[derive(Debug, Clone, Copy, PartialEq, Eq, Structural)]
pub enum Language {
    EnUs,
    DeDe,
}

impl Language {
    pub open spec fn spec_display_name(self) -> Seq<char> {
        match self {
            Language::EnUs => "English"@,
            Language::DeDe => "Deutsch"@,
        }
    }

    /// The name of the language, in that language.
    pub fn display_name(&self) -> (name: &'static str)
        ensures
            name@ == self.spec_display_name(),
    {
        match self {
            Language::EnUs => "English",
            Language::DeDe => "Deutsch",
        }
    }

    /// Every language, in the order in which they are offered.
    pub fn all() -> (all: Vec<Language>)
        ensures
            all@ == seq![Language::EnUs, Language::DeDe],
    {
        let mut all: Vec<Language> = Vec::new();
        all.push(Language::EnUs);
        all.push(Language::DeDe);
        all
    }
}

/// The user's settings.
#[derive(Debug, Clone)]
pub struct Settings {
    pub language: Language,
    pub server_url: String,
    pub ai_api_enabled: bool,
    pub player_name: String,
}

impl Default for Settings {
    fn default() -> (settings: Settings)
        ensures
            settings.language == Language::EnUs,
            settings.server_url@ == "ws://127.0.0.1:9001"@,
            !settings.ai_api_enabled,
            settings.player_name@ == "Player"@,
    {
        Settings {
            language: Language::EnUs,
            server_url: String::from_str("ws://127.0.0.1:9001"),
            ai_api_enabled: false,
            player_name: String::from_str("Player"),
        }
    }
}

/// The first message a client sends on a new connection: a request to join a new room
/// under the player's name, as a person (not an AI program) and without a token.
pub fn join_message(settings: &Settings) -> (msg: ClientMessage)
    ensures
        msg matches ClientMessage::Join(r) && r.name@ == settings.player_name@ && r.room_code is None
            && !r.is_ai && r.auth_token is None,
{
    ClientMessage::Join(
        JoinRequest {
            name: settings.player_name.clone(),
            room_code: None,
            is_ai: false,
            auth_token: None,
        },
    )
}

// ── Card faces ───────────────────────────────────────────────────────────────

/// The label printed on a card.
pub open spec fn card_label_text(card: Card) -> Seq<char> {
    match card.kind {
        CardKind::Number(n) => if n == 0 {
            "0"@
        } else if n == 1 {
            "1"@
        } else if n == 2 {
            "2"@
        } else if n == 3 {
            "3"@
        } else if n == 4 {
            "4"@
        } else if n == 5 {
            "5"@
        } else if n == 6 {
            "6"@
        } else if n == 7 {
            "7"@
        } else if n == 8 {
            "8"@
        } else if n == 9 {
            "9"@
        } else {
            "?"@
        },
        CardKind::Skip => "⊘"@,
        CardKind::Reverse => "↺"@,
        CardKind::DrawTwo => "+2"@,
        CardKind::Wild => "W"@,
        CardKind::WildDrawFour => "+4"@,
    }
}

/// The label printed on a card.
pub fn card_label(card: &Card) -> (label: &'static str)
    ensures
        label@ == card_label_text(*card),
{
    match card.kind {
        CardKind::Number(0) => "0",
        CardKind::Number(1) => "1",
        CardKind::Number(2) => "2",
        CardKind::Number(3) => "3",
        CardKind::Number(4) => "4",
        CardKind::Number(5) => "5",
        CardKind::Number(6) => "6",
        CardKind::Number(7) => "7",
        CardKind::Number(8) => "8",
        CardKind::Number(9) => "9",
        CardKind::Number(_) => "?",
        CardKind::Skip => "⊘",
        CardKind::Reverse => "↺",
        CardKind::DrawTwo => "+2",
        CardKind::Wild => "W",
        CardKind::WildDrawFour => "+4",
    }
}

// ── Labels ───────────────────────────────────────────────────────────────────

/// The decimal digit `d` (0 to 9).
pub open spec fn digit_char(d: int) -> char {
    (48 + d) as char
}

/// The decimal text of `n`, without leading zeros.
pub open spec fn decimal_text(n: nat) -> Seq<char>
    decreases n,
{
    if n < 10 {
        seq![digit_char(n as int)]
    } else {
        decimal_text(n / 10).push(digit_char((n % 10) as int))
    }
}

fn digit_text(d: u8) -> (text: &'static str)
    requires
        d < 10,
    ensures
        text@ == seq![digit_char(d as int)],
{
    proof {
        reveal_strlit("0");
        reveal_strlit("1");
        reveal_strlit("2");
        reveal_strlit("3");
        reveal_strlit("4");
        reveal_strlit("5");
        reveal_strlit("6");
        reveal_strlit("7");
        reveal_strlit("8");
        reveal_strlit("9");
    }
    match d {
        0 => "0",
        1 => "1",
        2 => "2",
        3 => "3",
        4 => "4",
        5 => "5",
        6 => "6",
        7 => "7",
        8 => "8",
        _ => "9",
    }
}

/// The decimal text of a count.
pub fn count_text(n: u8) -> (text: String)
    ensures
        text@ == decimal_text(n as nat),
{
    let mut text = String::new();
    if n >= 100 {
        text.append(digit_text(n / 100));
    }
    if n >= 10 {
        text.append(digit_text((n / 10) % 10));
    }
    text.append(digit_text(n % 10));
    proof {
        let d0 = digit_char((n % 10) as int);
        let d1 = digit_char(((n / 10) % 10) as int);
        let d2 = digit_char((n / 100) as int);
        if n >= 100 {
            assert(decimal_text((n / 100) as nat) == seq![d2]);
            assert(decimal_text((n / 10) as nat) == seq![d2].push(d1));
            assert(decimal_text(n as nat) == seq![d2].push(d1).push(d0));
            assert(text@ =~= seq![d2].push(d1).push(d0));
        } else if n >= 10 {
            assert((n / 10) % 10 == n / 10);
            assert(decimal_text((n / 10) as nat) == seq![d1]);
            assert(decimal_text(n as nat) == seq![d1].push(d0));
            assert(text@ =~= seq![d1].push(d0));
        } else {
            assert(text@ =~= seq![d0]);
        }
    }
    text
}

/// The entry of a lobby member in the list of the lobby screen: a crown for the host (a
/// dot for the others), the name, and a check mark once ready.
pub open spec fn member_label_text(p: PlayerInfo) -> Seq<char> {
    (if p.is_host {
        "♛"@
    } else {
        "●"@
    }) + " "@ + p.name@ + (if p.is_ready {
        " ✓"@
    } else {
        ""@
    })
}

pub fn member_label(p: &PlayerInfo) -> (label: String)
    ensures
        label@ == member_label_text(*p),
{
    let mut label = String::from_str(if p.is_host {
        "♛"
    } else {
        "●"
    });
    label.append(" ");
    label.append(p.name.as_str());
    label.append(if p.is_ready {
        " ✓"
    } else {
        ""
    });
    label
}

/// What the table shows of an opponent: name, card count, and whether they called UNO.
pub open spec fn opponent_label_text(o: OpponentView) -> Seq<char> {
    o.name@ + " ("@ + decimal_text(o.card_count as nat) + "🃏"@ + (if o.called_uno {
        " UNO"@
    } else {
        ""@
    }) + ")"@
}

pub fn opponent_label(o: &OpponentView) -> (label: String)
    ensures
        label@ == opponent_label_text(*o),
{
    let mut label = String::from_str(o.name.as_str());
    label.append(" (");
    let count = count_text(o.card_count);
    label.append(count.as_str());
    label.append("🃏");
    label.append(if o.called_uno {
        " UNO"
    } else {
        ""
    });
    label.append(")");
    label
}

/// Whether the local player (when known) is the one to move in `view`.
pub open spec fn is_my_turn(view: GameStateView, local: Option<PlayerId>) -> bool {
    local matches Some(id) && view.current_player == id
}

/// The line at the top of the table.
pub fn turn_label(view: &GameStateView, local: Option<PlayerId>) -> (label: &'static str)
    ensures
        label@ == (if is_my_turn(*view, local) {
            "Your turn!"@
        } else {
            "Waiting for player…"@
        }),
{
    let your_turn = match local {
        Some(id) => view.current_player == id,
        None => false,
    };
    if your_turn {
        "Your turn!"
    } else {
        "Waiting for player…"
    }
}

/// The UNO button shows when the local player holds exactly one card.
pub fn uno_button_visible(view: Option<&GameStateView>) -> (visible: bool)
    ensures
        visible == (view matches Some(v) && v.your_hand@.len() == 1),
{
    match view {
        Some(v) => v.your_hand.len() == 1,
        None => false,
    }
}

/// The arrow that shows the direction of play.
pub fn direction_arrow(clockwise: bool) -> (arrow: &'static str)
    ensures
        arrow@ == (if clockwise {
            "↻"@
        } else {
            "↺"@
        }),
{
    if clockwise {
        "↻"
    } else {
        "↺"
    }
}

// ── Playing from the hand ────────────────────────────────────────────────────

/// Whether the player has picked a wild card and is choosing its color.
#[derive(Debug, Clone, Copy, Default)]
pub struct HandState {
    pub pending_wild: Option<Card>,
}

impl HandState {
    /// The player clicked `card` in their hand, as shown in `view` to the local player
    /// `local`. Only on their turn does it count: a colored card is played at once; a wild
    /// card waits for a color to be picked.
    pub fn click_card(
        &mut self,
        view: Option<&GameStateView>,
        local: Option<PlayerId>,
        card: Card,
    ) -> (msg: Option<ClientMessage>)
        ensures
            !(view matches Some(v) && is_my_turn(*v, local)) ==> msg is None && *final(self)
                == *old(self),
            (view matches Some(v) && is_my_turn(*v, local)) ==> {
                &&& card.spec_is_wild() ==> msg is None && final(self).pending_wild == Some(card)
                &&& !card.spec_is_wild() ==> *final(self) == *old(self) && (msg matches Some(
                    ClientMessage::Action(a),
                ) && a == (PlayerAction::PlayCard { card, declared_color: None }))
            },
    {
        let my_turn = match (view, local) {
            (Some(v), Some(id)) => v.current_player == id,
            _ => false,
        };
        if !my_turn {
            return None;
        }
        if card.is_wild() {
            self.pending_wild = Some(card);
            None
        } else {
            Some(ClientMessage::Action(PlayerAction::PlayCard { card, declared_color: None }))
        }
    }

    /// The player picked `color` for the waiting wild card, which is then played.
    pub fn pick_color(&mut self, color: Color) -> (msg: Option<ClientMessage>)
        ensures
            final(self).pending_wild is None,
            old(self).pending_wild is None ==> msg is None,
            old(self).pending_wild matches Some(card) ==> msg matches Some(
                ClientMessage::Action(a),
            ) && a == (PlayerAction::PlayCard { card, declared_color: Some(color) }),
    {
        match self.pending_wild.take() {
            Some(card) => Some(
                ClientMessage::Action(PlayerAction::PlayCard { card, declared_color: Some(color) }),
            ),
            None => None,
        }
    }
}

// ── Connection status ────────────────────────────────────────────────────────

/// The state of the connection to the server.
#[derive(Debug, Clone, PartialEq, Eq)]
pub enum NetStatus {
    Disconnected,
    Connecting,
    Connected,
    Error(String),
}

impl NetStatus {
    /// A connection was asked for.
    pub fn connect(&mut self)
        ensures
            *final(self) == NetStatus::Connecting,
    {
        *self = NetStatus::Connecting;
    }

    /// A message arrived from the server: a pending connection is now up.
    pub fn message_received(&mut self)
        ensures
            *old(self) is Connecting ==> *final(self) == NetStatus::Connected,
            !(*old(self) is Connecting) ==> *final(self) == *old(self),
    {
        if let NetStatus::Connecting = self {
            *self = NetStatus::Connected;
        }
    }

    /// The connection closed.
    pub fn disconnected(&mut self)
        ensures
            *final(self) == NetStatus::Disconnected,
    {
        *self = NetStatus::Disconnected;
    }
}

} // verus!
