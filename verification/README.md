# uno_game

The rules of UNO and the decisions of a small game server, written in Verus and
proved against their contracts.

## Layout

- `src/` — the verified library.
  - `card.rs`: colors, card kinds, cards, and the draw pile (`Deck`), with the
    standard 108-card deck spelled out as a sequence.
  - `player.rs`: hands and players.
  - `action.rs`, `event.rs`, `error.rs`: what players do, what the game reports,
    and why a request is refused (with the messages shown to players).
  - `state.rs`: the game itself — joining, dealing, and applying actions.
  - `rules.rs`: the mathematical model of every game step, which the contracts
    of `state.rs` are written in.
  - `laws.rs`: properties that hold across steps (no card is created or lost,
    refused actions change nothing, the turn always points at a seat, ...).
  - `view.rs`: what one player is shown of a game.
  - `protocol.rs`, `lobby.rs`, `session.rs`: the messages between clients and
    server, the lobby of a room, and what the server does with each message.
  - `client.rs`, `locale.rs`: the logic of the client: labels, settings, the
    hand, connection status, and the translation tables.
- `tests/` — tests that run the compiled library.
- `app/` — the server program: WebSocket connections, JSON, and the room's
  shared state; every decision is made by the library.

Random choices (shuffling, new player ids) come from `rand` and `uuid`; the
library states what holds of every outcome.
