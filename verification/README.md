# wallet_app

The logic of a wallet application actor, verified with Verus.

The application keeps the sessions that clients open by unlocking wallets, the
wallets that each session has unlocked, and the subscriber that each session may
have for notifications. Every call on it is taken in two steps: the library
decides, from its state and the call's arguments, which message to send to the
worker or to the node (or why the call fails at once), and it makes of their
answer what the caller receives.

- `src/registry.rs`: a map from string keys to values, with no key twice.
- `src/state.rs`: sessions, their wallets and subscribers; the view of the state
  and what each change does to it. A wallet is unlocked while some open session
  holds it.
- `src/app.rs`: the application's calls and what it makes of the answers of the
  worker and of the node, including what a new block sets going.
- `src/laws.rs`: what holds across calls (a wallet unlocked is found, locking a
  wallet closes its session, a closed session is forgotten, a subscriber hears of
  every wallet of its session, unsubscribing undoes subscribing).
- `src/json.rs`: reading and writing stored JSON values through `serde_json`.
- `src/types.rs`: identifiers, errors and messages.
- `app/lib.rs`: the actix actor that sends the messages, hands back the answers,
  schedules session expiry and reads block notifications through a decoder that
  the caller supplies.
