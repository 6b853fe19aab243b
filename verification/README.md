# doomslug

When a validator approves blocks, and when enough others have approved one for it to be produced,
with contracts that Verus proves.

- `src/doomslugs.rs`: the state of a validator. `process_timer` issues approvals as time passes,
  `set_tip` follows the chain, `on_approval_message_internal` collects the approvals of others. Each
  reads the clock and hands the time to a function that takes it as an argument. Approvals are kept
  only for heights within a horizon of the tip: from 20 below it to 10000 above it.
- `src/timer.rs`: how long to wait before a height is skipped.
- `src/height.rs`, `src/tracker.rs`, `src/stakes.rs`: approvals by height and by block, and the stake
  behind them.
- `src/laws.rs`: what holds over several steps. Laws about one module stand in that module.
- `src/model.rs`, `src/keys.rs`, `src/hash.rs`: accounts, signers, approvals, keys and hashes.
- `src/clock.rs`, `src/duration.rs`: clocks and spans of time.
- `app/`: formatting and conversions that need traits and types the library does not name.

Functions marked `external_body` call `time`, `sha2`, `ed25519-dalek` and `bs58`, and one calls a
hasher of `std`. Their contracts are believed, not proved; the comment above each one says what it
claims.
