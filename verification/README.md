# vigyl

Keeper network primitives, verified with Verus: the 128-byte trigger encodings (cron,
account state, price threshold, slot/epoch), the cron parser, the bond-weighted keeper
rotation, execution proofs, slashing arithmetic, job budget accounting and the
priority-fee policy.

- `src/` is the verified library. Each public function carries a contract over plain
  mathematical values; relations between functions (encode/decode round trips, bond
  conservation under slashing, what the rotation may pick) stand as public proof
  functions next to the code they are about. Two calls are trusted rather than proved:
  SHA-256 from the `sha2` crate (`src/hashing.rs`) and `String::push`, which builds the
  cron parser's error messages (`src/trigger/cron.rs`).
- `app/` holds what the library leaves to its host: the on-chain program's entry point and
  account declarations (Anchor), serde forms of the shared records, the error type's
  messages, and the floating-point slot estimate.
- `tests/` exercises the library on concrete values.
