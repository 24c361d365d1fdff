# flashblocks_pending

Pending state for a node that follows a flashblocks stream, written in Verus.

A flashblocks stream runs ahead of canonical ingestion. The diff of its pending blocks is computed
against the parent of the earliest one, which is a block the node holds, so the pending state is
that historical state with the diff on top. This library decides every read and every trie input of
that state, decides how it is loaded, and frames the messages that subscribers are sent.

- `src/` is the library. Every function states in its contract what it returns, and Verus proves
  it. `src/laws.rs` states what holds of the pending state as a whole.
- `tests/` runs the library with the real outside crates.
- `app/` is the glue to a reth node: JSON text, provider traits, loading. The reth crates it names
  come from reth's own repository.

## What is not proved

Calls into outside crates stand behind small functions marked `external_body`, whose contracts are
taken on trust:

- `src/bundle.rs`: reads of revm's `BundleState`
- `src/account.rs`: Keccak-256, and revm's test for the empty code hash
- `src/wire.rs`: JSON of quantities, byte strings and logs, through alloy's serde impls
- `src/subscription.rs`: names of the standard subscription kinds, through alloy's serde impls
