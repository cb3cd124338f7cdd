# arcella_broker

Message routing within a process: a registry of local recipients with wildcard patterns, the
message protocol, and the broker and clients around them. The library is written in Rust and
verified with Verus.

- `src/broker_core/registry/` — addresses and patterns (`pattern`, `segments`), the table of
  routes over radix trees (`radix`, `table`), slots, groups and their store (`slot`,
  `load_balanced_group`, `store`, `routing`), the registry itself, what holds of it as a whole
  (`laws`), and what holds of every run of a group's dispatcher (`dispatcher_laws`).
- `src/broker_core/transport/` — channels and delivery within the process, and what holds of
  endpoints that are kept while the registry changes (`laws`).
- `src/protocol/` — headers, addresses and messages, their layout in bytes, and that decoding
  undoes encoding (`laws`).
- `src/client/` — clients, subscribers, publishers and replies, and what holds of subscriptions
  and replies (`laws`).
- `src/broker/`, `src/config/`, `src/error.rs` — the broker, its configuration, its errors.
- `app/` — the program: tasks, locks, channels that wait, and the texts of errors.
- `tests/` — tests of the library.

What other crates do is stated in the contracts of a few small functions that are not verified
themselves: `registry/radix.rs` (iradix), `protocol/wire.rs` (bytes), `transport/raw.rs`
(tokio), `client/registry.rs` (dashmap), and the wrappers of standard functions in `text.rs`,
`config/mod.rs` and `registry/load_balanced_group.rs`.

Addresses are segments separated by `:`. In a pattern `*` stands for exactly one segment, and
`**`, which must come last, for any number of trailing segments, none included. A pattern does
not begin with a wildcard. A registration that would give some address a second recipient is
refused.
