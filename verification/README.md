# isla

The verified core of Isla's memory repository, personality, vault and
Telegram adapter, written in Verus.

- `src/` — the library, proved by Verus:
  - `services/segment_tree.rs` — the summary segment tree: which nodes an
    append finalizes, node widths and spans, recording a scored message and
    gathering what a node is summarized from.
  - `services/summary.rs` — choosing the context for a turn under a token
    budget and deciding whether the chosen summaries are fresh.
  - `services/personality.rs`, `services/embedding.rs`, `entities/` — the
    audience matrix and everything filtered by it.
  - `services/{calender,contact,conversation,diary}.rs` — request rules and
    the texts entries are indexed under.
  - `scopes.rs` — scope patterns: parsing and glob matching.
  - `personality/` — the bounded agent turn, tool routing, persona cache keys.
  - `telegram.rs`, `decimal.rs` — turning Telegram updates into inbound messages, and chat ids.
- `app/` — ordinary Rust around it: conversions to UUIDs, timestamps and JSON,
  serde copies of the wire types, and the Telegram `sendMessage` body.
- `tests/` — the tests, run against the compiled library.

Storage, the message bus and the model calls are not part of the library:
each service's decisions are functions from plain values to plain values,
and the caller performs the reads, writes and calls around them.
