# rustforge

The verified core of the RustForge trading terminal, written in Verus.

- `src/fix/` — the FIX 4.4 wire format: message encoding with BodyLength and
  CheckSum, the length-delimited streaming parser with resynchronisation,
  tag=value decoding, and the laws that tie them together (`laws.rs`).
- `src/events.rs` — event envelopes and their total order.
- `src/risk.rs`, `src/kill_switch.rs`, `src/interceptor.rs` — the kill
  switches and the open-order limit.
- `src/persistence.rs` — the database worker's tick batching.
- `src/event_bus.rs` — the subscriber's reconnect decisions.
- `src/ingestion.rs` — FXMacroData endpoint paths and URL building.
- `src/tui.rs` — key bindings and the help overlay's geometry.

`app/` holds what Verus does not check: network and database I/O, async
loops, terminal drawing, floating-point risk and pricing code, and the
serde/thiserror faces of the library's types.
