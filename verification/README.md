# book_ingest

Order-book ingestion for centralized exchanges (Binance, Bybit, OKX) and
Polymarket, with its core logic verified by Verus.

- `src/` is the verified library: decoding of exchange messages (Binance SBE
  depth frames and REST snapshots, Bybit and OKX JSON books, Polymarket CLOB
  events), the Binance snapshot/diff sequence protocol, the slot-map backed
  book indexer and the worker that keeps per-symbol books and emits ticks and
  snapshots, the OKX local book with its CRC32 checksum, reconnection
  back-off and frame routing, and the batching used by the ingestion clients.
  Decimal arithmetic goes through `rust_decimal`, slot maps through
  `slotmap`, CRC32 through `crc32fast`, each behind a small trusted wrapper
  whose contract is stated in the code. `src/laws.rs` holds the properties
  that span several operations.
- `app/` is the service around it: websockets, HTTP, databases, logging,
  the serde copies of the message types and the task supervision.
- `tests/` runs the library on concrete inputs.
