# trading_help

The decision-making core of Trading Help, an AI market co-pilot for NASDAQ,
S&P 500, gold and silver, written in Verus. The library's own logic is
proved against its contracts. What it takes from elsewhere is believed, not
proved: the std string operations in `src/text.rs` (trimming, lower-casing,
`char::is_alphanumeric`), the calendar arithmetic of the `time` crate in
`src/ai_engine/gemini_client.rs`, the RSS parse of the `rss` crate in
`src/news_engine.rs` and the credential store of the `keyring` crate in
`src/keychain.rs` each stand behind a small `external_body` function whose
doc comment says what its contract claims.

## Layout

- `src/text.rs` – character-level helpers (ASCII classes, decimal rendering,
  substring search) and the few std string operations the library relies on.
- `src/catalog.rs` – the instrument catalogue, its lookups and its
  consistency.
- `src/logging.rs` – what a log line may contain: credential scrubbing,
  record format, rotation decisions, payload descriptions;
  `src/logging/idempotence.rs` proves that scrubbing is idempotent.
- `src/ai_engine/` – the Gemini call as a state machine (attempts, budget,
  backoff, quota handling, the reported error), cancellation registry,
  prompts, Pine Script templates and citation grounding.
- `src/news_engine.rs` – feed parsing, whole-word keyword matching and feed
  merging.
- `src/market_engine.rs` – market data errors, history validation, the
  candle cache and the stable time sort.
- `src/commands/` – watchlist resolution, quote aggregation, ticker
  validation, date joins for correlations, pair resolution.
- `src/tactic_engine.rs`, `src/tactic_store.rs` – which candles decide a
  tactic's outcome, verification windows and the track record of stored
  tactics.
- `src/keychain.rs` – the API key in the operating system's credential store.
- `app/` – the command-line application around the library: network, files,
  the logger, timers and all floating-point arithmetic.
- `tests/` – executable tests of the library.

Laws that span several calls (cache read-after-write, the registry's bounds,
stable sorting, grounded citations, the track record's sources, the
catalogue's consistency, scrubbing twice being scrubbing once, a tactic's
outcome not depending on the order its candles come in) are stated as
`law_*` proof functions next to the code they are about.
