//! The rules behind the application's commands: which instruments are
//! accepted, how tickers are validated, how a watchlist is resolved and its
//! quotes gathered, which dates two price series share, which pair earns a
//! correlation script, and when a stored tactic is due for verification. The
//! commands themselves (network, storage, the window) are the application's.

pub mod error;
pub mod instruments;
pub mod custom_pair;
pub mod live_quotes;
pub mod cross_market;
pub mod precious_metals;
pub mod market_context;
