//! Verified core of the trading-help desktop assistant.

pub mod text;
pub mod logging;
pub mod catalog;
pub mod models;
pub mod ai_engine;
pub mod news_engine;
pub mod market_engine;
pub mod commands;
pub mod tactic_engine;
pub mod keychain;
pub mod tactic_store;
