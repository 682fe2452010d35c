//! Per-guild session engine of a chat bot that learns from conversation and
//! now and then answers with generated nonsense.
//!
//! The crate holds the rules of the bot: the per-guild configuration, the
//! posting policy, the registry of guild sessions and the rewriting of
//! mentions in generated text. Gateway traffic and locking belong to the
//! program that embeds it.

pub mod text;
pub mod config;
pub mod matcher;
pub mod pings;
pub mod chain;
pub mod handler;
pub mod state;
pub mod cmd;
pub mod keywords;
