//! Ping'chu tracks who pings whom in chat communities.
//!
//! For every message of a tracked community the library decides which categories of
//! mention fired for its author (users, roles, everyone, the members who are online),
//! merges that tally into the author's counters, and says whether a notice or an answer
//! is due. Every function states what it returns in terms of sequences, sets and maps,
//! and is proved to do so.
//!
//! - [`roles`] decides who may broadcast.
//! - [`tokens`] and [`text`] find role mentions and literal triggers in a message.
//! - [`classify`] and [`tally`] turn a message into its tally.
//! - [`data`] keeps the counters; [`data::guild_ping`] defines the record and the
//!   statement that merges a tally into it.
//! - [`ping`] handles a message from end to end.
//! - [`commands`] builds what the bot shows; [`config`] is what it is configured with.
//! - [`utils`] formats time spans.

pub mod classify;
pub mod commands;
pub mod config;
pub mod data;
pub mod error;
pub mod ping;
pub mod roles;
pub mod tally;
pub mod text;
pub mod tokens;
pub mod utils;

use vstd::prelude::*;
use crate::config::PingchuConfig;
use crate::data::CounterStore;

verus! {

/// The state of the bot: its configuration and the counters it keeps.
pub struct Pingchu {
    /// The configuration.
    pub config: PingchuConfig,
    /// The counters of all tracked communities.
    pub database: CounterStore,
}

} // verus!
