//! What the bot is configured with.

use std::collections::HashMap;
use vstd::prelude::*;
use vstd::std_specs::hash::*;
use crate::tokens::views;

verus! {

/// The kinds of activity that an account can show as its status.
#[derive(Clone, Copy, Debug, PartialEq, Eq, Structural)]
pub enum ActivityType {
    /// Playing a game.
    Playing,
    /// Streaming to a service.
    Streaming,
    /// Listening to something.
    Listening,
    /// Watching something.
    Watching,
    /// A status in the user's own words.
    Custom,
    /// Competing somewhere.
    Competing,
    /// A kind that the platform added since.
    Unknown,
}

/// What is configured for one community.
#[derive(Clone, Copy, Debug, PartialEq, Eq, Structural)]
pub struct ServerConfig {
    /// The channel that notices of broadcasts to everyone are posted in.
    pub log_channel: u64,
}

/// The configuration of the bot.
#[derive(Debug)]
pub struct PingchuConfig {
    /// The text of the status.
    pub status: String,
    /// The kind of activity that the status shows.
    pub status_type: ActivityType,
    /// The communities whose messages are tracked.
    pub allowed_servers: HashMap<u64, ServerConfig>,
    /// The lines to answer with when the bot itself is mentioned.
    pub ping_responses: Vec<String>,
}

/// The lines that the bot answers with unless it is configured otherwise.
pub open spec fn default_ping_responses() -> Seq<Seq<char>> {
    seq![
        "Hello!"@,
        "Heyo!"@,
        "Hi!"@,
        "Hai!"@,
        "Hewo!"@,
        "Hey there, I'm Ping'chu!"@,
        "@\u{200B}everyone"@,
        "Did you just ping me?"@,
        "WHOMST DARES PING ME"@,
        "why ping"@,
        "THAT TICKLES"@,
        "hehe~"@,
        "I've been booped!"@,
        "beep boop"@,
        "Can't catch me!"@,
        "_Ping'chu uses Thunderbolt! It was very effective!_"@,
        "_Ping'chu uses Thunderbolt! It wasn't very effective..._"@,
    ]
}

impl Default for PingchuConfig {
    /// The configuration of a bot that has not been configured: it watches "red
    /// bubbles", tracks no community, and knows the stock answers.
    fn default() -> (config: Self)
        ensures
            config.status@ == "red bubbles"@,
            config.status_type == ActivityType::Watching,
            config.allowed_servers@ == Map::<u64, ServerConfig>::empty(),
            views(config.ping_responses@) == default_ping_responses(),
    {
        let mut ping_responses: Vec<String> = Vec::new();
        ping_responses.push("Hello!".to_owned());
        ping_responses.push("Heyo!".to_owned());
        ping_responses.push("Hi!".to_owned());
        ping_responses.push("Hai!".to_owned());
        ping_responses.push("Hewo!".to_owned());
        ping_responses.push("Hey there, I'm Ping'chu!".to_owned());
        ping_responses.push("@\u{200B}everyone".to_owned());
        ping_responses.push("Did you just ping me?".to_owned());
        ping_responses.push("WHOMST DARES PING ME".to_owned());
        ping_responses.push("why ping".to_owned());
        ping_responses.push("THAT TICKLES".to_owned());
        ping_responses.push("hehe~".to_owned());
        ping_responses.push("I've been booped!".to_owned());
        ping_responses.push("beep boop".to_owned());
        ping_responses.push("Can't catch me!".to_owned());
        ping_responses.push("_Ping'chu uses Thunderbolt! It was very effective!_".to_owned());
        ping_responses.push("_Ping'chu uses Thunderbolt! It wasn't very effective..._".to_owned());
        assert(views(ping_responses@) =~= default_ping_responses());
        PingchuConfig {
            status: "red bubbles".to_owned(),
            status_type: ActivityType::Watching,
            allowed_servers: HashMap::new(),
            ping_responses,
        }
    }
}

impl PingchuConfig {
    /// The kind of activity that the status is shown as: listening and watching as
    /// configured, anything else as playing.
    pub fn shown_activity(&self) -> (shown: ActivityType)
        ensures
            shown == (match self.status_type {
                ActivityType::Listening => ActivityType::Listening,
                ActivityType::Watching => ActivityType::Watching,
                _ => ActivityType::Playing,
            }),
    {
        match self.status_type {
            ActivityType::Listening => ActivityType::Listening,
            ActivityType::Watching => ActivityType::Watching,
            _ => ActivityType::Playing,
        }
    }

    /// What is configured for a community, if its messages are tracked.
    pub fn server(&self, guild_id: u64) -> (server: Option<ServerConfig>)
        ensures
            server == self.allowed_servers@.get(guild_id),
    {
        broadcast use group_hash_axioms;

        match self.allowed_servers.get(&guild_id) {
            Some(server) => Some(*server),
            None => None,
        }
    }
}

/// Whether commands are taken where the command was sent: in a community whose
/// messages are tracked, and nowhere else.
pub fn allow_on_server(config: &PingchuConfig, guild_id: Option<u64>) -> (allowed: bool)
    ensures
        allowed == (guild_id matches Some(guild) && config.allowed_servers@.contains_key(guild)),
{
    match guild_id {
        Some(guild) => config.server(guild).is_some(),
        None => false,
    }
}

} // verus!
