//! The ping listener: from one inbound message to a counter update and an action.

use std::collections::HashMap;
use rand::seq::SliceRandom;
use unicode_segmentation::UnicodeSegmentation;
use vstd::prelude::*;
use vstd::string::StringExecFns;
use crate::classify::{
    broadcast_fires, classify, everyone_trigger, online_trigger, role_mention_count,
};
use crate::data::guild_ping::{
    conflict_updates, lemma_conflict_updates_reconcile, prior_pings, reconciled, upsert_guild_ping, Model,
    Upsert,
};
use crate::config::{PingchuConfig, ServerConfig};
use crate::data::{is_latest_everyone_ping, reconciled_store};
use crate::error::PingError;
use crate::roles::{can_broadcast, resolve, RoleDescriptor};
use crate::tally::MentionTally;
use crate::tokens::{regex_accepts, regex_matches, role_mention_pattern, role_mention_tokens, views};
use crate::Pingchu;

verus! {

/// How many user-perceived characters of a message a notice quotes at most.
pub const EXCERPT_GRAPHEMES: usize = 100;

/// One message, as the gateway delivers it.
#[derive(Debug, PartialEq, Eq)]
pub struct InboundMessage {
    /// The community in which the message was sent; `None` outside any community.
    pub guild_id: Option<u64>,
    /// The author.
    pub author_id: u64,
    /// The roles assigned to the author in the community.
    pub author_roles: Vec<u64>,
    /// The raw text.
    pub content: String,
    /// The users that the platform reports as mentioned, repeats included.
    pub mentions: Vec<u64>,
    /// When the message was sent: milliseconds from the Unix epoch, UTC.
    pub timestamp: i64,
}

/// What was known of broadcasts to everyone before a message was merged.
#[derive(Clone, Copy, Debug, PartialEq, Eq)]
pub struct EveryonePingHistory {
    /// The most recent broadcast to everyone in the community, by any member.
    pub last_global: Option<i64>,
    /// The author's own most recent broadcast to everyone.
    pub last_member: Option<i64>,
    /// The author's pings so far.
    pub pings: u32,
}

/// What the listener asks the presentation side to do.
#[derive(Debug, PartialEq, Eq)]
pub enum NotifierAction {
    /// Nothing.
    Nothing,
    /// Post a notice that a member broadcast to everyone.
    NotifyBroadcast {
        /// The channel to post the notice in.
        log_channel: u64,
        /// The community.
        guild_id: u64,
        /// The member who broadcast.
        author_id: u64,
        /// The beginning of the message.
        excerpt: String,
        /// When the message was sent.
        timestamp: i64,
        /// The community's previous broadcast to everyone, if there was one.
        last_global: Option<i64>,
        /// The member's previous broadcast to everyone, if there was one.
        last_member: Option<i64>,
        /// The member's pings, this message included.
        total_pings: u64,
    },
    /// Answer the message with a line of text.
    AutoReply {
        /// The line.
        text: String,
    },
}

/// A `NotifierAction` with its texts as sequences of characters.
pub enum NotifierActionView {
    Nothing,
    NotifyBroadcast {
        log_channel: u64,
        guild_id: u64,
        author_id: u64,
        excerpt: Seq<char>,
        timestamp: i64,
        last_global: Option<i64>,
        last_member: Option<i64>,
        total_pings: u64,
    },
    AutoReply { text: Seq<char> },
}

impl View for NotifierAction {
    type V = NotifierActionView;

    open spec fn view(&self) -> NotifierActionView {
        match *self {
            NotifierAction::Nothing => NotifierActionView::Nothing,
            NotifierAction::NotifyBroadcast {
                log_channel,
                guild_id,
                author_id,
                excerpt,
                timestamp,
                last_global,
                last_member,
                total_pings,
            } => NotifierActionView::NotifyBroadcast {
                log_channel,
                guild_id,
                author_id,
                excerpt: excerpt@,
                timestamp,
                last_global,
                last_member,
                total_pings,
            },
            NotifierAction::AutoReply { text } => NotifierActionView::AutoReply { text: text@ },
        }
    }
}

/// The grapheme clusters of a text, in order, as `unicode_segmentation` cuts them:
/// the extended clusters or the legacy ones.
pub uninterp spec fn grapheme_clusters(text: Seq<char>, extended: bool) -> Seq<Seq<char>>;

/// The parts of a list, one after the other.
pub open spec fn joined(parts: Seq<Seq<char>>) -> Seq<char>
    decreases parts.len(),
{
    if parts.len() == 0 {
        Seq::empty()
    } else {
        joined(parts.drop_last()) + parts.last()
    }
}

/// Calls `UnicodeSegmentation::graphemes` and collects the clusters. The clusters are a
/// function of the text and of the kind asked for; they are slices of the text that
/// follow one another from its start to its end, so that joined they give it back.
#[verifier::external_body]
fn graphemes_of(text: &str, extended: bool) -> (clusters: Vec<String>)
    ensures
        views(clusters@) == grapheme_clusters(text@, extended),
        joined(views(clusters@)) == text@,
{
    text.graphemes(extended).map(|cluster| cluster.to_string()).collect()
}

/// Calls `SliceRandom::choose` with the thread's generator. Whatever the generator
/// gives, the pick is one of the options, and there is none only where there is no
/// option.
#[verifier::external_body]
fn choose_one(options: &Vec<String>) -> (picked: Option<String>)
    ensures
        picked is None <==> options@.len() == 0,
        picked matches Some(text) ==> exists|i: int|
            0 <= i < options@.len() && (#[trigger] options@[i])@ == text@,
{
    options.choose(&mut rand::thread_rng()).cloned()
}

/// The beginning of a text: its first `EXCERPT_GRAPHEMES` extended grapheme clusters,
/// or all of it where it has fewer.
pub open spec fn excerpt_of(text: Seq<char>) -> Seq<char> {
    let clusters = grapheme_clusters(text, true);
    if clusters.len() <= EXCERPT_GRAPHEMES {
        joined(clusters)
    } else {
        joined(clusters.take(EXCERPT_GRAPHEMES as int))
    }
}

/// The first parts of a list, joined, begin the whole list, joined.
proof fn lemma_joined_prefix(parts: Seq<Seq<char>>, k: int)
    requires
        0 <= k <= parts.len(),
    ensures
        joined(parts.take(k)).is_prefix_of(joined(parts)),
    decreases parts.len(),
{
    if k == parts.len() {
        assert(parts.take(k) =~= parts);
    } else {
        assert(parts.drop_last().take(k) =~= parts.take(k));
        lemma_joined_prefix(parts.drop_last(), k);
    }
}

/// Cuts a message down to what a notice quotes, without splitting a user-perceived
/// character.
pub fn message_excerpt(content: &str) -> (excerpt: String)
    ensures
        excerpt@ == excerpt_of(content@),
        excerpt@.is_prefix_of(content@),
        grapheme_clusters(content@, true).len() <= EXCERPT_GRAPHEMES ==> excerpt@ == content@,
{
    let clusters = graphemes_of(content, true);
    let ghost parts = views(clusters@);
    let limit: usize = if clusters.len() <= EXCERPT_GRAPHEMES {
        clusters.len()
    } else {
        EXCERPT_GRAPHEMES
    };
    let mut excerpt = String::new();
    let mut i: usize = 0;
    assert(parts.take(0) =~= Seq::<Seq<char>>::empty());
    while i < limit
        invariant
            parts == views(clusters@),
            limit <= clusters@.len(),
            i <= limit,
            excerpt@ == joined(parts.take(i as int)),
        decreases limit - i,
    {
        proof {
            assert(parts.take(i + 1).drop_last() =~= parts.take(i as int));
            assert(parts.take(i + 1).last() == clusters@[i as int]@);
        }
        excerpt.append(clusters[i].as_str());
        i = i + 1;
    }
    proof {
        lemma_joined_prefix(parts, limit as int);
        if clusters@.len() <= EXCERPT_GRAPHEMES {
            assert(parts.take(limit as int) =~= parts);
        }
    }
    excerpt
}

/// Whether a user is among those that a message mentions.
pub fn mentions_user(mentions: &Vec<u64>, user_id: u64) -> (mentioned: bool)
    ensures
        mentioned == mentions@.contains(user_id),
{
    let mut i: usize = 0;
    while i < mentions.len()
        invariant
            i <= mentions@.len(),
            forall|k: int| 0 <= k < i ==> mentions@[k] != user_id,
        decreases mentions@.len() - i,
    {
        if mentions[i] == user_id {
            return true;
        }
        i = i + 1;
    }
    false
}

/// The tally of a message sent in community `guild_id`.
pub open spec fn message_tally(
    message: InboundMessage,
    guild_id: u64,
    community_roles: Map<u64, RoleDescriptor>,
) -> MentionTally {
    let allowed = can_broadcast(message.author_roles@, community_roles, guild_id);
    MentionTally {
        user_mentions: message.mentions@.len() as usize,
        role_mentions: role_mention_count(
            regex_matches(role_mention_pattern(), message.content@),
            allowed,
            community_roles,
        ) as usize,
        everyone_fired: broadcast_fires(message.content@, allowed, everyone_trigger()),
        online_fired: broadcast_fires(message.content@, allowed, online_trigger()),
    }
}

/// Resolves the author's permissions, finds the role mentions and classifies the
/// message. Fails only where the role-mention pattern is rejected.
pub fn classify_message(
    message: &InboundMessage,
    guild_id: u64,
    community_roles: &HashMap<u64, RoleDescriptor>,
) -> (result: Result<MentionTally, PingError>)
    ensures
        result is Ok <==> regex_accepts(role_mention_pattern()),
        result matches Ok(tally) ==> tally == message_tally(*message, guild_id, community_roles@),
        result matches Err(error) ==> error == PingError::PatternRejected,
{
    let verdict = resolve(&message.author_roles, community_roles, guild_id);
    match role_mention_tokens(message.content.as_str()) {
        None => Err(PingError::PatternRejected),
        Some(tokens) => Ok(
            classify(message.content.as_str(), &message.mentions, &tokens, verdict, community_roles),
        ),
    }
}

/// What is recorded of a member's and a community's broadcasts to everyone.
pub open spec fn is_history(
    history: EveryonePingHistory,
    records: Map<(u64, u64), Model>,
    guild_id: u64,
    user_id: u64,
) -> bool {
    let own = records.get((guild_id, user_id));
    &&& is_latest_everyone_ping(records, guild_id, history.last_global)
    &&& history.last_member == (if own is Some {
        own->0.last_everyone_ping
    } else {
        None
    })
    &&& history.pings == prior_pings(own)
}

/// Puts a history together from two rows that a store was asked for: the row of the
/// community with the greatest `last_everyone_ping`, and the member's own row.
pub fn history_from_rows(latest: Option<Model>, own: Option<Model>) -> (history: EveryonePingHistory)
    ensures
        history.last_global == (if latest is Some {
            latest->0.last_everyone_ping
        } else {
            None
        }),
        history.last_member == (if own is Some {
            own->0.last_everyone_ping
        } else {
            None
        }),
        history.pings == prior_pings(own),
{
    let last_global = match latest {
        Some(row) => row.last_everyone_ping,
        None => None,
    };
    match own {
        Some(row) => EveryonePingHistory {
            last_global,
            last_member: row.last_everyone_ping,
            pings: row.pings,
        },
        None => EveryonePingHistory { last_global, last_member: None, pings: 0 },
    }
}

/// The record of a member, if the member has one.
pub fn member_ping_info(pingchu: &Pingchu, guild: u64, user: u64) -> (info: Option<Model>)
    ensures
        info == pingchu.database@.get((guild, user)),
{
    pingchu.database.find(guild, user)
}

/// Reads what a notice about a broadcast to everyone reports: the community's most
/// recent such broadcast, and the member's own together with the member's pings. A
/// member without a record has neither.
pub fn everyone_ping_history(pingchu: &Pingchu, guild_id: u64, user_id: u64) -> (history:
    EveryonePingHistory)
    ensures
        is_history(history, pingchu.database@, guild_id, user_id),
{
    let last_global = pingchu.database.latest_everyone_ping(guild_id);
    match member_ping_info(pingchu, guild_id, user_id) {
        Some(record) => EveryonePingHistory {
            last_global,
            last_member: record.last_everyone_ping,
            pings: record.pings,
        },
        None => EveryonePingHistory { last_global, last_member: None, pings: 0 },
    }
}

/// The action for a message that was merged. With a history, which is read exactly
/// when the message broadcast to everyone, a notice; else an answer where the message
/// mentions the automated account and there is a line to answer with; else nothing.
pub open spec fn action_for(
    log_channel: u64,
    guild_id: u64,
    message: InboundMessage,
    history: Option<EveryonePingHistory>,
    increment: u32,
    bot_id: u64,
    excerpt: Seq<char>,
    reply: Option<Seq<char>>,
) -> NotifierActionView {
    match history {
        Some(before) => NotifierActionView::NotifyBroadcast {
            log_channel,
            guild_id,
            author_id: message.author_id,
            excerpt,
            timestamp: message.timestamp,
            last_global: before.last_global,
            last_member: before.last_member,
            total_pings: (before.pings + increment) as u64,
        },
        None => if message.mentions@.contains(bot_id) && reply is Some {
            NotifierActionView::AutoReply { text: reply->0 }
        } else {
            NotifierActionView::Nothing
        },
    }
}

/// The view of an optional string.
pub open spec fn text_of(text: Option<String>) -> Option<Seq<char>> {
    match text {
        Some(line) => Some(line@),
        None => None,
    }
}

/// Decides the action from what was read before the merge, the excerpt and the line
/// that was picked as an answer.
pub fn final_action(
    log_channel: u64,
    guild_id: u64,
    message: &InboundMessage,
    history: Option<EveryonePingHistory>,
    increment: u32,
    bot_id: u64,
    excerpt: String,
    reply: Option<String>,
) -> (action: NotifierAction)
    ensures
        action@ == action_for(
            log_channel,
            guild_id,
            *message,
            history,
            increment,
            bot_id,
            excerpt@,
            text_of(reply),
        ),
{
    match history {
        Some(before) => NotifierAction::NotifyBroadcast {
            log_channel,
            guild_id,
            author_id: message.author_id,
            excerpt,
            timestamp: message.timestamp,
            last_global: before.last_global,
            last_member: before.last_member,
            total_pings: before.pings as u64 + increment as u64,
        },
        None => {
            if mentions_user(&message.mentions, bot_id) {
                match reply {
                    Some(text) => NotifierAction::AutoReply { text },
                    None => NotifierAction::Nothing,
                }
            } else {
                NotifierAction::Nothing
            }
        },
    }
}

/// `action` is what a merged message calls for, whichever line was picked.
pub open spec fn is_action_for(
    action: NotifierActionView,
    log_channel: u64,
    guild_id: u64,
    message: InboundMessage,
    history: Option<EveryonePingHistory>,
    increment: u32,
    bot_id: u64,
    ping_responses: Seq<String>,
) -> bool {
    if history is None && message.mentions@.contains(bot_id) {
        if ping_responses.len() == 0 {
            action == NotifierActionView::Nothing
        } else {
            exists|i: int|
                0 <= i < ping_responses.len() && action == (NotifierActionView::AutoReply {
                    text: (#[trigger] ping_responses[i])@,
                })
        }
    } else {
        action == action_for(
            log_channel,
            guild_id,
            message,
            history,
            increment,
            bot_id,
            excerpt_of(message.content@),
            None,
        )
    }
}

/// Decides the action for a message that was merged: cuts the excerpt for a notice, or
/// picks the line of an answer at random among `ping_responses`.
pub fn conclude(
    log_channel: u64,
    guild_id: u64,
    message: &InboundMessage,
    history: Option<EveryonePingHistory>,
    increment: u32,
    bot_id: u64,
    ping_responses: &Vec<String>,
) -> (action: NotifierAction)
    ensures
        is_action_for(
            action@,
            log_channel,
            guild_id,
            *message,
            history,
            increment,
            bot_id,
            ping_responses@,
        ),
{
    if history.is_some() {
        let excerpt = message_excerpt(message.content.as_str());
        final_action(log_channel, guild_id, message, history, increment, bot_id, excerpt, None)
    } else if mentions_user(&message.mentions, bot_id) {
        let reply = choose_one(ping_responses);
        final_action(log_channel, guild_id, message, history, increment, bot_id, String::new(), reply)
    } else {
        NotifierAction::Nothing
    }
}

/// What is to be done for a message that counts: where a notice would go, the tally,
/// the statement that merges it, and whether the history is to be read first.
#[derive(Debug, PartialEq, Eq)]
pub struct MessagePlan {
    /// The channel for a notice.
    pub log_channel: u64,
    /// The community of the message.
    pub guild_id: u64,
    /// The tally of the message.
    pub tally: MentionTally,
    /// The statement that merges the tally into the author's counters.
    pub statement: Upsert,
    /// The message broadcast to everyone, so the history is read before the merge.
    pub needs_history: bool,
}

/// `plan` is the plan for a message of a tracked community with the given tally.
pub open spec fn is_plan(
    plan: MessagePlan,
    log_channel: u64,
    guild_id: u64,
    message: InboundMessage,
    tally: MentionTally,
) -> bool {
    &&& plan.log_channel == log_channel
    &&& plan.guild_id == guild_id
    &&& plan.tally == tally
    &&& plan.statement.row == reconciled(
        None,
        guild_id,
        message.author_id,
        message.timestamp,
        tally,
    )
    &&& plan.statement.on_conflict@ == conflict_updates(
        message.timestamp,
        tally,
        plan.statement.row.pings,
    )
    &&& plan.needs_history == tally.everyone_fired
}

/// What planning a message gives: nothing to do for a message outside the tracked
/// communities or without mentions; a plan where the counter can hold the total; else
/// the reason why there is none.
pub open spec fn planned(
    result: Result<Option<MessagePlan>, PingError>,
    message: InboundMessage,
    allowed_servers: Map<u64, ServerConfig>,
    community_roles: Map<u64, RoleDescriptor>,
) -> bool {
    if message.guild_id is Some && allowed_servers.contains_key(message.guild_id->0) {
        let guild_id = message.guild_id->0;
        let tally = message_tally(message, guild_id, community_roles);
        if !regex_accepts(role_mention_pattern()) {
            result == Err::<Option<MessagePlan>, PingError>(PingError::PatternRejected)
        } else if tally.total_spec() == 0 {
            result == Ok::<Option<MessagePlan>, PingError>(None)
        } else if tally.total_spec() > u32::MAX {
            result == Err::<Option<MessagePlan>, PingError>(PingError::StorageError)
        } else {
            match result {
                Ok(Some(plan)) => is_plan(
                    plan,
                    allowed_servers[guild_id].log_channel,
                    guild_id,
                    message,
                    tally,
                ),
                _ => false,
            }
        }
    } else {
        result == Ok::<Option<MessagePlan>, PingError>(None)
    }
}

/// Plans the handling of one message: whether it counts at all, and if so what to
/// write and whether to read the history first. Nothing is read or written here.
pub fn plan_message(
    config: &PingchuConfig,
    community_roles: &HashMap<u64, RoleDescriptor>,
    message: &InboundMessage,
) -> (result: Result<Option<MessagePlan>, PingError>)
    ensures
        planned(result, *message, config.allowed_servers@, community_roles@),
{
    let guild_id = match message.guild_id {
        Some(guild_id) => guild_id,
        None => {
            return Ok(None);
        },
    };
    let server = match config.server(guild_id) {
        Some(server) => server,
        None => {
            return Ok(None);
        },
    };
    let tally = match classify_message(message, guild_id, community_roles) {
        Ok(tally) => tally,
        Err(error) => {
            return Err(error);
        },
    };
    if tally.total() == 0 {
        return Ok(None);
    }
    match upsert_guild_ping(guild_id, message.author_id, message.timestamp, &tally) {
        Err(error) => Err(error),
        Ok(statement) => Ok(
            Some(
                MessagePlan {
                    log_channel: server.log_channel,
                    guild_id,
                    tally,
                    statement,
                    needs_history: tally.everyone_fired,
                },
            ),
        ),
    }
}

/// The message changed nothing and calls for nothing.
pub open spec fn passed_over(
    before: Map<(u64, u64), Model>,
    after: Map<(u64, u64), Model>,
    result: Result<NotifierAction, PingError>,
) -> bool {
    &&& after == before
    &&& match result {
        Ok(action) => action@ == NotifierActionView::Nothing,
        Err(_) => false,
    }
}

/// The message failed with `error` and changed nothing.
pub open spec fn failed_with(
    before: Map<(u64, u64), Model>,
    after: Map<(u64, u64), Model>,
    result: Result<NotifierAction, PingError>,
    error: PingError,
) -> bool {
    &&& after == before
    &&& match result {
        Ok(_) => false,
        Err(reported) => reported == error,
    }
}

/// What handling a message sent in community `guild_id` does to the store and what it
/// returns, given that the role-mention pattern is accepted.
pub open spec fn handled_in_community(
    before: Map<(u64, u64), Model>,
    after: Map<(u64, u64), Model>,
    result: Result<NotifierAction, PingError>,
    log_channel: u64,
    guild_id: u64,
    message: InboundMessage,
    community_roles: Map<u64, RoleDescriptor>,
    bot_id: u64,
    ping_responses: Seq<String>,
) -> bool {
    let tally = message_tally(message, guild_id, community_roles);
    if tally.total_spec() == 0 {
        passed_over(before, after, result)
    } else {
        match reconciled_store(before, guild_id, message.author_id, message.timestamp, tally) {
            Err(error) => failed_with(before, after, result, error),
            Ok(records) => {
                &&& after == records
                &&& match result {
                    Ok(action) => exists|history: EveryonePingHistory|
                        {
                            &&& #[trigger] is_history(history, before, guild_id, message.author_id)
                            &&& is_action_for(
                                action@,
                                log_channel,
                                guild_id,
                                message,
                                if tally.everyone_fired {
                                    Some(history)
                                } else {
                                    None
                                },
                                tally.total_spec() as u32,
                                bot_id,
                                ping_responses,
                            )
                        },
                    Err(_) => false,
                }
            },
        }
    }
}

/// What handling a message does to the store and what it returns. A message outside
/// any community, or in one that is not tracked, is passed over.
pub open spec fn handled(
    before: Map<(u64, u64), Model>,
    after: Map<(u64, u64), Model>,
    result: Result<NotifierAction, PingError>,
    message: InboundMessage,
    allowed_servers: Map<u64, ServerConfig>,
    community_roles: Map<u64, RoleDescriptor>,
    bot_id: u64,
    ping_responses: Seq<String>,
) -> bool {
    match message.guild_id {
        None => passed_over(before, after, result),
        Some(guild_id) => if !allowed_servers.contains_key(guild_id) {
            passed_over(before, after, result)
        } else if regex_accepts(role_mention_pattern()) {
            handled_in_community(
                before,
                after,
                result,
                allowed_servers[guild_id].log_channel,
                guild_id,
                message,
                community_roles,
                bot_id,
                ping_responses,
            )
        } else {
            failed_with(before, after, result, PingError::PatternRejected)
        },
    }
}

/// Handles one inbound message: classifies it, merges its tally into the author's
/// counters, and decides what to tell the presentation side.
///
/// A message outside the tracked communities, and one without mentions, leaves the
/// counters as they were and calls for nothing. The history for a notice is read
/// before the merge. Where the merge fails, the counters stay as they were. The
/// configuration is never changed.
pub fn ping_listener(
    pingchu: &mut Pingchu,
    community_roles: &HashMap<u64, RoleDescriptor>,
    bot_id: u64,
    message: &InboundMessage,
) -> (result: Result<NotifierAction, PingError>)
    ensures
        final(pingchu).config == old(pingchu).config,
        handled(
            old(pingchu).database@,
            final(pingchu).database@,
            result,
            *message,
            old(pingchu).config.allowed_servers@,
            community_roles@,
            bot_id,
            old(pingchu).config.ping_responses@,
        ),
{
    let ghost before = pingchu.database@;
    let plan = match plan_message(&pingchu.config, community_roles, message) {
        Ok(Some(plan)) => plan,
        Ok(None) => {
            return Ok(NotifierAction::Nothing);
        },
        Err(error) => {
            return Err(error);
        },
    };
    let recorded = everyone_ping_history(pingchu, plan.guild_id, message.author_id);
    let history = if plan.needs_history {
        Some(recorded)
    } else {
        None
    };
    proof {
        if before.contains_key((plan.guild_id, message.author_id)) {
            lemma_conflict_updates_reconcile(
                before[(plan.guild_id, message.author_id)],
                message.timestamp,
                plan.tally,
                plan.statement.row.pings,
            );
        }
    }
    match pingchu.database.execute(&plan.statement) {
        Err(error) => Err(error),
        Ok(outcome) => {
            let action = conclude(
                plan.log_channel,
                plan.guild_id,
                message,
                history,
                plan.statement.row.pings,
                bot_id,
                &pingchu.config.ping_responses,
            );
            assert(is_history(recorded, before, plan.guild_id, message.author_id));
            Ok(action)
        },
    }
}

} // verus!
