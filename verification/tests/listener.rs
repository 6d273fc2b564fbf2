use std::collections::HashMap;

use pingchu::config::{ActivityType, PingchuConfig, ServerConfig};
use pingchu::data::guild_ping::Model;
use pingchu::data::CounterStore;
use pingchu::error::PingError;
use pingchu::data::guild_ping::{ColumnUpdate, Upsert};
use pingchu::ping::{
    classify_message, conclude, everyone_ping_history, final_action, history_from_rows,
    member_ping_info, mentions_user, message_excerpt, ping_listener, plan_message,
    EveryonePingHistory, InboundMessage, MessagePlan, NotifierAction, EXCERPT_GRAPHEMES,
};
use pingchu::roles::RoleDescriptor;
use pingchu::tally::MentionTally;
use pingchu::Pingchu;

const GUILD: u64 = 900;
const MEMBER: u64 = 42;
const BOT: u64 = 1;
const ADMIN_ROLE: u64 = 10;
const PLAIN_ROLE: u64 = 11;
const HIDDEN_ROLE: u64 = 12;
const LOG: u64 = 5000;
const T: i64 = 1_660_000_000_000;

fn pingchu(ping_responses: Vec<String>) -> Pingchu {
    let mut allowed_servers = HashMap::new();
    allowed_servers.insert(GUILD, ServerConfig { log_channel: LOG });
    Pingchu {
        config: PingchuConfig {
            status: "red bubbles".to_string(),
            status_type: ActivityType::Watching,
            allowed_servers,
            ping_responses,
        },
        database: CounterStore::new(),
    }
}

fn roles() -> HashMap<u64, RoleDescriptor> {
    let mut roles = HashMap::new();
    roles.insert(
        GUILD,
        RoleDescriptor { mention_everyone: false, administrator: false, mentionable: false },
    );
    roles.insert(
        ADMIN_ROLE,
        RoleDescriptor { mention_everyone: true, administrator: false, mentionable: false },
    );
    roles.insert(
        PLAIN_ROLE,
        RoleDescriptor { mention_everyone: false, administrator: false, mentionable: true },
    );
    roles.insert(
        HIDDEN_ROLE,
        RoleDescriptor { mention_everyone: false, administrator: false, mentionable: false },
    );
    roles
}

fn message(author_roles: Vec<u64>, content: &str, mentions: Vec<u64>, timestamp: i64) -> InboundMessage {
    InboundMessage {
        guild_id: Some(GUILD),
        author_id: MEMBER,
        author_roles,
        content: content.to_string(),
        mentions,
        timestamp,
    }
}

fn responses() -> Vec<String> {
    vec!["Hello!".to_string(), "why ping".to_string(), "beep boop".to_string()]
}

#[test]
fn classify_message_follows_the_scenario() {
    let first = message(vec![ADMIN_ROLE], "@everyone look at <@7>", vec![7], T);
    assert_eq!(
        classify_message(&first, GUILD, &roles()),
        Ok(MentionTally {
            user_mentions: 1,
            role_mentions: 0,
            everyone_fired: true,
            online_fired: false,
        })
    );
    let second = message(vec![], "ping <@&11>", vec![], T + 10_000);
    assert_eq!(
        classify_message(&second, GUILD, &roles()),
        Ok(MentionTally {
            user_mentions: 0,
            role_mentions: 1,
            everyone_fired: false,
            online_fired: false,
        })
    );
}

#[test]
fn classify_message_resolves_roles_for_members_without_permission() {
    let text = "<@&11> <@&12> <@&11> <@&13> <@&011>";
    let plain = message(vec![PLAIN_ROLE], text, vec![], T);
    assert_eq!(classify_message(&plain, GUILD, &roles()).unwrap().role_mentions, 1);
    let admin = message(vec![PLAIN_ROLE, ADMIN_ROLE], text, vec![], T);
    assert_eq!(classify_message(&admin, GUILD, &roles()).unwrap().role_mentions, 4);
}

#[test]
fn listener_follows_the_two_message_scenario() {
    let mut bot = pingchu(responses());
    let first = message(vec![ADMIN_ROLE], "@everyone look at <@7>", vec![7], T);
    let action = ping_listener(&mut bot, &roles(), BOT, &first);
    assert_eq!(
        action,
        Ok(NotifierAction::NotifyBroadcast {
            log_channel: LOG,
            guild_id: GUILD,
            author_id: MEMBER,
            excerpt: "@everyone look at <@7>".to_string(),
            timestamp: T,
            last_global: None,
            last_member: None,
            total_pings: 2,
        })
    );
    assert_eq!(
        member_ping_info(&bot, GUILD, MEMBER),
        Some(Model {
            guild_id: GUILD,
            user_id: MEMBER,
            last_everyone_ping: Some(T),
            last_here_ping: None,
            last_role_ping: None,
            last_user_ping: Some(T),
            pings: 2,
        })
    );
    let second = message(vec![], "ping <@&11>", vec![], T + 10_000);
    let action = ping_listener(&mut bot, &roles(), BOT, &second);
    assert_eq!(action, Ok(NotifierAction::Nothing));
    assert_eq!(
        member_ping_info(&bot, GUILD, MEMBER),
        Some(Model {
            guild_id: GUILD,
            user_id: MEMBER,
            last_everyone_ping: Some(T),
            last_here_ping: None,
            last_role_ping: Some(T + 10_000),
            last_user_ping: Some(T),
            pings: 3,
        })
    );
}

#[test]
fn listener_reports_the_state_before_the_merge() {
    let mut bot = pingchu(responses());
    let admin = vec![ADMIN_ROLE];
    let other = InboundMessage {
        guild_id: Some(GUILD),
        author_id: MEMBER + 1,
        author_roles: admin.clone(),
        content: "@everyone first".to_string(),
        mentions: vec![],
        timestamp: T,
    };
    ping_listener(&mut bot, &roles(), BOT, &other).unwrap();
    let mine = message(admin.clone(), "@everyone @here <@5> <@6>", vec![5, 6], T + 100);
    let action = ping_listener(&mut bot, &roles(), BOT, &mine).unwrap();
    assert_eq!(
        action,
        NotifierAction::NotifyBroadcast {
            log_channel: LOG,
            guild_id: GUILD,
            author_id: MEMBER,
            excerpt: "@everyone @here <@5> <@6>".to_string(),
            timestamp: T + 100,
            last_global: Some(T),
            last_member: None,
            total_pings: 4,
        }
    );
    let again = message(admin, "@everyone again", vec![], T + 200);
    let action = ping_listener(&mut bot, &roles(), BOT, &again).unwrap();
    assert_eq!(
        action,
        NotifierAction::NotifyBroadcast {
            log_channel: LOG,
            guild_id: GUILD,
            author_id: MEMBER,
            excerpt: "@everyone again".to_string(),
            timestamp: T + 200,
            last_global: Some(T + 100),
            last_member: Some(T + 100),
            total_pings: 5,
        }
    );
}

#[test]
fn listener_passes_over_a_message_without_mentions() {
    let mut bot = pingchu(responses());
    let quiet = message(vec![ADMIN_ROLE], "nothing to see", vec![], T);
    assert_eq!(
        ping_listener(&mut bot, &roles(), BOT, &quiet),
        Ok(NotifierAction::Nothing)
    );
    assert_eq!(bot.database.len(), 0);
    let gated = message(vec![PLAIN_ROLE], "@everyone @here <@&12>", vec![], T);
    assert_eq!(
        ping_listener(&mut bot, &roles(), BOT, &gated),
        Ok(NotifierAction::Nothing)
    );
    assert_eq!(bot.database.len(), 0);
    assert_eq!(member_ping_info(&bot, GUILD, MEMBER), None);
}

#[test]
fn listener_ignores_messages_outside_a_community() {
    let mut bot = pingchu(responses());
    let direct = InboundMessage {
        guild_id: None,
        author_id: MEMBER,
        author_roles: vec![ADMIN_ROLE],
        content: "@everyone <@1>".to_string(),
        mentions: vec![BOT],
        timestamp: T,
    };
    assert_eq!(
        ping_listener(&mut bot, &roles(), BOT, &direct),
        Ok(NotifierAction::Nothing)
    );
    assert_eq!(bot.database.len(), 0);
}

#[test]
fn listener_ignores_communities_that_are_not_tracked() {
    let mut bot = pingchu(responses());
    let elsewhere = InboundMessage {
        guild_id: Some(GUILD + 1),
        author_id: MEMBER,
        author_roles: vec![ADMIN_ROLE],
        content: "@everyone <@1>".to_string(),
        mentions: vec![BOT],
        timestamp: T,
    };
    assert_eq!(ping_listener(&mut bot, &roles(), BOT, &elsewhere), Ok(NotifierAction::Nothing));
    assert_eq!(bot.database.len(), 0);
    assert_eq!(bot.config.ping_responses, responses());
}

#[test]
fn listener_answers_when_the_bot_is_mentioned() {
    let mut bot = pingchu(responses());
    let hello = message(vec![], "hi <@1>", vec![BOT], T);
    for _ in 0..20 {
        match ping_listener(&mut bot, &roles(), BOT, &hello) {
            Ok(NotifierAction::AutoReply { text }) => assert!(responses().contains(&text)),
            other => panic!("expected an answer, got {:?}", other),
        }
    }
    assert_eq!(member_ping_info(&bot, GUILD, MEMBER).unwrap().pings, 20);
    bot.config.ping_responses = vec!["Did you just ping me?".to_string()];
    assert_eq!(
        ping_listener(&mut bot, &roles(), BOT, &hello),
        Ok(NotifierAction::AutoReply { text: "Did you just ping me?".to_string() })
    );
}

#[test]
fn listener_stays_silent_without_a_line_to_answer_with() {
    let mut bot = pingchu(Vec::new());
    let hello = message(vec![], "hi <@1>", vec![BOT], T);
    assert_eq!(
        ping_listener(&mut bot, &roles(), BOT, &hello),
        Ok(NotifierAction::Nothing)
    );
    assert_eq!(member_ping_info(&bot, GUILD, MEMBER).unwrap().pings, 1);
}

#[test]
fn listener_prefers_the_notice_over_the_answer() {
    let mut bot = pingchu(responses());
    let both = message(vec![ADMIN_ROLE], "@everyone <@1>", vec![BOT], T);
    let action = ping_listener(&mut bot, &roles(), BOT, &both).unwrap();
    assert!(matches!(action, NotifierAction::NotifyBroadcast { total_pings: 2, .. }));
}

#[test]
fn listener_does_not_answer_mentions_of_others() {
    let mut bot = pingchu(responses());
    let other = message(vec![], "hi <@2>", vec![2], T);
    assert_eq!(
        ping_listener(&mut bot, &roles(), BOT, &other),
        Ok(NotifierAction::Nothing)
    );
    assert_eq!(member_ping_info(&bot, GUILD, MEMBER).unwrap().last_user_ping, Some(T));
}

#[test]
fn listener_leaves_the_store_alone_when_the_merge_fails() {
    let mut bot = pingchu(responses());
    let full = MentionTally {
        user_mentions: u32::MAX as usize,
        role_mentions: 0,
        everyone_fired: false,
        online_fired: false,
    };
    bot.database.reconcile(GUILD, MEMBER, T, &full).unwrap();
    let one_more = message(vec![ADMIN_ROLE], "@everyone", vec![], T + 1);
    assert_eq!(
        ping_listener(&mut bot, &roles(), BOT, &one_more),
        Err(PingError::StorageError)
    );
    let record = member_ping_info(&bot, GUILD, MEMBER).unwrap();
    assert_eq!(record.pings, u32::MAX);
    assert_eq!(record.last_everyone_ping, None);
}

#[test]
fn history_reads_community_and_member() {
    let mut bot = pingchu(responses());
    assert_eq!(
        everyone_ping_history(&bot, GUILD, MEMBER),
        EveryonePingHistory { last_global: None, last_member: None, pings: 0 }
    );
    let everyone = MentionTally {
        user_mentions: 2,
        role_mentions: 0,
        everyone_fired: true,
        online_fired: false,
    };
    let users = MentionTally {
        user_mentions: 1,
        role_mentions: 0,
        everyone_fired: false,
        online_fired: false,
    };
    bot.database.reconcile(GUILD, MEMBER + 1, T + 50, &everyone).unwrap();
    bot.database.reconcile(GUILD, MEMBER, T + 60, &users).unwrap();
    assert_eq!(
        everyone_ping_history(&bot, GUILD, MEMBER),
        EveryonePingHistory { last_global: Some(T + 50), last_member: None, pings: 1 }
    );
    bot.database.reconcile(GUILD, MEMBER, T + 20, &everyone).unwrap();
    assert_eq!(
        everyone_ping_history(&bot, GUILD, MEMBER),
        EveryonePingHistory { last_global: Some(T + 50), last_member: Some(T + 20), pings: 4 }
    );
    assert_eq!(
        everyone_ping_history(&bot, GUILD + 1, MEMBER),
        EveryonePingHistory { last_global: None, last_member: None, pings: 0 }
    );
}

#[test]
fn excerpt_keeps_short_messages_whole() {
    assert_eq!(message_excerpt(""), "");
    assert_eq!(message_excerpt("short"), "short");
    let exact: String = "x".repeat(EXCERPT_GRAPHEMES);
    assert_eq!(message_excerpt(&exact), exact);
}

#[test]
fn excerpt_cuts_after_one_hundred_graphemes() {
    let long: String = "abcdefghij".repeat(15);
    assert_eq!(message_excerpt(&long), "abcdefghij".repeat(10));
    let accented: String = "e\u{301}".repeat(130);
    assert_eq!(message_excerpt(&accented), "e\u{301}".repeat(100));
    let flags: String = "🇷🇺".repeat(101);
    assert_eq!(message_excerpt(&flags), "🇷🇺".repeat(100));
    let lines: String = "\r\n".repeat(120);
    assert_eq!(message_excerpt(&lines), "\r\n".repeat(100));
}

#[test]
fn mentions_user_looks_through_the_list() {
    assert!(mentions_user(&vec![3, BOT, 3], BOT));
    assert!(mentions_user(&vec![BOT], BOT));
    assert!(!mentions_user(&vec![3, 4], BOT));
    assert!(!mentions_user(&vec![], BOT));
}

#[test]
fn final_action_decides_from_what_it_is_given() {
    let hello = message(vec![], "hi <@1>", vec![BOT], T);
    let history = EveryonePingHistory { last_global: Some(5), last_member: Some(4), pings: u32::MAX };
    assert_eq!(
        final_action(LOG, GUILD, &hello, Some(history), u32::MAX, BOT, "hi".to_string(), None),
        NotifierAction::NotifyBroadcast {
            log_channel: LOG,
            guild_id: GUILD,
            author_id: MEMBER,
            excerpt: "hi".to_string(),
            timestamp: T,
            last_global: Some(5),
            last_member: Some(4),
            total_pings: 2 * (u32::MAX as u64),
        }
    );
    assert_eq!(
        final_action(LOG, GUILD, &hello, None, 1, BOT, String::new(), Some("Hai!".to_string())),
        NotifierAction::AutoReply { text: "Hai!".to_string() }
    );
    assert_eq!(
        final_action(LOG, GUILD, &hello, None, 1, BOT, String::new(), None),
        NotifierAction::Nothing
    );
    assert_eq!(
        final_action(LOG, GUILD, &hello, None, 1, BOT + 1, String::new(), Some("Hai!".to_string())),
        NotifierAction::Nothing
    );
}

#[test]
fn conclude_cuts_the_excerpt_for_a_notice() {
    let long: String = "@everyone ".repeat(20);
    let shout = message(vec![ADMIN_ROLE], &long, vec![], T);
    let history = EveryonePingHistory { last_global: None, last_member: None, pings: 3 };
    assert_eq!(
        conclude(LOG, GUILD, &shout, Some(history), 1, BOT, &responses()),
        NotifierAction::NotifyBroadcast {
            log_channel: LOG,
            guild_id: GUILD,
            author_id: MEMBER,
            excerpt: "@everyone ".repeat(10),
            timestamp: T,
            last_global: None,
            last_member: None,
            total_pings: 4,
        }
    );
}

#[test]
fn plan_holds_the_tally_and_the_statement() {
    let bot = pingchu(responses());
    let shout = message(vec![ADMIN_ROLE], "@everyone <@&12> <@7>", vec![7], T);
    let tally = MentionTally {
        user_mentions: 1,
        role_mentions: 1,
        everyone_fired: true,
        online_fired: false,
    };
    assert_eq!(
        plan_message(&bot.config, &roles(), &shout),
        Ok(Some(MessagePlan {
            log_channel: LOG,
            guild_id: GUILD,
            tally,
            statement: Upsert {
                row: Model {
                    guild_id: GUILD,
                    user_id: MEMBER,
                    last_everyone_ping: Some(T),
                    last_here_ping: None,
                    last_role_ping: Some(T),
                    last_user_ping: Some(T),
                    pings: 3,
                },
                on_conflict: vec![
                    ColumnUpdate::SetLastEveryonePing(T),
                    ColumnUpdate::SetLastRolePing(T),
                    ColumnUpdate::SetLastUserPing(T),
                    ColumnUpdate::AddPings(3),
                ],
            },
            needs_history: true,
        }))
    );
    let plain = message(vec![PLAIN_ROLE], "@everyone <@&12> <@&11>", vec![], T);
    let plan = plan_message(&bot.config, &roles(), &plain).unwrap().unwrap();
    assert!(!plan.needs_history);
    assert_eq!(plan.statement.row.pings, 1);
    assert_eq!(plan.statement.row.last_role_ping, Some(T));
    assert_eq!(plan.statement.row.last_everyone_ping, None);
}

#[test]
fn plan_is_empty_for_messages_that_do_not_count() {
    let bot = pingchu(responses());
    let quiet = message(vec![ADMIN_ROLE], "hello there", vec![], T);
    assert_eq!(plan_message(&bot.config, &roles(), &quiet), Ok(None));
    let mut elsewhere = message(vec![ADMIN_ROLE], "@everyone", vec![], T);
    elsewhere.guild_id = Some(GUILD + 1);
    assert_eq!(plan_message(&bot.config, &roles(), &elsewhere), Ok(None));
    elsewhere.guild_id = None;
    assert_eq!(plan_message(&bot.config, &roles(), &elsewhere), Ok(None));
}

#[test]
fn history_from_rows_takes_the_stamps_as_they_are() {
    let row = |user_id: u64, last_everyone_ping: Option<i64>, pings: u32| Model {
        guild_id: GUILD,
        user_id,
        last_everyone_ping,
        last_here_ping: Some(1),
        last_role_ping: Some(2),
        last_user_ping: Some(3),
        pings,
    };
    assert_eq!(
        history_from_rows(None, None),
        EveryonePingHistory { last_global: None, last_member: None, pings: 0 }
    );
    assert_eq!(
        history_from_rows(Some(row(7, None, 4)), None),
        EveryonePingHistory { last_global: None, last_member: None, pings: 0 }
    );
    assert_eq!(
        history_from_rows(Some(row(7, Some(T), 4)), Some(row(MEMBER, None, 9))),
        EveryonePingHistory { last_global: Some(T), last_member: None, pings: 9 }
    );
    assert_eq!(
        history_from_rows(Some(row(7, Some(T), 4)), Some(row(MEMBER, Some(T - 1), 9))),
        EveryonePingHistory { last_global: Some(T), last_member: Some(T - 1), pings: 9 }
    );
}
