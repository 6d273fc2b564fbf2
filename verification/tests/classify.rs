use std::collections::HashMap;

use pingchu::classify::classify;
use pingchu::roles::{resolve, PermissionVerdict, RoleDescriptor};
use pingchu::tally::MentionTally;
use pingchu::text::{chars_of, contains_literal};
use pingchu::tokens::{parse_role_token, role_mention_tokens};

const GUILD: u64 = 900;

fn role(mention_everyone: bool, administrator: bool, mentionable: bool) -> RoleDescriptor {
    RoleDescriptor { mention_everyone, administrator, mentionable }
}

fn strings(items: &[&str]) -> Vec<String> {
    items.iter().map(|s| s.to_string()).collect()
}

fn allowed() -> PermissionVerdict {
    PermissionVerdict { can_broadcast: true }
}

fn denied() -> PermissionVerdict {
    PermissionVerdict { can_broadcast: false }
}

#[test]
fn role_grants_broadcast_by_either_permission() {
    assert!(role(true, false, false).grants_broadcast());
    assert!(role(false, true, false).grants_broadcast());
    assert!(role(true, true, true).grants_broadcast());
    assert!(!role(false, false, true).grants_broadcast());
}

#[test]
fn resolve_finds_capability_among_assigned_roles() {
    let mut roles = HashMap::new();
    roles.insert(1, role(false, false, true));
    roles.insert(2, role(true, false, false));
    assert!(resolve(&vec![1, 2], &roles, GUILD).can_broadcast);
    assert!(!resolve(&vec![1], &roles, GUILD).can_broadcast);
    assert!(!resolve(&vec![], &roles, GUILD).can_broadcast);
}

#[test]
fn resolve_counts_the_implicit_everyone_role() {
    let mut roles = HashMap::new();
    roles.insert(GUILD, role(false, true, false));
    roles.insert(1, role(false, false, true));
    assert!(resolve(&vec![], &roles, GUILD).can_broadcast);
    assert!(resolve(&vec![1], &roles, GUILD).can_broadcast);
    assert!(!resolve(&vec![1], &roles, GUILD + 1).can_broadcast);
}

#[test]
fn resolve_ignores_roles_without_definition() {
    let mut roles = HashMap::new();
    roles.insert(1, role(false, false, true));
    assert!(!resolve(&vec![7, 8, 9], &roles, GUILD).can_broadcast);
    assert!(!resolve(&vec![7], &HashMap::new(), GUILD).can_broadcast);
}

#[test]
fn chars_of_keeps_every_character() {
    assert_eq!(chars_of(""), Vec::<char>::new());
    assert_eq!(chars_of("a@é"), vec!['a', '@', 'é']);
}

#[test]
fn contains_literal_is_exact() {
    let needle = chars_of("@everyone");
    assert!(contains_literal(&chars_of("hey @everyone!"), &needle));
    assert!(contains_literal(&chars_of("@everyone"), &needle));
    assert!(contains_literal(&chars_of("@@everyoneeee"), &needle));
    assert!(!contains_literal(&chars_of("@Everyone"), &needle));
    assert!(!contains_literal(&chars_of("@every one"), &needle));
    assert!(!contains_literal(&chars_of("@everyon"), &needle));
    assert!(!contains_literal(&chars_of("@\u{200B}everyone"), &needle));
    assert!(!contains_literal(&chars_of(""), &needle));
    assert!(contains_literal(&chars_of("abc"), &chars_of("")));
    assert!(contains_literal(&chars_of(""), &chars_of("")));
}

#[test]
fn role_mention_tokens_finds_each_occurrence_in_order() {
    let found = role_mention_tokens("hi <@&1> and <@&22>, again <@&1>!").unwrap();
    assert_eq!(found, strings(&["<@&1>", "<@&22>", "<@&1>"]));
}

#[test]
fn role_mention_tokens_passes_over_other_mentions() {
    assert_eq!(role_mention_tokens("<@123> <#5> @everyone <@&x>"), Some(Vec::new()));
    assert_eq!(role_mention_tokens(""), Some(Vec::new()));
    assert_eq!(role_mention_tokens("<@&>"), Some(strings(&["<@&>"])));
    assert_eq!(role_mention_tokens("<@&12<@&34>"), Some(strings(&["<@&34>"])));
}

#[test]
fn parse_role_token_reads_the_number() {
    assert_eq!(parse_role_token("<@&123>"), Some(123));
    assert_eq!(parse_role_token("<@&0>"), Some(0));
    assert_eq!(parse_role_token("<@&007>"), Some(7));
    assert_eq!(parse_role_token("<@&18446744073709551615>"), Some(u64::MAX));
}

#[test]
fn parse_role_token_rejects_malformed_tokens() {
    assert_eq!(parse_role_token("<@&18446744073709551616>"), None);
    assert_eq!(parse_role_token("<@&99999999999999999999999>"), None);
    assert_eq!(parse_role_token("<@&>"), None);
    assert_eq!(parse_role_token("<@&12a>"), None);
    assert_eq!(parse_role_token("<@&+12>"), None);
    assert_eq!(parse_role_token("<@&١٢>"), None);
    assert_eq!(parse_role_token("<@123>"), None);
    assert_eq!(parse_role_token("<@&123"), None);
    assert_eq!(parse_role_token("123"), None);
    assert_eq!(parse_role_token(""), None);
}

#[test]
fn tally_total_adds_all_four_categories() {
    let tally = MentionTally {
        user_mentions: 3,
        role_mentions: 2,
        everyone_fired: true,
        online_fired: true,
    };
    assert_eq!(tally.total(), 7);
    let none = MentionTally {
        user_mentions: 0,
        role_mentions: 0,
        everyone_fired: false,
        online_fired: false,
    };
    assert_eq!(none.total(), 0);
    let most = MentionTally {
        user_mentions: usize::MAX,
        role_mentions: usize::MAX,
        everyone_fired: true,
        online_fired: false,
    };
    assert_eq!(most.total(), 2 * (usize::MAX as u128) + 1);
}

#[test]
fn classify_counts_user_mentions_as_reported() {
    let tally = classify("hello", &vec![5, 5, 6], &Vec::new(), denied(), &HashMap::new());
    assert_eq!(tally.user_mentions, 3);
    assert_eq!(tally.role_mentions, 0);
    assert_eq!(tally.total(), 3);
}

#[test]
fn classify_gates_broadcasts_by_permission() {
    let text = "@everyone and @here, listen";
    let tally = classify(text, &Vec::new(), &Vec::new(), denied(), &HashMap::new());
    assert!(!tally.everyone_fired);
    assert!(!tally.online_fired);
    assert_eq!(tally.total(), 0);
    let tally = classify(text, &Vec::new(), &Vec::new(), allowed(), &HashMap::new());
    assert!(tally.everyone_fired);
    assert!(tally.online_fired);
    assert_eq!(tally.total(), 2);
}

#[test]
fn classify_fires_each_broadcast_on_its_own_literal() {
    let tally = classify("@here only", &Vec::new(), &Vec::new(), allowed(), &HashMap::new());
    assert!(!tally.everyone_fired);
    assert!(tally.online_fired);
    let tally = classify("@everyone only", &Vec::new(), &Vec::new(), allowed(), &HashMap::new());
    assert!(tally.everyone_fired);
    assert!(!tally.online_fired);
    let tally = classify("@EVERYONE @Here", &Vec::new(), &Vec::new(), allowed(), &HashMap::new());
    assert!(!tally.everyone_fired);
    assert!(!tally.online_fired);
}

#[test]
fn classify_counts_a_repeated_role_token_once() {
    let mut roles = HashMap::new();
    roles.insert(123, role(false, false, true));
    let text = "<@&123> <@&123>";
    let tokens = role_mention_tokens(text).unwrap();
    assert_eq!(tokens.len(), 2);
    let tally = classify(text, &Vec::new(), &tokens, denied(), &roles);
    assert_eq!(tally.role_mentions, 1);
    assert_eq!(tally.total(), 1);
}

#[test]
fn classify_counts_roles_by_identifier_without_permission() {
    let mut roles = HashMap::new();
    roles.insert(7, role(false, false, true));
    roles.insert(8, role(false, false, false));
    roles.insert(9, role(false, false, true));
    let tokens = strings(&["<@&7>", "<@&007>", "<@&8>", "<@&9>", "<@&10>", "<@&>", "junk"]);
    let tally = classify("", &Vec::new(), &tokens, denied(), &roles);
    assert_eq!(tally.role_mentions, 2);
}

#[test]
fn classify_counts_distinct_tokens_with_permission() {
    let mut roles = HashMap::new();
    roles.insert(7, role(false, false, true));
    let tokens = strings(&["<@&7>", "<@&007>", "<@&8>", "<@&7>", "<@&>", "<@&8>"]);
    let tally = classify("", &Vec::new(), &tokens, allowed(), &roles);
    assert_eq!(tally.role_mentions, 4);
}

#[test]
fn classify_yields_zero_for_a_plain_message() {
    let mut roles = HashMap::new();
    roles.insert(GUILD, role(true, true, true));
    let text = "just chatting, nobody pinged";
    let tokens = role_mention_tokens(text).unwrap();
    for verdict in [allowed(), denied()] {
        let tally = classify(text, &Vec::new(), &tokens, verdict, &roles);
        assert_eq!(
            tally,
            MentionTally {
                user_mentions: 0,
                role_mentions: 0,
                everyone_fired: false,
                online_fired: false,
            }
        );
        assert_eq!(tally.total(), 0);
    }
}
