//! The mention classifier: from one message to its tally.

use std::collections::HashMap;
use vstd::prelude::*;
use vstd::std_specs::hash::*;
use crate::roles::{PermissionVerdict, RoleDescriptor};
use crate::tally::MentionTally;
use crate::text::{chars_of, contains_literal, occurs_in};
use crate::tokens::{parse_role_token, token_role_id, views};

verus! {

/// The literal that broadcasts to everyone.
pub open spec fn everyone_trigger() -> Seq<char> {
    "@everyone"@
}

/// The literal that broadcasts to the members who are online.
pub open spec fn online_trigger() -> Seq<char> {
    "@here"@
}

/// Role `role_id` is defined and ordinary members may mention it.
pub open spec fn is_mentionable(community_roles: Map<u64, RoleDescriptor>, role_id: u64) -> bool {
    community_roles.contains_key(role_id) && community_roles[role_id].mentionable
}

/// Some token of the list names role `role_id`.
pub open spec fn names_role(tokens: Seq<Seq<char>>, role_id: u64) -> bool {
    exists|k: int| 0 <= k < tokens.len() && #[trigger] token_role_id(tokens[k]) == Some(role_id)
}

/// The mentionable roles that the tokens name.
pub open spec fn resolved_roles(
    tokens: Seq<Seq<char>>,
    community_roles: Map<u64, RoleDescriptor>,
) -> Set<u64> {
    Set::new(|role_id: u64| is_mentionable(community_roles, role_id) && names_role(tokens, role_id))
}

/// How many role mentions count. With the broadcast capability every distinct token
/// counts, whatever it names; without it, every distinct mentionable role that a token
/// names.
pub open spec fn role_mention_count(
    tokens: Seq<Seq<char>>,
    can_broadcast: bool,
    community_roles: Map<u64, RoleDescriptor>,
) -> nat {
    if can_broadcast {
        tokens.to_set().len()
    } else {
        resolved_roles(tokens, community_roles).len()
    }
}

/// A broadcast fires when the author has the capability and the text holds the literal.
pub open spec fn broadcast_fires(text: Seq<char>, can_broadcast: bool, trigger: Seq<char>) -> bool {
    can_broadcast && occurs_in(text, trigger)
}

/// The total of the tally of a message.
pub open spec fn message_total(
    text: Seq<char>,
    mentioned_user_ids: Seq<u64>,
    tokens: Seq<Seq<char>>,
    can_broadcast: bool,
    community_roles: Map<u64, RoleDescriptor>,
) -> nat {
    mentioned_user_ids.len() + role_mention_count(tokens, can_broadcast, community_roles) + (if broadcast_fires(
        text,
        can_broadcast,
        everyone_trigger(),
    ) {
        1nat
    } else {
        0nat
    }) + (if broadcast_fires(text, can_broadcast, online_trigger()) {
        1nat
    } else {
        0nat
    })
}

/// Appending an item that a duplicate-free list lacks keeps the list duplicate-free.
proof fn lemma_push_fresh<A>(items: Seq<A>, item: A)
    requires
        items.no_duplicates(),
        !items.contains(item),
    ensures
        items.push(item).no_duplicates(),
{
    assert forall|i: int, j: int|
        0 <= i < items.push(item).len() && 0 <= j < items.push(item).len() && i != j implies items.push(
        item,
    )[i] != items.push(item)[j] by {
        if i < items.len() && j < items.len() {
        } else if i < items.len() {
            assert(items.contains(items[i]));
        } else {
            assert(items.contains(items[j]));
        }
    }
}

/// The set of a prefix grows by exactly the next item.
proof fn lemma_take_to_set_step<A>(items: Seq<A>, i: int)
    requires
        0 <= i < items.len(),
    ensures
        items.take(i + 1).to_set() == items.take(i).to_set().insert(items[i]),
{
    assert(items.take(i + 1) =~= items.take(i).push(items[i]));
    items.take(i).lemma_push_to_set_commute(items[i]);
}

/// The roles resolved from a prefix grow by the role that the next token names, if it
/// names a mentionable one.
proof fn lemma_resolved_roles_step(
    tokens: Seq<Seq<char>>,
    community_roles: Map<u64, RoleDescriptor>,
    i: int,
)
    requires
        0 <= i < tokens.len(),
    ensures
        resolved_roles(tokens.take(i + 1), community_roles) == (match token_role_id(tokens[i]) {
            Some(role_id) => if is_mentionable(community_roles, role_id) {
                resolved_roles(tokens.take(i), community_roles).insert(role_id)
            } else {
                resolved_roles(tokens.take(i), community_roles)
            },
            None => resolved_roles(tokens.take(i), community_roles),
        }),
{
    let before = resolved_roles(tokens.take(i), community_roles);
    let after = resolved_roles(tokens.take(i + 1), community_roles);
    let expected = match token_role_id(tokens[i]) {
        Some(role_id) => if is_mentionable(community_roles, role_id) {
            before.insert(role_id)
        } else {
            before
        },
        None => before,
    };
    assert forall|role_id: u64| after.contains(role_id) implies expected.contains(role_id) by {
        let k = choose|k: int|
            0 <= k < tokens.take(i + 1).len() && #[trigger] token_role_id(tokens.take(i + 1)[k]) == Some(
                role_id,
            );
        if k < i {
            assert(token_role_id(tokens.take(i)[k]) == Some(role_id));
        }
    }
    assert forall|role_id: u64| expected.contains(role_id) implies after.contains(role_id) by {
        if before.contains(role_id) {
            let k = choose|k: int|
                0 <= k < tokens.take(i).len() && #[trigger] token_role_id(tokens.take(i)[k]) == Some(
                    role_id,
                );
            assert(token_role_id(tokens.take(i + 1)[k]) == Some(role_id));
        } else {
            assert(token_role_id(tokens.take(i + 1)[i]) == Some(role_id));
        }
    }
    assert(after =~= expected);
}

/// Counts the distinct strings of a list.
fn count_distinct(tokens: &Vec<String>) -> (count: usize)
    ensures
        count == views(tokens@).to_set().len(),
{
    let ghost all = views(tokens@);
    let mut firsts: Vec<usize> = Vec::new();
    let ghost mut distinct: Seq<Seq<char>> = Seq::empty();
    let mut i: usize = 0;
    assert(all.take(0).to_set() =~= distinct.to_set());
    while i < tokens.len()
        invariant
            all == views(tokens@),
            i <= tokens@.len(),
            firsts@.len() == distinct.len(),
            firsts@.len() <= i,
            forall|k: int|
                #![trigger firsts@[k]]
                0 <= k < firsts@.len() ==> firsts@[k] < tokens@.len() && tokens@[firsts@[k] as int]@
                    == distinct[k],
            distinct.no_duplicates(),
            distinct.to_set() == all.take(i as int).to_set(),
        decreases tokens@.len() - i,
    {
        let mut k: usize = 0;
        let mut found: bool = false;
        while k < firsts.len() && !found
            invariant
                i < tokens@.len(),
                k <= firsts@.len(),
                firsts@.len() == distinct.len(),
                forall|j: int|
                    #![trigger firsts@[j]]
                    0 <= j < firsts@.len() ==> firsts@[j] < tokens@.len() && tokens@[firsts@[j] as int]@
                        == distinct[j],
                found ==> distinct.contains(tokens@[i as int]@),
                !found ==> forall|j: int| 0 <= j < k ==> distinct[j] != tokens@[i as int]@,
            decreases firsts@.len() - k + (if found { 0int } else { 1int }),
        {
            if tokens[firsts[k]] == tokens[i] {
                assert(distinct[k as int] == tokens@[i as int]@);
                found = true;
            } else {
                k = k + 1;
            }
        }
        proof {
            lemma_take_to_set_step(all, i as int);
            assert(all[i as int] == tokens@[i as int]@);
            if !found {
                lemma_push_fresh(distinct, all[i as int]);
                distinct.lemma_push_to_set_commute(all[i as int]);
                distinct = distinct.push(all[i as int]);
            } else {
                assert(distinct.to_set().contains(all[i as int]));
                assert(distinct.to_set().insert(all[i as int]) =~= distinct.to_set());
            }
        }
        if !found {
            firsts.push(i);
        }
        i = i + 1;
    }
    proof {
        assert(all.take(i as int) =~= all);
        distinct.unique_seq_to_set();
    }
    firsts.len()
}

/// Counts the distinct mentionable roles that the tokens name.
fn count_resolved(tokens: &Vec<String>, community_roles: &HashMap<u64, RoleDescriptor>) -> (count:
    usize)
    ensures
        count == resolved_roles(views(tokens@), community_roles@).len(),
{
    broadcast use group_hash_axioms;

    let ghost all = views(tokens@);
    let mut roles: Vec<u64> = Vec::new();
    let mut i: usize = 0;
    assert(resolved_roles(all.take(0), community_roles@) =~= roles@.to_set());
    while i < tokens.len()
        invariant
            all == views(tokens@),
            i <= tokens@.len(),
            roles@.len() <= i,
            roles@.no_duplicates(),
            roles@.to_set() == resolved_roles(all.take(i as int), community_roles@),
        decreases tokens@.len() - i,
    {
        proof {
            lemma_resolved_roles_step(all, community_roles@, i as int);
            assert(all[i as int] == tokens@[i as int]@);
        }
        let parsed = parse_role_token(tokens[i].as_str());
        if let Some(role_id) = parsed {
            let mentionable = match community_roles.get(&role_id) {
                Some(role) => role.mentionable,
                None => false,
            };
            assert(mentionable == is_mentionable(community_roles@, role_id));
            if mentionable {
                let mut k: usize = 0;
                let mut found: bool = false;
                while k < roles.len() && !found
                    invariant
                        k <= roles@.len(),
                        found ==> roles@.contains(role_id),
                        !found ==> forall|j: int| 0 <= j < k ==> roles@[j] != role_id,
                    decreases roles@.len() - k + (if found { 0int } else { 1int }),
                {
                    if roles[k] == role_id {
                        found = true;
                    } else {
                        k = k + 1;
                    }
                }
                if !found {
                    proof {
                        lemma_push_fresh(roles@, role_id);
                        roles@.lemma_push_to_set_commute(role_id);
                    }
                    roles.push(role_id);
                } else {
                    assert(roles@.to_set().contains(role_id));
                    assert(roles@.to_set().insert(role_id) =~= roles@.to_set());
                }
            }
        }
        i = i + 1;
    }
    proof {
        assert(all.take(i as int) =~= all);
        roles@.unique_seq_to_set();
    }
    roles.len()
}

/// Classifies one message: how many mentions of each category it fired for its author.
///
/// `mentioned_user_ids` is the platform's own list and is counted as it stands, repeats
/// included. `role_mention_tokens` are the raw role-mention substrings of the text. A
/// token that names no role is passed over.
pub fn classify(
    message_text: &str,
    mentioned_user_ids: &Vec<u64>,
    role_mention_tokens: &Vec<String>,
    verdict: PermissionVerdict,
    community_roles: &HashMap<u64, RoleDescriptor>,
) -> (tally: MentionTally)
    ensures
        tally.user_mentions == mentioned_user_ids@.len(),
        tally.role_mentions == role_mention_count(
            views(role_mention_tokens@),
            verdict.can_broadcast,
            community_roles@,
        ),
        tally.everyone_fired == broadcast_fires(
            message_text@,
            verdict.can_broadcast,
            everyone_trigger(),
        ),
        tally.online_fired == broadcast_fires(message_text@, verdict.can_broadcast, online_trigger()),
        tally.total_spec() == message_total(
            message_text@,
            mentioned_user_ids@,
            views(role_mention_tokens@),
            verdict.can_broadcast,
            community_roles@,
        ),
        !verdict.can_broadcast ==> !tally.everyone_fired && !tally.online_fired,
{
    let user_mentions = mentioned_user_ids.len();
    let role_mentions = if verdict.can_broadcast {
        count_distinct(role_mention_tokens)
    } else {
        count_resolved(role_mention_tokens, community_roles)
    };
    let mut everyone_fired = false;
    let mut online_fired = false;
    if verdict.can_broadcast {
        let text = chars_of(message_text);
        let everyone = chars_of("@everyone");
        let online = chars_of("@here");
        everyone_fired = contains_literal(&text, &everyone);
        online_fired = contains_literal(&text, &online);
    }
    MentionTally { user_mentions, role_mentions, everyone_fired, online_fired }
}

/// Without the broadcast capability no broadcast fires, whatever the text holds, and
/// the tally's total is made of user and role mentions alone.
pub proof fn lemma_permission_gating(
    text: Seq<char>,
    mentioned_user_ids: Seq<u64>,
    tokens: Seq<Seq<char>>,
    community_roles: Map<u64, RoleDescriptor>,
)
    ensures
        !broadcast_fires(text, false, everyone_trigger()),
        !broadcast_fires(text, false, online_trigger()),
        message_total(text, mentioned_user_ids, tokens, false, community_roles)
            == mentioned_user_ids.len() + resolved_roles(tokens, community_roles).len(),
{
}

/// Repeating a token adds nothing to the count of role mentions.
pub proof fn lemma_repeated_token_adds_nothing(
    tokens: Seq<Seq<char>>,
    at: int,
    can_broadcast: bool,
    community_roles: Map<u64, RoleDescriptor>,
)
    requires
        0 <= at < tokens.len(),
    ensures
        role_mention_count(tokens.push(tokens[at]), can_broadcast, community_roles)
            == role_mention_count(tokens, can_broadcast, community_roles),
{
    let more = tokens.push(tokens[at]);
    tokens.lemma_push_to_set_commute(tokens[at]);
    assert(tokens.to_set().contains(tokens[at]));
    assert(tokens.to_set().insert(tokens[at]) =~= tokens.to_set());
    assert(more.take(tokens.len() as int) =~= tokens);
    lemma_resolved_roles_step(more, community_roles, tokens.len() as int);
    assert(more.take(tokens.len() as int + 1) =~= more);
    if token_role_id(tokens[at]) is Some {
        let role_id = token_role_id(tokens[at])->0;
        if is_mentionable(community_roles, role_id) {
            assert(names_role(tokens, role_id));
            assert(resolved_roles(tokens, community_roles).insert(role_id) =~= resolved_roles(
                tokens,
                community_roles,
            ));
        }
    }
}

/// For a member without the broadcast capability, a token that names a mentionable
/// role counts once, however often the message repeats it.
pub proof fn lemma_same_token_counts_once(
    tokens: Seq<Seq<char>>,
    role_id: u64,
    community_roles: Map<u64, RoleDescriptor>,
)
    requires
        tokens.len() > 0,
        forall|k: int| 0 <= k < tokens.len() ==> #[trigger] tokens[k] == tokens[0],
        token_role_id(tokens[0]) == Some(role_id),
        is_mentionable(community_roles, role_id),
    ensures
        role_mention_count(tokens, false, community_roles) == 1,
{
    let resolved = resolved_roles(tokens, community_roles);
    assert(names_role(tokens, role_id));
    assert forall|other: u64| resolved.contains(other) implies other == role_id by {
        let k = choose|k: int| 0 <= k < tokens.len() && #[trigger] token_role_id(tokens[k]) == Some(
            other,
        );
        assert(tokens[k] == tokens[0]);
    }
    assert(resolved =~= set![role_id]);
}

/// A message that mentions no user and holds no role-mention token and neither
/// trigger has a total of zero, whoever wrote it.
pub proof fn lemma_silent_message_totals_zero(
    text: Seq<char>,
    can_broadcast: bool,
    community_roles: Map<u64, RoleDescriptor>,
)
    requires
        !occurs_in(text, everyone_trigger()),
        !occurs_in(text, online_trigger()),
    ensures
        message_total(text, Seq::empty(), Seq::empty(), can_broadcast, community_roles) == 0,
{
    let none = Seq::<Seq<char>>::empty();
    assert(none.to_set() =~= Set::empty());
    assert(resolved_roles(none, community_roles) =~= Set::empty());
}

} // verus!
