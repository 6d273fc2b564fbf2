//! The counter store: one record per community and member, changed only by merging the
//! tally of a message into it.

pub mod guild_ping;

use vstd::prelude::*;
use vstd::seq_lib::{to_multiset_contains, to_multiset_len, to_multiset_remove};
use crate::data::guild_ping::{
    apply_update, apply_updates, key_of, lemma_conflict_updates_reconcile, prior_pings, reconciled,
    upsert_guild_ping, ColumnUpdate, Model, Upsert,
};
use crate::error::PingError;
use crate::tally::MentionTally;

verus! {

/// What a merge leaves behind for the notifier.
#[derive(Clone, Copy, Debug, PartialEq, Eq, Structural)]
pub struct ReconciliationOutcome {
    /// The member's pings after the merge.
    pub pings: u32,
    /// The merge created the member's record.
    pub created: bool,
}

/// What a store holds, as a map from (community, member) to the record.
pub type Records = Map<(u64, u64), Model>;

/// Every record is stored under its own key and counts at least one ping.
pub open spec fn well_formed(records: Records) -> bool {
    forall|key: (u64, u64)| #[trigger]
        records.contains_key(key) ==> key_of(records[key]) == key && records[key].pings > 0
}

/// What running a statement does to a store: the new contents, or the reason why
/// nothing was written.
pub open spec fn executed(records: Records, upsert: Upsert) -> Result<Records, PingError> {
    let key = key_of(upsert.row);
    if upsert.row.pings == 0 {
        Err(PingError::InvariantViolation)
    } else if !records.contains_key(key) {
        Ok(records.insert(key, upsert.row))
    } else {
        match apply_updates(records[key], upsert.on_conflict@) {
            Some(merged) => Ok(records.insert(key, merged)),
            None => Err(PingError::StorageError),
        }
    }
}

/// What merging the tally of one message does to a store: the new contents, or the
/// reason why nothing was written. A tally without mentions is refused, and so is one
/// that would take the member's counter out of its range.
pub open spec fn reconciled_store(
    records: Records,
    guild_id: u64,
    user_id: u64,
    timestamp: i64,
    tally: MentionTally,
) -> Result<Records, PingError> {
    let prior = records.get((guild_id, user_id));
    if tally.total_spec() == 0 {
        Err(PingError::InvariantViolation)
    } else if prior_pings(prior) + tally.total_spec() > u32::MAX {
        Err(PingError::StorageError)
    } else {
        Ok(records.insert((guild_id, user_id), reconciled(prior, guild_id, user_id, timestamp, tally)))
    }
}

/// Member `user_id` of community `guild_id` has a record whose last broadcast to
/// everyone was at `stamp`.
pub open spec fn holds_everyone_stamp(records: Records, guild_id: u64, user_id: u64, stamp: i64) -> bool {
    records.contains_key((guild_id, user_id)) && records[(guild_id, user_id)].last_everyone_ping
        == Some(stamp)
}

/// `latest` is the most recent broadcast to everyone in the community: the greatest
/// stamp that a record of the community holds, and `None` where none holds any.
pub open spec fn is_latest_everyone_ping(records: Records, guild_id: u64, latest: Option<i64>) -> bool {
    &&& latest matches Some(stamp) ==> exists|user_id: u64| #[trigger]
        holds_everyone_stamp(records, guild_id, user_id, stamp)
    &&& forall|user_id: u64, stamp: i64| #[trigger]
        holds_everyone_stamp(records, guild_id, user_id, stamp) ==> latest is Some && stamp
            <= latest->0
}

/// No two records of the list share a key.
spec fn distinct_keys(records: Seq<Model>) -> bool {
    forall|i: int, j: int|
        0 <= i < j < records.len() ==> key_of(#[trigger] records[i]) != key_of(#[trigger] records[j])
}

/// Some record of the list has the key.
spec fn has_key(records: Seq<Model>, key: (u64, u64)) -> bool {
    exists|i: int| 0 <= i < records.len() && key_of(#[trigger] records[i]) == key
}

/// The map that a list of records stands for.
spec fn records_map(records: Seq<Model>) -> Records {
    Map::new(
        |key: (u64, u64)| has_key(records, key),
        |key: (u64, u64)|
            records[choose|i: int| 0 <= i < records.len() && key_of(#[trigger] records[i]) == key],
    )
}

/// In a list without repeated keys, each record is what the map holds for its key.
proof fn lemma_map_at(records: Seq<Model>, i: int)
    requires
        distinct_keys(records),
        0 <= i < records.len(),
    ensures
        records_map(records).contains_key(key_of(records[i])),
        records_map(records)[key_of(records[i])] == records[i],
{
    let key = key_of(records[i]);
    assert(has_key(records, key));
    let j = choose|j: int| 0 <= j < records.len() && key_of(#[trigger] records[j]) == key;
    assert(j == i) by {
        if j < i {
            assert(key_of(records[j]) != key_of(records[i]));
        } else if i < j {
            assert(key_of(records[i]) != key_of(records[j]));
        }
    }
}

/// Appending a record with a new key inserts it into the map.
proof fn lemma_map_push(records: Seq<Model>, record: Model)
    requires
        distinct_keys(records),
        !has_key(records, key_of(record)),
    ensures
        distinct_keys(records.push(record)),
        records_map(records.push(record)) == records_map(records).insert(key_of(record), record),
{
    let after = records.push(record);
    assert forall|i: int, j: int| 0 <= i < j < after.len() implies key_of(#[trigger] after[i])
        != key_of(#[trigger] after[j]) by {
        if j == records.len() {
            assert(after[i] == records[i]);
            if key_of(records[i]) == key_of(record) {
                assert(has_key(records, key_of(record)));
            }
        } else {
            assert(after[i] == records[i] && after[j] == records[j]);
        }
    }
    let expected = records_map(records).insert(key_of(record), record);
    assert forall|key: (u64, u64)| records_map(after).contains_key(key) <==> expected.contains_key(
        key,
    ) by {
        if has_key(after, key) {
            let i = choose|i: int| 0 <= i < after.len() && key_of(#[trigger] after[i]) == key;
            if i < records.len() {
                assert(key_of(records[i]) == key);
            }
        }
        if has_key(records, key) {
            let i = choose|i: int| 0 <= i < records.len() && key_of(#[trigger] records[i]) == key;
            assert(key_of(after[i]) == key);
        }
        if key == key_of(record) {
            assert(key_of(after[records.len() as int]) == key);
        }
    }
    assert forall|key: (u64, u64)| expected.contains_key(key) implies records_map(after)[key]
        == expected[key] by {
        if key == key_of(record) {
            lemma_map_at(after, records.len() as int);
        } else {
            let i = choose|i: int| 0 <= i < records.len() && key_of(#[trigger] records[i]) == key;
            lemma_map_at(records, i);
            assert(after[i] == records[i]);
            lemma_map_at(after, i);
        }
    }
    assert(records_map(after) =~= expected);
}

/// Replacing a record by one with the same key replaces it in the map.
proof fn lemma_map_update(records: Seq<Model>, at: int, record: Model)
    requires
        distinct_keys(records),
        0 <= at < records.len(),
        key_of(record) == key_of(records[at]),
    ensures
        distinct_keys(records.update(at, record)),
        records_map(records.update(at, record)) == records_map(records).insert(
            key_of(record),
            record,
        ),
{
    let after = records.update(at, record);
    assert forall|i: int, j: int| 0 <= i < j < after.len() implies key_of(#[trigger] after[i])
        != key_of(#[trigger] after[j]) by {
        assert(key_of(after[i]) == key_of(records[i]));
        assert(key_of(after[j]) == key_of(records[j]));
    }
    let expected = records_map(records).insert(key_of(record), record);
    assert forall|key: (u64, u64)| records_map(after).contains_key(key) <==> expected.contains_key(
        key,
    ) by {
        if has_key(after, key) {
            let i = choose|i: int| 0 <= i < after.len() && key_of(#[trigger] after[i]) == key;
            assert(key_of(records[i]) == key_of(after[i]));
        }
        if has_key(records, key) {
            let i = choose|i: int| 0 <= i < records.len() && key_of(#[trigger] records[i]) == key;
            assert(key_of(after[i]) == key_of(records[i]));
        }
        if key == key_of(record) {
            assert(key_of(after[at]) == key);
        }
    }
    assert forall|key: (u64, u64)| expected.contains_key(key) implies records_map(after)[key]
        == expected[key] by {
        if key == key_of(record) {
            lemma_map_at(after, at);
        } else {
            let i = choose|i: int| 0 <= i < records.len() && key_of(#[trigger] records[i]) == key;
            lemma_map_at(records, i);
            assert(after[i] == records[i]);
            lemma_map_at(after, i);
        }
    }
    assert(records_map(after) =~= expected);
}

/// Assignments leave the key alone and never lower the counter.
proof fn lemma_updates_keep_key(record: Model, updates: Seq<ColumnUpdate>)
    ensures
        apply_updates(record, updates) matches Some(merged) ==> key_of(merged) == key_of(record)
            && merged.pings >= record.pings,
    decreases updates.len(),
{
    if updates.len() > 0 {
        lemma_updates_keep_key(record, updates.drop_last());
    }
}

/// Where a prefix of the assignments has no result, the whole list has none.
proof fn lemma_updates_fail_early(record: Model, updates: Seq<ColumnUpdate>, k: int)
    requires
        0 <= k <= updates.len(),
        apply_updates(record, updates.take(k)) is None,
    ensures
        apply_updates(record, updates) is None,
    decreases updates.len(),
{
    if k == updates.len() {
        assert(updates.take(k) =~= updates);
    } else {
        assert(updates.drop_last().take(k) =~= updates.take(k));
        lemma_updates_fail_early(record, updates.drop_last(), k);
    }
}

/// Runs the assignments on a record.
fn run_updates(record: Model, updates: &Vec<ColumnUpdate>) -> (merged: Option<Model>)
    ensures
        merged == apply_updates(record, updates@),
{
    let mut current = record;
    let mut i: usize = 0;
    assert(updates@.take(0) =~= Seq::empty());
    while i < updates.len()
        invariant
            i <= updates@.len(),
            apply_updates(record, updates@.take(i as int)) == Some(current),
        decreases updates@.len() - i,
    {
        proof {
            assert(updates@.take(i + 1).drop_last() =~= updates@.take(i as int));
            assert(updates@.take(i + 1).last() == updates@[i as int]);
        }
        match updates[i] {
            ColumnUpdate::SetLastEveryonePing(t) => {
                current.last_everyone_ping = Some(t);
            },
            ColumnUpdate::SetLastHerePing(t) => {
                current.last_here_ping = Some(t);
            },
            ColumnUpdate::SetLastRolePing(t) => {
                current.last_role_ping = Some(t);
            },
            ColumnUpdate::SetLastUserPing(t) => {
                current.last_user_ping = Some(t);
            },
            ColumnUpdate::AddPings(n) => {
                if n > u32::MAX - current.pings {
                    proof {
                        assert(apply_update(current, updates@[i as int]) is None);
                        lemma_updates_fail_early(record, updates@, i + 1);
                    }
                    return None;
                }
                current.pings = current.pings + n;
            },
        }
        i = i + 1;
    }
    assert(updates@.take(i as int) =~= updates@);
    Some(current)
}

/// The counters of all members of all communities, held in memory.
pub struct CounterStore {
    records: Vec<Model>,
}

impl View for CounterStore {
    type V = Records;

    closed spec fn view(&self) -> Records {
        records_map(self.records@)
    }
}

impl CounterStore {
    /// No two records share a key, and none is without pings.
    #[verifier::type_invariant]
    spec fn inv(self) -> bool {
        &&& distinct_keys(self.records@)
        &&& forall|i: int| 0 <= i < self.records@.len() ==> (#[trigger] self.records@[i]).pings > 0
    }

    /// A store without records.
    pub fn new() -> (store: CounterStore)
        ensures
            store@ == Records::empty(),
            well_formed(store@),
    {
        let store = CounterStore { records: Vec::new() };
        assert(store@ =~= Records::empty());
        store
    }

    /// The number of records.
    pub fn len(&self) -> (count: usize)
        ensures
            count == self@.len(),
            self@.dom().finite(),
    {
        proof {
            use_type_invariant(self);
            lemma_map_len(self.records@);
        }
        self.records.len()
    }

    /// Where in the list the record of a member is.
    fn position(&self, guild_id: u64, user_id: u64) -> (at: Option<usize>)
        ensures
            at matches Some(i) ==> i < self.records@.len() && key_of(self.records@[i as int]) == (
                guild_id,
                user_id,
            ),
            at is None ==> !has_key(self.records@, (guild_id, user_id)),
    {
        let mut i: usize = 0;
        while i < self.records.len()
            invariant
                i <= self.records@.len(),
                forall|k: int| 0 <= k < i ==> key_of(#[trigger] self.records@[k]) != (guild_id, user_id),
            decreases self.records@.len() - i,
        {
            if self.records[i].guild_id == guild_id && self.records[i].user_id == user_id {
                return Some(i);
            }
            i = i + 1;
        }
        None
    }

    /// The record of a member, if the member has one.
    pub fn find(&self, guild_id: u64, user_id: u64) -> (found: Option<Model>)
        ensures
            found == self@.get((guild_id, user_id)),
            well_formed(self@),
    {
        proof {
            use_type_invariant(self);
            lemma_map_well_formed(self.records@);
        }
        match self.position(guild_id, user_id) {
            Some(i) => {
                proof {
                    lemma_map_at(self.records@, i as int);
                }
                Some(self.records[i])
            },
            None => None,
        }
    }

    /// The most recent broadcast to everyone in a community, over all its members.
    pub fn latest_everyone_ping(&self, guild_id: u64) -> (latest: Option<i64>)
        ensures
            is_latest_everyone_ping(self@, guild_id, latest),
    {
        proof {
            use_type_invariant(self);
        }
        let mut latest: Option<i64> = None;
        let mut i: usize = 0;
        while i < self.records.len()
            invariant
                i <= self.records@.len(),
                distinct_keys(self.records@),
                latest matches Some(stamp) ==> exists|k: int|
                    0 <= k < i && (#[trigger] self.records@[k]).guild_id == guild_id
                        && self.records@[k].last_everyone_ping == Some(stamp),
                forall|k: int|
                    0 <= k < i && (#[trigger] self.records@[k]).guild_id == guild_id
                        && self.records@[k].last_everyone_ping is Some ==> latest is Some
                        && self.records@[k].last_everyone_ping->0 <= latest->0,
            decreases self.records@.len() - i,
        {
            let record = self.records[i];
            if record.guild_id == guild_id {
                if let Some(stamp) = record.last_everyone_ping {
                    let newer = match latest {
                        Some(best) => best < stamp,
                        None => true,
                    };
                    if newer {
                        latest = Some(stamp);
                    }
                }
            }
            i = i + 1;
        }
        proof {
            let records = self.records@;
            if let Some(stamp) = latest {
                let k = choose|k: int|
                    0 <= k < records.len() && (#[trigger] records[k]).guild_id == guild_id
                        && records[k].last_everyone_ping == Some(stamp);
                lemma_map_at(records, k);
                assert(holds_everyone_stamp(self@, guild_id, records[k].user_id, stamp));
            }
            assert forall|user_id: u64, stamp: i64| #[trigger]
                holds_everyone_stamp(self@, guild_id, user_id, stamp) implies latest is Some
                && stamp <= latest->0 by {
                let k = choose|k: int|
                    0 <= k < records.len() && key_of(#[trigger] records[k]) == (guild_id, user_id);
                lemma_map_at(records, k);
            }
        }
        latest
    }

    /// Runs an insert-or-update statement. Either the whole statement takes effect or
    /// the store stays as it was.
    pub fn execute(&mut self, upsert: &Upsert) -> (result: Result<ReconciliationOutcome, PingError>)
        ensures
            well_formed(old(self)@),
            well_formed(final(self)@),
            match executed(old(self)@, *upsert) {
                Ok(records) => {
                    &&& final(self)@ == records
                    &&& result == Ok::<ReconciliationOutcome, PingError>(
                        ReconciliationOutcome {
                            pings: records[key_of(upsert.row)].pings,
                            created: !old(self)@.contains_key(key_of(upsert.row)),
                        },
                    )
                },
                Err(error) => {
                    &&& final(self)@ == old(self)@
                    &&& result == Err::<ReconciliationOutcome, PingError>(error)
                },
            },
    {
        proof {
            use_type_invariant(&*self);
            lemma_map_well_formed(self.records@);
        }
        if upsert.row.pings == 0 {
            return Err(PingError::InvariantViolation);
        }
        match self.position(upsert.row.guild_id, upsert.row.user_id) {
            None => {
                proof {
                    lemma_map_push(self.records@, upsert.row);
                    lemma_map_well_formed(self.records@.push(upsert.row));
                }
                // The list is taken out for the change and put back whole, so that the
                // store holds a valid list at every step.
                let mut records: Vec<Model> = Vec::new();
                std::mem::swap(&mut self.records, &mut records);
                records.push(upsert.row);
                std::mem::swap(&mut self.records, &mut records);
                Ok(ReconciliationOutcome { pings: upsert.row.pings, created: true })
            },
            Some(i) => {
                proof {
                    lemma_map_at(self.records@, i as int);
                    lemma_updates_keep_key(self.records@[i as int], upsert.on_conflict@);
                }
                match run_updates(self.records[i], &upsert.on_conflict) {
                    Some(merged) => {
                        proof {
                            lemma_map_update(self.records@, i as int, merged);
                            lemma_map_well_formed(self.records@.update(i as int, merged));
                        }
                        let mut records: Vec<Model> = Vec::new();
                        std::mem::swap(&mut self.records, &mut records);
                        records.set(i, merged);
                        std::mem::swap(&mut self.records, &mut records);
                        Ok(ReconciliationOutcome { pings: merged.pings, created: false })
                    },
                    None => Err(PingError::StorageError),
                }
            },
        }
    }

    /// Merges the tally of one message into the counters of its author: creates the
    /// record on the member's first message, else stamps the categories that fired and
    /// adds the message's total. Either all of it takes effect or nothing does.
    pub fn reconcile(
        &mut self,
        guild_id: u64,
        user_id: u64,
        timestamp: i64,
        tally: &MentionTally,
    ) -> (result: Result<ReconciliationOutcome, PingError>)
        ensures
            well_formed(old(self)@),
            well_formed(final(self)@),
            match reconciled_store(old(self)@, guild_id, user_id, timestamp, *tally) {
                Ok(records) => {
                    &&& final(self)@ == records
                    &&& result == Ok::<ReconciliationOutcome, PingError>(
                        ReconciliationOutcome {
                            pings: records[(guild_id, user_id)].pings,
                            created: !old(self)@.contains_key((guild_id, user_id)),
                        },
                    )
                },
                Err(error) => {
                    &&& final(self)@ == old(self)@
                    &&& result == Err::<ReconciliationOutcome, PingError>(error)
                },
            },
    {
        proof {
            use_type_invariant(&*self);
            lemma_map_well_formed(self.records@);
        }
        match upsert_guild_ping(guild_id, user_id, timestamp, tally) {
            Err(error) => Err(error),
            Ok(upsert) => {
                proof {
                    if self@.contains_key((guild_id, user_id)) {
                        lemma_conflict_updates_reconcile(
                            self@[(guild_id, user_id)],
                            timestamp,
                            *tally,
                            upsert.row.pings,
                        );
                    }
                }
                self.execute(&upsert)
            },
        }
    }
}

/// The map of a list without repeated keys and without empty counters is well formed.
proof fn lemma_map_well_formed(records: Seq<Model>)
    requires
        distinct_keys(records),
        forall|i: int| 0 <= i < records.len() ==> (#[trigger] records[i]).pings > 0,
    ensures
        well_formed(records_map(records)),
{
    assert forall|key: (u64, u64)| #[trigger]
        records_map(records).contains_key(key) implies key_of(records_map(records)[key]) == key
        && records_map(records)[key].pings > 0 by {
        let i = choose|i: int| 0 <= i < records.len() && key_of(#[trigger] records[i]) == key;
        lemma_map_at(records, i);
    }
}

/// A list without repeated keys stands for a map with as many entries.
proof fn lemma_map_len(records: Seq<Model>)
    requires
        distinct_keys(records),
    ensures
        records_map(records).dom().finite(),
        records_map(records).len() == records.len(),
    decreases records.len(),
{
    if records.len() == 0 {
        assert(records_map(records) =~= Records::empty());
    } else {
        let front = records.drop_last();
        let last = records.last();
        assert forall|i: int, j: int| 0 <= i < j < front.len() implies key_of(#[trigger] front[i])
            != key_of(#[trigger] front[j]) by {
            assert(front[i] == records[i] && front[j] == records[j]);
        }
        lemma_map_len(front);
        if has_key(front, key_of(last)) {
            let i = choose|i: int| 0 <= i < front.len() && key_of(#[trigger] front[i]) == key_of(last);
            assert(front[i] == records[i]);
            assert(key_of(records[i]) != key_of(records[records.len() - 1]));
        }
        lemma_map_push(front, last);
        assert(front.push(last) =~= records);
    }
}

/// The tallies of a run of messages by one member, each with the instant of its message.
pub type Steps = Seq<(i64, MentionTally)>;

/// The sum of the totals of a run of tallies.
pub open spec fn total_of(steps: Steps) -> nat
    decreases steps.len(),
{
    if steps.len() == 0 {
        0
    } else {
        total_of(steps.drop_last()) + steps.last().1.total_spec()
    }
}

/// Every tally of the run holds at least one mention.
pub open spec fn all_positive(steps: Steps) -> bool {
    forall|i: int| 0 <= i < steps.len() ==> (#[trigger] steps[i]).1.total_spec() > 0
}

/// A run of merges for one member, in order; the first that is refused stops the run.
pub open spec fn reconciled_store_all(
    records: Records,
    guild_id: u64,
    user_id: u64,
    steps: Steps,
) -> Result<Records, PingError>
    decreases steps.len(),
{
    if steps.len() == 0 {
        Ok(records)
    } else {
        match reconciled_store_all(records, guild_id, user_id, steps.drop_last()) {
            Ok(partial) => reconciled_store(
                partial,
                guild_id,
                user_id,
                steps.last().0,
                steps.last().1,
            ),
            Err(error) => Err(error),
        }
    }
}

/// A merge keeps a store well formed: no record without pings comes to stand in it,
/// and each record stays under its own key.
pub proof fn lemma_reconcile_keeps_well_formed(
    records: Records,
    guild_id: u64,
    user_id: u64,
    timestamp: i64,
    tally: MentionTally,
)
    requires
        well_formed(records),
    ensures
        reconciled_store(records, guild_id, user_id, timestamp, tally) matches Ok(after)
            ==> well_formed(after),
{
}

/// A run of merges for one member goes through exactly when every tally holds a
/// mention and the member's counter can hold the sum; the member's pings are then what
/// they were plus the sum of all totals, and no other member's record has changed.
pub proof fn lemma_pings_are_the_sum(records: Records, guild_id: u64, user_id: u64, steps: Steps)
    ensures
        reconciled_store_all(records, guild_id, user_id, steps) is Ok <==> all_positive(steps)
            && prior_pings(records.get((guild_id, user_id))) + total_of(steps) <= u32::MAX,
        reconciled_store_all(records, guild_id, user_id, steps) matches Ok(after) ==> {
            &&& prior_pings(after.get((guild_id, user_id))) == prior_pings(
                records.get((guild_id, user_id)),
            ) + total_of(steps)
            &&& forall|key: (u64, u64)|
                key != (guild_id, user_id) ==> after.get(key) == #[trigger] records.get(key)
        },
    decreases steps.len(),
{
    if steps.len() > 0 {
        let front = steps.drop_last();
        lemma_pings_are_the_sum(records, guild_id, user_id, front);
        assert(all_positive(steps) <==> all_positive(front) && steps.last().1.total_spec() > 0) by {
            if all_positive(front) && steps.last().1.total_spec() > 0 {
                assert forall|i: int| 0 <= i < steps.len() implies (#[trigger] steps[i]).1.total_spec()
                    > 0 by {
                    if i < front.len() {
                        assert(front[i] == steps[i]);
                    }
                }
            }
            if all_positive(steps) {
                assert(steps[steps.len() - 1].1.total_spec() > 0);
                assert forall|i: int| 0 <= i < front.len() implies (#[trigger] front[i]).1.total_spec()
                    > 0 by {
                    assert(front[i] == steps[i]);
                }
            }
        }
    }
}

/// Taking one tally out of a run lowers the sum by that tally's total.
proof fn lemma_total_of_remove(steps: Steps, at: int)
    requires
        0 <= at < steps.len(),
    ensures
        total_of(steps) == total_of(steps.remove(at)) + steps[at].1.total_spec(),
    decreases steps.len(),
{
    if at == steps.len() - 1 {
        assert(steps.remove(at) =~= steps.drop_last());
    } else {
        lemma_total_of_remove(steps.drop_last(), at);
        assert(steps.remove(at).drop_last() =~= steps.drop_last().remove(at));
        assert(steps.remove(at).last() == steps.last());
    }
}

/// The sum of the totals does not depend on the order of the run.
pub proof fn lemma_total_ignores_order(first: Steps, second: Steps)
    requires
        first.to_multiset() == second.to_multiset(),
    ensures
        total_of(first) == total_of(second),
        all_positive(first) == all_positive(second),
    decreases first.len(),
{
    to_multiset_len(first);
    to_multiset_len(second);
    if first.len() > 0 {
        let step = first.last();
        assert(first.contains(step));
        to_multiset_contains(first, step);
        to_multiset_contains(second, step);
        let at = choose|at: int| 0 <= at < second.len() && second[at] == step;
        assert(first.drop_last() =~= first.remove(first.len() - 1));
        to_multiset_remove(first, first.len() - 1);
        to_multiset_remove(second, at);
        lemma_total_ignores_order(first.drop_last(), second.remove(at));
        lemma_total_of_remove(second, at);
    }
    lemma_all_positive_by_membership(first, second);
    lemma_all_positive_by_membership(second, first);
}

/// Where every tally of one run occurs in another, the other's being all positive
/// makes this one so.
proof fn lemma_all_positive_by_membership(first: Steps, second: Steps)
    requires
        first.to_multiset() == second.to_multiset(),
    ensures
        all_positive(second) ==> all_positive(first),
{
    if all_positive(second) {
        assert forall|i: int| 0 <= i < first.len() implies (#[trigger] first[i]).1.total_spec()
            > 0 by {
            assert(first.contains(first[i]));
            to_multiset_contains(first, first[i]);
            to_multiset_contains(second, first[i]);
            let at = choose|at: int| 0 <= at < second.len() && second[at] == first[i];
            assert(second[at].1.total_spec() > 0);
        }
    }
}

/// In whatever order the same merges for one member are applied, they go through or
/// not alike, and where they do the member ends with the same pings: what there was
/// plus the sum of all totals.
pub proof fn lemma_pings_ignore_interleaving(
    records: Records,
    guild_id: u64,
    user_id: u64,
    first: Steps,
    second: Steps,
)
    requires
        first.to_multiset() == second.to_multiset(),
    ensures
        reconciled_store_all(records, guild_id, user_id, first) is Ok <==> reconciled_store_all(
            records,
            guild_id,
            user_id,
            second,
        ) is Ok,
        reconciled_store_all(records, guild_id, user_id, first) matches Ok(one) ==> (
        reconciled_store_all(records, guild_id, user_id, second) matches Ok(other) ==> prior_pings(
            one.get((guild_id, user_id)),
        ) == prior_pings(other.get((guild_id, user_id))) && prior_pings(
            one.get((guild_id, user_id)),
        ) == prior_pings(records.get((guild_id, user_id))) + total_of(first)),
{
    lemma_total_ignores_order(first, second);
    lemma_pings_are_the_sum(records, guild_id, user_id, first);
    lemma_pings_are_the_sum(records, guild_id, user_id, second);
}

/// Merges for different members do not touch each other: applied in either order they
/// both go through or fail alike, and leave the same store.
pub proof fn lemma_merges_of_different_members_commute(
    records: Records,
    one: (u64, u64),
    one_timestamp: i64,
    one_tally: MentionTally,
    other: (u64, u64),
    other_timestamp: i64,
    other_tally: MentionTally,
)
    requires
        one != other,
    ensures
        ({
            let first = reconciled_store(records, one.0, one.1, one_timestamp, one_tally);
            let second = reconciled_store(records, other.0, other.1, other_timestamp, other_tally);
            &&& first matches Ok(after) ==> reconciled_store(
                after,
                other.0,
                other.1,
                other_timestamp,
                other_tally,
            ) is Ok == second is Ok
            &&& second matches Ok(after) ==> reconciled_store(
                after,
                one.0,
                one.1,
                one_timestamp,
                one_tally,
            ) is Ok == first is Ok
            &&& first matches Ok(after_one) ==> (second matches Ok(after_other) ==> reconciled_store(
                after_one,
                other.0,
                other.1,
                other_timestamp,
                other_tally,
            ) == reconciled_store(after_other, one.0, one.1, one_timestamp, one_tally))
        }),
{
    let first = reconciled_store(records, one.0, one.1, one_timestamp, one_tally);
    let second = reconciled_store(records, other.0, other.1, other_timestamp, other_tally);
    if first is Ok && second is Ok {
        let after_one = first->Ok_0;
        let after_other = second->Ok_0;
        let both = reconciled_store(after_one, other.0, other.1, other_timestamp, other_tally);
        let both_reversed = reconciled_store(after_other, one.0, one.1, one_timestamp, one_tally);
        assert(after_one.get(other) == records.get(other));
        assert(after_other.get(one) == records.get(one));
        assert(both->Ok_0 =~= both_reversed->Ok_0);
    }
}

/// A merge never lowers a member's pings: it adds the tally's total.
pub proof fn lemma_pings_never_decrease(
    records: Records,
    guild_id: u64,
    user_id: u64,
    timestamp: i64,
    tally: MentionTally,
)
    ensures
        reconciled_store(records, guild_id, user_id, timestamp, tally) matches Ok(after)
            ==> prior_pings(after.get((guild_id, user_id))) == prior_pings(
            records.get((guild_id, user_id)),
        ) + tally.total_spec(),
{
}

/// The four categories of mention.
#[derive(Clone, Copy, Debug, PartialEq, Eq, Structural)]
pub enum Category {
    /// A broadcast to everyone.
    Everyone,
    /// A broadcast to the members who are online.
    Online,
    /// A mention of a role.
    Role,
    /// A mention of a user.
    User,
}

/// Whether a category fired in a tally.
pub open spec fn fired(tally: MentionTally, category: Category) -> bool {
    match category {
        Category::Everyone => tally.everyone_fired,
        Category::Online => tally.online_fired,
        Category::Role => tally.role_mentions > 0,
        Category::User => tally.user_mentions > 0,
    }
}

/// The stamp that a record holds for a category; none where there is no record.
pub open spec fn stamp_of(record: Option<Model>, category: Category) -> Option<i64> {
    if record is Some {
        match category {
            Category::Everyone => record->0.last_everyone_ping,
            Category::Online => record->0.last_here_ping,
            Category::Role => record->0.last_role_ping,
            Category::User => record->0.last_user_ping,
        }
    } else {
        None
    }
}

/// The instant of the last message of a run in which a category fired, or `before`
/// where it fired in none.
pub open spec fn last_firing(steps: Steps, category: Category, before: Option<i64>) -> Option<i64>
    decreases steps.len(),
{
    if steps.len() == 0 {
        before
    } else if fired(steps.last().1, category) {
        Some(steps.last().0)
    } else {
        last_firing(steps.drop_last(), category, before)
    }
}

/// After a run of merges for one member, each stamp is the instant of the last message
/// in which its category fired, be that instant earlier or later than the one it
/// replaced; a category that fired in none keeps the stamp it had, and has none if the
/// member had no record.
pub proof fn lemma_stamp_is_last_firing(
    records: Records,
    guild_id: u64,
    user_id: u64,
    steps: Steps,
    category: Category,
)
    ensures
        reconciled_store_all(records, guild_id, user_id, steps) matches Ok(after) ==> stamp_of(
            after.get((guild_id, user_id)),
            category,
        ) == last_firing(steps, category, stamp_of(records.get((guild_id, user_id)), category)),
    decreases steps.len(),
{
    if steps.len() > 0 {
        lemma_stamp_is_last_firing(records, guild_id, user_id, steps.drop_last(), category);
    }
}

/// A merge stamps exactly the categories that fired. In particular, where only role
/// mentions fired, `last_role_ping` becomes the message's instant and the other three
/// stamps stay what they were.
pub proof fn lemma_stamps_follow_firing(
    prior: Option<Model>,
    guild_id: u64,
    user_id: u64,
    timestamp: i64,
    tally: MentionTally,
)
    ensures
        ({
            let before = if prior is Some {
                prior->0
            } else {
                Model {
                    guild_id,
                    user_id,
                    last_everyone_ping: None,
                    last_here_ping: None,
                    last_role_ping: None,
                    last_user_ping: None,
                    pings: 0,
                }
            };
            let after = reconciled(prior, guild_id, user_id, timestamp, tally);
            &&& after.last_everyone_ping == (if tally.everyone_fired {
                Some(timestamp)
            } else {
                before.last_everyone_ping
            })
            &&& after.last_here_ping == (if tally.online_fired {
                Some(timestamp)
            } else {
                before.last_here_ping
            })
            &&& after.last_role_ping == (if tally.role_mentions > 0 {
                Some(timestamp)
            } else {
                before.last_role_ping
            })
            &&& after.last_user_ping == (if tally.user_mentions > 0 {
                Some(timestamp)
            } else {
                before.last_user_ping
            })
            &&& tally.role_mentions > 0 && tally.user_mentions == 0 && !tally.everyone_fired
                && !tally.online_fired ==> {
                &&& after.last_role_ping == Some(timestamp)
                &&& after.last_everyone_ping == before.last_everyone_ping
                &&& after.last_here_ping == before.last_here_ping
                &&& after.last_user_ping == before.last_user_ping
            }
        }),
{
}

/// Merging a tally for a member without a record creates exactly one record: the
/// member's, with the tally's total as its pings and a stamp for each category that
/// fired and for no other. Every other record stays as it was.
pub proof fn lemma_first_merge_creates_record(
    records: Records,
    guild_id: u64,
    user_id: u64,
    timestamp: i64,
    tally: MentionTally,
)
    requires
        !records.contains_key((guild_id, user_id)),
        0 < tally.total_spec() <= u32::MAX,
    ensures
        reconciled_store(records, guild_id, user_id, timestamp, tally) matches Ok(after) && {
            let created = after[(guild_id, user_id)];
            &&& after.dom() == records.dom().insert((guild_id, user_id))
            &&& forall|key: (u64, u64)| #[trigger]
                records.contains_key(key) ==> after[key] == records[key]
            &&& key_of(created) == (guild_id, user_id)
            &&& created.pings == tally.total_spec()
            &&& created.last_everyone_ping == (if tally.everyone_fired {
                Some(timestamp)
            } else {
                None
            })
            &&& created.last_here_ping == (if tally.online_fired {
                Some(timestamp)
            } else {
                None
            })
            &&& created.last_role_ping == (if tally.role_mentions > 0 {
                Some(timestamp)
            } else {
                None
            })
            &&& created.last_user_ping == (if tally.user_mentions > 0 {
                Some(timestamp)
            } else {
                None
            })
        },
{
}

} // verus!
