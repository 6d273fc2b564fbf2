//! The counter record of one member of one community, and the statement that merges a
//! message's tally into it.

use vstd::prelude::*;
use crate::error::PingError;
use crate::tally::MentionTally;

verus! {

/// One row of ping counters, unique per community and member.
///
/// A stamp is an instant in UTC, counted in milliseconds from the Unix epoch. Each stamp
/// is that of the latest message in which its category fired, in the order in which the
/// messages were merged, and `None` until the category has fired once.
#[derive(Clone, Copy, Debug, PartialEq, Eq)]
pub struct Model {
    /// The community.
    pub guild_id: u64,
    /// The member.
    pub user_id: u64,
    /// When the member last broadcast to everyone.
    pub last_everyone_ping: Option<i64>,
    /// When the member last broadcast to the online members.
    pub last_here_ping: Option<i64>,
    /// When the member last mentioned a role.
    pub last_role_ping: Option<i64>,
    /// When the member last mentioned a user.
    pub last_user_ping: Option<i64>,
    /// All mentions ever attributed to the member.
    pub pings: u32,
}

/// The key under which a record is stored.
pub open spec fn key_of(record: Model) -> (u64, u64) {
    (record.guild_id, record.user_id)
}

/// One assignment of the update that runs when the row already exists.
#[derive(Clone, Copy, Debug, PartialEq, Eq)]
pub enum ColumnUpdate {
    /// Overwrite `last_everyone_ping`.
    SetLastEveryonePing(i64),
    /// Overwrite `last_here_ping`.
    SetLastHerePing(i64),
    /// Overwrite `last_role_ping`.
    SetLastRolePing(i64),
    /// Overwrite `last_user_ping`.
    SetLastUserPing(i64),
    /// Add to `pings`.
    AddPings(u32),
}

/// An insert-or-update statement: insert `row`, or, where a row with its key exists,
/// apply `on_conflict` to that row.
#[derive(Debug, PartialEq, Eq)]
pub struct Upsert {
    /// The row to insert.
    pub row: Model,
    /// The assignments to make instead on the row that is already there.
    pub on_conflict: Vec<ColumnUpdate>,
}

/// The stamp of a category after a message: the message's instant if the category
/// fired, else what it was.
pub open spec fn stamped(fired: bool, timestamp: i64, prior: Option<i64>) -> Option<i64> {
    if fired {
        Some(timestamp)
    } else {
        prior
    }
}

/// The record that results from merging a tally into what was stored for the key, with
/// the counter as a mathematical integer. An absent record counts as one without
/// stamps and with no pings.
pub open spec fn reconciled(
    prior: Option<Model>,
    guild_id: u64,
    user_id: u64,
    timestamp: i64,
    tally: MentionTally,
) -> Model {
    Model {
        guild_id,
        user_id,
        last_everyone_ping: stamped(
            tally.everyone_fired,
            timestamp,
            if prior is Some { prior->0.last_everyone_ping } else { None },
        ),
        last_here_ping: stamped(
            tally.online_fired,
            timestamp,
            if prior is Some { prior->0.last_here_ping } else { None },
        ),
        last_role_ping: stamped(
            tally.role_mentions > 0,
            timestamp,
            if prior is Some { prior->0.last_role_ping } else { None },
        ),
        last_user_ping: stamped(
            tally.user_mentions > 0,
            timestamp,
            if prior is Some { prior->0.last_user_ping } else { None },
        ),
        pings: (prior_pings(prior) + tally.total_spec()) as u32,
    }
}

/// The pings counted so far: none where there is no record.
pub open spec fn prior_pings(prior: Option<Model>) -> nat {
    if prior is Some {
        prior->0.pings as nat
    } else {
        0
    }
}

/// One assignment applied to a row. Adding to the counter has no result where the sum
/// leaves the counter's range.
pub open spec fn apply_update(record: Model, update: ColumnUpdate) -> Option<Model> {
    match update {
        ColumnUpdate::SetLastEveryonePing(t) => Some(
            Model { last_everyone_ping: Some(t), ..record },
        ),
        ColumnUpdate::SetLastHerePing(t) => Some(Model { last_here_ping: Some(t), ..record }),
        ColumnUpdate::SetLastRolePing(t) => Some(Model { last_role_ping: Some(t), ..record }),
        ColumnUpdate::SetLastUserPing(t) => Some(Model { last_user_ping: Some(t), ..record }),
        ColumnUpdate::AddPings(n) => if record.pings + n <= u32::MAX {
            Some(Model { pings: (record.pings + n) as u32, ..record })
        } else {
            None
        },
    }
}

/// The assignments applied to a row in order; no result as soon as one has none.
pub open spec fn apply_updates(record: Model, updates: Seq<ColumnUpdate>) -> Option<Model>
    decreases updates.len(),
{
    if updates.len() == 0 {
        Some(record)
    } else {
        match apply_updates(record, updates.drop_last()) {
            Some(partial) => apply_update(partial, updates.last()),
            None => None,
        }
    }
}

/// The assignments for a message: one stamp for each category that fired, in the order
/// everyone, online, role, user, and then the addition to the counter.
pub open spec fn conflict_updates(timestamp: i64, tally: MentionTally, pings: u32) -> Seq<
    ColumnUpdate,
> {
    (if tally.everyone_fired {
        seq![ColumnUpdate::SetLastEveryonePing(timestamp)]
    } else {
        seq![]
    }) + (if tally.online_fired {
        seq![ColumnUpdate::SetLastHerePing(timestamp)]
    } else {
        seq![]
    }) + (if tally.role_mentions > 0 {
        seq![ColumnUpdate::SetLastRolePing(timestamp)]
    } else {
        seq![]
    }) + (if tally.user_mentions > 0 {
        seq![ColumnUpdate::SetLastUserPing(timestamp)]
    } else {
        seq![]
    }) + seq![ColumnUpdate::AddPings(pings)]
}

/// Builds the statement that merges the tally of one message into the counters of its
/// author.
///
/// A tally without mentions is a caller's error. A total that the counter cannot hold
/// cannot be written.
pub fn upsert_guild_ping(guild_id: u64, user_id: u64, timestamp: i64, tally: &MentionTally) -> (statement:
    Result<Upsert, PingError>)
    ensures
        tally.total_spec() == 0 <==> statement == Err::<Upsert, PingError>(
            PingError::InvariantViolation,
        ),
        tally.total_spec() > u32::MAX <==> statement == Err::<Upsert, PingError>(
            PingError::StorageError,
        ),
        0 < tally.total_spec() <= u32::MAX <==> statement is Ok,
        statement matches Ok(upsert) ==> {
            &&& upsert.row == reconciled(None, guild_id, user_id, timestamp, *tally)
            &&& upsert.on_conflict@ == conflict_updates(timestamp, *tally, upsert.row.pings)
        },
{
    let total = tally.total();
    if total == 0 {
        return Err(PingError::InvariantViolation);
    }
    if total > u32::MAX as u128 {
        return Err(PingError::StorageError);
    }
    let pings: u32 = total as u32;
    let last_everyone_ping = if tally.everyone_fired { Some(timestamp) } else { None };
    let last_here_ping = if tally.online_fired { Some(timestamp) } else { None };
    let last_role_ping = if tally.role_mentions > 0 { Some(timestamp) } else { None };
    let last_user_ping = if tally.user_mentions > 0 { Some(timestamp) } else { None };
    let mut on_conflict: Vec<ColumnUpdate> = Vec::new();
    if let Some(time) = last_everyone_ping {
        on_conflict.push(ColumnUpdate::SetLastEveryonePing(time));
    }
    if let Some(time) = last_here_ping {
        on_conflict.push(ColumnUpdate::SetLastHerePing(time));
    }
    if let Some(time) = last_role_ping {
        on_conflict.push(ColumnUpdate::SetLastRolePing(time));
    }
    if let Some(time) = last_user_ping {
        on_conflict.push(ColumnUpdate::SetLastUserPing(time));
    }
    on_conflict.push(ColumnUpdate::AddPings(pings));
    assert(on_conflict@ =~= conflict_updates(timestamp, *tally, pings));
    Ok(
        Upsert {
            row: Model {
                guild_id,
                user_id,
                last_everyone_ping,
                last_here_ping,
                last_role_ping,
                last_user_ping,
                pings,
            },
            on_conflict,
        },
    )
}

/// On a row that exists, the assignments for a message give the merged record, or have
/// no result exactly where the counter would leave its range.
pub proof fn lemma_conflict_updates_reconcile(
    record: Model,
    timestamp: i64,
    tally: MentionTally,
    pings: u32,
)
    requires
        pings == tally.total_spec(),
    ensures
        apply_updates(record, conflict_updates(timestamp, tally, pings)) == (if record.pings
            + tally.total_spec() <= u32::MAX {
            Some(reconciled(Some(record), record.guild_id, record.user_id, timestamp, tally))
        } else {
            None
        }),
{
    let e: Seq<ColumnUpdate> = if tally.everyone_fired {
        seq![ColumnUpdate::SetLastEveryonePing(timestamp)]
    } else {
        seq![]
    };
    let h: Seq<ColumnUpdate> = if tally.online_fired {
        seq![ColumnUpdate::SetLastHerePing(timestamp)]
    } else {
        seq![]
    };
    let r: Seq<ColumnUpdate> = if tally.role_mentions > 0 {
        seq![ColumnUpdate::SetLastRolePing(timestamp)]
    } else {
        seq![]
    };
    let u: Seq<ColumnUpdate> = if tally.user_mentions > 0 {
        seq![ColumnUpdate::SetLastUserPing(timestamp)]
    } else {
        seq![]
    };
    let after_e = Model {
        last_everyone_ping: stamped(tally.everyone_fired, timestamp, record.last_everyone_ping),
        ..record
    };
    let after_h = Model {
        last_here_ping: stamped(tally.online_fired, timestamp, record.last_here_ping),
        ..after_e
    };
    let after_r = Model {
        last_role_ping: stamped(tally.role_mentions > 0, timestamp, record.last_role_ping),
        ..after_h
    };
    let after_u = Model {
        last_user_ping: stamped(tally.user_mentions > 0, timestamp, record.last_user_ping),
        ..after_r
    };
    lemma_apply_updates_optional(record, Seq::empty(), e, record);
    assert(Seq::<ColumnUpdate>::empty() + e =~= e);
    lemma_apply_updates_optional(record, e, h, after_e);
    lemma_apply_updates_optional(record, e + h, r, after_h);
    lemma_apply_updates_optional(record, e + h + r, u, after_r);
    let all = conflict_updates(timestamp, tally, pings);
    assert(all.drop_last() =~= e + h + r + u);
    assert(all.last() == ColumnUpdate::AddPings(pings));
}

/// Extending a list of assignments by none or by one that has a result.
proof fn lemma_apply_updates_optional(
    record: Model,
    done: Seq<ColumnUpdate>,
    next: Seq<ColumnUpdate>,
    partial: Model,
)
    requires
        apply_updates(record, done) == Some(partial),
        next.len() <= 1,
    ensures
        apply_updates(record, done + next) == (if next.len() == 0 {
            Some(partial)
        } else {
            apply_update(partial, next[0])
        }),
{
    if next.len() == 0 {
        assert(done + next =~= done);
    } else {
        assert((done + next).drop_last() =~= done);
        assert((done + next).last() == next[0]);
    }
}

} // verus!
