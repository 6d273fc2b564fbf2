//! The per-message tally of mention categories.

use vstd::prelude::*;

verus! {

/// How many mentions of each category one message fired.
#[derive(Clone, Copy, Debug, PartialEq, Eq, Structural)]
pub struct MentionTally {
    /// Directly mentioned users, as the platform reported them.
    pub user_mentions: usize,
    /// Role mentions that count for the author.
    pub role_mentions: usize,
    /// The author broadcast to everyone.
    pub everyone_fired: bool,
    /// The author broadcast to the members who are online.
    pub online_fired: bool,
}

impl MentionTally {
    /// The sum over all four categories; a broadcast contributes one.
    pub open spec fn total_spec(self) -> nat {
        (self.user_mentions + self.role_mentions + (if self.everyone_fired { 1nat } else { 0nat })
            + (if self.online_fired { 1nat } else { 0nat })) as nat
    }

    /// Computes the total of the tally.
    pub fn total(self) -> (t: u128)
        ensures
            t == self.total_spec(),
    {
        let mut t: u128 = self.user_mentions as u128 + self.role_mentions as u128;
        if self.everyone_fired {
            t = t + 1;
        }
        if self.online_fired {
            t = t + 1;
        }
        t
    }
}

} // verus!
