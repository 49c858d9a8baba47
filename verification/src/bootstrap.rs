use vstd::prelude::*;

verus! {

/// The id of the seed replica, the cluster's initial single voter.
pub const SEED_ID: u64 = 1;

/// The first follower id: follower ids are the contiguous range from here up
/// to the configured cluster size.
pub const FIRST_FOLLOWER: u64 = 2;

/// Cluster bootstrap cursor: membership additions are proposed one follower
/// at a time, in id order, each retried until its completion signal fires
/// `true`, so at most one configuration change is ever in flight.
pub struct Bootstrap {
    pub next: u64,
    pub last: u64,
}

impl Bootstrap {
    /// The cursor stays between the first follower and one past the last.
    pub open spec fn wf(self) -> bool {
        FIRST_FOLLOWER <= self.next <= self.last + 1 && self.last < u64::MAX
    }

    /// The follower ids whose addition has been confirmed so far.
    pub open spec fn confirmed(self) -> Set<u64> {
        Set::new(|i: u64| FIRST_FOLLOWER <= i < self.next)
    }

    /// A fresh bootstrap over the follower ids from the first follower up to
    /// `last`, none confirmed yet.
    pub fn new(last: u64) -> (b: Bootstrap)
        requires
            FIRST_FOLLOWER <= last < u64::MAX,
        ensures
            b.wf(),
            b.next == FIRST_FOLLOWER,
            b.last == last,
            b.confirmed() == Set::<u64>::empty(),
    {
        let b = Bootstrap { next: FIRST_FOLLOWER, last };
        proof {
            assert(b.confirmed() =~= Set::<u64>::empty());
        }
        b
    }

    /// The follower whose addition must be proposed next, or nothing once
    /// every follower is confirmed.
    pub fn pending(&self) -> (r: Option<u64>)
        ensures
            r == if self.next <= self.last {
                Some(self.next)
            } else {
                Option::<u64>::None
            },
    {
        if self.next <= self.last {
            Some(self.next)
        } else {
            None
        }
    }

    /// Advances past the pending follower when its completion signal fired
    /// `true`; a rejected proposal leaves the cursor in place, to be retried
    /// with a fresh proposal for the same follower.
    pub fn on_outcome(&mut self, accepted: bool)
        requires
            old(self).wf(),
            old(self).next <= old(self).last,
        ensures
            final(self).wf(),
            final(self).last == old(self).last,
            accepted ==> final(self).next == old(self).next + 1 && final(self).confirmed()
                == old(self).confirmed().insert(old(self).next),
            !accepted ==> *final(self) == *old(self),
    {
        if accepted {
            self.next = self.next + 1;
            proof {
                assert(self.confirmed() =~= old(self).confirmed().insert(old(self).next));
            }
        }
    }
}

/// Membership convergence: once bootstrap has nothing pending, the confirmed
/// followers are exactly the contiguous range from the first follower to the
/// last, each confirmed once, with no omissions, and the seed id is not among
/// them.
pub proof fn lemma_membership_convergence(b: Bootstrap)
    requires
        b.wf(),
        b.next > b.last,
    ensures
        forall|i: u64| b.confirmed().contains(i) <==> FIRST_FOLLOWER <= i <= b.last,
        !b.confirmed().contains(SEED_ID),
{
}

} // verus!
