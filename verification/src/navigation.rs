//! Progress along a route of waypoints: which waypoint is active, and when the
//! route is complete.
use vstd::prelude::*;

verus! {

/// The active position after one update: it moves to the next waypoint when
/// the active one was reached, and stays put once the route is complete.
pub open spec fn next_active(active: nat, len: nat, reached: bool) -> nat {
    if active < len && reached {
        active + 1
    } else {
        active
    }
}

/// The active position after a series of updates, one per entry of `reached`.
pub open spec fn active_after(active: nat, len: nat, reached: Seq<bool>) -> nat
    decreases reached.len(),
{
    if reached.len() == 0 {
        active
    } else {
        next_active(active_after(active, len, reached.drop_last()), len, reached.last())
    }
}

/// How many updates reported the active waypoint reached.
pub open spec fn count_reached(reached: Seq<bool>) -> nat
    decreases reached.len(),
{
    if reached.len() == 0 {
        0
    } else {
        count_reached(reached.drop_last()) + if reached.last() { 1nat } else { 0nat }
    }
}

/// Which waypoint of a route is active. Waypoints are visited in order; the
/// route is complete once every waypoint has been reached.
#[derive(Debug, Clone, Copy)]
pub struct RouteProgress {
    active: usize,
    len: usize,
}

impl RouteProgress {
    #[verifier::type_invariant]
    closed spec fn within_route(self) -> bool {
        self.active <= self.len
    }

    /// Index of the active waypoint; equal to the number of waypoints once the
    /// route is complete.
    pub closed spec fn active(self) -> nat {
        self.active as nat
    }

    /// Number of waypoints on the route.
    pub closed spec fn len(self) -> nat {
        self.len as nat
    }

    /// Progress at the start of a route of `waypoint_count` waypoints.
    pub fn new(waypoint_count: usize) -> (p: Self)
        ensures
            p.active() == 0,
            p.len() == waypoint_count,
    {
        RouteProgress { active: 0, len: waypoint_count }
    }

    /// Index of the active waypoint; `None` once the route is complete.
    pub fn active_index(&self) -> (i: Option<usize>)
        ensures
            i == (if self.active() < self.len() {
                Some(self.active() as usize)
            } else {
                None::<usize>
            }),
    {
        if self.active < self.len {
            Some(self.active)
        } else {
            None
        }
    }

    /// Whether every waypoint has been reached.
    pub fn is_finished(&self) -> (done: bool)
        ensures
            done == (self.active() >= self.len()),
    {
        self.active >= self.len
    }

    /// Records whether the robot reached the active waypoint; moves on to the
    /// next waypoint if so. Returns whether the route is now complete.
    pub fn update(&mut self, reached_active: bool) -> (done: bool)
        ensures
            final(self).len() == old(self).len(),
            final(self).active() == next_active(old(self).active(), old(self).len(), reached_active),
            final(self).active() <= final(self).len(),
            reached_active && old(self).active() < old(self).len() ==> final(self).active()
                == old(self).active() + 1,
            !(reached_active && old(self).active() < old(self).len()) ==> final(self).active()
                == old(self).active(),
            done == (final(self).active() >= final(self).len()),
    {
        proof {
            use_type_invariant(&*self);
        }
        if self.active < self.len && reached_active {
            self.active = self.active + 1;
        }
        self.active >= self.len
    }
}

/// Starting anywhere on the route, a series of updates moves the active index
/// by the number of waypoints reported reached, stopping at the end of the
/// route: the route is complete exactly when the reached count covers the
/// waypoints that were left.
pub proof fn lemma_active_counts_arrivals(active: nat, len: nat, reached: Seq<bool>)
    requires
        active <= len,
    ensures
        active_after(active, len, reached) == if active + count_reached(reached) <= len {
            active + count_reached(reached)
        } else {
            len
        },
    decreases reached.len(),
{
    if reached.len() > 0 {
        lemma_active_counts_arrivals(active, len, reached.drop_last());
    }
}

} // verus!
