//! A cancellation controller that unifies a run's timeout and its caller's
//! abort: asked at a time, it reports whether the run may go on, and once it
//! has reported an end it keeps reporting that same end.

use crate::run_loop::Heartbeat;
use vstd::prelude::*;

verus! {

pub struct CancelToken {
    deadline: Option<u64>,
    aborted: bool,
    tripped: Option<Heartbeat>,
}

/// What a controller in the given state reports at time `now`.
pub open spec fn report(
    deadline: Option<u64>,
    aborted: bool,
    tripped: Option<Heartbeat>,
    now: u64,
) -> Heartbeat {
    match tripped {
        Some(h) => h,
        None => if aborted {
            Heartbeat::Cancelled
        } else if deadline is Some && now >= deadline->0 {
            Heartbeat::TimedOut
        } else {
            Heartbeat::Running
        },
    }
}

impl CancelToken {
    /// The time after which the run times out, if it has a timeout.
    pub closed spec fn deadline(&self) -> Option<u64> {
        self.deadline
    }

    /// Whether the caller aborted the run.
    pub closed spec fn aborted(&self) -> bool {
        self.aborted
    }

    /// The end reported first, once one was.
    pub closed spec fn tripped(&self) -> Option<Heartbeat> {
        self.tripped
    }

    pub closed spec fn wf(&self) -> bool {
        self.tripped != Some(Heartbeat::Running)
    }

    /// A controller for a run started at `now`, timing out `timeout_ms`
    /// milliseconds later if a timeout is given.
    pub fn new(now: u64, timeout_ms: Option<u32>) -> (r: Self)
        ensures
            r.wf(),
            r.deadline() == (match timeout_ms {
                Some(t) => Some(crate::run_loop::later(now, t as u64)),
                None => None::<u64>,
            }),
            !r.aborted(),
            r.tripped() is None,
    {
        let deadline = match timeout_ms {
            Some(t) => Some(now.saturating_add(t as u64)),
            None => None,
        };
        CancelToken { deadline, aborted: false, tripped: None }
    }

    /// Records the caller's abort.
    pub fn abort(&mut self)
        requires
            old(self).wf(),
        ensures
            final(self).wf(),
            final(self).aborted(),
            final(self).deadline() == old(self).deadline(),
            final(self).tripped() == old(self).tripped(),
    {
        self.aborted = true;
    }

    /// Asks the controller at time `now`.
    pub fn heartbeat(&mut self, now: u64) -> (r: Heartbeat)
        requires
            old(self).wf(),
        ensures
            final(self).wf(),
            r == report(old(self).deadline(), old(self).aborted(), old(self).tripped(), now),
            final(self).deadline() == old(self).deadline(),
            final(self).aborted() == old(self).aborted(),
            final(self).tripped() == (if r == Heartbeat::Running {
                None::<Heartbeat>
            } else {
                Some(r)
            }),
    {
        if let Some(h) = self.tripped {
            return h;
        }
        let r = if self.aborted {
            Heartbeat::Cancelled
        } else {
            match self.deadline {
                Some(d) => if now >= d {
                    Heartbeat::TimedOut
                } else {
                    Heartbeat::Running
                },
                None => Heartbeat::Running,
            }
        };
        if r != Heartbeat::Running {
            self.tripped = Some(r);
        }
        r
    }
}

/// Once a controller has reported an end, every later heartbeat reports the
/// same end, whatever the time and whatever abort follows.
pub proof fn lemma_heartbeat_latches(
    deadline: Option<u64>,
    aborted: bool,
    now: u64,
    later_now: u64,
    later_aborted: bool,
)
    requires
        report(deadline, aborted, None, now) != Heartbeat::Running,
    ensures
        report(
            deadline,
            later_aborted,
            Some(report(deadline, aborted, None, now)),
            later_now,
        ) == report(deadline, aborted, None, now),
{
}

} // verus!
