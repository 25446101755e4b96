//! Decisions about a child process: what a wait returns for each signal that
//! wakes it, and the order in which a process tree is terminated.

use crate::run_loop::{KILL_SIGNAL, TERM_SIGNAL};
use vstd::prelude::*;

verus! {

/// The outcome of waiting on a child, with `O` the captured output.
#[derive(Debug)]
pub enum ProcessWaitResult<O> {
    /// The process completed.
    Completed(O),
    /// The process stopped and has not yet completed; it may be waited on again.
    Stopped,
    /// The process was killed because the wait was cancelled.
    Cancelled,
}

/// What woke a waiting child.
#[derive(Debug)]
pub enum WaitSignal<O> {
    /// The child completed with this output.
    Exited(O),
    /// The cancellation controller was triggered.
    CancelRequested,
    /// A job-control stop signal arrived.
    JobStopped,
    /// Some child changed state; whether a poll found a stopped one.
    ChildStateChanged { stopped_child_found: bool },
    /// An interactive interrupt arrived; the child receives it too.
    Interrupted,
}

/// What a wait does next.
#[derive(Debug)]
pub enum WaitStep<O> {
    /// Return this outcome.
    Finish(ProcessWaitResult<O>),
    /// Keep waiting.
    Continue,
}

/// The step a wait takes on a signal, and the process id to kill first, if any.
pub open spec fn wait_step_spec<O>(signal: WaitSignal<O>, pid: Option<i32>) -> (
    WaitStep<O>,
    Option<i32>,
) {
    match signal {
        WaitSignal::Exited(o) => (WaitStep::Finish(ProcessWaitResult::Completed(o)), None),
        WaitSignal::CancelRequested => (WaitStep::Finish(ProcessWaitResult::Cancelled), pid),
        WaitSignal::JobStopped => (WaitStep::Finish(ProcessWaitResult::Stopped), None),
        WaitSignal::ChildStateChanged { stopped_child_found } => if stopped_child_found {
            (WaitStep::Finish(ProcessWaitResult::Stopped), None)
        } else {
            (WaitStep::Continue, None)
        },
        WaitSignal::Interrupted => (WaitStep::Continue, None),
    }
}

/// Decides what a wait on the child with process id `pid` does on `signal`:
/// completion returns the output; cancellation kills the child, where its id is
/// known, and returns `Cancelled`; a stop returns `Stopped`; a change of state
/// returns `Stopped` only where a stopped child was found; an interrupt is
/// passed over.
pub fn wait_step<O>(signal: WaitSignal<O>, pid: Option<i32>) -> (r: (WaitStep<O>, Option<i32>))
    ensures
        r == wait_step_spec(signal, pid),
{
    match signal {
        WaitSignal::Exited(o) => (WaitStep::Finish(ProcessWaitResult::Completed(o)), None),
        WaitSignal::CancelRequested => (WaitStep::Finish(ProcessWaitResult::Cancelled), pid),
        WaitSignal::JobStopped => (WaitStep::Finish(ProcessWaitResult::Stopped), None),
        WaitSignal::ChildStateChanged { stopped_child_found } => {
            if stopped_child_found {
                (WaitStep::Finish(ProcessWaitResult::Stopped), None)
            } else {
                (WaitStep::Continue, None)
            }
        },
        WaitSignal::Interrupted => (WaitStep::Continue, None),
    }
}

/// One best-effort action of a staged termination.
#[derive(Clone, Copy, Debug, PartialEq, Eq, Structural)]
pub enum TerminationStep {
    /// Send `signal` to the process group `pgid`.
    Group { pgid: i32, signal: i32 },
    /// Send `signal` to `pid` and all its descendants.
    Tree { pid: i32, signal: i32 },
    /// Kill the direct child through its handle.
    Child,
}

/// The signals of one stage, to the group where it is known and then to the tree.
pub open spec fn stage(pid: Option<i32>, pgid: Option<i32>, signal: i32) -> Seq<TerminationStep> {
    (match pgid {
        Some(g) => seq![TerminationStep::Group { pgid: g, signal }],
        None => seq![],
    }) + (match pid {
        Some(p) => seq![TerminationStep::Tree { pid: p, signal }],
        None => seq![],
    })
}

/// Staged termination: the terminate signal to group and tree, the kill of the
/// child's handle, then the kill signal to group and tree, with no pause.
pub open spec fn termination_plan_spec(pid: Option<i32>, pgid: Option<i32>) -> Seq<
    TerminationStep,
> {
    stage(pid, pgid, TERM_SIGNAL as i32) + seq![TerminationStep::Child] + stage(
        pid,
        pgid,
        KILL_SIGNAL as i32,
    )
}

fn push_stage(plan: &mut Vec<TerminationStep>, pid: Option<i32>, pgid: Option<i32>, signal: i32)
    ensures
        final(plan)@ == old(plan)@ + stage(pid, pgid, signal),
{
    let ghost start = plan@;
    if let Some(g) = pgid {
        plan.push(TerminationStep::Group { pgid: g, signal });
    }
    if let Some(p) = pid {
        plan.push(TerminationStep::Tree { pid: p, signal });
    }
    assert(plan@ =~= start + stage(pid, pgid, signal));
}

/// The steps that terminate the tree of the child `pid` (if its id is known)
/// in the process group `pgid` (where groups exist and one is known).
pub fn termination_plan(pid: Option<i32>, pgid: Option<i32>) -> (r: Vec<TerminationStep>)
    ensures
        r@ == termination_plan_spec(pid, pgid),
{
    let mut plan: Vec<TerminationStep> = Vec::new();
    push_stage(&mut plan, pid, pgid, TERM_SIGNAL);
    plan.push(TerminationStep::Child);
    push_stage(&mut plan, pid, pgid, KILL_SIGNAL);
    assert(plan@ =~= termination_plan_spec(pid, pgid));
    plan
}

/// A process id as the signalling calls take it: none where it does not fit
/// in an `i32`.
pub fn pid_from_raw(raw: u32) -> (r: Option<i32>)
    ensures
        r == (if raw <= i32::MAX as u32 {
            Some(raw as i32)
        } else {
            None::<i32>
        }),
{
    if raw <= i32::MAX as u32 {
        Some(raw as i32)
    } else {
        None
    }
}

/// A process group id that may be signalled: only a positive one.
pub fn usable_group(pgid: Option<i32>) -> (r: Option<i32>)
    ensures
        r == (match pgid {
            Some(g) => if g > 0 {
                Some(g)
            } else {
                None::<i32>
            },
            None => None::<i32>,
        }),
{
    match pgid {
        Some(g) => if g > 0 {
            Some(g)
        } else {
            None
        },
        None => None,
    }
}

} // verus!
