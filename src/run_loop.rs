//! The decisions of a run: when to terminate the command, when to stop waiting
//! for its output, and what result to report. The loop that polls the
//! terminal, the reader and the child process feeds its findings here as
//! events and carries out what comes back.

use crate::control::{ControlMessage, PtyRunResult, TerminalSize};
use vstd::prelude::*;

verus! {

/// Control messages applied per tick at most.
pub const CONTROL_MESSAGES_PER_TICK: usize = 64;

/// Reader events forwarded per tick at most.
pub const READER_EVENTS_PER_TICK: usize = 256;

/// How long output is still awaited after termination was requested.
pub const POST_CANCEL_DRAIN_MS: u64 = 300;

/// How long output is still awaited after the command exited.
pub const POST_EXIT_DRAIN_MS: u64 = 300;

/// How long remaining reader events are collected after the terminal closed.
pub const FINAL_READER_DRAIN_MS: u64 = 50;

/// The pause between two ticks.
pub const TICK_MS: u64 = 16;

/// The pause between two polls while collecting remaining reader events.
pub const FINAL_DRAIN_POLL_MS: u64 = 5;

/// The signal that asks a process to terminate.
pub const TERM_SIGNAL: i32 = 15;

/// The signal that kills a process.
pub const KILL_SIGNAL: i32 = 9;

/// What the cancellation controller reports when asked.
#[derive(Clone, Copy, Debug, PartialEq, Eq, Structural)]
pub enum Heartbeat {
    Running,
    TimedOut,
    Cancelled,
}

/// What the loop learns, with the time in milliseconds where it matters.
#[derive(Clone, Copy, Debug, PartialEq, Eq, Structural)]
pub enum LoopEvent {
    /// The controller's answer to a heartbeat.
    Beat { status: Heartbeat, now: u64 },
    /// A kill message from the caller.
    Kill { now: u64 },
    /// The reader reached the end of the output, or went away.
    ReaderDone,
    /// The command exited with this code.
    Exited { code: i32, now: u64 },
}

/// The state of a run.
#[derive(Clone, Copy, Debug, PartialEq, Eq, Structural)]
pub struct RunState {
    pub timed_out: bool,
    pub cancelled: bool,
    pub reader_done: bool,
    pub exit_code: Option<i32>,
    pub terminate_requested: bool,
    /// The time after which output is no longer awaited.
    pub drain_deadline: Option<u64>,
}

/// The state a run starts in.
pub open spec fn initial() -> RunState {
    RunState {
        timed_out: false,
        cancelled: false,
        reader_done: false,
        exit_code: None,
        terminate_requested: false,
        drain_deadline: None,
    }
}

/// `now + d`, or the largest time where that does not fit.
pub open spec fn later(now: u64, d: u64) -> u64 {
    if now + d <= u64::MAX {
        (now + d) as u64
    } else {
        u64::MAX
    }
}

/// Whether the event asks for the command's process tree to be terminated.
pub open spec fn terminates(s: RunState, e: LoopEvent) -> bool {
    match e {
        LoopEvent::Beat { status, now } => !s.terminate_requested && status != Heartbeat::Running,
        LoopEvent::Kill { now } => !s.terminate_requested,
        _ => false,
    }
}

/// The state after an event.
pub open spec fn next(s: RunState, e: LoopEvent) -> RunState {
    match e {
        LoopEvent::Beat { status, now } => if terminates(s, e) {
            RunState {
                timed_out: status == Heartbeat::TimedOut,
                cancelled: status != Heartbeat::TimedOut,
                terminate_requested: true,
                drain_deadline: Some(later(now, POST_CANCEL_DRAIN_MS)),
                ..s
            }
        } else {
            s
        },
        LoopEvent::Kill { now } => if terminates(s, e) {
            RunState {
                cancelled: true,
                terminate_requested: true,
                drain_deadline: Some(later(now, POST_CANCEL_DRAIN_MS)),
                ..s
            }
        } else {
            RunState { cancelled: true, ..s }
        },
        LoopEvent::ReaderDone => RunState { reader_done: true, ..s },
        LoopEvent::Exited { code, now } => if s.exit_code is Some {
            s
        } else if !s.reader_done && s.drain_deadline is None {
            RunState {
                exit_code: Some(code),
                drain_deadline: Some(later(now, POST_EXIT_DRAIN_MS)),
                ..s
            }
        } else {
            RunState { exit_code: Some(code), ..s }
        },
    }
}

/// The state after a sequence of events.
pub open spec fn run(s: RunState, events: Seq<LoopEvent>) -> RunState
    decreases events.len(),
{
    if events.len() == 0 {
        s
    } else {
        next(run(s, events.drop_last()), events.last())
    }
}

/// The result reported for a run that ended in state `s`.
pub open spec fn result_of(s: RunState) -> PtyRunResult {
    PtyRunResult { exit_code: s.exit_code, cancelled: s.cancelled, timed_out: s.timed_out }
}

/// Whether the drain deadline is armed and `now` has reached it.
pub open spec fn deadline_reached(s: RunState, now: u64) -> bool {
    match s.drain_deadline {
        Some(d) => now >= d,
        None => false,
    }
}

/// Where a run is within its current tick.
#[derive(Clone, Copy, Debug, PartialEq, Eq, Structural)]
pub enum Phase {
    /// About to check whether the run is over.
    Start,
    /// Taking control messages; this many taken in this tick.
    Controls(usize),
    /// Taking reader events; this many taken in this tick.
    Readers(usize),
    /// About to poll the command's exit.
    ExitCheck,
    /// About to check the drain deadline.
    Deadline,
    /// The loop is over.
    Stopped,
}

/// What the loop must do next.
#[derive(Clone, Copy, Debug, PartialEq, Eq, Structural)]
pub enum Poll {
    /// Ask the cancellation controller, and hand its answer to `handle`.
    AskHeartbeat,
    /// Take one control message without blocking: `apply_control` then
    /// `taken`, or `drained` if none was waiting.
    TakeControl,
    /// Take one reader event without blocking: forward a chunk and call
    /// `taken`; on the end of output, `handle` it and call `drained`; call
    /// `drained` if none was waiting.
    TakeReaderEvent,
    /// Check without blocking whether the command exited, and `handle` the exit.
    PollExit,
    /// Pause for this many milliseconds.
    Sleep(u64),
    /// Leave the loop.
    Stop,
}

pub open spec fn is_complete(s: RunState) -> bool {
    s.exit_code is Some && s.reader_done
}

/// The end of a tick: stop at the deadline or once complete, else pause.
pub open spec fn deadline_poll(s: RunState, now: u64) -> (Poll, Phase) {
    if deadline_reached(s, now) || is_complete(s) {
        (Poll::Stop, Phase::Stopped)
    } else {
        (Poll::Sleep(TICK_MS), Phase::Start)
    }
}

pub open spec fn exit_poll(s: RunState, now: u64) -> (Poll, Phase) {
    if s.exit_code is None {
        (Poll::PollExit, Phase::Deadline)
    } else {
        deadline_poll(s, now)
    }
}

/// The next thing to do in phase `p`, and the phase that follows. Each tick
/// asks the controller (until termination is requested), takes at most
/// `CONTROL_MESSAGES_PER_TICK` control messages and `READER_EVENTS_PER_TICK`
/// reader events, polls the exit (until it is known) and checks the deadline.
pub open spec fn poll_spec(s: RunState, p: Phase, now: u64) -> (Poll, Phase) {
    match p {
        Phase::Start => if is_complete(s) {
            (Poll::Stop, Phase::Stopped)
        } else if !s.terminate_requested {
            (Poll::AskHeartbeat, Phase::Controls(0))
        } else {
            (Poll::TakeControl, Phase::Controls(0))
        },
        Phase::Controls(n) => if n < CONTROL_MESSAGES_PER_TICK {
            (Poll::TakeControl, Phase::Controls(n))
        } else {
            (Poll::TakeReaderEvent, Phase::Readers(0))
        },
        Phase::Readers(n) => if n < READER_EVENTS_PER_TICK {
            (Poll::TakeReaderEvent, Phase::Readers(n))
        } else {
            exit_poll(s, now)
        },
        Phase::ExitCheck => exit_poll(s, now),
        Phase::Deadline => deadline_poll(s, now),
        Phase::Stopped => (Poll::Stop, Phase::Stopped),
    }
}

/// The phase after one message or event was taken.
pub open spec fn after_taken(p: Phase) -> Phase {
    match p {
        Phase::Controls(n) => if n < CONTROL_MESSAGES_PER_TICK {
            Phase::Controls((n + 1) as usize)
        } else {
            p
        },
        Phase::Readers(n) => if n < READER_EVENTS_PER_TICK {
            Phase::Readers((n + 1) as usize)
        } else {
            p
        },
        _ => p,
    }
}

/// The phase after a source had nothing more to give in this tick.
pub open spec fn after_drained(p: Phase) -> Phase {
    match p {
        Phase::Controls(_) => Phase::Readers(0),
        Phase::Readers(_) => Phase::ExitCheck,
        _ => p,
    }
}

/// What the loop does to the terminal for a control message.
#[derive(Debug)]
pub enum LoopAction {
    Nothing,
    /// Write these bytes to the terminal's input and flush it.
    Write(String),
    /// Resize the terminal.
    Resize(TerminalSize),
    /// Terminate the command's process tree.
    Terminate,
}

/// How the exit code is obtained once the loop has ended.
#[derive(Clone, Copy, Debug, PartialEq, Eq, Structural)]
pub enum FinalWait {
    /// It is known already.
    Known,
    /// Termination was requested: one more check, without blocking.
    Poll,
    /// The run was never interrupted: wait for the command to exit.
    Block,
}

/// An exit status as an `i32`; a status beyond `i32::MAX` is reported as `i32::MAX`.
pub fn exit_code_from_status(status: u32) -> (r: i32)
    ensures
        r == (if status <= i32::MAX as u32 {
            status as i32
        } else {
            i32::MAX
        }),
{
    if status <= i32::MAX as u32 {
        status as i32
    } else {
        i32::MAX
    }
}

fn deadline_after(now: u64, d: u64) -> (r: u64)
    ensures
        r == later(now, d),
{
    now.saturating_add(d)
}

/// The decision-making half of a run.
pub struct RunLoop {
    state: RunState,
    phase: Phase,
}

impl RunLoop {
    pub closed spec fn view(&self) -> RunState {
        self.state
    }

    pub closed spec fn phase(&self) -> Phase {
        self.phase
    }

    pub fn new() -> (r: Self)
        ensures
            r@ == initial(),
            r.phase() == Phase::Start,
    {
        RunLoop {
            state: RunState {
                timed_out: false,
                cancelled: false,
                reader_done: false,
                exit_code: None,
                terminate_requested: false,
                drain_deadline: None,
            },
            phase: Phase::Start,
        }
    }

    pub fn state(&self) -> (r: RunState)
        ensures
            r == self@,
    {
        self.state
    }

    /// Takes one event; returns whether the process tree must now be terminated.
    pub fn handle(&mut self, e: LoopEvent) -> (terminate: bool)
        ensures
            final(self)@ == next(old(self)@, e),
            final(self).phase() == old(self).phase(),
            terminate == terminates(old(self)@, e),
    {
        let s = self.state;
        match e {
            LoopEvent::Beat { status, now } => {
                if !s.terminate_requested && status != Heartbeat::Running {
                    let timed_out = status == Heartbeat::TimedOut;
                    self.state = RunState {
                        timed_out,
                        cancelled: !timed_out,
                        terminate_requested: true,
                        drain_deadline: Some(deadline_after(now, POST_CANCEL_DRAIN_MS)),
                        ..s
                    };
                    true
                } else {
                    false
                }
            },
            LoopEvent::Kill { now } => {
                if !s.terminate_requested {
                    self.state = RunState {
                        cancelled: true,
                        terminate_requested: true,
                        drain_deadline: Some(deadline_after(now, POST_CANCEL_DRAIN_MS)),
                        ..s
                    };
                    true
                } else {
                    self.state = RunState { cancelled: true, ..s };
                    false
                }
            },
            LoopEvent::ReaderDone => {
                self.state = RunState { reader_done: true, ..s };
                false
            },
            LoopEvent::Exited { code, now } => {
                if s.exit_code.is_none() {
                    if !s.reader_done && s.drain_deadline.is_none() {
                        self.state = RunState {
                            exit_code: Some(code),
                            drain_deadline: Some(deadline_after(now, POST_EXIT_DRAIN_MS)),
                            ..s
                        };
                    } else {
                        self.state = RunState { exit_code: Some(code), ..s };
                    }
                }
                false
            },
        }
    }

    /// Applies a control message received at time `now`, and says what the
    /// loop must do to the terminal or the process for it.
    pub fn apply_control(&mut self, message: ControlMessage, now: u64) -> (r: LoopAction)
        ensures
            match message {
                ControlMessage::Input(data) => final(self)@ == old(self)@ && r == LoopAction::Write(
                    data,
                ),
                ControlMessage::Resize { cols, rows } => final(self)@ == old(self)@ && r
                    == LoopAction::Resize(TerminalSize { cols, rows }),
                ControlMessage::Kill => final(self)@ == next(old(self)@, LoopEvent::Kill { now })
                    && (r == LoopAction::Terminate <==> terminates(
                    old(self)@,
                    LoopEvent::Kill { now },
                )) && (r == LoopAction::Terminate || r == LoopAction::Nothing),
            },
            final(self).phase() == old(self).phase(),
    {
        match message {
            ControlMessage::Input(data) => LoopAction::Write(data),
            ControlMessage::Resize { cols, rows } => LoopAction::Resize(TerminalSize { cols, rows }),
            ControlMessage::Kill => {
                if self.handle(LoopEvent::Kill { now }) {
                    LoopAction::Terminate
                } else {
                    LoopAction::Nothing
                }
            },
        }
    }

    /// What to do next at time `now`.
    pub fn next_poll(&mut self, now: u64) -> (r: Poll)
        ensures
            (r, final(self).phase()) == poll_spec(old(self)@, old(self).phase(), now),
            final(self)@ == old(self)@,
    {
        let s = self.state;
        let complete = s.exit_code.is_some() && s.reader_done;
        let (r, p) = match self.phase {
            Phase::Start => if complete {
                (Poll::Stop, Phase::Stopped)
            } else if !s.terminate_requested {
                (Poll::AskHeartbeat, Phase::Controls(0))
            } else {
                (Poll::TakeControl, Phase::Controls(0))
            },
            Phase::Controls(n) => if n < CONTROL_MESSAGES_PER_TICK {
                (Poll::TakeControl, Phase::Controls(n))
            } else {
                (Poll::TakeReaderEvent, Phase::Readers(0))
            },
            Phase::Readers(n) => if n < READER_EVENTS_PER_TICK {
                (Poll::TakeReaderEvent, Phase::Readers(n))
            } else {
                self.exit_poll(now)
            },
            Phase::ExitCheck => self.exit_poll(now),
            Phase::Deadline => self.deadline_poll(now),
            Phase::Stopped => (Poll::Stop, Phase::Stopped),
        };
        self.phase = p;
        r
    }

    fn exit_poll(&self, now: u64) -> (r: (Poll, Phase))
        ensures
            r == exit_poll(self@, now),
    {
        if self.state.exit_code.is_none() {
            (Poll::PollExit, Phase::Deadline)
        } else {
            self.deadline_poll(now)
        }
    }

    fn deadline_poll(&self, now: u64) -> (r: (Poll, Phase))
        ensures
            r == deadline_poll(self@, now),
    {
        if self.deadline_reached(now) || self.is_complete() {
            (Poll::Stop, Phase::Stopped)
        } else {
            (Poll::Sleep(TICK_MS), Phase::Start)
        }
    }

    /// One control message or reader event was taken.
    pub fn taken(&mut self)
        ensures
            final(self)@ == old(self)@,
            final(self).phase() == after_taken(old(self).phase()),
    {
        self.phase = match self.phase {
            Phase::Controls(n) => if n < CONTROL_MESSAGES_PER_TICK {
                Phase::Controls(n + 1)
            } else {
                Phase::Controls(n)
            },
            Phase::Readers(n) => if n < READER_EVENTS_PER_TICK {
                Phase::Readers(n + 1)
            } else {
                Phase::Readers(n)
            },
            p => p,
        };
    }

    /// The source being taken from had nothing more for this tick.
    pub fn drained(&mut self)
        ensures
            final(self)@ == old(self)@,
            final(self).phase() == after_drained(old(self).phase()),
    {
        self.phase = match self.phase {
            Phase::Controls(_) => Phase::Readers(0),
            Phase::Readers(_) => Phase::ExitCheck,
            p => p,
        };
    }

    /// Whether the cancellation controller is still to be asked: only until
    /// termination has been requested.
    pub fn wants_heartbeat(&self) -> (r: bool)
        ensures
            r == !self@.terminate_requested,
    {
        !self.state.terminate_requested
    }

    /// Whether the command's exit is still to be polled.
    pub fn wants_exit_poll(&self) -> (r: bool)
        ensures
            r == (self@.exit_code is None),
    {
        self.state.exit_code.is_none()
    }

    /// Whether the run is over: the command exited and the reader is done.
    pub fn is_complete(&self) -> (r: bool)
        ensures
            r == (self@.exit_code is Some && self@.reader_done),
    {
        self.state.exit_code.is_some() && self.state.reader_done
    }

    /// Whether the loop must stop waiting for output at time `now`.
    pub fn deadline_reached(&self, now: u64) -> (r: bool)
        ensures
            r == deadline_reached(self@, now),
    {
        match self.state.drain_deadline {
            Some(d) => now >= d,
            None => false,
        }
    }

    /// How the exit code is obtained after the loop.
    pub fn final_wait(&self) -> (r: FinalWait)
        ensures
            r == (if self@.exit_code is Some {
                FinalWait::Known
            } else if self@.terminate_requested {
                FinalWait::Poll
            } else {
                FinalWait::Block
            }),
    {
        if self.state.exit_code.is_some() {
            FinalWait::Known
        } else if self.state.terminate_requested {
            FinalWait::Poll
        } else {
            FinalWait::Block
        }
    }

    /// Records the exit code found after the loop, if any was.
    pub fn record_final_exit(&mut self, code: Option<i32>)
        ensures
            final(self)@ == (match code {
                Some(c) => if old(self)@.exit_code is None {
                    RunState { exit_code: Some(c), ..old(self)@ }
                } else {
                    old(self)@
                },
                None => old(self)@,
            }),
            final(self).phase() == old(self).phase(),
    {
        if let Some(c) = code {
            if self.state.exit_code.is_none() {
                self.state = RunState { exit_code: Some(c), ..self.state };
            }
        }
    }

    /// Whether the reader thread may be joined: only once it signalled the end,
    /// since a descendant may hold the terminal open for ever.
    pub fn may_join_reader(&self) -> (r: bool)
        ensures
            r == self@.reader_done,
    {
        self.state.reader_done
    }

    /// The result of the run.
    pub fn result(&self) -> (r: PtyRunResult)
        ensures
            r == result_of(self@),
    {
        PtyRunResult {
            exit_code: self.state.exit_code,
            cancelled: self.state.cancelled,
            timed_out: self.state.timed_out,
        }
    }
}

proof fn lemma_run_append(s: RunState, a: Seq<LoopEvent>, b: Seq<LoopEvent>)
    ensures
        run(s, a + b) == run(run(s, a), b),
    decreases b.len(),
{
    if b.len() == 0 {
        assert(a + b =~= a);
    } else {
        lemma_run_append(s, a, b.drop_last());
        assert((a + b).drop_last() =~= a + b.drop_last());
        assert((a + b).last() == b.last());
    }
}

proof fn lemma_cancelled_kept(s: RunState, events: Seq<LoopEvent>)
    requires
        s.cancelled,
        s.terminate_requested,
    ensures
        run(s, events).cancelled,
        run(s, events).terminate_requested,
    decreases events.len(),
{
    if events.len() > 0 {
        lemma_cancelled_kept(s, events.drop_last());
    }
}

proof fn lemma_timeout_kept(s: RunState, events: Seq<LoopEvent>)
    requires
        s.timed_out,
        !s.cancelled,
        s.terminate_requested,
        forall|j: int| 0 <= j < events.len() ==> !(#[trigger] events[j] is Kill),
    ensures
        run(s, events).timed_out,
        !run(s, events).cancelled,
        run(s, events).terminate_requested,
    decreases events.len(),
{
    if events.len() > 0 {
        let prefix = events.drop_last();
        assert forall|j: int| 0 <= j < prefix.len() implies !(#[trigger] prefix[j] is Kill) by {
            assert(prefix[j] == events[j]);
        }
        lemma_timeout_kept(s, prefix);
        assert(!(events[events.len() - 1] is Kill));
    }
}

/// A run whose controller reports a timeout before termination was requested
/// asks for the process tree to be terminated at that moment, and, unless the
/// caller also sends a kill, ends timed out and not cancelled.
pub proof fn lemma_timeout_reported(before: Seq<LoopEvent>, now: u64, after: Seq<LoopEvent>)
    requires
        !run(initial(), before).terminate_requested,
        forall|j: int| 0 <= j < after.len() ==> !(#[trigger] after[j] is Kill),
    ensures
        terminates(run(initial(), before), LoopEvent::Beat { status: Heartbeat::TimedOut, now }),
        result_of(
            run(initial(), before.push(LoopEvent::Beat { status: Heartbeat::TimedOut, now }) + after),
        ).timed_out,
        !result_of(
            run(initial(), before.push(LoopEvent::Beat { status: Heartbeat::TimedOut, now }) + after),
        ).cancelled,
{
    let e = LoopEvent::Beat { status: Heartbeat::TimedOut, now };
    let p = before.push(e);
    assert(p.drop_last() =~= before);
    lemma_run_append(initial(), p, after);
    lemma_timeout_kept(run(initial(), p), after);
}

/// A run that receives a kill ends cancelled, whatever else happens.
pub proof fn lemma_kill_reported(before: Seq<LoopEvent>, now: u64, after: Seq<LoopEvent>)
    ensures
        result_of(run(initial(), before.push(LoopEvent::Kill { now }) + after)).cancelled,
{
    let p = before.push(LoopEvent::Kill { now });
    assert(p.drop_last() =~= before);
    lemma_run_append(initial(), p, after);
    lemma_cancelled_kept(run(initial(), p), after);
}

/// Whether an event leaves a run's termination alone: no kill, and no
/// heartbeat that reports a timeout or a cancellation.
pub open spec fn quiet(e: LoopEvent) -> bool {
    match e {
        LoopEvent::Beat { status, now } => status == Heartbeat::Running,
        LoopEvent::Kill { now } => false,
        _ => true,
    }
}

proof fn lemma_exit_kept(s: RunState, code: i32, d: u64, events: Seq<LoopEvent>)
    requires
        s.exit_code == Some(code),
        s.drain_deadline is Some,
    ensures
        run(s, events).exit_code == Some(code),
        run(s, events).drain_deadline is Some,
        (forall|j: int| 0 <= j < events.len() ==> quiet(#[trigger] events[j])) ==> run(
            s,
            events,
        ).drain_deadline == s.drain_deadline,
    decreases events.len(),
{
    if events.len() > 0 {
        let prefix = events.drop_last();
        lemma_exit_kept(s, code, d, prefix);
        if forall|j: int| 0 <= j < events.len() ==> quiet(#[trigger] events[j]) {
            assert forall|j: int| 0 <= j < prefix.len() implies quiet(#[trigger] prefix[j]) by {
                assert(prefix[j] == events[j]);
            }
            assert(quiet(events[events.len() - 1]));
        }
    }
}

/// Once the command has exited, output is awaited for a bounded time only. A
/// drain deadline is armed from then on and the exit code is kept for the
/// result, even if the reader never signals its end. Where none was armed
/// before, the deadline lies at most `POST_EXIT_DRAIN_MS` after the exit, and
/// stays there as long as no kill, timeout or cancellation follows: from then
/// on the end of each tick stops the loop.
pub proof fn lemma_exit_bounds_drain(
    s: RunState,
    code: i32,
    now: u64,
    events: Seq<LoopEvent>,
    t: u64,
)
    requires
        s.exit_code is None,
        !s.reader_done,
        t >= later(now, POST_EXIT_DRAIN_MS),
    ensures
        ({
            let u = run(next(s, LoopEvent::Exited { code, now }), events);
            &&& result_of(u).exit_code == Some(code)
            &&& u.drain_deadline is Some
            &&& ((s.drain_deadline is None && forall|j: int|
                0 <= j < events.len() ==> quiet(#[trigger] events[j])) ==> deadline_reached(u, t)
                && poll_spec(u, Phase::Deadline, t) == (Poll::Stop, Phase::Stopped))
        }),
{
    let x = next(s, LoopEvent::Exited { code, now });
    lemma_exit_kept(x, code, x.drain_deadline->0, events);
}

/// The phase reached from `p` after `k` messages or events were taken.
pub open spec fn after_takes(p: Phase, k: nat) -> Phase
    decreases k,
{
    if k == 0 {
        p
    } else {
        after_taken(after_takes(p, (k - 1) as nat))
    }
}

/// No tick drains a source without bound: a tick asks for a control message
/// exactly as long as fewer than `CONTROL_MESSAGES_PER_TICK` were taken in it,
/// and for a reader event exactly as long as fewer than
/// `READER_EVENTS_PER_TICK` were.
pub proof fn lemma_tick_bounded(s: RunState, now: u64, k: nat)
    ensures
        k <= CONTROL_MESSAGES_PER_TICK ==> after_takes(Phase::Controls(0), k) == Phase::Controls(
            k as usize,
        ),
        k <= CONTROL_MESSAGES_PER_TICK ==> (poll_spec(s, Phase::Controls(k as usize), now).0
            == Poll::TakeControl <==> k < CONTROL_MESSAGES_PER_TICK),
        k <= READER_EVENTS_PER_TICK ==> after_takes(Phase::Readers(0), k) == Phase::Readers(
            k as usize,
        ),
        k <= READER_EVENTS_PER_TICK ==> (poll_spec(s, Phase::Readers(k as usize), now).0
            == Poll::TakeReaderEvent <==> k < READER_EVENTS_PER_TICK),
    decreases k,
{
    if k > 0 {
        lemma_tick_bounded(s, now, (k - 1) as nat);
    }
}

} // verus!
