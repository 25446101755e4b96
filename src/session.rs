//! Whether a session has a run in progress, and the handle through which
//! control messages reach that run.

use vstd::prelude::*;

verus! {

/// The conditions that a session reports to its caller.
#[derive(Clone, Copy, Debug, PartialEq, Eq, Structural)]
pub enum SessionError {
    /// The lock around the session was poisoned by a panic.
    LockPoisoned,
    /// A run was started while another was in progress.
    AlreadyRunning,
    /// A control message was sent while no run was in progress.
    NotRunning,
    /// The run stopped taking control messages.
    ChannelClosed,
}

/// The state of a session: idle, or running with the handle of its control
/// channel. At most one run is in progress at a time.
pub struct SessionSlot<T> {
    active: Option<T>,
}

/// The state after a run is begun on a session in state `s`: a session already
/// running stays as it was.
pub open spec fn after_begin<T>(s: Option<T>, control: T) -> Option<T> {
    match s {
        Some(_) => s,
        None => Some(control),
    }
}

/// The state after a run ends, however it ended.
pub open spec fn after_end<T>(s: Option<T>) -> Option<T> {
    None
}

/// The condition, if any, that a control message sent in state `s` meets.
pub open spec fn control_refusal<T>(s: Option<T>) -> Option<SessionError> {
    match s {
        Some(_) => None,
        None => Some(SessionError::NotRunning),
    }
}

/// The condition, if any, that starting a run in state `s` meets.
pub open spec fn begin_refusal<T>(s: Option<T>) -> Option<SessionError> {
    match s {
        Some(_) => Some(SessionError::AlreadyRunning),
        None => None,
    }
}

impl<T> SessionSlot<T> {
    pub closed spec fn view(&self) -> Option<T> {
        self.active
    }

    /// An idle session.
    pub fn new() -> (r: Self)
        ensures
            r@ == None::<T>,
    {
        SessionSlot { active: None }
    }

    pub fn is_running(&self) -> (r: bool)
        ensures
            r == self@ is Some,
    {
        self.active.is_some()
    }

    /// Marks a run as in progress, with `control` as its control channel. A
    /// session already running refuses, and its run is left untouched.
    pub fn begin(&mut self, control: T) -> (r: Result<(), SessionError>)
        ensures
            final(self)@ == after_begin(old(self)@, control),
            r is Err <==> begin_refusal(old(self)@) is Some,
            r matches Err(e) ==> begin_refusal(old(self)@) == Some(e),
    {
        if self.active.is_some() {
            return Err(SessionError::AlreadyRunning);
        }
        self.active = Some(control);
        Ok(())
    }

    /// The control channel of the run in progress, if there is one.
    pub fn control(&self) -> (r: Result<&T, SessionError>)
        ensures
            r is Err <==> control_refusal(self@) is Some,
            r matches Err(e) ==> control_refusal(self@) == Some(e),
            r matches Ok(h) ==> self@ == Some(*h),
    {
        match &self.active {
            Some(h) => Ok(h),
            None => Err(SessionError::NotRunning),
        }
    }

    /// Marks the run as over, whatever its outcome, and hands back its control
    /// channel.
    pub fn end(&mut self) -> (r: Option<T>)
        ensures
            final(self)@ == after_end(old(self)@),
            r == old(self)@,
    {
        self.active.take()
    }
}

/// A control message sent to a session that has never run, or whose run is
/// over, is refused as "not running".
pub proof fn lemma_control_needs_run<T>(control: T)
    ensures
        control_refusal(None::<T>) == Some(SessionError::NotRunning),
        control_refusal(after_begin(None::<T>, control)) is None,
        control_refusal(after_end(after_begin(None::<T>, control))) == Some(
            SessionError::NotRunning,
        ),
{
}

/// Starting a run while one is in progress is refused as "already running",
/// and the run in progress keeps its control channel.
pub proof fn lemma_second_start_refused<T>(first: T, second: T)
    ensures
        begin_refusal(after_begin(None::<T>, first)) == Some(SessionError::AlreadyRunning),
        after_begin(after_begin(None::<T>, first), second) == Some(first),
        control_refusal(after_begin(after_begin(None::<T>, first), second)) is None,
{
}

} // verus!
