use vstd::prelude::*;

verus! {

/// Why a start or stop request on a background-task slot was refused.
#[derive(Debug, Clone, Copy, PartialEq, Eq, Structural)]
pub enum LifecycleError {
    AlreadyRunning,
    NotRunning,
}

/// The services that the supervising layer keeps one instance of each.
#[derive(Debug, Clone, Copy, PartialEq, Eq, Structural)]
pub enum ServiceKind {
    WebSocket,
    Serial,
}

/// The message shown to the user when a start or stop of a service is refused.
pub open spec fn service_message_spec(kind: ServiceKind, e: LifecycleError) -> Seq<char> {
    match (kind, e) {
        (ServiceKind::WebSocket, LifecycleError::AlreadyRunning) => "WebSocket服务已经在运行中"@,
        (ServiceKind::WebSocket, LifecycleError::NotRunning) => "WebSocket服务未启动"@,
        (ServiceKind::Serial, LifecycleError::AlreadyRunning) => "串口服务已经在运行中"@,
        (ServiceKind::Serial, LifecycleError::NotRunning) => "串口服务未启动"@,
    }
}

pub fn service_message(kind: ServiceKind, e: LifecycleError) -> (r: String)
    ensures
        r@ == service_message_spec(kind, e),
{
    match (kind, e) {
        (ServiceKind::WebSocket, LifecycleError::AlreadyRunning) => String::from_str("WebSocket服务已经在运行中"),
        (ServiceKind::WebSocket, LifecycleError::NotRunning) => String::from_str("WebSocket服务未启动"),
        (ServiceKind::Serial, LifecycleError::AlreadyRunning) => String::from_str("串口服务已经在运行中"),
        (ServiceKind::Serial, LifecycleError::NotRunning) => String::from_str("串口服务未启动"),
    }
}

/// The slot after a start request that brings handle `h`, and the answer.
pub open spec fn start_spec<H>(slot: Option<H>, h: H) -> (Option<H>, Result<(), LifecycleError>) {
    match slot {
        Some(_) => (slot, Err(LifecycleError::AlreadyRunning)),
        None => (Some(h), Ok(())),
    }
}

/// The slot after a stop request, and the answer: the handle that was held.
pub open spec fn stop_spec<H>(slot: Option<H>) -> (Option<H>, Result<H, LifecycleError>) {
    match slot {
        Some(h) => (None, Ok(h)),
        None => (None, Err(LifecycleError::NotRunning)),
    }
}

/// Holds at most one handle to a running background task.
/// Filling an occupied slot and emptying an empty one are refused.
pub struct TaskSlot<H> {
    handle: Option<H>,
}

impl<H> View for TaskSlot<H> {
    type V = Option<H>;

    closed spec fn view(&self) -> Option<H> {
        self.handle
    }
}

impl<H> TaskSlot<H> {
    /// An empty slot: nothing runs.
    pub fn new() -> (r: Self)
        ensures
            r@ is None,
    {
        TaskSlot { handle: None }
    }

    pub fn is_running(&self) -> (r: bool)
        ensures
            r == self@ is Some,
    {
        self.handle.is_some()
    }

    /// Refuses with `AlreadyRunning` exactly when a task is held.
    pub fn check_start(&self) -> (r: Result<(), LifecycleError>)
        ensures
            r == (if self@ is Some { Err(LifecycleError::AlreadyRunning) } else { Ok(()) }),
    {
        if self.handle.is_some() {
            Err(LifecycleError::AlreadyRunning)
        } else {
            Ok(())
        }
    }

    /// Stores `h` if the slot is empty; otherwise keeps the running task
    /// and answers `AlreadyRunning`.
    pub fn start(&mut self, h: H) -> (r: Result<(), LifecycleError>)
        ensures
            (final(self)@, r) == start_spec(old(self)@, h),
    {
        if self.handle.is_some() {
            Err(LifecycleError::AlreadyRunning)
        } else {
            self.handle = Some(h);
            Ok(())
        }
    }

    /// Takes the held handle out, leaving the slot empty; answers
    /// `NotRunning` if there was none.
    pub fn stop(&mut self) -> (r: Result<H, LifecycleError>)
        ensures
            (final(self)@, r) == stop_spec(old(self)@),
    {
        match self.handle.take() {
            Some(h) => Ok(h),
            None => Err(LifecycleError::NotRunning),
        }
    }
}

/// A second start without a stop between is refused with `AlreadyRunning`,
/// and the slot still holds the task of the first start: never two tasks.
pub proof fn lemma_second_start_refused<H>(slot: Option<H>, h1: H, h2: H)
    ensures
        start_spec(start_spec(slot, h1).0, h2).1 == Err::<(), LifecycleError>(LifecycleError::AlreadyRunning),
        start_spec(start_spec(slot, h1).0, h2).0 == start_spec(slot, h1).0,
        slot is None ==> start_spec(start_spec(slot, h1).0, h2).0 == Some(h1),
{
}

/// Stopping an idle slot, or one that was just stopped, is refused with
/// `NotRunning`, and the slot stays empty.
pub proof fn lemma_stop_when_idle_refused<H>(slot: Option<H>)
    ensures
        slot is None ==> stop_spec(slot) == (None::<H>, Err::<H, LifecycleError>(LifecycleError::NotRunning)),
        stop_spec(stop_spec(slot).0) == (None::<H>, Err::<H, LifecycleError>(LifecycleError::NotRunning)),
{
}

/// From idle: start, a refused second start, then one stop that succeeds,
/// hands back the first task and leaves the slot idle again.
pub proof fn lemma_start_twice_then_stop<H>(h1: H, h2: H)
    ensures
        ({
            let (s1, r1) = start_spec(None::<H>, h1);
            let (s2, r2) = start_spec(s1, h2);
            let (s3, r3) = stop_spec(s2);
            r1 is Ok && r2 == Err::<(), LifecycleError>(LifecycleError::AlreadyRunning)
                && r3 == Ok::<H, LifecycleError>(h1) && s3 is None
        }),
{
}

} // verus!
