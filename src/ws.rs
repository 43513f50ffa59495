use vstd::prelude::*;

use crate::lifecycle::TaskSlot;
use crate::registry::ConnectionRegistry;

verus! {

/// The largest TCP port number.
pub const MAX_PORT: u32 = 65535;

/// Why a WebSocket server refused to start.
#[derive(Debug, PartialEq, Eq)]
pub enum WsError {
    /// An accept loop is already active.
    AlreadyRunning,
    /// The listening socket could not be bound; the cause as text.
    BindError(String),
}

/// The decimal digits of `n`, most significant first.
pub open spec fn decimal(n: nat) -> Seq<char>
    decreases n,
{
    if n < 10 {
        digit_text(n)
    } else {
        decimal(n / 10) + digit_text(n % 10)
    }
}

/// The one-character text of a decimal digit.
pub open spec fn digit_text(d: nat) -> Seq<char> {
    if d == 0 {
        "0"@
    } else if d == 1 {
        "1"@
    } else if d == 2 {
        "2"@
    } else if d == 3 {
        "3"@
    } else if d == 4 {
        "4"@
    } else if d == 5 {
        "5"@
    } else if d == 6 {
        "6"@
    } else if d == 7 {
        "7"@
    } else if d == 8 {
        "8"@
    } else {
        "9"@
    }
}

fn digit_string(d: u32) -> (r: String)
    requires
        d < 10,
    ensures
        r@ == digit_text(d as nat),
{
    if d == 0 {
        String::from_str("0")
    } else if d == 1 {
        String::from_str("1")
    } else if d == 2 {
        String::from_str("2")
    } else if d == 3 {
        String::from_str("3")
    } else if d == 4 {
        String::from_str("4")
    } else if d == 5 {
        String::from_str("5")
    } else if d == 6 {
        String::from_str("6")
    } else if d == 7 {
        String::from_str("7")
    } else if d == 8 {
        String::from_str("8")
    } else {
        String::from_str("9")
    }
}

/// `n` written in decimal.
pub fn decimal_text(n: u32) -> (r: String)
    ensures
        r@ == decimal(n as nat),
    decreases n,
{
    if n < 10 {
        digit_string(n)
    } else {
        let mut text = decimal_text(n / 10);
        let last = digit_string(n % 10);
        text.append(last.as_str());
        text
    }
}

/// The address a server on `port` binds: the loopback host, a colon, the
/// port in decimal. Only local connections are accepted.
pub open spec fn listen_address_spec(port: nat) -> Seq<char> {
    "127.0.0.1:"@ + decimal(port)
}

/// Relies on `uuid::Uuid::new_v4` and its `Display`: a fresh random id in
/// the hyphenated form, 36 characters.
#[verifier::external_body]
fn random_client_id() -> (r: String)
    ensures
        r@.len() == 36,
{
    uuid::Uuid::new_v4().to_string()
}

/// One frame read from a client, as the connection loop sees it.
pub enum InboundFrame {
    Text(String),
    Close,
    /// A binary, ping, pong or other frame: not part of this protocol.
    Other,
    /// The read failed; the cause as text.
    Failed(String),
}

/// What the connection loop does with a frame.
#[derive(Debug, PartialEq, Eq)]
pub enum FrameAction {
    /// Hand the text to the message handler, then read on.
    Dispatch(String),
    /// Remove the client from the registry and end its loop.
    Deregister,
    /// Report a frame of an undefined type, then read on.
    Ignore,
    /// Report the failure, then read on.
    Report(String),
}

/// The decision for one inbound frame.
pub fn on_frame(frame: InboundFrame) -> (r: FrameAction)
    ensures
        match frame {
            InboundFrame::Text(t) => r == FrameAction::Dispatch(t),
            InboundFrame::Close => r == FrameAction::Deregister,
            InboundFrame::Other => r == FrameAction::Ignore,
            InboundFrame::Failed(e) => r == FrameAction::Report(e),
        },
{
    match frame {
        InboundFrame::Text(t) => FrameAction::Dispatch(t),
        InboundFrame::Close => FrameAction::Deregister,
        InboundFrame::Other => FrameAction::Ignore,
        InboundFrame::Failed(e) => FrameAction::Report(e),
    }
}

/// Whether the connection loop ends after `action`: only a close does.
pub fn ends_connection(action: &FrameAction) -> (r: bool)
    ensures
        r == (*action is Deregister),
{
    match action {
        FrameAction::Deregister => true,
        _ => false,
    }
}

/// How many ids a registration draws before it gives up.
pub const REGISTER_ATTEMPTS: usize = 8;

/// Registers `sender` under `id` if no client holds that id yet; answers
/// whether it did. A taken id leaves the registry as it was.
pub fn register_with_id<S>(clients: &mut ConnectionRegistry<S>, id: String, sender: S) -> (r: bool)
    requires
        old(clients).wf(),
    ensures
        final(clients).wf(),
        r == !old(clients)@.contains_key(id@),
        final(clients)@ == (if r { old(clients)@.insert(id@, sender) } else { old(clients)@ }),
{
    if clients.contains(&id) {
        false
    } else {
        clients.insert(id, sender);
        true
    }
}

/// Registers a client that completed its handshake under a fresh random
/// id, one that no registered client holds, and returns it. Ids are drawn
/// again while they are taken, at most `REGISTER_ATTEMPTS` times; `None`,
/// with the registry unchanged, when every draw was taken.
pub fn register_client<S>(clients: &mut ConnectionRegistry<S>, sender: S) -> (r: Option<String>)
    requires
        old(clients).wf(),
    ensures
        final(clients).wf(),
        match r {
            Some(id) => !old(clients)@.contains_key(id@) && final(clients)@ == old(clients)@.insert(id@, sender)
                && id@.len() == 36,
            None => final(clients)@ == old(clients)@,
        },
{
    let mut attempt: usize = 0;
    while attempt < REGISTER_ATTEMPTS
        invariant
            clients.wf(),
            clients@ == old(clients)@,
        decreases REGISTER_ATTEMPTS - attempt,
    {
        let id = random_client_id();
        if !clients.contains(&id) {
            let key = id.clone();
            clients.insert(key, sender);
            return Some(id);
        }
        attempt = attempt + 1;
    }
    None
}

/// The accept-loop task after a start whose bind had outcome `bound`, and
/// the answer.
pub open spec fn start_serving_spec<H>(task: Option<H>, bound: Result<H, String>) -> (Option<H>, Result<(), WsError>) {
    match task {
        Some(_) => (task, Err(WsError::AlreadyRunning)),
        None => match bound {
            Ok(h) => (Some(h), Ok(())),
            Err(e) => (None, Err(WsError::BindError(e))),
        },
    }
}

/// A second start without a stop between is refused with
/// `AlreadyRunning`, whatever its bind gave, and the first accept loop
/// stays the only one.
pub proof fn lemma_second_serve_refused<H>(task: Option<H>, first: Result<H, String>, second: Result<H, String>)
    ensures
        ({
            let (t1, r1) = start_serving_spec(task, first);
            let (t2, r2) = start_serving_spec(t1, second);
            t1 is Some ==> r2 == Err::<(), WsError>(WsError::AlreadyRunning) && t2 == t1
        }),
        task is None ==> (first matches Ok(h) ==> start_serving_spec(start_serving_spec(task, first).0, second)
            == (Some(h), Err::<(), WsError>(WsError::AlreadyRunning))),
{
}

/// A WebSocket server's own state: its port, the message handler, and
/// the slot of its accept-loop task. The client registry is kept apart,
/// under a lock of its own.
pub struct WsServer<H, M> {
    port: u32,
    message_handler: Option<M>,
    ws_task: TaskSlot<H>,
}

impl<H, M> WsServer<H, M> {
    pub closed spec fn spec_port(&self) -> u32 {
        self.port
    }

    pub closed spec fn spec_handler(&self) -> Option<M> {
        self.message_handler
    }

    /// The accept-loop task, if one is active.
    pub closed spec fn spec_task(&self) -> Option<H> {
        self.ws_task@
    }

    /// An idle server: nothing is bound, no handler attached.
    pub fn new(port: &u32) -> (r: Self)
        ensures
            r.spec_port() == *port,
            r.spec_handler() is None,
            r.spec_task() is None,
    {
        WsServer { port: *port, message_handler: None, ws_task: TaskSlot::new() }
    }

    /// Attaches the message handler, replacing any earlier one.
    pub fn on_message(self, handler: M) -> (r: Self)
        ensures
            r.spec_handler() == Some(handler),
            r.spec_port() == self.spec_port(),
            r.spec_task() == self.spec_task(),
    {
        WsServer { message_handler: Some(handler), ..self }
    }

    pub fn port(&self) -> (r: u32)
        ensures
            r == self.spec_port(),
    {
        self.port
    }

    pub fn message_handler(&self) -> (r: &Option<M>)
        ensures
            *r == self.spec_handler(),
    {
        &self.message_handler
    }

    pub fn is_running(&self) -> (r: bool)
        ensures
            r == self.spec_task() is Some,
    {
        self.ws_task.is_running()
    }

    /// The address to bind, checked before anything is bound:
    /// `AlreadyRunning` while an accept loop is active, `BindError` for a
    /// port beyond the TCP range.
    pub fn listen_address(&self) -> (r: Result<String, WsError>)
        ensures
            self.spec_task() is Some ==> r == Err::<String, WsError>(WsError::AlreadyRunning),
            self.spec_task() is None && self.spec_port() > MAX_PORT ==> r matches Err(WsError::BindError(_)),
            self.spec_task() is None && self.spec_port() <= MAX_PORT ==> (r matches Ok(a)
                && a@ == listen_address_spec(self.spec_port() as nat)),
    {
        if self.ws_task.is_running() {
            return Err(WsError::AlreadyRunning);
        }
        if self.port > MAX_PORT {
            return Err(WsError::BindError("port out of range".to_owned()));
        }
        let mut address = String::from_str("127.0.0.1:");
        let digits = decimal_text(self.port);
        address.append(digits.as_str());
        Ok(address)
    }

    /// Completes a start with the outcome of binding: the accept-loop task
    /// spawned on the bound socket, or the cause of the failure. A failure
    /// leaves the server idle.
    pub fn start(&mut self, bound: Result<H, String>) -> (r: Result<(), WsError>)
        ensures
            final(self).spec_port() == old(self).spec_port(),
            final(self).spec_handler() == old(self).spec_handler(),
            (final(self).spec_task(), r) == start_serving_spec(old(self).spec_task(), bound),
    {
        if self.ws_task.is_running() {
            return Err(WsError::AlreadyRunning);
        }
        match bound {
            Ok(h) => {
                let _ = self.ws_task.start(h);
                Ok(())
            },
            Err(e) => Err(WsError::BindError(e)),
        }
    }

    /// Stops the server: every client entry is handed back, to be closed,
    /// and the registry is left empty; the accept-loop task, if any, is
    /// handed back to be aborted, and the server is idle. Stopping an idle
    /// server does nothing more than that.
    pub fn stop<S>(&mut self, clients: &mut ConnectionRegistry<S>) -> (r: (Vec<(String, S)>, Option<H>))
        requires
            old(clients).wf(),
        ensures
            final(self).spec_port() == old(self).spec_port(),
            final(self).spec_handler() == old(self).spec_handler(),
            final(self).spec_task() is None,
            r.1 == old(self).spec_task(),
            final(clients).wf(),
            final(clients)@ == Map::<Seq<char>, S>::empty(),
            r.0.len() == old(clients)@.len(),
            forall|i: int| 0 <= i < r.0.len() ==> old(clients)@.contains_key(#[trigger] r.0@[i].0@)
                && old(clients)@[r.0@[i].0@] == r.0@[i].1,
            forall|k: Seq<char>| old(clients)@.contains_key(k) ==> exists|i: int| 0 <= i < r.0.len() && #[trigger] r.0@[i].0@ == k,
            forall|i: int, j: int| 0 <= i < j < r.0.len() ==> r.0@[i].0@ != r.0@[j].0@,
    {
        let drained = clients.drain();
        let task = match self.ws_task.stop() {
            Ok(h) => Some(h),
            Err(_) => None,
        };
        let ghost dv = drained@;
        let r = (drained, task);
        assert forall|k: Seq<char>| old(clients)@.contains_key(k) implies exists|i: int| 0 <= i < r.0.len() && #[trigger] r.0@[i].0@ == k by {
            let i = choose|i: int| 0 <= i < dv.len() && #[trigger] dv[i].0@ == k;
            assert(r.0@[i].0@ == k);
        }
        r
    }
}

} // verus!
