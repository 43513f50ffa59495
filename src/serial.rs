use vstd::prelude::*;

use crate::lifecycle::TaskSlot;

verus! {

/// Size of the buffer that one device read fills.
pub const READ_BUFFER_LEN: usize = 255;

/// Why a serial listener refused to start or stop.
#[derive(Debug, PartialEq, Eq)]
pub enum SerialError {
    /// A read loop is already active.
    AlreadyListening,
    /// No read loop is active.
    NotListening,
    /// The device could not be opened; the cause as text.
    OpenError(String),
}

/// What `String::from_utf8_lossy` makes of a byte sequence.
pub uninterp spec fn lossy_utf8(b: Seq<u8>) -> Seq<char>;

/// Each byte read as the character of the same code.
pub open spec fn ascii_chars(b: Seq<u8>) -> Seq<char> {
    b.map_values(|x: u8| x as char)
}

pub open spec fn is_ascii_bytes(b: Seq<u8>) -> bool {
    forall|i: int| 0 <= i < b.len() ==> b[i] < 128
}

/// Relies on `String::from_utf8_lossy`: the text of the bytes, with each
/// invalid sequence replaced; valid UTF-8, ASCII among it, comes out as is.
#[verifier::external_body]
fn decode_lossy(bytes: &[u8]) -> (r: String)
    ensures
        r@ == lossy_utf8(bytes@),
        is_ascii_bytes(bytes@) ==> r@ == ascii_chars(bytes@),
{
    String::from_utf8_lossy(bytes).into_owned()
}

/// The text handed to the data callback for one read, or `None` where the
/// read loop ends: a read error (`None` in) or the end of the stream
/// (zero bytes).
pub fn read_step(buf: &[u8], read: Option<usize>) -> (r: Option<String>)
    requires
        read matches Some(n) ==> n <= buf@.len(),
    ensures
        match read {
            Some(n) if n > 0 => r matches Some(t) && t@ == lossy_utf8(buf@.subrange(0, n as int))
                && (is_ascii_bytes(buf@.subrange(0, n as int)) ==> t@ == ascii_chars(buf@.subrange(0, n as int))),
            _ => r is None,
        },
{
    match read {
        Some(n) => {
            if n == 0 {
                return None;
            }
            let mut chunk: Vec<u8> = Vec::with_capacity(n);
            let mut i: usize = 0;
            while i < n
                invariant
                    n <= buf@.len(),
                    i <= n,
                    chunk@ == buf@.subrange(0, i as int),
                decreases n - i,
            {
                chunk.push(buf[i]);
                i = i + 1;
                assert(chunk@ =~= buf@.subrange(0, i as int));
            }
            Some(decode_lossy(chunk.as_slice()))
        },
        None => None,
    }
}

/// The texts of successive callback invocations, joined in call order.
pub open spec fn joined(texts: Seq<Seq<char>>) -> Seq<char>
    decreases texts.len(),
{
    if texts.len() == 0 {
        Seq::empty()
    } else {
        texts[0] + joined(texts.drop_first())
    }
}

proof fn lemma_ascii_chars_concat(a: Seq<u8>, b: Seq<u8>)
    ensures
        ascii_chars(a + b) == ascii_chars(a) + ascii_chars(b),
{
    assert(ascii_chars(a + b) =~= ascii_chars(a) + ascii_chars(b));
}

/// However an ASCII byte stream is cut into reads, the texts that the
/// read loop hands the callback, joined in order, are the stream itself.
pub proof fn lemma_chunked_ascii_stream_delivered_whole(chunks: Seq<Seq<u8>>, texts: Seq<Seq<char>>)
    requires
        texts.len() == chunks.len(),
        forall|i: int| 0 <= i < chunks.len() ==> is_ascii_bytes(#[trigger] chunks[i]),
        forall|i: int| 0 <= i < chunks.len() ==> #[trigger] texts[i] == ascii_chars(chunks[i]),
    ensures
        joined(texts) == ascii_chars(chunks.flatten()),
    decreases chunks.len(),
{
    if chunks.len() == 0 {
        assert(ascii_chars(chunks.flatten()) =~= Seq::<char>::empty());
    } else {
        let rest = chunks.drop_first();
        let trest = texts.drop_first();
        assert forall|i: int| 0 <= i < rest.len() implies is_ascii_bytes(#[trigger] rest[i]) by {
            assert(rest[i] == chunks[i + 1]);
        }
        assert forall|i: int| 0 <= i < rest.len() implies #[trigger] trest[i] == ascii_chars(rest[i]) by {
            assert(rest[i] == chunks[i + 1]);
            assert(trest[i] == texts[i + 1]);
        }
        lemma_chunked_ascii_stream_delivered_whole(rest, trest);
        lemma_ascii_chars_concat(chunks[0], rest.flatten());
        assert(texts[0] == ascii_chars(chunks[0]));
    }
}

/// The read-loop task after a start that opened the device with outcome
/// `opened`, and the answer.
pub open spec fn start_listening_spec<H>(task: Option<H>, opened: Result<H, String>) -> (Option<H>, Result<(), SerialError>) {
    match task {
        Some(_) => (task, Err(SerialError::AlreadyListening)),
        None => match opened {
            Ok(h) => (Some(h), Ok(())),
            Err(e) => (None, Err(SerialError::OpenError(e))),
        },
    }
}

/// The read-loop task after a stop, and the answer: the task to abort.
pub open spec fn stop_listening_spec<H>(task: Option<H>) -> (Option<H>, Result<H, SerialError>) {
    match task {
        Some(h) => (None, Ok(h)),
        None => (None, Err(SerialError::NotListening)),
    }
}

proof fn lemma_joined_push(texts: Seq<Seq<char>>, t: Seq<char>)
    ensures
        joined(texts.push(t)) == joined(texts) + t,
    decreases texts.len(),
{
    if texts.len() == 0 {
        assert(texts.push(t).drop_first() =~= Seq::<Seq<char>>::empty());
        assert(joined(texts.push(t).drop_first()) == Seq::<char>::empty());
        assert(texts.push(t)[0] == t);
        assert(joined(texts) == Seq::<char>::empty());
        assert(joined(texts.push(t)) =~= joined(texts) + t);
    } else {
        assert(texts.push(t).drop_first() =~= texts.drop_first().push(t));
        lemma_joined_push(texts.drop_first(), t);
        assert(joined(texts.push(t)) =~= joined(texts) + t);
    }
}

/// A read loop in progress: the bytes it consumed and the texts it handed
/// to the callback, in order, and whether it has ended. Once ended it
/// hands out nothing more.
pub struct ReadLoop {
    consumed: Ghost<Seq<u8>>,
    delivered: Ghost<Seq<Seq<char>>>,
    ended: bool,
}

impl ReadLoop {
    pub closed spec fn spec_consumed(&self) -> Seq<u8> {
        self.consumed@
    }

    pub closed spec fn spec_delivered(&self) -> Seq<Seq<char>> {
        self.delivered@
    }

    pub closed spec fn spec_ended(&self) -> bool {
        self.ended
    }

    /// What was consumed and what was handed out agree on ASCII streams.
    pub closed spec fn wf(&self) -> bool {
        is_ascii_bytes(self.consumed@) ==> joined(self.delivered@) == ascii_chars(self.consumed@)
    }

    /// A loop that has read nothing yet.
    pub fn new() -> (r: Self)
        ensures
            r.spec_consumed() == Seq::<u8>::empty(),
            r.spec_delivered() == Seq::<Seq<char>>::empty(),
            !r.spec_ended(),
            r.wf(),
    {
        assert(ascii_chars(Seq::<u8>::empty()) =~= Seq::<char>::empty());
        ReadLoop { consumed: Ghost(Seq::empty()), delivered: Ghost(Seq::empty()), ended: false }
    }

    pub fn is_ended(&self) -> (r: bool)
        ensures
            r == self.spec_ended(),
    {
        self.ended
    }

    /// One read: the text for the callback, or `None` once the loop has
    /// ended, which this read may do (see `read_step`). Whatever the cuts
    /// between reads, an ASCII stream comes out whole: the texts handed
    /// out, joined in order, are the bytes consumed.
    pub fn step(&mut self, buf: &[u8], read: Option<usize>) -> (r: Option<String>)
        requires
            read matches Some(n) ==> n <= buf@.len(),
            old(self).wf(),
        ensures
            final(self).wf(),
            is_ascii_bytes(final(self).spec_consumed()) ==> joined(final(self).spec_delivered()) == ascii_chars(final(self).spec_consumed()),
            old(self).spec_ended() ==> r is None && *final(self) == *old(self),
            !old(self).spec_ended() ==> match read {
                Some(n) if n > 0 => r matches Some(t) && t@ == lossy_utf8(buf@.subrange(0, n as int))
                    && final(self).spec_consumed() == old(self).spec_consumed() + buf@.subrange(0, n as int)
                    && final(self).spec_delivered() == old(self).spec_delivered().push(t@)
                    && !final(self).spec_ended(),
                _ => r is None && final(self).spec_ended()
                    && final(self).spec_consumed() == old(self).spec_consumed()
                    && final(self).spec_delivered() == old(self).spec_delivered(),
            },
    {
        if self.ended {
            return None;
        }
        let r = read_step(buf, read);
        match &r {
            Some(t) => {
                proof {
                    let n = read->Some_0;
                    let chunk = buf@.subrange(0, n as int);
                    let c0 = self.consumed@;
                    let d0 = self.delivered@;
                    lemma_joined_push(d0, t@);
                    lemma_ascii_chars_concat(c0, chunk);
                    if is_ascii_bytes(c0 + chunk) {
                        assert forall|i: int| 0 <= i < c0.len() implies c0[i] < 128 by {
                            assert((c0 + chunk)[i] == c0[i]);
                        }
                        assert forall|i: int| 0 <= i < chunk.len() implies chunk[i] < 128 by {
                            assert((c0 + chunk)[c0.len() + i] == chunk[i]);
                        }
                    }
                    self.consumed@ = c0 + chunk;
                    self.delivered@ = d0.push(t@);
                }
            },
            None => {
                self.ended = true;
            },
        }
        r
    }
}

/// A device that fails to open gives `OpenError` with its cause, and no
/// read-loop task is left behind.
pub proof fn lemma_open_failure_spawns_nothing<H>(cause: String)
    ensures
        start_listening_spec(None::<H>, Err(cause)) == (None::<H>, Err::<(), SerialError>(SerialError::OpenError(cause))),
{
}

/// From idle: a start that opens the device, a second start refused with
/// `AlreadyListening`, then one stop that succeeds, hands back the first
/// task and leaves the listener idle.
pub proof fn lemma_listen_twice_then_stop<H>(h1: H, second: Result<H, String>)
    ensures
        ({
            let (t1, r1) = start_listening_spec(None::<H>, Ok(h1));
            let (t2, r2) = start_listening_spec(t1, second);
            let (t3, r3) = stop_listening_spec(t2);
            r1 is Ok && r2 == Err::<(), SerialError>(SerialError::AlreadyListening)
                && t2 == Some(h1) && r3 == Ok::<H, SerialError>(h1) && t3 is None
        }),
{
}

/// Stopping an idle listener is refused with `NotListening`.
pub proof fn lemma_stop_idle_listener_refused<H>()
    ensures
        stop_listening_spec(None::<H>) == (None::<H>, Err::<H, SerialError>(SerialError::NotListening)),
{
}

/// A listener on one serial device: its name and baud rate, the callback
/// that receives decoded text, and the slot of its read-loop task.
pub struct SerialServer<H, C> {
    port_name: String,
    baud_rate: u32,
    on_data: Option<C>,
    task: TaskSlot<H>,
}

impl<H, C> SerialServer<H, C> {
    pub closed spec fn spec_port_name(&self) -> Seq<char> {
        self.port_name@
    }

    pub closed spec fn spec_baud_rate(&self) -> u32 {
        self.baud_rate
    }

    pub closed spec fn spec_callback(&self) -> Option<C> {
        self.on_data
    }

    /// The read-loop task, if one is active.
    pub closed spec fn spec_task(&self) -> Option<H> {
        self.task@
    }

    /// An idle listener: no device is opened, no callback attached.
    pub fn new(port_name: &str, baud_rate: &u32) -> (r: Self)
        ensures
            r.spec_port_name() == port_name@,
            r.spec_baud_rate() == *baud_rate,
            r.spec_callback() is None,
            r.spec_task() is None,
    {
        SerialServer {
            port_name: port_name.to_owned(),
            baud_rate: *baud_rate,
            on_data: None,
            task: TaskSlot::new(),
        }
    }

    /// Attaches the data callback, replacing any earlier one.
    pub fn on_data(self, callback: C) -> (r: Self)
        ensures
            r.spec_callback() == Some(callback),
            r.spec_port_name() == self.spec_port_name(),
            r.spec_baud_rate() == self.spec_baud_rate(),
            r.spec_task() == self.spec_task(),
    {
        SerialServer { on_data: Some(callback), ..self }
    }

    pub fn port_name(&self) -> (r: &String)
        ensures
            r@ == self.spec_port_name(),
    {
        &self.port_name
    }

    pub fn baud_rate(&self) -> (r: u32)
        ensures
            r == self.spec_baud_rate(),
    {
        self.baud_rate
    }

    pub fn data_callback(&self) -> (r: &Option<C>)
        ensures
            *r == self.spec_callback(),
    {
        &self.on_data
    }

    pub fn is_running(&self) -> (r: bool)
        ensures
            r == self.spec_task() is Some,
    {
        self.task.is_running()
    }

    /// Whether the device may be opened now: `AlreadyListening` exactly
    /// when a read loop is active.
    pub fn check_start(&self) -> (r: Result<(), SerialError>)
        ensures
            r == (if self.spec_task() is Some { Err(SerialError::AlreadyListening) } else { Ok(()) }),
    {
        if self.task.is_running() {
            Err(SerialError::AlreadyListening)
        } else {
            Ok(())
        }
    }

    /// Completes a start with the outcome of opening the device: the
    /// read-loop task that was spawned on it, or the cause of the failure.
    /// A failure leaves the listener idle.
    pub fn start(&mut self, opened: Result<H, String>) -> (r: Result<(), SerialError>)
        ensures
            final(self).spec_port_name() == old(self).spec_port_name(),
            final(self).spec_baud_rate() == old(self).spec_baud_rate(),
            final(self).spec_callback() == old(self).spec_callback(),
            (final(self).spec_task(), r) == start_listening_spec(old(self).spec_task(), opened),
    {
        if self.task.is_running() {
            return Err(SerialError::AlreadyListening);
        }
        match opened {
            Ok(h) => {
                let _ = self.task.start(h);
                Ok(())
            },
            Err(e) => Err(SerialError::OpenError(e)),
        }
    }

    /// The message reported for a refusal of this listener.
    pub fn error_message(&self, e: &SerialError) -> (r: String)
        ensures
            r@ == match e {
                SerialError::AlreadyListening => "串口: "@ + self.spec_port_name() + " 监听任务已存在"@,
                SerialError::NotListening => "串口: "@ + self.spec_port_name() + " 未连接"@,
                SerialError::OpenError(cause) => "连接串口 "@ + cause@ + " 失败"@,
            },
    {
        match e {
            SerialError::AlreadyListening => {
                let mut m = String::from_str("串口: ");
                m.append(self.port_name.as_str());
                m.append(" 监听任务已存在");
                m
            },
            SerialError::NotListening => {
                let mut m = String::from_str("串口: ");
                m.append(self.port_name.as_str());
                m.append(" 未连接");
                m
            },
            SerialError::OpenError(cause) => {
                let mut m = String::from_str("连接串口 ");
                m.append(cause.as_str());
                m.append(" 失败");
                m
            },
        }
    }

    /// Hands back the read-loop task, to be aborted, and leaves the
    /// listener idle; `NotListening` when none is active.
    pub fn stop(&mut self) -> (r: Result<H, SerialError>)
        ensures
            final(self).spec_port_name() == old(self).spec_port_name(),
            final(self).spec_baud_rate() == old(self).spec_baud_rate(),
            final(self).spec_callback() == old(self).spec_callback(),
            (final(self).spec_task(), r) == stop_listening_spec(old(self).spec_task()),
    {
        match self.task.stop() {
            Ok(h) => Ok(h),
            Err(_) => Err(SerialError::NotListening),
        }
    }
}

} // verus!
