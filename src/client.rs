//! The caller-facing connection handle and the messages that cross its two queues.

use crate::error::Error;
use crate::session::Session;
use crate::trust::TrustPolicy;
use crossbeam_channel::{Receiver, Sender};
use std::time::{Duration, SystemTime};
use vstd::prelude::*;

verus! {

/// A command from the caller to the driver.
#[derive(Debug)]
pub enum OutgoingSocketMessage {
    Close,
    Send(Vec<u8>),
}

/// An event from the driver to the caller.
#[derive(Debug)]
pub enum IncomingSocketMessage {
    /// The connection is established.
    Connected,
    /// A message arrived, with the time it was read (milliseconds since the
    /// Unix epoch) where the transport records one.
    PacketReceived(Vec<u8>, Option<u64>),
    /// The connection failed; after this the driver emits nothing more.
    Error(Error),
    /// The connection was closed; after this the driver emits nothing more.
    Closed,
}

#[verifier::external_type_specification]
#[verifier::external_body]
#[verifier::reject_recursive_types(T)]
pub struct ExSender<T>(Sender<T>);

#[verifier::external_type_specification]
#[verifier::external_body]
#[verifier::reject_recursive_types(T)]
pub struct ExReceiver<T>(Receiver<T>);

#[verifier::external_type_specification]
#[verifier::external_body]
pub struct ExSystemTime(SystemTime);

/// Relies on `crossbeam_channel::unbounded`: a new unbounded queue, as its
/// sending and receiving ends.
#[verifier::external_body]
fn new_queue<T>() -> (r: (Sender<T>, Receiver<T>)) {
    crossbeam_channel::unbounded()
}

/// Relies on `crossbeam_channel::Sender::send`: queues `msg`, or hands it back
/// when the receiving end is gone.
#[verifier::external_body]
fn enqueue<T>(tx: &Sender<T>, msg: T) -> (r: Option<T>)
    ensures
        r matches Some(m) ==> m == msg,
{
    match tx.send(msg) {
        Ok(()) => None,
        Err(e) => Some(e.0),
    }
}

/// Relies on `crossbeam_channel::Receiver::try_recv`: the oldest queued
/// message, or `None` when the queue is empty or disconnected. What is queued
/// depends on another thread.
#[verifier::external_body]
fn dequeue<T>(rx: &Receiver<T>) -> (r: Option<T>) {
    rx.try_recv().ok()
}

/// Relies on `str::strip_prefix`: the rest of `s` when it starts with `prefix`.
#[verifier::external_body]
fn strip_prefix<'a>(s: &'a str, prefix: &str) -> (r: Option<&'a str>)
    ensures
        r is Some <==> has_prefix(s@, prefix@),
        r matches Some(t) ==> t@ == s@.skip(prefix@.len() as int),
{
    s.strip_prefix(prefix)
}

/// Relies on `SystemTime::now`: the system clock's current time.
#[verifier::external_body]
fn system_now() -> (r: SystemTime) {
    SystemTime::now()
}

/// Relies on `SystemTime::duration_since` with `UNIX_EPOCH`: the time since
/// the epoch, or `None` when `t` is earlier.
#[verifier::external_body]
fn since_unix_epoch(t: SystemTime) -> (r: Option<Duration>) {
    t.duration_since(std::time::UNIX_EPOCH).ok()
}

/// Relies on `Duration::as_millis`: whole milliseconds in `d`.
#[verifier::external_body]
fn whole_millis(d: Duration) -> (r: u128) {
    d.as_millis()
}

/// Whether `s` starts with `p`.
pub open spec fn has_prefix(s: Seq<char>, p: Seq<char>) -> bool {
    p.len() <= s.len() && s.take(p.len() as int) == p
}

/// The scheme of a TLS-protected WebSocket address.
pub open spec fn secure_scheme() -> Seq<char> {
    seq!['w', 's', 's', ':', '/', '/']
}

/// Milliseconds since the epoch as a `u64`: 0 for a clock set before the
/// epoch, and `u64::MAX` beyond what a `u64` holds.
pub fn millis_as_u64(millis: Option<u128>) -> (r: u64)
    ensures
        r == match millis {
            None => 0,
            Some(m) => if m <= u64::MAX {
                m as u64
            } else {
                u64::MAX
            },
        },
{
    match millis {
        None => 0,
        Some(m) => if m <= u64::MAX as u128 {
            m as u64
        } else {
            u64::MAX
        },
    }
}

/// Milliseconds since the Unix epoch by the system clock (0 when the clock is
/// set before the epoch).
pub fn current_time_millis() -> (r: u64) {
    let millis = match since_unix_epoch(system_now()) {
        Some(d) => Some(whole_millis(d)),
        None => None,
    };
    millis_as_u64(millis)
}

/// Whether `r` is the plan for a WebSocket connection to `addr`: a plain
/// WebSocket unless bypassing; when bypassing, a `wss://` address gives the
/// `host:port` after its scheme, and any other address is refused.
pub open spec fn is_websocket_plan(
    addr: Seq<char>,
    bypass: bool,
    r: Result<ConnectPlan, Error>,
) -> bool {
    if !bypass {
        r matches Ok(ConnectPlan::WebSocket(u)) && u@ == addr
    } else if has_prefix(addr, secure_scheme()) {
        r matches Ok(ConnectPlan::InsecureWebSocket(u, hp)) && u@ == addr && hp@ == addr.skip(
            secure_scheme().len() as int,
        )
    } else {
        r matches Err(Error::InvalidAddress)
    }
}

/// How a driver is to reach its peer.
#[derive(Debug)]
pub enum ConnectPlan {
    /// A stream socket to `host:port`, with length-prefixed frames.
    Stream(String),
    /// A WebSocket at this URL, with standard certificate checks.
    WebSocket(String),
    /// A TLS WebSocket at this URL, over a stream to the `host:port` that
    /// follows its scheme, accepting any certificate.
    InsecureWebSocket(String, String),
}

/// The plan for a WebSocket connection to `addr`.
///
/// Bypassing certificate checks needs a `wss://` address, which gives the
/// `host:port` to connect to; any other address is refused.
pub fn plan_websocket(addr: &str, bypass_cert_verification: bool) -> (r: Result<ConnectPlan, Error>)
    ensures
        is_websocket_plan(addr@, bypass_cert_verification, r),
{
    if !bypass_cert_verification {
        return Ok(ConnectPlan::WebSocket(addr.to_owned()));
    }
    proof {
        reveal_strlit("wss://");
    }
    assert("wss://"@ =~= secure_scheme());
    match strip_prefix(addr, "wss://") {
        Some(host_port) => Ok(ConnectPlan::InsecureWebSocket(addr.to_owned(), host_port.to_owned())),
        None => Err(Error::InvalidAddress),
    }
}

/// The driver's side of a new connection: the ends of the two queues that the
/// caller's handle does not hold, the session that makes the driver's
/// decisions, and where to connect.
pub struct DriverLink {
    /// Commands from the caller, oldest first.
    pub commands: Receiver<OutgoingSocketMessage>,
    /// Events to the caller.
    pub events: Sender<IncomingSocketMessage>,
    pub session: Session,
    /// Where to connect, or why that cannot be done.
    pub target: Result<ConnectPlan, Error>,
    /// Which certificates to accept, where TLS is used.
    pub trust: TrustPolicy,
}

/// The caller's handle on one connection.
///
/// `send` and `close` queue commands for the driver; `try_recv` takes the
/// driver's events in the order it produced them. None of them blocks.
pub struct QuadSocket {
    tx: Sender<OutgoingSocketMessage>,
    rx: Receiver<IncomingSocketMessage>,
    close_requested: bool,
    issued: Ghost<Seq<OutgoingSocketMessage>>,
}

impl QuadSocket {
    /// The commands this handle has queued, oldest first.
    pub closed spec fn issued(&self) -> Seq<OutgoingSocketMessage> {
        self.issued@
    }

    /// Whether `close` has been called.
    pub closed spec fn closing(&self) -> bool {
        self.close_requested
    }

    /// The caller's end of a connection driven by `session`, and the
    /// driver's end.
    fn with_driver(session: Session, target: Result<ConnectPlan, Error>, trust: TrustPolicy) -> (r: (
        QuadSocket,
        DriverLink,
    ))
        ensures
            r.0.issued() == Seq::<OutgoingSocketMessage>::empty(),
            !r.0.closing(),
            r.1.session == session,
            r.1.target == target,
            r.1.trust == trust,
    {
        let (tx, commands) = new_queue();
        let (events, rx) = new_queue();
        (
            QuadSocket { tx, rx, close_requested: false, issued: Ghost(Seq::empty()) },
            DriverLink { commands, events, session, target, trust },
        )
    }

    /// Opens a WebSocket connection to `addr`.
    ///
    /// Returns the caller's handle and the driver's end; the driver runs on a
    /// thread of its own, and setup failures reach the caller as an `Error`
    /// event. With `bypass_cert_verification`, any server certificate is
    /// accepted.
    pub fn connect(addr: &str, bypass_cert_verification: bool) -> (r: (QuadSocket, DriverLink))
        ensures
            r.0.issued() == Seq::<OutgoingSocketMessage>::empty(),
            !r.0.closing(),
            r.1.session.wf(),
            r.1.session.spec_phase() is Connecting,
            !r.1.session.spec_framed(),
            r.1.trust == (if bypass_cert_verification {
                TrustPolicy::BypassAll
            } else {
                TrustPolicy::Enforce
            }),
            is_websocket_plan(addr@, bypass_cert_verification, r.1.target),
    {
        let target = plan_websocket(addr, bypass_cert_verification);
        let trust = TrustPolicy::from_bypass_flag(bypass_cert_verification);
        QuadSocket::with_driver(Session::new(false), target, trust)
    }

    /// Opens a stream-socket connection to `addr` (`host:port`), with
    /// length-prefixed frames.
    pub fn connect_stream(addr: &str) -> (r: (QuadSocket, DriverLink))
        ensures
            r.0.issued() == Seq::<OutgoingSocketMessage>::empty(),
            !r.0.closing(),
            r.1.session.wf(),
            r.1.session.spec_phase() is Connecting,
            r.1.session.spec_framed(),
            r.1.target matches Ok(ConnectPlan::Stream(a)) && a@ == addr@,
            r.1.trust == TrustPolicy::Enforce,
    {
        QuadSocket::with_driver(
            Session::new(true),
            Ok(ConnectPlan::Stream(addr.to_owned())),
            TrustPolicy::Enforce,
        )
    }

    /// Queues `data` to be sent as one message. Failures surface later as an
    /// `Error` event.
    pub fn send(&mut self, data: &[u8])
        ensures
            final(self).closing() == old(self).closing(),
            final(self).issued().len() == old(self).issued().len() + 1,
            final(self).issued().drop_last() == old(self).issued(),
            final(self).issued().last() matches OutgoingSocketMessage::Send(v) && v@ == data@,
    {
        let payload = vstd::slice::slice_to_vec(data);
        let ghost sent = payload;
        let _ = enqueue(&self.tx, OutgoingSocketMessage::Send(payload));
        self.issued = Ghost(self.issued@.push(OutgoingSocketMessage::Send(sent)));
        assert(self.issued@.drop_last() =~= old(self).issued@);
    }

    /// Asks the driver to close the connection. Only the first call queues a
    /// `Close`; later calls change nothing.
    pub fn close(&mut self)
        ensures
            final(self).closing(),
            final(self).issued() == (if old(self).closing() {
                old(self).issued()
            } else {
                old(self).issued().push(OutgoingSocketMessage::Close)
            }),
    {
        if !self.close_requested {
            self.close_requested = true;
            let _ = enqueue(&self.tx, OutgoingSocketMessage::Close);
            self.issued = Ghost(self.issued@.push(OutgoingSocketMessage::Close));
        }
    }

    /// The oldest event not yet taken, or `None` when there is none now.
    pub fn try_recv(&mut self) -> (r: Option<IncomingSocketMessage>)
        ensures
            final(self).closing() == old(self).closing(),
            final(self).issued() == old(self).issued(),
    {
        dequeue(&self.rx)
    }
}

} // verus!
