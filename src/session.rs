//! The decisions of a connection driver, apart from its I/O.
//!
//! A driver runs a loop on its own thread: it waits for the transport or for a
//! command, hands what happened to `Session::step`, and carries out the `Step`
//! it gets back. Both transports use the same session: a stream socket frames
//! its messages with a length prefix, a WebSocket does not.

use crate::client::{IncomingSocketMessage, OutgoingSocketMessage};
use crate::codec::{
    decode_step, decoded_view, encode_frame, frame_of, ByteSource, MessageReader, SourceView,
    RESERVED_LENGTH,
};
use crate::error::Error;
use vstd::prelude::*;

verus! {

/// Where a driver stands in the life of its connection.
#[derive(Debug, Clone, Copy, PartialEq, Eq, Structural)]
pub enum DriverPhase {
    /// Setting up the connection; no event has been emitted.
    Connecting,
    /// Connected; commands and inbound data are handled.
    Open,
    /// Done; nothing more is emitted, sent or closed.
    Finished,
}

/// One frame read from a WebSocket.
#[derive(Debug)]
pub enum InboundFrame {
    Binary(Vec<u8>),
    /// Text, ping, pong or any other kind: it carries no message here.
    Other,
}

/// What happened, as the driver hands it to the session.
#[derive(Debug)]
pub enum DriverInput {
    /// The connection is up (stream connected, or WebSocket handshake done).
    Established,
    /// Setting up the connection failed.
    SetupFailed(Error),
    /// A command taken from the caller's queue.
    Command(OutgoingSocketMessage),
    /// A WebSocket frame was read, at the given time.
    Frame(InboundFrame, Option<u64>),
    /// The frame decoder's result on a stream socket.
    Decoded(Result<Option<Vec<u8>>, ()>),
    /// Writing to the transport failed.
    WriteFailed(Error),
    /// Reading from the transport failed (a read that would block is no failure).
    ReadFailed(Error),
    /// The peer closed the connection, or it can no longer be read or written.
    TransportClosed,
    /// The caller's event queue is gone.
    SinkGone,
}

/// What the driver must do after one input.
#[derive(Debug)]
pub struct Step {
    /// The event to push to the caller, if any.
    pub event: Option<IncomingSocketMessage>,
    /// Bytes to write to the transport, if any (one WebSocket binary message,
    /// or raw bytes on a stream socket).
    pub transmit: Option<Vec<u8>>,
    /// Whether to close the transport (gracefully where it has a close handshake).
    pub close_transport: bool,
    /// Whether the driver loop ends.
    pub stop: bool,
}

/// Events that end a connection: nothing may follow them.
pub open spec fn is_terminal(e: IncomingSocketMessage) -> bool {
    e is Closed || e is Error
}

/// The event stream rules: at most one `Connected`, and only first; a
/// `PacketReceived` only after a `Connected`; a terminal event only last.
pub open spec fn events_well_formed(log: Seq<IncomingSocketMessage>) -> bool {
    &&& forall|i: int| 0 <= i < log.len() && (#[trigger] log[i]) is Connected ==> i == 0
    &&& forall|i: int|
        0 <= i < log.len() && (#[trigger] log[i]) is PacketReceived ==> log[0] is Connected
    &&& forall|i: int| 0 <= i < log.len() - 1 ==> !is_terminal(#[trigger] log[i])
}

/// How the events emitted so far fit the phase a session is in.
pub open spec fn log_fits_phase(p: DriverPhase, log: Seq<IncomingSocketMessage>) -> bool {
    match p {
        DriverPhase::Connecting => log.len() == 0,
        DriverPhase::Open => {
            &&& log.len() >= 1
            &&& log[0] is Connected
            &&& forall|i: int| 1 <= i < log.len() ==> (#[trigger] log[i]) is PacketReceived
        },
        DriverPhase::Finished => events_well_formed(log),
    }
}

/// The phase after `i`.
pub open spec fn next_phase(framed: bool, p: DriverPhase, i: DriverInput) -> DriverPhase {
    match p {
        DriverPhase::Connecting => match i {
            DriverInput::Established => DriverPhase::Open,
            DriverInput::SetupFailed(_) => DriverPhase::Finished,
            DriverInput::SinkGone => DriverPhase::Finished,
            _ => DriverPhase::Connecting,
        },
        DriverPhase::Open => match i {
            DriverInput::Command(OutgoingSocketMessage::Send(d)) => {
                if framed && d@.len() >= RESERVED_LENGTH {
                    DriverPhase::Finished
                } else {
                    DriverPhase::Open
                }
            },
            DriverInput::Frame(_, _) => DriverPhase::Open,
            DriverInput::Decoded(Ok(_)) => DriverPhase::Open,
            DriverInput::Established => DriverPhase::Open,
            DriverInput::SetupFailed(_) => DriverPhase::Open,
            _ => DriverPhase::Finished,
        },
        DriverPhase::Finished => DriverPhase::Finished,
    }
}

/// The event emitted on `i`, if any.
pub open spec fn emitted(framed: bool, p: DriverPhase, i: DriverInput) -> Option<
    IncomingSocketMessage,
> {
    match p {
        DriverPhase::Connecting => match i {
            DriverInput::Established => Some(IncomingSocketMessage::Connected),
            DriverInput::SetupFailed(e) => Some(IncomingSocketMessage::Error(e)),
            _ => None,
        },
        DriverPhase::Open => match i {
            DriverInput::Command(OutgoingSocketMessage::Close) => Some(
                IncomingSocketMessage::Closed,
            ),
            DriverInput::Command(OutgoingSocketMessage::Send(d)) => {
                if framed && d@.len() >= RESERVED_LENGTH {
                    Some(IncomingSocketMessage::Error(Error::PayloadTooLarge))
                } else {
                    None
                }
            },
            DriverInput::Frame(InboundFrame::Binary(d), at) => Some(
                IncomingSocketMessage::PacketReceived(d, at),
            ),
            DriverInput::Decoded(Ok(Some(d))) => Some(
                IncomingSocketMessage::PacketReceived(d, None),
            ),
            DriverInput::Decoded(Err(())) => Some(IncomingSocketMessage::Error(Error::DecodeError)),
            DriverInput::WriteFailed(e) => Some(IncomingSocketMessage::Error(e)),
            DriverInput::ReadFailed(e) => Some(IncomingSocketMessage::Error(e)),
            DriverInput::TransportClosed => Some(IncomingSocketMessage::Closed),
            _ => None,
        },
        DriverPhase::Finished => None,
    }
}

/// The bytes written to the transport on `i`, if any: the payload of a send
/// command, framed on a stream socket.
pub open spec fn written(framed: bool, p: DriverPhase, i: DriverInput) -> Option<Seq<u8>> {
    match (p, i) {
        (DriverPhase::Open, DriverInput::Command(OutgoingSocketMessage::Send(d))) => {
            if !framed {
                Some(d@)
            } else if d@.len() < RESERVED_LENGTH {
                Some(frame_of(d@))
            } else {
                None
            }
        },
        _ => None,
    }
}

/// An optional event as a sequence of zero or one events.
pub open spec fn opt_seq(e: Option<IncomingSocketMessage>) -> Seq<IncomingSocketMessage> {
    match e {
        Some(x) => seq![x],
        None => Seq::empty(),
    }
}

/// The events a session emits from phase `p` on the inputs `inputs`, in order.
pub open spec fn events_of(framed: bool, p: DriverPhase, inputs: Seq<DriverInput>) -> Seq<
    IncomingSocketMessage,
>
    decreases inputs.len(),
{
    if inputs.len() == 0 {
        Seq::empty()
    } else {
        opt_seq(emitted(framed, p, inputs[0])) + events_of(
            framed,
            next_phase(framed, p, inputs[0]),
            inputs.drop_first(),
        )
    }
}

/// One input keeps the events emitted so far fitting the phase.
pub proof fn lemma_step_fits(
    framed: bool,
    p: DriverPhase,
    log: Seq<IncomingSocketMessage>,
    i: DriverInput,
)
    requires
        log_fits_phase(p, log),
    ensures
        log_fits_phase(next_phase(framed, p, i), log + opt_seq(emitted(framed, p, i))),
{
    let log2 = log + opt_seq(emitted(framed, p, i));
    if p is Open && next_phase(framed, p, i) is Open {
        assert forall|k: int| 1 <= k < log2.len() implies (#[trigger] log2[k]) is PacketReceived by {
            if k >= log.len() {
            }
        }
    }
    if p is Open && next_phase(framed, p, i) is Finished {
        assert forall|k: int| 0 <= k < log2.len() - 1 implies !is_terminal(#[trigger] log2[k]) by {
            assert(log2[k] == log[k]);
            if k >= 1 {
                assert(log[k] is PacketReceived);
            }
        }
        assert forall|k: int| 0 <= k < log2.len() && (#[trigger] log2[k]) is Connected implies k
            == 0 by {
            if 1 <= k < log.len() {
                assert(log[k] is PacketReceived);
            }
        }
    }
}

/// Nothing more is emitted once a session has finished.
pub proof fn lemma_finished_is_silent(framed: bool, inputs: Seq<DriverInput>)
    ensures
        events_of(framed, DriverPhase::Finished, inputs) == Seq::<IncomingSocketMessage>::empty(),
    decreases inputs.len(),
{
    if inputs.len() > 0 {
        lemma_finished_is_silent(framed, inputs.drop_first());
        assert(events_of(framed, DriverPhase::Finished, inputs) =~= Seq::empty());
    }
}

proof fn lemma_run_fits(
    framed: bool,
    p: DriverPhase,
    log: Seq<IncomingSocketMessage>,
    inputs: Seq<DriverInput>,
)
    requires
        log_fits_phase(p, log),
    ensures
        events_well_formed(log + events_of(framed, p, inputs)),
    decreases inputs.len(),
{
    if inputs.len() == 0 {
        assert(log + events_of(framed, p, inputs) =~= log);
        if p is Open {
            assert forall|k: int| 0 <= k < log.len() - 1 implies !is_terminal(#[trigger] log[k]) by {
                if k >= 1 {
                    assert(log[k] is PacketReceived);
                }
            }
        }
    } else {
        let i = inputs[0];
        let log2 = log + opt_seq(emitted(framed, p, i));
        lemma_step_fits(framed, p, log, i);
        lemma_run_fits(framed, next_phase(framed, p, i), log2, inputs.drop_first());
        assert(log + events_of(framed, p, inputs) =~= log2 + events_of(
            framed,
            next_phase(framed, p, i),
            inputs.drop_first(),
        ));
    }
}

/// Whatever happens to a connection, the events its driver emits keep the
/// stream rules: at most one `Connected`, and it comes before every
/// `PacketReceived`; nothing follows `Closed` or an `Error`.
pub proof fn lemma_events_well_formed(framed: bool, inputs: Seq<DriverInput>)
    ensures
        events_well_formed(events_of(framed, DriverPhase::Connecting, inputs)),
{
    lemma_run_fits(framed, DriverPhase::Connecting, Seq::empty(), inputs);
    assert(Seq::<IncomingSocketMessage>::empty() + events_of(
        framed,
        DriverPhase::Connecting,
        inputs,
    ) =~= events_of(framed, DriverPhase::Connecting, inputs));
}

/// Closing before any data is exchanged: once connected, a close command
/// yields exactly one `Closed` and no `PacketReceived`, whatever happens after.
pub proof fn lemma_close_before_data(framed: bool, rest: Seq<DriverInput>)
    ensures
        events_of(
            framed,
            DriverPhase::Connecting,
            seq![DriverInput::Established, DriverInput::Command(OutgoingSocketMessage::Close)]
                + rest,
        ) == seq![IncomingSocketMessage::Connected, IncomingSocketMessage::Closed],
{
    let inputs = seq![DriverInput::Established, DriverInput::Command(OutgoingSocketMessage::Close)]
        + rest;
    assert(inputs.drop_first().drop_first() =~= rest);
    lemma_finished_is_silent(framed, rest);
    assert(events_of(framed, DriverPhase::Open, inputs.drop_first()) =~= seq![
        IncomingSocketMessage::Closed,
    ]);
    assert(events_of(framed, DriverPhase::Connecting, inputs) =~= seq![
        IncomingSocketMessage::Connected,
        IncomingSocketMessage::Closed,
    ]);
}

/// The state a driver keeps between inputs.
pub struct Session {
    phase: DriverPhase,
    framed: bool,
    log: Ghost<Seq<IncomingSocketMessage>>,
}

impl Session {
    /// The phase the session is in.
    pub closed spec fn spec_phase(&self) -> DriverPhase {
        self.phase
    }

    /// Whether messages are framed with a length prefix (stream sockets).
    pub closed spec fn spec_framed(&self) -> bool {
        self.framed
    }

    /// Every event emitted so far, in order.
    pub closed spec fn events(&self) -> Seq<IncomingSocketMessage> {
        self.log@
    }

    pub closed spec fn wf(&self) -> bool {
        log_fits_phase(self.phase, self.log@)
    }

    /// A session that has not connected yet; `framed` for a stream socket.
    pub fn new(framed: bool) -> (r: Session)
        ensures
            r.wf(),
            r.spec_phase() == DriverPhase::Connecting,
            r.spec_framed() == framed,
            r.events() == Seq::<IncomingSocketMessage>::empty(),
    {
        Session { phase: DriverPhase::Connecting, framed, log: Ghost(Seq::empty()) }
    }

    pub fn phase(&self) -> (r: DriverPhase)
        ensures
            r == self.spec_phase(),
    {
        self.phase
    }

    pub fn is_framed(&self) -> (r: bool)
        ensures
            r == self.spec_framed(),
    {
        self.framed
    }

    /// Whether the driver loop has ended.
    pub fn is_finished(&self) -> (r: bool)
        ensures
            r == (self.spec_phase() is Finished),
    {
        match self.phase {
            DriverPhase::Finished => true,
            _ => false,
        }
    }

    /// Handles one input and says what the driver must do.
    pub fn step(&mut self, input: DriverInput) -> (r: Step)
        requires
            old(self).wf(),
        ensures
            final(self).wf(),
            final(self).spec_framed() == old(self).spec_framed(),
            final(self).spec_phase() == next_phase(
                old(self).spec_framed(),
                old(self).spec_phase(),
                input,
            ),
            r.event == emitted(old(self).spec_framed(), old(self).spec_phase(), input),
            final(self).events() == old(self).events() + opt_seq(r.event),
            match r.transmit {
                Some(v) => written(old(self).spec_framed(), old(self).spec_phase(), input) == Some(
                    v@,
                ),
                None => written(old(self).spec_framed(), old(self).spec_phase(), input) is None,
            },
            r.close_transport == (old(self).spec_phase() is Open
                && final(self).spec_phase() is Finished),
            r.stop == (final(self).spec_phase() is Finished),
    {
        let ghost p = self.phase;
        let ghost framed = self.framed;
        proof {
            lemma_step_fits(framed, p, self.log@, input);
        }
        let (next, event, transmit): (DriverPhase, Option<IncomingSocketMessage>, Option<Vec<u8>>) =
            match self.phase {
            DriverPhase::Connecting => match input {
                DriverInput::Established => (
                    DriverPhase::Open,
                    Some(IncomingSocketMessage::Connected),
                    None,
                ),
                DriverInput::SetupFailed(e) => (
                    DriverPhase::Finished,
                    Some(IncomingSocketMessage::Error(e)),
                    None,
                ),
                DriverInput::SinkGone => (DriverPhase::Finished, None, None),
                _ => (DriverPhase::Connecting, None, None),
            },
            DriverPhase::Open => match input {
                DriverInput::Command(OutgoingSocketMessage::Close) => (
                    DriverPhase::Finished,
                    Some(IncomingSocketMessage::Closed),
                    None,
                ),
                DriverInput::Command(OutgoingSocketMessage::Send(d)) => {
                    if self.framed {
                        match encode_frame(d.as_slice()) {
                            Some(wire) => (DriverPhase::Open, None, Some(wire)),
                            None => (
                                DriverPhase::Finished,
                                Some(IncomingSocketMessage::Error(Error::PayloadTooLarge)),
                                None,
                            ),
                        }
                    } else {
                        (DriverPhase::Open, None, Some(d))
                    }
                },
                DriverInput::Frame(InboundFrame::Binary(d), at) => (
                    DriverPhase::Open,
                    Some(IncomingSocketMessage::PacketReceived(d, at)),
                    None,
                ),
                DriverInput::Frame(InboundFrame::Other, _) => (DriverPhase::Open, None, None),
                DriverInput::Decoded(Ok(Some(d))) => (
                    DriverPhase::Open,
                    Some(IncomingSocketMessage::PacketReceived(d, None)),
                    None,
                ),
                DriverInput::Decoded(Ok(None)) => (DriverPhase::Open, None, None),
                DriverInput::Decoded(Err(())) => (
                    DriverPhase::Finished,
                    Some(IncomingSocketMessage::Error(Error::DecodeError)),
                    None,
                ),
                DriverInput::WriteFailed(e) => (
                    DriverPhase::Finished,
                    Some(IncomingSocketMessage::Error(e)),
                    None,
                ),
                DriverInput::ReadFailed(e) => (
                    DriverPhase::Finished,
                    Some(IncomingSocketMessage::Error(e)),
                    None,
                ),
                DriverInput::TransportClosed => (
                    DriverPhase::Finished,
                    Some(IncomingSocketMessage::Closed),
                    None,
                ),
                DriverInput::SinkGone => (DriverPhase::Finished, None, None),
                DriverInput::Established => (DriverPhase::Open, None, None),
                DriverInput::SetupFailed(_) => (DriverPhase::Open, None, None),
            },
            DriverPhase::Finished => (DriverPhase::Finished, None, None),
        };
        let close_transport = match (self.phase, next) {
            (DriverPhase::Open, DriverPhase::Finished) => true,
            _ => false,
        };
        let stop = match next {
            DriverPhase::Finished => true,
            _ => false,
        };
        self.phase = next;
        self.log = Ghost(self.log@ + opt_seq(event));
        Step { event, transmit, close_transport, stop }
    }
}

/// A stream that ended between two frames: a clean close, not a decode error.
pub open spec fn clean_end(st: MessageReader, src: SourceView) -> bool {
    st is Empty && src.bytes.len() == 0 && !src.open
}

/// Whether a stream-socket input is the decoder's step over the source, and
/// whether calling again may give more.
pub open spec fn is_decode_input(
    st: MessageReader,
    src: SourceView,
    st2: MessageReader,
    src2: SourceView,
    input: DriverInput,
    more: bool,
) -> bool {
    match input {
        DriverInput::Decoded(d) => {
            &&& (st2, src2, decoded_view(d)) == decode_step(st, src)
            &&& more == (d is Ok && (d matches Ok(Some(_)) || st2 != st))
        },
        _ => false,
    }
}

/// The next input of a stream-socket driver, from its decoder and the bytes
/// received so far, and whether calling again may give more.
///
/// A stream that has ended between frames gives `TransportClosed`; otherwise
/// the decoder takes one step. Calling again gives more only after a frame or
/// a change of the decoder's state.
pub fn stream_input(reader: &mut MessageReader, source: &mut ByteSource) -> (r: (DriverInput, bool))
    ensures
        clean_end(*old(reader), old(source)@) ==> {
            &&& r.0 is TransportClosed
            &&& !r.1
            &&& *final(reader) == *old(reader)
            &&& final(source)@ == old(source)@
        },
        !clean_end(*old(reader), old(source)@) ==> is_decode_input(
            *old(reader),
            old(source)@,
            *final(reader),
            final(source)@,
            r.0,
            r.1,
        ),
{
    let ended = match *reader {
        MessageReader::Empty => source.available() == 0 && !source.is_open(),
        MessageReader::Amount(_) => false,
    };
    if ended {
        return (DriverInput::TransportClosed, false);
    }
    let before = *reader;
    let d = reader.next(source);
    let more = match &d {
        Ok(Some(_)) => true,
        Ok(None) => before != *reader,
        Err(()) => false,
    };
    (DriverInput::Decoded(d), more)
}

/// What peeking at a stream socket found.
#[derive(Debug, Clone, Copy, PartialEq, Eq, Structural)]
pub enum PeekOutcome {
    /// This many bytes are waiting; zero means the peer closed the stream.
    Bytes(usize),
    /// Nothing is waiting yet.
    WouldBlock,
    /// The peek failed.
    Failed,
}

/// Whether the peer has gone: the stream ended or the peek failed.
pub open spec fn peer_gone_spec(p: PeekOutcome) -> bool {
    match p {
        PeekOutcome::Bytes(n) => n == 0,
        PeekOutcome::WouldBlock => false,
        PeekOutcome::Failed => true,
    }
}

/// Whether a stream socket's peer has gone, from what a peek found.
pub fn peer_gone(p: PeekOutcome) -> (r: bool)
    ensures
        r == peer_gone_spec(p),
{
    match p {
        PeekOutcome::Bytes(n) => n == 0,
        PeekOutcome::WouldBlock => false,
        PeekOutcome::Failed => true,
    }
}

} // verus!
