//! Length-prefixed framing: `frame := u32_be(length) || bytes[length]`.

use vstd::prelude::*;

verus! {

/// The length value that no frame may announce.
pub const RESERVED_LENGTH: u32 = 0xFFFF_FFFF;

/// Value of four bytes read as a big-endian unsigned integer.
pub open spec fn be_value(b0: u8, b1: u8, b2: u8, b3: u8) -> nat {
    (b0 as nat) * 0x100_0000 + (b1 as nat) * 0x1_0000 + (b2 as nat) * 0x100 + (b3 as nat)
}

/// Value of the length prefix at the start of `s`.
pub open spec fn prefix_value(s: Seq<u8>) -> nat
    recommends
        s.len() >= 4,
{
    be_value(s[0], s[1], s[2], s[3])
}

/// The four bytes of `n`, most significant first.
pub open spec fn be_bytes(n: u32) -> Seq<u8> {
    seq![
        (n / 0x100_0000) as u8,
        ((n / 0x1_0000) % 0x100) as u8,
        ((n / 0x100) % 0x100) as u8,
        (n % 0x100) as u8,
    ]
}

/// One frame on the wire: the payload's length as a prefix, then the payload.
pub open spec fn frame_of(payload: Seq<u8>) -> Seq<u8> {
    be_bytes(payload.len() as u32) + payload
}

/// Reading back the four bytes of `n` gives `n`.
pub proof fn lemma_be_round_trip(n: u32)
    ensures
        be_bytes(n).len() == 4,
        prefix_value(be_bytes(n)) == n,
{
    let x = n as int;
    assert(x == (x / 0x100_0000) * 0x100_0000 + ((x / 0x1_0000) % 0x100) * 0x1_0000 + ((x / 0x100)
        % 0x100) * 0x100 + x % 0x100 && x / 0x100_0000 < 0x100) by (nonlinear_arith)
        requires
            0 <= x < 0x1_0000_0000,
    ;
}

/// Big-endian value of the first four bytes of `b`.
pub fn read_be_u32(b: &[u8]) -> (r: u32)
    requires
        b@.len() >= 4,
    ensures
        r == prefix_value(b@),
{
    (b[0] as u32) * 0x100_0000 + (b[1] as u32) * 0x1_0000 + (b[2] as u32) * 0x100 + (b[3] as u32)
}

/// The frame that carries `payload`, or `None` when its length cannot be
/// announced (it is the reserved value or above).
pub fn encode_frame(payload: &[u8]) -> (r: Option<Vec<u8>>)
    ensures
        r is None <==> payload@.len() >= RESERVED_LENGTH,
        r matches Some(v) ==> v@ == frame_of(payload@),
{
    if payload.len() >= RESERVED_LENGTH as usize {
        return None;
    }
    let n = payload.len() as u32;
    let mut out: Vec<u8> = Vec::new();
    out.push((n / 0x100_0000) as u8);
    out.push(((n / 0x1_0000) % 0x100) as u8);
    out.push(((n / 0x100) % 0x100) as u8);
    out.push((n % 0x100) as u8);
    assert(out@ =~= be_bytes(n));
    let mut i: usize = 0;
    while i < payload.len()
        invariant
            i <= payload@.len(),
            n == payload@.len(),
            out@ =~= be_bytes(n) + payload@.take(i as int),
        decreases payload@.len() - i,
    {
        out.push(payload[i]);
        i += 1;
        assert(out@ =~= be_bytes(n) + payload@.take(i as int));
    }
    assert(payload@.take(i as int) =~= payload@);
    Some(out)
}

/// What a byte source holds: the bytes it can hand out now, and whether more
/// may still arrive.
pub ghost struct SourceView {
    pub bytes: Seq<u8>,
    pub open: bool,
}

/// A byte source fed from any transport: bytes are pushed in as they arrive,
/// and read out in exact amounts.
///
/// A read of more bytes than are held would block while the source is open,
/// and fails once it has ended.
pub struct ByteSource {
    buf: Vec<u8>,
    open: bool,
}

/// Result of asking a source for an exact number of bytes.
pub enum ReadOutcome {
    Filled(Vec<u8>),
    WouldBlock,
    Failed,
}

impl View for ByteSource {
    type V = SourceView;

    closed spec fn view(&self) -> SourceView {
        SourceView { bytes: self.buf@, open: self.open }
    }
}

impl ByteSource {
    /// An open source holding no bytes.
    pub fn new() -> (r: ByteSource)
        ensures
            r@.bytes.len() == 0,
            r@.open,
    {
        ByteSource { buf: Vec::new(), open: true }
    }

    /// Appends bytes that arrived from the transport.
    pub fn push(&mut self, data: &[u8])
        ensures
            final(self)@.bytes == old(self)@.bytes + data@,
            final(self)@.open == old(self)@.open,
    {
        let mut i: usize = 0;
        while i < data.len()
            invariant
                i <= data@.len(),
                self.open == old(self).open,
                self.buf@ =~= old(self).buf@ + data@.take(i as int),
            decreases data@.len() - i,
        {
            self.buf.push(data[i]);
            i += 1;
            assert(self.buf@ =~= old(self).buf@ + data@.take(i as int));
        }
        assert(data@.take(i as int) =~= data@);
    }

    /// Records that no more bytes will arrive (end of stream, or a read error).
    pub fn end(&mut self)
        ensures
            final(self)@.bytes == old(self)@.bytes,
            !final(self)@.open,
    {
        self.open = false;
    }

    /// Whether more bytes may still arrive.
    pub fn is_open(&self) -> (r: bool)
        ensures
            r == self@.open,
    {
        self.open
    }

    /// Number of bytes held.
    pub fn available(&self) -> (r: usize)
        ensures
            r == self@.bytes.len(),
    {
        self.buf.len()
    }

    /// Takes exactly `n` bytes from the front, or none at all.
    pub fn read_exact(&mut self, n: usize) -> (r: ReadOutcome)
        ensures
            old(self)@.bytes.len() >= n ==> {
                &&& r matches ReadOutcome::Filled(v) && v@ == old(self)@.bytes.take(n as int)
                &&& final(self)@.bytes == old(self)@.bytes.skip(n as int)
                &&& final(self)@.open == old(self)@.open
            },
            old(self)@.bytes.len() < n ==> {
                &&& final(self)@ == old(self)@
                &&& if old(self)@.open {
                    r is WouldBlock
                } else {
                    r is Failed
                }
            },
    {
        if self.buf.len() >= n {
            let mut rest = self.buf.split_off(n);
            std::mem::swap(&mut self.buf, &mut rest);
            ReadOutcome::Filled(rest)
        } else if self.open {
            ReadOutcome::WouldBlock
        } else {
            ReadOutcome::Failed
        }
    }
}

/// Decoder state: waiting for a length prefix, or for a body of that length.
#[derive(Debug, Clone, Copy, PartialEq, Eq, Structural)]
pub enum MessageReader {
    Empty,
    Amount(u32),
}

/// The view of a decoder result: a frame, nothing yet, or a fatal error.
pub open spec fn decoded_view(r: Result<Option<Vec<u8>>, ()>) -> Result<Option<Seq<u8>>, ()> {
    match r {
        Ok(Some(v)) => Ok(Some(v@)),
        Ok(None) => Ok(None),
        Err(()) => Err(()),
    }
}

/// One decoder step: the next state, what is left in the source, and the result.
///
/// Each step makes at most one read, of exactly 4 bytes or exactly the body
/// length. A short source that is still open gives "nothing yet" and leaves
/// everything as it was; a short source that has ended is fatal. The reserved
/// length is fatal before any read.
pub open spec fn decode_step(st: MessageReader, src: SourceView) -> (
    MessageReader,
    SourceView,
    Result<Option<Seq<u8>>, ()>,
) {
    match st {
        MessageReader::Empty => {
            if src.bytes.len() >= 4 {
                (
                    MessageReader::Amount(prefix_value(src.bytes) as u32),
                    SourceView { bytes: src.bytes.skip(4), open: src.open },
                    Ok(None),
                )
            } else if src.open {
                (st, src, Ok(None))
            } else {
                (st, src, Err(()))
            }
        },
        MessageReader::Amount(len) => {
            if len == RESERVED_LENGTH {
                (st, src, Err(()))
            } else if src.bytes.len() >= len {
                (
                    MessageReader::Empty,
                    SourceView { bytes: src.bytes.skip(len as int), open: src.open },
                    Ok(Some(src.bytes.take(len as int))),
                )
            } else if src.open {
                (st, src, Ok(None))
            } else {
                (st, src, Err(()))
            }
        },
    }
}

impl MessageReader {
    /// A decoder waiting for a length prefix.
    pub fn new() -> (r: MessageReader)
        ensures
            r == MessageReader::Empty,
    {
        MessageReader::Empty
    }

    /// Advances the decoder by one step over `source`.
    ///
    /// Returns `Ok(Some(body))` when a whole frame has been read, `Ok(None)`
    /// when more bytes are needed (or a prefix was just read), and `Err(())`
    /// when the stream cannot be decoded any further.
    pub fn next(&mut self, source: &mut ByteSource) -> (r: Result<Option<Vec<u8>>, ()>)
        ensures
            (*final(self), final(source)@, decoded_view(r)) == decode_step(*old(self), old(source)@),
    {
        match *self {
            MessageReader::Empty => {
                match source.read_exact(4) {
                    ReadOutcome::Filled(size) => {
                        *self = MessageReader::Amount(read_be_u32(size.as_slice()));
                        Ok(None)
                    },
                    ReadOutcome::WouldBlock => Ok(None),
                    ReadOutcome::Failed => Err(()),
                }
            },
            MessageReader::Amount(len) => {
                if len == RESERVED_LENGTH {
                    return Err(());
                }
                match source.read_exact(len as usize) {
                    ReadOutcome::Filled(body) => {
                        *self = MessageReader::Empty;
                        Ok(Some(body))
                    },
                    ReadOutcome::WouldBlock => Ok(None),
                    ReadOutcome::Failed => Err(()),
                }
            },
        }
    }
}

/// Round trip: decoding the frame of any payload whose length can be
/// announced takes two steps from `Empty`. The first reads the prefix and
/// yields nothing; the second yields the payload exactly, returns the decoder
/// to `Empty`, and leaves whatever followed the frame in the source.
pub proof fn lemma_frame_round_trip(payload: Seq<u8>, rest: Seq<u8>, open: bool)
    requires
        payload.len() < RESERVED_LENGTH,
    ensures
        ({
            let (st1, src1, r1) = decode_step(
                MessageReader::Empty,
                SourceView { bytes: frame_of(payload) + rest, open },
            );
            &&& r1 == Ok::<Option<Seq<u8>>, ()>(None)
            &&& st1 == MessageReader::Amount(payload.len() as u32)
            &&& decode_step(st1, src1) == (
                MessageReader::Empty,
                SourceView { bytes: rest, open },
                Ok::<Option<Seq<u8>>, ()>(Some(payload)),
            )
        }),
{
    let n = payload.len() as u32;
    lemma_be_round_trip(n);
    let bytes = frame_of(payload) + rest;
    assert(bytes.take(4) =~= be_bytes(n));
    assert(prefix_value(bytes) == prefix_value(be_bytes(n)));
    assert(bytes.skip(4) =~= payload + rest);
    assert((payload + rest).take(n as int) =~= payload);
    assert((payload + rest).skip(n as int) =~= rest);
}

/// A frame is never yielded from partial data: when an open source holds only
/// a strict prefix of a frame, decoding from `Empty` yields nothing, and the
/// state it reaches yields nothing again and changes nothing, however often
/// it is polled.
pub proof fn lemma_partial_frame_pending(payload: Seq<u8>, k: nat)
    requires
        payload.len() < RESERVED_LENGTH,
        k < frame_of(payload).len(),
    ensures
        ({
            let (st1, src1, r1) = decode_step(
                MessageReader::Empty,
                SourceView { bytes: frame_of(payload).take(k as int), open: true },
            );
            &&& r1 == Ok::<Option<Seq<u8>>, ()>(None)
            &&& decode_step(st1, src1) == (st1, src1, Ok::<Option<Seq<u8>>, ()>(None))
        }),
{
    let n = payload.len() as u32;
    lemma_be_round_trip(n);
    let bytes = frame_of(payload).take(k as int);
    if k >= 4 {
        assert(bytes.take(4) =~= be_bytes(n));
        assert(prefix_value(bytes) == prefix_value(be_bytes(n)));
    }
}

/// A prefix holding the reserved length is fatal as soon as it has been read:
/// the next step fails without taking any body bytes from the source.
pub proof fn lemma_reserved_length_rejected(bytes: Seq<u8>, open: bool)
    requires
        bytes.len() >= 4,
        bytes[0] == 0xFF && bytes[1] == 0xFF && bytes[2] == 0xFF && bytes[3] == 0xFF,
    ensures
        ({
            let (st1, src1, r1) = decode_step(MessageReader::Empty, SourceView { bytes, open });
            &&& r1 == Ok::<Option<Seq<u8>>, ()>(None)
            &&& st1 == MessageReader::Amount(RESERVED_LENGTH)
            &&& src1.bytes == bytes.skip(4)
            &&& decode_step(st1, src1) == (st1, src1, Err::<Option<Seq<u8>>, ()>(()))
        }),
{
}

} // verus!
