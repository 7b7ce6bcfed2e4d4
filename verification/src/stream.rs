//! Framing and deframing of the serial byte stream: start byte, 32-bit
//! little-endian size, payload, 8-bit modular checksum — and the
//! resynchronizing streaming reader over an append-only buffer.
use vstd::prelude::*;
use crate::command::{spec_command_payload, spec_parse_command, CommandView, HardwareCommand};
use crate::deser::{checksum, checksum_of, combine32, le32, push_le32, DeserError};
use crate::event::{spec_event_payload, spec_parse_event, EventView, HardwareEvent};

verus! {

/// The byte that starts every frame.
pub const SERIAL_START_BYTE: u8 = 0xAA;

/// A whole frame: start byte, payload size, payload, payload checksum.
pub open spec fn frame_of(payload: Seq<u8>) -> Seq<u8> {
    seq![0xAAu8] + le32(payload.len() as u32) + payload + seq![checksum_of(payload)]
}

/// One step of the streaming reader.
pub ghost enum ReadStep<T> {
    /// No complete frame is buffered yet; try again after more bytes.
    Pending,
    /// A frame was decoded and consumed.
    Frame(T),
    /// A complete, checksummed frame did not decode; it is dropped and
    /// its error reported.
    Failed(DeserError),
}

/// What the streaming reader does on a buffer `s`: drop bytes until a
/// start byte leads a complete frame with a matching checksum, then
/// decode its payload with `parse`. Returns the step and the buffer as
/// the reader leaves it.
pub open spec fn spec_read_frame<T>(
    s: Seq<u8>,
    parse: spec_fn(Seq<u8>) -> Result<T, DeserError>,
) -> (ReadStep<T>, Seq<u8>)
    decreases s.len(),
{
    if s.len() == 0 {
        (ReadStep::Pending, s)
    } else if s[0] != 0xAA {
        spec_read_frame(s.skip(1), parse)
    } else if s.len() < 6 {
        (ReadStep::Pending, s)
    } else {
        let size = combine32(s[1], s[2], s[3], s[4]) as int;
        if s.len() < 6 + size {
            (ReadStep::Pending, s)
        } else {
            let payload = s.subrange(5, 5 + size);
            if checksum_of(payload) != s[5 + size] {
                spec_read_frame(s.skip(1), parse)
            } else {
                match parse(payload) {
                    Result::Ok(msg) => (ReadStep::Frame(msg), s.skip(6 + size)),
                    Result::Err(e) => (ReadStep::Failed(e), s.skip(6 + size)),
                }
            }
        }
    }
}

/// The command payload parser, as a single function value.
pub open spec fn command_parser() -> spec_fn(Seq<u8>) -> Result<CommandView, DeserError> {
    |p: Seq<u8>| spec_parse_command(p)
}

/// The event payload parser, as a single function value.
pub open spec fn event_parser() -> spec_fn(Seq<u8>) -> Result<EventView, DeserError> {
    |p: Seq<u8>| spec_parse_event(p)
}

/// One streaming read of a command frame.
pub open spec fn spec_read_command(s: Seq<u8>) -> (ReadStep<CommandView>, Seq<u8>) {
    spec_read_frame(s, command_parser())
}

/// One streaming read of an event frame.
pub open spec fn spec_read_event(s: Seq<u8>) -> (ReadStep<EventView>, Seq<u8>) {
    spec_read_frame(s, event_parser())
}

/// The append-only buffer of bytes read from a serial line.
#[derive(Debug)]
pub struct SerialStream(Vec<u8>);

impl View for SerialStream {
    type V = Seq<u8>;

    closed spec fn view(&self) -> Seq<u8> {
        self.0@
    }
}

impl SerialStream {
    /// An empty stream.
    pub fn new() -> (r: SerialStream)
        ensures
            r@ == Seq::<u8>::empty(),
    {
        SerialStream(Vec::new())
    }

    /// How many bytes are buffered.
    pub fn len(&self) -> (r: usize)
        ensures
            r == self@.len(),
    {
        self.0.len()
    }

    /// Whether nothing is buffered.
    pub fn is_empty(&self) -> (r: bool)
        ensures
            r == (self@.len() == 0),
    {
        self.0.is_empty()
    }

    /// The byte at an index.
    pub fn byte_at(&self, i: usize) -> (r: u8)
        requires
            i < self@.len(),
        ensures
            r == self@[i as int],
    {
        self.0[i]
    }

    /// Append bytes read from the line.
    pub fn push_bytes(&mut self, bytes: &[u8])
        ensures
            final(self)@ == old(self)@ + bytes@,
    {
        self.0.extend_from_slice(bytes);
    }

    /// Remove and return the first byte, if any.
    pub fn shift(&mut self) -> (r: Option<u8>)
        ensures
            match r {
                Some(b) => old(self)@.len() > 0 && b == old(self)@[0] && final(self)@ == old(
                    self,
                )@.skip(1),
                None => old(self)@.len() == 0 && final(self)@ == old(self)@,
            },
    {
        if self.0.is_empty() {
            None
        } else {
            let b = self.0.remove(0);
            proof {
                assert(self.0@ =~= old(self)@.skip(1));
            }
            Some(b)
        }
    }

    /// Drop the first `n` bytes.
    fn consume(&mut self, n: usize)
        requires
            n <= old(self)@.len(),
        ensures
            final(self)@ == old(self)@.skip(n as int),
    {
        let tail = self.0.split_off(n);
        self.0 = tail;
        proof {
            assert(self.0@ =~= old(self)@.skip(n as int));
        }
    }

    /// Try to read one command frame from the buffer, resynchronizing on
    /// noise: bytes before a plausible frame and frames with a bad
    /// checksum are dropped one byte at a time. A complete frame whose
    /// payload does not decode is dropped whole and its error returned,
    /// so a bad frame never blocks the reader.
    pub fn read_command(&mut self) -> (r: Result<Option<HardwareCommand>, DeserError>)
        ensures
            final(self)@ == spec_read_command(old(self)@).1,
            match r {
                Ok(Option::None) => spec_read_command(old(self)@).0 is Pending,
                Ok(Option::Some(c)) => spec_read_command(old(self)@).0 == ReadStep::Frame(c@)
                    && c@.wf(),
                Err(e) => spec_read_command(old(self)@).0 == ReadStep::<CommandView>::Failed(e),
            },
    {
        let ghost orig = self@;
        loop
            invariant
                orig == old(self)@,
                spec_read_command(orig) == spec_read_command(self@),
            decreases self@.len(),
        {
            if self.is_empty() {
                return Ok(None);
            }
            if self.byte_at(0) != SERIAL_START_BYTE {
                let _dropped = self.shift();
                continue;
            }
            if self.len() < 6 {
                return Ok(None);
            }
            let size32 = combine32_exec(
                self.byte_at(1),
                self.byte_at(2),
                self.byte_at(3),
                self.byte_at(4),
            );
            if (self.len() as u64) < 6u64 + size32 as u64 {
                return Ok(None);
            }
            let size = size32 as usize;
            let payload_slice = &self.0.as_slice()[5..5 + size];
            let sum = checksum(payload_slice);
            if sum != self.byte_at(5 + size) {
                let _dropped = self.shift();
                continue;
            }
            match HardwareCommand::deserialize(payload_slice) {
                Ok(c) => {
                    self.consume(6 + size);
                    return Ok(Some(c));
                },
                Err(e) => {
                    self.consume(6 + size);
                    return Err(e);
                },
            }
        }
    }

    /// Try to read one event frame from the buffer; same discipline as
    /// `read_command`.
    pub fn read_event(&mut self) -> (r: Result<Option<HardwareEvent>, DeserError>)
        ensures
            final(self)@ == spec_read_event(old(self)@).1,
            match r {
                Ok(Option::None) => spec_read_event(old(self)@).0 is Pending,
                Ok(Option::Some(e)) => spec_read_event(old(self)@).0 == ReadStep::Frame(e@)
                    && e@.wf(),
                Err(err) => spec_read_event(old(self)@).0 == ReadStep::<EventView>::Failed(err),
            },
    {
        let ghost orig = self@;
        loop
            invariant
                orig == old(self)@,
                spec_read_event(orig) == spec_read_event(self@),
            decreases self@.len(),
        {
            if self.is_empty() {
                return Ok(None);
            }
            if self.byte_at(0) != SERIAL_START_BYTE {
                let _dropped = self.shift();
                continue;
            }
            if self.len() < 6 {
                return Ok(None);
            }
            let size32 = combine32_exec(
                self.byte_at(1),
                self.byte_at(2),
                self.byte_at(3),
                self.byte_at(4),
            );
            if (self.len() as u64) < 6u64 + size32 as u64 {
                return Ok(None);
            }
            let size = size32 as usize;
            let payload_slice = &self.0.as_slice()[5..5 + size];
            let sum = checksum(payload_slice);
            if sum != self.byte_at(5 + size) {
                let _dropped = self.shift();
                continue;
            }
            match HardwareEvent::deserialize(payload_slice) {
                Ok(e) => {
                    self.consume(6 + size);
                    return Ok(Some(e));
                },
                Err(e) => {
                    self.consume(6 + size);
                    return Err(e);
                },
            }
        }
    }
}

/// Combine four little-endian bytes into their 32-bit value.
pub fn combine32_exec(b0: u8, b1: u8, b2: u8, b3: u8) -> (r: u32)
    ensures
        r == combine32(b0, b1, b2, b3),
{
    (b0 as u32) | ((b1 as u32) << 8) | ((b2 as u32) << 16) | ((b3 as u32) << 24)
}

/// Wrap a payload into a frame.
pub fn encode_frame(payload: &Vec<u8>) -> (r: Vec<u8>)
    requires
        payload@.len() <= u32::MAX,
    ensures
        r@ == frame_of(payload@),
{
    let mut out: Vec<u8> = Vec::new();
    out.push(SERIAL_START_BYTE);
    push_le32(&mut out, payload.len() as u32);
    let n = payload.len();
    let mut i: usize = 0;
    while i < n
        invariant
            n == payload@.len(),
            i <= n,
            out@ =~= seq![0xAAu8] + le32(n as u32) + payload@.take(i as int),
        decreases n - i,
    {
        out.push(payload[i]);
        proof {
            assert(payload@.take(i + 1) =~= payload@.take(i as int).push(payload@[i as int]));
            assert(out@ =~= seq![0xAAu8] + le32(n as u32) + payload@.take(i + 1));
        }
        i = i + 1;
    }
    let sum = checksum(payload.as_slice());
    out.push(sum);
    proof {
        assert(payload@.take(n as int) =~= payload@);
        assert(out@ =~= frame_of(payload@));
    }
    out
}

/// The full wire bytes of a command: its payload in a frame.
pub fn encode_command_frame(cmd: &HardwareCommand) -> (r: Vec<u8>)
    requires
        cmd@.wf(),
    ensures
        r@ == frame_of(spec_command_payload(cmd@)),
{
    let payload = cmd.serialize();
    encode_frame(&payload)
}

/// The full wire bytes of an event: its payload in a frame.
pub fn encode_event_frame(event: &HardwareEvent) -> (r: Vec<u8>)
    requires
        event@.wf(),
    ensures
        r@ == frame_of(spec_event_payload(event@)),
{
    let payload = event.serialize();
    encode_frame(&payload)
}

/// A framed payload at the head of the buffer is found as-is: the reader
/// consumes exactly the frame and hands its parse result on.
pub proof fn lemma_frame_decode<T>(
    p: Seq<u8>,
    rest: Seq<u8>,
    parse: spec_fn(Seq<u8>) -> Result<T, DeserError>,
)
    requires
        p.len() <= u32::MAX,
    ensures
        spec_read_frame(frame_of(p) + rest, parse) == (match parse(p) {
            Result::Ok(m) => (ReadStep::Frame(m), rest),
            Result::Err(e) => (ReadStep::Failed(e), rest),
        }),
{
    let s = frame_of(p) + rest;
    let size = p.len() as int;
    assert(s[0] == 0xAA);
    assert(s.len() == 6 + size + rest.len());
    assert(s.subrange(1, 5) =~= le32(p.len() as u32));
    crate::event::lemma_u32_at(s, 1, p.len() as u32);
    assert(combine32(s[1], s[2], s[3], s[4]) as int == size);
    assert(s.subrange(5, 5 + size) =~= p);
    assert(s[5 + size] == checksum_of(p));
    assert(s.skip(6 + size) =~= rest);
}

/// Bytes that cannot start a frame are skipped: a prefix free of the
/// start byte never changes what the streaming reader finds.
pub proof fn lemma_noise_is_skipped<T>(
    junk: Seq<u8>,
    s: Seq<u8>,
    parse: spec_fn(Seq<u8>) -> Result<T, DeserError>,
)
    requires
        forall|i: int| 0 <= i < junk.len() ==> junk[i] != 0xAA,
    ensures
        spec_read_frame(junk + s, parse) == spec_read_frame(s, parse),
    decreases junk.len(),
{
    if junk.len() == 0 {
        assert(junk + s =~= s);
    } else if (junk + s).len() == 0 {
        assert(junk + s =~= s);
    } else {
        assert((junk + s)[0] == junk[0]);
        assert((junk + s).skip(1) =~= junk.skip(1) + s);
        lemma_noise_is_skipped(junk.skip(1), s, parse);
    }
}

/// The resynchronization guarantee for commands: noise without a start
/// byte, followed by an encoded command, yields exactly that command and
/// consumes both the noise and the frame.
pub proof fn lemma_command_resync(junk: Seq<u8>, c: CommandView, rest: Seq<u8>)
    requires
        forall|i: int| 0 <= i < junk.len() ==> junk[i] != 0xAA,
        c.wf(),
    ensures
        spec_read_command(junk + frame_of(spec_command_payload(c)) + rest) == (
        ReadStep::<CommandView>::Frame(c),
        rest,
        ),
{
    lemma_noise_is_skipped(junk, frame_of(spec_command_payload(c)) + rest, command_parser());
    assert(junk + frame_of(spec_command_payload(c)) + rest =~= junk + (frame_of(
        spec_command_payload(c),
    ) + rest));
    lemma_command_wire_round_trip(c, rest);
}

/// Encoding a command and feeding the frame to the streaming reader gives
/// the command back and consumes exactly the frame.
pub proof fn lemma_command_wire_round_trip(c: CommandView, rest: Seq<u8>)
    requires
        c.wf(),
    ensures
        spec_read_command(frame_of(spec_command_payload(c)) + rest) == (
        ReadStep::<CommandView>::Frame(c),
        rest,
        ),
{
    crate::command::lemma_command_round_trip(c);
    lemma_frame_decode(spec_command_payload(c), rest, command_parser());
}

/// Encoding an event and feeding the frame to the streaming reader gives
/// the event back and consumes exactly the frame.
pub proof fn lemma_event_wire_round_trip(e: EventView, rest: Seq<u8>)
    requires
        e.wf(),
    ensures
        spec_read_event(frame_of(spec_event_payload(e)) + rest) == (
        ReadStep::<EventView>::Frame(e),
        rest,
        ),
{
    crate::event::lemma_event_round_trip(e);
    lemma_frame_decode(spec_event_payload(e), rest, event_parser());
}

} // verus!
