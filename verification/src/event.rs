//! Hardware events: the messages the firmware sends to the host, with
//! their byte-exact payload encoding.
use vstd::prelude::*;
use crate::deser::{
    combine32, le32, lemma_le32_roundtrip, DeserError, DeserPayloadReader, DeserPayloadWriter,
    DeserSize, push_le32,
};

verus! {

/// Length of a switch id on the wire: a zero-padded byte array.
pub const HARDWARE_SWITCH_ID_LEN: usize = 32;

/// The discrete power levels of a section, in increasing order.
#[derive(Debug, Copy, Clone, PartialEq, Eq, Structural)]
pub enum HardwareSectionPower {
    Off,
    Quarter,
    Half,
    ThreeQuarters,
    Full,
}

/// The wire byte of a power level, which also orders the levels.
pub open spec fn power_byte(p: HardwareSectionPower) -> u8 {
    match p {
        HardwareSectionPower::Off => 0,
        HardwareSectionPower::Quarter => 1,
        HardwareSectionPower::Half => 2,
        HardwareSectionPower::ThreeQuarters => 3,
        HardwareSectionPower::Full => 4,
    }
}

/// The power level of a wire byte.
pub open spec fn power_of_byte(b: u8) -> Option<HardwareSectionPower> {
    if b == 0 {
        Some(HardwareSectionPower::Off)
    } else if b == 1 {
        Some(HardwareSectionPower::Quarter)
    } else if b == 2 {
        Some(HardwareSectionPower::Half)
    } else if b == 3 {
        Some(HardwareSectionPower::ThreeQuarters)
    } else if b == 4 {
        Some(HardwareSectionPower::Full)
    } else {
        None
    }
}

impl HardwareSectionPower {
    /// Whether the level is `Off`.
    pub fn is_off(&self) -> (r: bool)
        ensures
            r == (*self == HardwareSectionPower::Off),
    {
        match self {
            HardwareSectionPower::Off => true,
            _ => false,
        }
    }

    /// The wire byte of this level.
    pub fn to_byte(&self) -> (r: u8)
        ensures
            r == power_byte(*self),
    {
        match self {
            HardwareSectionPower::Off => 0,
            HardwareSectionPower::Quarter => 1,
            HardwareSectionPower::Half => 2,
            HardwareSectionPower::ThreeQuarters => 3,
            HardwareSectionPower::Full => 4,
        }
    }

    /// The level of a wire byte.
    pub fn from_byte(b: u8) -> (r: Option<HardwareSectionPower>)
        ensures
            r == power_of_byte(b),
    {
        if b == 0 {
            Some(HardwareSectionPower::Off)
        } else if b == 1 {
            Some(HardwareSectionPower::Quarter)
        } else if b == 2 {
            Some(HardwareSectionPower::Half)
        } else if b == 3 {
            Some(HardwareSectionPower::ThreeQuarters)
        } else if b == 4 {
            Some(HardwareSectionPower::Full)
        } else {
            None
        }
    }
}

/// The two positions of a switch, on the wire.
#[derive(Debug, Copy, Clone, PartialEq, Eq, Structural)]
pub enum HardwareSwitchState {
    Left,
    Right,
}

/// The wire byte of a switch position.
pub open spec fn switch_state_byte(s: HardwareSwitchState) -> u8 {
    match s {
        HardwareSwitchState::Left => 0,
        HardwareSwitchState::Right => 1,
    }
}

/// The switch position of a wire byte.
pub open spec fn switch_state_of_byte(b: u8) -> Option<HardwareSwitchState> {
    if b == 0 {
        Some(HardwareSwitchState::Left)
    } else if b == 1 {
        Some(HardwareSwitchState::Right)
    } else {
        None
    }
}

impl HardwareSwitchState {
    /// The wire byte of this position.
    pub fn to_byte(&self) -> (r: u8)
        ensures
            r == switch_state_byte(*self),
    {
        match self {
            HardwareSwitchState::Left => 0,
            HardwareSwitchState::Right => 1,
        }
    }

    /// The position of a wire byte.
    pub fn from_byte(b: u8) -> (r: Option<HardwareSwitchState>)
        ensures
            r == switch_state_of_byte(b),
    {
        if b == 0 {
            Some(HardwareSwitchState::Left)
        } else if b == 1 {
            Some(HardwareSwitchState::Right)
        } else {
            None
        }
    }
}

/// What a section detector reported.
#[derive(Debug, Copy, Clone, PartialEq, Eq, Structural)]
pub enum SectionEventType {
    Occupied,
    Freed,
}

/// The wire byte of a section event type.
pub open spec fn section_event_type_byte(t: SectionEventType) -> u8 {
    match t {
        SectionEventType::Occupied => 0,
        SectionEventType::Freed => 1,
    }
}

/// The section event type of a wire byte.
pub open spec fn section_event_type_of_byte(b: u8) -> Option<SectionEventType> {
    if b == 0 {
        Some(SectionEventType::Occupied)
    } else if b == 1 {
        Some(SectionEventType::Freed)
    } else {
        None
    }
}

impl SectionEventType {
    /// The wire byte of this event type.
    pub fn to_byte(&self) -> (r: u8)
        ensures
            r == section_event_type_byte(*self),
    {
        match self {
            SectionEventType::Occupied => 0,
            SectionEventType::Freed => 1,
        }
    }

    /// The event type of a wire byte.
    pub fn from_byte(b: u8) -> (r: Option<SectionEventType>)
        ensures
            r == section_event_type_of_byte(b),
    {
        if b == 0 {
            Some(SectionEventType::Occupied)
        } else if b == 1 {
            Some(SectionEventType::Freed)
        } else {
            None
        }
    }
}

/// A detector transition on one section.
#[derive(Debug, Copy, Clone, PartialEq, Eq, Structural)]
pub struct SectionEvent {
    pub section_id: u32,
    pub event_type: SectionEventType,
}

impl SectionEvent {
    /// The event that a train was detected on a section.
    pub fn occupied(section_id: u32) -> (r: SectionEvent)
        ensures
            r == (SectionEvent { section_id, event_type: SectionEventType::Occupied }),
    {
        SectionEvent { section_id, event_type: SectionEventType::Occupied }
    }

    /// The event that a section became free.
    pub fn freed(section_id: u32) -> (r: SectionEvent)
        ensures
            r == (SectionEvent { section_id, event_type: SectionEventType::Freed }),
    {
        SectionEvent { section_id, event_type: SectionEventType::Freed }
    }
}

/// The wire tags of the event variants.
#[derive(Debug, Copy, Clone, PartialEq, Eq, Structural)]
pub enum HardwareEventType {
    Pong,
    SectionEvent,
    SwitchStateChange,
    DebugMessage,
}

/// The wire tag byte of an event variant.
pub open spec fn event_tag(t: HardwareEventType) -> u8 {
    match t {
        HardwareEventType::Pong => 0,
        HardwareEventType::SectionEvent => 1,
        HardwareEventType::SwitchStateChange => 2,
        HardwareEventType::DebugMessage => 99,
    }
}

impl HardwareEventType {
    /// The wire tag byte of this variant.
    pub fn to_byte(&self) -> (r: u8)
        ensures
            r == event_tag(*self),
    {
        match self {
            HardwareEventType::Pong => 0,
            HardwareEventType::SectionEvent => 1,
            HardwareEventType::SwitchStateChange => 2,
            HardwareEventType::DebugMessage => 99,
        }
    }

    /// The variant of a wire tag byte.
    pub fn from_byte(b: u8) -> (r: Option<HardwareEventType>)
        ensures
            r == (if b == 0 {
                Some(HardwareEventType::Pong)
            } else if b == 1 {
                Some(HardwareEventType::SectionEvent)
            } else if b == 2 {
                Some(HardwareEventType::SwitchStateChange)
            } else if b == 99 {
                Some(HardwareEventType::DebugMessage)
            } else {
                None
            }),
    {
        if b == 0 {
            Some(HardwareEventType::Pong)
        } else if b == 1 {
            Some(HardwareEventType::SectionEvent)
        } else if b == 2 {
            Some(HardwareEventType::SwitchStateChange)
        } else if b == 99 {
            Some(HardwareEventType::DebugMessage)
        } else {
            None
        }
    }
}

/// An event sent by the firmware to the host.
#[derive(Debug, Clone, PartialEq)]
pub enum HardwareEvent {
    Pong { slave_id: u32, seq: u32 },
    SectionEvent(SectionEvent),
    SwitchStateChanged { switch_id: Vec<u8>, state: HardwareSwitchState },
    DebugMessage { message: Vec<u8> },
}

/// Mathematical model of a `HardwareEvent`.
pub ghost enum EventView {
    Pong { slave_id: u32, seq: u32 },
    SectionEvent { section_id: u32, event_type: SectionEventType },
    SwitchStateChanged { switch_id: Seq<u8>, state: HardwareSwitchState },
    DebugMessage { message: Seq<u8> },
}

impl View for HardwareEvent {
    type V = EventView;

    open spec fn view(&self) -> EventView {
        match self {
            HardwareEvent::Pong { slave_id, seq } => {
                EventView::Pong { slave_id: *slave_id, seq: *seq }
            },
            HardwareEvent::SectionEvent(e) => {
                EventView::SectionEvent { section_id: e.section_id, event_type: e.event_type }
            },
            HardwareEvent::SwitchStateChanged { switch_id, state } => {
                EventView::SwitchStateChanged { switch_id: switch_id@, state: *state }
            },
            HardwareEvent::DebugMessage { message } => {
                EventView::DebugMessage { message: message@ }
            },
        }
    }
}

impl EventView {
    /// Fields that fit the wire format: a full-length switch id, and a
    /// debug message short enough that its whole payload fits the 32-bit
    /// frame size field.
    pub open spec fn wf(&self) -> bool {
        match self {
            EventView::SwitchStateChanged { switch_id, .. } => {
                switch_id.len() == HARDWARE_SWITCH_ID_LEN
            },
            EventView::DebugMessage { message } => message.len() + 5 <= u32::MAX,
            _ => true,
        }
    }

    /// The variant of this event.
    pub open spec fn variant(&self) -> HardwareEventType {
        match self {
            EventView::Pong { .. } => HardwareEventType::Pong,
            EventView::SectionEvent { .. } => HardwareEventType::SectionEvent,
            EventView::SwitchStateChanged { .. } => HardwareEventType::SwitchStateChange,
            EventView::DebugMessage { .. } => HardwareEventType::DebugMessage,
        }
    }
}

/// The payload bytes of an event: the variant tag followed by its fields.
pub open spec fn spec_event_payload(e: EventView) -> Seq<u8> {
    match e {
        EventView::Pong { slave_id, seq } => seq![0u8] + le32(slave_id) + le32(seq),
        EventView::SectionEvent { section_id, event_type } => seq![1u8] + le32(section_id) + seq![
            section_event_type_byte(event_type),
        ],
        EventView::SwitchStateChanged { switch_id, state } => seq![2u8] + switch_id + seq![
            switch_state_byte(state),
        ],
        EventView::DebugMessage { message } => seq![99u8] + le32(message.len() as u32) + message,
    }
}

/// Parsing an event payload: the inverse of `spec_event_payload` on
/// well-formed events; bytes past the expected fields are ignored.
pub open spec fn spec_parse_event(p: Seq<u8>) -> Result<EventView, DeserError> {
    if p.len() < 1 {
        Err(DeserError::UnexpectedEndOfBuffer)
    } else if p[0] == 0 {
        if p.len() < 9 {
            Err(DeserError::UnexpectedEndOfBuffer)
        } else {
            Ok(
                EventView::Pong {
                    slave_id: combine32(p[1], p[2], p[3], p[4]),
                    seq: combine32(p[5], p[6], p[7], p[8]),
                },
            )
        }
    } else if p[0] == 1 {
        if p.len() < 6 {
            Err(DeserError::UnexpectedEndOfBuffer)
        } else {
            match section_event_type_of_byte(p[5]) {
                Option::Some(t) => Ok(
                    EventView::SectionEvent {
                        section_id: combine32(p[1], p[2], p[3], p[4]),
                        event_type: t,
                    },
                ),
                Option::None => Err(DeserError::InvalidVariant(p[5])),
            }
        }
    } else if p[0] == 2 {
        if p.len() < 34 {
            Err(DeserError::UnexpectedEndOfBuffer)
        } else {
            match switch_state_of_byte(p[33]) {
                Option::Some(st) => Ok(
                    EventView::SwitchStateChanged { switch_id: p.subrange(1, 33), state: st },
                ),
                Option::None => Err(DeserError::InvalidVariant(p[33])),
            }
        }
    } else if p[0] == 99 {
        if p.len() < 5 {
            Err(DeserError::UnexpectedEndOfBuffer)
        } else {
            let len = combine32(p[1], p[2], p[3], p[4]) as int;
            if p.len() < 5 + len {
                Err(DeserError::UnexpectedEndOfBuffer)
            } else {
                Ok(EventView::DebugMessage { message: p.subrange(5, 5 + len) })
            }
        }
    } else {
        Err(DeserError::InvalidVariant(p[0]))
    }
}

impl HardwareEvent {
    /// The wire variant of this event.
    pub fn variant(&self) -> (r: HardwareEventType)
        ensures
            r == self@.variant(),
    {
        match self {
            HardwareEvent::Pong { .. } => HardwareEventType::Pong,
            HardwareEvent::SectionEvent { .. } => HardwareEventType::SectionEvent,
            HardwareEvent::SwitchStateChanged { .. } => HardwareEventType::SwitchStateChange,
            HardwareEvent::DebugMessage { .. } => HardwareEventType::DebugMessage,
        }
    }

    /// The payload size of a variant: fixed for all but debug messages.
    pub fn payload_size(variant: HardwareEventType) -> (r: DeserSize)
        ensures
            r == (match variant {
                HardwareEventType::Pong => DeserSize::Fixed(8),
                HardwareEventType::SectionEvent => DeserSize::Fixed(5),
                HardwareEventType::SwitchStateChange => DeserSize::Fixed(33),
                HardwareEventType::DebugMessage => DeserSize::Variable,
            }),
    {
        match variant {
            HardwareEventType::Pong => DeserSize::Fixed(8),
            HardwareEventType::SectionEvent => DeserSize::Fixed(5),
            HardwareEventType::SwitchStateChange => DeserSize::Fixed(33),
            HardwareEventType::DebugMessage => DeserSize::Variable,
        }
    }

    /// Serialize this event into its payload bytes, tag first.
    pub fn serialize(&self) -> (r: Vec<u8>)
        requires
            self@.wf(),
        ensures
            r@ == spec_event_payload(self@),
    {
        let mut w = DeserPayloadWriter::new();
        match self {
            HardwareEvent::Pong { slave_id, seq } => {
                w.write_u8(0);
                w.write_u32(*slave_id);
                w.write_u32(*seq);
            },
            HardwareEvent::SectionEvent(e) => {
                w.write_u8(1);
                w.write_u32(e.section_id);
                w.write_u8(e.event_type.to_byte());
            },
            HardwareEvent::SwitchStateChanged { switch_id, state } => {
                w.write_u8(2);
                let n = switch_id.len();
                let mut i: usize = 0;
                while i < n
                    invariant
                        n == switch_id@.len(),
                        i <= n,
                        w.bytes() =~= seq![2u8] + switch_id@.take(i as int),
                    decreases n - i,
                {
                    w.write_u8(switch_id[i]);
                    proof {
                        assert(switch_id@.take(i + 1) =~= switch_id@.take(i as int).push(
                            switch_id@[i as int],
                        ));
                        assert(w.bytes() =~= seq![2u8] + switch_id@.take(i + 1));
                    }
                    i = i + 1;
                }
                proof {
                    assert(switch_id@.take(n as int) =~= switch_id@);
                }
                w.write_u8(state.to_byte());
            },
            HardwareEvent::DebugMessage { message } => {
                w.write_u8(99);
                let len = message.len() as u32;
                let size_result = w.write_size(len);
                proof {
                    assert(size_result is Ok);
                }
                let n = message.len();
                let mut i: usize = 0;
                while i < n
                    invariant
                        n == message@.len(),
                        n <= u32::MAX,
                        i <= n,
                        w.bytes() =~= seq![99u8] + le32(n as u32) + message@.take(i as int),
                    decreases n - i,
                {
                    w.write_u8(message[i]);
                    proof {
                        assert(message@.take(i + 1) =~= message@.take(i as int).push(
                            message@[i as int],
                        ));
                        assert(w.bytes() =~= seq![99u8] + le32(n as u32) + message@.take(i + 1));
                    }
                    i = i + 1;
                }
                proof {
                    assert(message@.take(n as int) =~= message@);
                }
            },
        }
        let out = w.into_bytes();
        proof {
            assert(out@ =~= spec_event_payload(self@));
        }
        out
    }

    /// Decode an event from its payload bytes.
    pub fn deserialize(buffer: &[u8]) -> (r: Result<HardwareEvent, DeserError>)
        ensures
            match r {
                Ok(e) => spec_parse_event(buffer@) == Ok::<EventView, DeserError>(e@) && (buffer@.len()
                    <= u32::MAX ==> e@.wf()),
                Err(err) => spec_parse_event(buffer@) == Err::<EventView, DeserError>(err),
            },
    {
        let ghost p = buffer@;
        let mut rd = DeserPayloadReader::new(buffer);
        let tag = rd.parse_u8()?;
        if tag == 0 {
            let slave_id = Self::read_u32_checked(&mut rd)?;
            let seq = Self::read_u32_checked(&mut rd)?;
            proof {
                lemma_u32_at(p, 1, slave_id);
                lemma_u32_at(p, 5, seq);
            }
            Ok(HardwareEvent::Pong { slave_id, seq })
        } else if tag == 1 {
            let section_id = Self::read_u32_checked(&mut rd)?;
            let tb = rd.parse_u8()?;
            let event_type = match SectionEventType::from_byte(tb) {
                Some(t) => t,
                None => {
                    return Err(DeserError::InvalidVariant(tb));
                },
            };
            proof {
                lemma_u32_at(p, 1, section_id);
            }
            Ok(HardwareEvent::SectionEvent(SectionEvent { section_id, event_type }))
        } else if tag == 2 {
            let mut switch_id: Vec<u8> = Vec::new();
            let mut i: usize = 0;
            while i < 32
                invariant
                    p == buffer@,
                    rd.wf(),
                    rd.all() == p,
                    rd.taken() == 1 + i,
                    i <= 32,
                    1 + i <= p.len(),
                    p.len() >= 1 && p[0] == 2,
                    switch_id@ =~= p.subrange(1, 1 + i),
                decreases 32 - i,
            {
                let b = rd.parse_u8()?;
                switch_id.push(b);
                proof {
                    assert(switch_id@ =~= p.subrange(1, 1 + i).push(p[1 + i]));
                    assert(p.subrange(1, 2 + i) =~= p.subrange(1, 1 + i).push(p[1 + i]));
                }
                i = i + 1;
            }
            let sb = rd.parse_u8()?;
            let state = match HardwareSwitchState::from_byte(sb) {
                Some(st) => st,
                None => {
                    return Err(DeserError::InvalidVariant(sb));
                },
            };
            Ok(HardwareEvent::SwitchStateChanged { switch_id, state })
        } else if tag == 99 {
            let len32 = Self::read_u32_checked(&mut rd)?;
            proof {
                lemma_u32_at(p, 1, len32);
            }
            let len = len32 as usize;
            if rd.len() < len {
                return Err(DeserError::UnexpectedEndOfBuffer);
            }
            let mut message: Vec<u8> = Vec::new();
            let mut i: usize = 0;
            while i < len
                invariant
                    p == buffer@,
                    rd.wf(),
                    rd.all() == p,
                    rd.taken() == 5 + i,
                    i <= len,
                    5 + len <= p.len(),
                    message@ =~= p.subrange(5, 5 + i),
                decreases len - i,
            {
                let b = match rd.parse_u8() {
                    Ok(b) => b,
                    Err(_) => {
                        proof {
                            assert(false);
                        }
                        return Err(DeserError::UnexpectedEndOfBuffer);
                    },
                };
                message.push(b);
                proof {
                    assert(message@ =~= p.subrange(5, 5 + i).push(p[5 + i]));
                    assert(p.subrange(5, 6 + i) =~= p.subrange(5, 5 + i).push(p[5 + i]));
                }
                i = i + 1;
            }
            Ok(HardwareEvent::DebugMessage { message })
        } else {
            Err(DeserError::InvalidVariant(tag))
        }
    }

    /// Read a 32-bit field, mapping a short read to `UnexpectedEndOfBuffer`.
    fn read_u32_checked(rd: &mut DeserPayloadReader) -> (r: Result<u32, DeserError>)
        requires
            old(rd).wf(),
        ensures
            final(rd).all() == old(rd).all(),
            final(rd).wf(),
            match r {
                Ok(x) => old(rd).taken() + 4 <= old(rd).all().len() && le32(x) == old(
                    rd,
                ).all().subrange(old(rd).taken(), old(rd).taken() + 4) && final(rd).taken() == old(
                    rd,
                ).taken() + 4,
                Err(e) => e == DeserError::UnexpectedEndOfBuffer && old(rd).all().len() < old(
                    rd,
                ).taken() + 4,
            },
    {
        match rd.parse_u32() {
            Ok(x) => Ok(x),
            Err(_) => Err(DeserError::UnexpectedEndOfBuffer),
        }
    }
}

/// From `le32(x) == p[at..at+4]` it follows that `x` is the combined value
/// of those four bytes.
pub proof fn lemma_u32_at(p: Seq<u8>, at: int, x: u32)
    requires
        0 <= at,
        at + 4 <= p.len(),
        le32(x) == p.subrange(at, at + 4),
    ensures
        x == combine32(p[at], p[at + 1], p[at + 2], p[at + 3]),
{
    lemma_le32_roundtrip(x);
    assert(p.subrange(at, at + 4)[0] == p[at]);
    assert(p.subrange(at, at + 4)[1] == p[at + 1]);
    assert(p.subrange(at, at + 4)[2] == p[at + 2]);
    assert(p.subrange(at, at + 4)[3] == p[at + 3]);
}

/// Decoding an encoded event gives the event back.
pub proof fn lemma_event_round_trip(e: EventView)
    requires
        e.wf(),
    ensures
        spec_parse_event(spec_event_payload(e)) == Ok::<EventView, DeserError>(e),
{
    let p = spec_event_payload(e);
    match e {
        EventView::Pong { slave_id, seq } => {
            assert(p.subrange(1, 5) =~= le32(slave_id));
            assert(p.subrange(5, 9) =~= le32(seq));
            lemma_u32_at(p, 1, slave_id);
            lemma_u32_at(p, 5, seq);
        },
        EventView::SectionEvent { section_id, event_type } => {
            assert(p.subrange(1, 5) =~= le32(section_id));
            lemma_u32_at(p, 1, section_id);
            assert(p[5] == section_event_type_byte(event_type));
        },
        EventView::SwitchStateChanged { switch_id, state } => {
            assert(p.subrange(1, 33) =~= switch_id);
            assert(p[33] == switch_state_byte(state));
        },
        EventView::DebugMessage { message } => {
            assert(p.subrange(1, 5) =~= le32(message.len() as u32));
            lemma_u32_at(p, 1, message.len() as u32);
            assert(p.subrange(5, 5 + message.len() as int) =~= message);
        },
    }
}

} // verus!
