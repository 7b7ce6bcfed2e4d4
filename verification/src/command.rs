//! Hardware commands: the messages the host sends to the firmware, with
//! their byte-exact payload encoding.
use vstd::prelude::*;
use crate::deser::{
    combine32, le32, DeserError, DeserPayloadReader, DeserPayloadWriter, DeserSize,
};
use crate::event::{
    lemma_u32_at, power_byte, power_of_byte, switch_state_byte, switch_state_of_byte,
    HardwareSectionPower, HardwareSwitchState, HARDWARE_SWITCH_ID_LEN,
};

verus! {

/// The wire tags of the command variants.
#[derive(Debug, Copy, Clone, PartialEq, Eq, Structural)]
pub enum HardwareCommandType {
    Ping,
    SetSectionPower,
    SetSwitchState,
    ResetAll,
}

/// The wire tag byte of a command variant.
pub open spec fn command_tag(t: HardwareCommandType) -> u8 {
    match t {
        HardwareCommandType::Ping => 0,
        HardwareCommandType::SetSectionPower => 1,
        HardwareCommandType::SetSwitchState => 2,
        HardwareCommandType::ResetAll => 99,
    }
}

impl HardwareCommandType {
    /// The wire tag byte of this variant.
    pub fn to_byte(&self) -> (r: u8)
        ensures
            r == command_tag(*self),
    {
        match self {
            HardwareCommandType::Ping => 0,
            HardwareCommandType::SetSectionPower => 1,
            HardwareCommandType::SetSwitchState => 2,
            HardwareCommandType::ResetAll => 99,
        }
    }

    /// The variant of a wire tag byte.
    pub fn from_byte(b: u8) -> (r: Option<HardwareCommandType>)
        ensures
            r == (if b == 0 {
                Some(HardwareCommandType::Ping)
            } else if b == 1 {
                Some(HardwareCommandType::SetSectionPower)
            } else if b == 2 {
                Some(HardwareCommandType::SetSwitchState)
            } else if b == 99 {
                Some(HardwareCommandType::ResetAll)
            } else {
                None
            }),
    {
        if b == 0 {
            Some(HardwareCommandType::Ping)
        } else if b == 1 {
            Some(HardwareCommandType::SetSectionPower)
        } else if b == 2 {
            Some(HardwareCommandType::SetSwitchState)
        } else if b == 99 {
            Some(HardwareCommandType::ResetAll)
        } else {
            None
        }
    }
}

/// A command sent by the host to the firmware.
#[derive(Debug, Clone, PartialEq)]
pub enum HardwareCommand {
    Ping { slave_id: u32, seq: u32 },
    SetSectionPower { section_id: u32, power: HardwareSectionPower },
    SetSwitchState { switch_id: Vec<u8>, state: HardwareSwitchState },
    ResetAll,
}

/// Mathematical model of a `HardwareCommand`.
pub ghost enum CommandView {
    Ping { slave_id: u32, seq: u32 },
    SetSectionPower { section_id: u32, power: HardwareSectionPower },
    SetSwitchState { switch_id: Seq<u8>, state: HardwareSwitchState },
    ResetAll,
}

impl View for HardwareCommand {
    type V = CommandView;

    open spec fn view(&self) -> CommandView {
        match self {
            HardwareCommand::Ping { slave_id, seq } => {
                CommandView::Ping { slave_id: *slave_id, seq: *seq }
            },
            HardwareCommand::SetSectionPower { section_id, power } => {
                CommandView::SetSectionPower { section_id: *section_id, power: *power }
            },
            HardwareCommand::SetSwitchState { switch_id, state } => {
                CommandView::SetSwitchState { switch_id: switch_id@, state: *state }
            },
            HardwareCommand::ResetAll => CommandView::ResetAll,
        }
    }
}

impl CommandView {
    /// Fields that fit the wire format: a full-length switch id.
    pub open spec fn wf(&self) -> bool {
        match self {
            CommandView::SetSwitchState { switch_id, .. } => {
                switch_id.len() == HARDWARE_SWITCH_ID_LEN
            },
            _ => true,
        }
    }

    /// The variant of this command.
    pub open spec fn variant(&self) -> HardwareCommandType {
        match self {
            CommandView::Ping { .. } => HardwareCommandType::Ping,
            CommandView::SetSectionPower { .. } => HardwareCommandType::SetSectionPower,
            CommandView::SetSwitchState { .. } => HardwareCommandType::SetSwitchState,
            CommandView::ResetAll => HardwareCommandType::ResetAll,
        }
    }
}

/// The payload bytes of a command: the variant tag followed by its fields.
pub open spec fn spec_command_payload(c: CommandView) -> Seq<u8> {
    match c {
        CommandView::Ping { slave_id, seq } => seq![0u8] + le32(slave_id) + le32(seq),
        CommandView::SetSectionPower { section_id, power } => seq![1u8] + le32(section_id) + seq![
            power_byte(power),
        ],
        CommandView::SetSwitchState { switch_id, state } => seq![2u8] + switch_id + seq![
            switch_state_byte(state),
        ],
        CommandView::ResetAll => seq![99u8],
    }
}

/// Parsing a command payload: the inverse of `spec_command_payload` on
/// well-formed commands; bytes past the expected fields are ignored.
pub open spec fn spec_parse_command(p: Seq<u8>) -> Result<CommandView, DeserError> {
    if p.len() < 1 {
        Err(DeserError::UnexpectedEndOfBuffer)
    } else if p[0] == 0 {
        if p.len() < 9 {
            Err(DeserError::UnexpectedEndOfBuffer)
        } else {
            Ok(
                CommandView::Ping {
                    slave_id: combine32(p[1], p[2], p[3], p[4]),
                    seq: combine32(p[5], p[6], p[7], p[8]),
                },
            )
        }
    } else if p[0] == 1 {
        if p.len() < 6 {
            Err(DeserError::UnexpectedEndOfBuffer)
        } else {
            match power_of_byte(p[5]) {
                Option::Some(pw) => Ok(
                    CommandView::SetSectionPower {
                        section_id: combine32(p[1], p[2], p[3], p[4]),
                        power: pw,
                    },
                ),
                Option::None => Err(DeserError::InvalidVariant(p[5])),
            }
        }
    } else if p[0] == 2 {
        if p.len() < 34 {
            Err(DeserError::UnexpectedEndOfBuffer)
        } else {
            match switch_state_of_byte(p[33]) {
                Option::Some(st) => Ok(
                    CommandView::SetSwitchState { switch_id: p.subrange(1, 33), state: st },
                ),
                Option::None => Err(DeserError::InvalidVariant(p[33])),
            }
        }
    } else if p[0] == 99 {
        Ok(CommandView::ResetAll)
    } else {
        Err(DeserError::InvalidVariant(p[0]))
    }
}

impl HardwareCommand {
    /// The wire variant of this command.
    pub fn variant(&self) -> (r: HardwareCommandType)
        ensures
            r == self@.variant(),
    {
        match self {
            HardwareCommand::Ping { .. } => HardwareCommandType::Ping,
            HardwareCommand::SetSectionPower { .. } => HardwareCommandType::SetSectionPower,
            HardwareCommand::SetSwitchState { .. } => HardwareCommandType::SetSwitchState,
            HardwareCommand::ResetAll => HardwareCommandType::ResetAll,
        }
    }

    /// The payload size of a variant, not counting the tag byte.
    pub fn payload_size(variant: HardwareCommandType) -> (r: DeserSize)
        ensures
            r == (match variant {
                HardwareCommandType::Ping => DeserSize::Fixed(8),
                HardwareCommandType::SetSectionPower => DeserSize::Fixed(5),
                HardwareCommandType::SetSwitchState => DeserSize::Fixed(33),
                HardwareCommandType::ResetAll => DeserSize::Fixed(0),
            }),
    {
        match variant {
            HardwareCommandType::Ping => DeserSize::Fixed(8),
            HardwareCommandType::SetSectionPower => DeserSize::Fixed(5),
            HardwareCommandType::SetSwitchState => DeserSize::Fixed(33),
            HardwareCommandType::ResetAll => DeserSize::Fixed(0),
        }
    }

    /// Serialize this command into its payload bytes, tag first.
    pub fn serialize(&self) -> (r: Vec<u8>)
        requires
            self@.wf(),
        ensures
            r@ == spec_command_payload(self@),
    {
        let mut w = DeserPayloadWriter::new();
        match self {
            HardwareCommand::Ping { slave_id, seq } => {
                w.write_u8(0);
                w.write_u32(*slave_id);
                w.write_u32(*seq);
            },
            HardwareCommand::SetSectionPower { section_id, power } => {
                w.write_u8(1);
                w.write_u32(*section_id);
                w.write_u8(power.to_byte());
            },
            HardwareCommand::SetSwitchState { switch_id, state } => {
                w.write_u8(2);
                let n = switch_id.len();
                let mut i: usize = 0;
                while i < n
                    invariant
                        n == switch_id@.len(),
                        i <= n,
                        w.bytes() =~= seq![2u8] + switch_id@.take(i as int),
                    decreases n - i,
                {
                    w.write_u8(switch_id[i]);
                    proof {
                        assert(switch_id@.take(i + 1) =~= switch_id@.take(i as int).push(
                            switch_id@[i as int],
                        ));
                        assert(w.bytes() =~= seq![2u8] + switch_id@.take(i + 1));
                    }
                    i = i + 1;
                }
                proof {
                    assert(switch_id@.take(n as int) =~= switch_id@);
                }
                w.write_u8(state.to_byte());
            },
            HardwareCommand::ResetAll => {
                w.write_u8(99);
            },
        }
        let out = w.into_bytes();
        proof {
            assert(out@ =~= spec_command_payload(self@));
        }
        out
    }

    /// Decode a command from its payload bytes.
    pub fn deserialize(buffer: &[u8]) -> (r: Result<HardwareCommand, DeserError>)
        ensures
            match r {
                Ok(c) => spec_parse_command(buffer@) == Ok::<CommandView, DeserError>(c@)
                    && c@.wf(),
                Err(err) => spec_parse_command(buffer@) == Err::<CommandView, DeserError>(err),
            },
    {
        let ghost p = buffer@;
        let mut rd = DeserPayloadReader::new(buffer);
        let tag = rd.parse_u8()?;
        if tag == 0 {
            let slave_id = Self::read_u32_checked(&mut rd)?;
            let seq = Self::read_u32_checked(&mut rd)?;
            proof {
                lemma_u32_at(p, 1, slave_id);
                lemma_u32_at(p, 5, seq);
            }
            Ok(HardwareCommand::Ping { slave_id, seq })
        } else if tag == 1 {
            let section_id = Self::read_u32_checked(&mut rd)?;
            let pb = rd.parse_u8()?;
            let power = match HardwareSectionPower::from_byte(pb) {
                Some(pw) => pw,
                None => {
                    return Err(DeserError::InvalidVariant(pb));
                },
            };
            proof {
                lemma_u32_at(p, 1, section_id);
            }
            Ok(HardwareCommand::SetSectionPower { section_id, power })
        } else if tag == 2 {
            let mut switch_id: Vec<u8> = Vec::new();
            let mut i: usize = 0;
            while i < 32
                invariant
                    p == buffer@,
                    rd.wf(),
                    rd.all() == p,
                    rd.taken() == 1 + i,
                    i <= 32,
                    1 + i <= p.len(),
                    p.len() >= 1 && p[0] == 2,
                    switch_id@ =~= p.subrange(1, 1 + i),
                decreases 32 - i,
            {
                let b = rd.parse_u8()?;
                switch_id.push(b);
                proof {
                    assert(switch_id@ =~= p.subrange(1, 1 + i).push(p[1 + i]));
                    assert(p.subrange(1, 2 + i) =~= p.subrange(1, 1 + i).push(p[1 + i]));
                }
                i = i + 1;
            }
            let sb = rd.parse_u8()?;
            let state = match HardwareSwitchState::from_byte(sb) {
                Some(st) => st,
                None => {
                    return Err(DeserError::InvalidVariant(sb));
                },
            };
            Ok(HardwareCommand::SetSwitchState { switch_id, state })
        } else if tag == 99 {
            Ok(HardwareCommand::ResetAll)
        } else {
            Err(DeserError::InvalidVariant(tag))
        }
    }

    /// Read a 32-bit field, mapping a short read to `UnexpectedEndOfBuffer`.
    fn read_u32_checked(rd: &mut DeserPayloadReader) -> (r: Result<u32, DeserError>)
        requires
            old(rd).wf(),
        ensures
            final(rd).all() == old(rd).all(),
            final(rd).wf(),
            match r {
                Ok(x) => old(rd).taken() + 4 <= old(rd).all().len() && le32(x) == old(
                    rd,
                ).all().subrange(old(rd).taken(), old(rd).taken() + 4) && final(rd).taken() == old(
                    rd,
                ).taken() + 4,
                Err(e) => e == DeserError::UnexpectedEndOfBuffer && old(rd).all().len() < old(
                    rd,
                ).taken() + 4,
            },
    {
        match rd.parse_u32() {
            Ok(x) => Ok(x),
            Err(_) => Err(DeserError::UnexpectedEndOfBuffer),
        }
    }
}

/// Decoding an encoded command gives the command back.
pub proof fn lemma_command_round_trip(c: CommandView)
    requires
        c.wf(),
    ensures
        spec_parse_command(spec_command_payload(c)) == Ok::<CommandView, DeserError>(c),
{
    let p = spec_command_payload(c);
    match c {
        CommandView::Ping { slave_id, seq } => {
            assert(p.subrange(1, 5) =~= le32(slave_id));
            assert(p.subrange(5, 9) =~= le32(seq));
            lemma_u32_at(p, 1, slave_id);
            lemma_u32_at(p, 5, seq);
        },
        CommandView::SetSectionPower { section_id, power } => {
            assert(p.subrange(1, 5) =~= le32(section_id));
            lemma_u32_at(p, 1, section_id);
            assert(p[5] == power_byte(power));
        },
        CommandView::SetSwitchState { switch_id, state } => {
            assert(p.subrange(1, 33) =~= switch_id);
            assert(p[33] == switch_state_byte(state));
        },
        CommandView::ResetAll => {},
    }
}

} // verus!
