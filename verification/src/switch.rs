//! Switches (points): symbolic identifiers, branch states, and the
//! connections that tie a switch into the track graph.
use vstd::prelude::*;
use crate::section::{SectionEnd, SectionId};

verus! {

/// Maximum length, in bytes, of a switch name on the wire.
pub const HARDWARE_SWITCH_ID_MAX_LEN: usize = 32;

/// Symbolic name of a switch.
#[derive(Debug)]
pub struct SwitchId(String);

impl Clone for SwitchId {
    /// Cloning keeps the name.
    fn clone(&self) -> (r: Self)
        ensures
            r@ == self@,
    {
        SwitchId(self.0.clone())
    }
}

impl View for SwitchId {
    type V = Seq<char>;

    closed spec fn view(&self) -> Seq<char> {
        self.0@
    }
}

impl SwitchId {
    /// Wrap a textual name as a switch id.
    pub fn from_name(name: String) -> (r: SwitchId)
        ensures
            r@ == name@,
    {
        SwitchId(name)
    }

    /// The textual name of this switch.
    pub fn name(&self) -> (r: &String)
        ensures
            r@ == self@,
    {
        &self.0
    }

    /// The switch id carried in a zero-padded wire name, when its bytes
    /// are valid text.
    pub fn from_hardware_id(id: &Vec<u8>) -> (r: Option<SwitchId>)
        ensures
            match r {
                Some(sw) => vstd::utf8::valid_utf8(
                    crate::strbytes::strip_trailing_zeros(id@),
                ) && sw@ == vstd::utf8::decode_utf8(crate::strbytes::strip_trailing_zeros(id@)),
                None => !vstd::utf8::valid_utf8(crate::strbytes::strip_trailing_zeros(id@)),
            },
    {
        let trimmed = crate::strbytes::trim_trailing_zeros(id);
        match crate::strbytes::string_from_utf8(trimmed) {
            Some(name) => {
                proof {
                    vstd::utf8::encode_utf8_decode_utf8(name@);
                }
                Some(SwitchId(name))
            },
            None => None,
        }
    }

    /// Whether two switch ids name the same switch.
    pub fn matches(&self, other: &SwitchId) -> (r: bool)
        ensures
            r == (self@ == other@),
    {
        self.0 == other.0
    }
}

/// The two positions a switch can be thrown to.
#[derive(Debug, Copy, Clone, PartialEq, Eq, Structural)]
pub enum SwitchState {
    Left,
    Right,
}

/// What one port of a switch is wired to.
#[derive(Debug, Clone)]
pub enum SwitchConnection {
    Section {
        section_id: SectionId,
        /// Which end of the section the switch is connected to.
        section_end: SectionEnd,
    },
    SwitchBack {
        switch_id: SwitchId,
        state: SwitchState,
    },
}

/// Mathematical model of a `SwitchConnection`.
pub ghost enum SwitchConnectionView {
    Section { section_id: int, section_end: SectionEnd },
    SwitchBack { switch_id: Seq<char>, state: SwitchState },
}

impl View for SwitchConnection {
    type V = SwitchConnectionView;

    open spec fn view(&self) -> SwitchConnectionView {
        match self {
            SwitchConnection::Section { section_id, section_end } => {
                SwitchConnectionView::Section {
                    section_id: section_id@,
                    section_end: *section_end,
                }
            },
            SwitchConnection::SwitchBack { switch_id, state } => {
                SwitchConnectionView::SwitchBack { switch_id: switch_id@, state: *state }
            },
        }
    }
}

/// The placeholder value marking a switch port that has not been bound yet.
pub open spec fn invalid_switch_connection() -> SwitchConnectionView {
    SwitchConnectionView::Section {
        section_id: usize::MAX as int,
        section_end: SectionEnd::Start,
    }
}

impl SwitchConnection {
    /// A connection to the given end of the given section.
    pub fn section(section_id: SectionId, section_end: SectionEnd) -> (r: SwitchConnection)
        ensures
            r@ == (SwitchConnectionView::Section {
                section_id: section_id@,
                section_end: section_end,
            }),
    {
        SwitchConnection::Section { section_id, section_end }
    }

    /// The sentinel standing for an unbound switch port.
    pub fn invalid() -> (r: SwitchConnection)
        ensures
            r@ == invalid_switch_connection(),
    {
        SwitchConnection::Section {
            section_id: SectionId::invalid(),
            section_end: SectionEnd::Start,
        }
    }

    /// Whether this port is still unbound.
    pub fn is_invalid(&self) -> (r: bool)
        ensures
            r == (self@ == invalid_switch_connection()),
    {
        match self {
            SwitchConnection::Section { section_id, section_end } => {
                section_id.is_invalid() && *section_end == SectionEnd::Start
            },
            SwitchConnection::SwitchBack { .. } => false,
        }
    }
}

/// Mathematical model of a `Switch`.
pub ghost struct SwitchView {
    pub name: Seq<char>,
    pub from: SwitchConnectionView,
    pub to_left: SwitchConnectionView,
    pub to_right: SwitchConnectionView,
}

impl SwitchView {
    /// The branch of this switch selected by `state`.
    pub open spec fn to(&self, state: SwitchState) -> SwitchConnectionView {
        match state {
            SwitchState::Left => self.to_left,
            SwitchState::Right => self.to_right,
        }
    }
}

/// A switch: a common pole (`from`) and two branches.
#[derive(Debug, Clone)]
pub struct Switch {
    name: String,
    from: SwitchConnection,
    to_left: SwitchConnection,
    to_right: SwitchConnection,
}

impl View for Switch {
    type V = SwitchView;

    closed spec fn view(&self) -> SwitchView {
        SwitchView {
            name: self.name@,
            from: self.from@,
            to_left: self.to_left@,
            to_right: self.to_right@,
        }
    }
}

impl Switch {
    /// A fresh switch with all three ports unbound.
    pub fn new(name: String) -> (r: Switch)
        ensures
            r@ == (SwitchView {
                name: name@,
                from: invalid_switch_connection(),
                to_left: invalid_switch_connection(),
                to_right: invalid_switch_connection(),
            }),
    {
        Switch {
            name,
            from: SwitchConnection::invalid(),
            to_left: SwitchConnection::invalid(),
            to_right: SwitchConnection::invalid(),
        }
    }

    /// The textual name of this switch.
    pub fn name(&self) -> (r: &String)
        ensures
            r@ == self@.name,
    {
        &self.name
    }

    /// The common-pole connection.
    pub fn from(&self) -> (r: &SwitchConnection)
        ensures
            r@ == self@.from,
    {
        &self.from
    }

    /// Bind the common pole.
    pub fn set_from(&mut self, from: SwitchConnection)
        ensures
            final(self)@ == (SwitchView { from: from@, ..old(self)@ }),
    {
        self.from = from;
    }

    /// Bind the branch selected by `state`.
    pub fn set_to(&mut self, to: SwitchConnection, state: SwitchState)
        ensures
            final(self)@ == (match state {
                SwitchState::Left => SwitchView { to_left: to@, ..old(self)@ },
                SwitchState::Right => SwitchView { to_right: to@, ..old(self)@ },
            }),
    {
        match state {
            SwitchState::Left => self.to_left = to,
            SwitchState::Right => self.to_right = to,
        }
    }

    /// The branch selected by `state`.
    pub fn to(&self, state: SwitchState) -> (r: &SwitchConnection)
        ensures
            r@ == self@.to(state),
    {
        match state {
            SwitchState::Left => &self.to_left,
            SwitchState::Right => &self.to_right,
        }
    }
}

} // verus!
