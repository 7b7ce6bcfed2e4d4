//! Sections: electrically isolated stretches of track, their identifiers,
//! ends, and the connections leaving each end.
use vstd::prelude::*;
use crate::direction::Direction;
use crate::switch::{SwitchId, SwitchState};

verus! {

/// One physical end of a section.
#[derive(Debug, Copy, Clone, PartialEq, Eq, Structural)]
pub enum SectionEnd {
    /// The start of the section. Going forward means getting to the end.
    Start,
    /// The end of the section. Going backward means getting to the start.
    End,
}

/// The end reached when driving in the given direction.
pub open spec fn spec_end_when(direction: Direction) -> SectionEnd {
    match direction {
        Direction::Forward => SectionEnd::End,
        Direction::Backward => SectionEnd::Start,
    }
}

impl SectionEnd {
    /// The end reached when driving in the given direction.
    pub fn end_when(direction: Direction) -> (r: SectionEnd)
        ensures
            r == spec_end_when(direction),
    {
        match direction {
            Direction::Forward => SectionEnd::End,
            Direction::Backward => SectionEnd::Start,
        }
    }
}

/// Dense integer handle of a section, stable within a graph instance.
#[derive(Debug, Default, Copy, Clone, PartialEq, Eq, Structural, Hash)]
pub struct SectionId(usize);

impl View for SectionId {
    type V = int;

    closed spec fn view(&self) -> int {
        self.0 as int
    }
}

impl SectionId {
    /// Wrap a raw index as a section id.
    pub fn new(id: usize) -> (r: SectionId)
        ensures
            r@ == id as int,
    {
        SectionId(id)
    }

    /// The id one past this one.
    pub fn next(&self) -> (r: SectionId)
        requires
            self@ < usize::MAX,
        ensures
            r@ == self@ + 1,
    {
        SectionId(self.0 + 1)
    }

    /// The sentinel id marking an unbound switch port.
    pub fn invalid() -> (r: SectionId)
        ensures
            r@ == usize::MAX as int,
    {
        SectionId(usize::MAX)
    }

    /// Whether this id is the sentinel.
    pub fn is_invalid(&self) -> (r: bool)
        ensures
            r == (self@ == usize::MAX as int),
    {
        self.0 == usize::MAX
    }

    /// The id as the 32-bit value used on the wire.
    pub fn as_u32(&self) -> (r: u32)
        requires
            self@ <= u32::MAX,
        ensures
            r as int == self@,
    {
        self.0 as u32
    }

    /// The raw index.
    pub fn as_usize(&self) -> (r: usize)
        ensures
            r as int == self@,
    {
        self.0
    }
}

/// What one end of a section is wired to.
#[derive(Debug, Clone)]
pub enum Connection {
    Direct {
        to: SectionId,
        /// The end of `to` that is reached through this connection.
        section_end: SectionEnd,
    },
    Switch {
        switch_id: SwitchId,
    },
    SwitchBack {
        switch_id: SwitchId,
        required_state: SwitchState,
    },
    /// A dead end.
    Dead,
}

/// Mathematical model of a `Connection`.
pub ghost enum ConnectionView {
    Direct { to: int, section_end: SectionEnd },
    Switch { switch_id: Seq<char> },
    SwitchBack { switch_id: Seq<char>, required_state: SwitchState },
    Dead,
}

impl View for Connection {
    type V = ConnectionView;

    open spec fn view(&self) -> ConnectionView {
        match self {
            Connection::Direct { to, section_end } => {
                ConnectionView::Direct { to: to@, section_end: *section_end }
            },
            Connection::Switch { switch_id } => {
                ConnectionView::Switch { switch_id: switch_id@ }
            },
            Connection::SwitchBack { switch_id, required_state } => {
                ConnectionView::SwitchBack {
                    switch_id: switch_id@,
                    required_state: *required_state,
                }
            },
            Connection::Dead => ConnectionView::Dead,
        }
    }
}

/// Mathematical model of a `Section`.
pub ghost struct SectionView {
    pub name: Seq<char>,
    pub forward: ConnectionView,
    pub backward: ConnectionView,
}

impl SectionView {
    /// The connection leaving this section in the given direction.
    pub open spec fn connection(&self, direction: Direction) -> ConnectionView {
        match direction {
            Direction::Forward => self.forward,
            Direction::Backward => self.backward,
        }
    }
}

/// A section of track with its two outgoing connections.
#[derive(Debug, Clone)]
pub struct Section {
    name: String,
    forward: Connection,
    backward: Connection,
}

impl View for Section {
    type V = SectionView;

    closed spec fn view(&self) -> SectionView {
        SectionView { name: self.name@, forward: self.forward@, backward: self.backward@ }
    }
}

impl Section {
    /// A fresh section with both ends dead.
    pub fn new(name: String) -> (r: Section)
        ensures
            r@ == (SectionView {
                name: name@,
                forward: ConnectionView::Dead,
                backward: ConnectionView::Dead,
            }),
    {
        Section { name, forward: Connection::Dead, backward: Connection::Dead }
    }

    /// The textual name of this section.
    pub fn name(&self) -> (r: &String)
        ensures
            r@ == self@.name,
    {
        &self.name
    }

    /// Install the connection leaving in the given direction.
    pub fn set_connection(&mut self, direction: Direction, connection: Connection)
        ensures
            final(self)@ == (match direction {
                Direction::Forward => SectionView { forward: connection@, ..old(self)@ },
                Direction::Backward => SectionView { backward: connection@, ..old(self)@ },
            }),
    {
        match direction {
            Direction::Forward => self.forward = connection,
            Direction::Backward => self.backward = connection,
        }
    }

    /// The connection leaving in the given direction.
    pub fn connection(&self, direction: Direction) -> (r: &Connection)
        ensures
            r@ == self@.connection(direction),
    {
        match direction {
            Direction::Forward => &self.forward,
            Direction::Backward => &self.backward,
        }
    }
}

} // verus!
