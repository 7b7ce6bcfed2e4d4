//! The track graph: sections and switches under their ids, and the
//! expansion of transitions leaving a section in a given direction.
use vstd::prelude::*;
use crate::assoc::{
    assoc_map, lemma_assoc_map_absent, lemma_assoc_map_index, lemma_assoc_map_push,
    lemma_assoc_map_update, unique_keys,
};
use crate::direction::Direction;
use crate::section::{Connection, ConnectionView, Section, SectionId, SectionView};
use crate::switch::{
    invalid_switch_connection, Switch, SwitchConnection, SwitchConnectionView, SwitchId,
    SwitchState, SwitchView,
};
use crate::transition::{SectionTransition, TransitionView};

verus! {

/// How many switch-to-switch hops a transition expansion will follow
/// before it reports the graph as malformed.
pub const SWITCH_CHAIN_LIMIT: usize = 8;

/// Errors of graph construction and graph queries.
#[derive(Debug)]
pub enum TrackError {
    SectionNotFound(SectionId),
    SectionAlreadyExists(SectionId),
    SwitchNotFound(SwitchId),
    SwitchAlreadyExists(SwitchId),
    /// A chain of back-to-back switches exceeded `SWITCH_CHAIN_LIMIT`.
    SwitchChainTooLong(SwitchId),
}

/// Mathematical model of a `TrackError`.
pub ghost enum TrackErrorView {
    SectionNotFound(int),
    SectionAlreadyExists(int),
    SwitchNotFound(Seq<char>),
    SwitchAlreadyExists(Seq<char>),
    SwitchChainTooLong(Seq<char>),
}

impl View for TrackError {
    type V = TrackErrorView;

    open spec fn view(&self) -> TrackErrorView {
        match self {
            TrackError::SectionNotFound(id) => TrackErrorView::SectionNotFound(id@),
            TrackError::SectionAlreadyExists(id) => TrackErrorView::SectionAlreadyExists(id@),
            TrackError::SwitchNotFound(id) => TrackErrorView::SwitchNotFound(id@),
            TrackError::SwitchAlreadyExists(id) => TrackErrorView::SwitchAlreadyExists(id@),
            TrackError::SwitchChainTooLong(id) => TrackErrorView::SwitchChainTooLong(id@),
        }
    }
}

/// Mathematical model of a `Track`: two maps.
pub ghost struct TrackView {
    pub sections: Map<int, SectionView>,
    pub switches: Map<Seq<char>, SwitchView>,
}

/// The views of a list of transitions.
pub open spec fn transition_views(v: Seq<SectionTransition>) -> Seq<TransitionView> {
    v.map_values(|t: SectionTransition| t@)
}

/// Expansion of one switch port: either a section it reaches directly, or
/// a chain through further switches, followed with bounded fuel.
/// An unbound port or one naming an unknown switch expands to nothing;
/// running out of fuel reports the chain as too long.
pub open spec fn spec_port_transitions(
    tv: TrackView,
    conn: SwitchConnectionView,
    fuel: nat,
) -> Result<Seq<TransitionView>, TrackErrorView>
    decreases fuel,
{
    if conn == invalid_switch_connection() {
        Ok(Seq::empty())
    } else {
        match conn {
        SwitchConnectionView::Section { section_id, section_end } => {
            Ok(seq![TransitionView::Direct { section_id, section_end }])
        },
        SwitchConnectionView::SwitchBack { switch_id, state } => {
            if !tv.switches.contains_key(switch_id) {
                Ok(Seq::empty())
            } else if fuel == 0 {
                Err(TrackErrorView::SwitchChainTooLong(switch_id))
            } else {
                match spec_port_transitions(tv, tv.switches[switch_id].from, (fuel - 1) as nat) {
                    Ok(ts) => Ok(
                        ts.map_values(
                            |t: TransitionView|
                                TransitionView::SwitchBack { switch_id, state, to: Box::new(t) },
                        ),
                    ),
                    Err(e) => Err(e),
                }
            }
        },
        }
    }
}

/// All transitions leaving `section` in direction `dir`, Left branch first.
pub open spec fn spec_transitions(tv: TrackView, section: int, dir: Direction) -> Result<
    Seq<TransitionView>,
    TrackErrorView,
> {
    if !tv.sections.contains_key(section) {
        Err(TrackErrorView::SectionNotFound(section))
    } else {
        match tv.sections[section].connection(dir) {
            ConnectionView::Dead => Ok(Seq::empty()),
            ConnectionView::Direct { to, section_end } => {
                Ok(seq![TransitionView::Direct { section_id: to, section_end }])
            },
            ConnectionView::Switch { switch_id } => {
                if !tv.switches.contains_key(switch_id) {
                    Err(TrackErrorView::SwitchNotFound(switch_id))
                } else {
                    let sw = tv.switches[switch_id];
                    let left = spec_port_transitions(
                        tv,
                        sw.to(SwitchState::Left),
                        SWITCH_CHAIN_LIMIT as nat,
                    );
                    let right = spec_port_transitions(
                        tv,
                        sw.to(SwitchState::Right),
                        SWITCH_CHAIN_LIMIT as nat,
                    );
                    match (left, right) {
                        (Ok(l), Ok(r)) => Ok(
                            l.map_values(
                                |t: TransitionView|
                                    TransitionView::Switch {
                                        switch_id,
                                        state: SwitchState::Left,
                                        to: Box::new(t),
                                    },
                            ) + r.map_values(
                                |t: TransitionView|
                                    TransitionView::Switch {
                                        switch_id,
                                        state: SwitchState::Right,
                                        to: Box::new(t),
                                    },
                            ),
                        ),
                        (Err(e), _) => Err(e),
                        (_, Err(e)) => Err(e),
                    }
                }
            },
            ConnectionView::SwitchBack { switch_id, required_state } => {
                if !tv.switches.contains_key(switch_id) {
                    Err(TrackErrorView::SwitchNotFound(switch_id))
                } else {
                    match spec_port_transitions(
                        tv,
                        tv.switches[switch_id].from,
                        SWITCH_CHAIN_LIMIT as nat,
                    ) {
                        Ok(ts) => Ok(
                            ts.map_values(
                                |t: TransitionView|
                                    TransitionView::SwitchBack {
                                        switch_id,
                                        state: required_state,
                                        to: Box::new(t),
                                    },
                            ),
                        ),
                        Err(e) => Err(e),
                    }
                }
            },
        }
    }
}

/// The transitions of `spec_transitions` whose destination is `target`,
/// in the same order.
pub open spec fn spec_transitions_to(
    tv: TrackView,
    section: int,
    dir: Direction,
    target: int,
) -> Result<Seq<TransitionView>, TrackErrorView> {
    match spec_transitions(tv, section, dir) {
        Ok(ts) => Ok(ts.filter(|t: TransitionView| t.destination() == target)),
        Err(e) => Err(e),
    }
}

/// The section whose power feeds a switch: the result of following the
/// switch's `from` port through back-to-back switches, with bounded fuel.
pub open spec fn spec_port_section(tv: TrackView, conn: SwitchConnectionView, fuel: nat) -> Option<
    int,
>
    decreases fuel,
{
    match conn {
        SwitchConnectionView::Section { section_id, .. } => Some(section_id),
        SwitchConnectionView::SwitchBack { switch_id, .. } => {
            if !tv.switches.contains_key(switch_id) || fuel == 0 {
                None
            } else {
                spec_port_section(tv, tv.switches[switch_id].from, (fuel - 1) as nat)
            }
        },
    }
}

impl Track {
    /// The model of the empty graph.
    pub open spec fn spec_empty() -> TrackView {
        TrackView {
            sections: Map::<int, SectionView>::empty(),
            switches: Map::<Seq<char>, SwitchView>::empty(),
        }
    }
}

/// Whether a switch port names something the graph holds.
pub open spec fn port_ok(tv: TrackView, c: SwitchConnectionView) -> bool {
    match c {
        SwitchConnectionView::Section { section_id, .. } => tv.sections.contains_key(section_id),
        SwitchConnectionView::SwitchBack { switch_id, .. } => tv.switches.contains_key(switch_id),
    }
}

/// A branch may be unbound; a bound one must name something the graph
/// holds.
pub open spec fn branch_ok(tv: TrackView, c: SwitchConnectionView) -> bool {
    c == invalid_switch_connection() || port_ok(tv, c)
}

/// A section connection names only things the graph holds.
pub open spec fn conn_ok(tv: TrackView, c: ConnectionView) -> bool {
    match c {
        ConnectionView::Dead => true,
        ConnectionView::Direct { to, .. } => tv.sections.contains_key(to),
        ConnectionView::Switch { switch_id } => tv.switches.contains_key(switch_id),
        ConnectionView::SwitchBack { switch_id, .. } => tv.switches.contains_key(switch_id),
    }
}

/// A finalized graph: every connection names something the graph holds,
/// and every switch has its common pole bound, at least one branch
/// bound, and a power-feeding section its pole resolves to.
pub open spec fn graph_valid(tv: TrackView) -> bool {
    &&& forall|k: int|
        tv.sections.contains_key(k) ==> conn_ok(tv, (#[trigger] tv.sections[k]).forward)
            && conn_ok(tv, tv.sections[k].backward)
    &&& forall|n: Seq<char>|
        tv.switches.contains_key(n) ==> {
            let sw = #[trigger] tv.switches[n];
            &&& sw.from != invalid_switch_connection()
            &&& port_ok(tv, sw.from)
            &&& !(sw.to_left == invalid_switch_connection() && sw.to_right
                == invalid_switch_connection())
            &&& branch_ok(tv, sw.to_left)
            &&& branch_ok(tv, sw.to_right)
            &&& spec_port_section(tv, sw.from, SWITCH_CHAIN_LIMIT as nat) is Some
        }
}

/// The track graph.
#[derive(Debug)]
pub struct Track {
    sections: Vec<(SectionId, Section)>,
    switches: Vec<(SwitchId, Switch)>,
}

impl View for Track {
    type V = TrackView;

    closed spec fn view(&self) -> TrackView {
        TrackView {
            sections: assoc_map(self.section_entries()),
            switches: assoc_map(self.switch_entries()),
        }
    }
}

impl Track {
    spec fn section_entries(&self) -> Seq<(int, SectionView)> {
        self.sections@.map_values(|p: (SectionId, Section)| (p.0@, p.1@))
    }

    spec fn switch_entries(&self) -> Seq<(Seq<char>, SwitchView)> {
        self.switches@.map_values(|p: (SwitchId, Switch)| (p.0@, p.1@))
    }

    /// The table invariant: every section id and every switch name is
    /// stored at most once.
    pub closed spec fn wf(&self) -> bool {
        unique_keys(self.section_entries()) && unique_keys(self.switch_entries())
    }

    /// An empty graph.
    pub fn new() -> (r: Track)
        ensures
            r.wf(),
            r@.sections == Map::<int, SectionView>::empty(),
            r@.switches == Map::<Seq<char>, SwitchView>::empty(),
    {
        let r = Track { sections: Vec::new(), switches: Vec::new() };
        proof {
            assert(r.section_entries() =~= Seq::<(int, SectionView)>::empty());
            assert(r.switch_entries() =~= Seq::<(Seq<char>, SwitchView)>::empty());
        }
        r
    }

    /// Look up a section by id.
    pub fn section(&self, section_id: &SectionId) -> (r: Option<&Section>)
        requires
            self.wf(),
        ensures
            match r {
                Some(sec) => self@.sections.contains_key(section_id@) && sec@
                    == self@.sections[section_id@],
                None => !self@.sections.contains_key(section_id@),
            },
    {
        match self.section_index(section_id) {
            Some(i) => Some(&self.sections[i].1),
            None => None,
        }
    }

    /// Look up a switch by id.
    pub fn switch(&self, switch_id: &SwitchId) -> (r: Option<&Switch>)
        requires
            self.wf(),
        ensures
            match r {
                Some(sw) => self@.switches.contains_key(switch_id@) && sw@
                    == self@.switches[switch_id@],
                None => !self@.switches.contains_key(switch_id@),
            },
    {
        match self.switch_index(switch_id) {
            Some(i) => Some(&self.switches[i].1),
            None => None,
        }
    }

    /// Whether a section with this id exists.
    pub fn has_section(&self, section_id: &SectionId) -> (r: bool)
        requires
            self.wf(),
        ensures
            r == self@.sections.contains_key(section_id@),
    {
        self.section_index(section_id).is_some()
    }

    /// Whether a switch with this id exists.
    pub fn has_switch(&self, switch_id: &SwitchId) -> (r: bool)
        requires
            self.wf(),
        ensures
            r == self@.switches.contains_key(switch_id@),
    {
        self.switch_index(switch_id).is_some()
    }

    fn section_index(&self, section_id: &SectionId) -> (r: Option<usize>)
        requires
            self.wf(),
        ensures
            match r {
                Some(i) => i < self.sections@.len() && self.section_entries()[i as int].0
                    == section_id@ && self@.sections.contains_key(section_id@)
                    && self@.sections[section_id@] == self.section_entries()[i as int].1,
                None => !self@.sections.contains_key(section_id@),
            },
    {
        let n = self.sections.len();
        let mut i: usize = 0;
        while i < n
            invariant
                self.wf(),
                n == self.sections@.len(),
                i <= n,
                forall|j: int| 0 <= j < i ==> self.section_entries()[j].0 != section_id@,
            decreases n - i,
        {
            if self.sections[i].0.as_usize() == section_id.as_usize() {
                proof {
                    lemma_assoc_map_index(self.section_entries(), i as int);
                }
                return Some(i);
            }
            i = i + 1;
        }
        proof {
            lemma_assoc_map_absent(self.section_entries(), section_id@);
        }
        None
    }

    fn switch_index(&self, switch_id: &SwitchId) -> (r: Option<usize>)
        requires
            self.wf(),
        ensures
            match r {
                Some(i) => i < self.switches@.len() && self.switch_entries()[i as int].0
                    == switch_id@ && self@.switches.contains_key(switch_id@)
                    && self@.switches[switch_id@] == self.switch_entries()[i as int].1,
                None => !self@.switches.contains_key(switch_id@),
            },
    {
        let n = self.switches.len();
        let mut i: usize = 0;
        while i < n
            invariant
                self.wf(),
                n == self.switches@.len(),
                i <= n,
                forall|j: int| 0 <= j < i ==> self.switch_entries()[j].0 != switch_id@,
            decreases n - i,
        {
            if self.switches[i].0.matches(switch_id) {
                proof {
                    lemma_assoc_map_index(self.switch_entries(), i as int);
                }
                return Some(i);
            }
            i = i + 1;
        }
        proof {
            lemma_assoc_map_absent(self.switch_entries(), switch_id@);
        }
        None
    }

    /// Look up a section id by section name.
    pub fn section_id(&self, section_name: &String) -> (r: Option<SectionId>)
        requires
            self.wf(),
        ensures
            match r {
                Some(id) => self@.sections.contains_key(id@) && self@.sections[id@].name
                    == section_name@,
                None => forall|k: int|
                    self@.sections.contains_key(k) ==> self@.sections[k].name != section_name@,
            },
    {
        let n = self.sections.len();
        let mut i: usize = 0;
        while i < n
            invariant
                self.wf(),
                n == self.sections@.len(),
                i <= n,
                forall|j: int| 0 <= j < i ==> self.section_entries()[j].1.name != section_name@,
            decreases n - i,
        {
            if *self.sections[i].1.name() == *section_name {
                proof {
                    lemma_assoc_map_index(self.section_entries(), i as int);
                }
                return Some(self.sections[i].0);
            }
            i = i + 1;
        }
        proof {
            assert forall|k: int| self@.sections.contains_key(k) implies self@.sections[k].name
                != section_name@ by {
                crate::assoc::lemma_assoc_map_dom(self.section_entries(), k);
                let j = choose|j: int|
                    0 <= j < self.section_entries().len() && self.section_entries()[j].0 == k;
                lemma_assoc_map_index(self.section_entries(), j);
            }
        }
        None
    }

    /// Insert a new section under an unused id.
    pub fn insert_section(&mut self, section_id: SectionId, section: Section) -> (r: Result<
        (),
        TrackError,
    >)
        requires
            old(self).wf(),
        ensures
            final(self).wf(),
            match r {
                Ok(()) => !old(self)@.sections.contains_key(section_id@) && final(self)@.sections
                    == old(self)@.sections.insert(section_id@, section@) && final(self)@.switches
                    == old(self)@.switches,
                Err(e) => e@ == TrackErrorView::SectionAlreadyExists(section_id@) && old(
                    self,
                )@.sections.contains_key(section_id@) && *final(self) == *old(self),
            },
    {
        if self.section_index(&section_id).is_some() {
            return Err(TrackError::SectionAlreadyExists(section_id));
        }
        let ghost pre = self.section_entries();
        self.sections.push((section_id, section));
        proof {
            assert(self.section_entries() =~= pre.push((section_id@, section@)));
            lemma_assoc_map_push(pre, section_id@, section@);
            crate::assoc::lemma_assoc_map_dom(pre, section_id@);
        }
        Ok(())
    }

    /// Insert a new switch under an unused id.
    pub fn insert_switch(&mut self, switch_id: SwitchId, switch: Switch) -> (r: Result<
        (),
        TrackError,
    >)
        requires
            old(self).wf(),
        ensures
            final(self).wf(),
            match r {
                Ok(()) => !old(self)@.switches.contains_key(switch_id@) && final(self)@.switches
                    == old(self)@.switches.insert(switch_id@, switch@) && final(self)@.sections
                    == old(self)@.sections,
                Err(e) => e@ == TrackErrorView::SwitchAlreadyExists(switch_id@) && old(
                    self,
                )@.switches.contains_key(switch_id@) && *final(self) == *old(self),
            },
    {
        if self.switch_index(&switch_id).is_some() {
            return Err(TrackError::SwitchAlreadyExists(switch_id.clone()));
        }
        let ghost pre = self.switch_entries();
        let ghost swv = switch@;
        let ghost key = switch_id@;
        self.switches.push((switch_id, switch));
        proof {
            assert(self.switch_entries() =~= pre.push((key, swv)));
            lemma_assoc_map_push(pre, key, swv);
            crate::assoc::lemma_assoc_map_dom(pre, key);
        }
        Ok(())
    }

    /// Mutable access to a section. The caller must know the section exists.
    pub fn section_mut(&mut self, section_id: &SectionId) -> (r: &mut Section)
        requires
            old(self).wf(),
            old(self)@.sections.contains_key(section_id@),
        ensures
            r@ == old(self)@.sections[section_id@],
            final(self)@.sections == old(self)@.sections.insert(section_id@, final(r)@),
            final(self)@.switches == old(self)@.switches,
            final(self).wf(),
    {
        let i = match self.section_index(section_id) {
            Some(i) => i,
            None => {
                proof {
                    assert(false);
                }
                0
            },
        };
        let ghost pre = self.section_entries();
        let entry = &mut self.sections[i].1;
        proof {
            assert(after_borrow(self).section_entries() =~= pre.update(
                i as int,
                (pre[i as int].0, final(entry)@),
            ));
            lemma_assoc_map_update(pre, i as int, final(entry)@);
        }
        entry
    }

    /// Mutable access to a switch. The caller must know the switch exists.
    pub fn switch_mut(&mut self, switch_id: &SwitchId) -> (r: &mut Switch)
        requires
            old(self).wf(),
            old(self)@.switches.contains_key(switch_id@),
        ensures
            r@ == old(self)@.switches[switch_id@],
            final(self)@.switches == old(self)@.switches.insert(switch_id@, final(r)@),
            final(self)@.sections == old(self)@.sections,
            final(self).wf(),
    {
        let i = match self.switch_index(switch_id) {
            Some(i) => i,
            None => {
                proof {
                    assert(false);
                }
                0
            },
        };
        let ghost pre = self.switch_entries();
        let entry = &mut self.switches[i].1;
        proof {
            assert(after_borrow(self).switch_entries() =~= pre.update(
                i as int,
                (pre[i as int].0, final(entry)@),
            ));
            lemma_assoc_map_update(pre, i as int, final(entry)@);
        }
        entry
    }
}

impl Track {
    /// Expand one switch port into concrete transitions, following at most
    /// `fuel` back-to-back switch hops.
    fn make_switch_transition(&self, switch_connection: &SwitchConnection, fuel: usize) -> (r:
        Result<Vec<SectionTransition>, TrackError>)
        requires
            self.wf(),
        ensures
            match r {
                Ok(v) => spec_port_transitions(self@, switch_connection@, fuel as nat) == Ok::<
                    Seq<TransitionView>,
                    TrackErrorView,
                >(transition_views(v@)),
                Err(e) => spec_port_transitions(self@, switch_connection@, fuel as nat) == Err::<
                    Seq<TransitionView>,
                    TrackErrorView,
                >(e@),
            },
        decreases fuel,
    {
        if switch_connection.is_invalid() {
            let v: Vec<SectionTransition> = Vec::new();
            proof {
                assert(transition_views(v@) =~= Seq::<TransitionView>::empty());
            }
            return Ok(v);
        }
        match switch_connection {
            SwitchConnection::Section { section_id, section_end } => {
                let mut v: Vec<SectionTransition> = Vec::new();
                v.push(SectionTransition::direct(*section_id, *section_end));
                proof {
                    assert(transition_views(v@) =~= seq![
                        TransitionView::Direct {
                            section_id: section_id@,
                            section_end: *section_end,
                        },
                    ]);
                }
                Ok(v)
            },
            SwitchConnection::SwitchBack { switch_id, state } => {
                let sw = match self.switch(switch_id) {
                    Some(sw) => sw,
                    None => {
                        let v: Vec<SectionTransition> = Vec::new();
                        proof {
                            assert(transition_views(v@) =~= Seq::<TransitionView>::empty());
                        }
                        return Ok(v);
                    },
                };
                if fuel == 0 {
                    return Err(TrackError::SwitchChainTooLong(switch_id.clone()));
                }
                let inner = self.make_switch_transition(sw.from(), fuel - 1)?;
                let ghost inner_views = transition_views(inner@);
                let mut out: Vec<SectionTransition> = Vec::new();
                Self::wrap_switch_back(&mut out, switch_id, *state, inner);
                proof {
                    assert(transition_views(out@) =~= inner_views.map_values(
                        |t: TransitionView|
                            TransitionView::SwitchBack {
                                switch_id: switch_id@,
                                state: *state,
                                to: Box::new(t),
                            },
                    ));
                }
                Ok(out)
            },
        }
    }

    /// All transitions leaving `current_section` in `direction`:
    /// none past a dead end, one for a direct connection, and the Left
    /// branch expansion before the Right one at a switch. In a finalized
    /// graph every returned transition arrives at a section the graph
    /// holds.
    pub fn transitions(&self, current_section: SectionId, direction: Direction) -> (r: Result<
        Vec<SectionTransition>,
        TrackError,
    >)
        requires
            self.wf(),
        ensures
            match r {
                Ok(v) => spec_transitions(self@, current_section@, direction) == Ok::<
                    Seq<TransitionView>,
                    TrackErrorView,
                >(transition_views(v@)),
                Err(e) => spec_transitions(self@, current_section@, direction) == Err::<
                    Seq<TransitionView>,
                    TrackErrorView,
                >(e@),
            },
            graph_valid(self@) ==> (match r {
                Ok(v) => destinations_in(self@, transition_views(v@)),
                Err(_) => true,
            }),
    {
        proof {
            if graph_valid(self@) {
                lemma_transitions_in_graph(self@, current_section@, direction);
            }
        }
        let section = match self.section(&current_section) {
            Some(sec) => sec,
            None => {
                return Err(TrackError::SectionNotFound(current_section));
            },
        };
        match section.connection(direction) {
            Connection::Dead => {
                let v: Vec<SectionTransition> = Vec::new();
                proof {
                    assert(transition_views(v@) =~= Seq::<TransitionView>::empty());
                }
                Ok(v)
            },
            Connection::Direct { to, section_end } => {
                let mut v: Vec<SectionTransition> = Vec::new();
                v.push(SectionTransition::direct(*to, *section_end));
                proof {
                    assert(transition_views(v@) =~= seq![
                        TransitionView::Direct { section_id: to@, section_end: *section_end },
                    ]);
                }
                Ok(v)
            },
            Connection::Switch { switch_id } => {
                let sw = match self.switch(switch_id) {
                    Some(sw) => sw,
                    None => {
                        return Err(TrackError::SwitchNotFound(switch_id.clone()));
                    },
                };
                let left_inner = self.make_switch_transition(
                    sw.to(SwitchState::Left),
                    SWITCH_CHAIN_LIMIT,
                )?;
                let right_inner = self.make_switch_transition(
                    sw.to(SwitchState::Right),
                    SWITCH_CHAIN_LIMIT,
                )?;
                let mut out: Vec<SectionTransition> = Vec::new();
                Self::wrap_switch(&mut out, switch_id, SwitchState::Left, left_inner);
                Self::wrap_switch(&mut out, switch_id, SwitchState::Right, right_inner);
                proof {
                    let tv = self@;
                    let swv = tv.switches[switch_id@];
                    let lspec = spec_port_transitions(
                        tv,
                        swv.to(SwitchState::Left),
                        SWITCH_CHAIN_LIMIT as nat,
                    )->Ok_0;
                    let rspec = spec_port_transitions(
                        tv,
                        swv.to(SwitchState::Right),
                        SWITCH_CHAIN_LIMIT as nat,
                    )->Ok_0;
                    assert(transition_views(out@) =~= lspec.map_values(
                        |t: TransitionView|
                            TransitionView::Switch {
                                switch_id: switch_id@,
                                state: SwitchState::Left,
                                to: Box::new(t),
                            },
                    ) + rspec.map_values(
                        |t: TransitionView|
                            TransitionView::Switch {
                                switch_id: switch_id@,
                                state: SwitchState::Right,
                                to: Box::new(t),
                            },
                    ));
                }
                Ok(out)
            },
            Connection::SwitchBack { switch_id, required_state } => {
                let sw = match self.switch(switch_id) {
                    Some(sw) => sw,
                    None => {
                        return Err(TrackError::SwitchNotFound(switch_id.clone()));
                    },
                };
                let inner = self.make_switch_transition(sw.from(), SWITCH_CHAIN_LIMIT)?;
                let mut out: Vec<SectionTransition> = Vec::new();
                Self::wrap_switch_back(&mut out, switch_id, *required_state, inner);
                proof {
                    let tv = self@;
                    let ispec = spec_port_transitions(
                        tv,
                        tv.switches[switch_id@].from,
                        SWITCH_CHAIN_LIMIT as nat,
                    )->Ok_0;
                    assert(transition_views(out@) =~= ispec.map_values(
                        |t: TransitionView|
                            TransitionView::SwitchBack {
                                switch_id: switch_id@,
                                state: *required_state,
                                to: Box::new(t),
                            },
                    ));
                }
                Ok(out)
            },
        }
    }

    /// Wrap each transition as taking the given branch of a switch.
    fn wrap_switch(
        out: &mut Vec<SectionTransition>,
        switch_id: &SwitchId,
        state: SwitchState,
        inner: Vec<SectionTransition>,
    )
        ensures
            transition_views(final(out)@) == transition_views(old(out)@) + transition_views(
                inner@,
            ).map_values(
                (|t: TransitionView|
                    TransitionView::Switch { switch_id: switch_id@, state, to: Box::new(t) }),
            ),
    {
        let ghost inner_views = transition_views(inner@);
        let ghost base = old(out)@;
        let n = inner.len();
        let mut k: usize = 0;
        let mut rest = inner;
        while k < n
            invariant
                n == inner_views.len(),
                k <= n,
                rest@.len() == n - k,
                forall|j: int| 0 <= j < rest@.len() ==> #[trigger] rest@[j]@ == inner_views[k + j],
                out@.len() == base.len() + k,
                forall|j: int| 0 <= j < base.len() ==> #[trigger] out@[j] == base[j],
                forall|j: int|
                    base.len() <= j < out@.len() ==> #[trigger] out@[j]@
                        == (TransitionView::Switch {
                        switch_id: switch_id@,
                        state,
                        to: Box::new(inner_views[j - base.len()]),
                    }),
            decreases n - k,
        {
            let t = rest.remove(0);
            out.push(SectionTransition::switch(switch_id.clone(), state, t));
            k = k + 1;
        }
        proof {
            assert(transition_views(out@) =~= transition_views(base) + inner_views.map_values(
                |t: TransitionView|
                    TransitionView::Switch { switch_id: switch_id@, state, to: Box::new(t) },
            ));
        }
    }

    /// Wrap each transition as arriving through the given branch of a switch.
    fn wrap_switch_back(
        out: &mut Vec<SectionTransition>,
        switch_id: &SwitchId,
        state: SwitchState,
        inner: Vec<SectionTransition>,
    )
        ensures
            transition_views(final(out)@) == transition_views(old(out)@) + transition_views(
                inner@,
            ).map_values(
                (|t: TransitionView|
                    TransitionView::SwitchBack { switch_id: switch_id@, state, to: Box::new(t) }),
            ),
    {
        let ghost inner_views = transition_views(inner@);
        let ghost base = old(out)@;
        let n = inner.len();
        let mut k: usize = 0;
        let mut rest = inner;
        while k < n
            invariant
                n == inner_views.len(),
                k <= n,
                rest@.len() == n - k,
                forall|j: int| 0 <= j < rest@.len() ==> #[trigger] rest@[j]@ == inner_views[k + j],
                out@.len() == base.len() + k,
                forall|j: int| 0 <= j < base.len() ==> #[trigger] out@[j] == base[j],
                forall|j: int|
                    base.len() <= j < out@.len() ==> #[trigger] out@[j]@
                        == (TransitionView::SwitchBack {
                        switch_id: switch_id@,
                        state,
                        to: Box::new(inner_views[j - base.len()]),
                    }),
            decreases n - k,
        {
            let t = rest.remove(0);
            out.push(SectionTransition::switch_back(switch_id.clone(), state, t));
            k = k + 1;
        }
        proof {
            assert(transition_views(out@) =~= transition_views(base) + inner_views.map_values(
                |t: TransitionView|
                    TransitionView::SwitchBack {
                        switch_id: switch_id@,
                        state,
                        to: Box::new(t),
                    },
            ));
        }
    }

    /// The transitions from `current_section` in `direction` that reach
    /// `target_section`, in expansion order.
    pub fn transitions_to(
        &self,
        current_section: SectionId,
        direction: Direction,
        target_section: SectionId,
    ) -> (r: Result<Vec<SectionTransition>, TrackError>)
        requires
            self.wf(),
        ensures
            match r {
                Ok(v) => spec_transitions_to(self@, current_section@, direction, target_section@)
                    == Ok::<Seq<TransitionView>, TrackErrorView>(transition_views(v@)),
                Err(e) => spec_transitions_to(self@, current_section@, direction, target_section@)
                    == Err::<Seq<TransitionView>, TrackErrorView>(e@),
            },
    {
        let all = self.transitions(current_section, direction)?;
        let ghost all_views = transition_views(all@);
        let mut out: Vec<SectionTransition> = Vec::new();
        let n = all.len();
        let mut k: usize = 0;
        let mut rest = all;
        while k < n
            invariant
                n == all_views.len(),
                k <= n,
                rest@.len() == n - k,
                forall|j: int| 0 <= j < rest@.len() ==> #[trigger] rest@[j]@ == all_views[k + j],
                transition_views(out@) =~= all_views.take(k as int).filter(
                    |t: TransitionView| t.destination() == target_section@,
                ),
            decreases n - k,
        {
            let t = rest.remove(0);
            let ghost tv = t@;
            let keep = t.destination().as_usize() == target_section.as_usize();
            if keep {
                out.push(t);
            }
            k = k + 1;
            proof {
                reveal(Seq::filter);
                assert(all_views.take(k as int) =~= all_views.take(k - 1).push(tv));
                assert(all_views.take(k as int).drop_last() =~= all_views.take(k - 1));
                assert(all_views.take(k as int).last() == tv);
                assert(transition_views(out@) =~= all_views.take(k as int).filter(
                    |t: TransitionView| t.destination() == target_section@,
                ));
            }
        }
        proof {
            assert(all_views.take(n as int) =~= all_views);
        }
        Ok(out)
    }

    /// The id of the section that powers the given switch, if the switch
    /// exists and its `from` chain resolves. In a finalized graph every
    /// known switch resolves, to a section the graph holds.
    pub fn switch_section_id(&self, switch_id: &SwitchId) -> (r: Option<SectionId>)
        requires
            self.wf(),
        ensures
            match r {
                Some(id) => self@.switches.contains_key(switch_id@) && spec_port_section(
                    self@,
                    self@.switches[switch_id@].from,
                    SWITCH_CHAIN_LIMIT as nat,
                ) == Some(id@),
                None => !self@.switches.contains_key(switch_id@) || spec_port_section(
                    self@,
                    self@.switches[switch_id@].from,
                    SWITCH_CHAIN_LIMIT as nat,
                ) is None,
            },
            graph_valid(self@) && self@.switches.contains_key(switch_id@) ==> (match r {
                Some(id) => self@.sections.contains_key(id@),
                None => false,
            }),
    {
        proof {
            if graph_valid(self@) && self@.switches.contains_key(switch_id@) {
                lemma_switch_section_resolves(self@, switch_id@);
            }
        }
        let sw = match self.switch(switch_id) {
            Some(sw) => sw,
            None => {
                return None;
            },
        };
        self.port_section(sw.from(), SWITCH_CHAIN_LIMIT)
    }

    /// Follow a switch port to the real section that powers it.
    pub(crate) fn port_section(&self, conn: &SwitchConnection, fuel: usize) -> (r: Option<SectionId>)
        requires
            self.wf(),
        ensures
            match r {
                Some(id) => spec_port_section(self@, conn@, fuel as nat) == Some(id@),
                None => spec_port_section(self@, conn@, fuel as nat) is None,
            },
        decreases fuel,
    {
        match conn {
            SwitchConnection::Section { section_id, .. } => Some(*section_id),
            SwitchConnection::SwitchBack { switch_id, .. } => {
                let sw = match self.switch(switch_id) {
                    Some(sw) => sw,
                    None => {
                        return None;
                    },
                };
                if fuel == 0 {
                    return None;
                }
                self.port_section(sw.from(), fuel - 1)
            },
        }
    }
}

impl Track {
    /// Whether a section connection names only things the graph holds.
    fn conn_ok_exec(&self, c: &Connection) -> (r: bool)
        requires
            self.wf(),
        ensures
            r == conn_ok(self@, c@),
    {
        match c {
            Connection::Dead => true,
            Connection::Direct { to, .. } => self.has_section(to),
            Connection::Switch { switch_id } => self.has_switch(switch_id),
            Connection::SwitchBack { switch_id, .. } => self.has_switch(switch_id),
        }
    }

    /// Whether a switch port names something the graph holds.
    fn port_ok_exec(&self, c: &SwitchConnection) -> (r: bool)
        requires
            self.wf(),
        ensures
            r == port_ok(self@, c@),
    {
        match c {
            SwitchConnection::Section { section_id, .. } => self.has_section(section_id),
            SwitchConnection::SwitchBack { switch_id, .. } => self.has_switch(switch_id),
        }
    }

    /// Whether a branch is unbound or names something the graph holds.
    fn branch_ok_exec(&self, c: &SwitchConnection) -> (r: bool)
        requires
            self.wf(),
        ensures
            r == branch_ok(self@, c@),
    {
        c.is_invalid() || self.port_ok_exec(c)
    }

    /// The graph-finalization check: true exactly when the graph is
    /// valid — every connection resolves, every switch has its pole and
    /// at least one branch bound, and every switch's pole reaches the
    /// section that powers it.
    pub fn check_valid(&self) -> (r: bool)
        requires
            self.wf(),
        ensures
            r == graph_valid(self@),
    {
        let n = self.sections.len();
        let mut i: usize = 0;
        while i < n
            invariant
                self.wf(),
                n == self.sections@.len(),
                i <= n,
                forall|j: int|
                    0 <= j < i ==> conn_ok(
                        self@,
                        (#[trigger] self.section_entries()[j]).1.forward,
                    ) && conn_ok(self@, self.section_entries()[j].1.backward),
            decreases n - i,
        {
            proof {
                lemma_assoc_map_index(self.section_entries(), i as int);
            }
            let fwd_ok = self.conn_ok_exec(self.sections[i].1.connection(Direction::Forward));
            let bwd_ok = self.conn_ok_exec(self.sections[i].1.connection(Direction::Backward));
            if !fwd_ok || !bwd_ok {
                proof {
                    assert(!graph_valid(self@));
                }
                return false;
            }
            i = i + 1;
        }
        let m = self.switches.len();
        let mut k: usize = 0;
        while k < m
            invariant
                self.wf(),
                m == self.switches@.len(),
                k <= m,
                forall|j: int|
                    0 <= j < k ==> {
                        let sw = (#[trigger] self.switch_entries()[j]).1;
                        &&& sw.from != invalid_switch_connection()
                        &&& port_ok(self@, sw.from)
                        &&& !(sw.to_left == invalid_switch_connection() && sw.to_right
                            == invalid_switch_connection())
                        &&& branch_ok(self@, sw.to_left)
                        &&& branch_ok(self@, sw.to_right)
                        &&& spec_port_section(self@, sw.from, SWITCH_CHAIN_LIMIT as nat) is Some
                    },
            decreases m - k,
        {
            proof {
                lemma_assoc_map_index(self.switch_entries(), k as int);
            }
            let sw = &self.switches[k].1;
            let pole_ok = !sw.from().is_invalid() && self.port_ok_exec(sw.from());
            let some_branch = !sw.to(SwitchState::Left).is_invalid() || !sw.to(
                SwitchState::Right,
            ).is_invalid();
            let branches_ok = self.branch_ok_exec(sw.to(SwitchState::Left))
                && self.branch_ok_exec(sw.to(SwitchState::Right));
            let resolves = self.port_section(sw.from(), SWITCH_CHAIN_LIMIT).is_some();
            if !(pole_ok && some_branch && branches_ok && resolves) {
                proof {
                    assert(!graph_valid(self@));
                }
                return false;
            }
            k = k + 1;
        }
        proof {
            assert forall|key: int| self@.sections.contains_key(key) implies conn_ok(
                self@,
                (#[trigger] self@.sections[key]).forward,
            ) && conn_ok(self@, self@.sections[key].backward) by {
                crate::assoc::lemma_assoc_map_dom(self.section_entries(), key);
                let j = choose|j: int|
                    0 <= j < self.section_entries().len() && self.section_entries()[j].0 == key;
                lemma_assoc_map_index(self.section_entries(), j);
            }
            assert forall|name: Seq<char>| self@.switches.contains_key(name) implies ({
                let sw = #[trigger] self@.switches[name];
                &&& sw.from != invalid_switch_connection()
                &&& port_ok(self@, sw.from)
                &&& !(sw.to_left == invalid_switch_connection() && sw.to_right
                    == invalid_switch_connection())
                &&& branch_ok(self@, sw.to_left)
                &&& branch_ok(self@, sw.to_right)
                &&& spec_port_section(self@, sw.from, SWITCH_CHAIN_LIMIT as nat) is Some
            }) by {
                crate::assoc::lemma_assoc_map_dom(self.switch_entries(), name);
                let j = choose|j: int|
                    0 <= j < self.switch_entries().len() && self.switch_entries()[j].0 == name;
                lemma_assoc_map_index(self.switch_entries(), j);
            }
        }
        true
    }
}

/// In a valid graph, following a port that names something the graph
/// holds resolves, if at all, to a section the graph holds.
pub proof fn lemma_port_section_in_graph(tv: TrackView, conn: SwitchConnectionView, fuel: nat)
    requires
        graph_valid(tv),
        port_ok(tv, conn),
    ensures
        spec_port_section(tv, conn, fuel) matches Some(id) ==> tv.sections.contains_key(id),
    decreases fuel,
{
    match conn {
        SwitchConnectionView::Section { .. } => {},
        SwitchConnectionView::SwitchBack { switch_id, .. } => {
            if fuel > 0 {
                lemma_port_section_in_graph(tv, tv.switches[switch_id].from, (fuel - 1) as nat);
            }
        },
    }
}

/// In a valid graph, every switch resolves to a real powering section.
pub proof fn lemma_switch_section_resolves(tv: TrackView, name: Seq<char>)
    requires
        graph_valid(tv),
        tv.switches.contains_key(name),
    ensures
        spec_port_section(tv, tv.switches[name].from, SWITCH_CHAIN_LIMIT as nat) is Some,
        tv.sections.contains_key(
            spec_port_section(tv, tv.switches[name].from, SWITCH_CHAIN_LIMIT as nat)->Some_0,
        ),
{
    lemma_port_section_in_graph(tv, tv.switches[name].from, SWITCH_CHAIN_LIMIT as nat);
}

/// Every transition of the list arrives at a section the graph holds.
pub open spec fn destinations_in(tv: TrackView, ts: Seq<TransitionView>) -> bool {
    forall|i: int| 0 <= i < ts.len() ==> tv.sections.contains_key((#[trigger] ts[i]).destination())
}

/// In a valid graph, expanding a sound port yields only transitions whose
/// destinations the graph holds.
pub proof fn lemma_port_transitions_in_graph(tv: TrackView, conn: SwitchConnectionView, fuel: nat)
    requires
        graph_valid(tv),
        branch_ok(tv, conn),
    ensures
        spec_port_transitions(tv, conn, fuel) matches Ok(ts) ==> destinations_in(tv, ts),
    decreases fuel,
{
    if conn != invalid_switch_connection() {
        match conn {
            SwitchConnectionView::Section { section_id, section_end } => {},
            SwitchConnectionView::SwitchBack { switch_id, state } => {
                if tv.switches.contains_key(switch_id) && fuel > 0 {
                    let from = tv.switches[switch_id].from;
                    lemma_port_transitions_in_graph(tv, from, (fuel - 1) as nat);
                    let pr = spec_port_transitions(tv, from, (fuel - 1) as nat);
                    if pr is Ok {
                        let inner = pr->Ok_0;
                        let wrapped = inner.map_values(
                            |t: TransitionView|
                                TransitionView::SwitchBack { switch_id, state, to: Box::new(t) },
                        );
                        assert forall|i: int| 0 <= i < wrapped.len() implies tv.sections.contains_key(
                            (#[trigger] wrapped[i]).destination(),
                        ) by {
                            assert(wrapped[i].destination() == inner[i].destination());
                        }
                        assert(destinations_in(tv, wrapped));
                    }
                }
            },
        }
    }
}

/// Transition expansion in a valid graph reaches only real sections:
/// every transition of `spec_transitions` has a destination the graph
/// holds.
pub proof fn lemma_transitions_in_graph(tv: TrackView, section: int, dir: Direction)
    requires
        graph_valid(tv),
    ensures
        spec_transitions(tv, section, dir) matches Ok(ts) ==> destinations_in(tv, ts),
{
    if tv.sections.contains_key(section) {
        match tv.sections[section].connection(dir) {
            ConnectionView::Dead => {},
            ConnectionView::Direct { to, section_end } => {},
            ConnectionView::Switch { switch_id } => {
                if tv.switches.contains_key(switch_id) {
                    let sw = tv.switches[switch_id];
                    lemma_port_transitions_in_graph(
                        tv,
                        sw.to(SwitchState::Left),
                        SWITCH_CHAIN_LIMIT as nat,
                    );
                    lemma_port_transitions_in_graph(
                        tv,
                        sw.to(SwitchState::Right),
                        SWITCH_CHAIN_LIMIT as nat,
                    );
                    let left = spec_port_transitions(
                        tv,
                        sw.to(SwitchState::Left),
                        SWITCH_CHAIN_LIMIT as nat,
                    );
                    let right = spec_port_transitions(
                        tv,
                        sw.to(SwitchState::Right),
                        SWITCH_CHAIN_LIMIT as nat,
                    );
                    if left is Ok && right is Ok {
                        let l = left->Ok_0;
                        let rg = right->Ok_0;
                        let lw = l.map_values(
                            |t: TransitionView|
                                TransitionView::Switch {
                                    switch_id,
                                    state: SwitchState::Left,
                                    to: Box::new(t),
                                },
                        );
                        let rw = rg.map_values(
                            |t: TransitionView|
                                TransitionView::Switch {
                                    switch_id,
                                    state: SwitchState::Right,
                                    to: Box::new(t),
                                },
                        );
                        assert forall|i: int| 0 <= i < (lw + rw).len() implies tv.sections.contains_key(
                            (#[trigger] (lw + rw)[i]).destination(),
                        ) by {
                            if i < lw.len() {
                                assert((lw + rw)[i].destination() == l[i].destination());
                            } else {
                                assert((lw + rw)[i].destination() == rg[
                                    i - lw.len()
                                ].destination());
                            }
                        }
                    }
                }
            },
            ConnectionView::SwitchBack { switch_id, required_state } => {
                if tv.switches.contains_key(switch_id) {
                    let from = tv.switches[switch_id].from;
                    lemma_port_transitions_in_graph(tv, from, SWITCH_CHAIN_LIMIT as nat);
                    let pr = spec_port_transitions(tv, from, SWITCH_CHAIN_LIMIT as nat);
                    if pr is Ok {
                        let inner = pr->Ok_0;
                        let wrapped = inner.map_values(
                            |t: TransitionView|
                                TransitionView::SwitchBack {
                                    switch_id,
                                    state: required_state,
                                    to: Box::new(t),
                                },
                        );
                        assert forall|i: int| 0 <= i < wrapped.len() implies tv.sections.contains_key(
                            (#[trigger] wrapped[i]).destination(),
                        ) by {
                            assert(wrapped[i].destination() == inner[i].destination());
                        }
                    }
                }
            },
        }
    }
}

impl Switch {
    /// The id of the section whose power feeds this switch, resolved
    /// through any chain of back-to-back switches in the graph.
    pub fn section_id(&self, track: &Track) -> (r: Option<SectionId>)
        requires
            track.wf(),
        ensures
            match r {
                Some(id) => spec_port_section(track@, self@.from, SWITCH_CHAIN_LIMIT as nat)
                    == Some(id@),
                None => spec_port_section(track@, self@.from, SWITCH_CHAIN_LIMIT as nat) is None,
            },
    {
        track.port_section(self.from(), SWITCH_CHAIN_LIMIT)
    }
}

impl Default for Track {
    /// The empty graph.
    fn default() -> (r: Track)
        ensures
            r.wf(),
            r@.sections == Map::<int, SectionView>::empty(),
            r@.switches == Map::<Seq<char>, SwitchView>::empty(),
    {
        Track::new()
    }
}

} // verus!
