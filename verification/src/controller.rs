//! The route-following controller: section and switch state tables,
//! reservations, waiting queues, and the handling of hardware and
//! scheduled events.
use vstd::prelude::*;
use crate::assoc::{
    assoc_map, lemma_assoc_map_absent, lemma_assoc_map_dom, lemma_assoc_map_index,
    lemma_assoc_map_push, lemma_assoc_map_remove, lemma_assoc_map_update, unique_keys,
};
use crate::command::{CommandView, HardwareCommand};
use crate::controller_event::{ControllerEvent, ScheduledEvent, ScheduledEventView};
use crate::event::{
    EventView, HardwareEvent, HardwareSectionPower, HardwareSwitchState, SectionEventType,
};
use crate::scheduler::{Scheduler, TimedEvent};
use crate::section::SectionId;
use crate::switch::{SwitchId, SwitchState};
use crate::track::{Track, TrackView};
use crate::train::{fits_hardware, Train, TrainId, TrainView};
use vstd::utf8::encode_utf8;

verus! {

/// Errors of the controller core.
#[derive(Debug)]
pub enum ControllerError {
    /// A scheduled event named a train that does not exist.
    TrainNotFound(TrainId),
}

/// What the controller starts from: the graph and the trains on it.
pub struct ControllerConfig {
    pub track: Track,
    pub trains: Vec<(TrainId, Train)>,
}

/// The observed state of one section.
#[derive(Debug, Copy, Clone)]
pub struct SectionState {
    pub occupied: Option<TrainId>,
}

impl Default for SectionState {
    /// A section nobody is on.
    fn default() -> (r: SectionState)
        ensures
            r.occupied is None,
    {
        SectionState { occupied: None }
    }
}

/// The observed state of one train.
#[derive(Debug, Copy, Clone)]
pub struct TrainState {
    pub current_section: Option<SectionId>,
}

impl Default for TrainState {
    /// A train not yet seen on any section.
    fn default() -> (r: TrainState)
        ensures
            r.current_section is None,
    {
        TrainState { current_section: None }
    }
}

/// Mathematical model of the controller state.
pub ghost struct ControllerView {
    pub track: TrackView,
    pub trains: Map<int, TrainView>,
    pub occupancy: Map<int, Option<int>>,
    pub switch_states: Map<Seq<char>, SwitchState>,
    pub scheduler: Seq<(u64, ScheduledEventView)>,
    pub queues: Map<int, Seq<int>>,
    pub reservations: Map<int, int>,
}

/// Whether a section is occupied by some train.
pub open spec fn spec_occupied(cv: ControllerView, section: int) -> bool {
    cv.occupancy.contains_key(section) && cv.occupancy[section] is Some
}

/// The train observed on a section, if its state was ever observed.
pub open spec fn spec_occupant(cv: ControllerView, section: int) -> Option<int> {
    if cv.occupancy.contains_key(section) {
        cv.occupancy[section]
    } else {
        Option::None
    }
}

/// Whether a section is reserved by a train other than `train`.
pub open spec fn spec_reserved_by_other(cv: ControllerView, section: int, train: int) -> bool {
    cv.reservations.contains_key(section) && cv.reservations[section] != train
}

/// Whether a section may be entered by `train`: not occupied, and not
/// reserved by another train.
pub open spec fn spec_available(cv: ControllerView, section: int, train: int) -> bool {
    !spec_occupied(cv, section) && !spec_reserved_by_other(cv, section, train)
}

/// The queue of a section, empty when none was ever created.
pub open spec fn spec_queue(cv: ControllerView, section: int) -> Seq<int> {
    if cv.queues.contains_key(section) {
        cv.queues[section]
    } else {
        Seq::empty()
    }
}

/// A switch name that fits the 32-byte wire id.
pub open spec fn encodable_switch(name: Seq<char>) -> bool {
    encode_utf8(name).len() <= 32
}

/// The wire id of a switch name: its bytes, zero-padded to 32.
pub open spec fn hw_switch_id_of(name: Seq<char>) -> Seq<u8> {
    encode_utf8(name) + Seq::new((32 - encode_utf8(name).len()) as nat, |i: int| 0u8)
}

/// The wire state of a switch state.
pub open spec fn hw_switch_state_of(s: SwitchState) -> HardwareSwitchState {
    match s {
        SwitchState::Left => HardwareSwitchState::Left,
        SwitchState::Right => HardwareSwitchState::Right,
    }
}

/// The commands that commit a list of switch changes, in order; a change
/// whose switch name cannot be encoded on the wire is skipped.
pub open spec fn switch_commands(changes: Seq<(Seq<char>, SwitchState)>) -> Seq<CommandView>
    decreases changes.len(),
{
    if changes.len() == 0 {
        Seq::empty()
    } else {
        let head = changes[0];
        let rest = switch_commands(changes.skip(1));
        if encodable_switch(head.0) {
            seq![
                CommandView::SetSwitchState {
                    switch_id: hw_switch_id_of(head.0),
                    state: hw_switch_state_of(head.1),
                },
            ] + rest
        } else {
            rest
        }
    }
}

/// The command that powers a section at a level.
pub open spec fn power_command(section: int, power: HardwareSectionPower) -> CommandView {
    CommandView::SetSectionPower { section_id: section as u32, power }
}

/// The views of a list of commands.
pub open spec fn command_views(v: Seq<HardwareCommand>) -> Seq<CommandView> {
    v.map_values(|c: HardwareCommand| c@)
}

/// The live controller.
pub struct Controller {
    track: Track,
    trains: Vec<(TrainId, Train)>,
    section_states: Vec<(SectionId, SectionState)>,
    switch_states: Vec<(SwitchId, SwitchState)>,
    scheduler: Scheduler,
    section_queues: Vec<(SectionId, Vec<TrainId>)>,
    section_reservations: Vec<(SectionId, TrainId)>,
}

/// The model entries of the train table.
pub open spec fn train_entries_of(s: Seq<(TrainId, Train)>) -> Seq<(int, TrainView)> {
    s.map_values(|p: (TrainId, Train)| (p.0@, p.1@))
}

/// The model entries of the occupancy table.
pub open spec fn occupancy_entries_of(s: Seq<(SectionId, SectionState)>) -> Seq<
    (int, Option<int>),
> {
    s.map_values(
        |p: (SectionId, SectionState)|
            (
                p.0@,
                match p.1.occupied {
                    Option::Some(t) => Option::Some(t@),
                    Option::None => Option::<int>::None,
                },
            ),
    )
}

/// The model entries of the switch-state table.
pub open spec fn switch_state_entries_of(s: Seq<(SwitchId, SwitchState)>) -> Seq<
    (Seq<char>, SwitchState),
> {
    s.map_values(|p: (SwitchId, SwitchState)| (p.0@, p.1))
}

/// The model of one queue.
pub open spec fn queue_view_of(q: Seq<TrainId>) -> Seq<int> {
    q.map_values(|t: TrainId| t@)
}

/// The model entries of the queue table.
pub open spec fn queue_entries_of(s: Seq<(SectionId, Vec<TrainId>)>) -> Seq<(int, Seq<int>)> {
    s.map_values(|p: (SectionId, Vec<TrainId>)| (p.0@, queue_view_of(p.1@)))
}

/// The model entries of the scheduler.
pub open spec fn sched_entries_of(s: Seq<TimedEvent>) -> Seq<(u64, ScheduledEventView)> {
    s.map_values(|te: TimedEvent| (te.when, te.event@))
}

/// The model entries of the reservation table.
pub open spec fn reservation_entries_of(s: Seq<(SectionId, TrainId)>) -> Seq<(int, int)> {
    s.map_values(|p: (SectionId, TrainId)| (p.0@, p.1@))
}

impl Controller {
    spec fn train_entries(&self) -> Seq<(int, TrainView)> {
        train_entries_of(self.trains@)
    }

    spec fn occupancy_entries(&self) -> Seq<(int, Option<int>)> {
        occupancy_entries_of(self.section_states@)
    }

    spec fn switch_state_entries(&self) -> Seq<(Seq<char>, SwitchState)> {
        switch_state_entries_of(self.switch_states@)
    }

    spec fn queue_entries(&self) -> Seq<(int, Seq<int>)> {
        queue_entries_of(self.section_queues@)
    }

    spec fn reservation_entries(&self) -> Seq<(int, int)> {
        reservation_entries_of(self.section_reservations@)
    }
}

impl View for Controller {
    type V = ControllerView;

    closed spec fn view(&self) -> ControllerView {
        ControllerView {
            track: self.track@,
            trains: assoc_map(self.train_entries()),
            occupancy: assoc_map(self.occupancy_entries()),
            switch_states: assoc_map(self.switch_state_entries()),
            scheduler: sched_entries_of(self.scheduler@),
            queues: assoc_map(self.queue_entries()),
            reservations: assoc_map(self.reservation_entries()),
        }
    }
}

/// A scheduled event whose section id fits the 32-bit wire id.
pub open spec fn event_fits(ev: ScheduledEventView) -> bool {
    match ev {
        ScheduledEventView::TrainEnteredSection { section, .. } => 0 <= section <= u32::MAX,
        ScheduledEventView::TrainLeftSection { section, .. } => 0 <= section <= u32::MAX,
    }
}

/// Every pending scheduled event fits the wire.
pub open spec fn sched_fits(s: Seq<(u64, ScheduledEventView)>) -> bool {
    forall|i: int| 0 <= i < s.len() ==> event_fits(#[trigger] s[i].1)
}

/// Every train of the map is sound and fits the wire.
pub open spec fn trains_wf(trains: Map<int, TrainView>) -> bool {
    forall|t: int|
        trains.contains_key(t) ==> (#[trigger] trains[t]).mode.wf() && fits_hardware(
            trains[t].mode,
        )
}

impl Controller {
    /// The table invariant: each table is a map, the graph is sound, and
    /// every train is sound and fits the wire.
    pub closed spec fn wf(&self) -> bool {
        &&& unique_keys(self.train_entries())
        &&& unique_keys(self.occupancy_entries())
        &&& unique_keys(self.switch_state_entries())
        &&& unique_keys(self.queue_entries())
        &&& unique_keys(self.reservation_entries())
        &&& self.track.wf()
        &&& trains_wf(self@.trains)
        &&& sched_fits(sched_entries_of(self.scheduler@))
    }

    /// A controller over a validated configuration: it starts exactly
    /// when every train key is unique and every train's route state is
    /// sound and fits the wire.
    pub fn new(config: ControllerConfig) -> (r: Result<Controller, ControllerError>)
        requires
            config.track.wf(),
        ensures
            (r is Ok) == (unique_keys(train_entries_of(config.trains@)) && trains_wf(
                assoc_map(train_entries_of(config.trains@)),
            )),
            match r {
                Ok(c) => c.wf() && c@.track == config.track@ && c@.trains == assoc_map(
                    train_entries_of(config.trains@),
                ) && c@.occupancy == Map::<int, Option<int>>::empty() && c@.switch_states == Map::<
                    Seq<char>,
                    SwitchState,
                >::empty() && c@.scheduler == Seq::<(u64, ScheduledEventView)>::empty() && c@.queues == Map::<
                    int,
                    Seq<int>,
                >::empty() && c@.reservations == Map::<int, int>::empty(),
                Err(_) => true,
            },
    {
        if !Self::check_trains(&config.trains) {
            return Err(ControllerError::TrainNotFound(TrainId::new(0)));
        }
        let c = Controller {
            track: config.track,
            trains: config.trains,
            section_states: Vec::new(),
            switch_states: Vec::new(),
            scheduler: Scheduler::new(),
            section_queues: Vec::new(),
            section_reservations: Vec::new(),
        };
        proof {
            assert(c.occupancy_entries() =~= Seq::<(int, Option<int>)>::empty());
            assert(c.switch_state_entries() =~= Seq::<(Seq<char>, SwitchState)>::empty());
            assert(c.queue_entries() =~= Seq::<(int, Seq<int>)>::empty());
            assert(sched_entries_of(c.scheduler@) =~= Seq::<(u64, ScheduledEventView)>::empty());
            assert(c.reservation_entries() =~= Seq::<(int, int)>::empty());
        }
        Ok(c)
    }

    /// Check that train keys are unique and every train is sound and
    /// fits the wire: true exactly when both hold.
    fn check_trains(trains: &Vec<(TrainId, Train)>) -> (r: bool)
        ensures
            r == (unique_keys(train_entries_of(trains@)) && trains_wf(
                assoc_map(train_entries_of(trains@)),
            )),
    {
        let ghost entries = train_entries_of(trains@);
        let n = trains.len();
        let mut i: usize = 0;
        while i < n
            invariant
                n == trains@.len(),
                i <= n,
                entries == train_entries_of(trains@),
                forall|a: int, b: int| 0 <= a < b < i ==> entries[a].0 != entries[b].0,
                forall|a: int|
                    0 <= a < i ==> (#[trigger] entries[a].1).mode.wf() && fits_hardware(
                        entries[a].1.mode,
                    ),
            decreases n - i,
        {
            let mut j: usize = 0;
            while j < i
                invariant
                    n == trains@.len(),
                    entries == train_entries_of(trains@),
                    i < n,
                    j <= i,
                    forall|a: int| 0 <= a < j ==> entries[a].0 != entries[i as int].0,
                decreases i - j,
            {
                if trains[j].0.as_usize() == trains[i].0.as_usize() {
                    proof {
                        assert(entries[j as int].0 == entries[i as int].0);
                        assert(!unique_keys(entries));
                    }
                    return false;
                }
                j = j + 1;
            }
            if !Self::check_train(&trains[i].1) {
                proof {
                    if unique_keys(entries) {
                        lemma_assoc_map_index(entries, i as int);
                        assert(!trains_wf(assoc_map(entries)));
                    }
                }
                return false;
            }
            i = i + 1;
        }
        proof {
            assert forall|t: int| assoc_map(entries).contains_key(t) implies (#[trigger] assoc_map(
                entries,
            )[t]).mode.wf() && fits_hardware(assoc_map(entries)[t].mode) by {
                lemma_assoc_map_dom(entries, t);
                let a = choose|a: int| 0 <= a < entries.len() && entries[a].0 == t;
                lemma_assoc_map_index(entries, a);
            }
        }
        true
    }

    /// Check that one train's route state is sound and fits the wire.
    fn check_train(train: &Train) -> (r: bool)
        ensures
            r == (train@.mode.wf() && fits_hardware(train@.mode)),
    {
        train.check_route()
    }

    /// Look up a train.
    pub fn train(&self, train_id: TrainId) -> (r: Result<&Train, ControllerError>)
        requires
            self.wf(),
        ensures
            match r {
                Ok(t) => self@.trains.contains_key(train_id@) && t@ == self@.trains[train_id@],
                Err(e) => !self@.trains.contains_key(train_id@) && e == (
                ControllerError::TrainNotFound(train_id)),
            },
    {
        match self.train_index(train_id) {
            Some(i) => Ok(&self.trains[i].1),
            None => Err(ControllerError::TrainNotFound(train_id)),
        }
    }

    /// Mutable access to a train the caller knows exists.
    pub fn train_mut(&mut self, train_id: TrainId) -> (r: &mut Train)
        requires
            old(self).wf(),
            old(self)@.trains.contains_key(train_id@),
        ensures
            r@ == old(self)@.trains[train_id@],
            final(self)@ == (ControllerView {
                trains: old(self)@.trains.insert(train_id@, final(r)@),
                ..old(self)@
            }),
            old(self).wf() && final(r)@.mode.wf() && fits_hardware(final(r)@.mode)
                ==> final(self).wf(),
    {
        let i = match self.train_index(train_id) {
            Some(i) => i,
            None => {
                proof {
                    assert(false);
                }
                0
            },
        };
        let ghost pre = self.train_entries();
        let entry = &mut self.trains[i].1;
        proof {
            assert(after_borrow(self).train_entries() =~= pre.update(
                i as int,
                (pre[i as int].0, final(entry)@),
            ));
            lemma_assoc_map_update(pre, i as int, final(entry)@);
            assert(after_borrow(self).occupancy_entries() =~= old(self).occupancy_entries());
            assert(after_borrow(self).switch_state_entries() =~= old(self).switch_state_entries());
            assert(after_borrow(self).queue_entries() =~= old(self).queue_entries());
            assert(after_borrow(self).reservation_entries() =~= old(self).reservation_entries());
        }
        entry
    }

    fn train_index(&self, train_id: TrainId) -> (r: Option<usize>)
        requires
            self.wf(),
        ensures
            match r {
                Some(i) => i < self.trains@.len() && self.train_entries()[i as int].0 == train_id@
                    && self@.trains.contains_key(train_id@) && self@.trains[train_id@]
                    == self.train_entries()[i as int].1,
                None => !self@.trains.contains_key(train_id@),
            },
    {
        let n = self.trains.len();
        let mut i: usize = 0;
        while i < n
            invariant
                self.wf(),
                n == self.trains@.len(),
                i <= n,
                forall|j: int| 0 <= j < i ==> self.train_entries()[j].0 != train_id@,
            decreases n - i,
        {
            if self.trains[i].0.as_usize() == train_id.as_usize() {
                proof {
                    lemma_assoc_map_index(self.train_entries(), i as int);
                }
                return Some(i);
            }
            i = i + 1;
        }
        proof {
            lemma_assoc_map_absent(self.train_entries(), train_id@);
        }
        None
    }
}

impl Controller {
    fn occupancy_index(&self, section_id: &SectionId) -> (r: Option<usize>)
        requires
            self.wf(),
        ensures
            match r {
                Some(i) => i < self.section_states@.len() && self.occupancy_entries()[i as int].0
                    == section_id@ && self@.occupancy.contains_key(section_id@)
                    && self@.occupancy[section_id@] == self.occupancy_entries()[i as int].1,
                None => !self@.occupancy.contains_key(section_id@),
            },
    {
        let n = self.section_states.len();
        let mut i: usize = 0;
        while i < n
            invariant
                self.wf(),
                n == self.section_states@.len(),
                i <= n,
                forall|j: int| 0 <= j < i ==> self.occupancy_entries()[j].0 != section_id@,
            decreases n - i,
        {
            if self.section_states[i].0.as_usize() == section_id.as_usize() {
                proof {
                    lemma_assoc_map_index(self.occupancy_entries(), i as int);
                }
                return Some(i);
            }
            i = i + 1;
        }
        proof {
            lemma_assoc_map_absent(self.occupancy_entries(), section_id@);
        }
        None
    }

    fn reservation_index(&self, section_id: &SectionId) -> (r: Option<usize>)
        requires
            self.wf(),
        ensures
            match r {
                Some(i) => i < self.section_reservations@.len() && self.reservation_entries()[
                    i as int
                ].0 == section_id@ && self@.reservations.contains_key(section_id@)
                    && self@.reservations[section_id@] == self.reservation_entries()[i as int].1,
                None => !self@.reservations.contains_key(section_id@),
            },
    {
        let n = self.section_reservations.len();
        let mut i: usize = 0;
        while i < n
            invariant
                self.wf(),
                n == self.section_reservations@.len(),
                i <= n,
                forall|j: int| 0 <= j < i ==> self.reservation_entries()[j].0 != section_id@,
            decreases n - i,
        {
            if self.section_reservations[i].0.as_usize() == section_id.as_usize() {
                proof {
                    lemma_assoc_map_index(self.reservation_entries(), i as int);
                }
                return Some(i);
            }
            i = i + 1;
        }
        proof {
            lemma_assoc_map_absent(self.reservation_entries(), section_id@);
        }
        None
    }

    fn queue_index(&self, section_id: &SectionId) -> (r: Option<usize>)
        requires
            self.wf(),
        ensures
            match r {
                Some(i) => i < self.section_queues@.len() && self.queue_entries()[i as int].0
                    == section_id@ && self@.queues.contains_key(section_id@)
                    && self@.queues[section_id@] == self.queue_entries()[i as int].1,
                None => !self@.queues.contains_key(section_id@),
            },
    {
        let n = self.section_queues.len();
        let mut i: usize = 0;
        while i < n
            invariant
                self.wf(),
                n == self.section_queues@.len(),
                i <= n,
                forall|j: int| 0 <= j < i ==> self.queue_entries()[j].0 != section_id@,
            decreases n - i,
        {
            if self.section_queues[i].0.as_usize() == section_id.as_usize() {
                proof {
                    lemma_assoc_map_index(self.queue_entries(), i as int);
                }
                return Some(i);
            }
            i = i + 1;
        }
        proof {
            lemma_assoc_map_absent(self.queue_entries(), section_id@);
        }
        None
    }

    fn switch_state_index(&self, switch_id: &SwitchId) -> (r: Option<usize>)
        requires
            self.wf(),
        ensures
            match r {
                Some(i) => i < self.switch_states@.len() && self.switch_state_entries()[
                    i as int
                ].0 == switch_id@ && self@.switch_states.contains_key(switch_id@)
                    && self@.switch_states[switch_id@] == self.switch_state_entries()[i as int].1,
                None => !self@.switch_states.contains_key(switch_id@),
            },
    {
        let n = self.switch_states.len();
        let mut i: usize = 0;
        while i < n
            invariant
                self.wf(),
                n == self.switch_states@.len(),
                i <= n,
                forall|j: int| 0 <= j < i ==> self.switch_state_entries()[j].0 != switch_id@,
            decreases n - i,
        {
            if self.switch_states[i].0.matches(switch_id) {
                proof {
                    lemma_assoc_map_index(self.switch_state_entries(), i as int);
                }
                return Some(i);
            }
            i = i + 1;
        }
        proof {
            lemma_assoc_map_absent(self.switch_state_entries(), switch_id@);
        }
        None
    }

    /// Record the observed state of a switch.
    pub fn set_switch_state(&mut self, switch_id: SwitchId, state: SwitchState)
        requires
            old(self).wf(),
        ensures
            final(self)@ == (ControllerView {
                switch_states: old(self)@.switch_states.insert(switch_id@, state),
                ..old(self)@
            }),
            final(self).wf(),
    {
        match self.switch_state_index(&switch_id) {
            Some(i) => {
                let ghost pre = self.switch_state_entries();
                let entry = &mut self.switch_states[i];
                entry.1 = state;
                proof {
                    assert(self.switch_state_entries() =~= pre.update(
                        i as int,
                        (pre[i as int].0, state),
                    ));
                    lemma_assoc_map_update(pre, i as int, state);
                }
            },
            None => {
                let ghost pre = self.switch_state_entries();
                self.switch_states.push((switch_id, state));
                proof {
                    let key = pre.len() as int;
                    assert(self.switch_state_entries() =~= pre.push(
                        (self.switch_state_entries().last().0, state),
                    ));
                    lemma_assoc_map_push(
                        pre,
                        self.switch_state_entries().last().0,
                        state,
                    );
                    crate::assoc::lemma_assoc_map_dom(
                        pre,
                        self.switch_state_entries().last().0,
                    );
                }
            },
        }
    }

    /// The occupant of a section, if its state was ever observed.
    fn occupant(&self, section_id: &SectionId) -> (r: Option<TrainId>)
        requires
            self.wf(),
        ensures
            match r {
                Some(t) => spec_occupant(self@, section_id@) == Some(t@),
                None => spec_occupant(self@, section_id@) is None,
            },
    {
        match self.occupancy_index(section_id) {
            Some(i) => self.section_states[i].1.occupied,
            None => None,
        }
    }

    /// Record who is on a section (or that nobody is).
    fn set_occupant(&mut self, section_id: SectionId, occupant: Option<TrainId>)
        requires
            old(self).wf(),
        ensures
            final(self)@ == (ControllerView {
                occupancy: old(self)@.occupancy.insert(
                    section_id@,
                    match occupant {
                        Option::Some(t) => Option::Some(t@),
                        Option::None => Option::<int>::None,
                    },
                ),
                ..old(self)@
            }),
            final(self).wf(),
    {
        let ghost v = (match occupant {
            Option::Some(t) => Option::Some(t@),
            Option::None => Option::<int>::None,
        });
        match self.occupancy_index(&section_id) {
            Some(i) => {
                let ghost pre = self.occupancy_entries();
                let entry = &mut self.section_states[i];
                entry.1 = SectionState { occupied: occupant };
                proof {
                    assert(self.occupancy_entries() =~= pre.update(
                        i as int,
                        (pre[i as int].0, v),
                    ));
                    lemma_assoc_map_update(pre, i as int, v);
                }
            },
            None => {
                let ghost pre = self.occupancy_entries();
                self.section_states.push((section_id, SectionState { occupied: occupant }));
                proof {
                    assert(self.occupancy_entries() =~= pre.push((section_id@, v)));
                    lemma_assoc_map_push(pre, section_id@, v);
                    crate::assoc::lemma_assoc_map_dom(pre, section_id@);
                }
            },
        }
    }

    /// Whether a section is occupied by some train.
    pub fn is_section_occupied(&self, section_id: SectionId) -> (r: bool)
        requires
            self.wf(),
        ensures
            r == spec_occupied(self@, section_id@),
    {
        self.occupant(&section_id).is_some()
    }

    /// Whether a section is reserved by a train other than `train_id`.
    pub fn is_section_reserved_by_other(&self, section_id: SectionId, train_id: TrainId) -> (r:
        bool)
        requires
            self.wf(),
        ensures
            r == spec_reserved_by_other(self@, section_id@, train_id@),
    {
        match self.reservation_index(&section_id) {
            Some(i) => self.section_reservations[i].1.as_usize() != train_id.as_usize(),
            None => false,
        }
    }

    /// Whether a section may be entered by `train_id`.
    pub fn is_section_available(&self, section_id: SectionId, for_train: TrainId) -> (r: bool)
        requires
            self.wf(),
        ensures
            r == spec_available(self@, section_id@, for_train@),
    {
        !self.is_section_occupied(section_id) && !self.is_section_reserved_by_other(
            section_id,
            for_train,
        )
    }

    /// Reserve a section for a train: this succeeds exactly when the
    /// section is neither reserved nor occupied by a different train (a
    /// train may re-reserve its own section). On success the train holds
    /// the reservation; on failure the reservation table is unchanged.
    pub fn try_reserve_section(&mut self, section_id: SectionId, train_id: TrainId) -> (r: bool)
        requires
            old(self).wf(),
        ensures
            final(self).wf(),
            r == spec_try_reserve(old(self)@, section_id@, train_id@).0,
            final(self)@ == spec_try_reserve(old(self)@, section_id@, train_id@).1,
            r == (!spec_reserved_by_other(old(self)@, section_id@, train_id@) && !(spec_occupant(
                old(self)@,
                section_id@,
            ) matches Some(u) && u != train_id@)),
            r ==> final(self)@.reservations.contains_key(section_id@)
                && final(self)@.reservations[section_id@] == train_id@,
            !r ==> final(self)@.reservations == old(self)@.reservations,
    {
        match self.reservation_index(&section_id) {
            Some(i) => {
                if self.section_reservations[i].1.as_usize() != train_id.as_usize() {
                    return false;
                }
                match self.occupant(&section_id) {
                    Some(u) => {
                        return u.as_usize() == train_id.as_usize();
                    },
                    None => {
                        return true;
                    },
                }
            },
            None => {},
        }
        if self.occupancy_index(&section_id).is_none() {
            self.set_occupant(section_id, None);
        }
        match self.occupant(&section_id) {
            Some(u) => {
                if u.as_usize() != train_id.as_usize() {
                    return false;
                }
            },
            None => {},
        }
        let ghost pre = self.reservation_entries();
        self.section_reservations.push((section_id, train_id));
        proof {
            assert(self.reservation_entries() =~= pre.push((section_id@, train_id@)));
            lemma_assoc_map_push(pre, section_id@, train_id@);
            crate::assoc::lemma_assoc_map_dom(pre, section_id@);
        }
        true
    }

    /// Release a reservation if it is held by the given train.
    pub fn release_reservation(&mut self, section_id: SectionId, train_id: TrainId)
        requires
            old(self).wf(),
        ensures
            final(self).wf(),
            final(self)@ == (ControllerView {
                reservations: spec_release(old(self)@.reservations, section_id@, train_id@),
                ..old(self)@
            }),
    {
        match self.reservation_index(&section_id) {
            Some(i) => {
                if self.section_reservations[i].1.as_usize() == train_id.as_usize() {
                    let ghost pre = self.reservation_entries();
                    self.section_reservations.remove(i);
                    proof {
                        assert(self.reservation_entries() =~= pre.remove(i as int));
                        lemma_assoc_map_remove(pre, i as int);
                    }
                }
            },
            None => {},
        }
    }

    /// Append a train to the queue of a section.
    fn queue_push(&mut self, section_id: SectionId, train_id: TrainId)
        requires
            old(self).wf(),
        ensures
            final(self).wf(),
            final(self)@ == (ControllerView {
                queues: old(self)@.queues.insert(
                    section_id@,
                    spec_queue(old(self)@, section_id@).push(train_id@),
                ),
                ..old(self)@
            }),
    {
        match self.queue_index(&section_id) {
            Some(i) => {
                let ghost pre = self.queue_entries();
                let entry = &mut self.section_queues[i];
                entry.1.push(train_id);
                proof {
                    assert(queue_view_of(self.section_queues@[i as int].1@) =~= pre[i as int].1.push(
                        train_id@,
                    ));
                    assert(self.queue_entries() =~= pre.update(
                        i as int,
                        (pre[i as int].0, pre[i as int].1.push(train_id@)),
                    ));
                    lemma_assoc_map_update(pre, i as int, pre[i as int].1.push(train_id@));
                }
            },
            None => {
                let ghost pre = self.queue_entries();
                let mut q: Vec<TrainId> = Vec::new();
                q.push(train_id);
                let ghost qv = queue_view_of(q@);
                self.section_queues.push((section_id, q));
                proof {
                    assert(qv =~= Seq::<int>::empty().push(train_id@));
                    assert(self.queue_entries() =~= pre.push((section_id@, qv)));
                    lemma_assoc_map_push(pre, section_id@, qv);
                    crate::assoc::lemma_assoc_map_dom(pre, section_id@);
                    assert(spec_queue(old(self)@, section_id@) =~= Seq::<int>::empty());
                }
            },
        }
    }

    /// Pop the head of the queue of a section, if it has one.
    fn queue_pop(&mut self, section_id: SectionId) -> (r: Option<TrainId>)
        requires
            old(self).wf(),
        ensures
            final(self).wf(),
            match r {
                Some(t) => spec_queue(old(self)@, section_id@).len() > 0 && t@ == spec_queue(
                    old(self)@,
                    section_id@,
                )[0] && final(self)@ == (ControllerView {
                    queues: old(self)@.queues.insert(
                        section_id@,
                        spec_queue(old(self)@, section_id@).skip(1),
                    ),
                    ..old(self)@
                }),
                None => spec_queue(old(self)@, section_id@).len() == 0 && *final(self) == *old(
                    self,
                ),
            },
    {
        match self.queue_index(&section_id) {
            Some(i) => {
                if self.section_queues[i].1.len() == 0 {
                    return None;
                }
                let ghost pre = self.queue_entries();
                let entry = &mut self.section_queues[i];
                let t = entry.1.remove(0);
                proof {
                    assert(queue_view_of(self.section_queues@[i as int].1@) =~= pre[
                        i as int
                    ].1.skip(1));
                    assert(self.queue_entries() =~= pre.update(
                        i as int,
                        (pre[i as int].0, pre[i as int].1.skip(1)),
                    ));
                    lemma_assoc_map_update(pre, i as int, pre[i as int].1.skip(1));
                }
                Some(t)
            },
            None => None,
        }
    }
}

/// A reservation table with the hold of `train` on `section` released.
pub open spec fn spec_release(reservations: Map<int, int>, section: int, train: int) -> Map<
    int,
    int,
> {
    if reservations.contains_key(section) && reservations[section] == train {
        reservations.remove(section)
    } else {
        reservations
    }
}

/// Whether a train exists and will enter `section` next.
pub open spec fn spec_inbound(cv: ControllerView, train: int, section: int) -> bool {
    cv.trains.contains_key(train) && cv.trains[train].mode.next_section() == Some(section)
}

/// Whether `train` is the only train inbound for `section`.
pub open spec fn spec_unique_inbound(cv: ControllerView, section: int, train: int) -> bool {
    &&& spec_inbound(cv, train, section)
    &&& forall|u: int| spec_inbound(cv, u, section) ==> u == train
}

/// Reserving a section: it succeeds exactly when no other train holds a
/// reservation on it and no other train is on it. When the section was
/// never observed before, taking the reservation materializes its state
/// entry.
pub open spec fn spec_try_reserve(cv: ControllerView, section: int, train: int) -> (
    bool,
    ControllerView,
) {
    if cv.reservations.contains_key(section) {
        if cv.reservations[section] != train {
            (false, cv)
        } else if spec_occupant(cv, section) matches Some(u) && u != train {
            (false, cv)
        } else {
            (true, cv)
        }
    } else {
        let occ1 = if cv.occupancy.contains_key(section) {
            cv.occupancy
        } else {
            cv.occupancy.insert(section, Option::<int>::None)
        };
        if spec_occupant(cv, section) matches Some(u) && u != train {
            (false, ControllerView { occupancy: occ1, ..cv })
        } else {
            (
                true,
                ControllerView {
                    occupancy: occ1,
                    reservations: cv.reservations.insert(section, train),
                    ..cv
                },
            )
        }
    }
}

/// What a detector report does to the controller: an `Occupied` report on
/// a free section with exactly one inbound train advances that train,
/// records it as the occupant and schedules `TrainEnteredSection`; a
/// `Freed` report clears the occupant and schedules `TrainLeftSection`.
/// Anomalies (an occupant already present, no inbound train, several
/// inbound trains) change nothing.
pub open spec fn spec_set_section_occupied(
    cv: ControllerView,
    section: int,
    occupied: bool,
    now: u64,
) -> ControllerView {
    if occupied {
        if spec_occupant(cv, section) is Some {
            cv
        } else if exists|t: int| spec_unique_inbound(cv, section, t) {
            let t = choose|t: int| spec_unique_inbound(cv, section, t);
            ControllerView {
                trains: cv.trains.insert(
                    t,
                    TrainView { name: cv.trains[t].name, mode: cv.trains[t].mode.entered(section) },
                ),
                occupancy: cv.occupancy.insert(section, Some(t)),
                scheduler: cv.scheduler.push(
                    (now, ScheduledEventView::TrainEnteredSection { train: t, section }),
                ),
                ..cv
            }
        } else {
            cv
        }
    } else {
        match spec_occupant(cv, section) {
            Option::Some(t) => ControllerView {
                occupancy: cv.occupancy.insert(section, Option::<int>::None),
                scheduler: cv.scheduler.push(
                    (now, ScheduledEventView::TrainLeftSection { train: t, section }),
                ),
                ..cv
            },
            Option::None => ControllerView {
                occupancy: cv.occupancy.insert(section, Option::<int>::None),
                ..cv
            },
        }
    }
}

/// The controller-side switch state of a wire switch state.
pub open spec fn switch_state_of_hw(s: HardwareSwitchState) -> SwitchState {
    match s {
        HardwareSwitchState::Left => SwitchState::Left,
        HardwareSwitchState::Right => SwitchState::Right,
    }
}

/// What a hardware event does to the controller state. A switch-state
/// report is recorded under the reported name with its zero padding
/// stripped; one whose name is not valid text is ignored, as are pongs
/// and debug messages.
pub open spec fn spec_handle_hardware(cv: ControllerView, ev: EventView, now: u64) -> ControllerView {
    match ev {
        EventView::SectionEvent { section_id, event_type } => {
            spec_set_section_occupied(
                cv,
                section_id as int,
                event_type == SectionEventType::Occupied,
                now,
            )
        },
        EventView::SwitchStateChanged { switch_id, state } => {
            let stripped = crate::strbytes::strip_trailing_zeros(switch_id);
            if vstd::utf8::valid_utf8(stripped) {
                ControllerView {
                    switch_states: cv.switch_states.insert(
                        vstd::utf8::decode_utf8(stripped),
                        switch_state_of_hw(state),
                    ),
                    ..cv
                }
            } else {
                cv
            }
        },
        EventView::Pong { .. } => cv,
        EventView::DebugMessage { .. } => cv,
    }
}

/// What handling one scheduled event produces: the next state, the
/// commands emitted, and whether the event named a missing train.
pub ghost struct HandlerOutcome {
    pub state: ControllerView,
    pub commands: Seq<CommandView>,
    pub missing_train: bool,
}

/// Handling `TrainEnteredSection{train, current}`: if the route has a next
/// section and it is available, reserve it, commit the required switches
/// and power it; if it is blocked, stop the train on its current section
/// and queue it on the next one.
pub open spec fn spec_train_entered(cv: ControllerView, train: int, current: int) -> HandlerOutcome {
    if !cv.trains.contains_key(train) {
        HandlerOutcome { state: cv, commands: Seq::empty(), missing_train: true }
    } else {
        let tm = cv.trains[train].mode;
        match tm.transition_to_next() {
            Option::None => HandlerOutcome {
                state: cv,
                commands: Seq::empty(),
                missing_train: false,
            },
            Option::Some(tr) => {
                let next = tr.destination();
                if spec_available(cv, next, train) {
                    let cv1 = spec_try_reserve(cv, next, train).1;
                    HandlerOutcome {
                        state: cv1,
                        commands: switch_commands(tr.switch_changes()) + seq![
                            power_command(next, HardwareSectionPower::Full),
                        ],
                        missing_train: false,
                    }
                } else {
                    HandlerOutcome {
                        state: ControllerView {
                            queues: cv.queues.insert(next, spec_queue(cv, next).push(train)),
                            ..cv
                        },
                        commands: seq![power_command(current, HardwareSectionPower::Off)],
                        missing_train: false,
                    }
                }
            },
        }
    }
}

/// Handling `TrainLeftSection{train, section}`: release the reservation,
/// then wake the head of the section's queue: a waiter still bound for
/// the section gets the section reserved, its own section repowered, its
/// switches committed and the section powered; with no waiter the section
/// is powered off; a stale waiter is dropped without commands.
pub open spec fn spec_train_left(cv: ControllerView, train: int, section: int) -> HandlerOutcome {
    let cv1 = ControllerView {
        reservations: spec_release(cv.reservations, section, train),
        ..cv
    };
    let q = spec_queue(cv1, section);
    if q.len() == 0 {
        HandlerOutcome {
            state: cv1,
            commands: seq![power_command(section, HardwareSectionPower::Off)],
            missing_train: false,
        }
    } else {
        let w = q[0];
        let cv2 = ControllerView { queues: cv1.queues.insert(section, q.skip(1)), ..cv1 };
        if !cv2.trains.contains_key(w) {
            HandlerOutcome { state: cv2, commands: Seq::empty(), missing_train: false }
        } else {
            let wm = cv2.trains[w].mode;
            if wm.next_section() != Some(section) {
                HandlerOutcome { state: cv2, commands: Seq::empty(), missing_train: false }
            } else {
                match (wm.current_section(), wm.transition_to_next()) {
                    (Option::Some(cur), Option::Some(tr)) => HandlerOutcome {
                        state: spec_try_reserve(cv2, section, w).1,
                        commands: seq![power_command(cur, HardwareSectionPower::Full)]
                            + switch_commands(tr.switch_changes()) + seq![
                            power_command(section, HardwareSectionPower::Full),
                        ],
                        missing_train: false,
                    },
                    _ => HandlerOutcome {
                        state: cv2,
                        commands: Seq::empty(),
                        missing_train: false,
                    },
                }
            }
        }
    }
}

/// What handling one scheduled event produces.
pub open spec fn spec_handle_scheduled(cv: ControllerView, ev: ScheduledEventView) -> HandlerOutcome {
    match ev {
        ScheduledEventView::TrainEnteredSection { train, section } => {
            spec_train_entered(cv, train, section)
        },
        ScheduledEventView::TrainLeftSection { train, section } => {
            spec_train_left(cv, train, section)
        },
    }
}

/// The earliest due time among pending scheduled events, at the model level.
pub open spec fn sched_min_when(s: Seq<(u64, ScheduledEventView)>) -> u64
    decreases s.len(),
{
    if s.len() <= 1 {
        s[0].0
    } else {
        let m = sched_min_when(s.drop_last());
        if s.last().0 < m {
            s.last().0
        } else {
            m
        }
    }
}

/// The index of the first pending event with the earliest due time, at
/// the model level.
pub open spec fn sched_first_min_index(s: Seq<(u64, ScheduledEventView)>) -> int
    decreases s.len(),
{
    if s.len() <= 1 {
        0
    } else {
        let j = sched_first_min_index(s.drop_last());
        if s.last().0 < s[j].0 {
            s.len() - 1
        } else {
            j
        }
    }
}

/// The first-minimum index points at an entry with the earliest due time.
pub proof fn lemma_sched_first_min(s: Seq<(u64, ScheduledEventView)>)
    requires
        s.len() > 0,
    ensures
        0 <= sched_first_min_index(s) < s.len(),
        s[sched_first_min_index(s)].0 == sched_min_when(s),
        forall|j: int| 0 <= j < s.len() ==> sched_min_when(s) <= #[trigger] s[j].0,
    decreases s.len(),
{
    if s.len() > 1 {
        lemma_sched_first_min(s.drop_last());
        assert forall|j: int| 0 <= j < s.len() implies sched_min_when(s) <= s[j].0 by {
            if j < s.len() - 1 {
                assert(s.drop_last()[j] == s[j]);
            }
        }
    }
}

/// The model of the scheduler agrees with its entry list on the
/// earliest due time and its first position.
pub proof fn lemma_sched_view_min(s: Seq<TimedEvent>)
    requires
        s.len() > 0,
    ensures
        sched_min_when(sched_entries_of(s)) == crate::scheduler::min_when(s),
        sched_first_min_index(sched_entries_of(s)) == crate::scheduler::first_min_index(s),
    decreases s.len(),
{
    if s.len() > 1 {
        lemma_sched_view_min(s.drop_last());
        assert(sched_entries_of(s).drop_last() =~= sched_entries_of(s.drop_last()));
        assert(sched_entries_of(s).last().0 == s.last().when);
        crate::scheduler::lemma_first_min_index(s.drop_last());
        let j = crate::scheduler::first_min_index(s.drop_last());
        assert(sched_entries_of(s)[j].0 == s[j].when);
    }
}

/// Handling one scheduled event never schedules another: the scheduler
/// is untouched by both handlers.
pub proof fn lemma_handle_scheduled_keeps_scheduler(cv: ControllerView, ev: ScheduledEventView)
    ensures
        spec_handle_scheduled(cv, ev).state.scheduler == cv.scheduler,
{
}

/// Draining the scheduler at `now`: while an event is due, the first
/// earliest one is popped and handled, its commands appended, until
/// nothing is due or a handled event named a missing train.
pub open spec fn spec_drain(cv: ControllerView, now: u64) -> HandlerOutcome
    decreases cv.scheduler.len(),
    via spec_drain_decreases
{
    if cv.scheduler.len() == 0 || sched_min_when(cv.scheduler) > now {
        HandlerOutcome { state: cv, commands: Seq::empty(), missing_train: false }
    } else {
        let k = sched_first_min_index(cv.scheduler);
        let ev = cv.scheduler[k].1;
        let cv1 = ControllerView { scheduler: cv.scheduler.remove(k), ..cv };
        let o = spec_handle_scheduled(cv1, ev);
        if o.missing_train {
            HandlerOutcome { state: o.state, commands: o.commands, missing_train: true }
        } else {
            let d = spec_drain(o.state, now);
            HandlerOutcome {
                state: d.state,
                commands: o.commands + d.commands,
                missing_train: d.missing_train,
            }
        }
    }
}

#[via_fn]
proof fn spec_drain_decreases(cv: ControllerView, now: u64) {
    if !(cv.scheduler.len() == 0 || sched_min_when(cv.scheduler) > now) {
        lemma_sched_first_min(cv.scheduler);
        let k = sched_first_min_index(cv.scheduler);
        let ev = cv.scheduler[k].1;
        let cv1 = ControllerView { scheduler: cv.scheduler.remove(k), ..cv };
        lemma_handle_scheduled_keeps_scheduler(cv1, ev);
    }
}

/// The wire form of a switch id, when its name fits 32 bytes.
pub fn switch_id_to_hardware(id: &SwitchId) -> (r: Option<Vec<u8>>)
    ensures
        match r {
            Some(v) => encodable_switch(id@) && v@ == hw_switch_id_of(id@),
            None => !encodable_switch(id@),
        },
{
    let s = id.name().as_str();
    let bytes = s.as_bytes();
    if bytes.len() > 32 {
        return None;
    }
    let mut v = vstd::slice::slice_to_vec(bytes);
    let ghost enc = encode_utf8(id@);
    while v.len() < 32
        invariant
            enc.len() <= 32,
            enc.len() <= v@.len() <= 32,
            v@ =~= enc + Seq::new((v@.len() - enc.len()) as nat, |i: int| 0u8),
        decreases 32 - v@.len(),
    {
        v.push(0);
        proof {
            assert(v@ =~= enc + Seq::new((v@.len() - enc.len()) as nat, |i: int| 0u8));
        }
    }
    proof {
        assert(v@ =~= hw_switch_id_of(id@));
    }
    Some(v)
}

/// Every emitted switch command is well-formed on the wire.
pub proof fn lemma_switch_commands_wf(changes: Seq<(Seq<char>, SwitchState)>)
    ensures
        forall|j: int|
            0 <= j < switch_commands(changes).len() ==> (#[trigger] switch_commands(
                changes,
            )[j]).wf(),
    decreases changes.len(),
{
    if changes.len() > 0 {
        lemma_switch_commands_wf(changes.skip(1));
        assert forall|j: int| 0 <= j < switch_commands(changes).len() implies (
        #[trigger] switch_commands(changes)[j]).wf() by {
            if encodable_switch(changes[0].0) {
                if j == 0 {
                    assert(hw_switch_id_of(changes[0].0).len() == 32);
                } else {
                    assert(switch_commands(changes)[j] == switch_commands(changes.skip(1))[j - 1]);
                }
            } else {
                assert(switch_commands(changes)[j] == switch_commands(changes.skip(1))[j]);
            }
        }
    }
}

impl Controller {
    /// Append the power command for a section.
    fn push_power_command(out: &mut Vec<HardwareCommand>, section: SectionId, power: HardwareSectionPower)
        requires
            0 <= section@ <= u32::MAX,
        ensures
            command_views(final(out)@) == command_views(old(out)@) + seq![
                power_command(section@, power),
            ],
            final(out)@.len() == old(out)@.len() + 1,
            (final(out)@.last())@.wf(),
    {
        out.push(HardwareCommand::SetSectionPower { section_id: section.as_u32(), power });
        proof {
            assert(command_views(out@) =~= command_views(old(out)@) + seq![
                power_command(section@, power),
            ]);
        }
    }

    /// Append the commands for a list of switch changes, in order.
    fn emit_switch_commands(out: &mut Vec<HardwareCommand>, changes: &Vec<(SwitchId, SwitchState)>)
        ensures
            command_views(final(out)@) == command_views(old(out)@) + switch_commands(
                crate::transition::switch_change_views(changes@),
            ),
    {
        let ghost views = crate::transition::switch_change_views(changes@);
        proof {
            assert(views.skip(0) =~= views);
        }
        let n = changes.len();
        let mut i: usize = 0;
        while i < n
            invariant
                n == changes@.len(),
                i <= n,
                views == crate::transition::switch_change_views(changes@),
                command_views(old(out)@) + switch_commands(views) =~= command_views(out@)
                    + switch_commands(views.skip(i as int)),
            decreases n - i,
        {
            let ghost pre = out@;
            proof {
                assert(views.skip(i as int)[0] == views[i as int]);
                assert(views.skip(i as int).skip(1) =~= views.skip(i as int + 1));
            }
            match switch_id_to_hardware(&changes[i].0) {
                Some(hw_id) => {
                    let st = match changes[i].1 {
                        SwitchState::Left => HardwareSwitchState::Left,
                        SwitchState::Right => HardwareSwitchState::Right,
                    };
                    out.push(HardwareCommand::SetSwitchState { switch_id: hw_id, state: st });
                    proof {
                        assert(command_views(out@) =~= command_views(pre) + seq![
                            CommandView::SetSwitchState {
                                switch_id: hw_switch_id_of(views[i as int].0),
                                state: hw_switch_state_of(views[i as int].1),
                            },
                        ]);
                        assert(command_views(old(out)@) + switch_commands(views) =~= command_views(
                            out@,
                        ) + switch_commands(views.skip(i as int + 1)));
                    }
                },
                None => {
                    proof {
                        assert(command_views(old(out)@) + switch_commands(views) =~= command_views(
                            out@,
                        ) + switch_commands(views.skip(i as int + 1)));
                    }
                },
            }
            i = i + 1;
        }
        proof {
            assert(views.skip(n as int) =~= Seq::<(Seq<char>, SwitchState)>::empty());
            assert(switch_commands(views.skip(n as int)) =~= Seq::<CommandView>::empty());
            assert(command_views(out@) =~= command_views(out@) + switch_commands(
                views.skip(n as int),
            ));
        }
    }

    /// The single train inbound for a section, when there is exactly one.
    fn find_unique_inbound(&self, section_id: SectionId) -> (r: Option<TrainId>)
        requires
            self.wf(),
        ensures
            match r {
                Some(t) => spec_unique_inbound(self@, section_id@, t@),
                None => forall|t: int| !spec_unique_inbound(self@, section_id@, t),
            },
    {
        let ghost sec = section_id@;
        let n = self.trains.len();
        let mut count: usize = 0;
        let mut first: TrainId = TrainId::new(0);
        let ghost mut midx: int = 0;
        let ghost mut second: int = 0;
        let mut i: usize = 0;
        while i < n
            invariant
                self.wf(),
                sec == section_id@,
                n == self.trains@.len(),
                i <= n,
                count <= i,
                count == 0 ==> forall|j: int|
                    0 <= j < i ==> !spec_inbound(self@, #[trigger] self.train_entries()[j].0, sec),
                count == 1 ==> 0 <= midx < i && self.train_entries()[midx].0 == first@
                    && spec_inbound(self@, first@, sec) && forall|j: int|
                    0 <= j < i && j != midx ==> !spec_inbound(
                        self@,
                        #[trigger] self.train_entries()[j].0,
                        sec,
                    ),
                count >= 2 ==> spec_inbound(self@, first@, sec) && spec_inbound(self@, second, sec)
                    && first@ != second,
            decreases n - i,
        {
            proof {
                lemma_assoc_map_index(self.train_entries(), i as int);
            }
            let is_in = match self.trains[i].1.get_next_section() {
                Some(ns) => ns.as_usize() == section_id.as_usize(),
                None => false,
            };
            if is_in {
                if count == 0 {
                    first = self.trains[i].0;
                    proof {
                        midx = i as int;
                    }
                    count = 1;
                } else if count == 1 {
                    proof {
                        second = self.train_entries()[i as int].0;
                        assert(self.train_entries()[midx].0 != self.train_entries()[i as int].0);
                    }
                    count = 2;
                }
            }
            i = i + 1;
        }
        if count == 1 {
            proof {
                assert forall|u: int| spec_inbound(self@, u, sec) implies u == first@ by {
                    lemma_assoc_map_dom(self.train_entries(), u);
                    let j = choose|j: int|
                        0 <= j < self.train_entries().len() && self.train_entries()[j].0 == u;
                    if j != midx {
                        assert(!spec_inbound(self@, self.train_entries()[j].0, sec));
                    }
                }
            }
            Some(first)
        } else if count == 0 {
            proof {
                assert forall|t: int| !spec_unique_inbound(self@, sec, t) by {
                    if spec_inbound(self@, t, sec) {
                        lemma_assoc_map_dom(self.train_entries(), t);
                        let j = choose|j: int|
                            0 <= j < self.train_entries().len() && self.train_entries()[j].0 == t;
                        assert(!spec_inbound(self@, self.train_entries()[j].0, sec));
                    }
                }
            }
            None
        } else {
            proof {
                assert forall|t: int| !spec_unique_inbound(self@, sec, t) by {
                    if spec_unique_inbound(self@, sec, t) {
                        assert(first@ == t && second == t);
                    }
                }
            }
            None
        }
    }

    /// React to a detector report on a section.
    pub fn set_section_occupied(&mut self, section_id: SectionId, occupied: bool, now: u64)
        requires
            old(self).wf(),
            0 <= section_id@ <= u32::MAX,
        ensures
            final(self).wf(),
            final(self)@ == spec_set_section_occupied(old(self)@, section_id@, occupied, now),
    {
        let ghost cv = self@;
        if occupied {
            if self.occupant(&section_id).is_some() {
                return;
            }
            let t = match self.find_unique_inbound(section_id) {
                Some(t) => t,
                None => {
                    return;
                },
            };
            proof {
                let tc = choose|u: int| spec_unique_inbound(cv, section_id@, u);
                assert(spec_unique_inbound(cv, section_id@, tc));
                assert(tc == t@);
            }
            let tr = self.train_mut(t);
            tr.entered_section(section_id);
            self.set_occupant(section_id, Some(t));
            self.scheduler.schedule_now(
                now,
                ScheduledEvent::TrainEnteredSection { train_id: t, section_id },
            );
            proof {
                assert(sched_entries_of(self.scheduler@) =~= cv.scheduler.push(
                    (now, ScheduledEventView::TrainEnteredSection { train: t@, section: section_id@ }),
                ));
                assert(self@ == spec_set_section_occupied(cv, section_id@, true, now));
            }
        } else {
            match self.occupant(&section_id) {
                Some(prev) => {
                    self.set_occupant(section_id, None);
                    self.scheduler.schedule_now(
                        now,
                        ScheduledEvent::TrainLeftSection { train_id: prev, section_id },
                    );
                    proof {
                        assert(sched_entries_of(self.scheduler@) =~= cv.scheduler.push(
                            (
                                now,
                                ScheduledEventView::TrainLeftSection {
                                    train: prev@,
                                    section: section_id@,
                                },
                            ),
                        ));
                        assert(self@ == spec_set_section_occupied(cv, section_id@, false, now));
                    }
                },
                None => {
                    self.set_occupant(section_id, None);
                },
            }
        }
    }

    /// React to one event arriving from the hardware.
    pub fn handle_hardware_event(&mut self, event: &HardwareEvent, now: u64) -> (r: Result<
        (),
        ControllerError,
    >)
        requires
            old(self).wf(),
        ensures
            final(self).wf(),
            final(self)@ == spec_handle_hardware(old(self)@, event@, now),
            r is Ok,
    {
        match event {
            HardwareEvent::SectionEvent(se) => {
                let sid = SectionId::new(se.section_id as usize);
                match se.event_type {
                    SectionEventType::Occupied => self.set_section_occupied(sid, true, now),
                    SectionEventType::Freed => self.set_section_occupied(sid, false, now),
                }
            },
            HardwareEvent::SwitchStateChanged { switch_id, state } => {
                let trimmed = crate::strbytes::trim_trailing_zeros(switch_id);
                let ghost stripped = trimmed@;
                match crate::strbytes::string_from_utf8(trimmed) {
                    Some(name) => {
                        proof {
                            vstd::utf8::encode_utf8_decode_utf8(name@);
                        }
                        let st = match state {
                            HardwareSwitchState::Left => SwitchState::Left,
                            HardwareSwitchState::Right => SwitchState::Right,
                        };
                        self.set_switch_state(SwitchId::from_name(name), st);
                    },
                    None => {},
                }
            },
            HardwareEvent::Pong { .. } => {},
            HardwareEvent::DebugMessage { .. } => {},
        }
        Ok(())
    }

    /// React to one scheduled event, appending the commands it emits.
    pub fn handle_scheduled_event(&mut self, event: ScheduledEvent, out: &mut Vec<HardwareCommand>) -> (r: Result<(), ControllerError>)
        requires
            old(self).wf(),
            event_fits(event@),
        ensures
            final(self).wf(),
            final(self)@ == spec_handle_scheduled(old(self)@, event@).state,
            command_views(final(out)@) == command_views(old(out)@) + spec_handle_scheduled(
                old(self)@,
                event@,
            ).commands,
            (r is Ok) == !spec_handle_scheduled(old(self)@, event@).missing_train,
    {
        let ghost cv = self@;
        match event {
            ScheduledEvent::TrainEnteredSection { train_id, section_id } => {
                let train = match self.train(train_id) {
                    Ok(t) => t,
                    Err(e) => {
                        proof {
                            assert(command_views(out@) =~= command_views(out@) + Seq::<
                                CommandView,
                            >::empty());
                        }
                        return Err(e);
                    },
                };
                let transition = match train.get_transition_to_next_section() {
                    Some(t) => t.clone(),
                    None => {
                        proof {
                            assert(command_views(out@) =~= command_views(out@) + Seq::<
                                CommandView,
                            >::empty());
                        }
                        return Ok(());
                    },
                };
                let next = transition.destination();
                proof {
                    assert(cv.trains[train_id@].mode.transition_to_next() == Some(transition@));
                    assert(0 <= next@ <= u32::MAX);
                }
                if self.is_section_available(next, train_id) {
                    let ghost pre_out = out@;
                    let _reserved = self.try_reserve_section(next, train_id);
                    let changes = transition.required_switch_changes();
                    Self::emit_switch_commands(out, &changes);
                    Self::push_power_command(out, next, HardwareSectionPower::Full);
                    proof {
                        assert(command_views(out@) =~= command_views(pre_out) + (switch_commands(
                            transition@.switch_changes(),
                        ) + seq![power_command(next@, HardwareSectionPower::Full)]));
                    }
                    Ok(())
                } else {
                    Self::push_power_command(out, section_id, HardwareSectionPower::Off);
                    self.queue_push(next, train_id);
                    Ok(())
                }
            },
            ScheduledEvent::TrainLeftSection { train_id, section_id } => {
                self.release_reservation(section_id, train_id);
                let ghost cv1 = self@;
                let w = match self.queue_pop(section_id) {
                    Some(w) => w,
                    None => {
                        Self::push_power_command(out, section_id, HardwareSectionPower::Off);
                        return Ok(());
                    },
                };
                let ghost cv2 = self@;
                let tw = match self.train(w) {
                    Ok(t) => t,
                    Err(_) => {
                        proof {
                            assert(command_views(out@) =~= command_views(out@) + Seq::<
                                CommandView,
                            >::empty());
                        }
                        return Ok(());
                    },
                };
                let next = tw.get_next_section();
                let bound_here = match next {
                    Some(n) => n.as_usize() == section_id.as_usize(),
                    None => false,
                };
                if !bound_here {
                    proof {
                        assert(command_views(out@) =~= command_views(out@) + Seq::<
                            CommandView,
                        >::empty());
                    }
                    return Ok(());
                }
                let cur = match tw.get_current_section() {
                    Some(c) => c,
                    None => {
                        proof {
                            assert(command_views(out@) =~= command_views(out@) + Seq::<
                                CommandView,
                            >::empty());
                        }
                        return Ok(());
                    },
                };
                let transition = match tw.get_transition_to_next_section() {
                    Some(t) => t.clone(),
                    None => {
                        proof {
                            assert(command_views(out@) =~= command_views(out@) + Seq::<
                                CommandView,
                            >::empty());
                        }
                        return Ok(());
                    },
                };
                proof {
                    assert(0 <= cur@ <= u32::MAX);
                }
                let ghost pre_out = out@;
                let _reserved = self.try_reserve_section(section_id, w);
                Self::push_power_command(out, cur, HardwareSectionPower::Full);
                let changes = transition.required_switch_changes();
                Self::emit_switch_commands(out, &changes);
                Self::push_power_command(out, section_id, HardwareSectionPower::Full);
                proof {
                    assert(command_views(out@) =~= command_views(pre_out) + (seq![
                        power_command(cur@, HardwareSectionPower::Full),
                    ] + switch_commands(transition@.switch_changes()) + seq![
                        power_command(section_id@, HardwareSectionPower::Full),
                    ]));
                }
                Ok(())
            },
        }
    }

    /// How long until the next scheduled event is due: zero when it is
    /// due or overdue, `None` when nothing is pending.
    pub fn next_scheduled_duration(&self, now: u64) -> (r: Option<u64>)
        ensures
            match r {
                Some(d) => self@.scheduler.len() > 0 && d == (if sched_min_when(self@.scheduler)
                    <= now {
                    0u64
                } else {
                    (sched_min_when(self@.scheduler) - now) as u64
                }),
                None => self@.scheduler.len() == 0,
            },
    {
        proof {
            if self.scheduler@.len() > 0 {
                lemma_sched_view_min(self.scheduler@);
            }
        }
        self.scheduler.next_event_duration(now)
    }

    /// Drain and handle every scheduled event that is due at `now`: the
    /// state, the commands appended to `out` and the error are exactly
    /// those of `spec_drain`.
    pub fn resolve_pending_events(&mut self, now: u64, out: &mut Vec<HardwareCommand>) -> (r:
        Result<(), ControllerError>)
        requires
            old(self).wf(),
        ensures
            final(self).wf(),
            final(self)@ == spec_drain(old(self)@, now).state,
            command_views(final(out)@) == command_views(old(out)@) + spec_drain(
                old(self)@,
                now,
            ).commands,
            (r is Ok) == !spec_drain(old(self)@, now).missing_train,
            r is Ok ==> forall|i: int|
                0 <= i < final(self)@.scheduler.len()
                    ==> (#[trigger] final(self)@.scheduler[i]).0 > now,
    {
        let ghost cv0 = self@;
        loop
            invariant
                self.wf(),
                cv0 == old(self)@,
                ({
                    let d0 = spec_drain(cv0, now);
                    let d = spec_drain(self@, now);
                    d0.state == d.state && d0.missing_train == d.missing_train && command_views(
                        old(out)@,
                    ) + d0.commands =~= command_views(out@) + d.commands
                }),
            decreases self@.scheduler.len(),
        {
            let ghost pre_sched = self.scheduler@;
            let ghost pre = self@;
            let next = self.scheduler.next_event(now);
            match next {
                None => {
                    proof {
                        if pre_sched.len() > 0 {
                            crate::scheduler::lemma_first_min_index(pre_sched);
                            lemma_sched_view_min(pre_sched);
                            assert forall|i: int| 0 <= i < self@.scheduler.len() implies (
                            #[trigger] self@.scheduler[i]).0 > now by {
                                assert(self@.scheduler[i].0 == pre_sched[i].when);
                            }
                        }
                        assert(spec_drain(pre, now) == (HandlerOutcome {
                            state: pre,
                            commands: Seq::<CommandView>::empty(),
                            missing_train: false,
                        }));
                        assert(command_views(out@) + Seq::<CommandView>::empty() =~= command_views(
                            out@,
                        ));
                    }
                    return Ok(());
                },
                Some(e) => {
                    proof {
                        crate::scheduler::lemma_first_min_index(pre_sched);
                        lemma_sched_view_min(pre_sched);
                        let k = crate::scheduler::first_min_index(pre_sched);
                        assert(sched_entries_of(pre_sched)[k].1 == e@);
                        assert(event_fits(e@));
                        assert(sched_entries_of(self.scheduler@) =~= sched_entries_of(
                            pre_sched,
                        ).remove(k));
                        assert forall|i: int|
                            0 <= i < sched_entries_of(self.scheduler@).len() implies event_fits(
                            (#[trigger] sched_entries_of(self.scheduler@)[i]).1,
                        ) by {
                            if i < k {
                                assert(sched_entries_of(pre_sched).remove(k)[i]
                                    == sched_entries_of(pre_sched)[i]);
                            } else {
                                assert(sched_entries_of(pre_sched).remove(k)[i]
                                    == sched_entries_of(pre_sched)[i + 1]);
                            }
                        }
                        assert(self.wf());
                    }
                    let ghost popped = self@;
                    let ghost pre_out = out@;
                    let step = self.handle_scheduled_event(e, out);
                    proof {
                        let o = spec_handle_scheduled(popped, e@);
                        assert(spec_drain(pre, now) == (if o.missing_train {
                            HandlerOutcome {
                                state: o.state,
                                commands: o.commands,
                                missing_train: true,
                            }
                        } else {
                            let d = spec_drain(o.state, now);
                            HandlerOutcome {
                                state: d.state,
                                commands: o.commands + d.commands,
                                missing_train: d.missing_train,
                            }
                        }));
                        if !o.missing_train {
                            let d = spec_drain(o.state, now);
                            assert(command_views(pre_out) + (o.commands + d.commands)
                                =~= command_views(out@) + d.commands);
                        } else {
                            assert(command_views(pre_out) + o.commands =~= command_views(out@));
                            assert(command_views(old(out)@) + spec_drain(cv0, now).commands
                                =~= command_views(out@));
                        }
                    }
                    match step {
                        Ok(()) => {},
                        Err(err) => {
                            return Err(err);
                        },
                    }
                },
            }
        }
    }

    /// React to one controller event, then drain everything that became
    /// due: chains of derived events resolve before this returns. The
    /// final state and the commands appended to `out` are exactly the
    /// event's own effect composed with `spec_drain`.
    pub fn handle_event(&mut self, event: ControllerEvent, now: u64, out: &mut Vec<HardwareCommand>) -> (r: Result<(), ControllerError>)
        requires
            old(self).wf(),
            match event {
                ControllerEvent::Scheduled(se) => event_fits(se@),
                ControllerEvent::Hardware(_) => true,
            },
        ensures
            final(self).wf(),
            ({
                let first = (match event {
                    ControllerEvent::Hardware(he) => HandlerOutcome {
                        state: spec_handle_hardware(old(self)@, he@, now),
                        commands: Seq::<CommandView>::empty(),
                        missing_train: false,
                    },
                    ControllerEvent::Scheduled(se) => spec_handle_scheduled(old(self)@, se@),
                });
                if first.missing_train {
                    &&& r is Err
                    &&& final(self)@ == first.state
                    &&& command_views(final(out)@) == command_views(old(out)@) + first.commands
                } else {
                    let d = spec_drain(first.state, now);
                    &&& (r is Ok) == !d.missing_train
                    &&& final(self)@ == d.state
                    &&& command_views(final(out)@) == command_views(old(out)@) + (first.commands
                        + d.commands)
                }
            }),
            r is Ok ==> forall|i: int|
                0 <= i < final(self)@.scheduler.len()
                    ==> (#[trigger] final(self)@.scheduler[i]).0 > now,
    {
        let ghost cv0 = self@;
        let ghost pre_out = out@;
        match &event {
            ControllerEvent::Scheduled(se) => {
                let step = self.handle_scheduled_event(*se, out);
                match step {
                    Ok(()) => {},
                    Err(err) => {
                        return Err(err);
                    },
                }
            },
            ControllerEvent::Hardware(he) => {
                let result = self.handle_hardware_event(he, now);
                proof {
                    assert(command_views(out@) =~= command_views(pre_out) + Seq::<
                        CommandView,
                    >::empty());
                }
            },
        }
        let ghost mid_out = out@;
        let ghost mid = self@;
        let r = self.resolve_pending_events(now, out);
        proof {
            let d = spec_drain(mid, now);
            assert(command_views(out@) =~= command_views(mid_out) + d.commands);
            match event {
                ControllerEvent::Scheduled(se) => {
                    let first = spec_handle_scheduled(cv0, se@);
                    assert(command_views(pre_out) + (first.commands + d.commands)
                        =~= command_views(out@));
                },
                ControllerEvent::Hardware(he) => {
                    assert(command_views(pre_out) + (Seq::<CommandView>::empty() + d.commands)
                        =~= command_views(out@));
                },
            }
        }
        r
    }
}

} // verus!
