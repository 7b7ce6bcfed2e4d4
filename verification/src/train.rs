//! Trains: identity, the route a train is driving, and the projection of
//! its current and next section off that route.
use vstd::prelude::*;
use crate::direction::Direction;
use crate::route::{direction_after, Route, RouteView};
use crate::section::SectionId;
use crate::transition::{SectionTransition, TransitionView};

verus! {

/// Opaque integer handle of a train.
#[derive(Debug, Default, Copy, Clone, PartialEq, Eq, Structural, Hash)]
pub struct TrainId(usize);

impl View for TrainId {
    type V = int;

    closed spec fn view(&self) -> int {
        self.0 as int
    }
}

impl TrainId {
    /// Wrap a raw index as a train id.
    pub fn new(id: usize) -> (r: TrainId)
        ensures
            r@ == id as int,
    {
        TrainId(id)
    }

    /// The raw index.
    pub fn as_usize(&self) -> (r: usize)
        ensures
            r as int == self@,
    {
        self.0
    }
}

/// Mathematical model of a `TrainDrivingMode`.
pub ghost struct TrainModeView {
    pub route: RouteView,
    pub current_section_direction: Direction,
    pub current_via_idx: int,
}

/// How a train is being driven: along a fixed route, tracking the current
/// via index and the direction within the current section.
#[derive(Debug)]
pub enum TrainDrivingMode {
    Route {
        route: Route,
        current_section_direction: Direction,
        current_via_idx: usize,
    },
}

impl View for TrainDrivingMode {
    type V = TrainModeView;

    open spec fn view(&self) -> TrainModeView {
        match self {
            TrainDrivingMode::Route { route, current_section_direction, current_via_idx } => {
                TrainModeView {
                    route: route@,
                    current_section_direction: *current_section_direction,
                    current_via_idx: *current_via_idx as int,
                }
            },
        }
    }
}

impl TrainModeView {
    /// The via index never runs past the via list, and the route is sound.
    pub open spec fn wf(&self) -> bool {
        &&& self.route.wf()
        &&& 0 <= self.current_via_idx <= self.route.vias.len()
        &&& self.route.vias.len() < usize::MAX
    }

    /// The section the train is currently on.
    pub open spec fn current_section(&self) -> Option<int> {
        self.route.via(self.current_via_idx)
    }

    /// The section the train will enter next.
    pub open spec fn next_section(&self) -> Option<int> {
        self.route.via(self.current_via_idx + 1)
    }

    /// The transition from the current section to the next one, if the
    /// route still has one.
    pub open spec fn transition_to_next(&self) -> Option<TransitionView> {
        if 0 <= self.current_via_idx < self.route.transitions.len() {
            Some(self.route.transitions[self.current_via_idx])
        } else {
            None
        }
    }

    /// The state after the train entered `section`: if the expected next
    /// transition indeed arrives there, the via index advances and the
    /// in-section direction follows the end the train arrived at;
    /// otherwise nothing changes.
    pub open spec fn entered(&self, section: int) -> TrainModeView {
        match self.transition_to_next() {
            Option::None => *self,
            Option::Some(t) => {
                if t.destination() != section {
                    *self
                } else {
                    TrainModeView {
                        route: self.route,
                        current_section_direction: direction_after(t.destination_section_end()),
                        current_via_idx: self.current_via_idx + 1,
                    }
                }
            },
        }
    }
}

impl TrainDrivingMode {
    /// The section the train is currently on.
    pub fn get_current_section(&self) -> (r: Option<SectionId>)
        ensures
            match r {
                Some(id) => self@.current_section() == Some(id@),
                None => self@.current_section() is None,
            },
    {
        match self {
            TrainDrivingMode::Route { route, current_via_idx, .. } => {
                route.via(*current_via_idx)
            },
        }
    }

    /// The section the train will enter next.
    pub fn get_next_section(&self) -> (r: Option<SectionId>)
        requires
            self@.wf(),
        ensures
            match r {
                Some(id) => self@.next_section() == Some(id@),
                None => self@.next_section() is None,
            },
    {
        match self {
            TrainDrivingMode::Route { route, current_via_idx, .. } => {
                route.via(*current_via_idx + 1)
            },
        }
    }
}

/// Every section id a route can steer a train to fits the 32-bit wire id.
pub open spec fn fits_hardware(tm: TrainModeView) -> bool {
    &&& forall|i: int| 0 <= i < tm.route.vias.len() ==> 0 <= #[trigger] tm.route.vias[i]
        <= u32::MAX
    &&& forall|i: int|
        0 <= i < tm.route.transitions.len() ==> 0 <= #[trigger] tm.route.transitions[
            i
        ].destination() <= u32::MAX
}

/// Mathematical model of a `Train`.
pub ghost struct TrainView {
    pub name: Seq<char>,
    pub mode: TrainModeView,
}

/// A train with a name and a driving mode.
#[derive(Debug)]
pub struct Train {
    name: String,
    mode: TrainDrivingMode,
}

impl View for Train {
    type V = TrainView;

    closed spec fn view(&self) -> TrainView {
        TrainView { name: self.name@, mode: self.mode@ }
    }
}

impl Train {
    /// A train that drives the given route from its first via.
    pub fn from_route(name: String, route: Route) -> (r: Train)
        requires
            route@.wf(),
            route@.vias.len() < usize::MAX,
        ensures
            r@.name == name@,
            r@.mode == (TrainModeView {
                route: route@,
                current_section_direction: route@.starting_direction,
                current_via_idx: 0,
            }),
            r@.mode.wf(),
    {
        let current_section_direction = route.starting_direction();
        Train {
            name,
            mode: TrainDrivingMode::Route {
                route,
                current_section_direction,
                current_via_idx: 0,
            },
        }
    }

    /// The name of this train.
    pub fn name(&self) -> (r: &String)
        ensures
            r@ == self@.name,
    {
        &self.name
    }

    /// The section the train is currently on.
    pub fn get_current_section(&self) -> (r: Option<SectionId>)
        ensures
            match r {
                Some(id) => self@.mode.current_section() == Some(id@),
                None => self@.mode.current_section() is None,
            },
    {
        self.mode.get_current_section()
    }

    /// The section the train will enter next.
    pub fn get_next_section(&self) -> (r: Option<SectionId>)
        requires
            self@.mode.wf(),
        ensures
            match r {
                Some(id) => self@.mode.next_section() == Some(id@),
                None => self@.mode.next_section() is None,
            },
    {
        self.mode.get_next_section()
    }

    /// The transition from the current section to the next section.
    pub fn get_transition_to_next_section(&self) -> (r: Option<&SectionTransition>)
        ensures
            match r {
                Some(t) => self@.mode.transition_to_next() == Some(t@),
                None => self@.mode.transition_to_next() is None,
            },
    {
        match &self.mode {
            TrainDrivingMode::Route { route, current_via_idx, .. } => {
                route.transition(*current_via_idx)
            },
        }
    }

    /// Check that this train's route state is sound and that every
    /// section id on it fits the 32-bit wire id: true exactly when both
    /// hold.
    pub fn check_route(&self) -> (r: bool)
        ensures
            r == (self@.mode.wf() && fits_hardware(self@.mode)),
    {
        match &self.mode {
            TrainDrivingMode::Route { route, current_via_idx, .. } => {
                let nv = route.via_count();
                let nt = route.transition_count();
                if nv == usize::MAX {
                    return false;
                }
                if *current_via_idx > nv {
                    return false;
                }
                let expected: usize = if nv == 0 {
                    0
                } else {
                    nv - 1
                };
                if nt != expected {
                    return false;
                }
                let mut i: usize = 0;
                while i < nv
                    invariant
                        route@ == self@.mode.route,
                        nv == self@.mode.route.vias.len(),
                        i <= nv,
                        forall|j: int|
                            0 <= j < i ==> 0 <= #[trigger] self@.mode.route.vias[j] <= u32::MAX,
                    decreases nv - i,
                {
                    if (route.via_at(i).as_usize() as u64) > (u32::MAX as u64) {
                        proof {
                            assert(self@.mode.route.vias[i as int] > u32::MAX);
                        }
                        return false;
                    }
                    i = i + 1;
                }
                let mut k: usize = 0;
                while k < nt
                    invariant
                        route@ == self@.mode.route,
                        nt == self@.mode.route.transitions.len(),
                        k <= nt,
                        forall|j: int|
                            0 <= j < k ==> 0 <= #[trigger] self@.mode.route.transitions[
                                j
                            ].destination() <= u32::MAX,
                    decreases nt - k,
                {
                    let t = match route.transition(k) {
                        Some(t) => t,
                        None => {
                            proof {
                                assert(false);
                            }
                            return false;
                        },
                    };
                    if (t.destination().as_usize() as u64) > (u32::MAX as u64) {
                        proof {
                            assert(self@.mode.route.transitions[k as int].destination()
                                > u32::MAX);
                        }
                        return false;
                    }
                    k = k + 1;
                }
                true
            },
        }
    }

    /// Record that the train entered `section_id`: advance along the route
    /// when the expected transition arrives there, else change nothing.
    pub fn entered_section(&mut self, section_id: SectionId)
        requires
            old(self)@.mode.wf(),
        ensures
            final(self)@.name == old(self)@.name,
            final(self)@.mode == old(self)@.mode.entered(section_id@),
            final(self)@.mode.wf(),
    {
        let transition = match self.get_transition_to_next_section() {
            Some(t) => t,
            None => {
                return;
            },
        };
        let expected_next_section = transition.destination();
        if expected_next_section.as_usize() != section_id.as_usize() {
            return;
        }
        let section_end = transition.destination_section_end();
        match &mut self.mode {
            TrainDrivingMode::Route { current_via_idx, current_section_direction, .. } => {
                *current_via_idx += 1;
                match section_end {
                    crate::section::SectionEnd::End => {
                        *current_section_direction = Direction::Backward;
                    },
                    crate::section::SectionEnd::Start => {
                        *current_section_direction = Direction::Forward;
                    },
                }
            },
        }
    }
}

} // verus!
