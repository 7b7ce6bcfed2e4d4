//! Routes: an ordered list of section visits together with the concrete
//! transition chain that realizes each hop, built against a track graph.
use vstd::prelude::*;
use crate::direction::Direction;
use crate::section::{SectionEnd, SectionId};
use crate::track::{spec_transitions_to, Track, TrackView, transition_views};
use crate::transition::{SectionTransition, TransitionView};

verus! {

/// Mathematical model of a `Route`.
pub ghost struct RouteView {
    pub vias: Seq<int>,
    pub starting_direction: Direction,
    pub transitions: Seq<TransitionView>,
}

/// The views of a list of section ids.
pub open spec fn via_views(v: Seq<SectionId>) -> Seq<int> {
    v.map_values(|id: SectionId| id@)
}

/// The direction a train drives after arriving at the given end of a
/// section: arriving at the start means driving forward.
pub open spec fn direction_after(end: SectionEnd) -> Direction {
    match end {
        SectionEnd::Start => Direction::Forward,
        SectionEnd::End => Direction::Backward,
    }
}

/// Walking the via list from index `i` with the running direction `dir`:
/// for each adjacent pair the last candidate transition is chosen, and the
/// running direction follows the end the train arrives at. `None` when
/// some hop has no candidate or the graph query fails.
pub open spec fn spec_walk(tv: TrackView, vias: Seq<int>, i: int, dir: Direction) -> Option<
    Seq<TransitionView>,
>
    decreases vias.len() - i,
{
    if i + 1 >= vias.len() {
        Some(Seq::empty())
    } else {
        match spec_transitions_to(tv, vias[i], dir, vias[i + 1]) {
            Err(_) => None,
            Ok(cands) => {
                if cands.len() == 0 {
                    None
                } else {
                    let t = cands.last();
                    let ndir = direction_after(t.destination_section_end());
                    match spec_walk(tv, vias, i + 1, ndir) {
                        Option::None => None,
                        Option::Some(rest) => Some(seq![t] + rest),
                    }
                }
            },
        }
    }
}

/// Whether a via list over a track can be walked into a route.
pub open spec fn spec_route_ok(tv: TrackView, vias: Seq<int>, dir: Direction) -> bool {
    spec_walk(tv, vias, 0, dir) is Some
}

/// An ordered list of section visits plus a concrete transition chain.
#[derive(Debug)]
pub struct Route {
    vias: Vec<SectionId>,
    starting_direction: Direction,
    transitions: Vec<SectionTransition>,
}

impl View for Route {
    type V = RouteView;

    closed spec fn view(&self) -> RouteView {
        RouteView {
            vias: via_views(self.vias@),
            starting_direction: self.starting_direction,
            transitions: transition_views(self.transitions@),
        }
    }
}

impl RouteView {
    /// A route is closed when its first and last via are the same section.
    pub open spec fn is_closed(&self) -> bool {
        self.vias.len() > 1 && self.vias.first() == self.vias.last()
    }

    /// The via at an index; closed routes wrap around, skipping the
    /// duplicated last via.
    pub open spec fn via(&self, idx: int) -> Option<int> {
        let i = if self.is_closed() {
            idx % (self.vias.len() - 1)
        } else {
            idx
        };
        if 0 <= i < self.vias.len() {
            Some(self.vias[i])
        } else {
            None
        }
    }

    /// There is one transition for each adjacent pair of vias.
    pub open spec fn wf(&self) -> bool {
        self.transitions.len() == if self.vias.len() == 0 {
            0int
        } else {
            self.vias.len() - 1
        }
    }
}

impl Route {
    /// Build a route over `track` by walking each adjacent pair of vias,
    /// always picking the last candidate transition in expansion order.
    /// `None` when some pair cannot be connected.
    pub fn new(vias: Vec<SectionId>, starting_direction: Direction, track: &Track) -> (r: Option<
        Route,
    >)
        requires
            track.wf(),
        ensures
            match r {
                Some(route) => spec_route_ok(track@, via_views(vias@), starting_direction)
                    && route@ == (RouteView {
                    vias: via_views(vias@),
                    starting_direction,
                    transitions: spec_walk(track@, via_views(vias@), 0, starting_direction)->Some_0,
                }) && route@.wf(),
                None => !spec_route_ok(track@, via_views(vias@), starting_direction),
            },
    {
        let transitions = match Self::build_transitions(&vias, starting_direction, track) {
            Some(t) => t,
            None => {
                return None;
            },
        };
        Some(Route { vias, starting_direction, transitions })
    }

    fn build_transitions(vias: &Vec<SectionId>, starting_direction: Direction, track: &Track) -> (r:
        Option<Vec<SectionTransition>>)
        requires
            track.wf(),
        ensures
            match r {
                Some(ts) => spec_walk(track@, via_views(vias@), 0, starting_direction) == Some(
                    transition_views(ts@),
                ) && ts@.len() == if vias@.len() == 0 {
                    0int
                } else {
                    vias@.len() - 1
                },
                None => spec_walk(track@, via_views(vias@), 0, starting_direction) is None,
            },
    {
        let ghost tv = track@;
        let ghost viasv = via_views(vias@);
        let n = vias.len();
        let mut out: Vec<SectionTransition> = Vec::new();
        let mut dir = starting_direction;
        if n == 0 {
            return Some(out);
        }
        let mut i: usize = 0;
        while i < n - 1
            invariant
                track.wf(),
                tv == track@,
                viasv == via_views(vias@),
                n == vias@.len(),
                1 <= n <= usize::MAX,
                i < n,
                out@.len() == i,
                spec_walk(tv, viasv, 0, starting_direction) == (match spec_walk(
                    tv,
                    viasv,
                    i as int,
                    dir,
                ) {
                    Option::None => Option::<Seq<TransitionView>>::None,
                    Option::Some(rest) => Option::Some(transition_views(out@) + rest),
                }),
            decreases n - i,
        {
            let cands = match track.transitions_to(vias[i], dir, vias[i + 1]) {
                Ok(c) => c,
                Err(_) => {
                    return None;
                },
            };
            let mut cands = cands;
            let t = match cands.pop() {
                Some(t) => t,
                None => {
                    // no way from the current section to the next one
                    return None;
                },
            };
            let ghost pre_out = transition_views(out@);
            let ghost tview = t@;
            let section_end = t.destination_section_end();
            let ndir = match section_end {
                SectionEnd::End => Direction::Backward,
                SectionEnd::Start => Direction::Forward,
            };
            out.push(t);
            proof {
                let cands_all = spec_transitions_to(
                    tv,
                    viasv[i as int],
                    dir,
                    viasv[i as int + 1],
                )->Ok_0;
                assert(cands_all[cands_all.len() - 1] == tview);
                assert(transition_views(out@) =~= pre_out + seq![tview]);
                if spec_walk(tv, viasv, i as int + 1, ndir) is Some {
                    let rest = spec_walk(tv, viasv, i as int + 1, ndir)->Some_0;
                    assert((pre_out + (seq![tview] + rest)) =~= (transition_views(out@) + rest));
                }
            }
            dir = ndir;
            i = i + 1;
        }
        proof {
            assert(spec_walk(tv, viasv, i as int, dir) == Some(Seq::<TransitionView>::empty()));
            assert(transition_views(out@) + Seq::<TransitionView>::empty() =~= transition_views(
                out@,
            ));
        }
        Some(out)
    }

    /// The direction the route starts in.
    pub fn starting_direction(&self) -> (r: Direction)
        ensures
            r == self@.starting_direction,
    {
        self.starting_direction
    }

    /// Whether the route returns to its first section.
    pub fn is_closed(&self) -> (r: bool)
        ensures
            r == self@.is_closed(),
    {
        if self.vias.len() > 1 {
            let first = self.vias[0];
            let last = self.vias[self.vias.len() - 1];
            first.as_usize() == last.as_usize()
        } else {
            false
        }
    }

    /// The transition for the hop at `idx`, if the route has that many hops.
    pub fn transition(&self, idx: usize) -> (r: Option<&SectionTransition>)
        ensures
            match r {
                Some(t) => idx < self@.transitions.len() && t@ == self@.transitions[idx as int],
                None => idx >= self@.transitions.len(),
            },
    {
        if idx < self.transitions.len() {
            Some(&self.transitions[idx])
        } else {
            None
        }
    }

    /// The number of transitions of the route.
    pub fn transition_count(&self) -> (r: usize)
        ensures
            r == self@.transitions.len(),
    {
        self.transitions.len()
    }

    /// The via at a raw index, without the closed-route wrap-around.
    pub fn via_at(&self, i: usize) -> (r: SectionId)
        requires
            i < self@.vias.len(),
        ensures
            r@ == self@.vias[i as int],
    {
        self.vias[i]
    }

    /// The number of vias of the route.
    pub fn via_count(&self) -> (r: usize)
        ensures
            r == self@.vias.len(),
    {
        self.vias.len()
    }

    /// The via at `idx`; on a closed route the index wraps around,
    /// skipping the duplicated final via.
    pub fn via(&self, idx: usize) -> (r: Option<SectionId>)
        ensures
            match r {
                Some(id) => self@.via(idx as int) == Some(id@),
                None => self@.via(idx as int) is None,
            },
    {
        let mut i = idx;
        if self.is_closed() {
            i = i % (self.vias.len() - 1);
        }
        if i < self.vias.len() {
            Some(self.vias[i])
        } else {
            None
        }
    }
}

} // verus!
