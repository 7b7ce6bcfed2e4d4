//! Human-readable descriptions of switches, transitions and routes,
//! resolved against the graph they belong to.
use vstd::prelude::*;
use crate::direction::Direction;
use crate::route::Route;
use crate::section::SectionEnd;
use crate::switch::{Switch, SwitchState};
use crate::track::{spec_port_section, Track, TrackView, SWITCH_CHAIN_LIMIT};
use crate::transition::{SectionTransition, TransitionView};
use vstd::string::StringExecFns;

verus! {

/// The text of a section end.
pub open spec fn spec_end_text(e: SectionEnd) -> Seq<char> {
    match e {
        SectionEnd::Start => "start"@,
        SectionEnd::End => "end"@,
    }
}

/// The text of a travel direction.
pub open spec fn spec_direction_text(d: Direction) -> Seq<char> {
    match d {
        Direction::Forward => "forward"@,
        Direction::Backward => "backward"@,
    }
}

/// The text of a switch state.
pub open spec fn spec_state_text(s: SwitchState) -> Seq<char> {
    match s {
        SwitchState::Left => "left"@,
        SwitchState::Right => "right"@,
    }
}

/// The name of a section in the graph, or a question mark for an id the
/// graph does not hold.
pub open spec fn spec_section_name_text(tv: TrackView, id: int) -> Seq<char> {
    if tv.sections.contains_key(id) {
        tv.sections[id].name
    } else {
        "?"@
    }
}

/// The description of a switch: its name and the section powering it.
pub open spec fn spec_pretty_switch(tv: TrackView, name: Seq<char>) -> Seq<char> {
    let powered = if tv.switches.contains_key(name) {
        match spec_port_section(tv, tv.switches[name].from, SWITCH_CHAIN_LIMIT as nat) {
            Option::Some(id) => spec_section_name_text(tv, id),
            Option::None => "?"@,
        }
    } else {
        "?"@
    };
    "switch "@ + name + " (powered by section "@ + powered + ")"@
}

/// The description of a transition: each switch taken, and the section
/// finally arrived at.
pub open spec fn spec_pretty_transition(tv: TrackView, t: TransitionView) -> Seq<char>
    decreases t,
{
    match t {
        TransitionView::Direct { section_id, section_end } => {
            "-> section "@ + spec_section_name_text(tv, section_id) + " ("@ + spec_end_text(
                section_end,
            ) + ")"@
        },
        TransitionView::Switch { switch_id, state, to } => {
            "-> "@ + spec_pretty_switch(tv, switch_id) + " to "@ + spec_state_text(state)
                + " branch "@ + spec_pretty_transition(tv, *to)
        },
        TransitionView::SwitchBack { switch_id, state, to } => {
            "-> "@ + spec_pretty_switch(tv, switch_id) + " from "@ + spec_state_text(state)
                + " branch "@ + spec_pretty_transition(tv, *to)
        },
    }
}

/// The descriptions of a list of transitions, one per line.
pub open spec fn spec_pretty_transitions(tv: TrackView, ts: Seq<TransitionView>) -> Seq<char>
    decreases ts.len(),
{
    if ts.len() == 0 {
        Seq::empty()
    } else {
        spec_pretty_transition(tv, ts[0]) + "\n"@ + spec_pretty_transitions(tv, ts.skip(1))
    }
}

/// The description of a route: its first section and direction, then
/// every transition, separated by spaces. A route whose first via is not
/// in the graph has no description.
pub open spec fn spec_pretty_route(tv: TrackView, vias: Seq<int>, dir: Direction, ts: Seq<TransitionView>) -> Seq<char> {
    if vias.len() == 0 || !tv.sections.contains_key(vias[0]) {
        Seq::empty()
    } else {
        "section "@ + tv.sections[vias[0]].name + " (driving "@ + spec_direction_text(dir)
            + ") "@ + spec_pretty_route_tail(tv, ts)
    }
}

/// The transition descriptions of a route, each followed by a space.
pub open spec fn spec_pretty_route_tail(tv: TrackView, ts: Seq<TransitionView>) -> Seq<char>
    decreases ts.len(),
{
    if ts.len() == 0 {
        Seq::empty()
    } else {
        spec_pretty_transition(tv, ts[0]) + " "@ + spec_pretty_route_tail(tv, ts.skip(1))
    }
}

/// The text of a section end.
fn end_text(e: SectionEnd) -> (r: &'static str)
    ensures
        r@ == spec_end_text(e),
{
    match e {
        SectionEnd::Start => "start",
        SectionEnd::End => "end",
    }
}

/// The text of a travel direction.
fn direction_text(d: Direction) -> (r: &'static str)
    ensures
        r@ == spec_direction_text(d),
{
    match d {
        Direction::Forward => "forward",
        Direction::Backward => "backward",
    }
}

/// The text of a switch state.
fn state_text(s: SwitchState) -> (r: &'static str)
    ensures
        r@ == spec_state_text(s),
{
    match s {
        SwitchState::Left => "left",
        SwitchState::Right => "right",
    }
}

/// The name of a section, or a question mark.
fn section_name_text(track: &Track, id: &crate::section::SectionId) -> (r: String)
    requires
        track.wf(),
    ensures
        r@ == spec_section_name_text(track@, id@),
{
    match track.section(id) {
        Some(sec) => sec.name().clone(),
        None => {
            let q: String = "?".to_owned();
            q
        },
    }
}

impl Switch {
    /// Describe this switch: its name and the section powering it.
    pub fn pretty_print(&self, track: &Track) -> (r: String)
        requires
            track.wf(),
        ensures
            r@ == spec_pretty_switch(track@, self@.name),
    {
        pretty_switch_by_name(track, self)
    }
}

/// The description of a switch by its stored name.
fn pretty_switch_by_name(track: &Track, switch: &Switch) -> (r: String)
    requires
        track.wf(),
    ensures
        r@ == spec_pretty_switch(track@, switch@.name),
{
    let powered: String = {
        let id = crate::switch::SwitchId::from_name(switch.name().clone());
        match track.switch(&id) {
            Some(found) => {
                match track.port_section(found.from(), crate::track::SWITCH_CHAIN_LIMIT) {
                    Some(sec_id) => section_name_text(track, &sec_id),
                    None => "?".to_owned(),
                }
            },
            None => "?".to_owned(),
        }
    };
    let mut out: String = "switch ".to_owned();
    out.append(switch.name().as_str());
    out.append(" (powered by section ");
    out.append(powered.as_str());
    out.append(")");
    proof {
        assert(out@ =~= spec_pretty_switch(track@, switch@.name));
    }
    out
}

impl SectionTransition {
    /// Describe this transition: each switch taken, and the section
    /// finally arrived at.
    pub fn pretty_print(&self, track: &Track) -> (r: String)
        requires
            track.wf(),
        ensures
            r@ == spec_pretty_transition(track@, self@),
        decreases *self,
    {
        match self {
            SectionTransition::Direct { section_id, section_end } => {
                let mut out: String = "-> section ".to_owned();
                let name = section_name_text(track, section_id);
                out.append(name.as_str());
                out.append(" (");
                out.append(end_text(*section_end));
                out.append(")");
                proof {
                    assert(out@ =~= spec_pretty_transition(track@, self@));
                }
                out
            },
            SectionTransition::Switch { switch_id, state, to } => {
                let mut out: String = "-> ".to_owned();
                let sw_text = pretty_switch_text(track, switch_id);
                out.append(sw_text.as_str());
                out.append(" to ");
                out.append(state_text(*state));
                out.append(" branch ");
                let inner = to.pretty_print(track);
                out.append(inner.as_str());
                proof {
                    assert(out@ =~= spec_pretty_transition(track@, self@));
                }
                out
            },
            SectionTransition::SwitchBack { switch_id, state, to } => {
                let mut out: String = "-> ".to_owned();
                let sw_text = pretty_switch_text(track, switch_id);
                out.append(sw_text.as_str());
                out.append(" from ");
                out.append(state_text(*state));
                out.append(" branch ");
                let inner = to.pretty_print(track);
                out.append(inner.as_str());
                proof {
                    assert(out@ =~= spec_pretty_transition(track@, self@));
                }
                out
            },
        }
    }

    /// Describe a list of transitions, one per line.
    pub fn pretty_print_iter(transitions: &Vec<SectionTransition>, track: &Track) -> (r: String)
        requires
            track.wf(),
        ensures
            r@ == spec_pretty_transitions(
                track@,
                crate::track::transition_views(transitions@),
            ),
    {
        let ghost views = crate::track::transition_views(transitions@);
        proof {
            assert(views.skip(0) =~= views);
        }
        let mut out: String = String::new();
        let n = transitions.len();
        let mut i: usize = 0;
        while i < n
            invariant
                track.wf(),
                n == transitions@.len(),
                i <= n,
                views == crate::track::transition_views(transitions@),
                spec_pretty_transitions(track@, views) =~= out@ + spec_pretty_transitions(
                    track@,
                    views.skip(i as int),
                ),
            decreases n - i,
        {
            proof {
                assert(views.skip(i as int)[0] == views[i as int]);
                assert(views.skip(i as int).skip(1) =~= views.skip(i as int + 1));
            }
            let line = transitions[i].pretty_print(track);
            out.append(line.as_str());
            out.append("\n");
            i = i + 1;
        }
        proof {
            assert(views.skip(n as int) =~= Seq::<TransitionView>::empty());
            assert(out@ =~= out@ + spec_pretty_transitions(track@, views.skip(n as int)));
        }
        out
    }
}

/// The description of the switch with the given id.
fn pretty_switch_text(track: &Track, switch_id: &crate::switch::SwitchId) -> (r: String)
    requires
        track.wf(),
    ensures
        r@ == spec_pretty_switch(track@, switch_id@),
{
    let powered: String = match track.switch(switch_id) {
        Some(found) => {
            match track.port_section(found.from(), crate::track::SWITCH_CHAIN_LIMIT) {
                Some(sec_id) => section_name_text(track, &sec_id),
                None => "?".to_owned(),
            }
        },
        None => "?".to_owned(),
    };
    let mut out: String = "switch ".to_owned();
    out.append(switch_id.name().as_str());
    out.append(" (powered by section ");
    out.append(powered.as_str());
    out.append(")");
    proof {
        assert(out@ =~= spec_pretty_switch(track@, switch_id@));
    }
    out
}

impl Route {
    /// Describe this route: its first section and direction, then every
    /// transition, separated by spaces.
    pub fn pretty_print(&self, track: &Track) -> (r: String)
        requires
            track.wf(),
        ensures
            r@ == spec_pretty_route(
                track@,
                self@.vias,
                self@.starting_direction,
                self@.transitions,
            ),
    {
        if self.via_count() == 0 {
            return String::new();
        }
        let first = self.via_at(0);
        let sec = match track.section(&first) {
            Some(sec) => sec,
            None => {
                return String::new();
            },
        };
        let mut out: String = "section ".to_owned();
        out.append(sec.name().as_str());
        out.append(" (driving ");
        out.append(direction_text(self.starting_direction()));
        out.append(") ");
        let ghost views = self@.transitions;
        let ghost head = out@;
        proof {
            assert(views.skip(0) =~= views);
        }
        let n = self.transition_count();
        let mut i: usize = 0;
        while i < n
            invariant
                track.wf(),
                n == views.len(),
                views == self@.transitions,
                i <= n,
                head + spec_pretty_route_tail(track@, views) =~= out@ + spec_pretty_route_tail(
                    track@,
                    views.skip(i as int),
                ),
            decreases n - i,
        {
            proof {
                assert(views.skip(i as int)[0] == views[i as int]);
                assert(views.skip(i as int).skip(1) =~= views.skip(i as int + 1));
            }
            let t = match self.transition(i) {
                Some(t) => t,
                None => {
                    proof {
                        assert(false);
                    }
                    return String::new();
                },
            };
            let line = t.pretty_print(track);
            out.append(line.as_str());
            out.append(" ");
            i = i + 1;
        }
        proof {
            assert(views.skip(n as int) =~= Seq::<TransitionView>::empty());
            assert(out@ =~= head + spec_pretty_route_tail(track@, views));
            assert(out@ =~= spec_pretty_route(
                track@,
                self@.vias,
                self@.starting_direction,
                self@.transitions,
            ));
        }
        out
    }
}

} // verus!
