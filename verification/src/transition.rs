//! Transitions: the decision record for moving from one section into a
//! specific neighbour, including every switch that must be positioned.
use vstd::prelude::*;
use crate::section::{SectionEnd, SectionId};
use crate::switch::{SwitchId, SwitchState};

verus! {

/// A way out of a section: either directly into a neighbour, or through
/// one or more switches.
#[derive(Debug)]
pub enum SectionTransition {
    Direct {
        section_id: SectionId,
        /// The end of the destination section that the train arrives at.
        section_end: SectionEnd,
    },
    Switch {
        switch_id: SwitchId,
        state: SwitchState,
        to: Box<SectionTransition>,
    },
    SwitchBack {
        switch_id: SwitchId,
        state: SwitchState,
        to: Box<SectionTransition>,
    },
}

/// Mathematical model of a `SectionTransition`.
pub ghost enum TransitionView {
    Direct { section_id: int, section_end: SectionEnd },
    Switch { switch_id: Seq<char>, state: SwitchState, to: Box<TransitionView> },
    SwitchBack { switch_id: Seq<char>, state: SwitchState, to: Box<TransitionView> },
}

impl TransitionView {
    /// The section this transition finally arrives at.
    pub open spec fn destination(self) -> int
        decreases self,
    {
        match self {
            TransitionView::Direct { section_id, .. } => section_id,
            TransitionView::Switch { to, .. } => to.destination(),
            TransitionView::SwitchBack { to, .. } => to.destination(),
        }
    }

    /// The end of the destination section the train arrives at.
    pub open spec fn destination_section_end(self) -> SectionEnd
        decreases self,
    {
        match self {
            TransitionView::Direct { section_end, .. } => section_end,
            TransitionView::Switch { to, .. } => to.destination_section_end(),
            TransitionView::SwitchBack { to, .. } => to.destination_section_end(),
        }
    }

    /// The ordered `(switch, state)` commitments this transition requires,
    /// from the first switch entered to the last.
    pub open spec fn switch_changes(self) -> Seq<(Seq<char>, SwitchState)>
        decreases self,
    {
        match self {
            TransitionView::Direct { .. } => Seq::empty(),
            TransitionView::Switch { switch_id, state, to } => {
                seq![(switch_id, state)] + to.switch_changes()
            },
            TransitionView::SwitchBack { switch_id, state, to } => {
                seq![(switch_id, state)] + to.switch_changes()
            },
        }
    }
}

/// The model of a transition, chain and all.
pub open spec fn transition_view(t: SectionTransition) -> TransitionView
    decreases t,
{
    match t {
        SectionTransition::Direct { section_id, section_end } => {
            TransitionView::Direct { section_id: section_id@, section_end: section_end }
        },
        SectionTransition::Switch { switch_id, state, to } => {
            TransitionView::Switch {
                switch_id: switch_id@,
                state: state,
                to: Box::new(transition_view(*to)),
            }
        },
        SectionTransition::SwitchBack { switch_id, state, to } => {
            TransitionView::SwitchBack {
                switch_id: switch_id@,
                state: state,
                to: Box::new(transition_view(*to)),
            }
        },
    }
}

impl View for SectionTransition {
    type V = TransitionView;

    open spec fn view(&self) -> TransitionView {
        transition_view(*self)
    }
}

impl Clone for SectionTransition {
    /// Cloning keeps the whole transition chain.
    fn clone(&self) -> (r: Self)
        ensures
            r@ == self@,
        decreases *self,
    {
        match self {
            SectionTransition::Direct { section_id, section_end } => {
                SectionTransition::Direct {
                    section_id: *section_id,
                    section_end: *section_end,
                }
            },
            SectionTransition::Switch { switch_id, state, to } => {
                SectionTransition::Switch {
                    switch_id: switch_id.clone(),
                    state: *state,
                    to: Box::new((**to).clone()),
                }
            },
            SectionTransition::SwitchBack { switch_id, state, to } => {
                SectionTransition::SwitchBack {
                    switch_id: switch_id.clone(),
                    state: *state,
                    to: Box::new((**to).clone()),
                }
            },
        }
    }
}

/// The views of a list of `(switch id, state)` pairs.
pub open spec fn switch_change_views(v: Seq<(SwitchId, SwitchState)>) -> Seq<
    (Seq<char>, SwitchState),
> {
    v.map_values(|p: (SwitchId, SwitchState)| (p.0@, p.1))
}

impl SectionTransition {
    /// A transition straight into a neighbouring section.
    pub fn direct(id: SectionId, section_end: SectionEnd) -> (r: SectionTransition)
        ensures
            r@ == (TransitionView::Direct { section_id: id@, section_end: section_end }),
    {
        SectionTransition::Direct { section_id: id, section_end }
    }

    /// A transition through a branch of a switch.
    pub fn switch(switch_id: SwitchId, state: SwitchState, to: SectionTransition) -> (r:
        SectionTransition)
        ensures
            r@ == (TransitionView::Switch {
                switch_id: switch_id@,
                state: state,
                to: Box::new(to@),
            }),
    {
        SectionTransition::Switch { switch_id, state, to: Box::new(to) }
    }

    /// A transition arriving through a branch of a switch from behind.
    pub fn switch_back(switch_id: SwitchId, state: SwitchState, to: SectionTransition) -> (r:
        SectionTransition)
        ensures
            r@ == (TransitionView::SwitchBack {
                switch_id: switch_id@,
                state: state,
                to: Box::new(to@),
            }),
    {
        SectionTransition::SwitchBack { switch_id, state, to: Box::new(to) }
    }

    /// The section this transition finally arrives at.
    pub fn destination(&self) -> (r: SectionId)
        ensures
            r@ == self@.destination(),
        decreases *self,
    {
        match self {
            SectionTransition::Direct { section_id, .. } => *section_id,
            SectionTransition::Switch { to, .. } => to.destination(),
            SectionTransition::SwitchBack { to, .. } => to.destination(),
        }
    }

    /// The end of the destination section the train arrives at.
    pub fn destination_section_end(&self) -> (r: SectionEnd)
        ensures
            r == self@.destination_section_end(),
        decreases *self,
    {
        match self {
            SectionTransition::Direct { section_end, .. } => *section_end,
            SectionTransition::Switch { to, .. } => to.destination_section_end(),
            SectionTransition::SwitchBack { to, .. } => to.destination_section_end(),
        }
    }

    /// The ordered `(switch, state)` commitments the train requires to
    /// follow this transition.
    pub fn required_switch_changes(&self) -> (r: Vec<(SwitchId, SwitchState)>)
        ensures
            switch_change_views(r@) == self@.switch_changes(),
    {
        let mut out: Vec<(SwitchId, SwitchState)> = Vec::new();
        self.push_switch_changes(&mut out);
        proof {
            assert(switch_change_views(out@) =~= self@.switch_changes());
        }
        out
    }

    fn push_switch_changes(&self, out: &mut Vec<(SwitchId, SwitchState)>)
        ensures
            switch_change_views(final(out)@) == switch_change_views(old(out)@)
                + self@.switch_changes(),
        decreases *self,
    {
        match self {
            SectionTransition::Direct { .. } => {
                proof {
                    assert(switch_change_views(out@) =~= switch_change_views(out@)
                        + self@.switch_changes());
                }
            },
            SectionTransition::Switch { switch_id, state, to } => {
                let ghost mid0 = out@;
                out.push((switch_id.clone(), *state));
                let ghost mid1 = out@;
                proof {
                    assert(switch_change_views(mid1) =~= switch_change_views(mid0) + seq![
                        (switch_id@, *state),
                    ]);
                }
                to.push_switch_changes(out);
                proof {
                    assert(switch_change_views(out@) =~= switch_change_views(mid0)
                        + self@.switch_changes());
                }
            },
            SectionTransition::SwitchBack { switch_id, state, to } => {
                let ghost mid0 = out@;
                out.push((switch_id.clone(), *state));
                let ghost mid1 = out@;
                proof {
                    assert(switch_change_views(mid1) =~= switch_change_views(mid0) + seq![
                        (switch_id@, *state),
                    ]);
                }
                to.push_switch_changes(out);
                proof {
                    assert(switch_change_views(out@) =~= switch_change_views(mid0)
                        + self@.switch_changes());
                }
            },
        }
    }
}

} // verus!
