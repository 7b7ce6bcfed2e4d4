//! A simulated train for exercising the firmware without hardware: it
//! rides its route on a timer and injects the detector events a real
//! train would cause.
use vstd::prelude::*;
use crate::event::{HardwareEvent, HardwareSectionPower, SectionEvent};
use crate::firmware::{first_section_index, section_views, CommandExecutionContext, FwSectionView, Section};

verus! {

/// One stop of a simulated route: the section and the time a train
/// spends on it, in milliseconds.
#[derive(Debug, Copy, Clone, PartialEq, Eq, Structural)]
pub struct SimTrainRouteVia {
    pub section_id: u32,
    pub time: u32,
}

/// Where a simulated train is on its route and for how long it has
/// been there.
#[derive(Debug, Copy, Clone, PartialEq, Eq, Structural)]
pub struct SimTrainCurrent {
    pub route_idx: usize,
    pub time_progress: u32,
}

impl SimTrainCurrent {
    /// At the start of the given stop.
    pub fn new(route_idx: usize) -> (r: SimTrainCurrent)
        ensures
            r == (SimTrainCurrent { route_idx, time_progress: 0 }),
    {
        SimTrainCurrent { route_idx, time_progress: 0 }
    }
}

/// Mathematical model of a `SimTrain`.
pub ghost struct SimTrainView {
    pub route: Seq<SimTrainRouteVia>,
    pub current: Option<SimTrainCurrent>,
    pub last_update: Option<u32>,
}

impl SimTrainView {
    /// A riding train is always at a stop of its route.
    pub open spec fn wf(&self) -> bool {
        match self.current {
            Option::Some(cur) => cur.route_idx < self.route.len(),
            Option::None => true,
        }
    }
}

/// Whether a simulated route returns to its first section.
pub open spec fn spec_sim_closed(route: Seq<SimTrainRouteVia>) -> bool {
    route.len() > 0 && route.first().section_id == route.last().section_id
}

/// Advance to the next stop: a closed route wraps around before its
/// duplicated last stop; an open route ends.
pub open spec fn spec_sim_next(v: SimTrainView) -> (SimTrainView, Option<int>) {
    match v.current {
        Option::None => (v, None),
        Option::Some(cur) => {
            if spec_sim_closed(v.route) && cur.route_idx + 2 >= v.route.len() {
                (
                    SimTrainView {
                        current: Some(SimTrainCurrent { route_idx: 0, time_progress: 0 }),
                        ..v
                    },
                    Some(0),
                )
            } else if cur.route_idx + 1 >= v.route.len() {
                (SimTrainView { current: Option::<SimTrainCurrent>::None, ..v }, None)
            } else {
                (
                    SimTrainView {
                        current: Some(
                            SimTrainCurrent {
                                route_idx: (cur.route_idx + 1) as usize,
                                time_progress: 0,
                            },
                        ),
                        ..v
                    },
                    Some(cur.route_idx + 1),
                )
            }
        },
    }
}

/// The elapsed milliseconds between two timer readings, wrapping.
pub open spec fn spec_elapsed(now: u32, last: u32) -> u32 {
    if now >= last {
        (now - last) as u32
    } else {
        ((now + 0x100000000) - last) as u32
    }
}

/// A progress counter that saturates instead of overflowing.
pub open spec fn spec_progress_add(progress: u32, diff: u32) -> u32 {
    if diff > u32::MAX - progress {
        u32::MAX
    } else {
        (progress + diff) as u32
    }
}

/// One simulator step at timer reading `millis` against the owned
/// sections: an idle or unpowered train does nothing; a powered train
/// accumulates time on its stop and, once the stop's time is up, moves
/// on, freeing its old section and occupying the new one.
pub open spec fn spec_sim_update(
    v: SimTrainView,
    sections: Seq<FwSectionView>,
    millis: u32,
) -> (SimTrainView, Seq<HardwareEvent>) {
    match v.current {
        Option::None => (v, Seq::empty()),
        Option::Some(cur) => {
            let cs = v.route[cur.route_idx as int];
            match first_section_index(sections, cs.section_id) {
                Option::None => (v, Seq::empty()),
                Option::Some(si) => {
                    if sections[si].power == HardwareSectionPower::Off {
                        (v, Seq::empty())
                    } else {
                        let last = match v.last_update {
                            Option::Some(l) => l,
                            Option::None => millis,
                        };
                        let diff = spec_elapsed(millis, last);
                        let progress = spec_progress_add(cur.time_progress, diff);
                        let v1 = SimTrainView {
                            last_update: Some(millis),
                            current: Some(
                                SimTrainCurrent { route_idx: cur.route_idx, time_progress: progress },
                            ),
                            ..v
                        };
                        if progress < cs.time {
                            (v1, Seq::empty())
                        } else {
                            let (v2, nxt) = spec_sim_next(v1);
                            match nxt {
                                Option::None => (v2, Seq::empty()),
                                Option::Some(ni) => (
                                    v2,
                                    seq![
                                        HardwareEvent::SectionEvent(
                                            SectionEvent {
                                                section_id: cs.section_id,
                                                event_type: crate::event::SectionEventType::Freed,
                                            },
                                        ),
                                        HardwareEvent::SectionEvent(
                                            SectionEvent {
                                                section_id: v.route[ni].section_id,
                                                event_type:
                                                    crate::event::SectionEventType::Occupied,
                                            },
                                        ),
                                    ],
                                ),
                            }
                        }
                    }
                },
            }
        },
    }
}

/// A simulated train riding a fixed route.
#[derive(Debug)]
pub struct SimTrain {
    route: Vec<SimTrainRouteVia>,
    current: Option<SimTrainCurrent>,
    last_update: Option<u32>,
}

impl View for SimTrain {
    type V = SimTrainView;

    closed spec fn view(&self) -> SimTrainView {
        SimTrainView {
            route: self.route@,
            current: self.current,
            last_update: self.last_update,
        }
    }
}

impl SimTrain {
    /// A train at the first stop of its route; an empty route never rides.
    pub fn new(route: Vec<SimTrainRouteVia>) -> (r: SimTrain)
        ensures
            r@.route == route@,
            r@.current == (if route@.len() > 0 {
                Some(SimTrainCurrent { route_idx: 0, time_progress: 0 })
            } else {
                Option::<SimTrainCurrent>::None
            }),
            r@.last_update is None,
            r@.wf(),
    {
        let current = if route.len() > 0 {
            Some(SimTrainCurrent::new(0))
        } else {
            None
        };
        SimTrain { route, current, last_update: None }
    }

    fn is_route_closed(&self) -> (r: bool)
        ensures
            r == spec_sim_closed(self@.route),
    {
        if self.route.len() == 0 {
            return false;
        }
        let first = self.route[0].section_id;
        let last = self.route[self.route.len() - 1].section_id;
        first == last
    }

    fn next_section(&mut self) -> (r: Option<usize>)
        requires
            old(self)@.wf(),
        ensures
            final(self)@.wf(),
            ({
                let (v2, nxt) = spec_sim_next(old(self)@);
                final(self)@ == v2 && (match r {
                    Option::Some(i) => nxt == Some(i as int),
                    Option::None => nxt is None,
                })
            }),
    {
        let is_closed = self.is_route_closed();
        let cur = match self.current {
            Some(cur) => cur,
            None => {
                return None;
            },
        };
        let len = self.route.len();
        if is_closed && len >= 2 && cur.route_idx >= len - 2 {
            self.current = Some(SimTrainCurrent::new(0));
            return Some(0);
        }
        if is_closed && len < 2 {
            // a one-stop closed route wraps in place
            self.current = Some(SimTrainCurrent::new(0));
            return Some(0);
        }
        if cur.route_idx >= len - 1 {
            self.current = None;
            None
        } else {
            self.current = Some(SimTrainCurrent::new(cur.route_idx + 1));
            Some(cur.route_idx + 1)
        }
    }

    /// The commanded power of the first owned section with the given id.
    fn find_section_power(sections: &Vec<Section>, sid: u32) -> (r: Option<HardwareSectionPower>)
        ensures
            match r {
                Some(p) => (match first_section_index(section_views(sections@), sid) {
                    Option::Some(i) => section_views(sections@)[i].power == p,
                    Option::None => false,
                }),
                None => first_section_index(section_views(sections@), sid) is None,
            },
    {
        let ghost all = section_views(sections@);
        proof {
            assert(all.skip(0) =~= all);
        }
        let n = sections.len();
        let mut i: usize = 0;
        while i < n
            invariant
                n == sections@.len(),
                i <= n,
                all == section_views(sections@),
                (match first_section_index(all.skip(i as int), sid) {
                    Option::Some(k) => first_section_index(all, sid) == Option::Some(k + i),
                    Option::None => first_section_index(all, sid) is None,
                }),
            decreases n - i,
        {
            proof {
                assert(all.skip(i as int)[0] == all[i as int]);
                assert(all.skip(i as int).skip(1) =~= all.skip(i as int + 1));
            }
            if sections[i].section_id() == sid {
                return Some(sections[i].current_power());
            }
            i = i + 1;
        }
        proof {
            assert(first_section_index(all.skip(n as int), sid) is None);
        }
        None
    }

    /// One simulator step at timer reading `millis`.
    pub fn update(&mut self, ctx: &mut CommandExecutionContext, millis: u32)
        requires
            old(self)@.wf(),
        ensures
            final(self)@.wf(),
            final(ctx).mode == old(ctx).mode,
            final(ctx).sections == old(ctx).sections,
            final(ctx).debug_messages == old(ctx).debug_messages,
            final(ctx).relay_plan == old(ctx).relay_plan,
            ({
                let (v2, evs) = spec_sim_update(
                    old(self)@,
                    section_views(old(ctx).sections@),
                    millis,
                );
                final(self)@ == v2 && final(ctx).event_list@ == old(ctx).event_list@ + evs
            }),
    {
        let cur = match self.current {
            Some(cur) => cur,
            None => {
                proof {
                    assert(old(ctx).event_list@ + Seq::<HardwareEvent>::empty() =~= old(
                        ctx,
                    ).event_list@);
                }
                return;
            },
        };
        let current_section_id = self.route[cur.route_idx].section_id;
        let current_section_time = self.route[cur.route_idx].time;
        let power = match Self::find_section_power(&ctx.sections, current_section_id) {
            Some(p) => p,
            None => {
                proof {
                    assert(old(ctx).event_list@ + Seq::<HardwareEvent>::empty() =~= old(
                        ctx,
                    ).event_list@);
                }
                return;
            },
        };
        if power.is_off() {
            proof {
                assert(old(ctx).event_list@ + Seq::<HardwareEvent>::empty() =~= old(
                    ctx,
                ).event_list@);
            }
            return;
        }
        let last = match self.last_update {
            Some(l) => l,
            None => millis,
        };
        let diff = if millis >= last {
            millis - last
        } else {
            (0xFFFFFFFFu32 - last) + millis + 1
        };
        proof {
            assert(diff == spec_elapsed(millis, last));
        }
        self.last_update = Some(millis);
        let progress = if diff > 0xFFFFFFFFu32 - cur.time_progress {
            0xFFFFFFFFu32
        } else {
            cur.time_progress + diff
        };
        self.current = Some(SimTrainCurrent { route_idx: cur.route_idx, time_progress: progress });
        if progress < current_section_time {
            proof {
                assert(old(ctx).event_list@ + Seq::<HardwareEvent>::empty() =~= old(
                    ctx,
                ).event_list@);
            }
            return;
        }
        let next = self.next_section();
        match next {
            None => {
                proof {
                    assert(old(ctx).event_list@ + Seq::<HardwareEvent>::empty() =~= old(
                        ctx,
                    ).event_list@);
                }
            },
            Some(new_route_idx) => {
                let new_section = self.route[new_route_idx].section_id;
                ctx.event_list.push(
                    HardwareEvent::SectionEvent(SectionEvent::freed(current_section_id)),
                );
                ctx.event_list.push(
                    HardwareEvent::SectionEvent(SectionEvent::occupied(new_section)),
                );
                proof {
                    assert(ctx.event_list@ =~= old(ctx).event_list@ + seq![
                        HardwareEvent::SectionEvent(
                            SectionEvent {
                                section_id: current_section_id,
                                event_type: crate::event::SectionEventType::Freed,
                            },
                        ),
                        HardwareEvent::SectionEvent(
                            SectionEvent {
                                section_id: new_section,
                                event_type: crate::event::SectionEventType::Occupied,
                            },
                        ),
                    ]);
                }
            },
        }
    }
}

} // verus!
