//! The firmware side: node mode, the four-relay section power sequencer
//! with break-before-make switching, locally owned sections, and the
//! command dispatcher.
use vstd::prelude::*;
use crate::command::{CommandView, HardwareCommand};
use crate::event::{HardwareEvent, HardwareSectionPower, SectionEvent};

verus! {

/// The id of a slave node on the bus; the master's id is 0 and is not a
/// valid slave id.
#[derive(Debug, Copy, Clone, PartialEq, Eq, Structural)]
pub struct SlaveId(pub u32);

/// The bus id of the master node.
pub const MASTER_ID: u32 = 0;

impl SlaveId {
    /// The raw bus id.
    pub fn as_u32(&self) -> (r: u32)
        ensures
            r == self.0,
    {
        self.0
    }

    /// Wrap a nonzero bus id as a slave id.
    pub fn from_u32(value: u32) -> (r: Option<SlaveId>)
        ensures
            match r {
                Some(s) => value != MASTER_ID && s == SlaveId(value),
                None => value == MASTER_ID,
            },
    {
        if value == MASTER_ID {
            None
        } else {
            Some(SlaveId(value))
        }
    }
}

/// Whether this node is the master or an addressed slave.
#[derive(Debug, Copy, Clone, PartialEq, Eq, Structural)]
pub enum LiketrainMode {
    Master,
    Slave { slave_id: SlaveId },
}

/// The bus id a node answers to.
pub open spec fn mode_slave_id(m: LiketrainMode) -> u32 {
    match m {
        LiketrainMode::Master => MASTER_ID,
        LiketrainMode::Slave { slave_id } => slave_id.0,
    }
}

impl LiketrainMode {
    /// Whether this node is the master.
    pub fn is_master(&self) -> (r: bool)
        ensures
            r == (*self == LiketrainMode::Master),
    {
        match self {
            LiketrainMode::Master => true,
            LiketrainMode::Slave { .. } => false,
        }
    }

    /// The bus id this node answers to.
    pub fn get_slave_id(&self) -> (r: u32)
        ensures
            r == mode_slave_id(*self),
    {
        match self {
            LiketrainMode::Master => MASTER_ID,
            LiketrainMode::Slave { slave_id } => slave_id.as_u32(),
        }
    }
}

/// A command on the master-to-slave bus.
#[derive(Debug)]
pub enum SlaveCommand {
    EventPoll { slave_id: SlaveId },
    Command(HardwareCommand),
}

/// A response on the slave-to-master bus.
#[derive(Debug)]
pub enum SlaveResponse {
    EventCount { count: u32 },
    Event(HardwareEvent),
}

/// Errors of driving a section's hardware.
#[derive(Debug, Copy, Clone, PartialEq, Eq, Structural)]
pub enum SectionError {
    PinError,
}

/// Errors of executing a command on the node.
#[derive(Debug, Copy, Clone, PartialEq, Eq, Structural)]
pub enum CommandExecutionError {
    SectionError(SectionError),
}

/// One step of driving the four power relays of a section. A relay is
/// named by the power level it selects.
#[derive(Debug, Copy, Clone, PartialEq, Eq, Structural)]
pub enum RelayAction {
    /// Open the relay of the given level.
    Open(HardwareSectionPower),
    /// Wait the given number of milliseconds.
    Wait(u32),
    /// Close the relay of the given level.
    Close(HardwareSectionPower),
}

/// The dwell between opening one relay and closing another.
pub const SWITCHING_DELAY_MS: u32 = 10;

/// The relay steps that take a section from one commanded level to
/// another: nothing for the same level; a single close from off; a
/// single open to off; and otherwise break-before-make, with the dwell
/// between the open and the close.
pub open spec fn spec_power_plan(from: HardwareSectionPower, to: HardwareSectionPower) -> Seq<
    RelayAction,
> {
    if from == to {
        Seq::empty()
    } else if from == HardwareSectionPower::Off {
        seq![RelayAction::Close(to)]
    } else if to == HardwareSectionPower::Off {
        seq![RelayAction::Open(from)]
    } else {
        seq![
            RelayAction::Open(from),
            RelayAction::Wait(SWITCHING_DELAY_MS),
            RelayAction::Close(to),
        ]
    }
}

/// Break-before-make: between two live levels, the old relay opens, the
/// dwell passes, and only then the new relay closes — at no step are two
/// relays commanded closed.
pub proof fn lemma_break_before_make(from: HardwareSectionPower, to: HardwareSectionPower)
    requires
        from != HardwareSectionPower::Off,
        to != HardwareSectionPower::Off,
        from != to,
    ensures
        spec_power_plan(from, to) == seq![
            RelayAction::Open(from),
            RelayAction::Wait(SWITCHING_DELAY_MS),
            RelayAction::Close(to),
        ],
{
}

/// The four-relay level selector of one section; `current_power` is the
/// commanded state, not a readback.
#[derive(Debug)]
pub struct SectionPowerRelais {
    current_power: HardwareSectionPower,
}

impl View for SectionPowerRelais {
    type V = HardwareSectionPower;

    closed spec fn view(&self) -> HardwareSectionPower {
        self.current_power
    }
}

impl SectionPowerRelais {
    /// A sequencer with all relays open.
    pub fn new() -> (r: SectionPowerRelais)
        ensures
            r@ == HardwareSectionPower::Off,
    {
        SectionPowerRelais { current_power: HardwareSectionPower::Off }
    }

    /// The commanded power level.
    pub fn current_power(&self) -> (r: HardwareSectionPower)
        ensures
            r == self@,
    {
        self.current_power
    }

    /// Command a new power level; the returned steps drive the relays.
    pub fn set_power(&mut self, power: HardwareSectionPower) -> (plan: Vec<RelayAction>)
        ensures
            final(self)@ == power,
            plan@ == spec_power_plan(old(self)@, power),
    {
        let previous = self.current_power;
        self.current_power = power;
        let mut plan: Vec<RelayAction> = Vec::new();
        if previous == power {
            proof {
                assert(plan@ =~= spec_power_plan(previous, power));
            }
            return plan;
        }
        if !previous.is_off() {
            plan.push(RelayAction::Open(previous));
            if !power.is_off() {
                plan.push(RelayAction::Wait(SWITCHING_DELAY_MS));
            }
        }
        if !power.is_off() {
            plan.push(RelayAction::Close(power));
        }
        proof {
            assert(plan@ =~= spec_power_plan(previous, power));
        }
        plan
    }
}

/// Mathematical model of a firmware `Section`.
pub ghost struct FwSectionView {
    pub id: u32,
    pub power: HardwareSectionPower,
    pub occupied: bool,
}

/// A locally owned section: its id, its power sequencer, and the last
/// detector state.
#[derive(Debug)]
pub struct Section {
    section_id: u32,
    power_relais: SectionPowerRelais,
    is_occupied: bool,
}

impl View for Section {
    type V = FwSectionView;

    closed spec fn view(&self) -> FwSectionView {
        FwSectionView {
            id: self.section_id,
            power: self.power_relais@,
            occupied: self.is_occupied,
        }
    }
}

impl Section {
    /// A section with the given id, initially unoccupied.
    pub fn new(section_id: u32, power_relais: SectionPowerRelais) -> (r: Section)
        ensures
            r@ == (FwSectionView { id: section_id, power: power_relais@, occupied: false }),
    {
        Section { section_id, power_relais, is_occupied: false }
    }

    /// The id of this section.
    pub fn section_id(&self) -> (r: u32)
        ensures
            r == self@.id,
    {
        self.section_id
    }

    /// The last detector state.
    pub fn is_occupied(&self) -> (r: bool)
        ensures
            r == self@.occupied,
    {
        self.is_occupied
    }

    /// The commanded power level.
    pub fn current_power(&self) -> (r: HardwareSectionPower)
        ensures
            r == self@.power,
    {
        self.power_relais.current_power()
    }

    /// Command a new power level; the returned steps drive the relays.
    pub fn set_power(&mut self, power: HardwareSectionPower) -> (plan: Vec<RelayAction>)
        ensures
            final(self)@ == (FwSectionView { power, ..old(self)@ }),
            plan@ == spec_power_plan(old(self)@.power, power),
    {
        self.power_relais.set_power(power)
    }

    /// Power the section off.
    pub fn reset(&mut self) -> (plan: Vec<RelayAction>)
        ensures
            final(self)@ == (FwSectionView { power: HardwareSectionPower::Off, ..old(self)@ }),
            plan@ == spec_power_plan(old(self)@.power, HardwareSectionPower::Off),
    {
        self.set_power(HardwareSectionPower::Off)
    }

    /// Feed the current detector reading: on a change, record it and
    /// push the matching section event.
    pub fn update(&mut self, detected: bool, event_list: &mut Vec<HardwareEvent>)
        ensures
            final(self)@ == (FwSectionView { occupied: detected, ..old(self)@ }),
            final(event_list)@ == (if detected == old(self)@.occupied {
                old(event_list)@
            } else {
                old(event_list)@.push(
                    HardwareEvent::SectionEvent(
                        SectionEvent {
                            section_id: old(self)@.id,
                            event_type: if detected {
                                crate::event::SectionEventType::Occupied
                            } else {
                                crate::event::SectionEventType::Freed
                            },
                        },
                    ),
                )
            }),
    {
        if detected != self.is_occupied {
            self.is_occupied = detected;
            if detected {
                event_list.push(
                    HardwareEvent::SectionEvent(SectionEvent::occupied(self.section_id)),
                );
            } else {
                event_list.push(HardwareEvent::SectionEvent(SectionEvent::freed(self.section_id)));
            }
        }
    }
}

/// The views of the owned sections.
pub open spec fn section_views(s: Seq<Section>) -> Seq<FwSectionView> {
    s.map_values(|sec: Section| sec@)
}

/// The index of the first owned section with the given id.
pub open spec fn first_section_index(s: Seq<FwSectionView>, sid: u32) -> Option<int>
    decreases s.len(),
{
    if s.len() == 0 {
        None
    } else if s[0].id == sid {
        Some(0)
    } else {
        match first_section_index(s.skip(1), sid) {
            Option::Some(i) => Some(i + 1),
            Option::None => None,
        }
    }
}

/// The relay steps of one section, tagged with its id.
pub open spec fn plan_pairs(sid: u32, plan: Seq<RelayAction>) -> Seq<(u32, RelayAction)> {
    plan.map_values(|a: RelayAction| (sid, a))
}

/// The relay steps that power every owned section off, in order.
pub open spec fn spec_reset_plans(s: Seq<FwSectionView>) -> Seq<(u32, RelayAction)>
    decreases s.len(),
{
    if s.len() == 0 {
        Seq::empty()
    } else {
        plan_pairs(s[0].id, spec_power_plan(s[0].power, HardwareSectionPower::Off))
            + spec_reset_plans(s.skip(1))
    }
}

/// A section view with its power commanded off.
pub open spec fn powered_off(v: FwSectionView) -> FwSectionView {
    FwSectionView { power: HardwareSectionPower::Off, ..v }
}

/// What a command executes against: the node's mode, its owned sections,
/// the outbound event buffer, pending debug text, and the relay steps to
/// drive after dispatch.
#[derive(Debug)]
pub struct CommandExecutionContext {
    pub mode: LiketrainMode,
    pub event_list: Vec<HardwareEvent>,
    pub sections: Vec<Section>,
    pub debug_messages: Vec<String>,
    pub relay_plan: Vec<(u32, RelayAction)>,
}

impl CommandExecutionContext {
    /// Queue a debug message for the host.
    pub fn debug(&mut self, message: String)
        ensures
            final(self).mode == old(self).mode,
            final(self).event_list == old(self).event_list,
            final(self).sections == old(self).sections,
            final(self).relay_plan == old(self).relay_plan,
            final(self).debug_messages@ == old(self).debug_messages@.push(message),
    {
        self.debug_messages.push(message);
    }

    /// Append the relay steps of one section.
    fn push_plan(&mut self, sid: u32, plan: Vec<RelayAction>)
        ensures
            final(self).mode == old(self).mode,
            final(self).event_list == old(self).event_list,
            final(self).sections == old(self).sections,
            final(self).debug_messages == old(self).debug_messages,
            final(self).relay_plan@ == old(self).relay_plan@ + plan_pairs(sid, plan@),
    {
        let n = plan.len();
        let mut i: usize = 0;
        let ghost pv = plan@;
        while i < n
            invariant
                n == pv.len(),
                i <= n,
                plan@ == pv,
                self.mode == old(self).mode,
                self.event_list == old(self).event_list,
                self.sections == old(self).sections,
                self.debug_messages == old(self).debug_messages,
                self.relay_plan@ =~= old(self).relay_plan@ + plan_pairs(sid, pv.take(i as int)),
            decreases n - i,
        {
            self.relay_plan.push((sid, plan[i]));
            proof {
                assert(plan_pairs(sid, pv.take(i + 1)) =~= plan_pairs(sid, pv.take(i as int)).push(
                    (sid, pv[i as int]),
                ));
            }
            i = i + 1;
        }
        proof {
            assert(pv.take(n as int) =~= pv);
        }
    }
}

impl HardwareCommand {
    /// Execute a command on this node. Returns `Ok(true)` iff the command
    /// was consumed locally: a ping addressed to this node pushes a pong;
    /// a power command for an owned section drives its sequencer.
    /// `ResetAll` powers every owned section off but still returns
    /// `Ok(false)` so the master forwards it to the slaves; every other
    /// command is left for forwarding.
    pub fn execute(&self, ctx: &mut CommandExecutionContext) -> (r: Result<
        bool,
        CommandExecutionError,
    >)
        ensures
            final(ctx).mode == old(ctx).mode,
            final(ctx).debug_messages == old(ctx).debug_messages,
            ({
                let cmd = self@;
                match cmd {
                    CommandView::Ping { slave_id, seq } => {
                        if slave_id == mode_slave_id(old(ctx).mode) {
                            &&& r == Ok::<bool, CommandExecutionError>(true)
                            &&& final(ctx).event_list@ == old(ctx).event_list@.push(
                                HardwareEvent::Pong { slave_id, seq },
                            )
                            &&& final(ctx).sections == old(ctx).sections
                            &&& final(ctx).relay_plan == old(ctx).relay_plan
                        } else {
                            &&& r == Ok::<bool, CommandExecutionError>(false)
                            &&& final(ctx).event_list == old(ctx).event_list
                            &&& final(ctx).sections == old(ctx).sections
                            &&& final(ctx).relay_plan == old(ctx).relay_plan
                        }
                    },
                    CommandView::ResetAll => {
                        &&& r == Ok::<bool, CommandExecutionError>(false)
                        &&& final(ctx).event_list == old(ctx).event_list
                        &&& section_views(final(ctx).sections@) == section_views(
                            old(ctx).sections@,
                        ).map_values(|v: FwSectionView| powered_off(v))
                        &&& final(ctx).relay_plan@ == old(ctx).relay_plan@ + spec_reset_plans(
                            section_views(old(ctx).sections@),
                        )
                    },
                    CommandView::SetSectionPower { section_id, power } => {
                        match first_section_index(section_views(old(ctx).sections@), section_id) {
                            Option::None => {
                                &&& r == Ok::<bool, CommandExecutionError>(false)
                                &&& final(ctx).event_list == old(ctx).event_list
                                &&& final(ctx).sections == old(ctx).sections
                                &&& final(ctx).relay_plan == old(ctx).relay_plan
                            },
                            Option::Some(i) => {
                                let old_views = section_views(old(ctx).sections@);
                                &&& r == Ok::<bool, CommandExecutionError>(true)
                                &&& final(ctx).event_list == old(ctx).event_list
                                &&& section_views(final(ctx).sections@) == old_views.update(
                                    i,
                                    FwSectionView { power, ..old_views[i] },
                                )
                                &&& final(ctx).relay_plan@ == old(ctx).relay_plan@ + plan_pairs(
                                    section_id,
                                    spec_power_plan(old_views[i].power, power),
                                )
                            },
                        }
                    },
                    CommandView::SetSwitchState { .. } => {
                        &&& r == Ok::<bool, CommandExecutionError>(false)
                        &&& final(ctx).event_list == old(ctx).event_list
                        &&& final(ctx).sections == old(ctx).sections
                        &&& final(ctx).relay_plan == old(ctx).relay_plan
                    },
                }
            }),
    {
        match self {
            HardwareCommand::Ping { slave_id, seq } => {
                if *slave_id == ctx.mode.get_slave_id() {
                    ctx.event_list.push(HardwareEvent::Pong { slave_id: *slave_id, seq: *seq });
                    Ok(true)
                } else {
                    Ok(false)
                }
            },
            HardwareCommand::ResetAll => {
                let n = ctx.sections.len();
                let ghost all = section_views(old(ctx).sections@);
                proof {
                    assert(all.skip(0) =~= all);
                }
                let mut i: usize = 0;
                while i < n
                    invariant
                        n == ctx.sections@.len(),
                        i <= n,
                        all == section_views(old(ctx).sections@),
                        all.len() == n,
                        ctx.mode == old(ctx).mode,
                        ctx.event_list == old(ctx).event_list,
                        ctx.debug_messages == old(ctx).debug_messages,
                        forall|j: int|
                            0 <= j < i ==> #[trigger] ctx.sections@[j]@ == powered_off(all[j]),
                        forall|j: int| i <= j < n ==> #[trigger] ctx.sections@[j]@ == all[j],
                        old(ctx).relay_plan@ + spec_reset_plans(all) =~= ctx.relay_plan@
                            + spec_reset_plans(all.skip(i as int)),
                    decreases n - i,
                {
                    proof {
                        assert(all.skip(i as int)[0] == all[i as int]);
                        assert(all.skip(i as int).skip(1) =~= all.skip(i as int + 1));
                    }
                    let sid = ctx.sections[i].section_id();
                    let entry = &mut ctx.sections[i];
                    let plan = entry.reset();
                    ctx.push_plan(sid, plan);
                    i = i + 1;
                }
                proof {
                    assert(all.skip(n as int) =~= Seq::<FwSectionView>::empty());
                    assert(ctx.relay_plan@ =~= ctx.relay_plan@ + spec_reset_plans(
                        all.skip(n as int),
                    ));
                    assert(section_views(ctx.sections@) =~= all.map_values(
                        |v: FwSectionView| powered_off(v),
                    ));
                }
                Ok(false)
            },
            HardwareCommand::SetSectionPower { section_id, power } => {
                let n = ctx.sections.len();
                let ghost all = section_views(old(ctx).sections@);
                proof {
                    assert(all.skip(0) =~= all);
                }
                let mut i: usize = 0;
                while i < n
                    invariant
                        n == ctx.sections@.len(),
                        i <= n,
                        all == section_views(ctx.sections@),
                        *ctx == *old(ctx),
                        self@ == (CommandView::SetSectionPower {
                            section_id: *section_id,
                            power: *power,
                        }),
                        (match first_section_index(all.skip(i as int), *section_id) {
                            Option::Some(k) => first_section_index(all, *section_id)
                                == Option::Some(k + i),
                            Option::None => first_section_index(all, *section_id) is None,
                        }),
                    decreases n - i,
                {
                    proof {
                        assert(all.skip(i as int)[0] == all[i as int]);
                        assert(all.skip(i as int).skip(1) =~= all.skip(i as int + 1));
                    }
                    if ctx.sections[i].section_id() == *section_id {
                        let entry = &mut ctx.sections[i];
                        let plan = entry.set_power(*power);
                        let sid = *section_id;
                        ctx.push_plan(sid, plan);
                        proof {
                            assert(first_section_index(all, sid) == Some(i as int));
                            assert(section_views(ctx.sections@) =~= all.update(
                                i as int,
                                FwSectionView { power: *power, ..all[i as int] },
                            ));
                        }
                        return Ok(true);
                    }
                    i = i + 1;
                }
                proof {
                    assert(first_section_index(all.skip(n as int), *section_id) is None);
                }
                Ok(false)
            },
            HardwareCommand::SetSwitchState { .. } => Ok(false),
        }
    }
}

} // verus!
