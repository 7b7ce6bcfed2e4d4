//! Firmware tests: the command dispatcher, the power sequencer's
//! break-before-make discipline, and detection updates.
use liketrain::command::HardwareCommand;
use liketrain::event::{HardwareEvent, HardwareSectionPower, SectionEventType};
use liketrain::firmware::{
    CommandExecutionContext, LiketrainMode, RelayAction, Section, SectionPowerRelais, SlaveId,
    SWITCHING_DELAY_MS,
};

fn master_ctx(section_ids: &[u32]) -> CommandExecutionContext {
    let mut sections = Vec::new();
    for &id in section_ids {
        sections.push(Section::new(id, SectionPowerRelais::new()));
    }
    CommandExecutionContext {
        mode: LiketrainMode::Master,
        event_list: Vec::new(),
        sections,
        debug_messages: Vec::new(),
        relay_plan: Vec::new(),
    }
}

#[test]
fn single_section_power() {
    // SetSectionPower{24, Full} is consumed locally; the section ends at
    // Full with exactly the full-level relay closed.
    let mut ctx = master_ctx(&[21, 22, 24]);
    let cmd = HardwareCommand::SetSectionPower { section_id: 24, power: HardwareSectionPower::Full };
    let handled = cmd.execute(&mut ctx).unwrap();
    assert!(handled);
    assert_eq!(ctx.sections[2].current_power(), HardwareSectionPower::Full);
    assert_eq!(
        ctx.relay_plan,
        vec![(24, RelayAction::Close(HardwareSectionPower::Full))]
    );
    assert!(ctx.event_list.is_empty());
}

#[test]
fn break_before_make() {
    // From Half to ThreeQuarters: open the old relay, dwell, close the
    // new one; at no step are two relays commanded closed.
    let mut relais = SectionPowerRelais::new();
    let plan = relais.set_power(HardwareSectionPower::Half);
    assert_eq!(plan, vec![RelayAction::Close(HardwareSectionPower::Half)]);
    let plan = relais.set_power(HardwareSectionPower::ThreeQuarters);
    assert_eq!(
        plan,
        vec![
            RelayAction::Open(HardwareSectionPower::Half),
            RelayAction::Wait(SWITCHING_DELAY_MS),
            RelayAction::Close(HardwareSectionPower::ThreeQuarters),
        ]
    );
    assert_eq!(relais.current_power(), HardwareSectionPower::ThreeQuarters);
    // back to off: a single open, no dwell
    let plan = relais.set_power(HardwareSectionPower::Off);
    assert_eq!(plan, vec![RelayAction::Open(HardwareSectionPower::ThreeQuarters)]);
    // no change, no steps
    let plan = relais.set_power(HardwareSectionPower::Off);
    assert!(plan.is_empty());
}

#[test]
fn ping_answers_pong_locally() {
    let mut ctx = master_ctx(&[24]);
    let handled = HardwareCommand::Ping { slave_id: 0, seq: 69 }.execute(&mut ctx).unwrap();
    assert!(handled);
    assert_eq!(ctx.event_list, vec![HardwareEvent::Pong { slave_id: 0, seq: 69 }]);
}

#[test]
fn foreign_ping_is_forwarded() {
    let mut ctx = master_ctx(&[24]);
    let handled = HardwareCommand::Ping { slave_id: 3, seq: 1 }.execute(&mut ctx).unwrap();
    assert!(!handled);
    assert!(ctx.event_list.is_empty());

    let mut slave_ctx = master_ctx(&[]);
    slave_ctx.mode = LiketrainMode::Slave { slave_id: SlaveId::from_u32(3).unwrap() };
    let handled = HardwareCommand::Ping { slave_id: 3, seq: 1 }.execute(&mut slave_ctx).unwrap();
    assert!(handled);
}

#[test]
fn reset_all_powers_everything_off_and_forwards() {
    let mut ctx = master_ctx(&[21, 24]);
    let cmd = HardwareCommand::SetSectionPower {
        section_id: 21,
        power: HardwareSectionPower::Full,
    };
    cmd.execute(&mut ctx).unwrap();
    ctx.relay_plan.clear();
    let handled = HardwareCommand::ResetAll.execute(&mut ctx).unwrap();
    // false: the master still forwards the reset to its slaves
    assert!(!handled);
    assert_eq!(ctx.sections[0].current_power(), HardwareSectionPower::Off);
    assert_eq!(ctx.sections[1].current_power(), HardwareSectionPower::Off);
    assert_eq!(
        ctx.relay_plan,
        vec![(21, RelayAction::Open(HardwareSectionPower::Full))]
    );
}

#[test]
fn unknown_section_power_is_forwarded() {
    let mut ctx = master_ctx(&[21]);
    let handled = HardwareCommand::SetSectionPower {
        section_id: 99,
        power: HardwareSectionPower::Half,
    }
    .execute(&mut ctx)
    .unwrap();
    assert!(!handled);
    assert!(ctx.relay_plan.is_empty());
}

#[test]
fn detection_updates_emit_section_events() {
    let mut section = Section::new(24, SectionPowerRelais::new());
    let mut events: Vec<HardwareEvent> = Vec::new();
    section.update(true, &mut events);
    section.update(true, &mut events);
    section.update(false, &mut events);
    assert_eq!(events.len(), 2);
    match &events[0] {
        HardwareEvent::SectionEvent(e) => {
            assert_eq!(e.section_id, 24);
            assert_eq!(e.event_type, SectionEventType::Occupied);
        }
        _ => panic!("expected a section event"),
    }
    match &events[1] {
        HardwareEvent::SectionEvent(e) => {
            assert_eq!(e.section_id, 24);
            assert_eq!(e.event_type, SectionEventType::Freed);
        }
        _ => panic!("expected a section event"),
    }
}

#[test]
fn debug_messages_queue_up() {
    let mut ctx = master_ctx(&[]);
    ctx.debug(String::from("hello"));
    assert_eq!(ctx.debug_messages, vec![String::from("hello")]);
}

#[test]
fn mode_identity() {
    assert!(LiketrainMode::Master.is_master());
    assert_eq!(LiketrainMode::Master.get_slave_id(), 0);
    let slave = LiketrainMode::Slave { slave_id: SlaveId::from_u32(4).unwrap() };
    assert!(!slave.is_master());
    assert_eq!(slave.get_slave_id(), 4);
    assert!(SlaveId::from_u32(0).is_none());
    assert_eq!(SlaveId::from_u32(9).unwrap().as_u32(), 9);
}
