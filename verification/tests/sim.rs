//! Simulated-train tests: riding a powered route on the timer, and the
//! detector events the ride injects.
use liketrain::command::HardwareCommand;
use liketrain::event::{HardwareEvent, HardwareSectionPower, SectionEvent, SectionEventType};
use liketrain::firmware::{CommandExecutionContext, LiketrainMode, Section, SectionPowerRelais};
use liketrain::sim::{SimTrain, SimTrainRouteVia};

fn ctx_with_sections(ids: &[u32]) -> CommandExecutionContext {
    let mut sections = Vec::new();
    for &id in ids {
        sections.push(Section::new(id, SectionPowerRelais::new()));
    }
    CommandExecutionContext {
        mode: LiketrainMode::Master,
        event_list: Vec::new(),
        sections,
        debug_messages: Vec::new(),
        relay_plan: Vec::new(),
    }
}

fn via(section_id: u32, time: u32) -> SimTrainRouteVia {
    SimTrainRouteVia { section_id, time }
}

#[test]
fn sim_train_waits_for_power() {
    let mut ctx = ctx_with_sections(&[24, 22, 21]);
    let mut train = SimTrain::new(vec![via(24, 100), via(22, 100), via(21, 100), via(24, 100)]);

    // without power nothing moves, however much time passes
    train.update(&mut ctx, 0);
    train.update(&mut ctx, 10_000);
    assert!(ctx.event_list.is_empty());
}

#[test]
fn sim_train_rides_the_loop() {
    let mut ctx = ctx_with_sections(&[24, 22, 21]);
    // power the whole layout
    for id in [24u32, 22, 21] {
        HardwareCommand::SetSectionPower { section_id: id, power: HardwareSectionPower::Full }
            .execute(&mut ctx)
            .unwrap();
    }
    let mut train = SimTrain::new(vec![via(24, 100), via(22, 100), via(21, 100), via(24, 100)]);

    // the first update only starts the clock
    train.update(&mut ctx, 0);
    assert!(ctx.event_list.is_empty());

    // after the stop's time, the train moves 24 -> 22
    train.update(&mut ctx, 100);
    assert_eq!(
        ctx.event_list,
        vec![
            HardwareEvent::SectionEvent(SectionEvent::freed(24)),
            HardwareEvent::SectionEvent(SectionEvent::occupied(22)),
        ]
    );
    ctx.event_list.clear();

    // then 22 -> 21, then wrapping 21 -> 24: the closed route loops
    train.update(&mut ctx, 200);
    train.update(&mut ctx, 300);
    assert_eq!(
        ctx.event_list,
        vec![
            HardwareEvent::SectionEvent(SectionEvent::freed(22)),
            HardwareEvent::SectionEvent(SectionEvent::occupied(21)),
            HardwareEvent::SectionEvent(SectionEvent::freed(21)),
            HardwareEvent::SectionEvent(SectionEvent::occupied(24)),
        ]
    );
}

#[test]
fn sim_train_open_route_ends() {
    let mut ctx = ctx_with_sections(&[24, 22]);
    for id in [24u32, 22] {
        HardwareCommand::SetSectionPower { section_id: id, power: HardwareSectionPower::Full }
            .execute(&mut ctx)
            .unwrap();
    }
    let mut train = SimTrain::new(vec![via(24, 50), via(22, 50)]);
    train.update(&mut ctx, 0);
    train.update(&mut ctx, 50); // 24 -> 22
    train.update(&mut ctx, 100); // route exhausted: no more events
    train.update(&mut ctx, 1_000);
    assert_eq!(ctx.event_list.len(), 2);
    match &ctx.event_list[1] {
        HardwareEvent::SectionEvent(e) => {
            assert_eq!(e.section_id, 22);
            assert_eq!(e.event_type, SectionEventType::Occupied);
        }
        _ => panic!("expected a section event"),
    }
}
