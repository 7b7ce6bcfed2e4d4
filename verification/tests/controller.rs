//! Controller tests: the reservation-on-conflict scenario, queueing,
//! and the hardware-event bookkeeping.
use liketrain::command::HardwareCommand;
use liketrain::controller::{Controller, ControllerConfig};
use liketrain::controller_event::{ControllerEvent, ScheduledEvent};
use liketrain::direction::Direction;
use liketrain::eval::Evaluator;
use liketrain::event::{HardwareEvent, HardwareSectionPower, HardwareSwitchState, SectionEvent};
use liketrain::parser::parser;
use liketrain::route::Route;
use liketrain::section::SectionId;
use liketrain::track::Track;
use liketrain::train::{Train, TrainId};

const TTL: &str = r#"
        S23:    -> switch(M)            | <- back(N, right)
        S25:    -> back(L, left)        | <- back(M, right)
        S26:    -> none                 | <- back(M, left)
        S22:    -> switch(N)            | <- switch(O)
        S8:     -> back(O, right)       | <- none
        S21:    -> back(O, left)        | <- switch(P)
        S24:    -> back(N, left)        | <- back(P, right)
        S20:    -> back(L, right)       | <- back(P, left)
        S13:    -> none                 | <- switch(L)
    "#;

fn integration_track() -> Track {
    let track_defs = parser(TTL).unwrap();
    Evaluator::default().evaluate(track_defs).unwrap()
}

fn vias(ids: &[usize]) -> Vec<SectionId> {
    ids.iter().map(|&id| SectionId::new(id)).collect()
}

fn occupied(section: u32) -> ControllerEvent {
    ControllerEvent::Hardware(HardwareEvent::SectionEvent(SectionEvent::occupied(section)))
}

fn freed(section: u32) -> ControllerEvent {
    ControllerEvent::Hardware(HardwareEvent::SectionEvent(SectionEvent::freed(section)))
}

fn switch_id_bytes(name: &str) -> Vec<u8> {
    let mut v = name.as_bytes().to_vec();
    while v.len() < 32 {
        v.push(0);
    }
    v
}

#[test]
fn reservation_on_conflict() {
    // Train A loops 24 -> 22 -> 21 -> 24; train B drives 22 -> 24 -> 21.
    // Both end up bound for S21; B has to wait for A's reservation.
    let track = integration_track();
    let route_a = Route::new(vias(&[24, 22, 21, 24]), Direction::Forward, &track).unwrap();
    let route_b = Route::new(vias(&[22, 24, 21]), Direction::Forward, &track).unwrap();
    let a = TrainId::new(1);
    let b = TrainId::new(2);
    let config = ControllerConfig {
        track,
        trains: vec![
            (a, Train::from_route(String::from("A"), route_a)),
            (b, Train::from_route(String::from("B"), route_b)),
        ],
    };
    let mut controller = Controller::new(config).ok().unwrap();

    // A enters S22: S21 is free, so A reserves it, the switch toward it
    // is thrown and S21 is powered.
    let mut out: Vec<HardwareCommand> = Vec::new();
    controller.handle_event(occupied(22), 0, &mut out).unwrap();
    assert_eq!(
        out,
        vec![
            HardwareCommand::SetSwitchState {
                switch_id: switch_id_bytes("O"),
                state: HardwareSwitchState::Left,
            },
            HardwareCommand::SetSectionPower { section_id: 21, power: HardwareSectionPower::Full },
        ]
    );

    // B enters S24: S21 is reserved by A, so B is stopped on S24 and
    // queued on S21.
    let mut out: Vec<HardwareCommand> = Vec::new();
    controller.handle_event(occupied(24), 0, &mut out).unwrap();
    assert_eq!(
        out,
        vec![HardwareCommand::SetSectionPower {
            section_id: 24,
            power: HardwareSectionPower::Off,
        }]
    );

    // With both trains bound for S21, a detector report for S21 is
    // ambiguous and is defensively ignored.
    let mut out: Vec<HardwareCommand> = Vec::new();
    controller.handle_event(occupied(21), 0, &mut out).unwrap();
    assert!(out.is_empty());

    // A vacates S21: the reservation is released, B is woken: its own
    // section is repowered first, its switch thrown, then S21 powered.
    let mut out: Vec<HardwareCommand> = Vec::new();
    controller
        .handle_event(
            ControllerEvent::Scheduled(ScheduledEvent::TrainLeftSection {
                train_id: a,
                section_id: SectionId::new(21),
            }),
            0,
            &mut out,
        )
        .unwrap();
    assert_eq!(
        out,
        vec![
            HardwareCommand::SetSectionPower { section_id: 24, power: HardwareSectionPower::Full },
            HardwareCommand::SetSwitchState {
                switch_id: switch_id_bytes("P"),
                state: HardwareSwitchState::Right,
            },
            HardwareCommand::SetSectionPower { section_id: 21, power: HardwareSectionPower::Full },
        ]
    );

    // B was queued exactly once: a second vacating of S21 finds the
    // queue empty and powers the section off.
    let mut out: Vec<HardwareCommand> = Vec::new();
    controller
        .handle_event(
            ControllerEvent::Scheduled(ScheduledEvent::TrainLeftSection {
                train_id: b,
                section_id: SectionId::new(21),
            }),
            0,
            &mut out,
        )
        .unwrap();
    assert_eq!(
        out,
        vec![HardwareCommand::SetSectionPower {
            section_id: 21,
            power: HardwareSectionPower::Off,
        }]
    );
}

#[test]
fn occupancy_is_exclusive() {
    // A section keeps its single occupant: a second detector report for
    // an occupied section is a protocol violation and changes nothing.
    let track = integration_track();
    let route = Route::new(vias(&[24, 22, 21, 24]), Direction::Forward, &track).unwrap();
    let config = ControllerConfig {
        track,
        trains: vec![(TrainId::new(1), Train::from_route(String::from("A"), route))],
    };
    let mut controller = Controller::new(config).ok().unwrap();
    let mut out: Vec<HardwareCommand> = Vec::new();
    controller.handle_event(occupied(22), 0, &mut out).unwrap();
    assert!(controller.is_section_occupied(SectionId::new(22)));
    out.clear();
    controller.handle_event(occupied(22), 0, &mut out).unwrap();
    assert!(out.is_empty());
    assert!(controller.is_section_occupied(SectionId::new(22)));
}

#[test]
fn reservations_have_one_holder() {
    // A section reserved by one train cannot be taken by another, but
    // re-reserving by the holder succeeds.
    let track = integration_track();
    let config = ControllerConfig { track, trains: vec![] };
    let mut controller = Controller::new(config).ok().unwrap();
    let s = SectionId::new(21);
    assert!(controller.try_reserve_section(s, TrainId::new(1)));
    assert!(!controller.try_reserve_section(s, TrainId::new(2)));
    assert!(controller.try_reserve_section(s, TrainId::new(1)));
    assert!(controller.is_section_reserved_by_other(s, TrainId::new(2)));
    assert!(!controller.is_section_reserved_by_other(s, TrainId::new(1)));
    controller.release_reservation(s, TrainId::new(2)); // not the holder: kept
    assert!(controller.is_section_reserved_by_other(s, TrainId::new(2)));
    controller.release_reservation(s, TrainId::new(1));
    assert!(!controller.is_section_reserved_by_other(s, TrainId::new(2)));
}

#[test]
fn freed_section_without_waiters_is_powered_off() {
    let track = integration_track();
    let route = Route::new(vias(&[24, 22, 21, 24]), Direction::Forward, &track).unwrap();
    let config = ControllerConfig {
        track,
        trains: vec![(TrainId::new(1), Train::from_route(String::from("A"), route))],
    };
    let mut controller = Controller::new(config).ok().unwrap();

    let mut out: Vec<HardwareCommand> = Vec::new();
    controller.handle_event(occupied(22), 0, &mut out).unwrap();
    out.clear();
    // A moved out of S22; nobody waits there, so it is powered off.
    controller.handle_event(freed(22), 0, &mut out).unwrap();
    assert_eq!(
        out,
        vec![HardwareCommand::SetSectionPower {
            section_id: 22,
            power: HardwareSectionPower::Off,
        }]
    );
}

#[test]
fn anomalous_occupied_events_change_nothing() {
    let track = integration_track();
    let route = Route::new(vias(&[24, 22, 21, 24]), Direction::Forward, &track).unwrap();
    let config = ControllerConfig {
        track,
        trains: vec![(TrainId::new(1), Train::from_route(String::from("A"), route))],
    };
    let mut controller = Controller::new(config).ok().unwrap();

    // no train is inbound for S23: nothing is emitted
    let mut out: Vec<HardwareCommand> = Vec::new();
    controller.handle_event(occupied(23), 0, &mut out).unwrap();
    assert!(out.is_empty());

    // the train still reacts afterwards
    controller.handle_event(occupied(22), 0, &mut out).unwrap();
    assert_eq!(out.len(), 2);
}

#[test]
fn switch_state_reports_are_recorded() {
    let track = integration_track();
    let config = ControllerConfig { track, trains: vec![] };
    let mut controller = Controller::new(config).ok().unwrap();
    let mut out: Vec<HardwareCommand> = Vec::new();
    controller
        .handle_event(
            ControllerEvent::Hardware(HardwareEvent::SwitchStateChanged {
                switch_id: switch_id_bytes("N"),
                state: HardwareSwitchState::Right,
            }),
            0,
            &mut out,
        )
        .unwrap();
    assert!(out.is_empty());
}

#[test]
fn pong_is_observability_only() {
    let track = integration_track();
    let config = ControllerConfig { track, trains: vec![] };
    let mut controller = Controller::new(config).ok().unwrap();
    let mut out: Vec<HardwareCommand> = Vec::new();
    controller
        .handle_event(
            ControllerEvent::Hardware(HardwareEvent::Pong { slave_id: 0, seq: 7 }),
            0,
            &mut out,
        )
        .unwrap();
    assert!(out.is_empty());
}
