//! Tests of the supporting pieces: the scheduler, the serial flow
//! controller, the wire forms of ids, and the buffered serial port.
use liketrain::command::HardwareCommand;
use liketrain::controller_event::ScheduledEvent;
use liketrain::event::HardwareEvent;
use liketrain::flow::{SerialFlowController, ACK_TIMEOUT_MS};
use liketrain::scheduler::Scheduler;
use liketrain::section::SectionId;
use liketrain::serial::{Serial, SerialError, SerialInterface};
use liketrain::stream::encode_event_frame;
use liketrain::switch::SwitchId;
use liketrain::train::TrainId;

fn entered(train: usize, section: usize) -> ScheduledEvent {
    ScheduledEvent::TrainEnteredSection {
        train_id: TrainId::new(train),
        section_id: SectionId::new(section),
    }
}

#[test]
fn scheduler_hands_out_due_events_earliest_first() {
    let mut scheduler = Scheduler::new();
    scheduler.schedule(50, entered(1, 21));
    scheduler.schedule(10, entered(2, 22));
    scheduler.schedule_now(0, entered(3, 23));

    assert_eq!(scheduler.next_event_duration(0), Some(0));
    assert_eq!(scheduler.next_event(0), Some(entered(3, 23)));
    // the next event is due at 10: not yet at time 5
    assert_eq!(scheduler.next_event(5), None);
    assert_eq!(scheduler.next_event_duration(5), Some(5));
    assert_eq!(scheduler.next_event(10), Some(entered(2, 22)));
    assert_eq!(scheduler.next_event(100), Some(entered(1, 21)));
    assert_eq!(scheduler.next_event(100), None);
    assert_eq!(scheduler.next_event_duration(100), None);
}

#[test]
fn scheduler_is_stable_for_equal_times() {
    let mut scheduler = Scheduler::new();
    scheduler.schedule(5, entered(1, 1));
    scheduler.schedule(5, entered(2, 2));
    assert_eq!(scheduler.next_event(5), Some(entered(1, 1)));
    assert_eq!(scheduler.next_event(5), Some(entered(2, 2)));
}

#[test]
fn flow_controller_waits_for_acks() {
    let mut flow = SerialFlowController::new();
    flow.push_command(HardwareCommand::ResetAll);
    flow.push_command(HardwareCommand::Ping { slave_id: 0, seq: 1 });

    // the first command goes out and opens an acknowledgement window
    assert_eq!(flow.update(0), Some(HardwareCommand::ResetAll));
    // nothing more before the acknowledgement or the timeout
    assert_eq!(flow.update(1), None);
    // the acknowledgement frees the window
    flow.ack_received();
    assert_eq!(flow.update(2), Some(HardwareCommand::Ping { slave_id: 0, seq: 1 }));
    // an unacknowledged command goes stale after the timeout
    flow.push_command(HardwareCommand::ResetAll);
    assert_eq!(flow.update(2 + ACK_TIMEOUT_MS), Some(HardwareCommand::ResetAll));
    assert_eq!(flow.update(2 + ACK_TIMEOUT_MS), None);
}

#[test]
fn switch_id_wire_round_trip() {
    let id = SwitchId::from_name(String::from("N"));
    let hw = liketrain::controller::switch_id_to_hardware(&id).unwrap();
    assert_eq!(hw.len(), 32);
    assert_eq!(hw[0], b'N');
    assert!(hw[1..].iter().all(|&b| b == 0));
    let back = SwitchId::from_hardware_id(&hw).unwrap();
    assert!(back.matches(&id));

    let long = SwitchId::from_name(String::from(
        "a_name_well_over_thirty_two_bytes_long",
    ));
    assert!(liketrain::controller::switch_id_to_hardware(&long).is_none());
}

struct LoopbackPort {
    incoming: Vec<u8>,
    written: Vec<u8>,
}

impl SerialInterface for LoopbackPort {
    type Error = ();

    fn write_byte(&mut self, byte: u8) -> Result<(), SerialError<()>> {
        self.written.push(byte);
        Ok(())
    }

    fn write_bytes(&mut self, bytes: &[u8]) -> Result<usize, SerialError<()>> {
        self.written.extend_from_slice(bytes);
        Ok(bytes.len())
    }

    fn read_max_bytes(&mut self, max: usize) -> Result<Vec<u8>, SerialError<()>> {
        let n = max.min(self.incoming.len());
        let rest = self.incoming.split_off(n);
        let chunk = std::mem::replace(&mut self.incoming, rest);
        Ok(chunk)
    }

    fn flush(&mut self) -> Result<(), SerialError<()>> {
        Ok(())
    }
}

#[test]
fn serial_reads_events_across_chunked_updates() {
    let frame = encode_event_frame(&HardwareEvent::Pong { slave_id: 0, seq: 42 });
    let port = LoopbackPort { incoming: frame.clone(), written: Vec::new() };
    let mut serial = Serial::new(port);

    // the frame arrives over several updates of at most 128 bytes
    serial.update().unwrap();
    let event = serial.read_event().unwrap().unwrap();
    match event {
        HardwareEvent::Pong { slave_id, seq } => {
            assert_eq!(slave_id, 0);
            assert_eq!(seq, 42);
        }
        _ => panic!("expected the pong back"),
    }
    assert_eq!(serial.read_event().unwrap(), None);

    // writing a command puts a whole frame on the port
    serial
        .write_command(&HardwareCommand::Ping { slave_id: 0, seq: 69 })
        .unwrap();
    assert_eq!(serial.interface().written.len(), 15);
    assert_eq!(serial.interface().written[0], 0xAA);
}

#[test]
fn section_and_train_ids() {
    let s = SectionId::new(24);
    assert_eq!(s.as_usize(), 24);
    assert_eq!(s.as_u32(), 24);
    assert_eq!(s.next().as_usize(), 25);
    assert!(!s.is_invalid());
    assert!(SectionId::invalid().is_invalid());
    assert_eq!(TrainId::new(7).as_usize(), 7);
}
