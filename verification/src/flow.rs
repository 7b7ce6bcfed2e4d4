//! Host-side serial flow control: commands queue up and go out one at a
//! time, each waiting for an acknowledgement or a timeout.
use vstd::prelude::*;
use crate::command::{CommandView, HardwareCommand};
use crate::controller::command_views;

verus! {

/// How long a sent command waits for its acknowledgement.
pub const ACK_TIMEOUT_MS: u64 = 500;

/// Mathematical model of a `SerialFlowController`.
pub ghost struct FlowView {
    pub commands: Seq<CommandView>,
    pub awaiting_ack: Option<u64>,
}

/// The queue of outbound commands and the deadline of the one in flight.
#[derive(Debug)]
pub struct SerialFlowController {
    command_buffer: Vec<HardwareCommand>,
    awaiting_ack: Option<u64>,
}

impl View for SerialFlowController {
    type V = FlowView;

    closed spec fn view(&self) -> FlowView {
        FlowView {
            commands: command_views(self.command_buffer@),
            awaiting_ack: self.awaiting_ack,
        }
    }
}

/// The deadline of a command sent at `now`, saturating at the end of time.
pub open spec fn spec_ack_deadline(now: u64) -> u64 {
    if now > u64::MAX - ACK_TIMEOUT_MS {
        u64::MAX
    } else {
        (now + ACK_TIMEOUT_MS) as u64
    }
}

impl SerialFlowController {
    /// A flow controller with nothing queued and nothing in flight.
    pub fn new() -> (r: SerialFlowController)
        ensures
            r@.commands == Seq::<CommandView>::empty(),
            r@.awaiting_ack is None,
    {
        let r = SerialFlowController { command_buffer: Vec::new(), awaiting_ack: None };
        proof {
            assert(command_views(r.command_buffer@) =~= Seq::<CommandView>::empty());
        }
        r
    }

    /// Queue a command for sending.
    pub fn push_command(&mut self, command: HardwareCommand)
        ensures
            final(self)@.commands == old(self)@.commands.push(command@),
            final(self)@.awaiting_ack == old(self)@.awaiting_ack,
    {
        let ghost cv = command@;
        self.command_buffer.push(command);
        proof {
            assert(command_views(self.command_buffer@) =~= old(self)@.commands.push(cv));
        }
    }

    /// Note that the acknowledgement for the command in flight arrived.
    pub fn ack_received(&mut self)
        ensures
            final(self)@.commands == old(self)@.commands,
            final(self)@.awaiting_ack is None,
    {
        self.awaiting_ack = None;
    }

    /// The next command to put on the wire: nothing while one is in
    /// flight and its deadline has not passed; else the queue head, which
    /// starts a new acknowledgement window.
    pub fn update(&mut self, now: u64) -> (r: Option<HardwareCommand>)
        ensures
            match r {
                Some(c) => (match old(self)@.awaiting_ack {
                    Option::Some(deadline) => deadline <= now,
                    Option::None => true,
                }) && old(self)@.commands.len() > 0 && c@ == old(self)@.commands[0]
                    && final(self)@.commands == old(self)@.commands.skip(1)
                    && final(self)@.awaiting_ack == Some(spec_ack_deadline(now)),
                None => final(self)@.commands == old(self)@.commands && ((match old(self)@.awaiting_ack {
                    Option::Some(deadline) => deadline > now && final(self)@.awaiting_ack == old(self)@.awaiting_ack,
                    Option::None => false,
                }) || (old(self)@.commands.len() == 0 && final(self)@.awaiting_ack is None)),
            },
    {
        match self.awaiting_ack {
            Some(deadline) => {
                if deadline > now {
                    return None;
                }
                self.awaiting_ack = None;
            },
            None => {},
        }
        if self.command_buffer.len() == 0 {
            return None;
        }
        let command = self.command_buffer.remove(0);
        let deadline = if now > u64::MAX - ACK_TIMEOUT_MS {
            u64::MAX
        } else {
            now + ACK_TIMEOUT_MS
        };
        self.awaiting_ack = Some(deadline);
        proof {
            assert(command_views(self.command_buffer@) =~= old(self)@.commands.skip(1));
        }
        Some(command)
    }
}

} // verus!
