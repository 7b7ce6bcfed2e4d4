//! The events the controller reacts to: hardware events from the wire,
//! and the scheduled events it derives from them.
use vstd::prelude::*;
use crate::event::HardwareEvent;
use crate::section::SectionId;
use crate::train::TrainId;

verus! {

/// An event the controller scheduled for itself.
#[derive(Debug, Copy, Clone, PartialEq, Eq, Structural)]
pub enum ScheduledEvent {
    TrainEnteredSection { train_id: TrainId, section_id: SectionId },
    TrainLeftSection { train_id: TrainId, section_id: SectionId },
}

/// Mathematical model of a `ScheduledEvent`.
pub ghost enum ScheduledEventView {
    TrainEnteredSection { train: int, section: int },
    TrainLeftSection { train: int, section: int },
}

impl View for ScheduledEvent {
    type V = ScheduledEventView;

    open spec fn view(&self) -> ScheduledEventView {
        match self {
            ScheduledEvent::TrainEnteredSection { train_id, section_id } => {
                ScheduledEventView::TrainEnteredSection { train: train_id@, section: section_id@ }
            },
            ScheduledEvent::TrainLeftSection { train_id, section_id } => {
                ScheduledEventView::TrainLeftSection { train: train_id@, section: section_id@ }
            },
        }
    }
}

/// Either source of controller work.
#[derive(Debug)]
pub enum ControllerEvent {
    Scheduled(ScheduledEvent),
    Hardware(HardwareEvent),
}

} // verus!
