//! Pianobar events.

use vstd::prelude::*;
use crate::eventcmd::EventCmd;
use crate::info::{Info, InfoView};

verus! {

/// A pianobar event: the eventcmd that triggered it and the info about it.
#[derive(Debug, Clone, PartialEq, Eq)]
pub struct Event {
    pub eventcmd: EventCmd,
    pub info: Info,
}

/// An `Event` as a value.
pub struct EventView {
    pub eventcmd: EventCmd,
    pub info: InfoView,
}

impl View for Event {
    type V = EventView;

    open spec fn view(&self) -> EventView {
        EventView { eventcmd: self.eventcmd, info: self.info@ }
    }
}

} // verus!
