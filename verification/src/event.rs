//! The events that the window is told of.

use vstd::prelude::*;

verus! {

#[derive(Debug, Clone, Copy, PartialEq, Eq, Structural)]
pub enum Event {
    UpdateStarted,
    UpdateInProgress,
    UpdateFinished,
}

pub open spec fn event_name(event: Event) -> Seq<char> {
    match event {
        Event::UpdateStarted => "update-started"@,
        Event::UpdateInProgress => "update-in-progress"@,
        Event::UpdateFinished => "update-finished"@,
    }
}

impl Event {
    /// The name under which the event is sent.
    pub fn into(self) -> (name: &'static str)
        ensures
            name@ == event_name(self),
    {
        match self {
            Event::UpdateStarted => "update-started",
            Event::UpdateInProgress => "update-in-progress",
            Event::UpdateFinished => "update-finished",
        }
    }
}

} // verus!
