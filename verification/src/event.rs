//! The messages that reach the aggregator and what it answers with.

use crate::codes::{EV_ABS, EV_KEY};
use crate::identity::InputRemap;
use crate::table::Entry;
use vstd::prelude::*;

verus! {

/// One input event as the kernel reports it: event type, code and value.
#[derive(Clone, Copy, Debug, PartialEq, Eq, Structural)]
pub struct InputEvent {
    pub event_type: u16,
    pub code: u16,
    pub value: i32,
}

/// What an event is about, as far as the pad is concerned.
#[derive(Clone, Copy, Debug, PartialEq, Eq, Structural)]
pub enum EventKind {
    /// A button, by its code.
    Key(u16),
    /// An absolute axis, by its code.
    AbsAxis(u16),
    /// Anything else.
    Other,
}

impl InputEvent {
    pub open spec fn spec_kind(self) -> EventKind {
        if self.event_type == EV_KEY {
            EventKind::Key(self.code)
        } else if self.event_type == EV_ABS {
            EventKind::AbsAxis(self.code)
        } else {
            EventKind::Other
        }
    }

    /// An event of the given type, code and value.
    pub fn new(event_type: u16, code: u16, value: i32) -> (r: InputEvent)
        ensures
            r == (InputEvent { event_type, code, value }),
    {
        InputEvent { event_type, code, value }
    }

    /// Sorts the event by its type.
    pub fn kind(&self) -> (r: EventKind)
        ensures
            r == self.spec_kind(),
    {
        if self.event_type == EV_KEY {
            EventKind::Key(self.code)
        } else if self.event_type == EV_ABS {
            EventKind::AbsAxis(self.code)
        } else {
            EventKind::Other
        }
    }
}

/// A message on the channel that feeds the aggregator.
#[derive(Clone, Copy, Debug)]
pub enum RinputerEvent {
    /// An event of a physical pad, already expressed in the canonical ranges.
    InputEvent(InputEvent),
    /// Map the first identity to the second.
    ConfigUpdate(InputRemap, InputRemap),
    /// Write the table to the control channel.
    PrintConfig,
    /// Put the built-in profile back.
    ResetConfig,
}

/// What becomes of one input event.
#[derive(Clone, Copy, Debug, PartialEq, Eq, Structural)]
pub enum Output {
    /// Write this event to the virtual pad.
    Emit(InputEvent),
    /// Write nothing: the event is not for the virtual pad.
    Nothing,
    /// The event is mapped to the special action, which has no output yet.
    /// Write nothing and say so.
    SpecialAction,
}

/// What the owner of the devices has to do after a message was taken in.
#[derive(Debug)]
pub enum Reaction {
    /// The outcome of an input event.
    Input(Output),
    /// The table now maps the first identity to the second: log it.
    Updated(InputRemap, InputRemap),
    /// The table holds the built-in profile again.
    Reset,
    /// Write the header and these entries to the control channel, and flush.
    Print(Vec<Entry>),
}

} // verus!
