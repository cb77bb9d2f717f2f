//! The device reader: which devices are read at all, what is kept of their
//! ranges, and how each of their events is brought into the canonical
//! ranges before it goes to the aggregator.

use crate::codes::{
    is_hat_axis, is_trigger_axis, hat_axis, trigger_axis, ABS_RZ, ABS_X, ABS_Y, ABS_Z, BTN_SOUTH,
    BTN_TOUCH, BUS_I8042, KEY_LEFTMETA, OUTPUT_VERSION,
};
use crate::domain::{
    remap, remap_value, MAX_OUT_ANALOG, MAX_OUT_TRIG, MIN_OUT_ANALOG, MIN_OUT_TRIG,
};
use crate::event::{EventKind, InputEvent};
use crate::text::starts_with;
use vstd::prelude::*;

verus! {

/// Name under which the virtual pad shows itself. A device whose name is
/// this name, or begins with it, already presents the canonical pad.
pub const OUTPUT_NAME: &'static str = "Microsoft X-Box 360 pad";

/// Seconds between two scans for devices.
pub const RESCAN_INTERVAL_SECS: u64 = 10;

/// What is known of a device before it is read.
pub struct DeviceInfo {
    /// Version field of the device identity.
    pub version: u16,
    /// Bus type field of the device identity.
    pub bus_type: u16,
    /// Codes of the keys and buttons that the device reports to have.
    pub keys: Vec<u16>,
    /// Name of the device, if it has one.
    pub name: Option<String>,
}

/// Whether a device is read, and if not, why.
#[derive(Clone, Copy, Debug, PartialEq, Eq, Structural)]
pub enum Verdict {
    /// The device is a pad: read it.
    Useful,
    /// The device is the virtual pad itself.
    OwnOutput,
    /// The device lacks the south button, so it is no pad.
    NoSouthButton,
    /// The device has a meta key and does not sit on the legacy keyboard
    /// controller: a keyboard.
    Keyboard,
    /// The device has a touch control.
    Touch,
    /// The device has no name, or its name is that of the virtual pad or
    /// begins with it.
    EmulatedPad,
}

/// Whether a device of the name `name` counts as emulated: its name is that
/// of the virtual pad or begins with it, or it has no name at all.
pub open spec fn named_like_emulated(name: Option<String>) -> bool {
    match name {
        Some(n) => OUTPUT_NAME@.is_prefix_of(n@),
        None => true,
    }
}

/// The verdict on a device. The tests are made in this order and the first
/// that fails decides.
pub open spec fn judged(info: DeviceInfo) -> Verdict {
    if info.version == OUTPUT_VERSION {
        Verdict::OwnOutput
    } else if !info.keys@.contains(BTN_SOUTH) {
        Verdict::NoSouthButton
    } else if info.keys@.contains(KEY_LEFTMETA) && info.bus_type != BUS_I8042 {
        Verdict::Keyboard
    } else if info.keys@.contains(BTN_TOUCH) {
        Verdict::Touch
    } else if named_like_emulated(info.name) {
        Verdict::EmulatedPad
    } else {
        Verdict::Useful
    }
}

/// A device that bears the name of the virtual pad, or a longer name that
/// begins with it, or no name, is never read, whatever else is known of it.
pub proof fn lemma_pad_name_is_rejected(info: DeviceInfo)
    requires
        match info.name {
            Some(n) => exists|rest: Seq<char>| n@ == OUTPUT_NAME@ + rest,
            None => true,
        },
    ensures
        judged(info) != Verdict::Useful,
{
    if let Some(n) = info.name {
        let rest = choose|rest: Seq<char>| n@ == OUTPUT_NAME@ + rest;
        assert(n@.subrange(0, OUTPUT_NAME@.len() as int) =~= OUTPUT_NAME@);
    }
}

impl DeviceInfo {
    /// Tells whether the device reports to have the key or button `code`.
    pub fn has_key(&self, code: u16) -> (r: bool)
        ensures
            r == self.keys@.contains(code),
    {
        let mut i: usize = 0;
        while i < self.keys.len()
            invariant
                i <= self.keys@.len(),
                forall|j: int| 0 <= j < i ==> self.keys@[j] != code,
            decreases self.keys@.len() - i,
        {
            if self.keys[i] == code {
                return true;
            }
            i = i + 1;
        }
        false
    }

    /// Decides whether the device is read.
    pub fn judge(&self) -> (r: Verdict)
        ensures
            r == judged(*self),
            named_like_emulated(self.name) ==> r != Verdict::Useful,
    {
        if self.version == OUTPUT_VERSION {
            return Verdict::OwnOutput;
        }
        if !self.has_key(BTN_SOUTH) {
            return Verdict::NoSouthButton;
        }
        if self.has_key(KEY_LEFTMETA) && self.bus_type != BUS_I8042 {
            return Verdict::Keyboard;
        }
        if self.has_key(BTN_TOUCH) {
            return Verdict::Touch;
        }
        let emulated: bool = match &self.name {
            Some(n) => starts_with(n.as_str(), OUTPUT_NAME),
            None => true,
        };
        if emulated {
            Verdict::EmulatedPad
        } else {
            Verdict::Useful
        }
    }
}

/// The least and the greatest value that a device reports for one axis.
#[derive(Clone, Copy, Debug, PartialEq, Eq, Structural)]
pub struct AxisRange {
    pub minimum: i32,
    pub maximum: i32,
}

/// The ranges of one device, taken once when the device is accepted.
#[derive(Clone, Copy, Debug, PartialEq, Eq, Structural)]
pub struct Calibration {
    /// Least value of the stick axes.
    pub min_analog: i32,
    /// Greatest value of the stick axes.
    pub max_analog: i32,
    /// Least value of the trigger axes.
    pub min_trig: i32,
    /// Greatest value of the trigger axes.
    pub max_trig: i32,
}

/// The ranges kept of a device whose axes could be read: the stick range
/// from the least value of X to the greatest of Y, the trigger range from
/// the least value of the left trigger to the greatest of the right one.
pub open spec fn captured(axes: Seq<AxisRange>) -> Calibration
    recommends
        axes.len() > ABS_RZ,
{
    Calibration {
        min_analog: axes[ABS_X as int].minimum,
        max_analog: axes[ABS_Y as int].maximum,
        min_trig: axes[ABS_Z as int].minimum,
        max_trig: axes[ABS_RZ as int].maximum,
    }
}

/// The ranges kept of a device whose axes could not be read: all zero, so
/// that its values pass as they are.
pub open spec fn unreadable() -> Calibration {
    Calibration { min_analog: 0, max_analog: 0, min_trig: 0, max_trig: 0 }
}

/// The canonical value of `value` on the axis `code` of a device with the
/// ranges `cal`. A hat value is canonical as it is. A trigger value is
/// carried from the trigger range of the device into the canonical trigger
/// range, any other value from the stick range of the device into the
/// canonical stick range; where the range of the device is a single point,
/// the value passes as it is.
pub open spec fn normalized_value(cal: Calibration, code: u16, value: i32) -> i32 {
    if is_hat_axis(code) {
        value
    } else if is_trigger_axis(code) {
        if cal.min_trig == cal.max_trig {
            value
        } else {
            remap_value(value, cal.min_trig, cal.max_trig, MIN_OUT_TRIG, MAX_OUT_TRIG) as i32
        }
    } else {
        if cal.min_analog == cal.max_analog {
            value
        } else {
            remap_value(
                value,
                cal.min_analog,
                cal.max_analog,
                MIN_OUT_ANALOG,
                MAX_OUT_ANALOG,
            ) as i32
        }
    }
}

/// What the reader sends on for an event of its device: an axis event with
/// its value made canonical, a button event as it is, nothing for any other
/// event.
pub open spec fn normalized(cal: Calibration, ev: InputEvent) -> Option<InputEvent> {
    match ev.spec_kind() {
        EventKind::AbsAxis(code) => Some(
            InputEvent {
                event_type: ev.event_type,
                code: ev.code,
                value: normalized_value(cal, code, ev.value),
            },
        ),
        EventKind::Key(_) => Some(ev),
        EventKind::Other => None,
    }
}

impl Calibration {
    /// Takes the ranges of a device from the state of its axes, listed by
    /// axis code. Without a state, or with one too short to hold the four
    /// axes that matter, the ranges are all zero.
    pub fn capture(state: &Option<Vec<AxisRange>>) -> (r: Calibration)
        ensures
            r == match *state {
                Some(axes) => if axes@.len() > ABS_RZ {
                    captured(axes@)
                } else {
                    unreadable()
                },
                None => unreadable(),
            },
    {
        match state {
            Some(axes) => {
                if axes.len() > ABS_RZ as usize {
                    Calibration {
                        min_analog: axes[ABS_X as usize].minimum,
                        max_analog: axes[ABS_Y as usize].maximum,
                        min_trig: axes[ABS_Z as usize].minimum,
                        max_trig: axes[ABS_RZ as usize].maximum,
                    }
                } else {
                    Calibration { min_analog: 0, max_analog: 0, min_trig: 0, max_trig: 0 }
                }
            },
            None => Calibration { min_analog: 0, max_analog: 0, min_trig: 0, max_trig: 0 },
        }
    }

    /// Brings one axis value into its canonical range.
    pub fn normalize_value(&self, code: u16, value: i32) -> (r: i32)
        ensures
            r == normalized_value(*self, code, value),
            is_hat_axis(code) ==> r == value,
    {
        if hat_axis(code) {
            value
        } else if trigger_axis(code) {
            if self.min_trig == self.max_trig {
                value
            } else {
                remap(value, self.min_trig, self.max_trig, MIN_OUT_TRIG, MAX_OUT_TRIG)
            }
        } else {
            if self.min_analog == self.max_analog {
                value
            } else {
                remap(value, self.min_analog, self.max_analog, MIN_OUT_ANALOG, MAX_OUT_ANALOG)
            }
        }
    }

    /// Turns an event of the device into the event that goes to the
    /// aggregator, if one goes.
    pub fn normalize(&self, ev: InputEvent) -> (r: Option<InputEvent>)
        ensures
            r == normalized(*self, ev),
            ev.spec_kind() matches EventKind::AbsAxis(code) && is_hat_axis(code) ==> r == Some(ev),
    {
        match ev.kind() {
            EventKind::AbsAxis(code) => Some(
                InputEvent::new(ev.event_type, ev.code, self.normalize_value(code, ev.value)),
            ),
            EventKind::Key(_) => Some(ev),
            EventKind::Other => None,
        }
    }
}

} // verus!
