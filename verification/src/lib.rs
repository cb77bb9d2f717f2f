//! Unifies game controllers into one canonical virtual gamepad: value
//! normalisation, the remap table and the event dispatch rules.

pub mod aggregator;
pub mod codes;
pub mod config;
pub mod control;
pub mod domain;
pub mod event;
pub mod identity;
pub mod names;
pub mod notation;
pub mod reader;
pub mod table;
pub mod text;

pub use crate::aggregator::{translate, Aggregator};
pub use crate::config::{
    bool_false, get_dmi, i32_0, match_str, DmiIds, DmiStrings, DtStrings, RinputerConfig,
};
pub use crate::control::parse_command;
pub use crate::domain::remap;
pub use crate::event::{EventKind, InputEvent, Output, Reaction, RinputerEvent};
pub use crate::identity::InputRemap;
pub use crate::reader::{AxisRange, Calibration, DeviceInfo, Verdict};
pub use crate::table::RemapTable;
