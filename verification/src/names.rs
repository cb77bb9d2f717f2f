//! The symbolic names of buttons and axes. The lists of names are those of
//! the `evdev` crate; nothing here is proved of them.

use std::str::FromStr;
use vstd::prelude::*;

verus! {

/// The code of the button or key that `evdev::Key` lists under exactly the
/// name `name`, if it lists one.
pub uninterp spec fn key_code_named(name: Seq<char>) -> Option<u16>;

/// The code of the axis that `evdev::AbsoluteAxisType` lists under exactly
/// the name `name`, if it lists one.
pub uninterp spec fn axis_code_named(name: Seq<char>) -> Option<u16>;

/// Calls `evdev::Key::from_str`, which compares `name` with the names of its
/// key constants and returns the first that is equal. The result depends on
/// `name` alone, and that is all the contract claims.
#[verifier::external_body]
pub(crate) fn key_code(name: &str) -> (r: Option<u16>)
    ensures
        r == key_code_named(name@),
{
    match evdev::Key::from_str(name) {
        Ok(key) => Some(key.code()),
        Err(_) => None,
    }
}

/// Calls `evdev::AbsoluteAxisType::from_str`, which compares `name` with the
/// names of its axis constants and returns the first that is equal. The
/// result depends on `name` alone, and that is all the contract claims.
#[verifier::external_body]
pub(crate) fn axis_code(name: &str) -> (r: Option<u16>)
    ensures
        r == axis_code_named(name@),
{
    match evdev::AbsoluteAxisType::from_str(name) {
        Ok(axis) => Some(axis.0),
        Err(_) => None,
    }
}

} // verus!
