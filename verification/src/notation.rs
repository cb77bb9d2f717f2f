//! The text notation of identities: the name of a button, the name of an
//! axis followed by `@` and a number, or the word for the special action.

use crate::identity::InputRemap;
use crate::names::{axis_code, axis_code_named, key_code, key_code_named};
use crate::text::{parse_i32, parsed_i32, same_text, split_in_two, split_parts};
use vstd::prelude::*;

verus! {

/// The word that denotes the special action.
pub const SPECIAL_ACTION: &'static str = "SteamQuickAccess";

/// The text before the `@` of an axis notation, if `input` has exactly one
/// `@`.
pub open spec fn axis_part(input: Seq<char>) -> Option<Seq<char>> {
    match split_parts(input, "@"@) {
        Some((name, _)) => Some(name),
        None => None,
    }
}

/// The identity that `input` denotes, where `key` is the button that the
/// whole of `input` names, if any, and `axis` the axis that the text before
/// the `@` names, if any.
///
/// The word for the special action, and no other text, denotes the special
/// action. The name of a button denotes the button. The name of an axis,
/// one `@` and a 32-bit number in decimal notation denote the axis with
/// that value. Every other text is refused.
pub open spec fn resolved(input: Seq<char>, key: Option<u16>, axis: Option<u16>) -> Result<
    InputRemap,
    (),
> {
    if input == SPECIAL_ACTION@ {
        Ok(InputRemap::SteamQuickAccess)
    } else {
        match key {
            Some(code) => Ok(InputRemap::Key(code)),
            None => match (split_parts(input, "@"@), axis) {
                (Some((_, number)), Some(code)) => match parsed_i32(number) {
                    Some(value) => Ok(InputRemap::Abs(code, value)),
                    None => Err(()),
                },
                _ => Err(()),
            },
        }
    }
}

/// The identity that `input` denotes.
pub open spec fn denoted(input: Seq<char>) -> Result<InputRemap, ()> {
    resolved(
        input,
        key_code_named(input),
        match axis_part(input) {
            Some(name) => axis_code_named(name),
            None => None,
        },
    )
}

impl InputRemap {
    /// Reads an identity, given what the names in `input` stand for: `key`
    /// for the whole of `input` as a button name, `axis` for the text before
    /// its `@` as an axis name.
    pub fn resolve(input: &str, key: Option<u16>, axis: Option<u16>) -> (r: Result<InputRemap, ()>)
        ensures
            r == resolved(input@, key, axis),
            r == Ok::<InputRemap, ()>(InputRemap::SteamQuickAccess) <==> input@ == SPECIAL_ACTION@,
    {
        if same_text(input, SPECIAL_ACTION) {
            return Ok(InputRemap::SteamQuickAccess);
        }
        if let Some(code) = key {
            return Ok(InputRemap::Key(code));
        }
        match split_in_two(input, "@") {
            Some((_, number)) => match axis {
                Some(code) => match parse_i32(number) {
                    Some(value) => Ok(InputRemap::Abs(code, value)),
                    None => Err(()),
                },
                None => Err(()),
            },
            None => Err(()),
        }
    }

    /// Reads an identity from its text notation.
    pub fn from_str(input: &str) -> (r: Result<InputRemap, ()>)
        ensures
            r == denoted(input@),
            r == Ok::<InputRemap, ()>(InputRemap::SteamQuickAccess) <==> input@ == SPECIAL_ACTION@,
    {
        let key: Option<u16> = key_code(input);
        let axis: Option<u16> = match key {
            Some(_) => None,
            None => match split_in_two(input, "@") {
                Some((name, _)) => axis_code(name),
                None => None,
            },
        };
        InputRemap::resolve(input, key, axis)
    }
}

} // verus!
