//! The control protocol: one command per line.

use crate::event::RinputerEvent;
use crate::identity::InputRemap;
use crate::notation::denoted;
use crate::text::{same_text, split_in_two, split_parts, strip_prefix};
use vstd::prelude::*;

verus! {

/// A line of the control channel, taken apart.
#[derive(Clone, Copy, Debug)]
pub enum Command<'a> {
    /// `map <source> as <target>`, with the two texts not yet read.
    Remap(&'a str, &'a str),
    /// `reset`, and nothing else on the line.
    Reset,
    /// `print`, and nothing else on the line.
    Print,
    /// Anything else: the line is passed over.
    Nothing,
}

/// The mathematical content of a line taken apart.
pub enum Shape {
    Remap(Seq<char>, Seq<char>),
    Reset,
    Print,
    Nothing,
}

impl<'a> View for Command<'a> {
    type V = Shape;

    open spec fn view(&self) -> Shape {
        match *self {
            Command::Remap(from, to) => Shape::Remap(from@, to@),
            Command::Reset => Shape::Reset,
            Command::Print => Shape::Print,
            Command::Nothing => Shape::Nothing,
        }
    }
}

/// How a line is taken apart. A map command is `map`, a blank and a text
/// that holds ` as ` exactly once, between the source and the target. The
/// reset command is the line `reset` and the print command the line `print`,
/// with nothing before or behind the word. Any other line is nothing.
pub open spec fn shape_of(line: Seq<char>) -> Shape {
    if "map "@.is_prefix_of(line) {
        match split_parts(line.skip("map "@.len() as int), " as "@) {
            Some((from, to)) => Shape::Remap(from, to),
            None => Shape::Nothing,
        }
    } else if line == "reset"@ {
        Shape::Reset
    } else if line == "print"@ {
        Shape::Print
    } else {
        Shape::Nothing
    }
}

/// The message that a line taken apart gives, once its two texts are read:
/// a map command whose texts both denote an identity gives a mapping
/// request, and is passed over otherwise.
pub open spec fn message_of(shape: Shape) -> Option<RinputerEvent> {
    match shape {
        Shape::Remap(from, to) => match (denoted(from), denoted(to)) {
            (Ok(source), Ok(target)) => Some(RinputerEvent::ConfigUpdate(source, target)),
            _ => None,
        },
        Shape::Reset => Some(RinputerEvent::ResetConfig),
        Shape::Print => Some(RinputerEvent::PrintConfig),
        Shape::Nothing => None,
    }
}

/// Takes a line of the control channel apart.
pub fn split_command<'a>(line: &'a str) -> (r: Command<'a>)
    ensures
        r@ == shape_of(line@),
        r is Reset <==> line@ == "reset"@,
        r is Print <==> line@ == "print"@,
{
    proof {
        reveal_strlit("map ");
        reveal_strlit("reset");
        reveal_strlit("print");
    }
    match strip_prefix(line, "map ") {
        Some(rest) => {
            assert(line@[0] == 'm') by {
                let head = line@.subrange(0, "map "@.len() as int);
                assert(head == "map "@);
                assert(head[0] == line@[0]);
            }
            match split_in_two(rest, " as ") {
                Some((from, to)) => Command::Remap(from, to),
                None => Command::Nothing,
            }
        },
        None => {
            if same_text(line, "reset") {
                Command::Reset
            } else if same_text(line, "print") {
                Command::Print
            } else {
                Command::Nothing
            }
        },
    }
}

/// Reads a line of the control channel. `None` stands for a line that is
/// passed over in silence.
pub fn parse_command(line: &str) -> (r: Option<RinputerEvent>)
    ensures
        r == message_of(shape_of(line@)),
        r == Some(RinputerEvent::ResetConfig) <==> line@ == "reset"@,
        r == Some(RinputerEvent::PrintConfig) <==> line@ == "print"@,
{
    match split_command(line) {
        Command::Remap(from, to) => match InputRemap::from_str(from) {
            Ok(source) => match InputRemap::from_str(to) {
                Ok(target) => Some(RinputerEvent::ConfigUpdate(source, target)),
                Err(_) => None,
            },
            Err(_) => None,
        },
        Command::Reset => Some(RinputerEvent::ResetConfig),
        Command::Print => Some(RinputerEvent::PrintConfig),
        Command::Nothing => None,
    }
}

} // verus!
