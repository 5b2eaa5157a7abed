//! The typed commands of the console, the events exchanged between the
//! console and the worker, and the keyword lookup behind the command parser.

use vstd::prelude::*;
use crate::text::str_eq;

verus! {

/// A closed enumeration of the operator's commands. `Help` and `Exit` are
/// control commands; the rest are transform commands.
#[derive(Clone, Copy, PartialEq, Eq, Structural, Debug)]
pub enum Command {
    Lower,
    Upper,
    Slugify,
    Nospace,
    Title,
    Pascal,
    Passwordify,
    Csv,
    Help,
    Exit,
}

/// The direction and outcome of an event: a request carries `CommandInput`;
/// a response carries `CommandOutput` on success and `CommandError` on failure.
#[derive(Clone, Copy, PartialEq, Eq, Structural, Debug)]
pub enum EventType {
    CommandInput,
    CommandOutput,
    CommandError,
}

/// An unrecognized command keyword.
#[derive(Clone, Copy, PartialEq, Eq, Structural, Debug)]
pub struct CommandParseErr;

/// The one unit exchanged between the console and the worker; it owns its
/// payload string.
pub struct Event {
    pub e_type: EventType,
    pub command: Command,
    pub payload: String,
}

/// The fixed, case-sensitive keyword table of the command parser.
pub open spec fn keyword_of(s: Seq<char>) -> Option<Command> {
    if s == "lower"@ {
        Some(Command::Lower)
    } else if s == "upper"@ {
        Some(Command::Upper)
    } else if s == "nospace"@ {
        Some(Command::Nospace)
    } else if s == "slugify"@ {
        Some(Command::Slugify)
    } else if s == "title"@ {
        Some(Command::Title)
    } else if s == "pascal"@ {
        Some(Command::Pascal)
    } else if s == "password"@ {
        Some(Command::Passwordify)
    } else if s == "csv"@ {
        Some(Command::Csv)
    } else if s == "help"@ {
        Some(Command::Help)
    } else if s == "exit"@ {
        Some(Command::Exit)
    } else {
        None
    }
}

impl Command {
    /// Looks one keyword up in the fixed keyword table.
    pub fn from_str(s: &str) -> (r: Result<Command, CommandParseErr>)
        ensures
            match keyword_of(s@) {
                Some(c) => r == Ok::<Command, CommandParseErr>(c),
                None => r == Err::<Command, CommandParseErr>(CommandParseErr),
            },
    {
        if str_eq(s, "lower") {
            Ok(Command::Lower)
        } else if str_eq(s, "upper") {
            Ok(Command::Upper)
        } else if str_eq(s, "nospace") {
            Ok(Command::Nospace)
        } else if str_eq(s, "slugify") {
            Ok(Command::Slugify)
        } else if str_eq(s, "title") {
            Ok(Command::Title)
        } else if str_eq(s, "pascal") {
            Ok(Command::Pascal)
        } else if str_eq(s, "password") {
            Ok(Command::Passwordify)
        } else if str_eq(s, "csv") {
            Ok(Command::Csv)
        } else if str_eq(s, "help") {
            Ok(Command::Help)
        } else if str_eq(s, "exit") {
            Ok(Command::Exit)
        } else {
            Err(CommandParseErr)
        }
    }
}

} // verus!
