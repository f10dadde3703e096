//! The commands the program knows, and which configuration sources and
//! processing pipelines each one takes part in.

use crate::text::str_eq;
use vstd::prelude::*;
use vstd::string::StringExecFns;

verus! {

#[derive(Clone, Copy, Debug, PartialEq, Eq, Structural)]
pub enum Command {
    Help,
    List,
    Alias,
    Show,
    Clean,
    Add,
    Download,
    Tag,
    Deposit,
    Process,
}

/// The command a word names, if any.
pub open spec fn command_from_spec(s: Seq<char>) -> Option<Command> {
    if s == "help"@ || s == "h"@ || s == "-h"@ || s == "--help"@ {
        Some(Command::Help)
    } else if s == "list"@ || s == "ls"@ || s == "l"@ {
        Some(Command::List)
    } else if s == "alias"@ {
        Some(Command::Alias)
    } else if s == "show"@ {
        Some(Command::Show)
    } else if s == "clean"@ {
        Some(Command::Clean)
    } else if s == "add"@ {
        Some(Command::Add)
    } else if s == "download"@ {
        Some(Command::Download)
    } else if s == "tag"@ {
        Some(Command::Tag)
    } else if s == "deposit"@ {
        Some(Command::Deposit)
    } else if s == "process"@ {
        Some(Command::Process)
    } else {
        None
    }
}

impl Command {
    /// Parse a command word; an unknown word is an error naming it.
    pub fn from(s: &str) -> (r: Result<Command, String>)
        ensures
            match r {
                Ok(c) => command_from_spec(s@) == Some(c),
                Err(m) => command_from_spec(s@) is None && m@ == "Unrecognized command: "@ + s@
                    + ". See 'help'"@,
            },
    {
        if str_eq(s, "help") || str_eq(s, "h") || str_eq(s, "-h") || str_eq(s, "--help") {
            Ok(Command::Help)
        } else if str_eq(s, "list") || str_eq(s, "ls") || str_eq(s, "l") {
            Ok(Command::List)
        } else if str_eq(s, "alias") {
            Ok(Command::Alias)
        } else if str_eq(s, "show") {
            Ok(Command::Show)
        } else if str_eq(s, "clean") {
            Ok(Command::Clean)
        } else if str_eq(s, "add") {
            Ok(Command::Add)
        } else if str_eq(s, "download") {
            Ok(Command::Download)
        } else if str_eq(s, "tag") {
            Ok(Command::Tag)
        } else if str_eq(s, "deposit") {
            Ok(Command::Deposit)
        } else if str_eq(s, "process") {
            Ok(Command::Process)
        } else {
            let mut m = "Unrecognized command: ".to_owned();
            m.append(s);
            m.append(". See 'help'");
            Err(m)
        }
    }

    /// Whether the command reads the library's configuration file.
    pub fn uses_lib_conf(&self) -> (r: bool)
        ensures
            r == (*self == Command::Alias || *self == Command::Clean || *self == Command::Deposit
                || *self == Command::Download || *self == Command::Process || *self
                == Command::Show || *self == Command::Tag),
    {
        match self {
            Command::Alias => true,
            Command::Clean => true,
            Command::Deposit => true,
            Command::Download => true,
            Command::Process => true,
            Command::Show => true,
            Command::Tag => true,
            _ => false,
        }
    }

    /// Whether the command takes command-line options.
    pub fn uses_cli(&self) -> (r: bool)
        ensures
            r == (*self == Command::Clean || *self == Command::Deposit || *self
                == Command::Download || *self == Command::Process || *self == Command::Tag),
    {
        match self {
            Command::Clean => true,
            Command::Deposit => true,
            Command::Download => true,
            Command::Process => true,
            Command::Tag => true,
            _ => false,
        }
    }

    /// Whether the command may stand as a step of the `process` pipeline.
    pub fn is_valid_processing_step(&self) -> (r: bool)
        ensures
            r == (*self == Command::Clean || *self == Command::Deposit || *self
                == Command::Download || *self == Command::Tag),
    {
        match self {
            Command::Clean => true,
            Command::Deposit => true,
            Command::Download => true,
            Command::Tag => true,
            _ => false,
        }
    }
}

} // verus!
