//! The inspection commands that the library knows by name.

use vstd::prelude::*;
use crate::error::{BackendError, ErrorEnum};
use crate::text::same_text;

verus! {

/// Why a command was not recognised.
#[derive(Debug, Clone, Copy, PartialEq, Eq, Structural)]
pub enum CommandErrors {
    /// The name is not that of a listed command.
    InvalidCommand,
    /// The number is not that of a command.
    InvalidInput,
}

/// A command of the inspection tool.
#[allow(non_camel_case_types)]
#[derive(Debug, Clone, Copy, PartialEq, Eq, Structural)]
pub enum DBCommands {
    dbinfo,
}

/// The names of the listed commands; a name's position is the number that
/// [`DBCommands::from_str`] hands to [`DBCommands::from_u8`].
pub open spec fn listed_commands() -> Seq<Seq<char>> {
    seq![".dbinfo"@]
}

/// The command with the number `val`: only 1 is a command.
pub open spec fn command_of_number(val: u8) -> Result<DBCommands, BackendError> {
    if val == 1 {
        Ok(DBCommands::dbinfo)
    } else {
        Err(BackendError { errors: ErrorEnum::CommandError(CommandErrors::InvalidInput) })
    }
}

/// The command with the name `command`: a listed name goes by its position in
/// the list, and any other name is no command.
pub open spec fn command_of_name(command: Seq<char>) -> Result<DBCommands, BackendError> {
    if command == listed_commands()[0] {
        command_of_number(0)
    } else {
        Err(BackendError { errors: ErrorEnum::CommandError(CommandErrors::InvalidCommand) })
    }
}

impl DBCommands {
    /// Looks the command up by name.
    pub fn from_str(command: &str) -> (r: Result<Self, BackendError>)
        ensures
            r == command_of_name(command@),
    {
        if same_text(command, ".dbinfo") {
            return DBCommands::from_u8(0);
        }
        Err(BackendError::from(CommandErrors::InvalidCommand))
    }

    /// Looks the command up by number.
    pub fn from_u8(val: u8) -> (r: Result<Self, BackendError>)
        ensures
            r == command_of_number(val),
    {
        match val {
            1 => Ok(DBCommands::dbinfo),
            _ => Err(BackendError::from(CommandErrors::InvalidInput)),
        }
    }
}

} // verus!
