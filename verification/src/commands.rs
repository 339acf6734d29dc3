//! The command line as data: what was asked for, once the arguments are read.

use vstd::prelude::*;
use crate::commands::start::StartCommand;

pub mod start;

verus! {

/// What the program is asked to do.
#[derive(Debug, PartialEq, Eq)]
pub enum Command {
    Start(StartCommand),
}

impl Clone for Command {
    fn clone(&self) -> (r: Self)
        ensures
            r == *self,
    {
        match self {
            Command::Start(start) => Command::Start(start.clone()),
        }
    }
}

/// The arguments as read: a subcommand, or the arguments of the default
/// command, `start`, given without naming it.
#[derive(Debug, PartialEq, Eq)]
pub struct Cli {
    pub command: Option<Command>,
    pub start: Option<StartCommand>,
}

impl Cli {
    /// Whether the arguments name a command, by a subcommand or by default.
    pub open spec fn names_command(&self) -> bool {
        self.command is Some || self.start is Some
    }

    /// The command that the arguments name: the subcommand where one was
    /// given, else `start` with its arguments.
    pub open spec fn chosen(&self) -> Command {
        match self.command {
            Some(command) => command,
            None => Command::Start(self.start->0),
        }
    }

    /// The command to run.
    pub fn command(&self) -> (r: Command)
        requires
            self.names_command(),
        ensures
            r == self.chosen(),
    {
        match &self.command {
            Some(command) => command.clone(),
            None => match &self.start {
                Some(start) => Command::Start(start.clone()),
                None => {
                    proof {
                        assert(false);
                    }
                    unreached()
                },
            },
        }
    }
}

} // verus!
