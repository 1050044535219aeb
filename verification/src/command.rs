//! The command interface used by the command line application.

use vstd::prelude::*;
use vstd::string::*;

verus! {

/// Error type for commands.
#[derive(Debug, Clone)]
pub enum CommandErr {
    /// When there has been an attempt to call a command that does not exist.
    Lookup,
    /// Something went wrong with the execution of the command.
    Execution(String),
    /// A command was used incorrectly.
    Usage(String),
}

/// The text with which a command error is displayed.
pub open spec fn command_err_text(err: CommandErr) -> Seq<char> {
    match err {
        CommandErr::Lookup => "command lookup failed"@,
        CommandErr::Execution(msg) => "command execution failed: "@ + msg@,
        CommandErr::Usage(msg) => "incorrect usage: "@ + msg@,
    }
}

/// The message of a usage error raised when a command that takes no
/// arguments is given some.
pub open spec fn no_args_usage_text() -> Seq<char> {
    "command that takes no arguments called with arguments"@
}

impl CommandErr {
    /// The human readable description of the error.
    pub fn message(&self) -> (text: String)
        ensures
            text@ == command_err_text(*self),
    {
        match self {
            CommandErr::Lookup => String::from_str("command lookup failed"),
            CommandErr::Execution(msg) => {
                let mut text = String::from_str("command execution failed: ");
                text.append(msg.as_str());
                text
            },
            CommandErr::Usage(msg) => {
                let mut text = String::from_str("incorrect usage: ");
                text.append(msg.as_str());
                text
            },
        }
    }
}

impl From<String> for CommandErr {
    fn from(value: String) -> (err: Self) {
        CommandErr::Execution(value)
    }
}

impl vstd::std_specs::convert::FromSpecImpl<String> for CommandErr {
    open spec fn obeys_from_spec() -> bool {
        true
    }

    open spec fn from_spec(value: String) -> Self {
        CommandErr::Execution(value)
    }
}

/// Trait for commands to implement.
pub trait Command {
    /// How the command is called, self is mut allowing for more dynamic commands.
    fn call(&mut self, args: &[String]) -> Result<(), CommandErr>;
}

/// Generates a usage error when the arguments to a command are not empty,
/// but should be.
pub fn args_are_empty<T>(args: &[T]) -> (res: Result<(), CommandErr>)
    ensures
        args@.len() == 0 <==> res is Ok,
        res matches Err(err) ==> (err matches CommandErr::Usage(msg) && msg@
            == no_args_usage_text()),
{
    if args.len() == 0 {
        Ok(())
    } else {
        Err(CommandErr::Usage(String::from_str("command that takes no arguments called with arguments")))
    }
}

/// Generates a usage error with `usage` as its message unless exactly one
/// argument is given, as the commands that take a file path do.
pub fn expect_one_argument<T>(args: &[T], usage: &str) -> (res: Result<(), CommandErr>)
    ensures
        args@.len() == 1 <==> res is Ok,
        res matches Err(err) ==> (err matches CommandErr::Usage(msg) && msg@ == usage@),
{
    if args.len() == 1 {
        Ok(())
    } else {
        Err(CommandErr::Usage(String::from_str(usage)))
    }
}

} // verus!
