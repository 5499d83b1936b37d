use vstd::prelude::*;
use crate::strutil::str_eq;

verus! {

/// The closed set of command names the interpreter itself implements, with
/// `Unknown` for everything that must be looked up on the search path.
#[derive(Clone, Copy, Debug, PartialEq, Eq, Structural)]
pub enum ShellCommand {
    Exit,
    Echo,
    Type,
    Pwd,
    Cd,
    Unknown,
}

/// Classification of a command name.
pub open spec fn spec_classify(s: Seq<char>) -> ShellCommand {
    if s == "exit"@ {
        ShellCommand::Exit
    } else if s == "echo"@ {
        ShellCommand::Echo
    } else if s == "type"@ {
        ShellCommand::Type
    } else if s == "pwd"@ {
        ShellCommand::Pwd
    } else if s == "cd"@ {
        ShellCommand::Cd
    } else {
        ShellCommand::Unknown
    }
}

impl ShellCommand {
    /// Classify a command name; every name that is not a builtin's is
    /// `Unknown`.
    pub fn from_str(s: &str) -> (r: ShellCommand)
        ensures
            r == spec_classify(s@),
    {
        if str_eq(s, "exit") {
            ShellCommand::Exit
        } else if str_eq(s, "echo") {
            ShellCommand::Echo
        } else if str_eq(s, "type") {
            ShellCommand::Type
        } else if str_eq(s, "pwd") {
            ShellCommand::Pwd
        } else if str_eq(s, "cd") {
            ShellCommand::Cd
        } else {
            ShellCommand::Unknown
        }
    }

    /// The builtins whose output can be captured into a buffer: everything
    /// but `Unknown` and the two that act on the real environment.
    pub open spec fn spec_is_buffering(self) -> bool {
        self == ShellCommand::Echo || self == ShellCommand::Pwd || self == ShellCommand::Type
    }

    /// Whether this builtin writes through the stage's output sink.
    pub fn is_buffering(&self) -> (r: bool)
        ensures
            r == self.spec_is_buffering(),
    {
        match self {
            ShellCommand::Echo => true,
            ShellCommand::Pwd => true,
            ShellCommand::Type => true,
            _ => false,
        }
    }
}

} // verus!
