//! The ways in which a command can fail, and what the user is told.
use vstd::prelude::*;
use vstd::string::StringExecFns;

verus! {

/// Why a command could not be carried out.
#[derive(Debug, Clone, Copy, PartialEq, Eq, Structural)]
pub enum Error {
    /// No class carries the given tag.
    ClassNotFound,
    /// Another class already carries the given tag.
    TagAlreadyExists,
    /// The direction is neither up nor down, or the class is already at that end.
    InvalidMovementDirection,
    /// The class has no assignment with the given number.
    InvalidAssignmentIndex,
    /// The command was given the wrong number of arguments.
    MissingArguments,
    /// An argument that must be a number is not one.
    InvalidArgumentType,
}

impl Error {
    /// The text shown to the user for this error.
    pub open spec fn message(self) -> Seq<char> {
        match self {
            Error::ClassNotFound => "A class with that tag could not be found"@,
            Error::TagAlreadyExists => "A class with that tag already exists. Please choose a different tag or remove that class first"@,
            Error::InvalidMovementDirection => "The given movement command is invalid. Please either use 'u' or 'd' for up or down"@,
            Error::InvalidAssignmentIndex => "An assignment of that index in this class does not exist"@,
            Error::MissingArguments => "An incorrect number of arguments was given. Please run `h` or `help` to view the commands"@,
            Error::InvalidArgumentType => "An argument was given with an invalid type. Please run `h` or `help` to view the commands"@,
        }
    }

    /// Gives the message to put on the screen for this error.
    pub fn show(self) -> (text: String)
        ensures
            text@ == self.message(),
    {
        match self {
            Error::ClassNotFound => String::from_str("A class with that tag could not be found"),
            Error::TagAlreadyExists => String::from_str(
                "A class with that tag already exists. Please choose a different tag or remove that class first",
            ),
            Error::InvalidMovementDirection => String::from_str(
                "The given movement command is invalid. Please either use 'u' or 'd' for up or down",
            ),
            Error::InvalidAssignmentIndex => String::from_str(
                "An assignment of that index in this class does not exist",
            ),
            Error::MissingArguments => String::from_str(
                "An incorrect number of arguments was given. Please run `h` or `help` to view the commands",
            ),
            Error::InvalidArgumentType => String::from_str(
                "An argument was given with an invalid type. Please run `h` or `help` to view the commands",
            ),
        }
    }
}

} // verus!
