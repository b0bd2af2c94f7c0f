//! From a line of input to what is done with it: the line is split into
//! words, the first word names the command, the others are its arguments.
use crate::data_file::DataFile;
use crate::error::Error;
use crate::model::{spec_apply, tags_distinct, Change, Store};
use crate::subcommands::{
    add_assignment, add_class, change_class_tag, clear_assignments, move_class,
    remove_assignment, remove_class, ADD_ASSIGNMENT_COMMAND, ADD_CLASS_COMMAND,
    CHANGE_CLASS_TAG_COMMAND, CLEAR_ASSIGNMENTS_COMMAND, MOVE_CLASS_COMMAND,
    REMOVE_ASSIGNMENT_COMMAND, REMOVE_CLASS_COMMAND,
};
use crate::text::{
    index_of, join_words, joined, parse_number, same_text, split_words, texts, words_of,
};
use vstd::prelude::*;
use vstd::slice::slice_subrange;

verus! {

/// What a line of input asks for.
pub enum Request {
    /// To leave the program.
    Exit,
    /// To see the help message.
    Help,
    /// Nothing: the line is empty or names no command.
    Nothing,
    /// To change the store.
    Change(Change),
    /// Something that cannot be done with these arguments.
    Refused(Error),
}

/// What the words of a line ask for. The first word names the command. A
/// command that changes the store wants its exact number of arguments; only an
/// assignment may run over several words, which single blanks then join.
pub open spec fn request_of(line: Seq<char>) -> Request {
    let words = words_of(line);
    if words.len() == 0 {
        Request::Nothing
    } else if words[0] == "e"@ || words[0] == "exit"@ {
        Request::Exit
    } else if words[0] == "h"@ || words[0] == "help"@ {
        Request::Help
    } else if words[0] == ADD_CLASS_COMMAND@ {
        if words.len() == 3 {
            Request::Change(Change::AddClass { name: words[1], tag: words[2] })
        } else {
            Request::Refused(Error::MissingArguments)
        }
    } else if words[0] == REMOVE_CLASS_COMMAND@ {
        if words.len() == 2 {
            Request::Change(Change::RemoveClass { tag: words[1] })
        } else {
            Request::Refused(Error::MissingArguments)
        }
    } else if words[0] == CHANGE_CLASS_TAG_COMMAND@ {
        if words.len() == 3 {
            Request::Change(Change::ChangeClassTag { from: words[1], to: words[2] })
        } else {
            Request::Refused(Error::MissingArguments)
        }
    } else if words[0] == MOVE_CLASS_COMMAND@ {
        if words.len() == 3 {
            Request::Change(Change::MoveClass { tag: words[1], position: words[2] })
        } else {
            Request::Refused(Error::MissingArguments)
        }
    } else if words[0] == ADD_ASSIGNMENT_COMMAND@ {
        if words.len() >= 3 {
            Request::Change(Change::AddAssignment { tag: words[1], text: joined(words.skip(2)) })
        } else {
            Request::Refused(Error::MissingArguments)
        }
    } else if words[0] == REMOVE_ASSIGNMENT_COMMAND@ {
        if words.len() == 3 {
            match index_of(words[2]) {
                Some(number) => Request::Change(
                    Change::RemoveAssignment { tag: words[1], number: number as nat },
                ),
                None => Request::Refused(Error::InvalidArgumentType),
            }
        } else {
            Request::Refused(Error::MissingArguments)
        }
    } else if words[0] == CLEAR_ASSIGNMENTS_COMMAND@ {
        if words.len() == 2 {
            Request::Change(Change::ClearAssignments { tag: words[1] })
        } else {
            Request::Refused(Error::MissingArguments)
        }
    } else {
        Request::Nothing
    }
}

/// What is left to do when a line has been handled.
#[derive(Debug, Clone, Copy, PartialEq, Eq, Structural)]
pub enum Action {
    /// Leave the program.
    Exit,
    /// Show the help message and wait until the user has read it.
    Help,
    /// The store has changed: write it to the data file.
    Save,
    /// Nothing.
    Nothing,
    /// Show the error and wait until the user has read it.
    Report(Error),
}

/// The store that a line leaves, and what is left to do. Only a command that
/// succeeds changes the store.
pub open spec fn spec_handle_line(store: Store, line: Seq<char>) -> (Store, Action) {
    match request_of(line) {
        Request::Exit => (store, Action::Exit),
        Request::Help => (store, Action::Help),
        Request::Nothing => (store, Action::Nothing),
        Request::Refused(error) => (store, Action::Report(error)),
        Request::Change(change) => match spec_apply(store, change) {
            Ok(changed) => (changed, Action::Save),
            Err(error) => (store, Action::Report(error)),
        },
    }
}

/// What is left to do after a command that changes the store.
fn settle(result: Result<(), Error>) -> (action: Action)
    ensures
        action == match result {
            Ok(_) => Action::Save,
            Err(error) => Action::Report(error),
        },
{
    match result {
        Ok(_) => Action::Save,
        Err(error) => Action::Report(error),
    }
}

/// Carries out the command that a line of input holds, and says what is left
/// to do.
pub fn handle_line(data_file: &mut DataFile, line: &str) -> (action: Action)
    ensures
        (final(data_file)@, action) == spec_handle_line(old(data_file)@, line@),
        tags_distinct(old(data_file)@) ==> tags_distinct(final(data_file)@),
{
    let words = split_words(line);
    let count: usize = words.len();
    if count == 0 {
        return Action::Nothing;
    }
    let command = words[0].as_str();
    if same_text(command, "e") || same_text(command, "exit") {
        Action::Exit
    } else if same_text(command, "h") || same_text(command, "help") {
        Action::Help
    } else if same_text(command, ADD_CLASS_COMMAND) {
        if count == 3 {
            settle(add_class(data_file, words[1].as_str(), words[2].as_str()))
        } else {
            Action::Report(Error::MissingArguments)
        }
    } else if same_text(command, REMOVE_CLASS_COMMAND) {
        if count == 2 {
            settle(remove_class(data_file, words[1].as_str()))
        } else {
            Action::Report(Error::MissingArguments)
        }
    } else if same_text(command, CHANGE_CLASS_TAG_COMMAND) {
        if count == 3 {
            settle(change_class_tag(data_file, words[1].as_str(), words[2].as_str()))
        } else {
            Action::Report(Error::MissingArguments)
        }
    } else if same_text(command, MOVE_CLASS_COMMAND) {
        if count == 3 {
            settle(move_class(data_file, words[1].as_str(), words[2].as_str()))
        } else {
            Action::Report(Error::MissingArguments)
        }
    } else if same_text(command, ADD_ASSIGNMENT_COMMAND) {
        if count >= 3 {
            let rest = slice_subrange(words.as_slice(), 2, count);
            proof {
                assert(texts(rest@) =~= texts(words@).skip(2));
            }
            let assignment = join_words(rest);
            settle(add_assignment(data_file, words[1].as_str(), assignment.as_str()))
        } else {
            Action::Report(Error::MissingArguments)
        }
    } else if same_text(command, REMOVE_ASSIGNMENT_COMMAND) {
        if count == 3 {
            match parse_number(words[2].as_str()) {
                Some(number) => settle(remove_assignment(data_file, words[1].as_str(), number)),
                None => Action::Report(Error::InvalidArgumentType),
            }
        } else {
            Action::Report(Error::MissingArguments)
        }
    } else if same_text(command, CLEAR_ASSIGNMENTS_COMMAND) {
        if count == 2 {
            settle(clear_assignments(data_file, words[1].as_str()))
        } else {
            Action::Report(Error::MissingArguments)
        }
    } else {
        Action::Nothing
    }
}

} // verus!
