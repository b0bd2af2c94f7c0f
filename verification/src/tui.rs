//! What the user sees of a store.
use crate::data_file::{ClassData, DataFile};
use crate::model::{ClassEntry, Store};
use crate::ordered_map::{get_index, len};
use crate::text::{decimal, texts, to_decimal};
use vstd::prelude::*;
use vstd::string::StringExecFns;

verus! {

/// The line that shows one assignment with its number.
pub open spec fn assignment_line(number: nat, assignment: Seq<char>) -> Seq<char> {
    "    "@ + decimal(number) + ") "@ + assignment + "\n"@
}

/// The lines that show the assignments of a class, numbered from one.
pub open spec fn assignment_lines(assignments: Seq<Seq<char>>) -> Seq<char>
    decreases assignments.len(),
{
    if assignments.len() == 0 {
        Seq::empty()
    } else {
        assignment_lines(assignments.drop_last()) + assignment_line(
            assignments.len(),
            assignments.last(),
        )
    }
}

/// The lines that show one class: its tag and name, its assignments, and an
/// empty line.
pub open spec fn class_lines(entry: ClassEntry) -> Seq<char> {
    "["@ + entry.class.tag + "] "@ + entry.name + ":\n"@ + assignment_lines(
        entry.class.assignments,
    ) + "\n"@
}

/// The text that shows a store: its classes in order.
pub open spec fn screen(store: Store) -> Seq<char>
    decreases store.len(),
{
    if store.len() == 0 {
        Seq::empty()
    } else {
        screen(store.drop_last()) + class_lines(store.last())
    }
}

/// Manager for the application's text user interface.
pub struct TUI {}

impl TUI {
    /// Create new instance of this.
    pub fn new() -> (tui: TUI) {
        TUI {}
    }

    /// The text that shows the current state of the store: for each class its
    /// tag and name, and below them its assignments with their numbers.
    pub fn display(&self, data_file: &DataFile) -> (text: String)
        ensures
            text@ == screen(data_file@),
    {
        let mut text = String::new();
        let count: usize = len(&data_file.content);
        let mut index: usize = 0;
        while index < count
            invariant
                count == data_file@.len(),
                index <= count,
                text@ == screen(data_file@.take(index as int)),
            decreases count - index,
        {
            proof {
                let shown = data_file@.take(index + 1);
                assert(shown.drop_last() =~= data_file@.take(index as int));
            }
            match get_index(&data_file.content, index) {
                Some((name, class)) => {
                    let lines = class_text(name.as_str(), class);
                    text.append(lines.as_str());
                },
                None => {},
            }
            index = index + 1;
        }
        proof {
            assert(data_file@.take(count as int) =~= data_file@);
        }
        text
    }
}

/// The lines that show one class.
fn class_text(name: &str, class: &ClassData) -> (text: String)
    ensures
        text@ == class_lines(ClassEntry { name: name@, class: class@ }),
{
    let mut text = String::from_str("[");
    text.append(class.tag.as_str());
    text.append("] ");
    text.append(name);
    text.append(":\n");
    let ghost head = text@;
    let count: usize = class.assignments.len();
    let mut index: usize = 0;
    while index < count
        invariant
            count == class.assignments.len(),
            index <= count,
            text@ == head + assignment_lines(texts(class.assignments@).take(index as int)),
        decreases count - index,
    {
        proof {
            let shown = texts(class.assignments@).take(index + 1);
            assert(shown.drop_last() =~= texts(class.assignments@).take(index as int));
        }
        text.append("    ");
        text.append(to_decimal(index + 1).as_str());
        text.append(") ");
        text.append(class.assignments[index].as_str());
        text.append("\n");
        index = index + 1;
    }
    proof {
        assert(texts(class.assignments@).take(count as int) =~= texts(class.assignments@));
    }
    text.append("\n");
    text
}

} // verus!
