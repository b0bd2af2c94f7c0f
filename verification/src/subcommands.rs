//! The commands that change a store. Each either succeeds and leaves the store
//! as the model says, or fails with the model's error and leaves it untouched.
use crate::data_file::{
    entry_of, lemma_key_index_is_name_index, lemma_value_replaced, store_of, ClassData, DataFile,
};
use crate::error::Error;
use crate::model::{
    carried_out, down, lemma_add_class_keeps_tags_distinct, lemma_assignments_keep_tags_distinct,
    lemma_change_class_tag_keeps_tags_distinct, lemma_move_class_keeps_tags_distinct,
    lemma_remove_class_keeps_tags_distinct, name_index, spec_add_assignment, spec_add_class,
    spec_change_class_tag, spec_clear_assignments, spec_move_class, spec_remove_assignment,
    spec_remove_class, swapped, tag_index, tags_distinct, up, with_class,
};
use crate::ordered_map::{entries, insert, len, move_index, shift_remove_index};
use crate::text::{same_text, texts};
use vstd::prelude::*;
use vstd::string::StringExecFns;

verus! {

/// Command to add a class
pub const ADD_CLASS_COMMAND: &'static str = "ac";

/// Command to remove a class
pub const REMOVE_CLASS_COMMAND: &'static str = "rc";

/// Command to change a classes tag
pub const CHANGE_CLASS_TAG_COMMAND: &'static str = "cc";

/// Command to move a class up or down
pub const MOVE_CLASS_COMMAND: &'static str = "mc";

/// Command to add an assignment to a specified class
pub const ADD_ASSIGNMENT_COMMAND: &'static str = "aa";

/// Command to remove an assignment from a specified class by its index
pub const REMOVE_ASSIGNMENT_COMMAND: &'static str = "ra";

/// Command to clear assignments in a specified class
pub const CLEAR_ASSIGNMENTS_COMMAND: &'static str = "ca";

/// The text that explains the commands.
pub open spec fn help_text() -> Seq<char> {
    "\n"@ + ADD_CLASS_COMMAND@ + " <class_name> <class_tag>\n    Add a class\n\n"@
        + REMOVE_CLASS_COMMAND@ + " <class_tag>\n    Remove a class\n\n"@
        + CHANGE_CLASS_TAG_COMMAND@
        + " <class_tag> <new_class_tag>\n    Change a classes tag\n\n"@ + MOVE_CLASS_COMMAND@
        + " <class_tag> <class_position>\n    Move a class up [u] or down [d]\n\n"@
        + ADD_ASSIGNMENT_COMMAND@
        + " <class_tag> <assignment>\n    Add an assignment to a class\n\n"@
        + REMOVE_ASSIGNMENT_COMMAND@
        + " <class_tag> <assignment_index>\n    Remove an assignment from a class\n\n"@
        + CLEAR_ASSIGNMENTS_COMMAND@ + " <class_tag>\n    Clear a classes assignments\n"@
}

/// Gives the help message.
pub fn help() -> (text: String)
    ensures
        text@ == help_text(),
{
    let mut text = String::from_str("\n");
    text.append(ADD_CLASS_COMMAND);
    text.append(" <class_name> <class_tag>\n    Add a class\n\n");
    text.append(REMOVE_CLASS_COMMAND);
    text.append(" <class_tag>\n    Remove a class\n\n");
    text.append(CHANGE_CLASS_TAG_COMMAND);
    text.append(" <class_tag> <new_class_tag>\n    Change a classes tag\n\n");
    text.append(MOVE_CLASS_COMMAND);
    text.append(" <class_tag> <class_position>\n    Move a class up [u] or down [d]\n\n");
    text.append(ADD_ASSIGNMENT_COMMAND);
    text.append(" <class_tag> <assignment>\n    Add an assignment to a class\n\n");
    text.append(REMOVE_ASSIGNMENT_COMMAND);
    text.append(" <class_tag> <assignment_index>\n    Remove an assignment from a class\n\n");
    text.append(CLEAR_ASSIGNMENTS_COMMAND);
    text.append(" <class_tag>\n    Clear a classes assignments\n");
    text
}

/// Adds a class without assignments under the given name, behind all others.
///
/// Fails with `TagAlreadyExists` where some class has the tag already. The
/// name is not examined: a class that goes by the name already is replaced by
/// the new one, which takes its place in the order and has no assignments.
pub fn add_class(
    data_file: &mut DataFile,
    class_name: &str,
    class_tag: &str,
) -> (result: Result<(), Error>)
    ensures
        carried_out(
            result,
            old(data_file)@,
            final(data_file)@,
            spec_add_class(old(data_file)@, class_name@, class_tag@),
        ),
        tags_distinct(old(data_file)@) ==> tags_distinct(final(data_file)@),
{
    if data_file.tag_already_exists(class_tag) {
        return Err(Error::TagAlreadyExists);
    }
    let ghost pairs = entries(data_file.content);
    let class = ClassData::new(class_tag, Vec::new());
    let name = String::from_str(class_name);
    insert(&mut data_file.content, name, class);
    proof {
        lemma_key_index_is_name_index(pairs, class_name@);
        assert(texts(Seq::<String>::empty()) =~= Seq::<Seq<char>>::empty());
        match name_index(store_of(pairs), class_name@) {
            Some(i) => {
                lemma_value_replaced(pairs, i, class);
            },
            None => {
                assert(store_of(pairs.push((name, class))) =~= store_of(pairs).push(
                    entry_of((name, class)),
                ));
            },
        }
        if tags_distinct(old(data_file)@) {
            lemma_add_class_keeps_tags_distinct(old(data_file)@, class_name@, class_tag@);
        }
    }
    Ok(())
}

/// Removes the first class with the given tag; the classes behind it move up
/// by one and keep their order.
///
/// Fails with `ClassNotFound` where no class has the tag.
pub fn remove_class(data_file: &mut DataFile, class_tag: &str) -> (result: Result<(), Error>)
    ensures
        carried_out(
            result,
            old(data_file)@,
            final(data_file)@,
            spec_remove_class(old(data_file)@, class_tag@),
        ),
        tags_distinct(old(data_file)@) ==> tags_distinct(final(data_file)@),
{
    let ghost pairs = entries(data_file.content);
    match data_file.find_class_index_from_tag(class_tag) {
        Some(index) => {
            shift_remove_index(&mut data_file.content, index);
            proof {
                assert(store_of(pairs.remove(index as int)) =~= store_of(pairs).remove(
                    index as int,
                ));
                if tags_distinct(old(data_file)@) {
                    lemma_remove_class_keeps_tags_distinct(old(data_file)@, class_tag@);
                }
            }
            Ok(())
        },
        None => Err(Error::ClassNotFound),
    }
}

/// Gives the first class with tag `from_class_tag` the tag `to_class_tag`. Its
/// name, its assignments and its place stay as they are.
///
/// Fails with `TagAlreadyExists` where a class other than the one addressed
/// has the new tag, and with `ClassNotFound` where no class has the old one.
/// To give a class the tag that it has changes nothing and succeeds.
pub fn change_class_tag(
    data_file: &mut DataFile,
    from_class_tag: &str,
    to_class_tag: &str,
) -> (result: Result<(), Error>)
    ensures
        carried_out(
            result,
            old(data_file)@,
            final(data_file)@,
            spec_change_class_tag(old(data_file)@, from_class_tag@, to_class_tag@),
        ),
        tags_distinct(old(data_file)@) ==> tags_distinct(final(data_file)@),
{
    let at = data_file.find_class_index_from_tag(from_class_tag);
    if data_file.tag_exists_elsewhere(to_class_tag, at) {
        return Err(Error::TagAlreadyExists);
    }
    match data_file.find_class_from_tag(from_class_tag) {
        Some((_, class)) => {
            class.tag = String::from_str(to_class_tag);
            proof {
                if tags_distinct(old(data_file)@) {
                    lemma_change_class_tag_keeps_tags_distinct(
                        old(data_file)@,
                        from_class_tag@,
                        to_class_tag@,
                    );
                }
            }
            Ok(())
        },
        None => Err(Error::ClassNotFound),
    }
}

/// Moves the first class with the given tag one place up (`"u"`) or down
/// (`"d"`): it changes places with its neighbour on that side.
///
/// Fails with `ClassNotFound` where no class has the tag, and with
/// `InvalidMovementDirection` where the direction is neither `"u"` nor `"d"`
/// or the class has no neighbour on that side.
pub fn move_class(
    data_file: &mut DataFile,
    class_tag: &str,
    position: &str,
) -> (result: Result<(), Error>)
    ensures
        carried_out(
            result,
            old(data_file)@,
            final(data_file)@,
            spec_move_class(old(data_file)@, class_tag@, position@),
        ),
        tags_distinct(old(data_file)@) ==> tags_distinct(final(data_file)@),
{
    let ghost pairs = entries(data_file.content);
    proof {
        reveal_strlit("u");
        reveal_strlit("d");
        assert("u"@ =~= up());
        assert("d"@ =~= down());
        if tags_distinct(old(data_file)@) {
            lemma_move_class_keeps_tags_distinct(old(data_file)@, class_tag@, position@);
        }
    }
    match data_file.find_class_index_from_tag(class_tag) {
        Some(index) => {
            let count: usize = len(&data_file.content);
            if same_text(position, "u") && index > 0 {
                move_index(&mut data_file.content, index, index - 1);
                proof {
                    assert(store_of(
                        pairs.remove(index as int).insert(index - 1, pairs[index as int]),
                    ) =~= swapped(store_of(pairs), index as int, index - 1));
                }
                Ok(())
            } else if same_text(position, "d") && index + 1 < count {
                move_index(&mut data_file.content, index, index + 1);
                proof {
                    assert(store_of(
                        pairs.remove(index as int).insert(index + 1, pairs[index as int]),
                    ) =~= swapped(store_of(pairs), index as int, index + 1));
                }
                Ok(())
            } else {
                Err(Error::InvalidMovementDirection)
            }
        },
        None => Err(Error::ClassNotFound),
    }
}

/// Puts an assignment behind the others of the first class with the given tag.
///
/// Fails with `ClassNotFound` where no class has the tag.
pub fn add_assignment(
    data_file: &mut DataFile,
    class_tag: &str,
    assignment_name: &str,
) -> (result: Result<(), Error>)
    ensures
        carried_out(
            result,
            old(data_file)@,
            final(data_file)@,
            spec_add_assignment(old(data_file)@, class_tag@, assignment_name@),
        ),
        tags_distinct(old(data_file)@) ==> tags_distinct(final(data_file)@),
{
    match data_file.find_class_from_tag(class_tag) {
        Some((_, class)) => {
            let ghost before = class.assignments@;
            let assignment = String::from_str(assignment_name);
            class.assignments.push(assignment);
            proof {
                assert(texts(before.push(assignment)) =~= texts(before).push(assignment_name@));
                let at = tag_index(old(data_file)@, class_tag@).unwrap();
                if tags_distinct(old(data_file)@) {
                    lemma_assignments_keep_tags_distinct(
                        old(data_file)@,
                        at,
                        texts(before).push(assignment_name@),
                    );
                }
            }
            Ok(())
        },
        None => Err(Error::ClassNotFound),
    }
}

/// Removes the assignment with the given number, counted from one, from the
/// first class with the given tag; the later assignments move up by one.
///
/// Fails with `ClassNotFound` where no class has the tag, and with
/// `InvalidAssignmentIndex` where the number is zero or greater than the
/// number of assignments of the class.
pub fn remove_assignment(
    data_file: &mut DataFile,
    class_tag: &str,
    assignment_index: usize,
) -> (result: Result<(), Error>)
    ensures
        carried_out(
            result,
            old(data_file)@,
            final(data_file)@,
            spec_remove_assignment(old(data_file)@, class_tag@, assignment_index as nat),
        ),
        tags_distinct(old(data_file)@) ==> tags_distinct(final(data_file)@),
{
    match data_file.find_class_from_tag(class_tag) {
        Some((_, class)) => {
            let ghost before = class.assignments@;
            let ghost at = tag_index(old(data_file)@, class_tag@).unwrap();
            let assignment_len: usize = class.assignments.len();
            if 1 <= assignment_index && assignment_index <= assignment_len {
                class.assignments.remove(assignment_index - 1);
                proof {
                    assert(texts(before.remove(assignment_index - 1)) =~= texts(before).remove(
                        assignment_index - 1,
                    ));
                    if tags_distinct(old(data_file)@) {
                        lemma_assignments_keep_tags_distinct(
                            old(data_file)@,
                            at,
                            texts(before).remove(assignment_index - 1),
                        );
                    }
                }
                Ok(())
            } else {
                proof {
                    assert(with_class(old(data_file)@, at, old(data_file)@[at].class) =~= old(
                        data_file,
                    )@);
                }
                Err(Error::InvalidAssignmentIndex)
            }
        },
        None => Err(Error::ClassNotFound),
    }
}

/// Removes all assignments of the first class with the given tag.
///
/// Fails with `ClassNotFound` where no class has the tag.
pub fn clear_assignments(data_file: &mut DataFile, class_tag: &str) -> (result: Result<(), Error>)
    ensures
        carried_out(
            result,
            old(data_file)@,
            final(data_file)@,
            spec_clear_assignments(old(data_file)@, class_tag@),
        ),
        tags_distinct(old(data_file)@) ==> tags_distinct(final(data_file)@),
{
    match data_file.find_class_from_tag(class_tag) {
        Some((_, class)) => {
            class.assignments.clear();
            proof {
                assert(texts(Seq::<String>::empty()) =~= Seq::<Seq<char>>::empty());
                let at = tag_index(old(data_file)@, class_tag@).unwrap();
                if tags_distinct(old(data_file)@) {
                    lemma_assignments_keep_tags_distinct(old(data_file)@, at, Seq::empty());
                }
            }
            Ok(())
        },
        None => Err(Error::ClassNotFound),
    }
}

} // verus!
