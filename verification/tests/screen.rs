use homework_organizer::data_file::{data_dir, data_file_path, DataFile, DATA_DIR, DATA_FILE_DIR};
use homework_organizer::error::Error;
use homework_organizer::subcommands::{
    add_assignment, add_class, help, ADD_ASSIGNMENT_COMMAND, ADD_CLASS_COMMAND,
    CHANGE_CLASS_TAG_COMMAND, CLEAR_ASSIGNMENTS_COMMAND, MOVE_CLASS_COMMAND,
    REMOVE_ASSIGNMENT_COMMAND, REMOVE_CLASS_COMMAND,
};
use homework_organizer::tui::TUI;

#[test]
fn display_of_an_empty_store_is_empty() {
    let tui = TUI::new();
    assert_eq!(tui.display(&DataFile::new()), "");
}

#[test]
fn display_shows_classes_in_order_with_numbered_assignments() {
    let mut data_file = DataFile::new();
    assert_eq!(add_class(&mut data_file, "Algebra", "ALG"), Ok(()));
    assert_eq!(add_class(&mut data_file, "Bio", "BIO"), Ok(()));
    assert_eq!(add_assignment(&mut data_file, "ALG", "HW1"), Ok(()));
    assert_eq!(add_assignment(&mut data_file, "ALG", "read chapter 3"), Ok(()));
    let tui = TUI::new();
    assert_eq!(
        tui.display(&data_file),
        "[ALG] Algebra:\n    1) HW1\n    2) read chapter 3\n\n[BIO] Bio:\n\n"
    );
}

#[test]
fn display_numbers_run_past_nine() {
    let mut data_file = DataFile::new();
    assert_eq!(add_class(&mut data_file, "A", "x"), Ok(()));
    let mut expected = String::from("[x] A:\n");
    for number in 1..=12 {
        assert_eq!(add_assignment(&mut data_file, "x", "task"), Ok(()));
        expected.push_str(&format!("    {}) task\n", number));
    }
    expected.push('\n');
    assert_eq!(TUI::new().display(&data_file), expected);
}

#[test]
fn help_names_every_command() {
    let expected = "
ac <class_name> <class_tag>
    Add a class

rc <class_tag>
    Remove a class

cc <class_tag> <new_class_tag>
    Change a classes tag

mc <class_tag> <class_position>
    Move a class up [u] or down [d]

aa <class_tag> <assignment>
    Add an assignment to a class

ra <class_tag> <assignment_index>
    Remove an assignment from a class

ca <class_tag>
    Clear a classes assignments
";
    assert_eq!(help(), expected);
}

#[test]
fn command_words() {
    assert_eq!(ADD_CLASS_COMMAND, "ac");
    assert_eq!(REMOVE_CLASS_COMMAND, "rc");
    assert_eq!(CHANGE_CLASS_TAG_COMMAND, "cc");
    assert_eq!(MOVE_CLASS_COMMAND, "mc");
    assert_eq!(ADD_ASSIGNMENT_COMMAND, "aa");
    assert_eq!(REMOVE_ASSIGNMENT_COMMAND, "ra");
    assert_eq!(CLEAR_ASSIGNMENTS_COMMAND, "ca");
}

#[test]
fn every_error_has_its_message() {
    assert_eq!(Error::ClassNotFound.show(), "A class with that tag could not be found");
    assert_eq!(
        Error::TagAlreadyExists.show(),
        "A class with that tag already exists. Please choose a different tag or remove that class first"
    );
    assert_eq!(
        Error::InvalidMovementDirection.show(),
        "The given movement command is invalid. Please either use 'u' or 'd' for up or down"
    );
    assert_eq!(
        Error::InvalidAssignmentIndex.show(),
        "An assignment of that index in this class does not exist"
    );
    assert_eq!(
        Error::MissingArguments.show(),
        "An incorrect number of arguments was given. Please run `h` or `help` to view the commands"
    );
    assert_eq!(
        Error::InvalidArgumentType.show(),
        "An argument was given with an invalid type. Please run `h` or `help` to view the commands"
    );
}

#[test]
fn data_file_lies_below_the_home_directory() {
    assert_eq!(DATA_DIR, "/.local/share/homework_organizer");
    assert_eq!(DATA_FILE_DIR, "/data.json");
    assert_eq!(data_dir("/home/ada"), "/home/ada/.local/share/homework_organizer");
    assert_eq!(
        data_file_path("/home/ada"),
        "/home/ada/.local/share/homework_organizer/data.json"
    );
    assert_eq!(data_file_path(""), "/.local/share/homework_organizer/data.json");
}
