use homework_organizer::data_file::DataFile;
use homework_organizer::dispatch::{handle_line, Action};
use homework_organizer::error::Error;

/// The classes of a store, one line each: name, tag and assignments.
fn summary(data_file: &DataFile) -> Vec<String> {
    let mut all = Vec::new();
    for (name, class) in data_file.content.iter() {
        all.push(format!("{} [{}] {:?}", name, class.tag, class.assignments));
    }
    all
}

/// A store that these lines have built; each must succeed.
fn store_after(lines: &[&str]) -> DataFile {
    let mut data_file = DataFile::new();
    for line in lines {
        assert_eq!(handle_line(&mut data_file, line), Action::Save);
    }
    data_file
}

#[test]
fn empty_and_unknown_lines_do_nothing() {
    let mut data_file = store_after(&["ac Algebra ALG"]);
    for line in ["", "\n", "   ", "xyz", "AC Bio BIO", "exit!", "acc Bio BIO", "a c"] {
        assert_eq!(handle_line(&mut data_file, line), Action::Nothing);
    }
    assert_eq!(summary(&data_file), vec!["Algebra [ALG] []"]);
}

#[test]
fn exit_and_help_leave_the_store_alone() {
    let mut data_file = store_after(&["ac Algebra ALG"]);
    assert_eq!(handle_line(&mut data_file, "e\n"), Action::Exit);
    assert_eq!(handle_line(&mut data_file, "exit\n"), Action::Exit);
    assert_eq!(handle_line(&mut data_file, "exit now please\n"), Action::Exit);
    assert_eq!(handle_line(&mut data_file, "h\n"), Action::Help);
    assert_eq!(handle_line(&mut data_file, "help\n"), Action::Help);
    assert_eq!(handle_line(&mut data_file, "  help me\n"), Action::Help);
    assert_eq!(summary(&data_file), vec!["Algebra [ALG] []"]);
}

#[test]
fn add_class_line() {
    let mut data_file = DataFile::new();
    assert_eq!(handle_line(&mut data_file, "ac Algebra ALG\n"), Action::Save);
    assert_eq!(handle_line(&mut data_file, "ac   Bio\tBIO \n"), Action::Save);
    assert_eq!(summary(&data_file), vec!["Algebra [ALG] []", "Bio [BIO] []"]);
    assert_eq!(
        handle_line(&mut data_file, "ac Chemistry ALG\n"),
        Action::Report(Error::TagAlreadyExists)
    );
    assert_eq!(summary(&data_file), vec!["Algebra [ALG] []", "Bio [BIO] []"]);
}

#[test]
fn remove_class_line() {
    let mut data_file = store_after(&["ac A x", "ac B y", "ac C z"]);
    assert_eq!(handle_line(&mut data_file, "rc x\n"), Action::Save);
    assert_eq!(summary(&data_file), vec!["B [y] []", "C [z] []"]);
    assert_eq!(handle_line(&mut data_file, "rc x\n"), Action::Report(Error::ClassNotFound));
}

#[test]
fn change_class_tag_line() {
    let mut data_file = store_after(&["ac A x", "ac B y"]);
    assert_eq!(handle_line(&mut data_file, "cc x w\n"), Action::Save);
    assert_eq!(summary(&data_file), vec!["A [w] []", "B [y] []"]);
    assert_eq!(handle_line(&mut data_file, "cc w y\n"), Action::Report(Error::TagAlreadyExists));
    assert_eq!(handle_line(&mut data_file, "cc x v\n"), Action::Report(Error::ClassNotFound));
    assert_eq!(summary(&data_file), vec!["A [w] []", "B [y] []"]);
}

#[test]
fn move_class_line() {
    let mut data_file = store_after(&["ac A x", "ac B y", "ac C z"]);
    assert_eq!(handle_line(&mut data_file, "mc z u\n"), Action::Save);
    assert_eq!(summary(&data_file), vec!["A [x] []", "C [z] []", "B [y] []"]);
    assert_eq!(handle_line(&mut data_file, "mc x d\n"), Action::Save);
    assert_eq!(summary(&data_file), vec!["C [z] []", "A [x] []", "B [y] []"]);
    assert_eq!(
        handle_line(&mut data_file, "mc z u\n"),
        Action::Report(Error::InvalidMovementDirection)
    );
    assert_eq!(
        handle_line(&mut data_file, "mc y d\n"),
        Action::Report(Error::InvalidMovementDirection)
    );
    assert_eq!(
        handle_line(&mut data_file, "mc x up\n"),
        Action::Report(Error::InvalidMovementDirection)
    );
    assert_eq!(handle_line(&mut data_file, "mc q u\n"), Action::Report(Error::ClassNotFound));
    assert_eq!(summary(&data_file), vec!["C [z] []", "A [x] []", "B [y] []"]);
}

#[test]
fn add_assignment_line_joins_the_words_of_the_text() {
    let mut data_file = store_after(&["ac Algebra ALG"]);
    assert_eq!(handle_line(&mut data_file, "aa ALG HW1\n"), Action::Save);
    assert_eq!(handle_line(&mut data_file, "aa ALG read  chapter\t3 \n"), Action::Save);
    assert_eq!(summary(&data_file), vec!["Algebra [ALG] [\"HW1\", \"read chapter 3\"]"]);
    assert_eq!(handle_line(&mut data_file, "aa BIO HW1\n"), Action::Report(Error::ClassNotFound));
}

#[test]
fn remove_assignment_line_counts_from_one() {
    let mut data_file = store_after(&["ac Algebra ALG", "aa ALG one", "aa ALG two", "aa ALG three"]);
    assert_eq!(handle_line(&mut data_file, "ra ALG 2\n"), Action::Save);
    assert_eq!(summary(&data_file), vec!["Algebra [ALG] [\"one\", \"three\"]"]);
    assert_eq!(handle_line(&mut data_file, "ra ALG +1\n"), Action::Save);
    assert_eq!(summary(&data_file), vec!["Algebra [ALG] [\"three\"]"]);
    assert_eq!(
        handle_line(&mut data_file, "ra ALG 0\n"),
        Action::Report(Error::InvalidAssignmentIndex)
    );
    assert_eq!(
        handle_line(&mut data_file, "ra ALG 2\n"),
        Action::Report(Error::InvalidAssignmentIndex)
    );
    assert_eq!(handle_line(&mut data_file, "ra BIO 1\n"), Action::Report(Error::ClassNotFound));
    assert_eq!(summary(&data_file), vec!["Algebra [ALG] [\"three\"]"]);
}

#[test]
fn remove_assignment_line_wants_a_number() {
    let mut data_file = store_after(&["ac Algebra ALG", "aa ALG one"]);
    for line in [
        "ra ALG one",
        "ra ALG -1",
        "ra ALG 1.5",
        "ra ALG 1x",
        "ra ALG 99999999999999999999999999",
        "ra BIO x",
    ] {
        assert_eq!(handle_line(&mut data_file, line), Action::Report(Error::InvalidArgumentType));
    }
    assert_eq!(summary(&data_file), vec!["Algebra [ALG] [\"one\"]"]);
}

#[test]
fn clear_assignments_line() {
    let mut data_file = store_after(&["ac Algebra ALG", "aa ALG one", "aa ALG two"]);
    assert_eq!(handle_line(&mut data_file, "ca ALG\n"), Action::Save);
    assert_eq!(summary(&data_file), vec!["Algebra [ALG] []"]);
    assert_eq!(handle_line(&mut data_file, "ca ALG\n"), Action::Save);
    assert_eq!(handle_line(&mut data_file, "ca BIO\n"), Action::Report(Error::ClassNotFound));
}

#[test]
fn a_wrong_number_of_arguments_is_reported() {
    let mut data_file = store_after(&["ac Algebra ALG", "aa ALG one"]);
    for line in [
        "ac", "ac Bio", "ac Bio BIO extra", "rc", "rc ALG extra", "cc", "cc ALG", "cc ALG BIO extra",
        "mc", "mc ALG", "mc ALG u extra", "aa", "aa ALG", "ra", "ra ALG", "ra ALG 1 extra",
        "ra ALG x extra", "ca", "ca ALG extra",
    ] {
        assert_eq!(handle_line(&mut data_file, line), Action::Report(Error::MissingArguments));
    }
    assert_eq!(summary(&data_file), vec!["Algebra [ALG] [\"one\"]"]);
}

#[test]
fn tags_stay_distinct_whatever_lines_come() {
    let mut data_file = DataFile::new();
    let lines = [
        "ac A x", "ac B x", "ac B y", "cc y x", "cc x z", "ac C x", "mc x u", "ac A y", "rc z",
        "ac D z", "cc z y", "aa y text", "ca y", "mc z d", "cc y y",
    ];
    for line in lines {
        let _ = handle_line(&mut data_file, line);
        let tags: Vec<String> = data_file.content.values().map(|c| c.tag.clone()).collect();
        for i in 0..tags.len() {
            for j in 0..i {
                assert_ne!(tags[i], tags[j]);
            }
        }
    }
}
