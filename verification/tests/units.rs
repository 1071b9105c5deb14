use garden::extract::extract;
use garden::naming::resolve_destination;
use garden::session::ErrorKind;
use garden::session::WriteError;
use garden::titles::classify_answer;
use garden::titles::Answer;

#[test]
fn first_heading_is_extracted() {
    let content = "# Some Title\nbody text\n";
    assert_eq!(extract(content), Some(String::from("Some Title")));
}

#[test]
fn first_heading_wins_over_later_ones() {
    let content = "intro line\n# First\ntext\n# Second\n";
    assert_eq!(extract(content), Some(String::from("First")));
}

#[test]
fn heading_needs_marker_and_space() {
    assert_eq!(extract("#NoSpace\nplain\n"), None);
    assert_eq!(extract("## Second level\n"), None);
    assert_eq!(extract("no heading at all"), None);
    assert_eq!(extract(""), None);
}

#[test]
fn only_the_marker_is_stripped() {
    assert_eq!(extract("#  Spaced Title\n"), Some(String::from(" Spaced Title")));
    assert_eq!(extract("# Trailing \n"), Some(String::from("Trailing ")));
}

#[test]
fn carriage_return_belongs_to_the_line_ending() {
    assert_eq!(extract("# Title\r\nbody\r\n"), Some(String::from("Title")));
}

#[test]
fn heading_on_last_line_without_newline() {
    assert_eq!(extract("body\n# End Title"), Some(String::from("End Title")));
}

#[test]
fn empty_heading_gives_empty_title() {
    assert_eq!(extract("# \nbody\n"), Some(String::from("")));
}

#[test]
fn fresh_slug_in_empty_directory_gets_no_suffix() {
    let names: Vec<String> = Vec::new();
    assert_eq!(resolve_destination(&names, "x"), String::from("x.md"));
}

#[test]
fn three_collisions_yield_suffix_three() {
    let names = vec![
        String::from("note.md"),
        String::from("note1.md"),
        String::from("note2.md"),
    ];
    assert_eq!(resolve_destination(&names, "note"), String::from("note3.md"));
}

#[test]
fn one_collision_yields_suffix_one() {
    let names = vec![String::from("note.md")];
    assert_eq!(resolve_destination(&names, "note"), String::from("note1.md"));
}

#[test]
fn unrelated_files_do_not_collide() {
    let names = vec![String::from("other.md"), String::from("note-book.md")];
    assert_eq!(resolve_destination(&names, "note"), String::from("note.md"));
}

#[test]
fn gap_in_suffixes_is_taken() {
    let names = vec![String::from("note.md"), String::from("note2.md")];
    assert_eq!(resolve_destination(&names, "note"), String::from("note1.md"));
}

#[test]
fn suffix_is_appended_directly_to_a_slug_ending_in_a_digit() {
    let names = vec![String::from("note2.md")];
    assert_eq!(resolve_destination(&names, "note2"), String::from("note21.md"));
}

#[test]
fn resolving_twice_gives_the_same_path() {
    let names = vec![String::from("note.md"), String::from("note1.md")];
    let first = resolve_destination(&names, "note");
    let second = resolve_destination(&names, "note");
    assert_eq!(first, second);
}

#[test]
fn affirmative_replies_ask_for_a_new_title() {
    assert_eq!(classify_answer("y"), Answer::WantsNewTitle);
    assert_eq!(classify_answer("Y"), Answer::WantsNewTitle);
}

#[test]
fn negative_and_empty_replies_keep_the_candidate() {
    assert_eq!(classify_answer(""), Answer::KeepCandidate);
    assert_eq!(classify_answer("n"), Answer::KeepCandidate);
    assert_eq!(classify_answer("N"), Answer::KeepCandidate);
}

#[test]
fn other_replies_repeat_the_question() {
    assert_eq!(classify_answer("maybe"), Answer::AskAgain);
    assert_eq!(classify_answer("yes"), Answer::AskAgain);
    assert_eq!(classify_answer("q"), Answer::AskAgain);
}

#[test]
fn editor_failure_is_its_own_kind() {
    assert_eq!(WriteError::EditorFailed.kind(), ErrorKind::Editor);
}

#[test]
fn every_other_failure_is_an_io_error() {
    assert_eq!(WriteError::CreateFailed.kind(), ErrorKind::Io);
    assert_eq!(WriteError::ReadBackFailed.kind(), ErrorKind::Io);
    assert_eq!(WriteError::PromptFailed.kind(), ErrorKind::Io);
    assert_eq!(WriteError::ProbeFailed.kind(), ErrorKind::Io);
    assert_eq!(WriteError::CommitFailed.kind(), ErrorKind::Io);
}
