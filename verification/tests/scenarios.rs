use garden::session::begin;
use garden::session::step;
use garden::session::SessionEvent;
use garden::session::SessionState;
use garden::session::WriteError;

#[test]
fn empty_directory_default_accept_commits_my_note() {
    let state = begin(None);
    let state = step(state, SessionEvent::EditorClosed);
    let state = step(
        state,
        SessionEvent::ContentRead { content: String::from("# My Note\nbody text\n") },
    );
    match &state {
        SessionState::Confirming { candidate } => assert_eq!(candidate, "My Note"),
        other => panic!("expected confirmation, got {:?}", other),
    }
    let state = step(state, SessionEvent::PromptAnswered { reply: String::from("") });
    match &state {
        SessionState::Resolving { slug } => assert_eq!(slug, "my-note"),
        other => panic!("expected resolving, got {:?}", other),
    }
    let state = step(state, SessionEvent::DirectoryListed { names: Vec::new() });
    match &state {
        SessionState::Committing { destination } => assert_eq!(destination, "my-note.md"),
        other => panic!("expected committing, got {:?}", other),
    }
    let state = step(state, SessionEvent::Renamed);
    match state {
        SessionState::Committed { destination } => assert_eq!(destination, "my-note.md"),
        other => panic!("expected committed, got {:?}", other),
    }
}

#[test]
fn occupied_directory_default_accept_commits_my_note_one() {
    let state = begin(None);
    let state = step(state, SessionEvent::EditorClosed);
    let state = step(
        state,
        SessionEvent::ContentRead { content: String::from("# My Note\nbody text\n") },
    );
    let state = step(state, SessionEvent::PromptAnswered { reply: String::from("") });
    let state = step(
        state,
        SessionEvent::DirectoryListed { names: vec![String::from("my-note.md")] },
    );
    match state {
        SessionState::Committing { destination } => assert_eq!(destination, "my-note1.md"),
        other => panic!("expected committing, got {:?}", other),
    }
}

#[test]
fn override_is_confirmed_and_replacement_is_slugged() {
    let state = begin(Some(String::from("Custom")));
    let state = step(state, SessionEvent::EditorClosed);
    let state = step(
        state,
        SessionEvent::ContentRead { content: String::from("# My Note\nbody text\n") },
    );
    match &state {
        SessionState::Confirming { candidate } => assert_eq!(candidate, "Custom"),
        other => panic!("expected confirmation of the override, got {:?}", other),
    }
    let state = step(state, SessionEvent::PromptAnswered { reply: String::from("y") });
    match &state {
        SessionState::AwaitingTitle => {}
        other => panic!("expected the free-text prompt, got {:?}", other),
    }
    let state = step(state, SessionEvent::PromptAnswered { reply: String::from("Renamed") });
    match &state {
        SessionState::Resolving { slug } => assert_eq!(slug, "renamed"),
        other => panic!("expected resolving, got {:?}", other),
    }
    let state = step(state, SessionEvent::DirectoryListed { names: Vec::new() });
    match state {
        SessionState::Committing { destination } => assert_eq!(destination, "renamed.md"),
        other => panic!("expected committing, got {:?}", other),
    }
}

#[test]
fn draft_without_heading_goes_straight_to_free_text() {
    let state = begin(None);
    let state = step(state, SessionEvent::EditorClosed);
    let state = step(
        state,
        SessionEvent::ContentRead { content: String::from("just notes\nno heading\n") },
    );
    match state {
        SessionState::AwaitingTitle => {}
        other => panic!("expected the free-text prompt, got {:?}", other),
    }
}

#[test]
fn unclear_reply_repeats_the_question() {
    let state = begin(None);
    let state = step(state, SessionEvent::EditorClosed);
    let state = step(
        state,
        SessionEvent::ContentRead { content: String::from("# Kept\n") },
    );
    let state = step(state, SessionEvent::PromptAnswered { reply: String::from("maybe") });
    match &state {
        SessionState::Confirming { candidate } => assert_eq!(candidate, "Kept"),
        other => panic!("expected the question again, got {:?}", other),
    }
    let state = step(state, SessionEvent::PromptAnswered { reply: String::from("n") });
    match state {
        SessionState::Resolving { slug } => assert_eq!(slug, "kept"),
        other => panic!("expected resolving, got {:?}", other),
    }
}

#[test]
fn editor_crash_fails_the_session() {
    let state = begin(None);
    let state = step(state, SessionEvent::EditorCrashed);
    match state {
        SessionState::Failed { error } => assert_eq!(error, WriteError::EditorFailed),
        other => panic!("expected failure, got {:?}", other),
    }
}

#[test]
fn vanished_scratch_file_fails_the_read_back() {
    let state = begin(None);
    let state = step(state, SessionEvent::EditorClosed);
    let state = step(state, SessionEvent::ReadFailed);
    match state {
        SessionState::Failed { error } => assert_eq!(error, WriteError::ReadBackFailed),
        other => panic!("expected failure, got {:?}", other),
    }
}

#[test]
fn closed_stdin_fails_the_prompt() {
    let state = begin(Some(String::from("Custom")));
    let state = step(state, SessionEvent::EditorClosed);
    let state = step(
        state,
        SessionEvent::ContentRead { content: String::from("text\n") },
    );
    let state = step(state, SessionEvent::PromptUnreadable);
    match state {
        SessionState::Failed { error } => assert_eq!(error, WriteError::PromptFailed),
        other => panic!("expected failure, got {:?}", other),
    }
}

#[test]
fn unlistable_directory_fails_the_probe() {
    let state = begin(Some(String::from("T")));
    let state = step(state, SessionEvent::EditorClosed);
    let state = step(state, SessionEvent::ContentRead { content: String::from("x\n") });
    let state = step(state, SessionEvent::PromptAnswered { reply: String::from("") });
    let state = step(state, SessionEvent::ListingFailed);
    match state {
        SessionState::Failed { error } => assert_eq!(error, WriteError::ProbeFailed),
        other => panic!("expected failure, got {:?}", other),
    }
}

#[test]
fn failed_rename_fails_the_commit() {
    let state = begin(Some(String::from("T")));
    let state = step(state, SessionEvent::EditorClosed);
    let state = step(state, SessionEvent::ContentRead { content: String::from("x\n") });
    let state = step(state, SessionEvent::PromptAnswered { reply: String::from("") });
    let state = step(state, SessionEvent::DirectoryListed { names: Vec::new() });
    let state = step(state, SessionEvent::RenameFailed);
    match state {
        SessionState::Failed { error } => assert_eq!(error, WriteError::CommitFailed),
        other => panic!("expected failure, got {:?}", other),
    }
}
