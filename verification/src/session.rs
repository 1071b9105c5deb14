//! Draft Session: the decision core of one note-capture run, kept as an
//! explicit state machine. Each non-terminal state names the one outside
//! action — editor handoff, read-back, a prompt, a directory listing, the
//! final rename — that the caller performs before feeding the outcome back as
//! an event. The session itself touches nothing outside.

use crate::extract::extract;
use crate::extract::is_heading;
use crate::extract::lemma_no_heading_no_title;
use crate::extract::lines_of;
use crate::naming::resolve_destination;
use crate::naming::resolves_to;
use crate::titles::answer_spec;
use crate::titles::candidate_spec;
use crate::titles::classify_answer;
use crate::titles::slug_of;
use crate::titles::slugify;
use crate::titles::Answer;
use vstd::prelude::*;

verus! {

/// The step of a session at which a failure occurred. Every failure aborts
/// the whole run and leaves the scratch file in place.
#[derive(Clone, Copy, PartialEq, Eq, Structural, Debug)]
pub enum WriteError {
    /// The scratch file could not be created.
    CreateFailed,
    /// The editor failed to launch or exited abnormally.
    EditorFailed,
    /// The drafted text could not be read back from the scratch file.
    ReadBackFailed,
    /// An interactive prompt could not read a line.
    PromptFailed,
    /// The target directory could not be listed for collision probing.
    ProbeFailed,
    /// The final rename onto the destination failed.
    CommitFailed,
}

/// The two kinds of failure the tool reports.
#[derive(Clone, Copy, PartialEq, Eq, Structural, Debug)]
pub enum ErrorKind {
    Io,
    Editor,
}

impl WriteError {
    /// Editor trouble is its own kind; every other failure is an I/O error.
    pub open spec fn kind_spec(self) -> ErrorKind {
        match self {
            WriteError::EditorFailed => ErrorKind::Editor,
            _ => ErrorKind::Io,
        }
    }

    pub fn kind(self) -> (k: ErrorKind)
        ensures
            k == self.kind_spec(),
    {
        match self {
            WriteError::EditorFailed => ErrorKind::Editor,
            _ => ErrorKind::Io,
        }
    }
}

/// Where a session stands. Each non-terminal state names the outside action
/// the caller must perform next.
#[derive(Debug)]
pub enum SessionState {
    /// Hand the scratch file to the editor and wait for it to exit.
    AwaitingEditor { override_title: Option<String> },
    /// Read the drafted text back from the scratch file.
    AwaitingContent { override_title: Option<String> },
    /// Show the candidate title and ask the yes/no confirmation question.
    Confirming { candidate: String },
    /// Ask for a brand-new title as one free-text line.
    AwaitingTitle,
    /// List the target directory's filenames for the collision probe.
    Resolving { slug: String },
    /// Rename the scratch file onto the destination filename.
    Committing { destination: String },
    /// Terminal: the note now lives at the destination.
    Committed { destination: String },
    /// Terminal: the run failed; the scratch file stays where it is.
    Failed { error: WriteError },
}

/// The outcome of one outside action, fed back into the session.
#[derive(Debug)]
pub enum SessionEvent {
    /// The editor exited successfully.
    EditorClosed,
    /// The editor failed to launch or exited abnormally.
    EditorCrashed,
    /// The scratch file's full text, read back after editing.
    ContentRead { content: String },
    /// The scratch file could not be read back.
    ReadFailed,
    /// One line of input, answering whichever prompt the state asked for.
    PromptAnswered { reply: String },
    /// The prompt could not read a line (for instance, stdin closed).
    PromptUnreadable,
    /// The filenames present in the target directory.
    DirectoryListed { names: Vec<String> },
    /// The target directory could not be listed.
    ListingFailed,
    /// The rename onto the destination succeeded.
    Renamed,
    /// The rename onto the destination failed.
    RenameFailed,
}

/// The session's transition relation: everything one step may do. An event
/// that does not belong to the current state leaves the session unchanged.
pub open spec fn step_rel(pre: SessionState, ev: SessionEvent, post: SessionState) -> bool {
    match (pre, ev) {
        (
            SessionState::AwaitingEditor { override_title },
            SessionEvent::EditorClosed,
        ) => post == (SessionState::AwaitingContent { override_title }),
        (
            SessionState::AwaitingEditor { .. },
            SessionEvent::EditorCrashed,
        ) => post == (SessionState::Failed { error: WriteError::EditorFailed }),
        (
            SessionState::AwaitingContent { override_title },
            SessionEvent::ContentRead { content },
        ) => match candidate_spec(content@, override_title.deep_view()) {
            Some(t) => post matches SessionState::Confirming { candidate } && candidate@ == t,
            None => post == SessionState::AwaitingTitle,
        },
        (
            SessionState::AwaitingContent { .. },
            SessionEvent::ReadFailed,
        ) => post == (SessionState::Failed { error: WriteError::ReadBackFailed }),
        (
            SessionState::Confirming { candidate },
            SessionEvent::PromptAnswered { reply },
        ) => match answer_spec(reply@) {
            Answer::KeepCandidate => post matches SessionState::Resolving { slug } && slug@
                == slug_of(candidate@),
            Answer::WantsNewTitle => post == SessionState::AwaitingTitle,
            Answer::AskAgain => post == (SessionState::Confirming { candidate }),
        },
        (
            SessionState::Confirming { .. },
            SessionEvent::PromptUnreadable,
        ) => post == (SessionState::Failed { error: WriteError::PromptFailed }),
        (
            SessionState::AwaitingTitle,
            SessionEvent::PromptAnswered { reply },
        ) => post matches SessionState::Resolving { slug } && slug@ == slug_of(reply@),
        (
            SessionState::AwaitingTitle,
            SessionEvent::PromptUnreadable,
        ) => post == (SessionState::Failed { error: WriteError::PromptFailed }),
        (
            SessionState::Resolving { slug },
            SessionEvent::DirectoryListed { names },
        ) => post matches SessionState::Committing { destination } && resolves_to(
            names.deep_view(),
            slug@,
            destination@,
        ),
        (
            SessionState::Resolving { .. },
            SessionEvent::ListingFailed,
        ) => post == (SessionState::Failed { error: WriteError::ProbeFailed }),
        (
            SessionState::Committing { destination },
            SessionEvent::Renamed,
        ) => post == (SessionState::Committed { destination }),
        (
            SessionState::Committing { .. },
            SessionEvent::RenameFailed,
        ) => post == (SessionState::Failed { error: WriteError::CommitFailed }),
        (s, _) => post == s,
    }
}

/// A fresh session: the scratch file was just created, the editor runs next.
pub fn begin(override_title: Option<String>) -> (s: SessionState)
    ensures
        s == (SessionState::AwaitingEditor { override_title }),
{
    SessionState::AwaitingEditor { override_title }
}

/// Advance the session by one event.
pub fn step(state: SessionState, event: SessionEvent) -> (next: SessionState)
    ensures
        step_rel(state, event, next),
{
    match (state, event) {
        (
            SessionState::AwaitingEditor { override_title },
            SessionEvent::EditorClosed,
        ) => SessionState::AwaitingContent { override_title },
        (
            SessionState::AwaitingEditor { override_title },
            SessionEvent::EditorCrashed,
        ) => SessionState::Failed { error: WriteError::EditorFailed },
        (
            SessionState::AwaitingContent { override_title },
            SessionEvent::ContentRead { content },
        ) => {
            let candidate = match override_title {
                Some(t) => Some(t),
                None => extract(content.as_str()),
            };
            match candidate {
                Some(c) => SessionState::Confirming { candidate: c },
                None => SessionState::AwaitingTitle,
            }
        },
        (
            SessionState::AwaitingContent { override_title },
            SessionEvent::ReadFailed,
        ) => SessionState::Failed { error: WriteError::ReadBackFailed },
        (
            SessionState::Confirming { candidate },
            SessionEvent::PromptAnswered { reply },
        ) => match classify_answer(reply.as_str()) {
            Answer::KeepCandidate => SessionState::Resolving {
                slug: slugify(candidate.as_str()),
            },
            Answer::WantsNewTitle => SessionState::AwaitingTitle,
            Answer::AskAgain => SessionState::Confirming { candidate },
        },
        (
            SessionState::Confirming { candidate },
            SessionEvent::PromptUnreadable,
        ) => SessionState::Failed { error: WriteError::PromptFailed },
        (
            SessionState::AwaitingTitle,
            SessionEvent::PromptAnswered { reply },
        ) => SessionState::Resolving { slug: slugify(reply.as_str()) },
        (
            SessionState::AwaitingTitle,
            SessionEvent::PromptUnreadable,
        ) => SessionState::Failed { error: WriteError::PromptFailed },
        (
            SessionState::Resolving { slug },
            SessionEvent::DirectoryListed { names },
        ) => SessionState::Committing {
            destination: resolve_destination(&names, slug.as_str()),
        },
        (
            SessionState::Resolving { slug },
            SessionEvent::ListingFailed,
        ) => SessionState::Failed { error: WriteError::ProbeFailed },
        (
            SessionState::Committing { destination },
            SessionEvent::Renamed,
        ) => SessionState::Committed { destination },
        (
            SessionState::Committing { destination },
            SessionEvent::RenameFailed,
        ) => SessionState::Failed { error: WriteError::CommitFailed },
        (s, _) => s,
    }
}

/// With no override and no heading anywhere in the draft, the resolver never
/// auto-accepts a candidate: reading the content back leads straight to the
/// free-text prompt.
pub proof fn lemma_no_heading_goes_to_free_text(content: String, post: SessionState)
    requires
        forall|j: int|
            0 <= j < lines_of(content@).len() ==> !is_heading(lines_of(content@)[j]),
        step_rel(
            (SessionState::AwaitingContent { override_title: None }),
            (SessionEvent::ContentRead { content }),
            post,
        ),
    ensures
        post == SessionState::AwaitingTitle,
{
    lemma_no_heading_no_title(content@);
}

/// A supplied override wins: reading back any drafted text confirms the
/// override as it stands, and the draft's own headings are never consulted.
pub proof fn lemma_override_wins(title: String, content: String, post: SessionState)
    requires
        step_rel(
            (SessionState::AwaitingContent { override_title: Some(title) }),
            (SessionEvent::ContentRead { content }),
            post,
        ),
    ensures
        post matches SessionState::Confirming { candidate } && candidate@ == title@,
{
}

} // verus!
