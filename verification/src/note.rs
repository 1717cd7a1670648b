//! A single note and its workflow state.

use vstd::prelude::*;

use crate::clock::now_rfc3339;
use crate::order::{lemma_lex_le_refl, lex_le};

verus! {

/// The workflow state of a note. `Unset` is the default, uninitialized state
/// of a note, not the absence of one.
#[derive(Clone, Copy, Debug, PartialEq, Eq, Structural)]
pub enum State {
    /// No state has been assigned yet.
    Unset,
    /// Still to be worked on.
    Todo,
    /// Being worked on.
    InProgress,
    /// Finished.
    Done,
    /// Its expiry date has been reached.
    Expired,
}

/// The state that follows `s` in the cyclic workflow
/// `Unset -> Todo -> InProgress -> Done -> Expired -> Unset`.
pub open spec fn spec_advance(s: State) -> State {
    match s {
        State::Unset => State::Todo,
        State::Todo => State::InProgress,
        State::InProgress => State::Done,
        State::Done => State::Expired,
        State::Expired => State::Unset,
    }
}

/// The workflow cycle closes: advancing a state exactly five times returns
/// it to where it started.
pub proof fn lemma_state_cycle(s: State)
    ensures
        spec_advance(spec_advance(spec_advance(spec_advance(spec_advance(s))))) == s,
{
}

/// The text tag of a state, used both for rendering and in the storage
/// format.
pub open spec fn spec_label(s: State) -> Seq<char> {
    match s {
        State::Unset => ""@,
        State::Todo => "Todo"@,
        State::InProgress => "In progress"@,
        State::Done => "Done"@,
        State::Expired => "Expired"@,
    }
}

impl State {
    /// The next state in the cyclic workflow.
    pub fn advance(&self) -> (r: State)
        ensures
            r == spec_advance(*self),
    {
        match self {
            State::Unset => State::Todo,
            State::Todo => State::InProgress,
            State::InProgress => State::Done,
            State::Done => State::Expired,
            State::Expired => State::Unset,
        }
    }

    /// The text tag of this state.
    pub fn label(&self) -> (r: &'static str)
        ensures
            r@ == spec_label(*self),
    {
        match self {
            State::Unset => "",
            State::Todo => "Todo",
            State::InProgress => "In progress",
            State::Done => "Done",
            State::Expired => "Expired",
        }
    }
}

/// The mathematical value of a note: its text fields as character sequences.
pub ghost struct NoteView {
    pub title: Seq<char>,
    pub state: State,
    pub category: Seq<char>,
    pub created_at: Seq<char>,
    pub updated_at: Seq<char>,
}

/// A note / todo item.
pub struct Note {
    /// Title of the note as displayed to the user; may be empty.
    pub title: String,
    /// Workflow state of the note.
    pub state: State,
    /// The category of the note; may be empty.
    pub category: String,
    /// When the note was created, as sortable timestamp text.
    pub created_at: String,
    /// When the note was last updated, as sortable timestamp text.
    pub updated_at: String,
}

impl View for Note {
    type V = NoteView;

    open spec fn view(&self) -> NoteView {
        NoteView {
            title: self.title@,
            state: self.state,
            category: self.category@,
            created_at: self.created_at@,
            updated_at: self.updated_at@,
        }
    }
}

/// A note never records an update older than its creation.
pub open spec fn note_wf(n: NoteView) -> bool {
    lex_le(n.created_at, n.updated_at)
}

impl Clone for Note {
    fn clone(&self) -> (r: Self)
        ensures
            r == *self,
    {
        Note {
            title: self.title.clone(),
            state: self.state,
            category: self.category.clone(),
            created_at: self.created_at.clone(),
            updated_at: self.updated_at.clone(),
        }
    }
}

impl Note {
    /// A note created at the given instant: both timestamps are the instant
    /// itself, so the note is well formed.
    pub fn with_time(title: String, category: String, state: State, now: String) -> (r: Note)
        ensures
            r@.title == title@,
            r@.category == category@,
            r@.state == state,
            r@.created_at == now@,
            r@.updated_at == now@,
            note_wf(r@),
    {
        let created = now.clone();
        let r = Note { title, state, category, created_at: created, updated_at: now };
        proof {
            lemma_lex_le_refl(r@.created_at);
        }
        r
    }

    /// Create a new note with a title, a category and a state; both
    /// timestamps are set to the current clock reading.
    pub fn new(title: String, category: String, state: State) -> (r: Note)
        ensures
            r@.title == title@,
            r@.category == category@,
            r@.state == state,
            r@.created_at == r@.updated_at,
            note_wf(r@),
    {
        let now = now_rfc3339();
        Note::with_time(title, category, state, now)
    }
}

} // verus!
