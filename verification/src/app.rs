//! The interactive note-list state machine.
//!
//! `App` holds the note collection, the selection cursor, and the transient
//! input sub-state through which new titles, categories and edits are typed.
//! Every command handler is total: a command that arrives with no valid
//! selection, or in the wrong input sub-state, is a no-op rather than a
//! panic. Any command other than `Delete` cancels a pending delete
//! confirmation, so two consecutive `Delete` commands are needed to remove a
//! note.

use vstd::prelude::*;

use crate::clock::now_rfc3339;
use crate::note::{note_wf, spec_advance, Note, NoteView, State};
use crate::notes::Notes;
use crate::order::{lemma_lex_le_max, lemma_lex_le_trans, lex_le, lex_le_str, lex_max};
use crate::text::{pop_char, push_char};

verus! {

/// Which text the input box is collecting.
#[derive(Clone, Copy, Debug, PartialEq, Eq, Structural)]
pub enum NoteInputState {
    /// No input is being collected.
    Inactive,
    /// Collecting the title of a new note.
    New,
    /// Collecting a replacement title for the selected note.
    Editting,
    /// Collecting the category of a new note, its title already captured.
    Category,
}

/// The transient input and confirmation state of the interface.
pub struct NoteState {
    /// Which text is being collected.
    pub input_state: NoteInputState,
    /// Whether the input box is shown.
    pub show_input_note: bool,
    /// The title text typed so far.
    pub input: String,
    /// The category text typed so far.
    pub category: String,
    /// Whether a delete awaits its second confirmation.
    pub should_delete: bool,
}

/// The application state: the notes, the selection cursor, and the input
/// sub-state.
pub struct App {
    /// The ordered note collection.
    pub notes: Notes,
    /// The index of the selected note, if any.
    pub selection: Option<usize>,
    /// The transient input and confirmation state.
    pub note_state: NoteState,
}

/// The commands of the interface, abstracted from physical keys.
#[derive(Clone, Copy, Debug, PartialEq, Eq, Structural)]
pub enum Command {
    /// Move the selection down, wrapping at the end.
    Next,
    /// Move the selection up, wrapping at the start.
    Previous,
    /// Arm, or with a second consecutive use confirm, deletion of the
    /// selected note.
    Delete,
    /// Start collecting the title of a new note.
    BeginNewNote,
    /// Start collecting a replacement title for the selected note.
    BeginEditNote,
    /// Advance the workflow state of the selected note.
    AdvanceState,
    /// Move the selected note to the front of the list.
    Prioritize,
    /// Append a character to the buffer being collected.
    AppendChar(char),
    /// Remove the last character of the buffer being collected.
    Backspace,
    /// Abandon the input in progress.
    CancelInput,
    /// Keep the typed title and move on to collecting the category.
    SubmitNewTitle,
    /// Create the new note from the typed title and category.
    SubmitCategory,
    /// Replace the selected note's title with the typed text.
    SubmitEdit,
}

/// The selection after moving down by one in a list of `n` notes, wrapping
/// to the front past the last index; an empty list keeps no selection.
pub open spec fn sel_next(sel: Option<usize>, n: nat) -> Option<usize> {
    if n == 0 {
        Option::None
    } else {
        match sel {
            Some(i) => if i + 1 >= n {
                Some(0usize)
            } else {
                Some((i + 1) as usize)
            },
            Option::None => Some(0usize),
        }
    }
}

/// The selection after moving up by one in a list of `n` notes, wrapping to
/// the back past index zero; an empty list keeps no selection.
pub open spec fn sel_prev(sel: Option<usize>, n: nat) -> Option<usize> {
    if n == 0 {
        Option::None
    } else {
        match sel {
            Some(i) => if i == 0 {
                Some((n - 1) as usize)
            } else {
                Some((i - 1) as usize)
            },
            Option::None => Some(0usize),
        }
    }
}

/// `k` applications of `sel_next`.
pub open spec fn sel_next_k(sel: Option<usize>, n: nat, k: nat) -> Option<usize>
    decreases k,
{
    if k == 0 {
        sel
    } else {
        sel_next(sel_next_k(sel, n, (k - 1) as nat), n)
    }
}

/// `k` applications of `sel_prev`.
pub open spec fn sel_prev_k(sel: Option<usize>, n: nat, k: nat) -> Option<usize>
    decreases k,
{
    if k == 0 {
        sel
    } else {
        sel_prev(sel_prev_k(sel, n, (k - 1) as nat), n)
    }
}

impl App {
    /// The selection, when present, points at a note.
    pub open spec fn wf(self) -> bool {
        match self.selection {
            Some(i) => i < self.notes.map@.len(),
            Option::None => true,
        }
    }
}

/// What `Next` does: it clears a pending delete and moves the selection
/// down by one, wrapping; nothing else changes.
pub open spec fn post_next(pre: App, post: App) -> bool {
    &&& post.notes == pre.notes
    &&& post.note_state == (NoteState { should_delete: false, ..pre.note_state })
    &&& post.selection == sel_next(pre.selection, pre.notes.map@.len())
}

/// What `Previous` does: it clears a pending delete and moves the selection
/// up by one, wrapping; nothing else changes.
pub open spec fn post_previous(pre: App, post: App) -> bool {
    &&& post.notes == pre.notes
    &&& post.note_state == (NoteState { should_delete: false, ..pre.note_state })
    &&& post.selection == sel_prev(pre.selection, pre.notes.map@.len())
}

/// What `CancelInput` does: input becomes inactive, both buffers and the
/// pending delete are cleared; notes and selection stay.
pub open spec fn post_reset(pre: App, post: App) -> bool {
    &&& post.notes == pre.notes
    &&& post.selection == pre.selection
    &&& post.note_state.input_state is Inactive
    &&& !post.note_state.show_input_note
    &&& post.note_state.input@ == Seq::<char>::empty()
    &&& post.note_state.category@ == Seq::<char>::empty()
    &&& !post.note_state.should_delete
}

/// What `BeginNewNote` does: the input box opens to collect a new title,
/// with both buffers cleared; notes and selection stay.
pub open spec fn post_begin_new(pre: App, post: App) -> bool {
    &&& post.notes == pre.notes
    &&& post.selection == pre.selection
    &&& post.note_state.input_state is New
    &&& post.note_state.show_input_note
    &&& post.note_state.input@ == Seq::<char>::empty()
    &&& post.note_state.category@ == Seq::<char>::empty()
    &&& !post.note_state.should_delete
}

/// What `SubmitNewTitle` does: the typed title is kept and the input box
/// moves on to collecting the category; notes and selection stay.
pub open spec fn post_submit_title(pre: App, post: App) -> bool {
    &&& post.notes == pre.notes
    &&& post.selection == pre.selection
    &&& post.note_state == (NoteState {
        input_state: NoteInputState::Category,
        show_input_note: true,
        should_delete: false,
        ..pre.note_state
    })
}

/// What `SubmitCategory` does: a new note is appended, made from the typed
/// title and category, in state `Todo`, with both timestamps equal to one
/// clock reading; the input state is fully reset and the selection stays.
pub open spec fn post_submit_category(pre: App, post: App) -> bool {
    &&& post.selection == pre.selection
    &&& post.notes.path == pre.notes.path
    &&& post.notes.map@.len() == pre.notes.map@.len() + 1
    &&& post.notes.map@ == pre.notes.map@.push(post.notes.map@.last())
    &&& post.notes.map@.last()@.title == pre.note_state.input@
    &&& post.notes.map@.last()@.category == pre.note_state.category@
    &&& post.notes.map@.last()@.state == State::Todo
    &&& post.notes.map@.last()@.created_at == post.notes.map@.last()@.updated_at
    &&& note_wf(post.notes.map@.last()@)
    &&& post.note_state.input_state is Inactive
    &&& !post.note_state.show_input_note
    &&& post.note_state.input@ == Seq::<char>::empty()
    &&& post.note_state.category@ == Seq::<char>::empty()
    &&& !post.note_state.should_delete
}

/// What `BeginEditNote` does: with a valid selection the input box opens to
/// edit the selected note's title, the buffer preloaded with it; with no
/// selection the input box stays closed. Notes and selection stay.
pub open spec fn post_begin_edit(pre: App, post: App) -> bool {
    &&& post.notes == pre.notes
    &&& post.selection == pre.selection
    &&& !post.note_state.should_delete
    &&& post.note_state.category == pre.note_state.category
    &&& match pre.selection {
        Some(i) => {
            if i < pre.notes.map@.len() {
                &&& post.note_state.input_state is Editting
                &&& post.note_state.show_input_note
                &&& post.note_state.input@ == pre.notes.map@[i as int]@.title
            } else {
                &&& post.note_state.input_state == pre.note_state.input_state
                &&& !post.note_state.show_input_note
                &&& post.note_state.input == pre.note_state.input
            }
        },
        Option::None => {
            &&& post.note_state.input_state == pre.note_state.input_state
            &&& !post.note_state.show_input_note
            &&& post.note_state.input == pre.note_state.input
        },
    }
}

/// What `SubmitEdit` does: with a valid selection the selected note's title
/// becomes the typed text, its other fields untouched; then, either way,
/// the input state is fully reset. The selection stays.
pub open spec fn post_submit_edit(pre: App, post: App) -> bool {
    &&& post.selection == pre.selection
    &&& post.notes.path == pre.notes.path
    &&& match pre.selection {
        Some(i) => {
            if i < pre.notes.map@.len() {
                &&& post.notes.map@ == pre.notes.map@.update(
                    i as int,
                    post.notes.map@[i as int],
                )
                &&& post.notes.map@[i as int]@ == (NoteView {
                    title: pre.note_state.input@,
                    ..pre.notes.map@[i as int]@
                })
            } else {
                post.notes.map@ == pre.notes.map@
            }
        },
        Option::None => post.notes.map@ == pre.notes.map@,
    }
    &&& post.note_state.input_state is Inactive
    &&& !post.note_state.show_input_note
    &&& post.note_state.input@ == Seq::<char>::empty()
    &&& post.note_state.category@ == Seq::<char>::empty()
    &&& !post.note_state.should_delete
}

/// What `Delete` does. A first use on a non-empty list only arms the
/// confirmation; a second consecutive use removes the selected note, clears
/// the confirmation, and re-clamps the selection: a removed index of zero
/// selects zero (or nothing if the list became empty), any other removed
/// index selects the note before it. On an empty list, or with a pending
/// confirmation but no selection, nothing changes.
pub open spec fn post_delete(pre: App, post: App) -> bool {
    if !pre.note_state.should_delete {
        if pre.notes.map@.len() == 0 {
            post == pre
        } else {
            &&& post.notes == pre.notes
            &&& post.selection == pre.selection
            &&& post.note_state == (NoteState { should_delete: true, ..pre.note_state })
        }
    } else {
        match pre.selection {
            Some(i) => {
                if i < pre.notes.map@.len() {
                    &&& post.notes.path == pre.notes.path
                    &&& post.notes.map@ == pre.notes.map@.remove(i as int)
                    &&& post.selection == (if i == 0 {
                        if pre.notes.map@.len() == 1 {
                            Option::<usize>::None
                        } else {
                            Some(0usize)
                        }
                    } else {
                        Some((i - 1) as usize)
                    })
                    &&& post.note_state == (NoteState { should_delete: false, ..pre.note_state })
                } else {
                    post == pre
                }
            },
            Option::None => post == pre,
        }
    }
}

/// What `AdvanceState` does when the clock reads `now`: the selected note's
/// workflow state advances one step in the cycle and its update timestamp
/// becomes `now`, unless `now` would move it backward, in which case it is
/// left unchanged; a pending delete is cleared. With no selection only the
/// pending delete is cleared.
pub open spec fn post_advance_with(pre: App, post: App, now: Seq<char>) -> bool {
    &&& post.selection == pre.selection
    &&& post.notes.path == pre.notes.path
    &&& post.note_state == (NoteState { should_delete: false, ..pre.note_state })
    &&& match pre.selection {
        Some(i) => {
            if i < pre.notes.map@.len() {
                &&& post.notes.map@ == pre.notes.map@.update(i as int, post.notes.map@[i as int])
                &&& post.notes.map@[i as int]@ == (NoteView {
                    state: spec_advance(pre.notes.map@[i as int]@.state),
                    updated_at: lex_max(pre.notes.map@[i as int]@.updated_at, now),
                    ..pre.notes.map@[i as int]@
                })
            } else {
                post.notes.map@ == pre.notes.map@
            }
        },
        Option::None => post.notes.map@ == pre.notes.map@,
    }
}

/// What `AdvanceState` does for some clock reading.
pub open spec fn post_advance(pre: App, post: App) -> bool {
    exists|now: Seq<char>| post_advance_with(pre, post, now)
}

/// What `Prioritize` does: the selected note moves to the front, the other
/// notes keep their order, and the moved note stays selected at index zero;
/// a pending delete is cleared. With no selection only the pending delete
/// is cleared.
pub open spec fn post_prioritize(pre: App, post: App) -> bool {
    &&& post.notes.path == pre.notes.path
    &&& post.note_state == (NoteState { should_delete: false, ..pre.note_state })
    &&& match pre.selection {
        Some(i) => {
            if i < pre.notes.map@.len() {
                &&& post.notes.map@ == seq![pre.notes.map@[i as int]] + pre.notes.map@.remove(
                    i as int,
                )
                &&& post.selection == Some(0usize)
            } else {
                &&& post.notes.map@ == pre.notes.map@
                &&& post.selection == pre.selection
            }
        },
        Option::None => {
            &&& post.notes.map@ == pre.notes.map@
            &&& post.selection == pre.selection
        },
    }
}

/// What `AppendChar` does: the character is appended to whichever buffer
/// the input sub-state is collecting, or nowhere when input is inactive; a
/// pending delete is cleared.
pub open spec fn post_append_char(pre: App, post: App, c: char) -> bool {
    &&& post.notes == pre.notes
    &&& post.selection == pre.selection
    &&& post.note_state.input_state == pre.note_state.input_state
    &&& post.note_state.show_input_note == pre.note_state.show_input_note
    &&& !post.note_state.should_delete
    &&& match pre.note_state.input_state {
        NoteInputState::New | NoteInputState::Editting => {
            &&& post.note_state.input@ == pre.note_state.input@.push(c)
            &&& post.note_state.category == pre.note_state.category
        },
        NoteInputState::Category => {
            &&& post.note_state.category@ == pre.note_state.category@.push(c)
            &&& post.note_state.input == pre.note_state.input
        },
        NoteInputState::Inactive => {
            &&& post.note_state.input == pre.note_state.input
            &&& post.note_state.category == pre.note_state.category
        },
    }
}

/// What `Backspace` does: the last character of whichever buffer the input
/// sub-state is collecting is removed, a no-op on an empty buffer or when
/// input is inactive; a pending delete is cleared.
pub open spec fn post_backspace(pre: App, post: App) -> bool {
    &&& post.notes == pre.notes
    &&& post.selection == pre.selection
    &&& post.note_state.input_state == pre.note_state.input_state
    &&& post.note_state.show_input_note == pre.note_state.show_input_note
    &&& !post.note_state.should_delete
    &&& match pre.note_state.input_state {
        NoteInputState::New | NoteInputState::Editting => {
            &&& post.note_state.input@ == (if pre.note_state.input@.len() == 0 {
                pre.note_state.input@
            } else {
                pre.note_state.input@.drop_last()
            })
            &&& post.note_state.category == pre.note_state.category
        },
        NoteInputState::Category => {
            &&& post.note_state.category@ == (if pre.note_state.category@.len() == 0 {
                pre.note_state.category@
            } else {
                pre.note_state.category@.drop_last()
            })
            &&& post.note_state.input == pre.note_state.input
        },
        NoteInputState::Inactive => {
            &&& post.note_state.input == pre.note_state.input
            &&& post.note_state.category == pre.note_state.category
        },
    }
}

impl App {
    /// An application over the given notes: nothing selected, input
    /// inactive, no delete pending.
    pub fn new(items: Notes) -> (r: App)
        ensures
            r.notes == items,
            r.selection is None,
            r.note_state.input_state is Inactive,
            !r.note_state.show_input_note,
            r.note_state.input@ == Seq::<char>::empty(),
            r.note_state.category@ == Seq::<char>::empty(),
            !r.note_state.should_delete,
            r.wf(),
    {
        App {
            notes: items,
            selection: Option::None,
            note_state: NoteState {
                input_state: NoteInputState::Inactive,
                show_input_note: false,
                input: String::new(),
                category: String::new(),
                should_delete: false,
            },
        }
    }

    /// `CancelInput`: abandon any input in progress.
    pub fn reset(&mut self)
        requires
            old(self).wf(),
        ensures
            final(self).wf(),
            post_reset(*old(self), *final(self)),
    {
        self.note_state.show_input_note = false;
        self.note_state.category = String::new();
        self.note_state.input = String::new();
        self.note_state.input_state = NoteInputState::Inactive;
        self.note_state.should_delete = false;
    }

    /// `BeginNewNote`: open the input box to collect a new title.
    pub fn prepare_add_note(&mut self)
        requires
            old(self).wf(),
        ensures
            final(self).wf(),
            post_begin_new(*old(self), *final(self)),
    {
        self.note_state.input = String::new();
        self.note_state.category = String::new();
        self.note_state.input_state = NoteInputState::New;
        self.note_state.show_input_note = true;
        self.note_state.should_delete = false;
    }

    /// `SubmitNewTitle`: keep the typed title and move on to the category.
    pub fn add_note(&mut self)
        requires
            old(self).wf(),
        ensures
            final(self).wf(),
            post_submit_title(*old(self), *final(self)),
    {
        self.prepare_set_category();
    }

    /// Switch the input box to collecting the category.
    pub fn prepare_set_category(&mut self)
        requires
            old(self).wf(),
        ensures
            final(self).wf(),
            post_submit_title(*old(self), *final(self)),
    {
        self.note_state.input_state = NoteInputState::Category;
        self.note_state.show_input_note = true;
        self.note_state.should_delete = false;
    }

    /// `SubmitCategory`: append the new note built from the typed title and
    /// category, then close the input box.
    pub fn set_category(&mut self)
        requires
            old(self).wf(),
        ensures
            final(self).wf(),
            post_submit_category(*old(self), *final(self)),
    {
        let title = self.note_state.input.clone();
        let category = self.note_state.category.clone();
        let note = Note::new(title, category, State::Todo);
        self.notes.put(note);
        self.reset();
    }

    /// `BeginEditNote`: open the input box preloaded with the selected
    /// note's title, or keep it closed when nothing is selected.
    pub fn prepare_edit_note(&mut self)
        requires
            old(self).wf(),
        ensures
            final(self).wf(),
            post_begin_edit(*old(self), *final(self)),
    {
        self.note_state.should_delete = false;
        match self.selection {
            Some(idx) => {
                let title = self.notes.map[idx].title.clone();
                self.note_state.input_state = NoteInputState::Editting;
                self.note_state.show_input_note = true;
                self.note_state.input = title;
            },
            Option::None => {
                self.note_state.show_input_note = false;
            },
        }
    }

    /// `SubmitEdit`: replace the selected note's title with the typed text,
    /// then close the input box.
    pub fn edit_note(&mut self)
        requires
            old(self).wf(),
        ensures
            final(self).wf(),
            post_submit_edit(*old(self), *final(self)),
    {
        match self.selection {
            Some(idx) => {
                let mut n = Note {
                    title: self.note_state.input.clone(),
                    state: self.notes.map[idx].state,
                    category: self.notes.map[idx].category.clone(),
                    created_at: self.notes.map[idx].created_at.clone(),
                    updated_at: self.notes.map[idx].updated_at.clone(),
                };
                self.notes.update(&mut n, idx);
            },
            Option::None => {},
        }
        self.reset();
    }

    /// Open the input box for the given mode: a new note or an edit of the
    /// selected note; any other mode only cancels a pending delete.
    pub fn show_input(&mut self, mode: NoteInputState)
        requires
            old(self).wf(),
        ensures
            final(self).wf(),
            match mode {
                NoteInputState::New => post_begin_new(*old(self), *final(self)),
                NoteInputState::Editting => post_begin_edit(*old(self), *final(self)),
                NoteInputState::Inactive | NoteInputState::Category => *final(self) == (App {
                    note_state: NoteState { should_delete: false, ..old(self).note_state },
                    ..*old(self)
                }),
            },
    {
        match mode {
            NoteInputState::New => self.prepare_add_note(),
            NoteInputState::Editting => self.prepare_edit_note(),
            _ => {
                self.note_state.should_delete = false;
            },
        }
    }

    /// `Next`: select the following note, wrapping past the end.
    pub fn next(&mut self)
        requires
            old(self).wf(),
        ensures
            final(self).wf(),
            post_next(*old(self), *final(self)),
    {
        let n = self.notes.map.len();
        self.note_state.should_delete = false;
        if n == 0 {
            self.selection = Option::None;
        } else {
            match self.selection {
                Some(i) => {
                    let j = if i + 1 >= n {
                        0
                    } else {
                        i + 1
                    };
                    self.selection = Some(j);
                },
                Option::None => {
                    self.selection = Some(0);
                },
            }
        }
    }

    /// `Previous`: select the preceding note, wrapping past the start.
    pub fn previous(&mut self)
        requires
            old(self).wf(),
        ensures
            final(self).wf(),
            post_previous(*old(self), *final(self)),
    {
        let n = self.notes.map.len();
        self.note_state.should_delete = false;
        if n == 0 {
            self.selection = Option::None;
        } else {
            match self.selection {
                Some(i) => {
                    let j = if i == 0 {
                        n - 1
                    } else {
                        i - 1
                    };
                    self.selection = Some(j);
                },
                Option::None => {
                    self.selection = Some(0);
                },
            }
        }
    }

    /// `Delete`: arm the confirmation, or on the second consecutive use
    /// remove the selected note and re-clamp the selection.
    pub fn delete(&mut self)
        requires
            old(self).wf(),
        ensures
            final(self).wf(),
            post_delete(*old(self), *final(self)),
    {
        if self.note_state.should_delete {
            match self.selection {
                Some(i) => {
                    if i < self.notes.map.len() {
                        self.notes.delete(i);
                        if i == 0 {
                            if self.notes.map.len() == 0 {
                                self.selection = Option::None;
                            } else {
                                self.selection = Some(0);
                            }
                        } else {
                            self.selection = Some(i - 1);
                        }
                        self.note_state.should_delete = false;
                    }
                },
                Option::None => {},
            }
        } else {
            if self.notes.map.len() > 0 {
                self.note_state.should_delete = true;
            }
        }
    }

    /// `AdvanceState` at a given clock reading: move the selected note one
    /// step along the workflow cycle and refresh its update timestamp. The
    /// timestamp never moves backward, so a well-formed note stays well
    /// formed and its update timestamp is non-decreasing.
    pub fn update_state_with(&mut self, now: &str)
        requires
            old(self).wf(),
        ensures
            final(self).wf(),
            post_advance_with(*old(self), *final(self), now@),
            match old(self).selection {
                Some(i) => lex_le(
                    old(self).notes.map@[i as int]@.updated_at,
                    final(self).notes.map@[i as int]@.updated_at,
                ) && (note_wf(old(self).notes.map@[i as int]@) ==> note_wf(
                    final(self).notes.map@[i as int]@,
                )),
                Option::None => true,
            },
    {
        self.note_state.should_delete = false;
        match self.selection {
            Some(i) => {
                let old_note = &self.notes.map[i];
                let next_state = old_note.state.advance();
                let updated = if lex_le_str(old_note.updated_at.as_str(), now) {
                    String::from_str(now)
                } else {
                    old_note.updated_at.clone()
                };
                let mut n = Note {
                    title: old_note.title.clone(),
                    state: next_state,
                    category: old_note.category.clone(),
                    created_at: old_note.created_at.clone(),
                    updated_at: updated,
                };
                self.notes.update(&mut n, i);
                proof {
                    let pre_note = old(self).notes.map@[i as int]@;
                    lemma_lex_le_max(pre_note.updated_at, now@);
                    if note_wf(pre_note) {
                        lemma_lex_le_trans(
                            pre_note.created_at,
                            pre_note.updated_at,
                            lex_max(pre_note.updated_at, now@),
                        );
                    }
                }
            },
            Option::None => {},
        }
    }

    /// `AdvanceState`: as `update_state_with`, at the current clock
    /// reading, whatever it turns out to be.
    pub fn update_state(&mut self)
        requires
            old(self).wf(),
        ensures
            final(self).wf(),
            post_advance(*old(self), *final(self)),
            match old(self).selection {
                Some(i) => lex_le(
                    old(self).notes.map@[i as int]@.updated_at,
                    final(self).notes.map@[i as int]@.updated_at,
                ) && (note_wf(old(self).notes.map@[i as int]@) ==> note_wf(
                    final(self).notes.map@[i as int]@,
                )),
                Option::None => true,
            },
    {
        let now = now_rfc3339();
        self.update_state_with(now.as_str());
        proof {
            assert(post_advance_with(*old(self), *self, now@));
        }
    }

    /// `Prioritize`: move the selected note to the front of the list; it
    /// stays selected, now at index zero.
    pub fn prioritize(&mut self)
        requires
            old(self).wf(),
        ensures
            final(self).wf(),
            post_prioritize(*old(self), *final(self)),
    {
        self.note_state.should_delete = false;
        match self.selection {
            Some(i) => {
                let note = self.notes.map.remove(i);
                self.notes.map.insert(0, note);
                self.selection = Some(0);
                proof {
                    assert(self.notes.map@ =~= seq![old(self).notes.map@[i as int]] + old(
                        self,
                    ).notes.map@.remove(i as int));
                }
            },
            Option::None => {},
        }
    }

    /// `AppendChar`: append a character to whichever buffer is being
    /// collected.
    pub fn append_char(&mut self, c: char)
        requires
            old(self).wf(),
        ensures
            final(self).wf(),
            post_append_char(*old(self), *final(self), c),
    {
        self.note_state.should_delete = false;
        match self.note_state.input_state {
            NoteInputState::New | NoteInputState::Editting => {
                push_char(&mut self.note_state.input, c);
            },
            NoteInputState::Category => {
                push_char(&mut self.note_state.category, c);
            },
            NoteInputState::Inactive => {},
        }
    }

    /// `Backspace`: drop the last character of whichever buffer is being
    /// collected.
    pub fn backspace(&mut self)
        requires
            old(self).wf(),
        ensures
            final(self).wf(),
            post_backspace(*old(self), *final(self)),
    {
        self.note_state.should_delete = false;
        match self.note_state.input_state {
            NoteInputState::New | NoteInputState::Editting => {
                pop_char(&mut self.note_state.input);
            },
            NoteInputState::Category => {
                pop_char(&mut self.note_state.category);
            },
            NoteInputState::Inactive => {},
        }
    }

    /// Dispatch one command and say whether the collection must be
    /// persisted afterwards: it must exactly when the command changed the
    /// note sequence itself.
    pub fn handle(&mut self, cmd: Command) -> (persist: bool)
        requires
            old(self).wf(),
        ensures
            final(self).wf(),
            match cmd {
                Command::Next => post_next(*old(self), *final(self)) && !persist,
                Command::Previous => post_previous(*old(self), *final(self)) && !persist,
                Command::Delete => post_delete(*old(self), *final(self)) && persist == (old(
                    self,
                ).note_state.should_delete && old(self).selection is Some),
                Command::BeginNewNote => post_begin_new(*old(self), *final(self)) && !persist,
                Command::BeginEditNote => post_begin_edit(*old(self), *final(self)) && !persist,
                Command::AdvanceState => post_advance(*old(self), *final(self)) && persist == (old(
                    self,
                ).selection is Some),
                Command::Prioritize => post_prioritize(*old(self), *final(self)) && persist == (
                old(self).selection is Some),
                Command::AppendChar(c) => post_append_char(*old(self), *final(self), c)
                    && !persist,
                Command::Backspace => post_backspace(*old(self), *final(self)) && !persist,
                Command::CancelInput => post_reset(*old(self), *final(self)) && !persist,
                Command::SubmitNewTitle => post_submit_title(*old(self), *final(self)) && !persist,
                Command::SubmitCategory => post_submit_category(*old(self), *final(self))
                    && persist,
                Command::SubmitEdit => post_submit_edit(*old(self), *final(self)) && persist == (
                old(self).selection is Some),
            },
    {
        match cmd {
            Command::Next => {
                self.next();
                false
            },
            Command::Previous => {
                self.previous();
                false
            },
            Command::Delete => {
                let armed = self.note_state.should_delete;
                let has_sel = self.selection.is_some();
                self.delete();
                armed && has_sel
            },
            Command::BeginNewNote => {
                self.prepare_add_note();
                false
            },
            Command::BeginEditNote => {
                self.prepare_edit_note();
                false
            },
            Command::AdvanceState => {
                let has_sel = self.selection.is_some();
                self.update_state();
                has_sel
            },
            Command::Prioritize => {
                let has_sel = self.selection.is_some();
                self.prioritize();
                has_sel
            },
            Command::AppendChar(c) => {
                self.append_char(c);
                false
            },
            Command::Backspace => {
                self.backspace();
                false
            },
            Command::CancelInput => {
                self.reset();
                false
            },
            Command::SubmitNewTitle => {
                self.add_note();
                false
            },
            Command::SubmitCategory => {
                self.set_category();
                true
            },
            Command::SubmitEdit => {
                let has_sel = self.selection.is_some();
                self.edit_note();
                has_sel
            },
        }
    }
}

// ---------------------------------------------------------------------------
// The selection wraps around.
// ---------------------------------------------------------------------------

/// After `k` forward steps from index `i` in a list of `n` notes, the
/// selection sits at `i + k`, reduced once past the end.
proof fn lemma_sel_next_k_val(i: usize, n: nat, k: nat)
    requires
        i < n,
        n <= usize::MAX,
        k <= n,
    ensures
        sel_next_k(Some(i), n, k) == (if i + k < n {
            Some((i + k) as usize)
        } else {
            Some((i + k - n) as usize)
        }),
    decreases k,
{
    if k > 0 {
        lemma_sel_next_k_val(i, n, (k - 1) as nat);
    }
}

/// After `k` backward steps from index `i` in a list of `n` notes, the
/// selection sits at `i - k`, raised once past the start.
proof fn lemma_sel_prev_k_val(i: usize, n: nat, k: nat)
    requires
        i < n,
        n <= usize::MAX,
        k <= n,
    ensures
        sel_prev_k(Some(i), n, k) == (if k <= i {
            Some((i - k) as usize)
        } else {
            Some((i + n - k) as usize)
        }),
    decreases k,
{
    if k > 0 {
        lemma_sel_prev_k_val(i, n, (k - 1) as nat);
    }
}

/// In a list of `n` notes, `n` forward steps return the selection to where
/// it started.
pub proof fn lemma_selection_wrap_next(i: usize, n: nat)
    requires
        i < n,
        n <= usize::MAX,
    ensures
        sel_next_k(Some(i), n, n) == Some(i),
{
    lemma_sel_next_k_val(i, n, n);
}

/// In a list of `n` notes, `n` backward steps return the selection to where
/// it started.
pub proof fn lemma_selection_wrap_prev(i: usize, n: nat)
    requires
        i < n,
        n <= usize::MAX,
    ensures
        sel_prev_k(Some(i), n, n) == Some(i),
{
    lemma_sel_prev_k_val(i, n, n);
}

// ---------------------------------------------------------------------------
// Deleting takes two confirmations.
// ---------------------------------------------------------------------------

/// One `Delete` on a selected note leaves the list unchanged and only arms
/// the confirmation; a second consecutive `Delete` removes exactly that
/// note and disarms it.
pub proof fn lemma_delete_two_step(s0: App, s1: App, s2: App, i: usize)
    requires
        s0.wf(),
        !s0.note_state.should_delete,
        s0.selection == Some(i),
        post_delete(s0, s1),
        post_delete(s1, s2),
    ensures
        s1.notes.map@ == s0.notes.map@,
        s1.note_state.should_delete,
        s2.notes.map@ == s0.notes.map@.remove(i as int),
        !s2.note_state.should_delete,
{
}

/// `Next` between two `Delete`s cancels the confirmation: the third
/// `Delete` removes nothing and only begins a new two-step sequence.
pub proof fn lemma_next_cancels_delete(s0: App, s1: App, s2: App, s3: App)
    requires
        s0.wf(),
        !s0.note_state.should_delete,
        s0.notes.map@.len() > 0,
        post_delete(s0, s1),
        post_next(s1, s2),
        post_delete(s2, s3),
    ensures
        s1.notes.map@ == s0.notes.map@,
        s2.notes.map@ == s0.notes.map@,
        s3.notes.map@ == s0.notes.map@,
        s3.note_state.should_delete,
{
}

} // verus!
