//! The ordered collection of notes and its storage round trip.

use vstd::pervasive::VecAdditionalExecFns;
use vstd::prelude::*;

use crate::codec::{decode_notes, encode_notes, notes_view, spec_decode, spec_encode};
use crate::note::Note;

verus! {

/// The ordered collection of notes, in display order, together with the
/// path of the file it persists to. Order is meaningful and duplicates are
/// allowed; identity is positional.
pub struct Notes {
    /// The notes themselves.
    pub map: Vec<Note>,
    /// Where the collection is persisted.
    pub path: String,
}

impl Notes {
    /// An empty collection that will persist to `path`.
    pub fn new(path: String) -> (r: Notes)
        ensures
            r.map@.len() == 0,
            r.path@ == path@,
    {
        Notes { map: Vec::new(), path }
    }

    /// The collection described by stored text: its canonical parse, or an
    /// empty collection if the text is empty or malformed. Loading never
    /// fails on bad content.
    pub fn from_stored(path: String, text: &str) -> (r: Notes)
        ensures
            notes_view(r.map@) == spec_decode(text@),
            r.path@ == path@,
    {
        Notes { map: decode_notes(text), path }
    }

    /// The text to persist: the canonical encoding of the collection.
    pub fn to_stored(&self) -> (r: String)
        ensures
            r@ == spec_encode(notes_view(self.map@)),
    {
        encode_notes(&self.map)
    }

    /// Append a note at the end of the collection.
    pub fn put(&mut self, note: Note)
        ensures
            final(self).map@ == old(self).map@.push(note),
            final(self).path == old(self).path,
    {
        self.map.push(note);
    }

    /// Remove the note at `idx`, shifting the notes after it forward.
    pub fn delete(&mut self, idx: usize)
        requires
            idx < old(self).map@.len(),
        ensures
            final(self).map@ == old(self).map@.remove(idx as int),
            final(self).path == old(self).path,
    {
        self.map.remove(idx);
    }

    /// The note at `idx`, if the index is in range.
    pub fn get(&self, idx: usize) -> (r: Option<&Note>)
        ensures
            match r {
                Some(n) => idx < self.map@.len() && *n == self.map@[idx as int],
                None => idx >= self.map@.len(),
            },
    {
        if idx < self.map.len() {
            Some(&self.map[idx])
        } else {
            Option::None
        }
    }

    /// Replace the note at `idx` with `*note`, handing the old note back
    /// through `note`.
    pub fn update(&mut self, note: &mut Note, idx: usize)
        requires
            idx < old(self).map@.len(),
        ensures
            final(self).map@ == old(self).map@.update(idx as int, *old(note)),
            *final(note) == old(self).map@[idx as int],
            final(self).path == old(self).path,
    {
        self.map.set_and_swap(idx, note);
    }
}

} // verus!
