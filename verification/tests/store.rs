//! The storage round trip and its tolerance of bad content.

use vodo::note::{Note, State};
use vodo::notes::Notes;

fn note(title: &str, category: &str, state: State) -> Note {
    Note::new(title.to_string(), category.to_string(), state)
}

#[test]
fn empty_collection_round_trips() {
    let notes = Notes::new("notes.json".to_string());
    let text = notes.to_stored();
    assert_eq!(text, "[]");
    let back = Notes::from_stored("notes.json".to_string(), &text);
    assert_eq!(back.map.len(), 0);
}

#[test]
fn collection_round_trips_field_for_field() {
    let mut notes = Notes::new("notes.json".to_string());
    notes.put(note("buy milk", "errands", State::Todo));
    notes.put(note("write report", "work", State::InProgress));
    notes.put(note("", "", State::Unset));
    notes.put(note("old task", "misc", State::Expired));
    let text = notes.to_stored();
    let back = Notes::from_stored("notes.json".to_string(), &text);
    assert_eq!(back.map.len(), notes.map.len());
    for (a, b) in notes.map.iter().zip(back.map.iter()) {
        assert_eq!(a.title, b.title);
        assert_eq!(a.category, b.category);
        assert!(a.state == b.state);
        assert_eq!(a.created_at, b.created_at);
        assert_eq!(a.updated_at, b.updated_at);
    }
}

#[test]
fn titles_with_special_characters_round_trip() {
    let mut notes = Notes::new("n".to_string());
    notes.put(note("say \"hi\"", "quotes", State::Todo));
    notes.put(note("back\\slash", "escapes", State::Done));
    notes.put(note("line\nbreak\tand\rmore", "control", State::Todo));
    notes.put(note("bell\u{7}null\u{0}", "low", State::Todo));
    notes.put(note("caf\u{e9} \u{1F600}", "unicode", State::Todo));
    let text = notes.to_stored();
    let back = Notes::from_stored("n".to_string(), &text);
    assert_eq!(back.map.len(), 5);
    for (a, b) in notes.map.iter().zip(back.map.iter()) {
        assert_eq!(a.title, b.title);
        assert_eq!(a.category, b.category);
    }
}

#[test]
fn stored_form_is_the_expected_record() {
    let mut notes = Notes::new("n".to_string());
    let mut n = note("a", "x", State::Todo);
    n.created_at = "2020-01-01T00:00:00+00:00".to_string();
    n.updated_at = "2020-01-01T00:00:00+00:00".to_string();
    notes.put(n);
    let text = notes.to_stored();
    assert_eq!(
        text,
        "[{\"title\":\"a\",\"state\":\"Todo\",\"category\":\"x\",\
         \"created_at\":\"2020-01-01T00:00:00+00:00\",\
         \"updated_at\":\"2020-01-01T00:00:00+00:00\"}]"
    );
}

#[test]
fn escapes_take_their_canonical_form() {
    let mut notes = Notes::new("n".to_string());
    let mut n = note("a\"b\\c\nd\te\u{1}f", "", State::Todo);
    n.created_at = "t".to_string();
    n.updated_at = "t".to_string();
    notes.put(n);
    let text = notes.to_stored();
    assert_eq!(
        text,
        "[{\"title\":\"a\\u0022b\\u005cc\\nd\\te\\u0001f\",\"state\":\"Todo\",\
         \"category\":\"\",\"created_at\":\"t\",\"updated_at\":\"t\"}]"
    );
    let back = Notes::from_stored("n".to_string(), &text);
    assert_eq!(back.map[0].title, "a\"b\\c\nd\te\u{1}f");
}

#[test]
fn empty_file_loads_as_empty_collection() {
    let back = Notes::from_stored("p".to_string(), "");
    assert_eq!(back.map.len(), 0);
}

#[test]
fn corrupt_file_loads_as_empty_collection() {
    for bad in [
        "not json at all",
        "{",
        "[",
        "[]x",
        "[{\"title\":\"a\"}]",
        "[{\"title\":\"a\",\"state\":\"NoSuchState\",\"category\":\"\",\
         \"created_at\":\"\",\"updated_at\":\"\"}]",
        "[{\"title\":\"unterminated",
        "\u{0}\u{1}\u{2}",
    ] {
        let back = Notes::from_stored("p".to_string(), bad);
        assert_eq!(back.map.len(), 0, "input {:?} must load as empty", bad);
    }
}

#[test]
fn state_tags_round_trip() {
    let states = [
        State::Unset,
        State::Todo,
        State::InProgress,
        State::Done,
        State::Expired,
    ];
    let mut notes = Notes::new("n".to_string());
    for st in states {
        notes.put(note("t", "c", st));
    }
    let text = notes.to_stored();
    let back = Notes::from_stored("n".to_string(), &text);
    assert_eq!(back.map.len(), states.len());
    for (st, b) in states.iter().zip(back.map.iter()) {
        assert!(*st == b.state);
    }
}

#[test]
fn state_labels_match_the_documented_tags() {
    assert_eq!(State::Unset.label(), "");
    assert_eq!(State::Todo.label(), "Todo");
    assert_eq!(State::InProgress.label(), "In progress");
    assert_eq!(State::Done.label(), "Done");
    assert_eq!(State::Expired.label(), "Expired");
}

#[test]
fn error_messages_name_the_failure() {
    assert_eq!(
        vodo::error::Error::UnableToOpenFile.message(),
        "Unable to open file"
    );
    assert_eq!(
        vodo::error::Error::UnableToCreateFile.message(),
        "Unable to create file"
    );
    assert_eq!(
        vodo::error::Error::UnableToSaveFile.message(),
        "Unable to save file"
    );
}

#[test]
fn new_note_has_equal_timestamps() {
    let n = note("t", "c", State::Todo);
    assert_eq!(n.created_at, n.updated_at);
    assert!(n.state == State::Todo);
}

#[test]
fn get_is_by_index() {
    let mut notes = Notes::new("n".to_string());
    notes.put(note("first", "", State::Todo));
    notes.put(note("second", "", State::Todo));
    assert_eq!(notes.get(0).unwrap().title, "first");
    assert_eq!(notes.get(1).unwrap().title, "second");
    assert!(notes.get(2).is_none());
}

#[test]
fn update_swaps_in_the_new_note() {
    let mut notes = Notes::new("n".to_string());
    notes.put(note("old", "c", State::Todo));
    let mut replacement = note("new", "c", State::Done);
    notes.update(&mut replacement, 0);
    assert_eq!(notes.map[0].title, "new");
    assert_eq!(replacement.title, "old");
}

#[test]
fn delete_removes_by_index() {
    let mut notes = Notes::new("n".to_string());
    notes.put(note("a", "", State::Todo));
    notes.put(note("b", "", State::Todo));
    notes.delete(0);
    assert_eq!(notes.map.len(), 1);
    assert_eq!(notes.map[0].title, "b");
}
