//! The command handlers of the note-list state machine.

use vodo::app::{App, Command, NoteInputState};
use vodo::note::{Note, State};
use vodo::notes::Notes;

fn app_with(titles: &[&str]) -> App {
    let mut notes = Notes::new("notes.json".to_string());
    for t in titles {
        notes.put(Note::new(t.to_string(), String::new(), State::Todo));
    }
    App::new(notes)
}

fn titles(app: &App) -> Vec<String> {
    app.notes.map.iter().map(|n| n.title.clone()).collect()
}

#[test]
fn next_wraps_after_length_many_steps() {
    let mut app = app_with(&["a", "b", "c"]);
    app.next();
    assert_eq!(app.selection, Some(0));
    let start = app.selection;
    for _ in 0..3 {
        app.next();
    }
    assert_eq!(app.selection, start);
}

#[test]
fn previous_wraps_after_length_many_steps() {
    let mut app = app_with(&["a", "b", "c", "d"]);
    app.next();
    app.next();
    let start = app.selection;
    for _ in 0..4 {
        app.previous();
    }
    assert_eq!(app.selection, start);
}

#[test]
fn next_and_previous_wrap_at_the_ends() {
    let mut app = app_with(&["a", "b"]);
    app.next();
    assert_eq!(app.selection, Some(0));
    app.next();
    assert_eq!(app.selection, Some(1));
    app.next();
    assert_eq!(app.selection, Some(0));
    app.previous();
    assert_eq!(app.selection, Some(1));
}

#[test]
fn navigation_on_empty_list_selects_nothing() {
    let mut app = app_with(&[]);
    app.next();
    assert_eq!(app.selection, None);
    app.previous();
    assert_eq!(app.selection, None);
}

#[test]
fn delete_requires_two_confirmations() {
    let mut app = app_with(&["a", "b"]);
    app.next();
    app.delete();
    assert_eq!(app.notes.map.len(), 2);
    assert!(app.note_state.should_delete);
    app.delete();
    assert_eq!(app.notes.map.len(), 1);
    assert!(!app.note_state.should_delete);
}

#[test]
fn navigating_between_deletes_cancels_the_confirmation() {
    let mut app = app_with(&["a", "b"]);
    app.next();
    app.delete();
    assert!(app.note_state.should_delete);
    app.next();
    assert!(!app.note_state.should_delete);
    app.delete();
    assert_eq!(app.notes.map.len(), 2);
    assert!(app.note_state.should_delete);
}

#[test]
fn confirmed_delete_reclamps_selection() {
    let mut app = app_with(&["A", "B", "C"]);
    app.next();
    app.next();
    assert_eq!(app.selection, Some(1));
    app.delete();
    app.delete();
    assert_eq!(titles(&app), vec!["A".to_string(), "C".to_string()]);
    assert_eq!(app.selection, Some(0));
}

#[test]
fn deleting_the_only_note_clears_the_selection() {
    let mut app = app_with(&["only"]);
    app.next();
    app.delete();
    app.delete();
    assert_eq!(app.notes.map.len(), 0);
    assert_eq!(app.selection, None);
}

#[test]
fn advance_state_cycles_back_after_five_steps() {
    let mut app = app_with(&["a"]);
    app.next();
    let before = app.notes.map[0].state;
    let mut seen = Vec::new();
    for _ in 0..5 {
        app.update_state();
        seen.push(app.notes.map[0].state);
    }
    assert!(seen[0] == State::InProgress);
    assert!(seen[1] == State::Done);
    assert!(seen[2] == State::Expired);
    assert!(seen[3] == State::Unset);
    assert!(seen[4] == before);
}

#[test]
fn advance_state_never_moves_updated_at_backward() {
    let mut app = app_with(&["a"]);
    app.next();
    let mut last = app.notes.map[0].updated_at.clone();
    for _ in 0..5 {
        app.update_state();
        let now = app.notes.map[0].updated_at.clone();
        assert!(last <= now);
        last = now;
    }
    assert!(app.notes.map[0].created_at <= app.notes.map[0].updated_at);
}

#[test]
fn state_advance_cycle_is_closed() {
    for st in [
        State::Unset,
        State::Todo,
        State::InProgress,
        State::Done,
        State::Expired,
    ] {
        let mut s = st;
        for _ in 0..5 {
            s = s.advance();
        }
        assert!(s == st);
    }
}

#[test]
fn typing_a_new_note_creates_it() {
    let mut app = app_with(&[]);
    app.prepare_add_note();
    assert!(app.note_state.show_input_note);
    app.append_char('a');
    app.add_note();
    app.append_char('x');
    app.set_category();
    assert_eq!(app.notes.map.len(), 1);
    assert_eq!(app.notes.map[0].title, "a");
    assert_eq!(app.notes.map[0].category, "x");
    assert!(app.notes.map[0].state == State::Todo);
    assert_eq!(app.selection, None);
    assert!(!app.note_state.show_input_note);
    let text = app.notes.to_stored();
    let back = Notes::from_stored("notes.json".to_string(), &text);
    assert_eq!(back.map.len(), 1);
    assert_eq!(back.map[0].title, "a");
    assert_eq!(back.map[0].category, "x");
}

#[test]
fn the_same_scenario_through_the_command_surface() {
    let mut app = app_with(&[]);
    assert!(!app.handle(Command::BeginNewNote));
    assert!(!app.handle(Command::AppendChar('a')));
    assert!(!app.handle(Command::SubmitNewTitle));
    assert!(!app.handle(Command::AppendChar('x')));
    assert!(app.handle(Command::SubmitCategory));
    assert_eq!(app.notes.map.len(), 1);
    assert_eq!(app.notes.map[0].title, "a");
    assert_eq!(app.notes.map[0].category, "x");
}

#[test]
fn prioritize_moves_the_selected_note_to_the_front() {
    let mut app = app_with(&["A", "B", "C"]);
    app.next();
    app.next();
    app.next();
    assert_eq!(app.selection, Some(2));
    app.prioritize();
    assert_eq!(
        titles(&app),
        vec!["C".to_string(), "A".to_string(), "B".to_string()]
    );
    assert_eq!(app.selection, Some(0));
    assert_eq!(app.notes.map[0].title, "C");
}

#[test]
fn backspace_edits_the_current_buffer() {
    let mut app = app_with(&[]);
    app.prepare_add_note();
    app.append_char('h');
    app.append_char('i');
    app.backspace();
    assert_eq!(app.note_state.input, "h");
    app.backspace();
    app.backspace();
    assert_eq!(app.note_state.input, "");
}

#[test]
fn cancel_input_clears_everything_typed() {
    let mut app = app_with(&[]);
    app.prepare_add_note();
    app.append_char('z');
    app.add_note();
    app.append_char('c');
    app.reset();
    assert!(!app.note_state.show_input_note);
    assert_eq!(app.note_state.input, "");
    assert_eq!(app.note_state.category, "");
    assert_eq!(app.notes.map.len(), 0);
}

#[test]
fn editing_replaces_only_the_title() {
    let mut app = app_with(&["old title"]);
    app.next();
    let before = app.notes.map[0].clone();
    app.show_input(NoteInputState::Editting);
    assert_eq!(app.note_state.input, "old title");
    for _ in 0..9 {
        app.backspace();
    }
    app.append_char('n');
    app.append_char('e');
    app.append_char('w');
    app.edit_note();
    assert_eq!(app.notes.map[0].title, "new");
    assert_eq!(app.notes.map[0].category, before.category);
    assert!(app.notes.map[0].state == before.state);
    assert_eq!(app.notes.map[0].created_at, before.created_at);
    assert_eq!(app.notes.map[0].updated_at, before.updated_at);
}

#[test]
fn edit_without_selection_changes_nothing() {
    let mut app = app_with(&["a"]);
    app.prepare_edit_note();
    assert!(!app.note_state.show_input_note);
    app.edit_note();
    assert_eq!(app.notes.map[0].title, "a");
}

#[test]
fn delete_on_empty_list_is_a_no_op() {
    let mut app = app_with(&[]);
    app.delete();
    assert!(!app.note_state.should_delete);
    app.delete();
    assert_eq!(app.notes.map.len(), 0);
}

#[test]
fn a_single_note_wraps_to_itself() {
    let mut app = app_with(&["only"]);
    app.next();
    assert_eq!(app.selection, Some(0));
    app.next();
    assert_eq!(app.selection, Some(0));
    app.previous();
    assert_eq!(app.selection, Some(0));
}

#[test]
fn typing_outside_an_input_box_changes_no_buffer() {
    let mut app = app_with(&["a"]);
    app.append_char('z');
    app.backspace();
    assert_eq!(app.note_state.input, "");
    assert_eq!(app.note_state.category, "");
}

#[test]
fn advance_state_without_selection_is_a_no_op() {
    let mut app = app_with(&["a"]);
    let before = app.notes.map[0].state;
    app.update_state();
    assert!(app.notes.map[0].state == before);
    app.prioritize();
    assert_eq!(app.notes.map.len(), 1);
}

#[test]
fn handle_reports_when_persistence_is_needed() {
    let mut app = app_with(&["a", "b"]);
    assert!(!app.handle(Command::Next));
    assert!(!app.handle(Command::Delete));
    assert!(app.handle(Command::Delete));
    assert_eq!(app.notes.map.len(), 1);
    assert!(app.handle(Command::AdvanceState));
    assert!(app.handle(Command::Prioritize));
    assert!(!app.handle(Command::CancelInput));
}
