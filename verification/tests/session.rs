use pis_code::check::{CheckMessage, Checker, Diagnostic, Received, Severity};
use pis_code::editor::Editor;
use pis_code::input::{
    finish_save, handle_key, Action, AfterSave, KeyCode, KeyEvent, Response, PAGE_SIZE,
};
use pis_code::session::{
    apply_check_message, react, react_to_save, summarize, Event, Reaction,
};

const PROMPT: &str = "Unsaved changes! Ctrl+Q again to discard, Ctrl+S to save, Esc to cancel";

fn key(code: KeyCode) -> KeyEvent {
    KeyEvent { code, control: false, alt: false }
}

fn control(c: char) -> KeyEvent {
    KeyEvent { code: KeyCode::Char(c), control: true, alt: false }
}

fn go_on() -> Response {
    Response::Done(Action::Continue)
}

fn open() -> Editor {
    Editor::open(String::from("a.cs"), None)
}

fn changed() -> Editor {
    let mut ed = open();
    ed.insert_char('x');
    ed
}

fn diagnostic(line: usize, severity: Severity, code: &str, message: &str) -> Diagnostic {
    Diagnostic { line, col: 0, severity, code: code.to_string(), message: message.to_string() }
}

#[test]
fn keys_edit_and_move() {
    let mut ed = open();
    for code in [
        KeyCode::Char('a'), KeyCode::Char('b'), KeyCode::Enter, KeyCode::Tab, KeyCode::Char('c'),
        KeyCode::Home, KeyCode::Delete, KeyCode::End, KeyCode::Backspace, KeyCode::Up, KeyCode::End,
        KeyCode::Left, KeyCode::Char('{'), KeyCode::Right, KeyCode::Down, KeyCode::Char('!'),
    ] {
        assert_eq!(handle_key(&mut ed, key(code)), go_on());
    }
    assert_eq!(ed.lines, vec!["a{}b".to_string(), "   !".to_string()]);
}

#[test]
fn page_keys_move_by_a_page() {
    let text: String = (0..100).map(|_| "x\n").collect();
    let mut ed = Editor::open(String::from("a.cs"), Some(&text));
    handle_key(&mut ed, key(KeyCode::PageDown));
    assert_eq!(ed.cursor_row, 20);
    assert_eq!(PAGE_SIZE, 20);
    handle_key(&mut ed, key(KeyCode::PageUp));
    assert_eq!(ed.cursor_row, 0);
}

#[test]
fn control_z_and_y_undo_and_redo() {
    let mut ed = changed();
    handle_key(&mut ed, control('z'));
    assert_eq!(ed.lines[0], "");
    handle_key(&mut ed, control('y'));
    assert_eq!(ed.lines[0], "x");
}

#[test]
fn other_keys_with_modifiers_type_nothing() {
    let mut ed = open();
    for event in [
        control('a'),
        KeyEvent { code: KeyCode::Char('a'), control: false, alt: true },
        KeyEvent { code: KeyCode::Char('z'), control: false, alt: true },
        key(KeyCode::Esc),
        key(KeyCode::Other),
    ] {
        assert_eq!(handle_key(&mut ed, event), go_on());
    }
    assert_eq!(ed.lines[0], "");
    assert!(!ed.modified);
}

#[test]
fn modifiers_do_not_matter_for_other_keys() {
    let mut ed = changed();
    handle_key(&mut ed, KeyEvent { code: KeyCode::Backspace, control: true, alt: true });
    assert_eq!(ed.lines[0], "");
}

#[test]
fn quitting_without_changes_is_immediate() {
    let mut ed = open();
    assert_eq!(handle_key(&mut ed, control('q')), Response::Done(Action::Quit));
    assert!(!ed.confirm_quit);
}

#[test]
fn quitting_with_changes_asks_once() {
    let mut ed = changed();
    assert_eq!(handle_key(&mut ed, control('q')), go_on());
    assert!(ed.confirm_quit && ed.status_is_error);
    assert_eq!(ed.status_message, PROMPT);
    assert_eq!(handle_key(&mut ed, control('q')), Response::Done(Action::Quit));
}

#[test]
fn the_question_freezes_the_text() {
    let mut ed = changed();
    handle_key(&mut ed, control('q'));
    for event in [key(KeyCode::Char('a')), key(KeyCode::Enter), key(KeyCode::Left), control('z')] {
        assert_eq!(handle_key(&mut ed, event), go_on());
    }
    assert_eq!(ed.lines, vec!["x".to_string()]);
    assert_eq!(ed.cursor_col, 1);
    assert!(ed.confirm_quit && ed.modified);
}

#[test]
fn escape_cancels_the_question() {
    let mut ed = changed();
    handle_key(&mut ed, control('q'));
    assert_eq!(handle_key(&mut ed, key(KeyCode::Esc)), go_on());
    assert!(!ed.confirm_quit && !ed.status_is_error);
    assert_eq!(ed.status_message, "Cancelled");
    assert_eq!(handle_key(&mut ed, control('q')), go_on());
    assert!(ed.confirm_quit);
}

#[test]
fn saving_at_the_question_leaves_the_program_if_it_succeeds() {
    let mut ed = changed();
    handle_key(&mut ed, control('q'));
    assert_eq!(handle_key(&mut ed, control('s')), Response::Save(AfterSave::Quit));
    let action = finish_save(&mut ed, AfterSave::Quit, Err("no".to_string()));
    assert_eq!(action, Action::Continue);
    assert!(ed.confirm_quit && ed.modified);
    let action = finish_save(&mut ed, AfterSave::Quit, Ok(()));
    assert_eq!(action, Action::Quit);
    assert!(!ed.modified);
}

#[test]
fn saving_is_followed_by_a_check_if_it_succeeds() {
    let mut ed = changed();
    assert_eq!(handle_key(&mut ed, control('s')), Response::Save(AfterSave::Check));
    assert!(ed.modified);
    let action = finish_save(&mut ed, AfterSave::Check, Err("no".to_string()));
    assert_eq!(action, Action::Continue);
    let action = finish_save(&mut ed, AfterSave::Check, Ok(()));
    assert_eq!(action, Action::TriggerCheck);
    assert_eq!(ed.status_message, "Saved a.cs");
}

// ---- the outcome of a check ----

#[test]
fn a_clean_check_says_so() {
    assert_eq!(summarize(&Vec::new()), "No errors");
    let mut ed = open();
    ed.status_is_error = true;
    apply_check_message(&mut ed, CheckMessage::Finished(Vec::new()));
    assert_eq!(ed.status_message, "No errors");
    assert!(!ed.status_is_error);
}

#[test]
fn the_first_error_makes_the_headline() {
    let found = vec![
        diagnostic(0, Severity::Warning, "CS0168", "unused"),
        diagnostic(6, Severity::Error, "CS1002", "; expected"),
        diagnostic(9, Severity::Error, "CS1513", "} expected"),
    ];
    assert_eq!(
        summarize(&found),
        "2 error(s), 1 warning(s) — Ln 7: CS1002 ; expected"
    );
    let mut ed = open();
    apply_check_message(&mut ed, CheckMessage::Finished(found));
    assert!(ed.status_is_error);
    assert_eq!(ed.diagnostics.len(), 3);
    assert_eq!(ed.diagnostics_for_line(6).len(), 1);
    assert_eq!(ed.diagnostics_for_line(6)[0].code, "CS1002");
    assert!(ed.diagnostics_for_line(7).is_empty());
}

#[test]
fn without_errors_the_first_warning_makes_the_headline() {
    let found = vec![
        diagnostic(3, Severity::Warning, "CS0168", "unused"),
        diagnostic(1, Severity::Warning, "CS0219", "assigned"),
    ];
    let mut ed = open();
    apply_check_message(&mut ed, CheckMessage::Finished(found));
    assert_eq!(ed.status_message, "0 error(s), 2 warning(s) — Ln 4: CS0168 unused");
    assert!(!ed.status_is_error);
}

#[test]
fn a_new_check_replaces_the_diagnostics() {
    let mut ed = open();
    let one = vec![diagnostic(0, Severity::Error, "A", "a")];
    apply_check_message(&mut ed, CheckMessage::Finished(one));
    let two = vec![diagnostic(0, Severity::Warning, "B", "b"), diagnostic(0, Severity::Error, "C", "c")];
    apply_check_message(&mut ed, CheckMessage::Finished(two));
    let here = ed.diagnostics_for_line(0);
    assert_eq!(here.len(), 2);
    assert_eq!((here[0].code.as_str(), here[1].code.as_str()), ("B", "C"));
}

#[test]
fn a_missing_tool_or_a_failure_is_an_error() {
    let mut ed = open();
    ed.set_diagnostics(vec![diagnostic(0, Severity::Error, "A", "a")]);
    apply_check_message(&mut ed, CheckMessage::ToolMissing);
    assert_eq!(ed.status_message, "dotnet not found — install .NET SDK for Ctrl+S diagnostics");
    assert!(ed.status_is_error);
    apply_check_message(&mut ed, CheckMessage::Failed("boom".to_string()));
    assert_eq!(ed.status_message, "Check failed: boom");
    assert!(ed.status_is_error);
    assert_eq!(ed.diagnostics.len(), 1);
}

// ---- events ----

#[test]
fn releases_and_other_events_are_ignored() {
    let mut ed = open();
    let mut checker = Checker::new();
    let released = Event::Key { pressed: false, key: key(KeyCode::Char('a')) };
    assert_eq!(react(&mut ed, &mut checker, released), Reaction::Ignore);
    assert_eq!(react(&mut ed, &mut checker, Event::Other), Reaction::Ignore);
    assert_eq!(react(&mut ed, &mut checker, Event::Idle(Received::Empty)), Reaction::Ignore);
    assert_eq!(ed.lines[0], "");
    assert_eq!(react(&mut ed, &mut checker, Event::Resize), Reaction::Redraw);
}

fn press(ed: &mut Editor, event: KeyEvent) -> Reaction {
    react(ed, &mut Checker::new(), Event::Key { pressed: true, key: event })
}

#[test]
fn keys_that_mean_nothing_draw_nothing() {
    let alt = |c| KeyEvent { code: KeyCode::Char(c), control: false, alt: true };
    let mut ed = changed();
    for event in [key(KeyCode::Other), key(KeyCode::Esc), control('a'), alt('a'), alt('s')] {
        assert!(event.has_no_meaning(&ed));
        assert_eq!(press(&mut ed, event), Reaction::Ignore);
    }
    assert_eq!(press(&mut ed, control('q')), Reaction::Redraw);
    for event in [key(KeyCode::Char('a')), key(KeyCode::Enter), key(KeyCode::Other), control('z')] {
        assert!(event.has_no_meaning(&ed));
        assert_eq!(press(&mut ed, event), Reaction::Ignore);
    }
    assert!(!key(KeyCode::Esc).has_no_meaning(&ed));
    assert_eq!(press(&mut ed, key(KeyCode::Esc)), Reaction::Redraw);
    assert_eq!(press(&mut ed, key(KeyCode::Esc)), Reaction::Ignore);
}

#[test]
fn keys_with_nothing_to_do_draw_nothing() {
    let mut ed = Editor::open(String::from("a.cs"), Some("ab\ncd"));
    for code in [
        KeyCode::Left, KeyCode::Up, KeyCode::Home, KeyCode::PageUp, KeyCode::Backspace,
    ] {
        assert!(!key(code).has_no_meaning(&ed));
        assert!(key(code).leaves_all_as_is(&ed));
        assert_eq!(press(&mut ed, key(code)), Reaction::Ignore);
    }
    assert_eq!(press(&mut ed, key(KeyCode::PageDown)), Reaction::Redraw);
    assert_eq!(press(&mut ed, key(KeyCode::End)), Reaction::Redraw);
    for code in [
        KeyCode::Right, KeyCode::Down, KeyCode::End, KeyCode::PageDown, KeyCode::Delete,
    ] {
        assert_eq!(press(&mut ed, key(code)), Reaction::Ignore);
    }
    assert_eq!(press(&mut ed, control('z')), Reaction::Redraw);
    assert_eq!(ed.status_message, "Nothing to undo");
    assert_eq!(press(&mut ed, control('z')), Reaction::Ignore);
    assert_eq!(press(&mut ed, control('y')), Reaction::Redraw);
    assert_eq!(press(&mut ed, control('y')), Reaction::Ignore);
    assert!(!ed.can_undo() && !ed.can_redo() && ed.is_between_steps());
}

#[test]
fn keys_that_do_something_draw() {
    let mut ed = Editor::open(String::from("a.cs"), Some("ab\ncd"));
    for event in [
        key(KeyCode::Right), key(KeyCode::Left), key(KeyCode::Down), key(KeyCode::Up),
        key(KeyCode::End), key(KeyCode::Home), key(KeyCode::Delete), key(KeyCode::Char('(')),
        key(KeyCode::Char(')')), key(KeyCode::Tab), key(KeyCode::Enter), key(KeyCode::Backspace),
        control('z'), control('y'),
    ] {
        assert_eq!(press(&mut ed, event), Reaction::Redraw);
    }
    assert!(ed.can_undo());
}

#[test]
fn a_move_that_only_ends_the_undo_step_counts() {
    let mut ed = changed();
    assert!(!ed.is_between_steps());
    assert_eq!(press(&mut ed, key(KeyCode::Right)), Reaction::Redraw);
    assert!(ed.is_between_steps());
    assert_eq!(press(&mut ed, key(KeyCode::Right)), Reaction::Ignore);
}

#[test]
fn saving_the_same_again_draws_nothing() {
    let mut ed = changed();
    let mut checker = Checker::new();
    assert!(checker.start());
    let failed = || Err("no".to_string());
    let after = AfterSave::Check;
    assert_eq!(react_to_save(&mut ed, &mut checker, after, failed()), Reaction::Redraw);
    assert_eq!(react_to_save(&mut ed, &mut checker, after, failed()), Reaction::Ignore);
    assert_eq!(react_to_save(&mut ed, &mut checker, after, Ok(())), Reaction::Redraw);
    assert_eq!(react_to_save(&mut ed, &mut checker, after, Ok(())), Reaction::Ignore);
    assert_eq!(ed.status_message, "Saved a.cs");
}

#[test]
fn a_saved_file_is_checked_once_at_a_time() {
    let mut ed = changed();
    let mut checker = Checker::new();
    let save = || Event::Key { pressed: true, key: control('s') };
    assert_eq!(react(&mut ed, &mut checker, save()), Reaction::Save(AfterSave::Check));
    assert_eq!(
        react_to_save(&mut ed, &mut checker, AfterSave::Check, Ok(())),
        Reaction::StartCheck
    );
    assert_eq!(ed.status_message, "Checking…");
    assert!(!ed.status_is_error);

    assert_eq!(react(&mut ed, &mut checker, save()), Reaction::Save(AfterSave::Check));
    assert_eq!(
        react_to_save(&mut ed, &mut checker, AfterSave::Check, Ok(())),
        Reaction::Redraw
    );
    assert_eq!(ed.status_message, "Saved a.cs");

    assert_eq!(react(&mut ed, &mut checker, Event::Idle(Received::Empty)), Reaction::Ignore);
    let found = vec![diagnostic(0, Severity::Error, "CS1", "bad")];
    let outcome = Event::Idle(Received::Message(CheckMessage::Finished(found)));
    assert_eq!(react(&mut ed, &mut checker, outcome), Reaction::Redraw);
    assert_eq!(ed.status_message, "1 error(s), 0 warning(s) — Ln 1: CS1 bad");

    assert_eq!(
        react_to_save(&mut ed, &mut checker, AfterSave::Check, Ok(())),
        Reaction::StartCheck
    );
    let closed = Event::Idle(Received::Disconnected);
    assert_eq!(react(&mut ed, &mut checker, closed), Reaction::Ignore);
    assert_eq!(
        react_to_save(&mut ed, &mut checker, AfterSave::Check, Ok(())),
        Reaction::StartCheck
    );
}

#[test]
fn a_failed_save_starts_no_check() {
    let mut ed = changed();
    let mut checker = Checker::new();
    let reaction = react_to_save(&mut ed, &mut checker, AfterSave::Check, Err("no".to_string()));
    assert_eq!(reaction, Reaction::Redraw);
    assert!(!checker.is_listening());
    assert_eq!(ed.status_message, "Save failed: no");
}

#[test]
fn a_save_at_the_question_ends_the_session() {
    let mut ed = changed();
    let mut checker = Checker::new();
    let quit = Event::Key { pressed: true, key: control('q') };
    assert_eq!(react(&mut ed, &mut checker, quit), Reaction::Redraw);
    let save = Event::Key { pressed: true, key: control('s') };
    assert_eq!(react(&mut ed, &mut checker, save), Reaction::Save(AfterSave::Quit));
    assert_eq!(
        react_to_save(&mut ed, &mut checker, AfterSave::Quit, Ok(())),
        Reaction::Quit
    );
}
