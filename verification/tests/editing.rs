use pis_code::editor::Editor;

fn editor_on(text: &str) -> Editor {
    Editor::open(String::from("a.cs"), Some(text))
}

fn type_all(ed: &mut Editor, s: &str) {
    for c in s.chars() {
        ed.insert_char(c);
    }
}

fn place(ed: &mut Editor, row: usize, col: usize) {
    ed.cursor_row = row;
    ed.cursor_col = col;
    ed.desired_col = col;
}

fn cursor(ed: &Editor) -> (usize, usize) {
    (ed.cursor_row, ed.cursor_col)
}

#[test]
fn a_fresh_editor_is_unmodified() {
    let ed = editor_on("one\ntwo\n");
    assert_eq!(ed.lines, vec!["one".to_string(), "two".to_string()]);
    assert_eq!(cursor(&ed), (0, 0));
    assert!(!ed.modified && !ed.confirm_quit && !ed.status_is_error);
    assert_eq!(ed.status_message, "Ctrl+S save  Ctrl+Q quit  Ctrl+Z undo  Ctrl+Y redo");
    assert_eq!(ed.file_path, "a.cs");
    assert_eq!(ed.line_count(), 2);
    assert_eq!(ed.char_count(), 6);
}

#[test]
fn wide_characters_count_as_one() {
    let mut ed = editor_on("aé…z");
    place(&mut ed, 0, 2);
    ed.insert_char('ß');
    assert_eq!(ed.lines[0], "aéß…z");
    assert_eq!(ed.cursor_col, 3);
    ed.backspace();
    ed.backspace();
    assert_eq!(ed.lines[0], "a…z");
    ed.delete_forward();
    assert_eq!(ed.lines[0], "az");
    assert_eq!(ed.char_count(), 2);
}

#[test]
fn a_closer_that_is_not_there_is_typed() {
    let mut ed = editor_on("");
    ed.insert_char(']');
    assert_eq!(ed.lines[0], "]");
    place(&mut ed, 0, 0);
    ed.insert_char(')');
    assert_eq!(ed.lines[0], ")]");
}

#[test]
fn closers_step_over_their_own_kind() {
    for (open, both) in [('{', "{}"), ('(', "()"), ('[', "[]")] {
        let mut ed = editor_on("");
        ed.insert_char(open);
        ed.insert_char(both.chars().nth(1).unwrap());
        assert_eq!(ed.lines[0], both);
        assert_eq!(ed.cursor_col, 2);
        place(&mut ed, 0, 1);
        ed.backspace();
        assert_eq!(ed.lines[0], "");
    }
}

#[test]
fn backspace_takes_a_mismatched_pair_apart() {
    let mut ed = editor_on("(]");
    place(&mut ed, 0, 1);
    ed.backspace();
    assert_eq!(ed.lines[0], "]");
}

#[test]
fn backspace_takes_back_a_typed_character() {
    let mut ed = editor_on("abc");
    place(&mut ed, 0, 2);
    ed.insert_char('x');
    ed.backspace();
    assert_eq!(ed.lines[0], "abc");
    assert_eq!(cursor(&ed), (0, 2));
}

#[test]
fn nothing_is_removed_at_the_ends_of_the_text() {
    let mut ed = editor_on("ab");
    ed.confirm_quit = true;
    ed.backspace();
    assert!(!ed.modified && !ed.confirm_quit);
    place(&mut ed, 0, 2);
    ed.confirm_quit = true;
    ed.delete_forward();
    assert!(!ed.modified && !ed.confirm_quit);
    assert_eq!(ed.lines[0], "ab");
    ed.undo();
    assert_eq!(ed.status_message, "Nothing to undo");
}

#[test]
fn enter_splits_a_line_at_the_cursor() {
    let mut ed = editor_on("\tfoo bar");
    place(&mut ed, 0, 4);
    ed.newline();
    assert_eq!(ed.lines, vec!["\tfoo".to_string(), "\t bar".to_string()]);
    assert_eq!(cursor(&ed), (1, 1));
    assert_eq!(ed.desired_col, 1);
}

#[test]
fn enter_in_the_middle_of_the_indentation_copies_all_of_it() {
    let mut ed = editor_on("    x");
    place(&mut ed, 0, 2);
    ed.newline();
    assert_eq!(ed.lines, vec!["  ".to_string(), "      x".to_string()]);
    assert_eq!(cursor(&ed), (1, 4));
}

#[test]
fn enter_behind_an_open_bracket_and_white_space_deepens() {
    for text in ["if (", "x = [", "class C {\u{3000}", "{ \t"] {
        let mut ed = editor_on(text);
        ed.move_end();
        ed.newline();
        assert_eq!(ed.lines[1], "    ", "{text:?}");
        assert_eq!(cursor(&ed), (1, 4));
    }
}

#[test]
fn enter_between_round_brackets_does_not_split_three_ways() {
    let mut ed = editor_on("");
    ed.insert_char('(');
    ed.newline();
    assert_eq!(ed.lines, vec!["(".to_string(), "    )".to_string()]);
}

#[test]
fn enter_without_indentation_is_taken_back_by_backspace() {
    let mut ed = editor_on("foobar\nx");
    place(&mut ed, 0, 3);
    ed.newline();
    assert_eq!(ed.line_count(), 3);
    ed.backspace();
    assert_eq!(ed.lines, vec!["foobar".to_string(), "x".to_string()]);
    assert_eq!(cursor(&ed), (0, 3));
}

#[test]
fn delete_is_a_step_right_and_backspace() {
    for (row, col) in [(0, 0), (0, 2), (0, 3), (1, 1)] {
        let mut a = editor_on("abc\ndef");
        let mut b = editor_on("abc\ndef");
        place(&mut a, row, col);
        place(&mut b, row, col);
        a.delete_forward();
        b.move_right();
        b.backspace();
        assert_eq!(a.lines, b.lines);
        assert_eq!(cursor(&a), cursor(&b));
    }
}

#[test]
fn steps_to_the_side_cross_line_breaks_and_lead_back() {
    let mut ed = editor_on("ab\nc");
    place(&mut ed, 0, 2);
    ed.move_right();
    assert_eq!(cursor(&ed), (1, 0));
    ed.move_left();
    assert_eq!(cursor(&ed), (0, 2));
    place(&mut ed, 1, 1);
    ed.move_right();
    assert_eq!(cursor(&ed), (1, 1));
    place(&mut ed, 0, 0);
    ed.move_left();
    assert_eq!(cursor(&ed), (0, 0));
}

#[test]
fn vertical_moves_keep_the_column() {
    let mut ed = editor_on("abcdef\nab\nabcdef");
    place(&mut ed, 0, 5);
    ed.move_down();
    assert_eq!(cursor(&ed), (1, 2));
    ed.move_down();
    assert_eq!(cursor(&ed), (2, 5));
    ed.move_down();
    assert_eq!(cursor(&ed), (2, 5));
    ed.move_up();
    ed.move_up();
    assert_eq!(cursor(&ed), (0, 5));
    ed.move_up();
    assert_eq!(cursor(&ed), (0, 5));
}

#[test]
fn a_step_up_and_a_step_down_lead_back() {
    let mut ed = editor_on("ab\nabcdef");
    place(&mut ed, 1, 5);
    ed.move_up();
    assert_eq!(cursor(&ed), (0, 2));
    ed.move_down();
    assert_eq!(cursor(&ed), (1, 5));
}

#[test]
fn pages_add_up() {
    let text: String = (0..50).map(|n| format!("{}\n", "x".repeat(n))).collect();
    for (first, second) in [(0, 7), (3, 4), (20, 20), (45, 45)] {
        let (mut a, mut b) = (editor_on(&text), editor_on(&text));
        place(&mut a, 9, 8);
        place(&mut b, 9, 8);
        a.page_down(first);
        a.page_down(second);
        b.page_down(first + second);
        assert_eq!(cursor(&a), cursor(&b));
        a.page_up(first);
        a.page_up(second);
        b.page_up(first + second);
        assert_eq!(cursor(&a), cursor(&b));
    }
}

#[test]
fn home_and_end_set_the_column_to_keep() {
    let mut ed = editor_on("abcd\nabcdefgh");
    ed.move_end();
    assert_eq!(cursor(&ed), (0, 4));
    ed.move_down();
    assert_eq!(cursor(&ed), (1, 4));
    ed.move_home();
    ed.move_up();
    assert_eq!(cursor(&ed), (0, 0));
}

#[test]
fn pages_stop_at_the_ends() {
    let text: String = (0..50).map(|n| format!("{n}\n")).collect();
    let mut ed = editor_on(&text);
    ed.page_down(20);
    assert_eq!(ed.cursor_row, 20);
    ed.page_down(20);
    ed.page_down(20);
    assert_eq!(ed.cursor_row, 49);
    ed.page_down(usize::MAX);
    assert_eq!(ed.cursor_row, 49);
    ed.page_up(20);
    assert_eq!(ed.cursor_row, 29);
    ed.page_up(usize::MAX);
    assert_eq!(ed.cursor_row, 0);
}

#[test]
fn the_window_moves_no_more_than_needed() {
    let text: String = (0..50).map(|_| "0123456789012345678901234567890\n").collect();
    let mut ed = editor_on(&text);
    place(&mut ed, 9, 19);
    ed.ensure_visible(20, 10);
    assert_eq!((ed.scroll, ed.col_scroll), (0, 0));
    place(&mut ed, 10, 20);
    ed.ensure_visible(20, 10);
    assert_eq!((ed.scroll, ed.col_scroll), (1, 1));
    place(&mut ed, 0, 0);
    ed.ensure_visible(20, 10);
    assert_eq!((ed.scroll, ed.col_scroll), (0, 0));
    place(&mut ed, 40, 30);
    ed.ensure_visible(0, 0);
    assert_eq!((ed.scroll, ed.col_scroll), (0, 0));
    ed.ensure_visible(20, 10);
    assert_eq!((ed.scroll, ed.col_scroll), (31, 11));
    ed.ensure_visible(20, 10);
    assert_eq!((ed.scroll, ed.col_scroll), (31, 11));
}

// ---- undo and redo ----

#[test]
fn edits_of_one_kind_are_one_undo_step() {
    let mut ed = editor_on("");
    type_all(&mut ed, "abc");
    ed.backspace();
    ed.backspace();
    ed.newline();
    ed.newline();
    assert_eq!(ed.lines, vec!["a".to_string(), String::new(), String::new()]);
    ed.undo();
    assert_eq!(ed.lines, vec!["a".to_string()]);
    assert_eq!(cursor(&ed), (0, 1));
    ed.undo();
    assert_eq!(ed.lines, vec!["abc".to_string()]);
    ed.undo();
    assert_eq!(ed.lines, vec![String::new()]);
    assert_eq!(ed.status_message, "Undo");
    ed.undo();
    assert_eq!(ed.status_message, "Nothing to undo");
    assert!(!ed.status_is_error);
}

#[test]
fn a_cursor_move_ends_the_undo_step() {
    let mut ed = editor_on("");
    type_all(&mut ed, "ab");
    ed.move_left();
    type_all(&mut ed, "cd");
    assert_eq!(ed.lines[0], "acdb");
    ed.undo();
    assert_eq!(ed.lines[0], "ab");
    assert_eq!(ed.cursor_col, 1);
    ed.undo();
    assert_eq!(ed.lines[0], "");
}

#[test]
fn redo_brings_back_what_undo_took() {
    let mut ed = editor_on("x");
    ed.move_end();
    type_all(&mut ed, " = 1;");
    ed.newline();
    type_all(&mut ed, "y");
    let (lines, at) = (ed.lines.clone(), cursor(&ed));
    for _ in 0..3 {
        ed.undo();
    }
    assert_eq!(ed.lines, vec!["x".to_string()]);
    for _ in 0..3 {
        ed.redo();
    }
    assert_eq!(ed.lines, lines);
    assert_eq!(cursor(&ed), at);
    assert_eq!(ed.status_message, "Redo");
    ed.redo();
    assert_eq!(ed.status_message, "Nothing to redo");
}

#[test]
fn undo_takes_back_a_redo() {
    let mut ed = editor_on("");
    type_all(&mut ed, "a");
    ed.undo();
    ed.redo();
    ed.undo();
    assert_eq!(ed.lines[0], "");
    assert!(ed.modified);
}

#[test]
fn an_edit_forgets_what_was_undone() {
    let mut ed = editor_on("");
    type_all(&mut ed, "a");
    ed.undo();
    type_all(&mut ed, "b");
    ed.redo();
    assert_eq!(ed.lines[0], "b");
    assert_eq!(ed.status_message, "Nothing to redo");
}

#[test]
fn tab_takes_part_in_typing() {
    let mut ed = editor_on("");
    ed.insert_char('a');
    ed.insert_tab();
    ed.insert_char('b');
    assert_eq!(ed.lines[0], "a    b");
    ed.undo();
    assert_eq!(ed.lines[0], "");
}

#[test]
fn tab_is_four_typed_spaces() {
    let (mut a, mut b) = (editor_on("xy"), editor_on("xy"));
    place(&mut a, 0, 1);
    place(&mut b, 0, 1);
    a.insert_tab();
    type_all(&mut b, "    ");
    assert_eq!(a.lines, b.lines);
    assert_eq!(cursor(&a), cursor(&b));
    a.undo();
    b.undo();
    assert_eq!(a.lines, vec!["xy".to_string()]);
    assert_eq!(a.lines, b.lines);
}

#[test]
fn a_run_of_removals_is_one_undo_step() {
    let mut ed = editor_on("abc\nd");
    place(&mut ed, 0, 2);
    ed.delete_forward();
    ed.backspace();
    ed.delete_forward();
    ed.delete_forward();
    ed.delete_forward();
    assert_eq!(ed.lines, vec!["a".to_string()]);
    ed.undo();
    assert_eq!(ed.lines, vec!["abc".to_string(), "d".to_string()]);
    assert_eq!(cursor(&ed), (0, 2));
    assert!(!ed.can_undo());
    ed.redo();
    assert_eq!(ed.lines, vec!["a".to_string()]);
}

#[test]
fn a_run_of_enter_keys_is_one_undo_step() {
    let mut ed = editor_on("");
    ed.insert_char('{');
    ed.newline();
    ed.newline();
    ed.newline();
    assert_eq!(ed.line_count(), 5);
    ed.undo();
    assert_eq!(ed.lines, vec!["{}".to_string()]);
    ed.redo();
    assert_eq!(ed.line_count(), 5);
}

// ---- saving ----

#[test]
fn a_save_clears_the_mark_or_says_why_not() {
    let mut ed = editor_on("");
    type_all(&mut ed, "a");
    ed.save(Err("disk full".to_string()));
    assert!(ed.modified && ed.status_is_error);
    assert_eq!(ed.status_message, "Save failed: disk full");
    ed.confirm_quit = true;
    ed.save(Ok(()));
    assert!(!ed.modified && !ed.status_is_error && !ed.confirm_quit);
    assert_eq!(ed.status_message, "Saved a.cs");
}
