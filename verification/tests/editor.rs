use pis_code::editor::Editor;

fn new_editor() -> Editor {
    Editor::open(String::from("__test_buffer__.cs"), None)
}

fn type_str(ed: &mut Editor, s: &str) {
    for c in s.chars() {
        ed.insert_char(c);
    }
}

#[test]
fn curly_brace_autocloses() {
    let mut ed = new_editor();
    ed.insert_char('{');
    assert_eq!(ed.lines[0], "{}");
    assert_eq!(ed.cursor_col, 1);
}

#[test]
fn paren_and_bracket_autoclose() {
    let mut ed = new_editor();
    ed.insert_char('(');
    assert_eq!(ed.lines[0], "()");
    assert_eq!(ed.cursor_col, 1);

    let mut ed = new_editor();
    ed.insert_char('[');
    assert_eq!(ed.lines[0], "[]");
    assert_eq!(ed.cursor_col, 1);
}

#[test]
fn typing_closer_types_over_instead_of_duplicating() {
    let mut ed = new_editor();
    ed.insert_char('(');
    // cursor is between ( and ), typing ')' should just move over it
    ed.insert_char(')');
    assert_eq!(ed.lines[0], "()");
    assert_eq!(ed.cursor_col, 2);
}

#[test]
fn smart_enter_splits_curly_block_into_three_lines() {
    let mut ed = new_editor();
    type_str(&mut ed, "void Foo() {");
    // cursor sits between the auto-inserted { and }
    assert_eq!(ed.lines[0], "void Foo() {}");
    ed.newline();

    assert_eq!(ed.lines.len(), 3);
    assert_eq!(ed.lines[0], "void Foo() {");
    assert_eq!(ed.lines[1], "    ");
    assert_eq!(ed.lines[2], "}");
    assert_eq!(ed.cursor_row, 1);
    assert_eq!(ed.cursor_col, 4);
}

#[test]
fn smart_enter_respects_existing_indent() {
    let mut ed = new_editor();
    type_str(&mut ed, "class C ");
    ed.insert_char('{');
    ed.newline(); // -> class C {\n    \n}
                  // now inside the class body, open a method block at one level deep
    type_str(&mut ed, "void Foo() ");
    ed.insert_char('{');
    ed.newline();

    assert_eq!(
        ed.lines,
        vec![
            "class C {".to_string(),
            "    void Foo() {".to_string(),
            "        ".to_string(),
            "    }".to_string(),
            "}".to_string(),
        ]
    );
    assert_eq!(ed.cursor_row, 2);
    assert_eq!(ed.cursor_col, 8);
}

#[test]
fn plain_enter_autoindents_without_splitting() {
    let mut ed = new_editor();
    type_str(&mut ed, "    int x = 1;");
    ed.newline();
    assert_eq!(ed.lines[0], "    int x = 1;");
    assert_eq!(ed.lines[1], "    ");
    assert_eq!(ed.cursor_col, 4);
}

#[test]
fn enter_after_open_paren_without_matching_close_just_deepens_indent() {
    let mut ed = new_editor();
    type_str(&mut ed, "foo(");
    ed.move_right(); // step past the auto-inserted ')'
    ed.backspace(); // remove it, simulating no matching closer present
    ed.newline();
    assert_eq!(ed.lines[0], "foo(");
    assert_eq!(ed.lines[1], "    ");
}

#[test]
fn backspace_deletes_empty_pair_as_unit() {
    let mut ed = new_editor();
    ed.insert_char('{');
    ed.backspace();
    assert_eq!(ed.lines[0], "");
    assert_eq!(ed.cursor_col, 0);
}

#[test]
fn backspace_merges_with_previous_line() {
    let mut ed = new_editor();
    type_str(&mut ed, "abc");
    ed.newline();
    type_str(&mut ed, "def");
    ed.move_home();
    ed.backspace();
    assert_eq!(ed.lines.len(), 1);
    assert_eq!(ed.lines[0], "abcdef");
    assert_eq!(ed.cursor_col, 3);
}

#[test]
fn undo_redo_roundtrip_for_typing() {
    let mut ed = new_editor();
    type_str(&mut ed, "hello");
    assert_eq!(ed.lines[0], "hello");
    ed.undo();
    assert_eq!(ed.lines[0], "");
    ed.redo();
    assert_eq!(ed.lines[0], "hello");
}

#[test]
fn undo_restores_pre_smart_enter_state() {
    let mut ed = new_editor();
    type_str(&mut ed, "void Foo() {");
    ed.newline();
    assert_eq!(ed.lines.len(), 3);
    ed.undo();
    assert_eq!(ed.lines.len(), 1);
    assert_eq!(ed.lines[0], "void Foo() {}");
}

#[test]
fn tab_inserts_four_spaces() {
    let mut ed = new_editor();
    ed.insert_tab();
    assert_eq!(ed.lines[0], "    ");
    assert_eq!(ed.cursor_col, 4);
}

#[test]
fn delete_forward_merges_next_line() {
    let mut ed = new_editor();
    type_str(&mut ed, "abc");
    ed.newline();
    type_str(&mut ed, "def");
    ed.move_up();
    ed.move_end();
    ed.delete_forward();
    assert_eq!(ed.lines.len(), 1);
    assert_eq!(ed.lines[0], "abcdef");
}
