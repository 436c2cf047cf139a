//! Undo, brackets, line breaks and cursor moves.

use crate::input::{KeyCode, KeyEvent};
use crate::model;
use crate::model::{Buffer, EditGroup, EditorView};
use vstd::prelude::*;

verus! {

// ---- undo and redo ----

/// Redo takes back an undo: text, cursor and history are as they were before
/// it.
pub proof fn law_redo_reverts_undo(v: EditorView)
    requires
        v.undo.len() > 0,
    ensures
        v.undo_step().redo_step().buf == v.buf,
        v.undo_step().redo_step().undo == v.undo,
        v.undo_step().redo_step().redo == v.redo,
{
    assert(v.undo.drop_last().push(v.undo.last()) == v.undo);
    assert(v.redo.push(v.buf).drop_last() == v.redo);
}

/// Undo takes back a redo: text, cursor and history are as they were before
/// it.
pub proof fn law_undo_reverts_redo(v: EditorView)
    requires
        v.redo.len() > 0,
    ensures
        v.redo_step().undo_step().buf == v.buf,
        v.redo_step().undo_step().undo == v.undo,
        v.redo_step().undo_step().redo == v.redo,
{
    assert(v.redo.drop_last().push(v.redo.last()) == v.redo);
    assert(v.undo.push(v.buf).drop_last() == v.undo);
}

/// Undo takes back an edit that starts an undo step of its own, whatever the
/// edit did.
pub proof fn law_undo_reverts_edit(v: EditorView, group: EditGroup, buf: Buffer)
    requires
        v.group != group,
    ensures
        v.edited(group, buf).undo_step().buf == v.buf,
        v.edited(group, buf).undo_step().undo == v.undo,
{
    assert(v.undo.push(v.buf).drop_last() == v.undo);
}

/// Undo without anything to undo, and redo without anything to redo, only
/// change the status line.
pub proof fn law_empty_history_keeps_text(v: EditorView)
    ensures
        v.undo.len() == 0 ==> v.undo_step() == v.told("Nothing to undo"@, false),
        v.redo.len() == 0 ==> v.redo_step() == v.told("Nothing to redo"@, false),
{
}

/// An edit that starts an undo step forgets what was undone before; there is
/// nothing to redo then.
pub proof fn law_edit_forgets_undone(v: EditorView, group: EditGroup, buf: Buffer)
    requires
        v.group != group,
    ensures
        v.edited(group, buf).redo.len() == 0,
        v.edited(group, buf).redo_step() == v.edited(group, buf).told("Nothing to redo"@, false),
{
}

/// The editor after the characters of `s` were typed one by one.
pub open spec fn typed_all(v: EditorView, s: Seq<char>) -> EditorView
    decreases s.len(),
{
    if s.len() == 0 {
        v
    } else {
        typed_all(v, s.drop_last()).insert_char(s.last())
    }
}

/// Characters that are typed one after the other form a single undo step: one
/// undo takes all of them back, and one redo brings all of them again.
pub proof fn law_typing_is_one_step(v: EditorView, s: Seq<char>)
    requires
        v.group != EditGroup::Insert,
        s.len() > 0,
    ensures
        typed_all(v, s).undo == v.undo.push(v.buf),
        typed_all(v, s).undo_step().buf == v.buf,
        typed_all(v, s).undo_step().undo == v.undo,
        typed_all(v, s).undo_step().redo_step().buf == typed_all(v, s).buf,
{
    lemma_typing_joins(v, s);
    assert(v.undo.push(v.buf).drop_last() == v.undo);
    law_redo_reverts_undo(typed_all(v, s));
}

proof fn lemma_typing_joins(v: EditorView, s: Seq<char>)
    requires
        v.group != EditGroup::Insert,
        s.len() > 0,
    ensures
        typed_all(v, s).group == EditGroup::Insert,
        typed_all(v, s).undo == v.undo.push(v.buf),
    decreases s.len(),
{
    if s.len() > 1 {
        lemma_typing_joins(v, s.drop_last());
    } else {
        assert(typed_all(v, s.drop_last()) == v);
    }
}

/// The Tab key leaves the editor as the spaces of one level of indentation do
/// that are typed one by one.
pub proof fn law_tab_is_typed_spaces(v: EditorView)
    requires
        v.wf(),
    ensures
        v.insert_tab() == typed_all(v, seq![' ', ' ', ' ', ' ']),
{
    let spaces = seq![' ', ' ', ' ', ' '];
    lemma_spaces_typed(v, 4);
    assert(spaces.take(4) == spaces);
}

proof fn lemma_spaces_typed(v: EditorView, n: int)
    requires
        v.wf(),
        1 <= n <= 4,
    ensures
        typed_all(v, model::indent_unit().take(n)) == v.edited(
            EditGroup::Insert,
            v.buf.typed(model::indent_unit().take(n)),
        ),
    decreases n,
{
    let s = model::indent_unit().take(n);
    assert(s.drop_last() == model::indent_unit().take(n - 1));
    assert(s.last() == ' ');
    if n == 1 {
        assert(typed_all(v, s.drop_last()) == v);
        assert(s == seq![' ']);
    } else {
        lemma_spaces_typed(v, n - 1);
        v.buf.lemma_typed_twice(s.drop_last(), seq![' ']);
        assert(s.drop_last() + seq![' '] == s);
    }
}

/// The editor after Delete (`true`) and Backspace (`false`) were pressed in the
/// given order.
pub open spec fn removed_all(v: EditorView, keys: Seq<bool>) -> EditorView
    decreases keys.len(),
{
    if keys.len() == 0 {
        v
    } else if keys.last() {
        removed_all(v, keys.drop_last()).delete_forward()
    } else {
        removed_all(v, keys.drop_last()).backspace()
    }
}

/// A run of Delete and Backspace keys, the first of which finds something to
/// remove, is a single undo step: one undo takes all of it back, and one redo
/// brings all of it again.
pub proof fn law_removing_is_one_step(v: EditorView, keys: Seq<bool>)
    requires
        v.group != EditGroup::Delete,
        keys.len() > 0,
        if keys.first() {
            v.buf.can_delete()
        } else {
            v.buf.can_backspace()
        },
    ensures
        removed_all(v, keys).undo == v.undo.push(v.buf),
        removed_all(v, keys).undo_step().buf == v.buf,
        removed_all(v, keys).undo_step().undo == v.undo,
        removed_all(v, keys).undo_step().redo_step().buf == removed_all(v, keys).buf,
{
    lemma_removing_joins(v, keys);
    assert(v.undo.push(v.buf).drop_last() == v.undo);
    law_redo_reverts_undo(removed_all(v, keys));
}

proof fn lemma_removing_joins(v: EditorView, keys: Seq<bool>)
    requires
        v.group != EditGroup::Delete,
        keys.len() > 0,
        if keys.first() {
            v.buf.can_delete()
        } else {
            v.buf.can_backspace()
        },
    ensures
        removed_all(v, keys).group == EditGroup::Delete,
        removed_all(v, keys).undo == v.undo.push(v.buf),
    decreases keys.len(),
{
    if keys.len() > 1 {
        lemma_removing_joins(v, keys.drop_last());
    } else {
        assert(removed_all(v, keys.drop_last()) == v);
    }
}

/// The editor after `times` Enter keys.
pub open spec fn broken_all(v: EditorView, times: nat) -> EditorView
    decreases times,
{
    if times == 0 {
        v
    } else {
        broken_all(v, (times - 1) as nat).newline()
    }
}

/// A run of Enter keys is a single undo step: one undo takes all of it back, and
/// one redo brings all of it again.
pub proof fn law_breaking_lines_is_one_step(v: EditorView, times: nat)
    requires
        v.group != EditGroup::Newline,
        times > 0,
    ensures
        broken_all(v, times).undo == v.undo.push(v.buf),
        broken_all(v, times).undo_step().buf == v.buf,
        broken_all(v, times).undo_step().undo == v.undo,
        broken_all(v, times).undo_step().redo_step().buf == broken_all(v, times).buf,
{
    lemma_breaking_joins(v, times);
    assert(v.undo.push(v.buf).drop_last() == v.undo);
    law_redo_reverts_undo(broken_all(v, times));
}

proof fn lemma_breaking_joins(v: EditorView, times: nat)
    requires
        v.group != EditGroup::Newline,
        times > 0,
    ensures
        broken_all(v, times).group == EditGroup::Newline,
        broken_all(v, times).undo == v.undo.push(v.buf),
    decreases times,
{
    if times > 1 {
        lemma_breaking_joins(v, (times - 1) as nat);
    } else {
        assert(broken_all(v, 0) == v);
    }
}

/// A cursor move ends the current undo step: the next edit starts a new one,
/// whatever its kind.
pub proof fn law_move_ends_undo_step(v: EditorView, to: Buffer, group: EditGroup, buf: Buffer)
    requires
        group != EditGroup::Idle,
    ensures
        v.moved(to).edited(group, buf).undo == v.undo.push(to),
        v.moved_vertically(to).edited(group, buf).undo == v.undo.push(to),
{
}

/// Whether `after` differs from `v` at most in the cursor and in what cursor
/// moves reset.
pub open spec fn only_moved(v: EditorView, after: EditorView) -> bool {
    &&& after.buf.lines == v.buf.lines
    &&& after.undo == v.undo
    &&& after.redo == v.redo
    &&& after.modified == v.modified
    &&& after.scroll == v.scroll
    &&& after.col_scroll == v.col_scroll
    &&& after.file_path == v.file_path
    &&& after.status == v.status
    &&& after.status_is_error == v.status_is_error
    &&& after.diagnostics == v.diagnostics
}

/// Cursor moves leave the text, its history and its saved state alone.
pub proof fn law_moves_keep_text(v: EditorView, page: int)
    ensures
        only_moved(v, v.move_left()),
        only_moved(v, v.move_right()),
        only_moved(v, v.move_up()),
        only_moved(v, v.move_down()),
        only_moved(v, v.move_home()),
        only_moved(v, v.move_end()),
        only_moved(v, v.page_up(page)),
        only_moved(v, v.page_down(page)),
{
}

// ---- brackets ----

/// Backspace right behind an opening bracket takes back the bracket and the
/// closing one that came with it.
pub proof fn law_backspace_removes_pair(b: Buffer, c: char)
    requires
        b.wf(),
        model::closer(c) is Some,
    ensures
        b.char_typed(c).in_empty_pair(),
        b.char_typed(c).backspaced() == b,
{
    let close = model::closer(c)->0;
    let typed = b.char_typed(c);
    let line = b.line();
    assert(typed.line() == line.take(b.col) + seq![c, close] + line.skip(b.col));
    assert(typed.line()[b.col] == c);
    assert(typed.line()[b.col + 1] == close);
    assert(typed.line().take(b.col) + typed.line().skip(b.col + 2) == line);
    assert(typed.backspaced().lines == b.lines);
}

/// Backspace takes back a character that neither opened a pair nor stepped
/// over a bracket.
pub proof fn law_backspace_removes_char(b: Buffer, c: char)
    requires
        b.wf(),
        model::closer(c) is None,
        !(model::is_closer(c) && b.after() == Some(c)),
    ensures
        b.char_typed(c).backspaced() == b,
{
    let typed = b.char_typed(c);
    let line = b.line();
    assert(typed.line() == line.take(b.col) + seq![c] + line.skip(b.col));
    assert(typed.line()[b.col] == c);
    assert(typed.line().take(b.col) + typed.line().skip(b.col + 1) == line);
    assert(typed.backspaced().lines == b.lines);
}

/// The closing bracket right behind the opening one is not typed a second
/// time: the cursor steps over the one that is there.
pub proof fn law_closer_steps_over(b: Buffer, c: char)
    requires
        b.wf(),
        model::closer(c) is Some,
    ensures
        b.char_typed(c).char_typed(model::closer(c)->0) == (Buffer {
            col: b.col + 2,
            ..b.char_typed(c)
        }),
{
    let close = model::closer(c)->0;
    let typed = b.char_typed(c);
    assert(typed.line() == b.line().take(b.col) + seq![c, close] + b.line().skip(b.col));
    assert(typed.line()[b.col + 1] == close);
}

// ---- line breaks ----

/// Backspace takes back the Enter key where that neither indents the new line
/// nor opens a block.
pub proof fn law_backspace_reverts_newline(b: Buffer)
    requires
        b.wf(),
        model::indentation(b.line()).len() == 0,
        !model::opens_block(b.line().take(b.col)),
        !(b.before() == Some('{') && b.after() == Some('}')),
    ensures
        b.broken().backspaced() == b,
{
    let line = b.line();
    let broken = b.broken();
    assert(model::indentation(line) == Seq::<char>::empty());
    assert(broken.lines[b.row] == line.take(b.col));
    assert(broken.lines[b.row + 1] == line.skip(b.col));
    assert(line.take(b.col) + line.skip(b.col) == line);
    assert(broken.lines.take(b.row) == b.lines.take(b.row));
    assert(broken.lines.skip(b.row + 2) == b.lines.skip(b.row + 1));
    assert(broken.backspaced().lines == b.lines);
}

/// Whether `s` consists of spaces and tabs.
pub open spec fn is_blank(s: Seq<char>) -> bool {
    forall|i: int| 0 <= i < s.len() ==> (#[trigger] s[i] == ' ' || s[i] == '\t')
}

proof fn lemma_indentation_blank(line: Seq<char>)
    ensures
        is_blank(model::indentation(line)),
    decreases line.len(),
{
    if line.len() > 0 && (line.first() == ' ' || line.first() == '\t') {
        lemma_indentation_blank(line.skip(1));
    }
}

/// The Enter key keeps the text in front of the cursor, the text behind it, and
/// the other lines; all it puts in between is line breaks, spaces and tabs.
pub proof fn law_newline_keeps_text(b: Buffer)
    requires
        b.wf(),
    ensures
        b.broken().wf(),
        ({
            let right = b.line().skip(b.col);
            let last = b.broken().lines.len() - (b.lines.len() - b.row - 1) - 1;
            let kept = b.broken().lines[last].len() - right.len();
            &&& b.broken().lines.take(b.row) == b.lines.take(b.row)
            &&& b.broken().lines[b.row] == b.line().take(b.col)
            &&& last == b.row + 1 || (last == b.row + 2 && is_blank(b.broken().lines[b.row + 1]))
            &&& b.broken().lines[last].skip(kept) == right
            &&& is_blank(b.broken().lines[last].take(kept))
            &&& b.broken().lines.skip(last + 1) == b.lines.skip(b.row + 1)
        }),
{
    let broken = b.broken();
    let indent = model::indentation(b.line());
    let deeper = indent + model::indent_unit();
    let right = b.line().skip(b.col);
    let last = broken.lines.len() - (b.lines.len() - b.row - 1) - 1;
    lemma_indentation_blank(b.line());
    assert(is_blank(deeper));
    assert(broken.lines.take(b.row) == b.lines.take(b.row));
    assert(broken.lines.skip(last + 1) == b.lines.skip(b.row + 1));
    assert((indent + right).skip(indent.len() as int) == right);
    assert((indent + right).take(indent.len() as int) == indent);
    assert((deeper + right).skip(deeper.len() as int) == right);
    assert((deeper + right).take(deeper.len() as int) == deeper);
}

/// Delete removes what a step to the right and Backspace remove, except where
/// Backspace would take a bracket pair.
pub proof fn law_delete_is_backspace_from_the_right(b: Buffer)
    requires
        b.wf(),
        b.can_delete(),
        !b.right().in_empty_pair(),
    ensures
        b.right().backspaced() == b.deleted(),
{
}

// ---- cursor moves ----

/// A step to the right and a step to the left cancel out, except at the end of
/// the text.
pub proof fn law_left_reverts_right(b: Buffer)
    requires
        b.wf(),
        b.can_delete(),
    ensures
        b.right().left() == b,
{
}

/// A step to the left and a step to the right cancel out, except at the start
/// of the text.
pub proof fn law_right_reverts_left(b: Buffer)
    requires
        b.wf(),
        b.can_backspace(),
    ensures
        b.left().right() == b,
{
}

/// A step down and a step up lead back, also across a shorter line: the column
/// is kept.
pub proof fn law_up_reverts_down(v: EditorView)
    requires
        v.wf(),
        v.desired_col == v.buf.col,
        v.buf.row + 1 < v.buf.lines.len(),
    ensures
        v.move_down().move_up().buf == v.buf,
{
}

/// A step up and a step down lead back, also across a shorter line: the column
/// is kept.
pub proof fn law_down_reverts_up(v: EditorView)
    requires
        v.wf(),
        v.desired_col == v.buf.col,
        v.buf.row > 0,
    ensures
        v.move_up().move_down().buf == v.buf,
{
}

/// Two pages in one direction are one page of both sizes.
pub proof fn law_pages_add_up(v: EditorView, first: int, second: int)
    requires
        v.wf(),
        0 <= first,
        0 <= second,
    ensures
        v.page_down(first).page_down(second) == v.page_down(first + second),
        v.page_up(first).page_up(second) == v.page_up(first + second),
{
}

/// After a horizontal move or an edit the column to keep is the cursor's.
pub proof fn law_column_to_keep(v: EditorView, group: EditGroup, buf: Buffer)
    ensures
        v.moved(buf).desired_col == buf.col,
        v.edited(group, buf).desired_col == buf.col,
{
}

/// A window that follows the cursor shows it, does not move if it showed it
/// before, and does not move a second time.
pub proof fn law_window_follows_cursor(first: int, cursor: int, size: int)
    requires
        0 < size,
        0 <= first,
        0 <= cursor,
    ensures
        0 <= model::follow(first, cursor, size) <= cursor < model::follow(first, cursor, size)
            + size,
        first <= cursor < first + size ==> model::follow(first, cursor, size) == first,
        model::follow(model::follow(first, cursor, size), cursor, size) == model::follow(
            first,
            cursor,
            size,
        ),
{
}

proof fn lemma_edited_wf(v: EditorView, group: EditGroup, buf: Buffer)
    requires
        v.wf(),
        buf.wf(),
    ensures
        v.edited(group, buf).wf(),
        v.moved(buf).wf(),
        v.moved_vertically(buf).wf(),
{
}

proof fn lemma_history_wf(v: EditorView)
    requires
        v.wf(),
    ensures
        v.undo_step().wf(),
        v.redo_step().wf(),
{
}

proof fn lemma_buffer_wf(b: Buffer, c: char)
    requires
        b.wf(),
    ensures
        b.char_typed(c).wf(),
        b.typed(model::indent_unit()).wf(),
        b.broken().wf(),
        b.backspaced().wf(),
        b.deleted().wf(),
        b.left().wf(),
        b.right().wf(),
{
    law_newline_keeps_text(b);
}

/// A cursor in the text stays in the text, whatever key is pressed.
pub proof fn law_cursor_stays_in_text(v: EditorView, key: KeyEvent)
    requires
        v.wf(),
        0 <= v.desired_col,
    ensures
        key.handled(v).0.wf(),
        0 <= key.handled(v).0.desired_col,
{
    lemma_history_wf(v);
    match key.code {
        KeyCode::Char(c) => {
            lemma_buffer_wf(v.buf, c);
            lemma_edited_wf(v, EditGroup::Insert, v.buf.char_typed(c));
        },
        KeyCode::Enter => {
            lemma_buffer_wf(v.buf, ' ');
            lemma_edited_wf(v, EditGroup::Newline, v.buf.broken());
        },
        KeyCode::Backspace => {
            lemma_buffer_wf(v.buf, ' ');
            lemma_edited_wf(v, EditGroup::Delete, v.buf.backspaced());
        },
        KeyCode::Delete => {
            lemma_buffer_wf(v.buf, ' ');
            lemma_edited_wf(v, EditGroup::Delete, v.buf.deleted());
        },
        KeyCode::Tab => {
            lemma_buffer_wf(v.buf, ' ');
            lemma_edited_wf(v, EditGroup::Insert, v.buf.typed(model::indent_unit()));
        },
        _ => {},
    }
}

} // verus!
