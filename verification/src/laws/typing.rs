//! What each editing key leaves of the text, character by character.

use crate::model;
use crate::model::{EditGroup, EditorView};
use crate::text;
use vstd::prelude::*;

verus! {

/// The lines of `after` are those of `before` except for line `row`.
pub open spec fn same_but_row(before: Seq<Seq<char>>, after: Seq<Seq<char>>, row: int) -> bool {
    &&& after.len() == before.len()
    &&& forall|i: int| 0 <= i < before.len() && i != row ==> #[trigger] after[i] == before[i]
}

// ---- typing ----

/// A typed character that is no bracket, or a closing bracket that is not there
/// yet, stands at the cursor, which moves behind it. Without it the text is what
/// it was.
pub proof fn law_typed_character_stands_at_the_cursor(v: EditorView, c: char)
    requires
        v.wf(),
        c != '{' && c != '(' && c != '[',
        (c == '}' || c == ')' || c == ']') ==> !(v.buf.col < v.buf.lines[v.buf.row].len()
            && v.buf.lines[v.buf.row][v.buf.col] == c),
    ensures
        ({
            let b = v.buf;
            let a = v.insert_char(c).buf;
            &&& a.row == b.row
            &&& a.col == b.col + 1
            &&& same_but_row(b.lines, a.lines, b.row)
            &&& a.lines[b.row].len() == b.lines[b.row].len() + 1
            &&& a.lines[b.row][b.col] == c
            &&& a.lines[b.row].remove(b.col) == b.lines[b.row]
        }),
{
    let b = v.buf;
    let a = v.insert_char(c).buf;
    assert(a.lines[b.row].remove(b.col) =~= b.lines[b.row]);
}

/// An opening bracket stands at the cursor together with the bracket that closes
/// it, and the cursor moves between the two. Without them the text is what it
/// was.
pub proof fn law_opening_bracket_brings_its_closing_one(v: EditorView, c: char)
    requires
        v.wf(),
        c == '{' || c == '(' || c == '[',
    ensures
        ({
            let b = v.buf;
            let a = v.insert_char(c).buf;
            &&& a.row == b.row
            &&& a.col == b.col + 1
            &&& same_but_row(b.lines, a.lines, b.row)
            &&& a.lines[b.row].len() == b.lines[b.row].len() + 2
            &&& a.lines[b.row][b.col] == c
            &&& c == '{' ==> a.lines[b.row][b.col + 1] == '}'
            &&& c == '(' ==> a.lines[b.row][b.col + 1] == ')'
            &&& c == '[' ==> a.lines[b.row][b.col + 1] == ']'
            &&& a.lines[b.row].remove(b.col).remove(b.col) == b.lines[b.row]
        }),
{
    let b = v.buf;
    let a = v.insert_char(c).buf;
    assert(a.lines[b.row].remove(b.col).remove(b.col) =~= b.lines[b.row]);
}

/// A closing bracket that stands at the cursor is stepped over, whatever stands
/// in front of the cursor: no line changes.
pub proof fn law_closing_bracket_at_the_cursor_is_stepped_over(v: EditorView, c: char)
    requires
        v.wf(),
        c == '}' || c == ')' || c == ']',
        v.buf.col < v.buf.lines[v.buf.row].len(),
        v.buf.lines[v.buf.row][v.buf.col] == c,
    ensures
        v.insert_char(c).buf.lines == v.buf.lines,
        v.insert_char(c).buf.row == v.buf.row,
        v.insert_char(c).buf.col == v.buf.col + 1,
{
}

/// The Tab key puts four spaces at the cursor, which moves behind them. Without
/// them the text is what it was.
pub proof fn law_tab_stands_at_the_cursor(v: EditorView)
    requires
        v.wf(),
    ensures
        ({
            let b = v.buf;
            let a = v.insert_tab().buf;
            let line = a.lines[b.row];
            &&& a.row == b.row
            &&& a.col == b.col + 4
            &&& same_but_row(b.lines, a.lines, b.row)
            &&& forall|i: int| b.col <= i < b.col + 4 ==> #[trigger] line[i] == ' '
            &&& line.take(b.col) + line.skip(b.col + 4) == b.lines[b.row]
        }),
{
    let b = v.buf;
    let line = v.insert_tab().buf.lines[b.row];
    assert(line.take(b.col) + line.skip(b.col + 4) =~= b.lines[b.row]);
}

// ---- removing ----

/// Whether the characters at `at - 1` and `at` of `line` are an opening bracket
/// and the one that closes it.
pub open spec fn pair_around(line: Seq<char>, at: int) -> bool {
    &&& 0 < at < line.len()
    &&& {
        ||| line[at - 1] == '{' && line[at] == '}'
        ||| line[at - 1] == '(' && line[at] == ')'
        ||| line[at - 1] == '[' && line[at] == ']'
    }
}

/// Inside a line Backspace removes the character in front of the cursor and no
/// other, and between the brackets of a pair both brackets.
pub proof fn law_backspace_removes_what_is_in_front(v: EditorView)
    requires
        v.wf(),
        v.buf.col > 0,
    ensures
        ({
            let b = v.buf;
            let a = v.backspace().buf;
            let line = b.lines[b.row];
            &&& a.row == b.row
            &&& a.col == b.col - 1
            &&& same_but_row(b.lines, a.lines, b.row)
            &&& pair_around(line, b.col) ==> a.lines[b.row] == line.remove(b.col).remove(b.col - 1)
            &&& !pair_around(line, b.col) ==> a.lines[b.row] == line.remove(b.col - 1)
        }),
{
    let b = v.buf;
    let line = b.lines[b.row];
    let a = v.backspace().buf;
    if pair_around(line, b.col) {
        assert(a.lines[b.row] =~= line.remove(b.col).remove(b.col - 1));
    } else {
        assert(a.lines[b.row] =~= line.remove(b.col - 1));
    }
}

/// Inside a line Delete removes the character at the cursor and no other; the
/// cursor stays.
pub proof fn law_delete_removes_what_is_behind(v: EditorView)
    requires
        v.wf(),
        v.buf.col < v.buf.lines[v.buf.row].len(),
    ensures
        ({
            let b = v.buf;
            let a = v.delete_forward().buf;
            &&& a.row == b.row
            &&& a.col == b.col
            &&& same_but_row(b.lines, a.lines, b.row)
            &&& a.lines[b.row] == b.lines[b.row].remove(b.col)
        }),
{
    let b = v.buf;
    assert(v.delete_forward().buf.lines[b.row] =~= b.lines[b.row].remove(b.col));
}

/// `after` is `before` with line `row + 1` moved to the end of line `row`: no
/// character is lost and no other line changes.
pub open spec fn merged(before: Seq<Seq<char>>, after: Seq<Seq<char>>, row: int) -> bool {
    &&& after.len() == before.len() - 1
    &&& after[row] == before[row] + before[row + 1]
    &&& forall|i: int| 0 <= i < row ==> #[trigger] after[i] == before[i]
    &&& forall|i: int| row < i < after.len() ==> #[trigger] after[i] == before[i + 1]
    &&& after.flatten() == before.flatten()
}

proof fn lemma_merged_flatten(before: Seq<Seq<char>>, after: Seq<Seq<char>>, row: int)
    requires
        0 <= row,
        row + 1 < before.len(),
        after.len() == before.len() - 1,
        after[row] == before[row] + before[row + 1],
        forall|i: int| 0 <= i < row ==> #[trigger] after[i] == before[i],
        forall|i: int| row < i < after.len() ==> #[trigger] after[i] == before[i + 1],
    ensures
        after.flatten() == before.flatten(),
    decreases row,
{
    if row == 0 {
        assert(after.drop_first() =~= before.drop_first().drop_first());
        let rest = before.drop_first();
        assert(rest.first() == before[1]);
        assert(rest.flatten() == rest.first() + rest.drop_first().flatten());
        assert(before.flatten() == before.first() + rest.flatten());
        assert(before[0] + (before[1] + before.drop_first().drop_first().flatten()) =~= (before[0]
            + before[1]) + after.drop_first().flatten());
    } else {
        let b = before.drop_first();
        let a = after.drop_first();
        assert forall|i: int| 0 <= i < row - 1 implies #[trigger] a[i] == b[i] by {
            assert(after[i + 1] == before[i + 1]);
        }
        assert forall|i: int| row - 1 < i < a.len() implies #[trigger] a[i] == b[i + 1] by {
            assert(after[i + 1] == before[i + 2]);
        }
        lemma_merged_flatten(b, a, row - 1);
        assert(after.first() == before.first());
    }
}

/// At the start of a line Backspace merges it with the line before it, and the
/// cursor stands between the two parts.
pub proof fn law_backspace_merges_lines(v: EditorView)
    requires
        v.wf(),
        v.buf.col == 0,
        v.buf.row > 0,
    ensures
        merged(v.buf.lines, v.backspace().buf.lines, v.buf.row - 1),
        v.backspace().buf.row == v.buf.row - 1,
        v.backspace().buf.col == v.buf.lines[v.buf.row - 1].len(),
{
    lemma_merged_flatten(v.buf.lines, v.backspace().buf.lines, v.buf.row - 1);
}

/// At the end of a line Delete merges it with the line behind it; the cursor
/// stays.
pub proof fn law_delete_merges_lines(v: EditorView)
    requires
        v.wf(),
        v.buf.col == v.buf.lines[v.buf.row].len(),
        v.buf.row + 1 < v.buf.lines.len(),
    ensures
        merged(v.buf.lines, v.delete_forward().buf.lines, v.buf.row),
        v.delete_forward().buf.row == v.buf.row,
        v.delete_forward().buf.col == v.buf.col,
{
    lemma_merged_flatten(v.buf.lines, v.delete_forward().buf.lines, v.buf.row);
}

/// At the very start of the text Backspace, and at its very end Delete, does
/// nothing but take the quit question away.
pub proof fn law_nothing_is_removed_at_the_ends(v: EditorView)
    requires
        v.wf(),
    ensures
        v.buf.row == 0 && v.buf.col == 0 ==> v.backspace() == (EditorView {
            confirm_quit: false,
            ..v
        }),
        v.buf.row == v.buf.lines.len() - 1 && v.buf.col == v.buf.lines[v.buf.row].len()
            ==> v.delete_forward() == (EditorView { confirm_quit: false, ..v }),
{
}

// ---- Enter ----

/// `after` is `before` with line `row` replaced by `lines`.
pub open spec fn row_replaced(
    before: Seq<Seq<char>>,
    after: Seq<Seq<char>>,
    row: int,
    lines: Seq<Seq<char>>,
) -> bool {
    &&& after.len() == before.len() - 1 + lines.len()
    &&& forall|i: int| 0 <= i < row ==> #[trigger] after[i] == before[i]
    &&& forall|i: int| 0 <= i < lines.len() ==> after[row + i] == #[trigger] lines[i]
    &&& forall|i: int|
        row < i < before.len() ==> after[i - 1 + lines.len()] == #[trigger] before[i]
}

/// Whether `line` starts with exactly `k` spaces and tabs.
pub open spec fn indented_by(line: Seq<char>, k: int) -> bool {
    &&& 0 <= k <= line.len()
    &&& forall|i: int| 0 <= i < k ==> (#[trigger] line[i] == ' ' || line[i] == '\t')
    &&& k < line.len() ==> line[k] != ' ' && line[k] != '\t'
}

/// Every line is indented by some number of spaces and tabs, and by one only.
pub proof fn law_indentation_is_unique(line: Seq<char>, a: int, b: int)
    ensures
        exists|k: int| indented_by(line, k),
        indented_by(line, a) && indented_by(line, b) ==> a == b,
{
    lemma_indentation(line);
}

/// Whether the text in front of `col` ends, white space aside, in an opening
/// bracket.
pub open spec fn behind_opener(line: Seq<char>, col: int) -> bool {
    exists|t: int|
        {
            &&& 0 <= t < col
            &&& #[trigger] line[t] == '{' || line[t] == '(' || line[t] == '['
            &&& forall|i: int| t < i < col ==> text::white_space(#[trigger] line[i])
        }
}

proof fn lemma_indentation(line: Seq<char>)
    ensures
        indented_by(line, model::indentation(line).len() as int),
        model::indentation(line) == line.take(model::indentation(line).len() as int),
    decreases line.len(),
{
    let indent = model::indentation(line);
    if line.len() > 0 && (line.first() == ' ' || line.first() == '\t') {
        let rest = line.skip(1);
        lemma_indentation(rest);
        let k = model::indentation(rest).len() as int;
        assert(indent.len() == k + 1);
        assert forall|i: int| 0 <= i < k + 1 implies (#[trigger] line[i] == ' ' || line[i]
            == '\t') by {
            if i > 0 {
                assert(rest[i - 1] == line[i]);
            }
        }
        if k + 1 < line.len() {
            assert(rest[k] == line[k + 1]);
        }
        assert(indent =~= line.take(k + 1)) by {
            assert forall|i: int| 0 <= i < k + 1 implies indent[i] == line[i] by {
                if i > 0 {
                    assert(model::indentation(rest)[i - 1] == rest[i - 1]);
                }
            }
        }
    } else {
        assert(indent =~= line.take(0));
    }
}

proof fn lemma_opens_block(left: Seq<char>)
    ensures
        model::opens_block(left) <==> behind_opener(left, left.len() as int),
    decreases left.len(),
{
    if left.len() > 0 {
        let last = left.len() - 1;
        if text::white_space(left.last()) {
            let shorter = left.drop_last();
            lemma_opens_block(shorter);
            if behind_opener(shorter, shorter.len() as int) {
                let t = choose|t: int|
                    {
                        &&& 0 <= t < shorter.len()
                        &&& #[trigger] shorter[t] == '{' || shorter[t] == '(' || shorter[t] == '['
                        &&& forall|i: int|
                            t < i < shorter.len() ==> text::white_space(#[trigger] shorter[i])
                    };
                assert(left[t] == shorter[t]);
                assert forall|i: int| t < i < left.len() implies text::white_space(
                    #[trigger] left[i],
                ) by {
                    if i < last {
                        assert(shorter[i] == left[i]);
                    }
                }
                assert(behind_opener(left, left.len() as int));
            }
            if behind_opener(left, left.len() as int) {
                let t = choose|t: int|
                    {
                        &&& 0 <= t < left.len()
                        &&& #[trigger] left[t] == '{' || left[t] == '(' || left[t] == '['
                        &&& forall|i: int|
                            t < i < left.len() ==> text::white_space(#[trigger] left[i])
                    };
                assert(t != last);
                assert(shorter[t] == left[t]);
                assert forall|i: int| t < i < shorter.len() implies text::white_space(
                    #[trigger] shorter[i],
                ) by {
                    assert(left[i] == shorter[i]);
                }
                assert(behind_opener(shorter, shorter.len() as int));
            }
        } else {
            if model::opens_block(left) {
                assert(left[last] == '{' || left[last] == '(' || left[last] == '[');
                assert(behind_opener(left, left.len() as int));
            }
            if behind_opener(left, left.len() as int) {
                let t = choose|t: int|
                    {
                        &&& 0 <= t < left.len()
                        &&& #[trigger] left[t] == '{' || left[t] == '(' || left[t] == '['
                        &&& forall|i: int|
                            t < i < left.len() ==> text::white_space(#[trigger] left[i])
                    };
                if t < last {
                    assert(text::white_space(left[last]));
                }
                assert(t == last);
            }
        }
    }
}

/// Outside of a `{}` pair Enter breaks the line at the cursor. The line that it
/// opens starts with the spaces and tabs that the broken line starts with, all
/// of them, followed by four spaces if and only if the text in front of the
/// cursor ends, white space aside, in an opening bracket. The cursor stands
/// behind that indentation.
pub proof fn law_enter_copies_the_indentation(v: EditorView, k: int)
    requires
        v.wf(),
        indented_by(v.buf.lines[v.buf.row], k),
        !(0 < v.buf.col < v.buf.lines[v.buf.row].len()
            && v.buf.lines[v.buf.row][v.buf.col - 1] == '{'
            && v.buf.lines[v.buf.row][v.buf.col] == '}'),
    ensures
        ({
            let b = v.buf;
            let a = v.newline().buf;
            let line = b.lines[b.row];
            let indent = line.take(k) + (if behind_opener(line, b.col) {
                seq![' ', ' ', ' ', ' ']
            } else {
                seq![]
            });
            &&& row_replaced(
                b.lines,
                a.lines,
                b.row,
                seq![line.take(b.col), indent + line.skip(b.col)],
            )
            &&& a.row == b.row + 1
            &&& a.col == indent.len()
        }),
{
    let b = v.buf;
    let line = b.lines[b.row];
    let left = line.take(b.col);
    lemma_indentation(line);
    law_indentation_is_unique(line, k, model::indentation(line).len() as int);
    lemma_opens_block(left);
    lemma_same_opener(line, b.col);
    assert(line.take(k) + Seq::<char>::empty() =~= line.take(k));
    let a = v.newline().buf;
    assert(b.col < line.len() ==> line[b.col] == line.skip(b.col)[0]);
}

proof fn lemma_same_opener(line: Seq<char>, col: int)
    requires
        0 <= col <= line.len(),
    ensures
        behind_opener(line, col) <==> behind_opener(line.take(col), col),
{
    let left = line.take(col);
    if behind_opener(line, col) {
        let t = choose|t: int|
            {
                &&& 0 <= t < col
                &&& #[trigger] line[t] == '{' || line[t] == '(' || line[t] == '['
                &&& forall|i: int| t < i < col ==> text::white_space(#[trigger] line[i])
            };
        assert(left[t] == line[t]);
        assert forall|i: int| t < i < col implies text::white_space(#[trigger] left[i]) by {
            assert(line[i] == left[i]);
        }
    }
    if behind_opener(left, col) {
        let t = choose|t: int|
            {
                &&& 0 <= t < col
                &&& #[trigger] left[t] == '{' || left[t] == '(' || left[t] == '['
                &&& forall|i: int| t < i < col ==> text::white_space(#[trigger] left[i])
            };
        assert(left[t] == line[t]);
        assert forall|i: int| t < i < col implies text::white_space(#[trigger] line[i]) by {
            assert(line[i] == left[i]);
        }
    }
}

/// Between `{` and `}` Enter puts the two on lines of their own: the closing one
/// as deep as the line, and between them a line that is four spaces deeper, with
/// the cursor at its end.
pub proof fn law_enter_opens_a_block(v: EditorView, k: int)
    requires
        v.wf(),
        indented_by(v.buf.lines[v.buf.row], k),
        0 < v.buf.col < v.buf.lines[v.buf.row].len(),
        v.buf.lines[v.buf.row][v.buf.col - 1] == '{',
        v.buf.lines[v.buf.row][v.buf.col] == '}',
    ensures
        ({
            let b = v.buf;
            let a = v.newline().buf;
            let line = b.lines[b.row];
            let indent = line.take(k);
            &&& row_replaced(
                b.lines,
                a.lines,
                b.row,
                seq![
                    line.take(b.col),
                    indent + seq![' ', ' ', ' ', ' '],
                    indent + line.skip(b.col),
                ],
            )
            &&& a.row == b.row + 1
            &&& a.col == k + 4
        }),
{
    let line = v.buf.lines[v.buf.row];
    lemma_indentation(line);
    law_indentation_is_unique(line, k, model::indentation(line).len() as int);
}

// ---- what goes with every edit ----

/// What goes with an edit of the given kind: the text is unsaved, the quit
/// question is gone and the column to keep is the cursor's. An edit of the same
/// kind as the last joins its undo step. Any other remembers the state before it
/// and forgets what was undone. Nothing else changes.
pub open spec fn recorded(v: EditorView, after: EditorView, group: EditGroup) -> bool {
    &&& after.modified
    &&& !after.confirm_quit
    &&& after.desired_col == after.buf.col
    &&& after.group == group
    &&& v.group == group ==> after.undo == v.undo && after.redo == v.redo
    &&& v.group != group ==> after.undo == v.undo.push(v.buf) && after.redo.len() == 0
    &&& after.scroll == v.scroll
    &&& after.col_scroll == v.col_scroll
    &&& after.file_path == v.file_path
    &&& after.status == v.status
    &&& after.status_is_error == v.status_is_error
    &&& after.diagnostics == v.diagnostics
}

/// Every edit is recorded under its kind.
pub proof fn law_edits_are_recorded(v: EditorView, c: char)
    requires
        v.wf(),
    ensures
        recorded(v, v.insert_char(c), EditGroup::Insert),
        recorded(v, v.insert_tab(), EditGroup::Insert),
        recorded(v, v.newline(), EditGroup::Newline),
        v.buf.row > 0 || v.buf.col > 0 ==> recorded(v, v.backspace(), EditGroup::Delete),
        v.buf.row + 1 < v.buf.lines.len() || v.buf.col < v.buf.lines[v.buf.row].len() ==> recorded(
            v,
            v.delete_forward(),
            EditGroup::Delete,
        ),
{
}

// ---- undo and redo ----

/// Undo and redo walk along the remembered states: the last one becomes the
/// present, and the present is remembered on the other side. The next edit
/// starts a step of its own, and the text counts as unsaved.
pub proof fn law_history_is_walked(v: EditorView)
    ensures
        v.undo.len() > 0 ==> v.undo_step() == (EditorView {
            buf: v.undo[v.undo.len() - 1],
            undo: v.undo.take(v.undo.len() - 1),
            redo: v.redo.push(v.buf),
            group: EditGroup::Idle,
            modified: true,
            status: "Undo"@,
            status_is_error: false,
            ..v
        }),
        v.redo.len() > 0 ==> v.redo_step() == (EditorView {
            buf: v.redo[v.redo.len() - 1],
            redo: v.redo.take(v.redo.len() - 1),
            undo: v.undo.push(v.buf),
            group: EditGroup::Idle,
            modified: true,
            status: "Redo"@,
            status_is_error: false,
            ..v
        }),
        v.undo.len() == 0 ==> v.undo_step() == (EditorView {
            status: "Nothing to undo"@,
            status_is_error: false,
            ..v
        }),
        v.redo.len() == 0 ==> v.redo_step() == (EditorView {
            status: "Nothing to redo"@,
            status_is_error: false,
            ..v
        }),
{
    if v.undo.len() > 0 {
        assert(v.undo.drop_last() =~= v.undo.take(v.undo.len() - 1));
    }
    if v.redo.len() > 0 {
        assert(v.redo.drop_last() =~= v.redo.take(v.redo.len() - 1));
    }
}

} // verus!
