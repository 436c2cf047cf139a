//! What is read back of what was saved.

use crate::file_io;
use crate::input::{KeyCode, KeyEvent};
use crate::model;
use crate::model::{Buffer, EditorView};
use crate::text;
use vstd::prelude::*;

verus! {

/// No line holds a newline.
pub open spec fn unbroken(lines: Seq<Seq<char>>) -> bool {
    forall|i: int| 0 <= i < lines.len() ==> !(#[trigger] lines[i]).contains('\n')
}

/// No line ends in a carriage return.
pub open spec fn no_trailing_cr(lines: Seq<Seq<char>>) -> bool {
    forall|i: int|
        0 <= i < lines.len() ==> ((#[trigger] lines[i]).len() > 0 ==> lines[i].last() != '\r')
}

/// A saved buffer is read back as it was, unless one of its lines holds a
/// newline or ends in a carriage return.
pub proof fn law_saved_buffer_reads_back(lines: Seq<Seq<char>>)
    requires
        lines.len() > 0,
        unbroken(lines),
        no_trailing_cr(lines),
    ensures
        file_io::loaded(Some(file_io::stored(lines))) == lines,
{
    text::lemma_split_terminated(lines);
}

/// Every line break of `s` is a lone newline.
pub open spec fn only_newlines(s: Seq<char>) -> bool {
    forall|i: int| 0 < i < s.len() && #[trigger] s[i] == '\n' ==> s[i - 1] != '\r'
}

/// A file whose lines all end in a lone newline is not changed by opening and
/// saving it.
pub proof fn law_unchanged_file_is_kept(contents: Seq<char>)
    requires
        contents.len() > 0,
        contents.last() == '\n',
        only_newlines(contents),
    ensures
        file_io::stored(file_io::loaded(Some(contents))) == contents,
{
    lemma_terminated_split(contents);
    assert(text::split_lines(contents).len() > 0) by {
        if text::split_lines(contents).len() == 0 {
            assert(text::terminated(text::split_lines(contents)).len() == 0);
        }
    }
}

proof fn lemma_terminated_split(s: Seq<char>)
    requires
        s.len() > 0 ==> s.last() == '\n',
        only_newlines(s),
    ensures
        text::terminated(text::split_lines(s)) == s,
    decreases s.len(),
{
    if s.len() > 0 {
        let end = text::line_end(s) as int;
        text::lemma_line_end_found(s);
        assert(end < s.len());
        let first = s.take(end);
        let rest = s.skip(end + 1);
        assert(text::strip_cr(first) == first) by {
            if end > 0 {
                assert(s[end] == '\n');
                assert(first.last() == s[end - 1]);
            }
        }
        assert(only_newlines(rest)) by {
            assert forall|i: int| 0 < i < rest.len() && #[trigger] rest[i] == '\n' implies rest[i
                - 1] != '\r' by {
                assert(s[i + end + 1] == '\n');
            }
        }
        lemma_terminated_split(rest);
        let lines = text::split_lines(s);
        assert(lines == seq![first] + text::split_lines(rest));
        assert(lines.skip(1) == text::split_lines(rest));
        text::lemma_terminated_first(lines);
        assert(first.push('\n') + rest == s);
    }
}

/// What is read from a file is at least one line, and no line holds a newline.
pub proof fn law_loaded_lines_are_unbroken(raw: Option<Seq<char>>)
    ensures
        file_io::loaded(raw).len() > 0,
        unbroken(file_io::loaded(raw)),
{
    if raw is Some {
        lemma_split_unbroken(raw->0);
    }
}

proof fn lemma_split_unbroken(s: Seq<char>)
    ensures
        unbroken(text::split_lines(s)),
    decreases s.len(),
{
    if s.len() > 0 {
        let end = text::line_end(s) as int;
        let lines = text::split_lines(s);
        text::lemma_line_end_found(s);
        if end < s.len() {
            let rest = s.skip(end + 1);
            lemma_split_unbroken(rest);
            assert(!lines[0].contains('\n'));
            assert forall|i: int| 0 <= i < lines.len() implies !(#[trigger] lines[i]).contains(
                '\n',
            ) by {
                if i > 0 {
                    assert(lines[i] == text::split_lines(rest)[i - 1]);
                }
            }
        } else {
            assert(lines == seq![s]);
        }
    }
}

/// No line holds a newline, now and in every remembered state.
pub open spec fn always_unbroken(v: EditorView) -> bool {
    &&& unbroken(v.buf.lines)
    &&& forall|i: int| 0 <= i < v.undo.len() ==> unbroken((#[trigger] v.undo[i]).lines)
    &&& forall|i: int| 0 <= i < v.redo.len() ==> unbroken((#[trigger] v.redo[i]).lines)
}

proof fn lemma_edit_unbroken(b: Buffer, c: char)
    requires
        b.wf(),
        unbroken(b.lines),
        c != '\n',
    ensures
        unbroken(b.char_typed(c).lines),
        unbroken(b.typed(model::indent_unit()).lines),
        unbroken(b.backspaced().lines),
        unbroken(b.deleted().lines),
{
    let line = b.line();
    assert(!line.contains('\n'));
    assert forall|i: int| 0 <= i < line.len() implies line[i] != '\n' by {
        assert(line.contains(line[i]));
    }
    lemma_typed_unbroken(b, seq![c]);
    lemma_typed_unbroken(b, model::indent_unit());
    if model::closer(c) is Some {
        lemma_typed_unbroken(b, seq![c, model::closer(c)->0]);
    }
    if b.col > 0 {
        lemma_removed_unbroken(b, b.col - 1, b.col);
        if b.col < line.len() {
            lemma_removed_unbroken(b, b.col - 1, b.col + 1);
        }
    } else if b.row > 0 {
        lemma_joined_unbroken(b, b.row - 1);
    }
    if b.col < line.len() {
        lemma_removed_unbroken(b, b.col, b.col + 1);
    } else if b.row + 1 < b.lines.len() {
        lemma_joined_unbroken(b, b.row);
    }
}

proof fn lemma_typed_unbroken(b: Buffer, s: Seq<char>)
    requires
        b.wf(),
        unbroken(b.lines),
        forall|i: int| 0 <= i < s.len() ==> s[i] != '\n',
    ensures
        unbroken(b.typed(s).lines),
{
    let line = b.line();
    assert(!line.contains('\n'));
    assert forall|i: int| 0 <= i < line.len() implies line[i] != '\n' by {
        assert(line.contains(line[i]));
    }
}

proof fn lemma_removed_unbroken(b: Buffer, from: int, to: int)
    requires
        b.wf(),
        unbroken(b.lines),
        0 <= from <= to <= b.line().len(),
    ensures
        unbroken(b.removed(from, to).lines),
{
    let line = b.line();
    assert(!line.contains('\n'));
    assert forall|i: int| 0 <= i < line.len() implies line[i] != '\n' by {
        assert(line.contains(line[i]));
    }
}

proof fn lemma_joined_unbroken(b: Buffer, row: int)
    requires
        unbroken(b.lines),
        0 <= row,
        row + 1 < b.lines.len(),
    ensures
        unbroken(b.joined(row).lines),
{
    let lines = b.joined(row).lines;
    let joined = b.lines[row] + b.lines[row + 1];
    assert(!joined.contains('\n')) by {
        if joined.contains('\n') {
            let i = choose|i: int| 0 <= i < joined.len() && joined[i] == '\n';
            if i < b.lines[row].len() {
                assert(b.lines[row].contains(b.lines[row][i]));
            } else {
                assert(b.lines[row + 1].contains(b.lines[row + 1][i - b.lines[row].len()]));
            }
        }
    }
    assert forall|i: int| 0 <= i < lines.len() implies !(#[trigger] lines[i]).contains('\n') by {
        if i < row {
            assert(lines[i] == b.lines[i]);
        } else if i > row {
            assert(lines[i] == b.lines[i + 1]);
        }
    }
}

proof fn lemma_indentation_within(line: Seq<char>)
    ensures
        !model::indentation(line).contains('\n'),
    decreases line.len(),
{
    if line.len() > 0 && (line.first() == ' ' || line.first() == '\t') {
        lemma_indentation_within(line.skip(1));
        let rest = model::indentation(line.skip(1));
        let all = seq![line.first()] + rest;
        if all.contains('\n') {
            let i = choose|i: int| 0 <= i < all.len() && all[i] == '\n';
            assert(i > 0);
            assert(rest.contains(rest[i - 1]));
        }
    }
}

proof fn lemma_no_newline_concat(a: Seq<char>, b: Seq<char>)
    requires
        !a.contains('\n'),
        !b.contains('\n'),
    ensures
        !(a + b).contains('\n'),
{
    if (a + b).contains('\n') {
        let i = choose|i: int| 0 <= i < (a + b).len() && (a + b)[i] == '\n';
        if i < a.len() {
            assert(a.contains(a[i]));
        } else {
            assert(b.contains(b[i - a.len()]));
        }
    }
}

proof fn lemma_broken_unbroken(b: Buffer)
    requires
        b.wf(),
        unbroken(b.lines),
    ensures
        unbroken(b.broken().lines),
{
    let line = b.line();
    let indent = model::indentation(line);
    let left = line.take(b.col);
    let right = line.skip(b.col);
    assert(!line.contains('\n'));
    assert(!left.contains('\n')) by {
        if left.contains('\n') {
            let i = choose|i: int| 0 <= i < left.len() && left[i] == '\n';
            assert(line.contains(line[i]));
        }
    }
    assert(!right.contains('\n')) by {
        if right.contains('\n') {
            let i = choose|i: int| 0 <= i < right.len() && right[i] == '\n';
            assert(line.contains(line[i + b.col]));
        }
    }
    lemma_indentation_within(line);
    lemma_no_newline_concat(indent, model::indent_unit());
    lemma_no_newline_concat(indent, right);
    lemma_no_newline_concat(indent + model::indent_unit(), right);
    let lines = b.broken().lines;
    let extra = lines.len() - b.lines.len();
    assert forall|i: int| 0 <= i < lines.len() implies !(#[trigger] lines[i]).contains('\n') by {
        if i < b.row {
            assert(lines[i] == b.lines[i]);
        } else if i > b.row + extra {
            assert(lines[i] == b.lines[i - extra]);
        }
    }
}

/// Whatever key is pressed, no line comes to hold a newline, as long as none is
/// typed as a character.
pub proof fn law_keys_keep_lines_unbroken(v: EditorView, key: KeyEvent)
    requires
        v.wf(),
        always_unbroken(v),
        key.code != KeyCode::Char('\n'),
    ensures
        always_unbroken(key.handled(v).0),
{
    match key.code {
        KeyCode::Char(c) => {
            lemma_edit_unbroken(v.buf, c);
        },
        KeyCode::Enter => {
            lemma_broken_unbroken(v.buf);
        },
        _ => {
            lemma_edit_unbroken(v.buf, ' ');
        },
    }
}

} // verus!
