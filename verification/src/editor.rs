//! The editor: a text, a cursor, and what the keys do to them.

use crate::check;
use crate::check::Diagnostic;
use crate::file_io;
use crate::model;
use crate::model::{Buffer, EditGroup, EditorView};
use crate::text;
use vstd::prelude::*;
use vstd::string::*;

verus! {

/// One level of indentation.
const INDENT: &'static str = "    ";

/// A remembered text and cursor.
struct Snapshot {
    lines: Vec<String>,
    cursor_row: usize,
    cursor_col: usize,
}

impl View for Snapshot {
    type V = Buffer;

    closed spec fn view(&self) -> Buffer {
        Buffer {
            lines: text::views(self.lines@),
            row: self.cursor_row as int,
            col: self.cursor_col as int,
        }
    }
}

spec fn snapshot_views(stack: Seq<Snapshot>) -> Seq<Buffer> {
    Seq::new(stack.len(), |i: int| stack[i]@)
}

/// The remembered states of a text, and the kind of edit that the current undo
/// step collects.
pub struct History {
    undo_stack: Vec<Snapshot>,
    redo_stack: Vec<Snapshot>,
    last_edit_group: EditGroup,
}

impl History {
    /// The states that undo goes back to, the nearest last.
    pub closed spec fn undo_states(&self) -> Seq<Buffer> {
        snapshot_views(self.undo_stack@)
    }

    /// The states that redo goes forward to, the nearest last.
    pub closed spec fn redo_states(&self) -> Seq<Buffer> {
        snapshot_views(self.redo_stack@)
    }

    /// The kind of edit that the current undo step collects.
    pub closed spec fn group(&self) -> EditGroup {
        self.last_edit_group
    }
}

/// An open file and the state of its editing.
pub struct Editor {
    pub lines: Vec<String>,
    pub cursor_row: usize,
    pub cursor_col: usize,
    /// The file's path as it is shown to the user.
    pub file_path: String,
    pub modified: bool,
    /// Top-left visible cell, in (line, char) space.
    pub scroll: usize,
    pub col_scroll: usize,
    pub confirm_quit: bool,
    pub status_message: String,
    pub status_is_error: bool,
    /// The column that vertical moves try to keep.
    pub desired_col: usize,
    pub history: History,
    /// The diagnostics of the last check.
    pub diagnostics: Vec<Diagnostic>,
}

impl View for Editor {
    type V = EditorView;

    open spec fn view(&self) -> EditorView {
        EditorView {
            buf: Buffer {
                lines: text::views(self.lines@),
                row: self.cursor_row as int,
                col: self.cursor_col as int,
            },
            desired_col: self.desired_col as int,
            undo: self.history.undo_states(),
            redo: self.history.redo_states(),
            group: self.history.group(),
            modified: self.modified,
            confirm_quit: self.confirm_quit,
            scroll: self.scroll as int,
            col_scroll: self.col_scroll as int,
            file_path: self.file_path@,
            status: self.status_message@,
            status_is_error: self.status_is_error,
            diagnostics: check::diagnostic_views(self.diagnostics@),
        }
    }
}

impl Editor {
    /// The cursor lies in the text, now and in every remembered state.
    pub open spec fn wf(&self) -> bool {
        self@.wf()
    }

    /// Opens an editor on what the file at `path` holds; `None` if there is no
    /// such file yet.
    pub fn open(path: String, raw: Option<&str>) -> (editor: Editor)
        ensures
            editor@ == EditorView::opened(
                path@,
                file_io::loaded(
                    match raw {
                        Some(contents) => Some(contents@),
                        None => None,
                    },
                ),
            ),
            editor.wf(),
    {
        let lines = file_io::load_or_create(raw);
        let editor = Editor {
            lines,
            cursor_row: 0,
            cursor_col: 0,
            file_path: path,
            modified: false,
            scroll: 0,
            col_scroll: 0,
            confirm_quit: false,
            status_message: "Ctrl+S save  Ctrl+Q quit  Ctrl+Z undo  Ctrl+Y redo".to_owned(),
            status_is_error: false,
            desired_col: 0,
            history: History {
                undo_stack: Vec::new(),
                redo_stack: Vec::new(),
                last_edit_group: EditGroup::Idle,
            },
            diagnostics: Vec::new(),
        };
        proof {
            assert(editor.history.undo_states() =~= seq![]);
            assert(editor.history.redo_states() =~= seq![]);
            assert(editor@.diagnostics =~= seq![]);
        }
        editor
    }

    /// How many lines the text has.
    pub fn line_count(&self) -> (result: usize)
        ensures
            result == self@.buf.lines.len(),
    {
        self.lines.len()
    }

    fn current_line(&self) -> (result: &str)
        requires
            self.wf(),
        ensures
            result@ == self@.buf.line(),
    {
        self.lines[self.cursor_row].as_str()
    }

    fn current_line_char_len(&self) -> (result: usize)
        requires
            self.wf(),
        ensures
            result == self@.buf.line().len(),
    {
        self.current_line().unicode_len()
    }

    fn char_before_cursor(&self) -> (result: Option<char>)
        requires
            self.wf(),
        ensures
            result == self@.buf.before(),
    {
        if self.cursor_col == 0 {
            None
        } else {
            Some(self.current_line().get_char(self.cursor_col - 1))
        }
    }

    fn char_at_cursor(&self) -> (result: Option<char>)
        requires
            self.wf(),
        ensures
            result == self@.buf.after(),
            result is Some ==> self.cursor_col < usize::MAX,
    {
        if self.cursor_col < self.current_line_char_len() {
            Some(self.current_line().get_char(self.cursor_col))
        } else {
            None
        }
    }

    fn leading_whitespace(line: &str) -> (result: String)
        ensures
            result@ == model::indentation(line@),
    {
        let chars = text::chars_of(line);
        let n: usize = chars.len();
        let mut end: usize = 0;
        assert(chars@.skip(0) == chars@);
        assert(chars@.take(0) + model::indentation(chars@) == model::indentation(chars@));
        while end < n && (chars[end] == ' ' || chars[end] == '\t')
            invariant
                end <= n == chars@.len(),
                chars@.take(end as int) + model::indentation(chars@.skip(end as int))
                    == model::indentation(chars@),
            decreases n - end,
        {
            proof {
                let rest = chars@.skip(end as int);
                assert(rest.skip(1) == chars@.skip(end + 1));
                assert(chars@.take(end + 1) + model::indentation(rest.skip(1)) == chars@.take(
                    end as int,
                ) + (seq![rest.first()] + model::indentation(rest.skip(1))));
            }
            end += 1;
        }
        assert(chars@.take(end as int) == chars@.take(end as int) + Seq::<char>::empty());
        text::string_of(&chars, 0, end)
    }

    // ---- low level buffer mutation (no undo bookkeeping) ----

    fn insert_raw(&mut self, c: char)
        requires
            old(self).wf(),
        ensures
            final(self)@ == (EditorView { buf: old(self)@.buf.typed(seq![c]), ..old(self)@ }),
            final(self).wf(),
    {
        let row = self.cursor_row;
        let mut inserted = String::new();
        inserted.push(c);
        let line = text::insert_text(self.lines[row].as_str(), self.cursor_col, inserted.as_str());
        let len = line.as_str().unicode_len();
        assert(inserted@ == seq![c]);
        self.lines[row] = line;
        assert(self.cursor_col + 1 <= len);
        self.cursor_col += 1;
        assert(text::views(self.lines@) == old(self)@.buf.typed(seq![c]).lines);
    }

    /// Removes the characters `start..end` of the cursor's line.
    fn remove_chars(&mut self, start: usize, end: usize)
        requires
            old(self).wf(),
            start <= end <= old(self)@.buf.line().len(),
        ensures
            final(self)@ == (EditorView {
                buf: old(self)@.buf.removed(start as int, end as int),
                ..old(self)@
            }),
            final(self).wf(),
    {
        let row = self.cursor_row;
        let line = self.lines[row].as_str();
        let mut kept = line.substring_char(0, start).to_owned();
        kept.append(line.substring_char(end, line.unicode_len()));
        self.lines[row] = kept;
        self.cursor_col = start;
        assert(text::views(self.lines@) == old(self)@.buf.removed(start as int, end as int).lines);
    }

    /// Appends line `row + 1` to line `row` and puts the cursor between the two
    /// parts.
    fn join_lines(&mut self, row: usize)
        requires
            old(self).wf(),
            row + 1 < old(self)@.buf.lines.len(),
        ensures
            final(self)@ == (EditorView { buf: old(self)@.buf.joined(row as int), ..old(self)@ }),
            final(self).wf(),
    {
        let count = self.lines.len();
        assert(row + 1 < count);
        let next = self.lines.remove(row + 1);
        let col = self.lines[row].as_str().unicode_len();
        let joined = text::concat(self.lines[row].as_str(), next.as_str());
        self.lines[row] = joined;
        self.cursor_row = row;
        self.cursor_col = col;
        assert(text::views(self.lines@) == old(self)@.buf.joined(row as int).lines);
    }

    // ---- undo bookkeeping ----

    fn snapshot(&self) -> (result: Snapshot)
        ensures
            result@ == self@.buf,
    {
        let lines = self.lines.clone();
        assert(text::views(lines@) == text::views(self.lines@));
        Snapshot { lines, cursor_row: self.cursor_row, cursor_col: self.cursor_col }
    }

    fn begin_edit(&mut self, group: EditGroup)
        requires
            old(self).wf(),
        ensures
            final(self)@ == old(self)@.begun(group),
            final(self).wf(),
    {
        if self.history.last_edit_group != group {
            let state = self.snapshot();
            self.history.undo_stack.push(state);
            self.history.redo_stack.clear();
            self.history.last_edit_group = group;
            assert(self.history.undo_states() == old(self)@.undo.push(old(self)@.buf));
            assert(self.history.redo_states() == Seq::<Buffer>::empty());
        }
    }

    /// Breaks undo coalescing; call this on cursor moves and other
    /// non-edit actions so the next edit starts a fresh undo step.
    fn reset_edit_group(&mut self)
        ensures
            final(self)@ == (EditorView { group: EditGroup::Idle, ..old(self)@ }),
    {
        self.history.last_edit_group = EditGroup::Idle;
    }

    /// Makes a remembered state the present one.
    fn restore(&mut self, state: Snapshot)
        requires
            state@.wf(),
        ensures
            final(self)@ == (EditorView {
                buf: state@,
                group: EditGroup::Idle,
                modified: true,
                ..old(self)@
            }),
    {
        self.lines = state.lines;
        self.cursor_row = state.cursor_row;
        self.cursor_col = state.cursor_col;
        self.clamp_cursor();
        self.history.last_edit_group = EditGroup::Idle;
        self.modified = true;
    }

    /// Whether the next edit starts an undo step of its own, whatever its kind.
    pub fn is_between_steps(&self) -> (result: bool)
        ensures
            result == (self@.group == EditGroup::Idle),
    {
        self.history.last_edit_group == EditGroup::Idle
    }

    /// Whether there is a state to go back to.
    pub fn can_undo(&self) -> (result: bool)
        ensures
            result == (self@.undo.len() > 0),
    {
        self.history.undo_stack.len() > 0
    }

    /// Whether there is a state to go forward to.
    pub fn can_redo(&self) -> (result: bool)
        ensures
            result == (self@.redo.len() > 0),
    {
        self.history.redo_stack.len() > 0
    }

    /// Goes back to the state before the last undo step.
    pub fn undo(&mut self)
        requires
            old(self).wf(),
        ensures
            final(self)@ == old(self)@.undo_step(),
            final(self).wf(),
    {
        if let Some(state) = self.history.undo_stack.pop() {
            let present = self.snapshot();
            self.history.redo_stack.push(present);
            proof {
                assert(self.history.undo_states() == old(self)@.undo.drop_last());
                assert(self.history.redo_states() == old(self)@.redo.push(old(self)@.buf));
                assert(state@ == old(self)@.undo.last());
            }
            self.restore(state);
            self.status_message = "Undo".to_owned();
            self.status_is_error = false;
        } else {
            self.status_message = "Nothing to undo".to_owned();
            self.status_is_error = false;
        }
    }

    /// Goes forward again to the state that the last undo left.
    pub fn redo(&mut self)
        requires
            old(self).wf(),
        ensures
            final(self)@ == old(self)@.redo_step(),
            final(self).wf(),
    {
        if let Some(state) = self.history.redo_stack.pop() {
            let present = self.snapshot();
            self.history.undo_stack.push(present);
            proof {
                assert(self.history.redo_states() == old(self)@.redo.drop_last());
                assert(self.history.undo_states() == old(self)@.undo.push(old(self)@.buf));
                assert(state@ == old(self)@.redo.last());
            }
            self.restore(state);
            self.status_message = "Redo".to_owned();
            self.status_is_error = false;
        } else {
            self.status_message = "Nothing to redo".to_owned();
            self.status_is_error = false;
        }
    }

    /// Moves a cursor that lies behind the text back into it.
    fn clamp_cursor(&mut self)
        requires
            old(self)@.buf.lines.len() > 0,
        ensures
            final(self)@ == (EditorView { buf: old(self)@.buf.clamped(), ..old(self)@ }),
    {
        if self.cursor_row >= self.lines.len() {
            self.cursor_row = self.lines.len() - 1;
        }
        let len = self.lines[self.cursor_row].as_str().unicode_len();
        if self.cursor_col > len {
            self.cursor_col = len;
        }
    }

    // ---- editing ----

    /// What every edit ends with.
    fn finish_edit(&mut self)
        requires
            old(self).wf(),
        ensures
            final(self)@ == (EditorView {
                desired_col: old(self)@.buf.col,
                modified: true,
                confirm_quit: false,
                ..old(self)@
            }),
            final(self).wf(),
    {
        self.desired_col = self.cursor_col;
        self.modified = true;
        self.confirm_quit = false;
    }

    /// Inserts a typed character, applying VS Code-style smart bracket
    /// pairing for `{`, `(`, `[` and type-over for their closers.
    pub fn insert_char(&mut self, c: char)
        requires
            old(self).wf(),
        ensures
            final(self)@ == old(self)@.insert_char(c),
            final(self).wf(),
    {
        let after = self.char_at_cursor();
        self.begin_edit(EditGroup::Insert);
        match Self::closing_bracket(c) {
            Some(close) => {
                self.insert_raw(c);
                self.insert_raw(close);
                self.cursor_col -= 1;
                proof {
                    old(self)@.buf.lemma_typed_twice(seq![c], seq![close]);
                    assert(seq![c] + seq![close] == seq![c, close]);
                }
            },
            None => {
                if (c == '}' || c == ')' || c == ']') && after == Some(c) {
                    // Type over an already-present closing bracket instead of
                    // inserting a duplicate.
                    self.cursor_col += 1;
                } else {
                    self.insert_raw(c);
                }
            },
        }
        self.finish_edit();
    }

    fn closing_bracket(c: char) -> (result: Option<char>)
        ensures
            result == model::closer(c),
    {
        if c == '{' {
            Some('}')
        } else if c == '(' {
            Some(')')
        } else if c == '[' {
            Some(']')
        } else {
            None
        }
    }

    /// The Tab key: one level of indentation, in spaces.
    pub fn insert_tab(&mut self)
        requires
            old(self).wf(),
        ensures
            final(self)@ == old(self)@.insert_tab(),
            final(self).wf(),
    {
        self.begin_edit(EditGroup::Insert);
        let ghost begun = self@;
        let width: usize = INDENT.unicode_len();
        let mut typed: usize = 0;
        proof {
            reveal_strlit("    ");
            assert(begun.buf.typed(model::indent_unit().take(0)) =~~= begun.buf);
        }
        while typed < width
            invariant
                typed <= width == 4,
                self.wf(),
                begun.wf(),
                self@ == (EditorView {
                    buf: begun.buf.typed(model::indent_unit().take(typed as int)),
                    ..begun
                }),
            decreases width - typed,
        {
            self.insert_raw(' ');
            proof {
                let unit = model::indent_unit();
                begun.buf.lemma_typed_twice(unit.take(typed as int), seq![' ']);
                assert(unit.take(typed as int) + seq![' '] == unit.take(typed + 1));
            }
            typed += 1;
        }
        assert(model::indent_unit().take(4) == model::indent_unit());
        self.finish_edit();
    }

    /// Enter key: implements the "smart" C#-block split. If the cursor
    /// sits directly between `{` and `}`, expand into three lines with the
    /// closing brace re-indented and an empty, deeper-indented line for the
    /// cursor. Otherwise, do a normal newline that copies (and possibly
    /// deepens) the current line's indentation.
    pub fn newline(&mut self)
        requires
            old(self).wf(),
        ensures
            final(self)@ == old(self)@.newline(),
            final(self).wf(),
    {
        self.begin_edit(EditGroup::Newline);
        let ghost buf = self@.buf;

        let row = self.cursor_row;
        let count = self.lines.len();
        assert(row < count);
        let line = self.lines[row].clone();
        let indent = Self::leading_whitespace(line.as_str());

        let before = self.char_before_cursor();
        let after = self.char_at_cursor();

        let left = line.as_str().substring_char(0, self.cursor_col).to_owned();
        let right = line.as_str().substring_char(self.cursor_col, line.as_str().unicode_len());
        proof {
            reveal_strlit("    ");
            assert(INDENT@ =~= model::indent_unit());
        }
        let deeper = text::concat(indent.as_str(), INDENT);

        if before == Some('{') && after == Some('}') {
            let last = text::concat(indent.as_str(), right);
            let col = deeper.as_str().unicode_len();
            self.lines[row] = left;
            self.lines.insert(row + 1, deeper);
            let count = self.lines.len();
            assert(row + 2 <= count);
            self.lines.insert(row + 2, last);
            self.cursor_row = row + 1;
            self.cursor_col = col;
        } else {
            let new_indent = if Self::opens_block(left.as_str()) {
                deeper
            } else {
                indent
            };
            let col = new_indent.as_str().unicode_len();
            let second = text::concat(new_indent.as_str(), right);
            self.lines[row] = left;
            self.lines.insert(row + 1, second);
            self.cursor_row = row + 1;
            self.cursor_col = col;
        }
        assert(self@.buf =~~= buf.broken());
        self.finish_edit();
    }

    /// Whether `left`, trailing white space aside, ends in an opening bracket.
    fn opens_block(left: &str) -> (result: bool)
        ensures
            result == model::opens_block(left@),
    {
        let chars = text::chars_of(left);
        let end = text::trim_end_len(&chars, 0, chars.len());
        assert(chars@.subrange(0, chars@.len() as int) == chars@);
        end > 0 && Self::closing_bracket(chars[end - 1]).is_some()
    }

    /// Backspace: deletes an adjacent auto-paired `{}`/`()`/`[]` as a unit,
    /// otherwise removes one character, otherwise merges with the previous
    /// line.
    pub fn backspace(&mut self)
        requires
            old(self).wf(),
        ensures
            final(self)@ == old(self)@.backspace(),
            final(self).wf(),
    {
        if self.cursor_col == 0 {
            if self.cursor_row == 0 {
                self.confirm_quit = false;
                return;
            }
            self.begin_edit(EditGroup::Delete);
            self.join_lines(self.cursor_row - 1);
        } else {
            self.begin_edit(EditGroup::Delete);
            let before = self.char_before_cursor();
            let after = self.char_at_cursor();
            let is_pair = match before {
                Some(open) => {
                    let close = Self::closing_bracket(open);
                    close.is_some() && after == close
                },
                None => false,
            };
            if is_pair {
                self.remove_chars(self.cursor_col - 1, self.cursor_col + 1);
            } else {
                self.remove_chars(self.cursor_col - 1, self.cursor_col);
            }
        }
        self.finish_edit();
    }

    /// Delete key: removes the character under the cursor, or merges with
    /// the next line if at end of line.
    pub fn delete_forward(&mut self)
        requires
            old(self).wf(),
        ensures
            final(self)@ == old(self)@.delete_forward(),
            final(self).wf(),
    {
        let len = self.current_line_char_len();
        if self.cursor_col >= len {
            if self.cursor_row >= self.lines.len() - 1 {
                self.confirm_quit = false;
                return;
            }
            self.begin_edit(EditGroup::Delete);
            self.join_lines(self.cursor_row);
        } else {
            self.begin_edit(EditGroup::Delete);
            self.remove_chars(self.cursor_col, self.cursor_col + 1);
        }
        self.finish_edit();
    }

    // ---- cursor movement ----

    /// One character to the left, across line breaks.
    pub fn move_left(&mut self)
        requires
            old(self).wf(),
        ensures
            final(self)@ == old(self)@.move_left(),
            final(self).wf(),
    {
        self.confirm_quit = false;
        self.reset_edit_group();
        if self.cursor_col > 0 {
            self.cursor_col -= 1;
        } else if self.cursor_row > 0 {
            self.cursor_row -= 1;
            self.cursor_col = self.lines[self.cursor_row].as_str().unicode_len();
        }
        self.desired_col = self.cursor_col;
    }

    /// One character to the right, across line breaks.
    pub fn move_right(&mut self)
        requires
            old(self).wf(),
        ensures
            final(self)@ == old(self)@.move_right(),
            final(self).wf(),
    {
        self.confirm_quit = false;
        self.reset_edit_group();
        let len = self.current_line_char_len();
        if self.cursor_col < len {
            self.cursor_col += 1;
        } else if self.cursor_row < self.lines.len() - 1 {
            self.cursor_row += 1;
            self.cursor_col = 0;
        }
        self.desired_col = self.cursor_col;
    }

    /// Puts the cursor on line `row`, as close to the kept column as the line
    /// allows.
    fn go_to_row(&mut self, row: usize)
        requires
            old(self).wf(),
            row < old(self)@.buf.lines.len(),
        ensures
            final(self)@ == (EditorView {
                buf: old(self)@.buf.at_row(row as int, old(self)@.desired_col),
                ..old(self)@
            }),
            final(self).wf(),
    {
        self.cursor_row = row;
        let len = self.lines[row].as_str().unicode_len();
        self.cursor_col = if self.desired_col <= len {
            self.desired_col
        } else {
            len
        };
    }

    /// One line up, as close to the kept column as the line allows.
    pub fn move_up(&mut self)
        requires
            old(self).wf(),
        ensures
            final(self)@ == old(self)@.move_up(),
            final(self).wf(),
    {
        self.confirm_quit = false;
        self.reset_edit_group();
        if self.cursor_row > 0 {
            self.go_to_row(self.cursor_row - 1);
        }
    }

    /// One line down, as close to the kept column as the line allows.
    pub fn move_down(&mut self)
        requires
            old(self).wf(),
        ensures
            final(self)@ == old(self)@.move_down(),
            final(self).wf(),
    {
        self.confirm_quit = false;
        self.reset_edit_group();
        if self.cursor_row < self.lines.len() - 1 {
            self.go_to_row(self.cursor_row + 1);
        }
    }

    /// To the start of the line.
    pub fn move_home(&mut self)
        requires
            old(self).wf(),
        ensures
            final(self)@ == old(self)@.move_home(),
            final(self).wf(),
    {
        self.confirm_quit = false;
        self.reset_edit_group();
        self.cursor_col = 0;
        self.desired_col = 0;
    }

    /// To the end of the line.
    pub fn move_end(&mut self)
        requires
            old(self).wf(),
        ensures
            final(self)@ == old(self)@.move_end(),
            final(self).wf(),
    {
        self.confirm_quit = false;
        self.reset_edit_group();
        self.cursor_col = self.current_line_char_len();
        self.desired_col = self.cursor_col;
    }

    /// Up by `page` lines, or to the first line.
    pub fn page_up(&mut self, page: usize)
        requires
            old(self).wf(),
        ensures
            final(self)@ == old(self)@.page_up(page as int),
            final(self).wf(),
    {
        self.confirm_quit = false;
        self.reset_edit_group();
        self.go_to_row(self.cursor_row.saturating_sub(page));
    }

    /// Down by `page` lines, or to the last line.
    pub fn page_down(&mut self, page: usize)
        requires
            old(self).wf(),
        ensures
            final(self)@ == old(self)@.page_down(page as int),
            final(self).wf(),
    {
        self.confirm_quit = false;
        self.reset_edit_group();
        let last = self.lines.len() - 1;
        let row = if page <= last - self.cursor_row {
            self.cursor_row + page
        } else {
            last
        };
        self.go_to_row(row);
    }

    /// Scrolls as little as needed for the cursor to lie in a window of `width`
    /// by `height` cells.
    pub fn ensure_visible(&mut self, width: usize, height: usize)
        ensures
            final(self)@ == old(self)@.ensure_visible(width as int, height as int),
    {
        self.scroll = Self::scrolled(self.scroll, self.cursor_row, height);
        self.col_scroll = Self::scrolled(self.col_scroll, self.cursor_col, width);
    }

    fn scrolled(first: usize, cursor: usize, size: usize) -> (result: usize)
        ensures
            result == model::follow(first as int, cursor as int, size as int),
    {
        if size == 0 {
            first
        } else if cursor < first {
            cursor
        } else if cursor - first >= size {
            cursor - (size - 1)
        } else {
            first
        }
    }

    /// How many characters the text has, line breaks aside.
    pub fn char_count(&self) -> (result: u128)
        ensures
            result == model::total_chars(self@.buf.lines),
    {
        let ghost lines = self@.buf.lines;
        let mut count: u128 = 0;
        let mut i: usize = 0;
        assert(lines.take(0) == Seq::<Seq<char>>::empty());
        while i < self.lines.len()
            invariant
                i <= self.lines@.len(),
                lines == text::views(self.lines@),
                count == model::total_chars(lines.take(i as int)),
                count <= i * usize::MAX,
            decreases self.lines@.len() - i,
        {
            let len = self.lines[i].as_str().unicode_len();
            assert(lines.take(i + 1).drop_last() == lines.take(i as int));
            assert(i * usize::MAX + usize::MAX <= u128::MAX) by (nonlinear_arith)
                requires
                    i < usize::MAX,
            ;
            assert((i + 1) * usize::MAX == i * usize::MAX + usize::MAX) by (nonlinear_arith);
            count += len as u128;
            i += 1;
        }
        assert(lines.take(i as int) == lines);
        count
    }

    // ---- diagnostics ----

    /// Shows `diagnostics` in place of those of the last check.
    pub fn set_diagnostics(&mut self, diagnostics: Vec<Diagnostic>)
        ensures
            final(self)@ == (EditorView {
                diagnostics: check::diagnostic_views(diagnostics@),
                ..old(self)@
            }),
    {
        self.diagnostics = diagnostics;
    }

    /// The diagnostics of line `row`, in the order in which they were reported.
    pub fn diagnostics_for_line(&self, row: usize) -> (result: Vec<Diagnostic>)
        ensures
            check::diagnostic_views(result@) == check::on_line(self@.diagnostics, row as int),
    {
        let mut result: Vec<Diagnostic> = Vec::new();
        let ghost all = self@.diagnostics;
        let mut i: usize = 0;
        proof {
            assert(all.take(0) == Seq::<check::DiagnosticView>::empty());
            assert(check::diagnostic_views(result@) == Seq::<check::DiagnosticView>::empty());
        }
        while i < self.diagnostics.len()
            invariant
                i <= self.diagnostics@.len(),
                all == check::diagnostic_views(self.diagnostics@),
                check::diagnostic_views(result@) == check::on_line(all.take(i as int), row as int),
            decreases self.diagnostics@.len() - i,
        {
            assert(all.take(i + 1).drop_last() == all.take(i as int));
            if self.diagnostics[i].line == row {
                let ghost before = check::diagnostic_views(result@);
                result.push(self.diagnostics[i].clone());
                assert(check::diagnostic_views(result@) == before.push(all[i as int]));
            }
            i += 1;
        }
        assert(all.take(i as int) == all);
        result
    }

    // ---- persistence ----

    /// Takes note of an attempt to write the file, which failed for the given
    /// reason or did not fail.
    pub fn save(&mut self, outcome: Result<(), String>)
        ensures
            final(self)@ == old(self)@.saved(
                match outcome {
                    Ok(_) => Ok(()),
                    Err(reason) => Err(reason@),
                },
            ),
    {
        match outcome {
            Ok(()) => {
                self.modified = false;
                self.confirm_quit = false;
                self.status_message = text::concat("Saved ", self.file_path.as_str());
                self.status_is_error = false;
            },
            Err(reason) => {
                self.status_message = text::concat("Save failed: ", reason.as_str());
                self.status_is_error = true;
            },
        }
    }
}

} // verus!
