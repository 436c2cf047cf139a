//! The mathematical model of the editor: what the text, the cursor and the
//! undo history are, and what each key press makes of them.

use crate::check::DiagnosticView;
use crate::text;
use vstd::prelude::*;

verus! {

/// What kind of edit was last performed. A key press of the same kind joins
/// the current undo step; one of another kind starts a fresh step.
#[derive(Clone, Copy, PartialEq, Eq, Structural, Debug)]
pub enum EditGroup {
    Idle,
    Insert,
    Delete,
    Newline,
}

/// One level of indentation.
pub open spec fn indent_unit() -> Seq<char> {
    seq![' ', ' ', ' ', ' ']
}

/// The spaces and tabs that a line starts with.
pub open spec fn indentation(line: Seq<char>) -> Seq<char>
    decreases line.len(),
{
    if line.len() > 0 && (line.first() == ' ' || line.first() == '\t') {
        seq![line.first()] + indentation(line.skip(1))
    } else {
        seq![]
    }
}

/// The bracket that closes `c`, if `c` opens a pair.
pub open spec fn closer(c: char) -> Option<char> {
    if c == '{' {
        Some('}')
    } else if c == '(' {
        Some(')')
    } else if c == '[' {
        Some(']')
    } else {
        None
    }
}

/// Whether `c` closes a pair.
pub open spec fn is_closer(c: char) -> bool {
    c == '}' || c == ')' || c == ']'
}

/// Whether the last character of `left`, trailing white space aside, opens a
/// bracket pair.
pub open spec fn opens_block(left: Seq<char>) -> bool {
    let visible = text::trim_end(left);
    visible.len() > 0 && closer(visible.last()) is Some
}

/// A text and a cursor in it, in (line, character) coordinates.
#[verifier::ext_equal]
pub struct Buffer {
    pub lines: Seq<Seq<char>>,
    pub row: int,
    pub col: int,
}

impl Buffer {
    /// The cursor lies in the text: on one of its lines, at one of that line's
    /// characters or just behind the last.
    pub open spec fn wf(self) -> bool {
        &&& 0 <= self.row < self.lines.len()
        &&& 0 <= self.col <= self.lines[self.row].len()
    }

    /// The cursor's line.
    pub open spec fn line(self) -> Seq<char> {
        self.lines[self.row]
    }

    /// The cursor moved back into the text where it lies behind it.
    pub open spec fn clamped(self) -> Buffer {
        let row = if self.row < self.lines.len() {
            self.row
        } else {
            self.lines.len() - 1
        };
        self.at_row(row, self.col)
    }

    /// The character to the left of the cursor.
    pub open spec fn before(self) -> Option<char> {
        if self.col > 0 {
            Some(self.line()[self.col - 1])
        } else {
            None
        }
    }

    /// The character to the right of the cursor.
    pub open spec fn after(self) -> Option<char> {
        if self.col < self.line().len() {
            Some(self.line()[self.col])
        } else {
            None
        }
    }

    /// The same text with the cursor's line replaced by `lines`.
    pub open spec fn with_lines(self, lines: Seq<Seq<char>>) -> Seq<Seq<char>> {
        self.lines.take(self.row) + lines + self.lines.skip(self.row + 1)
    }

    /// `text` placed at the cursor, which ends up behind it.
    pub open spec fn typed(self, text: Seq<char>) -> Buffer {
        Buffer {
            lines: self.lines.update(
                self.row,
                self.line().take(self.col) + text + self.line().skip(self.col),
            ),
            row: self.row,
            col: self.col + text.len(),
        }
    }

    /// Typing one text and then another is typing both at once.
    pub proof fn lemma_typed_twice(self, first: Seq<char>, second: Seq<char>)
        requires
            self.wf(),
        ensures
            self.typed(first).typed(second) == self.typed(first + second),
            self.typed(first).wf(),
    {
        let once = self.typed(first);
        let at = self.col + first.len();
        assert(once.line().take(at) == self.line().take(self.col) + first);
        assert(once.line().skip(at) == self.line().skip(self.col));
        assert(once.typed(second).line() == self.typed(first + second).line());
        assert(once.typed(second).lines == self.typed(first + second).lines);
    }

    /// The characters `from..to` of the cursor's line removed, with the cursor
    /// put at `from`.
    pub open spec fn removed(self, from: int, to: int) -> Buffer {
        Buffer {
            lines: self.lines.update(self.row, self.line().take(from) + self.line().skip(to)),
            row: self.row,
            col: from,
        }
    }

    /// Line `row + 1` appended to line `row`, with the cursor put between the
    /// two parts.
    pub open spec fn joined(self, row: int) -> Buffer {
        Buffer {
            lines: self.lines.take(row) + seq![self.lines[row] + self.lines[row + 1]]
                + self.lines.skip(row + 2),
            row: row,
            col: self.lines[row].len() as int,
        }
    }

    /// A typed character. An opening bracket brings its closing one along, with
    /// the cursor between the two; a closing bracket that is already there is
    /// stepped over instead of typed again.
    pub open spec fn char_typed(self, c: char) -> Buffer {
        if closer(c) is Some {
            Buffer { col: self.col + 1, ..self.typed(seq![c, closer(c)->0]) }
        } else if is_closer(c) && self.after() == Some(c) {
            Buffer { col: self.col + 1, ..self }
        } else {
            self.typed(seq![c])
        }
    }

    /// The Enter key. Between `{` and `}` it opens three lines, the cursor on a
    /// deeper indented one in the middle; elsewhere it breaks the line, and the
    /// new line takes over the indentation, one level deeper behind an opening
    /// bracket.
    pub open spec fn broken(self) -> Buffer {
        let indent = indentation(self.line());
        let left = self.line().take(self.col);
        let right = self.line().skip(self.col);
        if self.before() == Some('{') && self.after() == Some('}') {
            let inner = indent + indent_unit();
            Buffer {
                lines: self.with_lines(seq![left, inner, indent + right]),
                row: self.row + 1,
                col: inner.len() as int,
            }
        } else {
            let new_indent = if opens_block(left) {
                indent + indent_unit()
            } else {
                indent
            };
            Buffer {
                lines: self.with_lines(seq![left, new_indent + right]),
                row: self.row + 1,
                col: new_indent.len() as int,
            }
        }
    }

    /// Whether Backspace has something to remove.
    pub open spec fn can_backspace(self) -> bool {
        self.row > 0 || self.col > 0
    }

    /// Whether the cursor stands between the two brackets of an empty pair.
    pub open spec fn in_empty_pair(self) -> bool {
        self.before() matches Some(b) && closer(b) is Some && self.after() == closer(b)
    }

    /// The Backspace key: removes an empty bracket pair as a unit, else the
    /// character to the left, else the line break to the left.
    pub open spec fn backspaced(self) -> Buffer {
        if !self.can_backspace() {
            self
        } else if self.col == 0 {
            self.joined(self.row - 1)
        } else if self.in_empty_pair() {
            self.removed(self.col - 1, self.col + 1)
        } else {
            self.removed(self.col - 1, self.col)
        }
    }

    /// Whether Delete has something to remove.
    pub open spec fn can_delete(self) -> bool {
        self.col < self.line().len() || self.row + 1 < self.lines.len()
    }

    /// The Delete key: removes the character to the right, else the line break
    /// to the right.
    pub open spec fn deleted(self) -> Buffer {
        if !self.can_delete() {
            self
        } else if self.col < self.line().len() {
            self.removed(self.col, self.col + 1)
        } else {
            self.joined(self.row)
        }
    }

    /// The cursor one character to the left, across line breaks.
    pub open spec fn left(self) -> Buffer {
        if self.col > 0 {
            Buffer { col: self.col - 1, ..self }
        } else if self.row > 0 {
            Buffer { row: self.row - 1, col: self.lines[self.row - 1].len() as int, ..self }
        } else {
            self
        }
    }

    /// The cursor one character to the right, across line breaks.
    pub open spec fn right(self) -> Buffer {
        if self.col < self.line().len() {
            Buffer { col: self.col + 1, ..self }
        } else if self.row + 1 < self.lines.len() {
            Buffer { row: self.row + 1, col: 0, ..self }
        } else {
            self
        }
    }

    /// The cursor on line `row`, as close to column `desired` as the line
    /// allows.
    pub open spec fn at_row(self, row: int, desired: int) -> Buffer {
        Buffer {
            row,
            col: if desired <= self.lines[row].len() {
                desired
            } else {
                self.lines[row].len() as int
            },
            ..self
        }
    }
}

/// The first visible position of a window of `size` positions that showed
/// `first` at its start, moved as little as needed to show `cursor`.
pub open spec fn follow(first: int, cursor: int, size: int) -> int {
    if size == 0 {
        first
    } else if cursor < first {
        cursor
    } else if cursor >= first + size {
        cursor + 1 - size
    } else {
        first
    }
}

/// How many characters the lines hold together, line breaks aside.
pub open spec fn total_chars(lines: Seq<Seq<char>>) -> nat
    decreases lines.len(),
{
    if lines.len() == 0 {
        0
    } else {
        total_chars(lines.drop_last()) + lines.last().len()
    }
}

/// Everything an editor holds.
#[verifier::ext_equal]
pub struct EditorView {
    pub buf: Buffer,
    pub desired_col: int,
    pub undo: Seq<Buffer>,
    pub redo: Seq<Buffer>,
    pub group: EditGroup,
    pub modified: bool,
    pub confirm_quit: bool,
    pub scroll: int,
    pub col_scroll: int,
    pub file_path: Seq<char>,
    pub status: Seq<char>,
    pub status_is_error: bool,
    pub diagnostics: Seq<DiagnosticView>,
}

impl EditorView {
    /// The cursor lies in the text, now and in every remembered state.
    pub open spec fn wf(self) -> bool {
        &&& self.buf.wf()
        &&& forall|i: int| 0 <= i < self.undo.len() ==> (#[trigger] self.undo[i]).wf()
        &&& forall|i: int| 0 <= i < self.redo.len() ==> (#[trigger] self.redo[i]).wf()
    }

    /// A freshly opened editor on `lines`.
    pub open spec fn opened(path: Seq<char>, lines: Seq<Seq<char>>) -> EditorView {
        EditorView {
            buf: Buffer { lines, row: 0, col: 0 },
            desired_col: 0,
            undo: seq![],
            redo: seq![],
            group: EditGroup::Idle,
            modified: false,
            confirm_quit: false,
            scroll: 0,
            col_scroll: 0,
            file_path: path,
            status: "Ctrl+S save  Ctrl+Q quit  Ctrl+Z undo  Ctrl+Y redo"@,
            status_is_error: false,
            diagnostics: seq![],
        }
    }

    /// An edit of kind `group` is about to happen: unless it joins the current
    /// undo step, the present state is remembered and what was undone is
    /// forgotten.
    pub open spec fn begun(self, group: EditGroup) -> EditorView {
        if self.group == group {
            self
        } else {
            EditorView { undo: self.undo.push(self.buf), redo: seq![], group, ..self }
        }
    }

    /// An edit of kind `group` that turns the text and cursor into `buf`.
    pub open spec fn edited(self, group: EditGroup, buf: Buffer) -> EditorView {
        EditorView {
            buf,
            desired_col: buf.col,
            modified: true,
            confirm_quit: false,
            ..self.begun(group)
        }
    }

    /// A cursor move to `buf`, which becomes the column to keep to.
    pub open spec fn moved(self, buf: Buffer) -> EditorView {
        EditorView { desired_col: buf.col, ..self.moved_vertically(buf) }
    }

    /// A cursor move to `buf` that keeps the column to return to.
    pub open spec fn moved_vertically(self, buf: Buffer) -> EditorView {
        EditorView { buf, group: EditGroup::Idle, confirm_quit: false, ..self }
    }

    /// The status line shows `status`.
    pub open spec fn told(self, status: Seq<char>, is_error: bool) -> EditorView {
        EditorView { status, status_is_error: is_error, ..self }
    }

    pub open spec fn insert_char(self, c: char) -> EditorView {
        self.edited(EditGroup::Insert, self.buf.char_typed(c))
    }

    pub open spec fn insert_tab(self) -> EditorView {
        self.edited(EditGroup::Insert, self.buf.typed(indent_unit()))
    }

    pub open spec fn newline(self) -> EditorView {
        self.edited(EditGroup::Newline, self.buf.broken())
    }

    pub open spec fn backspace(self) -> EditorView {
        if self.buf.can_backspace() {
            self.edited(EditGroup::Delete, self.buf.backspaced())
        } else {
            EditorView { confirm_quit: false, ..self }
        }
    }

    pub open spec fn delete_forward(self) -> EditorView {
        if self.buf.can_delete() {
            self.edited(EditGroup::Delete, self.buf.deleted())
        } else {
            EditorView { confirm_quit: false, ..self }
        }
    }

    /// Goes back to the last remembered state, if there is one.
    pub open spec fn undo_step(self) -> EditorView {
        if self.undo.len() > 0 {
            EditorView {
                buf: self.undo.last(),
                undo: self.undo.drop_last(),
                redo: self.redo.push(self.buf),
                group: EditGroup::Idle,
                modified: true,
                ..self.told("Undo"@, false)
            }
        } else {
            self.told("Nothing to undo"@, false)
        }
    }

    /// Goes forward to the last undone state, if there is one.
    pub open spec fn redo_step(self) -> EditorView {
        if self.redo.len() > 0 {
            EditorView {
                buf: self.redo.last(),
                undo: self.undo.push(self.buf),
                redo: self.redo.drop_last(),
                group: EditGroup::Idle,
                modified: true,
                ..self.told("Redo"@, false)
            }
        } else {
            self.told("Nothing to redo"@, false)
        }
    }

    pub open spec fn move_left(self) -> EditorView {
        self.moved(self.buf.left())
    }

    pub open spec fn move_right(self) -> EditorView {
        self.moved(self.buf.right())
    }

    pub open spec fn move_home(self) -> EditorView {
        self.moved(Buffer { col: 0, ..self.buf })
    }

    pub open spec fn move_end(self) -> EditorView {
        self.moved(Buffer { col: self.buf.line().len() as int, ..self.buf })
    }

    pub open spec fn move_up(self) -> EditorView {
        if self.buf.row > 0 {
            self.moved_vertically(self.buf.at_row(self.buf.row - 1, self.desired_col))
        } else {
            self.moved_vertically(self.buf)
        }
    }

    pub open spec fn move_down(self) -> EditorView {
        if self.buf.row + 1 < self.buf.lines.len() {
            self.moved_vertically(self.buf.at_row(self.buf.row + 1, self.desired_col))
        } else {
            self.moved_vertically(self.buf)
        }
    }

    /// Up by `page` lines, but not above the first.
    pub open spec fn page_up(self, page: int) -> EditorView {
        let row = if page <= self.buf.row {
            self.buf.row - page
        } else {
            0
        };
        self.moved_vertically(self.buf.at_row(row, self.desired_col))
    }

    /// Down by `page` lines, but not below the last.
    pub open spec fn page_down(self, page: int) -> EditorView {
        let last = self.buf.lines.len() - 1;
        let row = if self.buf.row + page <= last {
            self.buf.row + page
        } else {
            last
        };
        self.moved_vertically(self.buf.at_row(row, self.desired_col))
    }

    /// A window of `width` by `height` cells moved so that it shows the cursor.
    pub open spec fn ensure_visible(self, width: int, height: int) -> EditorView {
        EditorView {
            scroll: follow(self.scroll, self.buf.row, height),
            col_scroll: follow(self.col_scroll, self.buf.col, width),
            ..self
        }
    }

    /// What is left of an attempt to write the file: nothing to save any more,
    /// or the reason why the file could not be written.
    pub open spec fn saved(self, outcome: Result<(), Seq<char>>) -> EditorView {
        match outcome {
            Ok(_) => EditorView {
                modified: false,
                confirm_quit: false,
                ..self.told("Saved "@ + self.file_path, false)
            },
            Err(reason) => self.told("Save failed: "@ + reason, true),
        }
    }
}

} // verus!
