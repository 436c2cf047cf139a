//! What each key does.

use crate::editor::Editor;
use crate::model::EditorView;
use vstd::prelude::*;
use vstd::string::*;

verus! {

/// A key of the keyboard.
#[derive(Clone, Copy, PartialEq, Eq, Debug)]
pub enum KeyCode {
    Char(char),
    Enter,
    Backspace,
    Delete,
    Tab,
    Esc,
    Left,
    Right,
    Up,
    Down,
    Home,
    End,
    PageUp,
    PageDown,
    /// Any other key.
    Other,
}

/// A key press, with the modifiers that were held.
#[derive(Clone, Copy, PartialEq, Eq, Debug)]
pub struct KeyEvent {
    pub code: KeyCode,
    pub control: bool,
    pub alt: bool,
}

/// What the program goes on with.
#[derive(Clone, Copy, PartialEq, Eq, Structural, Debug)]
pub enum Action {
    Continue,
    Quit,
    /// The file was saved: have the compiler look at it.
    TriggerCheck,
}

/// What a save is followed by, if it succeeds.
#[derive(Clone, Copy, PartialEq, Eq, Structural, Debug)]
pub enum AfterSave {
    Quit,
    Check,
}

/// What a key press asks for.
#[derive(Clone, Copy, PartialEq, Eq, Structural, Debug)]
pub enum Response {
    /// Nothing but to go on.
    Done(Action),
    /// Write the file, and report the outcome.
    Save(AfterSave),
}

/// How many lines the page keys move by.
pub const PAGE_SIZE: usize = 20;

/// The question that is asked before unsaved changes are dropped.
pub open spec fn quit_prompt() -> Seq<char> {
    "Unsaved changes! Ctrl+Q again to discard, Ctrl+S to save, Esc to cancel"@
}

impl KeyEvent {
    /// Whether the key is the letter `c` with Control held.
    pub open spec fn is_control(self, c: char) -> bool {
        self.control && self.code == KeyCode::Char(c)
    }

    /// What the key does while the quit question is showing: only a small set
    /// of keys are meaningful then.
    pub open spec fn answered(self, editor: EditorView) -> (EditorView, Response) {
        if self.is_control('q') {
            (editor, Response::Done(Action::Quit))
        } else if self.is_control('s') {
            (editor, Response::Save(AfterSave::Quit))
        } else if self.code == KeyCode::Esc {
            (
                EditorView { confirm_quit: false, ..editor.told("Cancelled"@, false) },
                Response::Done(Action::Continue),
            )
        } else {
            (editor, Response::Done(Action::Continue))
        }
    }

    /// What the key does to the text or the cursor.
    pub open spec fn edited(self, editor: EditorView) -> EditorView {
        match self.code {
            KeyCode::Enter => editor.newline(),
            KeyCode::Backspace => editor.backspace(),
            KeyCode::Delete => editor.delete_forward(),
            KeyCode::Tab => editor.insert_tab(),
            KeyCode::Left => editor.move_left(),
            KeyCode::Right => editor.move_right(),
            KeyCode::Up => editor.move_up(),
            KeyCode::Down => editor.move_down(),
            KeyCode::Home => editor.move_home(),
            KeyCode::End => editor.move_end(),
            KeyCode::PageUp => editor.page_up(PAGE_SIZE as int),
            KeyCode::PageDown => editor.page_down(PAGE_SIZE as int),
            KeyCode::Char(c) => if self.control {
                if c == 'z' {
                    editor.undo_step()
                } else if c == 'y' {
                    editor.redo_step()
                } else {
                    editor
                }
            } else if self.alt {
                editor
            } else {
                editor.insert_char(c)
            },
            KeyCode::Esc => editor,
            KeyCode::Other => editor,
        }
    }

    /// What the key does.
    pub open spec fn handled(self, editor: EditorView) -> (EditorView, Response) {
        if editor.confirm_quit {
            self.answered(editor)
        } else if self.is_control('s') {
            (editor, Response::Save(AfterSave::Check))
        } else if self.is_control('q') {
            if editor.modified {
                (
                    EditorView { confirm_quit: true, ..editor.told(quit_prompt(), true) },
                    Response::Done(Action::Continue),
                )
            } else {
                (editor, Response::Done(Action::Quit))
            }
        } else {
            (self.edited(editor), Response::Done(Action::Continue))
        }
    }

    /// Whether the key stands for nothing in this state of the editor.
    pub open spec fn means_nothing(self, editor: EditorView) -> bool {
        if editor.confirm_quit {
            !self.is_control('q') && !self.is_control('s') && self.code != KeyCode::Esc
        } else {
            match self.code {
                KeyCode::Esc => true,
                KeyCode::Other => true,
                KeyCode::Char(c) => if self.control {
                    c != 's' && c != 'q' && c != 'z' && c != 'y'
                } else {
                    self.alt
                },
                _ => false,
            }
        }
    }

    /// Whether the key leaves the editor as it is and asks for nothing: it means
    /// nothing, or there is nothing for it to do.
    pub open spec fn changes_nothing(self, editor: EditorView) -> bool {
        self.handled(editor) == (editor, Response::Done(Action::Continue))
    }

    /// Whether the key stands for nothing in this state of the editor.
    pub fn has_no_meaning(self, editor: &Editor) -> (result: bool)
        ensures
            result == self.means_nothing(editor@),
    {
        match self.code {
            KeyCode::Char(c) => {
                if editor.confirm_quit {
                    !(self.control && (c == 'q' || c == 's'))
                } else if self.control {
                    c != 's' && c != 'q' && c != 'z' && c != 'y'
                } else {
                    self.alt
                }
            },
            KeyCode::Esc => !editor.confirm_quit,
            KeyCode::Other => true,
            _ => editor.confirm_quit,
        }
    }

    /// Whether the key leaves the editor as it is and asks for nothing.
    pub fn leaves_all_as_is(self, editor: &Editor) -> (result: bool)
        requires
            editor.wf(),
        ensures
            result == self.changes_nothing(editor@),
    {
        if self.has_no_meaning(editor) {
            return true;
        }
        if editor.confirm_quit {
            return false;
        }
        let ghost v = editor@;
        let resting = editor.is_between_steps();
        let row = editor.cursor_row;
        let col = editor.cursor_col;
        let len = editor.lines[row].as_str().unicode_len();
        let last = editor.line_count() - 1;
        let kept = editor.desired_col == col;
        let reached = col == if editor.desired_col <= len {
            editor.desired_col
        } else {
            len
        };
        match self.code {
            KeyCode::Char(c) => {
                if self.control && c == 'z' {
                    !editor.can_undo() && !editor.status_is_error && editor.status_message
                        == "Nothing to undo".to_owned()
                } else if self.control && c == 'y' {
                    !editor.can_redo() && !editor.status_is_error && editor.status_message
                        == "Nothing to redo".to_owned()
                } else {
                    assert(!self.control ==> self.edited(v).buf.col == v.buf.col + 1);
                    false
                }
            },
            KeyCode::Backspace => row == 0 && col == 0,
            KeyCode::Delete => {
                proof {
                    let after = v.buf.deleted();
                    if v.buf.col < v.buf.line().len() {
                        assert(after.lines[v.buf.row].len() == v.buf.line().len() - 1);
                    } else if v.buf.can_delete() {
                        assert(after.lines.len() == v.buf.lines.len() - 1);
                    }
                }
                row == last && col == len
            },
            KeyCode::Left => resting && kept && row == 0 && col == 0,
            KeyCode::Right => resting && kept && row == last && col == len,
            KeyCode::Up => resting && row == 0,
            KeyCode::Down => resting && row == last,
            KeyCode::Home => resting && kept && col == 0,
            KeyCode::End => resting && kept && col == len,
            KeyCode::PageUp => resting && reached && row == 0,
            KeyCode::PageDown => resting && reached && row == last,
            _ => false,
        }
    }
}

/// Lets a key press take effect on the editor; says what is to be done next.
pub fn handle_key(editor: &mut Editor, key: KeyEvent) -> (response: Response)
    requires
        old(editor).wf(),
    ensures
        (final(editor)@, response) == key.handled(old(editor)@),
        final(editor).wf(),
{
    // While a "quit with unsaved changes?" prompt is showing, only a small
    // set of keys are meaningful.
    if editor.confirm_quit {
        return answer_prompt(editor, key);
    }
    match key.code {
        KeyCode::Char(c) => {
            if key.control {
                if c == 's' {
                    return Response::Save(AfterSave::Check);
                } else if c == 'q' {
                    if editor.modified {
                        editor.confirm_quit = true;
                        editor.status_message =
                        "Unsaved changes! Ctrl+Q again to discard, Ctrl+S to save, Esc to cancel".to_owned();
                        editor.status_is_error = true;
                    } else {
                        return Response::Done(Action::Quit);
                    }
                } else if c == 'z' {
                    editor.undo();
                } else if c == 'y' {
                    editor.redo();
                }
            } else if !key.alt {
                editor.insert_char(c);
            }
        },
        KeyCode::Enter => editor.newline(),
        KeyCode::Backspace => editor.backspace(),
        KeyCode::Delete => editor.delete_forward(),
        KeyCode::Tab => editor.insert_tab(),
        KeyCode::Left => editor.move_left(),
        KeyCode::Right => editor.move_right(),
        KeyCode::Up => editor.move_up(),
        KeyCode::Down => editor.move_down(),
        KeyCode::Home => editor.move_home(),
        KeyCode::End => editor.move_end(),
        KeyCode::PageUp => editor.page_up(PAGE_SIZE),
        KeyCode::PageDown => editor.page_down(PAGE_SIZE),
        KeyCode::Esc => {},
        KeyCode::Other => {},
    }
    Response::Done(Action::Continue)
}

fn answer_prompt(editor: &mut Editor, key: KeyEvent) -> (response: Response)
    requires
        old(editor).wf(),
    ensures
        (final(editor)@, response) == key.answered(old(editor)@),
        final(editor).wf(),
{
    match key.code {
        KeyCode::Char(c) => {
            if key.control && c == 'q' {
                return Response::Done(Action::Quit);
            }
            if key.control && c == 's' {
                return Response::Save(AfterSave::Quit);
            }
        },
        KeyCode::Esc => {
            editor.confirm_quit = false;
            editor.status_message = "Cancelled".to_owned();
            editor.status_is_error = false;
        },
        _ => {},
    }
    Response::Done(Action::Continue)
}

impl AfterSave {
    /// What follows a save that left the editor in the state `editor`, and that
    /// succeeded or did not. The program is only left with nothing unsaved.
    pub open spec fn action(self, editor: EditorView, succeeded: bool) -> Action {
        match self {
            AfterSave::Quit => if editor.modified {
                Action::Continue
            } else {
                Action::Quit
            },
            AfterSave::Check => if succeeded {
                Action::TriggerCheck
            } else {
                Action::Continue
            },
        }
    }
}

/// The text of the outcome of a save.
pub open spec fn outcome_view(outcome: Result<(), String>) -> Result<(), Seq<char>> {
    match outcome {
        Ok(_) => Ok(()),
        Err(reason) => Err(reason@),
    }
}

/// Takes note of the outcome of a save that a key press asked for; says what is
/// to be done next.
pub fn finish_save(editor: &mut Editor, after: AfterSave, outcome: Result<(), String>) -> (action:
    Action)
    requires
        old(editor).wf(),
    ensures
        final(editor)@ == old(editor)@.saved(outcome_view(outcome)),
        action == after.action(final(editor)@, outcome is Ok),
        final(editor).wf(),
{
    let succeeded = outcome.is_ok();
    editor.save(outcome);
    match after {
        AfterSave::Quit => {
            if editor.modified {
                Action::Continue
            } else {
                Action::Quit
            }
        },
        AfterSave::Check => {
            if succeeded {
                Action::TriggerCheck
            } else {
                Action::Continue
            }
        },
    }
}

} // verus!
