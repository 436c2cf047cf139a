//! One editing session: what each event changes, and what it asks of the
//! program around it.

use crate::check;
use crate::check::{CheckMessage, Checker, CheckerView, Diagnostic, DiagnosticView, MessageView};
use crate::check::{Received, Severity};
use crate::editor::Editor;
use crate::input;
use crate::input::{Action, AfterSave, KeyEvent, Response};
use crate::model::EditorView;
use crate::text;
use vstd::prelude::*;
use vstd::string::*;

verus! {

// ---- the outcome of a check ----

/// How many of the diagnostics are errors.
pub open spec fn error_count(diagnostics: Seq<DiagnosticView>) -> nat
    decreases diagnostics.len(),
{
    if diagnostics.len() == 0 {
        0
    } else {
        error_count(diagnostics.drop_last()) + (if diagnostics.last().severity == Severity::Error {
            1nat
        } else {
            0
        })
    }
}

/// Where the diagnostic stands that represents all of them: the first error,
/// or the first one if there is no error.
pub open spec fn is_headline(diagnostics: Seq<DiagnosticView>, at: int) -> bool {
    &&& 0 <= at < diagnostics.len()
    &&& diagnostics[at].severity == Severity::Error || at == 0
    &&& forall|i: int|
        0 <= i < diagnostics.len() && (#[trigger] diagnostics[i]).severity == Severity::Error
            ==> at <= i && diagnostics[at].severity == Severity::Error
}

/// The diagnostic that represents all of them.
pub open spec fn headline(diagnostics: Seq<DiagnosticView>) -> DiagnosticView {
    diagnostics[choose|at: int| is_headline(diagnostics, at)]
}

/// No two places can both hold the headline.
pub proof fn lemma_headline_unique(diagnostics: Seq<DiagnosticView>, a: int, b: int)
    requires
        is_headline(diagnostics, a),
        is_headline(diagnostics, b),
    ensures
        a == b,
{
}

/// What the status line says about the diagnostics of a check.
pub open spec fn summary(diagnostics: Seq<DiagnosticView>) -> Seq<char> {
    if diagnostics.len() == 0 {
        "No errors"@
    } else {
        let errors = error_count(diagnostics);
        let first = headline(diagnostics);
        text::decimal(errors) + " error(s), "@ + text::decimal((diagnostics.len() - errors) as nat)
            + " warning(s) — Ln "@ + text::decimal((first.line + 1) as nat) + ": "@ + first.code
            + " "@ + first.message
    }
}

/// The editor after the outcome of a check.
pub open spec fn told_of_check(editor: EditorView, message: MessageView) -> EditorView {
    match message {
        MessageView::Finished(diagnostics) => EditorView {
            diagnostics,
            ..editor.told(summary(diagnostics), error_count(diagnostics) > 0)
        },
        MessageView::ToolMissing => editor.told(
            "dotnet not found — install .NET SDK for Ctrl+S diagnostics"@,
            true,
        ),
        MessageView::Failed(reason) => editor.told("Check failed: "@ + reason, true),
    }
}

fn count_errors(diagnostics: &Vec<Diagnostic>) -> (result: usize)
    ensures
        result == error_count(check::diagnostic_views(diagnostics@)),
        result <= diagnostics@.len(),
{
    let ghost all = check::diagnostic_views(diagnostics@);
    let mut errors: usize = 0;
    let mut i: usize = 0;
    assert(all.take(0) == Seq::<DiagnosticView>::empty());
    while i < diagnostics.len()
        invariant
            i <= diagnostics@.len(),
            all == check::diagnostic_views(diagnostics@),
            errors == error_count(all.take(i as int)),
            errors <= i,
        decreases diagnostics@.len() - i,
    {
        assert(all.take(i + 1).drop_last() == all.take(i as int));
        if diagnostics[i].severity == Severity::Error {
            errors += 1;
        }
        i += 1;
    }
    assert(all.take(i as int) == all);
    errors
}

fn find_headline(diagnostics: &Vec<Diagnostic>) -> (at: usize)
    requires
        diagnostics@.len() > 0,
    ensures
        is_headline(check::diagnostic_views(diagnostics@), at as int),
{
    let ghost all = check::diagnostic_views(diagnostics@);
    let mut i: usize = 0;
    while i < diagnostics.len()
        invariant
            i <= diagnostics@.len(),
            all == check::diagnostic_views(diagnostics@),
            forall|j: int| 0 <= j < i ==> (#[trigger] all[j]).severity != Severity::Error,
        decreases diagnostics@.len() - i,
    {
        if diagnostics[i].severity == Severity::Error {
            assert(all[i as int].severity == Severity::Error);
            return i;
        }
        assert(all[i as int].severity != Severity::Error);
        i += 1;
    }
    0
}

/// Sums up the diagnostics of a check in one line: how many errors and
/// warnings there are, and the one to look at first.
pub fn summarize(diagnostics: &Vec<Diagnostic>) -> (result: String)
    ensures
        result@ == summary(check::diagnostic_views(diagnostics@)),
{
    if diagnostics.len() == 0 {
        return "No errors".to_owned();
    }
    let errors = count_errors(diagnostics);
    let warnings = diagnostics.len() - errors;
    // Errors take priority over warnings for the headline
    // diagnostic shown alongside the count.
    let at = find_headline(diagnostics);
    let first = &diagnostics[at];
    proof {
        let all = check::diagnostic_views(diagnostics@);
        let chosen = choose|at: int| is_headline(all, at);
        assert(is_headline(all, at as int));
        lemma_headline_unique(all, at as int, chosen);
    }
    let mut result = text::decimal_of(errors as u128);
    result.append(" error(s), ");
    result.append(text::decimal_of(warnings as u128).as_str());
    result.append(" warning(s) — Ln ");
    result.append(text::decimal_of(first.line as u128 + 1).as_str());
    result.append(": ");
    result.append(first.code.as_str());
    result.append(" ");
    result.append(first.message.as_str());
    result
}

/// Shows the outcome of a check.
pub fn apply_check_message(editor: &mut Editor, message: CheckMessage)
    ensures
        final(editor)@ == told_of_check(old(editor)@, message@),
        old(editor).wf() ==> final(editor).wf(),
{
    match message {
        CheckMessage::Finished(diagnostics) => {
            let errors = count_errors(&diagnostics);
            editor.status_message = summarize(&diagnostics);
            editor.status_is_error = errors > 0;
            editor.set_diagnostics(diagnostics);
        },
        CheckMessage::ToolMissing => {
            editor.status_message =
            "dotnet not found — install .NET SDK for Ctrl+S diagnostics".to_owned();
            editor.status_is_error = true;
        },
        CheckMessage::Failed(reason) => {
            editor.status_message = text::concat("Check failed: ", reason.as_str());
            editor.status_is_error = true;
        },
    }
}

// ---- events ----

/// Something that happened in the terminal, or nothing for a while.
#[derive(Debug)]
pub enum Event {
    /// A key went down or repeats (`pressed`), or was released.
    Key { pressed: bool, key: KeyEvent },
    /// The terminal has another size.
    Resize,
    /// Something that does not matter here.
    Other,
    /// Nothing; this is what a look into the channel of the check found.
    Idle(Received),
}

/// What an event asks for.
#[derive(Clone, Copy, PartialEq, Eq, Structural, Debug)]
pub enum Reaction {
    /// Nothing: the screen is still right.
    Ignore,
    /// Draw the screen again.
    Redraw,
    /// Leave the program.
    Quit,
    /// Write the file, and report the outcome.
    Save(AfterSave),
    /// Start a check, and draw the screen again.
    StartCheck,
}

/// Goes on with `action`: a check is started unless one is already in flight.
pub open spec fn settled(editor: EditorView, checker: CheckerView, action: Action) -> (
    EditorView,
    CheckerView,
    Reaction,
) {
    match action {
        Action::Continue => (editor, checker, Reaction::Redraw),
        Action::Quit => (editor, checker, Reaction::Quit),
        Action::TriggerCheck => if checker.running {
            (editor, checker, Reaction::Redraw)
        } else {
            (editor.told("Checking…"@, false), checker.started(), Reaction::StartCheck)
        },
    }
}

/// What `event` changes and asks for.
pub open spec fn reacted(editor: EditorView, checker: CheckerView, event: Event) -> (
    EditorView,
    CheckerView,
    Reaction,
) {
    match event {
        Event::Key { pressed: false, .. } => (editor, checker, Reaction::Ignore),
        Event::Key { pressed: true, key } => if key.changes_nothing(editor) {
            (editor, checker, Reaction::Ignore)
        } else {
            match key.handled(editor) {
                (after, Response::Done(action)) => settled(after, checker, action),
                (after, Response::Save(next)) => (after, checker, Reaction::Save(next)),
            }
        },
        Event::Resize => (editor, checker, Reaction::Redraw),
        Event::Other => (editor, checker, Reaction::Ignore),
        Event::Idle(received) => match received {
            Received::Message(message) if checker.listening => (
                told_of_check(editor, message@),
                checker.polled(received),
                Reaction::Redraw,
            ),
            _ => (editor, checker.polled(received), Reaction::Ignore),
        },
    }
}

/// What the outcome of a save changes and asks for that a key press asked for.
pub open spec fn reacted_to_save(
    editor: EditorView,
    checker: CheckerView,
    after: AfterSave,
    outcome: Result<(), Seq<char>>,
) -> (EditorView, CheckerView, Reaction) {
    let saved = editor.saved(outcome);
    let next = settled(saved, checker, after.action(saved, outcome is Ok));
    if next.2 == Reaction::Redraw && next.0 == editor {
        (editor, next.1, Reaction::Ignore)
    } else {
        next
    }
}

fn settle(editor: &mut Editor, checker: &mut Checker, action: Action) -> (reaction: Reaction)
    requires
        old(editor).wf(),
    ensures
        (final(editor)@, final(checker)@, reaction) == settled(
            old(editor)@,
            old(checker)@,
            action,
        ),
        final(editor).wf(),
{
    match action {
        Action::Continue => Reaction::Redraw,
        Action::Quit => Reaction::Quit,
        Action::TriggerCheck => {
            if checker.start() {
                editor.status_message = "Checking…".to_owned();
                editor.status_is_error = false;
                Reaction::StartCheck
            } else {
                Reaction::Redraw
            }
        },
    }
}

/// Lets an event take effect. The screen is only drawn again when something
/// actually changed.
pub fn react(editor: &mut Editor, checker: &mut Checker, event: Event) -> (reaction: Reaction)
    requires
        old(editor).wf(),
    ensures
        (final(editor)@, final(checker)@, reaction) == reacted(
            old(editor)@,
            old(checker)@,
            event,
        ),
        final(editor).wf(),
{
    match event {
        Event::Key { pressed, key } => {
            if !pressed || key.leaves_all_as_is(editor) {
                return Reaction::Ignore;
            }
            match input::handle_key(editor, key) {
                Response::Done(action) => settle(editor, checker, action),
                Response::Save(next) => Reaction::Save(next),
            }
        },
        Event::Resize => Reaction::Redraw,
        Event::Other => Reaction::Ignore,
        Event::Idle(received) => {
            match checker.poll(received) {
                Some(message) => {
                    apply_check_message(editor, message);
                    Reaction::Redraw
                },
                None => Reaction::Ignore,
            }
        },
    }
}

/// Lets the outcome of a save take effect that a key press asked for. As with
/// other events, the screen is only drawn again when something changed.
pub fn react_to_save(
    editor: &mut Editor,
    checker: &mut Checker,
    after: AfterSave,
    outcome: Result<(), String>,
) -> (reaction: Reaction)
    requires
        old(editor).wf(),
    ensures
        (final(editor)@, final(checker)@, reaction) == reacted_to_save(
            old(editor)@,
            old(checker)@,
            after,
            input::outcome_view(outcome),
        ),
        final(editor).wf(),
{
    let modified = editor.modified;
    let confirm_quit = editor.confirm_quit;
    let status_is_error = editor.status_is_error;
    let status_message = editor.status_message.clone();
    let action = input::finish_save(editor, after, outcome);
    let reaction = settle(editor, checker, action);
    if reaction == Reaction::Redraw && editor.modified == modified && editor.confirm_quit
        == confirm_quit && editor.status_is_error == status_is_error && editor.status_message
        == status_message {
        Reaction::Ignore
    } else {
        reaction
    }
}

} // verus!
