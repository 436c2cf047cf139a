//! What each key and each event comes to.

use crate::check::{CheckMessage, CheckerView, DiagnosticView, MessageView, Received, Severity};
use crate::input;
use crate::input::{Action, AfterSave, KeyCode, KeyEvent, Response};
use crate::model::EditorView;
use crate::session;
use crate::session::{Event, Reaction};
use crate::text;
use vstd::prelude::*;

verus! {

// ---- keys ----

/// Whether the key turns the editor into `after`, with nothing more to be done.
pub open spec fn just_does(key: KeyEvent, v: EditorView, after: EditorView) -> bool {
    key.handled(v) == (after, Response::Done(Action::Continue))
}

/// The editing and cursor keys do what they say, whatever modifiers are held. A
/// page has twenty lines.
pub proof fn law_named_keys(v: EditorView, key: KeyEvent)
    requires
        !v.confirm_quit,
    ensures
        key.code == KeyCode::Enter ==> just_does(key, v, v.newline()),
        key.code == KeyCode::Backspace ==> just_does(key, v, v.backspace()),
        key.code == KeyCode::Delete ==> just_does(key, v, v.delete_forward()),
        key.code == KeyCode::Tab ==> just_does(key, v, v.insert_tab()),
        key.code == KeyCode::Left ==> just_does(key, v, v.move_left()),
        key.code == KeyCode::Right ==> just_does(key, v, v.move_right()),
        key.code == KeyCode::Up ==> just_does(key, v, v.move_up()),
        key.code == KeyCode::Down ==> just_does(key, v, v.move_down()),
        key.code == KeyCode::Home ==> just_does(key, v, v.move_home()),
        key.code == KeyCode::End ==> just_does(key, v, v.move_end()),
        key.code == KeyCode::PageUp ==> just_does(key, v, v.page_up(20)),
        key.code == KeyCode::PageDown ==> just_does(key, v, v.page_down(20)),
        key.code == KeyCode::Esc ==> just_does(key, v, v),
        key.code == KeyCode::Other ==> just_does(key, v, v),
{
}

/// A character is typed unless Control or Alt is held. With Control, s saves, q
/// quits or asks, z undoes and y redoes; other characters do nothing.
pub proof fn law_character_keys(v: EditorView, c: char, control: bool, alt: bool)
    requires
        !v.confirm_quit,
    ensures
        ({
            let key = KeyEvent { code: KeyCode::Char(c), control, alt };
            &&& !control && !alt ==> just_does(key, v, v.insert_char(c))
            &&& !control && alt ==> just_does(key, v, v)
            &&& control && c == 'z' ==> just_does(key, v, v.undo_step())
            &&& control && c == 'y' ==> just_does(key, v, v.redo_step())
            &&& control && c == 's' ==> key.handled(v) == (v, Response::Save(AfterSave::Check))
            &&& control && c == 'q' && !v.modified ==> key.handled(v) == (
                v,
                Response::Done(Action::Quit),
            )
            &&& control && c == 'q' && v.modified ==> just_does(
                key,
                v,
                EditorView {
                    confirm_quit: true,
                    status:
                        "Unsaved changes! Ctrl+Q again to discard, Ctrl+S to save, Esc to cancel"@,
                    status_is_error: true,
                    ..v
                },
            )
            &&& control && c != 'z' && c != 'y' && c != 's' && c != 'q' ==> just_does(key, v, v)
        }),
{
}

/// While the quit question shows Ctrl+Q leaves, Ctrl+S saves to leave, Esc goes
/// back, and every other key does nothing.
pub proof fn law_keys_at_the_question(v: EditorView, key: KeyEvent)
    requires
        v.confirm_quit,
    ensures
        ({
            let quit = key.control && key.code == KeyCode::Char('q');
            let save = key.control && key.code == KeyCode::Char('s');
            let back = key.code == KeyCode::Esc;
            &&& quit ==> key.handled(v) == (v, Response::Done(Action::Quit))
            &&& save ==> key.handled(v) == (v, Response::Save(AfterSave::Quit))
            &&& back ==> just_does(
                key,
                v,
                EditorView {
                    confirm_quit: false,
                    status: "Cancelled"@,
                    status_is_error: false,
                    ..v
                },
            )
            &&& !quit && !save && !back ==> just_does(key, v, v)
        }),
{
}

/// Which keys stand for nothing: at the quit question all but its answers, and
/// else Esc, unknown keys, characters with Control that are no command, and
/// characters with Alt alone.
pub proof fn law_keys_without_a_meaning(v: EditorView, key: KeyEvent, c: char)
    ensures
        v.confirm_quit ==> (key.means_nothing(v) <==> key.code != KeyCode::Esc && !(key.control && (
        key.code == KeyCode::Char('q') || key.code == KeyCode::Char('s')))),
        !v.confirm_quit && (key.code == KeyCode::Esc || key.code == KeyCode::Other)
            ==> key.means_nothing(v),
        !v.confirm_quit && key.code == KeyCode::Char(c) ==> (key.means_nothing(v) <==> (key.control
            && c != 's' && c != 'q' && c != 'z' && c != 'y') || (!key.control && key.alt)),
        !v.confirm_quit && key.code != KeyCode::Esc && key.code != KeyCode::Other && !(
        key.code is Char) ==> !key.means_nothing(v),
{
}

/// After a save at the quit question the program is left if nothing is unsaved;
/// after any other, a check follows if the save succeeded.
pub proof fn law_what_follows_a_save(v: EditorView, succeeded: bool)
    ensures
        AfterSave::Quit.action(v, succeeded) == (if v.modified {
            Action::Continue
        } else {
            Action::Quit
        }),
        AfterSave::Check.action(v, succeeded) == (if succeeded {
            Action::TriggerCheck
        } else {
            Action::Continue
        }),
{
}

// ---- the outcome of a check ----

/// Errors are counted one by one.
pub proof fn law_errors_are_counted(
    a: Seq<DiagnosticView>,
    b: Seq<DiagnosticView>,
    d: DiagnosticView,
)
    ensures
        session::error_count(a + b) == session::error_count(a) + session::error_count(b),
        session::error_count(seq![d]) == (if d.severity == Severity::Error {
            1nat
        } else {
            0
        }),
        session::error_count(a) <= a.len(),
    decreases a.len() + b.len(),
{
    let one = seq![d];
    assert(one.drop_last() =~= Seq::<DiagnosticView>::empty());
    assert(session::error_count(one.drop_last()) == 0);
    assert(one.last() == d);
    if a.len() > 0 {
        lemma_errors_bounded(a);
    }
    if b.len() == 0 {
        assert(a + b =~= a);
    } else {
        assert((a + b).drop_last() =~= a + b.drop_last());
        law_errors_are_counted(a, b.drop_last(), d);
    }
}

proof fn lemma_errors_bounded(a: Seq<DiagnosticView>)
    ensures
        session::error_count(a) <= a.len(),
    decreases a.len(),
{
    if a.len() > 0 {
        lemma_errors_bounded(a.drop_last());
    }
}

/// Whether the diagnostic at `at` is the first error, or the first one of all if
/// there is no error.
pub open spec fn comes_first(diagnostics: Seq<DiagnosticView>, at: int) -> bool {
    &&& 0 <= at < diagnostics.len()
    &&& diagnostics[at].severity == Severity::Error ==> forall|i: int|
        0 <= i < at ==> (#[trigger] diagnostics[i]).severity != Severity::Error
    &&& diagnostics[at].severity != Severity::Error ==> at == 0 && forall|i: int|
        0 <= i < diagnostics.len() ==> (#[trigger] diagnostics[i]).severity != Severity::Error
}

/// What the status line says after a check that found something: how many errors
/// and warnings there are, and the line, which counts from one, the code and the
/// message of the diagnostic that comes first. It is an error if there is one.
pub proof fn law_summary_of_a_check(v: EditorView, diagnostics: Seq<DiagnosticView>, at: int)
    requires
        comes_first(diagnostics, at),
    ensures
        ({
            let errors = session::error_count(diagnostics);
            let warnings = (diagnostics.len() - errors) as nat;
            let first = diagnostics[at];
            session::told_of_check(v, MessageView::Finished(diagnostics)) == (EditorView {
                diagnostics,
                status: text::decimal(errors) + " error(s), "@ + text::decimal(warnings)
                    + " warning(s) — Ln "@ + text::decimal((first.line + 1) as nat) + ": "@
                    + first.code + " "@ + first.message,
                status_is_error: errors > 0,
                ..v
            })
        }),
        session::summary(diagnostics) == session::told_of_check(
            v,
            MessageView::Finished(diagnostics),
        ).status,
{
    assert(session::is_headline(diagnostics, at));
    let chosen = choose|i: int| session::is_headline(diagnostics, i);
    session::lemma_headline_unique(diagnostics, at, chosen);
}

/// As soon as there is a diagnostic, one of them comes first.
pub proof fn law_some_diagnostic_comes_first(diagnostics: Seq<DiagnosticView>) -> (at: int)
    requires
        diagnostics.len() > 0,
    ensures
        comes_first(diagnostics, at),
{
    lemma_first_from(diagnostics, 0)
}

proof fn lemma_first_from(diagnostics: Seq<DiagnosticView>, from: int) -> (at: int)
    requires
        0 <= from <= diagnostics.len(),
        diagnostics.len() > 0,
        forall|i: int| 0 <= i < from ==> (#[trigger] diagnostics[i]).severity != Severity::Error,
    ensures
        comes_first(diagnostics, at),
    decreases diagnostics.len() - from,
{
    if from == diagnostics.len() {
        assert(diagnostics[0].severity != Severity::Error);
        0
    } else if diagnostics[from].severity == Severity::Error {
        from
    } else {
        lemma_first_from(diagnostics, from + 1)
    }
}

/// The outcome of a save is told as it is, and an empty check as clean.
pub proof fn law_outcomes_are_seen_whole(reason: String)
    ensures
        input::outcome_view(Ok(())) == Ok::<(), Seq<char>>(()),
        input::outcome_view(Err(reason)) == Err::<(), Seq<char>>(reason@),
        session::summary(seq![]) == "No errors"@,
{
}

/// What the status line says after any other check. Only one that finished
/// changes the diagnostics.
pub proof fn law_other_outcomes_of_a_check(v: EditorView, reason: Seq<char>)
    ensures
        session::told_of_check(v, MessageView::Finished(seq![])) == (EditorView {
            diagnostics: seq![],
            status: "No errors"@,
            status_is_error: false,
            ..v
        }),
        session::told_of_check(v, MessageView::ToolMissing) == (EditorView {
            status: "dotnet not found — install .NET SDK for Ctrl+S diagnostics"@,
            status_is_error: true,
            ..v
        }),
        session::told_of_check(v, MessageView::Failed(reason)) == (EditorView {
            status: "Check failed: "@ + reason,
            status_is_error: true,
            ..v
        }),
{
}

// ---- events ----

/// A pressed key takes effect: it quits or saves where it asks to, draws where it
/// changed the editor, and is ignored else. A released one is ignored.
pub proof fn law_key_events(v: EditorView, c: CheckerView, key: KeyEvent)
    ensures
        session::reacted(v, c, Event::Key { pressed: false, key }) == (v, c, Reaction::Ignore),
        ({
            let (after, response) = key.handled(v);
            session::reacted(v, c, Event::Key { pressed: true, key }) == (
                after,
                c,
                match response {
                    Response::Save(next) => Reaction::Save(next),
                    Response::Done(Action::Quit) => Reaction::Quit,
                    _ => if after == v {
                        Reaction::Ignore
                    } else {
                        Reaction::Redraw
                    },
                },
            )
        }),
{
}

/// A new size is drawn, other events are ignored, and an idle moment is only
/// worth a look at the check: its outcome is told and drawn.
pub proof fn law_other_events(v: EditorView, c: CheckerView, message: CheckMessage)
    ensures
        session::reacted(v, c, Event::Resize) == (v, c, Reaction::Redraw),
        session::reacted(v, c, Event::Other) == (v, c, Reaction::Ignore),
        session::reacted(v, c, Event::Idle(Received::Empty)) == (v, c, Reaction::Ignore),
        session::reacted(v, c, Event::Idle(Received::Disconnected)) == (
            v,
            c.polled(Received::Disconnected),
            Reaction::Ignore,
        ),
        c.listening ==> session::reacted(v, c, Event::Idle(Received::Message(message))) == (
            session::told_of_check(v, message@),
            CheckerView { running: false, ..c },
            Reaction::Redraw,
        ),
        !c.listening ==> session::reacted(v, c, Event::Idle(Received::Message(message))) == (
            v,
            c,
            Reaction::Ignore,
        ),
{
}

/// What the outcome of a save comes to: at the quit question the program is left
/// on success. Else a check starts on success if none runs, and the status line
/// says so. In all other cases the screen is drawn if the editor changed.
pub proof fn law_outcomes_of_a_save(
    v: EditorView,
    c: CheckerView,
    after: AfterSave,
    outcome: Result<(), Seq<char>>,
)
    ensures
        ({
            let saved = v.saved(outcome);
            let next = session::reacted_to_save(v, c, after, outcome);
            let quits = after == AfterSave::Quit && !saved.modified;
            let checks = after == AfterSave::Check && outcome is Ok && !c.running;
            &&& quits ==> next == (saved, c, Reaction::Quit)
            &&& checks ==> next == (
                EditorView { status: "Checking…"@, status_is_error: false, ..saved },
                CheckerView { listening: true, running: true },
                Reaction::StartCheck,
            )
            &&& !quits && !checks ==> next == (
                saved,
                c,
                if saved == v {
                    Reaction::Ignore
                } else {
                    Reaction::Redraw
                },
            )
        }),
{
}

} // verus!
