//! Unsaved changes, the quit question, and when checks run.

use crate::check::{CheckerView, Received};
use crate::input::{Action, AfterSave, KeyCode, KeyEvent, Response};
use crate::model::EditorView;
use crate::session;
use crate::session::{Event, Reaction};
use vstd::prelude::*;

verus! {

/// Unsaved changes are only dropped on a second Ctrl+Q: a key leaves the
/// program at once only if there are none, or if the quit question is showing
/// and the key is Ctrl+Q.
pub proof fn law_changes_are_not_dropped_silently(v: EditorView, key: KeyEvent)
    requires
        key.handled(v).1 == Response::Done(Action::Quit),
    ensures
        key.is_control('q'),
        !v.modified || v.confirm_quit,
{
}

/// Ctrl+Q with unsaved changes asks first; asked again, it leaves the program.
pub proof fn law_quit_asks_once(v: EditorView, key: KeyEvent)
    requires
        key.is_control('q'),
        v.modified,
        !v.confirm_quit,
    ensures
        key.handled(v).1 == Response::Done(Action::Continue),
        key.handled(v).0.confirm_quit,
        key.handled(key.handled(v).0).1 == Response::Done(Action::Quit),
{
}

/// A save that was asked for at the quit question leaves the program if it
/// succeeds, and keeps it running with the changes still unsaved if it fails.
pub proof fn law_save_before_quit(v: EditorView, outcome: Result<(), Seq<char>>)
    requires
        v.modified,
    ensures
        outcome is Ok ==> AfterSave::Quit.action(v.saved(outcome), true) == Action::Quit,
        outcome is Err ==> AfterSave::Quit.action(v.saved(outcome), false) == Action::Continue,
        outcome is Err ==> v.saved(outcome).modified,
        v.saved(outcome).buf == v.buf,
        v.saved(outcome).undo == v.undo,
        v.saved(outcome).redo == v.redo,
{
}

/// While the quit question is showing no key changes the text, the cursor or
/// the history.
pub proof fn law_question_freezes_text(v: EditorView, key: KeyEvent)
    requires
        v.confirm_quit,
    ensures
        key.handled(v).0.buf == v.buf,
        key.handled(v).0.undo == v.undo,
        key.handled(v).0.redo == v.redo,
        key.handled(v).0.modified == v.modified,
{
}

/// Escape takes the quit question away; the next Ctrl+Q asks again.
pub proof fn law_escape_cancels_question(v: EditorView, esc: KeyEvent, quit: KeyEvent)
    requires
        v.confirm_quit,
        v.modified,
        esc.code == KeyCode::Esc,
        quit.is_control('q'),
    ensures
        !esc.handled(v).0.confirm_quit,
        quit.handled(esc.handled(v).0).1 == Response::Done(Action::Continue),
{
}

/// A key that changes the text marks it as unsaved, and no key takes that mark
/// away.
pub proof fn law_changed_text_is_unsaved(v: EditorView, key: KeyEvent)
    ensures
        key.handled(v).0.buf.lines != v.buf.lines ==> key.handled(v).0.modified,
        v.modified ==> key.handled(v).0.modified,
{
}

/// The quit question only shows while there are unsaved changes.
pub proof fn law_question_means_unsaved(
    v: EditorView,
    key: KeyEvent,
    outcome: Result<(), Seq<char>>,
)
    requires
        v.confirm_quit ==> v.modified,
    ensures
        key.handled(v).0.confirm_quit ==> key.handled(v).0.modified,
        v.saved(outcome).confirm_quit ==> v.saved(outcome).modified,
{
}

/// An event that asks for nothing has changed nothing that is on the screen.
pub proof fn law_ignored_events_change_nothing(v: EditorView, c: CheckerView, event: Event)
    requires
        session::reacted(v, c, event).2 == Reaction::Ignore,
    ensures
        session::reacted(v, c, event).0 == v,
{
}

/// A key that stands for nothing changes nothing and asks for nothing.
pub proof fn law_meaningless_keys_do_nothing(v: EditorView, key: KeyEvent)
    requires
        key.means_nothing(v),
    ensures
        key.handled(v) == (v, Response::Done(Action::Continue)),
        key.changes_nothing(v),
{
}

/// The screen is drawn again only when something actually changed: the editor,
/// the size of the terminal, or what is known of the running check. A key that
/// changes nothing draws nothing.
pub proof fn law_redraws_follow_changes(v: EditorView, c: CheckerView, event: Event)
    ensures
        session::reacted(v, c, event).2 == Reaction::Redraw ==> {
            ||| session::reacted(v, c, event).0 != v
            ||| event is Resize
            ||| c.listening && event matches Event::Idle(Received::Message(_))
        },
        event matches Event::Key { pressed: true, key } ==> (session::reacted(v, c, event).2
            == Reaction::Ignore <==> key.changes_nothing(v)),
{
}

/// After a save the screen is drawn again only if the editor changed, and is
/// left alone only if it did not.
pub proof fn law_redraws_after_saves_follow_changes(
    v: EditorView,
    c: CheckerView,
    after: AfterSave,
    outcome: Result<(), Seq<char>>,
)
    ensures
        ({
            let next = session::reacted_to_save(v, c, after, outcome);
            &&& next.2 == Reaction::Redraw ==> next.0 != v
            &&& next.2 == Reaction::Ignore ==> next.0 == v
        }),
{
}

/// Only one check runs at a time: none is started while one is in flight, and a
/// started one is in flight.
pub proof fn law_one_check_at_a_time(v: EditorView, c: CheckerView, action: Action)
    ensures
        c.running ==> c.started() == c,
        c.running ==> session::settled(v, c, action).2 != Reaction::StartCheck,
        session::settled(v, c, action).2 == Reaction::StartCheck ==> session::settled(
            v,
            c,
            action,
        ).1.running,
{
}

/// A check stays in flight until its outcome arrives or its channel is closed.
pub proof fn law_check_runs_until_it_reports(c: CheckerView, received: Received)
    requires
        c.running,
        c.listening,
    ensures
        c.polled(received).running <==> received is Empty,
{
}

/// A check in flight can always be heard from.
pub proof fn law_running_check_is_listened_to(c: CheckerView, received: Received)
    requires
        c.running ==> c.listening,
    ensures
        c.started().running ==> c.started().listening,
        c.polled(received).running ==> c.polled(received).listening,
{
}

/// Checks start on saved files only: no event starts one. A save that was asked
/// for outside the quit question starts one if it succeeded and none is in
/// flight.
pub proof fn law_checks_follow_saves(
    v: EditorView,
    c: CheckerView,
    event: Event,
    after: AfterSave,
    outcome: Result<(), Seq<char>>,
)
    ensures
        session::reacted(v, c, event).2 != Reaction::StartCheck,
        session::reacted_to_save(v, c, after, outcome).2 == Reaction::StartCheck <==> after
            == AfterSave::Check && outcome is Ok && !c.running,
{
}

} // verus!
