//! What the views of the library's values hold: every field, and every element
//! in its place.

use crate::check;
use crate::check::{CheckMessage, Diagnostic, MessageView};
use crate::editor::Editor;
use crate::report;
use crate::report::RawDiagnostic;
use crate::run::{CheckStep, StepView, Throwaway};
use crate::spans;
use crate::spans::Mark;
use crate::style;
use crate::style::Span;
use crate::syntax;
use crate::syntax::Token;
use crate::text;
use crate::ui::Screen;
use vstd::prelude::*;

verus! {

/// An editor is seen as what its fields hold.
pub proof fn law_editor_is_seen_whole(editor: Editor, i: int)
    ensures
        editor@.buf.lines.len() == editor.lines@.len(),
        0 <= i < editor.lines@.len() ==> editor@.buf.lines[i] == editor.lines@[i]@,
        editor@.buf.row == editor.cursor_row,
        editor@.buf.col == editor.cursor_col,
        editor@.desired_col == editor.desired_col,
        editor@.modified == editor.modified,
        editor@.confirm_quit == editor.confirm_quit,
        editor@.scroll == editor.scroll,
        editor@.col_scroll == editor.col_scroll,
        editor@.file_path == editor.file_path@,
        editor@.status == editor.status_message@,
        editor@.status_is_error == editor.status_is_error,
        editor@.diagnostics.len() == editor.diagnostics@.len(),
        0 <= i < editor.diagnostics@.len() ==> editor@.diagnostics[i] == editor.diagnostics@[i]@,
{
}

/// Diagnostics, reports, spans, tokens, screens and throwaway projects are seen
/// as what their fields hold.
pub proof fn law_values_are_seen_whole(
    d: Diagnostic,
    raw: RawDiagnostic,
    span: Span,
    token: Token,
    screen: Screen,
    project: Throwaway,
)
    ensures
        d@.line == d.line && d@.col == d.col && d@.severity == d.severity,
        d@.code == d.code@ && d@.message == d.message@,
        raw@.file == raw.file@ && raw@.line == raw.line@ && raw@.col == raw.col@,
        raw@.severity == raw.severity@ && raw@.code == raw.code@ && raw@.message == raw.message@,
        span@.style == span.style && span@.text == span.text@,
        token@.red == token.red && token@.green == token.green && token@.blue == token.blue,
        token@.bold == token.bold && token@.italic == token.italic,
        token@.underline == token.underline && token@.text == token.text@,
        screen@.text_area == screen.text_area && screen@.status_area == screen.status_area,
        screen@.rows == syntax::row_views(screen.rows@) && screen@.status == screen.status@,
        screen@.cursor == screen.cursor,
        project@.place == text::views(project.place@) && project@.contents == project.contents@,
{
}

/// Lists are seen element by element.
pub proof fn law_lists_are_seen_in_order(
    strings: Seq<String>,
    diagnostics: Seq<Diagnostic>,
    reports: Seq<RawDiagnostic>,
    groups: Seq<Option<String>>,
    row: Seq<Span>,
    rows: Seq<Vec<Span>>,
    tokens: Seq<Token>,
    runs: Seq<(Mark, String)>,
    i: int,
)
    ensures
        text::views(strings).len() == strings.len(),
        0 <= i < strings.len() ==> text::views(strings)[i] == strings[i]@,
        check::diagnostic_views(diagnostics).len() == diagnostics.len(),
        0 <= i < diagnostics.len() ==> check::diagnostic_views(diagnostics)[i] == diagnostics[i]@,
        report::raw_views(reports).len() == reports.len(),
        0 <= i < reports.len() ==> report::raw_views(reports)[i] == reports[i]@,
        report::group_views(groups).len() == groups.len(),
        0 <= i < groups.len() && groups[i] is None ==> report::group_views(groups)[i] is None,
        0 <= i < groups.len() && groups[i] is Some ==> report::group_views(groups)[i] == Some(
            groups[i]->0@,
        ),
        style::span_views(row).len() == row.len(),
        0 <= i < row.len() ==> style::span_views(row)[i] == row[i]@,
        syntax::row_views(rows).len() == rows.len(),
        0 <= i < rows.len() ==> syntax::row_views(rows)[i] == style::span_views(rows[i]@),
        syntax::token_views(tokens).len() == tokens.len(),
        0 <= i < tokens.len() ==> syntax::token_views(tokens)[i] == tokens[i]@,
        spans::run_views(runs).len() == runs.len(),
        0 <= i < runs.len() ==> spans::run_views(runs)[i] == (runs[i].0, runs[i].1@),
{
}

/// Outcomes and steps of a check are seen as what they are.
pub proof fn law_steps_are_seen_whole(
    diagnostics: Vec<Diagnostic>,
    text: String,
    entry: usize,
    found: Vec<RawDiagnostic>,
    message: CheckMessage,
)
    ensures
        CheckMessage::Finished(diagnostics)@ == MessageView::Finished(
            check::diagnostic_views(diagnostics@),
        ),
        CheckMessage::ToolMissing@ == MessageView::ToolMissing,
        CheckMessage::Failed(text)@ == MessageView::Failed(text@),
        CheckStep::AskVersion@ == StepView::AskVersion,
        (CheckStep::FindProject { framework: text })@ == (StepView::FindProject {
            framework: text@,
        }),
        (CheckStep::WriteProject { framework: text })@ == (StepView::WriteProject {
            framework: text@,
        }),
        (CheckStep::Build { entry: Some(entry) })@ == (StepView::Build {
            entry: Some(entry as int),
        }),
        (CheckStep::Build { entry: None })@ == (StepView::Build { entry: None }),
        (CheckStep::CompareFiles { found })@ == (StepView::CompareFiles {
            found: report::raw_views(found@),
        }),
        CheckStep::Done(message)@ == StepView::Done(message@),
{
}

} // verus!
