//! The screen: the visible lines with their numbers, the status line, and the
//! cell that the cursor is in.

use crate::check;
use crate::check::{Diagnostic, DiagnosticView, Severity};
use crate::editor::Editor;
use crate::laws::screen;
use crate::model;
use crate::model::EditorView;
use crate::spans;
use crate::spans::Columns;
use crate::style;
use crate::style::{Color, Span, SpanView, Style};
use crate::syntax::Highlighter;
use crate::syntax;
use crate::text;
use ratatui::layout::{Constraint, Direction, Layout, Rect};
use vstd::prelude::*;
use vstd::string::*;

verus! {

/// The narrowest gutter, with the space behind the line number.
pub const GUTTER_MIN: usize = 4;

/// A rectangle of terminal cells.
#[derive(Clone, Copy, PartialEq, Eq, Debug)]
pub struct Area {
    pub x: u16,
    pub y: u16,
    pub width: u16,
    pub height: u16,
}

/// `area` cut into an upper part of at least `least` rows and a lower part of
/// `rows` rows. Where there is not room for both the upper part comes first;
/// what is left over goes to the upper part, too.
pub open spec fn stacked(area: Area, least: u16, rows: u16) -> (Area, Area) {
    let lower = if least + rows <= area.height {
        rows as int
    } else if least <= area.height {
        area.height - least
    } else {
        0
    };
    let upper = area.height - lower;
    (
        Area { height: upper as u16, ..area },
        Area { y: (area.y + upper) as u16, height: lower as u16, ..area },
    )
}

/// `Layout::split` of a vertical layout with the constraints `Min(least)` and
/// `Length(rows)`: the two parts fill the area from top to bottom. `Min` has the
/// higher priority, so `Length` gives way where there is not room for both, and
/// a part with a `Min` constraint grows into what is left over.
#[verifier::external_body]
fn split_vertically(area: Area, least: u16, rows: u16) -> (result: (Area, Area))
    requires
        area.y + area.height <= u16::MAX,
    ensures
        result == stacked(area, least, rows),
{
    let rect = Rect { x: area.x, y: area.y, width: area.width, height: area.height };
    let parts = Layout::default()
        .direction(Direction::Vertical)
        .constraints([Constraint::Min(least), Constraint::Length(rows)])
        .split(rect);
    let (a, b) = (parts[0], parts[1]);
    (
        Area { x: a.x, y: a.y, width: a.width, height: a.height },
        Area { x: b.x, y: b.y, width: b.width, height: b.height },
    )
}

/// The part of the screen for the text, and the one line for the status.
pub fn split_screen(area: Area) -> (result: (Area, Area))
    requires
        area.y + area.height <= u16::MAX,
    ensures
        result == stacked(area, 1, 1),
{
    split_vertically(area, 1, 1)
}

// ---- the gutter ----

/// The width of the gutter for a text of `lines` lines: room for the largest
/// number and a space, but no less than the minimum.
pub open spec fn gutter_width(lines: nat) -> int {
    let digits = text::decimal(lines).len() as int;
    if digits < GUTTER_MIN - 1 {
        GUTTER_MIN as int
    } else {
        digits + 1
    }
}

fn gutter_width_for(lines: usize) -> (result: usize)
    ensures
        result == gutter_width(lines as nat),
        result > 0,
{
    proof {
        lemma_decimal_len(lines as nat);
    }
    let digits = text::decimal_of(lines as u128).as_str().unicode_len();
    if digits < GUTTER_MIN - 1 {
        GUTTER_MIN
    } else {
        digits + 1
    }
}

proof fn lemma_decimal_len(n: nat)
    ensures
        text::decimal(n).len() <= n / 10 + 2,
    decreases n,
{
    if n >= 10 {
        lemma_decimal_len(n / 10);
    }
}

/// The most serious severity among `diagnostics`.
pub open spec fn strongest(diagnostics: Seq<DiagnosticView>) -> Option<Severity>
    decreases diagnostics.len(),
{
    if diagnostics.len() == 0 {
        None
    } else {
        match strongest(diagnostics.drop_last()) {
            Some(severity) => Some(severity.stronger(diagnostics.last().severity)),
            None => Some(diagnostics.last().severity),
        }
    }
}

/// The color of a line number.
pub open spec fn number_color(severity: Option<Severity>) -> Color {
    match severity {
        Some(Severity::Error) => Color::Red,
        Some(Severity::Warning) => Color::Yellow,
        None => Color::DarkGray,
    }
}

fn color_of_number(diagnostics: &Vec<Diagnostic>) -> (result: Color)
    ensures
        result == number_color(strongest(check::diagnostic_views(diagnostics@))),
{
    let ghost all = check::diagnostic_views(diagnostics@);
    let mut worst: Option<Severity> = None;
    let mut i: usize = 0;
    assert(all.take(0) == Seq::<DiagnosticView>::empty());
    while i < diagnostics.len()
        invariant
            i <= diagnostics@.len(),
            all == check::diagnostic_views(diagnostics@),
            worst == strongest(all.take(i as int)),
        decreases diagnostics@.len() - i,
    {
        assert(all.take(i + 1).drop_last() == all.take(i as int));
        worst = match worst {
            Some(severity) => Some(severity.strongest(diagnostics[i].severity)),
            None => Some(diagnostics[i].severity),
        };
        i += 1;
    }
    assert(all.take(i as int) == all);
    match worst {
        Some(Severity::Error) => Color::Red,
        Some(Severity::Warning) => Color::Yellow,
        None => Color::DarkGray,
    }
}

/// `s` with spaces in front of it that make it `width` characters long.
pub open spec fn right_aligned(s: Seq<char>, width: int) -> Seq<char> {
    if s.len() < width {
        text::repeated(' ', (width - s.len()) as nat) + s
    } else {
        s
    }
}

fn align_right(s: &str, width: usize) -> (result: String)
    ensures
        result@ == right_aligned(s@, width as int),
{
    let len = s.unicode_len();
    if len < width {
        let mut result = text::repeat_char(' ', width - len);
        result.append(s);
        result
    } else {
        s.to_owned()
    }
}

// ---- the text ----

/// What stands in the gutter of line `row`.
pub open spec fn gutter(editor: EditorView, row: int) -> SpanView {
    SpanView {
        style: Style::colored(
            number_color(strongest(check::on_line(editor.diagnostics, row))),
        ),
        text: right_aligned(
            text::decimal((row + 1) as nat),
            gutter_width(editor.buf.lines.len()) - 1,
        ).push(' '),
    }
}

/// What is shown of line `row` in a text area with `width` columns beside the
/// gutter: the number, and the visible part of the highlighted line with the
/// selection and the diagnostics set off.
pub open spec fn shown_row(
    editor: EditorView,
    row: int,
    highlighted: Seq<SpanView>,
    selection: Option<Columns>,
    width: int,
) -> Seq<SpanView> {
    let first = editor.col_scroll;
    let visible = spans::window(highlighted, first, first + width);
    let severities = spans::severities(
        check::on_line(editor.diagnostics, row),
        editor.buf.lines[row].len() as int,
    );
    seq![gutter(editor, row)] + spans::with_diagnostics(
        spans::with_selection(visible, first, selection),
        first,
        severities,
    )
}

/// Lays out line `row`, given its highlighted spans and the columns of it that
/// are selected, with `width` columns beside the gutter.
pub fn draw_row(
    editor: &Editor,
    row: usize,
    highlighted: &Vec<Span>,
    selection: Option<Columns>,
    width: usize,
) -> (result: Vec<Span>)
    requires
        row < editor@.buf.lines.len(),
    ensures
        style::span_views(result@) == shown_row(
            editor@,
            row as int,
            style::span_views(highlighted@),
            selection,
            width as int,
        ),
{
    let found = editor.diagnostics_for_line(row);
    let gutter_columns = gutter_width_for(editor.line_count());
    let number = text::decimal_of(row as u128 + 1);
    let mut label = align_right(number.as_str(), gutter_columns - 1);
    label.push(' ');
    let label = Span { style: Style::in_color(color_of_number(&found)), text: label };
    assert(label@ == gutter(editor@, row as int));

    let visible = spans::slice_spans(highlighted, editor.col_scroll, width);
    let visible = spans::apply_selection(visible, editor.col_scroll, selection);
    let len = editor.lines[row].as_str().unicode_len();
    let severities = spans::diagnostic_severity_map(&found, len);
    let mut rest = spans::apply_diagnostics(visible, editor.col_scroll, &severities);

    let mut result: Vec<Span> = Vec::new();
    let ghost shown = style::span_views(rest@);
    result.push(label);
    result.append(&mut rest);
    assert(style::span_views(result@) == seq![label@] + shown);
    result
}

// ---- the status line ----

/// The left half of the status line: the file, whether it has unsaved changes,
/// the cursor's position and the size of the text.
pub open spec fn status_left(editor: EditorView) -> Seq<char> {
    let modified = if editor.modified {
        " [+]"@
    } else {
        ""@
    };
    " "@ + editor.file_path + modified + "  Ln "@ + text::decimal((editor.buf.row + 1) as nat)
        + ", Col "@ + text::decimal((editor.buf.col + 1) as nat) + "  "@ + text::decimal(
        model::total_chars(editor.buf.lines),
    ) + " chars, "@ + text::decimal(editor.buf.lines.len()) + " lines"@
}

/// The status line of `width` columns: the message is moved to the right edge,
/// with at least one space before it, and clipped there if there is not room
/// for both halves.
pub open spec fn status_text(editor: EditorView, width: int) -> Seq<char> {
    let left = status_left(editor);
    let right = editor.status;
    let gap = if left.len() + 1 + right.len() <= width {
        width - left.len() - right.len()
    } else {
        1
    };
    text::clipped(
        (left + text::repeated(' ', gap as nat) + right).push(' '),
        width as nat,
    )
}

/// How the status line looks.
pub open spec fn status_style(is_error: bool) -> Style {
    if is_error {
        Style {
            fg: Some(Color::White),
            bg: Some(Color::Rgb(0x8b, 0x2f, 0x2f)),
            bold: true,
            italic: false,
            underlined: false,
            reversed: false,
        }
    } else {
        Style {
            fg: Some(Color::Black),
            bg: Some(Color::Rgb(0x7a, 0xa2, 0xf7)),
            bold: false,
            italic: false,
            underlined: false,
            reversed: false,
        }
    }
}

/// Lays out the status line in `width` columns.
pub fn draw_status(editor: &Editor, width: usize) -> (result: Span)
    ensures
        result@ == (SpanView {
            style: status_style(editor@.status_is_error),
            text: status_text(editor@, width as int),
        }),
{
    let mut line = text::concat(" ", editor.file_path.as_str());
    line.append(
        if editor.modified {
            " [+]"
        } else {
            ""
        },
    );
    line.append("  Ln ");
    line.append(text::decimal_of(editor.cursor_row as u128 + 1).as_str());
    line.append(", Col ");
    line.append(text::decimal_of(editor.cursor_col as u128 + 1).as_str());
    line.append("  ");
    line.append(text::decimal_of(editor.char_count()).as_str());
    line.append(" chars, ");
    line.append(text::decimal_of(editor.line_count() as u128).as_str());
    line.append(" lines");
    assert(line@ == status_left(editor@));

    // Widths are measured in characters, not bytes: status messages can
    // contain non-ASCII text (e.g. a localized compiler diagnostic), where
    // byte length and display width diverge.
    let left_len = line.as_str().unicode_len();
    let right_len = editor.status_message.as_str().unicode_len();

    // Always keep at least one separating space between the two halves;
    // if they still don't both fit, the right side gets clipped instead
    // of being smashed directly against the left with no separator.
    let gap: usize = if left_len < width && right_len <= width - left_len - 1 {
        width - left_len - right_len
    } else {
        1
    };
    line.append(text::repeat_char(' ', gap).as_str());
    line.append(editor.status_message.as_str());
    line.push(' ');

    let style = if editor.status_is_error {
        Style {
            fg: Some(Color::White),
            bg: Some(Color::Rgb(0x8b, 0x2f, 0x2f)),
            bold: true,
            italic: false,
            underlined: false,
            reversed: false,
        }
    } else {
        Style {
            fg: Some(Color::Black),
            bg: Some(Color::Rgb(0x7a, 0xa2, 0xf7)),
            bold: false,
            italic: false,
            underlined: false,
            reversed: false,
        }
    };
    Span { style, text: text::clip(line.as_str(), width) }
}

// ---- the cursor ----

/// The cell that the cursor is in, if that cell lies in the text area. A
/// position on the screen is a 16-bit number, so offsets count modulo 65536.
pub open spec fn cursor_cell(area: Area, editor: EditorView) -> Option<(u16, u16)> {
    let row = (editor.buf.row - editor.scroll) % 65536;
    let col = (gutter_width(editor.buf.lines.len()) + editor.buf.col - editor.col_scroll) % 65536;
    if editor.scroll <= editor.buf.row && editor.col_scroll <= editor.buf.col && row < area.height
        && col < area.width && area.y + row <= u16::MAX && area.x + col <= u16::MAX {
        Some(((area.x + col) as u16, (area.y + row) as u16))
    } else {
        None
    }
}

/// Finds the cell that the cursor is in.
pub fn place_cursor(area: Area, editor: &Editor) -> (result: Option<(u16, u16)>)
    ensures
        result == cursor_cell(area, editor@),
{
    if editor.cursor_row < editor.scroll || editor.cursor_col < editor.col_scroll {
        return None;
    }
    let gutter_columns = gutter_width_for(editor.line_count());
    let row: u32 = ((editor.cursor_row - editor.scroll) % 65536) as u32;
    let col: u32 = ((gutter_columns as u128 + (editor.cursor_col - editor.col_scroll) as u128)
        % 65536) as u32;
    if row < area.height as u32 && col < area.width as u32 && area.y as u32 + row <= 65535
        && area.x as u32 + col <= 65535 {
        Some(((area.x as u32 + col) as u16, (area.y as u32 + row) as u16))
    } else {
        None
    }
}

// ---- the whole screen ----

/// Everything there is to draw.
#[derive(Debug)]
pub struct Screen {
    pub text_area: Area,
    pub rows: Vec<Vec<Span>>,
    pub status_area: Area,
    pub status: Span,
    pub cursor: Option<(u16, u16)>,
}

/// What a [`Screen`] shows.
#[verifier::ext_equal]
pub struct ScreenView {
    pub text_area: Area,
    pub rows: Seq<Seq<SpanView>>,
    pub status_area: Area,
    pub status: SpanView,
    pub cursor: Option<(u16, u16)>,
}

impl View for Screen {
    type V = ScreenView;

    open spec fn view(&self) -> ScreenView {
        ScreenView {
            text_area: self.text_area,
            rows: syntax::row_views(self.rows@),
            status_area: self.status_area,
            status: self.status@,
            cursor: self.cursor,
        }
    }
}

/// How many columns of `area` there are beside the gutter.
pub open spec fn content_width(area: Area, lines: nat) -> int {
    if gutter_width(lines) <= area.width {
        area.width - gutter_width(lines)
    } else {
        0
    }
}

/// The editor scrolled so that the cursor is visible in `text_area`.
pub open spec fn scrolled_into(text_area: Area, editor: EditorView) -> EditorView {
    editor.ensure_visible(
        content_width(text_area, editor.buf.lines.len()),
        text_area.height as int,
    )
}

/// The rows of `text_area`: line by line from the first visible one on, with
/// `highlighted` for their spans, and nothing behind the last line.
pub open spec fn shown_rows(
    text_area: Area,
    editor: EditorView,
    highlighted: Seq<Seq<SpanView>>,
) -> Seq<Seq<SpanView>> {
    Seq::new(
        text_area.height as nat,
        |i: int|
            {
                let row = editor.scroll + i;
                if row < editor.buf.lines.len() {
                    shown_row(
                        editor,
                        row,
                        highlighted[row],
                        None,
                        content_width(text_area, editor.buf.lines.len()),
                    )
                } else {
                    seq![]
                }
            },
    )
}

/// Lays out the visible lines, given the highlighted spans of all lines up to
/// the last visible one.
pub fn draw_rows(text_area: Area, editor: &Editor, highlighted: &Vec<Vec<Span>>) -> (result: Vec<
    Vec<Span>,
>)
    requires
        highlighted@.len() >= editor@.buf.lines.len() || highlighted@.len() >= editor@.scroll
            + text_area.height,
    ensures
        syntax::row_views(result@) == shown_rows(
            text_area,
            editor@,
            syntax::row_views(highlighted@),
        ),
{
    let gutter_columns = gutter_width_for(editor.line_count());
    let width = (text_area.width as usize).saturating_sub(gutter_columns);
    let height = text_area.height as usize;
    let ghost shown = shown_rows(text_area, editor@, syntax::row_views(highlighted@));
    let mut result: Vec<Vec<Span>> = Vec::new();
    let mut i: usize = 0;
    while i < height
        invariant
            i <= height == text_area.height,
            width == content_width(text_area, editor@.buf.lines.len()),
            highlighted@.len() >= editor@.buf.lines.len() || highlighted@.len() >= editor@.scroll
                + text_area.height,
            shown == shown_rows(text_area, editor@, syntax::row_views(highlighted@)),
            syntax::row_views(result@) == shown.take(i as int),
        decreases height - i,
    {
        let line: Vec<Span> = if editor.scroll < editor.line_count() && i < editor.line_count()
            - editor.scroll {
            let row = editor.scroll + i;
            assert(row < highlighted@.len());
            // Nothing is selected: the editor keeps no selection.
            draw_row(editor, row, &highlighted[row], None, width)
        } else {
            Vec::new()
        };
        assert(style::span_views(line@) =~= shown[i as int]);
        let ghost before = syntax::row_views(result@);
        result.push(line);
        proof {
            assert(syntax::row_views(result@) == before.push(shown[i as int]));
            assert(shown.take(i + 1) == shown.take(i as int).push(shown[i as int]));
        }
        i += 1;
    }
    assert(shown.take(i as int) == shown);
    result
}

/// The screen of `area` for `editor`, which is scrolled so that the cursor is
/// visible.
pub open spec fn shown_screen(
    area: Area,
    editor: EditorView,
    highlighter: &Highlighter,
) -> ScreenView {
    let (text_area, status_area) = stacked(area, 1, 1);
    let highlighted = highlighter.rows(
        editor.buf.lines,
        (editor.scroll + text_area.height) as nat,
    );
    ScreenView {
        text_area,
        rows: shown_rows(text_area, editor, highlighted),
        status_area,
        status: SpanView {
            style: status_style(editor.status_is_error),
            text: status_text(editor, status_area.width as int),
        },
        cursor: cursor_cell(text_area, editor),
    }
}

/// Scrolls the editor to its cursor and lays out the screen.
pub fn draw(area: Area, editor: &mut Editor, highlighter: &Highlighter) -> (screen: Screen)
    requires
        highlighter.wf(),
        area.y + area.height <= u16::MAX,
    ensures
        final(editor)@ == scrolled_into(stacked(area, 1, 1).0, old(editor)@),
        screen@ == shown_screen(area, final(editor)@, highlighter),
        forall|i: int|
            {
                let v = final(editor)@;
                let row = v.scroll + i;
                &&& 0 <= i < screen@.rows.len()
                &&& row < v.buf.lines.len()
                &&& !v.buf.lines[row].contains('\n')
                &&& highlighter.parses(v.buf.lines, (row + 1) as nat)
            } ==> {
                let v = final(editor)@;
                let first = v.col_scroll;
                let width = content_width(stacked(area, 1, 1).0, v.buf.lines.len());
                style::plain_text(#[trigger] screen@.rows[i]) == gutter(v, v.scroll + i).text
                    + text::cut(v.buf.lines[v.scroll + i], first, first + width)
            },
{
    let (text_area, status_area) = split_screen(area);
    let gutter_columns = gutter_width_for(editor.line_count());
    let width = (text_area.width as usize).saturating_sub(gutter_columns);
    let height = text_area.height as usize;
    editor.ensure_visible(width, height);

    let upto = editor.scroll.saturating_add(height);
    let highlighted = highlighter.highlight(&editor.lines, upto);
    proof {
        assert(syntax::row_views(highlighted@) =~= highlighter.rows(
            editor@.buf.lines,
            (editor.scroll + height) as nat,
        ));
        assert(syntax::row_views(highlighted@).len() == highlighted@.len());
    }
    let rows = draw_rows(text_area, editor, &highlighted);
    let status = draw_status(editor, status_area.width as usize);
    let cursor = place_cursor(text_area, editor);
    proof {
        let v = editor@;
        let shown = syntax::row_views(rows@);
        let columns = content_width(text_area, v.buf.lines.len());
        assert forall|i: int|
            0 <= i < shown.len() && v.scroll + i < v.buf.lines.len() && !v.buf.lines[v.scroll
                + i].contains('\n') && highlighter.parses(
                v.buf.lines,
                (v.scroll + i + 1) as nat,
            ) implies style::plain_text(#[trigger] shown[i]) == gutter(v, v.scroll + i).text
            + text::cut(v.buf.lines[v.scroll + i], v.col_scroll, v.col_scroll + columns) by {
            let row = v.scroll + i;
            let line = syntax::row_views(highlighted@)[row];
            assert(style::plain_text(line) == editor.lines[row]@);
            screen::law_row_reads_as_its_line(v, row, line, None, columns);
        }
    }
    Screen { text_area, rows, status_area, status, cursor }
}

} // verus!
