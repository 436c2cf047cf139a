//! What each cell of the screen shows.

use crate::check;
use crate::check::{DiagnosticView, Severity};
use crate::laws::checks;
use crate::laws::screen;
use crate::model;
use crate::model::EditorView;
use crate::spans;
use crate::spans::{Columns, Marking};
use crate::style;
use crate::style::{Color, SpanView, Style};
use crate::syntax;
use crate::syntax::{Highlighter, TokenView};
use crate::text;
use crate::ui;
use crate::ui::Area;
use syntect::highlighting::ThemeSet;
use syntect::parsing::SyntaxSet;
use vstd::prelude::*;

verus! {

// ---- marks ----

/// How a character looks that has the look `base` by itself: reversed if it is
/// selected, red and underlined if an error points at it, and yellow and
/// underlined if only warnings do.
pub open spec fn looks(base: Style, selected: bool, error: bool, warning: bool) -> Style {
    Style {
        fg: if error {
            Some(Color::Red)
        } else if warning {
            Some(Color::Yellow)
        } else {
            base.fg
        },
        bg: base.bg,
        bold: base.bold,
        italic: base.italic,
        underlined: base.underlined || error || warning,
        reversed: base.reversed || selected,
    }
}

/// The window over a line shows its characters from the first column on, as many
/// as fit, each as it looks there.
pub proof fn law_window_shows_columns_in_order(spans: Seq<SpanView>, start: int, width: int, k: int)
    requires
        0 <= start,
        0 <= width,
        0 <= k,
    ensures
        ({
            let all = screen::styled_chars(spans);
            let shown = screen::styled_chars(spans::window(spans, start, start + width));
            &&& k < shown.len() <==> k < width && start + k < all.len()
            &&& k < shown.len() ==> shown[k] == all[start + k]
        }),
{
    screen::law_window_shows_its_columns(spans, start, start + width);
}

/// Selecting columns reverses the characters in them and changes nothing else.
pub proof fn law_selection_reverses_its_columns(
    spans: Seq<SpanView>,
    col: int,
    selection: Option<Columns>,
    i: int,
)
    requires
        0 <= i < screen::styled_chars(spans).len(),
    ensures
        ({
            let before = screen::styled_chars(spans);
            let after = screen::styled_chars(spans::with_selection(spans, col, selection));
            let selected = selection matches Some(s) && s.from <= col + i < s.to;
            &&& after.len() == before.len()
            &&& after[i].0 == before[i].0
            &&& after[i].1 == looks(before[i].1, selected, false, false)
        }),
{
    if let Some(columns) = selection {
        screen::law_marks_keep_text(spans, col, Marking::Selection(columns));
    }
}

/// The characters in the columns of `severities` are flagged with the severity
/// that stands there; the others are left alone.
pub proof fn law_flags_mark_their_columns(
    spans: Seq<SpanView>,
    col: int,
    severities: Map<usize, Severity>,
    i: int,
)
    requires
        0 <= i < screen::styled_chars(spans).len(),
        0 <= col,
    ensures
        ({
            let before = screen::styled_chars(spans);
            let after = screen::styled_chars(spans::with_diagnostics(spans, col, severities));
            let flagged = col + i <= usize::MAX && severities.contains_key((col + i) as usize);
            let error = flagged && severities[(col + i) as usize] == Severity::Error;
            let warning = flagged && severities[(col + i) as usize] == Severity::Warning;
            &&& after.len() == before.len()
            &&& after[i].0 == before[i].0
            &&& after[i].1 == looks(before[i].1, false, error, warning)
        }),
{
    screen::law_marks_keep_text(spans, col, Marking::Diagnostics(severities));
}

/// Whether the diagnostic points at the character in column `col` of line `row`,
/// which has `len` characters: what points behind the line counts for its last
/// character.
pub open spec fn points_at(d: DiagnosticView, row: int, len: int, col: int) -> bool {
    d.line == row && (d.col == col || (d.col >= len && col == len - 1))
}

/// A column has a flag if and only if some diagnostic points at it, and that of
/// an error if and only if an error does. An empty line has none.
pub proof fn law_columns_have_the_strongest_flag(
    diagnostics: Seq<DiagnosticView>,
    row: int,
    len: int,
    col: usize,
)
    requires
        0 <= len <= usize::MAX,
        col < len,
        forall|i: int| 0 <= i < diagnostics.len() ==> 0 <= (#[trigger] diagnostics[i]).col,
    ensures
        ({
            let flags = spans::severities(check::on_line(diagnostics, row), len);
            &&& flags.contains_key(col) <==> exists|i: int|
                0 <= i < diagnostics.len() && points_at(
                    #[trigger] diagnostics[i],
                    row,
                    len,
                    col as int,
                )
            &&& (flags.contains_key(col) && flags[col] == Severity::Error) <==> exists|i: int|
                0 <= i < diagnostics.len() && points_at(
                    #[trigger] diagnostics[i],
                    row,
                    len,
                    col as int,
                ) && diagnostics[i].severity == Severity::Error
        }),
        spans::severities(check::on_line(diagnostics, row), 0) == Map::<usize, Severity>::empty(),
{
    let here = check::on_line(diagnostics, row);
    screen::law_flags_are_the_strongest(here, len, col);
    let flags = spans::severities(here, len);
    if flags.contains_key(col) {
        let i = choose|i: int|
            0 <= i < here.len() && spans::shown_col((#[trigger] here[i]).col, len) == col;
        lemma_found(diagnostics, row, len, col, i);
    }
    if flags.contains_key(col) && flags[col] == Severity::Error {
        let i = choose|i: int|
            0 <= i < here.len() && spans::shown_col((#[trigger] here[i]).col, len) == col
                && here[i].severity == Severity::Error;
        lemma_found(diagnostics, row, len, col, i);
    }
    assert forall|i: int|
        0 <= i < diagnostics.len() && points_at(
            #[trigger] diagnostics[i],
            row,
            len,
            col as int,
        ) implies exists|j: int|
        0 <= j < here.len() && spans::shown_col((#[trigger] here[j]).col, len) == col && here[j]
            == diagnostics[i] by {
        checks::law_line_has_its_diagnostics(diagnostics, row, diagnostics[i]);
        assert(diagnostics.contains(diagnostics[i]));
        let j = choose|j: int| 0 <= j < here.len() && here[j] == diagnostics[i];
        assert(spans::shown_col(here[j].col, len) == col);
    }
}

proof fn lemma_found(diagnostics: Seq<DiagnosticView>, row: int, len: int, col: usize, at: int)
    requires
        0 <= len <= usize::MAX,
        col < len,
        forall|i: int| 0 <= i < diagnostics.len() ==> 0 <= (#[trigger] diagnostics[i]).col,
        0 <= at < check::on_line(diagnostics, row).len(),
        spans::shown_col(check::on_line(diagnostics, row)[at].col, len) == col,
    ensures
        exists|i: int|
            0 <= i < diagnostics.len() && points_at(
                #[trigger] diagnostics[i],
                row,
                len,
                col as int,
            ) && diagnostics[i] == check::on_line(diagnostics, row)[at],
{
    let here = check::on_line(diagnostics, row);
    checks::law_line_has_its_diagnostics(diagnostics, row, here[at]);
    assert(here.contains(here[at]));
    let i = choose|i: int| 0 <= i < diagnostics.len() && diagnostics[i] == here[at];
    assert(0 <= diagnostics[i].col);
    assert(points_at(diagnostics[i], row, len, col as int));
}

proof fn lemma_flags_in_line(diagnostics: Seq<DiagnosticView>, row: int, len: int, col: usize)
    requires
        0 < len <= col,
        forall|i: int| 0 <= i < diagnostics.len() ==> 0 <= (#[trigger] diagnostics[i]).col,
    ensures
        !spans::severities(check::on_line(diagnostics, row), len).contains_key(col),
{
    let here = check::on_line(diagnostics, row);
    screen::law_flags_are_the_strongest(here, len, col);
    assert forall|i: int| 0 <= i < here.len() implies spans::shown_col(
        (#[trigger] here[i]).col,
        len,
    ) != col by {
        checks::law_line_has_its_diagnostics(diagnostics, row, here[i]);
        assert(here.contains(here[i]));
        let j = choose|j: int| 0 <= j < diagnostics.len() && diagnostics[j] == here[i];
        assert(0 <= diagnostics[j].col);
    }
}

// ---- rows ----

/// What stands behind the gutter of a row: the `k`-th character there is the one
/// in column `col_scroll + k` of the line, whatever the horizontal scroll. It is
/// flagged if and only if a diagnostic of the line points at that column, and is
/// reversed if and only if it is selected. Else it looks as the highlighter has
/// it. There are as many as there are columns and characters. Spans that do not
/// make up the line are shown all the same, with no flags behind its end.
pub proof fn law_row_shows_its_line_column_by_column(
    v: EditorView,
    row: int,
    highlighted: Seq<SpanView>,
    selection: Option<Columns>,
    width: int,
    k: int,
)
    requires
        0 <= row < v.buf.lines.len(),
        0 <= v.col_scroll,
        0 <= width,
        0 <= k,
        v.buf.lines[row].len() <= usize::MAX,
        forall|i: int| 0 <= i < v.diagnostics.len() ==> 0 <= (#[trigger] v.diagnostics[i]).col,
    ensures
        ({
            let line = v.buf.lines[row];
            let all = screen::styled_chars(highlighted);
            let shown_row = ui::shown_row(v, row, highlighted, selection, width);
            let shown = screen::styled_chars(shown_row);
            let gutter = shown_row[0].text.len();
            let col = v.col_scroll + k;
            let selected = selection matches Some(s) && s.from <= col < s.to;
            let error = col < line.len() && exists|i: int|
                0 <= i < v.diagnostics.len() && points_at(
                    #[trigger] v.diagnostics[i],
                    row,
                    line.len() as int,
                    col,
                ) && v.diagnostics[i].severity == Severity::Error;
            let pointed = col < line.len() && exists|i: int|
                0 <= i < v.diagnostics.len() && points_at(
                    #[trigger] v.diagnostics[i],
                    row,
                    line.len() as int,
                    col,
                );
            &&& shown_row.len() > 0
            &&& gutter + k < shown.len() <==> k < width && col < all.len()
            &&& gutter + k < shown.len() ==> shown[gutter + k].0 == all[col].0
            &&& gutter + k < shown.len() && style::plain_text(highlighted).is_prefix_of(line)
                ==> shown[gutter + k].0 == line[col]
            &&& gutter + k < shown.len() ==> shown[gutter + k].1 == looks(
                all[col].1,
                selected,
                error,
                pointed && !error,
            )
        }),
{
    let line = v.buf.lines[row];
    let first = v.col_scroll;
    let all = screen::styled_chars(highlighted);
    let visible = spans::window(highlighted, first, first + width);
    let selected = spans::with_selection(visible, first, selection);
    let flags = spans::severities(check::on_line(v.diagnostics, row), line.len() as int);
    let flagged = spans::with_diagnostics(selected, first, flags);
    let label = seq![ui::gutter(v, row)];
    let shown = screen::styled_chars(ui::shown_row(v, row, highlighted, selection, width));
    let col = first + k;
    law_window_shows_columns_in_order(highlighted, first, width, k);
    screen::law_styled_chars_are_the_text(highlighted);
    screen::lemma_styled_concat(label, flagged);
    assert(label.drop_last() =~= Seq::<SpanView>::empty());
    assert(screen::styled_chars(label.drop_last()) == Seq::<(char, Style)>::empty());
    assert(screen::styled_chars(label) =~= screen::in_style(
        ui::gutter(v, row).text,
        ui::gutter(v, row).style,
    ));
    assert(shown == screen::styled_chars(label) + screen::styled_chars(flagged));
    if let Some(columns) = selection {
        screen::law_marks_keep_text(visible, first, Marking::Selection(columns));
    }
    screen::law_marks_keep_text(selected, first, Marking::Diagnostics(flags));
    assert(screen::styled_chars(flagged).len() == screen::styled_chars(visible).len());
    if k < width && col < all.len() {
        law_selection_reverses_its_columns(visible, first, selection, k);
        law_flags_mark_their_columns(selected, first, flags, k);
        if col < line.len() {
            law_columns_have_the_strongest_flag(
                v.diagnostics,
                row,
                line.len() as int,
                col as usize,
            );
        } else if line.len() > 0 && col <= usize::MAX {
            screen::law_flags_are_the_strongest(
                check::on_line(v.diagnostics, row),
                line.len() as int,
                col as usize,
            );
            lemma_flags_in_line(v.diagnostics, row, line.len() as int, col as usize);
        }
        assert(all[col].0 == style::plain_text(highlighted)[col]);
    }
}

proof fn lemma_decimal_len_grows(a: nat, b: nat)
    requires
        a <= b,
    ensures
        0 < text::decimal(a).len() <= text::decimal(b).len(),
    decreases b,
{
    if a >= 10 {
        lemma_decimal_len_grows(a / 10, b / 10);
    } else if b >= 10 {
        lemma_decimal_len_grows(b / 10, b / 10);
    }
}

/// The gutter of a row holds the number of the line, which counts from one,
/// moved to the right, and one space. All gutters are as wide as the number of
/// lines needs, but at least four columns. The number is red if the line has an
/// error, yellow if it has only warnings, and else dark gray.
pub proof fn law_gutter_holds_the_line_number(
    v: EditorView,
    row: int,
    highlighted: Seq<SpanView>,
    selection: Option<Columns>,
    width: int,
)
    requires
        0 <= row < v.buf.lines.len(),
    ensures
        ({
            let gutter = ui::shown_row(v, row, highlighted, selection, width)[0];
            let number = text::decimal((row + 1) as nat);
            let digits = text::decimal(v.buf.lines.len()).len() as int;
            let len = gutter.text.len();
            let error = exists|i: int|
                0 <= i < v.diagnostics.len() && (#[trigger] v.diagnostics[i]).line == row
                    && v.diagnostics[i].severity == Severity::Error;
            let flagged = exists|i: int|
                0 <= i < v.diagnostics.len() && (#[trigger] v.diagnostics[i]).line == row;
            &&& len == (if digits < 3 {
                4
            } else {
                digits + 1
            })
            &&& gutter.text[len - 1] == ' '
            &&& gutter.text.subrange(len - 1 - number.len(), len - 1) == number
            &&& forall|i: int| 0 <= i < len - 1 - number.len() ==> #[trigger] gutter.text[i] == ' '
            &&& gutter.style == (Style {
                fg: Some(
                    if error {
                        Color::Red
                    } else if flagged {
                        Color::Yellow
                    } else {
                        Color::DarkGray
                    },
                ),
                bg: None,
                bold: false,
                italic: false,
                underlined: false,
                reversed: false,
            })
        }),
{
    let gutter = ui::gutter(v, row);
    let number = text::decimal((row + 1) as nat);
    let len = gutter.text.len();
    lemma_decimal_len_grows((row + 1) as nat, v.buf.lines.len());
    assert(gutter.text.subrange(len - 1 - number.len(), len - 1) =~= number);
    let here = check::on_line(v.diagnostics, row);
    lemma_strongest(here);
    assert forall|i: int|
        0 <= i < v.diagnostics.len() && (#[trigger] v.diagnostics[i]).line == row implies exists|
        j: int,
    | 0 <= j < here.len() && #[trigger] here[j] == v.diagnostics[i] by {
        checks::law_line_has_its_diagnostics(v.diagnostics, row, v.diagnostics[i]);
        assert(v.diagnostics.contains(v.diagnostics[i]));
    }
    assert forall|j: int| 0 <= j < here.len() implies exists|i: int|
        0 <= i < v.diagnostics.len() && (#[trigger] v.diagnostics[i]).line == row
            && v.diagnostics[i] == #[trigger] here[j] by {
        checks::law_line_has_its_diagnostics(v.diagnostics, row, here[j]);
        assert(here.contains(here[j]));
        let i = choose|i: int| 0 <= i < v.diagnostics.len() && v.diagnostics[i] == here[j];
        assert(v.diagnostics[i].line == row);
    }
}

proof fn lemma_strongest(here: Seq<DiagnosticView>)
    ensures
        ui::strongest(here) is Some <==> here.len() > 0,
        ui::strongest(here) == Some(Severity::Error) <==> exists|j: int|
            0 <= j < here.len() && (#[trigger] here[j]).severity == Severity::Error,
    decreases here.len(),
{
    if here.len() > 0 {
        let earlier = here.drop_last();
        lemma_strongest(earlier);
        assert(forall|j: int| 0 <= j < earlier.len() ==> #[trigger] earlier[j] == here[j]);
        assert(here[here.len() - 1] == here.last());
        if exists|j: int| 0 <= j < here.len() && (#[trigger] here[j]).severity == Severity::Error {
            let j = choose|j: int|
                0 <= j < here.len() && (#[trigger] here[j]).severity == Severity::Error;
            if j < earlier.len() {
                assert(earlier[j].severity == Severity::Error);
            }
        }
        if exists|j: int|
            0 <= j < earlier.len() && (#[trigger] earlier[j]).severity == Severity::Error {
            let j = choose|j: int|
                0 <= j < earlier.len() && (#[trigger] earlier[j]).severity == Severity::Error;
            assert(here[j].severity == Severity::Error);
        }
    }
}

/// Without lines the rows stay empty; each other row of the text area shows the
/// line that is as far behind the first visible one, and uses all columns beside
/// the gutter.
pub proof fn law_screen_shows_the_lines_in_order(area: Area, v: EditorView, h: &Highlighter, i: int)
    requires
        0 <= v.scroll,
        area.y + area.height <= u16::MAX,
        0 <= i < ui::shown_screen(area, v, h).rows.len(),
    ensures
        ({
            let shown = ui::shown_screen(area, v, h);
            let digits = text::decimal(v.buf.lines.len()).len() as int;
            let gutter: int = if digits < 3 {
                4
            } else {
                digits + 1
            };
            let row = v.scroll + i;
            &&& shown.rows.len() == shown.text_area.height
            &&& row >= v.buf.lines.len() ==> shown.rows[i].len() == 0
            &&& row < v.buf.lines.len() ==> shown.rows[i] == ui::shown_row(
                v,
                row,
                h.row(v.buf.lines, row),
                None,
                if gutter <= area.width {
                    area.width - gutter
                } else {
                    0
                },
            )
        }),
{
}

/// The screen is the text area and, if there are two rows or more, the status
/// line in the last row.
pub proof fn law_screen_is_split(area: Area, v: EditorView, h: &Highlighter)
    requires
        area.y + area.height <= u16::MAX,
    ensures
        ({
            let shown = ui::shown_screen(area, v, h);
            let below: int = if area.height >= 2 {
                1
            } else {
                0
            };
            &&& shown.text_area.x == area.x && shown.text_area.width == area.width
            &&& shown.status_area.x == area.x && shown.status_area.width == area.width
            &&& shown.text_area.y == area.y
            &&& shown.text_area.height == area.height - below
            &&& shown.status_area.y == area.y + area.height - below
            &&& shown.status_area.height == below
        }),
{
}

/// Before it is drawn the editor is scrolled to its cursor over the rows of the
/// text area and the columns beside the gutter.
pub proof fn law_screen_is_scrolled_to_the_cursor(area: Area, v: EditorView)
    ensures
        ({
            let digits = text::decimal(v.buf.lines.len()).len() as int;
            let gutter: int = if digits < 3 {
                4
            } else {
                digits + 1
            };
            ui::scrolled_into(area, v) == v.ensure_visible(
                if gutter <= area.width {
                    area.width - gutter
                } else {
                    0
                },
                area.height as int,
            )
        }),
{
}

// ---- the status line and the cursor ----

/// What the status line says: the file, a mark if it is unsaved, the cursor's
/// line and column, which count from one, and how many characters and lines
/// there are. The message follows, at the right edge if there is room for it and
/// a space before it; else it is cut off there.
pub proof fn law_status_line_says_where_and_what(v: EditorView, width: int)
    requires
        0 <= width,
    ensures
        ({
            let left = " "@ + v.file_path + (if v.modified {
                " [+]"@
            } else {
                ""@
            }) + "  Ln "@ + text::decimal((v.buf.row + 1) as nat) + ", Col "@ + text::decimal(
                (v.buf.col + 1) as nat,
            ) + "  "@ + text::decimal(model::total_chars(v.buf.lines)) + " chars, "@
                + text::decimal(v.buf.lines.len()) + " lines"@;
            let line = ui::status_text(v, width);
            let fits = left.len() + 1 + v.status.len() <= width;
            &&& line.len() == width
            &&& fits ==> line.take(left.len() as int) == left
            &&& fits ==> line.skip(width - v.status.len()) == v.status
            &&& fits ==> forall|i: int|
                left.len() <= i < width - v.status.len() ==> #[trigger] line[i] == ' '
            &&& !fits ==> line == (left.push(' ') + v.status).push(' ').take(width)
        }),
{
    let left = ui::status_left(v);
    let line = ui::status_text(v, width);
    screen::law_status_fills_its_line(v, width);
    if left.len() + 1 + v.status.len() <= width {
        let gap = (width - left.len() - v.status.len()) as nat;
        let whole = (left + text::repeated(' ', gap) + v.status).push(' ');
        assert forall|i: int| left.len() <= i < width - v.status.len() implies #[trigger] line[i]
            == ' ' by {
            assert(line[i] == whole[i]);
        }
    } else {
        assert(text::repeated(' ', 1) =~= seq![' ']);
        assert((left + seq![' '] + v.status).push(' ') =~= (left.push(' ') + v.status).push(' '));
    }
}

/// The screen shows the status line over its whole width, bold white on red for
/// errors, and black on blue else.
pub proof fn law_screen_shows_the_status_line(area: Area, v: EditorView, h: &Highlighter)
    ensures
        ui::shown_screen(area, v, h).status.text == ui::status_text(v, area.width as int),
        ui::shown_screen(area, v, h).status.style == (if v.status_is_error {
            Style {
                fg: Some(Color::White),
                bg: Some(Color::Rgb(0x8b, 0x2f, 0x2f)),
                bold: true,
                italic: false,
                underlined: false,
                reversed: false,
            }
        } else {
            Style {
                fg: Some(Color::Black),
                bg: Some(Color::Rgb(0x7a, 0xa2, 0xf7)),
                bold: false,
                italic: false,
                underlined: false,
                reversed: false,
            }
        }),
{
}

/// The cursor is shown in the row of its line and, behind the gutter, in the
/// column of its character, if that cell lies in the text area, and else not at
/// all.
pub proof fn law_cursor_is_shown_where_it_is(area: Area, v: EditorView)
    requires
        0 <= v.scroll <= v.buf.row < v.scroll + 65536,
        0 <= v.col_scroll <= v.buf.col,
        text::decimal(v.buf.lines.len()).len() + 1 + v.buf.col - v.col_scroll < 65532,
        area.x + area.width <= u16::MAX,
        area.y + area.height <= u16::MAX,
    ensures
        ({
            let digits = text::decimal(v.buf.lines.len()).len() as int;
            let gutter: int = if digits < 3 {
                4
            } else {
                digits + 1
            };
            let x = area.x + gutter + v.buf.col - v.col_scroll;
            let y = area.y + v.buf.row - v.scroll;
            ui::cursor_cell(area, v) == (if x < area.x + area.width && y < area.y + area.height {
                Some((x as u16, y as u16))
            } else {
                None
            })
        }),
{
}

/// A cursor above or left of the window is not shown.
pub proof fn law_cursor_outside_the_window_is_not_shown(area: Area, v: EditorView)
    requires
        v.buf.row < v.scroll || v.buf.col < v.col_scroll,
    ensures
        ui::cursor_cell(area, v) is None,
{
}

/// The cursor on the screen is that of the text area.
pub proof fn law_screen_shows_the_cursor(area: Area, v: EditorView, h: &Highlighter)
    ensures
        ui::shown_screen(area, v, h).cursor == ui::cursor_cell(
            ui::shown_screen(area, v, h).text_area,
            v,
        ),
{
}

// ---- highlighting ----

/// Whether `text` has `k` characters and newlines behind them only.
pub open spec fn ends_at(text: Seq<char>, k: int) -> bool {
    &&& 0 <= k <= text.len()
    &&& k > 0 ==> text[k - 1] != '\n'
    &&& forall|i: int| k <= i < text.len() ==> #[trigger] text[i] == '\n'
}

proof fn lemma_newlines_off(s: Seq<char>, k: int)
    requires
        ends_at(s, k),
    ensures
        syntax::without_newlines(s) == s.take(k),
    decreases s.len(),
{
    if s.len() > 0 && s.last() == '\n' {
        assert(k < s.len()) by {
            if k == s.len() {
                assert(s[k - 1] == s.last());
            }
        }
        assert(ends_at(s.drop_last(), k));
        lemma_newlines_off(s.drop_last(), k);
        assert(s.drop_last().take(k) =~= s.take(k));
    } else {
        if k < s.len() {
            assert(s[s.len() - 1] == '\n');
        }
        assert(s.take(k) =~= s);
    }
}

/// The tokens of a line become spans one by one, in order.
pub proof fn law_tokens_become_spans_in_order(a: Seq<TokenView>, b: Seq<TokenView>)
    ensures
        syntax::spans_of(a + b) == syntax::spans_of(a) + syntax::spans_of(b),
    decreases b.len(),
{
    if b.len() == 0 {
        assert(a + b =~= a);
        assert(syntax::spans_of(b) =~= Seq::<SpanView>::empty());
    } else {
        assert((a + b).drop_last() =~= a + b.drop_last());
        law_tokens_become_spans_in_order(a, b.drop_last());
        assert(syntax::spans_of(a + b) =~= syntax::spans_of(a) + syntax::spans_of(b));
    }
}

/// A token becomes a span in its color and font style that holds its text up to
/// the newlines at its end, or none if there is no such text.
pub proof fn law_token_becomes_a_span(t: TokenView, k: int)
    requires
        ends_at(t.text, k),
    ensures
        k == 0 ==> syntax::spans_of(seq![t]).len() == 0,
        k > 0 ==> syntax::spans_of(seq![t]) == seq![
            SpanView {
                style: Style {
                    fg: Some(Color::Rgb(t.red, t.green, t.blue)),
                    bg: None,
                    bold: t.bold,
                    italic: t.italic,
                    underlined: t.underline,
                    reversed: false,
                },
                text: t.text.take(k),
            },
        ],
{
    lemma_newlines_off(t.text, k);
    let one = seq![t];
    assert(one.drop_last() =~= Seq::<TokenView>::empty());
    assert(syntax::spans_of(one.drop_last()) =~= Seq::<SpanView>::empty());
    assert(one.last() == t);
}

/// Lines are handed to the engine one after the other from the first on, each
/// with a newline behind it, and a line's row holds the spans of its tokens. A
/// line that cannot be parsed has none.
pub proof fn law_lines_are_highlighted_from_the_start(
    h: &Highlighter,
    lines: Seq<Seq<char>>,
    upto: nat,
    i: nat,
)
    requires
        i < lines.len(),
    ensures
        ({
            let next = syntax::highlight_next(
                h.state_before(lines, i),
                lines[i as int].push('\n'),
                h.syntax_set,
            );
            &&& h.state_before(lines, 0) == syntax::highlight_start(h.syntax, h.theme)
            &&& h.state_before(lines, i + 1) == next.0
            &&& i < upto ==> i < h.rows(lines, upto).len()
            &&& i < upto ==> (match next.1 {
                Some(tokens) => h.rows(lines, upto)[i as int] == syntax::spans_of(tokens),
                None => h.rows(lines, upto)[i as int].len() == 0,
            })
        }),
{
}

/// The theme is the dark ocean one if there is such a theme, else the first. The
/// syntax is that of `.cs` files, else the one named C#, else plain text.
pub proof fn law_first_choices_come_first(syntaxes: SyntaxSet, themes: ThemeSet)
    ensures
        ({
            let dark = syntax::theme_named(themes, "base16-ocean.dark"@);
            let theme = if dark is Some {
                dark
            } else {
                syntax::first_theme(themes)
            };
            let by_extension = syntax::syntax_by_extension(syntaxes, "cs"@);
            let by_name = syntax::syntax_by_name(syntaxes, "C#"@);
            let found = if by_extension is Some {
                by_extension
            } else if by_name is Some {
                by_name
            } else {
                syntax::syntax_by_name(syntaxes, "Plain Text"@)
            };
            let chosen = Highlighter::chosen(syntaxes, themes);
            &&& chosen is Some <==> theme is Some && found is Some
            &&& chosen matches Some(h) ==> h.syntax_set == syntaxes && Some(h.theme) == theme
                && Some(h.syntax) == found
        }),
{
}

} // verus!
