//! What is on the screen, and how it reads.

use crate::check;
use crate::check::{DiagnosticView, Severity};
use crate::model::EditorView;
use crate::spans;
use crate::spans::{Columns, Marking};
use crate::style;
use crate::style::{SpanView, Style};
use crate::syntax;
use crate::syntax::{Highlighter, TokenView};
use crate::text;
use crate::ui;
use crate::ui::Area;
use vstd::prelude::*;

verus! {

/// The characters of `spans`, each with its style.
pub open spec fn styled_chars(spans: Seq<SpanView>) -> Seq<(char, Style)>
    decreases spans.len(),
{
    if spans.len() == 0 {
        seq![]
    } else {
        styled_chars(spans.drop_last()) + in_style(spans.last().text, spans.last().style)
    }
}

/// The characters of `text`, all in one style.
pub open spec fn in_style(text: Seq<char>, style: Style) -> Seq<(char, Style)> {
    Seq::new(text.len(), |i: int| (text[i], style))
}

/// The styled characters of some spans are the characters of their text.
pub proof fn law_styled_chars_are_the_text(spans: Seq<SpanView>)
    ensures
        styled_chars(spans).len() == style::plain_text(spans).len(),
        forall|i: int|
            0 <= i < styled_chars(spans).len() ==> (#[trigger] styled_chars(spans)[i]).0
                == style::plain_text(spans)[i],
    decreases spans.len(),
{
    if spans.len() > 0 {
        law_styled_chars_are_the_text(spans.drop_last());
    }
}

/// The visible window of a line shows the characters in its columns, each in
/// its own style, and no others.
pub proof fn law_window_shows_its_columns(spans: Seq<SpanView>, start: int, end: int)
    requires
        0 <= start <= end,
    ensures
        styled_chars(spans::window(spans, start, end)) == text::cut(styled_chars(spans), start, end),
    decreases spans.len(),
{
    if spans.len() > 0 {
        let earlier = spans.drop_last();
        let span = spans.last();
        let at = style::plain_text(earlier).len() as int;
        law_window_shows_its_columns(earlier, start, end);
        law_styled_chars_are_the_text(earlier);
        let from = if start > at {
            start - at
        } else {
            0
        };
        let to = if end < at + span.text.len() {
            end - at
        } else {
            span.text.len() as int
        };
        let all = styled_chars(spans);
        let shown = spans::window(earlier, start, end);
        if from < to {
            let part = SpanView { style: span.style, text: span.text.subrange(from, to) };
            assert(shown.push(part).drop_last() == shown);
            assert(styled_chars(spans::window(spans, start, end)) == text::cut(
                styled_chars(earlier),
                start,
                end,
            ) + in_style(part.text, part.style));
            assert(text::cut(all, start, end) == text::cut(styled_chars(earlier), start, end) + in_style(
                part.text,
                part.style,
            ));
        } else {
            assert(text::cut(all, start, end) == text::cut(styled_chars(earlier), start, end));
        }
    } else {
        assert(text::cut(styled_chars(spans), start, end) == styled_chars(spans));
    }
}

/// The text `s` from column `col` on, each character in the look of its mark.
pub open spec fn in_marked_style(s: Seq<char>, style: Style, col: int, marking: Marking) -> Seq<
    (char, Style),
> {
    Seq::new(s.len(), |i: int| (s[i], marking.mark(col + i).on(style)))
}

proof fn lemma_runs_styled(s: Seq<char>, style: Style, col: int, marking: Marking)
    ensures
        styled_chars(spans::styled_runs(spans::runs(s, col, marking), style)) == in_marked_style(
            s,
            style,
            col,
            marking,
        ),
    decreases s.len(),
{
    let all = spans::runs(s, col, marking);
    let shown = spans::styled_runs(all, style);
    if s.len() == 0 {
        assert(styled_chars(shown) == in_marked_style(s, style, col, marking));
    } else {
        let earlier = spans::runs(s.drop_last(), col, marking);
        let mark = marking.mark(col + s.len() - 1);
        let before = spans::styled_runs(earlier, style);
        lemma_runs_styled(s.drop_last(), style, col, marking);
        assert(in_marked_style(s, style, col, marking) == in_marked_style(
            s.drop_last(),
            style,
            col,
            marking,
        ).push((s.last(), mark.on(style))));
        if earlier.len() > 0 && earlier.last().0 == mark {
            let longer = earlier.last().1.push(s.last());
            assert(shown.drop_last() == before.drop_last());
            assert(shown.last() == SpanView { style: mark.on(style), text: longer });
            assert(in_style(longer, mark.on(style)) == in_style(
                earlier.last().1,
                mark.on(style),
            ).push((s.last(), mark.on(style))));
            assert(styled_chars(shown) == styled_chars(before).push((s.last(), mark.on(style))));
        } else {
            assert(shown.drop_last() == before);
            assert(in_style(seq![s.last()], mark.on(style)) == seq![(s.last(), mark.on(style))]);
            assert(styled_chars(shown) == styled_chars(before).push((s.last(), mark.on(style))));
        }
    }
}

pub proof fn lemma_styled_concat(a: Seq<SpanView>, b: Seq<SpanView>)
    ensures
        styled_chars(a + b) == styled_chars(a) + styled_chars(b),
    decreases b.len(),
{
    if b.len() == 0 {
        assert(a + b == a);
    } else {
        assert((a + b).drop_last() == a + b.drop_last());
        lemma_styled_concat(a, b.drop_last());
    }
}

/// Setting off the selection or the diagnostics keeps every character in its
/// place, and gives each the look of its own mark.
pub proof fn law_marks_keep_text(spans: Seq<SpanView>, col: int, marking: Marking)
    ensures
        styled_chars(spans::marked(spans, col, marking)) == Seq::new(
            styled_chars(spans).len(),
            |i: int|
                (
                    styled_chars(spans)[i].0,
                    marking.mark(col + i).on(styled_chars(spans)[i].1),
                ),
        ),
    decreases spans.len(),
{
    let chars = styled_chars(spans);
    if spans.len() > 0 {
        let earlier = spans.drop_last();
        let last = spans.last();
        let at = col + style::plain_text(earlier).len();
        law_marks_keep_text(earlier, col, marking);
        law_styled_chars_are_the_text(earlier);
        lemma_runs_styled(last.text, last.style, at, marking);
        lemma_styled_concat(
            spans::marked(earlier, col, marking),
            spans::styled_runs(spans::runs(last.text, at, marking), last.style),
        );
    }
    assert(styled_chars(spans::marked(spans, col, marking)) == Seq::new(
        chars.len(),
        |i: int| (chars[i].0, marking.mark(col + i).on(chars[i].1)),
    ));
}

proof fn lemma_same_text(a: Seq<SpanView>, b: Seq<SpanView>)
    requires
        styled_chars(a).len() == styled_chars(b).len(),
        forall|i: int|
            0 <= i < styled_chars(a).len() ==> (#[trigger] styled_chars(a)[i]).0 == styled_chars(
                b,
            )[i].0,
    ensures
        style::plain_text(a) == style::plain_text(b),
{
    law_styled_chars_are_the_text(a);
    law_styled_chars_are_the_text(b);
    assert forall|i: int| 0 <= i < style::plain_text(a).len() implies style::plain_text(a)[i]
        == style::plain_text(b)[i] by {
        assert(styled_chars(a)[i].0 == styled_chars(b)[i].0);
    }
    assert(style::plain_text(a) =~= style::plain_text(b));
}

proof fn lemma_plain_concat(a: Seq<SpanView>, b: Seq<SpanView>)
    ensures
        style::plain_text(a + b) == style::plain_text(a) + style::plain_text(b),
    decreases b.len(),
{
    if b.len() == 0 {
        assert(a + b == a);
    } else {
        assert((a + b).drop_last() == a + b.drop_last());
        lemma_plain_concat(a, b.drop_last());
    }
}

/// A row of the screen reads as the line's number and the characters of its
/// spans in the visible columns, whatever is selected or flagged in it.
pub proof fn law_row_reads_as_its_spans(
    v: EditorView,
    row: int,
    highlighted: Seq<SpanView>,
    selection: Option<Columns>,
    width: int,
)
    requires
        0 <= v.col_scroll,
        0 <= width,
    ensures
        style::plain_text(ui::shown_row(v, row, highlighted, selection, width)) == ui::gutter(
            v,
            row,
        ).text + text::cut(style::plain_text(highlighted), v.col_scroll, v.col_scroll + width),
{
    let first = v.col_scroll;
    let visible = spans::window(highlighted, first, first + width);
    let selected = spans::with_selection(visible, first, selection);
    let severities = spans::severities(
        check::on_line(v.diagnostics, row),
        v.buf.lines[row].len() as int,
    );
    let flagged = spans::with_diagnostics(selected, first, severities);
    law_window_shows_its_columns(highlighted, first, first + width);
    law_styled_chars_are_the_text(highlighted);
    law_styled_chars_are_the_text(visible);
    assert(style::plain_text(visible) =~= text::cut(
        style::plain_text(highlighted),
        first,
        first + width,
    )) by {
        assert forall|i: int| 0 <= i < style::plain_text(visible).len() implies style::plain_text(
            visible,
        )[i] == text::cut(style::plain_text(highlighted), first, first + width)[i] by {
            assert(styled_chars(visible)[i] == text::cut(
                styled_chars(highlighted),
                first,
                first + width,
            )[i]);
            assert(styled_chars(highlighted)[first + i].0 == style::plain_text(highlighted)[first
                + i]);
        }
    }
    if selected != visible {
        law_marks_keep_text(visible, first, Marking::Selection(selection->0));
        lemma_same_text(selected, visible);
    }
    if flagged != selected {
        law_marks_keep_text(selected, first, Marking::Diagnostics(severities));
        lemma_same_text(flagged, selected);
    }
    let label = seq![ui::gutter(v, row)];
    lemma_plain_concat(label, flagged);
    assert(label.drop_last() == Seq::<SpanView>::empty());
    assert(style::plain_text(label.drop_last()) == Seq::<char>::empty());
    assert(style::plain_text(label) == ui::gutter(v, row).text);
}

/// A row of the screen whose spans make up its line, as those from the
/// highlighter do, reads as the line's number and the characters of the line in
/// the visible columns.
pub proof fn law_row_reads_as_its_line(
    v: EditorView,
    row: int,
    highlighted: Seq<SpanView>,
    selection: Option<Columns>,
    width: int,
)
    requires
        0 <= v.col_scroll,
        0 <= width,
        style::plain_text(highlighted) == v.buf.lines[row],
    ensures
        style::plain_text(ui::shown_row(v, row, highlighted, selection, width)) == ui::gutter(
            v,
            row,
        ).text + text::cut(v.buf.lines[row], v.col_scroll, v.col_scroll + width),
{
    law_row_reads_as_its_spans(v, row, highlighted, selection, width);
}

/// A column is flagged if and only if some diagnostic of the line points at it,
/// and as an error if and only if one of those is an error.
pub proof fn law_flags_are_the_strongest(diagnostics: Seq<DiagnosticView>, len: int, col: usize)
    requires
        len > 0,
    ensures
        spans::severities(diagnostics, len).contains_key(col) <==> exists|i: int|
            0 <= i < diagnostics.len() && spans::shown_col((#[trigger] diagnostics[i]).col, len)
                == col,
        (spans::severities(diagnostics, len).contains_key(col) && spans::severities(
            diagnostics,
            len,
        )[col] == Severity::Error) <==> exists|i: int|
            0 <= i < diagnostics.len() && spans::shown_col((#[trigger] diagnostics[i]).col, len)
                == col && diagnostics[i].severity == Severity::Error,
    decreases diagnostics.len(),
{
    if diagnostics.len() > 0 {
        let earlier = diagnostics.drop_last();
        let last = diagnostics.last();
        let flags = spans::severities(diagnostics, len);
        law_flags_are_the_strongest(earlier, len, col);
        assert(forall|i: int| 0 <= i < earlier.len() ==> #[trigger] earlier[i] == diagnostics[i]);
        assert(diagnostics[diagnostics.len() - 1] == last);
        if flags.contains_key(col) && spans::shown_col(last.col, len) != col {
            let i = choose|i: int|
                0 <= i < earlier.len() && spans::shown_col((#[trigger] earlier[i]).col, len) == col;
            assert(spans::shown_col(diagnostics[i].col, len) == col);
        }
        if exists|i: int|
            0 <= i < diagnostics.len() && spans::shown_col((#[trigger] diagnostics[i]).col, len)
                == col {
            let i = choose|i: int|
                0 <= i < diagnostics.len() && spans::shown_col(
                    (#[trigger] diagnostics[i]).col,
                    len,
                ) == col;
            if i < earlier.len() {
                assert(spans::shown_col(earlier[i].col, len) == col);
            }
        }
        if exists|i: int|
            0 <= i < diagnostics.len() && spans::shown_col((#[trigger] diagnostics[i]).col, len)
                == col && diagnostics[i].severity == Severity::Error {
            let i = choose|i: int|
                0 <= i < diagnostics.len() && spans::shown_col(
                    (#[trigger] diagnostics[i]).col,
                    len,
                ) == col && diagnostics[i].severity == Severity::Error;
            if i < earlier.len() {
                assert(spans::shown_col(earlier[i].col, len) == col && earlier[i].severity
                    == Severity::Error);
            }
        }
        if flags.contains_key(col) && flags[col] == Severity::Error && !(spans::shown_col(
            last.col,
            len,
        ) == col && last.severity == Severity::Error) {
            let i = choose|i: int|
                0 <= i < earlier.len() && spans::shown_col((#[trigger] earlier[i]).col, len) == col
                    && earlier[i].severity == Severity::Error;
            assert(spans::shown_col(diagnostics[i].col, len) == col);
        }
    }
}

/// The status line fills its columns exactly. Where there is room for both
/// halves, the message stands at the right edge, apart from the left half.
pub proof fn law_status_fills_its_line(v: EditorView, width: int)
    requires
        0 <= width,
    ensures
        ui::status_text(v, width).len() == width,
        ui::status_left(v).len() + 1 + v.status.len() <= width ==> {
            let line = ui::status_text(v, width);
            let left = ui::status_left(v);
            &&& line.take(left.len() as int) == left
            &&& line[left.len() as int] == ' '
            &&& line.skip(width - v.status.len()) == v.status
        },
{
    let left = ui::status_left(v);
    let line = ui::status_text(v, width);
    if left.len() + 1 + v.status.len() <= width {
        let gap = (width - left.len() - v.status.len()) as nat;
        let whole = (left + text::repeated(' ', gap) + v.status).push(' ');
        assert(whole.take(width) == left + text::repeated(' ', gap) + v.status);
        assert(line.take(left.len() as int) == left);
        assert(line.skip(width - v.status.len()) == v.status);
    }
}

/// The text area and the status line fill the screen from top to bottom. The
/// text area comes first where there is a single row.
pub proof fn law_areas_fill_the_screen(area: Area)
    requires
        area.y + area.height <= u16::MAX,
    ensures
        ({
            let (upper, lower) = ui::stacked(area, 1, 1);
            &&& upper.height + lower.height == area.height
            &&& upper.y == area.y && lower.y == area.y + upper.height
            &&& upper.x == area.x && upper.width == area.width
            &&& lower.x == area.x && lower.width == area.width
            &&& lower.height == (if area.height >= 2 {
                1int
            } else {
                0
            })
        }),
{
}

/// The cursor is always on the screen as soon as there is room for a character:
/// the cell that it is placed in lies in the text area, behind the gutter, in
/// the row of its line.
pub proof fn law_cursor_is_on_the_screen(area: Area, v: EditorView)
    requires
        v.wf(),
        0 <= v.scroll,
        0 <= v.col_scroll,
        area.height > 0,
        ui::content_width(area, v.buf.lines.len()) > 0,
        area.x + area.width <= u16::MAX,
        area.y + area.height <= u16::MAX,
    ensures
        ({
            let shown = ui::scrolled_into(area, v);
            let gutter = ui::gutter_width(v.buf.lines.len());
            &&& shown.buf == v.buf
            &&& ui::cursor_cell(area, shown) matches Some((x, y))
            &&& x == area.x + gutter + v.buf.col - shown.col_scroll
            &&& y == area.y + v.buf.row - shown.scroll
            &&& area.x + gutter <= x < area.x + area.width
            &&& area.y <= y < area.y + area.height
        }),
{
}

/// Drawing an unchanged editor again shows the same screen: once it is scrolled
/// to its cursor it stays where it is.
pub proof fn law_drawing_again_changes_nothing(area: Area, v: EditorView, h: &Highlighter)
    ensures
        ({
            let text_area = ui::stacked(area, 1, 1).0;
            let shown = ui::scrolled_into(text_area, v);
            &&& ui::scrolled_into(text_area, shown) == shown
            &&& ui::shown_screen(area, ui::scrolled_into(text_area, shown), h)
                == ui::shown_screen(area, shown, h)
        }),
{
}

/// The row that the cursor is in shows the cursor's line.
pub proof fn law_cursor_row_shows_its_line(
    area: Area,
    v: EditorView,
    highlighted: Seq<Seq<SpanView>>,
)
    requires
        v.wf(),
        0 <= v.scroll <= v.buf.row < v.scroll + area.height,
    ensures
        ui::shown_rows(area, v, highlighted).len() == area.height,
        ui::shown_rows(area, v, highlighted)[v.buf.row - v.scroll] == ui::shown_row(
            v,
            v.buf.row,
            highlighted[v.buf.row],
            None,
            ui::content_width(area, v.buf.lines.len()),
        ),
{
}

/// Each line up to the given one gets a row, as far as there are lines, and
/// highlighting more lines does not change the rows before them.
pub proof fn law_highlighting_is_stable(
    h: &Highlighter,
    lines: Seq<Seq<char>>,
    fewer: nat,
    more: nat,
)
    requires
        fewer <= more,
    ensures
        h.rows(lines, fewer).len() == (if fewer <= lines.len() {
            fewer
        } else {
            lines.len()
        }),
        h.rows(lines, more).take(h.rows(lines, fewer).len() as int) == h.rows(lines, fewer),
{
    assert(h.rows(lines, more).take(h.rows(lines, fewer).len() as int) == h.rows(lines, fewer));
}

/// No span of a highlighted line is empty.
pub proof fn law_highlighted_spans_are_not_empty(
    h: &Highlighter,
    lines: Seq<Seq<char>>,
    row: int,
    at: int,
)
    requires
        0 <= at < h.row(lines, row).len(),
    ensures
        h.row(lines, row)[at].text.len() > 0,
{
    let parsed = syntax::highlight_next(
        h.state_before(lines, row as nat),
        lines[row].push('\n'),
        h.syntax_set,
    ).1;
    lemma_spans_not_empty(parsed->0, at);
}

proof fn lemma_spans_not_empty(tokens: Seq<TokenView>, at: int)
    requires
        0 <= at < syntax::spans_of(tokens).len(),
    ensures
        syntax::spans_of(tokens)[at].text.len() > 0,
    decreases tokens.len(),
{
    if tokens.len() > 0 && at < syntax::spans_of(tokens.drop_last()).len() {
        lemma_spans_not_empty(tokens.drop_last(), at);
    }
}

/// How a line looks depends on it and the lines before it alone.
pub proof fn law_highlighting_looks_back_only(
    h: &Highlighter,
    lines: Seq<Seq<char>>,
    other: Seq<Seq<char>>,
    i: int,
)
    requires
        0 <= i < lines.len(),
        i < other.len(),
        lines.take(i + 1) == other.take(i + 1),
    ensures
        h.row(lines, i) == h.row(other, i),
{
    lemma_same_state(h, lines, other, i);
    assert(lines[i] == lines.take(i + 1)[i]);
    assert(other[i] == other.take(i + 1)[i]);
}

proof fn lemma_same_state(
    h: &Highlighter,
    lines: Seq<Seq<char>>,
    other: Seq<Seq<char>>,
    i: int,
)
    requires
        0 <= i < lines.len(),
        i < other.len(),
        lines.take(i + 1) == other.take(i + 1),
    ensures
        h.state_before(lines, i as nat) == h.state_before(other, i as nat),
    decreases i,
{
    if i > 0 {
        assert(lines.take(i) == lines.take(i + 1).take(i));
        assert(other.take(i) == other.take(i + 1).take(i));
        assert(lines[i - 1] == lines.take(i + 1)[i - 1]);
        assert(other[i - 1] == other.take(i + 1)[i - 1]);
        lemma_same_state(h, lines, other, i - 1);
    }
}

} // verus!
