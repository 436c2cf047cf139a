//! Cutting and marking styled lines: the visible window, the selection, and
//! the characters that diagnostics point at.

use crate::check::{Diagnostic, DiagnosticView, Severity};
use crate::check;
use crate::style;
use crate::style::{Color, Span, SpanView, Style};
use crate::text;
use std::collections::HashMap;
use vstd::prelude::*;
use vstd::string::*;

verus! {

// ---- the visible window ----

/// The parts of `spans` that lie in the columns `start..end`, in their styles.
pub open spec fn window(spans: Seq<SpanView>, start: int, end: int) -> Seq<SpanView>
    decreases spans.len(),
{
    if spans.len() == 0 {
        seq![]
    } else {
        let earlier = window(spans.drop_last(), start, end);
        let span = spans.last();
        let at = style::plain_text(spans.drop_last()).len() as int;
        let from = if start > at {
            start - at
        } else {
            0
        };
        let to = if end < at + span.text.len() {
            end - at
        } else {
            span.text.len() as int
        };
        if from < to {
            earlier.push(SpanView { style: span.style, text: span.text.subrange(from, to) })
        } else {
            earlier
        }
    }
}

/// Nothing behind a window's end is in the window.
proof fn lemma_window_end(spans: Seq<SpanView>, start: int, end: int, k: int)
    requires
        0 <= k <= spans.len(),
        0 <= start <= end,
        style::plain_text(spans.take(k)).len() >= end,
    ensures
        window(spans, start, end) == window(spans.take(k), start, end),
    decreases spans.len() - k,
{
    if k < spans.len() {
        assert(spans.take(k + 1).drop_last() == spans.take(k));
        lemma_window_end(spans, start, end, k + 1);
    } else {
        assert(spans.take(k) == spans);
    }
}

/// Slices a highlighted line's spans to the visible window
/// [start, start+width) in character coordinates, preserving styles.
pub fn slice_spans(spans: &Vec<Span>, start: usize, width: usize) -> (result: Vec<Span>)
    ensures
        style::span_views(result@) == window(
            style::span_views(spans@),
            start as int,
            start + width,
        ),
{
    let ghost all = style::span_views(spans@);
    let end: u128 = start as u128 + width as u128;
    let mut result: Vec<Span> = Vec::new();
    let mut pos: u128 = 0;
    let mut i: usize = 0;
    proof {
        assert(all.take(0) == Seq::<SpanView>::empty());
        assert(style::span_views(result@) == Seq::<SpanView>::empty());
    }
    while i < spans.len() && pos < end
        invariant
            i <= spans@.len(),
            all == style::span_views(spans@),
            end == start + width,
            pos == style::plain_text(all.take(i as int)).len(),
            pos <= end + usize::MAX,
            style::span_views(result@) == window(all.take(i as int), start as int, end as int),
        decreases spans@.len() - i,
    {
        assert(all.take(i + 1).drop_last() == all.take(i as int));
        let text = spans[i].text.as_str();
        let len = text.unicode_len();
        let from: usize = if start as u128 > pos {
            if start as u128 - pos < len as u128 {
                (start as u128 - pos) as usize
            } else {
                len
            }
        } else {
            0
        };
        let to: usize = if end < pos + len as u128 {
            (end - pos) as usize
        } else {
            len
        };
        if from < to {
            let ghost before = style::span_views(result@);
            let span = Span { style: spans[i].style, text: text.substring_char(from, to).to_owned() };
            result.push(span);
            assert(style::span_views(result@) == before.push(span@));
        }
        pos += len as u128;
        i += 1;
    }
    proof {
        if i < spans@.len() {
            lemma_window_end(all, start as int, end as int, i as int);
        } else {
            assert(all.take(i as int) == all);
        }
    }
    result
}

// ---- marks on single characters ----

/// Columns `from..to` of a line.
#[derive(Clone, Copy, PartialEq, Eq, Debug)]
pub struct Columns {
    pub from: usize,
    pub to: usize,
}

/// What sets a character off from its neighbours.
#[derive(Clone, Copy, PartialEq, Eq, Structural, Debug)]
pub enum Mark {
    Plain,
    Selected,
    Flagged(Severity),
}

impl Mark {
    /// How text of the given style looks under this mark: reversed if it is
    /// selected; underlined, in red for errors and in yellow for warnings, if a
    /// diagnostic points at it.
    pub open spec fn on(self, style: Style) -> Style {
        match self {
            Mark::Plain => style,
            Mark::Selected => Style { reversed: true, ..style },
            Mark::Flagged(Severity::Error) => Style {
                fg: Some(Color::Red),
                underlined: true,
                ..style
            },
            Mark::Flagged(Severity::Warning) => Style {
                fg: Some(Color::Yellow),
                underlined: true,
                ..style
            },
        }
    }

    fn apply(self, style: Style) -> (result: Style)
        ensures
            result == self.on(style),
    {
        match self {
            Mark::Plain => style,
            Mark::Selected => Style { reversed: true, ..style },
            Mark::Flagged(Severity::Error) => Style {
                fg: Some(Color::Red),
                underlined: true,
                ..style
            },
            Mark::Flagged(Severity::Warning) => Style {
                fg: Some(Color::Yellow),
                underlined: true,
                ..style
            },
        }
    }
}

/// The severity that `severities` holds for column `col`.
pub open spec fn severity_at(severities: Map<usize, Severity>, col: int) -> Option<Severity> {
    if 0 <= col <= usize::MAX && severities.contains_key(col as usize) {
        Some(severities[col as usize])
    } else {
        None
    }
}

/// What decides about the mark of each column.
#[verifier::ext_equal]
pub enum Marking {
    Selection(Columns),
    Diagnostics(Map<usize, Severity>),
}

impl Marking {
    /// The mark of column `col`.
    pub open spec fn mark(self, col: int) -> Mark {
        match self {
            Marking::Selection(columns) => if columns.from <= col < columns.to {
                Mark::Selected
            } else {
                Mark::Plain
            },
            Marking::Diagnostics(severities) => match severity_at(severities, col) {
                Some(severity) => Mark::Flagged(severity),
                None => Mark::Plain,
            },
        }
    }
}

enum Marker<'a> {
    Selection(Columns),
    Diagnostics(&'a HashMap<usize, Severity>),
}

impl<'a> View for Marker<'a> {
    type V = Marking;

    closed spec fn view(&self) -> Marking {
        match self {
            Marker::Selection(columns) => Marking::Selection(*columns),
            Marker::Diagnostics(severities) => Marking::Diagnostics(severities@),
        }
    }
}

impl<'a> Marker<'a> {
    fn mark_of(&self, col: u128) -> (result: Mark)
        ensures
            result == self@.mark(col as int),
    {
        broadcast use vstd::std_specs::hash::group_hash_axioms;

        match self {
            Marker::Selection(columns) => {
                if columns.from as u128 <= col && col < columns.to as u128 {
                    Mark::Selected
                } else {
                    Mark::Plain
                }
            },
            Marker::Diagnostics(severities) => {
                if col > usize::MAX as u128 {
                    return Mark::Plain;
                }
                match severities.get(&(col as usize)) {
                    Some(severity) => Mark::Flagged(*severity),
                    None => Mark::Plain,
                }
            },
        }
    }
}

/// `text`, which starts at column `col`, cut into the longest runs under one
/// mark.
pub open spec fn runs(text: Seq<char>, col: int, marking: Marking) -> Seq<(Mark, Seq<char>)>
    decreases text.len(),
{
    if text.len() == 0 {
        seq![]
    } else {
        let earlier = runs(text.drop_last(), col, marking);
        let mark = marking.mark(col + text.len() - 1);
        if earlier.len() > 0 && earlier.last().0 == mark {
            earlier.drop_last().push((mark, earlier.last().1.push(text.last())))
        } else {
            earlier.push((mark, seq![text.last()]))
        }
    }
}

/// The contents of a list of runs.
pub open spec fn run_views(runs: Seq<(Mark, String)>) -> Seq<(Mark, Seq<char>)> {
    Seq::new(runs.len(), |i: int| (runs[i].0, runs[i].1@))
}

fn split_runs(text: &str, col: u128, marker: &Marker<'_>) -> (result: Vec<(Mark, String)>)
    requires
        col + usize::MAX <= u128::MAX,
    ensures
        run_views(result@) == runs(text@, col as int, marker@),
{
    let chars = text::chars_of(text);
    let mut result: Vec<(Mark, String)> = Vec::new();
    let mut i: usize = 0;
    proof {
        assert(text@.take(0) == Seq::<char>::empty());
        assert(run_views(result@) == Seq::<(Mark, Seq<char>)>::empty());
    }
    while i < chars.len()
        invariant
            i <= chars@.len(),
            chars@ == text@,
            col + usize::MAX <= u128::MAX,
            run_views(result@) == runs(text@.take(i as int), col as int, marker@),
        decreases chars@.len() - i,
    {
        let c = chars[i];
        let mark = marker.mark_of(col + i as u128);
        let ghost before = run_views(result@);
        assert(text@.take(i + 1).drop_last() == text@.take(i as int));
        match result.pop() {
            Some(last) => {
                let (last_mark, mut last_text) = last;
                if last_mark == mark {
                    last_text.push(c);
                    result.push((last_mark, last_text));
                    assert(run_views(result@) == before.drop_last().push(
                        (mark, before.last().1.push(c)),
                    ));
                } else {
                    result.push((last_mark, last_text));
                    let mut run = String::new();
                    run.push(c);
                    assert(run@ == seq![c]);
                    result.push((mark, run));
                    assert(run_views(result@) == before.push((mark, seq![c])));
                }
            },
            None => {
                let mut run = String::new();
                run.push(c);
                assert(run@ == seq![c]);
                result.push((mark, run));
                assert(run_views(result@) == before.push((mark, seq![c])));
            },
        }
        i += 1;
    }
    assert(text@.take(i as int) == text@);
    result
}

/// Runs of text under marks, on top of one style.
pub open spec fn styled_runs(runs: Seq<(Mark, Seq<char>)>, style: Style) -> Seq<SpanView> {
    Seq::new(runs.len(), |i: int| SpanView { style: runs[i].0.on(style), text: runs[i].1 })
}

/// `spans`, which start at column `col`, split wherever the mark changes, each
/// part in the look of its mark.
pub open spec fn marked(spans: Seq<SpanView>, col: int, marking: Marking) -> Seq<SpanView>
    decreases spans.len(),
{
    if spans.len() == 0 {
        seq![]
    } else {
        let at = col + style::plain_text(spans.drop_last()).len();
        marked(spans.drop_last(), col, marking) + styled_runs(
            runs(spans.last().text, at, marking),
            spans.last().style,
        )
    }
}

fn mark_spans(spans: &Vec<Span>, col: usize, marker: &Marker<'_>) -> (result: Vec<Span>)
    ensures
        style::span_views(result@) == marked(style::span_views(spans@), col as int, marker@),
{
    let ghost all = style::span_views(spans@);
    let mut result: Vec<Span> = Vec::new();
    let mut at: u128 = col as u128;
    let mut i: usize = 0;
    proof {
        assert(all.take(0) == Seq::<SpanView>::empty());
        assert(style::span_views(result@) == Seq::<SpanView>::empty());
    }
    while i < spans.len()
        invariant
            i <= spans@.len(),
            all == style::span_views(spans@),
            at == col + style::plain_text(all.take(i as int)).len(),
            at <= usize::MAX + i * usize::MAX,
            style::span_views(result@) == marked(all.take(i as int), col as int, marker@),
        decreases spans@.len() - i,
    {
        proof {
            assert(all.take(i + 1).drop_last() == all.take(i as int));
            assert(usize::MAX + i * usize::MAX + usize::MAX <= u128::MAX) by (nonlinear_arith)
                requires
                    i < usize::MAX,
            ;
            assert((i + 1) * usize::MAX == i * usize::MAX + usize::MAX) by (nonlinear_arith);
        }
        let len = spans[i].text.as_str().unicode_len();
        let style = spans[i].style;
        let parts = split_runs(spans[i].text.as_str(), at, marker);
        let ghost cut = run_views(parts@);
        let ghost before = style::span_views(result@);
        let mut j: usize = 0;
        assert(before + styled_runs(cut.take(0), style) == before);
        while j < parts.len()
            invariant
                j <= parts@.len(),
                cut == run_views(parts@),
                style::span_views(result@) == before + styled_runs(cut.take(j as int), style),
            decreases parts@.len() - j,
        {
            let span = Span { style: parts[j].0.apply(style), text: parts[j].1.clone() };
            let ghost shown = style::span_views(result@);
            result.push(span);
            proof {
                assert(style::span_views(result@) == shown.push(span@));
                assert(styled_runs(cut.take(j + 1), style) == styled_runs(
                    cut.take(j as int),
                    style,
                ).push(span@));
                assert(shown.push(span@) == before + styled_runs(cut.take(j + 1), style));
            }
            j += 1;
        }
        assert(cut.take(j as int) == cut);
        at += len as u128;
        i += 1;
    }
    assert(all.take(i as int) == all);
    result
}

/// `spans`, which start at column `col`, with the selected columns reversed.
pub open spec fn with_selection(spans: Seq<SpanView>, col: int, selection: Option<Columns>) -> Seq<
    SpanView,
> {
    match selection {
        Some(columns) => if columns.from < columns.to {
            marked(spans, col, Marking::Selection(columns))
        } else {
            spans
        },
        None => spans,
    }
}

/// Splits `spans` (already the visible-window slice starting at absolute
/// column `col_scroll`) wherever a selection boundary falls, reversing
/// video on the selected run so it reads as highlighted text.
pub fn apply_selection(spans: Vec<Span>, col_scroll: usize, selection: Option<Columns>) -> (result:
    Vec<Span>)
    ensures
        style::span_views(result@) == with_selection(
            style::span_views(spans@),
            col_scroll as int,
            selection,
        ),
{
    match selection {
        Some(columns) => {
            if columns.from < columns.to {
                mark_spans(&spans, col_scroll, &Marker::Selection(columns))
            } else {
                spans
            }
        },
        None => spans,
    }
}

/// Where a diagnostic is shown on a line of `len` characters: at its own
/// column, or at the last character if it points behind the line.
pub open spec fn shown_col(col: int, len: int) -> usize {
    if col < len {
        col as usize
    } else {
        (len - 1) as usize
    }
}

/// The columns of a line of `len` characters that diagnostics point at, each
/// with the severity of the most serious one.
pub open spec fn severities(diagnostics: Seq<DiagnosticView>, len: int) -> Map<usize, Severity>
    decreases diagnostics.len(),
{
    if len == 0 || diagnostics.len() == 0 {
        Map::empty()
    } else {
        let earlier = severities(diagnostics.drop_last(), len);
        let last = diagnostics.last();
        let col = shown_col(last.col, len);
        earlier.insert(
            col,
            if earlier.contains_key(col) {
                earlier[col].stronger(last.severity)
            } else {
                last.severity
            },
        )
    }
}

/// Maps each character column that has a diagnostic on this line to its
/// (strongest, if several land on the same column) severity. A compiler
/// diagnostic is a single point, not a range, so out-of-range columns
/// (e.g. "expected ;" at end of line) clamp to the last real character.
pub fn diagnostic_severity_map(diagnostics: &Vec<Diagnostic>, line_char_len: usize) -> (result:
    HashMap<usize, Severity>)
    ensures
        result@ == severities(check::diagnostic_views(diagnostics@), line_char_len as int),
{
    broadcast use vstd::std_specs::hash::group_hash_axioms;

    let ghost all = check::diagnostic_views(diagnostics@);
    let mut map: HashMap<usize, Severity> = HashMap::new();
    if line_char_len == 0 {
        return map;
    }
    let mut i: usize = 0;
    assert(all.take(0) == Seq::<DiagnosticView>::empty());
    while i < diagnostics.len()
        invariant
            i <= diagnostics@.len(),
            line_char_len > 0,
            all == check::diagnostic_views(diagnostics@),
            map@ == severities(all.take(i as int), line_char_len as int),
        decreases diagnostics@.len() - i,
    {
        assert(all.take(i + 1).drop_last() == all.take(i as int));
        let col: usize = if diagnostics[i].col < line_char_len {
            diagnostics[i].col
        } else {
            line_char_len - 1
        };
        let severity = match map.get(&col) {
            Some(earlier) => earlier.strongest(diagnostics[i].severity),
            None => diagnostics[i].severity,
        };
        map.insert(col, severity);
        i += 1;
    }
    assert(all.take(i as int) == all);
    map
}

/// `spans`, which start at column `col`, with the characters that diagnostics
/// point at set off.
pub open spec fn with_diagnostics(
    spans: Seq<SpanView>,
    col: int,
    severities: Map<usize, Severity>,
) -> Seq<SpanView> {
    if severities == Map::<usize, Severity>::empty() {
        spans
    } else {
        marked(spans, col, Marking::Diagnostics(severities))
    }
}

/// Underlines (in red for errors, yellow for warnings) the characters at
/// columns present in `severities`.
pub fn apply_diagnostics(
    spans: Vec<Span>,
    col_scroll: usize,
    severities: &HashMap<usize, Severity>,
) -> (result: Vec<Span>)
    ensures
        style::span_views(result@) == with_diagnostics(
            style::span_views(spans@),
            col_scroll as int,
            severities@,
        ),
{
    broadcast use vstd::std_specs::hash::group_hash_axioms;

    if severities.is_empty() {
        assert(severities@ =~= Map::empty());
        return spans;
    }
    mark_spans(&spans, col_scroll, &Marker::Diagnostics(severities))
}

} // verus!
