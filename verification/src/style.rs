//! Styled text: what is drawn on the screen, and how it looks.

use vstd::prelude::*;

verus! {

/// A color of the terminal.
#[derive(Clone, Copy, PartialEq, Eq, Debug)]
pub enum Color {
    Black,
    Red,
    Yellow,
    DarkGray,
    White,
    Rgb(u8, u8, u8),
}

/// How a piece of text looks. A color that is not set is the terminal's own.
#[derive(Clone, Copy, PartialEq, Eq, Debug)]
pub struct Style {
    pub fg: Option<Color>,
    pub bg: Option<Color>,
    pub bold: bool,
    pub italic: bool,
    pub underlined: bool,
    pub reversed: bool,
}

impl Style {
    /// The terminal's own look in the color `fg`.
    pub open spec fn colored(fg: Color) -> Style {
        Style {
            fg: Some(fg),
            bg: None,
            bold: false,
            italic: false,
            underlined: false,
            reversed: false,
        }
    }

    /// The terminal's own look in the color `fg`.
    pub fn in_color(fg: Color) -> (result: Style)
        ensures
            result == Style::colored(fg),
    {
        Style {
            fg: Some(fg),
            bg: None,
            bold: false,
            italic: false,
            underlined: false,
            reversed: false,
        }
    }
}

/// A piece of text in one style.
#[derive(PartialEq, Eq, Debug)]
pub struct Span {
    pub style: Style,
    pub text: String,
}

/// What a [`Span`] shows.
#[verifier::ext_equal]
pub struct SpanView {
    pub style: Style,
    pub text: Seq<char>,
}

impl View for Span {
    type V = SpanView;

    open spec fn view(&self) -> SpanView {
        SpanView { style: self.style, text: self.text@ }
    }
}

/// What a list of spans shows.
pub open spec fn span_views(spans: Seq<Span>) -> Seq<SpanView> {
    Seq::new(spans.len(), |i: int| spans[i]@)
}

/// The text of a list of spans, without its styles.
pub open spec fn plain_text(spans: Seq<SpanView>) -> Seq<char>
    decreases spans.len(),
{
    if spans.len() == 0 {
        seq![]
    } else {
        plain_text(spans.drop_last()) + spans.last().text
    }
}

} // verus!
