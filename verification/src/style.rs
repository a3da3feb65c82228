//! Text with its look: the styled pieces that the application paints.

use vstd::prelude::*;

verus! {

/// A terminal colour.
#[derive(Clone, Copy, PartialEq, Eq, Structural, Debug)]
pub enum Color {
    Black,
    Blue,
    Cyan,
    DarkGray,
    Gray,
    Green,
    Magenta,
    Red,
    Yellow,
}

/// How a piece of text looks; `None` is the terminal's own colour.
#[derive(Clone, Copy, PartialEq, Eq, Structural, Debug)]
pub struct Style {
    pub fg: Option<Color>,
    pub bg: Option<Color>,
    pub bold: bool,
    pub underlined: bool,
    pub reversed: bool,
}

/// A piece of text in one style.
#[derive(Debug)]
pub struct Span {
    pub text: String,
    pub style: Style,
}

/// What a span shows.
pub struct SpanView {
    pub text: Seq<char>,
    pub style: Style,
}

impl View for Span {
    type V = SpanView;

    open spec fn view(&self) -> SpanView {
        SpanView { text: self.text@, style: self.style }
    }
}

/// The plain look.
pub open spec fn plain() -> Style {
    Style { fg: None, bg: None, bold: false, underlined: false, reversed: false }
}

/// The plain look in another colour.
pub open spec fn colored(c: Color) -> Style {
    Style { fg: Some(c), ..plain() }
}

/// The look of the row or chip that a cursor is on.
pub open spec fn cursor_look() -> Style {
    Style { fg: Some(Color::Black), bg: Some(Color::Cyan), bold: true, underlined: false, reversed: false }
}

impl Style {
    /// The plain look.
    pub fn plain() -> (r: Style)
        ensures
            r == plain(),
    {
        Style { fg: None, bg: None, bold: false, underlined: false, reversed: false }
    }

    /// The plain look in another colour.
    pub fn fg(c: Color) -> (r: Style)
        ensures
            r == colored(c),
    {
        Style { fg: Some(c), bg: None, bold: false, underlined: false, reversed: false }
    }

    /// The same look with foreground and background exchanged.
    pub fn reversed(self) -> (r: Style)
        ensures
            r == (Style { reversed: true, ..self }),
    {
        Style { reversed: true, ..self }
    }
}

/// What a row of spans shows.
pub open spec fn spans(v: Seq<Span>) -> Seq<SpanView> {
    v.map_values(|s: Span| s@)
}

/// The text of a row of spans.
pub open spec fn spans_text(v: Seq<SpanView>) -> Seq<char>
    decreases v.len(),
{
    if v.len() == 0 {
        Seq::empty()
    } else {
        spans_text(v.drop_last()) + v.last().text
    }
}

} // verus!
