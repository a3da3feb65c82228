//! The panes that a frame is made of: where each stands and what it shows.

use std::sync::Arc;

use ratatui::layout::{Constraint, Layout};
use vstd::prelude::*;

use crate::geometry::Rect;
use crate::model::TraceDetail;
use crate::style;
use crate::style::{Span, SpanView, Style};
use crate::text;
use crate::waterfall;

verus! {

/// How much of a direction a part of a layout takes.
#[derive(Debug, Clone, Copy, PartialEq, Eq, Structural)]
pub enum Extent {
    Length(u16),
    Min(u16),
    Percentage(u16),
}

/// Whether the rectangle is a row of the area: as wide as the area, and between its first row and its
/// last.
pub open spec fn row_of(area: Rect, row: Rect) -> bool {
    &&& row.x == area.x
    &&& row.width == area.width
    &&& area.y <= row.y
    &&& row.y + row.height <= area.bottom_end()
}

/// Whether the rectangles are rows of the area.
pub open spec fn rows_of(area: Rect, v: Seq<Rect>) -> bool {
    forall|i: int| 0 <= i < v.len() ==> row_of(area, #[trigger] v[i])
}

/// Whether the rectangles follow one another from the first row of the area on.
pub open spec fn stacked(area: Rect, v: Seq<Rect>) -> bool {
    &&& v.len() > 0 ==> v[0].y == area.y
    &&& forall|i: int, j: int|
        0 <= i && j == i + 1 && j < v.len() ==> (#[trigger] v[i]).y + v[i].height == (#[trigger] v[j]).y
}

/// The rows that the extent asks for at least.
pub open spec fn rows_asked(extents: Seq<Extent>, i: int) -> int {
    if 0 <= i < extents.len() {
        match extents[i] {
            Extent::Length(k) => k as int,
            Extent::Min(k) => k as int,
            Extent::Percentage(_) => 0,
        }
    } else {
        0
    }
}

/// The rows that a minimum asks for.
pub open spec fn minimum_asked(extents: Seq<Extent>, i: int) -> int {
    if 0 <= i < extents.len() && extents[i] is Min { rows_asked(extents, i) } else { 0 }
}

/// The rows that up to four extents ask for.
pub open spec fn all_asked(extents: Seq<Extent>) -> int {
    rows_asked(extents, 0) + rows_asked(extents, 1) + rows_asked(extents, 2) + rows_asked(extents, 3)
}

/// The rows that the minima among up to four extents ask for.
pub open spec fn minima_asked(extents: Seq<Extent>) -> int {
    minimum_asked(extents, 0) + minimum_asked(extents, 1) + minimum_asked(extents, 2) + minimum_asked(extents, 3)
}

/// Whether the extents are lengths and minima, at least one of them a minimum.
pub open spec fn grows(extents: Seq<Extent>) -> bool {
    &&& forall|i: int| 0 <= i < extents.len() ==> match #[trigger] extents[i] {
        Extent::Length(_) => true,
        Extent::Min(k) => k <= i16::MAX,
        Extent::Percentage(_) => false,
    }
    &&& exists|i: int| 0 <= i < extents.len() && #[trigger] extents[i] is Min
}

/// Whether the rows take what the extents ask for: a length just that, and a minimum no less.
pub open spec fn take_all(extents: Seq<Extent>, v: Seq<Rect>) -> bool {
    forall|i: int| 0 <= i < v.len() ==> match extents[i] {
        Extent::Length(k) => (#[trigger] v[i]).height == k,
        Extent::Min(k) => v[i].height >= k,
        Extent::Percentage(_) => true,
    }
}

/// Whether the minima take just what they ask for, and the lengths no more.
pub open spec fn take_minima(extents: Seq<Extent>, v: Seq<Rect>) -> bool {
    forall|i: int| 0 <= i < v.len() ==> match extents[i] {
        Extent::Length(k) => (#[trigger] v[i]).height <= k,
        Extent::Min(k) => v[i].height == k,
        Extent::Percentage(_) => true,
    }
}

/// Whether the rows share out the height as the extents ask for. They follow one another. Where one of
/// them can grow, they fill the area: each has what it asks for where the height allows it, and where it
/// does not, the minima come before the lengths. Two parts of a hundred meet at the nearest row.
#[verifier::opaque]
pub open spec fn shared_out(area: Rect, extents: Seq<Extent>, v: Seq<Rect>) -> bool {
    &&& stacked(area, v)
    &&& grows(extents) ==> {
        &&& v.last().y + v.last().height == area.y + area.height
        &&& all_asked(extents) <= area.height ==> take_all(extents, v)
        &&& minima_asked(extents) <= area.height < all_asked(extents) ==> take_minima(extents, v)
    }
    &&& extents.len() == 2 ==> match (extents[0], extents[1]) {
        (Extent::Percentage(p), Extent::Percentage(q)) => p + q == 100 ==> {
            &&& v[0].height == (p * area.height + 50) / 100
            &&& v[1].y + v[1].height == area.y + area.height
        },
        _ => true,
    }
}

/// What a layout was asked for, and the rows that it gave.
#[derive(Debug)]
pub struct Split {
    pub area: Rect,
    pub extents: Vec<Extent>,
    pub rows: Vec<Rect>,
}

impl Split {
    /// Whether this is the area in rows that take the extents.
    pub open spec fn is(self, area: Rect, extents: Seq<Extent>) -> bool {
        &&& self.area == area
        &&& self.extents@ == extents
        &&& self.rows@.len() == extents.len()
        &&& rows_of(area, self.rows@)
        &&& area.fits() && extents.len() <= 4 ==> shared_out(area, extents, self.rows@)
    }
}

/// `Layout::split` of a vertical layout: the rows that the extents ask for, one for each, each as wide
/// as the area and within it. That an edge lies within the area is what the crate requires of its
/// solver above all else. Next comes that nothing lies before the first row or between two rows; both
/// sides of an edge are rounded alike. Below that stand the minima, then the lengths, then the shares of
/// a hundred, and last of all the wish of a minimum to take what is left. The solver weighs these
/// against one another, so the claims are made for up to four extents, where no number of lesser wishes
/// outweighs a greater one. The crate reads a minimum as an `i16`.
///
/// How lengths that cannot all be met share what is left is not stated: the crate's documentation calls
/// the outcome indeterminate.
#[verifier::external_body]
pub(crate) fn split_rows(area: Rect, extents: Vec<Extent>) -> (r: Split)
    ensures
        r.is(area, extents@),
{
    let to = |e: &Extent| match *e {
        Extent::Length(n) => Constraint::Length(n),
        Extent::Min(n) => Constraint::Min(n),
        Extent::Percentage(n) => Constraint::Percentage(n),
    };
    let whole = ratatui::layout::Rect { x: area.x, y: area.y, width: area.width, height: area.height };
    let parts = Layout::vertical(extents.iter().map(to)).split(whole);
    let rows = parts.iter().map(|p| Rect { x: p.x, y: p.y, width: p.width, height: p.height }).collect();
    Split { area, extents, rows }
}

/// Two extents.
pub fn two(a: Extent, b: Extent) -> (r: Vec<Extent>)
    ensures
        r@ == seq![a, b],
{
    let mut v: Vec<Extent> = Vec::new();
    v.push(a);
    v.push(b);
    assert(v@ =~= seq![a, b]);
    v
}

/// Three extents.
pub fn three(a: Extent, b: Extent, c: Extent) -> (r: Vec<Extent>)
    ensures
        r@ == seq![a, b, c],
{
    let mut v: Vec<Extent> = Vec::new();
    v.push(a);
    v.push(b);
    v.push(c);
    assert(v@ =~= seq![a, b, c]);
    v
}

/// Whether long lines go on in the next row.
#[derive(Debug, Clone, Copy, PartialEq, Eq, Structural)]
pub enum Wrap {
    /// They are cut.
    Cut,
    /// They go on, and leading blanks are kept.
    Keep,
    /// They go on, and leading blanks are dropped.
    Trim,
}

/// The line round a pane.
#[derive(Debug, Clone, Copy, PartialEq, Eq, Structural)]
pub enum Border {
    Bare,
    Boxed(Style),
}

/// What a pane shows.
#[derive(Debug)]
#[allow(inconsistent_fields)]
pub enum Body {
    /// Text, from row `scroll` on.
    Prose { text: String, wrap: Wrap, scroll: u16 },
    /// Styled lines, from column `offset` on.
    Lines { lines: Vec<Vec<Span>>, wrap: Wrap, offset: u16, centered: bool },
    /// Items, of which one may be selected, from item `first` on where the selection allows it.
    Items { items: Vec<Vec<Span>>, selected: Option<usize>, first: usize },
    /// A table with a row of column names.
    Table { header: Vec<String>, rows: Vec<Vec<Vec<Span>>>, columns: Vec<Extent>, selected: Option<usize> },
    /// A sparkline.
    Spark { values: Vec<u64> },
    /// The line chart of the series on view, with a cursor at one of its points.
    Plot { cursor: usize, labels: Vec<String> },
    /// The first rows of a trace's waterfall, each in its look, from row `first` on. The pinned rows
    /// stand over the topmost of them.
    Waterfall {
        trace: Arc<TraceDetail>,
        shown: usize,
        selected: Option<usize>,
        looks: Vec<Style>,
        first: usize,
        pinned: Vec<usize>,
    },
    /// Nothing.
    Blank,
}

/// A pane of a frame. What was painted below it is cleared first where it asks for that.
#[derive(Debug)]
pub struct Pane {
    pub area: Rect,
    pub clear: bool,
    pub title: String,
    pub border: Border,
    pub style: Style,
    pub body: Body,
}

/// What a pane shows.
#[verifier::ext_equal]
#[allow(inconsistent_fields)]
pub enum BodyView {
    Prose { text: Seq<char>, wrap: Wrap, scroll: u16 },
    Lines { lines: Seq<Seq<SpanView>>, wrap: Wrap, offset: u16, centered: bool },
    Items { items: Seq<Seq<SpanView>>, selected: Option<usize>, first: usize },
    Table { header: Seq<Seq<char>>, rows: Seq<Seq<Seq<SpanView>>>, columns: Seq<Extent>, selected: Option<usize> },
    Spark { values: Seq<u64> },
    Plot { cursor: usize, labels: Seq<Seq<char>> },
    Waterfall {
        trace: Arc<TraceDetail>,
        shown: usize,
        selected: Option<usize>,
        looks: Seq<Style>,
        first: usize,
        pinned: Seq<int>,
    },
    Blank,
}

/// A pane of a frame.
#[verifier::ext_equal]
pub struct PaneView {
    pub area: Rect,
    pub clear: bool,
    pub title: Seq<char>,
    pub border: Border,
    pub style: Style,
    pub body: BodyView,
}

/// What styled lines show.
pub open spec fn lines_view(lines: Seq<Vec<Span>>) -> Seq<Seq<SpanView>> {
    lines.map_values(|l: Vec<Span>| style::spans(l@))
}

/// What rows of styled cells show.
pub open spec fn cells_view(rows: Seq<Vec<Vec<Span>>>) -> Seq<Seq<Seq<SpanView>>> {
    rows.map_values(|r: Vec<Vec<Span>>| lines_view(r@))
}

impl View for Body {
    type V = BodyView;

    open spec fn view(&self) -> BodyView {
        match *self {
            Body::Prose { text, wrap, scroll } => BodyView::Prose { text: text@, wrap, scroll },
            Body::Lines { lines, wrap, offset, centered } => BodyView::Lines {
                lines: lines_view(lines@),
                wrap,
                offset,
                centered,
            },
            Body::Items { items, selected, first } => BodyView::Items { items: lines_view(items@), selected, first },
            Body::Table { header, rows, columns, selected } => BodyView::Table {
                header: text::strs(header@),
                rows: cells_view(rows@),
                columns: columns@,
                selected,
            },
            Body::Spark { values } => BodyView::Spark { values: values@ },
            Body::Plot { cursor, labels } => BodyView::Plot { cursor, labels: text::strs(labels@) },
            Body::Waterfall { trace, shown, selected, looks, first, pinned } => BodyView::Waterfall {
                trace,
                shown,
                selected,
                looks: looks@,
                first,
                pinned: waterfall::row_numbers(pinned@),
            },
            Body::Blank => BodyView::Blank,
        }
    }
}

impl View for Pane {
    type V = PaneView;

    open spec fn view(&self) -> PaneView {
        PaneView {
            area: self.area,
            clear: self.clear,
            title: self.title@,
            border: self.border,
            style: self.style,
            body: self.body@,
        }
    }
}

/// The panes of a frame, in the order in which they are painted.
pub open spec fn panes(v: Seq<Pane>) -> Seq<PaneView> {
    v.map_values(|p: Pane| p@)
}

/// The look of a pane's border: a bold cyan outline where the pane has the focus.
pub open spec fn border_look(focused: bool) -> Style {
    if focused {
        Style { fg: Some(style::Color::Cyan), bg: None, bold: true, underlined: false, reversed: false }
    } else {
        style::plain()
    }
}

/// The look of a pane's border: a bold cyan outline where the pane has the focus.
pub fn focus_border(focused: bool) -> (r: Style)
    ensures
        r == border_look(focused),
{
    if focused {
        Style { fg: Some(style::Color::Cyan), bg: None, bold: true, underlined: false, reversed: false }
    } else {
        Style::plain()
    }
}

/// One span.
pub open spec fn one(text: Seq<char>, look: Style) -> SpanView {
    SpanView { text, style: look }
}

/// A line of one span.
pub open spec fn line(text: Seq<char>, look: Style) -> Seq<SpanView> {
    seq![one(text, look)]
}

/// A line of one span.
pub fn one_line(text: String, look: Style) -> (r: Vec<Span>)
    ensures
        style::spans(r@) == line(text@, look),
{
    let mut v: Vec<Span> = Vec::new();
    v.push(Span { text, style: look });
    assert(style::spans(v@) =~= line(text@, look));
    v
}

/// Adds a span to a line.
pub fn add_span(v: &mut Vec<Span>, text: String, look: Style)
    ensures
        style::spans(final(v)@) == style::spans(old(v)@).push(one(text@, look)),
{
    let ghost before = style::spans(v@);
    v.push(Span { text, style: look });
    assert(style::spans(v@) =~= before.push(one(text@, look)));
}

/// Adds a line.
pub fn add_row(v: &mut Vec<Vec<Span>>, row: Vec<Span>)
    ensures
        lines_view(final(v)@) == lines_view(old(v)@).push(style::spans(row@)),
{
    let ghost before = lines_view(v@);
    v.push(row);
    assert(lines_view(v@) =~= before.push(style::spans(row@)));
}

/// Adds a pane.
pub fn add_pane(v: &mut Vec<Pane>, pane: Pane)
    ensures
        panes(final(v)@) == panes(old(v)@) + seq![pane@],
{
    let ghost before = panes(v@);
    v.push(pane);
    assert(panes(v@) =~= before + seq![pane@]);
}

/// The lines, each in one look.
pub open spec fn looks(lines: Seq<Seq<char>>, look: Style) -> Seq<Seq<SpanView>> {
    lines.map_values(|l: Seq<char>| line(l, look))
}

/// The lines, each in one look.
pub fn styled_lines(lines: &Vec<String>, look: Style) -> (r: Vec<Vec<Span>>)
    ensures
        lines_view(r@) == looks(text::strs(lines@), look),
{
    let ghost all = looks(text::strs(lines@), look);
    let mut out: Vec<Vec<Span>> = Vec::new();
    let n: usize = lines.len();
    let mut i: usize = 0;
    assert(lines_view(out@) =~= all.take(0));
    while i < n
        invariant
            n == lines@.len(),
            i <= n,
            all == looks(text::strs(lines@), look),
            lines_view(out@) == all.take(i as int),
        decreases n - i,
    {
        add_row(&mut out, one_line(lines[i].clone(), look));
        i += 1;
        assert(all[i - 1] == line(lines@[i - 1]@, look));
        assert(all.take(i as int) =~= all.take(i - 1).push(all[i - 1]));
    }
    assert(all.take(n as int) =~= all);
    out
}

/// A boxed pane of text.
pub open spec fn prose(area: Rect, title: Seq<char>, focused: bool, text: Seq<char>, wrap: Wrap, scroll: u16) -> PaneView {
    PaneView {
        area,
        clear: false,
        title,
        border: Border::Boxed(border_look(focused)),
        style: style::plain(),
        body: BodyView::Prose { text, wrap, scroll },
    }
}

/// A boxed pane of text.
pub fn prose_pane(area: Rect, title: String, focused: bool, text: String, wrap: Wrap, scroll: u16) -> (r: Pane)
    ensures
        r@ == prose(area, title@, focused, text@, wrap, scroll),
{
    Pane {
        area,
        clear: false,
        title,
        border: Border::Boxed(focus_border(focused)),
        style: Style::plain(),
        body: Body::Prose { text, wrap, scroll },
    }
}

/// A hint below the panes.
pub open spec fn hint(area: Rect, text: Seq<char>) -> PaneView {
    PaneView {
        area,
        clear: false,
        title: ""@,
        border: Border::Bare,
        style: style::plain(),
        body: BodyView::Prose { text, wrap: Wrap::Trim, scroll: 0 },
    }
}

/// A hint below the panes.
pub fn hint_pane(area: Rect, text: String) -> (r: Pane)
    ensures
        r@ == hint(area, text@),
{
    Pane {
        area,
        clear: false,
        title: text::owned(""),
        border: Border::Bare,
        style: Style::plain(),
        body: Body::Prose { text, wrap: Wrap::Trim, scroll: 0 },
    }
}

/// A boxed pane of styled lines.
pub open spec fn boxed_lines(area: Rect, title: Seq<char>, lines: Seq<Seq<SpanView>>) -> PaneView {
    PaneView {
        area,
        clear: false,
        title,
        border: Border::Boxed(style::plain()),
        style: style::plain(),
        body: BodyView::Lines { lines, wrap: Wrap::Cut, offset: 0, centered: false },
    }
}

/// A boxed pane of styled lines.
pub fn boxed_lines_pane(area: Rect, title: String, lines: Vec<Vec<Span>>) -> (r: Pane)
    ensures
        r@ == boxed_lines(area, title@, lines_view(lines@)),
{
    Pane {
        area,
        clear: false,
        title,
        border: Border::Boxed(Style::plain()),
        style: Style::plain(),
        body: Body::Lines { lines, wrap: Wrap::Cut, offset: 0, centered: false },
    }
}

} // verus!
