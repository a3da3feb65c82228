//! What a frame shows, as plain values for the application to paint.
//!
//! [`draw`] gives the panes of a frame in the order in which they are painted. What only a frame knows
//! (how far a pane can be scrolled, where the attribute pane stands) it leaves in the state for the
//! keys.

pub mod ascii;
pub mod chrome;
pub mod glyphs;
pub mod logs;
pub mod metrics;
pub mod overlays;
pub mod pane;
pub mod plain;
pub mod results;
pub mod traces;

use std::sync::Arc;

use vstd::prelude::*;

use crate::app::{App, AppView, FrameState};
use crate::chart;
use crate::detail_text;
use crate::geometry;
use crate::geometry::Rect;
use crate::mascot;
use crate::model;
use crate::model::{AbsTarget, DetailPane, DetailStyle, Focus, Mode, RouteView, TIME_RANGES_LEN};
use crate::style;
use crate::style::{SpanView, Style};
use crate::text;
use crate::ui::chrome::{MIN_COLS, MIN_ROWS};
use crate::ui::glyphs::Glyphs;
use crate::ui::metrics::{Figures, FiguresView, SeriesView};
use crate::ui::pane::{Body, BodyView, Border, Extent, Pane, PaneView, Split, Wrap};

verus! {

/// The mascot's place and step.
#[derive(Debug, Clone, Copy)]
pub struct Pose {
    pub facing: i8,
    pub phase_ns: i64,
    pub x: i64,
    pub y: i64,
}

/// What a frame is drawn with: the terminal, the clocks, and the mascot.
#[derive(Debug, Clone, Copy)]
pub struct Moment {
    pub area: Rect,
    pub ascii: bool,
    /// The monotonic clock.
    pub now: u64,
    /// The wall clock.
    pub wall_ns: i64,
    pub pose: Pose,
}

/// How the terminal was shared out among the panes.
#[derive(Debug)]
pub struct Areas {
    /// The header and the content.
    pub outer: Split,
    /// The rows of the content.
    pub rows: Split,
    /// The chart and the results, where there is a chart.
    pub chart: Option<Split>,
    /// The results and the pane below them, where there is one.
    pub halves: Option<Split>,
    /// The notes and the table of the attribute pane, where there is one.
    pub notes: Option<Split>,
}

/// A frame: its panes in the order in which they are painted, and how they share the terminal.
#[derive(Debug)]
pub struct Frame {
    pub panes: Vec<Pane>,
    /// `None` for a terminal that is too small to be shared out.
    pub areas: Option<Areas>,
}

/// The header and the content.
pub open spec fn outer_extents() -> Seq<Extent> {
    seq![Extent::Length(1), Extent::Min(0)]
}

/// The rows of the content: a detail view has a title and its keys; a list has the query, where the
/// screen takes one, and the key legend.
pub open spec fn content_extents(a: AppView, area: Rect) -> Seq<Extent> {
    match a.at.route {
        RouteView::LogDetail { .. } => seq![Extent::Length(3), Extent::Min(3), Extent::Length(2)],
        RouteView::SpanDetail { .. } => seq![Extent::Length(3), Extent::Min(3), Extent::Length(2)],
        RouteView::MetricDetail { .. } => seq![Extent::Length(3), Extent::Min(5), Extent::Length(4)],
        RouteView::TraceDetail { detail } => traces::trace_extents(*detail, area),
        _ => if a.has_query() {
            seq![Extent::Length(3), Extent::Min(4), Extent::Length(2)]
        } else {
            seq![Extent::Min(4), Extent::Length(2)]
        },
    }
}

/// Where the results stand, with their chart.
pub open spec fn main_area(a: AppView, rows: Seq<Rect>) -> Rect {
    if a.has_query() { rows[1] } else { rows[0] }
}

/// Whether a chart of the results is shown above them.
pub open spec fn has_chart(a: AppView, main: Rect) -> bool {
    a.snapshot.chart.len() > 0 && main.height >= 9
}

/// How the results share their place with the pane below them. A pane in its own right takes what the
/// short text above it leaves; a preview takes somewhat less than half.
pub open spec fn halves_extents(a: AppView, detail: DetailPane, area: Rect) -> Seq<Extent> {
    if detail.style == DetailStyle::Pane {
        let content = geometry::min((a.snapshot.lines.len() + 2) as int, usize::MAX as int) % 65_536;
        seq![
            Extent::Length(
                geometry::clamp(content, 3, geometry::max(geometry::monus(area.height as int, 4), 3)) as u16,
            ),
            Extent::Min(3),
        ]
    } else {
        seq![Extent::Percentage(55), Extent::Percentage(45)]
    }
}

impl Areas {
    /// Where the results and the pane below them stand.
    pub open spec fn list(self, a: AppView) -> Rect {
        match self.chart {
            Some(split) => split.rows@[1],
            None => main_area(a, self.rows.rows@),
        }
    }

    /// Where the primary pane stands.
    pub open spec fn primary(self, a: AppView) -> Rect {
        match self.halves {
            Some(split) => split.rows@[0],
            None => self.list(a),
        }
    }

    /// Whether the pane below the results has its place, where there is one.
    pub open spec fn has_below(self, a: AppView) -> bool {
        match a.snapshot.detail {
            Some(detail) => self.halves is Some && (self.halves->0).rows@.len() == 2 && (self.notes is Some <==> detail.style
                == DetailStyle::Pane) && (self.notes is Some ==> (self.notes->0).rows@.len() == 2),
            None => self.halves is None && self.notes is None,
        }
    }

    /// Whether the terminal is shared out as the state asks for.
    #[verifier::opaque]
    pub open spec fn fit(self, a: AppView, area: Rect) -> bool {
        &&& self.outer.is(area, outer_extents())
        &&& self.rows.is(self.outer.rows@[1], content_extents(a, self.outer.rows@[1]))
        &&& if model::detail_route(a.at.route) {
            self.chart is None && self.halves is None && self.notes is None
        } else {
            let main = main_area(a, self.rows.rows@);
            &&& match self.chart {
                Some(split) => has_chart(a, main) && split.is(main, seq![Extent::Length(6), Extent::Min(3)]),
                None => !has_chart(a, main),
            }
            &&& match (self.halves, a.snapshot.detail) {
                (Some(split), Some(detail)) => split.is(self.list(a), halves_extents(a, *detail, self.list(a))),
                (None, None) => true,
                _ => false,
            }
            &&& match (self.notes, a.snapshot.detail) {
                (Some(split), Some(detail)) => detail.style == DetailStyle::Pane && split.is(
                    results::attr_body((self.halves->0).rows@[1]),
                    results::attr_extents(*detail),
                ),
                (None, Some(detail)) => detail.style != DetailStyle::Pane,
                (None, None) => true,
                _ => false,
            }
        }
    }
}

/// The chart above the results.
#[verifier::opaque]
pub open spec fn chart_pane(values: Seq<u64>, area: Rect, ascii: bool) -> PaneView {
    if ascii {
        pane::prose(
            area,
            "Series"@,
            false,
            chart::chart_text(values, geometry::monus(area.width as int, 2), geometry::monus(area.height as int, 2)),
            Wrap::Cut,
            0,
        )
    } else {
        PaneView {
            area,
            clear: false,
            title: "Series"@,
            border: Border::Boxed(style::plain()),
            style: style::plain(),
            body: BodyView::Spark { values },
        }
    }
}

/// The chart above the results, where there is one.
pub open spec fn chart_panes(a: AppView, areas: Areas, g: Glyphs) -> Seq<PaneView> {
    match areas.chart {
        Some(split) => seq![chart_pane(a.snapshot.chart, split.rows@[0], g.ascii)],
        None => Seq::empty(),
    }
}

/// What stands above the results: the query, where the screen takes one, and the chart.
pub open spec fn above_panes(a: AppView, areas: Areas, g: Glyphs, query: Seq<SpanView>) -> Seq<PaneView> {
    (if a.has_query() {
        seq![chrome::query_pane(a, g, areas.rows.rows@[0], query)]
    } else {
        Seq::empty()
    }) + chart_panes(a, areas, g)
}

/// The pane below the results, where there is one.
pub open spec fn below_panes(a: AppView, areas: Areas, g: Glyphs) -> Seq<PaneView> {
    match a.snapshot.detail {
        Some(detail) => if detail.style == DetailStyle::Pane {
            results::attr_panes(a, *detail, (areas.halves->0).rows@[1], (areas.notes->0).rows@, g)
        } else {
            seq![results::preview(*detail, (areas.halves->0).rows@[1], g.dash@)]
        },
        None => Seq::empty(),
    }
}

/// The panes of a list view, the query shown with these spans.
pub open spec fn list_panes(a: AppView, areas: Areas, g: Glyphs, query: Seq<SpanView>) -> Seq<PaneView> {
    let rows = areas.rows.rows@;
    let focused = a.effective_focus() == Focus::Primary;
    above_panes(a, areas, g, query) + seq![
        results::primary_pane(a, areas.primary(a), focused, areas.notes is Some, g),
    ] + below_panes(a, areas, g) + seq![chrome::status_pane(a, g, rows[rows.len() - 1])]
}

/// The panes of the current view.
pub open spec fn content_panes(a: AppView, areas: Areas, f: FiguresView, g: Glyphs, query: Seq<SpanView>) -> Seq<PaneView> {
    let rows = areas.rows.rows@;
    let focused = a.effective_focus() == Focus::Primary;
    match a.at.route {
        RouteView::LogDetail { record } => logs::log_panes(a, *record, rows, focused, g),
        RouteView::MetricDetail { labels, query, points } => metrics::series_panes(
            a,
            (SeriesView { labels, query, points }),
            f,
            rows,
            focused,
            g,
        ),
        RouteView::TraceDetail { detail } => traces::trace_panes(a, detail, rows, focused, g),
        RouteView::SpanDetail { trace_id, span } => traces::span_panes(a, trace_id, *span, rows, focused, g),
        _ => list_panes(a, areas, g, query),
    }
}

/// The frame's own state before the view is drawn: a chart that is not shown cannot be walked.
pub open spec fn fresh(a: AppView) -> AppView {
    AppView {
        frame: FrameState {
            chart_geom: if a.at.route is MetricDetail { a.frame.chart_geom } else { None },
            ..a.frame
        },
        ..a
    }
}

/// What drawing the pane below the results leaves for the keys.
pub open spec fn below_frame(a: AppView, areas: Areas) -> FrameState {
    match areas.notes {
        Some(split) => results::attr_frame(a.frame, *(a.snapshot.detail->0), split.rows@),
        None => a.frame,
    }
}

/// What drawing the current view leaves for the keys.
#[verifier::opaque]
pub open spec fn content_frame(a: AppView, areas: Areas, g: Glyphs) -> FrameState {
    let rows = areas.rows.rows@;
    match a.at.route {
        RouteView::LogDetail { record } => results::scrolled_frame(a.frame, detail_text::log_lines(*record), rows[1]),
        RouteView::MetricDetail { labels, query, points } => metrics::series_frame(
            a.frame,
            (SeriesView { labels, query, points }),
            rows[1],
            g.ascii,
        ),
        RouteView::TraceDetail { detail } => FrameState {
            page_rows: geometry::max(results::viewport(rows[1]), 1) as u16,
            ..a.frame
        },
        RouteView::SpanDetail { trace_id, span } => results::scrolled_frame(
            a.frame,
            detail_text::span_lines(trace_id, *span, g),
            rows[1],
        ),
        _ => {
            below_frame(
                AppView { frame: results::primary_frame(a, areas.primary(a), areas.notes is Some), ..a },
                areas,
            )
        },
    }
}

/// The mascot, where it is shown and has room.
pub open spec fn mascot_panes(a: AppView, m: Moment) -> Seq<PaneView> {
    let rows = mascot::frame_rows(mascot::art_frame(m.pose.facing as int, mascot::phase_of(m.pose.phase_ns as int)));
    if a.mascot.show_mascot && !m.ascii {
        match chrome::mascot_place(rows, m.area, m.pose.x as int, m.pose.y as int) {
            Some(place) => seq![chrome::mascot_pane(rows, place)],
            None => Seq::empty(),
        }
    } else {
        Seq::empty()
    }
}

/// What drops over any view: the mascot, below it the banner, and the open picker or form above both.
pub open spec fn overlay_panes(a: AppView, m: Moment, selector: Rect, g: Glyphs) -> Seq<PaneView> {
    mascot_panes(a, m) + (match a.load.banner(m.now) {
        Some(elapsed) => seq![overlays::banner(elapsed, m.area, g)],
        None => Seq::empty(),
    }) + (if a.mode == Mode::TimeRange {
        seq![overlays::picker(a.range.range_cursor, selector, m.area, g.ellipsis@)]
    } else {
        Seq::empty()
    }) + (if a.mode == Mode::AbsoluteRange {
        seq![
            overlays::form(
                a,
                if a.range.abs_target == AbsTarget::Query { selector } else { a.frame.attr_area },
                m.area,
                g.sep@,
            ),
        ]
    } else {
        Seq::empty()
    })
}

/// The completion popup, where a query is being edited and there is something to offer.
pub open spec fn popup_panes(a: AppView, query_area: Rect, m: Moment) -> Seq<PaneView> {
    match a.words.completion {
        Some(c) => if a.mode == Mode::Editing && a.has_query() {
            seq![overlays::popup(c, query_area, m.area)]
        } else {
            Seq::empty()
        },
        None => Seq::empty(),
    }
}

/// The state once the frame is drawn.
pub open spec fn drawn(a: AppView, areas: Areas, g: Glyphs) -> AppView {
    AppView { frame: content_frame(fresh(a), areas, g), ..a }
}

/// The panes of a frame, the query shown with these spans.
pub open spec fn frame_panes(a: AppView, areas: Areas, m: Moment, f: FiguresView, g: Glyphs, query: Seq<SpanView>) -> Seq<
    PaneView,
> {
    let nav = areas.outer.rows@[0];
    seq![chrome::header(fresh(a), g, nav, m.wall_ns)] + content_panes(fresh(a), areas, f, g, query) + overlay_panes(
        drawn(a, areas, g),
        m,
        chrome::indicator(fresh(a), g, nav, m.wall_ns),
        g,
    ) + popup_panes(drawn(a, areas, g), areas.rows.rows@[0], m)
}

/// Whether these are the panes of a frame in these glyphs, the query shown with these spans.
#[verifier::opaque]
pub open spec fn is_frame(
    a: AppView,
    areas: Areas,
    m: Moment,
    f: FiguresView,
    g: Glyphs,
    query: Seq<SpanView>,
    panes: Seq<PaneView>,
) -> bool {
    &&& g.is_for(m.ascii)
    &&& model::detail_route(a.at.route) || chrome::shows_query(a, g, query)
    &&& panes == frame_panes(a, areas, m, f, g, query)
}

/// Whether the terminal is too small for the views.
pub open spec fn cramped(area: Rect) -> bool {
    area.width < MIN_COLS || area.height < MIN_ROWS
}

proof fn lemma_join(a: Seq<PaneView>, b: Seq<PaneView>, c: Seq<PaneView>)
    ensures
        a + b + c == a + (b + c),
{
    assert(a + b + c =~= a + (b + c));
}

proof fn lemma_none(a: Seq<PaneView>)
    ensures
        a + Seq::<PaneView>::empty() == a,
{
    assert(a + Seq::<PaneView>::empty() =~= a);
}

fn chart_of(values: &Vec<u64>, area: Rect, ascii: bool) -> (r: Pane)
    ensures
        r@ == chart_pane(values@, area, ascii),
{
    proof {
        reveal(chart_pane);
    }
    if ascii {
        let body = chart::ascii_chart(
            values,
            geometry::monus16(area.width, 2) as usize,
            geometry::monus16(area.height, 2) as usize,
        );
        pane::prose_pane(area, text::owned("Series"), false, body, Wrap::Cut, 0)
    } else {
        let mut copy: Vec<u64> = Vec::new();
        let n: usize = values.len();
        let mut i: usize = 0;
        while i < n
            invariant
                n == values@.len(),
                i <= n,
                copy@ =~= values@.take(i as int),
            decreases n - i,
        {
            copy.push(values[i]);
            i += 1;
        }
        assert(copy@ =~= values@);
        Pane {
            area,
            clear: false,
            title: text::owned("Series"),
            border: Border::Boxed(Style::plain()),
            style: Style::plain(),
            body: Body::Spark { values: copy },
        }
    }
}

fn halves_of(app: &App, detail: &DetailPane, area: Rect) -> (r: Vec<Extent>)
    ensures
        r@ == halves_extents(app@, *detail, area),
{
    if detail.style == DetailStyle::Pane {
        let n: usize = app.snapshot.lines.len();
        let content: u16 = (n.saturating_add(2) as u64 % 65_536) as u16;
        let most: u16 = geometry::max16(geometry::monus16(area.height, 4), 3);
        let rows: u16 = if content < 3 { 3 } else if content > most { most } else { content };
        pane::two(Extent::Length(rows), Extent::Min(3))
    } else {
        pane::two(Extent::Percentage(55), Extent::Percentage(45))
    }
}

fn share_out(app: &App, area: Rect) -> (r: Areas)
    ensures
        r.fit(app@, area),
        r.outer.rows@.len() == 2,
        pane::row_of(area, r.outer.rows@[0]),
        pane::row_of(area, r.outer.rows@[1]),
        pane::row_of(r.outer.rows@[1], r.rows.rows@[0]),
        r.rows.rows@.len() == content_extents(app@, r.outer.rows@[1]).len(),
        r.rows.rows@.len() > 0,
{
    proof {
        reveal(Areas::fit);
    }
    let outer = pane::split_rows(area, pane::two(Extent::Length(1), Extent::Min(0)));
    let content = outer.rows[1];
    if let Some(_) = app.route_metric_detail() {
        let rows = pane::split_rows(content, pane::three(Extent::Length(3), Extent::Min(5), Extent::Length(4)));
        return Areas { outer, rows, chart: None, halves: None, notes: None };
    }
    if let Some(detail) = app.route_trace_detail() {
        let rows = pane::split_rows(content, traces::extents_of(detail, content));
        return Areas { outer, rows, chart: None, halves: None, notes: None };
    }
    if app.at.route.is_detail() {
        let rows = pane::split_rows(content, pane::three(Extent::Length(3), Extent::Min(3), Extent::Length(2)));
        return Areas { outer, rows, chart: None, halves: None, notes: None };
    }
    let has_query = app.has_query();
    let rows = if has_query {
        pane::split_rows(content, pane::three(Extent::Length(3), Extent::Min(4), Extent::Length(2)))
    } else {
        pane::split_rows(content, pane::two(Extent::Min(4), Extent::Length(2)))
    };
    let main = if has_query { rows.rows[1] } else { rows.rows[0] };
    let chart: Option<Split> = if app.snapshot.chart.len() == 0 || main.height < 9 {
        None
    } else {
        Some(pane::split_rows(main, pane::two(Extent::Length(6), Extent::Min(3))))
    };
    let list = match &chart {
        Some(split) => split.rows[1],
        None => main,
    };
    match &app.snapshot.detail {
        Some(detail) => {
            let halves = pane::split_rows(list, halves_of(app, detail, list));
            let notes = if detail.style == DetailStyle::Pane {
                Some(results::attr_split(detail, halves.rows[1]))
            } else {
                None
            };
            Areas { outer, rows, chart, halves: Some(halves), notes }
        },
        None => Areas { outer, rows, chart, halves: None, notes: None },
    }
}

proof fn lemma_list_areas(a: AppView, areas: Areas, area: Rect)
    requires
        areas.fit(a, area),
        !model::detail_route(a.at.route),
    ensures
        areas.has_below(a),
        areas.rows.rows@.len() == if a.has_query() { 3int } else { 2 },
        areas.chart is Some ==> (areas.chart->0).rows@.len() == 2,
{
    reveal(Areas::fit);
}

fn draw_above(app: &App, areas: &Areas, g: &Glyphs, out: &mut Vec<Pane>)
    requires
        areas.rows.rows@.len() >= 2,
        areas.chart is Some ==> (areas.chart->0).rows@.len() == 2,
    ensures
        exists|query: Seq<SpanView>|
            #[trigger] chrome::shows_query(app@, *g, query) && pane::panes(final(out)@) == pane::panes(old(out)@)
                + above_panes(app@, *areas, *g, query),
{
    let ghost a = app@;
    let ghost before = pane::panes(out@);
    let query = chrome::draw_query(app, g, areas.rows.rows[0]);
    let ghost spans = choose|s: Seq<SpanView>|
        #[trigger] chrome::shows_query(a, *g, s) && query@ == chrome::query_pane(a, *g, areas.rows.rows@[0], s);
    let ghost s1 = if a.has_query() {
        seq![chrome::query_pane(a, *g, areas.rows.rows@[0], spans)]
    } else {
        Seq::empty()
    };
    if app.has_query() {
        pane::add_pane(out, query);
    }
    proof {
        lemma_none(before);
    }
    assert(pane::panes(out@) == before + s1);
    let ghost s2 = chart_panes(a, *areas, *g);
    if let Some(split) = &areas.chart {
        pane::add_pane(out, chart_of(&app.snapshot.chart, split.rows[0], g.ascii));
    }
    proof {
        lemma_none(before + s1);
        lemma_join(before, s1, s2);
    }
    assert(above_panes(a, *areas, *g, spans) == s1 + s2);
}

fn draw_below(app: &mut App, areas: &Areas, g: &Glyphs, out: &mut Vec<Pane>)
    requires
        areas.has_below(old(app)@),
    ensures
        pane::panes(final(out)@) == pane::panes(old(out)@) + below_panes(old(app)@, *areas, *g),
        final(app)@ == (AppView { frame: below_frame(old(app)@, *areas), ..old(app)@ }),
{
    let ghost before = pane::panes(out@);
    let detail = match &app.snapshot.detail {
        Some(detail) => Some(model::share(detail)),
        None => None,
    };
    proof {
        lemma_none(before);
    }
    if let Some(detail) = detail {
        if let Some(split) = &areas.halves {
            match &areas.notes {
                Some(notes) => {
                    results::draw_attr_pane(app, &detail, split.rows[1], &notes.rows, g, out);
                },
                None => {
                    pane::add_pane(out, results::draw_preview(&detail, split.rows[1], g));
                },
            }
        }
    }
}

proof fn lemma_below_ignores_the_frame(b: AppView, a: AppView, areas: Areas, g: Glyphs)
    requires
        b == (AppView { frame: b.frame, ..a }),
    ensures
        below_panes(b, areas, g) == below_panes(a, areas, g),
{
    if let Some(detail) = a.snapshot.detail {
        lemma_attr_panes_ignore_the_frame(b, a, detail, (areas.halves->0).rows@[1], (areas.notes->0).rows@, g);
    }
}

proof fn lemma_status_ignores_the_frame(b: AppView, a: AppView, g: Glyphs, area: Rect)
    requires
        b == (AppView { frame: b.frame, ..a }),
    ensures
        chrome::status_pane(b, g, area) == chrome::status_pane(a, g, area),
{
    reveal(chrome::status_pane);
}

fn draw_list(app: &mut App, areas: &Areas, g: &Glyphs, out: &mut Vec<Pane>, area: Rect)
    requires
        areas.fit(old(app)@, area),
        !model::detail_route(old(app)@.at.route),
    ensures
        exists|query: Seq<SpanView>|
            #[trigger] chrome::shows_query(old(app)@, *g, query) && pane::panes(final(out)@) == pane::panes(old(out)@)
                + list_panes(old(app)@, *areas, *g, query),
        final(app)@ == (AppView { frame: content_frame(old(app)@, *areas, *g), ..old(app)@ }),
{
    let ghost a = app@;
    let ghost before = pane::panes(out@);
    proof {
        lemma_list_areas(a, *areas, area);
    }
    let focused = app.effective_focus() == Focus::Primary;
    draw_above(app, areas, g, out);
    let ghost spans = choose|s: Seq<SpanView>|
        #[trigger] chrome::shows_query(a, *g, s) && pane::panes(out@) == before + above_panes(a, *areas, *g, s);
    let ghost s1 = above_panes(a, *areas, *g, spans);
    let mut list = if app.has_query() { areas.rows.rows[1] } else { areas.rows.rows[0] };
    if let Some(split) = &areas.chart {
        list = split.rows[1];
    }
    let primary = match &areas.halves {
        Some(split) => split.rows[0],
        None => list,
    };
    assert(primary == areas.primary(a));
    let below = areas.notes.is_some();
    let ghost s2 = seq![results::primary_pane(a, primary, focused, below, *g)];
    pane::add_pane(out, results::draw_primary(app, primary, focused, below, g));
    let ghost b = app@;
    assert(b == (AppView { frame: b.frame, ..a }));
    let ghost s3 = below_panes(a, *areas, *g);
    proof {
        lemma_below_ignores_the_frame(b, a, *areas, *g);
    }
    draw_below(app, areas, g, out);
    let ghost c = app@;
    assert(c == (AppView { frame: c.frame, ..a }));
    let n: usize = areas.rows.rows.len();
    let ghost s4 = seq![chrome::status_pane(a, *g, areas.rows.rows@[n - 1])];
    proof {
        lemma_status_ignores_the_frame(c, a, *g, areas.rows.rows@[n - 1]);
    }
    pane::add_pane(out, chrome::draw_status(app, g, areas.rows.rows[n - 1]));
    proof {
        lemma_join(before, s1, s2);
        lemma_join(before, s1 + s2, s3);
        lemma_join(before, s1 + s2 + s3, s4);
        reveal(content_frame);
    }
    assert(list_panes(a, *areas, *g, spans) == s1 + s2 + s3 + s4);
    assert(chrome::shows_query(a, *g, spans));
}

proof fn lemma_attr_panes_ignore_the_frame(
    b: AppView,
    a: AppView,
    detail: Arc<DetailPane>,
    area: Rect,
    parts: Seq<Rect>,
    g: Glyphs,
)
    requires
        b == (AppView { frame: b.frame, ..a }),
    ensures
        results::attr_panes(b, *detail, area, parts, g) == results::attr_panes(a, *detail, area, parts, g),
{
    reveal(results::attr_panes);
    assert(b.effective_focus() == a.effective_focus());
    assert(metrics::selection(b) == metrics::selection(a));
    assert(results::attr_title(b, *detail, parts[1], g) == results::attr_title(a, *detail, parts[1], g));
}

proof fn lemma_areas_ignore_the_frame(b: AppView, a: AppView, areas: Areas, area: Rect)
    requires
        b == (AppView { frame: b.frame, ..a }),
        areas.fit(a, area),
    ensures
        areas.fit(b, area),
{
    reveal(Areas::fit);
    assert(b.has_query() == a.has_query());
}

proof fn lemma_query_ignores_the_frame(b: AppView, a: AppView, g: Glyphs, query: Seq<SpanView>)
    requires
        b == (AppView { frame: b.frame, ..a }),
        chrome::shows_query(a, g, query),
    ensures
        chrome::shows_query(b, g, query),
{
}

fn draw_content(app: &mut App, areas: &Areas, figures: &Figures, g: &Glyphs, area: Rect, out: &mut Vec<Pane>)
    requires
        areas.fit(old(app)@, area),
        areas.rows.rows@.len() == content_extents(old(app)@, areas.outer.rows@[1]).len(),
    ensures
        exists|query: Seq<SpanView>|
            (model::detail_route(old(app)@.at.route) || chrome::shows_query(old(app)@, *g, query)) && pane::panes(
                final(out)@,
            ) == pane::panes(old(out)@) + #[trigger] content_panes(old(app)@, *areas, figures@, *g, query),
        final(app)@ == (AppView { frame: content_frame(old(app)@, *areas, *g), ..old(app)@ }),
{
    let ghost a = app@;
    let ghost before = pane::panes(out@);
    let ghost mut query: Seq<SpanView> = Seq::empty();
    let focused = app.effective_focus() == Focus::Primary;
    let rows = &areas.rows.rows;
    let log = match app.route_log_record() {
        Some(record) => Some(model::share(record)),
        None => None,
    };
    let series = match app.route_metric_detail() {
        Some(detail) => Some(model::share(detail)),
        None => None,
    };
    let trace = match app.route_trace_detail() {
        Some(detail) => Some(model::share(detail)),
        None => None,
    };
    let span = match app.route_span_detail() {
        Some((id, span)) => Some((text::owned(id), model::share(span))),
        None => None,
    };
    if let Some(record) = log {
        logs::draw_log_detail(app, &record, rows, focused, g, out);
    } else if let Some(detail) = series {
        metrics::draw_metric_detail(app, &detail, figures, rows, focused, g, out);
    } else if let Some(detail) = trace {
        traces::draw_trace_detail(app, &detail, rows, focused, g, out);
    } else if let Some((id, span)) = span {
        traces::draw_span_detail(app, &id, &span, rows, focused, g, out);
    } else {
        draw_list(app, areas, g, out, area);
        proof {
            query = choose|s: Seq<SpanView>|
                #[trigger] chrome::shows_query(a, *g, s) && pane::panes(out@) == before + list_panes(a, *areas, *g, s);
        }
    }
    proof {
        reveal(content_frame);
    }
    assert(pane::panes(out@) == before + content_panes(a, *areas, figures@, *g, query));
}

/// The time-range picker, the range form, the loading banner and the mascot, over whatever is shown.
pub fn draw_global_overlays(app: &App, m: &Moment, selector: Rect, g: &Glyphs, out: &mut Vec<Pane>)
    requires
        m.area.fits(),
    ensures
        pane::panes(final(out)@) == pane::panes(old(out)@) + overlay_panes(app@, *m, selector, *g),
{
    let ghost before = pane::panes(out@);
    if app.mascot.show_mascot && !m.ascii {
        if let Some(place) = chrome::draw_mascot(m.pose.facing, m.pose.phase_ns, m.area, m.pose.x, m.pose.y) {
            pane::add_pane(out, place);
        }
    }
    let ghost s1 = mascot_panes(app@, *m);
    proof {
        lemma_none(before);
    }
    assert(pane::panes(out@) == before + s1);
    if let Some(elapsed) = app.loading_banner(m.now) {
        pane::add_pane(out, overlays::draw_loading_banner(elapsed, m.area, g));
    }
    let ghost s2 = match app@.load.banner(m.now) {
        Some(elapsed) => seq![overlays::banner(elapsed, m.area, *g)],
        None => Seq::empty(),
    };
    proof {
        lemma_none(before + s1);
    }
    assert(pane::panes(out@) == before + s1 + s2);
    let ghost s3 = if app@.mode == Mode::TimeRange {
        seq![overlays::picker(app@.range.range_cursor, selector, m.area, g.ellipsis@)]
    } else {
        Seq::empty()
    };
    if app.mode == Mode::TimeRange {
        pane::add_pane(out, overlays::draw_time_range_picker(app, selector, m.area, g));
    }
    proof {
        lemma_none(before + s1 + s2);
    }
    assert(pane::panes(out@) == before + s1 + s2 + s3);
    let ghost s4 = if app@.mode == Mode::AbsoluteRange {
        seq![
            overlays::form(
                app@,
                if app@.range.abs_target == AbsTarget::Query { selector } else { app@.frame.attr_area },
                m.area,
                g.sep@,
            ),
        ]
    } else {
        Seq::empty()
    };
    if app.mode == Mode::AbsoluteRange {
        let anchor = if app.range.abs_target == AbsTarget::Query { selector } else { app.frame.attr_area };
        pane::add_pane(out, overlays::draw_absolute_range(app, anchor, m.area, g));
    }
    proof {
        lemma_none(before + s1 + s2 + s3);
        lemma_join(before, s1, s2);
        lemma_join(before, s1 + s2, s3);
        lemma_join(before, s1 + s2 + s3, s4);
    }
    assert(pane::panes(out@) == before + s1 + s2 + s3 + s4);
    assert(overlay_panes(app@, *m, selector, *g) == s1 + s2 + s3 + s4);
}

proof fn lemma_frame(
    a: AppView,
    areas: Areas,
    m: Moment,
    f: FiguresView,
    g: Glyphs,
    query: Seq<SpanView>,
    panes: Seq<PaneView>,
)
    requires
        g.is_for(m.ascii),
        model::detail_route(fresh(a).at.route) || chrome::shows_query(fresh(a), g, query),
        panes == frame_panes(a, areas, m, f, g, query),
    ensures
        is_frame(a, areas, m, f, g, query, panes),
{
    reveal(is_frame);
    if !model::detail_route(a.at.route) {
        lemma_query_ignores_the_frame(a, fresh(a), g, query);
    }
}

#[verifier::spinoff_prover]
fn draw_views(app: &mut App, m: &Moment, figures: &Figures, g: &Glyphs) -> (r: Frame)
    requires
        old(app)@.range.range_index < TIME_RANGES_LEN,
        m.area.fits(),
        !cramped(m.area),
        g.is_for(m.ascii),
    ensures
        r.areas is Some,
        (r.areas->0).fit(old(app)@, m.area),
        exists|query: Seq<SpanView>| #[trigger]
            is_frame(old(app)@, r.areas->0, *m, figures@, *g, query, pane::panes(r.panes@)),
        final(app)@ == drawn(old(app)@, r.areas->0, *g),
{
    let ghost start = app@;
    if app.route_metric_detail().is_none() {
        app.frame.chart_geom = None;
    }
    let ghost a = app@;
    assert(a == fresh(start));
    let areas = share_out(app, m.area);
    proof {
        lemma_areas_ignore_the_frame(start, a, areas, m.area);
    }
    let nav = areas.outer.rows[0];
    let (head, selector) = chrome::draw_header(app, g, nav, m.wall_ns);
    let mut panes: Vec<Pane> = Vec::new();
    let ghost s0 = seq![chrome::header(a, *g, nav, m.wall_ns)];
    pane::add_pane(&mut panes, head);
    assert(pane::panes(panes@) =~= s0);
    draw_content(app, &areas, figures, g, m.area, &mut panes);
    let ghost query = choose|s: Seq<SpanView>|
        (model::detail_route(a.at.route) || chrome::shows_query(a, *g, s)) && pane::panes(panes@) == s0
            + #[trigger] content_panes(a, areas, figures@, *g, s);
    let ghost s1 = content_panes(a, areas, figures@, *g, query);
    assert(app@ == drawn(start, areas, *g));
    draw_over(app, m, selector, areas.rows.rows[0], g, &mut panes);
    proof {
        lemma_frame(start, areas, *m, figures@, *g, query, pane::panes(panes@));
    }
    let r = Frame { panes, areas: Some(areas) };
    assert(start == old(app)@);
    assert(r.areas->0 == areas);
    assert(is_frame(start, r.areas->0, *m, figures@, *g, query, pane::panes(r.panes@)));
    assert(is_frame(old(app)@, r.areas->0, *m, figures@, *g, query, pane::panes(r.panes@)));
    r
}

fn draw_over(app: &App, m: &Moment, selector: Rect, query_area: Rect, g: &Glyphs, out: &mut Vec<Pane>)
    requires
        m.area.fits(),
        query_area.x + 2 <= u16::MAX,
        query_area.y + query_area.height <= u16::MAX,
    ensures
        pane::panes(final(out)@) == pane::panes(old(out)@) + overlay_panes(app@, *m, selector, *g) + popup_panes(
            app@,
            query_area,
            *m,
        ),
{
    draw_global_overlays(app, m, selector, g, out);
    draw_popup(app, m, query_area, out);
}

fn draw_popup(app: &App, m: &Moment, query_area: Rect, out: &mut Vec<Pane>)
    requires
        query_area.x + 2 <= u16::MAX,
        query_area.y + query_area.height <= u16::MAX,
    ensures
        pane::panes(final(out)@) == pane::panes(old(out)@) + popup_panes(app@, query_area, *m),
{
    proof {
        lemma_none(pane::panes(out@));
    }
    if app.mode == Mode::Editing && app.has_query() {
        if let Some(completion) = &app.words.completion {
            pane::add_pane(out, overlays::draw_completion_popup(completion, query_area, m.area));
        }
    }
}

/// The panes of a frame. In a terminal that is too small for the views, a prompt to make it larger.
pub fn draw(app: &mut App, m: &Moment, figures: &Figures) -> (r: Frame)
    requires
        old(app)@.range.range_index < TIME_RANGES_LEN,
        m.area.fits(),
    ensures
        cramped(m.area) ==> r.areas is None && pane::panes(r.panes@) == seq![chrome::too_small(m.area)] && final(app)@
            == (AppView { frame: FrameState { chart_geom: None, ..old(app)@.frame }, ..old(app)@ }),
        !cramped(m.area) ==> r.areas is Some && (r.areas->0).fit(old(app)@, m.area),
        !cramped(m.area) ==> exists|g: Glyphs, query: Seq<SpanView>| #[trigger]
            is_frame(old(app)@, r.areas->0, *m, figures@, g, query, pane::panes(r.panes@)) && final(app)@ == drawn(
                old(app)@,
                r.areas->0,
                g,
            ),
{
    if m.area.width < MIN_COLS || m.area.height < MIN_ROWS {
        app.frame.chart_geom = None;
        let mut panes: Vec<Pane> = Vec::new();
        panes.push(chrome::draw_too_small(m.area));
        assert(pane::panes(panes@) =~= seq![chrome::too_small(m.area)]);
        return Frame { panes, areas: None };
    }
    let g = Glyphs::new(m.ascii);
    draw_views(app, m, figures, &g)
}

/// Whether the rows of the split lie in the area.
pub open spec fn on_screen(split: Split, area: Rect) -> bool {
    forall|i: int| 0 <= i < split.rows@.len() ==> (#[trigger] split.rows@[i]).within(area)
}

proof fn lemma_rows_on_screen(split: Split, of: Rect, extents: Seq<Extent>, area: Rect)
    requires
        split.is(of, extents),
        of.within(area),
        area.fits(),
    ensures
        on_screen(split, area),
{
    assert forall|i: int| 0 <= i < split.rows@.len() implies (#[trigger] split.rows@[i]).within(area) by {
        assert(pane::row_of(of, split.rows@[i]));
    }
}

/// The places of the panes lie in the terminal: the header and the content, the rows of the content,
/// the chart, the results and the pane below them, and within a pane that has room for any, its notes
/// and its table.
pub proof fn law_the_panes_have_their_places_on_screen(a: AppView, areas: Areas, area: Rect)
    requires
        area.fits(),
        !cramped(area),
        areas.fit(a, area),
    ensures
        on_screen(areas.outer, area),
        on_screen(areas.rows, area),
        areas.chart matches Some(split) ==> on_screen(split, area),
        areas.halves matches Some(split) ==> on_screen(split, area),
        areas.notes matches Some(split) ==> (areas.halves->0).rows@[1].height >= 2 ==> on_screen(split, area),
{
    reveal(Areas::fit);
    lemma_rows_on_screen(areas.outer, area, outer_extents(), area);
    let content = areas.outer.rows@[1];
    lemma_rows_on_screen(areas.rows, content, content_extents(a, content), area);
    if !model::detail_route(a.at.route) {
        let main = main_area(a, areas.rows.rows@);
        if let Some(split) = areas.chart {
            lemma_rows_on_screen(split, main, seq![Extent::Length(6), Extent::Min(3)], area);
        }
        if let Some(split) = areas.halves {
            let detail = *(a.snapshot.detail->0);
            lemma_rows_on_screen(split, areas.list(a), halves_extents(a, detail, areas.list(a)), area);
            if let Some(notes) = areas.notes {
                if split.rows@[1].height >= 2 {
                    lemma_rows_on_screen(
                        notes,
                        results::attr_body(split.rows@[1]),
                        results::attr_extents(detail),
                        area,
                    );
                }
            }
        }
    }
}

/// The rows of the area from row `from` on, `height` of them.
pub open spec fn band(area: Rect, from: int, height: int) -> Rect {
    Rect { x: area.x, y: (area.y + from) as u16, width: area.width, height: height as u16 }
}

/// The header is the top line of the terminal, and the content all the rest.
pub proof fn law_the_header_is_the_top_line(a: AppView, areas: Areas, area: Rect)
    requires
        area.fits(),
        !cramped(area),
        areas.fit(a, area),
    ensures
        areas.outer.rows@ == seq![band(area, 0, 1), band(area, 1, area.height - 1)],
{
    reveal(pane::shared_out);
    reveal(Areas::fit);
    let extents = outer_extents();
    let v = areas.outer.rows@;
    assert(extents[1] is Min);
    assert(pane::row_of(area, v[0]) && pane::row_of(area, v[1]));
    assert(v =~= seq![band(area, 0, 1), band(area, 1, area.height - 1)]);
}

proof fn lemma_three(split: Split, of: Rect, extents: Seq<Extent>, first: u16, least: u16, last: u16)
    requires
        of.fits(),
        extents == seq![Extent::Length(first), Extent::Min(least), Extent::Length(last)],
        least <= 5,
        first + least + last <= of.height,
        split.is(of, extents),
    ensures
        split.rows@ == seq![
            band(of, 0, first as int),
            band(of, first as int, of.height - first - last),
            band(of, of.height - last, last as int),
        ],
{
    reveal(pane::shared_out);
    let v = split.rows@;
    assert(extents[1] is Min);
    assert(pane::row_of(of, v[0]) && pane::row_of(of, v[1]) && pane::row_of(of, v[2]));
    assert(v =~= seq![
        band(of, 0, first as int),
        band(of, first as int, of.height - first - last),
        band(of, of.height - last, last as int),
    ]);
}

proof fn lemma_two(split: Split, of: Rect, extents: Seq<Extent>, first: u16, least: u16)
    requires
        of.fits(),
        extents == seq![Extent::Length(first), Extent::Min(least)],
        least <= of.height,
        least <= 5,
        split.is(of, extents),
    ensures
        split.rows@ == {
            let top = geometry::min(first as int, of.height - least);
            seq![band(of, 0, top), band(of, top, of.height - top)]
        },
{
    reveal(pane::shared_out);
    let v = split.rows@;
    let top = geometry::min(first as int, of.height - least);
    assert(extents[1] is Min);
    assert(pane::row_of(of, v[0]) && pane::row_of(of, v[1]));
    assert(v =~= seq![band(of, 0, top), band(of, top, of.height - top)]);
}

/// A list view fills the content: the query box takes its top three rows, where the screen takes a
/// query, the legend its last two, and the results all between them.
pub proof fn law_a_list_fills_the_content(a: AppView, areas: Areas, area: Rect)
    requires
        area.fits(),
        !cramped(area),
        areas.fit(a, area),
        !model::detail_route(a.at.route),
    ensures
        a.has_query() ==> areas.rows.rows@ == seq![
            band(area, 1, 3),
            band(area, 4, area.height - 6),
            band(area, area.height - 2, 2),
        ],
        !a.has_query() ==> areas.rows.rows@ == seq![
            band(area, 1, area.height - 3),
            band(area, area.height - 2, 2),
        ],
{
    reveal(pane::shared_out);
    law_the_header_is_the_top_line(a, areas, area);
    reveal(Areas::fit);
    let content = areas.outer.rows@[1];
    let extents = content_extents(a, content);
    let v = areas.rows.rows@;
    if a.has_query() {
        lemma_three(areas.rows, content, extents, 3, 4, 2);
        assert(v =~= seq![band(area, 1, 3), band(area, 4, area.height - 6), band(area, area.height - 2, 2)]);
    } else {
        assert(extents[0] is Min);
        assert(pane::row_of(content, v[0]) && pane::row_of(content, v[1]));
        assert(v =~= seq![band(area, 1, area.height - 3), band(area, area.height - 2, 2)]);
    }
}

/// A detail view fills the content: its title takes the top three rows, its keys the last ones, and what
/// it is about all between them. A trace gives part of that to the summary of the selected span, where
/// it has room. A series' chart has its five rows in every terminal, and its title and readout have
/// theirs in one of thirteen rows.
pub proof fn law_a_detail_fills_the_content(a: AppView, areas: Areas, area: Rect)
    requires
        area.fits(),
        !cramped(area),
        areas.fit(a, area),
        model::detail_route(a.at.route),
    ensures
        a.at.route is LogDetail || a.at.route is SpanDetail ==> areas.rows.rows@ == seq![
            band(area, 1, 3),
            band(area, 4, area.height - 6),
            band(area, area.height - 2, 2),
        ],
        a.at.route matches RouteView::TraceDetail { detail } ==> areas.rows.rows@ == if area.height
            > traces::TRACE_DETAIL_SUMMARY_MIN_ROWS && detail.spans@.len() > 0 {
            seq![
                band(area, 1, 3),
                band(area, 4, area.height - 6 - traces::TRACE_SPAN_SUMMARY_H),
                band(area, area.height - 2 - traces::TRACE_SPAN_SUMMARY_H, traces::TRACE_SPAN_SUMMARY_H as int),
                band(area, area.height - 2, 2),
            ]
        } else {
            seq![band(area, 1, 3), band(area, 4, area.height - 6), band(area, area.height - 2, 2)]
        },
        a.at.route is MetricDetail && area.height >= 13 ==> areas.rows.rows@ == seq![
            band(area, 1, 3),
            band(area, 4, area.height - 8),
            band(area, area.height - 4, 4),
        ],
        a.at.route is MetricDetail && area.height < 13 ==> {
            let v = areas.rows.rows@;
            &&& v.len() == 3
            &&& v[0] == band(area, 1, v[0].height as int)
            &&& v[1] == band(area, 1 + v[0].height, 5)
            &&& v[2] == band(area, 6 + v[0].height, area.height - 6 - v[0].height)
            &&& v[0].height <= 3 && v[2].height <= 4
        },
{
    reveal(pane::shared_out);
    law_the_header_is_the_top_line(a, areas, area);
    reveal(Areas::fit);
    let content = areas.outer.rows@[1];
    let extents = content_extents(a, content);
    let v = areas.rows.rows@;
    match a.at.route {
        RouteView::MetricDetail { .. } => {
            if area.height >= 13 {
                lemma_three(areas.rows, content, extents, 3, 5, 4);
                assert(v =~= seq![band(area, 1, 3), band(area, 4, area.height - 8), band(area, area.height - 4, 4)]);
            } else {
                assert(extents[1] is Min);
                assert(pane::row_of(content, v[0]) && pane::row_of(content, v[1]) && pane::row_of(content, v[2]));
            }
        },
        RouteView::TraceDetail { detail } => {
            if area.height > traces::TRACE_DETAIL_SUMMARY_MIN_ROWS && detail.spans@.len() > 0 {
                assert(extents =~= seq![
                    Extent::Length(3),
                    Extent::Min(3),
                    Extent::Length(traces::TRACE_SPAN_SUMMARY_H),
                    Extent::Length(2),
                ]);
                assert(extents[1] is Min);
                assert(pane::row_of(content, v[0]) && pane::row_of(content, v[1]));
                assert(pane::row_of(content, v[2]) && pane::row_of(content, v[3]));
                assert(v =~= seq![
                    band(area, 1, 3),
                    band(area, 4, area.height - 6 - traces::TRACE_SPAN_SUMMARY_H),
                    band(area, area.height - 2 - traces::TRACE_SPAN_SUMMARY_H, traces::TRACE_SPAN_SUMMARY_H as int),
                    band(area, area.height - 2, 2),
                ]);
            } else {
                assert(extents =~= seq![Extent::Length(3), Extent::Min(3), Extent::Length(2)]);
                lemma_three(areas.rows, content, extents, 3, 3, 2);
                assert(v =~= seq![band(area, 1, 3), band(area, 4, area.height - 6), band(area, area.height - 2, 2)]);
            }
        },
        _ => {
            lemma_three(areas.rows, content, extents, 3, 3, 2);
            assert(v =~= seq![band(area, 1, 3), band(area, 4, area.height - 6), band(area, area.height - 2, 2)]);
        },
    }
}

/// The results fill their place: a chart takes its top six rows, and of what is left a preview takes the
/// lower part, from the row nearest to fifty-five of a hundred on, and a pane in its own right all that
/// the text above it does not ask for.
pub proof fn law_the_results_fill_their_place(a: AppView, areas: Areas, area: Rect)
    requires
        area.fits(),
        !cramped(area),
        areas.fit(a, area),
        !model::detail_route(a.at.route),
    ensures
        areas.chart matches Some(split) ==> {
            let main = main_area(a, areas.rows.rows@);
            split.rows@ == seq![band(main, 0, 6), band(main, 6, main.height - 6)]
        },
        areas.halves matches Some(split) ==> {
            let list = areas.list(a);
            let detail = *(a.snapshot.detail->0);
            let top = if detail.style == DetailStyle::Pane {
                geometry::min(
                    pane::rows_asked(halves_extents(a, detail, list), 0),
                    list.height - 3,
                )
            } else {
                (55 * list.height + 50) / 100
            };
            split.rows@ == seq![band(list, 0, top), band(list, top, list.height - top)]
        },
{
    reveal(pane::shared_out);
    law_a_list_fills_the_content(a, areas, area);
    reveal(Areas::fit);
    let main = main_area(a, areas.rows.rows@);
    assert(main.fits() && main.height >= 4);
    if let Some(split) = areas.chart {
        lemma_two(split, main, seq![Extent::Length(6), Extent::Min(3)], 6, 3);
    }
    let list = areas.list(a);
    assert(list.fits() && list.height >= 3);
    if let Some(split) = areas.halves {
        let detail = a.snapshot.detail->0;
        let extents = split.extents@;
        let v = split.rows@;
        assert(pane::row_of(list, v[0]) && pane::row_of(list, v[1]));
        if detail.style == DetailStyle::Pane {
            assert(extents == seq![extents[0], Extent::Min(3)]);
            lemma_two(split, list, extents, extents[0]->Length_0, 3);
        } else {
            let top = (55 * list.height + 50) / 100;
            assert(v =~= seq![band(list, 0, top), band(list, top, list.height - top)]);
        }
    }
}

/// The cell in which the caret of an edited query is painted: in the line below the top border of the
/// query box, as many columns right of its left border as the caret has columns before it on view.
pub open spec fn caret_cell(a: AppView, g: Glyphs, query_box: Rect) -> (int, int) {
    (
        query_box.x + 1 + chrome::query_column(a, g) - chrome::query_offset(a, g, query_box),
        query_box.y + 1,
    )
}

/// The query box of a frame is its second pane, right below the header. The caret of an edited query
/// stands in its line, between its borders; where the query before the caret is longer than the box, it
/// stands just inside the right border.
pub proof fn law_the_caret_stands_in_the_query_box(
    a: AppView,
    areas: Areas,
    m: Moment,
    f: FiguresView,
    g: Glyphs,
    query: Seq<SpanView>,
    panes: Seq<PaneView>,
)
    requires
        m.area.fits(),
        !cramped(m.area),
        areas.fit(a, m.area),
        a.has_query(),
        is_frame(a, areas, m, f, g, query, panes),
    ensures
        panes.len() > 1,
        panes[1] == chrome::query_pane(fresh(a), g, band(m.area, 1, 3), query),
        a.mode == Mode::Editing ==> {
            let (x, y) = caret_cell(a, g, panes[1].area);
            &&& y == m.area.y + 2
            &&& m.area.x < x < m.area.x + m.area.width - 1
            &&& chrome::query_column(a, g) < m.area.width - 2 ==> x == m.area.x + 1 + chrome::query_column(a, g)
            &&& chrome::query_column(a, g) >= m.area.width - 2 ==> x == m.area.x + m.area.width - 2
        },
{
    reveal(is_frame);
    law_a_list_fills_the_content(a, areas, m.area);
    let b = fresh(a);
    let first = seq![chrome::header(b, g, areas.outer.rows@[0], m.wall_ns)];
    let content = content_panes(b, areas, f, g, query);
    assert(content == list_panes(b, areas, g, query));
    let above = above_panes(b, areas, g, query);
    assert(above[0] == chrome::query_pane(b, g, areas.rows.rows@[0], query));
    assert(content[0] == above[0]);
    assert(panes[1] == content[0]);
    reveal(chrome::query_pane);
    if a.mode == Mode::Editing {
        chrome::law_the_caret_of_the_query_is_visible(a, g, band(m.area, 1, 3));
    }
}

} // verus!
