//! The Traces panes: the full trace and the fields of a span.

use std::sync::Arc;

use vstd::prelude::*;

use crate::app::{App, AppView, FrameState};
use crate::detail_text;
use crate::geometry;
use crate::geometry::Rect;
use crate::model;
use crate::model::{SpanRecord, TraceDetail};
use crate::style;
use crate::style::{Color, Span, Style};
use crate::text;
use crate::time;
use crate::ui::glyphs::Glyphs;
use crate::ui::logs;
use crate::ui::pane;
use crate::ui::pane::{Body, BodyView, Border, Extent, Pane, PaneView, Wrap};
use crate::ui::results;
use crate::waterfall;

verus! {

/// The rows of the summary of the span under the cursor, its border included.
pub const TRACE_SPAN_SUMMARY_H: u16 = 7;

/// The rows from which on the trace detail has room for the summary.
pub const TRACE_DETAIL_SUMMARY_MIN_ROWS: u16 = 18;

/// Whether the span failed.
pub open spec fn failed(span: SpanRecord) -> bool {
    span.status_code@ == "ERROR"@
}

/// The looks of the first `n` rows of a waterfall: a span that failed stands out.
pub open spec fn span_looks(spans: Seq<Arc<SpanRecord>>, n: nat) -> Seq<Style>
    decreases n,
{
    if n == 0 {
        Seq::empty()
    } else {
        span_looks(spans, (n - 1) as nat).push(
            if failed(*spans[n - 1]) { style::colored(Color::Red) } else { style::plain() },
        )
    }
}

/// Whether the trace detail shows the summary of the span under the cursor.
pub open spec fn with_summary(detail: TraceDetail, area: Rect) -> bool {
    area.height >= TRACE_DETAIL_SUMMARY_MIN_ROWS && detail.spans@.len() > 0
}

/// The rows of the trace detail.
pub open spec fn trace_extents(detail: TraceDetail, area: Rect) -> Seq<Extent> {
    if with_summary(detail, area) {
        seq![Extent::Length(3), Extent::Min(3), Extent::Length(TRACE_SPAN_SUMMARY_H), Extent::Length(2)]
    } else {
        seq![Extent::Length(3), Extent::Min(3), Extent::Length(2)]
    }
}

/// The service and the operation that the trace began with.
pub open spec fn root_text(detail: TraceDetail, sep: Seq<char>) -> Seq<char> {
    match (detail.root_service, detail.root_name) {
        (Some(service), Some(name)) => service@ + " "@ + sep + " "@ + name@,
        (Some(service), None) => service@,
        (None, Some(name)) => name@,
        (None, None) => "(no root span)"@,
    }
}

/// The head of the trace detail: the id and the shape of the trace.
pub open spec fn trace_head(detail: TraceDetail, sep: Seq<char>, ascii: bool) -> Seq<char> {
    detail.trace_id@ + "  "@ + sep + " "@ + text::dec(detail.spans@.len()) + " spans  "@ + sep + " "@ + time::duration_text(
        detail.duration_ns as nat,
        ascii,
    ) + "  "@ + sep + " "@ + time::timestamp_text(detail.start_time_ns as int)
}

/// The span that the cursor is on.
pub open spec fn span_at(a: AppView, detail: TraceDetail) -> int {
    geometry::min(a.at.span_cursor as int, geometry::monus(detail.spans@.len() as int, 1))
}

/// The first span on view in the waterfall: as far up as the cursor's row allows.
pub open spec fn first_span(a: AppView, detail: TraceDetail, area: Rect) -> int {
    geometry::monus(span_at(a, detail) + 1, results::viewport(area))
}

/// The spans that stay in view above the others: those that the cursor's span hangs under, where they are
/// scrolled off and pinning is on. The cursor's own row is never covered.
pub open spec fn pinned_spans(a: AppView, detail: TraceDetail, area: Rect) -> Seq<int> {
    if a.trace.sticky_waterfall {
        waterfall::pinned(
            waterfall::spans_of(detail),
            span_at(a, detail),
            first_span(a, detail, area),
            geometry::min(waterfall::STICKY_DEPTH as int, geometry::monus(results::viewport(area), 1)) as nat,
            detail.spans@.len(),
        )
    } else {
        Seq::empty()
    }
}

/// The cursor's row is on view in the waterfall, below what is pinned, and only spans that are scrolled
/// off are pinned.
pub proof fn law_the_span_cursor_is_in_view(a: AppView, detail: TraceDetail, area: Rect)
    requires
        detail.spans@.len() > 0,
        results::viewport(area) > 0,
    ensures
        first_span(a, detail, area) + pinned_spans(a, detail, area).len() <= span_at(a, detail) < first_span(a, detail, area)
            + results::viewport(area),
        forall|k: int|
            0 <= k < pinned_spans(a, detail, area).len() ==> 0 <= #[trigger] pinned_spans(a, detail, area)[k] < first_span(
                a,
                detail,
                area,
            ),
{
    waterfall::law_pinned_rows_are_scrolled_off(
        waterfall::spans_of(detail),
        span_at(a, detail),
        first_span(a, detail, area),
        geometry::min(waterfall::STICKY_DEPTH as int, geometry::monus(results::viewport(area), 1)) as nat,
        detail.spans@.len(),
    );
}

/// The waterfall of the trace detail.
pub open spec fn waterfall_pane(a: AppView, detail: Arc<TraceDetail>, area: Rect, focused: bool, g: Glyphs) -> PaneView {
    let n = detail.spans@.len();
    PaneView {
        area,
        clear: false,
        title: if n == 0 {
            "Spans"@
        } else {
            results::scrolled_title("Spans"@, span_at(a, *detail) + 1, n as int, g.up@ + g.down@)
        },
        border: Border::Boxed(pane::border_look(focused)),
        style: style::plain(),
        body: if n == 0 {
            BodyView::Items {
                items: seq![pane::line("(no spans)"@, style::colored(Color::DarkGray))],
                selected: None,
                first: 0,
            }
        } else {
            BodyView::Waterfall {
                trace: detail,
                shown: n as usize,
                selected: Some(span_at(a, *detail) as usize),
                looks: span_looks(detail.spans@, n),
                first: first_span(a, *detail, area) as usize,
                pinned: pinned_spans(a, *detail, area),
            }
        },
    }
}

/// The keys of the trace detail.
pub open spec fn trace_hint(g: Glyphs) -> Seq<char> {
    "esc/"@ + g.left@ + " back "@ + g.sep@ + " "@ + (g.up@ + g.down@) + " span "@ + g.sep@ + " enter span fields "@ + g.sep@
        + " L logs for span "@ + g.sep@ + " "@ + g.right@ + " fwd"@
}

/// The panes of the trace detail, in three rows, or in four where the span under the cursor is
/// summarized.
#[verifier::opaque]
pub open spec fn trace_panes(a: AppView, detail: Arc<TraceDetail>, rows: Seq<Rect>, focused: bool, g: Glyphs) -> Seq<PaneView> {
    let head = seq![
        pane::prose(
            rows[0],
            "Trace "@ + g.sep@ + " "@ + root_text(*detail, g.sep@),
            false,
            trace_head(*detail, g.sep@, g.ascii),
            Wrap::Trim,
            0,
        ),
        waterfall_pane(a, detail, rows[1], focused, g),
    ];
    let last = pane::hint(rows[rows.len() - 1], trace_hint(g));
    if rows.len() == 4 && detail.spans@.len() > 0 {
        head.push(
            pane::prose(
                rows[2],
                "Span "@ + g.sep@ + " enter: fields"@,
                false,
                text::join(detail_text::summary_lines(*detail.spans@[span_at(a, *detail)], g), "\n"@),
                Wrap::Keep,
                0,
            ),
        ).push(last)
    } else {
        head.push(last)
    }
}

fn looks_of(spans: &Vec<Arc<SpanRecord>>) -> (r: Vec<Style>)
    ensures
        r@ == span_looks(spans@, spans@.len()),
{
    let n: usize = spans.len();
    let mut out: Vec<Style> = Vec::new();
    let mut i: usize = 0;
    while i < n
        invariant
            n == spans@.len(),
            i <= n,
            out@ == span_looks(spans@, i as nat),
        decreases n - i,
    {
        out.push(if text::same(&spans[i].status_code, "ERROR") { Style::fg(Color::Red) } else { Style::plain() });
        i += 1;
    }
    out
}

/// The rows of the trace detail.
pub(crate) fn extents_of(detail: &TraceDetail, area: Rect) -> (r: Vec<Extent>)
    ensures
        r@ == trace_extents(*detail, area),
{
    let mut v: Vec<Extent> = Vec::new();
    v.push(Extent::Length(3));
    v.push(Extent::Min(3));
    if area.height >= TRACE_DETAIL_SUMMARY_MIN_ROWS && detail.spans.len() > 0 {
        v.push(Extent::Length(TRACE_SPAN_SUMMARY_H));
    }
    v.push(Extent::Length(2));
    assert(v@ =~= trace_extents(*detail, area));
    v
}

fn waterfall_of(app: &App, detail: &Arc<TraceDetail>, area: Rect, focused: bool, g: &Glyphs) -> (r: Pane)
    ensures
        r@ == waterfall_pane(app@, *detail, area, focused, *g),
{
    let n: usize = detail.spans.len();
    if n == 0 {
        let mut items: Vec<Vec<Span>> = Vec::new();
        items.push(pane::one_line(text::owned("(no spans)"), Style::fg(Color::DarkGray)));
        assert(pane::lines_view(items@) =~= seq![pane::line("(no spans)"@, style::colored(Color::DarkGray))]);
        return Pane {
            area,
            clear: false,
            title: text::owned("Spans"),
            border: Border::Boxed(pane::focus_border(focused)),
            style: Style::plain(),
            body: Body::Items { items, selected: None, first: 0 },
        };
    }
    let at: usize = if app.at.span_cursor < n - 1 { app.at.span_cursor } else { n - 1 };
    let viewport: usize = geometry::monus16(area.height, 2) as usize;
    let first: usize = if at + 1 > viewport { at + 1 - viewport } else { 0 };
    let room: usize = if viewport > 0 { viewport - 1 } else { 0 };
    let most: usize = if waterfall::STICKY_DEPTH < room { waterfall::STICKY_DEPTH } else { room };
    let pinned: Vec<usize> = if app.trace.sticky_waterfall {
        waterfall::pinned_rows(detail, at, first, most)
    } else {
        Vec::new()
    };
    assert(waterfall::row_numbers(pinned@) =~= pinned_spans(app@, **detail, area));
    let mut title = text::owned("Spans");
    title.append("  [");
    text::push_dec(&mut title, at as u64 + 1);
    title.append("/");
    text::push_dec(&mut title, n as u64);
    title.append(" ");
    title.append(&g.scroll());
    title.append("]");
    Pane {
        area,
        clear: false,
        title,
        border: Border::Boxed(pane::focus_border(focused)),
        style: Style::plain(),
        body: Body::Waterfall {
            trace: model::share(detail),
            shown: n,
            selected: Some(at),
            looks: looks_of(&detail.spans),
            first,
            pinned,
        },
    }
}

/// The full trace: its id and shape, the whole waterfall with a span cursor, and, where there is
/// room, a summary of the span under the cursor.
pub fn draw_trace_detail(
    app: &mut App,
    detail: &Arc<TraceDetail>,
    rows: &Vec<Rect>,
    focused: bool,
    g: &Glyphs,
    out: &mut Vec<Pane>,
)
    requires
        rows@.len() == 3 || rows@.len() == 4,
    ensures
        pane::panes(final(out)@) == pane::panes(old(out)@) + trace_panes(old(app)@, *detail, rows@, focused, *g),
        final(app)@ == (AppView {
            frame: FrameState {
                page_rows: geometry::max(results::viewport(rows@[1]), 1) as u16,
                ..old(app)@.frame
            },
            ..old(app)@
        }),
{
    proof {
        reveal(trace_panes);
    }
    let ghost before = pane::panes(out@);
    let ghost a = app@;
    let n: usize = detail.spans.len();
    let count: usize = rows.len();
    let mut title = text::cat3("Trace ", g.sep, " ");
    match (&detail.root_service, &detail.root_name) {
        (Some(service), Some(name)) => {
            let mut root = text::cat3(service, " ", g.sep);
            root.append(" ");
            root.append(name);
            title.append(&root);
        },
        (Some(service), None) => {
            title.append(service);
        },
        (None, Some(name)) => {
            title.append(name);
        },
        (None, None) => {
            title.append("(no root span)");
        },
    }
    let mut head = text::cat3(&detail.trace_id, "  ", g.sep);
    head.append(" ");
    text::push_dec(&mut head, n as u64);
    head.append(" spans  ");
    head.append(g.sep);
    head.append(" ");
    head.append(&time::format_duration_ns(detail.duration_ns, g.ascii));
    head.append("  ");
    head.append(g.sep);
    head.append(" ");
    head.append(&time::format_timestamp_ns(detail.start_time_ns));
    pane::add_pane(out, pane::prose_pane(rows[0], title, false, head, Wrap::Trim, 0));
    pane::add_pane(out, waterfall_of(app, detail, rows[1], focused, g));
    if count == 4 && n > 0 {
        let at: usize = if app.at.span_cursor < n - 1 { app.at.span_cursor } else { n - 1 };
        let lines = detail_text::span_summary_lines(&detail.spans[at], g);
        pane::add_pane(
            out,
            pane::prose_pane(
                rows[2],
                text::cat3("Span ", g.sep, " enter: fields"),
                false,
                text::joined(&lines, "\n"),
                Wrap::Keep,
                0,
            ),
        );
    }
    let mut keys = text::cat3("esc/", g.left, " back ");
    keys.append(g.sep);
    keys.append(" ");
    keys.append(&g.scroll());
    keys.append(" span ");
    keys.append(g.sep);
    keys.append(" enter span fields ");
    keys.append(g.sep);
    keys.append(" L logs for span ");
    keys.append(g.sep);
    keys.append(" ");
    keys.append(g.right);
    keys.append(" fwd");
    pane::add_pane(out, pane::hint_pane(rows[count - 1], keys));
    assert(pane::panes(out@) =~= before + trace_panes(a, *detail, rows@, focused, *g));
    app.frame.page_rows = geometry::max16(geometry::monus16(rows[1].height, 2), 1);
}

/// The keys of the span detail.
pub open spec fn span_hint(g: Glyphs) -> Seq<char> {
    "esc/"@ + g.left@ + " back "@ + g.sep@ + " L logs for this span "@ + g.sep@ + " "@ + (g.up@ + g.down@) + " scroll "@
        + g.sep@ + " "@ + g.right@ + " fwd"@
}

/// The panes of the span detail, in three rows.
#[verifier::opaque]
pub open spec fn span_panes(
    a: AppView,
    trace_id: Seq<char>,
    span: SpanRecord,
    rows: Seq<Rect>,
    focused: bool,
    g: Glyphs,
) -> Seq<PaneView> {
    seq![
        logs::banner(rows[0], "Span detail"@, " "@ + span.name@ + " "@),
        results::scrolled_pane(
            "Fields"@,
            detail_text::span_lines(trace_id, span, g),
            rows[1],
            a.at.scroll as int,
            focused,
            g,
        ),
        pane::hint(rows[2], span_hint(g)),
    ]
}

/// The fields of one span, scrollable.
pub fn draw_span_detail(
    app: &mut App,
    trace_id: &str,
    span: &SpanRecord,
    rows: &Vec<Rect>,
    focused: bool,
    g: &Glyphs,
    out: &mut Vec<Pane>,
)
    requires
        rows@.len() == 3,
    ensures
        pane::panes(final(out)@) == pane::panes(old(out)@) + span_panes(
            old(app)@,
            trace_id@,
            *span,
            rows@,
            focused,
            *g,
        ),
        final(app)@ == (AppView {
            frame: results::scrolled_frame(old(app)@.frame, detail_text::span_lines(trace_id@, *span, *g), rows@[1]),
            ..old(app)@
        }),
{
    proof {
        reveal(span_panes);
    }
    let ghost before = pane::panes(out@);
    let ghost a = app@;
    pane::add_pane(out, logs::banner_pane(rows[0], "Span detail", text::cat3(" ", &span.name, " ")));
    let lines = detail_text::span_detail_lines(trace_id, span, g);
    pane::add_pane(out, results::draw_scrolled(app, "Fields", &lines, rows[1], focused, g));
    let mut keys = text::cat3("esc/", g.left, " back ");
    keys.append(g.sep);
    keys.append(" L logs for this span ");
    keys.append(g.sep);
    keys.append(" ");
    keys.append(&g.scroll());
    keys.append(" scroll ");
    keys.append(g.sep);
    keys.append(" ");
    keys.append(g.right);
    keys.append(" fwd");
    pane::add_pane(out, pane::hint_pane(rows[2], keys));
    assert(pane::panes(out@) =~= before + span_panes(a, trace_id@, *span, rows@, focused, *g));
}

} // verus!
