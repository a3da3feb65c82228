//! The panes of the details, of the attribute statistics, and the mascot's moods.

use vstd::prelude::*;

use std::sync::Arc;

use crate::app::AppView;
use crate::app::nav;
use crate::detail_text;
use crate::geometry::Rect;
use crate::mascot;
use crate::mascot::{Chance, ChartRideIgniter, MascotEvent};
use crate::model::{DetailPane, DetailStyle, Focus, LogRecord, NavView, RouteView, SpanRecord, TraceDetail};
use crate::text;
use crate::ui;
use crate::ui::glyphs::Glyphs;
use crate::ui::logs;
use crate::ui::metrics;
use crate::ui::metrics::SeriesView;
use crate::ui::pane::{BodyView, Extent};
use crate::ui::results;
use crate::ui::traces;

verus! {

/// The detail of a log shows its lines, scrolled to where it stands, and below them its keys: Enter opens the
/// trace where the log has one.
pub proof fn law_the_log_detail_shows_its_record(a: AppView, record: LogRecord, rows: Seq<Rect>, focused: bool, g: Glyphs)
    requires
        rows.len() == 3,
    ensures
        ({
            let panes = logs::log_panes(a, record, rows, focused, g);
            let lines = detail_text::log_lines(record);
            let end = results::scroll_end(lines, rows[1]);
            &&& panes.len() == 3
            &&& panes[0].area == rows[0] && panes[1].area == rows[1] && panes[2].area == rows[2]
            &&& panes[1].body matches BodyView::Prose { text, scroll, .. } && text == text::join(lines, "\n"@) && scroll == if a.at.scroll
                <= end {
                a.at.scroll as int
            } else {
                end
            }
        }),
{
    reveal(logs::log_panes);
    lemma_end(detail_text::log_lines(record), rows[1]);
}

proof fn lemma_end(lines: Seq<Seq<char>>, area: Rect)
    ensures
        0 <= results::scroll_end(lines, area) <= u16::MAX,
{
}

/// The detail of a span shows its fields, scrolled to where it stands, under its name.
pub proof fn law_the_span_detail_shows_its_fields(
    a: AppView,
    trace_id: Seq<char>,
    span: SpanRecord,
    rows: Seq<Rect>,
    focused: bool,
    g: Glyphs,
)
    requires
        rows.len() == 3,
    ensures
        ({
            let panes = traces::span_panes(a, trace_id, span, rows, focused, g);
            let lines = detail_text::span_lines(trace_id, span, g);
            let end = results::scroll_end(lines, rows[1]);
            &&& panes.len() == 3
            &&& panes[0].body matches BodyView::Lines { lines: head, .. } && head.len() == 1 && head[0].len() == 1 && head[0][0].text
                == " "@ + span.name@ + " "@
            &&& panes[1].body matches BodyView::Prose { text, scroll, .. } && text == text::join(lines, "\n"@) && scroll == if a.at.scroll
                <= end {
                a.at.scroll as int
            } else {
                end
            }
        }),
{
    reveal(traces::span_panes);
    lemma_end(detail_text::span_lines(trace_id, span, g), rows[1]);
}

/// The detail of a trace shows its head, its waterfall, where there is room the summary of the span under the
/// cursor, and its keys.
pub proof fn law_the_trace_detail_summarizes_the_span_under_the_cursor(
    a: AppView,
    detail: Arc<TraceDetail>,
    rows: Seq<Rect>,
    focused: bool,
    g: Glyphs,
)
    requires
        rows.len() == 4,
        a.at.span_cursor < detail.spans@.len(),
    ensures
        ({
            let panes = traces::trace_panes(a, detail, rows, focused, g);
            &&& panes.len() == 4
            &&& panes[0].body matches BodyView::Prose { text, .. } && text == traces::trace_head(*detail, g.sep@, g.ascii)
            &&& panes[1] == traces::waterfall_pane(a, detail, rows[1], focused, g)
            &&& panes[2].area == rows[2]
            &&& panes[2].body matches BodyView::Prose { text, .. } && text == text::join(
                detail_text::summary_lines(*detail.spans@[a.at.span_cursor as int], g),
                "\n"@,
            )
            &&& panes[3].area == rows[3]
        }),
{
    reveal(traces::trace_panes);
}

/// The head of a series' detail shows its labels, or a pair of braces, and its query in the title.
pub proof fn law_the_series_detail_names_the_series(detail: SeriesView, area: Rect, dash: Seq<char>)
    ensures
        metrics::series_head(detail, area, dash).title == "Metric series "@ + dash + " "@ + detail.query,
        metrics::series_head(detail, area, dash).body matches BodyView::Lines { lines, .. } && lines.len() == 1 && lines[0].len() == 2
            && lines[0][1].text == " "@ + (if detail.labels.len() == 0 { "{}"@ } else { detail.labels }),
{
}

/// On the Overview the text has as many rows as it has lines and its border, three at least, and the attribute pane
/// the rest, four rows at least where there are seven.
pub proof fn law_the_attribute_pane_takes_what_the_text_leaves(a: AppView, detail: DetailPane, area: Rect)
    requires
        detail.style == DetailStyle::Pane,
        a.snapshot.lines.len() < 60_000,
        area.height >= 7,
    ensures
        ui::halves_extents(a, detail, area) == seq![
            Extent::Length(
                (if a.snapshot.lines.len() + 2 <= 3 {
                    3
                } else if a.snapshot.lines.len() + 2 <= area.height - 4 {
                    a.snapshot.lines.len() as int + 2
                } else {
                    area.height - 4
                }) as u16,
            ),
            Extent::Min(3),
        ],
{
}

/// The attribute pane shows its notes, and below them its table, a line for each row; a row of the table is selected
/// where the focus is on one of its sections, and it is the row of the cursor.
pub proof fn law_the_attribute_pane_shows_notes_and_table(
    a: AppView,
    detail: DetailPane,
    area: Rect,
    parts: Seq<Rect>,
    g: Glyphs,
    i: int,
)
    requires
        parts.len() == 2,
        detail.table is Some,
        0 <= i < detail.lines@.len(),
    ensures
        ({
            let panes = results::attr_panes(a, detail, area, parts, g);
            &&& panes.len() == 3
            &&& panes[1].area == parts[0] && panes[2].area == parts[1]
            &&& panes[1].body matches BodyView::Lines { lines, .. } && lines.len() == detail.lines@.len() && lines[i].len() == 1
                && lines[i][0].text == detail.lines@[i]@
            &&& panes[2].body matches BodyView::Items { items, selected, .. } && items == results::attr_lines(detail.table->0) && (
            !(a.effective_focus() is AttrTable) ==> selected is None) && (a.effective_focus() is AttrTable ==> (a.selectable() matches Some(
                (first, last),
            ) ==> (first <= a.at.selected <= last ==> selected == Some(a.at.selected))))
        }),
{
    reveal(results::attr_panes);
}

/// The mascot waddles: its phase changes every second, and its picture with it; it looks to the right going right,
/// and to the left else.
pub proof fn law_the_mascot_waddles(t: int, facing: int)
    requires
        t >= 0,
    ensures
        mascot::phase_of(t) == 0 || mascot::phase_of(t) == 1,
        mascot::phase_of(t + 1_000_000_000) == 1 - mascot::phase_of(t),
        mascot::phase_of(t) == t / 1_000_000_000 % 2,
        facing > 0 ==> mascot::art_frame(facing, mascot::phase_of(t)) == mascot::phase_of(t),
        facing <= 0 ==> mascot::art_frame(facing, mascot::phase_of(t)) == 2 + mascot::phase_of(t),
{
    lemma_phase(t);
    lemma_phase(t + 1_000_000_000);
    assert((t + 1_000_000_000) / 1_000_000_000 == t / 1_000_000_000 + 1);
}

proof fn lemma_phase(t: int)
    requires
        t >= 0,
    ensures
        mascot::phase_of(t) == t / 1_000_000_000 % 2,
{
    let q = t / 2_000_000_000;
    let r = t % 2_000_000_000;
    assert(mascot::MASCOT_FRAME_NS * 2 == 2_000_000_000);
    assert(t == 2_000_000_000 * q + r);
    assert(0 <= r / 1_000_000_000 <= 1);
    assert(t / 1_000_000_000 == 2 * q + r / 1_000_000_000);
    assert(mascot::phase_of(t) == r / 1_000_000_000);
}

/// The mascot may ride a chart for two seconds after one is opened, and, more rarely, after it refreshed by itself;
/// nothing else sets it off.
pub proof fn law_what_sets_the_mascot_off(ig: ChartRideIgniter, ev: MascotEvent)
    ensures
        ev == (MascotEvent::Navigated { on_metric_chart: true }) ==> mascot::armed(ig, ev) == (ChartRideIgniter {
            armed_ns: 2_000_000_000,
            rolled: false,
            chance: Chance::Usual,
        }),
        ev == (MascotEvent::Refreshed { auto: true }) ==> mascot::armed(ig, ev) == (ChartRideIgniter {
            armed_ns: 2_000_000_000,
            rolled: false,
            chance: Chance::Rare,
        }),
        ev != (MascotEvent::Navigated { on_metric_chart: true }) && ev != (MascotEvent::Refreshed { auto: true })
            ==> mascot::armed(ig, ev) == ig,
{
}

/// A step up from a span whose trace is not the one held leads to that trace as the history has it: the most recent
/// view of it.
pub proof fn law_a_step_up_finds_the_visited_trace(a: AppView, k: int, id: Seq<char>, detail: Arc<TraceDetail>)
    requires
        a.at.route matches RouteView::SpanDetail { trace_id, .. } && trace_id == id,
        a.trace.trace_detail is None,
        0 <= k < a.back.len(),
        a.back[k].route == (RouteView::TraceDetail { detail }),
        detail.trace_id@ == id,
        forall|j: int| k < j < a.back.len() ==> !((#[trigger] a.back[j]).route is TraceDetail),
    ensures
        a.go_up() matches Some(b) && b.at.route == (RouteView::TraceDetail { detail }),
{
    lemma_visited(a.back, a.back.len() as int, k, id, detail);
}

proof fn lemma_visited(back: Seq<NavView>, n: int, k: int, id: Seq<char>, detail: Arc<TraceDetail>)
    requires
        0 <= k < n <= back.len(),
        back[k].route == (RouteView::TraceDetail { detail }),
        detail.trace_id@ == id,
        forall|j: int| k < j < back.len() ==> !((#[trigger] back[j]).route is TraceDetail),
    ensures
        nav::visited_trace(back, n, id) == Some(detail),
    decreases n,
{
    if n - 1 > k {
        assert(!(back[n - 1].route is TraceDetail));
        lemma_visited(back, n - 1, k, id, detail);
    }
}

/// Entering a section of the attribute table leaves the cursor on its key where it stands on one of them, and else
/// takes it to the next key of the section, or to its first.
pub proof fn law_entering_a_section_finds_a_key(a: AppView, section: int, k: int)
    requires
        a.effective_focus() == Focus::AttrTable(section as usize),
        0 <= section <= usize::MAX,
        0 <= k < a.attr_keys(section).len(),
        a.at.selected <= a.attr_keys(section)[k],
        forall|j: int| 0 <= j < k ==> #[trigger] a.attr_keys(section)[j] < a.at.selected,
    ensures
        a.snap().at.selected == a.attr_keys(section)[k],
        a.snap().focus == a.focus,
{
    lemma_first(a.attr_keys(section), a.at.selected, 0, k);
}

proof fn lemma_first(keys: Seq<usize>, x: usize, i: int, k: int)
    requires
        0 <= i <= k < keys.len(),
        keys[k] >= x,
        forall|j: int| 0 <= j < k ==> #[trigger] keys[j] < x,
    ensures
        crate::app::attributes::first_at_least(keys, x, i) == Some(k),
    decreases k - i,
{
    if i < k {
        assert(keys[i] < x);
        lemma_first(keys, x, i + 1, k);
    }
}

} // verus!
