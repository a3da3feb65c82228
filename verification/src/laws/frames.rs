//! What a frame shows: the header, the panes of each view, and the overlays.

use vstd::prelude::*;

use std::sync::Arc;

use crate::app::AppView;
use crate::completion::{CandidateKind, CompletionView};
use crate::geometry::Rect;
use crate::laws::keys::rows;
use crate::model;
use crate::model::{AbsTarget, DetailPane, Focus, Mode, RouteView, Screen, TableView, TraceDetail};
use crate::style;
use crate::style::{Color, Style};
use crate::text;
use crate::time;
use crate::ui;
use crate::ui::chrome;
use crate::ui::glyphs::Glyphs;
use crate::ui::metrics;
use crate::ui::metrics::FiguresView;
use crate::ui::overlays;
use crate::ui::pane::{BodyView, Border};
use crate::ui::results;
use crate::ui::traces;
use crate::ui::{Areas, Moment};

verus! {

/// The plain look in one colour.
pub open spec fn tinted(c: Color) -> Style {
    Style { fg: Some(c), bg: None, bold: false, underlined: false, reversed: false }
}

/// The look of plain text.
pub open spec fn unmarked() -> Style {
    Style { fg: None, bg: None, bold: false, underlined: false, reversed: false }
}

/// The spans of the header's one line.
pub open spec fn header_line(a: AppView, g: Glyphs, area: Rect, now: i64) -> Seq<style::SpanView> {
    chrome::header(a, g, area, now).body->Lines_lines[0]
}

/// The header lists the four screens by their digits, in order, and ends in the time range. Away from the
/// focus, the screen that is shown stands out in grey, and no other does.
pub proof fn law_the_header_lists_the_screens(a: AppView, g: Glyphs, area: Rect, now: i64)
    requires
        a.mode == Mode::Normal,
        a.focus == Focus::Primary,
    ensures
        ({
            let spans = header_line(a, g, area, now);
            let grey = Style { fg: Some(Color::Black), bg: Some(Color::Gray), bold: false, underlined: false, reversed: false };
            let bar = Style {
                fg: Some(Color::Black),
                bg: Some(if a.load.loading { Color::DarkGray } else { Color::Blue }),
                bold: false,
                underlined: false,
                reversed: false,
            };
            &&& spans.len() == 12
            &&& spans[0].text == " IMBH "@
            &&& spans[2].text == " "@ + "1 Overview"@ + " "@
            &&& spans[4].text == " "@ + "2 Metrics"@ + " "@
            &&& spans[6].text == " "@ + "3 Traces"@ + " "@
            &&& spans[8].text == " "@ + "4 Logs"@ + " "@
            &&& spans[2].style == if a.screen() == Screen::Overview { grey } else { bar }
            &&& spans[4].style == if a.screen() == Screen::Metrics { grey } else { bar }
            &&& spans[6].style == if a.screen() == Screen::Traces { grey } else { bar }
            &&& spans[8].style == if a.screen() == Screen::Logs { grey } else { bar }
            &&& spans[11].style == bar
        }),
{
    reveal(chrome::header);
    reveal_with_fuel(chrome::left_spans, 5);
}

/// The item of the header that the focus is on, or the cursor of the menu bar, stands out in bold cyan on
/// black, and the header turns cyan.
pub proof fn law_the_header_marks_the_focused_item(a: AppView, g: Glyphs, area: Rect, now: i64, i: int)
    requires
        0 <= i < 5,
        (a.mode == Mode::Menu && a.menu_cursor == i) || (a.mode == Mode::Normal && a.focus == if i == 4 {
            Focus::TimeRange
        } else {
            Focus::Menu(i as usize)
        }),
    ensures
        header_line(a, g, area, now)[if i == 4 { 11 } else { 2 + 2 * i }].style == (Style {
            fg: Some(Color::Cyan),
            bg: Some(Color::Black),
            bold: true,
            underlined: false,
            reversed: false,
        }),
        header_line(a, g, area, now)[0].style.bg == Some(Color::Cyan),
{
    reveal(chrome::header);
    reveal_with_fuel(chrome::left_spans, 5);
}

/// The header ends in the window and the clock: the preset, or the start and the end of an absolute window,
/// and the current time.
pub proof fn law_the_header_tells_the_window(a: AppView, g: Glyphs, area: Rect, now: i64)
    ensures
        ({
            let t = header_line(a, g, area, now)[11].text;
            let sign = if a.load.auto_refresh && a.range.abs_window is None { "!"@ } else { ""@ };
            let clock = (if g.clock@.len() == 0 { Seq::empty() } else { g.clock@ + " "@ }) + time::datetime_text(now as int);
            &&& a.range.abs_window is None ==> t == " "@ + ("last "@ + model::range_label(a.range.range_index as int)) + sign
                + "  "@ + clock + " "@
            &&& a.range.abs_window matches Some((start, end)) ==> t == " "@ + (time::datetime_text(start as int) + " "@ + g.right@
                + " "@ + (if time::datetime_text(start as int).take(10) == time::datetime_text(end as int).take(10) {
                time::datetime_text(end as int).skip(11)
            } else {
                time::datetime_text(end as int)
            })) + ""@ + "  "@ + clock + " "@
        }),
{
    reveal(chrome::header);
    reveal_with_fuel(chrome::left_spans, 5);
    let t = header_line(a, g, area, now)[11].text;
    assert(t == chrome::range_text(a, g, now));
    let sign = if a.load.auto_refresh && a.range.abs_window is None { "!"@ } else { ""@ };
    let lead = if g.clock@.len() == 0 { Seq::empty() } else { g.clock@ + " "@ };
    let day = time::datetime_text(now as int);
    let s = a.range.summary(g.right@);
    assert(t =~= " "@ + s + sign + "  "@ + (lead + day) + " "@);
}

/// The line at the bottom tells the last error where there is one, and the keys where there is none.
pub proof fn law_the_status_line_tells_the_error(a: AppView, g: Glyphs, area: Rect)
    ensures
        a.load.last_error matches Some(e) ==> chrome::status_pane(a, g, area).body->Lines_lines == seq![
            seq![style::SpanView { text: "error: "@ + e, style: unmarked() }],
        ],
        a.load.last_error is None && a.mode != Mode::Menu && !a.load.input_locked ==> (
        chrome::status_pane(a, g, area).body->Lines_lines[0][0].text.take(6) == "q quit"@),
{
    reveal(chrome::status_pane);
    reveal_strlit("q quit");
    if a.load.last_error is None && a.mode != Mode::Menu && !a.load.input_locked {
        assert(chrome::status_pane(a, g, area).body->Lines_lines[0][0].text.take(6) =~= "q quit"@);
    }
}

/// A list shows each of its lines, in order and whole; the heading is greyed, the row under the cursor is
/// the selected one, and the title counts it among the rows.
pub proof fn law_a_list_shows_its_lines(a: AppView, area: Rect, below: bool, g: Glyphs, first: int, last: int)
    requires
        rows(a, first, last),
        a.focus == Focus::Primary,
        a.snapshot.table is None,
        first <= a.at.selected <= last,
    ensures
        ({
            let p = results::primary_pane(a, area, true, below, g);
            &&& p.area == area
            &&& p.body matches BodyView::Items { items, selected, .. } && selected == Some(a.at.selected) && items.len()
                == a.snapshot.lines.len() && forall|i: int|
                0 <= i < items.len() ==> #[trigger] items[i] == seq![
                    style::SpanView {
                        text: a.snapshot.lines[i],
                        style: if i < first { tinted(Color::DarkGray) } else { unmarked() },
                    },
                ]
            &&& p.title == a.snapshot.title + "  ["@ + text::dec((a.at.selected - first + 1) as nat) + "/"@ + text::dec(
                (last - first + 1) as nat,
            ) + "]"@
            &&& p.border == Border::Boxed(
                Style { fg: Some(Color::Cyan), bg: None, bold: true, underlined: false, reversed: false },
            )
        }),
{
    reveal(results::primary_pane);
    assert(a.selectable() == Some((first as usize, last as usize)));
}

/// The text that spans show, one behind the other.
proof fn lemma_two_spans(a: style::SpanView, b: style::SpanView)
    ensures
        style::spans_text(seq![a, b]) == a.text + b.text,
        style::spans_text(seq![a]) == a.text,
{
    reveal_with_fuel(style::spans_text, 3);
    assert(seq![a, b].drop_last() =~= seq![a]);
    assert(seq![a].drop_last() =~= Seq::<style::SpanView>::empty());
    assert(style::spans_text(seq![a]) =~= a.text);
}

/// A table shows each cell of each row, in order and whole, under its column names; the row under the cursor
/// is the selected one, and the title counts it among the rows.
pub proof fn law_a_table_shows_its_cells(a: AppView, table: TableView, area: Rect, below: bool, g: Glyphs)
    requires
        a.snapshot.table == Some(table),
        a.focus == Focus::Primary,
        a.mode == Mode::Normal,
        a.at.selected < table.rows.len() <= usize::MAX,
    ensures
        ({
            let p = results::primary_pane(a, area, true, below, g);
            &&& p.body matches BodyView::Table { header, rows, selected, .. } && header == table.header && selected == Some(
                a.at.selected,
            ) && rows.len() == table.rows.len() && forall|i: int, j: int|
                0 <= i < rows.len() && 0 <= j < table.rows[i].len() ==> rows[i].len() == table.rows[i].len()
                    && style::spans_text(#[trigger] rows[i][j]) == table.rows[i][j]
            &&& p.title == a.snapshot.title + "  ["@ + text::dec((a.at.selected + 1) as nat) + "/"@ + text::dec(
                table.rows.len(),
            ) + "]"@
        }),
{
    reveal(results::primary_pane);
    assert(a.selectable() == Some((0usize, (table.rows.len() - 1) as usize)));
    let p = results::primary_pane(a, area, true, below, g);
    let rows = p.body->Table_rows;
    assert forall|i: int, j: int| 0 <= i < rows.len() && 0 <= j < table.rows[i].len() implies rows[i].len() == table.rows[i].len()
        && style::spans_text(#[trigger] rows[i][j]) == table.rows[i][j] by {
        let tree = a.on_catalog();
        let s = table.rows[i][j];
        assert(rows[i] == metrics::row_cells(table.rows[i], tree));
        assert(rows[i][j] == metrics::cell_spans(s, tree && j == 0));
        lemma_cell(s, tree && j == 0);
    }
}

proof fn lemma_cell(s: Seq<char>, tree: bool)
    ensures
        style::spans_text(metrics::cell_spans(s, tree)) == s,
{
    let one = crate::ui::pane::one(s, style::plain());
    lemma_two_spans(one, one);
    match (if tree { metrics::marker_end(s) } else { None }) {
        Some(end) => {
            let rest = text::trim_start(s);
            lemma_trimmed(s);
            reveal_strlit("v ");
            reveal_strlit("> ");
            assert(0 <= end <= s.len());
            lemma_two_spans(
                crate::ui::pane::one(s.take(end), style::colored(Color::DarkGray)),
                crate::ui::pane::one(s.skip(end), style::plain()),
            );
            assert(s.take(end) + s.skip(end) =~= s);
        },
        None => {},
    }
}

proof fn lemma_trimmed(s: Seq<char>)
    ensures
        text::trim_start(s).len() <= s.len(),
    decreases s.len(),
{
    if s.len() > 0 && text::space(s[0]) {
        lemma_trimmed(s.drop_first());
    }
}

/// A text that is no list is shown with its lines one below the other, scrolled to where it stands, never
/// past its end.
pub proof fn law_a_text_shows_its_lines(a: AppView, area: Rect, g: Glyphs)
    requires
        a.snapshot.table is None,
        a.snapshot.list_from is None,
        a.snapshot.lines.len() > 0,
    ensures
        ({
            let p = results::primary_pane(a, area, true, false, g);
            let end = results::scroll_end(a.snapshot.lines, area);
            &&& p.body matches BodyView::Prose { text, scroll, .. } && text == text::join(a.snapshot.lines, "\n"@) && scroll == (
            if a.at.scroll <= end { a.at.scroll as int } else { end })
            &&& end == 0 ==> p.title == a.snapshot.title
            &&& results::primary_frame(a, area, false).max_scroll == end
            &&& results::primary_frame(a, area, false).page_rows == if area.height >= 3 { area.height - 2 } else { 1 }
        }),
{
    reveal(results::primary_pane);
    assert(0 <= results::scroll_end(a.snapshot.lines, area) <= u16::MAX);
}

/// The range picker lists the presets in order, each with its label, and the absolute window last; the row of
/// the cursor is the selected one.
pub proof fn law_the_picker_lists_the_presets(cursor: usize, anchor: Rect, area: Rect, ellipsis: Seq<char>, i: int)
    requires
        0 <= i < 8,
    ensures
        overlays::picker(cursor, anchor, area, ellipsis).body matches BodyView::Items { items, selected, .. } && items.len() == 9
            && selected == Some(cursor) && items[i].len() == 1 && items[i][0].text == text::pad_end(model::range_label(i), 4)
            + " window "@ + text::pad_start(time::human_text(model::range_secs(i).0), 5) + "  step "@ + text::dec(
            model::range_secs(i).1,
        ) + "s"@ && items[8][0].text == "Absolute"@ + ellipsis + "  set explicit start / end"@,
{
    reveal(overlays::picker);
    lemma_presets(8, i);
}

proof fn lemma_presets(n: nat, i: int)
    requires
        0 <= i < n,
    ensures
        overlays::preset_rows(n).len() == n,
        overlays::preset_rows(n)[i] == crate::ui::pane::line(overlays::preset_text(i), style::plain()),
    decreases n,
{
    reveal_with_fuel(overlays::preset_rows, 2);
    if n > 1 {
        lemma_presets((n - 1) as nat, if i < n - 1 { i } else { 0 });
    }
}

/// The completion popup lists the suggestions in order, each in the colour of its kind; the highlighted one
/// is the selected one, and it stands right below the query box.
pub proof fn law_the_popup_lists_the_suggestions(c: CompletionView, query_area: Rect, area: Rect, i: int)
    requires
        0 <= i < c.candidates.len(),
        query_area.fits(),
    ensures
        overlays::popup(c, query_area, area).body matches BodyView::Items { items, selected, .. } && items.len()
            == c.candidates.len() && selected == Some(c.selected) && items[i] == seq![
            style::SpanView {
                text: c.candidates[i].text,
                style: match c.candidates[i].kind {
                    CandidateKind::Function => tinted(Color::Cyan),
                    CandidateKind::Keyword => tinted(Color::Yellow),
                    CandidateKind::Metric => unmarked(),
                    CandidateKind::Label => tinted(Color::Green),
                    CandidateKind::LabelValue => tinted(Color::Magenta),
                    CandidateKind::Operator => tinted(Color::Blue),
                },
            },
        ],
        overlays::popup(c, query_area, area).area.y == query_area.y + query_area.height,
        overlays::popup(c, query_area, area).clear,
{
    reveal(overlays::popup);
}

/// The loading banner tells the whole seconds that have gone by.
pub proof fn law_the_banner_counts_the_seconds(elapsed: int, area: Rect, g: Glyphs)
    requires
        elapsed >= 0,
    ensures
        overlays::banner(elapsed, area, g).body matches BodyView::Lines { lines, .. } && lines.len() == 1 && lines[0].len() == 1
            && exists|frame: Seq<char>|
            lines[0][0].text == #[trigger] (frame + " Loading"@) + g.ellipsis@ + " "@ + text::dec((elapsed / 1_000_000_000) as nat)
                + "s"@,
{
    reveal(overlays::banner);
    let frame = crate::ui::glyphs::spinner_frame(
        g.ascii,
        (elapsed / 120_000_000) % crate::ui::glyphs::spinner_len(g.ascii) as int,
    );
    assert(overlays::banner_text(elapsed, g) == frame + " Loading"@ + g.ellipsis@ + " "@ + text::dec(
        (elapsed / 1_000_000_000) as nat,
    ) + "s"@);
}

/// The form shows the start above the end, the field without the focus as it stands, and below them what is
/// wrong, in red, where something is.
pub proof fn law_the_form_shows_its_fields(a: AppView, anchor: Rect, area: Rect, sep: Seq<char>)
    ensures
        ({
            let p = overlays::form(a, anchor, area, sep);
            &&& p.body matches BodyView::Lines { lines, .. } && lines.len() == 3 && lines[0][0].text == " "@ + "start"@ + "  "@
                && lines[1][0].text == " "@ + "end  "@ + "  "@ && (a.range.abs_field != 0 ==> lines[0].len() == 2
                && lines[0][1].text == a.range.abs_start) && (a.range.abs_field != 1 ==> lines[1].len() == 2 && lines[1][1].text
                == a.range.abs_end) && (a.range.abs_error matches Some(e) ==> lines[2] == seq![
                style::SpanView { text: " "@ + e, style: tinted(Color::Red) },
            ])
            &&& a.range.abs_target == AbsTarget::Attributes ==> p.title == "Attribute-statistics range (Esc: cancel)"@
            &&& a.range.abs_target == AbsTarget::Query ==> p.title == "Absolute range (Esc: cancel)"@
        }),
{
    reveal(overlays::form);
}

/// The preview of a waterfall shows as many spans from the first as there is room for, and says so where
/// some are left out.
pub proof fn law_the_preview_shows_the_first_spans(detail: DetailPane, trace: Arc<TraceDetail>, area: Rect, dash: Seq<char>)
    requires
        detail.waterfall == Some(trace),
        area.height > 0,
        trace.spans@.len() <= usize::MAX,
    ensures
        ({
            let p = results::preview(detail, area, dash);
            let n = trace.spans@.len();
            &&& p.body matches BodyView::Waterfall { trace: t, shown, selected, first, .. } && t == trace && shown == (
            if n <= area.height - 1 { n as int } else { area.height - 1 }) && selected is None && first == 0
            &&& n > area.height - 1 ==> p.title == "Waterfall: "@ + text::dec((area.height - 1) as nat) + " of "@ + text::dec(n)
                + " spans "@ + dash + " enter: all"@
            &&& n <= area.height - 1 ==> p.title == detail.title@
        }),
{
    reveal(results::preview);
}

/// In the waterfall of a trace every span has its row, those that failed in red; the span under the cursor is
/// the selected one, and the title counts it.
pub proof fn law_the_waterfall_shows_the_spans(a: AppView, detail: Arc<TraceDetail>, area: Rect, focused: bool, g: Glyphs, i: int)
    requires
        0 <= i < detail.spans@.len() <= usize::MAX,
        a.at.span_cursor < detail.spans@.len(),
    ensures
        ({
            let p = traces::waterfall_pane(a, detail, area, focused, g);
            let n = detail.spans@.len();
            &&& p.body matches BodyView::Waterfall { trace, shown, selected, looks, .. } && trace == detail && shown == n
                && selected == Some(a.at.span_cursor) && looks.len() == n && looks[i] == if detail.spans@[i].status_code@
                == "ERROR"@ {
                tinted(Color::Red)
            } else {
                unmarked()
            }
            &&& p.title == "Spans"@ + "  ["@ + text::dec((a.at.span_cursor + 1) as nat) + "/"@ + text::dec(n) + " "@ + (g.up@
                + g.down@) + "]"@
        }),
{
    lemma_looks(detail.spans@, detail.spans@.len(), i);
}

proof fn lemma_looks(spans: Seq<Arc<crate::model::SpanRecord>>, n: nat, i: int)
    requires
        0 <= i < n <= spans.len(),
    ensures
        traces::span_looks(spans, n).len() == n,
        traces::span_looks(spans, n)[i] == if spans[i].status_code@ == "ERROR"@ { tinted(Color::Red) } else { unmarked() },
    decreases n,
{
    reveal_with_fuel(traces::span_looks, 2);
    if n > 1 {
        lemma_looks(spans, (n - 1) as nat, if i < n - 1 { i } else { 0 });
    }
}

/// The head of a trace tells its id, how many spans it has, how long it took and when it started.
pub proof fn law_the_trace_head_tells_its_shape(detail: TraceDetail, sep: Seq<char>, ascii: bool)
    ensures
        traces::trace_head(detail, sep, ascii) == detail.trace_id@ + "  "@ + sep + " "@ + text::dec(detail.spans@.len())
            + " spans  "@ + sep + " "@ + time::duration_text(detail.duration_ns as nat, ascii) + "  "@ + sep + " "@
            + time::timestamp_text(detail.start_time_ns as int),
        detail.root_service is Some && detail.root_name is Some ==> traces::root_text(detail, sep) == (detail.root_service->0)@
            + " "@ + sep + " "@ + (detail.root_name->0)@,
        detail.root_service is None && detail.root_name is None ==> traces::root_text(detail, sep) == "(no root span)"@,
{
}

/// Below the chart stands the point under the cursor, with its place among the points, its time and its value,
/// and the least, the greatest, the average and the latest value, each behind its name.
pub proof fn law_the_readout_tells_the_point(a: AppView, points: Seq<(i64, u64)>, f: FiguresView, exemplars: nat, sep: Seq<char>)
    requires
        a.at.metric_cursor < points.len(),
        metrics::finite(points[a.at.metric_cursor as int].1),
        metrics::finite_count(points, points.len()) > 0,
    ensures
        ({
            let c = a.at.metric_cursor as int;
            let line = metrics::cursor_line(a, points, f);
            &&& line.len() == 2
            &&& line[0].text == "cursor ["@ + text::dec((c + 1) as nat) + "/"@ + text::dec(points.len()) + "] "@
            &&& line[1].text == time::datetime_text(points[c].0 as int) + "  =  "@ + f.at_cursor
            &&& metrics::series_stats(points, f, 0, sep) == "min "@ + f.min + " "@ + sep + " max "@ + f.max + " "@ + sep + " avg "@
                + f.avg + " "@ + sep + " latest "@ + f.latest + " "@ + sep + " "@ + text::dec(points.len()) + " pts"@
            &&& exemplars > 0 ==> metrics::series_stats(points, f, exemplars, sep) == metrics::series_stats(points, f, 0, sep)
                + " "@ + sep + " "@ + text::dec(exemplars) + " exemplars (enter: nearest trace)"@
        }),
{
}

/// The plot marks the point under the cursor, and is labelled with the times of its first point, of the one
/// under the cursor and of its last.
pub proof fn law_the_plot_is_labelled_by_its_points(a: AppView, detail: metrics::SeriesView, f: FiguresView, area: Rect)
    requires
        a.at.metric_cursor < detail.points.len(),
        metrics::finite_count(detail.points, detail.points.len()) >= 2,
    ensures
        ({
            let at = a.at.metric_cursor as int;
            let points = detail.points;
            let clock = |ns: i64| time::clock_text(ns as int / 1_000_000_000 % 86_400);
            metrics::series_chart(a, detail, f, area, true, false).body matches BodyView::Plot { cursor, labels } && cursor == at
                && labels == seq![clock(points[0].0), clock(points[at].0), clock(points[points.len() - 1].0)]
        }),
{
}

/// A frame starts with the header. The range picker is painted over the view while it is open, the form while
/// that is, and the popup over all where a query is edited and something is offered.
pub proof fn law_overlays_are_painted_while_they_are_open(
    a: AppView,
    areas: Areas,
    m: Moment,
    f: FiguresView,
    g: Glyphs,
    query: Seq<style::SpanView>,
)
    requires
        !a.mascot.show_mascot,
        a.load.loading_since is None,
    ensures
        ({
            let content = ui::content_panes(ui::fresh(a), areas, f, g, query);
            let all = ui::frame_panes(a, areas, m, f, g, query);
            let nav = areas.outer.rows@[0];
            let selector = chrome::indicator(ui::fresh(a), g, nav, m.wall_ns);
            let front = seq![chrome::header(ui::fresh(a), g, nav, m.wall_ns)] + content;
            let b = ui::drawn(a, areas, g);
            &&& a.mode == Mode::TimeRange ==> all == front.push(
                overlays::picker(a.range.range_cursor, selector, m.area, g.ellipsis@),
            )
            &&& a.mode == Mode::AbsoluteRange ==> all == front.push(
                overlays::form(
                    b,
                    if a.range.abs_target == AbsTarget::Query { selector } else { b.frame.attr_area },
                    m.area,
                    g.sep@,
                ),
            )
            &&& a.mode == Mode::Editing && a.has_query() && a.words.completion is Some ==> all == front.push(
                overlays::popup(a.words.completion->0, areas.rows.rows@[0], m.area),
            )
            &&& a.mode == Mode::Normal || a.mode == Mode::Menu ==> all == front
        }),
{
    let content = ui::content_panes(ui::fresh(a), areas, f, g, query);
    let all = ui::frame_panes(a, areas, m, f, g, query);
    let nav = areas.outer.rows@[0];
    let selector = chrome::indicator(ui::fresh(a), g, nav, m.wall_ns);
    let front = seq![chrome::header(ui::fresh(a), g, nav, m.wall_ns)] + content;
    let b = ui::drawn(a, areas, g);
    assert(b.load.banner(m.now) is None);
    if a.mode == Mode::TimeRange {
        assert(all =~= front.push(overlays::picker(a.range.range_cursor, selector, m.area, g.ellipsis@)));
    } else if a.mode == Mode::AbsoluteRange {
        assert(all =~= front.push(
            overlays::form(
                b,
                if a.range.abs_target == AbsTarget::Query { selector } else { b.frame.attr_area },
                m.area,
                g.sep@,
            ),
        ));
    } else if a.mode == Mode::Editing && a.has_query() && a.words.completion is Some {
        assert(all =~= front.push(overlays::popup(a.words.completion->0, areas.rows.rows@[0], m.area)));
    } else if a.mode == Mode::Normal || a.mode == Mode::Menu {
        assert(all =~= front);
    }
}

/// The panes of a list view, from the top down: the query where the screen has one, the chart where there is
/// one, the results, what stands below them, and the keys.
pub proof fn law_a_list_view_has_its_panes(a: AppView, areas: Areas, g: Glyphs, f: FiguresView, query: Seq<style::SpanView>)
    requires
        !model::detail_route(a.at.route),
        a.snapshot.detail is None,
        areas.chart is None,
        areas.rows.rows@.len() >= 2,
    ensures
        ({
            let all = ui::content_panes(a, areas, f, g, query);
            let n = areas.rows.rows@.len() as int;
            let focused = a.effective_focus() == Focus::Primary;
            let results = results::primary_pane(a, areas.primary(a), focused, areas.notes is Some, g);
            let keys = chrome::status_pane(a, g, areas.rows.rows@[n - 1]);
            &&& a.at.route == RouteView::Overview ==> all == seq![results, keys]
            &&& a.at.route != RouteView::Overview ==> all == seq![
                chrome::query_pane(a, g, areas.rows.rows@[0], query),
                results,
                keys,
            ]
        }),
{
    let all = ui::content_panes(a, areas, f, g, query);
    let n = areas.rows.rows@.len() as int;
    let focused = a.effective_focus() == Focus::Primary;
    let results = results::primary_pane(a, areas.primary(a), focused, areas.notes is Some, g);
    let keys = chrome::status_pane(a, g, areas.rows.rows@[n - 1]);
    if a.at.route == RouteView::Overview {
        assert(all =~= seq![results, keys]);
    } else {
        assert(all =~= seq![chrome::query_pane(a, g, areas.rows.rows@[0], query), results, keys]);
    }
}

/// The chart above the results shows their values: as a sparkline, or in plain characters for a plain
/// terminal.
pub proof fn law_the_chart_shows_the_values(values: Seq<u64>, area: Rect)
    ensures
        ui::chart_pane(values, area, false).body == (BodyView::Spark { values }),
        ui::chart_pane(values, area, true).body matches BodyView::Prose { text, .. } && text == crate::chart::chart_text(
            values,
            if area.width >= 2 { area.width - 2 } else { 0 },
            if area.height >= 2 { area.height - 2 } else { 0 },
        ),
{
    reveal(ui::chart_pane);
}

/// Where column `j` of a table of these widths starts: each column is followed by two spaces.
pub open spec fn column_start(widths: Seq<usize>, j: int) -> int
    decreases j,
{
    if j <= 0 { 0 } else { column_start(widths, j - 1) + widths[j - 1] + 2 }
}

/// A row of the attribute table shows each cell at the start of its column, in order and whole.
pub proof fn law_attribute_cells_stand_in_their_columns(row: Seq<Seq<char>>, widths: Seq<usize>, j: int)
    requires
        0 <= j < row.len() == widths.len(),
        forall|i: int| 0 <= i < row.len() ==> crate::width::printable(#[trigger] row[i]) && row[i].len() <= widths[i],
    ensures
        ({
            let line = results::columns_text(row, widths, row.len());
            let at = column_start(widths, j);
            &&& 0 <= at && at + row[j].len() <= line.len()
            &&& line.subrange(at, at + row[j].len()) == row[j]
        }),
{
    lemma_columns(row, widths, row.len(), j);
}

proof fn lemma_columns(row: Seq<Seq<char>>, widths: Seq<usize>, n: nat, j: int)
    requires
        0 <= j < n <= row.len() == widths.len(),
        forall|i: int| 0 <= i < row.len() ==> crate::width::printable(#[trigger] row[i]) && row[i].len() <= widths[i],
    ensures
        ({
            let line = results::columns_text(row, widths, n);
            let at = column_start(widths, j);
            &&& n < row.len() ==> line.len() == column_start(widths, n as int)
            &&& 0 <= at && at + row[j].len() <= line.len()
            &&& line.subrange(at, at + row[j].len()) == row[j]
        }),
    decreases n,
{
    let before = results::columns_text(row, widths, (n - 1) as nat);
    let line = results::columns_text(row, widths, n);
    let cell = row[n - 1];
    let at = column_start(widths, j);
    reveal_strlit("  ");
    crate::width::law_printable_ascii_takes_one_cell_each(cell);
    if n > 1 {
        lemma_columns(row, widths, (n - 1) as nat, if j < n - 1 { j } else { 0 });
    } else {
        assert(before =~= Seq::<char>::empty());
    }
    assert(before.len() == column_start(widths, n - 1));
    if n < row.len() {
        assert(line =~= before + cell + text::rep(' ', widths[n - 1] - cell.len()) + "  "@);
    } else {
        assert(line =~= before + cell);
    }
    if j < n - 1 {
        assert(line.subrange(at, at + row[j].len()) =~= before.subrange(at, at + row[j].len()));
    } else {
        assert(line.subrange(at, at + row[j].len()) =~= cell);
    }
}

proof fn lemma_places(s: Seq<char>, n: int)
    requires
        crate::width::printable(s),
        0 <= n <= s.len(),
    ensures
        overlays::column(s, n) == n,
    decreases n,
{
    if n > 0 {
        lemma_places(s, n - 1);
        crate::width::law_printable_ascii_takes_one_cell_each(seq![s[n - 1]]);
    }
}

proof fn lemma_spans_push(v: Seq<style::SpanView>, x: style::SpanView)
    ensures
        style::spans_text(v.push(x)) == style::spans_text(v) + x.text,
{
    assert(v.push(x).drop_last() =~= v);
}

proof fn lemma_shown(s: Seq<char>, at: int, w: int, look: Style, n: int)
    requires
        crate::width::printable(s),
        0 <= n <= s.len() <= w,
    ensures
        ({
            let (spans, run) = overlays::field_run(s, Some(at), 0, w, look, n);
            &&& style::spans_text(spans) + run == s.take(n)
            &&& 0 <= at < n ==> exists|i: int|
                0 <= i < spans.len() && #[trigger] spans[i] == (style::SpanView {
                    text: seq![s[at]],
                    style: Style { reversed: true, ..look },
                })
        }),
    decreases n,
{
    if n == 0 {
        assert(s.take(0) =~= Seq::<char>::empty());
        assert(style::spans_text(Seq::<style::SpanView>::empty()) =~= Seq::<char>::empty());
    } else {
        lemma_shown(s, at, w, look, n - 1);
        lemma_places(s, n - 1);
        let (spans, run) = overlays::field_run(s, Some(at), 0, w, look, n - 1);
        let (all, open) = overlays::field_run(s, Some(at), 0, w, look, n);
        assert(s.take(n) =~= s.take(n - 1).push(s[n - 1]));
        if at == n - 1 {
            let mark = crate::ui::pane::one(seq![s[n - 1]], (Style { reversed: true, ..look }));
            let c = overlays::closed(spans, run, look);
            if run.len() > 0 {
                lemma_spans_push(spans, crate::ui::pane::one(run, look));
            }
            lemma_spans_push(c, mark);
            assert(style::spans_text(c) =~= s.take(n - 1));
            assert(all == c.push(mark));
            assert(all[c.len() as int] == mark);
            assert(style::spans_text(all) + open =~= s.take(n));
        } else {
            assert(all == spans);
            assert(style::spans_text(all) + open =~= s.take(n));
        }
    }
}

/// A field of the form that is long enough shows its text whole, with the character under the caret reversed; at
/// the end the caret is a block behind the text.
pub proof fn law_a_field_shows_its_text_and_caret(s: Seq<char>, k: int, w: int, look: Style)
    requires
        crate::width::printable(s),
        0 <= k <= s.len() < w,
    ensures
        ({
            let spans = overlays::field_spans(s, crate::textfield::offset(s, k) as int, w, look);
            &&& style::spans_text(spans) == if k == s.len() { s.push(' ') } else { s }
            &&& exists|i: int|
                0 <= i < spans.len() && #[trigger] spans[i] == (style::SpanView {
                    text: seq![if k == s.len() { ' ' } else { s[k] }],
                    style: Style { reversed: true, ..look },
                })
        }),
{
    let caret = crate::textfield::offset(s, k) as int;
    let cs = overlays::field_chars(s, caret);
    lemma_caret(s, k);
    assert(cs == if k == s.len() { s.push(' ') } else { s });
    assert forall|i: int| 0 <= i < cs.len() implies ' ' <= #[trigger] cs[i] <= '~' by {
        if i < s.len() {
            assert(cs[i] == s[i]);
        }
    }
    lemma_places(cs, k);
    lemma_shown(cs, k, w, look, cs.len() as int);
    let (spans, run) = overlays::field_run(cs, Some(k), 0, w, look, cs.len() as int);
    let all = overlays::closed(spans, run, look);
    assert(cs.take(cs.len() as int) =~= cs);
    let i = choose|i: int|
        0 <= i < spans.len() && #[trigger] spans[i] == (style::SpanView {
            text: seq![cs[k]],
            style: Style { reversed: true, ..look },
        });
    assert(all[i] == spans[i]);
    if run.len() > 0 {
        lemma_spans_push(spans, crate::ui::pane::one(run, look));
    }
    assert(style::spans_text(all) =~= cs);
}

proof fn lemma_caret(s: Seq<char>, k: int)
    requires
        crate::width::printable(s),
        0 <= k <= s.len(),
    ensures
        crate::textfield::offset(s, k) == k,
        text::byte_len(s) == s.len(),
        overlays::caret_at(s, k) == Some(k),
{
    lemma_bytes(s, s.len() as int);
    lemma_bytes(s, k);
    assert(s.take(s.len() as int) =~= s);
    if k < s.len() {
        lemma_char_at(s, k, 0);
    }
}

proof fn lemma_bytes(s: Seq<char>, k: int)
    requires
        crate::width::printable(s),
        0 <= k <= s.len(),
    ensures
        text::byte_len(s.take(k)) == k,
    decreases k,
{
    if k > 0 {
        lemma_bytes(s, k - 1);
        assert(s.take(k).drop_last() =~= s.take(k - 1));
        assert(' ' <= s[k - 1] <= '~');
    }
}

proof fn lemma_char_at(s: Seq<char>, k: int, i: int)
    requires
        crate::width::printable(s),
        0 <= i <= k < s.len(),
    ensures
        overlays::char_at(s, k, i) == Some(k),
    decreases k - i,
{
    lemma_bytes(s, i);
    if i < k {
        lemma_char_at(s, k, i + 1);
    }
}

} // verus!
