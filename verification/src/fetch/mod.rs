//! The queries behind a refresh: the evaluation window of a query, and what a screen shows of the
//! answers.
//!
//! The application asks the database and hands the answers over as plain values; text that only the
//! database's own formatting gives (a sample's value, a verdict) comes as text.

pub mod attributes;

use std::sync::Arc;

use vstd::prelude::*;

use crate::app::catalog;
use crate::format::{AnyValue, SeverityNumber};
use crate::geometry;
use crate::model;
use crate::model::{
    CorrelationView, DetailPane, DetailStyle, DimNode, DimView, LogCorrelation, LogRecord, Options,
    PageCursor, Screen, SeriesData, SnapView, Snapshot, TableData, TableView, TraceDetail,
};
use crate::promql;
use crate::text;
use crate::time;
use crate::ui::glyphs::Glyphs;

verus! {

/// The range a query is evaluated over.
#[derive(Debug, Clone, Copy, PartialEq, Eq, Structural)]
pub struct EvalRange {
    pub start_ns: i64,
    pub end_ns: i64,
    pub step_ns: u64,
    pub lookback_ns: u64,
}

/// The most that a query may return.
#[derive(Debug, Clone, Copy, PartialEq, Eq, Structural)]
pub struct EvalLimits {
    pub max_series: usize,
    pub max_samples: usize,
    pub max_traces: usize,
}

/// How far a point of a series looks back for a sample.
pub const LOOKBACK_NS: u64 = 300_000_000_000;

/// The window of a query: an absolute one as it is, its ends in order, else the rolling one.
pub open spec fn window_of(options: Options, now: i64) -> (i64, i64) {
    match options.window {
        Some((start, end)) => if start <= end { (start, end) } else { (end, start) },
        None => (
            geometry::max(now - geometry::min(options.lookback.nanos as int, i64::MAX as int), i64::MIN as int) as i64,
            now,
        ),
    }
}

/// The length of a window in whole seconds.
pub open spec fn span_secs(window: (i64, i64)) -> int {
    geometry::min(geometry::max(window.1 - window.0, 0), i64::MAX as int) / 1_000_000_000
}

/// The step of a query: about a hundred and twenty points over an absolute window, in whole seconds;
/// else the step of the preset.
pub open spec fn step_of(options: Options, now: i64) -> int {
    match options.window {
        Some(_) => geometry::max(span_secs(window_of(options, now)) / 120, 1) * 1_000_000_000,
        None => geometry::min(options.step.nanos as int, u64::MAX as int),
    }
}

/// The most samples that a query over the window may return: for each series one for each step, and
/// two more.
pub open spec fn sample_limit(options: Options, now: i64) -> int {
    let steps = span_secs(window_of(options, now)) / geometry::max(step_of(options, now) / 1_000_000_000, 1);
    let each = geometry::min((if steps <= usize::MAX { steps } else { 1 }) + 2, usize::MAX as int);
    geometry::max(geometry::min(options.max_series * each, usize::MAX as int), 1)
}

/// The evaluation window of a query: its start and end, the range, and the limits.
pub fn eval_window(options: &Options, now: i64) -> (r: (i64, i64, EvalRange, EvalLimits))
    ensures
        (r.0, r.1) == window_of(*options, now),
        r.2 == (EvalRange {
            start_ns: window_of(*options, now).0,
            end_ns: window_of(*options, now).1,
            step_ns: geometry::max(step_of(*options, now), 1) as u64,
            lookback_ns: LOOKBACK_NS,
        }),
        r.3 == (EvalLimits {
            max_series: options.max_series,
            max_samples: sample_limit(*options, now) as usize,
            max_traces: options.max_rows,
        }),
{
    let (start, end): (i64, i64) = match options.window {
        Some((start, end)) => if start <= end { (start, end) } else { (end, start) },
        None => {
            let back: i128 = if options.lookback.nanos <= i64::MAX as u128 {
                options.lookback.nanos as i128
            } else {
                i64::MAX as i128
            };
            let from: i128 = now as i128 - back;
            (if from < i64::MIN as i128 { i64::MIN } else { from as i64 }, now)
        },
    };
    let wide: i128 = end as i128 - start as i128;
    let span: u64 = if wide < 0 {
        0
    } else if wide > i64::MAX as i128 {
        i64::MAX as u64
    } else {
        wide as u64
    };
    let secs: u64 = span / 1_000_000_000;
    let step_ns: u64 = match options.window {
        Some(_) => {
            let each: u64 = secs / 120;
            (if each > 1 { each } else { 1 }) * 1_000_000_000
        },
        None => if options.step.nanos <= u64::MAX as u128 { options.step.nanos as u64 } else { u64::MAX },
    };
    let whole: u64 = step_ns / 1_000_000_000;
    let step_secs: u64 = if whole > 1 { whole } else { 1 };
    let steps: u64 = secs / step_secs;
    assert(steps <= secs) by (nonlinear_arith)
        requires
            steps == secs / step_secs,
            step_secs >= 1,
    ;
    let counted: u128 = if steps as u128 <= usize::MAX as u128 { steps as u128 } else { 1 };
    let each: u128 = if counted + 2 <= usize::MAX as u128 { counted + 2 } else { usize::MAX as u128 };
    assert(options.max_series as u128 * each <= u128::MAX) by (nonlinear_arith)
        requires
            options.max_series <= 0xffff_ffff_ffff_ffff,
            each <= 0xffff_ffff_ffff_ffff,
    ;
    let all: u128 = options.max_series as u128 * each;
    let capped: usize = if all <= usize::MAX as u128 { all as usize } else { usize::MAX };
    let max_samples: usize = if capped > 1 { capped } else { 1 };
    (
        start,
        end,
        EvalRange { start_ns: start, end_ns: end, step_ns: if step_ns > 1 { step_ns } else { 1 }, lookback_ns: LOOKBACK_NS },
        EvalLimits { max_series: options.max_series, max_samples, max_traces: options.max_rows },
    )
}

/// What a refresh asks the database for.
#[derive(Debug)]
pub enum Plan {
    /// The state of the database.
    Overview,
    /// The metric catalog.
    Catalog,
    /// The evaluation of one or more metric queries.
    Series(Vec<String>),
    /// A search for traces.
    Traces,
    /// A page of logs, all of them or those that the query selects.
    Logs(bool),
}

/// What a refresh asks the database for: the catalog where the Metrics screen has no query, and all
/// logs where the Logs screen has none.
pub fn plan(screen: Screen, query: &str) -> (r: Plan)
    ensures
        match r {
            Plan::Overview => screen == Screen::Overview,
            Plan::Catalog => screen == Screen::Metrics && text::trim(query@).len() == 0,
            Plan::Series(queries) => screen == Screen::Metrics && text::trim(query@).len() > 0
                && text::strs(queries@) == queries_of(query@),
            Plan::Traces => screen == Screen::Traces,
            Plan::Logs(all) => screen == Screen::Logs && all == (text::trim(query@).len() == 0),
        },
{
    let blank = text::trimmed(&text::chars_of(query)).len() == 0;
    match screen {
        Screen::Overview => Plan::Overview,
        Screen::Metrics => if blank {
            Plan::Catalog
        } else {
            Plan::Series(sub_queries(query))
        },
        Screen::Traces => Plan::Traces,
        Screen::Logs => Plan::Logs(blank),
    }
}

/// A discovered dimension, collapsed and with nothing checked.
pub open spec fn fresh_dim(label: Seq<char>, values: Seq<Seq<char>>) -> DimView {
    DimView { label, values, expanded: false, selected: None }
}

/// The dimensions of a metric as they are discovered.
pub fn dims_from(found: Vec<(String, Vec<String>)>) -> (r: Vec<DimNode>)
    ensures
        r@.len() == found@.len(),
        forall|i: int|
            0 <= i < r@.len() ==> (#[trigger] r@[i])@ == fresh_dim(found@[i].0@, text::strs(found@[i].1@)),
{
    let mut rest = found;
    let mut out: Vec<DimNode> = Vec::new();
    let ghost all = rest@;
    while rest.len() > 0
        invariant
            rest@ == all.skip(out@.len() as int),
            out@.len() <= all.len(),
            forall|i: int|
                0 <= i < out@.len() ==> (#[trigger] out@[i])@ == fresh_dim(all[i].0@, text::strs(all[i].1@)),
        decreases rest.len(),
    {
        let (label, values) = rest.remove(0);
        assert(all.skip(out@.len() as int).remove(0) =~= all.skip((out@.len() + 1) as int));
        out.push(DimNode { label, values, expanded: false, selected: None });
    }
    out
}

/// What became of a trace that was asked for.
pub enum TraceOutcome {
    Found(Arc<TraceDetail>),
    Missing,
    Failed(String),
}

/// The preview pane of a trace, and the trace where it was found. The pane shows the waterfall, or
/// says why there is none.
pub fn build_waterfall_detail(trace_id: &str, outcome: TraceOutcome) -> (r: (DetailPane, Option<Arc<TraceDetail>>))
    ensures
        r.0.title@ == "Waterfall: "@ + trace_id@ + "  (enter: detail)"@,
        text::strs(r.0.lines@) == (match outcome {
            TraceOutcome::Found(_) => Seq::empty(),
            TraceOutcome::Missing => seq!["trace not found."@],
            TraceOutcome::Failed(error) => seq!["error: "@ + error@],
        }),
        r.1 == (match outcome {
            TraceOutcome::Found(trace) => Some(trace),
            _ => None,
        }),
        r.0.waterfall == r.1,
        r.0.table is None,
        r.0.style == DetailStyle::Preview,
{
    let mut lines: Vec<String> = Vec::new();
    assert(text::strs(lines@) =~= Seq::empty());
    let (waterfall, trace) = match outcome {
        TraceOutcome::Found(trace) => (Some(model::share(&trace)), Some(trace)),
        TraceOutcome::Missing => {
            lines.push(text::owned("trace not found."));
            assert(text::strs(lines@) =~= seq!["trace not found."@]);
            (None, None)
        },
        TraceOutcome::Failed(error) => {
            lines.push(text::cat("error: ", &error));
            assert(text::strs(lines@) =~= seq!["error: "@ + error@]);
            (None, None)
        },
    };
    let pane = DetailPane {
        title: text::cat3("Waterfall: ", trace_id, "  (enter: detail)"),
        lines,
        waterfall,
        table: None,
        style: DetailStyle::Preview,
    };
    (pane, trace)
}

/// What a failed search for traces says. One that found too many even in the narrowest window says
/// what to do about it; any other failure speaks for itself.
pub fn trace_limit_message(limit_exceeded: bool, error: &str, cap: usize) -> (r: String)
    ensures
        r@ == if limit_exceeded {
            "too many traces even in the most recent sub-window (cap "@ + text::dec(cap as nat)
                + "). Add filters (e.g. status=error, duration>Nms) or pick a shorter time range."@
        } else {
            error@
        },
{
    if limit_exceeded {
        text::cat3(
            "too many traces even in the most recent sub-window (cap ",
            &text::dec_string(cap as u64),
            "). Add filters (e.g. status=error, duration>Nms) or pick a shorter time range.",
        )
    } else {
        text::owned(error)
    }
}

/// The rows and segments of a table of the database.
#[derive(Debug)]
pub struct TableStats {
    pub table: String,
    pub segment_rows: u64,
    pub buffer_rows: u64,
    pub segment_count: u64,
}

/// The state of the database.
#[derive(Debug)]
pub struct OverviewStats {
    pub buffer_bytes: u64,
    pub wal_bytes: u64,
    pub ingest_queue_depth: u64,
    pub tables: Vec<TableStats>,
}

/// The line of a table of the database.
pub open spec fn table_line(t: TableStats) -> Seq<char> {
    text::pad_end(t.table@, 24) + " rows="@ + text::dec(t.segment_rows as nat) + "+"@ + text::dec(
        t.buffer_rows as nat,
    ) + " segments="@ + text::dec(t.segment_count as nat)
}

/// The lines of the Overview.
pub open spec fn overview_lines(stats: OverviewStats) -> Seq<Seq<char>> {
    seq![
        "buffer: "@ + text::dec(stats.buffer_bytes as nat) + " bytes"@,
        "WAL: "@ + text::dec(stats.wal_bytes as nat) + " bytes"@,
        "ingest queue: "@ + text::dec(stats.ingest_queue_depth as nat),
    ] + stats.tables@.map_values(|t: TableStats| table_line(t))
}

/// A snapshot of lines, with a pane beside them.
pub open spec fn lines_view(title: Seq<char>, lines: Seq<Seq<char>>, detail: Option<Arc<DetailPane>>) -> SnapView {
    SnapView {
        title,
        lines,
        chart: Seq::empty(),
        detail,
        list_from: None,
        log_records: Seq::empty(),
        table: None,
        series: Seq::empty(),
        next_cursor: None,
    }
}

/// The Overview: the state of the database, and the attribute pane before its scan has landed.
pub fn overview_snapshot(stats: &OverviewStats) -> (r: Snapshot)
    ensures
        r@ == lines_view("Database overview"@, overview_lines(*stats), r.detail),
        r.detail matches Some(pane) && attributes::is_placeholder(*pane),
{
    let mut lines: Vec<String> = Vec::new();
    text::add_line(&mut lines, text::cat3("buffer: ", &text::dec_string(stats.buffer_bytes), " bytes"));
    text::add_line(&mut lines, text::cat3("WAL: ", &text::dec_string(stats.wal_bytes), " bytes"));
    text::add_line(&mut lines, text::cat("ingest queue: ", &text::dec_string(stats.ingest_queue_depth)));
    let ghost first = text::strs(lines@);
    let ghost rows = stats.tables@.map_values(|t: TableStats| table_line(t));
    assert(overview_lines(*stats) =~= first + rows);
    let n: usize = stats.tables.len();
    let mut i: usize = 0;
    assert(first + rows.take(0) =~= first);
    while i < n
        invariant
            n == stats.tables@.len(),
            i <= n,
            rows == stats.tables@.map_values(|t: TableStats| table_line(t)),
            text::strs(lines@) == first + rows.take(i as int),
        decreases n - i,
    {
        let t = &stats.tables[i];
        let mut out = String::new();
        text::push_padded(&mut out, &t.table, 24);
        out.append(" rows=");
        text::push_dec(&mut out, t.segment_rows);
        out.append("+");
        text::push_dec(&mut out, t.buffer_rows);
        out.append(" segments=");
        text::push_dec(&mut out, t.segment_count);
        assert(out@ =~= table_line(*t));
        let ghost before = text::strs(lines@);
        text::add_line(&mut lines, out);
        i += 1;
        assert(first + rows.take(i as int) =~= before.push(rows[i - 1]));
    }
    assert(rows.take(n as int) =~= rows);
    let r = Snapshot {
        title: text::owned("Database overview"),
        lines,
        chart: Vec::new(),
        detail: Some(Arc::new(attributes::attribute_placeholder())),
        list_from: None,
        log_records: Vec::new(),
        table: None,
        series: Vec::new(),
        next_cursor: None,
    };
    assert(r@ =~= lines_view("Database overview"@, overview_lines(*stats), r.detail));
    r
}

/// A metric as the catalog lists it.
#[derive(Debug)]
pub struct CatalogEntry {
    pub metric: String,
    pub kind: String,
    pub unit: String,
    pub temporality: Option<String>,
}

/// The row of a metric in the catalog.
pub open spec fn entry_row(e: CatalogEntry) -> Seq<Seq<char>> {
    seq![e.metric@, e.kind@, e.unit@, text::or(e.temporality, "-"@)]
}

/// The rows of the catalog.
pub open spec fn entry_rows(v: Seq<CatalogEntry>) -> Seq<Seq<Seq<char>>> {
    v.map_values(|e: CatalogEntry| entry_row(e))
}

/// A snapshot of a table.
pub open spec fn table_snap(title: Seq<char>, chart: Seq<u64>, table: TableView, series: Seq<SeriesData>) -> SnapView {
    SnapView {
        title,
        lines: Seq::empty(),
        chart,
        detail: None,
        list_from: None,
        log_records: Seq::empty(),
        table: Some(table),
        series,
        next_cursor: None,
    }
}

/// The title of the catalog.
pub open spec fn catalog_title(n: nat, dash: Seq<char>, sep: Seq<char>) -> Seq<char> {
    "Metric catalog "@ + dash + " "@ + text::dec(n) + " metrics (Space: expand/select series "@ + sep
        + " Enter: visualize selected "@ + sep + " e: PromQL)"@
}

/// The Metrics screen without a query: the catalog.
pub fn catalog_snapshot(entries: &Vec<CatalogEntry>, g: &Glyphs) -> (r: Snapshot)
    ensures
        r@ == table_snap(
            catalog_title(entries@.len(), g.dash@, g.sep@),
            Seq::empty(),
            model::table_of(catalog::catalog_header(), entry_rows(entries@)),
            Seq::empty(),
        ),
{
    let ghost all = entry_rows(entries@);
    let mut rows: Vec<Vec<String>> = Vec::new();
    let n: usize = entries.len();
    let mut i: usize = 0;
    assert(model::rows_view(rows@) =~= all.take(0));
    while i < n
        invariant
            n == entries@.len(),
            i <= n,
            all == entry_rows(entries@),
            model::rows_view(rows@) == all.take(i as int),
        decreases n - i,
    {
        let e = &entries[i];
        let mut row: Vec<String> = Vec::new();
        row.push(e.metric.clone());
        row.push(e.kind.clone());
        row.push(e.unit.clone());
        row.push(text::owned(text::or_else(&e.temporality, "-")));
        assert(text::strs(row@) =~= entry_row(*e));
        let ghost before = rows@;
        rows.push(row);
        i += 1;
        assert(model::rows_view(rows@) =~= model::rows_view(before).push(all[i - 1]));
        assert(all.take(i as int) =~= all.take(i - 1).push(all[i - 1]));
    }
    assert(all.take(n as int) =~= all);
    let mut title = text::cat3("Metric catalog ", g.dash, " ");
    title.append(&text::dec_string(n as u64));
    title.append(" metrics (Space: expand/select series ");
    title.append(g.sep);
    title.append(" Enter: visualize selected ");
    title.append(g.sep);
    title.append(" e: PromQL)");
    let mut header: Vec<String> = Vec::new();
    header.push(text::owned("Metric"));
    header.push(text::owned("Kind"));
    header.push(text::owned("Unit"));
    header.push(text::owned("Temporality"));
    assert(text::strs(header@) =~= catalog::catalog_header());
    let table = TableData::new(header, rows);
    let r = Snapshot {
        title,
        lines: Vec::new(),
        chart: Vec::new(),
        detail: None,
        list_from: None,
        log_records: Vec::new(),
        table: Some(table),
        series: Vec::new(),
        next_cursor: None,
    };
    assert(text::strs(r.lines@) =~= Seq::empty());
    assert(r.title@ =~= catalog_title(entries@.len(), g.dash@, g.sep@));
    r
}

/// The pieces that are not empty once trimmed, trimmed.
pub open spec fn trimmed_parts(parts: Seq<Seq<char>>, n: nat) -> Seq<Seq<char>>
    decreases n,
{
    if n == 0 {
        Seq::empty()
    } else {
        let before = trimmed_parts(parts, (n - 1) as nat);
        let part = text::trim(parts[n - 1]);
        if part.len() == 0 { before } else { before.push(part) }
    }
}

/// The queries of a query text: one for each line that is not blank.
pub open spec fn queries_of(query: Seq<char>) -> Seq<Seq<char>> {
    let parts = text::split(query, '\n');
    trimmed_parts(parts, parts.len())
}

/// The queries of a query text. The catalog joins several where several metrics are checked, and
/// each runs on its own.
pub fn sub_queries(query: &str) -> (r: Vec<String>)
    ensures
        text::strs(r@) == queries_of(query@),
{
    let parts = text::split_on(&text::chars_of(query), '\n');
    let ghost all = text::vecs(parts@);
    let mut out: Vec<String> = Vec::new();
    let n: usize = parts.len();
    let mut i: usize = 0;
    assert(text::strs(out@) =~= trimmed_parts(all, 0));
    while i < n
        invariant
            n == parts@.len(),
            i <= n,
            all == text::vecs(parts@),
            text::strs(out@) == trimmed_parts(all, i as nat),
        decreases n - i,
    {
        assert(all[i as int] == parts@[i as int]@);
        let part = text::trimmed(&parts[i]);
        let ghost before = out@;
        if part.len() > 0 {
            out.push(text::string_of(&part));
            assert(text::strs(out@) =~= text::strs(before).push(part@));
        }
        i += 1;
    }
    out
}

/// A series as a query returns it: which of the queries it answers, its labels, its samples, and the
/// text of its latest, least and greatest value.
#[derive(Debug)]
pub struct SeriesResult {
    pub query_index: usize,
    pub labels: Vec<(String, String)>,
    pub samples: Arc<Vec<(i64, u64)>>,
    pub latest: String,
    pub min: String,
    pub max: String,
}

/// One label of a series.
pub open spec fn label_text(label: (Seq<char>, Seq<char>)) -> Seq<char> {
    label.0 + "="@ + label.1
}

/// The labels of a series.
pub open spec fn label_texts(labels: Seq<(Seq<char>, Seq<char>)>) -> Seq<Seq<char>> {
    labels.map_values(|l: (Seq<char>, Seq<char>)| label_text(l))
}

/// Whether the labels name the metric.
pub open spec fn names_metric(labels: Seq<(Seq<char>, Seq<char>)>) -> bool {
    exists|i: int| 0 <= i < labels.len() && (#[trigger] labels[i]).0 == "__name__"@
}

/// The name that is put back on a series: that of the metric its query shows, where there are
/// several queries and the series does not name its metric itself.
pub open spec fn name_for(s: SeriesResult, queries: Seq<Seq<char>>) -> Option<Seq<char>> {
    if queries.len() <= 1 || s.query_index >= queries.len() || names_metric(promql::pairs(s.labels@)) {
        None
    } else {
        promql::shown_metric(queries[s.query_index as int])
    }
}

/// How a series is labelled.
pub open spec fn series_labels(s: SeriesResult, queries: Seq<Seq<char>>) -> Seq<char> {
    let own = label_texts(promql::pairs(s.labels@));
    let all = match name_for(s, queries) {
        Some(name) => seq!["__name__="@ + name] + own,
        None => own,
    };
    let joined = text::join(all, ","@);
    if joined.len() == 0 { "{}"@ } else { joined }
}

/// The row of a series.
pub open spec fn series_row(s: SeriesResult, queries: Seq<Seq<char>>) -> Seq<Seq<char>> {
    seq![series_labels(s, queries), s.latest@, s.min@, s.max@, text::dec(s.samples@.len())]
}

/// The rows of the series.
pub open spec fn series_rows(v: Seq<SeriesResult>, queries: Seq<Seq<char>>) -> Seq<Seq<Seq<char>>> {
    v.map_values(|s: SeriesResult| series_row(s, queries))
}

/// The column names of the list of series.
pub open spec fn series_header() -> Seq<Seq<char>> {
    seq!["Series"@, "Latest"@, "Min"@, "Max"@, "Points"@]
}

/// The title of the list of series.
pub open spec fn series_title(query: Seq<char>, n: nat, dash: Seq<char>) -> Seq<char> {
    let queries = queries_of(query);
    let shown = if queries.len() > 1 {
        text::dec(queries.len()) + " metrics"@
    } else if queries.len() == 1 {
        queries[0]
    } else {
        query
    };
    "PromQL: "@ + shown + " "@ + dash + " "@ + text::dec(n) + " series (Enter: view series)"@
}

fn labels_of(s: &SeriesResult, queries: &Vec<String>) -> (r: String)
    ensures
        r@ == series_labels(*s, text::strs(queries@)),
{
    let ghost pairs = promql::pairs(s.labels@);
    let n: usize = s.labels.len();
    let mut named = false;
    let mut i: usize = 0;
    while i < n
        invariant
            n == s.labels@.len(),
            i <= n,
            pairs == promql::pairs(s.labels@),
            named == (exists|j: int| 0 <= j < i && (#[trigger] pairs[j]).0 == "__name__"@),
        decreases n - i,
    {
        assert(pairs[i as int] == (s.labels@[i as int].0@, s.labels@[i as int].1@));
        if text::same(&s.labels[i].0, "__name__") {
            named = true;
        }
        i += 1;
    }
    let mut parts: Vec<String> = Vec::new();
    if queries.len() > 1 && s.query_index < queries.len() && !named {
        assert(text::strs(queries@)[s.query_index as int] == queries@[s.query_index as int]@);
        if let Some(name) = promql::query_metric_name(&queries[s.query_index]) {
            parts.push(text::cat("__name__=", &name));
        }
    }
    let ghost first = text::strs(parts@);
    let ghost own = label_texts(pairs);
    assert(first =~= match name_for(*s, text::strs(queries@)) {
        Some(name) => seq!["__name__="@ + name],
        None => Seq::empty(),
    });
    let mut k: usize = 0;
    assert(first + own.take(0) =~= first);
    while k < n
        invariant
            n == s.labels@.len(),
            k <= n,
            pairs == promql::pairs(s.labels@),
            own == label_texts(pairs),
            text::strs(parts@) == first + own.take(k as int),
        decreases n - k,
    {
        assert(pairs[k as int] == (s.labels@[k as int].0@, s.labels@[k as int].1@));
        let ghost before = parts@;
        parts.push(text::cat3(&s.labels[k].0, "=", &s.labels[k].1));
        k += 1;
        assert(text::strs(parts@) =~= text::strs(before).push(own[k - 1]));
        assert(first + own.take(k as int) =~= (first + own.take(k - 1)).push(own[k - 1]));
    }
    assert(own.take(n as int) =~= own);
    assert(name_for(*s, text::strs(queries@)) is None ==> first + own =~= own);
    let joined = text::joined(&parts, ",");
    if text::chars_of(&joined).len() == 0 {
        text::owned("{}")
    } else {
        joined
    }
}

/// The Metrics screen with a query: the list of series, each with its history for the detail.
/// `chart` is the sparkline of the first series.
pub fn metrics_snapshot(query: &str, results: &Vec<SeriesResult>, chart: Vec<u64>, g: &Glyphs) -> (r: Snapshot)
    ensures
        r@ == table_snap(
            series_title(query@, results@.len(), g.dash@),
            chart@,
            model::table_of(series_header(), series_rows(results@, queries_of(query@))),
            r.series@,
        ),
        r.series@.len() == results@.len(),
        forall|i: int|
            0 <= i < results@.len() ==> (#[trigger] r.series@[i]).labels@ == series_labels(results@[i], queries_of(query@))
                && r.series@[i].points == results@[i].samples,
{
    let queries = sub_queries(query);
    let ghost subs = queries_of(query@);
    let ghost all = series_rows(results@, subs);
    let mut rows: Vec<Vec<String>> = Vec::new();
    let mut series: Vec<SeriesData> = Vec::new();
    let n: usize = results.len();
    let mut i: usize = 0;
    assert(model::rows_view(rows@) =~= all.take(0));
    while i < n
        invariant
            n == results@.len(),
            i <= n,
            subs == text::strs(queries@),
            all == series_rows(results@, subs),
            model::rows_view(rows@) == all.take(i as int),
            series@.len() == i,
            forall|j: int|
                0 <= j < i ==> (#[trigger] series@[j]).labels@ == series_labels(results@[j], subs) && series@[j].points
                    == results@[j].samples,
        decreases n - i,
    {
        let item = &results[i];
        let labels = labels_of(item, &queries);
        let mut row: Vec<String> = Vec::new();
        row.push(labels.clone());
        row.push(item.latest.clone());
        row.push(item.min.clone());
        row.push(item.max.clone());
        row.push(text::dec_string(item.samples.len() as u64));
        assert(text::strs(row@) =~= series_row(*item, subs));
        let ghost before = rows@;
        rows.push(row);
        series.push(SeriesData { labels, points: model::share(&item.samples) });
        i += 1;
        assert(model::rows_view(rows@) =~= model::rows_view(before).push(all[i - 1]));
        assert(all.take(i as int) =~= all.take(i - 1).push(all[i - 1]));
    }
    assert(all.take(n as int) =~= all);
    let mut title = text::owned("PromQL: ");
    let m: usize = queries.len();
    assert(subs.len() == m);
    if m > 1 {
        text::push_dec(&mut title, m as u64);
        title.append(" metrics");
    } else if m == 1 {
        assert(subs[0] == queries@[0]@);
        title.append(&queries[0]);
    } else {
        title.append(query);
    }
    title.append(" ");
    title.append(g.dash);
    title.append(" ");
    text::push_dec(&mut title, n as u64);
    title.append(" series (Enter: view series)");
    assert(title@ =~= series_title(query@, results@.len(), g.dash@));
    let mut header: Vec<String> = Vec::new();
    header.push(text::owned("Series"));
    header.push(text::owned("Latest"));
    header.push(text::owned("Min"));
    header.push(text::owned("Max"));
    header.push(text::owned("Points"));
    assert(text::strs(header@) =~= series_header());
    let table = TableData::new(header, rows);
    let r = Snapshot {
        title,
        lines: Vec::new(),
        chart,
        detail: None,
        list_from: None,
        log_records: Vec::new(),
        table: Some(table),
        series,
        next_cursor: None,
    };
    assert(text::strs(r.lines@) =~= Seq::empty());
    r
}

/// A trace that a search found.
#[derive(Debug)]
pub struct TraceMatch {
    pub trace_id: String,
    pub start_time_ns: i64,
    pub selected_span_ids: Vec<String>,
}

/// What a search for traces found, and from where on it looked.
#[derive(Debug)]
pub struct TraceSearch {
    pub effective_start_ns: i64,
    pub matches: Vec<TraceMatch>,
}

/// The row of a trace: its id comes first, since the row is found by it.
pub open spec fn match_line(m: TraceMatch) -> Seq<char> {
    m.trace_id@ + "  "@ + time::timestamp_text(m.start_time_ns as int) + "  selected="@ + text::join(
        text::strs(m.selected_span_ids@),
        ","@,
    )
}

/// The rows of the traces.
pub open spec fn match_lines(v: Seq<TraceMatch>) -> Seq<Seq<char>> {
    v.map_values(|m: TraceMatch| match_line(m))
}

/// The row of a trace is found by its id: the id is the row's first word, for an id without blanks.
pub proof fn law_a_trace_row_starts_with_its_id(m: TraceMatch)
    requires
        m.trace_id@.len() > 0,
        forall|i: int| 0 <= i < m.trace_id@.len() ==> !text::space(#[trigger] m.trace_id@[i]),
    ensures
        text::first_word(match_line(m)) == Some(m.trace_id@),
{
    reveal_strlit("  ");
    let line = match_line(m);
    let n = m.trace_id@.len() as int;
    assert(line[0] == m.trace_id@[0]);
    assert(text::trim_start(line) == line);
    assert forall|i: int| 0 <= i <= n implies #[trigger] text::word_end(line, i) == n by {
        lemma_word_ends(line, i, n);
    }
    assert(line[n] == "  "@[0]);
    assert(line.take(n) =~= m.trace_id@);
}

proof fn lemma_word_ends(s: Seq<char>, i: int, n: int)
    requires
        0 <= i <= n < s.len(),
        text::space(s[n]),
        forall|j: int| 0 <= j < n ==> !text::space(#[trigger] s[j]),
    ensures
        text::word_end(s, i) == n,
    decreases n - i,
{
    if i < n {
        lemma_word_ends(s, i + 1, n);
    }
}

/// The lines above a list of traces whose window had to be narrowed.
pub open spec fn narrowed_lines(from: i64, end: i64, cap: nat, warn: Seq<char>, dash: Seq<char>) -> Seq<Seq<char>> {
    let secs = geometry::max(geometry::max(end - from, 0) / 1_000_000_000, 1);
    seq![
        warn + " full range had more than "@ + text::dec(cap) + " traces "@ + dash + " showing the most recent "@
            + time::human_text(secs as nat) + " ("@ + time::timestamp_text(from as int) + " .. "@ + time::timestamp_text(
            end as int,
        ) + ")."@,
        "  add filters (e.g. status=error, duration>Nms) or shorten the time range to search the whole window."@,
        Seq::empty(),
    ]
}

/// The lines above a list of traces.
pub open spec fn trace_heading(search: TraceSearch, start: i64, end: i64, cap: nat, warn: Seq<char>, dash: Seq<char>) -> Seq<
    Seq<char>,
> {
    (if search.effective_start_ns > start {
        narrowed_lines(search.effective_start_ns, end, cap, warn, dash)
    } else {
        Seq::empty()
    }).push(text::dec(search.matches@.len()) + " matching traces"@)
}

/// The Traces screen: the traces found, each row starting with its id, and above them how many there
/// are and whether the window had to be narrowed. The waterfall is a placeholder until it is
/// fetched.
pub fn traces_snapshot(query: &str, start: i64, end: i64, cap: usize, search: &TraceSearch, g: &Glyphs) -> (r: Snapshot)
    ensures
        ({
            let heading = trace_heading(*search, start, end, cap as nat, g.warn@, g.dash@);
            r@ == (SnapView {
                title: (if search.effective_start_ns > start {
                    "TraceQL (narrowed): "@
                } else {
                    "TraceQL: "@
                }) + query@,
                lines: heading + match_lines(search.matches@),
                list_from: Some(heading.len() as usize),
                ..lines_view(Seq::empty(), Seq::empty(), r.detail)
            })
        }),
        r.detail matches Some(pane) && pane.title@ == "Waterfall"@ && text::strs(pane.lines@) == seq![
            if search.matches@.len() > 0 { "Loading waterfall..."@ } else { "No trace selected."@ },
        ] && pane.waterfall is None && pane.table is None && pane.style == DetailStyle::Preview,
{
    let from: i64 = search.effective_start_ns;
    let narrowed = from > start;
    let mut lines: Vec<String> = Vec::new();
    assert(text::strs(lines@) =~= Seq::empty());
    if narrowed {
        let wide: i128 = end as i128 - from as i128;
        let ns: u64 = if wide > 0 { wide as u64 } else { 0 };
        let whole: u64 = ns / 1_000_000_000;
        let secs: u64 = if whole > 1 { whole } else { 1 };
        let mut out = text::cat(g.warn, " full range had more than ");
        text::push_dec(&mut out, cap as u64);
        out.append(" traces ");
        out.append(g.dash);
        out.append(" showing the most recent ");
        out.append(&time::humanize_secs(secs));
        out.append(" (");
        out.append(&time::format_timestamp_ns(from));
        out.append(" .. ");
        out.append(&time::format_timestamp_ns(end));
        out.append(").");
        lines.push(out);
        lines.push(
            text::owned(
                "  add filters (e.g. status=error, duration>Nms) or shorten the time range to search the whole window.",
            ),
        );
        lines.push(String::new());
        assert(lines@[2]@ =~= Seq::<char>::empty());
        assert(text::strs(lines@) =~= narrowed_lines(from, end, cap as nat, g.warn@, g.dash@));
    }
    let n: usize = search.matches.len();
    let mut count = text::dec_string(n as u64);
    count.append(" matching traces");
    text::add_line(&mut lines, count);
    let ghost heading = trace_heading(*search, start, end, cap as nat, g.warn@, g.dash@);
    assert(text::strs(lines@) =~= heading);
    let list_from: usize = lines.len();
    let ghost all = match_lines(search.matches@);
    let mut i: usize = 0;
    assert(heading + all.take(0) =~= heading);
    while i < n
        invariant
            n == search.matches@.len(),
            i <= n,
            all == match_lines(search.matches@),
            text::strs(lines@) == heading + all.take(i as int),
        decreases n - i,
    {
        let item = &search.matches[i];
        let mut out = item.trace_id.clone();
        out.append("  ");
        out.append(&time::format_timestamp_ns(item.start_time_ns));
        out.append("  selected=");
        out.append(&text::joined(&item.selected_span_ids, ","));
        assert(out@ =~= match_line(*item));
        let ghost before = text::strs(lines@);
        text::add_line(&mut lines, out);
        i += 1;
        assert(heading + all.take(i as int) =~= before.push(all[i - 1]));
    }
    assert(all.take(n as int) =~= all);
    let mut note: Vec<String> = Vec::new();
    note.push(text::owned(if n > 0 { "Loading waterfall..." } else { "No trace selected." }));
    assert(text::strs(note@) =~= seq![if n > 0 { "Loading waterfall..."@ } else { "No trace selected."@ }]);
    let pane = DetailPane {
        title: text::owned("Waterfall"),
        lines: note,
        waterfall: None,
        table: None,
        style: DetailStyle::Preview,
    };
    Snapshot {
        title: text::cat(if narrowed { "TraceQL (narrowed): " } else { "TraceQL: " }, query),
        lines,
        chart: Vec::new(),
        detail: Some(Arc::new(pane)),
        list_from: Some(list_from),
        log_records: Vec::new(),
        table: None,
        series: Vec::new(),
        next_cursor: None,
    }
}

/// A log entry as a page of the list gives it; ids are hexadecimal.
#[derive(Debug)]
pub struct LogEntry {
    pub time_ns: i64,
    pub severity_text: Option<String>,
    pub severity_number: u8,
    pub service: Option<String>,
    pub body: String,
    pub trace_id: Option<String>,
    pub span_id: Option<String>,
    pub attributes: Vec<(String, AnyValue)>,
    pub resource: Vec<(String, AnyValue)>,
    pub scope: Vec<(String, AnyValue)>,
}

/// A page of the Logs list.
#[derive(Debug)]
pub struct LogPage {
    pub entries: Vec<LogEntry>,
    pub rows_scanned: u64,
    pub bytes_scanned: u64,
    pub used_index: bool,
    pub next: Option<PageCursor>,
}

/// The row of a log entry: when, the start of its trace id, its service, and its body on one line.
pub open spec fn entry_line(e: LogEntry) -> Seq<char> {
    time::timestamp_text(e.time_ns as int) + " "@ + (match e.trace_id {
        Some(id) => text::head(id@, 8),
        None => "--------"@,
    }) + " "@ + text::pad_end(text::or(e.service, "-"@), 8) + " "@ + text::replaced(e.body@, '\n', ' ')
}

/// The rows of the log entries.
pub open spec fn entry_lines(v: Seq<LogEntry>) -> Seq<Seq<char>> {
    v.map_values(|e: LogEntry| entry_line(e))
}

/// Whether the pairs are the attributes, each value as its text.
pub open spec fn are_pairs(pairs: Seq<(String, String)>, attributes: Seq<(String, AnyValue)>) -> bool {
    &&& pairs.len() == attributes.len()
    &&& forall|i: int|
        0 <= i < pairs.len() ==> (#[trigger] pairs[i]).0@ == attributes[i].0@ && pairs[i].1@ == crate::format::value_text(
            attributes[i].1,
        )
}

/// Whether the record is that of the entry.
pub open spec fn is_record(r: LogRecord, e: LogEntry) -> bool {
    &&& r.time_ns == e.time_ns
    &&& r.severity@ == (match e.severity_text {
        Some(text) => text@,
        None => crate::format::band_name(e.severity_number as int) + " ("@ + text::dec(e.severity_number as nat) + ")"@,
    })
    &&& r.service == e.service
    &&& r.body == e.body
    &&& r.trace_id == e.trace_id
    &&& r.span_id == e.span_id
    &&& are_pairs(r.attributes@, e.attributes@)
    &&& are_pairs(r.resource@, e.resource@)
    &&& are_pairs(r.scope@, e.scope@)
}

/// The line above the list of logs.
pub open spec fn page_line(page: LogPage) -> Seq<char> {
    "viewer rows="@ + text::dec(page.entries@.len()) + " scanned="@ + text::dec(page.rows_scanned as nat) + " bytes="@
        + text::dec(page.bytes_scanned as nat) + " index="@ + if page.used_index { "true"@ } else { "false"@ }
}

/// The title of the list of logs: what it is restricted to, and whether an older page is shown.
pub open spec fn logs_title(
    query: Seq<char>,
    range: bool,
    correlation: Option<CorrelationView>,
    older: bool,
    dash: Seq<char>,
) -> Seq<char> {
    let paged = if older { " [older]"@ } else { ""@ };
    match correlation {
        Some(c) => "Logs for trace "@ + text::head(c.trace_id, 8) + (match c.span_id {
            Some(id) => " span "@ + text::head(id, 8),
            None => Seq::empty(),
        }) + " "@ + dash + " n/p: page"@ + paged,
        None => if range {
            "Log search + synthesized metric: "@ + query + paged
        } else {
            "Log search: "@ + query + paged
        },
    }
}

fn opt_clone(s: &Option<String>) -> (r: Option<String>)
    ensures
        r == *s,
{
    match s {
        Some(t) => Some(t.clone()),
        None => None,
    }
}

fn log_record(e: &LogEntry) -> (r: LogRecord)
    ensures
        is_record(r, *e),
{
    LogRecord {
        time_ns: e.time_ns,
        severity: match &e.severity_text {
            Some(text) => text.clone(),
            None => crate::format::severity_label(SeverityNumber(e.severity_number)),
        },
        service: opt_clone(&e.service),
        body: e.body.clone(),
        trace_id: opt_clone(&e.trace_id),
        span_id: opt_clone(&e.span_id),
        attributes: crate::format::attrs_to_pairs(&e.attributes),
        resource: crate::format::attrs_to_pairs(&e.resource),
        scope: crate::format::attrs_to_pairs(&e.scope),
    }
}

fn line_of(e: &LogEntry) -> (r: String)
    ensures
        r@ == entry_line(*e),
{
    let mut out = time::format_timestamp_ns(e.time_ns);
    out.append(" ");
    match &e.trace_id {
        Some(id) => out.append(&text::head_of(id, 8)),
        None => out.append("--------"),
    }
    out.append(" ");
    text::push_padded(&mut out, text::or_else(&e.service, "-"), 8);
    out.append(" ");
    out.append(&text::replace_char(&e.body, '\n', ' '));
    assert(out@ =~= entry_line(*e));
    out
}

fn title_for(query: &str, range: bool, correlation: &Option<LogCorrelation>, older: bool, g: &Glyphs) -> (r: String)
    ensures
        r@ == logs_title(query@, range, model::correlation_view(*correlation), older, g.dash@),
{
    let paged = if older { " [older]" } else { "" };
    match correlation {
        Some(c) => {
            let mut out = text::cat("Logs for trace ", &text::head_of(&c.trace_id, 8));
            if let Some(id) = &c.span_id {
                out.append(" span ");
                out.append(&text::head_of(id, 8));
            }
            out.append(" ");
            out.append(g.dash);
            out.append(" n/p: page");
            out.append(paged);
            assert(out@ =~= logs_title(query@, range, model::correlation_view(*correlation), older, g.dash@));
            out
        },
        None => if range {
            text::cat3("Log search + synthesized metric: ", query, paged)
        } else {
            text::cat3("Log search: ", query, paged)
        },
    }
}

/// The Logs screen: the entries of a page, most recent first, each with its full record for the
/// detail. `range` says that the query is a range expression, whose values `chart` then shows;
/// else `chart` shows the volume of the logs.
pub fn logs_snapshot(
    query: &str,
    range: bool,
    correlation: &Option<LogCorrelation>,
    older: bool,
    page: &LogPage,
    chart: Vec<u64>,
    g: &Glyphs,
) -> (r: Snapshot)
    ensures
        r@ == (SnapView {
            title: logs_title(query@, range, model::correlation_view(*correlation), older, g.dash@),
            lines: seq![page_line(*page)] + entry_lines(page.entries@),
            chart: chart@,
            list_from: Some(1),
            log_records: r.log_records@,
            next_cursor: page.next,
            ..lines_view(Seq::empty(), Seq::empty(), None)
        }),
        r.log_records@.len() == page.entries@.len(),
        forall|i: int| 0 <= i < page.entries@.len() ==> is_record(*#[trigger] r.log_records@[i], page.entries@[i]),
{
    let mut first = text::owned("viewer rows=");
    let n: usize = page.entries.len();
    text::push_dec(&mut first, n as u64);
    first.append(" scanned=");
    text::push_dec(&mut first, page.rows_scanned);
    first.append(" bytes=");
    text::push_dec(&mut first, page.bytes_scanned);
    first.append(" index=");
    first.append(if page.used_index { "true" } else { "false" });
    assert(first@ =~= page_line(*page));
    let mut lines: Vec<String> = Vec::new();
    lines.push(first);
    let ghost heading = seq![page_line(*page)];
    let ghost all = entry_lines(page.entries@);
    assert(text::strs(lines@) =~= heading + all.take(0));
    let mut log_records: Vec<Arc<LogRecord>> = Vec::new();
    let mut i: usize = 0;
    while i < n
        invariant
            n == page.entries@.len(),
            i <= n,
            all == entry_lines(page.entries@),
            text::strs(lines@) == heading + all.take(i as int),
            log_records@.len() == i,
            forall|j: int| 0 <= j < i ==> is_record(*#[trigger] log_records@[j], page.entries@[j]),
        decreases n - i,
    {
        let entry = &page.entries[i];
        let ghost before = text::strs(lines@);
        text::add_line(&mut lines, line_of(entry));
        log_records.push(Arc::new(log_record(entry)));
        i += 1;
        assert(heading + all.take(i as int) =~= before.push(all[i - 1]));
    }
    assert(all.take(n as int) =~= all);
    Snapshot {
        title: title_for(query, range, correlation, older, g),
        lines,
        chart,
        detail: None,
        list_from: Some(1),
        log_records,
        table: None,
        series: Vec::new(),
        next_cursor: page.next,
    }
}

} // verus!
