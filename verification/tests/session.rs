//! The session: navigation, views, the catalog, completion, the time window and the keys.

use std::sync::Arc;

use imbh_tui::app::App;
use imbh_tui::backend::Backend;
use imbh_tui::completion::{CandidateKind, LogCompletionRequest};
use imbh_tui::fetch::attributes::{
    attribute_failure, attribute_notes, attribute_pane, attribute_placeholder, attribute_table, banner_row, unit_rows, AttrScope,
    KeyReport, Report, UnitReport,
};
use imbh_tui::fetch::{
    build_waterfall_detail, catalog_snapshot, dims_from, eval_window, logs_snapshot, metrics_snapshot,
    overview_snapshot, plan, sub_queries, trace_limit_message, traces_snapshot, CatalogEntry, LogEntry, LogPage,
    OverviewStats, Plan, SeriesResult, TableStats, TraceMatch, TraceOutcome, TraceSearch, LOOKBACK_NS,
};
use imbh_tui::format::AnyValue;
use imbh_tui::input::{KeyCode, KeyEvent};
use imbh_tui::keys::{handle_key, move_selection, Control};
use imbh_tui::model::{
    AbsTarget, AttrRow, DetailPane, DetailStyle, DimNode, ExemplarMarker, Focus, LogCorrelation, LogRecord,
    MetricDetail, MetricNode, Mode, Options, PageCursor, PaneTable, QueryResult, Refresh, Route, Screen, SeriesData,
    Snapshot, SpanRecord, TableData, TraceDetail, TreeRowRef, Update, ATTR_MEASURE_INTERVAL, LOADING_BANNER_AFTER,
    MIN_WINDOW_NS,
};
use imbh_tui::runtime::{apply_update, mascot_events, press_key, start, tick, wait_ns, CLOCK_TICK};
use imbh_tui::mascot::MascotEvent;
use imbh_tui::tasks::{
    exemplar_markers, request_refresh, request_waterfall, vocabulary_names, Env, Exemplar, Request,
};
use imbh_tui::time::{parse_datetime, Duration};
use imbh_tui::ui::glyphs::Glyphs;

/// A monotonic clock reading, in nanoseconds.
const NOW: u64 = 1_000_000_000_000;

/// A wall clock reading, in nanoseconds since 1970.
const WALL: i64 = 1_790_000_000_000_000_000;

const ORDER: [Screen; 4] = [Screen::Overview, Screen::Metrics, Screen::Traces, Screen::Logs];

#[derive(Clone, Copy, PartialEq)]
#[allow(clippy::upper_case_acronyms)]
enum KeyModifiers {
    NONE,
    CONTROL,
    ALT,
    SHIFT,
}

fn env() -> Env {
    Env { options: Options::default(), now: NOW, wall_ns: WALL }
}

fn points(samples: &[(i64, f64)]) -> Arc<Vec<(i64, u64)>> {
    Arc::new(samples.iter().map(|(t, v)| (*t, v.to_bits())).collect())
}

fn listing(lines: Vec<String>, list_from: Option<usize>) -> Snapshot {
    let mut snapshot = Snapshot::message("", "");
    snapshot.lines = lines;
    snapshot.list_from = list_from;
    snapshot
}

fn span(id: u8, parent: Option<u8>, name: &str, offset_ns: i64, duration_ns: u64) -> SpanRecord {
    SpanRecord {
        name: name.to_owned(),
        service: None,
        kind: "internal".to_owned(),
        span_id: format!("{id:02x}").repeat(8),
        parent_span_id: parent.map(|p| format!("{p:02x}").repeat(8)),
        status_code: "OK".to_owned(),
        status_message: None,
        malformed: false,
        start_time_ns: offset_ns,
        offset_ns,
        duration_ns,
        attributes: Vec::new(),
        resource: Vec::new(),
        scope: Vec::new(),
        events: None,
        links: None,
    }
}

/// A root, a nested child, and an orphan that failed.
fn sample_trace() -> TraceDetail {
    let mut child = span(2, Some(1), "db.query", 200_000, 400_000);
    child.service = Some("api".to_owned());
    child.attributes = vec![("db.system".to_owned(), "postgres".to_owned())];
    let mut orphan = span(3, Some(9), "orphan", 600_000, 100_000);
    orphan.status_code = "ERROR".to_owned();
    orphan.status_message = Some("boom".to_owned());
    orphan.malformed = true;
    orphan.events = Some(r#"[{"name":"exception"}]"#.to_owned());
    TraceDetail {
        trace_id: "aa".repeat(16),
        root_service: Some("api".to_owned()),
        root_name: Some("GET /users".to_owned()),
        start_time_ns: 0,
        duration_ns: 1_000_000,
        spans: vec![Arc::new(span(1, None, "root", 0, 1_000_000)), Arc::new(child), Arc::new(orphan)],
    }
}

/// A session parked on the Traces list with one row whose trace is at hand.
fn traces_app_with_trace() -> App {
    let detail = sample_trace();
    let mut app = App::new(0);
    app.at.route = Route::Traces;
    app.snapshot = listing(vec!["1 matching traces".into(), format!("{}  ts", detail.trace_id)], Some(1));
    app.at.selected = 1;
    app.trace.detail_trace_id = Some(detail.trace_id.clone());
    app.trace.trace_detail = Some(Arc::new(detail));
    app
}

fn sample_log_record(trace: Option<&str>) -> LogRecord {
    LogRecord {
        time_ns: 1_609_459_200_000_000_000,
        severity: "INFO (9)".into(),
        service: Some("api".into()),
        body: "hello\nworld".into(),
        trace_id: trace.map(str::to_owned),
        span_id: Some("aabbccdd11223344".into()),
        attributes: vec![("http.method".into(), "GET".into())],
        resource: vec![("service.name".into(), "api".into())],
        scope: vec![],
    }
}

fn catalog_table() -> TableData {
    TableData::new(
        vec!["Metric".into(), "Kind".into(), "Unit".into(), "Temporality".into()],
        vec![
            vec!["cpu".into(), "gauge".into(), "1".into(), "-".into()],
            vec!["reqs".into(), "sum".into(), "1".into(), "cumulative".into()],
        ],
    )
}

/// The metric catalog: an empty query on the Metrics screen.
fn catalog_app() -> App {
    let mut app = App::new(0);
    app.at.route = Route::Metrics;
    app.at.query[1] = String::new();
    app.snapshot.table = Some(catalog_table());
    app.build_metric_tree();
    app
}

/// The series list: a query on the Metrics screen.
fn metrics_app_with_series() -> App {
    let mut app = App::new(0);
    app.at.route = Route::Metrics;
    app.at.query[1] = "up".to_owned();
    app.snapshot.table = Some(TableData::new(
        vec!["Series".into(), "Latest".into()],
        vec![vec!["a".into()], vec!["b".into()]],
    ));
    app.snapshot.series = vec![
        SeriesData { labels: "svc=a".into(), points: points(&[(10, 1.0), (20, 2.0)]) },
        SeriesData { labels: "svc=b".into(), points: points(&[(10, 3.0), (20, 4.0), (30, 5.0)]) },
    ];
    app
}

/// An editing session over a metric whose dimensions are known.
fn app_with_discovered_dims() -> App {
    let mut app = App::new(0);
    app.at.route = Route::Metrics;
    app.mode = Mode::Editing;
    app.words.metric_names = vec!["http_requests_total".to_owned()];
    app.catalog.metric_tree = vec![MetricNode {
        name: "http_requests_total".to_owned(),
        kind: "sum".to_owned(),
        unit: String::new(),
        temporality: String::new(),
        expanded: false,
        whole_selected: false,
        dims: Some(vec![
            DimNode {
                label: "service".to_owned(),
                values: vec!["cart".to_owned(), "checkout".to_owned()],
                expanded: false,
                selected: None,
            },
            DimNode {
                label: "host".to_owned(),
                values: vec!["node-a".to_owned()],
                expanded: false,
                selected: None,
            },
        ]),
        loading: false,
    }];
    app
}

/// An editing session on the Logs screen whose labels are known.
fn logs_app_with_labels() -> App {
    let mut app = App::new(0);
    app.at.route = Route::Logs;
    app.mode = Mode::Editing;
    app.words.log_labels =
        Some(vec!["service.name".to_owned(), "http.method".to_owned(), "host".to_owned()]);
    app.words.log_label_values =
        vec![("service.name".to_owned(), vec!["cart".to_owned(), "checkout".to_owned()])];
    app
}

// ── the catalog tree

#[test]
fn catalog_tree_expands_metrics_and_dimensions() {
    let mut app = catalog_app();
    assert_eq!(app.snapshot.table.as_ref().unwrap().rows.len(), 2);
    assert_eq!(
        app.catalog.tree_rows,
        vec![TreeRowRef::Metric(0), TreeRowRef::Metric(1)]
    );

    // Expand the second metric (reqs); dims not loaded yet -> a placeholder row appears.
    app.at.selected = 1;
    let load = app.toggle_node();
    assert_eq!(load, Some("reqs".to_owned()));
    assert_eq!(app.snapshot.table.as_ref().unwrap().rows.len(), 3);

    // Dimensions arrive; the placeholder becomes a dimension row.
    app.apply_metric_dims(
        "reqs",
        vec![DimNode {
            label: "service".into(),
            values: vec!["cart".into(), "checkout".into()],
            expanded: false,
            selected: None,
        }],
    );
    assert_eq!(
        app.catalog.tree_rows,
        vec![
            TreeRowRef::Metric(0),
            TreeRowRef::Metric(1),
            TreeRowRef::Dim(1, 0),
        ]
    );

    // Expand the dimension to reveal its two values.
    app.at.selected = 2;
    assert_eq!(app.toggle_node(), None); // dim expand needs no fetch
    assert_eq!(
        app.catalog.tree_rows,
        vec![
            TreeRowRef::Metric(0),
            TreeRowRef::Metric(1),
            TreeRowRef::Dim(1, 0),
            TreeRowRef::Value(1, 0, 0),
            TreeRowRef::Value(1, 0, 1),
        ]
    );
}

#[test]
fn value_checkbox_is_exclusive_and_drives_the_query() {
    let mut app = catalog_app();
    app.apply_metric_dims(
        "reqs",
        vec![DimNode {
            label: "service".into(),
            values: vec!["cart".into(), "checkout".into()],
            expanded: true,
            selected: None,
        }],
    );
    app.catalog.metric_tree[1].expanded = true;
    app.rebuild_catalog_table();
    // rows: [cpu, reqs, by service, service=cart, service=checkout]

    // Nothing checked: the metric row visualizes the whole metric.
    app.at.selected = 1;
    assert_eq!(app.visualize_queries(), vec!["rate(reqs[5m])".to_owned()]);

    // Nothing checked, cursor on the "by service" row: group by service.
    app.at.selected = 2;
    assert_eq!(
        app.visualize_queries(),
        vec!["sum by (service) (rate(reqs[5m]))".to_owned()]
    );

    // Check service=cart (Space on that value row).
    app.at.selected = 3;
    assert_eq!(app.toggle_node(), None);
    assert_eq!(
        app.catalog.metric_tree[1].dims.as_ref().unwrap()[0].selected,
        Some(0)
    );
    // A checked series *is* the selection: it drives the visualization regardless of where the
    // cursor sits (here the "by service" row), filtered by the checked value.
    app.at.selected = 2;
    assert_eq!(
        app.visualize_queries(),
        vec!["rate(reqs{service=\"cart\"}[5m])".to_owned()]
    );

    // Checking a different value in the same axis replaces the first (exclusive).
    app.at.selected = 4;
    app.toggle_node();
    assert_eq!(
        app.catalog.metric_tree[1].dims.as_ref().unwrap()[0].selected,
        Some(1)
    );

    // Toggling the checked value off clears it, so the cursor drives it again.
    app.toggle_node();
    assert_eq!(app.catalog.metric_tree[1].dims.as_ref().unwrap()[0].selected, None);
    app.at.selected = 1;
    assert_eq!(app.visualize_queries(), vec!["rate(reqs[5m])".to_owned()]);
}

#[test]
fn checked_series_visualize_their_metrics_together() {
    let mut app = catalog_app(); // cpu (gauge), reqs (sum)

    // Nothing checked: visualize only the node under the cursor.
    app.at.selected = 0;
    assert_eq!(app.visualize_queries(), vec!["cpu".to_owned()]);

    // Mark a series under each metric (a checked value = an implicit metric selection).
    app.catalog.metric_tree[0].dims = Some(vec![DimNode {
        label: "host".into(),
        values: vec!["node-a".into()],
        expanded: false,
        selected: Some(0),
    }]);
    app.catalog.metric_tree[1].dims = Some(vec![DimNode {
        label: "service".into(),
        values: vec!["cart".into()],
        expanded: false,
        selected: Some(0),
    }]);

    // Both metrics are visualized together, each filtered by its own checked series and using its
    // own kind-appropriate transform (gauge as-is, sum as a rate). Cursor position is irrelevant.
    app.at.selected = 0;
    assert_eq!(
        app.visualize_queries(),
        vec![
            "cpu{host=\"node-a\"}".to_owned(),
            "rate(reqs{service=\"cart\"}[5m])".to_owned(),
        ]
    );

    // Clearing cpu's series drops it from the selection.
    app.catalog.metric_tree[0].dims.as_mut().unwrap()[0].selected = None;
    assert_eq!(
        app.visualize_queries(),
        vec!["rate(reqs{service=\"cart\"}[5m])".to_owned()]
    );
}

#[test]
fn no_dimensions_checkbox_selects_the_whole_metric() {
    let mut app = catalog_app(); // cpu (gauge), reqs (sum)
    // cpu has no dimensions; expanding it shows the "(no dimensions)" checkbox row.
    app.catalog.metric_tree[0].dims = Some(vec![]);
    app.catalog.metric_tree[0].expanded = true;
    app.rebuild_catalog_table();
    assert_eq!(
        app.catalog.tree_rows,
        vec![
            TreeRowRef::Metric(0),
            TreeRowRef::NoDims(0),
            TreeRowRef::Metric(1),
        ]
    );
    assert!(
        app.snapshot.table.as_ref().unwrap().rows[1][0].contains("[ ] (no dimensions)"),
        "unchecked box shown alongside the message"
    );

    // Space on that row checks the whole metric.
    app.at.selected = 1;
    assert_eq!(app.toggle_node(), None);
    assert!(app.catalog.metric_tree[0].whole_selected);
    assert!(app.snapshot.table.as_ref().unwrap().rows[1][0].contains("[x]"));

    // The whole-metric checkbox drives the visualization regardless of the cursor.
    app.at.selected = 2; // cursor on reqs
    assert_eq!(app.visualize_queries(), vec!["cpu".to_owned()]);

    // Unchecking it returns to the node under the cursor.
    app.at.selected = 1;
    app.toggle_node();
    assert!(!app.catalog.metric_tree[0].whole_selected);
    app.at.selected = 2;
    assert_eq!(app.visualize_queries(), vec!["rate(reqs[5m])".to_owned()]);
}

#[test]
fn catalog_selection_survives_navigating_away_and_back() {
    let mut app = catalog_app(); // cpu (gauge), reqs (sum)
    // Discover reqs' dimensions, check a series, and expand it (the state before visualizing).
    app.apply_metric_dims(
        "reqs",
        vec![DimNode {
            label: "service".into(),
            values: vec!["cart".into(), "checkout".into()],
            expanded: true,
            selected: Some(0),
        }],
    );
    app.catalog.metric_tree[1].expanded = true;
    assert_eq!(
        app.visualize_queries(),
        vec!["rate(reqs{service=\"cart\"}[5m])".to_owned()]
    );

    // Navigate away to the series list and back: a fresh catalog snapshot arrives (raw rows) and
    // the tree is rebuilt. Expansion, discovered dims, and the checked series must all survive.
    app.snapshot.table = Some(TableData::new(vec![
            "Metric".into(),
            "Kind".into(),
            "Unit".into(),
            "Temporality".into(),
        ], vec![
            vec!["cpu".into(), "gauge".into(), "1".into(), "-".into()],
            vec!["reqs".into(), "sum".into(), "1".into(), "cumulative".into()],
        ]));
    app.build_metric_tree();

    assert!(app.catalog.metric_tree[1].expanded, "expansion preserved");
    let dims = app.catalog.metric_tree[1].dims.as_ref().expect("dims preserved");
    assert_eq!(dims[0].selected, Some(0), "checked series preserved");
    assert_eq!(
        app.visualize_queries(),
        vec!["rate(reqs{service=\"cart\"}[5m])".to_owned()]
    );
}

// ── the completion popup

#[test]
fn accepting_a_function_appends_a_paren_and_a_metric_does_not() {
    let mut app = App::new(0);
    app.at.route = Route::Metrics;
    app.mode = Mode::Editing;
    app.words.metric_names = vec!["http_requests_total".to_owned()];

    // Function completion appends `(`.
    app.set_active_query("rat".to_owned());
    app.refresh_completion();
    app.accept_completion();
    assert_eq!(app.active_query(), "rate(");

    // Metric completion replaces the token verbatim.
    app.set_active_query("rate(htt".to_owned());
    app.refresh_completion();
    app.accept_completion();
    assert_eq!(app.active_query(), "rate(http_requests_total");
}

#[test]
fn completion_is_suppressed_outside_edit_mode_and_for_exact_matches() {
    let mut app = App::new(0);
    app.at.route = Route::Metrics;
    // Not editing -> never suggest.
    app.set_active_query("rat".to_owned());
    app.refresh_completion();
    assert!(app.words.completion.is_none());

    // Editing, but the token already equals the only candidate -> nothing more to offer.
    app.mode = Mode::Editing;
    app.set_active_query("rate".to_owned());
    app.refresh_completion();
    assert!(app.words.completion.is_none());
}

#[test]
fn completion_offers_label_names_inside_a_matcher() {
    let mut app = app_with_discovered_dims();
    app.set_active_query("http_requests_total{s".to_owned());
    app.refresh_completion();
    let completion = app.words.completion.as_ref().expect("label-name candidates");
    let texts = completion
        .candidates
        .iter()
        .map(|c| c.text.as_str())
        .collect::<Vec<_>>();
    assert_eq!(texts, vec!["service"]); // only the label starting with `s`
    assert!(
        completion
            .candidates
            .iter()
            .all(|c| c.kind == CandidateKind::Label)
    );
}

#[test]
fn completion_offers_label_values_inside_a_quoted_matcher() {
    let mut app = app_with_discovered_dims();
    app.set_active_query("http_requests_total{service=\"c".to_owned());
    app.refresh_completion();
    let completion = app.words.completion.as_ref().expect("label-value candidates");
    let texts = completion
        .candidates
        .iter()
        .map(|c| c.text.as_str())
        .collect::<Vec<_>>();
    // Both values start with `c`, sorted, tagged as label values.
    assert_eq!(texts, vec!["cart", "checkout"]);
    assert!(
        completion
            .candidates
            .iter()
            .all(|c| c.kind == CandidateKind::LabelValue)
    );

    // Accepting replaces just the partial value.
    app.accept_completion();
    assert_eq!(app.active_query(), "http_requests_total{service=\"cart");
}

#[test]
fn completion_requests_dims_for_an_undiscovered_metric_once() {
    let mut app = app_with_discovered_dims();
    // Reset the metric to "not discovered yet".
    app.catalog.metric_tree[0].dims = None;
    app.set_active_query("http_requests_total{s".to_owned());
    // No label vocabulary yet -> no popup, but a discovery request is emitted exactly once.
    app.refresh_completion();
    assert!(app.words.completion.is_none());
    assert_eq!(
        app.completion_dim_request(),
        Some(("http_requests_total".to_owned(), "sum".to_owned()))
    );
    // Marked loading now, so it does not fire again.
    assert_eq!(app.completion_dim_request(), None);
}

#[test]
fn logs_expression_popup_opens_on_an_empty_token() {
    // Unlike Metrics/Traces (whose Expr vocabulary is large and waits for input), the Logs box's
    // short operator-hint list pops immediately after a selector.
    let mut app = logs_app_with_labels();
    app.set_active_query("{}".to_owned());
    app.refresh_completion();
    let completion = app.words.completion.as_ref().expect("operator-hint popup");
    assert!(
        completion
            .candidates
            .iter()
            .any(|c| c.kind == CandidateKind::Operator && c.text == "|?")
    );
}

#[test]
fn completion_offers_log_label_names_inside_a_matcher() {
    let mut app = logs_app_with_labels();
    app.set_active_query("{h".to_owned());
    app.refresh_completion();
    let completion = app.words.completion.as_ref().expect("log label-name candidates");
    let texts = completion
        .candidates
        .iter()
        .map(|c| c.text.as_str())
        .collect::<Vec<_>>();
    // Only the labels starting with `h`, sorted, tagged as label names.
    assert_eq!(texts, vec!["host", "http.method"]);
    assert!(
        completion
            .candidates
            .iter()
            .all(|c| c.kind == CandidateKind::Label)
    );
}

#[test]
fn completion_offers_log_label_values_inside_a_quoted_matcher() {
    let mut app = logs_app_with_labels();
    app.set_active_query("{service.name=\"c".to_owned());
    app.refresh_completion();
    let completion = app.words.completion.as_ref().expect("log label-value candidates");
    let texts = completion
        .candidates
        .iter()
        .map(|c| c.text.as_str())
        .collect::<Vec<_>>();
    assert_eq!(texts, vec!["cart", "checkout"]);
    assert!(
        completion
            .candidates
            .iter()
            .all(|c| c.kind == CandidateKind::LabelValue)
    );
    // Accepting replaces just the partial value.
    app.accept_completion();
    assert_eq!(app.active_query(), "{service.name=\"cart");
}

#[test]
fn completion_requests_log_labels_once_when_undiscovered() {
    let mut app = App::new(0);
    app.at.route = Route::Logs;
    app.mode = Mode::Editing;
    // No label vocabulary discovered yet.
    app.set_active_query("{s".to_owned());
    app.refresh_completion();
    assert!(app.words.completion.is_none(), "no vocabulary -> no popup yet");
    assert_eq!(
        app.completion_log_request(),
        Some(LogCompletionRequest::Labels)
    );
    // Marked loading now, so it does not fire again.
    assert_eq!(app.completion_log_request(), None);

    // Once the names arrive, the same caret position fills the popup in.
    app.words.log_labels = Some(vec!["service.name".to_owned()]);
    app.words.log_labels_loading = false;
    app.refresh_completion();
    let completion = app.words.completion.as_ref().expect("labels now available");
    assert_eq!(completion.candidates[0].text, "service.name");
}

#[test]
fn completion_requests_log_label_values_once_per_key() {
    let mut app = App::new(0);
    app.at.route = Route::Logs;
    app.mode = Mode::Editing;
    app.words.log_labels = Some(vec!["service.name".to_owned()]);
    // In a quoted value for an as-yet-undiscovered key.
    app.set_active_query("{service.name=\"c".to_owned());
    app.refresh_completion();
    assert!(app.words.completion.is_none(), "no values yet -> no popup");
    assert_eq!(
        app.completion_log_request(),
        Some(LogCompletionRequest::Values("service.name".to_owned()))
    );
    // Marked loading, so the same key does not fire again.
    assert_eq!(app.completion_log_request(), None);
}

// ── the session

#[test]
fn stale_query_results_are_discarded() {
    let mut app = App::new(0);
    app.load.generation = 2;
    app.at.route = Route::Logs;
    app.apply(QueryResult {
        generation: 1,
        screen: Screen::Logs,
        result: Ok(Snapshot::message("old", "old")),
    }, NOW);
    assert_ne!(app.snapshot.title, "old");
}

#[test]
fn mascot_is_hidden_by_default() {
    assert!(!App::new(0).mascot.show_mascot);
}

#[test]
fn sticky_waterfall_is_on_by_default() {
    assert!(App::new(0).trace.sticky_waterfall);
}

#[test]
fn auto_refresh_is_off_by_default() {
    assert!(!App::new(0).load.auto_refresh);
}

#[test]
fn the_query_caret_is_clamped_to_the_buffer_it_is_read_against() {
    let mut app = App::new(0);
    app.at.route = Route::Logs;
    app.set_active_query("{service.name=\"cart\"}".to_owned());
    assert_eq!(
        app.query_caret(),
        21,
        "a fresh query parks the caret at its end"
    );

    // The active buffer changes with the screen, so a caret left over from another screen's (longer)
    // query must clamp rather than slice out of bounds.
    app.at.route = Route::Metrics; // an empty buffer
    assert_eq!(app.query_caret(), 0);
    assert_eq!(app.query_before_caret(), "");

    // And a caret that would land inside a multi-byte character snaps back to its start.
    app.set_active_query("café".to_owned());
    app.query_cursor = 4; // the middle of the two-byte `é`
    assert_eq!(app.query_caret(), 3);
    assert_eq!(app.query_before_caret(), "caf");
}

#[test]
fn selectable_bounds_track_the_list_region() {
    let mut app = App::new(0);
    // Not a list -> no selection, keys scroll instead.
    app.snapshot.list_from = None;
    assert_eq!(app.selectable_bounds(), None);

    // Header line 0, three selectable rows at 1..=3.
    app.snapshot.lines = vec!["header".into(), "a".into(), "b".into(), "c".into()];
    app.snapshot.list_from = Some(1);
    assert_eq!(app.selectable_bounds(), Some((1, 3)));

    // Header-only list (0 matches) has no selectable rows.
    app.snapshot.lines = vec!["header".into()];
    app.snapshot.list_from = Some(1);
    assert_eq!(app.selectable_bounds(), None);
}

#[test]
fn apply_lands_the_cursor_on_the_first_selectable_row() {
    let mut app = App::new(0);
    app.at.route = Route::Traces;
    app.load.generation = 7;
    app.at.selected = 0;
    let snapshot = listing(vec!["header".into(), "a".into(), "b".into(), "c".into()], Some(1));
    app.apply(QueryResult {
        generation: 7,
        screen: Screen::Traces,
        result: Ok(snapshot),
    }, NOW);
    assert_eq!(app.at.selected, 1);
}

#[test]
fn metric_detail_chart_follows_a_refresh_so_pan_zoom_redraws() {
    let mut app = App::new(0);
    app.load.generation = 3;
    // A metric detail opened over an old window (two points).
    app.at.route = Route::MetricDetail {
        detail: Arc::new(MetricDetail {
            labels: "__name__=m,svc=api".to_owned(),
            query: "m".to_owned(),
            points: points(&[(0, 1.0), (10, 2.0)]),
        }),
    };
    app.at.metric_cursor = 1;
    // A refresh (as a pan/zoom would trigger) lands a Metrics result whose matching series carries
    // the new window's points.
    let mut snapshot = Snapshot::message("PromQL", "");
    snapshot.series = vec![
        SeriesData {
            labels: "__name__=m,svc=api".to_owned(),
            points: points(&[(100, 5.0), (110, 6.0), (120, 7.0)]),
        },
        SeriesData {
            labels: "__name__=other".to_owned(),
            points: points(&[(100, 9.0)]),
        },
    ];
    app.apply(QueryResult {
        generation: 3,
        screen: Screen::Metrics,
        result: Ok(snapshot),
    }, NOW);
    let detail = app.route_metric_detail().expect("still a metric detail");
    assert_eq!(
        detail.points,
        points(&[(100, 5.0), (110, 6.0), (120, 7.0)]),
        "the detail chart adopts the matching series' new-window points"
    );
    // The cursor stays in range of the (now longer) series.
    assert!(app.at.metric_cursor < detail.points.len());

    // A refresh whose window no longer contains the series clears the plot (honest empty).
    let mut empty = Snapshot::message("PromQL", "");
    empty.series = vec![SeriesData {
        labels: "__name__=unrelated".to_owned(),
        points: points(&[(0, 1.0)]),
    }];
    app.apply(QueryResult {
        generation: 3,
        screen: Screen::Metrics,
        result: Ok(empty),
    }, NOW);
    assert!(app.route_metric_detail().unwrap().points.is_empty());
}

#[test]
fn a_fast_refresh_never_flashes_the_banner() {
    // The common case: the query lands well inside the delay, so nothing is ever drawn.
    let mut app = App::new(0);
    app.begin_loading(Refresh::Interactive, NOW);
    assert!(app.loading_banner(NOW).is_none());
    app.end_loading();
    assert!(app.loading_banner(NOW).is_none(), "and nothing lingers after");
}

#[test]
fn a_wait_past_the_delay_raises_the_banner() {
    let mut app = App::new(0);
    app.begin_loading(Refresh::Interactive, NOW);
    // Backdate the start rather than sleeping: the banner is a pure function of elapsed time.
    app.load.loading_since = Some(NOW - LOADING_BANNER_AFTER);
    let elapsed = app.loading_banner(NOW).expect("the delay has passed");
    assert!(elapsed >= LOADING_BANNER_AFTER);
}

#[test]
fn a_refused_key_raises_the_banner_without_waiting_out_the_delay() {
    // A key that visibly did nothing has to be explained immediately — waiting for the timer
    // would leave the user looking at a UI that has apparently frozen for no stated reason.
    let mut app = App::new(0);
    app.begin_loading(Refresh::Interactive, NOW);
    app.load.input_refused = true;
    assert!(app.loading_banner(NOW).is_some());
}

#[test]
fn a_background_load_arms_the_banner_but_not_the_lock() {
    // The timer's tick is still worth announcing once it drags; it just does not take the keys.
    let mut app = App::new(0);
    app.begin_loading(Refresh::Background, NOW);
    assert!(!app.load.input_locked);
    app.load.loading_since = Some(NOW - LOADING_BANNER_AFTER);
    assert!(app.loading_banner(NOW).is_some());
}

#[test]
fn landing_a_stale_result_still_releases_the_keyboard() {
    // `apply` bails out early on a superseded generation. The release happens first: the query
    // this lock belonged to is over either way, and skipping it would strand the keyboard.
    let mut app = App::new(0);
    app.begin_loading(Refresh::Interactive, NOW);
    app.apply(QueryResult {
        generation: app.load.generation.wrapping_sub(1),
        screen: Screen::Overview,
        result: Ok(Snapshot::message("Overview", "")),
    }, NOW);
    assert!(!app.load.loading && !app.load.input_locked);
    assert!(app.loading_banner(NOW).is_none());
}

// ── navigation

#[test]
fn menu_cursor_wraps_over_screens_and_the_range_item() {
    let mut app = App::new(0);
    app.at.route = Route::Traces;
    app.open_menu();
    assert_eq!(app.mode, Mode::Menu);
    // Starts on the current screen.
    assert_eq!(app.menu_cursor, Screen::Traces.index());
    assert_eq!(app.menu_screen(), Some(Screen::Traces));
    // Right walks the remaining screens, reaches the trailing range item, then wraps to Overview.
    for expected in &ORDER[Screen::Traces.index() + 1..] {
        app.menu_move(1);
        assert_eq!(app.menu_screen(), Some(*expected));
    }
    app.menu_move(1);
    assert_eq!(app.menu_screen(), None); // the range item
    app.menu_move(1);
    assert_eq!(app.menu_screen(), Some(Screen::Overview));
    // Left from Overview wraps back to the range item.
    app.menu_move(-1);
    assert_eq!(app.menu_screen(), None);
}

#[test]
fn focus_ring_cycles_menu_items_time_selector_and_panes_on_a_list_screen() {
    let mut app = App::new(0);
    app.at.route = Route::Metrics; // has a query pane -> the full ring incl. the four menu items
    assert_eq!(app.focus, Focus::Primary);
    // Tab (delta +1) walks reading order and wraps: Primary -> Menu(0..4) -> TimeRange -> Query.
    app.focus_advance(1);
    assert_eq!(app.focus, Focus::Menu(0));
    for expected in 1..ORDER.len() {
        app.focus_advance(1);
        assert_eq!(app.focus, Focus::Menu(expected));
    }
    app.focus_advance(1);
    assert_eq!(app.focus, Focus::TimeRange);
    app.focus_advance(1);
    assert_eq!(app.focus, Focus::Query);
    app.focus_advance(1);
    assert_eq!(app.focus, Focus::Primary);
    // Shift+Tab (delta -1) walks the other way: Primary -> Query -> TimeRange -> last menu item.
    app.focus_advance(-1);
    assert_eq!(app.focus, Focus::Query);
    app.focus_advance(-1);
    assert_eq!(app.focus, Focus::TimeRange);
    app.focus_advance(-1);
    assert_eq!(app.focus, Focus::Menu(ORDER.len() - 1));
}

#[test]
fn focus_ring_omits_the_query_stop_without_a_query_pane() {
    // Overview has no query pane, and does have an attribute pane: the ring is the menu items,
    // the time selector, Primary, then the attribute pane.
    let mut app = App::new(0);
    assert_eq!(app.at.route.screen(), Screen::Overview);
    assert!(!app.has_query());
    assert!(app.has_attr_pane());
    // Step to the time selector, then one more lands on Primary (no Query stop in between).
    app.focus = Focus::TimeRange;
    app.focus_advance(1);
    assert_eq!(app.focus, Focus::Primary);
    // Then the attribute pane: the range it was measured over, then one stop per section. The
    // range is separate because Enter cannot mean both "change the range" and "act on this row";
    // the sections are separate from each other because each is its own table, and Tab is how a
    // reader reaches the third one without scrolling past the first two.
    app.focus_advance(1);
    assert_eq!(app.focus, Focus::AttrRange);
    // No measurement has landed, so there are no section stops yet — and wrapping forward from
    // the range reaches the first menu item rather than a stop with nothing behind it.
    assert!(app.attr_sections().is_empty());
    app.focus_advance(1);
    assert_eq!(app.focus, Focus::Menu(0));

    // Off the Overview both kinds of stop are gone, and a stale one reads as Primary.
    app.at.route = Route::Logs;
    assert!(!app.has_attr_pane());
    for stale in [Focus::AttrRange, Focus::AttrTable(0)] {
        app.focus = stale;
        assert_eq!(app.effective_focus(), Focus::Primary);
    }
    app.at.route = Route::Overview;
    // A section index that outlived its measurement reads as Primary too, rather than taking the
    // cursor past the end of a table that has since shrunk.
    app.focus = Focus::AttrTable(9);
    assert_eq!(app.effective_focus(), Focus::Primary);

    // A detail route also drops the query stop, and a stale Query focus reads as Primary so the
    // highlight and Enter never target a pane that is not shown.
    app.at.route = Route::LogDetail {
        record: Arc::new(sample_log_record(None)),
    };
    app.focus = Focus::Query;
    assert!(!app.has_query());
    assert_eq!(app.effective_focus(), Focus::Primary);
    // Advancing anchors on the effective focus, so it steps to the first menu item, not Query.
    app.focus_advance(1);
    assert_eq!(app.focus, Focus::Menu(0));
}

#[test]
fn menubar_move_cycles_the_screen_items_and_time_selector() {
    let mut app = App::new(0);
    app.focus = Focus::Menu(0);
    // Right walks the four screen items, then the trailing time selector, then wraps.
    for expected in 1..ORDER.len() {
        app.menubar_move(1);
        assert_eq!(app.focus, Focus::Menu(expected));
    }
    app.menubar_move(1);
    assert_eq!(app.focus, Focus::TimeRange);
    app.menubar_move(1);
    assert_eq!(app.focus, Focus::Menu(0));
    // Left from the first item wraps back to the time selector.
    app.menubar_move(-1);
    assert_eq!(app.focus, Focus::TimeRange);

    // Inert unless the ring is on a menu-bar stop: on a pane it leaves the focus untouched.
    app.focus = Focus::Primary;
    app.menubar_move(1);
    assert_eq!(app.focus, Focus::Primary);
}

#[test]
fn navigation_resets_focus_to_the_primary_pane() {
    let mut app = App::new(0);
    app.at.route = Route::Metrics;
    app.focus = Focus::TimeRange;
    // restore_nav (back/forward) drops transient chrome, including a non-Primary focus.
    let entry = app.capture_nav();
    app.restore_nav(entry);
    assert_eq!(app.focus, Focus::Primary);
}

#[test]
fn back_forward_history_moves_through_visited_views() {
    let mut app = App::new(0);
    app.at.route = Route::Metrics; // view A: catalog (empty query)
    assert!(!app.go_back(), "no history yet");

    // Forward A -> B (series list): record A, then mutate to B.
    app.push_history();
    app.at.query[1] = "up".to_owned();
    app.at.selected = 3;
    // Forward B -> C (series detail): record B, then mutate to C.
    app.push_history();
    app.at.route = Route::MetricDetail {
        detail: Arc::new(MetricDetail {
            labels: "svc=a".into(),
            query: "up".into(),
            points: points(&[(1, 1.0)]),
        }),
    };

    // Back C -> B -> A.
    assert!(app.go_back());
    assert!(matches!(app.at.route, Route::Metrics));
    assert_eq!(app.active_query(), "up");
    assert_eq!(app.at.selected, 3);
    assert!(app.route_metric_detail().is_none());
    assert!(app.go_back());
    assert_eq!(app.active_query(), "");
    assert!(!app.go_back(), "at the oldest view");

    // Forward A -> B -> C redoes the Backs.
    assert!(app.go_forward());
    assert_eq!(app.active_query(), "up");
    assert!(app.go_forward());
    assert_eq!(
        app.route_metric_detail().map(|d| d.labels.as_str()),
        Some("svc=a")
    );
    assert!(!app.go_forward(), "at the newest view");

    // A fresh forward navigation invalidates the Forward stack (a new branch).
    assert!(app.go_back()); // back to B
    app.push_history();
    app.at.route = Route::Metrics;
    assert!(
        !app.go_forward(),
        "a new navigation clears the redo history"
    );
}

#[test]
fn up_walks_the_screen_series_regardless_of_how_the_view_was_reached() {
    // The state a log→trace jump leaves: parked on a trace detail with the *log* detail behind it.
    let mut app = traces_app_with_trace();
    app.at.route = Route::LogDetail {
        record: Arc::new(sample_log_record(Some("aa"))),
    };
    app.push_history();
    let detail = app.trace.trace_detail.clone().expect("materialized trace");
    app.at.route = Route::TraceDetail { detail };

    // Up follows the Traces series (→ the trace list), where Back would return to the log detail.
    assert!(app.go_up());
    assert!(matches!(app.at.route, Route::Traces));
    // The departed view is recorded, so `←` undoes the step up.
    assert!(app.go_back());
    assert!(app.route_trace_detail().is_some());

    // Back on the log detail, Up follows the *Logs* series instead.
    assert!(app.go_back());
    assert!(app.route_log_record().is_some());
    assert!(app.go_up());
    assert!(matches!(app.at.route, Route::Logs));
}

#[test]
fn up_from_a_span_detail_lands_on_its_trace_with_the_cursor_on_that_span() {
    let mut app = traces_app_with_trace();
    assert!(app.open_trace_detail());
    app.move_span_cursor(2);
    assert!(app.open_span_detail());

    assert!(app.go_up());
    let detail = app.route_trace_detail().expect("stepped up to the trace");
    assert_eq!(detail.spans.len(), 3);
    assert_eq!(app.at.span_cursor, 2, "the cursor is back on the open span");

    // One more step up leaves the trace views for the list, retiring the waterfall cursor.
    assert!(app.go_up());
    assert!(matches!(app.at.route, Route::Traces));
    assert_eq!(app.at.span_cursor, 0);
}

#[test]
fn up_from_a_span_detail_falls_back_to_the_list_when_its_trace_is_gone() {
    // A span detail whose trace is neither retained nor on the back stack: the trace-detail rung
    // has no data to rebuild from, so the step lands on the Traces list instead.
    let mut app = traces_app_with_trace();
    let span = app.trace.trace_detail.as_ref().unwrap().spans[1].clone();
    app.trace.trace_detail = None;
    app.at.route = Route::SpanDetail {
        trace_id: "0123456789abcdef0123456789abcdef".to_owned(),
        span,
    };
    assert!(app.go_up());
    assert!(matches!(app.at.route, Route::Traces));
}

#[test]
fn up_is_a_noop_on_a_series_first_view() {
    let mut app = App::new(0);
    // The Metrics list route is the *catalog* only while its query is empty, which `App::new` is.
    for route in [Route::Overview, Route::Metrics, Route::Traces, Route::Logs] {
        app.at.route = route;
        assert!(app.series_parent().is_none());
        assert!(!app.go_up(), "the first view of a series has nothing above");
        assert!(app.back.is_empty(), "a no-op records no history");
    }

    // A metric detail, by contrast, steps up to the series list.
    app.at.route = Route::MetricDetail {
        detail: Arc::new(MetricDetail {
            labels: "svc=a".into(),
            query: "up".into(),
            points: points(&[(1, 1.0)]),
        }),
    };
    assert!(app.go_up());
    assert!(matches!(app.at.route, Route::Metrics));
}

#[test]
fn up_walks_the_metrics_series_through_the_series_list_to_the_catalog() {
    // The Metrics series has a rung that is not a route: the catalog the series list was built
    // from, told apart by an empty query. Drill catalog -> series list -> series detail...
    let mut app = metrics_app_with_series();
    app.at.selected = 0;
    assert!(app.open_metric_detail());
    assert_eq!(app.metric_exemplars.len(), 0);

    // ...then walk back up it. The detail steps to the series list, query intact.
    assert!(app.go_up());
    assert!(matches!(app.at.route, Route::Metrics));
    assert_eq!(app.active_query(), "up");
    assert!(!app.on_catalog(), "still the series list");

    // The series list steps to the catalog: same route, query dropped.
    assert!(app.go_up());
    assert!(matches!(app.at.route, Route::Metrics));
    assert_eq!(app.active_query(), "");
    assert!(app.on_catalog());
    assert_eq!(
        app.at.selected, 0,
        "the series row cursor does not index the tree"
    );

    // The catalog is the series' first view.
    assert!(!app.go_up());

    // Each step is recorded, so `←` walks back down: catalog -> series list -> detail.
    assert!(app.go_back());
    assert_eq!(app.active_query(), "up");
    assert!(app.go_back());
    assert!(app.route_metric_detail().is_some());
}

#[test]
fn history_restores_a_trace_to_log_correlation() {
    let mut app = App::new(0);
    app.at.route = Route::Traces;
    // Drill into a trace's logs: capture Traces, then set the correlation on the Logs view.
    app.push_history();
    app.at.route = Route::Logs;
    app.at.log_correlation = Some(LogCorrelation {
        trace_id: "0123456789abcdef0123456789abcdef".to_owned(),
        span_id: None,
    });
    // Back to Traces clears it; Forward to the correlated Logs restores it.
    assert!(app.go_back());
    assert_eq!(app.at.log_correlation, None);
    assert!(app.go_forward());
    assert_eq!(
        app.at.log_correlation.as_ref().map(|c| c.trace_id.as_str()),
        Some("0123456789abcdef0123456789abcdef")
    );
}

// ── detail views

#[test]
fn enter_opens_the_retained_trace_detail_and_records_history() {
    let mut app = traces_app_with_trace();
    assert!(app.open_trace_detail());
    let detail = app.route_trace_detail().expect("trace detail route");
    assert_eq!(detail.spans.len(), 3);
    assert_eq!(app.at.span_cursor, 0);
    // The departing Traces list is on the back stack, so Esc/← returns to it.
    assert_eq!(app.back.len(), 1);
    assert!(matches!(app.back[0].route, Route::Traces));
}

#[test]
fn opening_a_trace_detail_is_a_noop_until_its_trace_lands() {
    // Fetch still in flight: no route change and no history entry, so the Enter is free to be
    // remembered as a `pending_trace_open` intent instead.
    let mut app = traces_app_with_trace();
    app.trace.trace_detail = None;
    assert!(!app.open_trace_detail());
    assert!(matches!(app.at.route, Route::Traces));
    assert!(app.back.is_empty());

    // A retained trace for a *different* selection is equally not openable.
    let mut other = sample_trace();
    other.trace_id = "bb".repeat(16);
    app.trace.trace_detail = Some(Arc::new(other));
    assert!(!app.open_trace_detail());
    assert!(matches!(app.at.route, Route::Traces));
}

#[test]
fn span_cursor_moves_within_the_trace_and_drives_the_span_detail() {
    let mut app = traces_app_with_trace();
    assert!(app.open_trace_detail());

    app.move_span_cursor(1);
    assert_eq!(app.at.span_cursor, 1);
    app.move_span_cursor(10); // saturates at the last span
    assert_eq!(app.at.span_cursor, 2);
    app.move_span_cursor(-10); // saturates at the first
    assert_eq!(app.at.span_cursor, 0);

    // Enter on the cursor's span opens its field detail, carrying the trace id along.
    app.move_span_cursor(2);
    assert_eq!(
        app.selected_span().map(|span| span.name.as_str()),
        Some("orphan")
    );
    assert!(app.open_span_detail());
    let (trace_id, span) = app.route_span_detail().expect("span detail route");
    assert_eq!(trace_id, "aa".repeat(16));
    assert_eq!(span.name, "orphan");
    // Both trace views belong to the Traces screen and render as detail content.
    assert_eq!(app.screen(), Screen::Traces);
    assert!(app.at.route.is_detail());
    // Back through the span detail lands on the trace detail, then the list.
    assert!(app.go_back());
    assert!(app.route_trace_detail().is_some());
    assert_eq!(app.at.span_cursor, 2, "the waterfall cursor survives Back");
    assert!(app.go_back());
    assert!(matches!(app.at.route, Route::Traces));
}

#[test]
fn span_log_correlation_is_span_granular_from_both_trace_views() {
    let mut app = traces_app_with_trace();
    assert_eq!(app.span_log_correlation(), None, "not on a trace view");
    assert!(app.open_trace_detail());
    app.move_span_cursor(1);
    let expected = || LogCorrelation {
        trace_id: "aa".repeat(16),
        span_id: Some("02".repeat(8)),
    };
    assert_eq!(app.span_log_correlation(), Some(expected()));
    // The span detail correlates to the same span.
    assert!(app.open_span_detail());
    assert_eq!(app.span_log_correlation(), Some(expected()));
}

#[test]
fn selected_log_record_indexes_by_row() {
    let mut app = App::new(0);
    app.at.route = Route::Logs;
    app.snapshot.lines = vec!["header".into(), "row a".into(), "row b".into()];
    app.snapshot.list_from = Some(1);
    app.snapshot.log_records = vec![Arc::new(sample_log_record(Some("dead"))), Arc::new(sample_log_record(None))];

    app.at.selected = 1;
    assert_eq!(
        app.selected_log_record().map(|r| r.trace_id.clone()),
        Some(Some("dead".to_owned()))
    );
    app.at.selected = 2;
    assert_eq!(
        app.selected_log_record().map(|r| r.trace_id.clone()),
        Some(None)
    );

    // Not the Logs screen -> no record.
    app.at.route = Route::Traces;
    assert!(app.selected_log_record().is_none());
}

#[test]
fn open_metric_detail_selects_the_row_and_starts_at_latest() {
    let mut app = metrics_app_with_series();
    app.at.selected = 1; // the second series
    assert!(app.open_metric_detail());
    let detail = app.route_metric_detail().expect("detail route");
    assert_eq!(detail.labels, "svc=b");
    assert_eq!(detail.points.len(), 3);
    assert_eq!(detail.query, "up");
    assert_eq!(app.at.metric_cursor, 2, "cursor starts at the latest point");
}

#[test]
fn open_metric_detail_is_a_noop_without_a_series() {
    // The catalog view (empty query, no retained series) must not open the viewer.
    let mut app = App::new(0);
    app.at.route = Route::Metrics;
    app.snapshot.table = Some(TableData::new(vec!["Metric".into()], vec![vec!["http.requests".into()]]));
    app.at.selected = 0;
    assert!(!app.open_metric_detail());
    assert!(app.route_metric_detail().is_none());
}

#[test]
fn focus_select_trace_lands_on_the_matching_row_and_clears_focus() {
    let mut app = App::new(0);
    app.at.route = Route::Traces;
    app.snapshot.lines = vec![
        "2 matching traces".into(),
        "aaaa selected=1".into(),
        "bbbb selected=2".into(),
    ];
    app.snapshot.list_from = Some(1);

    app.at.focus_trace_id = Some("bbbb".into());
    app.at.selected = 1;
    app.focus_select_trace();
    assert_eq!(app.at.selected, 2);
    assert_eq!(app.at.focus_trace_id, None);

    // A focus not present in the list is kept (waterfall still shows it) and selection unchanged.
    app.at.focus_trace_id = Some("zzzz".into());
    app.at.selected = 1;
    app.focus_select_trace();
    assert_eq!(app.at.selected, 1);
    assert_eq!(app.at.focus_trace_id.as_deref(), Some("zzzz"));
}

#[test]
fn selected_trace_id_reads_the_highlighted_row() {
    let mut app = App::new(0);
    app.at.route = Route::Traces;
    app.snapshot.lines = vec![
        "2 matching traces".into(),
        "aabbccdd selected=1,2".into(),
        "eeff0011 selected=3".into(),
    ];
    app.snapshot.list_from = Some(1);

    app.at.selected = 1;
    assert_eq!(app.selected_trace_id().as_deref(), Some("aabbccdd"));
    app.at.selected = 2;
    assert_eq!(app.selected_trace_id().as_deref(), Some("eeff0011"));

    // Only the Traces screen resolves a trace id from the selected row.
    app.at.route = Route::Logs;
    assert_eq!(app.selected_trace_id(), None);
}

#[test]
fn log_paging_guards_reject_when_not_applicable() {
    let mut app = App::new(0);
    app.at.route = Route::Logs;
    // Page 0 with no next cursor: older is a no-op, newer is a no-op.
    assert!(!app.logs_page_older(), "no next cursor -> no older page");
    assert!(!app.logs_page_newer(), "page 0 -> no newer page");
    // Off the Logs list entirely.
    app.at.route = Route::Traces;
    assert!(!app.logs_page_older());
    assert!(!app.logs_page_newer());
}

#[test]
fn nearest_exemplar_trace_tracks_the_chart_cursor() {
    let mut app = App::new(0);
    app.at.route = Route::MetricDetail {
        detail: Arc::new(MetricDetail {
            labels: "__name__=m".to_owned(),
            query: "m".to_owned(),
            points: points(&[(0, 1.0), (10, 2.0), (20, 3.0)]),
        }),
    };
    app.metric_exemplars = vec![
        ExemplarMarker {
            time_ns: 1,
            trace_id: "aaaa".to_owned(),
        },
        ExemplarMarker {
            time_ns: 19,
            trace_id: "bbbb".to_owned(),
        },
    ];
    app.at.metric_cursor = 0; // t=0 -> nearest is the t=1 exemplar
    assert_eq!(app.nearest_exemplar_trace().as_deref(), Some("aaaa"));
    app.at.metric_cursor = 2; // t=20 -> nearest is the t=19 exemplar
    assert_eq!(app.nearest_exemplar_trace().as_deref(), Some("bbbb"));
    // No markers -> nothing to jump to.
    app.metric_exemplars.clear();
    assert_eq!(app.nearest_exemplar_trace(), None);
}

// ── the time window

#[test]
fn time_range_selection_updates_lookback_and_step() {
    let mut app = App::new(0);
    app.range.range_index = 0; // 5m
    assert_eq!(app.lookback(), Duration::from_secs(300));
    assert_eq!(app.step(), Duration::from_secs(5));
    assert_eq!(app.range_label(), "5m");
}

#[test]
fn absolute_window_overrides_rolling_and_summarizes() {
    let mut app = App::new(0);
    // Rolling by default: the summary reads "last <preset>".
    assert!(app.range.abs_window.is_none());
    let g = Glyphs::new(false);
    assert_eq!(app.range_summary(&g), "last 15m");
    // A committed absolute window drives the effective window and a same-day summary collapses the
    // shared date.
    let start = parse_datetime("2026-07-21 14:00:00").unwrap();
    let end = parse_datetime("2026-07-21 14:30:00").unwrap();
    app.range.abs_window = Some((start, end));
    assert_eq!(app.effective_window(WALL), (start, end));
    assert_eq!(app.range_summary(&g), "2026-07-21 14:00:00 → 14:30:00");
}

#[test]
fn commit_absolute_requires_a_valid_ordered_window() {
    let mut app = App::new(0);
    app.mode = Mode::AbsoluteRange;
    // start >= end is rejected and keeps the form open with an error.
    app.range.abs_start = "2026-07-21 15:00:00".to_owned();
    app.range.abs_end = "2026-07-21 14:00:00".to_owned();
    assert!(!app.commit_absolute());
    assert_eq!(app.mode, Mode::AbsoluteRange);
    assert!(app.range.abs_error.is_some());
    assert!(app.range.abs_window.is_none());
    // A well-formed ordered window commits, clears the error, and returns to Normal.
    app.range.abs_end = "2026-07-21 16:00:00".to_owned();
    assert!(app.commit_absolute());
    assert_eq!(app.mode, Mode::Normal);
    assert!(app.range.abs_error.is_none());
    assert_eq!(
        app.range.abs_window,
        Some((
            parse_datetime("2026-07-21 15:00:00").unwrap(),
            parse_datetime("2026-07-21 16:00:00").unwrap()
        ))
    );
}

#[test]
fn pan_window_shifts_the_span_and_freezes_it_absolute() {
    let mut app = App::new(0);
    // Anchor an absolute window well in the past so the pan-later clamp to `now` never bites.
    let span = 100_000_000_000i64; // 100s
    app.range.abs_window = Some((0, span));
    // Pan earlier by half the span.
    assert!(app.pan_window(false, 1, 2, WALL));
    assert_eq!(app.range.abs_window, Some((-span / 2, span / 2)));
    // Pan later by half the span (still far in the past → no clamp).
    assert!(app.pan_window(true, 1, 2, WALL));
    assert_eq!(app.range.abs_window, Some((0, span)));
}

#[test]
fn pan_later_into_now_resumes_the_live_rolling_window() {
    let mut app = App::new(0);
    let span = 100_000_000_000i64; // 100s
    let now = WALL;
    // An absolute window whose leading edge is within half a span of `now`, so a `]` (0.5) reaches
    // it: end = now - span/4 (room = span/4 < delta = span/2).
    app.range.abs_window = Some((now - span - span / 4, now - span / 4));
    assert!(app.pan_window(true, 1, 2, WALL), "pan reaches now");
    assert_eq!(
        app.range.abs_window, None,
        "catching up to now returns to the live rolling window, not a frozen absolute one"
    );
    // Already live: another `]` is a no-op (can't pan past now).
    assert!(!app.pan_window(true, 1, 2, WALL));
    assert_eq!(app.range.abs_window, None);
}

#[test]
fn zoom_window_scales_about_the_center_within_bounds() {
    let mut app = App::new(0);
    let span = 100_000_000_000i64; // 100s, center at 50s
    app.range.abs_window = Some((0, span));
    // Zoom out 2x: span doubles (200s) about the center (50s ± 100s) → (-50s, 150s).
    assert!(app.zoom_window(2, 1, WALL));
    assert_eq!(app.range.abs_window, Some((-span / 2, span + span / 2)));
    // Zoom in past the floor clamps to MIN_WINDOW_NS (1s) about the current center.
    let (start, end) = app.effective_window(WALL);
    let center = start + (end - start) / 2;
    assert!(app.zoom_window(1, 1_000_000_000, WALL));
    let (zs, ze) = app.range.abs_window.unwrap();
    assert_eq!(ze - zs, MIN_WINDOW_NS);
    assert_eq!(zs + (ze - zs) / 2, center);
}

// ── keys

/// Press a key in the app's current mode.
fn press(app: &mut App, code: KeyCode, modifiers: KeyModifiers) {
    let key = KeyEvent {
        code,
        ctrl: modifiers == KeyModifiers::CONTROL,
        alt: modifiers == KeyModifiers::ALT,
        shift: modifiers == KeyModifiers::SHIFT,
        press: true,
    };
    handle_key(app, key, &env(), &mut Vec::new());
}

/// An editing app whose vocabulary is loaded, with `query` in the box and the caret at its end
/// (where `begin_editing` parks it).
fn editing(query: &str) -> App {
    let mut app = app_with_discovered_dims();
    app.set_active_query(query.to_owned());
    app
}

#[test]
fn the_cursor_keys_and_their_emacs_aliases_move_the_query_caret() {
    let mut app = editing("rate(x)");
    assert_eq!(
        app.query_caret(),
        7,
        "editing opens with the caret at the end"
    );

    press(&mut app, KeyCode::Left, KeyModifiers::NONE);
    press(&mut app, KeyCode::Left, KeyModifiers::NONE);
    assert_eq!(app.query_caret(), 5);
    // Typing lands at the caret, not at the end of the buffer.
    press(&mut app, KeyCode::Char('y'), KeyModifiers::NONE);
    assert_eq!(app.active_query(), "rate(yx)");
    assert_eq!(app.query_caret(), 6);

    // Ctrl-B/Ctrl-F are the same movement, and never type their own letter.
    press(&mut app, KeyCode::Char('b'), KeyModifiers::CONTROL);
    assert_eq!((app.active_query(), app.query_caret()), ("rate(yx)", 5));
    press(&mut app, KeyCode::Char('f'), KeyModifiers::CONTROL);
    assert_eq!((app.active_query(), app.query_caret()), ("rate(yx)", 6));

    // Home/End (and Ctrl-A/Ctrl-E) jump to the ends.
    press(&mut app, KeyCode::Home, KeyModifiers::NONE);
    assert_eq!(app.query_caret(), 0);
    press(&mut app, KeyCode::End, KeyModifiers::NONE);
    assert_eq!(app.query_caret(), 8);
    press(&mut app, KeyCode::Char('a'), KeyModifiers::CONTROL);
    assert_eq!((app.active_query(), app.query_caret()), ("rate(yx)", 0));
    press(&mut app, KeyCode::Char('e'), KeyModifiers::CONTROL);
    assert_eq!((app.active_query(), app.query_caret()), ("rate(yx)", 8));

    // Both ends saturate rather than running off the buffer.
    press(&mut app, KeyCode::Right, KeyModifiers::NONE);
    assert_eq!(app.query_caret(), 8);
    press(&mut app, KeyCode::Home, KeyModifiers::NONE);
    press(&mut app, KeyCode::Left, KeyModifiers::NONE);
    assert_eq!(app.query_caret(), 0);
}

#[test]
fn backspace_and_delete_act_around_the_caret() {
    let mut app = editing("rate(x)");
    press(&mut app, KeyCode::Left, KeyModifiers::NONE); // between `x` and `)`
    press(&mut app, KeyCode::Backspace, KeyModifiers::NONE);
    assert_eq!((app.active_query(), app.query_caret()), ("rate()", 5));
    // Delete (and Ctrl-D) take the character *under* the caret.
    press(&mut app, KeyCode::Delete, KeyModifiers::NONE);
    assert_eq!((app.active_query(), app.query_caret()), ("rate(", 5));
    press(&mut app, KeyCode::Char('d'), KeyModifiers::CONTROL);
    assert_eq!(app.active_query(), "rate(", "delete at the end is a no-op");
    press(&mut app, KeyCode::Home, KeyModifiers::NONE);
    press(&mut app, KeyCode::Backspace, KeyModifiers::NONE);
    assert_eq!(
        app.active_query(),
        "rate(",
        "backspace at the start is a no-op"
    );
    press(&mut app, KeyCode::Char('d'), KeyModifiers::CONTROL);
    assert_eq!((app.active_query(), app.query_caret()), ("ate(", 0));
}

#[test]
fn ctrl_k_kills_from_the_caret_to_the_end_of_the_line() {
    let mut app = editing("rate(http_requests_total)");
    press(&mut app, KeyCode::Home, KeyModifiers::NONE);
    press(&mut app, KeyCode::Right, KeyModifiers::NONE);
    press(&mut app, KeyCode::Right, KeyModifiers::NONE);
    press(&mut app, KeyCode::Char('k'), KeyModifiers::CONTROL);
    assert_eq!((app.active_query(), app.query_caret()), ("ra", 2));
    // At the end there is nothing left to kill.
    press(&mut app, KeyCode::Char('k'), KeyModifiers::CONTROL);
    assert_eq!(app.active_query(), "ra");

    // A newline-joined query (what the catalog's multi-metric "visualize" writes) kills one line at
    // a time, and a caret *on* the break kills only the break, joining the two.
    let mut app = editing("up\nrate(x)\ndown");
    press(&mut app, KeyCode::Home, KeyModifiers::NONE);
    press(&mut app, KeyCode::Char('k'), KeyModifiers::CONTROL);
    assert_eq!(app.active_query(), "\nrate(x)\ndown");
    press(&mut app, KeyCode::Char('k'), KeyModifiers::CONTROL);
    assert_eq!(app.active_query(), "rate(x)\ndown");
    press(&mut app, KeyCode::End, KeyModifiers::NONE);
    press(&mut app, KeyCode::Char('k'), KeyModifiers::CONTROL);
    assert_eq!(
        app.active_query(),
        "rate(x)\ndown",
        "a kill at the very end changes nothing"
    );
}

#[test]
fn the_absolute_range_form_edits_both_fields_with_the_same_caret_keys() {
    let mut app = App::new(0);
    app.open_absolute_form(WALL);
    assert_eq!(app.range.abs_field, 0);
    assert_eq!(
        app.range.abs_caret(),
        app.range.abs_start.len(),
        "the form opens on the start field with the caret at its end"
    );

    // Fix the minutes in place, as a user would: back over `:00`, delete a digit, type another.
    app.range.abs_start = "2026-07-21 15:00:00".to_owned();
    app.range.abs_cursor = app.range.abs_start.len();
    for _ in 0..3 {
        press(&mut app, KeyCode::Left, KeyModifiers::NONE);
    }
    press(&mut app, KeyCode::Backspace, KeyModifiers::NONE);
    press(&mut app, KeyCode::Char('5'), KeyModifiers::NONE);
    assert_eq!(app.range.abs_start, "2026-07-21 15:05:00");
    assert_eq!(app.range.abs_caret(), 16);

    // The caret is shared between the two fields, so moving between them re-seats it at the end of
    // whichever now has focus — and coming back does not resume the old field's offset.
    press(&mut app, KeyCode::Down, KeyModifiers::NONE);
    assert_eq!((app.range.abs_field, app.range.abs_caret()), (1, app.range.abs_end.len()));
    press(&mut app, KeyCode::Up, KeyModifiers::NONE);
    assert_eq!((app.range.abs_field, app.range.abs_caret()), (0, app.range.abs_start.len()));
    press(&mut app, KeyCode::Tab, KeyModifiers::NONE);
    assert_eq!((app.range.abs_field, app.range.abs_caret()), (1, app.range.abs_end.len()));

    // `Ctrl-A` + `Ctrl-K` clears the focused field (and `Ctrl-A` never types an `a`).
    press(&mut app, KeyCode::Char('a'), KeyModifiers::CONTROL);
    press(&mut app, KeyCode::Char('k'), KeyModifiers::CONTROL);
    assert_eq!(app.range.abs_end, "");
    // Enter on an unparseable field keeps the form open with the error.
    press(&mut app, KeyCode::Enter, KeyModifiers::NONE);
    assert_eq!(app.mode, Mode::AbsoluteRange);
    assert!(app.range.abs_error.is_some());

    // Typing a valid end commits the window and closes the form.
    for character in "2026-07-21 16:00:00".chars() {
        press(&mut app, KeyCode::Char(character), KeyModifiers::NONE);
    }
    assert_eq!(app.range.abs_end, "2026-07-21 16:00:00");
    press(&mut app, KeyCode::Enter, KeyModifiers::NONE);
    assert_eq!(app.mode, Mode::Normal);
    assert!(app.range.abs_window.is_some());
    assert_eq!(
        app.range.abs_start, "2026-07-21 15:05:00",
        "the in-place edit is what was committed"
    );
}

/// The attribute range is opened *through the line that displays it* — focus it, press Enter —
/// rather than by a global key or from anywhere in the pane. The query range keeps `t`; nothing
/// else in the global map opens a range form, so the two cannot be confused for each other.
#[test]
fn the_attribute_range_is_opened_through_the_line_that_shows_it() {

    let mut app = App::new(0);
    assert_eq!(app.screen(), Screen::Overview);
    // The *table* stop has no Enter action — it would have to guess between the pane's two
    // things — so the form opens from the stop that displays the range.
    app.focus = Focus::AttrTable(0);
    press(&mut app, KeyCode::Enter, KeyModifiers::NONE);
    assert_eq!(app.mode, Mode::Normal, "the rows have no Enter action");
    app.focus = Focus::AttrRange;
    press(&mut app, KeyCode::Enter, KeyModifiers::NONE);
    assert_eq!(app.mode, Mode::AbsoluteRange);
    assert_eq!(app.range.abs_target, AbsTarget::Attributes);
    // The pane starts unbounded, and an empty form is how the form spells that.
    assert!(app.range.abs_start.is_empty() && app.range.abs_end.is_empty());
    press(&mut app, KeyCode::Esc, KeyModifiers::NONE);
    assert_eq!(app.mode, Mode::Normal);

    // `t` still opens the *query* range picker, and it is the only global range binding.
    press(&mut app, KeyCode::Char('t'), KeyModifiers::NONE);
    assert_eq!(app.mode, Mode::TimeRange);
    assert_eq!(app.range.abs_target, AbsTarget::Attributes, "not committed yet");
    press(&mut app, KeyCode::Esc, KeyModifiers::NONE);
    press(&mut app, KeyCode::Char('a'), KeyModifiers::NONE);
    assert_eq!(app.mode, Mode::Normal, "`a` is not a binding");

    // Off the Overview the stop is gone, so Enter on a stale focus does nothing.
    app.at.route = Route::Logs;
    app.focus = Focus::AttrRange;
    press(&mut app, KeyCode::Enter, KeyModifiers::NONE);
    assert_eq!(
        app.mode,
        Mode::Normal,
        "no attribute pane on the Logs screen, so no form"
    );
}

/// Promotion is offered only where it can work. A local session opened the database read-only, so
/// `p` reports why it cannot rather than attempting a write that the storage layer would refuse —
/// and the paging binding on the same key is untouched, because the two are guarded apart.
#[test]
fn promotion_is_refused_on_a_session_that_only_reads() {
    let press = |app: &mut App, code: KeyCode| press(app, code, KeyModifiers::NONE);

    // A local session opened the database read-only.
    assert!(!Backend::Local.can_promote());
    let mut app = App::new(0);
    app.focus = Focus::AttrTable(0);
    let mut pane = attribute_placeholder();
    // Shaped like a real pane: a section, its header, then the key. The section is load-bearing —
    // each one is a Tab stop, and the cursor belongs to the focused section.
    pane.table = Some(PaneTable {
        data: TableData::new(
            vec!["Key".to_owned(), "Scope".to_owned()],
            vec![
                vec!["ALL TABLES -- 1 segment".to_owned(), String::new()],
                vec!["Key".to_owned(), "Scope".to_owned()],
                vec!["service.name".to_owned(), "attributes".to_owned()],
            ],
        ),
        kinds: vec![
            AttrRow::Section,
            AttrRow::Header,
            AttrRow::Key("service.name".to_owned()),
        ],
    });
    app.snapshot.detail = Some(Arc::new(pane));
    app.snap_attr_cursor();
    assert_eq!(app.selected_attr_key().as_deref(), Some("service.name"));

    press(&mut app, KeyCode::Char('p'));
    let error = app.load.last_error.as_deref().expect("a reason, not a silence");
    assert!(error.contains("read-only"), "{error}");
    assert!(
        error.contains("--url"),
        "the message must name what would work: {error}"
    );
    assert!(
        app.attrs.promoted.is_empty(),
        "nothing was promoted locally, not even optimistically"
    );

    // Off the pane, `p` is the Logs paging key again — the guard is what keeps them apart.
    app.at.route = Route::Logs;
    app.focus = Focus::Primary;
    app.load.last_error = None;
    press(&mut app, KeyCode::Char('p'));
    assert!(app.load.last_error.is_none());
}

#[test]
fn caret_editing_steps_over_whole_multi_byte_characters() {
    // The caret is a byte offset, so anything but whole-character steps would panic on a slice.
    let mut app = editing("{svc=\"café\"}");
    press(&mut app, KeyCode::Left, KeyModifiers::NONE); // before `}`
    press(&mut app, KeyCode::Left, KeyModifiers::NONE); // before `"`
    press(&mut app, KeyCode::Backspace, KeyModifiers::NONE);
    assert_eq!(app.active_query(), "{svc=\"caf\"}");
    press(&mut app, KeyCode::Char('é'), KeyModifiers::NONE);
    press(&mut app, KeyCode::Char('s'), KeyModifiers::NONE);
    assert_eq!(app.active_query(), "{svc=\"cafés\"}");
    // And a caret that has stepped over the multi-byte character still splits the query cleanly.
    press(&mut app, KeyCode::Left, KeyModifiers::NONE);
    press(&mut app, KeyCode::Left, KeyModifiers::NONE);
    assert_eq!(app.query_before_caret(), "{svc=\"caf");
}

#[test]
fn a_modified_letter_never_types_itself_into_the_query() {
    // Ctrl-<letter> is a caret command; Alt-<letter> is unbound. Neither may reach the buffer, or
    // every Emacs binding would insert its own letter as a side effect.
    let mut app = editing("");
    for (code, modifiers) in [
        (KeyCode::Char('b'), KeyModifiers::CONTROL),
        (KeyCode::Char('f'), KeyModifiers::CONTROL),
        (KeyCode::Char('a'), KeyModifiers::CONTROL),
        (KeyCode::Char('e'), KeyModifiers::CONTROL),
        (KeyCode::Char('d'), KeyModifiers::CONTROL),
        (KeyCode::Char('k'), KeyModifiers::CONTROL),
        (KeyCode::Char('x'), KeyModifiers::CONTROL),
        (KeyCode::Char('b'), KeyModifiers::ALT),
    ] {
        press(&mut app, code, modifiers);
    }
    assert_eq!(app.active_query(), "");
    // A shifted letter is ordinary input, though.
    press(&mut app, KeyCode::Char('R'), KeyModifiers::SHIFT);
    assert_eq!(app.active_query(), "R");
}

#[test]
fn moving_the_caret_re_derives_the_completion_popup() {
    // The popup completes the token the caret sits on, so walking back into a token reopens it and
    // walking off one closes it.
    let mut app = editing("http_requests_total{ser");
    press(&mut app, KeyCode::Left, KeyModifiers::NONE);
    let completion = app.words.completion.as_ref().expect("label-name candidates");
    assert_eq!(completion.candidates[0].text, "service");
    // Accepting mid-query replaces only the token before the caret and keeps the tail.
    press(&mut app, KeyCode::Tab, KeyModifiers::NONE);
    assert_eq!(app.active_query(), "http_requests_total{servicer");
    assert_eq!(app.query_caret(), "http_requests_total{service".len());
}

#[test]
fn cursor_moves_within_bounds_and_falls_back_to_scroll() {
    let mut app = App::new(0);
    app.snapshot.lines = vec!["header".into(), "a".into(), "b".into(), "c".into()];
    app.snapshot.list_from = Some(1);
    app.at.selected = 1; // as `apply` would have placed it (first selectable row)

    move_selection(&mut app, 1);
    assert_eq!(app.at.selected, 2);
    move_selection(&mut app, 10); // saturates at the last row
    assert_eq!(app.at.selected, 3);
    move_selection(&mut app, -1);
    assert_eq!(app.at.selected, 2);
    move_selection(&mut app, -10); // saturates at the first row
    assert_eq!(app.at.selected, 1);

    // Without a list, movement scrolls instead of selecting.
    app.snapshot.list_from = None;
    app.frame.max_scroll = 5;
    app.at.scroll = 0;
    move_selection(&mut app, 3);
    assert_eq!(app.at.scroll, 3);
    move_selection(&mut app, 9); // clamped to max_scroll
    assert_eq!(app.at.scroll, 5);
}

#[test]
fn table_selection_bounds_index_the_rows() {
    let mut app = App::new(0);
    app.at.route = Route::Metrics;
    app.snapshot.table = Some(TableData::new(
        vec!["Metric".into(), "Kind".into()],
        vec![
            vec!["a".into(), "gauge".into()],
            vec!["b".into(), "sum".into()],
            vec!["c".into(), "sum".into()],
        ],
    ));
    // Table rows are indexed from 0 (not offset by a header line as lists are).
    assert_eq!(app.selectable_bounds(), Some((0, 2)));

    app.at.selected = 0;
    move_selection(&mut app, 2);
    assert_eq!(app.at.selected, 2);
    move_selection(&mut app, 5); // saturates at the last row
    assert_eq!(app.at.selected, 2);

    // An empty table has no selectable rows.
    app.snapshot.table = Some(TableData::new(vec!["Metric".into()], vec![]));
    assert_eq!(app.selectable_bounds(), None);
}

// ── what a refresh fetches and shows

#[test]
fn eval_window_honors_the_absolute_window() {
    let start = parse_datetime("2026-07-21 00:00:00").unwrap();
    let end = parse_datetime("2026-07-21 02:00:00").unwrap();
    let options = Options { window: Some((start, end)), ..Options::default() };
    let (got_start, got_end, range, _limits) = eval_window(&options, WALL);
    assert_eq!((got_start, got_end), (start, end));
    assert_eq!(range.start_ns, start);
    assert_eq!(range.end_ns, end);
    // 2h span -> ~120 points -> 60s step, and never below 1s.
    assert_eq!(range.step_ns, 60 * 1_000_000_000);
}

#[test]
fn a_rolling_window_ends_now_and_keeps_the_presets_step() {
    let options = Options { lookback: Duration::from_secs(900), step: Duration::from_secs(15), ..Options::default() };
    let (start, end, range, limits) = eval_window(&options, WALL);
    assert_eq!((start, end), (WALL - 900_000_000_000, WALL));
    assert_eq!((range.step_ns, range.lookback_ns), (15_000_000_000, LOOKBACK_NS));
    assert_eq!(limits.max_series, 100);
    assert_eq!(limits.max_samples, 100 * 62);
    assert_eq!(limits.max_traces, 100);
    let short = Options { window: Some((5, 5)), ..Options::default() };
    assert_eq!(eval_window(&short, WALL).2.step_ns, 1_000_000_000, "never below a second");
}

#[test]
fn the_screen_and_the_query_decide_what_is_asked_for() {
    assert!(matches!(plan(Screen::Overview, "x"), Plan::Overview));
    assert!(matches!(plan(Screen::Metrics, "  "), Plan::Catalog));
    assert!(matches!(plan(Screen::Metrics, "up\n down "), Plan::Series(q) if q == ["up", "down"]));
    assert!(matches!(plan(Screen::Traces, ""), Plan::Traces));
    assert!(matches!(plan(Screen::Logs, ""), Plan::Logs(true)) != matches!(plan(Screen::Logs, "x"), Plan::Logs(true)));
    assert_eq!(sub_queries("a\n\n  b  \n"), ["a", "b"]);
}

#[test]
fn discovered_dimensions_start_collapsed_and_unchecked() {
    let dims = dims_from(vec![("host".into(), vec!["a".into(), "b".into()])]);
    assert_eq!((dims[0].label.as_str(), dims[0].values.len()), ("host", 2));
    assert!(!dims[0].expanded && dims[0].selected.is_none());
}

#[test]
fn the_waterfall_pane_shows_the_trace_or_says_why_not() {
    let (pane, trace) = build_waterfall_detail("abc", TraceOutcome::Found(Arc::new(sample_trace())));
    assert_eq!(pane.title, "Waterfall: abc  (enter: detail)");
    assert!(pane.lines.is_empty() && pane.waterfall.is_some() && trace.is_some());
    let (pane, trace) = build_waterfall_detail("abc", TraceOutcome::Missing);
    assert_eq!(pane.lines, ["trace not found."]);
    assert!(trace.is_none());
    let (pane, _) = build_waterfall_detail("abc", TraceOutcome::Failed("gone".into()));
    assert_eq!(pane.lines, ["error: gone"]);
}

#[test]
fn a_search_that_finds_too_many_traces_says_what_to_do() {
    assert_eq!(
        trace_limit_message(true, "limit", 100),
        "too many traces even in the most recent sub-window (cap 100). Add filters (e.g. status=error, \
         duration>Nms) or pick a shorter time range."
    );
    assert_eq!(trace_limit_message(false, "parse error", 100), "parse error");
}

fn overview() -> Snapshot {
    overview_snapshot(&OverviewStats {
        buffer_bytes: 12,
        wal_bytes: 34,
        ingest_queue_depth: 5,
        tables: vec![TableStats { table: "logs".into(), segment_rows: 7, buffer_rows: 8, segment_count: 9 }],
    })
}

#[test]
fn the_overview_does_not_wait_for_the_measurement() {
    let snapshot = overview();
    assert_eq!(
        snapshot.lines,
        ["buffer: 12 bytes", "WAL: 34 bytes", "ingest queue: 5", "logs                     rows=7+8 segments=9"]
    );
    let pane = snapshot.detail.as_ref().expect("the attribute pane");
    assert_eq!(pane.style, DetailStyle::Pane, "a peer pane, not a preview");
    assert!(pane.lines.iter().any(|line| line.contains("measuring")), "{:?}", pane.lines);
}

#[test]
fn the_catalog_lists_one_metric_per_row() {
    let entry = |metric: &str, temporality: Option<&str>| CatalogEntry {
        metric: metric.into(),
        kind: "sum".into(),
        unit: "1".into(),
        temporality: temporality.map(str::to_owned),
    };
    let snapshot = catalog_snapshot(&vec![entry("cpu", None), entry("reqs", Some("delta"))], &Glyphs::new(true));
    let table = snapshot.table.expect("a table");
    assert_eq!(table.header, ["Metric", "Kind", "Unit", "Temporality"]);
    assert_eq!(table.rows[0], ["cpu", "sum", "1", "-"]);
    assert_eq!(table.rows[1][3], "delta");
    assert!(snapshot.title.starts_with("Metric catalog ") && snapshot.title.contains("2 metrics"));
}

fn series(query_index: usize, labels: &[(&str, &str)]) -> SeriesResult {
    SeriesResult {
        query_index,
        labels: labels.iter().map(|(k, v)| (k.to_string(), v.to_string())).collect(),
        samples: points(&[(1, 2.0), (2, 3.0)]),
        latest: "3".into(),
        min: "2".into(),
        max: "3".into(),
    }
}

#[test]
fn several_queries_name_the_metric_of_each_series() {
    let g = Glyphs::new(true);
    let one = metrics_snapshot("rate(up[5m])", &vec![series(0, &[("svc", "a")]), series(0, &[])], vec![1], &g);
    let table = one.table.expect("a table");
    assert_eq!(table.rows[0], ["svc=a", "3", "2", "3", "2"]);
    assert_eq!(table.rows[1][0], "{}");
    assert_eq!(one.series[0].labels, "svc=a");
    assert_eq!(one.series[0].points, points(&[(1, 2.0), (2, 3.0)]));
    assert_eq!(one.chart, [1]);

    let found = vec![series(1, &[("svc", "a")]), series(0, &[("__name__", "up")])];
    let two = metrics_snapshot("up\nrate(reqs[5m])", &found, vec![], &g);
    assert!(two.title.contains("2 metrics"), "{}", two.title);
    let table = two.table.expect("a table");
    assert_eq!(table.rows[0][0], "__name__=reqs,svc=a", "the rate dropped the name");
    assert_eq!(table.rows[1][0], "__name__=up", "a name is not given twice");
}

#[test]
fn a_narrowed_search_says_so_above_the_rows() {
    let g = Glyphs::new(true);
    let found = |from| TraceSearch {
        effective_start_ns: from,
        matches: vec![TraceMatch {
            trace_id: "abcd".into(),
            start_time_ns: 0,
            selected_span_ids: vec!["1".into(), "2".into()],
        }],
    };
    let end = 120_000_000_000;
    let whole = traces_snapshot("{}", 0, end, 100, &found(0), &g);
    assert_eq!(whole.lines, ["1 matching traces", "abcd  1970-01-01 00:00:00.000  selected=1,2"]);
    assert_eq!(whole.list_from, Some(1));
    assert_eq!(whole.title, "TraceQL: {}");

    let narrowed = traces_snapshot("{}", 0, end, 100, &found(60_000_000_000), &g);
    assert_eq!(narrowed.title, "TraceQL (narrowed): {}");
    assert!(narrowed.lines[0].contains("more than 100 traces") && narrowed.lines[0].contains("most recent 1m"));
    assert_eq!(narrowed.list_from, Some(4));
    assert!(narrowed.lines[4].starts_with("abcd"));
}

#[test]
fn a_log_row_shows_the_start_of_its_trace_and_its_body_on_one_line() {
    let entry = LogEntry {
        time_ns: 0,
        severity_text: None,
        severity_number: 9,
        service: Some("api".into()),
        body: "two\nlines".into(),
        trace_id: Some("0123456789abcdef".into()),
        span_id: None,
        attributes: vec![("n".into(), AnyValue::Int(4))],
        resource: vec![],
        scope: vec![],
    };
    let page = LogPage {
        entries: vec![entry],
        rows_scanned: 3,
        bytes_scanned: 50,
        used_index: true,
        next: Some(PageCursor { time_ns: 1, skip: 2 }),
    };
    let g = Glyphs::new(true);
    let snapshot = logs_snapshot("{a=\"b\"}", false, &None, true, &page, vec![5], &g);
    assert_eq!(snapshot.title, "Log search: {a=\"b\"} [older]");
    assert_eq!(
        snapshot.lines,
        ["viewer rows=1 scanned=3 bytes=50 index=true", "1970-01-01 00:00:00.000 01234567 api      two lines"]
    );
    assert_eq!(snapshot.next_cursor, Some(PageCursor { time_ns: 1, skip: 2 }));
    let record = &snapshot.log_records[0];
    assert_eq!(record.severity, "INFO (9)");
    assert_eq!(record.body, "two\nlines", "the record keeps the body whole");
    assert_eq!(record.attributes, [("n".to_owned(), "4".to_owned())]);

    let about = Some(LogCorrelation { trace_id: "0123456789".into(), span_id: Some("abcdefghij".into()) });
    let title = logs_snapshot("", false, &about, false, &page, vec![], &g).title;
    assert!(title.starts_with("Logs for trace 01234567 span abcdefgh "), "{title}");
    let ranged = logs_snapshot("rate({}[5m])", true, &None, false, &page, vec![], &g).title;
    assert_eq!(ranged, "Log search + synthesized metric: rate({}[5m])");
}

// ── the attribute pane

fn key(name: &str, scope: AttrScope, cost: u64) -> KeyReport {
    KeyReport {
        name: name.into(),
        scope,
        scope_column: match scope {
            AttrScope::Attributes => "attributes".into(),
            AttrScope::Resource => "resource".into(),
            AttrScope::Scope => "scope".into(),
        },
        cost,
        promote: "yes".into(),
        index: None,
        coverage: "100%".into(),
        distinct: "2".into(),
        sigma: Some("0.5".into()),
        bytes_per_row: "4".into(),
        rows_present: "3".into(),
    }
}

fn unit(label: &str, segments: u64, keys: Vec<KeyReport>) -> UnitReport {
    UnitReport { label: label.into(), segments, rows: "3".into(), keys }
}

/// Logs and gauges with segments, summaries without, and all of them together.
fn report(range: Option<(i64, i64)>) -> Report {
    let logs = || {
        vec![
            key("http.method", AttrScope::Attributes, 10),
            key("resource:service.name", AttrScope::Resource, 20),
            key("http.route", AttrScope::Attributes, 10),
        ]
    };
    Report {
        global: unit("all", 2, logs()),
        tables: vec![
            unit("logs", 1, logs()),
            unit("metrics_gauge", 1, vec![key("resource:service.name", AttrScope::Resource, 20)]),
            unit("metrics_summary", 0, vec![]),
        ],
        range,
        pending_wal_frames: 0,
        segments_skipped: vec![],
        sampled: false,
    }
}

fn sections(table: &PaneTable) -> Vec<String> {
    (0..table.kinds.len()).filter(|i| table.kinds[*i] == AttrRow::Section).map(|i| table.data.rows[i][0].clone()).collect()
}

#[test]
fn the_measurement_fills_the_pane_whichever_arrives_first() {
    let measured = Arc::new(attribute_pane(&report(Some((0, 1_000_000_000))), &vec![]));
    let pane_of = |app: &App| Arc::clone(app.snapshot.detail.as_ref().expect("the attribute pane"));
    let pane_lines = |app: &App| pane_of(app).lines.clone();
    let pane_keys = |app: &App| -> Vec<String> {
        let pane = pane_of(app);
        match &pane.table {
            Some(table) => (0..table.data.rows.len())
                .filter(|i| table.key_at(*i).is_some())
                .map(|i| table.data.rows[i][0].clone())
                .collect(),
            None => Vec::new(),
        }
    };
    let landed = |app: &App| QueryResult {
        generation: app.load.generation,
        screen: Screen::Overview,
        result: Ok(overview()),
    };

    // Snapshot first, then the measurement.
    let mut app = App::new(0);
    let result = landed(&app);
    app.apply(result, NOW);
    app.take_attr_stats(app.range.attr_window, Arc::clone(&measured), NOW);
    let composed = pane_lines(&app);
    let keys = pane_keys(&app);
    assert!(!composed.iter().any(|line| line.contains("measuring")), "{composed:?}");
    assert!(keys.iter().any(|key| key == "resource:service.name"), "{keys:?}");
    assert!(app.snapshot.lines.iter().any(|line| line.starts_with("logs")), "the gauges pane is untouched");
    // A second arrival replaces the pane.
    app.take_attr_stats(app.range.attr_window, Arc::clone(&measured), NOW);
    assert_eq!(pane_lines(&app), composed);
    assert_eq!(pane_keys(&app), keys);

    // Measurement first, then the snapshot.
    let mut app = App::new(0);
    app.take_attr_stats(app.range.attr_window, Arc::clone(&measured), NOW);
    let result = landed(&app);
    app.apply(result, NOW);
    assert_eq!(pane_lines(&app), composed, "same result, either order");
    assert_eq!(pane_keys(&app), keys);

    // A measurement over another range is not shown under the current one.
    let mut app = App::new(0);
    let result = landed(&app);
    app.apply(result, NOW);
    app.take_attr_stats(Some((1_000, 2_000)), measured, NOW);
    assert!(pane_lines(&app).iter().any(|line| line.contains("measuring")), "{:?}", pane_lines(&app));
}

#[test]
fn the_table_breaks_down_per_scan_unit() {
    let table = attribute_pane(&report(None), &vec![]).table.expect("a table");
    let titles = sections(&table);
    assert_eq!(
        titles,
        [
            "ALL TABLES -- 2 segments, 3 rows, 3 keys",
            "logs - 1 segment, 3 rows, 3 keys",
            "metrics_gauge - 1 segment, 3 rows, 1 keys"
        ],
        "a table with no segments is left out"
    );
    for (index, kind) in table.kinds.iter().enumerate() {
        if *kind == AttrRow::Section {
            assert_eq!(table.kinds.get(index + 1), Some(&AttrRow::Header));
            assert_eq!(table.data.rows[index + 1], table.data.header);
        }
    }
    let service_rows: Vec<&Vec<String>> = (0..table.data.rows.len())
        .filter(|i| table.key_at(*i) == Some("resource:service.name"))
        .map(|i| &table.data.rows[i])
        .collect();
    assert!(service_rows.len() >= 2);
    assert!(service_rows.iter().all(|row| row[3] == "-"), "a resource-scoped key is never promotable");
    let methods: Vec<&str> = (0..table.data.rows.len())
        .filter(|i| table.key_at(*i) == Some("http.method"))
        .map(|i| table.data.rows[i][3].as_str())
        .collect();
    assert_eq!(methods, ["yes", "-"], "only the roll-up carries the verdict");
}

#[test]
fn the_sections_are_in_the_same_order_as_the_gauges_above_them() {
    let measured = report(None);
    let gauges: Vec<String> = measured.tables.iter().map(|t| t.label.clone()).collect();
    let table = attribute_table(&measured, &vec![]);
    let names: Vec<String> =
        sections(&table).iter().map(|s| s.split_whitespace().next().unwrap_or_default().to_owned()).collect();
    assert_eq!(names.first().map(String::as_str), Some("ALL"));
    let expected: Vec<&String> = gauges.iter().filter(|name| names.contains(name)).collect();
    let actual: Vec<&String> = names.iter().skip(1).collect();
    assert_eq!(actual, expected);
}

#[test]
fn keys_are_ranked_by_cost_and_then_by_name() {
    let unit = unit(
        "logs",
        1,
        vec![
            key("b", AttrScope::Attributes, 1),
            key("c", AttrScope::Attributes, 9),
            key("a", AttrScope::Attributes, 1),
        ],
    );
    let rows = unit_rows(&unit, true, &vec!["a".to_owned()]);
    let names: Vec<&str> = rows.iter().map(|row| row[0].as_str()).collect();
    assert_eq!(names, ["c", "a", "b"]);
    assert_eq!((rows[1][2].as_str(), rows[2][2].as_str()), ("yes", ""));
    assert_eq!(rows[0][4], "-", "no index verdict");
    assert_eq!(banner_row(3, "x".to_owned()), ["x", "", ""]);
}

#[test]
fn the_cursor_steps_between_keys_and_never_onto_structure() {
    let mut app = App::new(0);
    app.focus = Focus::AttrTable(0);
    let result = QueryResult { generation: 0, screen: Screen::Overview, result: Ok(overview()) };
    app.apply(result, NOW);
    app.take_attr_stats(app.range.attr_window, Arc::new(attribute_pane(&report(None), &vec![])), NOW);
    assert!(app.selected_attr_key().is_some(), "snapped off the title");

    let sections = app.attr_sections();
    assert!(sections.len() > 2, "the roll-up plus logs plus metrics");
    assert_eq!(
        app.focus_ring().iter().filter(|focus| matches!(focus, Focus::AttrTable(_))).count(),
        sections.len()
    );
    for section in 0..sections.len() {
        app.focus = Focus::AttrTable(section);
        app.snap_attr_cursor();
        assert!(!app.attr_key_indices(section).is_empty(), "section has keys");
        assert!(app.selected_attr_key().is_some(), "Tab put the cursor inside section {section}");
    }

    let all_keys: Vec<usize> = (0..sections.len()).flat_map(|section| app.attr_key_indices(section)).collect();
    app.focus = Focus::AttrTable(0);
    app.at.selected = 0;
    app.snap_attr_cursor();
    assert_eq!(app.at.selected, all_keys[0]);
    let mut visited = vec![app.at.selected];
    while app.move_attr_cursor(1) {
        assert!(app.selected_attr_key().is_some(), "row {} is structure", app.at.selected);
        visited.push(app.at.selected);
    }
    assert_eq!(visited, all_keys, "the arrows walk the whole pane, in order");
    assert_eq!(app.focus, Focus::AttrTable(sections.len() - 1), "and the focus followed the cursor");

    let mut back = vec![app.at.selected];
    while app.move_attr_cursor(-1) {
        assert!(app.selected_attr_key().is_some());
        back.push(app.at.selected);
    }
    back.reverse();
    assert_eq!(back, all_keys);
    assert_eq!(app.focus, Focus::AttrTable(0));

    // An overshoot lands on the section's own last key first.
    let (wide, keys) = (0..sections.len())
        .map(|section| (section, app.attr_key_indices(section)))
        .find(|(section, keys)| keys.len() > 1 && *section + 1 < sections.len())
        .expect("a multi-key section with another after it");
    app.focus = Focus::AttrTable(wide);
    app.at.selected = keys[0];
    assert!(app.move_attr_cursor(500));
    assert_eq!(app.at.selected, *keys.last().expect("keys"));
    assert_eq!(app.focus, Focus::AttrTable(wide), "an overshoot stops at the section's own end");
    assert!(app.move_attr_cursor(500), "and the next press crosses");
    assert_eq!(app.focus, Focus::AttrTable(wide + 1));
    assert_eq!(app.attr_section_label(1).as_deref(), Some("logs"));
}

#[test]
fn the_measurement_is_reused_across_auto_refresh_ticks() {
    let mut app = App::new(0);
    assert!(app.needs_attr_measure(NOW), "nothing measured yet");
    app.take_attr_stats(app.range.attr_window, Arc::new(attribute_placeholder()), NOW);
    assert!(!app.needs_attr_measure(NOW), "an auto-refresh tick over the same range reuses the block");

    // Moving the *pane's* range invalidates it: the numbers would describe a different window.
    app.range.attr_window = Some((1_000, 2_000));
    assert!(app.needs_attr_measure(NOW));
    app.range.attr_window = None;
    assert!(!app.needs_attr_measure(NOW), "and moving back reuses it again");
    // Moving the *query* range does not: the two windows are unrelated.
    app.range.abs_window = Some((1_000, 2_000));
    assert!(!app.needs_attr_measure(NOW));
    // A measurement goes stale.
    assert!(!app.needs_attr_measure(NOW + ATTR_MEASURE_INTERVAL - 1));
    assert!(app.needs_attr_measure(NOW + ATTR_MEASURE_INTERVAL));

    // `r` clears the cache outright — that is how a person asks for the numbers now.
    app.attrs.attr_stats = None;
    assert!(app.needs_attr_measure(NOW));
}

#[test]
fn the_pane_carries_a_table_of_keys_with_both_verdicts() {
    let pane = attribute_pane(&report(Some((0, 1_000_000_000))), &vec![]);
    let table = pane.table.as_ref().expect("a column-aligned table");
    assert_eq!(
        table.data.header,
        ["Key", "Scope", "on", "promote", "index@", "Cov", "Distinct", "sigma p50", "est B/row", "Rows"]
    );
    let row_for = |table: &PaneTable, key: &str| -> Vec<String> {
        let index = (0..table.data.rows.len()).find(|i| table.key_at(*i) == Some(key)).expect("measured");
        table.data.rows[index].clone()
    };
    let service = row_for(table, "resource:service.name");
    assert_eq!(service[1], "resource");
    assert_eq!(service[6], "2", "cart and api");
    assert_eq!(service[3], "-");
    assert_eq!(service[2], "", "nothing promoted");
    let promoted = attribute_pane(&report(None), &vec!["resource:service.name".to_owned()]);
    assert_eq!(row_for(promoted.table.as_ref().expect("a table"), "resource:service.name")[2], "yes");
    assert_eq!(
        pane.lines.first().map(String::as_str),
        Some("range: 1970-01-01 00:00:00 - 1970-01-01 00:00:01"),
        "the pane leads with the window it measured"
    );
    assert_eq!(promoted.lines.first().map(String::as_str), Some("range: all sealed segments"));
    assert_eq!(pane.title, "Attributes: 3 keys over 2 sealed segments, 3 rows");
}

#[test]
fn unsealed_rows_are_reported_rather_than_shown_as_nothing() {
    let measured = Report {
        global: unit("all", 0, vec![]),
        tables: vec![],
        range: Some((0, 1_000_000_000)),
        pending_wal_frames: 1,
        segments_skipped: vec!["seg-1: torn".into()],
        sampled: true,
    };
    let pane = attribute_pane(&measured, &vec![]);
    assert!(pane.lines.iter().any(|line| line.contains("NOT MEASURED") && line.contains("WAL")), "{:?}", pane.lines);
    assert!(pane.lines.iter().any(|line| line.contains("No sealed segments")), "{:?}", pane.lines);
    assert!(pane.lines.iter().any(|line| line == "SEGMENT SKIPPED: seg-1: torn"));
    assert_eq!(attribute_notes(&measured), pane.lines);
    assert!(pane.title.ends_with(" (key map sampled)"));
    let table = pane.table.as_ref().expect("a table");
    assert!(!table.kinds.iter().any(|kind| matches!(kind, AttrRow::Key(_))), "{:?}", table.data.rows);
}

#[test]
fn a_failed_measurement_keeps_to_its_pane() {
    let pane = attribute_failure("an in-memory database has no segments");
    assert_eq!(pane.lines, ["not measured - an in-memory database has no segments"]);
    assert_eq!((pane.title.as_str(), pane.style), ("Attributes", DetailStyle::Pane));
}

// ── requests and the event loop

#[test]
fn refreshes_coalesce_and_a_person_wins() {
    let mut app = App::new(0);
    let mut out = Vec::new();
    request_refresh(&mut app, Refresh::Background, &env(), &mut out);
    assert!(app.load.loading && !app.load.input_locked);
    let asked = out.len();
    request_refresh(&mut app, Refresh::Interactive, &env(), &mut out);
    request_refresh(&mut app, Refresh::Background, &env(), &mut out);
    assert_eq!(out.len(), asked, "one query is in flight at a time");
    assert_eq!(app.load.pending_refresh, Some(Refresh::Interactive));
}

#[test]
fn a_waterfall_is_asked_for_once() {
    let mut app = traces_app_with_trace();
    app.trace.detail_trace_id = None;
    let mut out = Vec::new();
    request_waterfall(&mut app, true, &mut out);
    assert!(matches!(&out[0], Request::Waterfall { trace_id, ascii: true, .. } if *trace_id == "aa".repeat(16)));
    assert!(app.trace.trace_detail.is_none(), "the trace held was another's");
    request_waterfall(&mut app, true, &mut out);
    assert_eq!(out.len(), 1);
}

#[test]
fn exemplars_without_a_trace_or_outside_the_window_leave_no_mark() {
    let at = |time_ns, trace: Option<&str>| Exemplar { time_ns, trace_id: trace.map(str::to_owned) };
    let marks = exemplar_markers(&vec![at(0, Some("a")), at(5, None), at(6, Some("b")), at(11, Some("c"))], 1, 10);
    assert_eq!(marks.len(), 1);
    assert_eq!((marks[0].time_ns, marks[0].trace_id.as_str()), (6, "b"));
}

#[test]
fn the_vocabulary_is_ordered_and_holds_nothing_twice() {
    let names: Vec<String> = ["up", "cpu", "up", "mem"].iter().map(|s| s.to_string()).collect();
    assert_eq!(vocabulary_names(&names), ["cpu", "mem", "up"]);
}

fn refreshes(out: &[Request]) -> usize {
    out.iter().filter(|r| matches!(r, Request::Refresh(_))).count()
}

#[test]
fn a_session_starts_with_a_query_and_holds_the_keyboard() {
    let mut out = Vec::new();
    let options = Options { window: Some((1, 2)), ..Options::default() };
    let env = Env { options, now: NOW, wall_ns: WALL };
    let mut app = start(true, &env, &mut out);
    assert_eq!(refreshes(&out), 1);
    assert!(out.iter().any(|r| matches!(r, Request::AttributeStats(None))), "the Overview measures");
    assert!(app.attrs.can_promote && app.load.input_locked);
    assert_eq!(app.range.abs_window, Some((1, 2)));

    // Every key but `q` is refused while the keyboard is held.
    let asked = out.len();
    assert_eq!(press_key(&mut app, KeyEvent::plain(KeyCode::Char('2')), &env, &mut out), Control::Continue);
    assert!(app.load.input_refused && app.screen() == Screen::Overview);
    assert_eq!(out.len(), asked);
    assert_eq!(press_key(&mut app, KeyEvent::plain(KeyCode::Char('q')), &env, &mut out), Control::Quit);

    // The answer releases it, and asks for what waited.
    app.load.pending_refresh = Some(Refresh::Background);
    let result = QueryResult { generation: app.load.generation, screen: Screen::Overview, result: Ok(overview()) };
    apply_update(&mut app, Update::Query(result), &env, &mut out);
    assert!(!app.load.input_locked && app.load.loading);
    assert_eq!(refreshes(&out), 2);
    assert_eq!(app.load.pending_refresh, None);
}

#[test]
fn a_failed_query_leaves_its_error() {
    let mut app = App::new(0);
    let result = QueryResult { generation: 0, screen: Screen::Overview, result: Err("no".to_owned()) };
    apply_update(&mut app, Update::Query(result), &env(), &mut Vec::new());
    assert_eq!(app.load.last_error.as_deref(), Some("no"));
}

#[test]
fn stale_updates_change_nothing_and_awaited_ones_open_the_trace() {
    let mut app = traces_app_with_trace();
    app.trace.trace_detail = None;
    app.trace.pending_trace_open = true;
    let pane = || Arc::new(attribute_placeholder());
    let trace = || Some(Arc::new(sample_trace()));
    let late = Update::Waterfall { generation: 7, trace_id: "aa".repeat(16), detail: pane(), trace: trace() };
    apply_update(&mut app, late, &env(), &mut Vec::new());
    assert!(matches!(app.at.route, Route::Traces) && app.trace.trace_detail.is_none());
    let awaited = Update::Waterfall { generation: 0, trace_id: "aa".repeat(16), detail: pane(), trace: trace() };
    apply_update(&mut app, awaited, &env(), &mut Vec::new());
    assert!(app.route_trace_detail().is_some(), "the wish to open it is fulfilled");
    assert!(!app.trace.pending_trace_open);

    // Exemplars of a series that is no longer shown are dropped.
    let markers = vec![ExemplarMarker { time_ns: 1, trace_id: "x".into() }];
    apply_update(
        &mut app,
        Update::Exemplars { labels: "a".into(), query: "b".into(), markers },
        &env(),
        &mut Vec::new(),
    );
    assert!(app.metric_exemplars.is_empty());
}

#[test]
fn landed_vocabulary_fills_the_popup() {
    let mut app = logs_app_with_labels();
    app.words.log_label_values = Vec::new();
    app.words.log_label_values_loading = vec!["host".to_owned()];
    app.set_active_query("{host=\"".to_owned());
    let update = Update::LogLabelValues { label: "host".into(), values: vec!["node-a".into()] };
    apply_update(&mut app, update, &env(), &mut Vec::new());
    assert!(app.words.log_label_values_loading.is_empty());
    let popup = app.words.completion.as_ref().expect("values");
    assert_eq!(popup.candidates[0].text, "node-a");
}

#[test]
fn a_changed_promotion_outdates_the_measurement() {
    let mut app = App::new(0);
    app.take_attr_stats(None, Arc::new(attribute_placeholder()), NOW);
    apply_update(&mut app, Update::Promoted(Ok(vec!["k".into()])), &env(), &mut Vec::new());
    assert_eq!(app.attrs.promoted, ["k"]);
    assert!(app.attrs.attr_stats.is_none());
    app.take_attr_stats(None, Arc::new(attribute_placeholder()), NOW);
    apply_update(&mut app, Update::Promoted(Ok(vec!["k".into()])), &env(), &mut Vec::new());
    assert!(app.attrs.attr_stats.is_some(), "the same keys leave it be");
    apply_update(&mut app, Update::Promoted(Err("denied".into())), &env(), &mut Vec::new());
    assert_eq!(app.load.last_error.as_deref(), Some("denied"));
}

#[test]
fn promoting_a_key_twice_leaves_the_set_as_it_was() {
    let mut app = App::new(0);
    app.attrs.can_promote = true;
    app.snapshot.detail = Some(Arc::new(attribute_pane(&report(None), &vec![])));
    app.focus = Focus::AttrTable(0);
    app.snap_attr_cursor();
    let name = app.selected_attr_key().expect("a key");
    let mut out = Vec::new();
    handle_key(&mut app, KeyEvent::plain(KeyCode::Char('p')), &env(), &mut out);
    assert!(matches!(&out[0], Request::Promotion(keys) if *keys == [name.clone()]));
    apply_update(&mut app, Update::Promoted(Ok(vec![name])), &env(), &mut Vec::new());
    handle_key(&mut app, KeyEvent::plain(KeyCode::Char('p')), &env(), &mut out);
    assert!(matches!(&out[1], Request::Promotion(keys) if keys.is_empty()));
}

#[test]
fn the_timer_refreshes_only_an_idle_session_that_asked_for_it() {
    let mut app = App::new(0);
    let mut out = Vec::new();
    tick(&mut app, &env(), &mut out);
    assert!(out.is_empty(), "off by default");
    assert_eq!(wait_ns(&app, false, &env()), CLOCK_TICK);
    app.load.auto_refresh = true;
    app.mode = Mode::Editing;
    tick(&mut app, &env(), &mut out);
    assert!(out.is_empty(), "not while a person types");
    app.mode = Mode::Normal;
    assert_eq!(wait_ns(&app, false, &env()), 0, "it is overdue");
    tick(&mut app, &env(), &mut out);
    assert_eq!(refreshes(&out), 1);
    assert!(app.load.loading && !app.load.input_locked);
}

#[test]
fn the_mascot_hears_of_moves_idleness_and_refreshes() {
    let mut app = App::new(0);
    assert!(mascot_events(&mut app, &env()).is_empty(), "hidden");
    app.mascot.show_mascot = true;
    app.mascot.refresh_pending = true;
    let news = mascot_events(&mut app, &env());
    assert_eq!(
        news,
        [
            MascotEvent::Navigated { on_metric_chart: false },
            MascotEvent::Idle,
            MascotEvent::Refreshed { auto: false }
        ]
    );
    assert!(mascot_events(&mut app, &env()).is_empty(), "each is told once");
}

#[test]
fn a_screen_switch_is_undone_by_back() {
    let mut app = App::new(0);
    let mut out = Vec::new();
    handle_key(&mut app, KeyEvent::plain(KeyCode::Char('4')), &env(), &mut out);
    assert_eq!(app.screen(), Screen::Logs);
    assert_eq!(refreshes(&out), 1);
    assert!(app.go_back());
    assert_eq!(app.screen(), Screen::Overview);
}

#[test]
fn log_pages_undo_each_other() {
    let mut app = App::new(0);
    app.at.route = Route::Logs;
    app.paging.log_next_cursor = Some(PageCursor { time_ns: 9, skip: 1 });
    assert!(app.logs_page_older());
    assert_eq!(app.paging.log_cursor_stack, [PageCursor { time_ns: 9, skip: 1 }]);
    assert!(app.paging.log_paging);
    assert!(app.logs_page_newer());
    assert!(app.paging.log_cursor_stack.is_empty());
}

#[test]
fn panning_there_and_back_returns_to_the_rolling_window() {
    let mut app = App::new(0);
    assert!(app.pan_window(false, 1, 2, WALL));
    assert!(app.range.abs_window.is_some());
    assert!(app.pan_window(true, 1, 2, WALL));
    assert_eq!(app.range.abs_window, None);
}

#[test]
fn a_section_that_is_not_on_view_has_no_focus() {
    let mut app = App::new(0);
    let result = QueryResult { generation: 0, screen: Screen::Overview, result: Ok(overview()) };
    app.apply(result, NOW);
    app.take_attr_stats(app.range.attr_window, Arc::new(attribute_pane(&report(None), &vec![])), NOW);
    app.focus = Focus::AttrTable(0);
    assert_eq!(app.effective_focus(), Focus::AttrTable(0));
    // The pane is still in the snapshot, but not on the screen.
    app.at.route = Route::Logs;
    assert!(!app.attr_sections().is_empty());
    assert_eq!(app.effective_focus(), Focus::Primary);
    assert!(app.focus_ring().contains(&app.effective_focus()));
}
