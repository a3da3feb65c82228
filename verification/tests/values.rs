//! Formatting, parsing and the query-language helpers.

use std::sync::Arc;

use imbh_tui::backend::Backend;
use imbh_tui::chart::{ascii_chart, chart_graph_area, dot_cell, ChartGeometry};
use imbh_tui::cli::{self, Mode, Source};
use imbh_tui::completion::{
    completion_candidates, completion_context, dims_for, Candidate, CandidateKind, CompletionContext,
};
use imbh_tui::detail_text::{log_detail_lines, span_detail_lines, span_summary_lines};
use imbh_tui::format::{
    attrs_to_pairs, fit_field, render_value, severity_label, wrapped_rows, AnyValue, SeverityNumber,
};
use imbh_tui::geometry::Rect;
use imbh_tui::input::{KeyCode, KeyEvent};
use imbh_tui::mascot::{
    activity_after, densify, great_displacement_path, mascot_art, mascot_frame, mascot_phase,
    resting_place, step_ns, stroll_band, Activity, Chance, ChartRideIgniter, MascotEvent,
    MASCOT_FRAME_NS, MAX_DT_NS,
};
use imbh_tui::model::{DimNode, LogRecord, MetricDetail, MetricNode, Options, Route, Screen, SpanRecord, TraceDetail};
use imbh_tui::promql::{
    build_metric_query, matcher_braces, metric_ident_from_promql, metric_name_from_detail,
    query_metric_name,
};
use imbh_tui::style::Color;
use imbh_tui::syntax::{current_token, functions_for, highlight_caret, highlight_query, highlight_spans, keywords_for};
use imbh_tui::terminal::claim_panic_hook_install;
use imbh_tui::text;
use imbh_tui::textfield::{caret_in, handle_edit_key, TextField};
use imbh_tui::time::{
    civil_from_days, clock_hms_ns, days_from_civil, format_datetime_ns, format_duration_ns,
    format_timestamp_ns, humanize_secs, parse_datetime, Duration,
};
use imbh_tui::ui::glyphs::Glyphs;
use imbh_tui::ui::metrics::{column_widths, pad_cell};
use imbh_tui::waterfall::{mark_broken, pinned_rows, waterfall_row, STICKY_DEPTH};
use unicode_width::{UnicodeWidthChar, UnicodeWidthStr};

fn strings(words: &[&str]) -> Vec<String> {
    words.iter().map(|w| w.to_string()).collect()
}

fn pairs(items: &[(&str, &str)]) -> Vec<(String, String)> {
    items.iter().map(|(a, b)| (a.to_string(), b.to_string())).collect()
}

fn span(id: u8, parent: Option<u8>, name: &str, offset_ns: i64, duration_ns: u64) -> SpanRecord {
    SpanRecord {
        name: name.to_owned(),
        service: None,
        kind: "internal".to_owned(),
        span_id: format!("{id:02x}").repeat(8),
        parent_span_id: parent.map(|p| format!("{p:02x}").repeat(8)),
        status_code: "OK".to_owned(),
        status_message: None,
        malformed: false,
        start_time_ns: offset_ns,
        offset_ns,
        duration_ns,
        attributes: Vec::new(),
        resource: Vec::new(),
        scope: Vec::new(),
        events: None,
        links: None,
    }
}

/// A root, a nested child, and an orphan that failed.
fn sample_trace() -> TraceDetail {
    let mut child = span(2, Some(1), "db.query", 200_000, 400_000);
    child.service = Some("api".to_owned());
    child.attributes = pairs(&[("db.system", "postgres")]);
    let mut orphan = span(3, Some(9), "orphan", 600_000, 100_000);
    orphan.status_code = "ERROR".to_owned();
    orphan.status_message = Some("boom".to_owned());
    orphan.malformed = true;
    orphan.events = Some(r#"[{"name":"exception"}]"#.to_owned());
    TraceDetail {
        trace_id: "aa".repeat(16),
        root_service: Some("api".to_owned()),
        root_name: Some("GET /users".to_owned()),
        start_time_ns: 0,
        duration_ns: 1_000_000,
        spans: vec![
            Arc::new(span(1, None, "root", 0, 1_000_000)),
            Arc::new(child),
            Arc::new(orphan),
        ],
    }
}

fn sample_log_record(trace: Option<&str>) -> LogRecord {
    LogRecord {
        time_ns: 1_609_459_200_000_000_000,
        severity: "INFO (9)".into(),
        service: Some("api".into()),
        body: "hello\nworld".into(),
        trace_id: trace.map(str::to_owned),
        span_id: Some("aabbccdd11223344".into()),
        attributes: vec![("http.method".into(), "GET".into())],
        resource: vec![("service.name".into(), "api".into())],
        scope: vec![],
    }
}

// ── time ────────────────────────────────────────────────────────────────────────────────────────

#[test]
fn timestamps_format_as_utc() {
    assert_eq!(format_timestamp_ns(0), "1970-01-01 00:00:00.000");
    assert_eq!(format_timestamp_ns(1_609_459_200_123_000_000), "2021-01-01 00:00:00.123");
    assert_eq!(format_timestamp_ns(-1), "1969-12-31 23:59:59.999");
}

#[test]
fn header_clock_drops_the_sub_second_field() {
    assert_eq!(format_datetime_ns(0), "1970-01-01 00:00:00");
    assert_eq!(format_datetime_ns(1_609_459_200_123_000_000), "2021-01-01 00:00:00");
}

#[test]
fn durations_scale_their_unit() {
    assert_eq!(format_duration_ns(900, false), "900ns");
    assert_eq!(format_duration_ns(1_500, false), "1.500µs");
    assert_eq!(format_duration_ns(1_500, true), "1.500us");
    assert_eq!(format_duration_ns(2_500_000, false), "2.500ms");
    assert_eq!(format_duration_ns(3_000_000_000, false), "3.000s");
}

#[test]
fn durations_round_as_double_precision_does() {
    let reference = |ns: u64| -> String {
        if ns < 1_000 {
            format!("{ns}ns")
        } else if ns < 1_000_000 {
            format!("{:.3}us", ns as f64 / 1_000.0)
        } else if ns < 1_000_000_000 {
            format!("{:.3}ms", ns as f64 / 1_000_000.0)
        } else {
            format!("{:.3}s", ns as f64 / 1_000_000_000.0)
        }
    };
    let mut n: u64 = 1;
    for step in 0..2_000u64 {
        n = n.wrapping_mul(6_364_136_223_846_793_005).wrapping_add(1_442_695_040_888_963_407);
        let ns = n >> (step % 60);
        assert_eq!(format_duration_ns(ns, true), reference(ns), "{ns}");
    }
    for ns in [999, 1_000, 999_999, 1_000_000, 1_000_500, 2_000_500_000, u64::MAX, u64::MAX - 1] {
        assert_eq!(format_duration_ns(ns, true), reference(ns), "{ns}");
    }
}

#[test]
fn clock_hms_formats_time_of_day() {
    assert_eq!(clock_hms_ns(0), "00:00:00");
    assert_eq!(clock_hms_ns(1_609_459_200_000_000_000 + 3_661_000_000_000), "01:01:01");
}

#[test]
fn parse_datetime_round_trips_and_validates() {
    for ns in [0i64, 1_609_459_200_000_000_000, 1_763_000_000_000_000_000] {
        assert_eq!(parse_datetime(&format_datetime_ns(ns)), Some(ns));
    }
    assert_eq!(parse_datetime("1970-01-01"), Some(0));
    assert_eq!(parse_datetime("2021-01-01T00:00:00"), Some(1_609_459_200_000_000_000));
    assert_eq!(parse_datetime("2021-01-01 00:01"), Some(1_609_459_260_000_000_000));
    assert_eq!(parse_datetime(""), None);
    assert_eq!(parse_datetime("2021-13-01 00:00:00"), None);
    assert_eq!(parse_datetime("2021-01-01 24:00:00"), None);
    assert_eq!(parse_datetime("2021-01-01 00:60:00"), None);
    assert_eq!(parse_datetime("not-a-date"), None);
}

#[test]
fn days_from_civil_inverts_civil_from_days() {
    for days in [-40_000i64, -719_468, -1, 0, 1, 18_628, 50_000] {
        let (y, m, d) = civil_from_days(days);
        assert_eq!(days_from_civil(y, m, d), days);
    }
}

#[test]
fn seconds_are_humanized_by_their_largest_whole_unit() {
    assert_eq!(humanize_secs(604_800), "7d");
    assert_eq!(humanize_secs(10_800), "3h");
    assert_eq!(humanize_secs(900), "15m");
    assert_eq!(humanize_secs(61), "61s");
}

// ── text fields ─────────────────────────────────────────────────────────────────────────────────

fn key(code: KeyCode, ctrl: bool) -> KeyEvent {
    KeyEvent { code, ctrl, alt: false, shift: false, press: true }
}

fn press(field: &mut TextField, keys: &[(KeyCode, bool)]) {
    for (code, ctrl) in keys {
        handle_edit_key(field, key(*code, *ctrl));
    }
}

#[test]
fn the_caret_clamps_to_the_buffer_and_to_character_boundaries() {
    assert_eq!(caret_in("café", 5), 5);
    assert_eq!(caret_in("café", 4), 3);
    assert_eq!(caret_in("café", 99), 5);
    assert_eq!(caret_in("", 3), 0);
}

#[test]
fn editing_keys_move_and_change_the_text_around_the_caret() {
    let mut field = TextField { text: "abc".to_owned(), caret: 3 };
    press(&mut field, &[(KeyCode::Left, false), (KeyCode::Char('X'), false)]);
    assert_eq!((field.text.as_str(), field.caret), ("abXc", 3));
    press(&mut field, &[(KeyCode::Char('k'), true)]);
    assert_eq!((field.text.as_str(), field.caret), ("abX", 3));
    press(&mut field, &[(KeyCode::Char('a'), true)]);
    assert_eq!(field.caret, 0);
    press(&mut field, &[(KeyCode::Char('d'), true)]);
    assert_eq!((field.text.as_str(), field.caret), ("bX", 0));
    press(&mut field, &[(KeyCode::Char('e'), true)]);
    assert_eq!(field.caret, 2);
}

#[test]
fn an_unbound_key_is_left_to_the_caller() {
    let mut field = TextField { text: "x".to_owned(), caret: 1 };
    assert!(!handle_edit_key(&mut field, key(KeyCode::Enter, false)));
    assert!(!handle_edit_key(&mut field, key(KeyCode::Char('z'), true)));
    assert_eq!(field.text, "x", "a key the field declines never reaches the buffer");
}

#[test]
fn deleting_undoes_typing_and_the_arrows_undo_each_other() {
    let mut field = TextField { text: "día".to_owned(), caret: 1 };
    press(&mut field, &[(KeyCode::Char('é'), false), (KeyCode::Backspace, false)]);
    assert_eq!((field.text.as_str(), field.caret), ("día", 1));
    press(&mut field, &[(KeyCode::Right, false), (KeyCode::Left, false)]);
    assert_eq!(field.caret, 1);
}

// ── format ──────────────────────────────────────────────────────────────────────────────────────

#[test]
fn fit_field_pads_and_truncates_by_display_width() {
    assert_eq!(fit_field("ab", 5, "…"), "ab   ");
    assert_eq!(fit_field("abcde", 5, "…"), "abcde", "an exact fit is bare");
    let jp = fit_field("あいう", 8, "…");
    assert_eq!(UnicodeWidthStr::width(jp.as_str()), 8);
    assert!(jp.starts_with("あいう"));
    assert_eq!(fit_field("abcdef", 5, "…"), "abcd…");
    assert_eq!(fit_field("abcdefgh", 5, "..."), "ab...");
    let cut = fit_field("あいうえお", 6, "…");
    assert_eq!(UnicodeWidthStr::width(cut.as_str()), 6);
    assert_eq!(cut, "あい …", "the odd cell is padded, not half a glyph");
}

#[test]
fn fit_field_is_exactly_width_cells_for_every_input() {
    for text in ["", "abcdefghij", "あいうえお", "aあbいc"] {
        for width in 0..=8usize {
            for ellipsis in ["…", "..."] {
                let out = fit_field(text, width, ellipsis);
                assert_eq!(
                    UnicodeWidthStr::width(out.as_str()),
                    width,
                    "fit_field({text:?}, {width}, {ellipsis:?}) == {out:?}"
                );
            }
        }
    }
    assert_eq!(fit_field("abcdef", 3, "..."), "abc");
    assert_eq!(fit_field("", 3, "…"), "   ");
}

#[test]
fn severity_labels_map_number_bands() {
    assert_eq!(severity_label(SeverityNumber(9)), "INFO (9)");
    assert_eq!(severity_label(SeverityNumber(17)), "ERROR (17)");
    assert_eq!(severity_label(SeverityNumber(0)), "UNSET (0)");
}

#[test]
fn severity_bands_are_four_wide() {
    for (number, name) in
        [(1u8, "TRACE"), (4, "TRACE"), (5, "DEBUG"), (12, "INFO"), (13, "WARN"), (20, "ERROR"), (21, "FATAL"), (24, "FATAL")]
    {
        assert_eq!(severity_label(SeverityNumber(number)), format!("{name} ({number})"));
    }
}

#[test]
fn wrapped_rows_accounts_for_width() {
    assert_eq!(wrapped_rows("", 10), 1);
    assert_eq!(wrapped_rows("hello", 10), 1);
    assert_eq!(wrapped_rows("0123456789abc", 10), 2);
    assert_eq!(wrapped_rows("anything", 0), 1);
}

#[test]
fn attribute_values_render_by_their_kind() {
    assert_eq!(render_value(&AnyValue::Null), "null");
    assert_eq!(render_value(&AnyValue::Str("a b".to_owned())), "a b");
    assert_eq!(render_value(&AnyValue::Int(-7)), "-7");
    assert_eq!(render_value(&AnyValue::Bool(true)), "true");
    assert_eq!(render_value(&AnyValue::Bytes(vec![0x0f, 0xa0])), "0x0fa0");
    let nested = AnyValue::Array(vec![AnyValue::Int(1), AnyValue::Str("x".to_owned())]);
    assert_eq!(render_value(&nested), "[1, x]");
    let rendered = attrs_to_pairs(&vec![("k".to_owned(), AnyValue::Int(3))]);
    assert_eq!(rendered, pairs(&[("k", "3")]));
}

#[test]
fn blanks_are_those_of_the_standard_library() {
    for code in 0..=0x10ffffu32 {
        if let Some(c) = char::from_u32(code) {
            assert_eq!(text::is_space(c), c.is_whitespace(), "U+{code:04X}");
        }
    }
}

#[test]
fn texts_split_join_and_count_as_the_standard_library_does() {
    for s in ["", "a", "a\nb", "\n", "a\r\nb\n", "é\u{2003}x", "  two  words "] {
        let ours: Vec<String> = text::lines(s);
        let theirs: Vec<String> = s.lines().map(str::to_owned).collect();
        assert_eq!(ours, theirs, "{s:?}");
        assert_eq!(text::bytes_of(s), s.len());
        let trimmed: String = text::trimmed(&text::chars_of(s)).into_iter().collect();
        assert_eq!(trimmed, s.trim());
        assert_eq!(text::leading_word(s).as_deref(), s.split_whitespace().next());
        let parts: Vec<String> =
            text::split_on(&text::chars_of(s), '\n').into_iter().map(|v| v.into_iter().collect()).collect();
        assert_eq!(parts, s.split('\n').map(str::to_owned).collect::<Vec<_>>());
    }
    assert_eq!(text::joined(&strings(&["a", "b", "c"]), ", "), "a, b, c");
    assert_eq!(text::expand("a\nb\n", '\n', " | "), "a | b | ");
    assert_eq!(text::replace_char("a\nb", '\n', ' '), "a b");
    assert_eq!(text::head_of("café", 3), "caf");
}

#[test]
fn cells_are_padded_and_cut_to_their_width() {
    assert_eq!(pad_cell("ab", 4), "ab  ");
    assert_eq!(pad_cell("abcdef", 4), "abc>");
    assert_eq!(pad_cell("あいう", 4), "あ> ");
    assert_eq!(
        column_widths(&strings(&["Key", "Rows"]), &vec![strings(&["service", "1"]), strings(&["あい", "22222"])]),
        vec![7, 5]
    );
}

// ── PromQL ──────────────────────────────────────────────────────────────────────────────────────

#[test]
fn build_metric_query_covers_kinds_matchers_and_group_by() {
    let none = Vec::new();
    assert_eq!(build_metric_query("temperature", "gauge", &none, None, &vec![]), "temperature");
    assert_eq!(build_metric_query("reqs", "sum", &none, None, &vec![]), "rate(reqs[5m])");
    assert_eq!(
        build_metric_query("cpu", "gauge", &none, Some("host"), &strings(&["host"])),
        "avg by (host) (cpu)"
    );
    assert_eq!(
        build_metric_query("lat", "histogram", &none, Some("service"), &strings(&["service"])),
        "histogram_quantile(0.95, sum by (service, le) (rate(lat_bucket[5m])))"
    );
    assert_eq!(
        build_metric_query(
            "cpu",
            "gauge",
            &pairs(&[("service", "cart"), ("host", "a")]),
            None,
            &strings(&["service", "host"])
        ),
        "cpu{service=\"cart\",host=\"a\"}"
    );
}

#[test]
fn a_whole_histogram_keeps_its_identity_and_its_axes() {
    let none = Vec::new();
    assert_eq!(
        build_metric_query("lat", "histogram", &none, None, &vec![]),
        "histogram_quantile(0.95, sum by (le, __name__) (rate(lat_bucket[5m])))"
    );
    assert_eq!(
        build_metric_query("lat", "histogram", &none, None, &strings(&["route", "service"])),
        "histogram_quantile(0.95, sum by (le, __name__, route, service) (rate(lat_bucket[5m])))"
    );
    assert_eq!(
        build_metric_query(
            "lat",
            "histogram",
            &pairs(&[("route", "get")]),
            None,
            &strings(&["route", "service"])
        ),
        "histogram_quantile(0.95, sum by (le, __name__, route, service) (rate(lat_bucket{route=\"get\"}[5m])))"
    );
}

#[test]
fn metric_ident_from_promql_finds_the_selector() {
    assert_eq!(metric_ident_from_promql("up{a=\"1\"}").as_deref(), Some("up"));
    assert_eq!(
        metric_ident_from_promql("rate(http_requests_total{a=\"1\"}[5m])").as_deref(),
        Some("http_requests_total")
    );
    assert_eq!(metric_ident_from_promql("sum by (svc) (rate(errors[1m]))").as_deref(), Some("errors"));
    assert_eq!(metric_ident_from_promql("avg by (host) (cpu_usage)").as_deref(), Some("cpu_usage"));
    assert_eq!(
        metric_ident_from_promql("histogram_quantile(0.95, sum by (le) (rate(latency_bucket[5m])))").as_deref(),
        Some("latency_bucket")
    );
    assert_eq!(metric_ident_from_promql("(((").as_deref(), None);
}

#[test]
fn a_query_names_the_metric_it_visualizes() {
    assert_eq!(query_metric_name("cpu{host=\"a\"}").as_deref(), Some("cpu"));
    assert_eq!(query_metric_name("sum by (service) (rate(reqs[5m]))").as_deref(), Some("reqs"));
    assert_eq!(
        query_metric_name("histogram_quantile(0.95, sum by (le, __name__) (rate(lat_bucket[5m])))").as_deref(),
        Some("lat")
    );
    assert_eq!(query_metric_name("rate(token_bucket[5m])").as_deref(), Some("token_bucket"));
    assert_eq!(query_metric_name("((("), None);
}

#[test]
fn every_built_query_names_its_metric() {
    for kind in ["gauge", "sum", "histogram"] {
        for group_by in [None, Some("host")] {
            let query = build_metric_query("reqs", kind, &pairs(&[("a", "b")]), group_by, &strings(&["host"]));
            assert_eq!(query_metric_name(&query).as_deref(), Some("reqs"), "{query}");
        }
    }
    assert_eq!(matcher_braces(&vec![]), "");
    assert_eq!(matcher_braces(&pairs(&[("a", "1"), ("b", "2")])), "{a=\"1\",b=\"2\"}");
}

#[test]
fn metric_name_prefers_the_name_label_then_the_query() {
    let with_label = MetricDetail {
        labels: "__name__=req_total,service=api".to_owned(),
        query: "rate(other[5m])".to_owned(),
        points: Arc::new(Vec::new()),
    };
    assert_eq!(metric_name_from_detail(&with_label).as_deref(), Some("req_total"));
    let without_label = MetricDetail {
        labels: "service=api".to_owned(),
        query: "rate(bar[5m])".to_owned(),
        points: Arc::new(Vec::new()),
    };
    assert_eq!(metric_name_from_detail(&without_label).as_deref(), Some("bar"));
}

// ── completion and highlighting ─────────────────────────────────────────────────────────────────

fn candidates(screen: Screen, metrics: &Vec<String>, token: &str) -> Vec<Candidate> {
    completion_candidates(screen, metrics, &vec![], &vec![], &vec![], &CompletionContext::Expr, token)
}

#[test]
fn completion_ranks_metrics_then_functions() {
    let metrics = strings(&["http_requests_total", "http_errors", "process_cpu"]);
    let found = candidates(Screen::Metrics, &metrics, "htt");
    let texts = found.iter().map(|c| c.text.as_str()).collect::<Vec<_>>();
    assert_eq!(texts, vec!["http_errors", "http_requests_total"]);
    assert!(found.iter().all(|c| c.kind == CandidateKind::Metric));

    let funcs = candidates(Screen::Metrics, &vec![], "rat");
    assert_eq!(funcs.len(), 1);
    assert_eq!(funcs[0].text, "rate");
    assert_eq!(funcs[0].kind, CandidateKind::Function);
}

#[test]
fn completion_context_classifies_the_caret_position() {
    assert_eq!(completion_context("rate(htt").0, CompletionContext::Expr);
    assert_eq!(
        completion_context("http_requests_total{ser").0,
        CompletionContext::LabelName { metric: Some("http_requests_total".to_owned()) }
    );
    assert_eq!(completion_context("{ser").0, CompletionContext::LabelName { metric: None });
    assert_eq!(
        completion_context("m{a=\"1\",ho").0,
        CompletionContext::LabelName { metric: Some("m".to_owned()) }
    );
    assert_eq!(
        completion_context("http_requests_total{service=\"ca").0,
        CompletionContext::LabelValue {
            metric: Some("http_requests_total".to_owned()),
            label: "service".to_owned()
        }
    );
    assert_eq!(
        completion_context("m{service=~\"ca").0,
        CompletionContext::LabelValue { metric: Some("m".to_owned()), label: "service".to_owned() }
    );
    assert_eq!(completion_context("m{service=").0, CompletionContext::Suppressed);
    assert_eq!(completion_context("m{service=\"ca").1, "ca");
    assert_eq!(completion_context("m{ser").1, "ser");
}

#[test]
fn logs_expression_position_offers_operator_hints_not_promql_functions() {
    let found = candidates(Screen::Logs, &vec![], "");
    let ops = found
        .iter()
        .filter(|c| c.kind == CandidateKind::Operator)
        .map(|c| c.text.as_str())
        .collect::<Vec<_>>();
    assert_eq!(ops, vec!["!=", "!?", "!~", "|=", "|?", "|~"]);
    assert!(
        found.iter().all(|c| c.kind != CandidateKind::Function),
        "Logs expression position must not offer PromQL functions"
    );
    assert!(!found.iter().any(|c| c.text == "rate"), "`rate` must not be offered on the Logs box");
}

#[test]
fn every_span_knows_the_bytes_it_shows() {
    let query = "rate(é[5m])\n+ 1";
    let g = Glyphs::new(false);
    let spans = highlight_spans(Screen::Metrics, query, &g);
    let mut end = 0;
    for piece in &spans {
        assert_eq!(piece.start, end, "the spans follow one another");
        end = piece.end;
        let source = &query[piece.start..piece.end];
        if source.contains('\n') {
            assert!(!piece.span.text.contains('\n'), "a line break shows as a separator");
        } else {
            assert_eq!(piece.span.text, source);
        }
    }
    assert_eq!(end, query.len());
}

#[test]
fn highlight_reconstructs_the_input_and_colours_calls() {
    let query = "rate({job=\"api\"}[5m])";
    let spans = highlight_query(Screen::Metrics, query, &Glyphs::new(false));
    let rebuilt = spans.iter().map(|span| span.text.as_str()).collect::<String>();
    assert_eq!(rebuilt, query);
    assert_eq!(spans[0].text, "rate");
    assert_eq!(spans[0].style.fg, Some(Color::Cyan));
    assert!(spans.iter().any(|span| span.text == "\"api\"" && span.style.fg == Some(Color::Green)));
}

#[test]
fn the_caret_reverses_exactly_the_character_it_sits_on() {
    let g = Glyphs::new(false);
    let query = "rate(x)";
    let rebuilt = |screen, query: &str, caret| {
        highlight_caret(screen, query, caret, &g).iter().map(|span| span.text.as_str()).collect::<String>()
    };
    let reversed = |screen, query: &str, caret| {
        highlight_caret(screen, query, caret, &g)
            .iter()
            .filter(|span| span.style.reversed)
            .map(|span| span.text.as_str())
            .collect::<String>()
    };
    assert_eq!(rebuilt(Screen::Metrics, query, 5), query);
    assert_eq!(reversed(Screen::Metrics, query, 5), "x");
    assert_eq!(reversed(Screen::Metrics, query, 4), "(");
    assert_eq!(reversed(Screen::Metrics, query, 2), "t");
    assert_eq!(rebuilt(Screen::Metrics, query, query.len()), format!("{query} "));
    assert_eq!(reversed(Screen::Metrics, query, query.len()), " ");
    assert_eq!(reversed(Screen::Logs, "{a=\"é\"}", 4), "é");
    assert_eq!(reversed(Screen::Metrics, "a\nb", 1), format!(" {} ", g.vline));
}

#[test]
fn current_token_is_the_trailing_identifier() {
    assert_eq!(current_token(""), "");
    assert_eq!(current_token("rate(htt"), "htt");
    assert_eq!(current_token("sum by (inst"), "inst");
    assert_eq!(current_token("{job=\"api\"}"), "");
    assert_eq!(current_token("http_requests_total"), "http_requests_total");
}

#[test]
fn identifiers_may_hold_letters_of_any_script() {
    assert_eq!(current_token("rate(größe"), "größe");
    assert_eq!(current_token("x + 名前"), "名前");
    assert_eq!(current_token("x + €"), "");
}

#[test]
fn every_screen_has_its_own_vocabulary() {
    assert!(keywords_for(Screen::Metrics).contains(&"by"));
    assert!(functions_for(Screen::Metrics).contains(&"rate"));
    assert!(functions_for(Screen::Overview).is_empty());
}

// ── detail text ─────────────────────────────────────────────────────────────────────────────────

#[test]
fn span_detail_lines_show_ids_timing_and_every_section() {
    let detail = sample_trace();
    let g = Glyphs::new(true);
    let shown = span_detail_lines(&detail.trace_id, &detail.spans[2], &g).join("\n");
    assert!(shown.contains(&detail.trace_id));
    assert!(shown.contains(&detail.spans[2].span_id));
    assert!(shown.contains("Status    ERROR"));
    assert!(shown.contains("Message   boom"));
    assert!(shown.contains("Offset    +600.000us into the trace"));
    assert!(shown.contains("Duration  100.000us"));
    assert!(shown.contains("parent chain is broken"), "malformed note: {shown}");
    assert!(shown.contains("Events"));
    assert!(shown.contains("exception"));

    let child = span_detail_lines(&detail.trace_id, &detail.spans[1], &g).join("\n");
    assert!(child.contains("Attributes (1)"));
    assert!(child.contains("db.system = postgres"));
    let root = span_detail_lines(&detail.trace_id, &detail.spans[0], &g).join("\n");
    assert!(root.contains("Parent    (root)"));
}

#[test]
fn log_detail_lines_show_the_trace_and_body() {
    let lines = log_detail_lines(&sample_log_record(Some("abc123")));
    let shown = lines.join("\n");
    assert!(shown.contains("Trace ID  abc123"));
    assert!(shown.contains("Span ID   aabbccdd11223344"));
    assert!(shown.contains("Severity  INFO (9)"));
    assert!(lines.iter().any(|l| l == "  hello"));
    assert!(lines.iter().any(|l| l == "  world"));
    assert!(shown.contains("Attributes (1)"));
    assert!(shown.contains("  http.method = GET"));
    let none = log_detail_lines(&sample_log_record(None)).join("\n");
    assert!(none.contains("Trace ID  (none)"));
}

#[test]
fn a_span_summary_names_the_status_and_its_message() {
    let detail = sample_trace();
    let lines = span_summary_lines(&detail.spans[2], &Glyphs::new(true));
    assert!(lines.iter().any(|l| l.contains("ERROR | boom")), "{lines:?}");
}

// ── charts and the mascot ───────────────────────────────────────────────────────────────────────

#[test]
fn ascii_chart_uses_only_ascii_and_requested_dimensions() {
    let rendered = ascii_chart(&vec![0, 500, 1_000], 6, 3);
    assert!(rendered.is_ascii());
    let rows = rendered.lines().collect::<Vec<_>>();
    assert_eq!(rows.len(), 3);
    assert!(rows.iter().all(|row| row.len() == 6));
}

#[test]
fn an_ascii_chart_fills_its_columns_from_the_bottom() {
    assert_eq!(ascii_chart(&vec![0, 500, 1_000], 3, 2), "  #\n ##");
    assert_eq!(ascii_chart(&vec![], 3, 2), "");
    assert_eq!(ascii_chart(&vec![1_000], 0, 2), "");
}

#[test]
fn the_graph_lies_inside_the_axes() {
    let graph = chart_graph_area(Rect::new(0, 0, 40, 12), &strings(&["0", "5", "10"]), "12:00:00").unwrap();
    assert!(graph.width > 0 && graph.height > 0);
    assert!(graph.x >= 1 && graph.bottom() <= 12);
    assert_eq!(dot_cell(graph, 0, 0), (graph.x, graph.y));
    assert_eq!(
        dot_cell(graph, graph.width as u32 * 2 - 1, graph.height as u32 * 4 - 1),
        (graph.right() - 1, graph.bottom() - 1)
    );
    assert!(chart_graph_area(Rect::new(0, 0, 0, 0), &strings(&["0"]), "x").is_none());
}

#[test]
fn mascot_art_selects_the_facing_pair_and_waddle_phase() {
    assert_eq!(mascot_art(1, 0), mascot_frame(0));
    assert_eq!(mascot_art(1, 1), mascot_frame(1));
    assert_eq!(mascot_art(-1, 0), mascot_frame(2));
    assert_eq!(mascot_art(-1, 1), mascot_frame(3));
    assert_eq!(mascot_phase(0), 0);
    assert_eq!(mascot_phase(MASCOT_FRAME_NS), 1);
    assert_eq!(mascot_phase(2 * MASCOT_FRAME_NS), 0);
    assert_eq!(mascot_phase(-1), 1);
}

#[test]
fn the_mascot_rests_above_the_status_bar() {
    let area = Rect::new(0, 0, 80, 24);
    assert_eq!(resting_place(area), (71, 19));
    let (lo, hi, band) = stroll_band(area);
    assert_eq!((lo, hi, band), (0, 72, 19));
    assert_eq!(step_ns(u64::MAX), MAX_DT_NS);
    assert_eq!(step_ns(7), 7);
    assert_eq!(activity_after(Activity::Active, MascotEvent::Idle), Activity::Idle);
    assert_eq!(activity_after(Activity::Idle, MascotEvent::Active), Activity::Active);
}

#[test]
fn great_displacement_path_finds_a_rideable_descent() {
    let chart = ChartGeometry {
        graph: Rect::new(0, 0, 40, 12),
        cells: vec![(0, 8), (1, 8), (2, 2), (3, 3), (4, 7), (5, 9)],
    };
    let path = great_displacement_path(&chart).expect("a big drop should be found");
    assert_eq!(path.first(), Some(&(2, 2)), "ride starts at the peak");
    assert_eq!(path.last(), Some(&(5, 9)), "ride ends at the trough");
    assert_eq!(path.len(), 4);
}

#[test]
fn great_displacement_path_can_descend_leftward() {
    let chart =
        ChartGeometry { graph: Rect::new(0, 0, 40, 12), cells: vec![(0, 9), (1, 7), (2, 4), (3, 1)] };
    let path = great_displacement_path(&chart).expect("a leftward drop should be found");
    assert_eq!(path.first(), Some(&(3, 1)), "starts at the right-side peak");
    assert_eq!(path.last(), Some(&(0, 9)), "ends at the left-side trough");
    assert!(path.windows(2).all(|w| w[1].0 < w[0].0), "x must decrease (sliding left): {path:?}");
}

#[test]
fn great_displacement_path_prefers_the_gentler_slope() {
    let chart = ChartGeometry {
        graph: Rect::new(0, 0, 40, 12),
        cells: vec![(0, 1), (1, 9), (2, 2), (3, 3), (4, 4), (5, 5), (6, 6), (7, 7)],
    };
    let path = great_displacement_path(&chart).expect("a rideable descent should be found");
    assert_eq!(path.first(), Some(&(2, 2)), "avoids the cliff, takes the gentle grade");
    assert_eq!(path.last(), Some(&(7, 7)));
    assert_eq!(path.len(), 6);
}

#[test]
fn great_displacement_path_ignores_a_flat_chart() {
    let chart = ChartGeometry {
        graph: Rect::new(0, 0, 40, 12),
        cells: vec![(0, 5), (1, 5), (2, 6), (3, 5), (4, 6)],
    };
    assert!(great_displacement_path(&chart).is_none());
}

#[test]
fn a_ride_steps_from_cell_to_neighbouring_cell() {
    let path = densify(&vec![(0, 0), (3, 1), (3, 4)]);
    assert_eq!(path.first(), Some(&(0, 0)));
    assert_eq!(path.last(), Some(&(3, 4)));
    assert!(path.windows(2).all(|w| {
        let dx = (w[1].0 as i32 - w[0].0 as i32).abs();
        let dy = (w[1].1 as i32 - w[0].1 as i32).abs();
        dx <= 1 && dy <= 1 && dx + dy >= 1
    }));
}

#[test]
fn chart_ride_igniter_spends_one_roll_per_opportunity() {
    let chart = Some(ChartGeometry {
        graph: Rect::new(0, 0, 40, 12),
        cells: vec![(2, 2), (3, 3), (4, 6), (5, 9)],
    });
    let mut ig = ChartRideIgniter::new();
    assert!(ig.poll(16_000_000, &chart).is_none());
    ig.arm(MascotEvent::Navigated { on_metric_chart: true });
    assert_eq!(ig.chance, Chance::Usual);
    let _ = ig.poll(16_000_000, &None);
    assert!(!ig.rolled, "no geometry yet must not consume the roll");
    let _ = ig.poll(16_000_000, &chart);
    assert!(ig.rolled, "a real opportunity spends the roll");
    assert!(ig.poll(16_000_000, &chart).is_none(), "only one roll per arming");

    let mut ig2 = ChartRideIgniter::new();
    ig2.arm(MascotEvent::Refreshed { auto: true });
    assert_eq!(ig2.chance, Chance::Rare);
    let mut ig3 = ChartRideIgniter::new();
    ig3.arm(MascotEvent::Navigated { on_metric_chart: false });
    ig3.arm(MascotEvent::Refreshed { auto: false });
    ig3.arm(MascotEvent::Idle);
    assert_eq!(ig3.armed_ns, 0, "only chart-nav / auto-refresh arm the ride");
}

// ── the command line ────────────────────────────────────────────────────────────────────────────

fn parse_args(args: &[&str]) -> Result<Mode, String> {
    cli::parse(&strings(args))
}

fn tui_source(args: &[&str]) -> (Source, Options) {
    match parse_args(args).expect("parses") {
        Mode::Tui { source, options } => (source, options),
        _ => panic!("expected the terminal explorer"),
    }
}

fn tui(args: &[&str]) -> (String, Options) {
    match tui_source(args) {
        (Source::Db(path), options) => (path, options),
        (other, _) => panic!("expected a database directory, got {other:?}"),
    }
}

fn mcp_source(args: &[&str]) -> Source {
    match parse_args(args).expect("parses") {
        Mode::McpStdio(source) => source,
        _ => panic!("expected an MCP stdio server"),
    }
}

#[test]
fn the_explorer_keeps_its_original_command_line() {
    let (path, options) = tui(&["./data", "--ascii", "--refresh-seconds", "9"]);
    assert_eq!(path, "./data");
    assert!(options.ascii);
    assert_eq!(options.refresh_interval, Duration::from_secs(9));
    assert!(options.window.is_none());

    let (_, options) = tui(&["./data", "--refresh-seconds", "0"]);
    assert_eq!(options.refresh_interval, Duration::from_secs(1));

    let (_, options) =
        tui(&["./data", "--from", "2026-01-01 00:00:00", "--to", "2026-01-02 00:00:00"]);
    let (start, end) = options.window.expect("an absolute window");
    assert!(start < end);
}

#[test]
fn the_explorer_refuses_what_it_cannot_act_on() {
    assert!(parse_args(&["a", "b"]).unwrap_err().contains("two database"));
    assert!(parse_args(&["./data", "--from", "2026-01-01 00:00:00"])
        .unwrap_err()
        .contains("must be given together"));
    assert!(parse_args(&["./data", "--from", "2026-01-02 00:00:00", "--to", "2026-01-01 00:00:00"])
        .unwrap_err()
        .contains("must be before"));
    assert!(parse_args(&["./data", "--nope"]).unwrap_err().contains("unknown"));
    assert!(parse_args(&["./data", "--refresh-seconds"]).is_err());
}

#[test]
fn mcp_stdio_takes_exactly_one_source() {
    assert!(matches!(mcp_source(&["--mcp-stdio", "./data"]), Source::Db(path) if path == "./data"));
    assert!(matches!(mcp_source(&["--db", "./data", "--mcp-stdio"]), Source::Db(path) if path == "./data"));
    assert!(matches!(
        mcp_source(&["--mcp-stdio", "--url", "127.0.0.1:4318"]),
        Source::Url(url) if url == "127.0.0.1:4318"
    ));
    assert!(parse_args(&["--mcp-stdio"]).unwrap_err().contains("needs a database directory or --url"));
    assert!(parse_args(&["--mcp-stdio", "./data", "--url", "127.0.0.1:4318"])
        .unwrap_err()
        .contains("not both"));
}

#[test]
fn the_explorer_takes_exactly_one_source_too() {
    let (source, options) = tui_source(&["--url", "127.0.0.1:4318", "--ascii"]);
    assert!(matches!(source, Source::Url(url) if url == "127.0.0.1:4318"));
    assert!(options.ascii);
    assert!(parse_args(&[]).unwrap_err().contains("needs a database directory or --url"));
    assert!(parse_args(&["./data", "--url", "127.0.0.1:4318"]).unwrap_err().contains("not both"));
}

#[test]
fn the_two_modes_do_not_borrow_each_others_flags() {
    assert!(parse_args(&["--mcp-stdio", "./data", "--ascii"])
        .unwrap_err()
        .contains("means nothing with --mcp-stdio"));
}

#[test]
fn help_is_a_mode_rather_than_an_error() {
    assert!(matches!(parse_args(&["--help"]).expect("parses"), Mode::Help));
    assert!(matches!(parse_args(&["-h"]).expect("parses"), Mode::Help));
    assert!(matches!(parse_args(&["--url", "x", "--help"]).expect("parses"), Mode::Help));
    assert!(cli::usage().contains("--mcp-stdio"));
}

// ── the rest ────────────────────────────────────────────────────────────────────────────────────

#[test]
fn route_maps_to_screen_and_reports_detail() {
    assert_eq!(Route::Overview.screen(), Screen::Overview);
    assert_eq!(Route::Metrics.screen(), Screen::Metrics);
    assert_eq!(Route::Traces.screen(), Screen::Traces);
    assert_eq!(Route::Logs.screen(), Screen::Logs);
    assert!(!Route::Metrics.is_detail());
    assert!(!Route::Logs.is_detail());

    let md = Route::MetricDetail {
        detail: Arc::new(MetricDetail {
            labels: "svc=a".into(),
            query: "up".into(),
            points: Arc::new(vec![(1, 1.0f64.to_bits())]),
        }),
    };
    assert_eq!(md.screen(), Screen::Metrics);
    assert!(md.is_detail());
    let ld = Route::LogDetail { record: Arc::new(sample_log_record(None)) };
    assert_eq!(ld.screen(), Screen::Logs);
    assert!(ld.is_detail());
    let trace = sample_trace();
    let first = Arc::clone(&trace.spans[0]);
    let td = Route::TraceDetail { detail: Arc::new(trace) };
    assert_eq!(td.screen(), Screen::Traces);
    assert!(td.is_detail());
    let sd = Route::SpanDetail { trace_id: "aa".into(), span: first };
    assert_eq!(sd.screen(), Screen::Traces);
    assert!(sd.is_detail());

    for screen in [Screen::Overview, Screen::Metrics, Screen::Traces, Screen::Logs] {
        assert_eq!(Route::list(screen).screen(), screen);
        assert_eq!(Screen::at(screen.index()), Some(screen));
    }
    assert_eq!(Screen::at(4), None);
}

#[test]
fn panic_hook_install_claim_is_idempotent() {
    let mut flag = false;
    assert!(claim_panic_hook_install(&mut flag), "first claim wins");
    assert!(!claim_panic_hook_install(&mut flag), "second claim is refused");
    assert!(!claim_panic_hook_install(&mut flag), "further claims stay refused");
}

#[test]
fn only_a_daemon_sees_the_live_buffer() {
    let local = Backend::Local;
    assert_eq!(local.describe(), "local database");
    assert!(!local.sees_live_buffer() && !local.can_promote());
    let remote = Backend::Remote("http://127.0.0.1:4318".to_owned());
    assert_eq!(remote.describe(), "http://127.0.0.1:4318");
    assert!(remote.sees_live_buffer() && remote.can_promote());
}

#[test]
fn a_mascot_that_faces_nowhere_faces_left() {
    assert_eq!(mascot_art(0, 0), mascot_frame(2));
    assert_eq!(mascot_art(0, 1), mascot_frame(3));
}

fn metric(name: &str, label: Option<&str>) -> MetricNode {
    MetricNode {
        name: name.to_owned(),
        kind: "gauge".to_owned(),
        unit: String::new(),
        temporality: "-".to_owned(),
        expanded: false,
        whole_selected: false,
        dims: label.map(|label| {
            vec![DimNode { label: label.to_owned(), values: Vec::new(), expanded: false, selected: None }]
        }),
        loading: false,
    }
}

#[test]
fn labels_come_from_the_metric_once_it_is_loaded_and_else_from_all() {
    let tree = vec![metric("a", Some("x")), metric("b", None), metric("c", Some("y"))];
    let labels = |name: Option<&str>| -> Vec<String> {
        dims_for(&tree, name).iter().map(|dims| dims[0].label.clone()).collect()
    };
    assert_eq!(labels(Some("c")), ["y"]);
    assert_eq!(labels(Some("b")), ["x", "y"], "known but not loaded");
    assert_eq!(labels(Some("z")), ["x", "y"], "not in the tree");
    assert_eq!(labels(None), ["x", "y"]);
}

#[test]
fn functions_are_in_order_and_are_no_keywords() {
    for screen in [Screen::Overview, Screen::Metrics, Screen::Traces, Screen::Logs] {
        let functions = functions_for(screen);
        assert!(functions.windows(2).all(|pair| pair[0] < pair[1]), "{functions:?}");
        assert_eq!(functions.is_empty(), screen == Screen::Overview);
        assert!(keywords_for(screen).iter().all(|word| !functions.contains(word)));
    }
}

#[test]
fn identifiers_past_ascii_are_read_by_their_bytes() {
    // The first byte of a Hebrew letter is the multiplication sign of Latin-1.
    assert_eq!(metric_ident_from_promql("a\u{5d0}b + 1").as_deref(), Some("a"));
    // All bytes of these are letters or numbers of Latin-1.
    assert_eq!(metric_ident_from_promql("a\u{2aaa} + 1").as_deref(), Some("a\u{2aaa}"));
    assert_eq!(metric_ident_from_promql("a\u{b5}b + 1").as_deref(), Some("a\u{b5}b"));
    // The bytes of these do not agree.
    assert_eq!(metric_ident_from_promql("a\u{2014}b").as_deref(), Some("a"));
    assert_eq!(metric_ident_from_promql("a\u{e9}b + 1").as_deref(), Some("a\u{e9}b"));
}

#[test]
fn order_and_spelling_of_arguments_do_not_matter() {
    let first = tui(&["/data", "--ascii", "--refresh-seconds", "9"]);
    for args in [
        ["--db", "/data", "--ascii", "--refresh-seconds", "9"],
        ["--refresh-seconds", "9", "--db", "/data", "--ascii"],
        ["--ascii", "--refresh-seconds", "9", "--db", "/data"],
    ] {
        let again = tui(&args);
        assert_eq!(first.0, again.0);
        assert_eq!(first.1.ascii, again.1.ascii);
        assert_eq!(first.1.refresh_interval, again.1.refresh_interval);
        assert_eq!(first.1.window, again.1.window);
    }
}

#[test]
fn spans_with_a_broken_parent_chain_are_marked() {
    let spans = mark_broken(vec![
        span(1, None, "root", 0, 9),
        span(2, Some(1), "child", 0, 9),
        span(3, Some(9), "orphan", 0, 9),
        span(4, Some(5), "ring", 0, 9),
        span(5, Some(4), "ring", 0, 9),
        span(6, Some(6), "self", 0, 9),
        span(7, Some(4), "below the ring", 0, 9),
    ]);
    let marks: Vec<bool> = spans.iter().map(|s| s.malformed).collect();
    assert_eq!(marks, [false, false, true, true, true, true, false]);
    assert_eq!(spans[1].name, "child");
}

#[test]
fn a_waterfall_row_shows_name_bar_and_duration() {
    let trace = sample_trace();
    let name = |text: &str| format!("{text:<28}");
    // 1 + 28 + 2 + 12 cells are taken, so that ten are left for the bar.
    assert_eq!(
        waterfall_row(&trace, &trace.spans[1], 53, true),
        format!(" {}|  ####    |{:>12}", name("db.query"), format_duration_ns(400_000, true))
    );
    assert_eq!(
        waterfall_row(&trace, &trace.spans[2], 53, false),
        format!("!{}|      \u{2588}   |{:>12}", name("orphan"), format_duration_ns(100_000, false))
    );
    // A pane with no room still has a bar of one cell, and a span past the trace's end the last one.
    assert!(waterfall_row(&trace, &trace.spans[0], 3, true).contains("|#|"));
    let late = span(8, None, "late", i64::MAX, u64::MAX);
    assert!(waterfall_row(&trace, &late, 53, true).contains("|         #|"));
}

#[test]
fn scrolled_off_ancestors_stay_in_view() {
    let chain = |id: u8| Arc::new(span(id, if id == 1 { None } else { Some(id - 1) }, "s", 0, 9));
    let trace = TraceDetail {
        trace_id: "aa".repeat(16),
        root_service: None,
        root_name: None,
        start_time_ns: 0,
        duration_ns: 9,
        spans: (1..=6).map(chain).collect(),
    };
    assert_eq!(pinned_rows(&trace, 3, 2, STICKY_DEPTH), [0, 1]);
    assert_eq!(pinned_rows(&trace, 3, 0, STICKY_DEPTH), [] as [usize; 0]);
    assert_eq!(pinned_rows(&trace, 5, 5, STICKY_DEPTH), [2, 3, 4], "the outermost are dropped");
    assert_eq!(pinned_rows(&trace, 5, 5, 1), [4]);
    assert_eq!(pinned_rows(&trace, 9, 5, STICKY_DEPTH), [] as [usize; 0]);
}

#[test]
fn a_text_is_cut_by_bytes() {
    assert_eq!(text::head_of("0123456789abcdef", 8), "01234567");
    assert_eq!(text::head_of("abc", 8), "abc");
    assert_eq!(text::head_of("\u{e9}\u{e9}\u{e9}\u{e9}\u{e9}", 8), "\u{e9}\u{e9}\u{e9}\u{e9}");
}

fn characters(ranges: &[(u32, u32)]) -> Vec<char> {
    ranges.iter().flat_map(|(from, to)| *from..=*to).filter_map(char::from_u32).collect()
}

#[test]
fn characters_that_stand_alone_add_up() {
    let narrow = characters(&[(0xa0, 0xac), (0xae, 0x2ff), (0x370, 0x482), (0x48a, 0x52f), (0x2010, 0x2029)]);
    assert!(narrow.iter().all(|c| UnicodeWidthChar::width(*c) == Some(1)));
    let wide = characters(&[(0x3041, 0x3096), (0x309b, 0x30ff), (0x3250, 0xa48c), (0xac00, 0xd7a3), (0xff01, 0xff60)]);
    assert!(wide.iter().all(|c| UnicodeWidthChar::width(*c) == Some(2)));
    let every = characters(&[(0, 0x10ffff)]);
    assert!(every.iter().all(|c| UnicodeWidthChar::width(*c).unwrap_or(0) <= if *c == '\u{17d8}' { 3 } else { 2 }));

    let alone = characters(&[
        (0x20, 0x7e),
        (0xa0, 0x5db),
        (0x883, 0x177f),
        (0x1a11, 0x2319),
        (0x2e80, 0xa4fb),
        (0xa4fe, 0xfdff),
        (0xfe10, 0x10c02),
        (0x20000, 0x10ffff),
    ]);
    let sum = |cs: &[char]| cs.iter().map(|c| UnicodeWidthChar::width(*c).unwrap_or(0)).sum::<usize>();
    let text = |cs: &[char]| cs.iter().collect::<String>();
    let backward: Vec<char> = alone.iter().rev().copied().collect();
    assert_eq!(text(&alone).width(), sum(&alone));
    assert_eq!(text(&backward).width(), sum(&alone));
    // Next to characters from all over, too.
    for step in [7, 211, 4_099] {
        let mixed: Vec<char> = (0..alone.len()).map(|i| alone[i * step % alone.len()]).collect();
        for part in mixed.chunks(50) {
            assert_eq!(text(part).width(), sum(part));
        }
    }
}

#[test]
fn a_field_of_letters_that_stand_alone_is_exactly_its_width() {
    for text in ["\u{3042}\u{3044}\u{3046}\u{3048}\u{304a}", "\u{6f22}a\u{d55c}b\u{416}\u{3b1}", "\u{e9}t\u{e9} \u{ff21}"] {
        for width in 0..=14 {
            for marker in ["\u{2026}", "..."] {
                assert_eq!(fit_field(text, width, marker).width(), width, "{text} in {width}");
            }
        }
    }
}
