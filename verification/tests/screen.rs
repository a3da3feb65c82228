//! What the frames look like, painted onto a test terminal.

use std::sync::Arc;

use imbh_tui::app::App;
use imbh_tui::completion::{Candidate, CandidateKind, Completion};
use imbh_tui::geometry::Rect;
use imbh_tui::mascot::resting_place;
use imbh_tui::model::{
    AbsTarget, AttrRow, DetailPane, DetailStyle, Focus, LogRecord, MetricDetail, Mode, PaneTable, Refresh, Route,
    Snapshot, SpanRecord, TableData, TraceDetail, LOADING_BANNER_AFTER, SPINNER_FRAME,
};
use imbh_tui::style::{Color, Span, Style};
use imbh_tui::textfield::handle_edit_key;
use imbh_tui::input::{KeyCode, KeyEvent};
use imbh_tui::ui::chrome::{caret_column, draw_mascot, draw_too_small, editing_query_window, QUIT_HINT};
use imbh_tui::ui::glyphs::Glyphs;
use imbh_tui::ui::metrics::{column_constraints, finite_points, Figures};
use imbh_tui::ui::overlays::{
    caret_spans, draw_completion_popup, draw_loading_banner, draw_time_range_picker, loading_banner_text,
};
use imbh_tui::ui::pane::{Body, Border, Extent, Pane, Wrap};
use imbh_tui::ui::results::attr_pane_lines;
use imbh_tui::ui::{draw, Moment, Pose};
use imbh_tui::waterfall::waterfall_row;
use ratatui::backend::TestBackend;
use ratatui::buffer::Buffer;
use ratatui::layout::{Alignment, Constraint, Layout};
use ratatui::style::{Color as Ink, Modifier, Style as Look};
use ratatui::symbols::border;
use ratatui::text::{Line, Span as Piece};
use ratatui::widgets::{
    Block, Borders, Clear, List, ListItem, ListState, Paragraph, Row, Sparkline, Table, TableState,
    Wrap as Wrapping,
};
use ratatui::Terminal;
use unicode_width::UnicodeWidthStr;

/// A monotonic clock reading, in nanoseconds.
const NOW: u64 = 1_000_000_000_000;

/// A wall clock reading, in nanoseconds since 1970.
const WALL: i64 = 1_790_000_000_000_000_000;

const ASCII_BORDER: border::Set = border::Set {
    top_left: "+",
    top_right: "+",
    bottom_left: "+",
    bottom_right: "+",
    vertical_left: "|",
    vertical_right: "|",
    horizontal_top: "-",
    horizontal_bottom: "-",
};

// ── the painter ─────────────────────────────────────────────────────────────────────────────────

fn ink(color: Color) -> Ink {
    match color {
        Color::Black => Ink::Black,
        Color::Blue => Ink::Blue,
        Color::Cyan => Ink::Cyan,
        Color::DarkGray => Ink::DarkGray,
        Color::Gray => Ink::Gray,
        Color::Green => Ink::Green,
        Color::Magenta => Ink::Magenta,
        Color::Red => Ink::Red,
        Color::Yellow => Ink::Yellow,
    }
}

fn look(style: Style) -> Look {
    let mut out = Look::default();
    if let Some(color) = style.fg {
        out = out.fg(ink(color));
    }
    if let Some(color) = style.bg {
        out = out.bg(ink(color));
    }
    if style.bold {
        out = out.add_modifier(Modifier::BOLD);
    }
    if style.underlined {
        out = out.add_modifier(Modifier::UNDERLINED);
    }
    if style.reversed {
        out = out.add_modifier(Modifier::REVERSED);
    }
    out
}

fn line(spans: &[Span]) -> Line<'static> {
    Line::from(spans.iter().map(|s| Piece::styled(s.text.clone(), look(s.style))).collect::<Vec<_>>())
}

fn selection() -> Look {
    Look::default().fg(Ink::Black).bg(Ink::Cyan).add_modifier(Modifier::BOLD)
}

fn block(pane: &Pane, ascii: bool) -> Block<'static> {
    let block = match pane.border {
        Border::Boxed(style) => {
            let block = Block::default().borders(Borders::ALL).border_style(look(style));
            if ascii {
                block.border_set(ASCII_BORDER)
            } else {
                block
            }
        }
        Border::Bare => Block::default(),
    };
    if pane.title.is_empty() {
        block
    } else {
        block.title(pane.title.clone())
    }
}

fn wrapped(paragraph: Paragraph<'static>, wrap: Wrap) -> Paragraph<'static> {
    match wrap {
        Wrap::Cut => paragraph,
        Wrap::Keep => paragraph.wrap(Wrapping { trim: false }),
        Wrap::Trim => paragraph.wrap(Wrapping { trim: true }),
    }
}

fn constraint(extent: &Extent) -> Constraint {
    match *extent {
        Extent::Length(n) => Constraint::Length(n),
        Extent::Min(n) => Constraint::Min(n),
        Extent::Percentage(n) => Constraint::Percentage(n),
    }
}

fn paint(frame: &mut ratatui::Frame<'_>, panes: &[Pane], ascii: bool) {
    for pane in panes {
        let at = pane.area;
        let area = ratatui::layout::Rect::new(at.x, at.y, at.width, at.height).intersection(frame.area());
        if pane.clear {
            frame.render_widget(Clear, area);
        }
        let block = block(pane, ascii);
        let style = look(pane.style);
        match &pane.body {
            Body::Prose { text, wrap, scroll } => {
                let text = Paragraph::new(text.clone()).style(style).scroll((*scroll, 0)).block(block);
                frame.render_widget(wrapped(text, *wrap), area);
            }
            Body::Lines { lines, wrap, offset, centered } => {
                let lines: Vec<Line<'static>> = lines.iter().map(|l| line(l)).collect();
                let mut text = Paragraph::new(lines).style(style).scroll((0, *offset)).block(block);
                if *centered {
                    text = text.alignment(Alignment::Center);
                }
                frame.render_widget(wrapped(text, *wrap), area);
            }
            Body::Items { items, selected, first } => {
                let mut state = ListState::default().with_offset(*first);
                state.select(*selected);
                let items: Vec<ListItem<'static>> = items.iter().map(|l| ListItem::new(line(l))).collect();
                let list = List::new(items).style(style).block(block).highlight_style(selection());
                frame.render_stateful_widget(list, area, &mut state);
            }
            Body::Table { header, rows, columns, selected } => {
                let rows = rows.iter().map(|r| Row::new(r.iter().map(|c| line(c)).collect::<Vec<_>>()));
                let mut state = TableState::default();
                state.select(*selected);
                let table = Table::new(rows.collect::<Vec<_>>(), columns.iter().map(constraint))
                    .header(Row::new(header.iter().cloned()))
                    .column_spacing(2)
                    .block(block)
                    .row_highlight_style(selection());
                frame.render_stateful_widget(table, area, &mut state);
            }
            Body::Spark { values } => {
                frame.render_widget(Sparkline::default().block(block).data(values), area);
            }
            Body::Waterfall { trace, shown, selected, looks, first, pinned } => {
                let inner = block.inner(area);
                let row = |i: usize| {
                    let style = looks.get(i).map_or(Look::default(), |s| look(*s));
                    Piece::styled(waterfall_row(trace, &trace.spans[i], inner.width as usize, ascii), style)
                };
                let rows: Vec<ListItem<'static>> = (0..*shown).map(|i| ListItem::new(row(i))).collect();
                let mut state = ListState::default().with_offset(*first);
                state.select(*selected);
                let list = List::new(rows).block(block).highlight_style(selection());
                frame.render_stateful_widget(list, area, &mut state);
                for (line, i) in pinned.iter().enumerate() {
                    let over = ratatui::layout::Rect { y: inner.y + line as u16, height: 1, ..inner };
                    frame.render_widget(Clear, over);
                    frame.render_widget(Paragraph::new(Line::from(row(*i))), over);
                }
            }
            Body::Plot { .. } | Body::Blank => frame.render_widget(block.style(style), area),
        }
    }
}

fn moment(width: u16, height: u16, ascii: bool) -> Moment {
    let area = Rect::new(0, 0, width, height);
    let (x, y) = resting_place(area);
    let pose = Pose { facing: -1, phase_ns: 0, x: x as i64, y: y as i64 };
    Moment { area, ascii, now: NOW, wall_ns: WALL, pose }
}

fn figures() -> Figures {
    Figures {
        chart: vec![333, 666, 1_000],
        at_cursor: "1".into(),
        min: "1".into(),
        max: "3".into(),
        avg: "2".into(),
        latest: "3".into(),
    }
}

fn painted(width: u16, height: u16, panes: &[Pane], ascii: bool) -> Buffer {
    let mut terminal = Terminal::new(TestBackend::new(width, height)).unwrap();
    terminal.draw(|frame| paint(frame, panes, ascii)).unwrap();
    terminal.backend().buffer().clone()
}

fn drawn(app: &mut App, width: u16, height: u16, ascii: bool) -> Buffer {
    let frame = draw(app, &moment(width, height, ascii), &figures());
    painted(width, height, &frame.panes, ascii)
}

fn row(buffer: &Buffer, y: u16) -> String {
    (0..buffer.area.width).map(|x| buffer[(x, y)].symbol()).collect()
}

fn text(buffer: &Buffer) -> String {
    (0..buffer.area.height).map(|y| row(buffer, y)).collect::<Vec<_>>().join("\n")
}

fn spans_text(spans: &[Span]) -> String {
    spans.iter().map(|s| s.text.as_str()).collect()
}

// ── fixtures ────────────────────────────────────────────────────────────────────────────────────

fn span(id: u8, parent: Option<u8>, name: &str, offset_ns: i64, duration_ns: u64) -> Arc<SpanRecord> {
    Arc::new(SpanRecord {
        name: name.to_owned(),
        service: None,
        kind: "internal".to_owned(),
        span_id: format!("{id:02x}").repeat(8),
        parent_span_id: parent.map(|p| format!("{p:02x}").repeat(8)),
        status_code: "OK".to_owned(),
        status_message: None,
        malformed: false,
        start_time_ns: offset_ns,
        offset_ns,
        duration_ns,
        attributes: Vec::new(),
        resource: Vec::new(),
        scope: Vec::new(),
        events: None,
        links: None,
    })
}

fn flat_trace(count: u8) -> Arc<TraceDetail> {
    Arc::new(TraceDetail {
        trace_id: "aa".repeat(16),
        root_service: Some("api".to_owned()),
        root_name: Some("root".to_owned()),
        start_time_ns: 0,
        duration_ns: count as u64 * 1_000,
        spans: (0..count).map(|i| span(i + 1, None, &format!("span-{i}"), i as i64 * 1_000, 900)).collect(),
    })
}

fn nested_trace() -> Arc<TraceDetail> {
    let mut spans = vec![span(1, None, "zz-root", 0, 100_000), span(2, Some(1), "yy-mid", 1_000, 98_000)];
    for id in 3..=18u8 {
        let name = format!("work-{}-with-a-long-name", id - 3);
        spans.push(span(id, Some(2), &name, id as i64 * 1_000, 90_000 - id as u64 * 1_000));
    }
    Arc::new(TraceDetail {
        trace_id: "aa".repeat(16),
        root_service: None,
        root_name: None,
        start_time_ns: 0,
        duration_ns: 100_000,
        spans,
    })
}

fn metric_detail(points: &[(i64, f64)]) -> Route {
    Route::MetricDetail {
        detail: Arc::new(MetricDetail {
            labels: "service=api".to_owned(),
            query: "up".to_owned(),
            points: Arc::new(points.iter().map(|(t, v)| (*t, v.to_bits())).collect()),
        }),
    }
}

// ── panes ───────────────────────────────────────────────────────────────────────────────────────

#[test]
fn a_section_title_is_not_clipped_to_the_key_column() {
    let table = PaneTable {
        data: TableData::new(
            vec!["Key".to_owned(), "Rows".to_owned()],
            vec![
                vec!["metrics_gauge - 1 segment, 488 rows, 2 keys".to_owned(), String::new()],
                vec!["Key".to_owned(), "Rows".to_owned()],
                vec!["env".to_owned(), "488".to_owned()],
            ],
        ),
        kinds: vec![AttrRow::Section, AttrRow::Header, AttrRow::Key("env".to_owned())],
    };
    let lines = attr_pane_lines(&table);
    assert_eq!(
        spans_text(&lines[0]),
        "metrics_gauge - 1 segment, 488 rows, 2 keys",
        "the title is whole, not cut to the width of the `Key` column"
    );
    // The key column is sized by the *key rows*, so a long title cannot stretch it either.
    assert!(
        spans_text(&lines[2]).starts_with("env  "),
        "columns are padded to the data, not to the banner: {:?}",
        spans_text(&lines[2])
    );
}

#[test]
fn the_header_highlights_only_for_the_window_it_shows() {
    let mut app = App::new(0);
    app.mode = Mode::AbsoluteRange;
    app.range.abs_target = AbsTarget::Query;
    assert!(editing_query_window(&app));
    app.range.abs_target = AbsTarget::Attributes;
    assert!(
        !editing_query_window(&app),
        "the attribute pane's range does not change the query window, so the header must stay put"
    );
    app.mode = Mode::Normal;
    assert!(!editing_query_window(&app));
}

#[test]
fn a_held_keyboard_greys_out_every_footer_hint_but_quit() {
    let footer_styles = |app: &mut App| {
        let buffer = drawn(app, 120, 20, false);
        // The legend starts on the first row below the panels; find it by its first entry.
        let y = (0..20u16)
            .find(|y| row(&buffer, *y).trim_start().starts_with(QUIT_HINT))
            .expect("the key legend is on screen");
        (0..120)
            .map(|x| (buffer[(x, y)].symbol().to_owned(), buffer[(x, y)].style().fg))
            .collect::<Vec<_>>()
    };

    // Idle: nothing in the legend is greyed.
    let idle = footer_styles(&mut App::new(0));
    assert!(!idle.iter().any(|(_, fg)| *fg == Some(Ink::DarkGray)), "the idle legend should not be dimmed");

    let mut app = App::new(0);
    app.begin_loading(Refresh::Interactive, NOW);
    let locked = footer_styles(&mut app);
    // `q quit` keeps its normal colour...
    let quit: String =
        locked.iter().take_while(|(symbol, _)| *symbol != " ").map(|(symbol, _)| symbol.as_str()).collect();
    assert_eq!(quit, "q");
    assert!(
        locked.iter().take(QUIT_HINT.len()).all(|(_, fg)| *fg != Some(Ink::DarkGray)),
        "the quit hint stayed lit"
    );
    // ...and the rest of the line is greyed.
    let dimmed =
        locked.iter().skip(QUIT_HINT.len()).filter(|(symbol, _)| *symbol != " ").collect::<Vec<_>>();
    assert!(!dimmed.is_empty(), "there are other hints to dim");
    assert!(dimmed.iter().all(|(_, fg)| *fg == Some(Ink::DarkGray)), "every other hint is greyed");

    // A background load holds nothing, so the legend stays fully lit.
    let mut app = App::new(0);
    app.begin_loading(Refresh::Background, NOW);
    let free = footer_styles(&mut app);
    assert!(!free.iter().any(|(_, fg)| *fg == Some(Ink::DarkGray)));
}

#[test]
fn a_long_wait_puts_the_banner_in_the_middle_of_the_screen() {
    let mut app = App::new(0);
    app.begin_loading(Refresh::Interactive, NOW);
    // Nothing yet: the query has only just been issued.
    assert!(!text(&drawn(&mut app, 90, 20, false)).contains("Loading\u{2026}"), "no banner before the delay");

    // Past the delay it is there, centred: in a 20-row terminal the 3-row box occupies rows 8..11,
    // so its text lands on row 9.
    app.load.loading_since = Some(NOW - LOADING_BANNER_AFTER);
    let buffer = drawn(&mut app, 90, 20, false);
    assert!(row(&buffer, 9).contains("Loading\u{2026}"), "row 9: {:?}", row(&buffer, 9));
    // And horizontally centred: past the pane's own border column, the blank runs either side of the
    // box match.
    let cells: Vec<&str> = (0..90).map(|x| buffer[(x, 9)].symbol()).collect();
    let left = cells[1..].iter().take_while(|cell| **cell == " ").count();
    let right = cells[..89].iter().rev().take_while(|cell| **cell == " ").count();
    assert!(left.abs_diff(right) <= 1, "left {left}, right {right}");
    assert!(left > 0, "the box is not flush against the pane border");

    // A background load renders exactly the same banner.
    let locked = row(&buffer, 9);
    app.load.input_locked = false;
    assert_eq!(locked, row(&drawn(&mut app, 90, 20, false), 9));
}

#[test]
fn ascii_mode_renders_only_ascii_across_the_ui() {
    let log_record = LogRecord {
        time_ns: 0,
        severity: "INFO".to_owned(),
        service: Some("api".to_owned()),
        body: "hello".to_owned(),
        trace_id: Some("abcdef01".to_owned()),
        span_id: Some("0123".to_owned()),
        attributes: vec![("k".to_owned(), "v".to_owned())],
        resource: Vec::new(),
        scope: Vec::new(),
    };
    let states: Vec<(&str, App)> = vec![
        ("overview", App::new(0)),
        ("menu", {
            let mut app = App::new(0);
            app.mode = Mode::Menu;
            app
        }),
        ("time-range picker", {
            let mut app = App::new(0);
            app.mode = Mode::TimeRange;
            app
        }),
        ("absolute-range form", {
            let mut app = App::new(0);
            app.open_absolute_form(WALL);
            app.range.abs_error = Some("start must be before end".to_owned());
            app
        }),
        ("loading banner", {
            let mut app = App::new(0);
            app.begin_loading(Refresh::Interactive, NOW);
            app.load.loading_since = Some(NOW - LOADING_BANNER_AFTER);
            app.load.input_refused = true;
            app
        }),
        ("scrolled list", {
            // Many lines in a short terminal forces the `[n/m ^v]` scroll title to render.
            let mut app = App::new(0);
            app.snapshot.lines = (0..40).map(|i| format!("row {i}")).collect();
            app.at.scroll = 5;
            app
        }),
        ("metrics query + completion", {
            let mut app = App::new(0);
            app.at.route = Route::Metrics;
            app.mode = Mode::Editing;
            app.set_active_query("rate(".to_owned());
            app.words.completion = Some(Completion {
                candidates: vec![Candidate { text: "http_requests".to_owned(), kind: CandidateKind::Metric }],
                selected: 0,
            });
            app
        }),
        ("log detail", {
            let mut app = App::new(0);
            app.at.route = Route::LogDetail { record: Arc::new(log_record) };
            app
        }),
        ("metric detail", {
            let mut app = App::new(0);
            app.at.route = metric_detail(&[(0, 1.0), (1_000_000_000, 2.0), (2_000_000_000, 3.0)]);
            app
        }),
        ("trace detail", {
            let mut app = App::new(0);
            app.at.route = Route::TraceDetail { detail: flat_trace(10) };
            app.at.span_cursor = 1;
            app
        }),
        ("trace detail with a scrolled name column", {
            let mut app = App::new(0);
            app.at.route = Route::TraceDetail { detail: nested_trace() };
            app.at.span_cursor = 17;
            app
        }),
        ("span detail", {
            let mut app = App::new(0);
            let detail = flat_trace(10);
            app.at.route =
                Route::SpanDetail { trace_id: detail.trace_id.clone(), span: Arc::clone(&detail.spans[1]) };
            app
        }),
        ("traces list with a waterfall preview", {
            let mut app = App::new(0);
            let detail = flat_trace(10);
            app.at.route = Route::Traces;
            let mut snapshot = Snapshot::message("TraceQL", "");
            snapshot.lines = vec!["1 matching traces".into(), format!("{}  ts", detail.trace_id)];
            snapshot.list_from = Some(1);
            snapshot.detail = Some(Arc::new(DetailPane {
                table: None,
                style: DetailStyle::Preview,
                title: "Waterfall".to_owned(),
                lines: Vec::new(),
                waterfall: Some(detail),
            }));
            app.snapshot = snapshot;
            app.at.selected = 1;
            app
        }),
    ];

    for (label, mut app) in states {
        let buffer = drawn(&mut app, 48, 10, true);
        for y in 0..buffer.area.height {
            for x in 0..buffer.area.width {
                let sym = buffer[(x, y)].symbol();
                assert!(sym.is_ascii(), "non-ASCII cell {sym:?} at ({x},{y}) in --ascii state {label:?}");
            }
        }
    }
}

#[test]
fn a_query_longer_than_its_box_scrolls_to_keep_the_caret_visible() {
    // 48 columns: the query box's inner width is 46, so this query is comfortably wider than it.
    let query = "http_requests_total{service=\"checkout\",host=\"node-a\",method=\"POST\"}";
    assert!(query.len() > 46);
    // The row the query box's text lands on: the menu bar, then the box's top border.
    let query_row = 2;
    let text_at = |app: &mut App| {
        let buffer = drawn(app, 48, 12, false);
        // The caret is the reversed cell, reported as its column within the row.
        let caret = (0..buffer.area.width)
            .find(|x| buffer[(*x, query_row)].style().add_modifier.contains(Modifier::REVERSED));
        (row(&buffer, query_row), caret)
    };

    let mut app = App::new(0);
    app.at.route = Route::Metrics;
    app.mode = Mode::Editing;
    app.set_active_query(query.to_owned());

    // Caret at the end: the box shows the tail of the query with the caret on the last column inside
    // the border.
    let (shown, caret) = text_at(&mut app);
    assert!(shown.contains("method=\"POST\"}"), "query row: {shown:?}");
    assert!(!shown.contains("http_requests_total"), "query row: {shown:?}");
    assert_eq!(caret, Some(46), "the caret sits just inside the right border");
    assert_eq!(caret_column(&app, &Glyphs::new(false)) as usize, query.len());

    // Walking the caret back to the start scrolls the window back with it.
    let mut field = app.query_field();
    handle_edit_key(&mut field, KeyEvent::plain(KeyCode::Home));
    app.set_query_field(field);
    let (shown, caret) = text_at(&mut app);
    assert!(shown.contains("http_requests_total"), "query row: {shown:?}");
    assert_eq!(caret, Some(1), "the caret sits just inside the left border");

    // A query that fits is never scrolled.
    app.set_active_query("up".to_owned());
    let (shown, caret) = text_at(&mut app);
    assert!(shown.starts_with("│up"), "query row: {shown:?}");
    assert_eq!(caret, Some(3));
}

#[test]
fn mascot_overlay_renders_at_its_resting_position() {
    let area = Rect::new(0, 0, 40, 12);
    let (x, y) = resting_place(area);
    let pane = draw_mascot(-1, 0, area, x as i64, y as i64).expect("there is room");
    let buffer = painted(40, 12, &[pane], false);
    let symbol = |x: u16, y: u16| buffer[(x, y)].symbol().to_owned();

    // At rest x = 31 and y = 7, so the 8-wide middle art row sits at y=8, spanning columns 31..=38
    // with a one-column right margin.
    assert!(row(&buffer, 8).contains("▄█▄"), "middle art row expected at y=8, got {:?}", row(&buffer, 8));
    assert_ne!(symbol(31, 8), " "); // left edge of the 8-wide art
    assert_ne!(symbol(38, 8), " "); // flush right
    assert_eq!(symbol(39, 8), " "); // one-column right margin
    // The bottom two rows (where the status/hint bar lives) stay clear beneath the mascot.
    assert_eq!(symbol(38, 10), " ");
    assert_eq!(symbol(38, 11), " ");
}

#[test]
fn mascot_overlay_is_skipped_on_a_tiny_terminal() {
    // Too short to fit the 3 art rows above the 2-row status bar: nothing is drawn.
    assert!(draw_mascot(-1, 0, Rect::new(0, 0, 40, 5), 0, 0).is_none());
}

#[test]
fn the_mascot_is_kept_on_screen() {
    let pane = draw_mascot(1, 0, Rect::new(0, 0, 40, 12), 1_000, -50).expect("there is room");
    assert_eq!((pane.area.x, pane.area.y), (32, 0));
    assert!(pane.clear);
}

#[test]
fn tiny_terminal_shows_a_resize_prompt_and_a_full_one_does_not() {
    // Below the minimum: the resize prompt, and none of the normal chrome.
    let tiny = text(&drawn(&mut App::new(0), 20, 6, false));
    assert!(tiny.contains("too small"), "tiny render: {tiny:?}");
    assert!(tiny.contains("40x10"));
    // A comfortable terminal renders the real UI, never the prompt.
    let full = text(&drawn(&mut App::new(0), 80, 24, false));
    assert!(!full.contains("too small"), "full render leaked the prompt");
}

#[test]
fn metric_detail_with_no_points_renders_without_panicking() {
    let mut app = App::new(0);
    app.at.route = metric_detail(&[]);
    app.at.metric_cursor = 5; // stale cursor from a previously non-empty window
    let shown = text(&drawn(&mut app, 80, 24, false));
    assert!(shown.contains("no samples in this window"), "{shown:?}");
}

#[test]
fn a_metric_detail_reads_out_its_figures() {
    let mut app = App::new(0);
    app.at.route = metric_detail(&[(0, 1.0), (1_000_000_000, f64::NAN), (2_000_000_000, 3.0)]);
    let shown = text(&drawn(&mut app, 100, 24, true));
    assert!(shown.contains("cursor [1/3] 1970-01-01 00:00:00  =  1"), "{shown}");
    assert!(shown.contains("min 1") && shown.contains("avg 2") && shown.contains("3 pts"), "{shown}");
    assert!(shown.contains("#"), "the plain chart");
    if let Route::MetricDetail { detail } = &app.at.route {
        assert_eq!(finite_points(&detail.points), 2);
    }
}

#[test]
fn trace_detail_waterfall_scrolls_to_keep_the_span_cursor_visible() {
    let mut app = App::new(0);
    app.at.route = Route::TraceDetail { detail: flat_trace(40) };

    // At the top the first span shows and the last is far below the fold.
    let top = text(&drawn(&mut app, 80, 14, true));
    assert!(top.contains("span-0"), "{top}");
    assert!(!top.contains("span-39"), "{top}");

    // With the cursor on the last span the list has scrolled it into view.
    app.at.span_cursor = 39;
    let bottom = text(&drawn(&mut app, 80, 14, true));
    assert!(bottom.contains("span-39"), "{bottom}");
    assert!(bottom.contains("[40/40"), "row counter: {bottom}");
}

#[test]
fn a_failed_span_stands_out() {
    let mut trace = TraceDetail { trace_id: "t".into(), ..trace_parts() };
    let mut failed = SpanRecord { status_code: "ERROR".into(), ..span_parts() };
    failed.name = "bad".into();
    trace.spans = vec![span(1, None, "good", 0, 1), Arc::new(failed)];
    let mut app = App::new(0);
    app.at.route = Route::TraceDetail { detail: Arc::new(trace) };
    let frame = draw(&mut app, &moment(80, 24, true), &figures());
    let looks: Vec<Option<Color>> = frame
        .panes
        .iter()
        .find_map(|pane| match &pane.body {
            Body::Waterfall { looks, .. } => Some(looks.iter().map(|l| l.fg).collect()),
            _ => None,
        })
        .expect("a waterfall");
    assert_eq!(looks, [None, Some(Color::Red)]);
}

fn trace_parts() -> TraceDetail {
    TraceDetail {
        trace_id: String::new(),
        root_service: None,
        root_name: None,
        start_time_ns: 0,
        duration_ns: 2,
        spans: Vec::new(),
    }
}

fn span_parts() -> SpanRecord {
    SpanRecord {
        name: String::new(),
        service: None,
        kind: "internal".into(),
        span_id: "02".repeat(8),
        parent_span_id: None,
        status_code: "OK".into(),
        status_message: None,
        malformed: false,
        start_time_ns: 0,
        offset_ns: 0,
        duration_ns: 1,
        attributes: Vec::new(),
        resource: Vec::new(),
        scope: Vec::new(),
        events: None,
        links: None,
    }
}

// ── the layout ──────────────────────────────────────────────────────────────────────────────────

#[test]
fn the_rows_of_a_frame_fill_its_height() {
    let mut app = App::new(0);
    app.at.route = Route::Logs;
    app.snapshot.lines = vec!["header".into(), "row".into()];
    app.snapshot.list_from = Some(1);
    let frame = draw(&mut app, &moment(80, 24, false), &figures());
    let areas = frame.areas.expect("the terminal is large enough");
    assert_eq!(areas.outer.rows, [Rect::new(0, 0, 80, 1), Rect::new(0, 1, 80, 23)]);
    assert_eq!(
        areas.rows.rows,
        [Rect::new(0, 1, 80, 3), Rect::new(0, 4, 80, 18), Rect::new(0, 22, 80, 2)],
        "the query box, the results and the legend"
    );
    assert!(areas.chart.is_none() && areas.halves.is_none());
    assert_eq!(app.frame.page_rows, 16, "what the results pane shows");
}

#[test]
fn a_result_with_values_has_a_chart_above_it() {
    let mut app = App::new(0);
    app.at.route = Route::Logs;
    app.snapshot.chart = vec![1, 2, 3];
    app.snapshot.list_from = Some(0);
    let plain = text(&drawn(&mut app, 80, 24, true));
    assert!(plain.contains("Series"), "{plain}");
    let frame = draw(&mut app, &moment(80, 24, false), &figures());
    assert!(frame.panes.iter().any(|p| matches!(&p.body, Body::Spark { values } if *values == [1, 2, 3])));
    assert_eq!(frame.areas.expect("areas").chart.expect("a chart").rows[0].height, 6);
}

#[test]
fn an_attribute_pane_lights_up_the_half_that_has_the_focus() {
    let mut app = App::new(0);
    let mut snapshot = Snapshot::message("Database overview", "");
    snapshot.lines = vec!["buffer: 0 bytes".into()];
    snapshot.detail = Some(Arc::new(DetailPane {
        title: "Attributes".into(),
        lines: vec!["range: all sealed segments".into()],
        waterfall: None,
        table: None,
        style: DetailStyle::Pane,
    }));
    app.snapshot = snapshot;
    app.focus = Focus::AttrRange;
    let shown = text(&drawn(&mut app, 80, 24, true));
    assert!(shown.contains("enter: change the range"), "{shown}");
    assert_eq!(app.frame.attr_area.height, 1, "the range form drops from the range line");
    app.focus = Focus::Primary;
    assert!(!text(&drawn(&mut app, 80, 24, true)).contains("change the range"));
}

// ── overlays ────────────────────────────────────────────────────────────────────────────────────

/// `(rendered text, the character under the caret)`.
fn rendered(spans: &[Span]) -> (String, String) {
    let caret = spans.iter().filter(|span| span.style.reversed).map(|span| span.text.as_str()).collect::<String>();
    (spans_text(spans), caret)
}

#[test]
fn a_field_marks_the_character_under_its_caret() {
    let style = Style::plain();
    // Mid-field: the value is reproduced verbatim with one character reversed.
    let (text, caret) = rendered(&caret_spans("2026-07-21", 5, 40, style));
    assert_eq!(text, "2026-07-21");
    assert_eq!(caret, "0", "the month's leading digit, at byte 5");
    // At the end there is nothing to reverse, so the caret is an appended block.
    let (text, caret) = rendered(&caret_spans("2026", 4, 40, style));
    assert_eq!((text.as_str(), caret.as_str()), ("2026 ", " "));
    // An empty field is just the caret.
    assert_eq!(rendered(&caret_spans("", 0, 40, style)).1, " ");
}

#[test]
fn a_field_longer_than_the_popup_scrolls_to_keep_its_caret_visible() {
    let style = Style::plain();
    // Ten columns of room for a 19-character datetime: with the caret at the end, the window shows
    // the tail and the caret's own cell.
    let (text, caret) = rendered(&caret_spans("2026-07-21 15:00:00", 19, 10, style));
    assert_eq!(text, " 15:00:00 ", "the tail, ending in the caret block");
    assert_eq!(caret, " ");
    assert!(text.width() <= 10);
    // Back at the start, the window follows the caret home.
    let (text, caret) = rendered(&caret_spans("2026-07-21 15:00:00", 0, 10, style));
    assert_eq!(text, "2026-07-21");
    assert_eq!(caret, "2");
}

#[test]
fn the_banner_says_what_is_happening_and_for_how_long_and_no_more() {
    let g = Glyphs::new(false);
    let text = loading_banner_text(4_000_000_000, &g);
    assert!(text.contains("Loading"), "{text}");
    assert!(text.contains("4s"), "{text}");
    // No keyboard hint: the footer already lists `q quit` on every frame, so spelling the lock out
    // here would repeat what the user has already read at the bottom of the screen.
    assert!(!text.contains("paused"), "{text}");
    assert!(!text.contains('q'), "{text}");
}

#[test]
fn the_spinner_turns_as_the_wait_goes_on() {
    let g = Glyphs::new(false);
    // The glyph alone: the rest of the line carries the elapsed seconds, which of course differ.
    let at = |ns: u64| loading_banner_text(ns, &g).chars().next().expect("the spinner leads the line").to_string();
    assert_ne!(at(0), at(SPINNER_FRAME));
    let cycle = SPINNER_FRAME * g.spinner_frames() as u64;
    assert_eq!(at(0), at(cycle), "one full turn returns to the first frame");
}

#[test]
fn the_ascii_banner_stays_ascii() {
    // `--ascii` promises no Unicode anywhere in the chrome, and the banner is chrome.
    let text = loading_banner_text(3_000_000_000, &Glyphs::new(true));
    assert!(text.is_ascii(), "{text}");
}

#[test]
fn overlays_stay_on_screen() {
    let area = Rect::new(0, 0, 40, 10);
    let inside = |pane: &Pane| pane.area.right() <= area.right() && pane.area.bottom() <= area.bottom();
    let g = Glyphs::new(false);
    assert!(inside(&draw_loading_banner(1, area, &g)));
    assert!(inside(&draw_time_range_picker(&App::new(0), Rect::new(35, 0, 5, 1), area, &g)));
    let completion = Completion {
        candidates: vec![Candidate { text: "x".repeat(80), kind: CandidateKind::Metric }],
        selected: 0,
    };
    assert!(inside(&draw_completion_popup(&completion, Rect::new(0, 1, 40, 3), area)));
}

#[test]
fn the_last_column_takes_what_is_left() {
    let names = vec!["A".to_owned(), "B".to_owned()];
    let rows = vec![vec!["x".repeat(80), "y".to_owned()]];
    assert_eq!(column_constraints(&names, &rows), [Extent::Length(48), Extent::Min(6)]);
}

#[test]
fn a_small_terminal_is_told_the_size_it_needs() {
    let pane = draw_too_small(Rect::new(0, 0, 30, 8));
    let lines = match pane.body {
        Body::Lines { lines, .. } => lines,
        _ => panic!("the prompt is made of lines"),
    };
    let text: Vec<String> = lines.iter().map(|l| l.iter().map(|s| s.text.clone()).collect()).collect();
    assert_eq!(text, ["Terminal too small", "Resize to at least 40x10", "(now 30x8)"]);
    assert!(text.iter().all(|l| l.is_ascii()));
}

/// The rows of a vertical layout, as first row and height.
fn rows_of(y: u16, height: u16, extents: &[Constraint]) -> Vec<(u16, u16)> {
    let area = ratatui::layout::Rect { x: 3, y, width: 7, height };
    Layout::vertical(extents.iter().copied()).split(area).iter().map(|r| (r.y, r.height)).collect()
}

#[test]
fn rows_share_out_the_height() {
    let (length, least, part) = (Constraint::Length, Constraint::Min, Constraint::Percentage);
    let layouts = [
        vec![length(1), least(0)],
        vec![length(3), least(4), length(2)],
        vec![least(4), length(2)],
        vec![length(3), least(5), length(4)],
        vec![length(3), least(3), length(2)],
        vec![length(3), least(3), length(7), length(2)],
        vec![length(6), least(3)],
        vec![length(40), least(3)],
        vec![length(0), least(1)],
        vec![least(2), length(5), least(7), length(1)],
    ];
    let asked = |c: &Constraint| match *c {
        Constraint::Length(k) | Constraint::Min(k) => k,
        _ => 0,
    };
    for y in [0, 17] {
        for height in 0..=45 {
            for extents in &layouts {
                let rows = rows_of(y, height, extents);
                let all: u16 = extents.iter().map(asked).sum();
                let minima: u16 = extents.iter().filter(|c| matches!(c, Constraint::Min(_))).map(asked).sum();
                assert_eq!(rows[0].0, y);
                assert!(rows.windows(2).all(|w| w[0].0 + w[0].1 == w[1].0), "{extents:?} {height}: {rows:?}");
                assert_eq!(rows[rows.len() - 1].0 + rows[rows.len() - 1].1, y + height, "{extents:?} {height}");
                for (row, extent) in rows.iter().zip(extents) {
                    match *extent {
                        Constraint::Length(k) if all <= height => assert_eq!(row.1, k, "{extents:?} {height}"),
                        Constraint::Min(k) if all <= height => assert!(row.1 >= k, "{extents:?} {height}"),
                        Constraint::Length(k) if minima <= height => assert!(row.1 <= k, "{extents:?} {height}"),
                        Constraint::Min(k) if minima <= height => assert_eq!(row.1, k, "{extents:?} {height}"),
                        _ => {}
                    }
                }
            }
            for p in [0, 1, 33, 45, 50, 55, 67, 99, 100u16] {
                let rows = rows_of(y, height, &[part(p), part(100 - p)]);
                let top = (p * height + 50) / 100;
                assert_eq!(rows, [(y, top), (y + top, height - top)], "{p} of {height}");
            }
        }
    }
}

#[test]
fn the_panes_of_a_list_follow_one_another() {
    let mut app = App::new(0);
    app.at.route = Route::Metrics;
    let frame = draw(&mut app, &moment(48, 12, false), &figures());
    let areas: Vec<Rect> = frame.panes.iter().take(4).map(|p| p.area).collect();
    let rows: Vec<(u16, u16)> = areas.iter().map(|r| (r.y, r.height)).collect();
    assert_eq!(rows, [(0, 1), (1, 3), (4, 6), (10, 2)]);
    assert!(areas.iter().all(|r| r.x == 0 && r.width == 48));
}

#[test]
fn scrolled_off_ancestors_are_pinned_above_the_waterfall() {
    let mut app = App::new(0);
    app.at.route = Route::TraceDetail { detail: nested_trace() };
    app.at.span_cursor = 17;
    let shown = drawn(&mut app, 80, 16, true);
    assert!(row(&shown, 5).contains("zz-root"), "{}", text(&shown));
    assert!(row(&shown, 6).contains("yy-mid"), "{}", text(&shown));
    assert!(text(&shown).contains("work-15"), "{}", text(&shown));
    app.trace.sticky_waterfall = false;
    let shown = text(&drawn(&mut app, 80, 16, true));
    assert!(!shown.contains("zz-root") && !shown.contains("yy-mid"), "{shown}");
    // Nothing is pinned while nothing is scrolled off.
    app.trace.sticky_waterfall = true;
    app.at.span_cursor = 0;
    assert!(row(&drawn(&mut app, 80, 16, true), 5).contains("zz-root"));
}

#[test]
fn the_attribute_form_says_what_empty_fields_mean() {
    let mut app = App::new(0);
    app.mode = Mode::AbsoluteRange;
    app.range.abs_target = AbsTarget::Attributes;
    let shown = text(&drawn(&mut app, 100, 24, true));
    assert!(shown.contains("empty: all"), "{shown}");
}
