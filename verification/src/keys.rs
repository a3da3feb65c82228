//! Key handling: what each key does in each mode, on each view.

use vstd::prelude::*;

use crate::app::{App, AppView, AttributeView, LoadView, MascotView, TimeView, TraceView, VocabularyView};
use crate::app;
use crate::completion::CompletionView;
use crate::completion;
use crate::geometry;
use crate::input::{KeyCode, KeyEvent};
use crate::model;
use crate::model::{
    CorrelationView, Focus, LogCorrelation, Mode, NavView, Refresh, Route, RouteView, Screen, Snapshot,
    TIME_RANGES_LEN,
};
use crate::tasks;
use crate::tasks::{Env, Request, RequestView, Step};
use crate::text;
use crate::textfield;
use crate::textfield::FieldView;

verus! {

/// Whether the session goes on after a key.
#[derive(Debug, Clone, Copy, PartialEq, Eq, Structural)]
pub enum Control {
    Continue,
    Quit,
}

/// A person's refresh.
pub open spec fn refresh(a: AppView, env: Env) -> Step {
    tasks::refresh_step(a, Refresh::Interactive, env)
}

/// The scroll position after `delta` rows, where there is no list to move in. A move of more rows
/// than a screen may have counts modulo the screen's limit.
pub open spec fn scrolled(scroll: u16, delta: int, max_scroll: u16) -> int {
    if delta >= 0 {
        geometry::min(scroll + delta % 0x1_0000, max_scroll as int)
    } else {
        geometry::monus(scroll as int, (-delta) % 0x1_0000)
    }
}

impl AppView {
    /// The state scrolled to another row.
    pub open spec fn scroll_to(self, scroll: int) -> AppView {
        AppView { at: NavView { scroll: scroll as u16, ..self.at }, ..self }
    }

    /// The state with the row cursor moved by `delta` rows, or the pane scrolled where it is no
    /// list. The trace focus of a jump is released.
    pub open spec fn move_selection(self, delta: int) -> AppView {
        let a = self.clear_trace_focus();
        match a.effective_focus() {
            Focus::AttrTable(_) => match a.move_key(delta) {
                Some(b) => b,
                None => a,
            },
            _ => match a.selectable() {
                Some((first, last)) => {
                    let current = geometry::clamp(a.at.selected as int, first as int, last as int);
                    a.select(geometry::clamp(current + delta, first as int, last as int) as usize)
                },
                None => a.scroll_to(scrolled(a.at.scroll, delta, a.frame.max_scroll)),
            },
        }
    }

    /// The state with the cursor on the first row, or scrolled to the top.
    pub open spec fn select_first(self) -> AppView {
        let a = self.clear_trace_focus();
        match a.selectable() {
            Some((first, _)) => a.select(first),
            None => a.scroll_to(0),
        }
    }

    /// The state with the cursor on the last row, or scrolled to the bottom.
    pub open spec fn select_last(self) -> AppView {
        let a = self.clear_trace_focus();
        match a.selectable() {
            Some((_, last)) => a.select(last),
            None => a.scroll_to(a.frame.max_scroll as int),
        }
    }

    /// The state with the mascot shown or hidden. Its clock starts anew where it is shown.
    pub open spec fn toggle_mascot(self, now: u64) -> AppView {
        AppView {
            mascot: MascotView {
                show_mascot: !self.mascot.show_mascot,
                last_tick: if self.mascot.show_mascot { self.mascot.last_tick } else { now },
                ..self.mascot
            },
            ..self
        }
    }

    /// The state with the range picker open, on the window in effect.
    pub open spec fn open_time_range(self) -> AppView {
        AppView {
            range: TimeView {
                range_cursor: if self.range.abs_window is Some { TIME_RANGES_LEN } else { self.range.range_index },
                ..self.range
            },
            focus: Focus::TimeRange,
            mode: Mode::TimeRange,
            ..self
        }
    }

    /// The state on another screen's list, before its result has landed.
    pub open spec fn on_screen(self, screen: Screen) -> AppView {
        AppView {
            at: NavView {
                route: model::list_route(screen),
                scroll: 0,
                selected: 0,
                span_cursor: 0,
                focus_trace_id: if screen == Screen::Traces { self.at.focus_trace_id } else { None },
                log_correlation: if screen == Screen::Logs { self.at.log_correlation } else { None },
                ..self.at
            },
            words: VocabularyView { completion: None, ..self.words },
            focus: Focus::Primary,
            trace: TraceView {
                pending_trace_open: false,
                focus_trace_open: screen == Screen::Traces && self.trace.focus_trace_open,
                ..self.trace
            },
            metric_exemplars: Seq::empty(),
            snapshot: model::message_view(title_of(screen), "Loading..."@),
            ..self
        }
    }

    /// The state in the query editor, the caret at the end.
    pub open spec fn in_editor(self) -> AppView {
        AppView {
            mode: Mode::Editing,
            focus: Focus::Query,
            query_cursor: text::byte_len(self.active_query()) as usize,
            ..self
        }
    }

    /// The state out of the editor.
    pub open spec fn out_of_editor(self) -> AppView {
        AppView { mode: Mode::Normal, words: VocabularyView { completion: None, ..self.words }, ..self }
    }

    /// The state in another mode.
    pub open spec fn in_mode(self, mode: Mode) -> AppView {
        AppView { mode, ..self }
    }

    /// The state with the highlight of the popup moved down or up.
    pub open spec fn highlight(self, down: bool) -> AppView {
        match self.words.completion {
            Some(c) => self.with_popup(
                Some(
                    CompletionView {
                        selected: if down {
                            geometry::min(c.selected + 1, c.candidates.len() - 1) as usize
                        } else {
                            geometry::monus(c.selected as int, 1) as usize
                        },
                        ..c
                    },
                ),
            ),
            None => self,
        }
    }

    /// The state with the query edited by a key of the text field.
    pub open spec fn edit_query(self, key: KeyEvent) -> Option<AppView> {
        let field = FieldView { text: self.active_query(), at: self.caret() };
        match textfield::edited(field, key) {
            Some(g) => Some(
                AppView {
                    query_cursor: textfield::caret_after(field, self.query_cursor, key) as usize,
                    ..self.with_query(g.text)
                },
            ),
            None => None,
        }
    }

    /// The state with the focused field of the form edited by a key of the text field.
    pub open spec fn edit_form(self, key: KeyEvent) -> AppView {
        let text = self.range.abs_text();
        let field = FieldView { text, at: textfield::before(text, self.range.abs_cursor as int) as int };
        match textfield::edited(field, key) {
            Some(g) => AppView {
                range: self.range.edit(
                    g.text,
                    textfield::caret_after(field, self.range.abs_cursor, key) as usize,
                ),
                ..self
            },
            None => self,
        }
    }

    /// The state with the range picker's highlight on another row.
    pub open spec fn pick(self, row: int) -> AppView {
        AppView { range: TimeView { range_cursor: row as usize, ..self.range }, ..self }
    }

    /// The state with the series chart's cursor on another point.
    pub open spec fn chart_to(self, point: int) -> AppView {
        AppView { at: NavView { metric_cursor: point as usize, ..self.at }, ..self }
    }

    /// The state about to jump to a trace.
    pub open spec fn jumping(self, trace_id: Seq<char>) -> AppView {
        let left = self.push_history();
        AppView {
            at: NavView { focus_trace_id: Some(trace_id), ..left.at },
            trace: TraceView { focus_trace_open: true, ..left.trace },
            ..left
        }
    }

    /// The state about to drill down to the logs of a trace or span.
    pub open spec fn drilling(self, correlation: CorrelationView) -> AppView {
        let left = self.push_history();
        AppView { at: NavView { log_correlation: Some(correlation), ..left.at }, ..left }
    }

    /// Whether the focus is on the menu bar.
    pub open spec fn on_bar(self) -> bool {
        match self.effective_focus() {
            Focus::Menu(_) => true,
            Focus::TimeRange => true,
            _ => false,
        }
    }
}

/// The name of a screen.
pub open spec fn title_of(screen: Screen) -> Seq<char> {
    match screen {
        Screen::Overview => "Overview"@,
        Screen::Metrics => "Metrics"@,
        Screen::Traces => "Traces"@,
        Screen::Logs => "Logs"@,
    }
}

/// Asking for the metric names, where the screen completes against them and they are not known.
pub open spec fn vocabulary_step(a: AppView) -> Step {
    if a.screen() == Screen::Metrics && a.words.metric_names.len() == 0 {
        tasks::asking(a, RequestView::Vocabulary)
    } else {
        tasks::quiet(a)
    }
}

/// Switching to a screen's list.
#[verifier::opaque]
pub open spec fn switch_step(a: AppView, screen: Screen, env: Env) -> Step {
    let b = a.on_screen(screen);
    vocabulary_step(b).and(refresh(b, env))
}

/// Switching to a screen as a navigation, recorded unless the screen is the current one.
#[verifier::opaque]
pub open spec fn navigate_step(a: AppView, screen: Screen, env: Env) -> Step {
    switch_step(if a.screen() != screen { a.push_history() } else { a }, screen, env)
}

/// Starting to edit the query.
#[verifier::opaque]
pub open spec fn edit_step(a: AppView) -> Step {
    let b = a.in_editor();
    vocabulary_step(b).and(tasks::quiet(b.refresh_popup()))
}

/// Drilling down from a span to its logs.
#[verifier::opaque]
pub open spec fn span_logs_step(a: AppView, env: Env) -> Step {
    match a.span_correlation() {
        Some(correlation) => switch_step(a.drilling(correlation), Screen::Logs, env),
        None => tasks::quiet(a),
    }
}

/// Jumping to a trace's detail.
#[verifier::opaque]
pub open spec fn jump_step(a: AppView, trace_id: Seq<char>, env: Env) -> Step {
    switch_step(a.jumping(trace_id), Screen::Traces, env)
}

/// What a refused promotion says.
pub open spec fn read_only_text() -> Seq<char> {
    "promotion changes what the writer writes, and this session opened the database read-only. Point the explorer at the daemon that owns it (`imbh-tui --url http://host:4318`) to change the promoted keys."@
}

/// The promoted keys with one key promoted, or demoted where it is promoted.
pub open spec fn flip(keys: Seq<Seq<char>>, key: Seq<char>, i: int) -> Seq<Seq<char>>
    decreases keys.len() - i,
{
    if !(0 <= i < keys.len()) {
        keys.push(key)
    } else if keys[i] == key {
        keys.remove(i)
    } else {
        flip(keys, key, i + 1)
    }
}

/// Promoting or demoting the attribute key under the cursor.
#[verifier::opaque]
pub open spec fn promotion_step(a: AppView) -> Step {
    match a.attr_key_at_cursor() {
        Some(key) => if !a.attrs.can_promote {
            tasks::quiet(AppView { load: LoadView { last_error: Some(read_only_text()), ..a.load }, ..a })
        } else {
            tasks::asking(a, RequestView::Promotion(flip(a.attrs.promoted, key, 0)))
        },
        None => tasks::quiet(a),
    }
}

/// The scroll keys of a full-screen text.
#[verifier::opaque]
pub open spec fn scroll_key(a: AppView, code: KeyCode) -> Option<AppView> {
    let scroll = a.at.scroll as int;
    let max = a.frame.max_scroll as int;
    let page = a.frame.page_rows as int;
    match code {
        KeyCode::Down => Some(a.scroll_to(geometry::min(scroll + 1, max))),
        KeyCode::Up => Some(a.scroll_to(geometry::monus(scroll, 1))),
        KeyCode::PageDown => Some(a.scroll_to(geometry::min(scroll + page, max))),
        KeyCode::PageUp => Some(a.scroll_to(geometry::monus(scroll, page))),
        KeyCode::Home => Some(a.scroll_to(0)),
        KeyCode::End => Some(a.scroll_to(max)),
        _ => None,
    }
}

/// The keys of a trace's detail.
#[verifier::opaque]
pub open spec fn trace_key(a: AppView, count: int, key: KeyEvent, env: Env) -> Option<Step> {
    let page = geometry::max(a.frame.page_rows as int, 1);
    match key.code {
        KeyCode::Down => Some(tasks::quiet(a.move_span_cursor(1))),
        KeyCode::Up => Some(tasks::quiet(a.move_span_cursor(-1))),
        KeyCode::PageDown => Some(tasks::quiet(a.move_span_cursor(page))),
        KeyCode::PageUp => Some(tasks::quiet(a.move_span_cursor(-page))),
        KeyCode::Home => Some(tasks::quiet(AppView { at: NavView { span_cursor: 0, ..a.at }, ..a })),
        KeyCode::End => Some(
            tasks::quiet(
                AppView { at: NavView { span_cursor: geometry::monus(count, 1) as usize, ..a.at }, ..a },
            ),
        ),
        KeyCode::Enter => Some(
            match a.open_span_detail() {
                Some(b) => tasks::quiet(b),
                None => tasks::quiet(a),
            },
        ),
        KeyCode::Char(c) => if c == 'L' {
            Some(span_logs_step(a, env))
        } else if c == 's' {
            Some(
                tasks::quiet(
                    AppView { trace: TraceView { sticky_waterfall: !a.trace.sticky_waterfall, ..a.trace }, ..a },
                ),
            )
        } else {
            None
        },
        _ => None,
    }
}

/// The keys of a span's detail.
#[verifier::opaque]
pub open spec fn span_key(a: AppView, key: KeyEvent, env: Env) -> Option<Step> {
    match key.code {
        KeyCode::Enter => Some(span_logs_step(a, env)),
        KeyCode::Char(c) => if c == 'L' { Some(span_logs_step(a, env)) } else { None },
        _ => match scroll_key(a, key.code) {
            Some(b) => Some(tasks::quiet(b)),
            None => None,
        },
    }
}

/// The keys of a log's detail.
#[verifier::opaque]
pub open spec fn log_key(a: AppView, trace_id: Option<Seq<char>>, key: KeyEvent, env: Env) -> Option<Step> {
    match key.code {
        KeyCode::Enter => Some(
            match trace_id {
                Some(id) => jump_step(a, id, env),
                None => tasks::quiet(a),
            },
        ),
        _ => match scroll_key(a, key.code) {
            Some(b) => Some(tasks::quiet(b)),
            None => None,
        },
    }
}

/// The keys of a series' detail.
#[verifier::opaque]
pub open spec fn metric_key(a: AppView, count: int, key: KeyEvent, env: Env) -> Option<Step> {
    let last = geometry::monus(count, 1);
    let at = a.at.metric_cursor as int;
    let page = geometry::max(a.frame.page_rows as int, 1);
    let left = a.chart_to(geometry::monus(at, 1));
    let right = a.chart_to(geometry::min(at + 1, last));
    match key.code {
        KeyCode::Char(c) => if c == 'h' {
            Some(tasks::quiet(left))
        } else if c == 'l' {
            Some(tasks::quiet(right))
        } else {
            None
        },
        KeyCode::Left => if key.shift { Some(tasks::quiet(left)) } else { None },
        KeyCode::Right => if key.shift { Some(tasks::quiet(right)) } else { None },
        KeyCode::PageUp => Some(tasks::quiet(a.chart_to(geometry::monus(at, page)))),
        KeyCode::PageDown => Some(tasks::quiet(a.chart_to(geometry::min(at + page, last)))),
        KeyCode::Home => Some(tasks::quiet(a.chart_to(0))),
        KeyCode::End => Some(tasks::quiet(a.chart_to(last))),
        KeyCode::Up => Some(tasks::quiet(a)),
        KeyCode::Down => Some(tasks::quiet(a)),
        KeyCode::Enter => match a.nearest_exemplar() {
            Some(trace_id) => Some(jump_step(a, trace_id, env)),
            None => None,
        },
        _ => None,
    }
}

/// What a key does on a detail view, where it is one of that view's own.
#[verifier::opaque]
pub open spec fn detail_step(a: AppView, key: KeyEvent, env: Env) -> Option<Step> {
    match a.at.route {
        RouteView::TraceDetail { detail } => trace_key(a, detail.spans@.len() as int, key, env),
        RouteView::SpanDetail { .. } => span_key(a, key, env),
        RouteView::LogDetail { record } => log_key(a, text::opt(record.trace_id), key, env),
        RouteView::MetricDetail { points, .. } => metric_key(a, points.len() as int, key, env),
        _ => None,
    }
}

/// What a key does in the query editor.
#[verifier::opaque]
pub open spec fn editing_step(a: AppView, key: KeyEvent, env: Env) -> Step {
    match key.code {
        KeyCode::Esc => tasks::quiet(a.out_of_editor()),
        KeyCode::Enter => {
            let b = a.out_of_editor().at_top();
            refresh(
                AppView {
                    at: NavView {
                        log_correlation: if b.screen() == Screen::Logs { None } else { b.at.log_correlation },
                        ..b.at
                    },
                    focus: Focus::Primary,
                    ..b
                },
                env,
            )
        },
        KeyCode::Tab => tasks::discover_step(a.accept(), env),
        KeyCode::Down => tasks::quiet(a.highlight(true)),
        KeyCode::Up => tasks::quiet(a.highlight(false)),
        _ => match a.edit_query(key) {
            Some(b) => tasks::discover_step(b.refresh_popup(), env),
            None => tasks::quiet(a),
        },
    }
}

/// Committing the highlighted row of the range picker.
#[verifier::opaque]
pub open spec fn pick_step(a: AppView, env: Env) -> Step {
    if a.range.range_cursor == TIME_RANGES_LEN {
        tasks::quiet(a.open_absolute_form(env.wall_ns))
    } else {
        let changed = a.range.range_cursor != a.range.range_index || a.range.abs_window is Some;
        let b = AppView {
            mode: Mode::Normal,
            range: TimeView { range_index: a.range.range_cursor, abs_window: None, ..a.range },
            ..a
        };
        if changed { refresh(b.at_top(), env) } else { tasks::quiet(b) }
    }
}

/// What a key does in the range picker.
#[verifier::opaque]
pub open spec fn range_step(a: AppView, key: KeyEvent, env: Env) -> Step {
    let up = a.pick(geometry::monus(a.range.range_cursor as int, 1));
    let down = a.pick(geometry::min(a.range.range_cursor + 1, TIME_RANGES_LEN as int));
    match key.code {
        KeyCode::Esc => tasks::quiet(a.in_mode(Mode::Normal)),
        KeyCode::Up => tasks::quiet(up),
        KeyCode::Down => tasks::quiet(down),
        KeyCode::Char(c) => if c == 'k' {
            tasks::quiet(up)
        } else if c == 'j' {
            tasks::quiet(down)
        } else {
            tasks::quiet(a)
        },
        KeyCode::Enter => pick_step(a, env),
        _ => tasks::quiet(a),
    }
}

/// What a key does in the absolute-range form.
#[verifier::opaque]
pub open spec fn form_step(a: AppView, key: KeyEvent, env: Env) -> Step {
    match key.code {
        KeyCode::Esc => tasks::quiet(a.in_mode(Mode::Normal)),
        KeyCode::Tab => tasks::quiet(
            AppView { range: a.range.focus(if a.range.abs_field == 0 { 1 } else { 0 }), ..a },
        ),
        KeyCode::Up => tasks::quiet(AppView { range: a.range.focus(0), ..a }),
        KeyCode::Down => tasks::quiet(AppView { range: a.range.focus(1), ..a }),
        KeyCode::Enter => if a.range.read_form() is Ok {
            refresh(a.commit_absolute(), env)
        } else {
            tasks::quiet(a.commit_absolute())
        },
        _ => tasks::quiet(a.edit_form(key)),
    }
}

/// What a key does on the menu bar.
#[verifier::opaque]
pub open spec fn menu_step(a: AppView, key: KeyEvent, env: Env) -> Step {
    match key.code {
        KeyCode::Esc => tasks::quiet(a.in_mode(Mode::Normal)),
        KeyCode::F(n) => if n == 9 { tasks::quiet(a.in_mode(Mode::Normal)) } else { tasks::quiet(a) },
        KeyCode::Left => tasks::quiet(a.menu_move(-1)),
        KeyCode::BackTab => tasks::quiet(a.menu_move(-1)),
        KeyCode::Right => tasks::quiet(a.menu_move(1)),
        KeyCode::Tab => tasks::quiet(a.menu_move(1)),
        KeyCode::Char(c) => if c == 'h' {
            tasks::quiet(a.menu_move(-1))
        } else if c == 'l' {
            tasks::quiet(a.menu_move(1))
        } else {
            tasks::quiet(a)
        },
        KeyCode::Enter => match model::screen_at(a.menu_cursor as int) {
            Some(screen) => navigate_step(a.in_mode(Mode::Normal), screen, env),
            None => tasks::quiet(a.open_time_range()),
        },
        _ => tasks::quiet(a),
    }
}

/// A move through the history or up the series, which reloads the view it leads to.
#[verifier::opaque]
pub open spec fn moved_step(moved: Option<AppView>, a: AppView, env: Env) -> Step {
    match moved {
        Some(b) => {
            let first = refresh(b, env);
            first.and(tasks::exemplars_step(first.app))
        },
        None => tasks::quiet(a),
    }
}

/// A change that reloads the view, where there was one.
#[verifier::opaque]
pub open spec fn changed_step(changed: Option<AppView>, a: AppView, env: Env) -> Step {
    match changed {
        Some(b) => refresh(b, env),
        None => tasks::quiet(a),
    }
}

/// What Enter does on a list.
#[verifier::opaque]
pub open spec fn enter_step(a: AppView, env: Env) -> Step {
    if a.at.route == RouteView::Logs {
        match a.selected_record() {
            Some(record) => {
                let left = a.push_history();
                tasks::quiet(
                    AppView { at: NavView { route: RouteView::LogDetail { record }, scroll: 0, ..left.at }, ..left },
                )
            },
            None => tasks::quiet(a),
        }
    } else if a.at.route == RouteView::Traces {
        match a.open_trace_detail() {
            Some(b) => tasks::quiet(b),
            None => tasks::quiet(
                AppView {
                    trace: TraceView { pending_trace_open: a.trace.detail_trace_id is Some, ..a.trace },
                    ..a
                },
            ),
        }
    } else if a.on_catalog() {
        let queries = a.visualize();
        if queries.len() > 0 {
            refresh(a.push_history().set_query(text::join(queries, "\n"@)).at_top(), env)
        } else {
            tasks::quiet(a)
        }
    } else if a.at.route == RouteView::Metrics {
        match a.open_metric_detail() {
            Some(b) => tasks::exemplars_step(b.push_entry(a.at)),
            None => tasks::quiet(a),
        }
    } else {
        tasks::quiet(a)
    }
}

/// Toggling the catalog node under the cursor.
#[verifier::opaque]
pub open spec fn toggle_step(a: AppView, env: Env) -> Step {
    match a.toggle_asks() {
        Some(name) => tasks::asking(
            a.toggle_node(),
            RequestView::MetricDims { name, max_values: env.options.max_series },
        ),
        None => tasks::quiet(a.toggle_node()),
    }
}

/// Drilling down from a trace of the list to its logs.
#[verifier::opaque]
pub open spec fn trace_logs_step(a: AppView, env: Env) -> Step {
    match a.selected_trace() {
        Some(trace_id) => switch_step(
            a.drilling(CorrelationView { trace_id, span_id: None }),
            Screen::Logs,
            env,
        ),
        None => tasks::quiet(a),
    }
}

/// Asking for everything anew, the attribute statistics too.
#[verifier::opaque]
pub open spec fn reload_step(a: AppView, env: Env) -> Step {
    refresh(AppView { attrs: AttributeView { attr_stats: None, ..a.attrs }, ..a }, env)
}

/// What a letter or sign does on a view.
#[verifier::opaque]
pub open spec fn char_step(a: AppView, c: char, env: Env) -> Step {
    if c == ' ' {
        if a.on_catalog() { toggle_step(a, env) } else { tasks::quiet(a) }
    } else if c == '[' {
        changed_step(a.pan(false, 1, 2, env.wall_ns), a, env)
    } else if c == ']' {
        changed_step(a.pan(true, 1, 2, env.wall_ns), a, env)
    } else if c == '-' {
        changed_step(a.zoom(2, 1, env.wall_ns), a, env)
    } else if c == '+' || c == '=' {
        changed_step(a.zoom(1, 2, env.wall_ns), a, env)
    } else if c == 'n' {
        changed_step(a.page_older(), a, env)
    } else if c == 'p' {
        match a.effective_focus() {
            Focus::AttrTable(_) => promotion_step(a),
            _ => changed_step(a.page_newer(), a, env),
        }
    } else if c == 'L' {
        if a.screen() == Screen::Traces && !model::detail_route(a.at.route) {
            trace_logs_step(a, env)
        } else {
            tasks::quiet(a)
        }
    } else if c == 't' {
        tasks::quiet(a.open_time_range())
    } else if c == '1' {
        navigate_step(a, Screen::Overview, env)
    } else if c == '2' {
        navigate_step(a, Screen::Metrics, env)
    } else if c == '3' {
        navigate_step(a, Screen::Traces, env)
    } else if c == '4' {
        navigate_step(a, Screen::Logs, env)
    } else if c == 'e' {
        if a.has_query() { edit_step(a) } else { tasks::quiet(a) }
    } else if c == 'r' {
        reload_step(a, env)
    } else if c == 'R' {
        tasks::quiet(AppView { load: LoadView { auto_refresh: !a.load.auto_refresh, ..a.load }, ..a })
    } else if c == 'm' {
        tasks::quiet(a.toggle_mascot(env.now))
    } else {
        tasks::quiet(a)
    }
}

/// What a key does on a view, where no pane has it for its own.
#[verifier::opaque]
pub open spec fn view_step(a: AppView, key: KeyEvent, env: Env) -> Step {
    match key.code {
        KeyCode::Left => moved_step(a.go_back(), a, env),
        KeyCode::Esc => moved_step(a.go_back(), a, env),
        KeyCode::Right => moved_step(a.go_forward(), a, env),
        KeyCode::Backspace => moved_step(a.go_up(), a, env),
        KeyCode::Enter => enter_step(a, env),
        KeyCode::Char(c) => char_step(a, c, env),
        KeyCode::F(n) => if n == 9 { tasks::quiet(a.open_menu()) } else { tasks::quiet(a) },
        KeyCode::Down => tasks::quiet(a.move_selection(1)),
        KeyCode::Up => tasks::quiet(a.move_selection(-1)),
        KeyCode::PageDown => tasks::quiet(a.move_selection(a.frame.page_rows as int)),
        KeyCode::PageUp => tasks::quiet(a.move_selection(-(a.frame.page_rows as int))),
        KeyCode::Home => tasks::quiet(a.select_first()),
        KeyCode::End => tasks::quiet(a.select_last()),
        _ => tasks::quiet(a),
    }
}

/// What a key does by the focus ring, where it is one of the ring's.
#[verifier::opaque]
pub open spec fn ring_step(a: AppView, key: KeyEvent, env: Env) -> Option<Step> {
    match key.code {
        KeyCode::Tab => Some(tasks::quiet(a.focus_advance(1))),
        KeyCode::BackTab => Some(tasks::quiet(a.focus_advance(-1))),
        KeyCode::Enter => match a.effective_focus() {
            Focus::Menu(index) => Some(
                match model::screen_at(index as int) {
                    Some(screen) => navigate_step(a, screen, env),
                    None => tasks::quiet(a),
                },
            ),
            Focus::TimeRange => Some(tasks::quiet(a.open_time_range())),
            Focus::Query => Some(edit_step(a)),
            Focus::AttrRange => Some(tasks::quiet(a.open_attr_range_form())),
            _ => None,
        },
        KeyCode::Left => if a.on_bar() { Some(tasks::quiet(a.menubar_move(-1))) } else { None },
        KeyCode::Right => if a.on_bar() { Some(tasks::quiet(a.menubar_move(1))) } else { None },
        _ => None,
    }
}

/// What a key does outside every overlay: the focus ring has it first, then the detail view, then
/// the view. A key of the view may leave the cursor on another trace, whose waterfall is asked for.
#[verifier::opaque]
pub open spec fn normal_step(a: AppView, key: KeyEvent, env: Env) -> (Step, Control) {
    match ring_step(a, key, env) {
        Some(step) => (step, Control::Continue),
        None => match detail_step(a, key, env) {
            Some(step) => (step, Control::Continue),
            None => if key.code == KeyCode::Char('q') {
                (tasks::quiet(a), Control::Quit)
            } else {
                let step = view_step(a, key, env);
                (step.and(tasks::waterfall_step(step.app, env.options.ascii)), Control::Continue)
            },
        },
    }
}

/// What a key does.
pub open spec fn key_step(a: AppView, key: KeyEvent, env: Env) -> (Step, Control) {
    if !key.press {
        (tasks::quiet(a), Control::Continue)
    } else {
        match a.mode {
            Mode::Editing => (editing_step(a, key, env), Control::Continue),
            Mode::TimeRange => (range_step(a, key, env), Control::Continue),
            Mode::AbsoluteRange => (form_step(a, key, env), Control::Continue),
            Mode::Menu => (menu_step(a, key, env), Control::Continue),
            Mode::Normal => normal_step(a, key, env),
        }
    }
}

proof fn lemma_quiet(v: Seq<Request>)
    ensures
        tasks::asked(v) + Seq::<RequestView>::empty() == tasks::asked(v),
{
    assert(tasks::asked(v) + Seq::<RequestView>::empty() =~= tasks::asked(v));
}

proof fn lemma_and(first: Step, second: Step, app: AppView, o1: Seq<Request>, o2: Seq<Request>, o3: Seq<Request>)
    requires
        tasks::asked(o2) == tasks::asked(o1) + first.requests,
        tasks::took(second, app, o2, o3),
    ensures
        tasks::took(first.and(second), app, o1, o3),
{
    assert(tasks::asked(o1) + first.requests + second.requests =~= tasks::asked(o1) + (first.requests + second.requests));
}

/// Moves the row cursor by `delta` rows where the primary pane is a list, else scrolls the pane.
/// Moving releases the trace focus of a jump, so that the waterfall follows the selection again.
pub fn move_selection(app: &mut App, delta: isize)
    ensures
        final(app)@ == old(app)@.move_selection(delta as int),
{
    app.clear_trace_focus();
    if let Focus::AttrTable(_) = app.effective_focus() {
        app.move_attr_cursor(delta);
        return;
    }
    match app.selectable_bounds() {
        Some((first, last)) => {
            let current: usize = app::attributes::clamped(app.at.selected, first, last);
            let wanted: i128 = current as i128 + delta as i128;
            let next: usize = if wanted < first as i128 {
                first
            } else if wanted > last as i128 {
                last
            } else {
                wanted as usize
            };
            app.at.selected = next;
        },
        None => {
            app.at.scroll = scroll_by(app.at.scroll, delta, app.frame.max_scroll);
        },
    }
}

fn scroll_by(scroll: u16, delta: isize, max_scroll: u16) -> (r: u16)
    ensures
        r == scrolled(scroll, delta as int, max_scroll),
{
    let d: i128 = delta as i128;
    if d >= 0 {
        let to: i128 = scroll as i128 + d % 0x1_0000;
        if to < max_scroll as i128 { to as u16 } else { max_scroll }
    } else {
        let by: i128 = (-d) % 0x1_0000;
        if by <= scroll as i128 { (scroll as i128 - by) as u16 } else { 0 }
    }
}

fn select_first(app: &mut App)
    ensures
        final(app)@ == old(app)@.select_first(),
{
    app.clear_trace_focus();
    match app.selectable_bounds() {
        Some((first, _)) => {
            app.at.selected = first;
        },
        None => {
            app.at.scroll = 0;
        },
    }
}

fn select_last(app: &mut App)
    ensures
        final(app)@ == old(app)@.select_last(),
{
    app.clear_trace_focus();
    match app.selectable_bounds() {
        Some((_, last)) => {
            app.at.selected = last;
        },
        None => {
            app.at.scroll = app.frame.max_scroll;
        },
    }
}

/// Opens the range picker on the window in effect, the focus on the time selector.
pub fn open_time_range(app: &mut App)
    ensures
        final(app)@ == old(app)@.open_time_range(),
{
    app.range.range_cursor = if app.range.abs_window.is_some() { TIME_RANGES_LEN } else { app.range.range_index };
    app.focus = Focus::TimeRange;
    app.mode = Mode::TimeRange;
}

fn need_vocabulary(app: &App, out: &mut Vec<Request>)
    ensures
        tasks::took(vocabulary_step(app@), app@, old(out)@, final(out)@),
{
    proof {
        lemma_quiet(out@);
    }
    if app.screen() == Screen::Metrics && app.words.metric_names.len() == 0 {
        tasks::request_vocabulary(Screen::Metrics, out);
    }
}

/// Starts to edit the query, the caret at its end and the focus on the query pane, and asks for the
/// metric names on first use.
pub fn begin_editing(app: &mut App, out: &mut Vec<Request>)
    ensures
        tasks::took(edit_step(old(app)@), final(app)@, old(out)@, final(out)@),
{
    proof {
        reveal(edit_step);
    }
    app.mode = Mode::Editing;
    app.focus = Focus::Query;
    app.query_cursor = text::bytes_of(app.active_query());
    assert(app@ == old(app)@.in_editor());
    need_vocabulary(app, out);
    let ghost middle = out@;
    app.refresh_completion();
    proof {
        lemma_quiet(middle);
        lemma_and(
            vocabulary_step(old(app)@.in_editor()),
            tasks::quiet(app@),
            app@,
            old(out)@,
            middle,
            out@,
        );
    }
}

/// Switches to a screen's list and asks for its result. What belongs to the view that is left is
/// dropped: a trace focus unless the switch is to Traces, a correlation unless it is to Logs.
pub fn switch_screen(app: &mut App, screen: Screen, env: &Env, out: &mut Vec<Request>)
    requires
        old(app)@.range.range_index < TIME_RANGES_LEN,
    ensures
        tasks::took(switch_step(old(app)@, screen, *env), final(app)@, old(out)@, final(out)@),
{
    proof {
        reveal(switch_step);
    }
    app.at.route = Route::list(screen);
    app.at.scroll = 0;
    app.at.selected = 0;
    app.at.span_cursor = 0;
    app.words.completion = None;
    app.focus = Focus::Primary;
    app.trace.pending_trace_open = false;
    if screen != Screen::Traces {
        app.clear_trace_focus();
    }
    if screen != Screen::Logs {
        app.at.log_correlation = None;
    }
    app.metric_exemplars.clear();
    app.snapshot = Snapshot::message(screen.title(), "Loading...");
    assert(app@ == old(app)@.on_screen(screen));
    need_vocabulary(app, out);
    let ghost middle = out@;
    let ghost b = app@;
    tasks::request_refresh(app, Refresh::Interactive, env, out);
    proof {
        lemma_and(vocabulary_step(b), refresh(b, *env), app@, old(out)@, middle, out@);
    }
}

/// Switches screens as a navigation: the view that is left is recorded, unless the screen is the
/// current one.
pub fn switch_screen_history(app: &mut App, screen: Screen, env: &Env, out: &mut Vec<Request>)
    requires
        old(app)@.range.range_index < TIME_RANGES_LEN,
    ensures
        tasks::took(navigate_step(old(app)@, screen, *env), final(app)@, old(out)@, final(out)@),
{
    proof {
        reveal(navigate_step);
    }
    if app.screen() != screen {
        app.push_history();
    }
    switch_screen(app, screen, env, out);
}

/// Drills down from a span to its logs: the one under the waterfall cursor, or the open one.
pub fn span_logs_drilldown(app: &mut App, env: &Env, out: &mut Vec<Request>)
    requires
        old(app)@.range.range_index < TIME_RANGES_LEN,
    ensures
        tasks::took(span_logs_step(old(app)@, *env), final(app)@, old(out)@, final(out)@),
{
    proof {
        reveal(span_logs_step);
        lemma_quiet(out@);
    }
    let correlation = match app.span_log_correlation() {
        Some(correlation) => correlation,
        None => {
            return;
        },
    };
    app.push_history();
    app.at.log_correlation = Some(correlation);
    switch_screen(app, Screen::Logs, env, out);
}

fn jump_to_trace(app: &mut App, trace_id: String, env: &Env, out: &mut Vec<Request>)
    requires
        old(app)@.range.range_index < TIME_RANGES_LEN,
    ensures
        tasks::took(jump_step(old(app)@, trace_id@, *env), final(app)@, old(out)@, final(out)@),
{
    proof {
        reveal(jump_step);
    }
    app.push_history();
    app.at.focus_trace_id = Some(trace_id);
    app.trace.focus_trace_open = true;
    switch_screen(app, Screen::Traces, env, out);
}

fn flipped(keys: &Vec<String>, key: String) -> (r: Vec<String>)
    ensures
        text::strs(r@) == flip(text::strs(keys@), key@, 0),
{
    let ghost all = text::strs(keys@);
    let n: usize = keys.len();
    let mut r: Vec<String> = Vec::new();
    let mut i: usize = 0;
    let mut found: usize = n;
    while i < n
        invariant
            n == keys@.len(),
            i <= n,
            all == text::strs(keys@),
            text::strs(r@) =~= all.take(i as int),
            found <= n,
            found == n ==> flip(all, key@, 0) == flip(all, key@, i as int),
            found < n ==> found < i && flip(all, key@, 0) == all.remove(found as int),
        decreases n - i,
    {
        assert(all[i as int] == keys@[i as int]@);
        let ghost before = r@;
        if found == n && text::same(&keys[i], &key) {
            found = i;
        }
        r.push(keys[i].clone());
        assert(text::strs(r@) =~= text::strs(before).push(all[i as int]));
        i += 1;
    }
    let ghost copy = r@;
    assert(text::strs(copy) =~= all);
    if found < n {
        r.remove(found);
        assert(text::strs(r@) =~= all.remove(found as int));
    } else {
        r.push(key);
        assert(text::strs(r@) =~= all.push(key@));
    }
    r
}

/// Promotes or demotes the attribute key under the pane's cursor. A session that only reads says
/// why it cannot; else the whole list is sent, since its order is the column order.
pub fn toggle_promotion(app: &mut App, out: &mut Vec<Request>)
    ensures
        tasks::took(promotion_step(old(app)@), final(app)@, old(out)@, final(out)@),
{
    proof {
        reveal(promotion_step);
        lemma_quiet(out@);
    }
    let key = match app.selected_attr_key() {
        Some(key) => key,
        None => {
            return;
        },
    };
    if !app.attrs.can_promote {
        app.load.last_error = Some(
            text::owned(
                "promotion changes what the writer writes, and this session opened the database read-only. Point the explorer at the daemon that owns it (`imbh-tui --url http://host:4318`) to change the promoted keys.",
            ),
        );
        return;
    }
    let keys = flipped(&app.attrs.promoted, key);
    tasks::ask(out, Request::Promotion(keys));
}

fn handle_scroll_key(app: &mut App, code: KeyCode) -> (r: bool)
    ensures
        r == (scroll_key(old(app)@, code) is Some),
        r ==> Some(final(app)@) == scroll_key(old(app)@, code),
        !r ==> final(app)@ == old(app)@,
{
    proof {
        reveal(scroll_key);
    }
    let scroll: u16 = app.at.scroll;
    let max: u16 = app.frame.max_scroll;
    let page: u16 = app.frame.page_rows;
    match code {
        KeyCode::Down => {
            app.at.scroll = if scroll < max { scroll + 1 } else { max };
        },
        KeyCode::Up => {
            app.at.scroll = if scroll > 0 { scroll - 1 } else { 0 };
        },
        KeyCode::PageDown => {
            app.at.scroll = if scroll < max && page < max - scroll { scroll + page } else { max };
        },
        KeyCode::PageUp => {
            app.at.scroll = if page < scroll { scroll - page } else { 0 };
        },
        KeyCode::Home => {
            app.at.scroll = 0;
        },
        KeyCode::End => {
            app.at.scroll = max;
        },
        _ => {
            return false;
        },
    }
    true
}

fn handle_trace_key(app: &mut App, count: usize, key: KeyEvent, env: &Env, out: &mut Vec<Request>) -> (r: bool)
    requires
        old(app)@.range.range_index < TIME_RANGES_LEN,
    ensures
        match trace_key(old(app)@, count as int, key, *env) {
            Some(step) => r && tasks::took(step, final(app)@, old(out)@, final(out)@),
            None => !r && final(app)@ == old(app)@ && final(out)@ == old(out)@,
        },
{
    proof {
        reveal(trace_key);
        lemma_quiet(out@);
    }
    let page: isize = if app.frame.page_rows > 0 { app.frame.page_rows as isize } else { 1 };
    match key.code {
        KeyCode::Down => app.move_span_cursor(1),
        KeyCode::Up => app.move_span_cursor(-1),
        KeyCode::PageDown => app.move_span_cursor(page),
        KeyCode::PageUp => app.move_span_cursor(-page),
        KeyCode::Home => {
            app.at.span_cursor = 0;
        },
        KeyCode::End => {
            app.at.span_cursor = if count > 0 { count - 1 } else { 0 };
        },
        KeyCode::Enter => {
            app.open_span_detail();
        },
        KeyCode::Char(c) => {
            if c == 'L' {
                span_logs_drilldown(app, env, out);
            } else if c == 's' {
                app.trace.sticky_waterfall = !app.trace.sticky_waterfall;
            } else {
                return false;
            }
        },
        _ => {
            return false;
        },
    }
    true
}

fn handle_span_key(app: &mut App, key: KeyEvent, env: &Env, out: &mut Vec<Request>) -> (r: bool)
    requires
        old(app)@.range.range_index < TIME_RANGES_LEN,
    ensures
        match span_key(old(app)@, key, *env) {
            Some(step) => r && tasks::took(step, final(app)@, old(out)@, final(out)@),
            None => !r && final(app)@ == old(app)@ && final(out)@ == old(out)@,
        },
{
    proof {
        reveal(span_key);
        lemma_quiet(out@);
    }
    match key.code {
        KeyCode::Enter => {
            span_logs_drilldown(app, env, out);
            true
        },
        KeyCode::Char(c) => {
            if c == 'L' {
                span_logs_drilldown(app, env, out);
                true
            } else {
                false
            }
        },
        _ => handle_scroll_key(app, key.code),
    }
}

fn handle_log_key(app: &mut App, trace_id: Option<String>, key: KeyEvent, env: &Env, out: &mut Vec<Request>) -> (r: bool)
    requires
        old(app)@.range.range_index < TIME_RANGES_LEN,
    ensures
        match log_key(old(app)@, text::opt(trace_id), key, *env) {
            Some(step) => r && tasks::took(step, final(app)@, old(out)@, final(out)@),
            None => !r && final(app)@ == old(app)@ && final(out)@ == old(out)@,
        },
{
    proof {
        reveal(log_key);
        lemma_quiet(out@);
    }
    match key.code {
        KeyCode::Enter => {
            if let Some(id) = trace_id {
                jump_to_trace(app, id, env, out);
            }
            true
        },
        _ => handle_scroll_key(app, key.code),
    }
}

fn handle_metric_key(app: &mut App, count: usize, key: KeyEvent, env: &Env, out: &mut Vec<Request>) -> (r: bool)
    requires
        old(app)@.range.range_index < TIME_RANGES_LEN,
    ensures
        match metric_key(old(app)@, count as int, key, *env) {
            Some(step) => r && tasks::took(step, final(app)@, old(out)@, final(out)@),
            None => !r && final(app)@ == old(app)@ && final(out)@ == old(out)@,
        },
{
    proof {
        reveal(metric_key);
        lemma_quiet(out@);
    }
    let last: usize = if count > 0 { count - 1 } else { 0 };
    let at: usize = app.at.metric_cursor;
    let page: usize = if app.frame.page_rows > 0 { app.frame.page_rows as usize } else { 1 };
    let left: usize = if at > 0 { at - 1 } else { 0 };
    let right: usize = if at < last { at + 1 } else { last };
    match key.code {
        KeyCode::Char(c) => {
            if c == 'h' {
                app.at.metric_cursor = left;
            } else if c == 'l' {
                app.at.metric_cursor = right;
            } else {
                return false;
            }
        },
        KeyCode::Left => {
            if !key.shift {
                return false;
            }
            app.at.metric_cursor = left;
        },
        KeyCode::Right => {
            if !key.shift {
                return false;
            }
            app.at.metric_cursor = right;
        },
        KeyCode::PageUp => {
            app.at.metric_cursor = if page < at { at - page } else { 0 };
        },
        KeyCode::PageDown => {
            app.at.metric_cursor = if at < last && page < last - at { at + page } else { last };
        },
        KeyCode::Home => {
            app.at.metric_cursor = 0;
        },
        KeyCode::End => {
            app.at.metric_cursor = last;
        },
        KeyCode::Up => {},
        KeyCode::Down => {},
        KeyCode::Enter => {
            match app.nearest_exemplar_trace() {
                Some(trace_id) => jump_to_trace(app, trace_id, env, out),
                None => {
                    return false;
                },
            }
        },
        _ => {
            return false;
        },
    }
    true
}

/// The keys that a detail view has for its own. Returns whether the key was one: every other key
/// goes to the view, which is what keeps the details from being modal.
pub fn handle_detail_key(app: &mut App, key: KeyEvent, env: &Env, out: &mut Vec<Request>) -> (r: bool)
    requires
        old(app)@.range.range_index < TIME_RANGES_LEN,
    ensures
        match detail_step(old(app)@, key, *env) {
            Some(step) => r && tasks::took(step, final(app)@, old(out)@, final(out)@),
            None => !r && final(app)@ == old(app)@ && final(out)@ == old(out)@,
        },
{
    proof {
        reveal(detail_step);
    }
    if let Some(detail) = app.route_trace_detail() {
        let count: usize = detail.spans.len();
        return handle_trace_key(app, count, key, env, out);
    }
    if let Some(_) = app.route_span_detail() {
        return handle_span_key(app, key, env, out);
    }
    if let Some(record) = app.route_log_record() {
        let trace_id = match &record.trace_id {
            Some(id) => Some(id.clone()),
            None => None,
        };
        return handle_log_key(app, trace_id, key, env, out);
    }
    if let Some(detail) = app.route_metric_detail() {
        let count: usize = detail.points.len();
        return handle_metric_key(app, count, key, env, out);
    }
    false
}

fn move_highlight(app: &mut App, down: bool)
    requires
        old(app)@.words.completion matches Some(c) ==> c.candidates.len() > 0,
    ensures
        final(app)@ == old(app)@.highlight(down),
{
    match app.words.completion.take() {
        Some(mut c) => {
            let n: usize = c.candidates.len();
            assert(completion::candidates_view(c.candidates@).len() == n);
            if down {
                c.selected = if c.selected < n - 1 { c.selected + 1 } else { n - 1 };
            } else {
                c.selected = if c.selected > 0 { c.selected - 1 } else { 0 };
            }
            app.words.completion = Some(c);
        },
        None => {},
    }
}

fn handle_editing_key(app: &mut App, key: KeyEvent, env: &Env, out: &mut Vec<Request>)
    requires
        old(app)@.wf(),
    ensures
        tasks::took(editing_step(old(app)@, key, *env), final(app)@, old(out)@, final(out)@),
{
    proof {
        reveal(editing_step);
        lemma_quiet(out@);
    }
    match key.code {
        KeyCode::Esc => {
            app.mode = Mode::Normal;
            app.words.completion = None;
        },
        KeyCode::Enter => {
            app.mode = Mode::Normal;
            app.words.completion = None;
            app.at.scroll = 0;
            app.at.selected = 0;
            if app.screen() == Screen::Logs {
                app.at.log_correlation = None;
            }
            app.focus = Focus::Primary;
            tasks::request_refresh(app, Refresh::Interactive, env, out);
        },
        KeyCode::Tab => {
            app.accept_completion();
            tasks::maybe_discover_label_dims(app, env, out);
        },
        KeyCode::Down => move_highlight(app, true),
        KeyCode::Up => move_highlight(app, false),
        _ => {
            let mut field = app.query_field();
            if textfield::handle_edit_key(&mut field, key) {
                app.set_query_field(field);
                app.refresh_completion();
                tasks::maybe_discover_label_dims(app, env, out);
            }
        },
    }
}

fn commit_range(app: &mut App, env: &Env, out: &mut Vec<Request>)
    requires
        old(app)@.wf(),
    ensures
        tasks::took(pick_step(old(app)@, *env), final(app)@, old(out)@, final(out)@),
{
    proof {
        reveal(pick_step);
        lemma_quiet(out@);
    }
    if app.range.range_cursor == TIME_RANGES_LEN {
        app.open_absolute_form(env.wall_ns);
        return;
    }
    let changed = app.range.range_cursor != app.range.range_index || app.range.abs_window.is_some();
    app.mode = Mode::Normal;
    app.range.range_index = app.range.range_cursor;
    app.range.abs_window = None;
    if changed {
        app.at.scroll = 0;
        app.at.selected = 0;
        tasks::request_refresh(app, Refresh::Interactive, env, out);
    }
}

fn handle_range_key(app: &mut App, key: KeyEvent, env: &Env, out: &mut Vec<Request>)
    requires
        old(app)@.wf(),
    ensures
        tasks::took(range_step(old(app)@, key, *env), final(app)@, old(out)@, final(out)@),
{
    proof {
        reveal(range_step);
        lemma_quiet(out@);
    }
    let row: usize = app.range.range_cursor;
    let up: usize = if row > 0 { row - 1 } else { 0 };
    let down: usize = if row < TIME_RANGES_LEN { row + 1 } else { TIME_RANGES_LEN };
    match key.code {
        KeyCode::Esc => {
            app.mode = Mode::Normal;
        },
        KeyCode::Up => {
            app.range.range_cursor = up;
        },
        KeyCode::Down => {
            app.range.range_cursor = down;
        },
        KeyCode::Char(c) => {
            if c == 'k' {
                app.range.range_cursor = up;
            } else if c == 'j' {
                app.range.range_cursor = down;
            }
        },
        KeyCode::Enter => commit_range(app, env, out),
        _ => {},
    }
}

fn handle_form_key(app: &mut App, key: KeyEvent, env: &Env, out: &mut Vec<Request>)
    requires
        old(app)@.wf(),
    ensures
        tasks::took(form_step(old(app)@, key, *env), final(app)@, old(out)@, final(out)@),
{
    proof {
        reveal(form_step);
        lemma_quiet(out@);
    }
    match key.code {
        KeyCode::Esc => {
            app.mode = Mode::Normal;
        },
        KeyCode::Tab => {
            let field: usize = if app.range.abs_field == 0 { 1 } else { 0 };
            app.range.focus_abs_field(field);
        },
        KeyCode::Up => app.range.focus_abs_field(0),
        KeyCode::Down => app.range.focus_abs_field(1),
        KeyCode::Enter => {
            if app.commit_absolute() {
                tasks::request_refresh(app, Refresh::Interactive, env, out);
            }
        },
        _ => {
            let mut field = app.range.abs_text_field();
            if textfield::handle_edit_key(&mut field, key) {
                app.range.set_abs_text_field(field);
            }
        },
    }
}

fn handle_menu_key(app: &mut App, key: KeyEvent, env: &Env, out: &mut Vec<Request>)
    requires
        old(app)@.wf(),
    ensures
        tasks::took(menu_step(old(app)@, key, *env), final(app)@, old(out)@, final(out)@),
{
    proof {
        reveal(menu_step);
        lemma_quiet(out@);
    }
    match key.code {
        KeyCode::Esc => {
            app.mode = Mode::Normal;
        },
        KeyCode::F(n) => {
            if n == 9 {
                app.mode = Mode::Normal;
            }
        },
        KeyCode::Left => app.menu_move(-1),
        KeyCode::BackTab => app.menu_move(-1),
        KeyCode::Right => app.menu_move(1),
        KeyCode::Tab => app.menu_move(1),
        KeyCode::Char(c) => {
            if c == 'h' {
                app.menu_move(-1);
            } else if c == 'l' {
                app.menu_move(1);
            }
        },
        KeyCode::Enter => {
            match app.menu_screen() {
                Some(screen) => {
                    app.mode = Mode::Normal;
                    switch_screen_history(app, screen, env, out);
                },
                None => open_time_range(app),
            }
        },
        _ => {},
    }
}

fn reload_moved(app: &mut App, env: &Env, out: &mut Vec<Request>)
    requires
        old(app)@.range.range_index < TIME_RANGES_LEN,
    ensures
        tasks::took(moved_step(Some(old(app)@), old(app)@, *env), final(app)@, old(out)@, final(out)@),
{
    proof {
        reveal(moved_step);
    }
    tasks::request_refresh(app, Refresh::Interactive, env, out);
    let ghost middle = out@;
    let ghost b = app@;
    tasks::request_metric_exemplars(app, out);
    proof {
        lemma_and(refresh(old(app)@, *env), tasks::exemplars_step(b), app@, old(out)@, middle, out@);
    }
}

fn handle_enter(app: &mut App, env: &Env, out: &mut Vec<Request>)
    requires
        old(app)@.wf(),
    ensures
        tasks::took(enter_step(old(app)@, *env), final(app)@, old(out)@, final(out)@),
{
    proof {
        reveal(enter_step);
        lemma_quiet(out@);
    }
    match &app.at.route {
        Route::Logs => {
            let record = match app.selected_log_record() {
                Some(record) => model::share(record),
                None => {
                    return;
                },
            };
            app.push_history();
            app.at.route = Route::LogDetail { record };
            app.at.scroll = 0;
            return;
        },
        Route::Traces => {
            if !app.open_trace_detail() {
                app.trace.pending_trace_open = app.trace.detail_trace_id.is_some();
            }
            return;
        },
        _ => {},
    }
    if app.on_catalog() {
        let queries = app.visualize_queries();
        if queries.len() > 0 {
            app.push_history();
            app.set_active_query(text::joined(&queries, "\n"));
            app.at.selected = 0;
            app.at.scroll = 0;
            tasks::request_refresh(app, Refresh::Interactive, env, out);
        }
        return;
    }
    if let Route::Metrics = &app.at.route {
        let departing = app.capture_nav();
        if app.open_metric_detail() {
            app.push_entry(departing);
            tasks::request_metric_exemplars(app, out);
        }
    }
}

fn handle_toggle(app: &mut App, env: &Env, out: &mut Vec<Request>)
    requires
        old(app)@.wf(),
    ensures
        tasks::took(toggle_step(old(app)@, *env), final(app)@, old(out)@, final(out)@),
{
    proof {
        reveal(toggle_step);
        lemma_quiet(out@);
    }
    if let Some(name) = app.toggle_node() {
        tasks::ask(out, Request::MetricDims { name, max_values: env.options.max_series });
    }
}

fn trace_logs_drilldown(app: &mut App, env: &Env, out: &mut Vec<Request>)
    requires
        old(app)@.wf(),
    ensures
        tasks::took(trace_logs_step(old(app)@, *env), final(app)@, old(out)@, final(out)@),
{
    proof {
        reveal(trace_logs_step);
        lemma_quiet(out@);
    }
    let trace_id = match app.selected_trace_id() {
        Some(trace_id) => trace_id,
        None => {
            return;
        },
    };
    app.push_history();
    app.at.log_correlation = Some(LogCorrelation { trace_id, span_id: None });
    switch_screen(app, Screen::Logs, env, out);
}

fn pan_key(app: &mut App, forward: bool, env: &Env, out: &mut Vec<Request>)
    requires
        old(app)@.wf(),
    ensures
        tasks::took(
            changed_step(old(app)@.pan(forward, 1, 2, env.wall_ns), old(app)@, *env),
            final(app)@,
            old(out)@,
            final(out)@,
        ),
{
    proof {
        reveal(changed_step);
        lemma_quiet(out@);
    }
    if app.pan_window(forward, 1, 2, env.wall_ns) {
        tasks::request_refresh(app, Refresh::Interactive, env, out);
    }
}

fn zoom_key(app: &mut App, num: u32, den: u32, env: &Env, out: &mut Vec<Request>)
    requires
        old(app)@.wf(),
        den > 0,
    ensures
        tasks::took(
            changed_step(old(app)@.zoom(num, den, env.wall_ns), old(app)@, *env),
            final(app)@,
            old(out)@,
            final(out)@,
        ),
{
    proof {
        reveal(changed_step);
        lemma_quiet(out@);
    }
    if app.zoom_window(num, den, env.wall_ns) {
        tasks::request_refresh(app, Refresh::Interactive, env, out);
    }
}

fn older_key(app: &mut App, env: &Env, out: &mut Vec<Request>)
    requires
        old(app)@.wf(),
    ensures
        tasks::took(changed_step(old(app)@.page_older(), old(app)@, *env), final(app)@, old(out)@, final(out)@),
{
    proof {
        reveal(changed_step);
        lemma_quiet(out@);
    }
    if app.logs_page_older() {
        tasks::request_refresh(app, Refresh::Interactive, env, out);
    }
}

fn newer_key(app: &mut App, env: &Env, out: &mut Vec<Request>)
    requires
        old(app)@.wf(),
    ensures
        tasks::took(changed_step(old(app)@.page_newer(), old(app)@, *env), final(app)@, old(out)@, final(out)@),
{
    proof {
        reveal(changed_step);
        lemma_quiet(out@);
    }
    if app.logs_page_newer() {
        tasks::request_refresh(app, Refresh::Interactive, env, out);
    }
}

fn reload_key(app: &mut App, env: &Env, out: &mut Vec<Request>)
    requires
        old(app)@.wf(),
    ensures
        tasks::took(reload_step(old(app)@, *env), final(app)@, old(out)@, final(out)@),
{
    proof {
        reveal(reload_step);
    }
    app.attrs.attr_stats = None;
    tasks::request_refresh(app, Refresh::Interactive, env, out);
}

fn mascot_key(app: &mut App, env: &Env)
    ensures
        final(app)@ == old(app)@.toggle_mascot(env.now),
{
    app.mascot.show_mascot = !app.mascot.show_mascot;
    if app.mascot.show_mascot {
        app.mascot.last_tick = env.now;
    }
}

fn handle_char(app: &mut App, c: char, env: &Env, out: &mut Vec<Request>)
    requires
        old(app)@.wf(),
    ensures
        tasks::took(char_step(old(app)@, c, *env), final(app)@, old(out)@, final(out)@),
{
    proof {
        reveal(char_step);
        lemma_quiet(out@);
    }
    match c {
        ' ' => {
            if app.on_catalog() {
                handle_toggle(app, env, out);
            }
        },
        '[' => pan_key(app, false, env, out),
        ']' => pan_key(app, true, env, out),
        '-' => zoom_key(app, 2, 1, env, out),
        '+' => zoom_key(app, 1, 2, env, out),
        '=' => zoom_key(app, 1, 2, env, out),
        'n' => older_key(app, env, out),
        'p' => {
            if let Focus::AttrTable(_) = app.effective_focus() {
                toggle_promotion(app, out);
            } else {
                newer_key(app, env, out);
            }
        },
        'L' => {
            if app.screen() == Screen::Traces && !app.at.route.is_detail() {
                trace_logs_drilldown(app, env, out);
            }
        },
        't' => open_time_range(app),
        '1' => switch_screen_history(app, Screen::Overview, env, out),
        '2' => switch_screen_history(app, Screen::Metrics, env, out),
        '3' => switch_screen_history(app, Screen::Traces, env, out),
        '4' => switch_screen_history(app, Screen::Logs, env, out),
        'e' => {
            if app.has_query() {
                begin_editing(app, out);
            }
        },
        'r' => reload_key(app, env, out),
        'R' => {
            app.load.auto_refresh = !app.load.auto_refresh;
        },
        'm' => mascot_key(app, env),
        _ => {},
    }
}

fn handle_view_key(app: &mut App, key: KeyEvent, env: &Env, out: &mut Vec<Request>)
    requires
        old(app)@.wf(),
    ensures
        tasks::took(view_step(old(app)@, key, *env), final(app)@, old(out)@, final(out)@),
{
    proof {
        reveal(view_step);
        reveal(moved_step);
        lemma_quiet(out@);
    }
    match key.code {
        KeyCode::Left => {
            if app.go_back() {
                reload_moved(app, env, out);
            }
        },
        KeyCode::Esc => {
            if app.go_back() {
                reload_moved(app, env, out);
            }
        },
        KeyCode::Right => {
            if app.go_forward() {
                reload_moved(app, env, out);
            }
        },
        KeyCode::Backspace => {
            if app.go_up() {
                reload_moved(app, env, out);
            }
        },
        KeyCode::Enter => handle_enter(app, env, out),
        KeyCode::Char(c) => handle_char(app, c, env, out),
        KeyCode::F(n) => {
            if n == 9 {
                app.open_menu();
            }
        },
        KeyCode::Down => move_selection(app, 1),
        KeyCode::Up => move_selection(app, -1),
        KeyCode::PageDown => {
            let page: isize = app.frame.page_rows as isize;
            move_selection(app, page);
        },
        KeyCode::PageUp => {
            let page: isize = app.frame.page_rows as isize;
            move_selection(app, -page);
        },
        KeyCode::Home => select_first(app),
        KeyCode::End => select_last(app),
        _ => {},
    }
}

fn on_bar(app: &App) -> (r: bool)
    ensures
        r == app@.on_bar(),
{
    match app.effective_focus() {
        Focus::Menu(_) => true,
        Focus::TimeRange => true,
        _ => false,
    }
}

fn handle_ring_key(app: &mut App, key: KeyEvent, env: &Env, out: &mut Vec<Request>) -> (r: bool)
    requires
        old(app)@.wf(),
    ensures
        match ring_step(old(app)@, key, *env) {
            Some(step) => r && tasks::took(step, final(app)@, old(out)@, final(out)@),
            None => !r && final(app)@ == old(app)@ && final(out)@ == old(out)@,
        },
{
    proof {
        reveal(ring_step);
        lemma_quiet(out@);
    }
    match key.code {
        KeyCode::Tab => app.focus_advance(1),
        KeyCode::BackTab => app.focus_advance(-1),
        KeyCode::Enter => {
            match app.effective_focus() {
                Focus::Menu(index) => {
                    if let Some(screen) = Screen::at(index) {
                        switch_screen_history(app, screen, env, out);
                    }
                },
                Focus::TimeRange => open_time_range(app),
                Focus::Query => begin_editing(app, out),
                Focus::AttrRange => app.open_attr_range_form(),
                _ => {
                    return false;
                },
            }
        },
        KeyCode::Left => {
            if !on_bar(app) {
                return false;
            }
            app.menubar_move(-1);
        },
        KeyCode::Right => {
            if !on_bar(app) {
                return false;
            }
            app.menubar_move(1);
        },
        _ => {
            return false;
        },
    }
    true
}

fn handle_normal_key(app: &mut App, key: KeyEvent, env: &Env, out: &mut Vec<Request>) -> (r: Control)
    requires
        old(app)@.wf(),
    ensures
        r == normal_step(old(app)@, key, *env).1,
        tasks::took(normal_step(old(app)@, key, *env).0, final(app)@, old(out)@, final(out)@),
{
    proof {
        reveal(normal_step);
        lemma_quiet(out@);
    }
    if handle_ring_key(app, key, env, out) {
        return Control::Continue;
    }
    if handle_detail_key(app, key, env, out) {
        return Control::Continue;
    }
    if key.code == KeyCode::Char('q') {
        return Control::Quit;
    }
    handle_view_key(app, key, env, out);
    let ghost middle = out@;
    let ghost b = app@;
    tasks::request_waterfall(app, env.options.ascii, out);
    proof {
        lemma_and(
            view_step(old(app)@, key, *env),
            tasks::waterfall_step(b, env.options.ascii),
            app@,
            old(out)@,
            middle,
            out@,
        );
    }
    Control::Continue
}

/// Applies a key to the state, adding to `out` what it asks of the background. Only a press does
/// anything. Returns whether the session goes on.
pub fn handle_key(app: &mut App, key: KeyEvent, env: &Env, out: &mut Vec<Request>) -> (r: Control)
    requires
        old(app)@.wf(),
    ensures
        r == key_step(old(app)@, key, *env).1,
        tasks::took(key_step(old(app)@, key, *env).0, final(app)@, old(out)@, final(out)@),
        final(app)@.wf(),
{
    proof {
        lemma_quiet(out@);
        assert(app.catalog.metric_tree.len() <= usize::MAX);
        law_keys_keep_the_state_sound(app@, key, *env);
    }
    if !key.press {
        return Control::Continue;
    }
    match app.mode {
        Mode::Editing => handle_editing_key(app, key, env, out),
        Mode::TimeRange => handle_range_key(app, key, env, out),
        Mode::AbsoluteRange => handle_form_key(app, key, env, out),
        Mode::Menu => handle_menu_key(app, key, env, out),
        Mode::Normal => {
            return handle_normal_key(app, key, env, out);
        },
    }
    Control::Continue
}

/// What the soundness of a state rests on beside the bounds of the range picker and the form.
spec fn sound_parts(a: AppView) -> bool {
    a.wf() && a.catalog.metric_tree.len() <= usize::MAX
}

proof fn lemma_refresh_sound(a: AppView, origin: Refresh, env: Env)
    requires
        sound_parts(a),
    ensures
        sound_parts(tasks::refresh_step(a, origin, env).app),
{
    reveal(tasks::refresh_step);
}

proof fn lemma_requests_sound(a: AppView, env: Env, ascii: bool)
    requires
        sound_parts(a),
    ensures
        sound_parts(tasks::waterfall_step(a, ascii).app),
        sound_parts(tasks::exemplars_step(a).app),
        sound_parts(tasks::discover_step(a, env).app),
{
    reveal(tasks::waterfall_step);
    reveal(tasks::exemplars_step);
    reveal(tasks::discover_step);
    let metric = match completion::context_of(a.before_caret()) {
        completion::ContextView::LabelName { metric } => metric,
        completion::ContextView::LabelValue { metric, .. } => metric,
        _ => None,
    };
    if let Some(name) = metric {
        app::popup::lemma_node_named(a.catalog.metric_tree, name, 0);
    }
}

proof fn lemma_popup_sound(a: AppView)
    requires
        sound_parts(a),
    ensures
        sound_parts(a.refresh_popup()),
        sound_parts(a.accept()),
        sound_parts(a.highlight(true)),
        sound_parts(a.highlight(false)),
{
    app::popup::law_an_open_popup_offers_something(a);
    if let Some(c) = a.words.completion {
        let candidate = c.candidates[c.selected as int];
        let before = a.before_caret();
        let token = completion::token_of(before);
        let head = before.take(before.len() - token.len()) + candidate.text + (if candidate.kind
            == completion::CandidateKind::Function {
            "("@
        } else {
            Seq::empty()
        });
        let query = head + a.active_query().skip(a.caret());
        let b = AppView { query_cursor: text::byte_len(head) as usize, ..a.with_popup(None).with_query(query) };
        app::popup::law_an_open_popup_offers_something(b);
    }
}

proof fn lemma_switch_sound(a: AppView, screen: Screen, env: Env)
    requires
        sound_parts(a),
    ensures
        sound_parts(switch_step(a, screen, env).app),
        sound_parts(navigate_step(a, screen, env).app),
{
    reveal(switch_step);
    reveal(navigate_step);
    lemma_refresh_sound(a.on_screen(screen), Refresh::Interactive, env);
    lemma_refresh_sound(a.push_history().on_screen(screen), Refresh::Interactive, env);
}

proof fn lemma_drill_sound(a: AppView, trace_id: Seq<char>, env: Env)
    requires
        sound_parts(a),
    ensures
        sound_parts(span_logs_step(a, env).app),
        sound_parts(trace_logs_step(a, env).app),
        sound_parts(jump_step(a, trace_id, env).app),
        sound_parts(edit_step(a).app),
{
    reveal(span_logs_step);
    reveal(trace_logs_step);
    reveal(jump_step);
    reveal(edit_step);
    if let Some(c) = a.span_correlation() {
        lemma_switch_sound(a.drilling(c), Screen::Logs, env);
    }
    if let Some(id) = a.selected_trace() {
        lemma_switch_sound(a.drilling(CorrelationView { trace_id: id, span_id: None }), Screen::Logs, env);
    }
    lemma_switch_sound(a.jumping(trace_id), Screen::Traces, env);
    lemma_popup_sound(a.in_editor());
}

proof fn lemma_detail_sound(a: AppView, key: KeyEvent, env: Env)
    requires
        sound_parts(a),
    ensures
        detail_step(a, key, env) matches Some(step) ==> sound_parts(step.app),
{
    reveal(detail_step);
    reveal(trace_key);
    reveal(span_key);
    reveal(log_key);
    reveal(metric_key);
    reveal(scroll_key);
    lemma_drill_sound(a, Seq::empty(), env);
    if let RouteView::LogDetail { record } = a.at.route {
        if let Some(id) = record.trace_id {
            lemma_drill_sound(a, id@, env);
        }
    }
    if let Some(id) = a.nearest_exemplar() {
        lemma_drill_sound(a, id, env);
    }
}

proof fn lemma_editing_sound(a: AppView, key: KeyEvent, env: Env)
    requires
        sound_parts(a),
    ensures
        sound_parts(editing_step(a, key, env).app),
{
    reveal(editing_step);
    let b = a.out_of_editor().at_top();
    lemma_refresh_sound(
        AppView {
            at: NavView {
                log_correlation: if b.screen() == Screen::Logs { None } else { b.at.log_correlation },
                ..b.at
            },
            focus: Focus::Primary,
            ..b
        },
        Refresh::Interactive,
        env,
    );
    lemma_popup_sound(a);
    lemma_requests_sound(a.accept(), env, true);
    if let Some(c) = a.edit_query(key) {
        lemma_popup_sound(c);
        lemma_requests_sound(c.refresh_popup(), env, true);
    }
}

proof fn lemma_range_sound(a: AppView, key: KeyEvent, env: Env)
    requires
        sound_parts(a),
    ensures
        sound_parts(range_step(a, key, env).app),
        sound_parts(form_step(a, key, env).app),
{
    reveal(range_step);
    reveal(pick_step);
    reveal(form_step);
    if a.range.range_cursor < TIME_RANGES_LEN {
        let c = AppView {
            mode: Mode::Normal,
            range: TimeView { range_index: a.range.range_cursor, abs_window: None, ..a.range },
            ..a
        };
        lemma_refresh_sound(c.at_top(), Refresh::Interactive, env);
    }
    lemma_refresh_sound(a.commit_absolute(), Refresh::Interactive, env);
}

proof fn lemma_menu_sound(a: AppView, key: KeyEvent, env: Env)
    requires
        sound_parts(a),
    ensures
        sound_parts(menu_step(a, key, env).app),
{
    reveal(menu_step);
    if let Some(screen) = model::screen_at(a.menu_cursor as int) {
        lemma_switch_sound(a.in_mode(Mode::Normal), screen, env);
    }
}

proof fn lemma_moves_sound(a: AppView, delta: int)
    requires
        sound_parts(a),
    ensures
        a.go_back() matches Some(b) ==> sound_parts(b),
        a.go_forward() matches Some(b) ==> sound_parts(b),
        a.go_up() matches Some(b) ==> sound_parts(b),
        sound_parts(a.move_selection(delta)),
        sound_parts(a.select_first()),
        sound_parts(a.select_last()),
        sound_parts(a.focus_advance(delta)),
{
}

proof fn lemma_enter_sound(a: AppView, env: Env)
    requires
        sound_parts(a),
    ensures
        sound_parts(enter_step(a, env).app),
        sound_parts(toggle_step(a, env).app),
{
    reveal(enter_step);
    reveal(toggle_step);
    lemma_refresh_sound(
        a.push_history().set_query(text::join(a.visualize(), "\n"@)).at_top(),
        Refresh::Interactive,
        env,
    );
    if let Some(b) = a.open_metric_detail() {
        lemma_requests_sound(b.push_entry(a.at), env, true);
    }
    if let Some(row) = a.selected_row() {
        let mi = app::metric_of(row) as int;
        let tree = a.catalog.metric_tree;
        app::catalog::law_catalog_rows_match_the_tree(
            a.with_tree(tree.update(mi, app::catalog::toggled(tree[mi], row))),
        );
    }
}

proof fn lemma_window_sound(a: AppView, env: Env)
    requires
        sound_parts(a),
    ensures
        sound_parts(changed_step(a.pan(false, 1, 2, env.wall_ns), a, env).app),
        sound_parts(changed_step(a.pan(true, 1, 2, env.wall_ns), a, env).app),
        sound_parts(changed_step(a.zoom(2, 1, env.wall_ns), a, env).app),
        sound_parts(changed_step(a.zoom(1, 2, env.wall_ns), a, env).app),
        sound_parts(changed_step(a.page_older(), a, env).app),
        sound_parts(changed_step(a.page_newer(), a, env).app),
        sound_parts(reload_step(a, env).app),
{
    reveal(changed_step);
    reveal(reload_step);
    if let Some(b) = a.pan(false, 1, 2, env.wall_ns) {
        lemma_refresh_sound(b, Refresh::Interactive, env);
    }
    if let Some(b) = a.pan(true, 1, 2, env.wall_ns) {
        lemma_refresh_sound(b, Refresh::Interactive, env);
    }
    if let Some(b) = a.zoom(2, 1, env.wall_ns) {
        lemma_refresh_sound(b, Refresh::Interactive, env);
    }
    if let Some(b) = a.zoom(1, 2, env.wall_ns) {
        lemma_refresh_sound(b, Refresh::Interactive, env);
    }
    if let Some(b) = a.page_older() {
        lemma_refresh_sound(b, Refresh::Interactive, env);
    }
    if let Some(b) = a.page_newer() {
        lemma_refresh_sound(b, Refresh::Interactive, env);
    }
    lemma_refresh_sound(AppView { attrs: AttributeView { attr_stats: None, ..a.attrs }, ..a }, Refresh::Interactive, env);
}

proof fn lemma_char_sound(a: AppView, c: char, env: Env)
    requires
        sound_parts(a),
    ensures
        sound_parts(char_step(a, c, env).app),
{
    reveal(char_step);
    reveal(promotion_step);
    lemma_enter_sound(a, env);
    lemma_window_sound(a, env);
    lemma_drill_sound(a, Seq::empty(), env);
    lemma_switch_sound(a, Screen::Overview, env);
    lemma_switch_sound(a, Screen::Metrics, env);
    lemma_switch_sound(a, Screen::Traces, env);
    lemma_switch_sound(a, Screen::Logs, env);
}

proof fn lemma_moved_sound(moved: Option<AppView>, a: AppView, env: Env)
    requires
        sound_parts(a),
        moved matches Some(b) ==> sound_parts(b),
    ensures
        sound_parts(moved_step(moved, a, env).app),
{
    reveal(moved_step);
    if let Some(b) = moved {
        lemma_refresh_sound(b, Refresh::Interactive, env);
        lemma_requests_sound(refresh(b, env).app, env, true);
    }
}

proof fn lemma_view_sound(a: AppView, key: KeyEvent, env: Env)
    requires
        sound_parts(a),
    ensures
        sound_parts(view_step(a, key, env).app),
{
    reveal(view_step);
    lemma_moves_sound(a, 1);
    lemma_moves_sound(a, -1);
    lemma_moves_sound(a, a.frame.page_rows as int);
    lemma_moves_sound(a, -(a.frame.page_rows as int));
    lemma_moved_sound(a.go_back(), a, env);
    lemma_moved_sound(a.go_forward(), a, env);
    lemma_moved_sound(a.go_up(), a, env);
    lemma_enter_sound(a, env);
    if let KeyCode::Char(c) = key.code {
        lemma_char_sound(a, c, env);
    }
}

proof fn lemma_ring_sound(a: AppView, key: KeyEvent, env: Env)
    requires
        sound_parts(a),
    ensures
        ring_step(a, key, env) matches Some(step) ==> sound_parts(step.app),
{
    reveal(ring_step);
    lemma_moves_sound(a, 1);
    lemma_moves_sound(a, -1);
    lemma_drill_sound(a, Seq::empty(), env);
    if let Focus::Menu(index) = a.effective_focus() {
        if let Some(screen) = model::screen_at(index as int) {
            lemma_switch_sound(a, screen, env);
        }
    }
}

/// No key leads out of the sound states: the range picker stays on its rows, the form on its fields,
/// an open popup offers something, and each catalog row belongs to a metric of the tree.
pub proof fn law_keys_keep_the_state_sound(a: AppView, key: KeyEvent, env: Env)
    requires
        a.wf(),
        a.catalog.metric_tree.len() <= usize::MAX,
    ensures
        key_step(a, key, env).0.app.wf(),
{
    lemma_editing_sound(a, key, env);
    lemma_range_sound(a, key, env);
    lemma_menu_sound(a, key, env);
    reveal(normal_step);
    lemma_ring_sound(a, key, env);
    lemma_detail_sound(a, key, env);
    lemma_view_sound(a, key, env);
    lemma_requests_sound(view_step(a, key, env).app, env, env.options.ascii);
}

/// Only `q` outside every overlay, on a view that has no other use for it, ends the session.
pub proof fn law_only_q_quits(a: AppView, key: KeyEvent, env: Env)
    ensures
        key_step(a, key, env).1 == Control::Quit <==> key.press && a.mode == Mode::Normal && key.code == KeyCode::Char(
            'q',
        ),
{
    reveal(normal_step);
    reveal(ring_step);
    reveal(detail_step);
    reveal(trace_key);
    reveal(span_key);
    reveal(log_key);
    reveal(metric_key);
    reveal(scroll_key);
}

/// Switching to another screen is undone by Back: it leads to the view that was left.
pub proof fn law_back_undoes_a_screen_switch(a: AppView, screen: Screen, env: Env)
    requires
        a.screen() != screen,
    ensures
        navigate_step(a, screen, env).app.go_back() matches Some(b) && b.at == a.at,
        navigate_step(a, screen, env).app.screen() == screen,
        navigate_step(a, screen, env).app.forward.len() == 0,
{
    reveal(navigate_step);
    reveal(switch_step);
    reveal(tasks::refresh_step);
    model::law_list_round_trips_through_screen(screen);
}

/// A promotion toggled twice leaves the promoted keys as they were, where the key was not promoted.
pub proof fn law_promotion_toggles(keys: Seq<Seq<char>>, key: Seq<char>)
    requires
        !keys.contains(key),
    ensures
        flip(keys, key, 0) == keys.push(key),
        flip(flip(keys, key, 0), key, 0) == keys,
{
    lemma_flip_absent(keys, key, 0);
    let more = keys.push(key);
    lemma_flip_last(more, key, 0);
    assert(more.remove(more.len() - 1) =~= keys);
}

proof fn lemma_flip_absent(keys: Seq<Seq<char>>, key: Seq<char>, i: int)
    requires
        0 <= i <= keys.len(),
        !keys.contains(key),
    ensures
        flip(keys, key, i) == keys.push(key),
    decreases keys.len() - i,
{
    if i < keys.len() {
        assert(keys[i] != key);
        lemma_flip_absent(keys, key, i + 1);
    }
}

proof fn lemma_flip_last(keys: Seq<Seq<char>>, key: Seq<char>, i: int)
    requires
        0 <= i < keys.len(),
        keys.last() == key,
        forall|j: int| 0 <= j < keys.len() - 1 ==> keys[j] != key,
    ensures
        flip(keys, key, i) == keys.remove(keys.len() - 1),
    decreases keys.len() - i,
{
    if i < keys.len() - 1 {
        lemma_flip_last(keys, key, i + 1);
    }
}

} // verus!
