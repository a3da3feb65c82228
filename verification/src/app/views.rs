//! Route accessors, row selection, and opening the detail views.

use std::sync::Arc;

use vstd::prelude::*;

use crate::app::attributes::clamped;
use crate::app::{App, AppView, PagingView};
use crate::geometry;
use crate::model;
use crate::model::{
    CorrelationView, ExemplarMarker, Focus, LogCorrelation, LogRecord, MetricDetail, NavView, Route,
    RouteView, Screen, SpanRecord, TraceDetail,
};
use crate::text;

verus! {

/// How far apart two instants are.
pub open spec fn distance(a: i64, b: i64) -> int {
    if a >= b { a - b } else { b - a }
}

/// The first of the first `n` markers that is nearest to `t`.
pub open spec fn nearest(markers: Seq<ExemplarMarker>, t: i64, n: nat) -> int
    decreases n,
{
    if n <= 1 {
        0
    } else {
        let best = nearest(markers, t, (n - 1) as nat);
        if distance(markers[n - 1].time_ns, t) < distance(markers[best].time_ns, t) { n - 1 } else { best }
    }
}

/// The first of the rows from `i` up to `last` that names the trace.
pub open spec fn row_naming(lines: Seq<Seq<char>>, trace_id: Seq<char>, i: int, last: int) -> Option<int>
    decreases last + 1 - i,
{
    if i > last {
        None
    } else if 0 <= i < lines.len() && text::first_word(lines[i]) == Some(trace_id) {
        Some(i)
    } else {
        row_naming(lines, trace_id, i + 1, last)
    }
}

impl AppView {
    /// The row that the cursor stands on, counted from the first selectable one.
    pub open spec fn selected_index(self) -> Option<int> {
        match self.selectable() {
            Some((first, last)) => Some(
                geometry::clamp(self.at.selected as int, first as int, last as int) - first,
            ),
            None => None,
        }
    }

    /// The span under the waterfall cursor.
    pub open spec fn selected_span(self) -> Option<Arc<SpanRecord>> {
        match self.at.route {
            RouteView::TraceDetail { detail } => if detail.spans@.len() == 0 {
                None
            } else {
                Some(detail.spans@[geometry::min(self.at.span_cursor as int, detail.spans@.len() - 1)])
            },
            _ => None,
        }
    }

    /// Whether the list of logs is shown.
    pub open spec fn on_log_list(self) -> bool {
        self.screen() == Screen::Logs && !model::detail_route(self.at.route)
    }

    /// The state one page of logs older, where there is one.
    pub open spec fn page_older(self) -> Option<AppView> {
        match self.paging.log_next_cursor {
            Some(cursor) => if self.on_log_list() {
                Some(
                    (AppView {
                        paging: PagingView {
                            log_cursor_stack: self.paging.log_cursor_stack.push(cursor),
                            log_paging: true,
                            ..self.paging
                        },
                        ..self
                    }).at_top(),
                )
            } else {
                None
            },
            None => None,
        }
    }

    /// The state one page of logs newer, where there is one.
    pub open spec fn page_newer(self) -> Option<AppView> {
        if self.on_log_list() && self.paging.log_cursor_stack.len() > 0 {
            Some(
                (AppView {
                    paging: PagingView {
                        log_cursor_stack: self.paging.log_cursor_stack.drop_last(),
                        log_paging: true,
                        ..self.paging
                    },
                    ..self
                }).at_top(),
            )
        } else {
            None
        }
    }

    /// The trace of the exemplar nearest to the chart cursor.
    pub open spec fn nearest_exemplar(self) -> Option<Seq<char>> {
        match self.at.route {
            RouteView::MetricDetail { points, .. } => if points.len() == 0 || self.metric_exemplars.len() == 0 {
                None
            } else {
                let cursor = geometry::min(self.at.metric_cursor as int, points.len() - 1);
                let i = nearest(self.metric_exemplars, points[cursor].0, self.metric_exemplars.len());
                Some(self.metric_exemplars[i].trace_id@)
            },
            _ => None,
        }
    }

    /// The trace that the selected row of the Traces list names.
    pub open spec fn selected_trace(self) -> Option<Seq<char>> {
        if self.screen() != Screen::Traces {
            None
        } else {
            match self.selectable() {
                Some((first, last)) => {
                    let row = geometry::clamp(self.at.selected as int, first as int, last as int);
                    if row < self.snapshot.lines.len() { text::first_word(self.snapshot.lines[row]) } else { None }
                },
                None => None,
            }
        }
    }

    /// The trace that the Traces list points at: the focus of a jump, else the selected row's.
    pub open spec fn target_trace(self) -> Option<Seq<char>> {
        match self.at.focus_trace_id {
            Some(id) => Some(id),
            None => self.selected_trace(),
        }
    }

    /// The record of the selected row of the Logs list.
    pub open spec fn selected_record(self) -> Option<Arc<LogRecord>> {
        match self.selected_index() {
            Some(i) => if self.screen() == Screen::Logs && i < self.snapshot.log_records.len() {
                Some(self.snapshot.log_records[i])
            } else {
                None
            },
            None => None,
        }
    }

    /// The state with the detail of the selected series open, where there is one to open.
    pub open spec fn open_metric_detail(self) -> Option<AppView> {
        match self.selected_index() {
            Some(i) => if self.screen() == Screen::Metrics && i < self.snapshot.series.len()
                && self.snapshot.series[i].points@.len() > 0 {
                let series = self.snapshot.series[i];
                Some(
                    AppView {
                        at: NavView {
                            metric_cursor: (series.points@.len() - 1) as usize,
                            route: RouteView::MetricDetail {
                                labels: series.labels@,
                                query: self.active_query(),
                                points: series.points@,
                            },
                            ..self.at
                        },
                        ..self
                    },
                )
            } else {
                None
            },
            None => None,
        }
    }

    /// The state with the detail of the target trace open, where the trace is held.
    pub open spec fn open_trace_detail(self) -> Option<AppView> {
        match (self.target_trace(), self.trace.trace_detail) {
            (Some(target), Some(detail)) => if self.at.route == RouteView::Traces && detail.trace_id@ == target {
                let left = self.push_history();
                Some(
                    AppView {
                        at: NavView {
                            route: RouteView::TraceDetail { detail },
                            span_cursor: 0,
                            scroll: 0,
                            ..left.at
                        },
                        focus: Focus::Primary,
                        ..left
                    },
                )
            } else {
                None
            },
            _ => None,
        }
    }

    /// The state with the waterfall cursor moved by `delta` rows.
    pub open spec fn move_span_cursor(self, delta: int) -> AppView {
        match self.at.route {
            RouteView::TraceDetail { detail } => {
                let last = geometry::monus(detail.spans@.len() as int, 1);
                let current = geometry::min(self.at.span_cursor as int, last);
                AppView {
                    at: NavView { span_cursor: geometry::clamp(current + delta, 0, last) as usize, ..self.at },
                    ..self
                }
            },
            _ => self,
        }
    }

    /// The trace and span that the span's log drill-down restricts to.
    pub open spec fn span_correlation(self) -> Option<CorrelationView> {
        match self.at.route {
            RouteView::TraceDetail { detail } => match self.selected_span() {
                Some(span) => Some(
                    CorrelationView { trace_id: detail.trace_id@, span_id: Some(span.span_id@) },
                ),
                None => None,
            },
            RouteView::SpanDetail { trace_id, span } => Some(
                CorrelationView { trace_id, span_id: Some(span.span_id@) },
            ),
            _ => None,
        }
    }

    /// The state with the detail of the span under the waterfall cursor open, where there is one.
    pub open spec fn open_span_detail(self) -> Option<AppView> {
        match (self.at.route, self.selected_span()) {
            (RouteView::TraceDetail { detail }, Some(span)) => {
                let left = self.push_history();
                Some(
                    AppView {
                        at: NavView {
                            route: RouteView::SpanDetail { trace_id: detail.trace_id@, span },
                            scroll: 0,
                            ..left.at
                        },
                        focus: Focus::Primary,
                        ..left
                    },
                )
            },
            _ => None,
        }
    }

    /// The state with the cursor on the row of the focused trace, where the list has it.
    pub open spec fn focus_select(self) -> AppView {
        match (self.at.focus_trace_id, self.selectable()) {
            (Some(id), Some((first, last))) => if self.screen() == Screen::Traces {
                match row_naming(self.snapshot.lines, id, first as int, last as int) {
                    Some(row) => AppView {
                        at: NavView { selected: row as usize, focus_trace_id: None, ..self.at },
                        ..self
                    },
                    None => self,
                }
            } else {
                self
            },
            _ => self,
        }
    }
}

impl App {
    /// The log record, where the current view is a log's detail.
    pub fn route_log_record(&self) -> (r: Option<&Arc<LogRecord>>)
        ensures
            match r {
                Some(record) => self@.at.route == (RouteView::LogDetail { record: *record }),
                None => !(self@.at.route is LogDetail),
            },
    {
        match &self.at.route {
            Route::LogDetail { record } => Some(record),
            _ => None,
        }
    }

    /// The series, where the current view is a series' detail.
    pub fn route_metric_detail(&self) -> (r: Option<&Arc<MetricDetail>>)
        ensures
            match r {
                Some(detail) => self@.at.route == (RouteView::MetricDetail {
                    labels: detail.labels@,
                    query: detail.query@,
                    points: detail.points@,
                }),
                None => !(self@.at.route is MetricDetail),
            },
    {
        match &self.at.route {
            Route::MetricDetail { detail } => Some(detail),
            _ => None,
        }
    }

    /// The trace, where the current view is a trace's detail.
    pub fn route_trace_detail(&self) -> (r: Option<&Arc<TraceDetail>>)
        ensures
            match r {
                Some(detail) => self@.at.route == (RouteView::TraceDetail { detail: *detail }),
                None => !(self@.at.route is TraceDetail),
            },
    {
        match &self.at.route {
            Route::TraceDetail { detail } => Some(detail),
            _ => None,
        }
    }

    /// The trace id and the span, where the current view is a span's detail.
    pub fn route_span_detail(&self) -> (r: Option<(&str, &Arc<SpanRecord>)>)
        ensures
            match r {
                Some((trace_id, span)) => self@.at.route == (RouteView::SpanDetail { trace_id: trace_id@, span: *span }),
                None => !(self@.at.route is SpanDetail),
            },
    {
        match &self.at.route {
            Route::SpanDetail { trace_id, span } => Some((trace_id.as_str(), span)),
            _ => None,
        }
    }

    /// The span under the waterfall cursor, or `None` off a trace's detail or for an empty trace.
    pub fn selected_span(&self) -> (r: Option<&Arc<SpanRecord>>)
        ensures
            match r {
                Some(span) => self@.selected_span() == Some(*span),
                None => self@.selected_span() is None,
            },
    {
        match &self.at.route {
            Route::TraceDetail { detail } => {
                let n: usize = detail.spans.len();
                if n == 0 {
                    return None;
                }
                let i: usize = if self.at.span_cursor < n { self.at.span_cursor } else { n - 1 };
                Some(&detail.spans[i])
            },
            _ => None,
        }
    }

    /// Pages the Logs list one step older, if the current page told where it resumes. Returns
    /// whether a move happened.
    pub fn logs_page_older(&mut self) -> (r: bool)
        ensures
            r == (old(self)@.page_older() is Some),
            r ==> Some(final(self)@) == old(self)@.page_older(),
            !r ==> final(self)@ == old(self)@,
    {
        if self.screen() != Screen::Logs || self.at.route.is_detail() {
            return false;
        }
        match self.paging.log_next_cursor {
            Some(cursor) => {
                self.paging.log_cursor_stack.push(cursor);
                self.paging.log_paging = true;
                self.at.scroll = 0;
                self.at.selected = 0;
                true
            },
            None => false,
        }
    }

    /// Pages the Logs list one step newer, unless it shows the newest page. Returns whether a move
    /// happened.
    pub fn logs_page_newer(&mut self) -> (r: bool)
        ensures
            r == (old(self)@.page_newer() is Some),
            r ==> Some(final(self)@) == old(self)@.page_newer(),
            !r ==> final(self)@ == old(self)@,
    {
        if self.screen() != Screen::Logs || self.at.route.is_detail() {
            return false;
        }
        match self.paging.log_cursor_stack.pop() {
            Some(_) => {
                self.paging.log_paging = true;
                self.at.scroll = 0;
                self.at.selected = 0;
                assert(self.paging.log_cursor_stack@ =~= old(self).paging.log_cursor_stack@.drop_last());
                true
            },
            None => false,
        }
    }

    /// The trace id of the exemplar nearest to the chart cursor: where Enter on a series' detail
    /// leads.
    pub fn nearest_exemplar_trace(&self) -> (r: Option<String>)
        ensures
            text::opt(r) == self@.nearest_exemplar(),
    {
        let detail = match self.route_metric_detail() {
            Some(detail) => detail,
            None => {
                return None;
            },
        };
        let n: usize = detail.points.len();
        let m: usize = self.metric_exemplars.len();
        if n == 0 || m == 0 {
            return None;
        }
        let cursor: usize = if self.at.metric_cursor < n { self.at.metric_cursor } else { n - 1 };
        let t: i64 = detail.points[cursor].0;
        let mut best: usize = 0;
        let mut i: usize = 1;
        while i < m
            invariant
                1 <= i <= m,
                m == self.metric_exemplars@.len(),
                best < m,
                best == nearest(self.metric_exemplars@, t, i as nat),
            decreases m - i,
        {
            let here: i128 = self.metric_exemplars[i].time_ns as i128 - t as i128;
            let there: i128 = self.metric_exemplars[best].time_ns as i128 - t as i128;
            let near: i128 = if here >= 0 { here } else { -here };
            let far: i128 = if there >= 0 { there } else { -there };
            assert(nearest(self.metric_exemplars@, t, (i + 1) as nat) == if near < far { i as int } else { best as int });
            if near < far {
                best = i;
            }
            i += 1;
        }
        Some(self.metric_exemplars[best].trace_id.clone())
    }

    /// The trace id of the selected row of the Traces list: the row's first word.
    pub fn selected_trace_id(&self) -> (r: Option<String>)
        ensures
            text::opt(r) == self@.selected_trace(),
    {
        if self.screen() != Screen::Traces {
            return None;
        }
        match self.selectable_bounds() {
            Some((first, last)) => {
                let row: usize = clamped(self.at.selected, first, last);
                if row < self.snapshot.lines.len() {
                    text::leading_word(&self.snapshot.lines[row])
                } else {
                    None
                }
            },
            None => None,
        }
    }

    /// The trace that the Traces list points at: the focus of a jump, else the selected row's.
    pub fn target_trace_id(&self) -> (r: Option<String>)
        ensures
            text::opt(r) == self@.target_trace(),
    {
        match &self.at.focus_trace_id {
            Some(id) => Some(id.clone()),
            None => self.selected_trace_id(),
        }
    }

    /// The record of the selected row of the Logs list.
    pub fn selected_log_record(&self) -> (r: Option<&Arc<LogRecord>>)
        ensures
            match r {
                Some(record) => self@.selected_record() == Some(*record),
                None => self@.selected_record() is None,
            },
    {
        if self.screen() != Screen::Logs {
            return None;
        }
        match self.selectable_bounds() {
            Some((first, last)) => {
                let i: usize = clamped(self.at.selected, first, last) - first;
                if i < self.snapshot.log_records.len() {
                    Some(&self.snapshot.log_records[i])
                } else {
                    None
                }
            },
            None => None,
        }
    }

    /// Opens the detail of the selected series, the chart cursor at its latest point. Returns
    /// `false`, changing nothing, where no series with points is selected.
    pub fn open_metric_detail(&mut self) -> (r: bool)
        ensures
            r == (old(self)@.open_metric_detail() is Some),
            r ==> Some(final(self)@) == old(self)@.open_metric_detail(),
            !r ==> final(self)@ == old(self)@,
    {
        if self.screen() != Screen::Metrics {
            return false;
        }
        let (first, last) = match self.selectable_bounds() {
            Some(bounds) => bounds,
            None => {
                return false;
            },
        };
        let i: usize = clamped(self.at.selected, first, last) - first;
        if i >= self.snapshot.series.len() {
            return false;
        }
        let n: usize = self.snapshot.series[i].points.len();
        if n == 0 {
            return false;
        }
        let labels = self.snapshot.series[i].labels.clone();
        let points = model::share(&self.snapshot.series[i].points);
        let query = text::owned(self.active_query());
        self.at.metric_cursor = n - 1;
        self.at.route = Route::MetricDetail { detail: Arc::new(MetricDetail { labels, query, points }) };
        true
    }

    /// Opens the detail of the trace that the Traces list points at, where the trace is held behind
    /// the preview pane. Returns `false`, changing nothing, where its fetch has not landed.
    pub fn open_trace_detail(&mut self) -> (r: bool)
        ensures
            r == (old(self)@.open_trace_detail() is Some),
            r ==> Some(final(self)@) == old(self)@.open_trace_detail(),
            !r ==> final(self)@ == old(self)@,
    {
        match &self.at.route {
            Route::Traces => {},
            _ => {
                return false;
            },
        }
        let target = match self.target_trace_id() {
            Some(target) => target,
            None => {
                return false;
            },
        };
        let detail = match &self.trace.trace_detail {
            Some(detail) => {
                if !text::same(&detail.trace_id, &target) {
                    return false;
                }
                model::share(detail)
            },
            None => {
                return false;
            },
        };
        self.push_history();
        self.at.route = Route::TraceDetail { detail };
        self.at.span_cursor = 0;
        self.at.scroll = 0;
        self.focus = Focus::Primary;
        true
    }

    /// Moves the waterfall cursor by `delta` rows, within the trace's spans.
    pub fn move_span_cursor(&mut self, delta: isize)
        ensures
            final(self)@ == old(self)@.move_span_cursor(delta as int),
    {
        let n: usize = match &self.at.route {
            Route::TraceDetail { detail } => detail.spans.len(),
            _ => {
                return;
            },
        };
        let last: usize = if n > 0 { n - 1 } else { 0 };
        let current: usize = if self.at.span_cursor < last { self.at.span_cursor } else { last };
        let wanted: i128 = current as i128 + delta as i128;
        let next: usize = if wanted < 0 {
            0
        } else if wanted > last as i128 {
            last
        } else {
            wanted as usize
        };
        self.at.span_cursor = next;
    }

    /// The trace and span that the drill-down from a span to its logs restricts to: the span under
    /// the waterfall cursor, or the open span.
    pub fn span_log_correlation(&self) -> (r: Option<LogCorrelation>)
        ensures
            model::correlation_view(r) == self@.span_correlation(),
    {
        match &self.at.route {
            Route::TraceDetail { detail } => match self.selected_span() {
                Some(span) => Some(
                    LogCorrelation { trace_id: detail.trace_id.clone(), span_id: Some(span.span_id.clone()) },
                ),
                None => None,
            },
            Route::SpanDetail { trace_id, span } => Some(
                LogCorrelation { trace_id: trace_id.clone(), span_id: Some(span.span_id.clone()) },
            ),
            _ => None,
        }
    }

    /// Opens the fields of the span under the waterfall cursor. Returns `false`, changing nothing,
    /// off a trace's detail or for an empty trace.
    pub fn open_span_detail(&mut self) -> (r: bool)
        ensures
            r == (old(self)@.open_span_detail() is Some),
            r ==> Some(final(self)@) == old(self)@.open_span_detail(),
            !r ==> final(self)@ == old(self)@,
    {
        let trace_id = match &self.at.route {
            Route::TraceDetail { detail } => detail.trace_id.clone(),
            _ => {
                return false;
            },
        };
        let span = match self.selected_span() {
            Some(span) => model::share(span),
            None => {
                return false;
            },
        };
        self.push_history();
        self.at.route = Route::SpanDetail { trace_id, span };
        self.at.scroll = 0;
        self.focus = Focus::Primary;
        true
    }

    /// After a fresh Traces result, puts the cursor on the focused trace and drops the focus, where
    /// the list has the trace; else keeps the focus, so that its waterfall is still shown.
    pub fn focus_select_trace(&mut self)
        ensures
            final(self)@ == old(self)@.focus_select(),
    {
        if self.screen() != Screen::Traces {
            return;
        }
        let focus = match &self.at.focus_trace_id {
            Some(id) => id.clone(),
            None => {
                return;
            },
        };
        let (first, last) = match self.selectable_bounds() {
            Some(bounds) => bounds,
            None => {
                return;
            },
        };
        let ghost a = self@;
        let n: usize = self.snapshot.lines.len();
        let mut i: usize = first;
        while i <= last && i < n
            invariant
                self@ == a,
                a == old(self)@,
                a.screen() == Screen::Traces,
                a.at.focus_trace_id == Some(focus@),
                a.selectable() == Some((first, last)),
                n == self.snapshot.lines@.len(),
                row_naming(a.snapshot.lines, focus@, first as int, last as int) == row_naming(
                    a.snapshot.lines,
                    focus@,
                    i as int,
                    last as int,
                ),
            decreases n - i,
        {
            assert(a.snapshot.lines[i as int] == self.snapshot.lines@[i as int]@);
            if let Some(word) = text::leading_word(&self.snapshot.lines[i]) {
                if text::same(&word, &focus) {
                    self.at.selected = i;
                    self.at.focus_trace_id = None;
                    return;
                }
            }
            i += 1;
        }
        proof {
            lemma_no_row_past_the_lines(a.snapshot.lines, focus@, i as int, last as int);
        }
    }
}

proof fn lemma_no_row_past_the_lines(lines: Seq<Seq<char>>, trace_id: Seq<char>, i: int, last: int)
    requires
        i > last || i >= lines.len(),
        i >= 0,
    ensures
        row_naming(lines, trace_id, i, last) is None,
    decreases last + 1 - i,
{
    if i <= last {
        lemma_no_row_past_the_lines(lines, trace_id, i + 1, last);
    }
}

/// An older page and a newer one undo each other, and neither exists off the list of logs.
pub proof fn law_log_pages_undo_each_other(a: AppView)
    ensures
        a.page_older() matches Some(b) ==> (b.page_newer() matches Some(c) && c.paging.log_cursor_stack
            == a.paging.log_cursor_stack),
        !a.on_log_list() ==> a.page_older() is None && a.page_newer() is None,
{
    if let Some(b) = a.page_older() {
        assert(b.paging.log_cursor_stack.drop_last() =~= a.paging.log_cursor_stack);
    }
}

/// The marker that the chart cursor leads to is as near as any, and the first of those.
pub proof fn law_the_nearest_exemplar_is_nearest(markers: Seq<ExemplarMarker>, t: i64, n: nat)
    requires
        1 <= n <= markers.len(),
    ensures
        0 <= nearest(markers, t, n) < n,
        forall|i: int| 0 <= i < n ==> distance(markers[nearest(markers, t, n)].time_ns, t) <= distance(
            (#[trigger] markers[i]).time_ns,
            t,
        ),
        forall|i: int| 0 <= i < nearest(markers, t, n) ==> distance(markers[nearest(markers, t, n)].time_ns, t)
            < distance((#[trigger] markers[i]).time_ns, t),
    decreases n,
{
    if n > 1 {
        law_the_nearest_exemplar_is_nearest(markers, t, (n - 1) as nat);
    }
}

/// Opening a detail from a list leads to a detail of the same screen, and Back leads to the list as
/// it was.
pub proof fn law_back_returns_from_a_trace_view(a: AppView)
    ensures
        a.open_trace_detail() matches Some(b) ==> (b.screen() == a.screen() && model::detail_route(b.at.route)
            && (b.go_back() matches Some(c) && c.at == a.at)),
        a.open_span_detail() matches Some(b) ==> (b.screen() == a.screen() && model::detail_route(b.at.route)
            && (b.go_back() matches Some(c) && c.at == a.at)),
{
}

/// The waterfall cursor never leaves the trace, and the span it selects is one of the trace's.
pub proof fn law_the_span_cursor_stays_in_the_trace(a: AppView, delta: int)
    requires
        a.at.route matches RouteView::TraceDetail { detail } && 0 < detail.spans@.len() <= usize::MAX,
    ensures
        a.move_span_cursor(delta).at.route matches RouteView::TraceDetail { detail }
            && a.move_span_cursor(delta).at.span_cursor < detail.spans@.len()
            && a.move_span_cursor(delta).selected_span() == Some(
            detail.spans@[a.move_span_cursor(delta).at.span_cursor as int],
        ),
{
}

/// A drill-down from a trace's waterfall and one from the span opened there restrict to the same
/// span.
pub proof fn law_both_trace_views_correlate_to_the_same_span(a: AppView)
    ensures
        a.open_span_detail() matches Some(b) ==> b.span_correlation() == a.span_correlation(),
{
}

} // verus!
