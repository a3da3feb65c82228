//! The landing of a query result.

use std::sync::Arc;

use vstd::prelude::*;

use crate::app::{App, AppView, LoadView, PagingView, TraceView};
use crate::geometry;
use crate::model;
use crate::model::{Focus, MetricDetail, NavView, QueryResult, Route, RouteView, SeriesData, SnapView, Snapshot};
use crate::text;

verus! {

/// The first series of the given labels, from position `i` on.
pub open spec fn series_labelled(series: Seq<SeriesData>, labels: Seq<char>, i: int) -> Option<int>
    decreases series.len() - i,
{
    if !(0 <= i < series.len()) {
        None
    } else if series[i].labels@ == labels {
        Some(i)
    } else {
        series_labelled(series, labels, i + 1)
    }
}

impl AppView {
    /// The state with an open series' chart showing the series as the snapshot has it: nothing,
    /// where it has none.
    pub open spec fn follow_series(self) -> AppView {
        match self.at.route {
            RouteView::MetricDetail { labels, query, .. } => {
                let points = match series_labelled(self.snapshot.series, labels, 0) {
                    Some(i) => self.snapshot.series[i].points@,
                    None => Seq::empty(),
                };
                AppView {
                    at: NavView {
                        route: RouteView::MetricDetail { labels, query, points },
                        metric_cursor: geometry::min(
                            self.at.metric_cursor as int,
                            geometry::monus(points.len() as int, 1),
                        ) as usize,
                        ..self.at
                    },
                    ..self
                }
            },
            _ => self,
        }
    }

    /// The state showing a fresh snapshot.
    pub open spec fn show(self, snapshot: SnapView) -> AppView {
        let shown = (AppView {
            paging: PagingView { log_next_cursor: snapshot.next_cursor, ..self.paging },
            snapshot,
            load: LoadView { last_error: None, ..self.load },
            ..self
        }).hold_cursor();
        (AppView { trace: TraceView { detail_trace_id: None, ..shown.trace }, ..shown }).follow_series()
    }

    /// Whether a result answers the request that is current, for the screen that is shown.
    pub open spec fn answers(self, result: QueryResult) -> bool {
        result.generation == self.load.generation && result.screen == self.screen()
    }

    /// The state once a result has landed.
    pub open spec fn land(self, result: QueryResult, now: u64) -> AppView {
        let idle = self.end_loading();
        if !self.answers(result) {
            idle
        } else {
            let fresh = AppView { load: LoadView { last_refresh: now, ..idle.load }, ..idle };
            (match result.result {
                Ok(snapshot) => fresh.show(snapshot@),
                Err(error) => AppView { load: LoadView { last_error: Some(error@), ..fresh.load }, ..fresh },
            }).compose()
        }
    }
}

impl App {
    fn follow_series(&mut self)
        ensures
            final(self)@ == old(self)@.follow_series(),
    {
        let (labels, query) = match &self.at.route {
            Route::MetricDetail { detail } => (detail.labels.clone(), detail.query.clone()),
            _ => {
                return;
            },
        };
        let n: usize = self.snapshot.series.len();
        let mut i: usize = 0;
        while i < n && !text::same(&self.snapshot.series[i].labels, &labels)
            invariant
                n == self.snapshot.series@.len(),
                i <= n,
                series_labelled(self.snapshot.series@, labels@, 0) == series_labelled(
                    self.snapshot.series@,
                    labels@,
                    i as int,
                ),
            decreases n - i,
        {
            i += 1;
        }
        let points = if i < n { model::share(&self.snapshot.series[i].points) } else { Arc::new(Vec::new()) };
        let count: usize = points.len();
        let last: usize = if count > 0 { count - 1 } else { 0 };
        assert(i >= n ==> points@ =~= Seq::empty());
        self.at.route = Route::MetricDetail { detail: Arc::new(MetricDetail { labels, query, points }) };
        if self.at.metric_cursor > last {
            self.at.metric_cursor = last;
        }
    }

    fn show(&mut self, snapshot: Snapshot)
        ensures
            final(self)@ == old(self)@.show(snapshot@),
    {
        self.paging.log_next_cursor = snapshot.next_cursor;
        self.snapshot = snapshot;
        self.load.last_error = None;
        self.hold_cursor();
        self.trace.detail_trace_id = None;
        self.follow_series();
    }

    /// Lands a query result. Whatever it answers, the load it belonged to is over; a result for a
    /// request that is no longer current, or for a screen that was left, changes nothing else. A
    /// fresh snapshot is shown with the cursor held within its rows, the waterfall to be fetched
    /// anew, and an open series' chart following the fresh points.
    pub fn apply(&mut self, result: QueryResult, now: u64)
        ensures
            final(self)@ == old(self)@.land(result, now),
    {
        self.end_loading();
        if result.generation != self.load.generation || result.screen != self.screen() {
            return;
        }
        self.load.last_refresh = now;
        match result.result {
            Ok(snapshot) => self.show(snapshot),
            Err(error) => {
                self.load.last_error = Some(error);
            },
        }
        self.compose_attr_stats();
    }
}

/// A result that is no longer awaited releases the keyboard and changes nothing else.
pub proof fn law_a_stale_result_only_releases_the_keyboard(a: AppView, result: QueryResult, now: u64)
    requires
        !a.answers(result),
    ensures
        a.land(result, now) == a.end_loading(),
        !a.land(result, now).load.input_locked,
        a.land(result, now).snapshot == a.snapshot,
{
}

/// A fresh result leaves the cursor on a selectable row, where there is one.
pub proof fn law_a_fresh_result_holds_the_cursor(a: AppView, result: QueryResult, now: u64)
    requires
        a.answers(result),
        result.result is Ok,
        a.focus == Focus::Primary,
    ensures
        a.land(result, now).selectable() matches Some((first, last)) ==> first <= last ==> first <= a.land(
            result,
            now,
        ).at.selected <= last,
        a.land(result, now).load.last_error is None,
{
}

/// An open series' chart follows the fresh points, its cursor held within them.
pub proof fn law_an_open_chart_follows_the_result(a: AppView, i: int)
    requires
        a.at.route matches RouteView::MetricDetail { labels, .. } && series_labelled(a.snapshot.series, labels, 0) == Some(
            i,
        ),
        0 <= i < a.snapshot.series.len(),
        0 < a.snapshot.series[i].points@.len() <= usize::MAX,
    ensures
        a.follow_series().at.route matches RouteView::MetricDetail { points, .. } && points
            == a.snapshot.series[i].points@ && a.follow_series().at.metric_cursor < points.len(),
{
}

} // verus!
