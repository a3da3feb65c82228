//! What lands from the background, and what the passing of time does.

use vstd::prelude::*;

use std::sync::Arc;

use crate::app::{AppView, LoadView, MascotView, TraceView};
use crate::app::views;
use crate::completion;
use crate::input::{KeyCode, KeyEvent};
use crate::keys;
use crate::laws::catalog::{lemma_lists_more, lists_exactly};
use crate::laws::keys::{asks_for, law_a_refresh_asks_for_what_is_shown};
use crate::mascot::MascotEvent;
use crate::model;
use crate::model::{
    DetailPane, ExemplarMarker, Focus, Mode, NavView, QueryResult, Refresh, RouteView, SnapView, TraceDetail, Update,
};
use crate::promql;
use crate::runtime;
use crate::tasks;
use crate::tasks::{Env, Exemplar, RequestView};
use crate::text;

verus! {

/// Whether the results of a screen other than the Overview are shown as they landed.
pub open spec fn shows(a: AppView, s: SnapView) -> bool {
    &&& a.snapshot.title == s.title
    &&& a.snapshot.lines == s.lines
    &&& a.snapshot.table == s.table
    &&& a.snapshot.chart == s.chart
    &&& a.snapshot.series == s.series
    &&& a.snapshot.log_records == s.log_records
    &&& a.snapshot.list_from == s.list_from
    &&& a.paging.log_next_cursor == s.next_cursor
}

/// A result that answers the last request of the screen that is shown is shown as it is: the error of an
/// earlier one is gone, nothing is in flight any more, and the moment is kept. The queries, the history
/// and the window stay.
pub proof fn law_a_result_that_answers_is_shown(a: AppView, result: QueryResult, now: u64)
    requires
        result.generation == a.load.generation,
        result.screen == a.screen(),
        result.result is Ok,
    ensures
        ({
            let b = a.land(result, now);
            &&& shows(b, (result.result->Ok_0)@)
            &&& !(a.at.route is Overview) ==> b.snapshot.detail == (result.result->Ok_0)@.detail
            &&& b.load.last_error is None
            &&& !b.load.loading && !b.load.input_locked
            &&& b.load.last_refresh == now
            &&& b.at.query == a.at.query && b.back == a.back && b.forward == a.forward && b.range == a.range && b.mode == a.mode
            &&& b.trace.detail_trace_id is None
        }),
{
}

/// A failed query leaves what is shown and says what went wrong.
pub proof fn law_a_failed_query_says_so(a: AppView, result: QueryResult, now: u64)
    requires
        result.generation == a.load.generation,
        result.screen == a.screen(),
        result.result is Err,
    ensures
        ({
            let b = a.land(result, now);
            &&& b.load.last_error == Some((result.result->Err_0)@)
            &&& shows(b, SnapView { next_cursor: a.paging.log_next_cursor, ..a.snapshot })
            &&& !b.load.loading && !b.load.input_locked
            &&& b.load.last_refresh == now
            &&& b.at.query == a.at.query && b.at.route == a.at.route
        }),
{
}

/// A result of an earlier request, or of another screen, changes nothing that is shown.
pub proof fn law_a_result_of_another_request_is_dropped(a: AppView, result: QueryResult, now: u64)
    requires
        result.generation != a.load.generation || result.screen != a.screen(),
    ensures
        a.land(result, now).snapshot == a.snapshot,
        a.land(result, now).at == a.at,
        a.land(result, now).load.last_error == a.load.last_error,
        a.land(result, now).load.last_refresh == a.load.last_refresh,
        !a.land(result, now).load.loading,
{
}

/// A refresh that waited for the one in flight is asked for once that has landed, and waits no longer.
pub proof fn law_a_waiting_refresh_follows(a: AppView, env: Env)
    requires
        !a.load.loading,
    ensures
        a.load.pending_refresh is Some ==> asks_for(
            runtime::pending_step(a, env).requests,
            a.screen(),
            a.active_query(),
            a.at.log_correlation,
        ) && runtime::pending_step(a, env).app.load.pending_refresh is None && runtime::pending_step(a, env).app.at == a.at,
        a.load.pending_refresh is None ==> runtime::pending_step(a, env) == tasks::quiet(a),
{
    reveal(runtime::pending_step);
    let b = AppView { load: LoadView { pending_refresh: None, ..a.load }, ..a };
    if let Some(origin) = a.load.pending_refresh {
        law_a_refresh_asks_for_what_is_shown(b, env, origin);
        reveal(tasks::refresh_step);
    }
}

/// A trace that is in focus is found by its id: the cursor goes to the first row of the list that names
/// it, and the focus is done. Where no row names it, it stays in focus.
pub proof fn law_the_cursor_goes_to_the_focused_trace(a: AppView, id: Seq<char>, first: usize, row: int)
    requires
        a.at.route == RouteView::Traces,
        a.focus == Focus::Primary,
        a.at.focus_trace_id == Some(id),
        a.snapshot.table is None,
        a.snapshot.list_from == Some(first),
        first <= row < a.snapshot.lines.len() <= usize::MAX,
        text::first_word(a.snapshot.lines[row]) == Some(id),
        forall|i: int| first <= i < row ==> text::first_word(#[trigger] a.snapshot.lines[i]) != Some(id),
    ensures
        a.focus_select().at == (NavView { selected: row as usize, focus_trace_id: None, ..a.at }),
{
    assert(a.selectable() == Some((first, (a.snapshot.lines.len() - 1) as usize)));
    lemma_row_naming(a.snapshot.lines, id, first as int, a.snapshot.lines.len() - 1, row);
}

proof fn lemma_row_naming(lines: Seq<Seq<char>>, id: Seq<char>, i: int, last: int, row: int)
    requires
        0 <= i <= row <= last < lines.len(),
        text::first_word(lines[row]) == Some(id),
        forall|k: int| i <= k < row ==> text::first_word(#[trigger] lines[k]) != Some(id),
    ensures
        views::row_naming(lines, id, i, last) == Some(row),
    decreases row - i,
{
    if i < row {
        lemma_row_naming(lines, id, i + 1, last, row);
    }
}

/// The Traces list asks for the waterfall of the trace that it points at, unless that is the one it has
/// asked for: the trace in focus, else the one under the cursor.
pub proof fn law_the_waterfall_belongs_to_the_row(a: AppView, ascii: bool, row: int, id: Seq<char>)
    requires
        a.at.route == RouteView::Traces,
        a.focus == Focus::Primary,
        a.at.focus_trace_id is None,
        a.snapshot.table is None,
        a.snapshot.list_from is Some && (a.snapshot.list_from->0) <= row < a.snapshot.lines.len() <= usize::MAX,
        a.at.selected == row,
        text::first_word(a.snapshot.lines[row]) == Some(id),
    ensures
        a.trace.detail_trace_id == Some(id) ==> tasks::waterfall_step(a, ascii) == tasks::quiet(a),
        a.trace.detail_trace_id != Some(id) ==> tasks::waterfall_step(a, ascii).requests == seq![
            RequestView::Waterfall { generation: a.load.generation, trace_id: id, ascii },
        ] && tasks::waterfall_step(a, ascii).app.trace.detail_trace_id == Some(id) && tasks::waterfall_step(
            a,
            ascii,
        ).app.trace.trace_detail is None,
{
    reveal(tasks::waterfall_step);
    assert(a.selectable() == Some((a.snapshot.list_from->0, (a.snapshot.lines.len() - 1) as usize)));
}

/// A waterfall that is still awaited is shown beside the list, and its trace is kept.
pub proof fn law_an_awaited_waterfall_is_shown(
    a: AppView,
    trace_id: Seq<char>,
    detail: Arc<DetailPane>,
    trace: Option<Arc<TraceDetail>>,
)
    requires
        a.trace.detail_trace_id == Some(trace_id),
        !a.trace.pending_trace_open && !a.trace.focus_trace_open,
    ensures
        a.take_waterfall(a.load.generation, trace_id, detail, trace) == (AppView {
            snapshot: SnapView { detail: Some(detail), ..a.snapshot },
            trace: TraceView { trace_detail: trace, ..a.trace },
            ..a
        }),
{
}

/// Exemplars land on the chart of the series and query that they were asked for, and nowhere else.
pub proof fn law_exemplars_land_on_their_series(a: AppView, of: Seq<char>, by: Seq<char>, markers: Seq<ExemplarMarker>)
    ensures
        a.take_exemplars(of, by, markers).metric_exemplars == (match a.at.route {
            RouteView::MetricDetail { labels, query, points } => if labels == of && query == by {
                markers
            } else {
                a.metric_exemplars
            },
            _ => a.metric_exemplars,
        }),
        a.take_exemplars(of, by, markers).at == a.at,
{
}

/// The exemplars of an open series are asked for over the window that its points span, of the metric that
/// the series belongs to.
pub proof fn law_exemplars_are_asked_for_over_the_plot(a: AppView, metric: Seq<char>)
    requires
        a.at.route matches RouteView::MetricDetail { labels, query, points } && points.len() > 0 && promql::detail_metric(
            labels,
            query,
        ) == Some(metric) && (forall|i: int, j: int|
            0 <= i < j < points.len() ==> (#[trigger] points[i]).0 <= (#[trigger] points[j]).0),
    ensures
        tasks::exemplars_step(a).app.metric_exemplars.len() == 0,
        a.at.route matches RouteView::MetricDetail { labels, query, points } && tasks::exemplars_step(a).requests == seq![
            RequestView::Exemplars {
                metric,
                start_ns: points[0].0,
                end_ns: points[points.len() - 1].0,
                labels,
                query,
            },
        ],
{
    reveal(tasks::exemplars_step);
}

/// Whether the exemplar can be shown on a plot from `start` to `end`: it lies in it and has a trace.
pub open spec fn on_plot(e: Exemplar, start: i64, end: i64) -> bool {
    start <= e.time_ns <= end && e.trace_id is Some
}

/// The markers of a plot are the exemplars that lie in it and have a trace, in order, each with its time
/// and its trace.
pub proof fn law_markers_are_the_exemplars_on_the_plot(v: Seq<Exemplar>, start: i64, end: i64)
    ensures
        exists|at: Seq<int>|
            #![trigger at.len()]
            {
                &&& lists_exactly(at, v.len() as int, |i: int| on_plot(v[i], start, end))
                &&& at.len() == tasks::markers_of(v, start, end, v.len()).len()
                &&& forall|k: int|
                    0 <= k < at.len() ==> (#[trigger] tasks::markers_of(v, start, end, v.len())[k]).time_ns == v[at[k]].time_ns
                        && Some(tasks::markers_of(v, start, end, v.len())[k].trace_id) == v[at[k]].trace_id
            },
{
    let at = lemma_markers(v, start, end, v.len());
    assert(at.len() == tasks::markers_of(v, start, end, v.len()).len());
}

proof fn lemma_markers(v: Seq<Exemplar>, start: i64, end: i64, n: nat) -> (at: Seq<int>)
    requires
        n <= v.len(),
    ensures
        lists_exactly(at, n as int, |i: int| on_plot(v[i], start, end)),
        at.len() == tasks::markers_of(v, start, end, n).len(),
        forall|k: int|
            0 <= k < at.len() ==> (#[trigger] tasks::markers_of(v, start, end, n)[k]).time_ns == v[at[k]].time_ns && Some(
                tasks::markers_of(v, start, end, n)[k].trace_id,
            ) == v[at[k]].trace_id,
    decreases n,
{
    let p = |i: int| on_plot(v[i], start, end);
    if n == 0 {
        Seq::empty()
    } else {
        let before = lemma_markers(v, start, end, (n - 1) as nat);
        lemma_lists_more(before, n - 1, p);
        let rest = tasks::markers_of(v, start, end, (n - 1) as nat);
        if p(n - 1) {
            let at = before.push(n - 1);
            assert forall|k: int| 0 <= k < at.len() implies (#[trigger] tasks::markers_of(v, start, end, n)[k]).time_ns
                == v[at[k]].time_ns && Some(tasks::markers_of(v, start, end, n)[k].trace_id) == v[at[k]].trace_id by {
                if k < rest.len() {
                    assert(rest[k].time_ns == v[before[k]].time_ns);
                }
            }
            at
        } else {
            before
        }
    }
}

/// The trace that a chart leads to is that of an exemplar as near to the point under the cursor as any.
pub proof fn law_the_chart_leads_to_the_nearest_exemplar(a: AppView)
    requires
        a.metric_exemplars.len() > 0,
        a.at.route matches RouteView::MetricDetail { points, .. } && a.at.metric_cursor < points.len(),
    ensures
        a.at.route matches RouteView::MetricDetail { points, .. } && exists|k: int|
            0 <= k < a.metric_exemplars.len() && a.nearest_exemplar() == Some((#[trigger] a.metric_exemplars[k]).trace_id@) && (
            forall|i: int|
                0 <= i < a.metric_exemplars.len() ==> {
                    let t = points[a.at.metric_cursor as int].0;
                    let d = a.metric_exemplars[k].time_ns - t;
                    let e = (#[trigger] a.metric_exemplars[i]).time_ns - t;
                    (if d >= 0 { d } else { -d }) <= (if e >= 0 { e } else { -e })
                }),
{
    if let RouteView::MetricDetail { points, .. } = a.at.route {
        let t = points[a.at.metric_cursor as int].0;
        views::law_the_nearest_exemplar_is_nearest(a.metric_exemplars, t, a.metric_exemplars.len());
        let k = views::nearest(a.metric_exemplars, t, a.metric_exemplars.len());
        assert(a.nearest_exemplar() == Some(a.metric_exemplars[k].trace_id@));
    }
}

/// An open chart shows the points of its series as the last result has them, the first of its labels.
pub proof fn law_an_open_chart_shows_its_series(a: AppView, i: int)
    requires
        a.at.route matches RouteView::MetricDetail { labels, .. } && 0 <= i < a.snapshot.series.len()
            && a.snapshot.series[i].labels@ == labels && (forall|k: int|
            0 <= k < i ==> (#[trigger] a.snapshot.series[k]).labels@ != labels),
    ensures
        a.at.route matches RouteView::MetricDetail { labels, query, .. } && a.follow_series().at.route == (
        RouteView::MetricDetail { labels, query, points: a.snapshot.series[i].points@ }),
        a.at.metric_cursor < a.snapshot.series[i].points@.len() ==> a.follow_series().at.metric_cursor == a.at.metric_cursor,
        a.at.metric_cursor >= a.snapshot.series[i].points@.len() > 0 && a.snapshot.series[i].points@.len() <= usize::MAX
            ==> a.follow_series().at.metric_cursor == a.snapshot.series[i].points@.len() - 1,
{
    if let RouteView::MetricDetail { labels, .. } = a.at.route {
        lemma_labelled(a.snapshot.series, labels, 0, i);
    }
}

proof fn lemma_labelled(series: Seq<model::SeriesData>, labels: Seq<char>, from: int, i: int)
    requires
        0 <= from <= i < series.len(),
        series[i].labels@ == labels,
        forall|k: int| 0 <= k < i ==> (#[trigger] series[k]).labels@ != labels,
    ensures
        crate::app::landing::series_labelled(series, labels, from) == Some(i),
    decreases i - from,
{
    if from < i {
        lemma_labelled(series, labels, from + 1, i);
    }
}

/// Words that land are what is completed with: the metrics' names, the logs' labels, and the values of one
/// label, which is no longer on its way; the values of other labels stay.
pub proof fn law_words_land_where_they_are_looked_up(a: AppView, update: Update, env: Env, other: Seq<char>)
    ensures
        ({
            let b = runtime::update_step(a, update, env).app.words;
            match update {
                Update::Vocabulary(names) => b.metric_names == text::strs(names@) && b.log_labels == a.words.log_labels,
                Update::LogLabels(names) => b.log_labels == Some(text::strs(names@)) && !b.log_labels_loading
                    && b.metric_names == a.words.metric_names,
                Update::LogLabelValues { label, values } => completion::kept(b.log_label_values, label@, 0) == Some(
                    text::strs(values@),
                ) && !b.log_label_values_loading.contains(label@) && (other != label@ ==> completion::kept(
                    b.log_label_values,
                    other,
                    0,
                ) == completion::kept(a.words.log_label_values, other, 0) && b.log_label_values_loading.contains(other)
                    == a.words.log_label_values_loading.contains(other)),
                _ => true,
            }
        }),
{
    reveal(runtime::update_step);
    if let Update::LogLabelValues { label, values } = update {
        let v = a.words.log_label_values;
        lemma_keep_finds(v, label@, text::strs(values@));
        if other != label@ {
            completion::law_kept_lists_are_found(v, label@, text::strs(values@), other);
        }
        lemma_without(a.words.log_label_values_loading, label@, label@);
        lemma_without(a.words.log_label_values_loading, label@, other);
    }
}

proof fn lemma_keep_finds(v: Seq<(Seq<char>, Seq<Seq<char>>)>, key: Seq<char>, values: Seq<Seq<char>>)
    ensures
        completion::kept(completion::keep(v, key, values, 0), key, 0) == Some(values),
{
    assert(key.push('x').len() != key.len());
    completion::law_kept_lists_are_found(v, key, values, key.push('x'));
}

proof fn lemma_without(names: Seq<Seq<char>>, name: Seq<char>, x: Seq<char>)
    ensures
        completion::without(names, name).contains(x) <==> names.contains(x) && x != name,
    decreases names.len(),
{
    if names.len() > 0 {
        let rest = names.drop_last();
        lemma_without(rest, name, x);
        let before = completion::without(rest, name);
        let all = completion::without(names, name);
        if names.contains(x) {
            let k = choose|k: int| 0 <= k < names.len() && names[k] == x;
            if k < rest.len() {
                assert(rest[k] == x);
            }
        }
        if rest.contains(x) {
            let k = choose|k: int| 0 <= k < rest.len() && rest[k] == x;
            assert(names[k] == x);
        }
        assert(names[names.len() - 1] == names.last());
        if names.last() != name {
            if before.contains(x) {
                let k = choose|k: int| 0 <= k < before.len() && before[k] == x;
                assert(all[k] == x);
            }
            assert(all[before.len() as int] == names.last());
            if all.contains(x) {
                let k = choose|k: int| 0 <= k < all.len() && all[k] == x;
                if k < before.len() {
                    assert(before[k] == x);
                }
            }
        }
    }
}

/// Promoted keys that land are the ones in effect; a measurement made against other keys is out of date. A
/// promotion that failed says so.
pub proof fn law_promoted_keys_land(a: AppView, keys: Seq<Seq<char>>, error: Seq<char>)
    ensures
        a.take_promoted(Ok(keys)).attrs.promoted == keys,
        keys != a.attrs.promoted ==> a.take_promoted(Ok(keys)).attrs.attr_stats is None,
        keys == a.attrs.promoted ==> a.take_promoted(Ok(keys)).attrs == a.attrs,
        a.take_promoted(Err(error)).load.last_error == Some(error),
        a.take_promoted(Err(error)).attrs == a.attrs,
{
}

/// The attribute statistics are measured where they never were, where another window was measured, and
/// after a minute.
pub proof fn law_the_measurement_lasts_a_minute(a: AppView, now: u64)
    ensures
        a.attrs.attr_stats is None ==> a.needs_measure(now),
        a.attrs.attr_stats matches Some(stats) ==> (a.needs_measure(now) <==> stats.key != a.range.attr_window || now
            >= stats.measured_at + 60_000_000_000),
{
}

/// A measurement that lands is kept with its window and its moment, and shown on the Overview where its
/// window is the one selected there.
pub proof fn law_a_measurement_is_shown_on_the_overview(a: AppView, key: Option<(i64, i64)>, pane: Arc<DetailPane>, now: u64)
    ensures
        ({
            let b = a.take_stats(key, pane, now);
            &&& b.attrs.attr_stats matches Some(stats) && stats.key == key && stats.measured_at == now && stats.pane == pane
            &&& a.at.route is Overview && key == a.range.attr_window ==> b.snapshot.detail == Some(pane)
            &&& !(a.at.route is Overview && key == a.range.attr_window) ==> b.snapshot == a.snapshot
            &&& b.snapshot.lines == a.snapshot.lines && b.snapshot.title == a.snapshot.title
        }),
{
}

/// What lands from the background goes where it belongs: dimensions to their metric, exemplars to their
/// series, a waterfall to its trace, a measurement and promoted keys to the attribute pane. None of them
/// asks for anything.
pub proof fn law_updates_go_where_they_belong(a: AppView, update: Update, env: Env)
    ensures
        ({
            let s = runtime::update_step(a, update, env);
            match update {
                Update::Query(result) => true,
                Update::MetricDims { metric, dims } => s.app.catalog == a.take_dims(metric@, model::dims_view(dims@)).catalog
                    && s.app.at.route == a.at.route && s.requests.len() == 0,
                Update::Exemplars { labels, query, markers } => s.app == a.take_exemplars(labels@, query@, markers@)
                    && s.requests.len() == 0,
                Update::Waterfall { generation, trace_id, detail, trace } => s.app == a.take_waterfall(
                    generation,
                    trace_id@,
                    detail,
                    trace,
                ) && s.requests.len() == 0,
                Update::AttributeStats { key, pane } => s.app == a.take_stats(key, pane, env.now) && s.requests.len() == 0,
                Update::Promoted(Ok(keys)) => s.app == a.take_promoted(Ok(text::strs(keys@))) && s.requests.len() == 0,
                Update::Promoted(Err(error)) => s.app == a.take_promoted(Err(error@)) && s.requests.len() == 0,
                _ => s.app.at == a.at && s.app.snapshot == a.snapshot && s.requests.len() == 0,
            }
        }),
{
    reveal(runtime::update_step);
}

/// A result that lands is on screen once it has been dealt with, the mascot hears of it, and on the
/// Traces list the waterfall of the trace that the list points at is asked for.
pub proof fn law_a_landed_result_is_on_screen(a: AppView, result: QueryResult, env: Env)
    requires
        result.generation == a.load.generation,
        result.screen == a.screen(),
        result.result is Ok,
        a.load.pending_refresh is None,
        !a.on_catalog(),
    ensures
        shows(runtime::update_step(a, Update::Query(result), env).app, (result.result->Ok_0)@),
        runtime::update_step(a, Update::Query(result), env).app.mascot.refresh_pending,
        runtime::update_step(a, Update::Query(result), env).app.load.last_error is None,
        !runtime::update_step(a, Update::Query(result), env).app.load.loading,
        ({
            let b = runtime::update_step(a, Update::Query(result), env);
            b.app.target_trace() matches Some(id) ==> b.app.trace.detail_trace_id == Some(id) && exists|i: int|
                0 <= i < b.requests.len() && (#[trigger] b.requests[i] matches RequestView::Waterfall { trace_id, .. } && trace_id
                    == id)
        }),
{
    reveal(runtime::update_step);
    reveal(runtime::result_step);
    reveal(runtime::pending_step);
    reveal(tasks::waterfall_step);
    law_a_result_that_answers_is_shown(a, result, env.now);
    let landed = a.land(result, env.now);
    let c = (AppView { mascot: MascotView { refresh_pending: true, ..landed.mascot }, ..landed }).focus_select();
    assert(c.screen() == a.screen());
    assert(c.active_query() == a.active_query());
    let w = tasks::waterfall_step(c, env.options.ascii);
    assert(!w.app.on_catalog());
    assert(w.app.target_trace() == c.target_trace());
    let b = runtime::update_step(a, Update::Query(result), env);
    assert(b.requests =~= w.requests);
    assert(b.app == w.app);
    assert(c.trace.detail_trace_id is None);
    if let Some(id) = c.target_trace() {
        assert(w.requests[0] == (RequestView::Waterfall { generation: c.load.generation, trace_id: id, ascii: env.options.ascii }));
        assert(b.requests[0] == w.requests[0]);
    }
}

/// A catalog that lands becomes the tree: a metric for each of its rows, with what was known of it.
pub proof fn law_a_landed_catalog_becomes_the_tree(a: AppView, result: QueryResult, env: Env)
    requires
        result.generation == a.load.generation,
        result.screen == a.screen(),
        result.result is Ok,
        a.load.pending_refresh is None,
        a.at.focus_trace_id is None,
        a.at.route == RouteView::Metrics,
        a.on_catalog(),
        (result.result->Ok_0)@.table is Some,
        ((result.result->Ok_0)@.table->0).header.len() > 0,
        ((result.result->Ok_0)@.table->0).header[0] == "Metric"@,
        ((result.result->Ok_0)@.table->0).rows.len() <= usize::MAX,
    ensures
        runtime::update_step(a, Update::Query(result), env).app.catalog.metric_tree == crate::app::catalog::carried_tree(
            a.catalog.metric_tree,
            ((result.result->Ok_0)@.table->0).rows,
        ),
{
    reveal(runtime::update_step);
    reveal(runtime::result_step);
    reveal(runtime::pending_step);
    reveal(tasks::waterfall_step);
    law_a_result_that_answers_is_shown(a, result, env.now);
    let landed = a.land(result, env.now);
    let m = AppView { mascot: MascotView { refresh_pending: true, ..landed.mascot }, ..landed };
    let c = m.focus_select();
    assert(c.at.query == a.at.query);
    assert(c.screen() == a.screen());
    let w = tasks::waterfall_step(c, env.options.ascii).app;
    assert(w.on_catalog());
    assert(w.catalog.metric_tree == a.catalog.metric_tree);
    let rows = ((result.result->Ok_0)@.table->0).rows;
    let b = w.with_tree(crate::app::catalog::carried_tree(w.catalog.metric_tree, rows));
    crate::app::catalog::law_catalog_rows_match_the_tree(b);
}

/// The periodic refresh asks for the results where it is on, no overlay is open and the interval has
/// passed since the last result; a tick that is early, or while it is off, does nothing.
pub proof fn law_the_periodic_refresh_is_due_after_its_interval(a: AppView, env: Env)
    requires
        a.load.last_refresh <= env.now,
    ensures
        a.load.auto_refresh && a.mode == Mode::Normal && env.now - a.load.last_refresh >= env.options.refresh_interval.nanos
            && !a.load.loading ==> asks_for(
            runtime::tick_step(a, env).requests,
            a.screen(),
            a.active_query(),
            a.at.log_correlation,
        ) && !runtime::tick_step(a, env).app.load.input_locked,
        !(a.load.auto_refresh && a.mode == Mode::Normal && env.now - a.load.last_refresh
            >= env.options.refresh_interval.nanos) ==> runtime::tick_step(a, env) == tasks::quiet(a),
{
    reveal(runtime::tick_step);
    law_a_refresh_asks_for_what_is_shown(a, env, Refresh::Background);
    if !a.load.loading {
        tasks::law_only_a_persons_refresh_takes_the_keyboard(a, Refresh::Background, env);
    }
}

/// The loop never sleeps past the next thing to show: a second at most, less while the mascot or the
/// spinner moves, and not past the next periodic refresh.
pub proof fn law_the_loop_wakes_in_time(a: AppView, busy: bool, env: Env)
    requires
        a.load.last_refresh <= env.now,
    ensures
        ({
            let w = runtime::wait(a, busy, env);
            let mascot = a.mascot.show_mascot && a.mode == Mode::Normal && !env.options.ascii;
            let loading = a.load.banner(env.now) is Some;
            let due = a.load.last_refresh + env.options.refresh_interval.nanos;
            let refreshes = a.load.auto_refresh && a.mode == Mode::Normal;
            &&& 0 <= w <= 1_000_000_000
            &&& mascot ==> w <= 200_000_000
            &&& mascot && busy ==> w <= 100_000_000
            &&& loading ==> w <= 120_000_000
            &&& refreshes && due >= env.now ==> env.now + w <= due
            &&& refreshes && due < env.now ==> w == 0
            &&& !mascot && !loading && !refreshes ==> w == 1_000_000_000
            &&& !mascot && !loading && refreshes && due >= env.now + 1_000_000_000 ==> w == 1_000_000_000
        }),
{
}

/// The mascot is told of a view that it has not seen, and whether that is a chart; that the keyboard has
/// gone quiet, or is used again; and that a result has landed. While it is hidden it is told nothing.
pub proof fn law_the_mascot_is_told_what_happened(a: AppView, env: Env, on_metric_chart: bool, auto: bool)
    requires
        a.mascot.last_input <= env.now,
    ensures
        ({
            let news = runtime::mascot_news(a, env).1;
            let shown = a.mascot.show_mascot && a.mode == Mode::Normal && !env.options.ascii;
            let idle = env.now - a.mascot.last_input >= 3_000_000_000;
            &&& !shown ==> news.len() == 0
            &&& shown ==> (news.contains(MascotEvent::Navigated { on_metric_chart }) <==> a.mascot.seen != Some(a.tag())
                && on_metric_chart == (a.at.route is MetricDetail))
            &&& shown ==> (news.contains(MascotEvent::Idle) <==> idle && !a.mascot.idle)
            &&& shown ==> (news.contains(MascotEvent::Active) <==> !idle && a.mascot.idle)
            &&& shown ==> (news.contains(MascotEvent::Refreshed { auto }) <==> a.mascot.refresh_pending && auto
                == a.load.auto_refresh)
            &&& shown ==> runtime::mascot_news(a, env).0.mascot.seen == Some(a.tag()) && runtime::mascot_news(a, env).0.mascot.idle
                == idle && !runtime::mascot_news(a, env).0.mascot.refresh_pending
        }),
{
    let news = runtime::mascot_news(a, env).1;
    let moved = a.mascot.seen != Some(a.tag());
    let idle = env.now - a.mascot.last_input >= 3_000_000_000;
    if a.mascot.show_mascot && a.mode == Mode::Normal && !env.options.ascii {
        let x: int = if moved { 1 } else { 0 };
        let y: int = if idle != a.mascot.idle { 1 } else { 0 };
        if moved {
            assert(news[0] == (MascotEvent::Navigated { on_metric_chart: a.at.route is MetricDetail }));
        }
        if idle != a.mascot.idle {
            assert(news[x] == if idle { MascotEvent::Idle } else { MascotEvent::Active });
        }
        if a.mascot.refresh_pending {
            assert(news[x + y] == (MascotEvent::Refreshed { auto: a.load.auto_refresh }));
        }
    }
}

/// While a query holds the keyboard only `q` does anything, and it quits; else a key does what it does on
/// the view. The moment of the press is kept either way.
pub proof fn law_a_held_keyboard_takes_q_only(a: AppView, key: KeyEvent, env: Env)
    ensures
        runtime::press_step(a, key, env).0.app.mascot.last_input == env.now || (!a.load.input_locked || !key.press),
        a.load.input_locked && key.press && key.code != KeyCode::Char('q') ==> runtime::press_step(a, key, env).0.app.at == a.at
            && runtime::press_step(a, key, env).0.app.load.input_refused && runtime::press_step(a, key, env).1
            == keys::Control::Continue && runtime::press_step(a, key, env).0.requests.len() == 0,
        a.load.input_locked && key.press && key.code == KeyCode::Char('q') ==> runtime::press_step(a, key, env).1
            == keys::Control::Quit,
        !a.load.input_locked ==> runtime::press_step(a, key, env) == keys::key_step(
            AppView { mascot: MascotView { last_input: env.now, ..a.mascot }, ..a },
            key,
            env,
        ),
{
    reveal(runtime::press_step);
}

/// The banner of a long query tells how long it has run, from two seconds on or once a key was refused.
pub proof fn law_the_banner_tells_how_long(a: LoadView, now: u64, since: u64)
    requires
        a.loading_since == Some(since),
        since <= now,
    ensures
        a.banner(now) == if a.input_refused || now - since >= 2_000_000_000 { Some(now - since) } else { None },
{
}

} // verus!
