//! What the interface asks of the database, and what it keeps of the answers.
//!
//! The state machine never waits: it hands out [`Request`]s, which the application carries out in
//! the background, and takes the answers back as updates.

use vstd::prelude::*;

use crate::app::{App, AppView, LoadView, PagingView, TraceView};
use crate::completion;
use crate::completion::{LogCompletionRequest, LogRequestView};
use crate::geometry;
use crate::model;
use crate::model::{
    CorrelationView, ExemplarMarker, LogCorrelation, Options, PageCursor, Refresh, Route, RouteView,
    Screen, TIME_RANGES_LEN,
};
use crate::promql;
use crate::text;
use crate::time::Duration;

verus! {

/// What the moment of an event brings: the session's options, a monotonic clock in nanoseconds, and
/// the wall clock in nanoseconds since the Unix epoch.
#[derive(Debug, Clone, Copy)]
pub struct Env {
    pub options: Options,
    pub now: u64,
    pub wall_ns: i64,
}

/// A query for the current screen.
#[derive(Debug)]
pub struct RefreshRequest {
    pub generation: u64,
    pub screen: Screen,
    pub query: String,
    pub options: Options,
    pub after: Option<PageCursor>,
    pub correlation: Option<LogCorrelation>,
}

/// Work for the background.
#[derive(Debug)]
pub enum Request {
    Refresh(RefreshRequest),
    AttributeStats(Option<(i64, i64)>),
    Promotion(Vec<String>),
    MetricDims { name: String, max_values: usize },
    LogLabels,
    LogLabelValues(String),
    Vocabulary,
    Waterfall { generation: u64, trace_id: String, ascii: bool },
    Exemplars { metric: String, start_ns: i64, end_ns: i64, labels: String, query: String },
}

/// What a request asks for.
#[verifier::ext_equal]
#[allow(inconsistent_fields)]
pub enum RequestView {
    Refresh {
        generation: u64,
        screen: Screen,
        query: Seq<char>,
        options: Options,
        after: Option<PageCursor>,
        correlation: Option<CorrelationView>,
    },
    AttributeStats(Option<(i64, i64)>),
    Promotion(Seq<Seq<char>>),
    MetricDims { name: Seq<char>, max_values: usize },
    LogLabels,
    LogLabelValues(Seq<char>),
    Vocabulary,
    Waterfall { generation: u64, trace_id: Seq<char>, ascii: bool },
    Exemplars { metric: Seq<char>, start_ns: i64, end_ns: i64, labels: Seq<char>, query: Seq<char> },
}

impl View for Request {
    type V = RequestView;

    open spec fn view(&self) -> RequestView {
        match *self {
            Request::Refresh(r) => RequestView::Refresh {
                generation: r.generation,
                screen: r.screen,
                query: r.query@,
                options: r.options,
                after: r.after,
                correlation: model::correlation_view(r.correlation),
            },
            Request::AttributeStats(key) => RequestView::AttributeStats(key),
            Request::Promotion(keys) => RequestView::Promotion(text::strs(keys@)),
            Request::MetricDims { name, max_values } => RequestView::MetricDims { name: name@, max_values },
            Request::LogLabels => RequestView::LogLabels,
            Request::LogLabelValues(label) => RequestView::LogLabelValues(label@),
            Request::Vocabulary => RequestView::Vocabulary,
            Request::Waterfall { generation, trace_id, ascii } => RequestView::Waterfall {
                generation,
                trace_id: trace_id@,
                ascii,
            },
            Request::Exemplars { metric, start_ns, end_ns, labels, query } => RequestView::Exemplars {
                metric: metric@,
                start_ns,
                end_ns,
                labels: labels@,
                query: query@,
            },
        }
    }
}

/// What a list of requests asks for.
pub open spec fn asked(v: Seq<Request>) -> Seq<RequestView> {
    v.map_values(|r: Request| r@)
}

/// What an event does: the state it leaves, and what is asked of the background.
pub struct Step {
    pub app: AppView,
    pub requests: Seq<RequestView>,
}

impl Step {
    /// The step followed by another, which starts from the state this one leaves.
    pub open spec fn and(self, next: Step) -> Step {
        Step { app: next.app, requests: self.requests + next.requests }
    }
}

/// A step that asks for nothing.
pub open spec fn quiet(app: AppView) -> Step {
    Step { app, requests: Seq::empty() }
}

/// A step that asks for one thing.
pub open spec fn asking(app: AppView, request: RequestView) -> Step {
    Step { app, requests: seq![request] }
}

/// The options of a query: those of the session, over the window that is selected.
pub open spec fn query_options(a: AppView, options: Options) -> Options {
    Options {
        lookback: Duration { nanos: (model::range_secs(a.range.range_index as int).0 * 1_000_000_000) as u128 },
        step: Duration { nanos: (model::range_secs(a.range.range_index as int).1 * 1_000_000_000) as u128 },
        window: a.range.abs_window,
        ..options
    }
}

/// The refresh that waits for the one in flight: a person's request among those that wait makes it
/// theirs.
pub open spec fn coalesced(pending: Option<Refresh>, origin: Refresh) -> Refresh {
    if pending == Some(Refresh::Interactive) { Refresh::Interactive } else { origin }
}

/// The state once a query for the current screen is asked for. Any refresh but a page move returns
/// the Logs list to its newest page.
pub open spec fn refreshing(a: AppView, origin: Refresh, now: u64) -> AppView {
    let paging = if a.paging.log_paging {
        PagingView { log_paging: false, ..a.paging }
    } else {
        PagingView { log_cursor_stack: Seq::empty(), log_next_cursor: None, ..a.paging }
    };
    let load = a.load.begin(origin, now);
    AppView {
        paging,
        load: LoadView {
            generation: if load.generation == u64::MAX { 0 } else { (load.generation + 1) as u64 },
            ..load
        },
        ..a
    }
}

/// Asking for a fresh result. One that is asked for while another is in flight waits for it.
#[verifier::opaque]
pub open spec fn refresh_step(a: AppView, origin: Refresh, env: Env) -> Step {
    if a.load.loading {
        quiet(
            AppView {
                load: LoadView { pending_refresh: Some(coalesced(a.load.pending_refresh, origin)), ..a.load },
                ..a
            },
        )
    } else {
        let b = refreshing(a, origin, env.now);
        let query = RequestView::Refresh {
            generation: b.load.generation,
            screen: b.screen(),
            query: b.active_query(),
            options: query_options(b, env.options),
            after: if b.paging.log_cursor_stack.len() > 0 { Some(b.paging.log_cursor_stack.last()) } else { None },
            correlation: b.at.log_correlation,
        };
        if b.screen() == Screen::Overview && b.needs_measure(env.now) {
            Step { app: b, requests: seq![RequestView::AttributeStats(b.range.attr_window), query] }
        } else {
            asking(b, query)
        }
    }
}

/// Asking for the waterfall of the trace that the Traces list points at, unless it is shown or in
/// flight. The trace held, and a wish to open one, belonged to the trace just left.
#[verifier::opaque]
pub open spec fn waterfall_step(a: AppView, ascii: bool) -> Step {
    match a.target_trace() {
        Some(trace_id) => if a.trace.detail_trace_id == Some(trace_id) {
            quiet(a)
        } else {
            asking(
                AppView {
                    trace: TraceView {
                        detail_trace_id: Some(trace_id),
                        trace_detail: None,
                        pending_trace_open: false,
                        ..a.trace
                    },
                    ..a
                },
                RequestView::Waterfall { generation: a.load.generation, trace_id, ascii },
            )
        },
        None => quiet(a),
    }
}

/// Asking for the exemplars of an open series, over the window it plots.
#[verifier::opaque]
pub open spec fn exemplars_step(a: AppView) -> Step {
    let b = AppView { metric_exemplars: Seq::empty(), ..a };
    match a.at.route {
        RouteView::MetricDetail { labels, query, points } => match promql::detail_metric(labels, query) {
            Some(metric) => if points.len() == 0 {
                quiet(b)
            } else {
                asking(
                    b,
                    RequestView::Exemplars {
                        metric,
                        start_ns: geometry::min(points[0].0 as int, points.last().0 as int) as i64,
                        end_ns: geometry::max(points[0].0 as int, points.last().0 as int) as i64,
                        labels,
                        query,
                    },
                )
            },
            None => quiet(b),
        },
        _ => quiet(b),
    }
}

/// Asking for the vocabulary that the caret's position wants: a metric's dimensions, or log labels.
#[verifier::opaque]
pub open spec fn discover_step(a: AppView, env: Env) -> Step {
    let first = match a.dims_wanted() {
        Some((name, _)) => asking(
            a.dims_asked(),
            RequestView::MetricDims { name, max_values: env.options.max_series },
        ),
        None => quiet(a.dims_asked()),
    };
    let b = first.app;
    first.and(
        match b.log_words_wanted() {
            Some(LogRequestView::Labels) => asking(b.log_words_asked(), RequestView::LogLabels),
            Some(LogRequestView::Values(label)) => asking(
                b.log_words_asked(),
                RequestView::LogLabelValues(label),
            ),
            None => quiet(b.log_words_asked()),
        },
    )
}

/// Whether an event took the state and the requests from what they were to what the step says.
pub open spec fn took(step: Step, app: AppView, before: Seq<Request>, after: Seq<Request>) -> bool {
    app == step.app && asked(after) == asked(before) + step.requests
}

/// Adds a request.
pub(crate) fn ask(out: &mut Vec<Request>, request: Request)
    ensures
        asked(final(out)@) == asked(old(out)@) + seq![request@],
{
    let ghost before = out@;
    out.push(request);
    assert(asked(out@) =~= asked(before) + seq![request@]);
}

proof fn lemma_nothing_asked(v: Seq<Request>)
    ensures
        asked(v) + Seq::<RequestView>::empty() == asked(v),
{
    assert(asked(v) + Seq::<RequestView>::empty() =~= asked(v));
}

/// Asks for a fresh result of the current screen, over the selected window. While a query is in
/// flight the request waits for it. The Overview's attribute statistics are a scan and not a query,
/// so they are asked for on their own, when they are due.
pub fn request_refresh(app: &mut App, origin: Refresh, env: &Env, out: &mut Vec<Request>)
    requires
        old(app)@.range.range_index < TIME_RANGES_LEN,
    ensures
        took(refresh_step(old(app)@, origin, *env), final(app)@, old(out)@, final(out)@),
{
    proof {
        reveal(refresh_step);
        lemma_nothing_asked(out@);
    }
    if app.load.loading {
        let kept = match app.load.pending_refresh {
            Some(Refresh::Interactive) => Refresh::Interactive,
            _ => origin,
        };
        app.load.pending_refresh = Some(kept);
        return;
    }
    if app.paging.log_paging {
        app.paging.log_paging = false;
    } else {
        app.paging.log_cursor_stack.clear();
        app.paging.log_next_cursor = None;
    }
    app.begin_loading(origin, env.now);
    app.load.generation = if app.load.generation == u64::MAX { 0 } else { app.load.generation + 1 };
    assert(app@ == refreshing(old(app)@, origin, env.now));
    let n: usize = app.paging.log_cursor_stack.len();
    let after = if n > 0 { Some(app.paging.log_cursor_stack[n - 1]) } else { None };
    let correlation = match &app.at.log_correlation {
        Some(c) => Some(c.clone()),
        None => None,
    };
    let query = text::owned(app.active_query());
    let options = Options {
        refresh_interval: env.options.refresh_interval,
        lookback: app.lookback(),
        step: app.step(),
        window: app.range.abs_window,
        max_series: env.options.max_series,
        max_rows: env.options.max_rows,
        ascii: env.options.ascii,
    };
    assert(options == query_options(app@, env.options));
    let request = Request::Refresh(
        RefreshRequest { generation: app.load.generation, screen: app.screen(), query, options, after, correlation },
    );
    if app.screen() == Screen::Overview && app.needs_attr_measure(env.now) {
        ask(out, Request::AttributeStats(app.range.attr_window));
        let ghost first = asked(out@);
        ask(out, request);
        assert(asked(out@) =~= asked(old(out)@) + seq![
            RequestView::AttributeStats(app@.range.attr_window),
            request@,
        ]);
    } else {
        ask(out, request);
    }
}

/// Asks for the waterfall of the trace that the Traces list points at, unless it is shown or in
/// flight already.
pub fn request_waterfall(app: &mut App, ascii: bool, out: &mut Vec<Request>)
    ensures
        took(waterfall_step(old(app)@, ascii), final(app)@, old(out)@, final(out)@),
{
    proof {
        reveal(waterfall_step);
        lemma_nothing_asked(out@);
    }
    let trace_id = match app.target_trace_id() {
        Some(trace_id) => trace_id,
        None => {
            return;
        },
    };
    if let Some(shown) = &app.trace.detail_trace_id {
        if text::same(shown, &trace_id) {
            return;
        }
    }
    app.trace.detail_trace_id = Some(trace_id.clone());
    app.trace.trace_detail = None;
    app.trace.pending_trace_open = false;
    ask(out, Request::Waterfall { generation: app.load.generation, trace_id, ascii });
}

/// Asks for the exemplars of the open series, dropping those of the last one. Nothing is asked for
/// off a series' detail, for an empty series, or where the metric's name cannot be told.
pub fn request_metric_exemplars(app: &mut App, out: &mut Vec<Request>)
    ensures
        took(exemplars_step(old(app)@), final(app)@, old(out)@, final(out)@),
{
    proof {
        reveal(exemplars_step);
        lemma_nothing_asked(out@);
    }
    app.metric_exemplars.clear();
    if let Route::MetricDetail { detail } = &app.at.route {
        let n: usize = detail.points.len();
        if let Some(metric) = promql::metric_name_from_detail(detail) {
            if n > 0 {
                let first: i64 = detail.points[0].0;
                let last: i64 = detail.points[n - 1].0;
                let request = Request::Exemplars {
                    metric,
                    start_ns: if first <= last { first } else { last },
                    end_ns: if first <= last { last } else { first },
                    labels: detail.labels.clone(),
                    query: detail.query.clone(),
                };
                ask(out, request);
            }
        }
    }
}

/// Where the caret stands in a position whose vocabulary is not discovered, asks for it.
pub fn maybe_discover_label_dims(app: &mut App, env: &Env, out: &mut Vec<Request>)
    ensures
        took(discover_step(old(app)@, *env), final(app)@, old(out)@, final(out)@),
{
    proof {
        reveal(discover_step);
        lemma_nothing_asked(out@);
    }
    if let Some((name, _)) = app.completion_dim_request() {
        ask(out, Request::MetricDims { name, max_values: env.options.max_series });
    }
    let ghost middle = asked(out@);
    match app.completion_log_request() {
        Some(LogCompletionRequest::Labels) => ask(out, Request::LogLabels),
        Some(LogCompletionRequest::Values(label)) => ask(out, Request::LogLabelValues(label)),
        None => {},
    }
    assert(asked(out@) =~= asked(old(out)@) + discover_step(old(app)@, *env).requests);
}

/// Asks for the metric names, which only the Metrics screen completes against.
pub fn request_vocabulary(screen: Screen, out: &mut Vec<Request>)
    ensures
        asked(final(out)@) == asked(old(out)@) + (if screen == Screen::Metrics {
            seq![RequestView::Vocabulary]
        } else {
            Seq::empty()
        }),
{
    proof {
        lemma_nothing_asked(out@);
    }
    if screen == Screen::Metrics {
        ask(out, Request::Vocabulary);
    }
}

/// An exemplar as the database gives it.
pub struct Exemplar {
    pub time_ns: i64,
    pub trace_id: Option<String>,
}

/// Whether an exemplar marks the chart: it carries a trace, and lies within the plotted window.
pub open spec fn marks(e: Exemplar, start_ns: i64, end_ns: i64) -> bool {
    e.trace_id is Some && start_ns <= e.time_ns <= end_ns
}

/// The markers of the first `n` exemplars.
pub open spec fn markers_of(v: Seq<Exemplar>, start_ns: i64, end_ns: i64, n: nat) -> Seq<ExemplarMarker>
    decreases n,
{
    if n == 0 {
        Seq::empty()
    } else {
        let before = markers_of(v, start_ns, end_ns, (n - 1) as nat);
        let e = v[n - 1];
        if marks(e, start_ns, end_ns) {
            before.push(ExemplarMarker { time_ns: e.time_ns, trace_id: e.trace_id->0 })
        } else {
            before
        }
    }
}

/// The exemplars that mark the chart of a series plotted from `start_ns` to `end_ns`.
pub fn exemplar_markers(exemplars: &Vec<Exemplar>, start_ns: i64, end_ns: i64) -> (r: Vec<ExemplarMarker>)
    ensures
        r@ == markers_of(exemplars@, start_ns, end_ns, exemplars@.len()),
{
    let mut out: Vec<ExemplarMarker> = Vec::new();
    let n: usize = exemplars.len();
    let mut i: usize = 0;
    while i < n
        invariant
            n == exemplars@.len(),
            i <= n,
            out@ == markers_of(exemplars@, start_ns, end_ns, i as nat),
        decreases n - i,
    {
        let e = &exemplars[i];
        if let Some(trace_id) = &e.trace_id {
            if start_ns <= e.time_ns && e.time_ns <= end_ns {
                out.push(ExemplarMarker { time_ns: e.time_ns, trace_id: trace_id.clone() });
            }
        }
        i += 1;
    }
    out
}

/// The names in order, each once.
pub open spec fn in_order(names: Seq<Seq<char>>) -> Seq<Seq<char>>
    decreases names.len(),
{
    if names.len() == 0 {
        Seq::empty()
    } else {
        completion::put(in_order(names.drop_last()), names.last())
    }
}

/// The metric names of a catalog, in order, each once: what the query box completes against.
pub fn vocabulary_names(names: &Vec<String>) -> (r: Vec<String>)
    ensures
        text::strs(r@) == in_order(text::strs(names@)),
{
    let ghost all = text::strs(names@);
    let mut out: Vec<String> = Vec::new();
    let n: usize = names.len();
    let mut i: usize = 0;
    assert(text::strs(out@) =~= in_order(all.take(0)));
    while i < n
        invariant
            n == names@.len(),
            i <= n,
            all == text::strs(names@),
            text::strs(out@) == in_order(all.take(i as int)),
        decreases n - i,
    {
        assert(all[i as int] == names@[i as int]@);
        assert(all.take(i + 1).drop_last() =~= all.take(i as int));
        completion::put_name(&mut out, names[i].clone());
        i += 1;
    }
    assert(all.take(n as int) =~= all);
    out
}

/// The vocabulary is in order, holds nothing twice, and holds the names that it was made of.
pub proof fn law_the_vocabulary_is_ordered(names: Seq<Seq<char>>)
    ensures
        completion::ascending(in_order(names)),
        forall|x: Seq<char>| #[trigger] in_order(names).contains(x) <==> names.contains(x),
    decreases names.len(),
{
    if names.len() > 0 {
        let rest = names.drop_last();
        law_the_vocabulary_is_ordered(rest);
        completion::lemma_put(in_order(rest), names.last());
        assert forall|x: Seq<char>| #[trigger] in_order(names).contains(x) <==> names.contains(x) by {
            if rest.contains(x) {
                let k = choose|k: int| 0 <= k < rest.len() && rest[k] == x;
                assert(names[k] == x);
            }
            if names.contains(x) && x != names.last() {
                let k = choose|k: int| 0 <= k < names.len() && names[k] == x;
                assert(rest[k] == x);
            }
            assert(names[names.len() - 1] == names.last());
        }
    }
}

/// A refresh in flight makes every further one wait, and what waits stays a person's once a person
/// has asked.
pub proof fn law_refreshes_coalesce(a: AppView, first: Refresh, second: Refresh, env: Env)
    requires
        a.load.loading,
    ensures
        refresh_step(a, first, env).requests.len() == 0,
        refresh_step(a, first, env).app.load.generation == a.load.generation,
        ({
            let b = refresh_step(a, first, env).app;
            let c = refresh_step(b, second, env).app;
            c.load.pending_refresh == Some(Refresh::Interactive) <==> (first == Refresh::Interactive || second
                == Refresh::Interactive || a.load.pending_refresh == Some(Refresh::Interactive))
        }),
{
    reveal(refresh_step);
}

/// A timer's refresh never takes the keyboard; a person's does until its result lands.
pub proof fn law_only_a_persons_refresh_takes_the_keyboard(a: AppView, origin: Refresh, env: Env)
    requires
        !a.load.loading,
    ensures
        refresh_step(a, origin, env).app.load.input_locked <==> origin == Refresh::Interactive,
        refresh_step(a, origin, env).app.load.loading,
        refresh_step(a, origin, env).app.load.generation != a.load.generation,
{
    reveal(refresh_step);
}

/// Only a page move keeps the page of the Logs list, and only for its own refresh.
pub proof fn law_a_page_lasts_one_refresh(a: AppView, origin: Refresh, env: Env)
    requires
        !a.load.loading,
    ensures
        ({
            let b = refresh_step(a, origin, env).app;
            &&& a.paging.log_paging ==> b.paging.log_cursor_stack == a.paging.log_cursor_stack && !b.paging.log_paging
            &&& !a.paging.log_paging ==> b.paging.log_cursor_stack.len() == 0
        }),
{
    reveal(refresh_step);
}

/// A waterfall is asked for once: once it is, the same selection asks for nothing.
pub proof fn law_a_waterfall_is_asked_for_once(a: AppView, ascii: bool)
    ensures
        waterfall_step(waterfall_step(a, ascii).app, ascii).requests.len() == 0,
{
    reveal(waterfall_step);
    let b = waterfall_step(a, ascii).app;
    assert(b.selectable() == a.selectable());
    assert(b.target_trace() == a.target_trace());
}

} // verus!
