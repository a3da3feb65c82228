//! The event loop's decisions: what a key, an update or a tick does, how long to wait for the next
//! event, and what the mascot is told.

use std::sync::Arc;

use vstd::prelude::*;

use crate::app::{App, AppView, AttributeView, FrameState, LoadView, MascotView, TraceView, VocabularyView};
use crate::app;
use crate::completion;
use crate::geometry;
use crate::input::{KeyCode, KeyEvent};
use crate::keys;
use crate::keys::Control;
use crate::mascot::{MascotEvent, MASCOT_IDLE_AFTER};
use crate::model;
use crate::model::{
    DetailPane, ExemplarMarker, Mode, QueryResult, Refresh, Route, RouteView, SnapView,
    TraceDetail, Update, SPINNER_FRAME, TIME_RANGES_LEN,
};
use crate::tasks;
use crate::tasks::{Env, Request, RequestView, Step};
use crate::text;

verus! {

/// How long the loop waits at most, in nanoseconds: the header clock ticks once a second.
pub const CLOCK_TICK: u64 = 1_000_000_000;

/// How long the loop waits at most while the mascot is on screen.
pub const MASCOT_TICK: u64 = 200_000_000;

/// How long the loop waits at most while the mascot is in the middle of a motion.
pub const MASCOT_BUSY_TICK: u64 = 100_000_000;

impl AppView {
    /// The state with other vocabulary, the popup recomputed.
    pub open spec fn with_words(self, words: VocabularyView) -> AppView {
        (AppView { words, ..self }).refresh_popup()
    }

    /// The state once a trace's waterfall has landed, where it is still the one awaited. A wish to
    /// open the trace is fulfilled.
    pub open spec fn take_waterfall(
        self,
        generation: u64,
        trace_id: Seq<char>,
        detail: Arc<DetailPane>,
        trace: Option<Arc<TraceDetail>>,
    ) -> AppView {
        if generation == self.load.generation && self.trace.detail_trace_id == Some(trace_id) {
            let wished = self.trace.pending_trace_open || self.trace.focus_trace_open;
            let b = AppView {
                snapshot: SnapView { detail: Some(detail), ..self.snapshot },
                trace: TraceView {
                    trace_detail: trace,
                    pending_trace_open: false,
                    focus_trace_open: false,
                    ..self.trace
                },
                ..self
            };
            if wished {
                match b.open_trace_detail() {
                    Some(c) => c,
                    None => b,
                }
            } else {
                b
            }
        } else {
            self
        }
    }

    /// The state once the exemplars of a series have landed, where the series is still shown.
    pub open spec fn take_exemplars(self, of: Seq<char>, by: Seq<char>, markers: Seq<ExemplarMarker>) -> AppView {
        match self.at.route {
            RouteView::MetricDetail { labels, query, .. } => if labels == of && query == by {
                AppView { metric_exemplars: markers, ..self }
            } else {
                self
            },
            _ => self,
        }
    }

    /// The state once the promoted keys are known, or could not be changed. A measurement that was
    /// made against other keys is out of date.
    pub open spec fn take_promoted(self, result: Result<Seq<Seq<char>>, Seq<char>>) -> AppView {
        match result {
            Ok(keys) => AppView {
                attrs: AttributeView {
                    promoted: keys,
                    attr_stats: if keys == self.attrs.promoted { self.attrs.attr_stats } else { None },
                    ..self.attrs
                },
                ..self
            },
            Err(error) => AppView { load: LoadView { last_error: Some(error), ..self.load }, ..self },
        }
    }

    /// Whether the mascot is on screen.
    pub open spec fn mascot_visible(self, ascii: bool) -> bool {
        self.mascot.show_mascot && self.mode == Mode::Normal && !ascii
    }

    /// The state with the catalog tree built over a fresh catalog, where the catalog is shown.
    pub open spec fn build_shown_tree(self) -> AppView {
        if self.on_catalog() { self.build_tree() } else { self }
    }
}

/// The refresh that waited for the one in flight.
#[verifier::opaque]
pub open spec fn pending_step(a: AppView, env: Env) -> Step {
    match a.load.pending_refresh {
        Some(origin) => tasks::refresh_step(
            AppView { load: LoadView { pending_refresh: None, ..a.load }, ..a },
            origin,
            env,
        ),
        None => tasks::quiet(a),
    }
}

/// A query result lands: a refresh that waited is asked for, the cursor goes to a focused trace, the
/// waterfall of the selected trace is asked for, and a fresh catalog becomes a tree.
#[verifier::opaque]
pub open spec fn result_step(a: AppView, result: QueryResult, env: Env) -> Step {
    let landed = a.land(result, env.now);
    let first = pending_step(AppView { mascot: MascotView { refresh_pending: true, ..landed.mascot }, ..landed }, env);
    let second = first.and(tasks::waterfall_step(first.app.focus_select(), env.options.ascii));
    second.and(tasks::quiet(second.app.build_shown_tree()))
}

/// What an update does.
#[verifier::opaque]
pub open spec fn update_step(a: AppView, update: Update, env: Env) -> Step {
    match update {
        Update::Query(result) => result_step(a, result, env),
        Update::Vocabulary(names) => tasks::quiet(
            a.with_words(VocabularyView { metric_names: text::strs(names@), ..a.words }),
        ),
        Update::MetricDims { metric, dims } => tasks::quiet(
            a.take_dims(metric@, model::dims_view(dims@)).refresh_popup(),
        ),
        Update::LogLabels(names) => tasks::quiet(
            a.with_words(
                VocabularyView { log_labels: Some(text::strs(names@)), log_labels_loading: false, ..a.words },
            ),
        ),
        Update::LogLabelValues { label, values } => tasks::quiet(
            a.with_words(
                VocabularyView {
                    log_label_values: completion::keep(a.words.log_label_values, label@, text::strs(values@), 0),
                    log_label_values_loading: completion::without(a.words.log_label_values_loading, label@),
                    ..a.words
                },
            ),
        ),
        Update::Exemplars { labels, query, markers } => tasks::quiet(
            a.take_exemplars(labels@, query@, markers@),
        ),
        Update::Waterfall { generation, trace_id, detail, trace } => tasks::quiet(
            a.take_waterfall(generation, trace_id@, detail, trace),
        ),
        Update::AttributeStats { key, pane } => tasks::quiet(a.take_stats(key, pane, env.now)),
        Update::Promoted(result) => tasks::quiet(
            a.take_promoted(
                match result {
                    Ok(keys) => Ok(text::strs(keys@)),
                    Err(error) => Err(error@),
                },
            ),
        ),
    }
}

/// What a key does in the loop. While a query holds the keyboard, every press but `q` is refused.
#[verifier::opaque]
pub open spec fn press_step(a: AppView, key: KeyEvent, env: Env) -> (Step, Control) {
    let b = AppView { mascot: MascotView { last_input: env.now, ..a.mascot }, ..a };
    if b.load.input_locked && key.press {
        if key.code == KeyCode::Char('q') {
            (tasks::quiet(b), Control::Quit)
        } else {
            (tasks::quiet(AppView { load: LoadView { input_refused: true, ..b.load }, ..b }), Control::Continue)
        }
    } else {
        keys::key_step(b, key, env)
    }
}

/// Whether the periodic refresh is due.
pub open spec fn refresh_due(a: AppView, env: Env) -> bool {
    a.load.auto_refresh && a.mode == Mode::Normal && geometry::monus(env.now as int, a.load.last_refresh as int)
        >= env.options.refresh_interval.nanos
}

/// What a tick does.
#[verifier::opaque]
pub open spec fn tick_step(a: AppView, env: Env) -> Step {
    if refresh_due(a, env) { tasks::refresh_step(a, Refresh::Background, env) } else { tasks::quiet(a) }
}

/// How long the loop may wait before something on screen moves.
pub open spec fn frame_wait(a: AppView, busy: bool, env: Env) -> int {
    let tick = if a.mascot_visible(env.options.ascii) {
        if busy { MASCOT_BUSY_TICK as int } else { MASCOT_TICK as int }
    } else {
        CLOCK_TICK as int
    };
    if a.load.banner(env.now) is Some { geometry::min(tick, SPINNER_FRAME as int) } else { tick }
}

/// How long the loop waits for the next event.
pub open spec fn wait(a: AppView, busy: bool, env: Env) -> int {
    let tick = frame_wait(a, busy, env);
    if a.load.auto_refresh && a.mode == Mode::Normal {
        let passed = geometry::monus(env.now as int, a.load.last_refresh as int);
        geometry::min(geometry::monus(env.options.refresh_interval.nanos as int, passed), tick)
    } else {
        tick
    }
}

/// What the mascot is told, and the state once it has been told.
pub open spec fn mascot_news(a: AppView, env: Env) -> (AppView, Seq<MascotEvent>) {
    if !a.mascot_visible(env.options.ascii) {
        (a, Seq::empty())
    } else {
        let moved = a.mascot.seen != Some(a.tag());
        let idle = geometry::monus(env.now as int, a.mascot.last_input as int) >= MASCOT_IDLE_AFTER;
        let navigated = if moved {
            seq![MascotEvent::Navigated { on_metric_chart: a.at.route is MetricDetail }]
        } else {
            Seq::empty()
        };
        let activity = if idle != a.mascot.idle {
            seq![if idle { MascotEvent::Idle } else { MascotEvent::Active }]
        } else {
            Seq::empty()
        };
        let refreshed = if a.mascot.refresh_pending {
            seq![MascotEvent::Refreshed { auto: a.load.auto_refresh }]
        } else {
            Seq::empty()
        };
        (
            AppView {
                mascot: MascotView {
                    seen: if moved { Some(a.tag()) } else { a.mascot.seen },
                    idle,
                    refresh_pending: false,
                    ..a.mascot
                },
                frame: FrameState {
                    chart_geom: if moved { None } else { a.frame.chart_geom },
                    ..a.frame
                },
                ..a
            },
            navigated + activity + refreshed,
        )
    }
}

proof fn lemma_quiet(v: Seq<Request>)
    ensures
        tasks::asked(v) + Seq::<RequestView>::empty() == tasks::asked(v),
{
    assert(tasks::asked(v) + Seq::<RequestView>::empty() =~= tasks::asked(v));
}

/// The state at the start of a session, its first query asked for.
pub fn start(can_promote: bool, env: &Env, out: &mut Vec<Request>) -> (r: App)
    ensures
        ({
            let a = app::initial(env.now);
            let b = AppView {
                range: app::TimeView { abs_window: env.options.window, ..a.range },
                attrs: AttributeView { can_promote, ..a.attrs },
                ..a
            };
            tasks::took(tasks::refresh_step(b, Refresh::Interactive, *env), r@, old(out)@, final(out)@)
        }),
        r@.wf(),
{
    let mut app = App::new(env.now);
    app.range.abs_window = env.options.window;
    app.attrs.can_promote = can_promote;
    let ghost b = app@;
    tasks::request_refresh(&mut app, Refresh::Interactive, env, out);
    proof {
        reveal(tasks::refresh_step);
    }
    app
}

fn run_pending(app: &mut App, env: &Env, out: &mut Vec<Request>)
    requires
        old(app)@.range.range_index < TIME_RANGES_LEN,
    ensures
        tasks::took(pending_step(old(app)@, *env), final(app)@, old(out)@, final(out)@),
        final(app)@.range == old(app)@.range,
{
    proof {
        reveal(pending_step);
        reveal(tasks::refresh_step);
        lemma_quiet(out@);
    }
    match app.load.pending_refresh {
        Some(origin) => {
            app.load.pending_refresh = None;
            tasks::request_refresh(app, origin, env, out);
        },
        None => {},
    }
}

fn take_result(app: &mut App, result: QueryResult, env: &Env, out: &mut Vec<Request>)
    requires
        old(app)@.range.range_index < TIME_RANGES_LEN,
    ensures
        tasks::took(result_step(old(app)@, result, *env), final(app)@, old(out)@, final(out)@),
{
    proof {
        reveal(result_step);
    }
    app.apply(result, env.now);
    assert(app@.range == old(app)@.range);
    app.mascot.refresh_pending = true;
    let ghost landed = app@;
    run_pending(app, env, out);
    let ghost first = pending_step(landed, *env);
    let ghost o1 = out@;
    app.focus_select_trace();
    let ghost focused = app@;
    tasks::request_waterfall(app, env.options.ascii, out);
    let ghost o2 = out@;
    let ghost second = first.and(tasks::waterfall_step(focused, env.options.ascii));
    assert(tasks::took(second, app@, old(out)@, o2)) by {
        assert(tasks::asked(old(out)@) + first.requests + tasks::waterfall_step(focused, env.options.ascii).requests
            =~= tasks::asked(old(out)@) + second.requests);
    }
    if app.on_catalog() {
        app.build_metric_tree();
    }
    proof {
        lemma_quiet(o2);
        assert(second.requests + Seq::<RequestView>::empty() =~= second.requests);
    }
}

fn take_waterfall(
    app: &mut App,
    generation: u64,
    trace_id: &str,
    detail: Arc<DetailPane>,
    trace: Option<Arc<TraceDetail>>,
)
    ensures
        final(app)@ == old(app)@.take_waterfall(generation, trace_id@, detail, trace),
{
    if generation != app.load.generation {
        return;
    }
    match &app.trace.detail_trace_id {
        Some(id) => {
            if !text::same(id, trace_id) {
                return;
            }
        },
        None => {
            return;
        },
    }
    let wished = app.trace.pending_trace_open || app.trace.focus_trace_open;
    app.snapshot.detail = Some(detail);
    app.trace.trace_detail = trace;
    app.trace.pending_trace_open = false;
    app.trace.focus_trace_open = false;
    if wished {
        app.open_trace_detail();
    }
}

fn take_exemplars(app: &mut App, labels: &str, query: &str, markers: Vec<ExemplarMarker>)
    ensures
        final(app)@ == old(app)@.take_exemplars(labels@, query@, markers@),
{
    if let Some(detail) = app.route_metric_detail() {
        if text::same(&detail.labels, labels) && text::same(&detail.query, query) {
            app.metric_exemplars = markers;
        }
    }
}

fn same_names(a: &Vec<String>, b: &Vec<String>) -> (r: bool)
    ensures
        r == (text::strs(a@) == text::strs(b@)),
{
    let ghost x = text::strs(a@);
    let ghost y = text::strs(b@);
    assert(x.len() == a@.len() && y.len() == b@.len());
    if a.len() != b.len() {
        return false;
    }
    let mut i: usize = 0;
    while i < a.len()
        invariant
            i <= a@.len() == b@.len(),
            x == text::strs(a@),
            y == text::strs(b@),
            forall|j: int| 0 <= j < i ==> x[j] == y[j],
        decreases a.len() - i,
    {
        assert(x[i as int] == a@[i as int]@ && y[i as int] == b@[i as int]@);
        if !text::same(&a[i], &b[i]) {
            return false;
        }
        i += 1;
    }
    assert(x =~= y);
    true
}

fn take_promoted(app: &mut App, result: Result<Vec<String>, String>)
    ensures
        final(app)@ == old(app)@.take_promoted(
            match result {
                Ok(keys) => Ok(text::strs(keys@)),
                Err(error) => Err(error@),
            },
        ),
{
    match result {
        Ok(keys) => {
            if !same_names(&keys, &app.attrs.promoted) {
                app.attrs.attr_stats = None;
            }
            app.attrs.promoted = keys;
        },
        Err(error) => {
            app.load.last_error = Some(error);
        },
    }
}

fn take_vocabulary(app: &mut App, names: Vec<String>)
    requires
        old(app)@.wf(),
    ensures
        final(app)@ == old(app)@.with_words(VocabularyView { metric_names: text::strs(names@), ..old(app)@.words }),
        final(app)@.wf(),
{
    app.words.metric_names = names;
    app.refresh_completion();
}

fn take_dims(app: &mut App, metric: String, dims: Vec<model::DimNode>)
    requires
        old(app)@.wf(),
    ensures
        final(app)@ == old(app)@.take_dims(metric@, model::dims_view(dims@)).refresh_popup(),
        final(app)@.wf(),
{
    proof {
        assert(app.catalog.metric_tree.len() <= usize::MAX);
        lemma_dims_sound(app@, metric@, model::dims_view(dims@));
    }
    app.apply_metric_dims(&metric, dims);
    app.refresh_completion();
}

fn take_labels(app: &mut App, names: Vec<String>)
    requires
        old(app)@.wf(),
    ensures
        final(app)@ == old(app)@.with_words(
            VocabularyView { log_labels: Some(text::strs(names@)), log_labels_loading: false, ..old(app)@.words },
        ),
        final(app)@.wf(),
{
    app.words.log_labels = Some(names);
    app.words.log_labels_loading = false;
    app.refresh_completion();
}

fn take_label_values(app: &mut App, label: String, values: Vec<String>)
    requires
        old(app)@.wf(),
    ensures
        final(app)@ == old(app)@.with_words(
            VocabularyView {
                log_label_values: completion::keep(old(app)@.words.log_label_values, label@, text::strs(values@), 0),
                log_label_values_loading: completion::without(old(app)@.words.log_label_values_loading, label@),
                ..old(app)@.words
            },
        ),
        final(app)@.wf(),
{
    let waiting = completion::drop_name(&app.words.log_label_values_loading, &label);
    completion::put_kept(&mut app.words.log_label_values, label, values);
    app.words.log_label_values_loading = waiting;
    app.refresh_completion();
}

/// Applies an update that background work delivers. What answers a question that is no longer asked
/// changes nothing.
pub fn apply_update(app: &mut App, update: Update, env: &Env, out: &mut Vec<Request>)
    requires
        old(app)@.wf(),
    ensures
        tasks::took(update_step(old(app)@, update, *env), final(app)@, old(out)@, final(out)@),
        final(app)@.wf(),
{
    proof {
        reveal(update_step);
        lemma_quiet(out@);
        assert(app.catalog.metric_tree.len() <= usize::MAX);
    }
    let ghost a = app@;
    match update {
        Update::Query(result) => {
            take_result(app, result, env, out);
            proof {
                assert(app.catalog.metric_tree.len() <= usize::MAX);
                lemma_result_sound(a, result, *env);
            }
        },
        Update::Vocabulary(names) => take_vocabulary(app, names),
        Update::MetricDims { metric, dims } => take_dims(app, metric, dims),
        Update::LogLabels(names) => take_labels(app, names),
        Update::LogLabelValues { label, values } => take_label_values(app, label, values),
        Update::Exemplars { labels, query, markers } => take_exemplars(app, &labels, &query, markers),
        Update::Waterfall { generation, trace_id, detail, trace } => take_waterfall(
            app,
            generation,
            &trace_id,
            detail,
            trace,
        ),
        Update::AttributeStats { key, pane } => app.take_attr_stats(key, pane, env.now),
        Update::Promoted(result) => take_promoted(app, result),
    }
}

proof fn lemma_dims_sound(a: AppView, metric: Seq<char>, dims: Seq<model::DimView>)
    requires
        a.wf(),
        a.catalog.metric_tree.len() <= usize::MAX,
    ensures
        a.take_dims(metric, dims).wf(),
{
    let tree = a.catalog.metric_tree;
    app::popup::lemma_node_named(tree, metric, 0);
    let b = match completion::node_named(tree, metric, 0) {
        Some(mi) => a.with_tree(tree.update(mi, model::NodeView { dims: Some(dims), loading: false, ..tree[mi] })),
        None => a,
    };
    app::catalog::law_catalog_rows_match_the_tree(b);
}

proof fn lemma_result_sound(a: AppView, result: QueryResult, env: Env)
    requires
        a.wf(),
        result_step(a, result, env).app.catalog.metric_tree.len() <= usize::MAX,
    ensures
        result_step(a, result, env).app.wf(),
{
    reveal(result_step);
    reveal(pending_step);
    reveal(tasks::refresh_step);
    reveal(tasks::waterfall_step);
    let landed = a.land(result, env.now);
    assert(landed.range == a.range && landed.words == a.words && landed.catalog == a.catalog);
    let shown = AppView { mascot: MascotView { refresh_pending: true, ..landed.mascot }, ..landed };
    let first = pending_step(shown, env);
    assert(first.app.range == a.range && first.app.words == a.words && first.app.catalog == a.catalog);
    let second = first.and(tasks::waterfall_step(first.app.focus_select(), env.options.ascii));
    assert(second.app.range == a.range && second.app.words == a.words && second.app.catalog == a.catalog);
    if second.app.on_catalog() {
        if let Some(table) = second.app.snapshot.table {
            let b = second.app.with_tree(app::catalog::carried_tree(second.app.catalog.metric_tree, table.rows));
            if table.header.len() > 0 && table.header[0] == "Metric"@ {
                app::catalog::law_catalog_rows_match_the_tree(b);
            }
        }
    }
}

/// Applies a key to the session. While a query holds the keyboard only `q` does anything; a press
/// that is refused is remembered, so that the banner can explain it.
pub fn press_key(app: &mut App, key: KeyEvent, env: &Env, out: &mut Vec<Request>) -> (r: Control)
    requires
        old(app)@.wf(),
    ensures
        r == press_step(old(app)@, key, *env).1,
        tasks::took(press_step(old(app)@, key, *env).0, final(app)@, old(out)@, final(out)@),
        final(app)@.wf(),
{
    proof {
        reveal(press_step);
        lemma_quiet(out@);
    }
    app.mascot.last_input = env.now;
    if app.load.input_locked && key.press {
        if key.code == KeyCode::Char('q') {
            return Control::Quit;
        }
        app.load.input_refused = true;
        return Control::Continue;
    }
    keys::handle_key(app, key, env, out)
}

/// Applies a tick: asks for the periodic refresh once its interval has passed. The shorter ticks
/// only redraw.
pub fn tick(app: &mut App, env: &Env, out: &mut Vec<Request>)
    requires
        old(app)@.wf(),
    ensures
        tasks::took(tick_step(old(app)@, *env), final(app)@, old(out)@, final(out)@),
        final(app)@.wf(),
{
    proof {
        reveal(tick_step);
        reveal(tasks::refresh_step);
        lemma_quiet(out@);
    }
    let passed: u64 = if env.now >= app.load.last_refresh { env.now - app.load.last_refresh } else { 0 };
    if app.load.auto_refresh && app.mode == Mode::Normal && passed as u128 >= env.options.refresh_interval.nanos {
        tasks::request_refresh(app, Refresh::Background, env, out);
    }
}

/// Whether the mascot is on screen: it is asked for, nothing is open above it, and the terminal can
/// show it.
pub fn mascot_visible(app: &App, ascii: bool) -> (r: bool)
    ensures
        r == app@.mascot_visible(ascii),
{
    app.mascot.show_mascot && app.mode == Mode::Normal && !ascii
}

/// How long to wait for the next event, in nanoseconds: until something on screen moves, or until
/// the periodic refresh is due.
pub fn wait_ns(app: &App, busy: bool, env: &Env) -> (r: u64)
    ensures
        r == wait(app@, busy, *env),
{
    let mut tick: u64 = if mascot_visible(app, env.options.ascii) {
        if busy { MASCOT_BUSY_TICK } else { MASCOT_TICK }
    } else {
        CLOCK_TICK
    };
    if app.loading_banner(env.now).is_some() && tick > SPINNER_FRAME {
        tick = SPINNER_FRAME;
    }
    if app.load.auto_refresh && app.mode == Mode::Normal {
        let passed: u64 = if env.now >= app.load.last_refresh { env.now - app.load.last_refresh } else { 0 };
        let interval: u128 = env.options.refresh_interval.nanos;
        let left: u128 = if interval > passed as u128 { interval - passed as u128 } else { 0 };
        if left < tick as u128 {
            return left as u64;
        }
    }
    tick
}

/// What the mascot is told before a frame: that the view changed, that the user went quiet or came
/// back, that a result landed. Nothing is told while the mascot is not on screen. A change of view
/// drops the chart of the last one, so that a ride is only ever along the chart on screen.
pub fn mascot_events(app: &mut App, env: &Env) -> (r: Vec<MascotEvent>)
    ensures
        r@ == mascot_news(old(app)@, *env).1,
        final(app)@ == mascot_news(old(app)@, *env).0,
{
    let mut events: Vec<MascotEvent> = Vec::new();
    if !mascot_visible(app, env.options.ascii) {
        return events;
    }
    let tag = app.mascot_route_tag();
    let moved = match &app.mascot.seen {
        Some(seen) => !(seen.screen == tag.screen && seen.kind == tag.kind && text::same(&seen.first, &tag.first)
            && text::same(&seen.second, &tag.second)),
        None => true,
    };
    assert(moved == (old(app)@.mascot.seen != Some(old(app)@.tag())));
    if moved {
        app.mascot.seen = Some(tag);
        app.frame.chart_geom = None;
        let on_metric_chart = match &app.at.route {
            Route::MetricDetail { .. } => true,
            _ => false,
        };
        events.push(MascotEvent::Navigated { on_metric_chart });
    }
    let quiet: u64 = if env.now >= app.mascot.last_input { env.now - app.mascot.last_input } else { 0 };
    let idle = quiet >= MASCOT_IDLE_AFTER;
    if idle != app.mascot.idle {
        app.mascot.idle = idle;
        events.push(if idle { MascotEvent::Idle } else { MascotEvent::Active });
    }
    if app.mascot.refresh_pending {
        app.mascot.refresh_pending = false;
        events.push(MascotEvent::Refreshed { auto: app.load.auto_refresh });
    }
    assert(events@ =~= mascot_news(old(app)@, *env).1);
    events
}

/// While a query holds the keyboard, a press other than `q` changes nothing but that it is
/// remembered as refused, and asks for nothing.
pub proof fn law_a_held_keyboard_refuses_keys(a: AppView, key: KeyEvent, env: Env)
    requires
        a.load.input_locked,
        key.press,
        key.code != KeyCode::Char('q'),
    ensures
        press_step(a, key, env).1 == Control::Continue,
        press_step(a, key, env).0.requests.len() == 0,
        ({
            let b = press_step(a, key, env).0.app;
            b.at == a.at && b.mode == a.mode && b.focus == a.focus && b.range == a.range && b.back == a.back && b.forward
                == a.forward && b.snapshot == a.snapshot && b.load.input_refused && b.load.banner(env.now) is Some
                == (a.load.loading_since is Some)
        }),
{
    reveal(press_step);
}

/// `q` ends a session whose keyboard is held.
pub proof fn law_q_quits_a_held_session(a: AppView, key: KeyEvent, env: Env)
    requires
        a.load.input_locked,
        key.press,
        key.code == KeyCode::Char('q'),
    ensures
        press_step(a, key, env).1 == Control::Quit,
{
    reveal(press_step);
}

/// A tick never takes the keyboard, and asks for nothing before the interval has passed, in another
/// mode, or while auto-refresh is off.
pub proof fn law_ticks_do_not_disturb(a: AppView, env: Env)
    requires
        !a.load.input_locked,
    ensures
        !tick_step(a, env).app.load.input_locked,
        !refresh_due(a, env) ==> tick_step(a, env) == tasks::quiet(a),
        !a.load.auto_refresh || a.mode != Mode::Normal ==> tick_step(a, env) == tasks::quiet(a),
{
    reveal(tick_step);
    reveal(tasks::refresh_step);
}

/// An answer that is no longer awaited changes nothing.
pub proof fn law_stale_answers_change_nothing(
    a: AppView,
    generation: u64,
    trace_id: Seq<char>,
    detail: Arc<DetailPane>,
    trace: Option<Arc<TraceDetail>>,
    labels: Seq<char>,
    query: Seq<char>,
    markers: Seq<ExemplarMarker>,
)
    ensures
        generation != a.load.generation || a.trace.detail_trace_id != Some(trace_id) ==> a.take_waterfall(
            generation,
            trace_id,
            detail,
            trace,
        ) == a,
        !(a.at.route is MetricDetail) ==> a.take_exemplars(labels, query, markers) == a,
{
}

/// A key pressed before a trace has landed opens it once it lands: the wish is kept, and the trace's
/// landing fulfils it.
pub proof fn law_a_wished_trace_opens_on_landing(
    a: AppView,
    trace_id: Seq<char>,
    detail: Arc<DetailPane>,
    trace: Arc<TraceDetail>,
)
    requires
        a.at.route == RouteView::Traces,
        a.trace.pending_trace_open || a.trace.focus_trace_open,
        a.trace.detail_trace_id == Some(trace_id),
        trace.trace_id@ == trace_id,
        a.target_trace() == Some(trace_id),
    ensures
        a.take_waterfall(a.load.generation, trace_id, detail, Some(trace)).at.route == (RouteView::TraceDetail {
            detail: trace,
        }),
{
    let b = AppView {
        snapshot: SnapView { detail: Some(detail), ..a.snapshot },
        trace: TraceView {
            trace_detail: Some(trace),
            pending_trace_open: false,
            focus_trace_open: false,
            ..a.trace
        },
        ..a
    };
    assert(b.selectable() == a.selectable());
    assert(b.target_trace() == a.target_trace());
}

} // verus!
