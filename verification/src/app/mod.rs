//! [`App`]: the whole interface state, and the core of its state machine.
//!
//! The state lives here together with its construction, the active-query accessors and the landing
//! of a query result. The rest of the behaviour is split by concern: `nav` (menu bar, focus ring,
//! history), `window` (the time range, pan and zoom), `catalog` (the Metrics tree), `views` (route
//! accessors, row selection, opening the details), `attributes` (the Overview's attribute pane) and
//! `popup` (the completion popup).
//!
//! Every method's contract speaks of [`AppView`], the state as a value: a method that changes the
//! state says which `AppView` it leaves.

pub mod attributes;
pub mod catalog;
pub mod landing;
pub mod nav;
pub mod popup;
pub mod views;
pub mod window;

use std::sync::Arc;

use vstd::prelude::*;

use crate::chart::ChartGeometry;
use crate::completion;
use crate::completion::{Completion, CompletionView};
use crate::geometry::Rect;
use crate::model;
use crate::model::{
    AbsTarget, AttrStats, ExemplarMarker, Focus, MetricNode, Mode, NavEntry, NavView, NodeView, PageCursor,
    Refresh, Route, RouteView, Screen, SnapView, Snapshot, TraceDetail, TreeRowRef, LOADING_BANNER_AFTER,
    TIME_RANGES_LEN,
};
use crate::text;
use crate::textfield;
use crate::textfield::{FieldView, TextField};

verus! {

/// The identity of a view, so that a change of it reads as a navigation.
#[derive(Debug)]
pub struct ViewTag {
    pub screen: Screen,
    /// Which kind of detail the view is: none, a metric, a log, a trace or a span.
    pub kind: u8,
    pub first: String,
    pub second: String,
}

/// What a view's identity holds.
#[verifier::ext_equal]
pub struct TagView {
    pub screen: Screen,
    pub kind: u8,
    pub first: Seq<char>,
    pub second: Seq<char>,
}

impl View for ViewTag {
    type V = TagView;

    open spec fn view(&self) -> TagView {
        TagView { screen: self.screen, kind: self.kind, first: self.first@, second: self.second@ }
    }
}

/// The time selection: the rolling preset, the absolute windows, and the form that edits them.
pub struct TimeSelection {
    pub range_index: usize,
    /// The highlighted row of the range picker; the last one is the absolute range.
    pub range_cursor: usize,
    /// An absolute query window `(start_ns, end_ns)` that overrides the rolling preset.
    pub abs_window: Option<(i64, i64)>,
    /// The window of the Overview's attribute statistics; `None` measures all sealed segments.
    pub attr_window: Option<(i64, i64)>,
    /// Which window the absolute-range form edits.
    pub abs_target: AbsTarget,
    pub abs_start: String,
    pub abs_end: String,
    /// The focused field of the form: 0 is the start, 1 the end.
    pub abs_field: usize,
    /// The caret in the focused field, a byte offset.
    pub abs_cursor: usize,
    pub abs_error: Option<String>,
}

/// The query in flight, and what became of the last one.
pub struct LoadState {
    pub loading: bool,
    /// When the query in flight started.
    pub loading_since: Option<u64>,
    /// Whether the query in flight holds the keyboard.
    pub input_locked: bool,
    /// Whether a key was refused during this load.
    pub input_refused: bool,
    /// A refresh that was asked for while one was in flight.
    pub pending_refresh: Option<Refresh>,
    pub generation: u64,
    pub last_error: Option<String>,
    pub last_refresh: u64,
    pub auto_refresh: bool,
}

/// What the last frame published: only it knows the geometry.
pub struct FrameState {
    pub max_scroll: u16,
    pub page_rows: u16,
    /// Where the attribute pane was drawn.
    pub attr_area: Rect,
    /// The chart that was drawn.
    pub chart_geom: Option<ChartGeometry>,
}

/// The completion vocabulary and the popup over it.
pub struct Vocabulary {
    pub metric_names: Vec<String>,
    pub completion: Option<Completion>,
    /// The log label names; `None` until they are discovered.
    pub log_labels: Option<Vec<String>>,
    pub log_labels_loading: bool,
    /// The discovered values of each log label.
    pub log_label_values: Vec<(String, Vec<String>)>,
    pub log_label_values_loading: Vec<String>,
}

/// The trace behind the preview pane, and the wish to open it.
pub struct TraceState {
    /// The trace whose waterfall is shown or in flight.
    pub detail_trace_id: Option<String>,
    /// The trace behind the preview pane.
    pub trace_detail: Option<Arc<TraceDetail>>,
    /// Whether the trace detail opens as soon as its trace lands.
    pub pending_trace_open: bool,
    /// Whether the jump that set the trace focus asked for the trace's detail.
    pub focus_trace_open: bool,
    /// Whether the waterfall pins the ancestors of the selected span.
    pub sticky_waterfall: bool,
}

/// The Metrics catalog tree.
pub struct CatalogState {
    pub metric_tree: Vec<MetricNode>,
    /// The tree node behind each row of the catalog table.
    pub tree_rows: Vec<TreeRowRef>,
}

/// The Overview's attribute statistics and the promoted keys.
pub struct AttributeState {
    /// The most recent measurement. It outlives a refresh.
    pub attr_stats: Option<AttrStats>,
    /// The promoted attribute keys in effect, in column order.
    pub promoted: Vec<String>,
    /// Whether this session can change the promoted keys.
    pub can_promote: bool,
}

/// What the mascot reacts to.
pub struct MascotState {
    pub show_mascot: bool,
    /// When the mascot last moved.
    pub last_tick: u64,
    /// The view that the mascot last saw.
    pub seen: Option<ViewTag>,
    pub idle: bool,
    pub last_input: u64,
    pub refresh_pending: bool,
}

/// The pages of the Logs list.
pub struct LogPaging {
    /// The cursors of the pages between the most recent one and the one shown.
    pub log_cursor_stack: Vec<PageCursor>,
    pub log_next_cursor: Option<PageCursor>,
    /// Whether the next refresh is a page move.
    pub log_paging: bool,
}

/// The interface state.
pub struct App {
    /// The current view: all that the history keeps of it.
    pub at: NavEntry,
    /// The caret in the active query, a byte offset. Read through `query_caret`, which clamps it
    /// into the query it is read against.
    pub query_cursor: usize,
    pub mode: Mode,
    pub focus: Focus,
    /// The highlighted item of the menu bar; the last one is the range selector.
    pub menu_cursor: usize,
    pub snapshot: Snapshot,
    pub metric_exemplars: Vec<ExemplarMarker>,
    /// The history: a forward navigation pushes the view it leaves onto `back` and clears `forward`.
    pub back: Vec<NavEntry>,
    pub forward: Vec<NavEntry>,
    pub range: TimeSelection,
    pub load: LoadState,
    pub frame: FrameState,
    pub words: Vocabulary,
    pub trace: TraceState,
    pub catalog: CatalogState,
    pub attrs: AttributeState,
    pub mascot: MascotState,
    pub paging: LogPaging,
}

/// The time selection as a value.
pub struct TimeView {
    pub range_index: usize,
    pub range_cursor: usize,
    pub abs_window: Option<(i64, i64)>,
    pub attr_window: Option<(i64, i64)>,
    pub abs_target: AbsTarget,
    pub abs_start: Seq<char>,
    pub abs_end: Seq<char>,
    pub abs_field: usize,
    pub abs_cursor: usize,
    pub abs_error: Option<Seq<char>>,
}

impl View for TimeSelection {
    type V = TimeView;

    open spec fn view(&self) -> TimeView {
        TimeView {
            range_index: self.range_index,
            range_cursor: self.range_cursor,
            abs_window: self.abs_window,
            attr_window: self.attr_window,
            abs_target: self.abs_target,
            abs_start: self.abs_start@,
            abs_end: self.abs_end@,
            abs_field: self.abs_field,
            abs_cursor: self.abs_cursor,
            abs_error: text::opt(self.abs_error),
        }
    }
}

/// The load state as a value.
pub struct LoadView {
    pub loading: bool,
    pub loading_since: Option<u64>,
    pub input_locked: bool,
    pub input_refused: bool,
    pub pending_refresh: Option<Refresh>,
    pub generation: u64,
    pub last_error: Option<Seq<char>>,
    pub last_refresh: u64,
    pub auto_refresh: bool,
}

impl View for LoadState {
    type V = LoadView;

    open spec fn view(&self) -> LoadView {
        LoadView {
            loading: self.loading,
            loading_since: self.loading_since,
            input_locked: self.input_locked,
            input_refused: self.input_refused,
            pending_refresh: self.pending_refresh,
            generation: self.generation,
            last_error: text::opt(self.last_error),
            last_refresh: self.last_refresh,
            auto_refresh: self.auto_refresh,
        }
    }
}

/// The vocabulary as a value.
pub struct VocabularyView {
    pub metric_names: Seq<Seq<char>>,
    pub completion: Option<CompletionView>,
    pub log_labels: Option<Seq<Seq<char>>>,
    pub log_labels_loading: bool,
    pub log_label_values: Seq<(Seq<char>, Seq<Seq<char>>)>,
    pub log_label_values_loading: Seq<Seq<char>>,
}

impl View for Vocabulary {
    type V = VocabularyView;

    open spec fn view(&self) -> VocabularyView {
        VocabularyView {
            metric_names: text::strs(self.metric_names@),
            completion: popup_view(self.completion),
            log_labels: names_view(self.log_labels),
            log_labels_loading: self.log_labels_loading,
            log_label_values: completion::entries(self.log_label_values@),
            log_label_values_loading: text::strs(self.log_label_values_loading@),
        }
    }
}

/// The trace state as a value.
pub struct TraceView {
    pub detail_trace_id: Option<Seq<char>>,
    pub trace_detail: Option<Arc<TraceDetail>>,
    pub pending_trace_open: bool,
    pub focus_trace_open: bool,
    pub sticky_waterfall: bool,
}

impl View for TraceState {
    type V = TraceView;

    open spec fn view(&self) -> TraceView {
        TraceView {
            detail_trace_id: text::opt(self.detail_trace_id),
            trace_detail: self.trace_detail,
            pending_trace_open: self.pending_trace_open,
            focus_trace_open: self.focus_trace_open,
            sticky_waterfall: self.sticky_waterfall,
        }
    }
}

/// The catalog as a value.
pub struct CatalogView {
    pub metric_tree: Seq<NodeView>,
    pub tree_rows: Seq<TreeRowRef>,
}

impl View for CatalogState {
    type V = CatalogView;

    open spec fn view(&self) -> CatalogView {
        CatalogView { metric_tree: model::tree_view(self.metric_tree@), tree_rows: self.tree_rows@ }
    }
}

/// The attribute state as a value.
pub struct AttributeView {
    pub attr_stats: Option<AttrStats>,
    pub promoted: Seq<Seq<char>>,
    pub can_promote: bool,
}

impl View for AttributeState {
    type V = AttributeView;

    open spec fn view(&self) -> AttributeView {
        AttributeView {
            attr_stats: self.attr_stats,
            promoted: text::strs(self.promoted@),
            can_promote: self.can_promote,
        }
    }
}

/// The mascot's state as a value.
pub struct MascotView {
    pub show_mascot: bool,
    pub last_tick: u64,
    pub seen: Option<TagView>,
    pub idle: bool,
    pub last_input: u64,
    pub refresh_pending: bool,
}

impl View for MascotState {
    type V = MascotView;

    open spec fn view(&self) -> MascotView {
        MascotView {
            show_mascot: self.show_mascot,
            last_tick: self.last_tick,
            seen: tag_view(self.seen),
            idle: self.idle,
            last_input: self.last_input,
            refresh_pending: self.refresh_pending,
        }
    }
}

/// The log pages as a value.
pub struct PagingView {
    pub log_cursor_stack: Seq<PageCursor>,
    pub log_next_cursor: Option<PageCursor>,
    pub log_paging: bool,
}

impl View for LogPaging {
    type V = PagingView;

    open spec fn view(&self) -> PagingView {
        PagingView {
            log_cursor_stack: self.log_cursor_stack@,
            log_next_cursor: self.log_next_cursor,
            log_paging: self.log_paging,
        }
    }
}

/// What an optional popup shows.
pub open spec fn popup_view(c: Option<Completion>) -> Option<CompletionView> {
    match c {
        Some(c) => Some(c@),
        None => None,
    }
}

/// The contents of an optional list of names.
pub open spec fn names_view(names: Option<Vec<String>>) -> Option<Seq<Seq<char>>> {
    match names {
        Some(names) => Some(text::strs(names@)),
        None => None,
    }
}

/// What an optional identity holds.
pub open spec fn tag_view(tag: Option<ViewTag>) -> Option<TagView> {
    match tag {
        Some(t) => Some(t@),
        None => None,
    }
}

/// The interface state as a value.
pub struct AppView {
    pub at: NavView,
    pub query_cursor: usize,
    pub mode: Mode,
    pub focus: Focus,
    pub menu_cursor: usize,
    pub snapshot: SnapView,
    pub metric_exemplars: Seq<ExemplarMarker>,
    pub back: Seq<NavView>,
    pub forward: Seq<NavView>,
    pub range: TimeView,
    pub load: LoadView,
    pub frame: FrameState,
    pub words: VocabularyView,
    pub trace: TraceView,
    pub catalog: CatalogView,
    pub attrs: AttributeView,
    pub mascot: MascotView,
    pub paging: PagingView,
}

impl View for App {
    type V = AppView;

    open spec fn view(&self) -> AppView {
        AppView {
            at: self.at@,
            query_cursor: self.query_cursor,
            mode: self.mode,
            focus: self.focus,
            menu_cursor: self.menu_cursor,
            snapshot: self.snapshot@,
            metric_exemplars: self.metric_exemplars@,
            back: model::navs(self.back@),
            forward: model::navs(self.forward@),
            range: self.range@,
            load: self.load@,
            frame: self.frame,
            words: self.words@,
            trace: self.trace@,
            catalog: self.catalog@,
            attrs: self.attrs@,
            mascot: self.mascot@,
            paging: self.paging@,
        }
    }
}

/// The state at the start of a session.
pub open spec fn initial(now: u64) -> AppView {
    AppView {
        at: NavView {
            route: RouteView::Overview,
            query: seq![""@, ""@, "{}"@, "{}"@],
            metric_cursor: 0,
            focus_trace_id: None,
            selected: 0,
            scroll: 0,
            span_cursor: 0,
            log_correlation: None,
        },
        query_cursor: 0,
        mode: Mode::Normal,
        focus: Focus::Primary,
        menu_cursor: 0,
        snapshot: model::message_view("Overview"@, "Loading..."@),
        metric_exemplars: Seq::empty(),
        back: Seq::empty(),
        forward: Seq::empty(),
        range: TimeView {
            range_index: 1,
            range_cursor: 1,
            abs_window: None,
            attr_window: None,
            abs_target: AbsTarget::Query,
            abs_start: ""@,
            abs_end: ""@,
            abs_field: 0,
            abs_cursor: 0,
            abs_error: None,
        },
        load: LoadView {
            loading: false,
            loading_since: None,
            input_locked: false,
            input_refused: false,
            pending_refresh: None,
            generation: 0,
            last_error: None,
            last_refresh: now,
            auto_refresh: false,
        },
        frame: FrameState {
            max_scroll: 0,
            page_rows: 1,
            attr_area: Rect { x: 0, y: 0, width: 0, height: 0 },
            chart_geom: None,
        },
        words: VocabularyView {
            metric_names: Seq::empty(),
            completion: None,
            log_labels: None,
            log_labels_loading: false,
            log_label_values: Seq::empty(),
            log_label_values_loading: Seq::empty(),
        },
        trace: TraceView {
            detail_trace_id: None,
            trace_detail: None,
            pending_trace_open: false,
            focus_trace_open: false,
            sticky_waterfall: true,
        },
        catalog: CatalogView { metric_tree: Seq::empty(), tree_rows: Seq::empty() },
        attrs: AttributeView { attr_stats: None, promoted: Seq::empty(), can_promote: false },
        mascot: MascotView {
            show_mascot: false,
            last_tick: now,
            seen: None,
            idle: false,
            last_input: now,
            refresh_pending: false,
        },
        paging: PagingView { log_cursor_stack: Seq::empty(), log_next_cursor: None, log_paging: false },
    }
}

impl AppView {
    /// What holds of every state: the range picker stands on one of its rows, the form has its
    /// focus on one of its two fields, an open popup offers something, and each catalog row belongs
    /// to a metric of the tree.
    pub open spec fn wf(self) -> bool {
        &&& self.range.range_index < TIME_RANGES_LEN
        &&& self.range.range_cursor <= TIME_RANGES_LEN
        &&& self.range.abs_field <= 1
        &&& (self.words.completion matches Some(c) ==> c.candidates.len() > 0)
        &&& rows_belong(self.catalog.tree_rows, self.catalog.metric_tree.len() as int)
    }

    /// The screen the current view belongs to.
    pub open spec fn screen(self) -> Screen {
        model::route_screen(self.at.route)
    }

    /// The query of the current screen.
    pub open spec fn active_query(self) -> Seq<char> {
        self.at.query[model::screen_index(self.screen())]
    }

    /// The state with another query on the current screen.
    pub open spec fn with_query(self, query: Seq<char>) -> AppView {
        AppView {
            at: NavView { query: self.at.query.update(model::screen_index(self.screen()), query), ..self.at },
            ..self
        }
    }

    /// The state with another query on the current screen, the caret at its end.
    pub open spec fn set_query(self, query: Seq<char>) -> AppView {
        AppView { query_cursor: text::byte_len(query) as usize, ..self.with_query(query) }
    }

    /// How many characters of the active query stand before the caret.
    pub open spec fn caret(self) -> int {
        textfield::before(self.active_query(), self.query_cursor as int) as int
    }

    /// The active query up to the caret.
    pub open spec fn before_caret(self) -> Seq<char> {
        self.active_query().take(self.caret())
    }

    /// Whether the Metrics catalog tree is shown.
    pub open spec fn on_catalog(self) -> bool {
        self.screen() == Screen::Metrics && text::trim(self.active_query()).len() == 0
    }

    /// The state once a query is in flight.
    pub open spec fn begin_loading(self, origin: Refresh, now: u64) -> AppView {
        AppView { load: self.load.begin(origin, now), ..self }
    }

    /// The state once no query is in flight.
    pub open spec fn end_loading(self) -> AppView {
        AppView { load: self.load.end(), ..self }
    }

    /// The identity of the current view.
    pub open spec fn tag(self) -> TagView {
        let screen = self.screen();
        match self.at.route {
            RouteView::MetricDetail { labels, query, .. } => TagView { screen, kind: 1, first: labels, second: query },
            RouteView::LogDetail { .. } => TagView { screen, kind: 2, first: ""@, second: ""@ },
            RouteView::TraceDetail { detail } => TagView { screen, kind: 3, first: detail.trace_id@, second: ""@ },
            RouteView::SpanDetail { trace_id, span } => TagView {
                screen,
                kind: 4,
                first: trace_id,
                second: span.span_id@,
            },
            _ => TagView { screen, kind: 0, first: ""@, second: ""@ },
        }
    }
}

impl TimeView {
    /// The text of the focused field of the absolute-range form.
    pub open spec fn abs_text(self) -> Seq<char> {
        if self.abs_field == 0 { self.abs_start } else { self.abs_end }
    }

    /// The form with another text in its focused field and another caret.
    pub open spec fn edit(self, text: Seq<char>, caret: usize) -> TimeView {
        if self.abs_field == 0 {
            TimeView { abs_start: text, abs_cursor: caret, ..self }
        } else {
            TimeView { abs_end: text, abs_cursor: caret, ..self }
        }
    }

    /// The form with its focus on `field`, the caret at its end.
    pub open spec fn focus(self, field: usize) -> TimeView {
        let focused = TimeView { abs_field: field, ..self };
        TimeView { abs_cursor: text::byte_len(focused.abs_text()) as usize, ..focused }
    }
}

impl LoadView {
    /// The load state once a query is in flight.
    pub open spec fn begin(self, origin: Refresh, now: u64) -> LoadView {
        LoadView {
            loading: true,
            loading_since: Some(now),
            input_locked: origin == Refresh::Interactive,
            input_refused: false,
            ..self
        }
    }

    /// The load state once no query is in flight.
    pub open spec fn end(self) -> LoadView {
        LoadView { loading: false, loading_since: None, input_locked: false, input_refused: false, ..self }
    }

    /// How long the query in flight has run, where the loading banner shows it.
    pub open spec fn banner(self, now: u64) -> Option<int> {
        match self.loading_since {
            Some(since) => {
                let elapsed = if now >= since { now - since } else { 0 };
                if self.input_refused || elapsed >= LOADING_BANNER_AFTER { Some(elapsed) } else { None }
            },
            None => None,
        }
    }
}

/// The metric that a catalog row belongs to.
pub open spec fn metric_of(row: TreeRowRef) -> usize {
    match row {
        TreeRowRef::Metric(mi) => mi,
        TreeRowRef::Dim(mi, _) => mi,
        TreeRowRef::Value(mi, _, _) => mi,
        TreeRowRef::NoDims(mi) => mi,
    }
}

/// Whether each catalog row belongs to one of the first `n` metrics.
pub open spec fn rows_belong(rows: Seq<TreeRowRef>, n: int) -> bool {
    forall|i: int| 0 <= i < rows.len() ==> #[trigger] metric_of(rows[i]) < n
}

impl TimeSelection {
    /// The text of the focused field of the absolute-range form.
    pub fn abs_text(&self) -> (r: &str)
        ensures
            r@ == self@.abs_text(),
    {
        if self.abs_field == 0 {
            self.abs_start.as_str()
        } else {
            self.abs_end.as_str()
        }
    }

    /// The caret in the focused field of the form, clamped as [`App::query_caret`] is.
    pub fn abs_caret(&self) -> (r: usize)
        ensures
            r == textfield::offset(
                self@.abs_text(),
                textfield::before(self@.abs_text(), self@.abs_cursor as int) as int,
            ),
    {
        textfield::caret_in(self.abs_text(), self.abs_cursor)
    }

    /// The focused field of the form as a text field.
    pub fn abs_text_field(&self) -> (r: TextField)
        ensures
            r.text@ == self@.abs_text(),
            r.caret == self@.abs_cursor,
    {
        TextField { text: text::owned(self.abs_text()), caret: self.abs_cursor }
    }

    /// Puts an edited field of the form back.
    pub fn set_abs_text_field(&mut self, field: TextField)
        ensures
            final(self)@ == old(self)@.edit(field.text@, field.caret),
    {
        self.abs_cursor = field.caret;
        if self.abs_field == 0 {
            self.abs_start = field.text;
        } else {
            self.abs_end = field.text;
        }
    }

    /// Focuses one of the two fields of the form, the caret at its end.
    pub fn focus_abs_field(&mut self, field: usize)
        ensures
            final(self)@ == old(self)@.focus(field),
    {
        self.abs_field = field;
        self.abs_cursor = text::bytes_of(self.abs_text());
    }
}

impl App {
    /// The state at the start of a session: the Overview, over the last fifteen minutes.
    pub fn new(now: u64) -> (r: App)
        ensures
            r@ == initial(now),
            r@.wf(),
    {
        let at = NavEntry {
            route: Route::Overview,
            query: [text::owned(""), text::owned(""), text::owned("{}"), text::owned("{}")],
            metric_cursor: 0,
            focus_trace_id: None,
            selected: 0,
            scroll: 0,
            span_cursor: 0,
            log_correlation: None,
        };
        let range = TimeSelection {
            range_index: 1,
            range_cursor: 1,
            abs_window: None,
            attr_window: None,
            abs_target: AbsTarget::Query,
            abs_start: text::owned(""),
            abs_end: text::owned(""),
            abs_field: 0,
            abs_cursor: 0,
            abs_error: None,
        };
        let load = LoadState {
            loading: false,
            loading_since: None,
            input_locked: false,
            input_refused: false,
            pending_refresh: None,
            generation: 0,
            last_error: None,
            last_refresh: now,
            auto_refresh: false,
        };
        let frame = FrameState {
            max_scroll: 0,
            page_rows: 1,
            attr_area: Rect { x: 0, y: 0, width: 0, height: 0 },
            chart_geom: None,
        };
        let words = Vocabulary {
            metric_names: Vec::new(),
            completion: None,
            log_labels: None,
            log_labels_loading: false,
            log_label_values: Vec::new(),
            log_label_values_loading: Vec::new(),
        };
        let trace = TraceState {
            detail_trace_id: None,
            trace_detail: None,
            pending_trace_open: false,
            focus_trace_open: false,
            sticky_waterfall: true,
        };
        let catalog = CatalogState { metric_tree: Vec::new(), tree_rows: Vec::new() };
        let attrs = AttributeState { attr_stats: None, promoted: Vec::new(), can_promote: false };
        let mascot = MascotState {
            show_mascot: false,
            last_tick: now,
            seen: None,
            idle: false,
            last_input: now,
            refresh_pending: false,
        };
        let paging = LogPaging { log_cursor_stack: Vec::new(), log_next_cursor: None, log_paging: false };
        let r = App {
            at,
            query_cursor: 0,
            mode: Mode::Normal,
            focus: Focus::Primary,
            menu_cursor: 0,
            snapshot: Snapshot::message("Overview", "Loading..."),
            metric_exemplars: Vec::new(),
            back: Vec::new(),
            forward: Vec::new(),
            range,
            load,
            frame,
            words,
            trace,
            catalog,
            attrs,
            mascot,
            paging,
        };
        assert(r@.at =~= initial(now).at);
        assert(model::navs(r.back@) =~= Seq::empty());
        assert(model::navs(r.forward@) =~= Seq::empty());
        assert(text::strs(r.words.metric_names@) =~= Seq::empty());
        assert(text::strs(r.words.log_label_values_loading@) =~= Seq::empty());
        assert(completion::entries(r.words.log_label_values@) =~= Seq::empty());
        assert(model::tree_view(r.catalog.metric_tree@) =~= Seq::empty());
        assert(text::strs(r.attrs.promoted@) =~= Seq::empty());
        r
    }

    /// The screen the current view belongs to.
    pub fn screen(&self) -> (r: Screen)
        ensures
            r == self@.screen(),
    {
        self.at.route.screen()
    }

    /// The position of the current screen's query.
    pub fn query_index(&self) -> (r: usize)
        ensures
            r == model::screen_index(self@.screen()),
            r < 4,
    {
        self.screen().index()
    }

    /// The query of the current screen.
    pub fn active_query(&self) -> (r: &str)
        ensures
            r@ == self@.active_query(),
    {
        let i: usize = self.query_index();
        self.at.query[i].as_str()
    }

    /// Whether the Metrics catalog tree is the current view: the Metrics screen with an empty query.
    pub fn on_catalog(&self) -> (r: bool)
        ensures
            r == self@.on_catalog(),
    {
        self.screen() == Screen::Metrics && text::trimmed(&text::chars_of(self.active_query())).len() == 0
    }

    /// Replaces the active query, leaving the caret as it is.
    pub fn replace_query(&mut self, query: String)
        ensures
            final(self)@ == old(self)@.with_query(query@),
    {
        let i: usize = self.query_index();
        self.at.query[i] = query;
        assert(text::strs(self.at.query@) =~= old(self)@.with_query(query@).at.query);
    }

    /// Replaces the active query and puts the caret at its end.
    pub fn set_active_query(&mut self, query: String)
        ensures
            final(self)@ == old(self)@.set_query(query@),
    {
        self.query_cursor = text::bytes_of(&query);
        self.replace_query(query);
    }

    /// The caret as a byte offset into the active query, clamped into it and onto a boundary.
    pub fn query_caret(&self) -> (r: usize)
        ensures
            r == textfield::offset(self@.active_query(), self@.caret()),
    {
        textfield::caret_in(self.active_query(), self.query_cursor)
    }

    /// The active query up to the caret.
    pub fn query_before_caret(&self) -> (r: &str)
        ensures
            r@ == self@.before_caret(),
    {
        let query = self.active_query();
        let k: usize = textfield::chars_before(query, self.query_cursor);
        let r = query.substring_char(0, k);
        assert(r@ =~= self@.before_caret());
        r
    }

    /// The query box as a text field.
    pub fn query_field(&self) -> (r: TextField)
        ensures
            r.text@ == self@.active_query(),
            r.caret == self@.query_cursor,
            r@ == (FieldView { text: self@.active_query(), at: self@.caret() }),
    {
        let i: usize = self.query_index();
        TextField { text: self.at.query[i].clone(), caret: self.query_cursor }
    }

    /// Puts an edited query box back.
    pub fn set_query_field(&mut self, field: TextField)
        ensures
            final(self)@ == (AppView { query_cursor: field.caret, ..old(self)@.with_query(field.text@) }),
    {
        self.query_cursor = field.caret;
        self.replace_query(field.text);
    }

    /// Marks a query as in flight, taking the keyboard if a person asked for it.
    ///
    /// The four loading fields only ever move together, here and in [`App::end_loading`].
    pub fn begin_loading(&mut self, origin: Refresh, now: u64)
        ensures
            final(self)@ == old(self)@.begin_loading(origin, now),
    {
        self.load.loading = true;
        self.load.loading_since = Some(now);
        self.load.input_locked = origin == Refresh::Interactive;
        self.load.input_refused = false;
    }

    /// Releases the keyboard and disarms the banner.
    pub fn end_loading(&mut self)
        ensures
            final(self)@ == old(self)@.end_loading(),
    {
        self.load.loading = false;
        self.load.loading_since = None;
        self.load.input_locked = false;
        self.load.input_refused = false;
    }

    /// How long the query in flight has run in nanoseconds, where that is worth showing: once it
    /// has run for a while, or at once where a key was refused.
    pub fn loading_banner(&self, now: u64) -> (r: Option<u64>)
        ensures
            match r {
                Some(elapsed) => self@.load.banner(now) == Some(elapsed as int),
                None => self@.load.banner(now) is None,
            },
    {
        match self.load.loading_since {
            Some(since) => {
                let elapsed: u64 = if now >= since { now - since } else { 0 };
                if self.load.input_refused || elapsed >= LOADING_BANNER_AFTER {
                    Some(elapsed)
                } else {
                    None
                }
            },
            None => None,
        }
    }

    /// The identity of the current view.
    pub fn mascot_route_tag(&self) -> (r: ViewTag)
        ensures
            r@ == self@.tag(),
    {
        let screen = self.screen();
        match &self.at.route {
            Route::MetricDetail { detail } => ViewTag {
                screen,
                kind: 1,
                first: detail.labels.clone(),
                second: detail.query.clone(),
            },
            Route::LogDetail { .. } => ViewTag { screen, kind: 2, first: text::owned(""), second: text::owned("") },
            Route::TraceDetail { detail } => ViewTag {
                screen,
                kind: 3,
                first: detail.trace_id.clone(),
                second: text::owned(""),
            },
            Route::SpanDetail { trace_id, span } => ViewTag {
                screen,
                kind: 4,
                first: trace_id.clone(),
                second: span.span_id.clone(),
            },
            _ => ViewTag { screen, kind: 0, first: text::owned(""), second: text::owned("") },
        }
    }
}

/// The loading fields move together: a load that begins arms the banner and takes the keyboard only
/// for a person's request; one that ends disarms the banner and gives the keyboard back.
pub proof fn law_loading_fields_move_together(a: AppView, origin: Refresh, now: u64, later: u64)
    ensures
        a.begin_loading(origin, now).load.loading,
        a.begin_loading(origin, now).load.loading_since == Some(now),
        a.begin_loading(origin, now).load.input_locked <==> origin == Refresh::Interactive,
        !a.end_loading().load.loading && !a.end_loading().load.input_locked,
        a.end_loading().load.banner(later) is None,
        a.begin_loading(origin, now).end_loading() == a.end_loading(),
{
}

/// No banner shows before the delay unless a key was refused, and a refused key shows it at once.
pub proof fn law_the_banner_waits_unless_a_key_was_refused(a: LoadView, origin: Refresh, now: u64, later: u64)
    requires
        now <= later,
    ensures
        a.begin(origin, now).banner(later) is Some <==> later - now >= LOADING_BANNER_AFTER,
        (LoadView { input_refused: true, ..a.begin(origin, now) }).banner(later) == Some(later - now),
{
}

/// A caret that outlived its query reads as a position inside the current one.
pub proof fn law_the_caret_is_inside_the_query(a: AppView)
    ensures
        0 <= a.caret() <= a.active_query().len(),
{
    textfield::lemma_before(a.active_query(), a.query_cursor as int);
}

/// A query that is set is the active query, with the caret after all of it.
pub proof fn law_a_set_query_is_read_back(a: AppView, query: Seq<char>)
    requires
        a.at.query.len() == 4,
        text::byte_len(query) <= usize::MAX,
    ensures
        a.set_query(query).active_query() == query,
        a.set_query(query).before_caret() == query,
{
    assert(query.take(query.len() as int) =~= query);
}

} // verus!
