//! The view model: what the interface shows and the messages that change it.
//!
//! Plain data only: [`Route`] (the navigable view), [`Snapshot`] (a query result rendered for a
//! pane), the Metrics catalog tree nodes, the input [`Mode`]/[`Focus`] enums, and the [`Update`]
//! messages that background work delivers. The state machine over them lives in `app`.

use std::sync::Arc;

use vstd::prelude::*;

use crate::text;
use crate::time::Duration;
use crate::ui::metrics;
use crate::width;

verus! {

/// `Arc::clone`: another pointer to the same value.
#[verifier::external_body]
pub(crate) fn share<T>(r: &Arc<T>) -> (s: Arc<T>)
    ensures
        s == *r,
{
    Arc::clone(r)
}

/// The number of preset time ranges.
pub const TIME_RANGES_LEN: usize = 8;

/// A preset of the time-range picker: its label, and its window and step in seconds.
pub struct TimeRange {
    pub label: &'static str,
    pub lookback_secs: u64,
    pub step_secs: u64,
}

/// The window and the step in seconds of preset `index`.
pub open spec fn range_secs(index: int) -> (nat, nat) {
    if index == 0 {
        (300, 5)
    } else if index == 1 {
        (900, 30)
    } else if index == 2 {
        (3_600, 30)
    } else if index == 3 {
        (10_800, 120)
    } else if index == 4 {
        (21_600, 300)
    } else if index == 5 {
        (43_200, 600)
    } else if index == 6 {
        (86_400, 900)
    } else {
        (604_800, 3_600)
    }
}

/// The label of preset `index`.
pub open spec fn range_label(index: int) -> Seq<char> {
    if index == 0 {
        "5m"@
    } else if index == 1 {
        "15m"@
    } else if index == 2 {
        "1h"@
    } else if index == 3 {
        "3h"@
    } else if index == 4 {
        "6h"@
    } else if index == 5 {
        "12h"@
    } else if index == 6 {
        "24h"@
    } else {
        "7d"@
    }
}

/// Preset `index` of the time-range picker.
pub fn time_range(index: usize) -> (r: TimeRange)
    requires
        index < TIME_RANGES_LEN,
    ensures
        r.label@ == range_label(index as int),
        r.lookback_secs == range_secs(index as int).0,
        r.step_secs == range_secs(index as int).1,
        r.lookback_secs <= 604_800,
        1 <= r.step_secs <= 3_600,
{
    if index == 0 {
        TimeRange { label: "5m", lookback_secs: 300, step_secs: 5 }
    } else if index == 1 {
        TimeRange { label: "15m", lookback_secs: 900, step_secs: 30 }
    } else if index == 2 {
        TimeRange { label: "1h", lookback_secs: 3_600, step_secs: 30 }
    } else if index == 3 {
        TimeRange { label: "3h", lookback_secs: 10_800, step_secs: 120 }
    } else if index == 4 {
        TimeRange { label: "6h", lookback_secs: 21_600, step_secs: 300 }
    } else if index == 5 {
        TimeRange { label: "12h", lookback_secs: 43_200, step_secs: 600 }
    } else if index == 6 {
        TimeRange { label: "24h", lookback_secs: 86_400, step_secs: 900 }
    } else {
        TimeRange { label: "7d", lookback_secs: 604_800, step_secs: 3_600 }
    }
}

/// How long a query runs before the loading banner appears, in nanoseconds.
pub const LOADING_BANNER_AFTER: u64 = 2_000_000_000;

/// How long one frame of the loading spinner lasts, in nanoseconds.
pub const SPINNER_FRAME: u64 = 120_000_000;

/// How long an attribute measurement stays fresh, in nanoseconds.
pub const ATTR_MEASURE_INTERVAL: u64 = 60_000_000_000;

/// The shortest window that a zoom reaches, in nanoseconds.
pub const MIN_WINDOW_NS: i64 = 1_000_000_000;

/// The longest window that a zoom reaches, in nanoseconds.
pub const MAX_WINDOW_NS: i64 = 31_622_400_000_000_000;

/// Who asked for a refresh. A person who asked waits for the answer, so the keyboard is held; a
/// timer's refresh holds nothing.
#[derive(Debug, Clone, Copy, PartialEq, Eq, Structural)]
pub enum Refresh {
    Interactive,
    Background,
}

/// The transient input overlay on top of the view, or `Normal`.
#[derive(Debug, Clone, Copy, PartialEq, Eq, Structural)]
pub enum Mode {
    Normal,
    Menu,
    Editing,
    TimeRange,
    AbsoluteRange,
}

/// A stop of the keyboard focus ring.
#[derive(Debug, Clone, Copy, PartialEq, Eq, Structural)]
pub enum Focus {
    Menu(usize),
    TimeRange,
    Query,
    Primary,
    AttrRange,
    AttrTable(usize),
}

/// One log entry.
#[derive(Debug)]
pub struct LogRecord {
    pub time_ns: i64,
    pub severity: String,
    pub service: Option<String>,
    pub body: String,
    pub trace_id: Option<String>,
    pub span_id: Option<String>,
    pub attributes: Vec<(String, String)>,
    pub resource: Vec<(String, String)>,
    pub scope: Vec<(String, String)>,
}

/// One span of a trace, with every stored field.
#[derive(Debug)]
pub struct SpanRecord {
    pub name: String,
    pub service: Option<String>,
    pub kind: String,
    pub span_id: String,
    pub parent_span_id: Option<String>,
    pub status_code: String,
    pub status_message: Option<String>,
    /// Whether the span's parent chain is broken.
    pub malformed: bool,
    pub start_time_ns: i64,
    /// The start relative to the trace's start.
    pub offset_ns: i64,
    pub duration_ns: u64,
    pub attributes: Vec<(String, String)>,
    pub resource: Vec<(String, String)>,
    pub scope: Vec<(String, String)>,
    pub events: Option<String>,
    pub links: Option<String>,
}

/// A trace, its spans in waterfall order.
#[derive(Debug)]
pub struct TraceDetail {
    pub trace_id: String,
    pub root_service: Option<String>,
    pub root_name: Option<String>,
    pub start_time_ns: i64,
    pub duration_ns: u64,
    pub spans: Vec<Arc<SpanRecord>>,
}

/// What a session is started with.
#[derive(Debug, Clone, Copy)]
pub struct Options {
    pub refresh_interval: Duration,
    pub lookback: Duration,
    pub step: Duration,
    /// An absolute window `(start_ns, end_ns)` that overrides the rolling one.
    pub window: Option<(i64, i64)>,
    pub max_series: usize,
    pub max_rows: usize,
    pub ascii: bool,
}

/// The options of a session that asks for nothing special.
pub open spec fn default_options() -> Options {
    Options {
        refresh_interval: Duration { nanos: 5_000_000_000 },
        lookback: Duration { nanos: 900_000_000_000 },
        step: Duration { nanos: 30_000_000_000 },
        window: None,
        max_series: 100,
        max_rows: 100,
        ascii: false,
    }
}

impl Default for Options {
    fn default() -> (r: Options)
        ensures
            r == default_options(),
    {
        Options {
            refresh_interval: Duration { nanos: 5_000_000_000 },
            lookback: Duration { nanos: 900_000_000_000 },
            step: Duration { nanos: 30_000_000_000 },
            window: None,
            max_series: 100,
            max_rows: 100,
            ascii: false,
        }
    }
}

/// A screen of the explorer.
#[derive(Debug, Clone, Copy, PartialEq, Eq, Structural)]
pub enum Screen {
    Overview,
    Metrics,
    Traces,
    Logs,
}

/// The number of screens.
pub const SCREENS: usize = 4;

/// The items of the menu bar: the screens and the time-range selector.
pub const MENU_LEN: usize = 5;

/// The screen at a position of the menu bar.
pub open spec fn screen_at(index: int) -> Option<Screen> {
    if index == 0 {
        Some(Screen::Overview)
    } else if index == 1 {
        Some(Screen::Metrics)
    } else if index == 2 {
        Some(Screen::Traces)
    } else if index == 3 {
        Some(Screen::Logs)
    } else {
        None
    }
}

/// The position of a screen in the menu bar.
pub open spec fn screen_index(screen: Screen) -> int {
    match screen {
        Screen::Overview => 0,
        Screen::Metrics => 1,
        Screen::Traces => 2,
        Screen::Logs => 3,
    }
}

/// A screen stands at its own index, and each index below the number of screens is some screen's.
pub proof fn law_screen_index_round_trip(screen: Screen, index: int)
    ensures
        screen_at(screen_index(screen)) == Some(screen),
        screen_at(index) matches Some(s) ==> screen_index(s) == index,
        screen_at(index) is Some <==> 0 <= index < SCREENS,
{
}

impl Screen {
    /// The screen at a position of the menu bar.
    pub fn at(index: usize) -> (r: Option<Screen>)
        ensures
            r == screen_at(index as int),
    {
        if index == 0 {
            Some(Screen::Overview)
        } else if index == 1 {
            Some(Screen::Metrics)
        } else if index == 2 {
            Some(Screen::Traces)
        } else if index == 3 {
            Some(Screen::Logs)
        } else {
            None
        }
    }

    /// The screen's name.
    pub fn title(self) -> (r: &'static str)
        ensures
            r@ == (match self {
                Screen::Overview => "Overview"@,
                Screen::Metrics => "Metrics"@,
                Screen::Traces => "Traces"@,
                Screen::Logs => "Logs"@,
            }),
    {
        match self {
            Screen::Overview => "Overview",
            Screen::Metrics => "Metrics",
            Screen::Traces => "Traces",
            Screen::Logs => "Logs",
        }
    }

    /// The screen's position in the menu bar.
    pub fn index(self) -> (r: usize)
        ensures
            r == screen_index(self),
            r < SCREENS,
    {
        match self {
            Screen::Overview => 0,
            Screen::Metrics => 1,
            Screen::Traces => 2,
            Screen::Logs => 3,
        }
    }
}

/// How a detail pane is shown: a preview strip under a list, or a pane of its own.
#[derive(Debug, Clone, Copy, PartialEq, Eq, Structural)]
pub enum DetailStyle {
    Preview,
    Pane,
}

/// What a row of the attribute table is.
#[derive(Debug, PartialEq, Eq)]
pub enum AttrRow {
    Section,
    Header,
    Key(String),
    Blank,
}

/// What a row of the attribute table is, and the key that it shows.
#[verifier::ext_equal]
pub enum KindView {
    Section,
    Header,
    Key(Seq<char>),
    Blank,
}

impl View for AttrRow {
    type V = KindView;

    open spec fn view(&self) -> KindView {
        match *self {
            AttrRow::Section => KindView::Section,
            AttrRow::Header => KindView::Header,
            AttrRow::Key(key) => KindView::Key(key@),
            AttrRow::Blank => KindView::Blank,
        }
    }
}

/// What the rows of the attribute table are.
pub open spec fn kinds_view(kinds: Seq<AttrRow>) -> Seq<KindView> {
    kinds.map_values(|k: AttrRow| k@)
}

/// A table whose rows are of several kinds.
#[derive(Debug)]
pub struct PaneTable {
    pub data: TableData,
    pub kinds: Vec<AttrRow>,
}

impl PaneTable {
    /// The attribute key that row `index` shows.
    pub open spec fn key(self, index: int) -> Option<Seq<char>> {
        if 0 <= index < self.kinds@.len() {
            match self.kinds@[index] {
                AttrRow::Key(k) => Some(k@),
                _ => None,
            }
        } else {
            None
        }
    }

    /// The attribute key that row `index` shows, or `None` where the row is structure.
    pub fn key_at(&self, index: usize) -> (r: Option<&str>)
        ensures
            match r {
                Some(k) => self.key(index as int) == Some(k@),
                None => self.key(index as int) is None,
            },
    {
        if index < self.kinds.len() {
            match &self.kinds[index] {
                AttrRow::Key(key) => Some(key.as_str()),
                _ => None,
            }
        } else {
            None
        }
    }
}

/// The pane beside or below a result.
#[derive(Debug)]
pub struct DetailPane {
    pub title: String,
    pub lines: Vec<String>,
    /// The trace whose waterfall the pane shows, one row for each span.
    pub waterfall: Option<Arc<TraceDetail>>,
    pub table: Option<PaneTable>,
    pub style: DetailStyle,
}

/// A table: its column names, its rows, and the width of each column in cells.
#[derive(Debug)]
pub struct TableData {
    pub header: Vec<String>,
    pub rows: Vec<Vec<String>>,
    pub widths: Vec<usize>,
}

/// The contents of a table's rows.
pub open spec fn rows_view(rows: Seq<Vec<String>>) -> Seq<Seq<Seq<char>>> {
    rows.map_values(|row: Vec<String>| text::strs(row@))
}

/// What a table holds.
#[verifier::ext_equal]
pub struct TableView {
    pub header: Seq<Seq<char>>,
    pub rows: Seq<Seq<Seq<char>>>,
    pub widths: Seq<usize>,
}

impl View for TableData {
    type V = TableView;

    open spec fn view(&self) -> TableView {
        TableView { header: text::strs(self.header@), rows: rows_view(self.rows@), widths: self.widths@ }
    }
}

/// The cells of the widest cell of column `i`: of the header and of the first `n` rows.
pub open spec fn widest(header: Seq<Seq<char>>, rows: Seq<Seq<Seq<char>>>, n: nat, i: int) -> nat
    decreases n,
{
    if n == 0 {
        width::cells(header[i])
    } else {
        let before = widest(header, rows, (n - 1) as nat, i);
        let row = rows[n - 1];
        if i < row.len() && width::cells(row[i]) > before {
            width::cells(row[i])
        } else {
            before
        }
    }
}

/// The width of each column.
pub open spec fn widths_of(header: Seq<Seq<char>>, rows: Seq<Seq<Seq<char>>>) -> Seq<usize> {
    Seq::new(header.len(), |i: int| widest(header, rows, rows.len(), i) as usize)
}

/// A table of the given header and rows.
pub open spec fn table_of(header: Seq<Seq<char>>, rows: Seq<Seq<Seq<char>>>) -> TableView {
    TableView { header, rows, widths: widths_of(header, rows) }
}

impl TableData {
    /// Builds a table, measuring its columns once.
    pub fn new(header: Vec<String>, rows: Vec<Vec<String>>) -> (r: TableData)
        ensures
            r@ == table_of(text::strs(header@), rows_view(rows@)),
    {
        let widths = metrics::column_widths(&header, &rows);
        TableData { header, rows, widths }
    }
}

/// A metric of the catalog tree.
#[derive(Debug)]
pub struct MetricNode {
    pub name: String,
    pub kind: String,
    pub unit: String,
    pub temporality: String,
    pub expanded: bool,
    pub whole_selected: bool,
    /// The metric's dimensions; `None` until they are discovered.
    pub dims: Option<Vec<DimNode>>,
    pub loading: bool,
}

/// A dimension of a metric: a label and its values, of which at most one is selected.
#[derive(Debug)]
pub struct DimNode {
    pub label: String,
    pub values: Vec<String>,
    pub expanded: bool,
    pub selected: Option<usize>,
}

/// What a dimension holds.
#[verifier::ext_equal]
pub struct DimView {
    pub label: Seq<char>,
    pub values: Seq<Seq<char>>,
    pub expanded: bool,
    pub selected: Option<usize>,
}

/// What a metric of the catalog holds.
#[verifier::ext_equal]
pub struct NodeView {
    pub name: Seq<char>,
    pub kind: Seq<char>,
    pub unit: Seq<char>,
    pub temporality: Seq<char>,
    pub expanded: bool,
    pub whole_selected: bool,
    pub dims: Option<Seq<DimView>>,
    pub loading: bool,
}

impl View for DimNode {
    type V = DimView;

    open spec fn view(&self) -> DimView {
        DimView {
            label: self.label@,
            values: text::strs(self.values@),
            expanded: self.expanded,
            selected: self.selected,
        }
    }
}

/// The contents of a list of dimensions.
pub open spec fn dims_view(dims: Seq<DimNode>) -> Seq<DimView> {
    dims.map_values(|d: DimNode| d@)
}

impl View for MetricNode {
    type V = NodeView;

    open spec fn view(&self) -> NodeView {
        NodeView {
            name: self.name@,
            kind: self.kind@,
            unit: self.unit@,
            temporality: self.temporality@,
            expanded: self.expanded,
            whole_selected: self.whole_selected,
            dims: match self.dims {
                Some(dims) => Some(dims_view(dims@)),
                None => None,
            },
            loading: self.loading,
        }
    }
}

/// The contents of the catalog tree.
pub open spec fn tree_view(tree: Seq<MetricNode>) -> Seq<NodeView> {
    tree.map_values(|n: MetricNode| n@)
}

/// The tree node that a row of the catalog table shows.
#[derive(Debug, Clone, Copy, PartialEq, Eq, Structural)]
pub enum TreeRowRef {
    Metric(usize),
    Dim(usize, usize),
    Value(usize, usize, usize),
    NoDims(usize),
}

/// A series of samples: a timestamp, and the bits of the double-precision value.
#[derive(Debug)]
pub struct SeriesData {
    pub labels: String,
    pub points: Arc<Vec<(i64, u64)>>,
}

/// The series that the metric detail plots.
#[derive(Debug)]
pub struct MetricDetail {
    pub labels: String,
    pub query: String,
    pub points: Arc<Vec<(i64, u64)>>,
}

/// The navigable view.
#[derive(Debug)]
#[allow(inconsistent_fields)]
pub enum Route {
    Overview,
    Metrics,
    MetricDetail { detail: Arc<MetricDetail> },
    Traces,
    TraceDetail { detail: Arc<TraceDetail> },
    SpanDetail { trace_id: String, span: Arc<SpanRecord> },
    Logs,
    LogDetail { record: Arc<LogRecord> },
}

/// What a view shows.
#[verifier::ext_equal]
#[allow(inconsistent_fields)]
pub enum RouteView {
    Overview,
    Metrics,
    MetricDetail { labels: Seq<char>, query: Seq<char>, points: Seq<(i64, u64)> },
    Traces,
    TraceDetail { detail: Arc<TraceDetail> },
    SpanDetail { trace_id: Seq<char>, span: Arc<SpanRecord> },
    Logs,
    LogDetail { record: Arc<LogRecord> },
}

impl View for Route {
    type V = RouteView;

    open spec fn view(&self) -> RouteView {
        match *self {
            Route::Overview => RouteView::Overview,
            Route::Metrics => RouteView::Metrics,
            Route::MetricDetail { detail } => RouteView::MetricDetail {
                labels: detail.labels@,
                query: detail.query@,
                points: detail.points@,
            },
            Route::Traces => RouteView::Traces,
            Route::TraceDetail { detail } => RouteView::TraceDetail { detail },
            Route::SpanDetail { trace_id, span } => RouteView::SpanDetail { trace_id: trace_id@, span },
            Route::Logs => RouteView::Logs,
            Route::LogDetail { record } => RouteView::LogDetail { record },
        }
    }
}

/// The screen that a view belongs to.
pub open spec fn route_screen(route: RouteView) -> Screen {
    match route {
        RouteView::Overview => Screen::Overview,
        RouteView::Metrics => Screen::Metrics,
        RouteView::MetricDetail { .. } => Screen::Metrics,
        RouteView::Traces => Screen::Traces,
        RouteView::TraceDetail { .. } => Screen::Traces,
        RouteView::SpanDetail { .. } => Screen::Traces,
        RouteView::Logs => Screen::Logs,
        RouteView::LogDetail { .. } => Screen::Logs,
    }
}

/// The list view of a screen.
pub open spec fn list_route(screen: Screen) -> RouteView {
    match screen {
        Screen::Overview => RouteView::Overview,
        Screen::Metrics => RouteView::Metrics,
        Screen::Traces => RouteView::Traces,
        Screen::Logs => RouteView::Logs,
    }
}

/// Whether a view is a detail of one row.
pub open spec fn detail_route(route: RouteView) -> bool {
    match route {
        RouteView::MetricDetail { .. } => true,
        RouteView::TraceDetail { .. } => true,
        RouteView::SpanDetail { .. } => true,
        RouteView::LogDetail { .. } => true,
        _ => false,
    }
}

/// A screen's list view belongs to that screen and is no detail.
pub proof fn law_list_round_trips_through_screen(screen: Screen)
    ensures
        route_screen(list_route(screen)) == screen,
        !detail_route(list_route(screen)),
{
}

impl Clone for Route {
    fn clone(&self) -> (r: Route)
        ensures
            r == *self,
    {
        match self {
            Route::Overview => Route::Overview,
            Route::Metrics => Route::Metrics,
            Route::MetricDetail { detail } => Route::MetricDetail { detail: share(detail) },
            Route::Traces => Route::Traces,
            Route::TraceDetail { detail } => Route::TraceDetail { detail: share(detail) },
            Route::SpanDetail { trace_id, span } => Route::SpanDetail {
                trace_id: trace_id.clone(),
                span: share(span),
            },
            Route::Logs => Route::Logs,
            Route::LogDetail { record } => Route::LogDetail { record: share(record) },
        }
    }
}

impl Route {
    /// The screen that the view belongs to.
    pub fn screen(&self) -> (r: Screen)
        ensures
            r == route_screen(self@),
    {
        match self {
            Route::Overview => Screen::Overview,
            Route::Metrics => Screen::Metrics,
            Route::MetricDetail { .. } => Screen::Metrics,
            Route::Traces => Screen::Traces,
            Route::TraceDetail { .. } => Screen::Traces,
            Route::SpanDetail { .. } => Screen::Traces,
            Route::Logs => Screen::Logs,
            Route::LogDetail { .. } => Screen::Logs,
        }
    }

    /// The list view of a screen.
    pub fn list(screen: Screen) -> (r: Route)
        ensures
            r@ == list_route(screen),
    {
        match screen {
            Screen::Overview => Route::Overview,
            Screen::Metrics => Route::Metrics,
            Screen::Traces => Route::Traces,
            Screen::Logs => Route::Logs,
        }
    }

    /// Whether the view is a detail of one row.
    pub fn is_detail(&self) -> (r: bool)
        ensures
            r == detail_route(self@),
    {
        match self {
            Route::MetricDetail { .. } => true,
            Route::TraceDetail { .. } => true,
            Route::SpanDetail { .. } => true,
            Route::LogDetail { .. } => true,
            _ => false,
        }
    }
}

/// Where an older page of logs resumes.
#[derive(Debug, Clone, Copy, PartialEq, Eq, Structural)]
pub struct PageCursor {
    pub time_ns: i64,
    pub skip: u64,
}

/// A query result rendered for a pane.
#[derive(Debug)]
pub struct Snapshot {
    pub title: String,
    pub lines: Vec<String>,
    /// The sparkline, in thousandths of its largest value.
    pub chart: Vec<u64>,
    pub detail: Option<Arc<DetailPane>>,
    /// The first line that the row cursor may stand on, where the lines are a list.
    pub list_from: Option<usize>,
    pub log_records: Vec<Arc<LogRecord>>,
    pub table: Option<TableData>,
    pub series: Vec<SeriesData>,
    pub next_cursor: Option<PageCursor>,
}

/// What an optional table holds.
pub open spec fn table_view(table: Option<TableData>) -> Option<TableView> {
    match table {
        Some(t) => Some(t@),
        None => None,
    }
}

/// What a snapshot holds.
#[verifier::ext_equal]
pub struct SnapView {
    pub title: Seq<char>,
    pub lines: Seq<Seq<char>>,
    pub chart: Seq<u64>,
    pub detail: Option<Arc<DetailPane>>,
    pub list_from: Option<usize>,
    pub log_records: Seq<Arc<LogRecord>>,
    pub table: Option<TableView>,
    pub series: Seq<SeriesData>,
    pub next_cursor: Option<PageCursor>,
}

impl View for Snapshot {
    type V = SnapView;

    open spec fn view(&self) -> SnapView {
        SnapView {
            title: self.title@,
            lines: text::strs(self.lines@),
            chart: self.chart@,
            detail: self.detail,
            list_from: self.list_from,
            log_records: self.log_records@,
            table: table_view(self.table),
            series: self.series@,
            next_cursor: self.next_cursor,
        }
    }
}

/// A snapshot that shows one message.
pub open spec fn message_view(title: Seq<char>, message: Seq<char>) -> SnapView {
    SnapView {
        title,
        lines: seq![message],
        chart: Seq::empty(),
        detail: None,
        list_from: None,
        log_records: Seq::empty(),
        table: None,
        series: Seq::empty(),
        next_cursor: None,
    }
}

impl Snapshot {
    /// A snapshot that shows one message.
    pub fn message(title: &str, message: &str) -> (r: Snapshot)
        ensures
            r@ == message_view(title@, message@),
    {
        let mut lines: Vec<String> = Vec::new();
        lines.push(text::owned(message));
        let r = Snapshot {
            title: text::owned(title),
            lines,
            chart: Vec::new(),
            detail: None,
            list_from: None,
            log_records: Vec::new(),
            table: None,
            series: Vec::new(),
            next_cursor: None,
        };
        assert(r@ =~= message_view(title@, message@));
        r
    }
}

/// Which window the absolute-range form edits.
#[derive(Debug, Clone, Copy, PartialEq, Eq, Structural)]
pub enum AbsTarget {
    Query,
    Attributes,
}

/// The Overview's most recent attribute measurement: the window measured, when, and its pane.
#[derive(Debug)]
pub struct AttrStats {
    pub key: Option<(i64, i64)>,
    pub measured_at: u64,
    pub pane: Arc<DetailPane>,
}

/// The trace, and possibly the span, that a drill-down restricts the Logs list to.
#[derive(Debug, PartialEq, Eq)]
pub struct LogCorrelation {
    pub trace_id: String,
    pub span_id: Option<String>,
}

/// What a correlation names.
pub struct CorrelationView {
    pub trace_id: Seq<char>,
    pub span_id: Option<Seq<char>>,
}

impl View for LogCorrelation {
    type V = CorrelationView;

    open spec fn view(&self) -> CorrelationView {
        CorrelationView { trace_id: self.trace_id@, span_id: text::opt(self.span_id) }
    }
}

/// What an optional correlation names.
pub open spec fn correlation_view(c: Option<LogCorrelation>) -> Option<CorrelationView> {
    match c {
        Some(c) => Some(c@),
        None => None,
    }
}

impl Clone for LogCorrelation {
    fn clone(&self) -> (r: LogCorrelation)
        ensures
            r == *self,
    {
        LogCorrelation {
            trace_id: self.trace_id.clone(),
            span_id: match &self.span_id {
                Some(s) => Some(s.clone()),
                None => None,
            },
        }
    }
}

/// A point of a metric that a trace was recorded for.
#[derive(Debug)]
pub struct ExemplarMarker {
    pub time_ns: i64,
    pub trace_id: String,
}

/// The outcome of a query: for which request and screen, and the snapshot or the error.
pub struct QueryResult {
    pub generation: u64,
    pub screen: Screen,
    pub result: Result<Snapshot, String>,
}

/// A message that background work delivers.
pub enum Update {
    Query(QueryResult),
    Vocabulary(Vec<String>),
    Waterfall {
        generation: u64,
        trace_id: String,
        detail: Arc<DetailPane>,
        trace: Option<Arc<TraceDetail>>,
    },
    MetricDims { metric: String, dims: Vec<DimNode> },
    LogLabels(Vec<String>),
    LogLabelValues { label: String, values: Vec<String> },
    AttributeStats { key: Option<(i64, i64)>, pane: Arc<DetailPane> },
    Promoted(Result<Vec<String>, String>),
    Exemplars { labels: String, query: String, markers: Vec<ExemplarMarker> },
}

/// A view as the history keeps it.
#[derive(Debug)]
pub struct NavEntry {
    pub route: Route,
    pub query: [String; 4],
    pub metric_cursor: usize,
    pub focus_trace_id: Option<String>,
    pub selected: usize,
    pub scroll: u16,
    pub span_cursor: usize,
    pub log_correlation: Option<LogCorrelation>,
}

/// What a history entry holds.
#[verifier::ext_equal]
pub struct NavView {
    pub route: RouteView,
    pub query: Seq<Seq<char>>,
    pub metric_cursor: usize,
    pub focus_trace_id: Option<Seq<char>>,
    pub selected: usize,
    pub scroll: u16,
    pub span_cursor: usize,
    pub log_correlation: Option<CorrelationView>,
}

impl View for NavEntry {
    type V = NavView;

    open spec fn view(&self) -> NavView {
        NavView {
            route: self.route@,
            query: text::strs(self.query@),
            metric_cursor: self.metric_cursor,
            focus_trace_id: text::opt(self.focus_trace_id),
            selected: self.selected,
            scroll: self.scroll,
            span_cursor: self.span_cursor,
            log_correlation: correlation_view(self.log_correlation),
        }
    }
}

impl Clone for NavEntry {
    fn clone(&self) -> (r: NavEntry)
        ensures
            r@ == self@,
    {
        let r = NavEntry {
            route: self.route.clone(),
            query: [self.query[0].clone(), self.query[1].clone(), self.query[2].clone(), self.query[3].clone()],
            metric_cursor: self.metric_cursor,
            focus_trace_id: match &self.focus_trace_id {
                Some(id) => Some(id.clone()),
                None => None,
            },
            selected: self.selected,
            scroll: self.scroll,
            span_cursor: self.span_cursor,
            log_correlation: match &self.log_correlation {
                Some(c) => Some(c.clone()),
                None => None,
            },
        };
        assert(text::strs(r.query@) =~= text::strs(self.query@));
        r
    }
}

/// The contents of a stack of history entries.
pub open spec fn navs(v: Seq<NavEntry>) -> Seq<NavView> {
    v.map_values(|e: NavEntry| e@)
}

} // verus!
