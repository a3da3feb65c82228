//! The Metrics panes: the series or catalog table and the detailed time-series viewer.

use vstd::prelude::*;

use crate::app::{App, AppView, FrameState};
use crate::chart;
use crate::geometry;
use crate::geometry::Rect;
use crate::model;
use crate::model::{MetricDetail, TableData, TableView};
use crate::promql;
use crate::style;
use crate::style::{Color, Span, SpanView, Style};
use crate::text;
use crate::time;
use crate::ui::glyphs::Glyphs;
use crate::ui::pane;
use crate::ui::pane::{Body, BodyView, Border, Extent, Pane, PaneView, Wrap};
use crate::width;

verus! {

/// The cells of the widest cell of each column, the header included.
///
/// Measured in terminal cells, so that wide characters size their column to what they occupy.
pub fn column_widths(header: &Vec<String>, rows: &Vec<Vec<String>>) -> (r: Vec<usize>)
    ensures
        r@ == model::widths_of(text::strs(header@), model::rows_view(rows@)),
{
    let ghost h = text::strs(header@);
    let ghost all = model::rows_view(rows@);
    let mut widths: Vec<usize> = Vec::new();
    let mut i: usize = 0;
    while i < header.len()
        invariant
            i <= header@.len(),
            h == text::strs(header@),
            widths@.len() == i,
            forall|j: int| 0 <= j < i ==> widths@[j] == model::widest(h, all, 0, j),
        decreases header.len() - i,
    {
        assert(h[i as int] == header@[i as int]@);
        widths.push(width::str_width(&header[i]));
        i += 1;
    }
    let mut n: usize = 0;
    while n < rows.len()
        invariant
            n <= rows@.len(),
            h == text::strs(header@),
            all == model::rows_view(rows@),
            widths@.len() == h.len(),
            forall|j: int| 0 <= j < h.len() ==> widths@[j] == model::widest(h, all, n as nat, j),
        decreases rows.len() - n,
    {
        let row = &rows[n];
        let ghost before = widths@;
        assert(all[n as int] == text::strs(row@));
        let mut c: usize = 0;
        while c < row.len() && c < widths.len()
            invariant
                c <= row@.len(),
                c <= widths@.len(),
                n < rows@.len(),
                row == rows@[n as int],
                all == model::rows_view(rows@),
                all[n as int] == text::strs(row@),
                before.len() == h.len(),
                widths@.len() == h.len(),
                forall|j: int| 0 <= j < h.len() ==> before[j] == model::widest(h, all, n as nat, j),
                forall|j: int| 0 <= j < c ==> widths@[j] == model::widest(h, all, (n + 1) as nat, j),
                forall|j: int| c <= j < h.len() ==> widths@[j] == before[j],
            decreases row.len() - c,
        {
            let w: usize = width::str_width(&row[c]);
            assert(all[n as int][c as int] == row@[c as int]@);
            let ghost kept = widths@;
            if w > widths[c] {
                widths.set(c, w);
            }
            proof {
                let m = (n + 1) as nat;
                assert(model::widest(h, all, m, c as int) == widths@[c as int]) by {
                    assert(all[m - 1] == text::strs(row@));
                    assert((m - 1) as nat == n as nat);
                    assert(before[c as int] == kept[c as int]);
                }
            }
            c += 1;
        }
        assert forall|j: int| 0 <= j < h.len() implies widths@[j] == model::widest(h, all, (n + 1) as nat, j) by {
            let m = (n + 1) as nat;
            assert(all[m - 1] == text::strs(row@));
            assert((m - 1) as nat == n as nat);
            assert(before[j] == model::widest(h, all, n as nat, j));
        }
        n += 1;
    }
    assert(widths@ =~= model::widths_of(h, all));
    widths
}

/// What the columns of these widths take: every column but the last is fixed, and the last takes what
/// is left. No column is cut to nothing, and none crowds out the rest.
pub open spec fn column_extents(widths: Seq<usize>) -> Seq<Extent> {
    Seq::new(
        widths.len(),
        |i: int|
            if i + 1 == widths.len() {
                Extent::Min(geometry::clamp(widths[i] as int, 6, 60) as u16)
            } else {
                Extent::Length(geometry::clamp(widths[i] as int, 4, 48) as u16)
            },
    )
}

/// What the columns of a table take: every column but the last is fixed, and the last takes what is
/// left.
pub fn column_constraints(header: &Vec<String>, rows: &Vec<Vec<String>>) -> (r: Vec<Extent>)
    ensures
        r@ == column_extents(model::widths_of(text::strs(header@), model::rows_view(rows@))),
{
    let widths = column_widths(header, rows);
    let n: usize = widths.len();
    let mut out: Vec<Extent> = Vec::new();
    let mut i: usize = 0;
    while i < n
        invariant
            n == widths@.len(),
            i <= n,
            out@ == column_extents(widths@).take(i as int),
        decreases n - i,
    {
        let w: usize = widths[i];
        let extent = if i + 1 == n {
            Extent::Min(if w < 6 { 6 } else if w > 60 { 60 } else { w as u16 })
        } else {
            Extent::Length(if w < 4 { 4 } else if w > 48 { 48 } else { w as u16 })
        };
        out.push(extent);
        i += 1;
        assert(column_extents(widths@).take(i as int) =~= column_extents(widths@).take(i - 1).push(extent));
    }
    assert(column_extents(widths@).take(n as int) =~= column_extents(widths@));
    out
}

/// The cells of the first `n` characters, each measured on its own.
pub open spec fn single_cells(s: Seq<char>, n: int) -> int
    decreases n,
{
    if n <= 0 { 0 } else { single_cells(s, n - 1) + width::cells(seq![s[n - 1]]) }
}

/// How many characters of `s` fit into `room` cells, the first `i` of them being known to.
pub open spec fn fitting(s: Seq<char>, room: int, i: int) -> int
    decreases s.len() - i,
{
    if 0 <= i < s.len() && single_cells(s, i + 1) <= room {
        fitting(s, room, i + 1)
    } else {
        i
    }
}

/// `s` in `w` cells: padded with spaces, or cut with a `>` at the cut.
pub open spec fn cell_text(s: Seq<char>, w: int) -> Seq<char> {
    let actual = width::cells(s) as int;
    if actual <= w {
        s + text::rep(' ', w - actual)
    } else {
        let n = fitting(s, geometry::monus(w, 1), 0);
        s.take(n).push('>') + text::rep(' ', w - (single_cells(s, n) + 1))
    }
}

/// `cell` in `width` terminal cells: padded with spaces, or cut with a `>` at the cut.
pub fn pad_cell(cell: &str, width: usize) -> (r: String)
    ensures
        r@ == cell_text(cell@, width as int),
{
    let actual: usize = crate::width::str_width(cell);
    if actual <= width {
        let mut out = text::owned(cell);
        text::push_rep(&mut out, ' ', width - actual);
        return out;
    }
    let cs = text::chars_of(cell);
    let n: usize = cs.len();
    let room: usize = if width > 0 { width - 1 } else { 0 };
    let mut out = String::new();
    let mut used: usize = 0;
    let mut i: usize = 0;
    let mut full = false;
    assert(cs@.take(0) =~= Seq::<char>::empty());
    while i < n && !full
        invariant
            n == cs@.len(),
            i <= n,
            used == single_cells(cs@, i as int),
            used <= room,
            out@ == cs@.take(i as int),
            !full ==> fitting(cs@, room as int, 0) == fitting(cs@, room as int, i as int),
            full ==> fitting(cs@, room as int, 0) == i,
        decreases n - i, if full { 0int } else { 1int },
    {
        let mut one = String::new();
        one.push(cs[i]);
        assert(one@ =~= seq![cs@[i as int]]);
        let w: usize = crate::width::str_width(&one);
        if w > room - used {
            full = true;
        } else {
            out.push(cs[i]);
            used = used + w;
            i += 1;
            assert(cs@.take(i as int) =~= cs@.take(i - 1).push(cs@[i - 1]));
        }
    }
    out.push('>');
    text::push_rep(&mut out, ' ', if width > used { width - used - 1 } else { 0 });
    assert(out@ =~= cell_text(cell@, width as int));
    out
}

/// A cell of printable ASCII takes exactly its width, padded or cut.
pub proof fn law_a_padded_cell_is_exactly_its_width(s: Seq<char>, w: int)
    requires
        width::printable(s),
        w > 0,
    ensures
        cell_text(s, w).len() == w,
        width::printable(cell_text(s, w)),
{
    width::law_printable_ascii_takes_one_cell_each(s);
    if s.len() > w {
        lemma_printable_singles(s, w - 1);
        lemma_fitting_is(s, w - 1, 0);
    }
}

proof fn lemma_printable_singles(s: Seq<char>, n: int)
    requires
        width::printable(s),
        0 <= n <= s.len(),
    ensures
        single_cells(s, n) == n,
    decreases n,
{
    if n > 0 {
        lemma_printable_singles(s, n - 1);
        let one = seq![s[n - 1]];
        assert(width::printable(one)) by {
            assert(one[0] == s[n - 1]);
        }
        width::law_printable_ascii_takes_one_cell_each(one);
    }
}

proof fn lemma_fitting_is(s: Seq<char>, room: int, i: int)
    requires
        width::printable(s),
        0 <= i <= room < s.len(),
    ensures
        fitting(s, room, i) == room,
    decreases room - i,
{
    lemma_printable_singles(s, i + 1);
    if i < room {
        lemma_fitting_is(s, room, i + 1);
    }
}

/// Where the branch marker of a tree row ends, where the row has one.
pub open spec fn marker_end(s: Seq<char>) -> Option<int> {
    let rest = text::trim_start(s);
    if promql::starts_with(rest, "v "@) || promql::starts_with(rest, "> "@) {
        Some(s.len() - rest.len() + 2)
    } else {
        None
    }
}

/// A cell of the table: the branch marker of a tree row is set apart from what follows it.
pub open spec fn cell_spans(s: Seq<char>, tree: bool) -> Seq<SpanView> {
    match (if tree { marker_end(s) } else { None }) {
        Some(end) => seq![
            pane::one(s.take(end), style::colored(Color::DarkGray)),
            pane::one(s.skip(end), style::plain()),
        ],
        None => pane::line(s, style::plain()),
    }
}

/// A row of the table; only its first cell can have a branch marker.
pub open spec fn row_cells(row: Seq<Seq<char>>, tree: bool) -> Seq<Seq<SpanView>> {
    Seq::new(row.len(), |i: int| cell_spans(row[i], tree && i == 0))
}

/// The rows of the table.
pub open spec fn table_cells(rows: Seq<Seq<Seq<char>>>, tree: bool) -> Seq<Seq<Seq<SpanView>>> {
    rows.map_values(|row: Seq<Seq<char>>| row_cells(row, tree))
}

/// The row that the cursor is on, where there is one.
pub open spec fn selection(a: AppView) -> Option<usize> {
    match a.selectable() {
        Some((first, last)) => Some(geometry::clamp(a.at.selected as int, first as int, last as int) as usize),
        None => None,
    }
}

/// A title with the position of the cursor.
pub open spec fn counted(title: Seq<char>, at: int, of: int) -> Seq<char> {
    title + "  ["@ + text::dec(at as nat) + "/"@ + text::dec(of as nat) + "]"@
}

/// A title with the position of the cursor.
pub(crate) fn counted_title(title: &str, at: u64, of: u64) -> (r: String)
    ensures
        r@ == counted(title@, at as int, of as int),
{
    let mut out = text::cat(title, "  [");
    text::push_dec(&mut out, at);
    out.append("/");
    text::push_dec(&mut out, of);
    out.append("]");
    out
}

/// The primary pane as a table.
pub open spec fn table_pane(a: AppView, table: TableView, area: Rect, focused: bool) -> PaneView {
    PaneView {
        area,
        clear: false,
        title: match selection(a) {
            Some(at) => if table.rows.len() > 0 {
                counted(a.snapshot.title, at + 1, table.rows.len() as int)
            } else {
                a.snapshot.title
            },
            None => a.snapshot.title,
        },
        border: Border::Boxed(pane::border_look(focused)),
        style: style::plain(),
        body: BodyView::Table {
            header: table.header,
            rows: table_cells(table.rows, a.on_catalog()),
            columns: column_extents(model::widths_of(table.header, table.rows)),
            selected: selection(a),
        },
    }
}

fn cell_of(s: &str, tree: bool) -> (r: Vec<Span>)
    ensures
        style::spans(r@) == cell_spans(s@, tree),
{
    if tree {
        let cs = text::chars_of(s);
        let rest = text::start_trimmed(&cs);
        if promql::has_prefix(&rest, "v ") || promql::has_prefix(&rest, "> ") {
            proof {
                reveal_strlit("v ");
                reveal_strlit("> ");
                lemma_trim_start_len(s@);
            }
            let end: usize = cs.len() - rest.len() + 2;
            let mut v = pane::one_line(text::string_range(&cs, 0, end), Style::fg(Color::DarkGray));
            pane::add_span(&mut v, text::string_range(&cs, end, cs.len()), Style::plain());
            assert(s@.subrange(0, end as int) =~= s@.take(end as int));
            assert(s@.subrange(end as int, s@.len() as int) =~= s@.skip(end as int));
            assert(style::spans(v@) =~= cell_spans(s@, tree));
            return v;
        }
    }
    pane::one_line(text::owned(s), Style::plain())
}

proof fn lemma_trim_start_len(s: Seq<char>)
    ensures
        text::trim_start(s).len() <= s.len(),
    decreases s.len(),
{
    if s.len() > 0 && text::space(s[0]) {
        lemma_trim_start_len(s.drop_first());
    }
}

fn cells_of(row: &Vec<String>, tree: bool) -> (r: Vec<Vec<Span>>)
    ensures
        pane::lines_view(r@) == row_cells(text::strs(row@), tree),
{
    let ghost all = row_cells(text::strs(row@), tree);
    let n: usize = row.len();
    let mut out: Vec<Vec<Span>> = Vec::new();
    let mut i: usize = 0;
    assert(pane::lines_view(out@) =~= all.take(0));
    while i < n
        invariant
            n == row@.len(),
            i <= n,
            all == row_cells(text::strs(row@), tree),
            pane::lines_view(out@) == all.take(i as int),
        decreases n - i,
    {
        pane::add_row(&mut out, cell_of(&row[i], tree && i == 0));
        i += 1;
        assert(all[i - 1] == cell_spans(row@[i - 1]@, tree && i - 1 == 0));
        assert(all.take(i as int) =~= all.take(i - 1).push(all[i - 1]));
    }
    assert(all.take(n as int) =~= all);
    out
}

/// The row that the cursor is on, where there is one.
pub fn selected_row(app: &App) -> (r: Option<usize>)
    ensures
        r == selection(app@),
        r is Some ==> r->0 < usize::MAX,
{
    match app.selectable_bounds() {
        Some((first, last)) => {
            let at: usize = app.at.selected;
            Some(if at < first { first } else if at > last { last } else { at })
        },
        None => None,
    }
}

/// The primary pane as a table whose rows can be selected, with aligned columns and a row of column
/// names.
pub fn draw_metric_table(app: &App, table: &TableData, area: Rect, focused: bool) -> (r: Pane)
    ensures
        r@ == table_pane(app@, table@, area, focused),
{
    let tree = app.on_catalog();
    let ghost all = table_cells(table@.rows, tree);
    let n: usize = table.rows.len();
    let mut rows: Vec<Vec<Vec<Span>>> = Vec::new();
    let mut header: Vec<String> = Vec::new();
    let mut i: usize = 0;
    assert(pane::cells_view(rows@) =~= all.take(0));
    while i < n
        invariant
            n == table.rows@.len(),
            i <= n,
            all == table_cells(table@.rows, tree),
            pane::cells_view(rows@) == all.take(i as int),
        decreases n - i,
    {
        let ghost before = rows@;
        let row = cells_of(&table.rows[i], tree);
        rows.push(row);
        i += 1;
        assert(table@.rows[i - 1] == text::strs(table.rows@[i - 1]@));
        assert(pane::cells_view(rows@) =~= pane::cells_view(before).push(all[i - 1]));
        assert(all.take(i as int) =~= all.take(i - 1).push(all[i - 1]));
    }
    assert(all.take(n as int) =~= all);
    let m: usize = table.header.len();
    let ghost names = text::strs(table.header@);
    let mut k: usize = 0;
    while k < m
        invariant
            m == table.header@.len(),
            k <= m,
            names == text::strs(table.header@),
            text::strs(header@) =~= names.take(k as int),
        decreases m - k,
    {
        text::add_line(&mut header, table.header[k].clone());
        k += 1;
        assert(names.take(k as int) =~= names.take(k - 1).push(table.header@[k - 1]@));
    }
    assert(names.take(m as int) =~= names);
    let selected = selected_row(app);
    let title = match selected {
        Some(at) => if n > 0 {
            counted_title(&app.snapshot.title, at as u64 + 1, n as u64)
        } else {
            app.snapshot.title.clone()
        },
        None => app.snapshot.title.clone(),
    };
    Pane {
        area,
        clear: false,
        title,
        border: Border::Boxed(pane::focus_border(focused)),
        style: Style::plain(),
        body: Body::Table { header, rows, columns: column_constraints(&table.header, &table.rows), selected },
    }
}

/// Whether the double-precision number with these bits is neither infinite nor undefined.
pub open spec fn finite(bits: u64) -> bool {
    bits % 0x8000_0000_0000_0000 < 0x7ff0_0000_0000_0000
}

/// The number of finite values among the first `n` points.
pub open spec fn finite_count(points: Seq<(i64, u64)>, n: nat) -> nat
    decreases n,
{
    if n == 0 {
        0
    } else {
        finite_count(points, (n - 1) as nat) + if finite(points[n - 1].1) { 1nat } else { 0 }
    }
}

/// What the application says of the values of a series: their texts, and the levels of the plain
/// chart.
#[derive(Debug)]
pub struct Figures {
    pub chart: Vec<u64>,
    pub at_cursor: String,
    pub min: String,
    pub max: String,
    pub avg: String,
    pub latest: String,
}

/// The texts of a series' values.
pub struct FiguresView {
    pub chart: Seq<u64>,
    pub at_cursor: Seq<char>,
    pub min: Seq<char>,
    pub max: Seq<char>,
    pub avg: Seq<char>,
    pub latest: Seq<char>,
}

impl View for Figures {
    type V = FiguresView;

    open spec fn view(&self) -> FiguresView {
        FiguresView {
            chart: self.chart@,
            at_cursor: self.at_cursor@,
            min: self.min@,
            max: self.max@,
            avg: self.avg@,
            latest: self.latest@,
        }
    }
}

/// The series that the detail shows.
pub struct SeriesView {
    pub labels: Seq<char>,
    pub query: Seq<char>,
    pub points: Seq<(i64, u64)>,
}

/// The series that the detail shows.
pub open spec fn series_view(detail: MetricDetail) -> SeriesView {
    SeriesView { labels: detail.labels@, query: detail.query@, points: detail.points@ }
}

/// The point that the cursor is on.
pub open spec fn series_cursor(a: AppView, n: nat) -> int {
    geometry::min(a.at.metric_cursor as int, geometry::monus(n as int, 1))
}

/// The head of the series' detail: its labels, and its query in the title.
pub open spec fn series_head(detail: SeriesView, area: Rect, dash: Seq<char>) -> PaneView {
    pane::boxed_lines(
        area,
        "Metric series "@ + dash + " "@ + detail.query,
        seq![
            seq![
                pane::one(" Series "@, style::cursor_look()),
                pane::one(
                    " "@ + if detail.labels.len() == 0 { "{}"@ } else { detail.labels },
                    style::plain(),
                ),
            ],
        ],
    )
}

/// Whether the series is drawn as a line: the terminal can, and there are two points to join.
pub open spec fn has_line(points: Seq<(i64, u64)>, ascii: bool) -> bool {
    !ascii && finite_count(points, points.len()) >= 2
}

/// The chart of the series: a line, or plain characters where no line can be drawn.
pub open spec fn series_chart(a: AppView, detail: SeriesView, f: FiguresView, area: Rect, focused: bool, ascii: bool) -> PaneView {
    let points = detail.points;
    let n = points.len();
    if has_line(points, ascii) {
        let at = series_cursor(a, n);
        PaneView {
            body: BodyView::Plot {
                cursor: at as usize,
                labels: seq![
                    time::clock_text((time::seconds(points[0].0 as int)) % 86_400),
                    time::clock_text((time::seconds(points[at].0 as int)) % 86_400),
                    time::clock_text((time::seconds(points[n - 1].0 as int)) % 86_400),
                ],
            },
            ..pane::prose(area, "Chart"@, focused, Seq::empty(), Wrap::Cut, 0)
        }
    } else {
        pane::prose(
            area,
            "Chart"@,
            focused,
            if finite_count(points, n) == 0 {
                "no finite samples in this window"@
            } else {
                chart::chart_text(
                    f.chart,
                    geometry::monus(area.width as int, 2),
                    geometry::monus(area.height as int, 2),
                )
            },
            Wrap::Cut,
            0,
        )
    }
}

/// The point under the cursor.
pub open spec fn cursor_line(a: AppView, points: Seq<(i64, u64)>, f: FiguresView) -> Seq<SpanView> {
    let n = points.len();
    if n == 0 {
        pane::line("no samples in this window"@, style::colored(Color::Yellow))
    } else {
        let at = series_cursor(a, n);
        seq![
            pane::one(
                "cursor ["@ + text::dec((at + 1) as nat) + "/"@ + text::dec(n) + "] "@,
                style::colored(Color::Yellow),
            ),
            pane::one(
                time::datetime_text(points[at].0 as int) + "  =  "@ + if finite(points[at].1) {
                    f.at_cursor
                } else {
                    "n/a"@
                },
                style::plain(),
            ),
        ]
    }
}

/// The summary of the series.
pub open spec fn series_stats(points: Seq<(i64, u64)>, f: FiguresView, exemplars: nat, sep: Seq<char>) -> Seq<char> {
    let stats = if finite_count(points, points.len()) == 0 {
        "no finite samples"@
    } else {
        "min "@ + f.min + " "@ + sep + " max "@ + f.max + " "@ + sep + " avg "@ + f.avg + " "@ + sep + " latest "@
            + f.latest + " "@ + sep + " "@ + text::dec(points.len()) + " pts"@
    };
    if exemplars == 0 {
        stats
    } else {
        stats + " "@ + sep + " "@ + text::dec(exemplars) + " exemplars (enter: nearest trace)"@
    }
}

/// The keys of the series' detail.
pub open spec fn series_hint(left: Seq<char>, right: Seq<char>, sep: Seq<char>) -> Seq<char> {
    "esc/"@ + left + " back "@ + sep + " bksp series list "@ + sep + " "@ + right + " fwd "@ + sep
        + " h/l or shift+"@ + left + right + " move cursor "@ + sep + " home/end ends "@ + sep + " pgup/pgdn page"@
}

/// The readout below the chart: the point under the cursor, the summary, and the keys.
pub open spec fn series_readout(a: AppView, detail: SeriesView, f: FiguresView, area: Rect, g: Glyphs) -> PaneView {
    pane::boxed_lines(
        area,
        ""@,
        seq![
            cursor_line(a, detail.points, f),
            pane::line(
                series_stats(detail.points, f, a.metric_exemplars.len(), g.sep@),
                style::colored(Color::DarkGray),
            ),
            pane::line(series_hint(g.left@, g.right@, g.sep@), style::colored(Color::DarkGray)),
        ],
    )
}

/// The panes of the series' detail, in three rows.
#[verifier::opaque]
pub open spec fn series_panes(
    a: AppView,
    detail: SeriesView,
    f: FiguresView,
    rows: Seq<Rect>,
    focused: bool,
    g: Glyphs,
) -> Seq<PaneView> {
    seq![
        series_head(detail, rows[0], g.dash@),
        series_chart(a, detail, f, rows[1], focused, g.ascii),
        series_readout(a, detail, f, rows[2], g),
    ]
}

/// What drawing the series' detail leaves for the keys: a page of the cursor is a screenful of plot
/// columns, and no chart can be walked where no line was drawn.
pub open spec fn series_frame(frame: FrameState, detail: SeriesView, area: Rect, ascii: bool) -> FrameState {
    FrameState {
        page_rows: geometry::max(geometry::monus(area.width as int, 2), 1) as u16,
        chart_geom: if has_line(detail.points, ascii) { frame.chart_geom } else { None },
        ..frame
    }
}

fn is_finite(bits: u64) -> (r: bool)
    ensures
        r == finite(bits),
{
    bits % 0x8000_0000_0000_0000 < 0x7ff0_0000_0000_0000
}

/// The number of finite values of a series.
pub fn finite_points(points: &Vec<(i64, u64)>) -> (r: usize)
    ensures
        r == finite_count(points@, points@.len()),
        r <= points@.len(),
{
    let n: usize = points.len();
    let mut count: usize = 0;
    let mut i: usize = 0;
    while i < n
        invariant
            n == points@.len(),
            i <= n,
            count == finite_count(points@, i as nat),
            count <= i,
        decreases n - i,
    {
        if is_finite(points[i].1) {
            count += 1;
        }
        i += 1;
    }
    count
}

fn chart_pane(app: &App, detail: &MetricDetail, figures: &Figures, area: Rect, focused: bool, ascii: bool) -> (r: Pane)
    ensures
        r@ == series_chart(app@, series_view(*detail), figures@, area, focused, ascii),
{
    let count: usize = finite_points(&detail.points);
    let n: usize = detail.points.len();
    if ascii || count < 2 {
        let body = if count == 0 {
            text::owned("no finite samples in this window")
        } else {
            chart::ascii_chart(
                &figures.chart,
                geometry::monus16(area.width, 2) as usize,
                geometry::monus16(area.height, 2) as usize,
            )
        };
        pane::prose_pane(area, text::owned("Chart"), focused, body, Wrap::Cut, 0)
    } else {
        let at: usize = if app.at.metric_cursor < n - 1 { app.at.metric_cursor } else { n - 1 };
        let mut labels: Vec<String> = Vec::new();
        labels.push(time::clock_hms_ns(detail.points[0].0));
        labels.push(time::clock_hms_ns(detail.points[at].0));
        labels.push(time::clock_hms_ns(detail.points[n - 1].0));
        let r = Pane {
            area,
            clear: false,
            title: text::owned("Chart"),
            border: Border::Boxed(pane::focus_border(focused)),
            style: Style::plain(),
            body: Body::Plot { cursor: at, labels },
        };
        assert(r@ =~= series_chart(app@, series_view(*detail), figures@, area, focused, ascii));
        r
    }
}

fn cursor_spans(app: &App, detail: &MetricDetail, figures: &Figures) -> (r: Vec<Span>)
    ensures
        style::spans(r@) == cursor_line(app@, detail.points@, figures@),
{
    let n: usize = detail.points.len();
    if n == 0 {
        pane::one_line(text::owned("no samples in this window"), Style::fg(Color::Yellow))
    } else {
        let at: usize = if app.at.metric_cursor < n - 1 { app.at.metric_cursor } else { n - 1 };
        let (ns, bits) = detail.points[at];
        let mut place = text::cat3("cursor [", &text::dec_string(at as u64 + 1), "/");
        text::push_dec(&mut place, n as u64);
        place.append("] ");
        let mut value = time::format_datetime_ns(ns);
        value.append("  =  ");
        value.append(if is_finite(bits) { figures.at_cursor.as_str() } else { "n/a" });
        let mut spans = pane::one_line(place, Style::fg(Color::Yellow));
        pane::add_span(&mut spans, value, Style::plain());
        assert(style::spans(spans@) =~= cursor_line(app@, detail.points@, figures@));
        spans
    }
}

fn stats_text(detail: &MetricDetail, figures: &Figures, exemplars: usize, g: &Glyphs) -> (r: String)
    ensures
        r@ == series_stats(detail.points@, figures@, exemplars as nat, g.sep@),
{
    let n: usize = detail.points.len();
    let mut stats = if finite_points(&detail.points) == 0 {
        text::owned("no finite samples")
    } else {
        let mut out = text::cat3("min ", &figures.min, " ");
        out.append(g.sep);
        out.append(" max ");
        out.append(&figures.max);
        out.append(" ");
        out.append(g.sep);
        out.append(" avg ");
        out.append(&figures.avg);
        out.append(" ");
        out.append(g.sep);
        out.append(" latest ");
        out.append(&figures.latest);
        out.append(" ");
        out.append(g.sep);
        out.append(" ");
        text::push_dec(&mut out, n as u64);
        out.append(" pts");
        out
    };
    if exemplars > 0 {
        stats.append(" ");
        stats.append(g.sep);
        stats.append(" ");
        text::push_dec(&mut stats, exemplars as u64);
        stats.append(" exemplars (enter: nearest trace)");
    }
    stats
}

fn hint_text(g: &Glyphs) -> (r: String)
    ensures
        r@ == series_hint(g.left@, g.right@, g.sep@),
{
    let mut keys = text::cat3("esc/", g.left, " back ");
    keys.append(g.sep);
    keys.append(" bksp series list ");
    keys.append(g.sep);
    keys.append(" ");
    keys.append(g.right);
    keys.append(" fwd ");
    keys.append(g.sep);
    keys.append(" h/l or shift+");
    keys.append(g.left);
    keys.append(g.right);
    keys.append(" move cursor ");
    keys.append(g.sep);
    keys.append(" home/end ends ");
    keys.append(g.sep);
    keys.append(" pgup/pgdn page");
    keys
}

fn readout_pane(app: &App, detail: &MetricDetail, figures: &Figures, area: Rect, g: &Glyphs) -> (r: Pane)
    ensures
        r@ == series_readout(app@, series_view(*detail), figures@, area, *g),
{
    let first = cursor_spans(app, detail, figures);
    let stats = stats_text(detail, figures, app.metric_exemplars.len(), g);
    let keys = hint_text(g);
    let mut lines: Vec<Vec<Span>> = Vec::new();
    lines.push(first);
    lines.push(pane::one_line(stats, Style::fg(Color::DarkGray)));
    lines.push(pane::one_line(keys, Style::fg(Color::DarkGray)));
    let r = pane::boxed_lines_pane(area, text::owned(""), lines);
    assert(pane::lines_view(lines@) =~= seq![
        cursor_line(app@, detail.points@, figures@),
        pane::line(
            series_stats(detail.points@, figures@, app@.metric_exemplars.len(), g.sep@),
            style::colored(Color::DarkGray),
        ),
        pane::line(series_hint(g.left@, g.right@, g.sep@), style::colored(Color::DarkGray)),
    ]);
    r
}

/// The detail of one series: its labels and query, its chart with a movable cursor, and a readout of
/// the point under the cursor and of the whole series.
pub fn draw_metric_detail(
    app: &mut App,
    detail: &MetricDetail,
    figures: &Figures,
    rows: &Vec<Rect>,
    focused: bool,
    g: &Glyphs,
    out: &mut Vec<Pane>,
)
    requires
        rows@.len() == 3,
    ensures
        pane::panes(final(out)@) == pane::panes(old(out)@) + series_panes(
            old(app)@,
            series_view(*detail),
            figures@,
            rows@,
            focused,
            *g,
        ),
        final(app)@ == (AppView {
            frame: series_frame(old(app)@.frame, series_view(*detail), rows@[1], g.ascii),
            ..old(app)@
        }),
{
    proof {
        reveal(series_panes);
    }
    let ghost before = pane::panes(out@);
    let ghost a = app@;
    let mut head = pane::one_line(
        text::owned(" Series "),
        Style { fg: Some(Color::Black), bg: Some(Color::Cyan), bold: true, underlined: false, reversed: false },
    );
    let labels = if text::chars_of(&detail.labels).len() == 0 { "{}" } else { detail.labels.as_str() };
    pane::add_span(&mut head, text::cat(" ", labels), Style::plain());
    let mut title = text::cat3("Metric series ", g.dash, " ");
    title.append(&detail.query);
    let mut lines: Vec<Vec<Span>> = Vec::new();
    let ghost head_view = style::spans(head@);
    lines.push(head);
    assert(pane::lines_view(lines@) =~= seq![head_view]);
    assert(head_view =~= series_head(series_view(*detail), rows@[0], g.dash@).body->Lines_lines[0]);
    pane::add_pane(out, pane::boxed_lines_pane(rows[0], title, lines));
    pane::add_pane(out, chart_pane(app, detail, figures, rows[1], focused, g.ascii));
    pane::add_pane(out, readout_pane(app, detail, figures, rows[2], g));
    assert(pane::panes(out@) =~= before + series_panes(a, series_view(*detail), figures@, rows@, focused, *g));
    app.frame.page_rows = geometry::max16(geometry::monus16(rows[1].width, 2), 1);
    if g.ascii || finite_points(&detail.points) < 2 {
        app.frame.chart_geom = None;
    }
}

} // verus!
