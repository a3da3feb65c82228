//! The result panes: the list or text that a query returned, and the pane below it.

use vstd::prelude::*;

use crate::app::{App, AppView, FrameState};
use crate::geometry;
use crate::geometry::Rect;
use crate::model;
use crate::model::{AttrRow, DetailPane, Focus, KindView, PaneTable};
use crate::style;
use crate::style::{Color, Span, SpanView, Style};
use crate::text;
use crate::ui::glyphs::Glyphs;
use crate::ui::metrics;
use crate::ui::pane;
use crate::ui::pane::{Body, BodyView, Border, Extent, Pane, PaneView, Split, Wrap};

verus! {

/// The rows that the first `n` lines take, wrapped to `w` columns.
pub open spec fn rows_total(lines: Seq<Seq<char>>, w: nat, n: nat) -> int
    decreases n,
{
    if n == 0 {
        0
    } else {
        rows_total(lines, w, (n - 1) as nat) + crate::format::rows_of(lines[n - 1].len(), w)
    }
}

/// The rows inside a border.
pub open spec fn viewport(area: Rect) -> int {
    geometry::monus(area.height as int, 2)
}

/// How far the lines can be scrolled in a boxed area.
pub open spec fn scroll_end(lines: Seq<Seq<char>>, area: Rect) -> int {
    geometry::monus(
        geometry::min(rows_total(lines, geometry::monus(area.width as int, 2) as nat, lines.len()), u16::MAX as int),
        viewport(area),
    )
}

/// How far the lines can be scrolled in a boxed area.
pub(crate) fn scroll_limit(lines: &Vec<String>, area: Rect) -> (r: u16)
    ensures
        r == scroll_end(text::strs(lines@), area),
{
    let w: u16 = geometry::monus16(area.width, 2);
    let ghost all = text::strs(lines@);
    let n: usize = lines.len();
    let mut total: u64 = 0;
    let mut i: usize = 0;
    while i < n
        invariant
            n == lines@.len(),
            i <= n,
            all == text::strs(lines@),
            total == geometry::min(rows_total(all, w as nat, i as nat), 65_535),
            total <= 65_535,
        decreases n - i,
    {
        assert(all[i as int] == lines@[i as int]@);
        let rows: u64 = crate::format::wrapped_rows(&lines[i], w) as u64;
        total = if total + rows < 65_535 { total + rows } else { 65_535 };
        i += 1;
    }
    geometry::monus16(total as u16, geometry::monus16(area.height, 2))
}

/// A title with the scroll position, where there is something to scroll.
pub open spec fn scrolled_title(title: Seq<char>, at: int, end: int, arrows: Seq<char>) -> Seq<char> {
    if end > 0 {
        title + "  ["@ + text::dec(at as nat) + "/"@ + text::dec(end as nat) + " "@ + arrows + "]"@
    } else {
        title
    }
}

/// A title with the scroll position, where there is something to scroll.
pub(crate) fn title_at(title: &str, at: u16, end: u16, g: &Glyphs) -> (r: String)
    ensures
        r@ == scrolled_title(title@, at as int, end as int, g.up@ + g.down@),
{
    let mut out = text::owned(title);
    if end > 0 {
        out.append("  [");
        text::push_dec(&mut out, at as u64);
        out.append("/");
        text::push_dec(&mut out, end as u64);
        out.append(" ");
        out.append(&g.scroll());
        out.append("]");
    }
    out
}

/// The lines as one text, or `No data`.
pub open spec fn joined_or_none(lines: Seq<Seq<char>>) -> Seq<char> {
    if lines.len() == 0 { "No data"@ } else { text::join(lines, "\n"@) }
}

fn text_or_none(lines: &Vec<String>) -> (r: String)
    ensures
        r@ == joined_or_none(text::strs(lines@)),
{
    if lines.len() == 0 {
        text::owned("No data")
    } else {
        text::joined(lines, "\n")
    }
}

/// A boxed text that scrolls.
pub open spec fn scrolled_pane(title: Seq<char>, lines: Seq<Seq<char>>, area: Rect, scroll: int, focused: bool, g: Glyphs) -> PaneView {
    let end = scroll_end(lines, area);
    let at = geometry::min(scroll, end);
    pane::prose(
        area,
        scrolled_title(title, at, end, g.up@ + g.down@),
        focused,
        text::join(lines, "\n"@),
        Wrap::Keep,
        at as u16,
    )
}

/// What drawing a boxed text that scrolls leaves for the keys.
pub open spec fn scrolled_frame(frame: FrameState, lines: Seq<Seq<char>>, area: Rect) -> FrameState {
    FrameState {
        max_scroll: scroll_end(lines, area) as u16,
        page_rows: geometry::max(viewport(area), 1) as u16,
        ..frame
    }
}

/// A boxed text that scrolls; how far it can be scrolled is left for the keys.
pub(crate) fn draw_scrolled(app: &mut App, title: &str, lines: &Vec<String>, area: Rect, focused: bool, g: &Glyphs) -> (r: Pane)
    ensures
        r@ == scrolled_pane(title@, text::strs(lines@), area, old(app)@.at.scroll as int, focused, *g),
        final(app)@ == (AppView {
            frame: scrolled_frame(old(app)@.frame, text::strs(lines@), area),
            ..old(app)@
        }),
{
    let end: u16 = scroll_limit(lines, area);
    let at: u16 = geometry::min16(app.at.scroll, end);
    app.frame.max_scroll = end;
    app.frame.page_rows = geometry::max16(geometry::monus16(area.height, 2), 1);
    pane::prose_pane(area, title_at(title, at, end, g), focused, text::joined(lines, "\n"), Wrap::Keep, at)
}

/// The items of a list whose first `from` lines are a heading.
pub open spec fn list_items(lines: Seq<Seq<char>>, from: usize) -> Seq<Seq<SpanView>> {
    Seq::new(
        lines.len(),
        |i: int| pane::line(lines[i], if i < from { style::colored(Color::DarkGray) } else { style::plain() }),
    )
}

/// The primary pane as a list.
pub open spec fn list_pane(a: AppView, from: usize, area: Rect, focused: bool) -> PaneView {
    PaneView {
        area,
        clear: false,
        title: match a.selectable() {
            Some((first, last)) => metrics::counted(
                a.snapshot.title,
                metrics::selection(a)->0 - first + 1,
                last - first + 1,
            ),
            None => a.snapshot.title,
        },
        border: Border::Boxed(pane::border_look(focused)),
        style: style::plain(),
        body: BodyView::Items {
            items: list_items(a.snapshot.lines, from),
            selected: metrics::selection(a),
            first: 0,
        },
    }
}

/// The primary pane as text. Where the pane below owns the scroll, this one does not scroll.
pub open spec fn text_pane(a: AppView, area: Rect, focused: bool, below_scrolls: bool, g: Glyphs) -> PaneView {
    let end = scroll_end(a.snapshot.lines, area);
    let at = if below_scrolls { 0 } else { geometry::min(a.at.scroll as int, end) };
    pane::prose(
        area,
        scrolled_title(a.snapshot.title, at, end, g.up@ + g.down@),
        focused,
        joined_or_none(a.snapshot.lines),
        Wrap::Keep,
        at as u16,
    )
}

/// The primary pane: a table, a list, or text.
#[verifier::opaque]
pub open spec fn primary_pane(a: AppView, area: Rect, focused: bool, below_scrolls: bool, g: Glyphs) -> PaneView {
    match a.snapshot.table {
        Some(table) => metrics::table_pane(a, table, area, focused),
        None => match a.snapshot.list_from {
            Some(from) => list_pane(a, from, area, focused),
            None => text_pane(a, area, focused, below_scrolls, g),
        },
    }
}

/// What drawing the primary pane leaves for the keys.
pub open spec fn primary_frame(a: AppView, area: Rect, below_scrolls: bool) -> FrameState {
    let paged = FrameState { page_rows: geometry::max(viewport(area), 1) as u16, ..a.frame };
    if a.snapshot.table is None && a.snapshot.list_from is None && !below_scrolls {
        FrameState { max_scroll: scroll_end(a.snapshot.lines, area) as u16, ..paged }
    } else {
        paged
    }
}

fn items_of(lines: &Vec<String>, from: usize) -> (r: Vec<Vec<Span>>)
    ensures
        pane::lines_view(r@) == list_items(text::strs(lines@), from),
{
    let ghost all = list_items(text::strs(lines@), from);
    let n: usize = lines.len();
    let mut out: Vec<Vec<Span>> = Vec::new();
    let mut i: usize = 0;
    assert(pane::lines_view(out@) =~= all.take(0));
    while i < n
        invariant
            n == lines@.len(),
            i <= n,
            all == list_items(text::strs(lines@), from),
            pane::lines_view(out@) == all.take(i as int),
        decreases n - i,
    {
        let look = if i < from { Style::fg(Color::DarkGray) } else { Style::plain() };
        pane::add_row(&mut out, pane::one_line(lines[i].clone(), look));
        i += 1;
        assert(all[i - 1] == pane::line(lines@[i - 1]@, look));
        assert(all.take(i as int) =~= all.take(i - 1).push(all[i - 1]));
    }
    assert(all.take(n as int) =~= all);
    out
}

/// The primary pane: a table, a list whose heading cannot be selected, or text that scrolls.
pub fn draw_primary(app: &mut App, area: Rect, focused: bool, below_scrolls: bool, g: &Glyphs) -> (r: Pane)
    ensures
        r@ == primary_pane(old(app)@, area, focused, below_scrolls, *g),
        final(app)@ == (AppView { frame: primary_frame(old(app)@, area, below_scrolls), ..old(app)@ }),
{
    proof {
        reveal(primary_pane);
    }
    let page: u16 = geometry::max16(geometry::monus16(area.height, 2), 1);
    if let Some(table) = &app.snapshot.table {
        let r = metrics::draw_metric_table(app, table, area, focused);
        app.frame.page_rows = page;
        return r;
    }
    match app.snapshot.list_from {
        Some(from) => {
            let selected = metrics::selected_row(app);
            let title = match app.selectable_bounds() {
                Some((first, last)) => match selected {
                    Some(at) => metrics::counted_title(
                        &app.snapshot.title,
                        (at - first) as u64 + 1,
                        (last - first) as u64 + 1,
                    ),
                    None => app.snapshot.title.clone(),
                },
                None => app.snapshot.title.clone(),
            };
            let items = items_of(&app.snapshot.lines, from);
            app.frame.page_rows = page;
            Pane {
                area,
                clear: false,
                title,
                border: Border::Boxed(pane::focus_border(focused)),
                style: Style::plain(),
                body: Body::Items { items, selected, first: 0 },
            }
        },
        None => {
            let end: u16 = scroll_limit(&app.snapshot.lines, area);
            let at: u16 = if below_scrolls { 0 } else { geometry::min16(app.at.scroll, end) };
            let title = title_at(&app.snapshot.title, at, end, g);
            let body = text_or_none(&app.snapshot.lines);
            app.frame.page_rows = page;
            if !below_scrolls {
                app.frame.max_scroll = end;
            }
            pane::prose_pane(area, title, focused, body, Wrap::Keep, at)
        },
    }
}

/// The rows of the first `n` that show a key.
pub open spec fn keyed(table: PaneTable, n: nat) -> Seq<Seq<Seq<char>>>
    decreases n,
{
    if n == 0 {
        Seq::empty()
    } else {
        let before = keyed(table, (n - 1) as nat);
        if table.key(n - 1) is Some { before.push(text::strs(table.data.rows@[n - 1]@)) } else { before }
    }
}

/// The widths of the attribute table's columns: those of the rows that show a key, so that a section
/// title cannot stretch them.
pub open spec fn key_widths(table: PaneTable) -> Seq<usize> {
    model::widths_of(text::strs(table.data.header@), keyed(table, table.data.rows@.len()))
}

/// The first `n` cells of a row of `last + 1`, each in its column; the last is as it is.
pub open spec fn columns_text(row: Seq<Seq<char>>, widths: Seq<usize>, n: nat) -> Seq<char>
    decreases n,
{
    if n == 0 {
        Seq::empty()
    } else {
        columns_text(row, widths, (n - 1) as nat) + if n == row.len() {
            row[n - 1]
        } else {
            metrics::cell_text(row[n - 1], if n - 1 < widths.len() { widths[n - 1] as int } else { 0 }) + "  "@
        }
    }
}

/// The look of the column names.
pub open spec fn header_look() -> Style {
    Style { fg: Some(Color::Cyan), bg: None, bold: true, underlined: true, reversed: false }
}

/// A line of the attribute table. A title spans the pane; the cells of a row are padded to their
/// columns.
pub open spec fn attr_line(row: Seq<Seq<char>>, kind: KindView, widths: Seq<usize>) -> Seq<SpanView> {
    match kind {
        KindView::Section => pane::line(
            if row.len() > 0 { row[0] } else { Seq::empty() },
            (Style { bold: true, ..style::plain() }),
        ),
        KindView::Header => pane::line(columns_text(row, widths, row.len()), header_look()),
        KindView::Key(_) => pane::line(columns_text(row, widths, row.len()), style::plain()),
        KindView::Blank => Seq::empty(),
    }
}

/// The lines of the attribute table, as many as there are rows with a kind.
pub open spec fn attr_lines(table: PaneTable) -> Seq<Seq<SpanView>> {
    Seq::new(
        geometry::min(table.data.rows@.len() as int, table.kinds@.len() as int) as nat,
        |i: int| attr_line(text::strs(table.data.rows@[i]@), table.kinds@[i]@, key_widths(table)),
    )
}

fn clone_row(row: &Vec<String>) -> (r: Vec<String>)
    ensures
        text::strs(r@) == text::strs(row@),
{
    let mut out: Vec<String> = Vec::new();
    let n: usize = row.len();
    let mut i: usize = 0;
    let ghost all = text::strs(row@);
    assert(text::strs(out@) =~= all.take(0));
    while i < n
        invariant
            n == row@.len(),
            i <= n,
            all == text::strs(row@),
            text::strs(out@) == all.take(i as int),
        decreases n - i,
    {
        text::add_line(&mut out, row[i].clone());
        i += 1;
        assert(all.take(i as int) =~= all.take(i - 1).push(row@[i - 1]@));
    }
    assert(all.take(n as int) =~= all);
    out
}

fn columns_of(row: &Vec<String>, widths: &Vec<usize>) -> (r: String)
    ensures
        r@ == columns_text(text::strs(row@), widths@, row@.len()),
{
    let mut out = String::new();
    let n: usize = row.len();
    let ghost all = text::strs(row@);
    let mut i: usize = 0;
    assert(out@ =~= Seq::empty());
    while i < n
        invariant
            n == row@.len(),
            i <= n,
            all == text::strs(row@),
            out@ == columns_text(all, widths@, i as nat),
        decreases n - i,
    {
        assert(all[i as int] == row@[i as int]@);
        let ghost before = out@;
        if i + 1 == n {
            out.append(&row[i]);
        } else {
            let w: usize = if i < widths.len() { widths[i] } else { 0 };
            let cell = metrics::pad_cell(&row[i], w);
            out.append(&cell);
            out.append("  ");
            assert(out@ =~= before + (cell@ + "  "@));
        }
        i += 1;
    }
    out
}

/// The lines of the attribute table: titles at full width, and the rows in aligned columns.
pub fn attr_pane_lines(table: &PaneTable) -> (r: Vec<Vec<Span>>)
    ensures
        pane::lines_view(r@) == attr_lines(*table),
{
    let n: usize = table.data.rows.len();
    let mut keys: Vec<Vec<String>> = Vec::new();
    let mut i: usize = 0;
    assert(model::rows_view(keys@) =~= keyed(*table, 0));
    while i < n
        invariant
            n == table.data.rows@.len(),
            i <= n,
            model::rows_view(keys@) == keyed(*table, i as nat),
        decreases n - i,
    {
        if let Some(_) = table.key_at(i) {
            let ghost before = keys@;
            let row = clone_row(&table.data.rows[i]);
            keys.push(row);
            assert(model::rows_view(keys@) =~= model::rows_view(before).push(text::strs(row@)));
        }
        i += 1;
    }
    let widths = metrics::column_widths(&table.data.header, &keys);
    let m: usize = table.kinds.len();
    let count: usize = if n < m { n } else { m };
    let ghost all = attr_lines(*table);
    let mut out: Vec<Vec<Span>> = Vec::new();
    let mut k: usize = 0;
    assert(pane::lines_view(out@) =~= all.take(0));
    while k < count
        invariant
            n == table.data.rows@.len(),
            m == table.kinds@.len(),
            count == geometry::min(n as int, m as int),
            k <= count,
            widths@ == key_widths(*table),
            all == attr_lines(*table),
            pane::lines_view(out@) == all.take(k as int),
        decreases count - k,
    {
        let row = &table.data.rows[k];
        let line = match &table.kinds[k] {
            AttrRow::Section => {
                let look = Style { fg: None, bg: None, bold: true, underlined: false, reversed: false };
                if row.len() > 0 {
                    pane::one_line(row[0].clone(), look)
                } else {
                    let none = String::new();
                    assert(none@ =~= Seq::empty());
                    pane::one_line(none, look)
                }
            },
            AttrRow::Header => pane::one_line(
                columns_of(row, &widths),
                Style { fg: Some(Color::Cyan), bg: None, bold: true, underlined: true, reversed: false },
            ),
            AttrRow::Key(_) => pane::one_line(columns_of(row, &widths), Style::plain()),
            AttrRow::Blank => {
                let none: Vec<Span> = Vec::new();
                assert(style::spans(none@) =~= Seq::empty());
                none
            },
        };
        assert(style::spans(line@) == all[k as int]);
        pane::add_row(&mut out, line);
        k += 1;
        assert(all.take(k as int) =~= all.take(k - 1).push(all[k - 1]));
    }
    assert(all.take(count as int) =~= all);
    out
}

/// A section title is shown whole, whatever the widths of the columns are.
pub proof fn law_a_section_title_is_not_clipped(table: PaneTable, i: int)
    requires
        0 <= i < table.data.rows@.len(),
        i < table.kinds@.len(),
        table.kinds@[i] is Section,
        table.data.rows@[i]@.len() > 0,
    ensures
        style::spans_text(attr_lines(table)[i]) == table.data.rows@[i]@[0]@,
{
    let line = attr_lines(table)[i];
    assert(text::strs(table.data.rows@[i]@)[0] == table.data.rows@[i]@[0]@);
    assert(line.drop_last() =~= Seq::empty());
    reveal_with_fuel(style::spans_text, 2);
    assert(style::spans_text(line) =~= line[0].text);
}

/// The notes of the attribute pane, the first one marked where the ring is on the range.
pub open spec fn note_lines(lines: Seq<Seq<char>>, marked: bool) -> Seq<Seq<SpanView>> {
    Seq::new(
        lines.len(),
        |i: int|
            pane::line(
                lines[i],
                if marked && i == 0 { style::cursor_look() } else { style::colored(Color::DarkGray) },
            ),
    )
}

/// The rows that the table of the attribute pane has, as far as they are counted.
pub open spec fn table_rows(detail: DetailPane) -> int {
    match detail.table {
        Some(table) => attr_lines(table).len() as int % 65_536,
        None => 0,
    }
}

/// How far the attribute table can be scrolled.
pub open spec fn attr_scroll_end(detail: DetailPane, area: Rect) -> int {
    geometry::monus(table_rows(detail), area.height as int)
}

/// What the title of the attribute pane says of the stop that the ring is on.
pub open spec fn attr_title(a: AppView, detail: DetailPane, area: Rect, g: Glyphs) -> Seq<char> {
    let end = attr_scroll_end(detail, area);
    let title = scrolled_title(detail.title@, geometry::min(a.at.scroll as int, end), end, g.up@ + g.down@);
    let placed = match a.effective_focus() {
        Focus::AttrRange => title + "  "@ + g.sep@ + " enter: change the range"@,
        Focus::AttrTable(section) => match a.attr_label(section as int) {
            Some(name) => title + "  "@ + g.sep@ + " "@ + name,
            None => title,
        },
        _ => title,
    };
    if a.effective_focus() is AttrTable && a.attrs.can_promote {
        placed + "  "@ + g.sep@ + " p: promote/demote"@
    } else {
        placed
    }
}

/// Whether the ring is on a stop of the attribute pane.
pub open spec fn attr_focused(a: AppView) -> bool {
    a.effective_focus() is AttrRange || a.effective_focus() is AttrTable
}

/// The attribute pane: its border and title, its notes, and its table below them.
#[verifier::opaque]
pub open spec fn attr_panes(a: AppView, detail: DetailPane, area: Rect, parts: Seq<Rect>, g: Glyphs) -> Seq<PaneView> {
    let end = attr_scroll_end(detail, parts[1]);
    let outline = PaneView {
        area,
        clear: false,
        title: attr_title(a, detail, parts[1], g),
        border: Border::Boxed(pane::border_look(attr_focused(a))),
        style: style::plain(),
        body: BodyView::Blank,
    };
    let notes = PaneView {
        area: parts[0],
        clear: false,
        title: ""@,
        border: Border::Bare,
        style: style::plain(),
        body: BodyView::Lines {
            lines: note_lines(text::strs(detail.lines@), a.effective_focus() is AttrRange),
            wrap: Wrap::Keep,
            offset: 0,
            centered: false,
        },
    };
    match detail.table {
        Some(table) => seq![
            outline,
            notes,
            PaneView {
                area: parts[1],
                clear: false,
                title: ""@,
                border: Border::Bare,
                style: style::plain(),
                body: BodyView::Items {
                    items: attr_lines(table),
                    selected: if a.effective_focus() is AttrTable { metrics::selection(a) } else { None },
                    first: geometry::min(a.at.scroll as int, end) as usize,
                },
            },
        ],
        None => seq![outline, notes],
    }
}

/// What drawing the attribute pane leaves for the keys and for the range form.
pub open spec fn attr_frame(frame: FrameState, detail: DetailPane, parts: Seq<Rect>) -> FrameState {
    FrameState {
        page_rows: geometry::max(parts[1].height as int, 1) as u16,
        max_scroll: attr_scroll_end(detail, parts[1]) as u16,
        attr_area: Rect { height: 1, ..parts[0] },
        ..frame
    }
}

/// The area inside the attribute pane's border.
pub open spec fn attr_body(area: Rect) -> Rect {
    Rect {
        x: geometry::min(area.x + 1, u16::MAX as int) as u16,
        y: geometry::min(area.y + 1, u16::MAX as int) as u16,
        width: geometry::monus(area.width as int, 2) as u16,
        height: geometry::monus(area.height as int, 2) as u16,
    }
}

/// How the notes and the table share the attribute pane.
pub open spec fn attr_extents(detail: DetailPane) -> Seq<Extent> {
    seq![Extent::Length(geometry::min(detail.lines@.len() as int, 6) as u16), Extent::Min(1)]
}

/// The notes and the table of the attribute pane, as they share the pane.
pub(crate) fn attr_split(detail: &DetailPane, area: Rect) -> (r: Split)
    ensures
        r.is(attr_body(area), attr_extents(*detail)),
{
    let n: usize = detail.lines.len();
    let notes: u16 = if n < 6 { n as u16 } else { 6 };
    let body = Rect {
        x: area.x.saturating_add(1),
        y: area.y.saturating_add(1),
        width: geometry::monus16(area.width, 2),
        height: geometry::monus16(area.height, 2),
    };
    pane::split_rows(body, pane::two(Extent::Length(notes), Extent::Min(1)))
}

fn notes_of(lines: &Vec<String>, marked: bool) -> (r: Vec<Vec<Span>>)
    ensures
        pane::lines_view(r@) == note_lines(text::strs(lines@), marked),
{
    let ghost all = note_lines(text::strs(lines@), marked);
    let n: usize = lines.len();
    let mut out: Vec<Vec<Span>> = Vec::new();
    let mut i: usize = 0;
    assert(pane::lines_view(out@) =~= all.take(0));
    while i < n
        invariant
            n == lines@.len(),
            i <= n,
            all == note_lines(text::strs(lines@), marked),
            pane::lines_view(out@) == all.take(i as int),
        decreases n - i,
    {
        let look = if marked && i == 0 {
            Style { fg: Some(Color::Black), bg: Some(Color::Cyan), bold: true, underlined: false, reversed: false }
        } else {
            Style::fg(Color::DarkGray)
        };
        pane::add_row(&mut out, pane::one_line(lines[i].clone(), look));
        i += 1;
        assert(all[i - 1] == pane::line(lines@[i - 1]@, look));
        assert(all.take(i as int) =~= all.take(i - 1).push(all[i - 1]));
    }
    assert(all.take(n as int) =~= all);
    out
}

/// The attribute pane: notes that do not scroll, since they qualify everything below them, and the
/// table, which does. Its title says what the stop that the ring is on offers.
pub fn draw_attr_pane(app: &mut App, detail: &DetailPane, area: Rect, parts: &Vec<Rect>, g: &Glyphs, out: &mut Vec<Pane>)
    requires
        parts@.len() == 2,
    ensures
        pane::panes(final(out)@) == pane::panes(old(out)@) + attr_panes(old(app)@, *detail, area, parts@, *g),
        final(app)@ == (AppView { frame: attr_frame(old(app)@.frame, *detail, parts@), ..old(app)@ }),
{
    proof {
        reveal(attr_panes);
    }
    let ghost before = pane::panes(out@);
    let ghost a = app@;
    let lines: Option<Vec<Vec<Span>>> = match &detail.table {
        Some(table) => Some(attr_pane_lines(table)),
        None => None,
    };
    let rows: u16 = match &lines {
        Some(lines) => {
            let n: usize = lines.len();
            (n as u64 % 65_536) as u16
        },
        None => 0,
    };
    assert(rows == table_rows(*detail)) by {
        if detail.table is Some {
            assert(pane::lines_view((lines->0)@).len() == (lines->0)@.len());
        }
    }
    let end: u16 = geometry::monus16(rows, parts[1].height);
    let at: u16 = geometry::min16(app.at.scroll, end);
    let focus = app.effective_focus();
    let mut title = title_at(&detail.title, at, end, g);
    let mut on_range = false;
    let mut on_table = false;
    match focus {
        Focus::AttrRange => {
            on_range = true;
            title.append("  ");
            title.append(g.sep);
            title.append(" enter: change the range");
        },
        Focus::AttrTable(section) => {
            on_table = true;
            if let Some(name) = app.attr_section_label(section) {
                title.append("  ");
                title.append(g.sep);
                title.append(" ");
                title.append(&name);
            }
        },
        _ => {},
    }
    if on_table && app.attrs.can_promote {
        title.append("  ");
        title.append(g.sep);
        title.append(" p: promote/demote");
    }
    assert(title@ == attr_title(a, *detail, parts@[1], *g));
    let selected = if on_table { metrics::selected_row(app) } else { None };
    pane::add_pane(
        out,
        Pane {
            area,
            clear: false,
            title,
            border: Border::Boxed(pane::focus_border(on_range || on_table)),
            style: Style::plain(),
            body: Body::Blank,
        },
    );
    pane::add_pane(
        out,
        Pane {
            area: parts[0],
            clear: false,
            title: text::owned(""),
            border: Border::Bare,
            style: Style::plain(),
            body: Body::Lines {
                lines: notes_of(&detail.lines, on_range),
                wrap: Wrap::Keep,
                offset: 0,
                centered: false,
            },
        },
    );
    if let Some(items) = lines {
        pane::add_pane(
            out,
            Pane {
                area: parts[1],
                clear: false,
                title: text::owned(""),
                border: Border::Bare,
                style: Style::plain(),
                body: Body::Items { items, selected, first: at as usize },
            },
        );
    }
    assert(pane::panes(out@) =~= before + attr_panes(a, *detail, area, parts@, *g));
    app.frame.page_rows = geometry::max16(parts[1].height, 1);
    app.frame.max_scroll = end;
    app.frame.attr_area = Rect { x: parts[0].x, y: parts[0].y, width: parts[0].width, height: 1 };
}

/// The preview below a list: the first rows of a waterfall, or text.
#[verifier::opaque]
pub open spec fn preview(detail: DetailPane, area: Rect, dash: Seq<char>) -> PaneView {
    let visible = geometry::monus(area.height as int, 1);
    PaneView {
        area,
        clear: false,
        title: match detail.waterfall {
            Some(trace) => if trace.spans@.len() > visible {
                "Waterfall: "@ + text::dec(visible as nat) + " of "@ + text::dec(trace.spans@.len()) + " spans "@ + dash
                    + " enter: all"@
            } else {
                detail.title@
            },
            None => detail.title@,
        },
        border: Border::Bare,
        style: style::plain(),
        body: match detail.waterfall {
            Some(trace) => BodyView::Waterfall {
                trace,
                shown: geometry::min(visible, trace.spans@.len() as int) as usize,
                selected: None,
                looks: Seq::empty(),
                first: 0,
                pinned: Seq::empty(),
            },
            None => BodyView::Prose {
                text: joined_or_none(text::strs(detail.lines@)),
                wrap: Wrap::Keep,
                scroll: 0,
            },
        },
    }
}

/// The preview below a list. It does not scroll, so only the rows that it has room for are shown,
/// and the title says so where there are more.
pub fn draw_preview(detail: &DetailPane, area: Rect, g: &Glyphs) -> (r: Pane)
    ensures
        r@ == preview(*detail, area, g.dash@),
{
    proof {
        reveal(preview);
    }
    let visible: usize = geometry::monus16(area.height, 1) as usize;
    match &detail.waterfall {
        Some(trace) => {
            let total: usize = trace.spans.len();
            let title = if total > visible {
                let mut out = text::cat3("Waterfall: ", &text::dec_string(visible as u64), " of ");
                text::push_dec(&mut out, total as u64);
                out.append(" spans ");
                out.append(g.dash);
                out.append(" enter: all");
                out
            } else {
                detail.title.clone()
            };
            let r = Pane {
                area,
                clear: false,
                title,
                border: Border::Bare,
                style: Style::plain(),
                body: Body::Waterfall {
                    trace: model::share(trace),
                    shown: if visible < total { visible } else { total },
                    selected: None,
                    looks: Vec::new(),
                    first: 0,
                    pinned: Vec::new(),
                },
            };
            assert(r@ =~= preview(*detail, area, g.dash@));
            r
        },
        None => Pane {
            area,
            clear: false,
            title: detail.title.clone(),
            border: Border::Bare,
            style: Style::plain(),
            body: Body::Prose { text: text_or_none(&detail.lines), wrap: Wrap::Keep, scroll: 0 },
        },
    }
}

} // verus!
