//! The decoration shared by every view: the header bar, the query pane, the key legend, and the
//! mascot's place.

use vstd::prelude::*;

use crate::app::{App, AppView};
use crate::geometry;
use crate::geometry::Rect;
use crate::mascot;
use crate::model::{AbsTarget, Focus, Mode, Screen, MENU_LEN, TIME_RANGES_LEN};
use crate::style;
use crate::style::{Color, Span, SpanView, Style};
use crate::syntax;
use crate::text;
use crate::textfield;
use crate::time;
use crate::ui::glyphs::Glyphs;
use crate::ui::pane;
use crate::ui::pane::{Body, BodyView, Border, Pane, PaneView, Wrap};
use crate::width;

verus! {

/// The fewest columns that the views are laid out in.
pub const MIN_COLS: u16 = 40;

/// The fewest rows that the views are laid out in.
pub const MIN_ROWS: u16 = 10;

/// The first entry of the key legend, and the only one that works while a query holds the keyboard.
pub const QUIT_HINT: &'static str = "q quit";

/// Whether the open range form edits the query's window, the one that the header shows.
pub open spec fn edits_query_window(a: AppView) -> bool {
    a.mode == Mode::AbsoluteRange && a.range.abs_target == AbsTarget::Query
}

/// Whether the open range form edits the query's window, the one that the header shows. The same form
/// edits the attribute pane's window, which the header does not show.
pub fn editing_query_window(app: &App) -> (r: bool)
    ensures
        r == edits_query_window(app@),
{
    app.mode == Mode::AbsoluteRange && app.range.abs_target == AbsTarget::Query
}

/// Whether the focus is on the header.
pub open spec fn bar_focused(a: AppView) -> bool {
    a.mode == Mode::Menu || a.mode == Mode::TimeRange || edits_query_window(a) || a.effective_focus() is Menu
        || a.effective_focus() is TimeRange
}

/// The look of the header: cyan while the focus is on it, else grey while a query is in flight, else
/// blue.
pub open spec fn bar_look(a: AppView) -> Style {
    Style {
        fg: Some(Color::Black),
        bg: Some(
            if bar_focused(a) {
                Color::Cyan
            } else if a.load.loading {
                Color::DarkGray
            } else {
                Color::Blue
            },
        ),
        ..style::plain()
    }
}

/// The look of the chip that the focus is on.
pub open spec fn chip_cursor() -> Style {
    Style { fg: Some(Color::Cyan), bg: Some(Color::Black), bold: true, underlined: false, reversed: false }
}

/// The look of the chip of the current screen.
pub open spec fn chip_active() -> Style {
    Style { fg: Some(Color::Black), bg: Some(Color::Gray), ..style::plain() }
}

/// The screen of an item of the header, and how the item is labelled.
pub open spec fn menu_item(i: int) -> (Screen, Seq<char>) {
    if i == 0 {
        (Screen::Overview, "1 Overview"@)
    } else if i == 1 {
        (Screen::Metrics, "2 Metrics"@)
    } else if i == 2 {
        (Screen::Traces, "3 Traces"@)
    } else {
        (Screen::Logs, "4 Logs"@)
    }
}

/// The look of an item of the header: that of the cursor where the cursor is on it, even where it is
/// the current screen too.
pub open spec fn item_look(a: AppView, i: int) -> Style {
    let on = if a.mode == Mode::Menu {
        a.menu_cursor == i
    } else {
        a.effective_focus() matches Focus::Menu(k) && k == i
    };
    if on {
        chip_cursor()
    } else if menu_item(i).0 == a.screen() {
        chip_active()
    } else {
        bar_look(a)
    }
}

/// The header's spans up to item `n`.
pub open spec fn left_spans(a: AppView, logo: Seq<char>, n: nat) -> Seq<SpanView>
    decreases n,
{
    if n == 0 {
        seq![pane::one(" IMBH "@, bar_look(a)), pane::one(logo + " "@, bar_look(a))]
    } else {
        left_spans(a, logo, (n - 1) as nat).push(
            pane::one(" "@ + menu_item(n - 1).1 + " "@, item_look(a, n - 1)),
        ).push(pane::one(" "@, bar_look(a)))
    }
}

/// The time-range selector: the window, whether it refreshes by itself, and the clock. A window that
/// does not move does not refresh.
pub open spec fn range_text(a: AppView, g: Glyphs, now: i64) -> Seq<char> {
    " "@ + a.range.summary(g.right@) + (if a.load.auto_refresh && a.range.abs_window is None { "!"@ } else { ""@ })
        + "  "@ + (if g.clock@.len() == 0 { Seq::empty() } else { g.clock@ + " "@ }) + time::datetime_text(now as int)
        + " "@
}

/// The look of the time-range selector.
pub open spec fn range_look(a: AppView) -> Style {
    let on = if a.mode == Mode::Menu {
        a.menu_cursor == MENU_LEN - 1
    } else {
        a.mode == Mode::TimeRange || edits_query_window(a) || a.effective_focus() is TimeRange
    };
    if on { chip_cursor() } else { bar_look(a) }
}

/// The cells of the first `n` spans.
pub open spec fn spans_cells(v: Seq<SpanView>, n: nat) -> int
    decreases n,
{
    if n == 0 { 0 } else { spans_cells(v, (n - 1) as nat) + width::cells(v[n - 1].text) }
}

/// The cells between the items and the time-range selector.
pub open spec fn bar_gap(a: AppView, g: Glyphs, area: Rect, now: i64) -> int {
    let left = left_spans(a, g.logo@, 4);
    geometry::monus(area.width as int, spans_cells(left, left.len()) + width::cells(range_text(a, g, now)))
}

/// The header: the name, the screens, and at the right edge the time-range selector.
#[verifier::opaque]
pub open spec fn header(a: AppView, g: Glyphs, area: Rect, now: i64) -> PaneView {
    PaneView {
        area,
        clear: false,
        title: ""@,
        border: Border::Bare,
        style: bar_look(a),
        body: BodyView::Lines {
            lines: seq![
                left_spans(a, g.logo@, 4).push(
                    pane::one(text::rep(' ', bar_gap(a, g, area, now)), bar_look(a)),
                ).push(pane::one(range_text(a, g, now), range_look(a))),
            ],
            wrap: Wrap::Cut,
            offset: 0,
            centered: false,
        },
    }
}

/// Where the time-range selector stands: the anchor of the time-range picker.
pub open spec fn indicator(a: AppView, g: Glyphs, area: Rect, now: i64) -> Rect {
    let left = left_spans(a, g.logo@, 4);
    let x = geometry::min(spans_cells(left, left.len()) + bar_gap(a, g, area, now), area.width as int);
    Rect {
        x: (area.x + x) as u16,
        y: area.y,
        width: geometry::min(width::cells(range_text(a, g, now)) as int % 65_536, area.width - x) as u16,
        height: 1,
    }
}

fn bar_style(app: &App) -> (r: Style)
    ensures
        r == bar_look(app@),
{
    let on = match app.effective_focus() {
        Focus::Menu(_) => true,
        Focus::TimeRange => true,
        _ => app.mode == Mode::Menu || app.mode == Mode::TimeRange || editing_query_window(app),
    };
    let bg = if on {
        Color::Cyan
    } else if app.load.loading {
        Color::DarkGray
    } else {
        Color::Blue
    };
    Style { fg: Some(Color::Black), bg: Some(bg), bold: false, underlined: false, reversed: false }
}

fn cursor_chip() -> (r: Style)
    ensures
        r == chip_cursor(),
{
    Style { fg: Some(Color::Cyan), bg: Some(Color::Black), bold: true, underlined: false, reversed: false }
}

fn item_style(app: &App, i: usize) -> (r: Style)
    requires
        i < 4,
    ensures
        r == item_look(app@, i as int),
{
    let on = if app.mode == Mode::Menu {
        app.menu_cursor == i
    } else {
        match app.effective_focus() {
            Focus::Menu(k) => k == i,
            _ => false,
        }
    };
    let screen = if i == 0 {
        Screen::Overview
    } else if i == 1 {
        Screen::Metrics
    } else if i == 2 {
        Screen::Traces
    } else {
        Screen::Logs
    };
    if on {
        cursor_chip()
    } else if screen == app.screen() {
        Style { fg: Some(Color::Black), bg: Some(Color::Gray), bold: false, underlined: false, reversed: false }
    } else {
        bar_style(app)
    }
}

fn left_of(app: &App, g: &Glyphs) -> (r: Vec<Span>)
    ensures
        style::spans(r@) == left_spans(app@, g.logo@, 4),
        r@.len() == 10,
{
    let bar = bar_style(app);
    let mut v = pane::one_line(text::owned(" IMBH "), bar);
    pane::add_span(&mut v, text::cat(g.logo, " "), bar);
    assert(style::spans(v@) =~= left_spans(app@, g.logo@, 0));
    let mut i: usize = 0;
    while i < 4
        invariant
            i <= 4,
            bar == bar_look(app@),
            style::spans(v@) == left_spans(app@, g.logo@, i as nat),
            v@.len() == 2 + 2 * i,
        decreases 4 - i,
    {
        let label = if i == 0 {
            "1 Overview"
        } else if i == 1 {
            "2 Metrics"
        } else if i == 2 {
            "3 Traces"
        } else {
            "4 Logs"
        };
        let ghost n = v@.len();
        pane::add_span(&mut v, text::cat3(" ", label, " "), item_style(app, i));
        assert(style::spans(v@).len() == n + 1);
        pane::add_span(&mut v, text::owned(" "), bar);
        assert(style::spans(v@).len() == n + 2);
        i += 1;
    }
    v
}

fn cells_of(v: &Vec<Span>) -> (r: u128)
    requires
        v@.len() <= 1_000,
    ensures
        r == spans_cells(style::spans(v@), v@.len()),
        r <= 1_000 * usize::MAX,
{
    let n: usize = v.len();
    let ghost all = style::spans(v@);
    let mut sum: u128 = 0;
    let mut i: usize = 0;
    while i < n
        invariant
            n == v@.len(),
            n <= 1_000,
            i <= n,
            all == style::spans(v@),
            sum == spans_cells(all, i as nat),
            sum <= i * usize::MAX,
        decreases n - i,
    {
        assert(all[i as int].text == v@[i as int].text@);
        assert((i + 1) * usize::MAX == i * usize::MAX + usize::MAX) by (nonlinear_arith);
        assert(i * usize::MAX <= 1_000 * usize::MAX) by (nonlinear_arith)
            requires
                i <= 1_000,
        ;
        sum = sum + width::str_width(&v[i].text) as u128;
        i += 1;
    }
    assert(i * usize::MAX <= 1_000 * usize::MAX) by (nonlinear_arith)
        requires
            i <= 1_000,
    ;
    sum
}

/// The header and where its time-range selector stands. `now` is the wall clock.
pub fn draw_header(app: &App, g: &Glyphs, area: Rect, now: i64) -> (r: (Pane, Rect))
    requires
        app@.range.range_index < TIME_RANGES_LEN,
        area.x + area.width <= u16::MAX,
    ensures
        r.0@ == header(app@, *g, area, now),
        r.1 == indicator(app@, *g, area, now),
{
    proof {
        reveal(header);
    }
    let bar = bar_style(app);
    let mut spans = left_of(app, g);
    let ghost first = style::spans(spans@);
    let left: u128 = cells_of(&spans);
    let mut range = text::cat(" ", &app.range_summary(g));
    range.append(if app.load.auto_refresh && app.range.abs_window.is_none() { "!" } else { "" });
    range.append("  ");
    let ghost so_far = range@;
    if text::chars_of(g.clock).len() > 0 {
        range.append(g.clock);
        range.append(" ");
        assert(range@ =~= so_far + (g.clock@ + " "@));
    } else {
        assert(range@ =~= so_far + Seq::empty());
    }
    range.append(&time::format_datetime_ns(now));
    range.append(" ");
    assert(range@ == range_text(app@, *g, now));
    let right: usize = width::str_width(&range);
    let taken: u128 = left + right as u128;
    let gap: u16 = if taken < area.width as u128 { (area.width as u128 - taken) as u16 } else { 0 };
    assert(gap == bar_gap(app@, *g, area, now));
    let mut blank = String::new();
    text::push_rep(&mut blank, ' ', gap as usize);
    assert(blank@ =~= text::rep(' ', gap as int));
    let on = if app.mode == Mode::Menu {
        app.menu_cursor == MENU_LEN - 1
    } else {
        app.mode == Mode::TimeRange || editing_query_window(app) || app.effective_focus() == Focus::TimeRange
    };
    pane::add_span(&mut spans, blank, bar);
    pane::add_span(&mut spans, range, if on { cursor_chip() } else { bar });
    let reach: u128 = left + gap as u128;
    let x: u16 = if reach < area.width as u128 { reach as u16 } else { area.width };
    let wide: u16 = (right as u64 % 65_536) as u16;
    let place = Rect {
        x: area.x + x,
        y: area.y,
        width: geometry::min16(wide, area.width - x),
        height: 1,
    };
    let mut lines: Vec<Vec<Span>> = Vec::new();
    let ghost shown = style::spans(spans@);
    lines.push(spans);
    assert(pane::lines_view(lines@) =~= seq![shown]);
    let r = Pane {
        area,
        clear: false,
        title: text::owned(""),
        border: Border::Bare,
        style: bar,
        body: Body::Lines { lines, wrap: Wrap::Cut, offset: 0, centered: false },
    };
    (r, place)
}

/// The header's selector lies in the header.
pub proof fn law_the_selector_is_in_the_header(a: AppView, g: Glyphs, area: Rect, now: i64)
    requires
        area.x + area.width <= u16::MAX,
    ensures
        area.x <= indicator(a, g, area, now).x,
        indicator(a, g, area, now).x + indicator(a, g, area, now).width <= area.x + area.width,
        indicator(a, g, area, now).y == area.y,
{
    let left = left_spans(a, g.logo@, 4);
    lemma_cells_nonneg(left, left.len());
}

proof fn lemma_cells_nonneg(v: Seq<SpanView>, n: nat)
    ensures
        spans_cells(v, n) >= 0,
    decreases n,
{
    if n > 0 {
        lemma_cells_nonneg(v, (n - 1) as nat);
    }
}

/// The header highlights a range form only where it edits the window that the header shows.
pub proof fn law_the_header_highlights_only_its_own_window(a: AppView)
    requires
        a.mode == Mode::AbsoluteRange,
        a.range.abs_target == AbsTarget::Attributes,
        !(a.effective_focus() is Menu),
        !(a.effective_focus() is TimeRange),
    ensures
        range_look(a) == bar_look(a),
        bar_look(a).bg != Some(Color::Cyan),
{
}

/// The column of the query's caret in the query pane, a line end taking as many cells as the mark
/// that it is shown as.
pub open spec fn query_column(a: AppView, g: Glyphs) -> int {
    geometry::min(
        width::cells(text::expanded(a.before_caret(), '\n', " "@ + g.vline@ + " "@)) as int,
        u16::MAX as int,
    )
}

/// The column of the query's caret in the query pane.
pub fn caret_column(app: &App, g: &Glyphs) -> (r: u16)
    ensures
        r == query_column(app@, *g),
{
    let before = text::expand(app.query_before_caret(), '\n', &text::cat3(" ", g.vline, " "));
    let w: usize = width::str_width(&before);
    if w < 65_535 { w as u16 } else { 65_535 }
}

/// The title of the query pane.
pub open spec fn query_title(editing: bool, sep: Seq<char>) -> Seq<char> {
    if editing {
        "Query (Enter: run "@ + sep + " Tab: complete "@ + sep + " Esc: cancel)"@
    } else {
        "Query (e: edit)"@
    }
}

/// The first column of the query that is shown: the least that keeps the caret in the pane.
pub open spec fn query_offset(a: AppView, g: Glyphs, area: Rect) -> int {
    if a.mode == Mode::Editing {
        geometry::monus(query_column(a, g), geometry::monus(geometry::monus(area.width as int, 2), 1))
    } else {
        0
    }
}

/// Whether the spans show the query of the current screen: highlighted, with the caret while it is
/// edited.
pub open spec fn shows_query(a: AppView, g: Glyphs, spans: Seq<SpanView>) -> bool {
    if a.mode == Mode::Editing {
        syntax::is_caret_highlight(a.screen(), a.active_query(), g.vline@, a.caret(), spans)
    } else {
        syntax::is_highlight(a.screen(), a.active_query(), g.vline@, spans)
    }
}

/// The query pane with these spans.
#[verifier::opaque]
pub open spec fn query_pane(a: AppView, g: Glyphs, area: Rect, spans: Seq<SpanView>) -> PaneView {
    PaneView {
        area,
        clear: false,
        title: query_title(a.mode == Mode::Editing, g.sep@),
        border: Border::Boxed(pane::border_look(a.effective_focus() == Focus::Query)),
        style: style::plain(),
        body: BodyView::Lines {
            lines: seq![spans],
            wrap: Wrap::Cut,
            offset: query_offset(a, g, area) as u16,
            centered: false,
        },
    }
}

/// The caret of the query stays in the query pane, however long the query is.
pub proof fn law_the_caret_of_the_query_is_visible(a: AppView, g: Glyphs, area: Rect)
    requires
        a.mode == Mode::Editing,
        area.width > 2,
    ensures
        query_offset(a, g, area) <= query_column(a, g) < query_offset(a, g, area) + area.width - 2,
{
}

/// The query pane: the query of the current screen, highlighted, and while it is edited scrolled so
/// that its caret can be seen.
pub fn draw_query(app: &App, g: &Glyphs, area: Rect) -> (r: Pane)
    ensures
        exists|spans: Seq<SpanView>|
            #[trigger] shows_query(app@, *g, spans) && r@ == query_pane(app@, *g, area, spans),
{
    proof {
        reveal(query_pane);
    }
    let editing = app.mode == Mode::Editing;
    proof {
        textfield::lemma_before(app@.active_query(), app@.query_cursor as int);
        textfield::lemma_before_offset(app@.active_query(), app@.caret());
    }
    let spans = if editing {
        syntax::highlight_caret(app.screen(), app.active_query(), app.query_caret(), g)
    } else {
        syntax::highlight_query(app.screen(), app.active_query(), g)
    };
    let ghost shown = style::spans(spans@);
    assert(shows_query(app@, *g, shown));
    let title = if editing {
        let mut out = text::cat3("Query (Enter: run ", g.sep, " Tab: complete ");
        out.append(g.sep);
        out.append(" Esc: cancel)");
        out
    } else {
        text::owned("Query (e: edit)")
    };
    let offset: u16 = if editing {
        geometry::monus16(caret_column(app, g), geometry::monus16(geometry::monus16(area.width, 2), 1))
    } else {
        0
    };
    let mut lines: Vec<Vec<Span>> = Vec::new();
    lines.push(spans);
    assert(pane::lines_view(lines@) =~= seq![shown]);
    let r = Pane {
        area,
        clear: false,
        title,
        border: Border::Boxed(pane::focus_border(app.effective_focus() == Focus::Query)),
        style: Style::plain(),
        body: Body::Lines { lines, wrap: Wrap::Cut, offset, centered: false },
    };
    assert(r@ == query_pane(app@, *g, area, shown));
    r
}

/// What the key legend says of the current screen.
pub open spec fn screen_hint(a: AppView, g: Glyphs) -> Seq<char> {
    let sep = g.sep@;
    match a.screen() {
        Screen::Overview => " "@ + sep + " tab attributes pane"@,
        Screen::Logs => " "@ + sep + " enter detail"@,
        Screen::Traces => " "@ + sep + " enter trace detail "@ + sep + " L logs"@,
        Screen::Metrics => if a.on_catalog() {
            " "@ + sep + " space expand/select series "@ + sep + " enter visualize"@
        } else {
            " "@ + sep + " enter series detail "@ + sep + " bksp catalog "@ + sep + " "@ + g.left@ + "/esc back"@
        },
    }
}

/// The key legend behind its first entry.
pub open spec fn legend_rest(a: AppView, g: Glyphs) -> Seq<char> {
    let sep = g.sep@;
    " "@ + sep + " F9 menu "@ + sep + " 1-4 screen "@ + sep + " tab focus "@ + sep + " "@ + g.left@ + g.right@
        + " back/fwd "@ + sep + " "@ + (g.up@ + g.down@) + " move"@ + screen_hint(a, g) + " "@ + sep + " r refresh "@
        + sep + " R auto-refresh "@ + sep + " t range "@ + sep + " e edit"@ + (if g.ascii {
        " "@ + sep + " ASCII"@
    } else {
        " "@ + sep + " m mascot"@
    })
}

/// The keys of the menu.
pub open spec fn menu_hint(g: Glyphs) -> Seq<char> {
    "menu | "@ + g.left@ + g.right@ + "/tab move "@ + g.sep@ + " enter select "@ + g.sep@ + " esc close"@
}

/// The line below the panes: the last error, the keys of the menu, or the key legend. While a query
/// holds the keyboard, every entry of the legend but the first is greyed.
pub open spec fn status_spans(a: AppView, g: Glyphs) -> Seq<SpanView> {
    match a.load.last_error {
        Some(error) => pane::line("error: "@ + error, style::plain()),
        None => if a.mode == Mode::Menu {
            pane::line(menu_hint(g), style::plain())
        } else if a.load.input_locked {
            seq![
                pane::one(QUIT_HINT@, style::plain()),
                pane::one(legend_rest(a, g), style::colored(Color::DarkGray)),
            ]
        } else {
            pane::line(QUIT_HINT@ + legend_rest(a, g), style::plain())
        },
    }
}

/// The line below the panes.
#[verifier::opaque]
pub open spec fn status_pane(a: AppView, g: Glyphs, area: Rect) -> PaneView {
    PaneView {
        area,
        clear: false,
        title: ""@,
        border: Border::Bare,
        style: style::plain(),
        body: BodyView::Lines { lines: seq![status_spans(a, g)], wrap: Wrap::Trim, offset: 0, centered: false },
    }
}

fn screen_keys(app: &App, g: &Glyphs) -> (r: String)
    ensures
        r@ == screen_hint(app@, *g),
{
    let mut out = text::cat(" ", g.sep);
    match app.screen() {
        Screen::Overview => {
            out.append(" tab attributes pane");
        },
        Screen::Logs => {
            out.append(" enter detail");
        },
        Screen::Traces => {
            out.append(" enter trace detail ");
            out.append(g.sep);
            out.append(" L logs");
        },
        Screen::Metrics => if app.on_catalog() {
            out.append(" space expand/select series ");
            out.append(g.sep);
            out.append(" enter visualize");
        } else {
            out.append(" enter series detail ");
            out.append(g.sep);
            out.append(" bksp catalog ");
            out.append(g.sep);
            out.append(" ");
            out.append(g.left);
            out.append("/esc back");
        },
    }
    out
}

fn legend(app: &App, g: &Glyphs) -> (r: String)
    ensures
        r@ == legend_rest(app@, *g),
{
    let mut out = text::cat3(" ", g.sep, " F9 menu ");
    out.append(g.sep);
    out.append(" 1-4 screen ");
    out.append(g.sep);
    out.append(" tab focus ");
    out.append(g.sep);
    out.append(" ");
    out.append(g.left);
    out.append(g.right);
    out.append(" back/fwd ");
    out.append(g.sep);
    out.append(" ");
    out.append(&g.scroll());
    out.append(" move");
    out.append(&screen_keys(app, g));
    out.append(" ");
    out.append(g.sep);
    out.append(" r refresh ");
    out.append(g.sep);
    out.append(" R auto-refresh ");
    out.append(g.sep);
    out.append(" t range ");
    out.append(g.sep);
    out.append(" e edit");
    out.append(&text::cat3(" ", g.sep, if g.ascii { " ASCII" } else { " m mascot" }));
    out
}

/// The line below the panes. The greying is the whole signal that the keyboard is held.
pub fn draw_status(app: &App, g: &Glyphs, area: Rect) -> (r: Pane)
    ensures
        r@ == status_pane(app@, *g, area),
{
    proof {
        reveal(status_pane);
    }
    let spans = match &app.load.last_error {
        Some(error) => pane::one_line(text::cat("error: ", error), Style::plain()),
        None => if app.mode == Mode::Menu {
            let mut out = text::cat3("menu | ", g.left, g.right);
            out.append("/tab move ");
            out.append(g.sep);
            out.append(" enter select ");
            out.append(g.sep);
            out.append(" esc close");
            pane::one_line(out, Style::plain())
        } else if app.load.input_locked {
            let mut v = pane::one_line(text::owned(QUIT_HINT), Style::plain());
            pane::add_span(&mut v, legend(app, g), Style::fg(Color::DarkGray));
            assert(style::spans(v@) =~= status_spans(app@, *g));
            v
        } else {
            pane::one_line(text::cat(QUIT_HINT, &legend(app, g)), Style::plain())
        },
    };
    let mut lines: Vec<Vec<Span>> = Vec::new();
    lines.push(spans);
    assert(pane::lines_view(lines@) =~= seq![status_spans(app@, *g)]);
    Pane {
        area,
        clear: false,
        title: text::owned(""),
        border: Border::Bare,
        style: Style::plain(),
        body: Body::Lines { lines, wrap: Wrap::Trim, offset: 0, centered: false },
    }
}

/// While a query holds the keyboard the legend still reads the same; its look alone says which key
/// works.
pub proof fn law_a_held_keyboard_greys_all_but_quit(a: AppView, g: Glyphs)
    requires
        a.load.last_error is None,
        a.mode != Mode::Menu,
        a.load.input_locked,
    ensures
        style::spans_text(status_spans(a, g)) == QUIT_HINT@ + legend_rest(a, g),
        status_spans(a, g)[0].style == style::plain(),
        status_spans(a, g)[1].style == style::colored(Color::DarkGray),
{
    let v = status_spans(a, g);
    reveal_with_fuel(style::spans_text, 3);
    assert(v.drop_last() =~= seq![v[0]]);
    assert(v.drop_last().drop_last() =~= Seq::empty());
    assert(style::spans_text(v.drop_last()) =~= v[0].text);
}

/// The prompt for a terminal that is too small.
#[verifier::opaque]
pub open spec fn too_small(area: Rect) -> PaneView {
    let top = geometry::monus(area.height as int, 3) / 2;
    PaneView {
        area: Rect {
            x: area.x,
            y: (area.y + top) as u16,
            width: area.width,
            height: geometry::monus(area.height as int, top) as u16,
        },
        clear: true,
        title: ""@,
        border: Border::Bare,
        style: style::plain(),
        body: BodyView::Lines {
            lines: pane::looks(
                seq![
                    "Terminal too small"@,
                    "Resize to at least "@ + text::dec(MIN_COLS as nat) + "x"@ + text::dec(MIN_ROWS as nat),
                    "(now "@ + text::dec(area.width as nat) + "x"@ + text::dec(area.height as nat) + ")"@,
                ],
                style::plain(),
            ),
            wrap: Wrap::Trim,
            offset: 0,
            centered: true,
        },
    }
}

/// The prompt for a terminal that is too small: the size that is needed and the size that it has.
pub fn draw_too_small(area: Rect) -> (r: Pane)
    requires
        area.fits(),
    ensures
        r@ == too_small(area),
{
    proof {
        reveal(too_small);
    }
    let top: u16 = geometry::monus16(area.height, 3) / 2;
    let mut need = text::cat3("Resize to at least ", &text::dec_string(MIN_COLS as u64), "x");
    text::push_dec(&mut need, MIN_ROWS as u64);
    let mut has = text::cat3("(now ", &text::dec_string(area.width as u64), "x");
    text::push_dec(&mut has, area.height as u64);
    has.append(")");
    let ghost n = need@;
    let ghost h = has@;
    let mut words: Vec<String> = Vec::new();
    words.push(text::owned("Terminal too small"));
    words.push(need);
    words.push(has);
    assert(text::strs(words@) =~= seq!["Terminal too small"@, n, h]);
    Pane {
        area: Rect { x: area.x, y: area.y + top, width: area.width, height: area.height - top },
        clear: true,
        title: text::owned(""),
        border: Border::Bare,
        style: Style::plain(),
        body: Body::Lines {
            lines: pane::styled_lines(&words, Style::plain()),
            wrap: Wrap::Trim,
            offset: 0,
            centered: true,
        },
    }
}

/// The cells of the widest of the first `n` rows of the art.
pub open spec fn art_cells(rows: Seq<Seq<char>>, n: nat) -> int
    decreases n,
{
    if n == 0 {
        0
    } else {
        geometry::max(art_cells(rows, (n - 1) as nat), width::cells(rows[n - 1]) as int % 65_536)
    }
}

/// Where the mascot stands: at the cell nearest to its place that keeps all of it on screen, or
/// nowhere where it has no room.
pub open spec fn mascot_place(rows: Seq<Seq<char>>, area: Rect, x: int, y: int) -> Option<Rect> {
    let w = art_cells(rows, rows.len());
    let h = mascot::MASCOT_ART_HEIGHT as int;
    if w == 0 || area.width < w + 1 || area.height < h + mascot::MASCOT_BOTTOM_MARGIN + 1 {
        None
    } else {
        Some(
            Rect {
                x: geometry::clamp(x, area.x as int, area.right_end() - w) as u16,
                y: geometry::clamp(y, area.y as int, area.bottom_end() - h) as u16,
                width: w as u16,
                height: h as u16,
            },
        )
    }
}

/// The mascot.
#[verifier::opaque]
pub open spec fn mascot_pane(rows: Seq<Seq<char>>, place: Rect) -> PaneView {
    PaneView {
        area: place,
        clear: true,
        title: ""@,
        border: Border::Bare,
        style: style::plain(),
        body: BodyView::Lines {
            lines: pane::looks(rows, style::colored(Color::Magenta)),
            wrap: Wrap::Cut,
            offset: 0,
            centered: false,
        },
    }
}

/// The mascot, facing `facing` with its step at `phase_ns`, at the cell nearest to its place; nothing
/// where it has no room.
pub fn draw_mascot(facing: i8, phase_ns: i64, area: Rect, x: i64, y: i64) -> (r: Option<Pane>)
    requires
        area.fits(),
    ensures
        ({
            let rows = mascot::frame_rows(mascot::art_frame(facing as int, mascot::phase_of(phase_ns as int)));
            match mascot_place(rows, area, x as int, y as int) {
                Some(place) => r is Some && r->0@ == mascot_pane(rows, place),
                None => r is None,
            }
        }),
{
    proof {
        reveal(mascot_pane);
    }
    let art = mascot::mascot_art(facing, mascot::mascot_phase(phase_ns));
    let ghost rows = mascot::frame_rows(mascot::art_frame(facing as int, mascot::phase_of(phase_ns as int)));
    let n: usize = art.len();
    let mut wide: u16 = 0;
    let mut words: Vec<String> = Vec::new();
    let mut i: usize = 0;
    assert(text::strs(words@) =~= rows.take(0));
    while i < n
        invariant
            n == art@.len(),
            i <= n,
            syntax::words(art@) == rows,
            wide == art_cells(rows, i as nat),
            text::strs(words@) == rows.take(i as int),
        decreases n - i,
    {
        assert(rows[i as int] == art@[i as int]@);
        let w: u16 = (width::str_width(art[i]) as u64 % 65_536) as u16;
        wide = geometry::max16(wide, w);
        text::add_line(&mut words, text::owned(art[i]));
        i += 1;
        assert(rows.take(i as int) =~= rows.take(i - 1).push(rows[i - 1]));
    }
    assert(rows.take(n as int) =~= rows);
    let h: u16 = mascot::MASCOT_ART_HEIGHT;
    if wide == 0 || area.width <= wide || area.height < h + mascot::MASCOT_BOTTOM_MARGIN + 1 {
        return None;
    }
    let last_x: i64 = (area.right() - wide) as i64;
    let last_y: i64 = (area.bottom() - h) as i64;
    let left: i64 = area.x as i64;
    let top: i64 = area.y as i64;
    let at_x: i64 = if x < left { left } else if x > last_x { last_x } else { x };
    let at_y: i64 = if y < top { top } else if y > last_y { last_y } else { y };
    Some(
        Pane {
            area: Rect { x: at_x as u16, y: at_y as u16, width: wide, height: h },
            clear: true,
            title: text::owned(""),
            border: Border::Bare,
            style: Style::plain(),
            body: Body::Lines {
                lines: pane::styled_lines(&words, Style::fg(Color::Magenta)),
                wrap: Wrap::Cut,
                offset: 0,
                centered: false,
            },
        },
    )
}

/// The mascot is shown whole: wherever its motion takes it, its place lies in the terminal.
pub proof fn law_the_mascot_stays_on_screen(rows: Seq<Seq<char>>, area: Rect, x: int, y: int)
    requires
        area.fits(),
    ensures
        mascot_place(rows, area, x, y) matches Some(place) ==> place.within(area),
{
}

} // verus!
