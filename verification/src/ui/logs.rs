//! The Logs panes: the detail of a log entry.

use vstd::prelude::*;

use crate::app::{App, AppView};
use crate::detail_text;
use crate::geometry::Rect;
use crate::model::LogRecord;
use crate::style;
use crate::style::{Color, Span, Style};
use crate::text;
use crate::ui::glyphs::Glyphs;
use crate::ui::pane;
use crate::ui::pane::{Pane, PaneView};
use crate::ui::results;

verus! {

/// A boxed line that names the view.
pub open spec fn banner(area: Rect, title: Seq<char>, text: Seq<char>) -> PaneView {
    pane::boxed_lines(area, title, seq![pane::line(text, style::cursor_look())])
}

/// A boxed line that names the view.
pub(crate) fn banner_pane(area: Rect, title: &str, text: String) -> (r: Pane)
    ensures
        r@ == banner(area, title@, text@),
{
    let look = Style { fg: Some(Color::Black), bg: Some(Color::Cyan), bold: true, underlined: false, reversed: false };
    let mut lines: Vec<Vec<Span>> = Vec::new();
    let ghost shown = text@;
    lines.push(pane::one_line(text, look));
    assert(pane::lines_view(lines@) =~= seq![pane::line(shown, style::cursor_look())]);
    pane::boxed_lines_pane(area, text::owned(title), lines)
}

/// The keys of the log detail.
pub open spec fn log_hint(traced: bool, g: Glyphs) -> Seq<char> {
    if traced {
        "esc/"@ + g.left@ + " back "@ + g.sep@ + " bksp logs list "@ + g.sep@ + " enter open trace "@ + g.sep@ + " "@
            + g.right@ + " fwd "@ + g.sep@ + " "@ + (g.up@ + g.down@) + " scroll"@
    } else {
        "esc/"@ + g.left@ + " back "@ + g.sep@ + " bksp logs list "@ + g.sep@ + " (no trace id) "@ + g.sep@ + " "@ + (
        g.up@ + g.down@) + " scroll"@
    }
}

/// The panes of the log detail, in three rows.
#[verifier::opaque]
pub open spec fn log_panes(a: AppView, record: LogRecord, rows: Seq<Rect>, focused: bool, g: Glyphs) -> Seq<PaneView> {
    seq![
        banner(rows[0], "Logs"@, " Log entry detail "@),
        results::scrolled_pane("Detail"@, detail_text::log_lines(record), rows[1], a.at.scroll as int, focused, g),
        pane::hint(rows[2], log_hint(record.trace_id is Some, g)),
    ]
}

/// The detail of a log entry: every field, scrollable.
pub fn draw_log_detail(app: &mut App, record: &LogRecord, rows: &Vec<Rect>, focused: bool, g: &Glyphs, out: &mut Vec<Pane>)
    requires
        rows@.len() == 3,
    ensures
        pane::panes(final(out)@) == pane::panes(old(out)@) + log_panes(old(app)@, *record, rows@, focused, *g),
        final(app)@ == (AppView {
            frame: results::scrolled_frame(old(app)@.frame, detail_text::log_lines(*record), rows@[1]),
            ..old(app)@
        }),
{
    proof {
        reveal(log_panes);
    }
    let ghost before = pane::panes(out@);
    let ghost a = app@;
    pane::add_pane(out, banner_pane(rows[0], "Logs", text::owned(" Log entry detail ")));
    let lines = detail_text::log_detail_lines(record);
    pane::add_pane(out, results::draw_scrolled(app, "Detail", &lines, rows[1], focused, g));
    let mut keys = text::cat3("esc/", g.left, " back ");
    keys.append(g.sep);
    keys.append(" bksp logs list ");
    keys.append(g.sep);
    if record.trace_id.is_some() {
        keys.append(" enter open trace ");
        keys.append(g.sep);
        keys.append(" ");
        keys.append(g.right);
        keys.append(" fwd ");
    } else {
        keys.append(" (no trace id) ");
    }
    keys.append(g.sep);
    keys.append(" ");
    keys.append(&g.scroll());
    keys.append(" scroll");
    pane::add_pane(out, pane::hint_pane(rows[2], keys));
    assert(pane::panes(out@) =~= before + log_panes(a, *record, rows@, focused, *g));
}

} // verus!
