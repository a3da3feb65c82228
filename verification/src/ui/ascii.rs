//! In ASCII mode the decoration is ASCII throughout.

use vstd::prelude::*;

use crate::app::{AppView, TimeView};
use crate::model;
use crate::model::AbsTarget;
use crate::text;
use crate::time;
use crate::ui::chrome;
use crate::ui::glyphs;
use crate::ui::glyphs::{all_ascii, Glyphs};
use crate::ui::logs;
use crate::ui::metrics;
use crate::ui::overlays;
use crate::ui::traces;

verus! {

pub broadcast proof fn lemma_joined(a: Seq<char>, b: Seq<char>)
    requires
        all_ascii(a),
        all_ascii(b),
    ensures
        #[trigger] all_ascii(a + b),
{
    assert forall|i: int| 0 <= i < (a + b).len() implies #[trigger] (a + b)[i] <= '\u{7f}' by {
        if i < a.len() {
            assert((a + b)[i] == a[i]);
        } else {
            assert((a + b)[i] == b[i - a.len()]);
        }
    }
}

pub broadcast proof fn lemma_decimal(n: nat)
    ensures
        #[trigger] all_ascii(text::dec(n)),
    decreases n,
{
    if n >= 10 {
        lemma_decimal(n / 10);
    }
}

pub broadcast proof fn lemma_padded(n: nat, w: int)
    ensures
        #[trigger] all_ascii(text::pad0(n, w)),
{
    broadcast use lemma_joined, lemma_decimal;

}

pub proof fn lemma_datetime(ns: int)
    ensures
        all_ascii(time::datetime_text(ns)),
{
    broadcast use lemma_joined, lemma_decimal, lemma_padded;

}

/// In ASCII mode the loading banner is ASCII.
pub proof fn law_the_ascii_banner_is_ascii(elapsed: int, g: Glyphs)
    requires
        g.is_for(true),
    ensures
        all_ascii(overlays::banner_text(elapsed, g)),
{
    broadcast use lemma_joined, lemma_decimal;

    glyphs::law_ascii_glyphs_are_ascii(g, 0);
    glyphs::law_ascii_glyphs_are_ascii(g, (elapsed / model::SPINNER_FRAME as int) % glyphs::spinner_len(g.ascii) as int);
    reveal_strlit(" Loading");
    assert(all_ascii(" Loading"@));
    reveal_strlit(" ");
    assert(all_ascii(" "@));
    reveal_strlit("s");
    assert(all_ascii("s"@));
}

/// In ASCII mode the key legend and the keys of the menu are ASCII.
pub proof fn law_the_ascii_legend_is_ascii(a: AppView, g: Glyphs)
    requires
        g.is_for(true),
    ensures
        all_ascii(chrome::QUIT_HINT@ + chrome::legend_rest(a, g)),
        all_ascii(chrome::menu_hint(g)),
{
    broadcast use lemma_joined, lemma_decimal;

    glyphs::law_ascii_glyphs_are_ascii(g, 0);
    reveal_strlit("q quit");
    assert(all_ascii("q quit"@));
    reveal_strlit(" ");
    assert(all_ascii(" "@));
    reveal_strlit(" tab attributes pane");
    assert(all_ascii(" tab attributes pane"@));
    reveal_strlit(" enter detail");
    assert(all_ascii(" enter detail"@));
    reveal_strlit(" enter trace detail ");
    assert(all_ascii(" enter trace detail "@));
    reveal_strlit(" L logs");
    assert(all_ascii(" L logs"@));
    reveal_strlit(" space expand/select series ");
    assert(all_ascii(" space expand/select series "@));
    reveal_strlit(" enter visualize");
    assert(all_ascii(" enter visualize"@));
    reveal_strlit(" enter series detail ");
    assert(all_ascii(" enter series detail "@));
    reveal_strlit(" bksp catalog ");
    assert(all_ascii(" bksp catalog "@));
    reveal_strlit("/esc back");
    assert(all_ascii("/esc back"@));
    reveal_strlit(" F9 menu ");
    assert(all_ascii(" F9 menu "@));
    reveal_strlit(" 1-4 screen ");
    assert(all_ascii(" 1-4 screen "@));
    reveal_strlit(" tab focus ");
    assert(all_ascii(" tab focus "@));
    reveal_strlit(" back/fwd ");
    assert(all_ascii(" back/fwd "@));
    reveal_strlit(" move");
    assert(all_ascii(" move"@));
    reveal_strlit(" r refresh ");
    assert(all_ascii(" r refresh "@));
    reveal_strlit(" R auto-refresh ");
    assert(all_ascii(" R auto-refresh "@));
    reveal_strlit(" t range ");
    assert(all_ascii(" t range "@));
    reveal_strlit(" e edit");
    assert(all_ascii(" e edit"@));
    reveal_strlit(" ASCII");
    assert(all_ascii(" ASCII"@));
    reveal_strlit(" m mascot");
    assert(all_ascii(" m mascot"@));
    reveal_strlit("menu | ");
    assert(all_ascii("menu | "@));
    reveal_strlit("/tab move ");
    assert(all_ascii("/tab move "@));
    reveal_strlit(" enter select ");
    assert(all_ascii(" enter select "@));
    reveal_strlit(" esc close");
    assert(all_ascii(" esc close"@));
}

/// In ASCII mode the keys of the detail views are ASCII.
pub proof fn law_the_ascii_hints_are_ascii(traced: bool, g: Glyphs)
    requires
        g.is_for(true),
    ensures
        all_ascii(metrics::series_hint(g.left@, g.right@, g.sep@)),
        all_ascii(traces::trace_hint(g)),
        all_ascii(traces::span_hint(g)),
        all_ascii(logs::log_hint(traced, g)),
{
    broadcast use lemma_joined, lemma_decimal;

    glyphs::law_ascii_glyphs_are_ascii(g, 0);
    reveal_strlit("esc/");
    assert(all_ascii("esc/"@));
    reveal_strlit(" back ");
    assert(all_ascii(" back "@));
    reveal_strlit(" bksp series list ");
    assert(all_ascii(" bksp series list "@));
    reveal_strlit(" ");
    assert(all_ascii(" "@));
    reveal_strlit(" fwd ");
    assert(all_ascii(" fwd "@));
    reveal_strlit(" h/l or shift+");
    assert(all_ascii(" h/l or shift+"@));
    reveal_strlit(" move cursor ");
    assert(all_ascii(" move cursor "@));
    reveal_strlit(" home/end ends ");
    assert(all_ascii(" home/end ends "@));
    reveal_strlit(" pgup/pgdn page");
    assert(all_ascii(" pgup/pgdn page"@));
    reveal_strlit(" span ");
    assert(all_ascii(" span "@));
    reveal_strlit(" enter span fields ");
    assert(all_ascii(" enter span fields "@));
    reveal_strlit(" L logs for span ");
    assert(all_ascii(" L logs for span "@));
    reveal_strlit(" fwd");
    assert(all_ascii(" fwd"@));
    reveal_strlit(" L logs for this span ");
    assert(all_ascii(" L logs for this span "@));
    reveal_strlit(" scroll ");
    assert(all_ascii(" scroll "@));
    reveal_strlit(" bksp logs list ");
    assert(all_ascii(" bksp logs list "@));
    reveal_strlit(" enter open trace ");
    assert(all_ascii(" enter open trace "@));
    reveal_strlit(" scroll");
    assert(all_ascii(" scroll"@));
    reveal_strlit(" (no trace id) ");
    assert(all_ascii(" (no trace id) "@));
}

/// In ASCII mode the query pane, the picker and the range form label themselves in ASCII.
pub proof fn law_the_ascii_forms_are_ascii(editing: bool, target: AbsTarget, g: Glyphs)
    requires
        g.is_for(true),
    ensures
        all_ascii(chrome::query_title(editing, g.sep@)),
        all_ascii(overlays::absolute_text(g.ellipsis@)),
        all_ascii(overlays::form_hint(None, target, g.sep@).text),
{
    broadcast use lemma_joined, lemma_decimal;

    glyphs::law_ascii_glyphs_are_ascii(g, 0);
    reveal_strlit("Query (Enter: run ");
    assert(all_ascii("Query (Enter: run "@));
    reveal_strlit(" Tab: complete ");
    assert(all_ascii(" Tab: complete "@));
    reveal_strlit(" Esc: cancel)");
    assert(all_ascii(" Esc: cancel)"@));
    reveal_strlit("Query (e: edit)");
    assert(all_ascii("Query (e: edit)"@));
    reveal_strlit("Absolute");
    assert(all_ascii("Absolute"@));
    reveal_strlit("  set explicit start / end");
    assert(all_ascii("  set explicit start / end"@));
    reveal_strlit(" ");
    assert(all_ascii(" "@));
    reveal_strlit(" UTC ");
    assert(all_ascii(" UTC "@));
    reveal_strlit(" Tab: field ");
    assert(all_ascii(" Tab: field "@));
    reveal_strlit(" Enter: apply ");
    assert(all_ascii(" Enter: apply "@));
    reveal_strlit(" empty: all");
    assert(all_ascii(" empty: all"@));
    reveal_strlit(" YYYY-MM-DD HH:MM:SS ");
    assert(all_ascii(" YYYY-MM-DD HH:MM:SS "@));
    reveal_strlit(" Enter: apply");
    assert(all_ascii(" Enter: apply"@));
}

proof fn lemma_label(index: int)
    ensures
        all_ascii(model::range_label(index)),
{
    reveal_strlit("5m");
    assert(all_ascii("5m"@));
    reveal_strlit("15m");
    assert(all_ascii("15m"@));
    reveal_strlit("1h");
    assert(all_ascii("1h"@));
    reveal_strlit("3h");
    assert(all_ascii("3h"@));
    reveal_strlit("6h");
    assert(all_ascii("6h"@));
    reveal_strlit("12h");
    assert(all_ascii("12h"@));
    reveal_strlit("24h");
    assert(all_ascii("24h"@));
    reveal_strlit("7d");
    assert(all_ascii("7d"@));
}

proof fn lemma_window(from: Seq<char>, to: Seq<char>, arrow: Seq<char>)
    requires
        all_ascii(from),
        all_ascii(to),
        all_ascii(arrow),
        to.len() >= 11,
    ensures
        all_ascii(from + " "@ + arrow + " "@ + to),
        all_ascii(from + " "@ + arrow + " "@ + to.skip(11)),
{
    broadcast use lemma_joined;

    reveal_strlit(" ");
    assert(all_ascii(" "@));
    assert forall|i: int| 0 <= i < to.skip(11).len() implies #[trigger] to.skip(11)[i] <= '\u{7f}' by {
        assert(to.skip(11)[i] == to[i + 11]);
    }
}

proof fn lemma_summary(range: TimeView, arrow: Seq<char>)
    requires
        all_ascii(arrow),
    ensures
        all_ascii(range.summary(arrow)),
{
    if let Some((start, end)) = range.abs_window {
        lemma_datetime(start as int);
        lemma_datetime(end as int);
        time::law_datetime_text_has_fixed_width(end);
        lemma_window(time::datetime_text(start as int), time::datetime_text(end as int), arrow);
    } else {
        reveal_strlit("last ");
        assert(all_ascii("last "@));
        lemma_label(range.range_index as int);
        lemma_joined("last "@, model::range_label(range.range_index as int));
    }
}

proof fn lemma_selector(summary: Seq<char>, mark: bool, clock: Seq<char>, now: Seq<char>)
    requires
        all_ascii(summary),
        all_ascii(clock),
        all_ascii(now),
    ensures
        all_ascii(
            " "@ + summary + (if mark { "!"@ } else { ""@ }) + "  "@ + (if clock.len() == 0 {
                Seq::empty()
            } else {
                clock + " "@
            }) + now + " "@,
        ),
{
    broadcast use lemma_joined;

    reveal_strlit(" ");
    assert(all_ascii(" "@));
    reveal_strlit("!");
    assert(all_ascii("!"@));
    reveal_strlit("");
    assert(all_ascii(""@));
    reveal_strlit("  ");
    assert(all_ascii("  "@));
}

/// In ASCII mode the time-range selector of the header is ASCII.
pub proof fn law_the_ascii_selector_is_ascii(a: AppView, g: Glyphs, now: i64)
    requires
        g.is_for(true),
    ensures
        all_ascii(chrome::range_text(a, g, now)),
{
    glyphs::law_ascii_glyphs_are_ascii(g, 0);
    lemma_datetime(now as int);
    lemma_summary(a.range, g.right@);
    lemma_selector(
        a.range.summary(g.right@),
        a.load.auto_refresh && a.range.abs_window is None,
        g.clock@,
        time::datetime_text(now as int),
    );
}

} // verus!
