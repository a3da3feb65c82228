//! Shapes: how texts are fitted into their places, where overlays stand, and in what order names come.

use vstd::prelude::*;

use crate::app::AppView;
use crate::app::nav::HISTORY_CAP;
use crate::chart;
use crate::completion;
use crate::fetch;
use crate::fetch::LogEntry;
use crate::geometry::Rect;
use crate::model::{LogRecord, Options};
use crate::style;
use crate::style::Style;
use crate::syntax;
use crate::syntax::Token;
use crate::text;
use crate::ui::metrics;
use crate::ui::overlays;
use crate::ui::pane::Extent;
use crate::width;

verus! {

/// As many spaces.
pub open spec fn spaces(n: int) -> Seq<char> {
    Seq::new(if n < 0 { 0 } else { n as nat }, |i: int| ' ')
}

proof fn lemma_one_cell(c: char)
    requires
        ' ' <= c <= '~',
    ensures
        width::own_cells(c) == 1,
        width::cells(seq![c]) == 1,
{
    let s = seq![c];
    width::law_printable_ascii_takes_one_cell_each(s);
    assert(s.drop_last() =~= Seq::<char>::empty());
    reveal_with_fuel(width::sum_cells, 2);
    assert(width::sum_cells(s) == width::own_cells(c));
}

proof fn lemma_fits(s: Seq<char>, room: int)
    requires
        width::printable(s),
        0 <= room,
    ensures
        crate::format::fitting(s, room) == if s.len() <= room { s.len() as int } else { room },
    decreases s.len(),
{
    if s.len() > 0 {
        lemma_one_cell(s[0]);
        let t = s.drop_first();
        assert forall|i: int| 0 <= i < t.len() implies ' ' <= #[trigger] t[i] <= '~' by {
            assert(t[i] == s[i + 1]);
        }
        if room >= 1 {
            lemma_fits(t, room - 1);
        }
    }
}

/// A plain text in a field stands at its left, with spaces behind it; one that is too long is cut behind its
/// first characters, with the marker at the cut.
pub proof fn law_a_field_keeps_the_start_of_its_text(s: Seq<char>, w: nat, ellipsis: Seq<char>)
    requires
        width::printable(s),
        width::printable(ellipsis),
        0 < ellipsis.len() < w,
    ensures
        s.len() <= w ==> crate::format::field_text(s, w as int, ellipsis) == s + spaces(w - s.len()),
        s.len() > w ==> crate::format::field_text(s, w as int, ellipsis) == s.take(w - ellipsis.len()) + ellipsis,
{
    width::law_printable_ascii_takes_one_cell_each(s);
    width::law_printable_ascii_takes_one_cell_each(ellipsis);
    assert(text::rep(' ', w - s.len()) =~= spaces(w - s.len()));
    if s.len() > w {
        let keep = w - ellipsis.len();
        lemma_fits(s, keep);
        let head = s.take(keep);
        assert forall|i: int| 0 <= i < head.len() implies ' ' <= #[trigger] head[i] <= '~' by {
            assert(head[i] == s[i]);
        }
        width::law_printable_ascii_takes_one_cell_each(head);
        assert(crate::format::field_text(s, w as int, ellipsis) =~= head + ellipsis);
    }
}

proof fn lemma_singles(s: Seq<char>, n: int)
    requires
        width::printable(s),
        0 <= n <= s.len(),
    ensures
        metrics::single_cells(s, n) == n,
    decreases n,
{
    if n > 0 {
        lemma_singles(s, n - 1);
        lemma_one_cell(s[n - 1]);
    }
}

proof fn lemma_cell_fits(s: Seq<char>, room: int, i: int)
    requires
        width::printable(s),
        0 <= i <= room < s.len(),
    ensures
        metrics::fitting(s, room, i) == room,
    decreases room - i,
{
    lemma_singles(s, i + 1);
    if i < room {
        lemma_cell_fits(s, room, i + 1);
    }
}

/// A plain cell stands at the left of its column, with spaces behind it; one that is too long is cut, with a
/// mark in the last place.
pub proof fn law_a_cell_keeps_the_start_of_its_text(s: Seq<char>, w: nat)
    requires
        width::printable(s),
        w > 0,
    ensures
        s.len() <= w ==> metrics::cell_text(s, w as int) == s + spaces(w - s.len()),
        s.len() > w ==> metrics::cell_text(s, w as int) == s.take(w - 1).push('>'),
{
    width::law_printable_ascii_takes_one_cell_each(s);
    if s.len() <= w {
        assert(metrics::cell_text(s, w as int) =~= s + spaces(w - s.len()));
    } else {
        lemma_cell_fits(s, w - 1, 0);
        lemma_singles(s, w - 1);
        assert(metrics::cell_text(s, w as int) =~= s.take(w - 1).push('>'));
    }
}

/// Each column of a table takes its width: no less than four cells and no more than forty-eight, and the last
/// one what is left, six to sixty at least.
pub proof fn law_columns_take_their_width(widths: Seq<usize>, i: int)
    requires
        0 <= i < widths.len(),
    ensures
        metrics::column_extents(widths).len() == widths.len(),
        i + 1 < widths.len() && 4 <= widths[i] <= 48 ==> metrics::column_extents(widths)[i] == Extent::Length(widths[i] as u16),
        i + 1 < widths.len() && widths[i] < 4 ==> metrics::column_extents(widths)[i] == Extent::Length(4),
        i + 1 < widths.len() && widths[i] > 48 ==> metrics::column_extents(widths)[i] == Extent::Length(48),
        i + 1 == widths.len() && 6 <= widths[i] <= 60 ==> metrics::column_extents(widths)[i] == Extent::Min(widths[i] as u16),
        i + 1 == widths.len() && widths[i] < 6 ==> metrics::column_extents(widths)[i] == Extent::Min(6),
        i + 1 == widths.len() && widths[i] > 60 ==> metrics::column_extents(widths)[i] == Extent::Min(60),
{
}

/// A line of `n` characters takes as many rows of `w` columns as hold it: no row less, and an empty one takes
/// one.
pub proof fn law_a_line_takes_the_rows_that_hold_it(n: nat, w: nat)
    requires
        0 < w,
        n + w <= u32::MAX,
    ensures
        n == 0 ==> crate::format::rows_of(n, w) == 1,
        n > 0 ==> (crate::format::rows_of(n, w) - 1) * w < n <= crate::format::rows_of(n, w) * w,
{
    let m = if n == 0 { 1 } else { n as int };
    let q = (m + w - 1) / (w as int);
    vstd::arithmetic::div_mod::lemma_fundamental_div_mod(m + w - 1, w as int);
    let r = (m + w - 1) % (w as int);
    assert(crate::format::rows_of(n, w) == q);
    assert(m + w - 1 == w * q + r && 0 <= r < w);
    assert((q - 1) * w < m <= q * w) by (nonlinear_arith)
        requires
            m + w - 1 == w * q + r,
            0 <= r < w,
    ;
    if n == 0 {
        assert(q == 1) by (nonlinear_arith)
            requires
                m == 1,
                (q - 1) * w < m <= q * w,
                w > 0,
        ;
    }
}

/// Names come in the order of a dictionary, by the numbers of their characters: the first difference decides,
/// and a name comes before any that goes on from it.
pub proof fn law_names_come_in_dictionary_order(start: Seq<char>, a: Seq<char>, b: Seq<char>)
    ensures
        completion::before(start + a, start + b) == completion::before(a, b),
        a.len() > 0 && b.len() > 0 && a[0] != b[0] ==> (completion::before(a, b) <==> a[0] < b[0]),
        b.len() > 0 ==> completion::before(start, start + b),
        !completion::before(start + b, start),
    decreases start.len(),
{
    if start.len() == 0 {
        assert(start + a =~= a);
        assert(start + b =~= b);
    } else {
        let rest = start.drop_first();
        law_names_come_in_dictionary_order(rest, a, b);
        assert((start + a).drop_first() =~= rest + a);
        assert((start + b).drop_first() =~= rest + b);
        assert((start + a)[0] == start[0] && (start + b)[0] == start[0]);
    }
}

/// The history keeps the last sixty-four views: one more takes the place of the oldest.
pub proof fn law_the_history_forgets_the_oldest_view(a: AppView)
    requires
        a.back.len() <= 64,
    ensures
        a.back.len() < 64 ==> a.push_history().back == a.back.push(a.at),
        a.back.len() == 64 ==> a.push_history().back == a.back.drop_first().push(a.at),
{
    assert(HISTORY_CAP == 64);
    if a.back.len() == 64 {
        assert(a.back.push(a.at).remove(0) =~= a.back.drop_first().push(a.at));
    }
}

/// The record behind a row of the logs is that of the row's entry, field by field; where the entry has no text
/// for its severity, its number tells it.
pub proof fn law_a_record_is_its_entry(r: LogRecord, e: LogEntry)
    requires
        fetch::is_record(r, e),
    ensures
        r.time_ns == e.time_ns,
        r.service == e.service,
        r.body == e.body,
        r.trace_id == e.trace_id,
        r.span_id == e.span_id,
        e.severity_text matches Some(t) ==> r.severity@ == t@,
        e.severity_text is None ==> r.severity@ == crate::format::band_name(e.severity_number as int) + " ("@ + text::dec(
            e.severity_number as nat,
        ) + ")"@,
        r.attributes@.len() == e.attributes@.len() && forall|i: int|
            0 <= i < e.attributes@.len() ==> (#[trigger] r.attributes@[i]).0@ == e.attributes@[i].0@ && r.attributes@[i].1@
                == crate::format::value_text(e.attributes@[i].1),
        r.resource@.len() == e.resource@.len() && forall|i: int|
            0 <= i < e.resource@.len() ==> (#[trigger] r.resource@[i]).0@ == e.resource@[i].0@ && r.resource@[i].1@
                == crate::format::value_text(e.resource@[i].1),
        r.scope@.len() == e.scope@.len() && forall|i: int|
            0 <= i < e.scope@.len() ==> (#[trigger] r.scope@[i]).0@ == e.scope@[i].0@ && r.scope@[i].1@
                == crate::format::value_text(e.scope@[i].1),
{
}

/// A discovered dimension starts closed, with nothing checked, and with its label and its values.
pub proof fn law_a_discovered_dimension_is_unchecked(label: Seq<char>, values: Seq<Seq<char>>)
    ensures
        fetch::fresh_dim(label, values).label == label,
        fetch::fresh_dim(label, values).values == values,
        fetch::fresh_dim(label, values).selected is None,
        !fetch::fresh_dim(label, values).expanded,
{
}

/// A query may return a sample for each step of its window, and two more, for each series that it may return.
pub proof fn law_the_sample_limit_covers_the_window(options: Options, now: i64, start: i64, end: i64, steps: nat)
    requires
        options.window == Some((start, end)),
        start <= end,
        end - start == steps * 1_000_000_000,
        steps < 120,
        0 < options.max_series <= 1_000_000,
    ensures
        fetch::sample_limit(options, now) == options.max_series * (steps + 2),
{
    assert(fetch::window_of(options, now) == (start, end));
    assert(fetch::span_secs((start, end)) == steps);
    assert(fetch::step_of(options, now) == 1_000_000_000);
    assert(steps as int / 1 == steps);
    let each = steps as int + 2;
    assert(options.max_series * each == options.max_series * (steps + 2));
    assert(0 < options.max_series * (steps + 2) <= 122_000_000) by (nonlinear_arith)
        requires
            0 < options.max_series <= 1_000_000,
            steps < 120,
    ;
}

/// The caret of an edited query is the one reversed character: what stands in front of it and behind it in its
/// part is not reversed, and all of it together is the part.
pub proof fn law_the_caret_reverses_its_character(s: Seq<char>, t: Token, vline: Seq<char>, k: int)
    requires
        t.start <= k < t.end <= s.len(),
        s[t.start as int] != '\n',
        !t.style.reversed,
    ensures
        ({
            let v = syntax::token_with_caret(s, t, vline, k);
            let i: int = if k > t.start { 1 } else { 0 };
            &&& v.len() == 1 + i + (if k + 1 < t.end { 1int } else { 0 })
            &&& v[i].text == seq![s[k]] && v[i].style == (Style { reversed: true, ..t.style })
            &&& forall|j: int| 0 <= j < v.len() && j != i ==> (#[trigger] v[j]).style == t.style
            &&& k > t.start ==> v[0].text == s.subrange(t.start as int, k)
            &&& k + 1 < t.end ==> v[i + 1].text == s.subrange(k + 1, t.end as int)
        }),
{
    assert(s.subrange(k, k + 1) =~= seq![s[k]]);
}

/// At the end of a query the caret is a reversed space behind it.
pub proof fn law_the_caret_at_the_end_is_a_block(s: Seq<char>, k: int)
    ensures
        k == s.len() ==> syntax::end_caret(s, k) == seq![
            style::SpanView {
                text: seq![' '],
                style: Style { fg: None, bg: None, bold: false, underlined: false, reversed: true },
            },
        ],
        0 <= k < s.len() ==> syntax::end_caret(s, k).len() == 0,
{
}

/// The range picker hangs below the selector, its right edge at that of the selector, where there is room for it
/// there; the form hangs the same way.
pub proof fn law_the_picker_hangs_below_its_selector(anchor: Rect, area: Rect)
    requires
        area.fits(),
        anchor.within(area),
        anchor.width <= 36,
        anchor.height == 1,
        anchor.x + anchor.width >= area.x + 48,
        anchor.y + 12 <= area.y + area.height,
        area.width >= 48,
    ensures
        ({
            let p = overlays::picker_area(anchor, area);
            let f = overlays::form_area(anchor, area);
            &&& p.x + p.width == anchor.x + anchor.width
            &&& p.y == anchor.y + 1
            &&& p.width == 36 && p.height == 11
            &&& f.x + f.width == anchor.x + anchor.width
            &&& f.y == anchor.y + 1
            &&& f.width == 48 && f.height == 5
        }),
{
}

/// The loading banner stands in the middle: as far from the left edge as from the right one, and from the top as
/// from the bottom, but for a cell.
pub proof fn law_the_banner_stands_in_the_middle(s: Seq<char>, area: Rect)
    requires
        area.fits(),
    ensures
        ({
            let b = overlays::banner_area(s, area);
            let left = b.x - area.x;
            let right = area.x + area.width - b.x - b.width;
            let above = b.y - area.y;
            let below = area.y + area.height - b.y - b.height;
            0 <= right - left <= 1 && 0 <= below - above <= 1 && left >= 0 && above >= 0
        }),
{
}

/// The plot lies in its pane: its right edge is the pane's, it starts at the pane's top, and two rows below it are
/// left for the axis where there are three.
pub proof fn law_the_plot_lies_in_its_pane(inner: Rect, y_labels: Seq<Seq<char>>, x_first: Seq<char>)
    requires
        inner.fits(),
        inner.width > 0,
        inner.height > 0,
    ensures
        chart::graph_area(inner, y_labels, x_first) matches Some(g) && g.x >= inner.x && g.x + g.width == inner.x + inner.width
            && g.y == inner.y && g.height == (if inner.height >= 3 { inner.height - 2 } else { 1 }) && 3 * (g.x - inner.x)
            <= inner.width + 3,
{
    lemma_widest(y_labels);
}

proof fn lemma_widest(labels: Seq<Seq<char>>)
    ensures
        chart::widest(labels) >= 0,
    decreases labels.len(),
{
    if labels.len() > 0 {
        lemma_widest(labels.drop_last());
    }
}

} // verus!
