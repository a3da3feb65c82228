//! Waterfalls and charts: where a span's bar stands, which spans are marked and pinned, and what a column
//! of a chart is filled to.

use vstd::prelude::*;

use crate::chart;
use crate::model::{SpanRecord, TraceDetail};
use crate::text;
use crate::time;
use crate::waterfall;

verus! {

/// Whether every span has an id of its own.
pub open spec fn ids_differ(spans: Seq<SpanRecord>) -> bool {
    forall|i: int, j: int| 0 <= i < j < spans.len() ==> (#[trigger] spans[i]).span_id@ != (#[trigger] spans[j]).span_id@
}

proof fn lemma_span_with(spans: Seq<SpanRecord>, id: Seq<char>, i: int)
    requires
        0 <= i,
    ensures
        match waterfall::span_with(spans, id, i) {
            Some(k) => i <= k < spans.len() && spans[k].span_id@ == id && forall|j: int|
                i <= j < k ==> (#[trigger] spans[j]).span_id@ != id,
            None => forall|j: int| i <= j < spans.len() ==> (#[trigger] spans[j]).span_id@ != id,
        },
    decreases spans.len() - i,
{
    if i < spans.len() && spans[i].span_id@ != id {
        lemma_span_with(spans, id, i + 1);
    }
}

/// The parent of a span is the span of the trace that bears the id it names; a span that names none has
/// none, and one that names an id the trace lacks is an orphan.
pub proof fn law_a_parent_is_found_by_its_id(spans: Seq<SpanRecord>, i: int, p: int)
    requires
        0 <= i < spans.len(),
        0 <= p < spans.len(),
        ids_differ(spans),
    ensures
        waterfall::parent_of(spans, i) == Some(p) <==> spans[i].parent_span_id is Some && (spans[i].parent_span_id->0)@
            == spans[p].span_id@,
        waterfall::orphaned(spans, i) <==> spans[i].parent_span_id is Some && forall|k: int|
            0 <= k < spans.len() ==> (#[trigger] spans[k]).span_id@ != (spans[i].parent_span_id->0)@,
{
    if let Some(id) = spans[i].parent_span_id {
        lemma_span_with(spans, id@, 0);
    }
}

/// A span is marked where its parent is not in the trace and where its parents lead back to it; a root, and a
/// child of a root, are not. Nothing else of a span changes.
pub proof fn law_broken_parent_chains_are_marked(spans: Seq<SpanRecord>, i: int)
    requires
        0 <= i < spans.len(),
        ids_differ(spans),
    ensures
        ({
            let m = waterfall::marked(spans);
            let names = |x: int, y: int|
                spans[x].parent_span_id is Some && (spans[x].parent_span_id->0)@ == spans[y].span_id@;
            &&& m.len() == spans.len()
            &&& m[i] == (SpanRecord { malformed: m[i].malformed, ..spans[i] })
            &&& spans[i].parent_span_id is None ==> !m[i].malformed
            &&& (spans[i].parent_span_id is Some && forall|k: int|
                0 <= k < spans.len() ==> (#[trigger] spans[k]).span_id@ != (spans[i].parent_span_id->0)@) ==> m[i].malformed
            &&& names(i, i) ==> m[i].malformed
            &&& forall|j: int| 0 <= j < spans.len() && j != i && names(i, j) && #[trigger] names(j, i) ==> m[i].malformed
            &&& forall|j: int|
                0 <= j < spans.len() && j != i && names(i, j) && (#[trigger] spans[j]).parent_span_id is None ==> !m[i].malformed
        }),
{
    let m = waterfall::marked(spans);
    let names = |x: int, y: int| spans[x].parent_span_id is Some && (spans[x].parent_span_id->0)@ == spans[y].span_id@;
    reveal_with_fuel(waterfall::ancestor, 3);
    law_a_parent_is_found_by_its_id(spans, i, i);
    if spans[i].parent_span_id is None {
        assert forall|k: nat| 0 < k <= spans.len() implies #[trigger] waterfall::ancestor(spans, i, k) != Some(i) by {
            lemma_no_chain(spans, i, k, 1);
        }
    }
    if names(i, i) {
        assert(waterfall::ancestor(spans, i, 1) == Some(i));
    }
    assert forall|j: int| 0 <= j < spans.len() && j != i && names(i, j) && #[trigger] names(j, i) implies m[i].malformed by {
        law_a_parent_is_found_by_its_id(spans, i, j);
        law_a_parent_is_found_by_its_id(spans, j, i);
        assert(waterfall::ancestor(spans, i, 1) == Some(j));
        assert(waterfall::ancestor(spans, i, 2) == Some(i));
        assert(spans.len() >= 2);
    }
    assert forall|j: int|
        0 <= j < spans.len() && j != i && names(i, j) && (#[trigger] spans[j]).parent_span_id is None implies !m[i].malformed by {
        law_a_parent_is_found_by_its_id(spans, i, j);
        assert(waterfall::ancestor(spans, i, 1) == Some(j));
        assert forall|k: nat| 0 < k <= spans.len() implies #[trigger] waterfall::ancestor(spans, i, k) != Some(i) by {
            if k >= 2 {
                lemma_no_chain(spans, i, k, 2);
            }
        }
    }
}

proof fn lemma_no_chain(spans: Seq<SpanRecord>, i: int, k: nat, n: nat)
    requires
        n <= k,
        waterfall::ancestor(spans, i, n) is None,
    ensures
        waterfall::ancestor(spans, i, k) is None,
    decreases k,
{
    if n < k {
        lemma_no_chain(spans, i, (k - 1) as nat, n);
    }
}

/// The bar of a span starts where the span starts and ends where it ends, in proportion to the trace: one that
/// starts later starts no earlier in its row, one that ends later ends no earlier, a span of the whole trace
/// fills the row, and every bar has a cell at least.
pub proof fn law_bars_keep_the_order_of_the_spans(trace: TraceDetail, a: SpanRecord, b: SpanRecord, width: int)
    requires
        0 <= a.offset_ns <= b.offset_ns,
    ensures
        ({
            let bar = waterfall::bar_cells(width);
            &&& waterfall::bar_from(trace, a, bar) <= waterfall::bar_from(trace, b, bar)
            &&& a.offset_ns + a.duration_ns <= b.offset_ns + b.duration_ns ==> waterfall::bar_to(trace, a, bar)
                <= waterfall::bar_to(trace, b, bar)
            &&& a.offset_ns == 0 ==> waterfall::bar_from(trace, a, bar) == 0
            &&& a.offset_ns == 0 && a.duration_ns >= trace.duration_ns > 0 ==> waterfall::bar_to(trace, a, bar) == bar
            &&& waterfall::bar_from(trace, a, bar) < waterfall::bar_to(trace, a, bar) <= bar
        }),
{
    let bar = waterfall::bar_cells(width);
    let whole = if trace.duration_ns >= 1 { trace.duration_ns as int } else { 1 };
    waterfall::law_a_bar_lies_in_its_column(trace, a, width);
    lemma_scaled(a.offset_ns as int, b.offset_ns as int, whole, bar);
    if a.offset_ns + a.duration_ns <= b.offset_ns + b.duration_ns {
        lemma_scaled(a.offset_ns + a.duration_ns, b.offset_ns + b.duration_ns, whole, bar);
    }
    if a.offset_ns == 0 {
        assert(0int * bar / whole == 0) by (nonlinear_arith)
            requires
                whole > 0,
        ;
        if a.duration_ns >= trace.duration_ns > 0 {
            lemma_scaled(whole, a.duration_ns as int, whole, bar);
            assert(whole * bar / whole == bar) by (nonlinear_arith)
                requires
                    whole > 0,
            ;
        }
    }
}

proof fn lemma_scaled(x: int, y: int, whole: int, bar: int)
    requires
        0 <= x <= y,
        whole > 0,
        bar > 0,
    ensures
        x * bar / whole <= y * bar / whole,
{
    assert(x * bar <= y * bar) by (nonlinear_arith)
        requires
            x <= y,
            bar > 0,
    ;
    vstd::arithmetic::div_mod::lemma_div_is_ordered(x * bar, y * bar, whole);
}

/// The row of a span is its mark, its name in its field, its bar between two bars, and its duration: as wide
/// as the field, the bars and the duration together.
pub proof fn law_a_span_row_shows_name_bar_and_duration(trace: TraceDetail, span: SpanRecord, width: int, ascii: bool)
    ensures
        ({
            let bar = waterfall::bar_cells(width);
            let from = waterfall::bar_from(trace, span, bar);
            let to = waterfall::bar_to(trace, span, bar);
            let name = crate::format::field_text(
                span.name@,
                waterfall::WATERFALL_NAME_W as int,
                if ascii { "..."@ } else { "\u{2026}"@ },
            );
            let row = waterfall::row_text(trace, span, width, ascii);
            let k = 2 + name.len() as int;
            let fill = if ascii { '#' } else { '\u{2588}' };
            &&& row.len() >= k + bar + 1
            &&& row[0] == if span.malformed { '!' } else { ' ' }
            &&& row.subrange(1, 1 + name.len() as int) == name
            &&& row[k - 1] == '|' && row[k + bar] == '|'
            &&& forall|c: int| 0 <= c < bar ==> #[trigger] row.skip(k)[c] == if from <= c < to { fill } else { ' ' }
            &&& row.skip(k + bar + 1) == text::pad_start(
                time::duration_text(span.duration_ns as nat, ascii),
                waterfall::WATERFALL_SUFFIX_W as int,
            )
        }),
{
    waterfall::law_a_bar_lies_in_its_column(trace, span, width);
    reveal_strlit("!");
    reveal_strlit(" ");
    reveal_strlit("|");
    let bar = waterfall::bar_cells(width);
    let from = waterfall::bar_from(trace, span, bar);
    let to = waterfall::bar_to(trace, span, bar);
    let name = crate::format::field_text(
        span.name@,
        waterfall::WATERFALL_NAME_W as int,
        if ascii { "..."@ } else { "\u{2026}"@ },
    );
    let fill = if ascii { '#' } else { '\u{2588}' };
    let mark = if span.malformed { "!"@ } else { " "@ };
    let cells = text::rep(' ', from) + text::rep(fill, to - from) + text::rep(' ', bar - to);
    let tail = text::pad_start(
        time::duration_text(span.duration_ns as nat, ascii),
        waterfall::WATERFALL_SUFFIX_W as int,
    );
    let row = waterfall::row_text(trace, span, width, ascii);
    assert(row =~= mark + name + "|"@ + cells + "|"@ + tail);
    assert(row.subrange(1, 1 + name.len() as int) =~= name);
    assert(row.skip(2 + name.len() as int + bar + 1) =~= tail);
}

/// The spans that are pinned above a waterfall are ancestors of the span under the cursor that are scrolled
/// off: its parent is the lowest of them, where that is scrolled off and nothing is broken.
pub proof fn law_the_scrolled_off_parent_is_pinned(spans: Seq<SpanRecord>, i: int, first: int, most: nat, steps: nat, p: int)
    requires
        0 <= i < spans.len(),
        0 <= p < spans.len(),
        ids_differ(spans),
        !spans[i].malformed,
        spans[i].parent_span_id is Some && (spans[i].parent_span_id->0)@ == spans[p].span_id@,
        most > 0,
        steps > 0,
    ensures
        p < first ==> waterfall::pinned(spans, i, first, most, steps).len() > 0 && waterfall::pinned(
            spans,
            i,
            first,
            most,
            steps,
        ).last() == p,
        p < first ==> waterfall::pinned(spans, i, first, most, steps).drop_last() == waterfall::pinned(
            spans,
            p,
            first,
            (most - 1) as nat,
            (steps - 1) as nat,
        ),
        p >= first ==> waterfall::pinned(spans, i, first, most, steps) == waterfall::pinned(
            spans,
            p,
            first,
            most,
            (steps - 1) as nat,
        ),
{
    law_a_parent_is_found_by_its_id(spans, i, p);
    if p < first {
        let rest = waterfall::pinned(spans, p, first, (most - 1) as nat, (steps - 1) as nat);
        assert(waterfall::pinned(spans, i, first, most, steps) == rest.push(p));
        assert(rest.push(p).drop_last() =~= rest);
    }
}

/// A span without a parent, or with a broken chain, pins nothing.
pub proof fn law_a_root_pins_nothing(spans: Seq<SpanRecord>, i: int, first: int, most: nat, steps: nat)
    requires
        0 <= i < spans.len(),
        spans[i].parent_span_id is None || spans[i].malformed,
    ensures
        waterfall::pinned(spans, i, first, most, steps).len() == 0,
{
}

/// A column of a plain chart is filled from the bottom in proportion to its value out of a thousand: a greater
/// value fills no fewer rows, a full one fills all of them, and an empty one none.
pub proof fn law_a_column_is_filled_to_its_value(a: Seq<u64>, b: Seq<u64>, columns: nat, rows: nat, row: int, column: int)
    requires
        a.len() == b.len(),
        0 < columns <= a.len() <= 0xffff,
        columns <= 0xffff,
        0 < rows <= 0xffff,
        0 <= row < rows,
        0 <= column < columns,
        forall|i: int| 0 <= i < a.len() ==> #[trigger] a[i] <= b[i],
    ensures
        ({
            let at = column * a.len() / (columns as int);
            let x = chart::chart_rows(a, columns as int, rows as int);
            let y = chart::chart_rows(b, columns as int, rows as int);
            &&& 0 <= at < a.len()
            &&& x[row][column] == '#' ==> y[row][column] == '#'
            &&& a[at] >= 1000 ==> x[row][column] == '#'
            &&& a[at] == 0 ==> x[row][column] == ' '
            &&& x[row][column] == '#' <==> a[at] >= 1000 || a[at] * rows >= (rows - row) * 1000
        }),
{
    let n = a.len() as int;
    let c = columns as int;
    let at = column * n / c;
    assert(column * n < c * n && column * n <= 0xffff * 0xffff) by (nonlinear_arith)
        requires
            0 <= column < c,
            0 < n <= 0xffff,
            c <= 0xffff,
    ;
    vstd::arithmetic::div_mod::lemma_div_pos_is_pos(column * n, c);
    assert(at < n) by (nonlinear_arith)
        requires
            at == column * n / c,
            column * n < c * n,
            c > 0,
    ;
    assert(0xffff * 0xffff <= usize::MAX);
    let t = chart::threshold(rows as int, rows - 1 - row);
    assert(chart::sampled(a, c, column) == if a[at] <= 1000 { a[at] as int } else { 1000 });
    assert(a[at] <= b[at]);
    assert(t == ((rows - row) * 1000 + rows - 1) / (rows as int));
    lemma_ceil((rows - row) * 1000, rows as int, a[at] as int);
    lemma_ceil((rows - row) * 1000, rows as int, 1000);
    assert(1000 * rows >= (rows - row) * 1000) by (nonlinear_arith)
        requires
            0 <= row < rows,
    ;
    assert((rows - row) * 1000 > 0);
}

proof fn lemma_ceil(x: int, d: int, v: int)
    requires
        d > 0,
    ensures
        v >= (x + d - 1) / d <==> v * d >= x,
{
    let q = (x + d - 1) / d;
    vstd::arithmetic::div_mod::lemma_fundamental_div_mod(x + d - 1, d);
    let r = (x + d - 1) % d;
    assert(0 <= r < d);
    assert(x + d - 1 == d * q + r);
    if v >= q {
        assert(v * d >= x) by (nonlinear_arith)
            requires
                v >= q,
                d > 0,
                x + d - 1 == d * q + r,
                0 <= r < d,
        ;
    } else {
        assert(v * d < x) by (nonlinear_arith)
            requires
                v <= q - 1,
                d > 0,
                x + d - 1 == d * q + r,
                0 <= r < d,
        ;
    }
}

} // verus!
