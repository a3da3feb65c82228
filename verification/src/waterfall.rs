//! The waterfall of a trace: which spans hang where, the row of each, and the rows that stay in view.

use std::sync::Arc;

use vstd::prelude::*;

use crate::geometry;
use crate::model::{SpanRecord, TraceDetail};
use crate::text;
use crate::time;

verus! {

/// The cells of a row's name.
pub const WATERFALL_NAME_W: usize = 28;

/// The cells of a row's duration.
pub const WATERFALL_SUFFIX_W: usize = 12;

/// The most rows that stay in view at the top of the pane.
pub const STICKY_DEPTH: usize = 3;

/// The first span with this id, from span `i` on.
pub open spec fn span_with(spans: Seq<SpanRecord>, id: Seq<char>, i: int) -> Option<int>
    decreases spans.len() - i,
{
    if !(0 <= i < spans.len()) {
        None
    } else if spans[i].span_id@ == id {
        Some(i)
    } else {
        span_with(spans, id, i + 1)
    }
}

/// The span that span `i` names as its parent, where the trace has it.
pub open spec fn parent_of(spans: Seq<SpanRecord>, i: int) -> Option<int> {
    match spans[i].parent_span_id {
        Some(id) => span_with(spans, id@, 0),
        None => None,
    }
}

/// The span `k` steps up the chain of parents of span `i`, where the chain is that long.
pub open spec fn ancestor(spans: Seq<SpanRecord>, i: int, k: nat) -> Option<int>
    decreases k,
{
    if k == 0 {
        Some(i)
    } else {
        match ancestor(spans, i, (k - 1) as nat) {
            Some(j) => parent_of(spans, j),
            None => None,
        }
    }
}

/// Whether the parent of span `i` is not in the trace.
pub open spec fn orphaned(spans: Seq<SpanRecord>, i: int) -> bool {
    spans[i].parent_span_id is Some && parent_of(spans, i) is None
}

/// Whether the chain of parents of span `i` leads back to it.
pub open spec fn in_cycle(spans: Seq<SpanRecord>, i: int) -> bool {
    exists|k: nat| 0 < k <= spans.len() && #[trigger] ancestor(spans, i, k) == Some(i)
}

/// The spans, each marked where its parent chain is broken.
pub open spec fn marked(spans: Seq<SpanRecord>) -> Seq<SpanRecord> {
    Seq::new(
        spans.len(),
        |i: int| SpanRecord { malformed: orphaned(spans, i) || in_cycle(spans, i), ..spans[i] },
    )
}

proof fn lemma_span_with(spans: Seq<SpanRecord>, id: Seq<char>, i: int)
    requires
        0 <= i,
    ensures
        span_with(spans, id, i) matches Some(j) ==> i <= j < spans.len() && spans[j].span_id@ == id,
    decreases spans.len() - i,
{
    if i < spans.len() && spans[i].span_id@ != id {
        lemma_span_with(spans, id, i + 1);
    }
}

fn find_span(spans: &Vec<SpanRecord>, id: &str) -> (r: Option<usize>)
    ensures
        match r {
            Some(i) => span_with(spans@, id@, 0) == Some(i as int) && i < spans@.len(),
            None => span_with(spans@, id@, 0) is None,
        },
{
    let mut i: usize = 0;
    while i < spans.len()
        invariant
            i <= spans@.len(),
            span_with(spans@, id@, 0) == span_with(spans@, id@, i as int),
        decreases spans.len() - i,
    {
        if text::same(&spans[i].span_id, id) {
            return Some(i);
        }
        i += 1;
    }
    None
}

/// The parents, one for each span.
spec fn parents_are(spans: Seq<SpanRecord>, parents: Seq<Option<usize>>) -> bool {
    &&& parents.len() == spans.len()
    &&& forall|i: int| 0 <= i < parents.len() ==> match #[trigger] parents[i] {
        Some(p) => parent_of(spans, i) == Some(p as int) && p < spans.len(),
        None => parent_of(spans, i) is None,
    }
}

fn all_parents(spans: &Vec<SpanRecord>) -> (r: Vec<Option<usize>>)
    ensures
        parents_are(spans@, r@),
{
    let mut out: Vec<Option<usize>> = Vec::new();
    let mut i: usize = 0;
    while i < spans.len()
        invariant
            i <= spans@.len(),
            out@.len() == i,
            forall|j: int| 0 <= j < i ==> match #[trigger] out@[j] {
                Some(p) => parent_of(spans@, j) == Some(p as int) && p < spans@.len(),
                None => parent_of(spans@, j) is None,
            },
        decreases spans.len() - i,
    {
        let parent = match &spans[i].parent_span_id {
            Some(id) => find_span(spans, id),
            None => None,
        };
        out.push(parent);
        i += 1;
    }
    out
}

fn leads_back(spans: &Vec<SpanRecord>, parents: &Vec<Option<usize>>, i: usize) -> (r: bool)
    requires
        i < spans@.len(),
        parents_are(spans@, parents@),
    ensures
        r == in_cycle(spans@, i as int),
{
    let n: usize = spans.len();
    let mut at: usize = i;
    let mut k: usize = 0;
    while k < n
        invariant
            n == spans@.len(),
            k <= n,
            i < n,
            at < n,
            parents_are(spans@, parents@),
            ancestor(spans@, i as int, k as nat) == Some(at as int),
            forall|h: nat| 0 < h <= k ==> #[trigger] ancestor(spans@, i as int, h) != Some(i as int),
        decreases n - k,
    {
        k += 1;
        match parents[at] {
            Some(p) => {
                assert(ancestor(spans@, i as int, k as nat) == Some(p as int));
                if p == i {
                    return true;
                }
                at = p;
            },
            None => {
                assert(ancestor(spans@, i as int, k as nat) is None);
                proof {
                    lemma_chain_ended(spans@, i as int, k as nat);
                }
                return false;
            },
        }
    }
    false
}

proof fn lemma_chain_ended(spans: Seq<SpanRecord>, i: int, k: nat)
    requires
        ancestor(spans, i, k) is None,
    ensures
        forall|h: nat| h >= k ==> #[trigger] ancestor(spans, i, h) is None,
{
    assert forall|h: nat| h >= k implies #[trigger] ancestor(spans, i, h) is None by {
        lemma_chain_stays_ended(spans, i, k, h);
    }
}

proof fn lemma_chain_stays_ended(spans: Seq<SpanRecord>, i: int, k: nat, h: nat)
    requires
        ancestor(spans, i, k) is None,
        h >= k,
    ensures
        ancestor(spans, i, h) is None,
    decreases h,
{
    if h > k {
        lemma_chain_stays_ended(spans, i, k, (h - 1) as nat);
    }
}

/// Marks the spans whose parent chain is broken: those whose parent is not in the trace, and those
/// whose chain of parents leads back to them.
pub fn mark_broken(spans: Vec<SpanRecord>) -> (r: Vec<SpanRecord>)
    ensures
        r@ == marked(spans@),
{
    let parents = all_parents(&spans);
    let n: usize = spans.len();
    let mut flags: Vec<bool> = Vec::new();
    let mut i: usize = 0;
    while i < n
        invariant
            n == spans@.len(),
            i <= n,
            parents_are(spans@, parents@),
            flags@.len() == i,
            forall|j: int| 0 <= j < i ==> #[trigger] flags@[j] == (orphaned(spans@, j) || in_cycle(spans@, j)),
        decreases n - i,
    {
        let orphan = spans[i].parent_span_id.is_some() && parents[i].is_none();
        let back = leads_back(&spans, &parents, i);
        flags.push(orphan || back);
        i += 1;
    }
    let ghost before = spans@;
    let mut rest = spans;
    let mut out: Vec<SpanRecord> = Vec::new();
    let mut k: usize = n;
    while k > 0
        invariant
            n == before.len(),
            k <= n,
            rest@ =~= before.take(k as int),
            flags@.len() == n,
            out@.len() == n - k,
            forall|j: int| 0 <= j < n - k ==> #[trigger] out@[j] == (SpanRecord {
                malformed: flags@[n - 1 - j],
                ..before[n - 1 - j]
            }),
        decreases k,
    {
        k -= 1;
        if let Some(span) = rest.pop() {
            let mut span = span;
            span.malformed = flags[k];
            out.push(span);
        }
    }
    let mut r: Vec<SpanRecord> = Vec::new();
    let ghost backward = out@;
    let mut m: usize = 0;
    while m < n
        invariant
            m <= n,
            n == backward.len(),
            out@ =~= backward.take(n - m),
            r@.len() == m,
            forall|j: int| 0 <= j < m ==> #[trigger] r@[j] == backward[n - 1 - j],
        decreases n - m,
    {
        if let Some(span) = out.pop() {
            r.push(span);
        }
        m += 1;
    }
    assert(r@ =~= marked(before)) by {
        assert forall|j: int| 0 <= j < n implies r@[j] == marked(before)[j] by {
            assert(r@[j] == backward[n - 1 - j]);
            assert(flags@[j] == (orphaned(before, j) || in_cycle(before, j)));
        }
    }
    r
}

/// The cells of the bars in a row of this width.
pub open spec fn bar_cells(width: int) -> int {
    geometry::max(geometry::monus(width, 1 + WATERFALL_NAME_W + 2 + WATERFALL_SUFFIX_W), 1)
}

/// The cell in which an instant of the trace lies.
pub open spec fn cell_at(ns: int, whole: int, bar: int) -> int {
    geometry::min(ns * bar / whole, bar)
}

/// The first cell of the span's bar. A bar is never past the last cell.
pub open spec fn bar_from(trace: TraceDetail, span: SpanRecord, bar: int) -> int {
    geometry::min(
        cell_at(geometry::max(span.offset_ns as int, 0), geometry::max(trace.duration_ns as int, 1), bar),
        bar - 1,
    )
}

/// The cell past the span's bar. A bar is never empty.
pub open spec fn bar_to(trace: TraceDetail, span: SpanRecord, bar: int) -> int {
    geometry::max(
        cell_at(
            geometry::max(span.offset_ns as int, 0) + span.duration_ns,
            geometry::max(trace.duration_ns as int, 1),
            bar,
        ),
        bar_from(trace, span, bar) + 1,
    )
}

/// A span's row: a mark where its parent chain is broken, its name, its bar over the duration of the
/// trace, and how long it took.
pub open spec fn row_text(trace: TraceDetail, span: SpanRecord, width: int, ascii: bool) -> Seq<char> {
    let bar = bar_cells(width);
    let from = bar_from(trace, span, bar);
    let to = bar_to(trace, span, bar);
    (if span.malformed { "!"@ } else { " "@ }) + crate::format::field_text(
        span.name@,
        WATERFALL_NAME_W as int,
        if ascii { "..."@ } else { "\u{2026}"@ },
    ) + "|"@ + text::rep(' ', from) + text::rep(if ascii { '#' } else { '\u{2588}' }, to - from) + text::rep(' ', bar - to)
        + "|"@ + text::pad_start(time::duration_text(span.duration_ns as nat, ascii), WATERFALL_SUFFIX_W as int)
}

proof fn lemma_cell(ns: int, whole: int, bar: int)
    requires
        0 <= ns,
        0 < whole,
        0 < bar,
    ensures
        ns >= whole ==> cell_at(ns, whole, bar) == bar,
        ns < whole ==> cell_at(ns, whole, bar) == ns * bar / whole,
        0 <= cell_at(ns, whole, bar) <= bar,
        ns * bar >= 0,
{
    assert(ns * bar >= 0) by (nonlinear_arith)
        requires
            0 <= ns,
            0 < bar,
    ;
    assert(ns * bar / whole >= 0) by (nonlinear_arith)
        requires
            ns * bar >= 0,
            0 < whole,
    ;
    if ns >= whole {
        assert(ns * bar >= whole * bar) by (nonlinear_arith)
            requires
                ns >= whole,
                0 < bar,
        ;
        vstd::arithmetic::div_mod::lemma_div_is_ordered(whole * bar, ns * bar, whole);
        vstd::arithmetic::div_mod::lemma_div_multiples_vanish(bar, whole);
        assert(whole * bar / whole == bar);
    } else {
        assert(ns * bar <= whole * bar) by (nonlinear_arith)
            requires
                ns < whole,
                0 < bar,
        ;
        vstd::arithmetic::div_mod::lemma_div_is_ordered(ns * bar, whole * bar, whole);
        vstd::arithmetic::div_mod::lemma_div_multiples_vanish(bar, whole);
        assert(whole * bar / whole == bar);
    }
}

fn cell_of(ns: u128, whole: u64, bar: usize) -> (r: usize)
    requires
        0 < whole,
        0 < bar,
    ensures
        r == cell_at(ns as int, whole as int, bar as int),
        r <= bar,
{
    proof {
        lemma_cell(ns as int, whole as int, bar as int);
    }
    if ns >= whole as u128 {
        bar
    } else {
        assert(ns * bar <= u128::MAX) by (nonlinear_arith)
            requires
                0 <= ns < 18_446_744_073_709_551_616,
                0 <= bar < 18_446_744_073_709_551_616,
        ;
        (ns * (bar as u128) / (whole as u128)) as usize
    }
}

/// A bar lies in its column: it is never empty, and never leaves the column.
pub proof fn law_a_bar_lies_in_its_column(trace: TraceDetail, span: SpanRecord, width: int)
    ensures
        0 <= bar_from(trace, span, bar_cells(width)) < bar_to(trace, span, bar_cells(width)) <= bar_cells(width),
{
    let bar = bar_cells(width);
    let whole = geometry::max(trace.duration_ns as int, 1);
    let offset = geometry::max(span.offset_ns as int, 0);
    lemma_cell(offset, whole, bar);
    lemma_cell(offset + span.duration_ns, whole, bar);
}

/// A span's row in a pane of this width.
pub fn waterfall_row(trace: &TraceDetail, span: &SpanRecord, width: usize, ascii: bool) -> (r: String)
    ensures
        r@ == row_text(*trace, *span, width as int, ascii),
{
    let fixed: usize = 1 + WATERFALL_NAME_W + 2 + WATERFALL_SUFFIX_W;
    let bar: usize = if width > fixed { width - fixed } else { 1 };
    assert(bar == bar_cells(width as int));
    proof {
        law_a_bar_lies_in_its_column(*trace, *span, width as int);
    }
    let whole: u64 = if trace.duration_ns > 0 { trace.duration_ns } else { 1 };
    let offset: u128 = if span.offset_ns > 0 { span.offset_ns as u128 } else { 0 };
    let start: usize = cell_of(offset, whole, bar);
    let from: usize = if start < bar { start } else { bar - 1 };
    let end: usize = cell_of(offset + span.duration_ns as u128, whole, bar);
    let to: usize = if end > from { end } else { from + 1 };
    let ellipsis = if ascii { "..." } else { "\u{2026}" };
    let mut out = text::owned(if span.malformed { "!" } else { " " });
    out.append(&crate::format::fit_field(&span.name, WATERFALL_NAME_W, ellipsis));
    out.append("|");
    text::push_rep(&mut out, ' ', from);
    text::push_rep(&mut out, if ascii { '#' } else { '\u{2588}' }, to - from);
    text::push_rep(&mut out, ' ', bar - to);
    out.append("|");
    text::push_right(&mut out, &time::format_duration_ns(span.duration_ns, ascii), WATERFALL_SUFFIX_W);
    out
}

/// The spans of a trace.
pub open spec fn spans_of(trace: TraceDetail) -> Seq<SpanRecord> {
    trace.spans@.map_values(|s: Arc<SpanRecord>| *s)
}

/// The span that row `i` hangs under. A span with a broken chain hangs under none.
pub open spec fn hangs_under(spans: Seq<SpanRecord>, i: int) -> Option<int> {
    if spans[i].malformed { None } else { parent_of(spans, i) }
}

/// The rows above row `first` under which row `i` hangs, no more than `most` of them and the nearest
/// before the others, the outermost first. The chain is followed for `steps` steps.
pub open spec fn pinned(spans: Seq<SpanRecord>, i: int, first: int, most: nat, steps: nat) -> Seq<int>
    decreases steps,
{
    if steps == 0 || most == 0 {
        Seq::empty()
    } else {
        match hangs_under(spans, i) {
            Some(p) => if p < first {
                pinned(spans, p, first, (most - 1) as nat, (steps - 1) as nat).push(p)
            } else {
                pinned(spans, p, first, most, (steps - 1) as nat)
            },
            None => Seq::empty(),
        }
    }
}

/// Rows as numbers.
pub open spec fn row_numbers(v: Seq<usize>) -> Seq<int> {
    v.map_values(|i: usize| i as int)
}

/// What is pinned is scrolled off, and there is no more of it than is allowed.
pub proof fn law_pinned_rows_are_scrolled_off(spans: Seq<SpanRecord>, i: int, first: int, most: nat, steps: nat)
    ensures
        pinned(spans, i, first, most, steps).len() <= most,
        forall|k: int|
            0 <= k < pinned(spans, i, first, most, steps).len() ==> 0 <= #[trigger] pinned(spans, i, first, most, steps)[k]
                < first,
        first <= 0 ==> pinned(spans, i, first, most, steps).len() == 0,
    decreases steps,
{
    if steps > 0 && most > 0 {
        if let Some(p) = hangs_under(spans, i) {
            lemma_span_with(spans, (spans[i].parent_span_id->0)@, 0);
            if p < first {
                law_pinned_rows_are_scrolled_off(spans, p, first, (most - 1) as nat, (steps - 1) as nat);
            } else {
                law_pinned_rows_are_scrolled_off(spans, p, first, most, (steps - 1) as nat);
            }
        }
    }
}

fn row_under(trace: &TraceDetail, i: usize) -> (r: Option<usize>)
    requires
        i < trace.spans@.len(),
    ensures
        match r {
            Some(p) => hangs_under(spans_of(*trace), i as int) == Some(p as int) && p < trace.spans@.len(),
            None => hangs_under(spans_of(*trace), i as int) is None,
        },
{
    let ghost spans = spans_of(*trace);
    assert(spans[i as int] == *trace.spans@[i as int]);
    if trace.spans[i].malformed {
        return None;
    }
    if let Some(id) = &trace.spans[i].parent_span_id {
        let mut j: usize = 0;
        while j < trace.spans.len()
            invariant
                j <= trace.spans@.len(),
                spans == spans_of(*trace),
                hangs_under(spans, i as int) == span_with(spans, id@, j as int),
            decreases trace.spans.len() - j,
        {
            assert(spans[j as int] == *trace.spans@[j as int]);
            if text::same(&trace.spans[j].span_id, id) {
                return Some(j);
            }
            j += 1;
        }
    }
    None
}

/// The rows that stay in view at the top of the pane while the cursor is on row `cursor` and row
/// `first` is the first on view: the spans above it under which the cursor's span hangs, the outermost
/// first, and of a chain longer than `most` the nearest ones.
pub fn pinned_rows(trace: &TraceDetail, cursor: usize, first: usize, most: usize) -> (r: Vec<usize>)
    ensures
        row_numbers(r@) == if cursor < trace.spans@.len() {
            pinned(
                spans_of(*trace),
                cursor as int,
                first as int,
                most as nat,
                trace.spans@.len(),
            )
        } else {
            Seq::empty()
        },
{
    let ghost spans = spans_of(*trace);
    let n: usize = trace.spans.len();
    let mut nearest: Vec<usize> = Vec::new();
    if cursor < n {
        let mut at: usize = cursor;
        let mut most: usize = most;
        let mut steps: usize = n;
        let ghost all = pinned(spans, cursor as int, first as int, most as nat, n as nat);
        assert(row_numbers(nearest@).reverse() =~= Seq::<int>::empty());
        assert(all + Seq::<int>::empty() =~= all);
        while steps > 0 && most > 0
            invariant_except_break
                all == pinned(spans, at as int, first as int, most as nat, steps as nat) + row_numbers(nearest@).reverse(),
            invariant
                spans == spans_of(*trace),
                n == trace.spans@.len(),
                at < n,
            ensures
                all == row_numbers(nearest@).reverse(),
            decreases steps,
        {
            steps -= 1;
            match row_under(trace, at) {
                Some(p) => {
                    let ghost before = row_numbers(nearest@).reverse();
                    if p < first {
                        most -= 1;
                        let ghost rest = pinned(spans, p as int, first as int, most as nat, steps as nat);
                        nearest.push(p);
                        proof {
                            assert(row_numbers(nearest@).reverse() =~= seq![p as int] + before);
                            assert(rest.push(p as int) + before =~= rest + (seq![p as int] + before));
                        }
                    }
                    at = p;
                },
                None => {
                    assert(Seq::<int>::empty() + row_numbers(nearest@).reverse() =~= row_numbers(nearest@).reverse());
                    break;
                },
            }
        }
    }
    let ghost shown = row_numbers(nearest@).reverse();
    let mut out: Vec<usize> = Vec::new();
    let mut k: usize = nearest.len();
    while k > 0
        invariant
            k <= nearest@.len(),
            shown == row_numbers(nearest@).reverse(),
            row_numbers(out@) =~= shown.take(nearest@.len() - k),
        decreases k,
    {
        k -= 1;
        let ghost before = out@;
        out.push(nearest[k]);
        assert(shown[nearest@.len() - 1 - k] == nearest@[k as int]);
        assert(row_numbers(out@) =~= row_numbers(before).push(nearest@[k as int] as int));
        assert(shown.take(nearest@.len() - k) =~= shown.take(nearest@.len() - 1 - k).push(shown[nearest@.len() - 1 - k]));
    }
    assert(shown.take(nearest@.len() as int) =~= shown);
    if cursor >= n {
        assert(row_numbers(out@) =~= Seq::<int>::empty());
    }
    out
}

} // verus!
