//! In ASCII mode a frame over ASCII content is ASCII throughout.

use std::sync::Arc;

use vstd::prelude::*;

use crate::app::AppView;
use crate::chart;
use crate::completion::CompletionView;
use crate::detail_text;
use crate::geometry::Rect;
use crate::model;
use crate::model::{DetailPane, LogRecord, PaneTable, RouteView, SpanRecord, TableView, TraceDetail};
use crate::style;
use crate::style::{SpanView, Style};
use crate::syntax;
use crate::syntax::Token;
use crate::text;
use crate::time;
use crate::ui;
use crate::ui::ascii;
use crate::ui::chrome;
use crate::ui::glyphs;
use crate::ui::glyphs::{all_ascii, Glyphs};
use crate::ui::logs;
use crate::ui::metrics;
use crate::ui::metrics::{FiguresView, SeriesView};
use crate::ui::overlays;
use crate::ui::pane;
use crate::ui::pane::{BodyView, PaneView};
use crate::ui::results;
use crate::ui::traces;
use crate::waterfall;
use crate::ui::{Areas, Moment};

verus! {

/// Whether every text is ASCII.
pub open spec fn texts_ascii(v: Seq<Seq<char>>) -> bool {
    forall|i: int| 0 <= i < v.len() ==> all_ascii(#[trigger] v[i])
}

/// Whether the text of an option is ASCII, where it holds one.
pub open spec fn option_ascii(s: Option<String>) -> bool {
    s matches Some(t) ==> all_ascii(t@)
}

/// Whether every pair of texts is ASCII.
pub open spec fn pairs_ascii(v: Seq<(String, String)>) -> bool {
    forall|i: int| 0 <= i < v.len() ==> all_ascii((#[trigger] v[i]).0@) && all_ascii(v[i].1@)
}

/// Whether every span is ASCII.
pub open spec fn spans_ascii(v: Seq<SpanView>) -> bool {
    forall|i: int| 0 <= i < v.len() ==> all_ascii((#[trigger] v[i]).text)
}

/// Whether every styled line is ASCII.
pub open spec fn lines_ascii(v: Seq<Seq<SpanView>>) -> bool {
    forall|i: int| 0 <= i < v.len() ==> spans_ascii(#[trigger] v[i])
}

/// Whether what a span recorded is ASCII.
pub open spec fn span_ascii(s: SpanRecord) -> bool {
    &&& all_ascii(s.name@) && option_ascii(s.service) && all_ascii(s.kind@)
    &&& all_ascii(s.span_id@) && option_ascii(s.parent_span_id)
    &&& all_ascii(s.status_code@) && option_ascii(s.status_message)
    &&& pairs_ascii(s.attributes@) && pairs_ascii(s.resource@) && pairs_ascii(s.scope@)
    &&& option_ascii(s.events) && option_ascii(s.links)
}

/// Whether what a trace recorded is ASCII.
pub open spec fn trace_ascii(t: TraceDetail) -> bool {
    &&& all_ascii(t.trace_id@) && option_ascii(t.root_service) && option_ascii(t.root_name)
    &&& forall|i: int| 0 <= i < t.spans@.len() ==> span_ascii(*#[trigger] t.spans@[i])
}

/// Whether what a log entry recorded is ASCII.
pub open spec fn record_ascii(r: LogRecord) -> bool {
    &&& all_ascii(r.severity@) && option_ascii(r.service) && all_ascii(r.body@)
    &&& option_ascii(r.trace_id) && option_ascii(r.span_id)
    &&& pairs_ascii(r.attributes@) && pairs_ascii(r.resource@) && pairs_ascii(r.scope@)
}

/// Whether every cell of the rows is ASCII.
pub open spec fn cells_ascii(rows: Seq<Seq<Seq<char>>>) -> bool {
    forall|i: int| 0 <= i < rows.len() ==> texts_ascii(#[trigger] rows[i])
}

/// Whether the pane below the results is ASCII.
pub open spec fn detail_ascii(d: DetailPane) -> bool {
    &&& all_ascii(d.title@) && texts_ascii(text::strs(d.lines@))
    &&& d.waterfall matches Some(trace) ==> trace_ascii(*trace)
    &&& d.table matches Some(table) ==> cells_ascii(table.data@.rows)
}

/// Whether the view's own content is ASCII.
pub open spec fn route_ascii(r: RouteView) -> bool {
    match r {
        RouteView::MetricDetail { labels, query, .. } => all_ascii(labels) && all_ascii(query),
        RouteView::TraceDetail { detail } => trace_ascii(*detail),
        RouteView::SpanDetail { trace_id, span } => all_ascii(trace_id) && span_ascii(*span),
        RouteView::LogDetail { record } => record_ascii(*record),
        _ => true,
    }
}

/// Whether what the session shows is ASCII: the result, the queries, what was typed, the suggestions,
/// and the errors.
pub open spec fn content_ascii(a: AppView) -> bool {
    &&& all_ascii(a.snapshot.title) && texts_ascii(a.snapshot.lines)
    &&& a.snapshot.table matches Some(table) ==> texts_ascii(table.header) && cells_ascii(table.rows)
    &&& a.snapshot.detail matches Some(detail) ==> detail_ascii(*detail)
    &&& route_ascii(a.at.route)
    &&& all_ascii(a.active_query())
    &&& all_ascii(a.range.abs_start) && all_ascii(a.range.abs_end)
    &&& a.range.abs_error matches Some(error) ==> all_ascii(error)
    &&& a.load.last_error matches Some(error) ==> all_ascii(error)
    &&& a.words.completion matches Some(c) ==> forall|i: int|
        0 <= i < c.candidates.len() ==> all_ascii((#[trigger] c.candidates[i]).text)
}

/// Whether the figures of a series are ASCII.
pub open spec fn figures_ascii(f: FiguresView) -> bool {
    all_ascii(f.at_cursor) && all_ascii(f.min) && all_ascii(f.max) && all_ascii(f.avg) && all_ascii(f.latest)
}

/// Whether a pane can be painted in ASCII: its title and texts are, and it asks for no line chart and
/// no sparkline.
pub open spec fn pane_ascii(p: PaneView) -> bool {
    &&& all_ascii(p.title)
    &&& match p.body {
        BodyView::Prose { text, .. } => all_ascii(text),
        BodyView::Lines { lines, .. } => lines_ascii(lines),
        BodyView::Items { items, .. } => lines_ascii(items),
        BodyView::Table { header, rows, .. } => texts_ascii(header) && forall|i: int|
            0 <= i < rows.len() ==> lines_ascii(#[trigger] rows[i]),
        BodyView::Waterfall { trace, .. } => trace_ascii(*trace),
        BodyView::Blank => true,
        BodyView::Spark { .. } => false,
        BodyView::Plot { .. } => false,
    }
}

/// Whether every pane can be painted in ASCII.
pub open spec fn panes_ascii(v: Seq<PaneView>) -> bool {
    forall|i: int| 0 <= i < v.len() ==> pane_ascii(#[trigger] v[i])
}

broadcast proof fn lemma_taken(s: Seq<char>, n: int)
    requires
        all_ascii(s),
        0 <= n <= s.len(),
    ensures
        #[trigger] all_ascii(s.take(n)),
{
}

broadcast proof fn lemma_pushed(s: Seq<char>, c: char)
    requires
        all_ascii(s),
        c <= '\u{7f}',
    ensures
        #[trigger] all_ascii(s.push(c)),
{
}

broadcast proof fn lemma_subrange(s: Seq<char>, i: int, j: int)
    requires
        all_ascii(s),
        0 <= i <= j <= s.len(),
    ensures
        #[trigger] all_ascii(s.subrange(i, j)),
{
}

broadcast proof fn lemma_repeated(c: char, n: int)
    requires
        c <= '\u{7f}',
    ensures
        #[trigger] all_ascii(text::rep(c, n)),
{
}

broadcast proof fn lemma_instant(ns: int)
    ensures
        #[trigger] all_ascii(time::datetime_text(ns)),
{
    ascii::lemma_datetime(ns);
}

broadcast group group_ascii {
    ascii::lemma_joined,
    ascii::lemma_decimal,
    ascii::lemma_padded,
    lemma_taken,
    lemma_pushed,
    lemma_subrange,
    lemma_repeated,
    lemma_instant,
}

proof fn lemma_timestamp(ns: int)
    ensures
        all_ascii(time::timestamp_text(ns)),
{
    broadcast use group_ascii;

}

proof fn lemma_duration(ns: nat)
    ensures
        all_ascii(time::duration_text(ns, true)),
{
    broadcast use group_ascii;

    reveal_strlit("ns");
    assert(all_ascii("ns"@));
    reveal_strlit("us");
    assert(all_ascii("us"@));
    reveal_strlit("ms");
    assert(all_ascii("ms"@));
    reveal_strlit("s");
    assert(all_ascii("s"@));
}

proof fn lemma_join(parts: Seq<Seq<char>>, sep: Seq<char>)
    requires
        texts_ascii(parts),
        all_ascii(sep),
    ensures
        all_ascii(text::join(parts, sep)),
    decreases parts.len(),
{
    broadcast use group_ascii;

    if parts.len() > 1 {
        assert forall|i: int| 0 <= i < parts.drop_last().len() implies all_ascii(#[trigger] parts.drop_last()[i]) by {
            assert(parts.drop_last()[i] == parts[i]);
        }
        lemma_join(parts.drop_last(), sep);
        assert(all_ascii(parts[parts.len() - 1]));
    }
}

proof fn lemma_lines(lines: Seq<Seq<char>>)
    requires
        texts_ascii(lines),
    ensures
        all_ascii(text::join(lines, "\n"@)),
        all_ascii(results::joined_or_none(lines)),
{
    reveal_strlit("No data");
    assert(all_ascii("No data"@));
    reveal_strlit("\n");
    assert(all_ascii("\n"@));
    lemma_join(lines, "\n"@);
}

proof fn lemma_both(a: Seq<Seq<char>>, b: Seq<Seq<char>>)
    requires
        texts_ascii(a),
        texts_ascii(b),
    ensures
        texts_ascii(a + b),
{
    assert forall|i: int| 0 <= i < (a + b).len() implies all_ascii(#[trigger] (a + b)[i]) by {
        if i < a.len() {
            assert((a + b)[i] == a[i]);
        } else {
            assert((a + b)[i] == b[i - a.len()]);
        }
    }
}

proof fn lemma_trimmed(s: Seq<char>)
    requires
        all_ascii(s),
    ensures
        all_ascii(text::trim_start(s)),
        text::trim_start(s).len() <= s.len(),
    decreases s.len(),
{
    if s.len() > 0 && text::space(s[0]) {
        assert forall|i: int| 0 <= i < s.drop_first().len() implies #[trigger] s.drop_first()[i] <= '\u{7f}' by {
            assert(s.drop_first()[i] == s[i + 1]);
        }
        lemma_trimmed(s.drop_first());
    }
}

proof fn lemma_word_ends_inside(s: Seq<char>, i: int)
    requires
        0 <= i <= s.len(),
    ensures
        i <= text::word_end(s, i) <= s.len(),
    decreases s.len() - i,
{
    if i < s.len() && !text::space(s[i]) {
        lemma_word_ends_inside(s, i + 1);
    }
}

proof fn lemma_first_word(s: Seq<char>)
    requires
        all_ascii(s),
    ensures
        text::first_word(s) matches Some(word) ==> all_ascii(word),
{
    broadcast use group_ascii;

    lemma_trimmed(s);
    lemma_word_ends_inside(text::trim_start(s), 0);
}

proof fn lemma_split(s: Seq<char>, c: char)
    requires
        all_ascii(s),
    ensures
        texts_ascii(text::split(s, c)),
        text::split(s, c).len() > 0,
    decreases s.len(),
{
    broadcast use group_ascii;

    if s.len() > 0 {
        lemma_split(s.drop_last(), c);
        let pieces = text::split(s.drop_last(), c);
        let r = text::split(s, c);
        assert(all_ascii(pieces.last()));
        assert(s.last() <= '\u{7f}') by {
            assert(s[s.len() - 1] <= '\u{7f}');
        }
        assert forall|i: int| 0 <= i < r.len() implies all_ascii(#[trigger] r[i]) by {
            if i < pieces.len() - 1 {
                assert(r[i] == pieces[i]);
            } else if s.last() == c && i == pieces.len() - 1 {
                assert(r[i] == pieces[i]);
            }
        }
    }
}

proof fn lemma_body(body: Seq<char>)
    requires
        all_ascii(body),
    ensures
        texts_ascii(detail_text::body_lines(body)),
{
    broadcast use group_ascii;

    reveal_strlit("  (empty)");
    assert(all_ascii("  (empty)"@));
    reveal_strlit("  ");
    assert(all_ascii("  "@));
    lemma_split(body, '\n');
    let pieces = text::split(body, '\n');
    let lines = text::lines_of(body);
    assert forall|i: int| 0 <= i < lines.len() implies all_ascii(#[trigger] lines[i]) by {
        assert(all_ascii(pieces[i]));
        if i < pieces.len() - 1 {
            assert(lines[i] == text::without_return(pieces[i]));
            assert(pieces[i].drop_last() == pieces[i].subrange(0, pieces[i].len() - 1));
        }
    }
    let r = detail_text::body_lines(body);
    assert forall|i: int| 0 <= i < r.len() implies all_ascii(#[trigger] r[i]) by {
        if body.len() > 0 {
            assert(all_ascii(lines[i]));
            assert(r[i] == "  "@ + lines[i]);
        }
    }
}

proof fn lemma_section(title: Seq<char>, pairs: Seq<(String, String)>)
    requires
        all_ascii(title),
        pairs_ascii(pairs),
    ensures
        texts_ascii(detail_text::section(title, pairs)),
{
    broadcast use group_ascii;

    reveal_strlit(" (");
    assert(all_ascii(" ("@));
    reveal_strlit(")");
    assert(all_ascii(")"@));
    reveal_strlit("  ");
    assert(all_ascii("  "@));
    reveal_strlit(" = ");
    assert(all_ascii(" = "@));
    let r = detail_text::section(title, pairs);
    assert forall|i: int| 0 <= i < r.len() implies all_ascii(#[trigger] r[i]) by {
        if i >= 2 {
            assert(all_ascii(pairs[i - 2].0@) && all_ascii(pairs[i - 2].1@));
            assert(r[i] == detail_text::pair_text(pairs[i - 2].0@, pairs[i - 2].1@));
        }
    }
}

proof fn lemma_log_lines(r: LogRecord)
    requires
        record_ascii(r),
    ensures
        texts_ascii(detail_text::log_lines(r)),
{
    broadcast use group_ascii;

    reveal_strlit("Time      ");
    assert(all_ascii("Time      "@));
    reveal_strlit("Severity  ");
    assert(all_ascii("Severity  "@));
    reveal_strlit("Service   ");
    assert(all_ascii("Service   "@));
    reveal_strlit("-");
    assert(all_ascii("-"@));
    reveal_strlit("Trace ID  ");
    assert(all_ascii("Trace ID  "@));
    reveal_strlit("(none)");
    assert(all_ascii("(none)"@));
    reveal_strlit("Span ID   ");
    assert(all_ascii("Span ID   "@));
    reveal_strlit("Body");
    assert(all_ascii("Body"@));
    reveal_strlit("Attributes");
    assert(all_ascii("Attributes"@));
    reveal_strlit("Resource");
    assert(all_ascii("Resource"@));
    reveal_strlit("Scope");
    assert(all_ascii("Scope"@));
    lemma_timestamp(r.time_ns as int);
    lemma_body(r.body@);
    lemma_section("Attributes"@, r.attributes@);
    lemma_section("Resource"@, r.resource@);
    lemma_section("Scope"@, r.scope@);
    let first = seq![
        "Time      "@ + time::timestamp_text(r.time_ns as int),
        "Severity  "@ + r.severity@,
        "Service   "@ + text::or(r.service, "-"@),
        "Trace ID  "@ + text::or(r.trace_id, "(none)"@),
        "Span ID   "@ + text::or(r.span_id, "(none)"@),
        Seq::empty(),
        "Body"@,
    ];
    assert(texts_ascii(first));
    lemma_both(first, detail_text::body_lines(r.body@));
    lemma_both(first + detail_text::body_lines(r.body@), detail_text::section("Attributes"@, r.attributes@));
    lemma_both(
        first + detail_text::body_lines(r.body@) + detail_text::section("Attributes"@, r.attributes@),
        detail_text::section("Resource"@, r.resource@),
    );
    lemma_both(
        first + detail_text::body_lines(r.body@) + detail_text::section("Attributes"@, r.attributes@)
            + detail_text::section("Resource"@, r.resource@),
        detail_text::section("Scope"@, r.scope@),
    );
}

proof fn lemma_offset(span: SpanRecord)
    ensures
        all_ascii(detail_text::offset_text(span, true)),
{
    lemma_duration(if span.offset_ns < 0 { 0 } else { span.offset_ns as nat });
}

proof fn lemma_summary(span: SpanRecord, g: Glyphs)
    requires
        g.is_for(true),
        span_ascii(span),
    ensures
        texts_ascii(detail_text::summary_lines(span, g)),
{
    broadcast use group_ascii;

    reveal_strlit("Span    ");
    assert(all_ascii("Span    "@));
    reveal_strlit("(no service)");
    assert(all_ascii("(no service)"@));
    reveal_strlit("(no kind)");
    assert(all_ascii("(no kind)"@));
    reveal_strlit("IDs     ");
    assert(all_ascii("IDs     "@));
    reveal_strlit("parent ");
    assert(all_ascii("parent "@));
    reveal_strlit("(root)");
    assert(all_ascii("(root)"@));
    reveal_strlit("Timing  +");
    assert(all_ascii("Timing  +"@));
    reveal_strlit(" into trace");
    assert(all_ascii(" into trace"@));
    reveal_strlit(" long");
    assert(all_ascii(" long"@));
    reveal_strlit("Status  ");
    assert(all_ascii("Status  "@));
    reveal_strlit("Fields  attrs ");
    assert(all_ascii("Fields  attrs "@));
    reveal_strlit("resource ");
    assert(all_ascii("resource "@));
    reveal_strlit("scope ");
    assert(all_ascii("scope "@));
    reveal_strlit("events");
    assert(all_ascii("events"@));
    reveal_strlit("links");
    assert(all_ascii("links"@));
    reveal_strlit(" malformed parent chain");
    assert(all_ascii(" malformed parent chain"@));
    reveal_strlit(" ");
    assert(all_ascii(" "@));
    glyphs::law_ascii_glyphs_are_ascii(g, 0);
    lemma_offset(span);
    lemma_duration(span.duration_ns as nat);
    assert(all_ascii(detail_text::spaced(g.sep@)));
    assert(all_ascii(detail_text::status_text(span, g.sep@, g.warn@)));
    let r = detail_text::summary_lines(span, g);
    assert(all_ascii(r[0]) && all_ascii(r[1]) && all_ascii(r[2]) && all_ascii(r[3]) && all_ascii(r[4]));
}

proof fn lemma_raw(title: Seq<char>, json: Option<String>)
    requires
        all_ascii(title),
        option_ascii(json),
    ensures
        texts_ascii(detail_text::raw_block(title, json)),
{
    broadcast use group_ascii;

    reveal_strlit("  ");
    assert(all_ascii("  "@));
}

proof fn lemma_span_head(trace_id: Seq<char>, span: SpanRecord, g: Glyphs)
    requires
        g.is_for(true),
        all_ascii(trace_id),
        span_ascii(span),
    ensures
        texts_ascii(detail_text::span_head(trace_id, span, g)),
{
    broadcast use group_ascii;

    reveal_strlit("Trace ID  ");
    assert(all_ascii("Trace ID  "@));
    reveal_strlit("Span ID   ");
    assert(all_ascii("Span ID   "@));
    reveal_strlit("Parent    ");
    assert(all_ascii("Parent    "@));
    reveal_strlit("(root)");
    assert(all_ascii("(root)"@));
    reveal_strlit("Name      ");
    assert(all_ascii("Name      "@));
    reveal_strlit("Service   ");
    assert(all_ascii("Service   "@));
    reveal_strlit("-");
    assert(all_ascii("-"@));
    reveal_strlit("Kind      ");
    assert(all_ascii("Kind      "@));
    reveal_strlit("Status    ");
    assert(all_ascii("Status    "@));
    reveal_strlit("Message   ");
    assert(all_ascii("Message   "@));
    reveal_strlit("Start     ");
    assert(all_ascii("Start     "@));
    reveal_strlit("Offset    +");
    assert(all_ascii("Offset    +"@));
    reveal_strlit(" into the trace");
    assert(all_ascii(" into the trace"@));
    reveal_strlit("Duration  ");
    assert(all_ascii("Duration  "@));
    reveal_strlit("  parent chain is broken (orphan or cycle) ");
    assert(all_ascii("  parent chain is broken (orphan or cycle) "@));
    reveal_strlit(" shown as a malformed root");
    assert(all_ascii(" shown as a malformed root"@));
    glyphs::law_ascii_glyphs_are_ascii(g, 0);
    lemma_timestamp(span.start_time_ns as int);
    lemma_offset(span);
    lemma_duration(span.duration_ns as nat);
    let s1 = seq![
        "Trace ID  "@ + trace_id,
        "Span ID   "@ + span.span_id@,
        "Parent    "@ + text::or(span.parent_span_id, "(root)"@),
        "Name      "@ + span.name@,
        "Service   "@ + text::or(span.service, "-"@),
        "Kind      "@ + (if span.kind@.len() == 0 { "-"@ } else { span.kind@ }),
        "Status    "@ + span.status_code@,
    ];
    assert(texts_ascii(s1));
    let s2 = match span.status_message {
        Some(message) => seq!["Message   "@ + message@],
        None => Seq::empty(),
    };
    assert(texts_ascii(s2));
    let s3 = seq![
        "Start     "@ + time::timestamp_text(span.start_time_ns as int),
        "Offset    +"@ + detail_text::offset_text(span, g.ascii) + " into the trace"@,
        "Duration  "@ + time::duration_text(span.duration_ns as nat, g.ascii),
    ];
    assert(texts_ascii(s3));
    let s4 = if span.malformed {
        seq![g.warn@ + "  parent chain is broken (orphan or cycle) "@ + g.dash@ + " shown as a malformed root"@]
    } else {
        Seq::empty()
    };
    assert(texts_ascii(s4));
    lemma_both(s1, s2);
    lemma_both(s1 + s2, s3);
    lemma_both(s1 + s2 + s3, s4);
}

proof fn lemma_span_lines(trace_id: Seq<char>, span: SpanRecord, g: Glyphs)
    requires
        g.is_for(true),
        all_ascii(trace_id),
        span_ascii(span),
    ensures
        texts_ascii(detail_text::span_lines(trace_id, span, g)),
{
    reveal_strlit("Attributes");
    assert(all_ascii("Attributes"@));
    reveal_strlit("Resource");
    assert(all_ascii("Resource"@));
    reveal_strlit("Scope");
    assert(all_ascii("Scope"@));
    reveal_strlit("Events");
    assert(all_ascii("Events"@));
    reveal_strlit("Links");
    assert(all_ascii("Links"@));
    lemma_span_head(trace_id, span, g);
    let s1 = detail_text::span_head(trace_id, span, g);
    let s2 = detail_text::section("Attributes"@, span.attributes@);
    let s3 = detail_text::section("Resource"@, span.resource@);
    let s4 = detail_text::section("Scope"@, span.scope@);
    let s5 = detail_text::raw_block("Events"@, span.events);
    let s6 = detail_text::raw_block("Links"@, span.links);
    lemma_section("Attributes"@, span.attributes@);
    lemma_section("Resource"@, span.resource@);
    lemma_section("Scope"@, span.scope@);
    lemma_raw("Events"@, span.events);
    lemma_raw("Links"@, span.links);
    lemma_both(s1, s2);
    lemma_both(s1 + s2, s3);
    lemma_both(s1 + s2 + s3, s4);
    lemma_both(s1 + s2 + s3 + s4, s5);
    lemma_both(s1 + s2 + s3 + s4 + s5, s6);
}

proof fn lemma_title(title: Seq<char>, at: int, end: int, g: Glyphs)
    requires
        g.is_for(true),
        all_ascii(title),
    ensures
        all_ascii(results::scrolled_title(title, at, end, g.up@ + g.down@)),
        all_ascii(metrics::counted(title, at, end)),
{
    broadcast use group_ascii;

    reveal_strlit("  [");
    assert(all_ascii("  ["@));
    reveal_strlit("/");
    assert(all_ascii("/"@));
    reveal_strlit(" ");
    assert(all_ascii(" "@));
    reveal_strlit("]");
    assert(all_ascii("]"@));
    glyphs::law_ascii_glyphs_are_ascii(g, 0);
}

proof fn lemma_chart(values: Seq<u64>, columns: int, rows: int)
    requires
        columns >= 0,
        rows >= 0,
    ensures
        all_ascii(chart::chart_text(values, columns, rows)),
{
    if !(values.len() == 0 || columns == 0 || rows == 0) {
        let all = chart::chart_rows(values, columns, rows);
        assert forall|i: int| 0 <= i < all.len() implies all_ascii(#[trigger] all[i]) by {
        }
        lemma_join(all, seq!['\n']);
    }
}

proof fn lemma_scrolled(title: Seq<char>, lines: Seq<Seq<char>>, area: Rect, scroll: int, focused: bool, g: Glyphs)
    requires
        g.is_for(true),
        all_ascii(title),
        texts_ascii(lines),
    ensures
        pane_ascii(results::scrolled_pane(title, lines, area, scroll, focused, g)),
{
    let end = results::scroll_end(lines, area);
    lemma_title(title, crate::geometry::min(scroll, end), end, g);
    lemma_lines(lines);
}

proof fn lemma_one_line(text: Seq<char>, look: Style)
    requires
        all_ascii(text),
    ensures
        spans_ascii(pane::line(text, look)),
        lines_ascii(seq![pane::line(text, look)]),
{
}

proof fn lemma_log_panes(a: AppView, record: &LogRecord, rows: Seq<Rect>, focused: bool, g: Glyphs)
    requires
        g.is_for(true),
        record_ascii(*record),
    ensures
        panes_ascii(logs::log_panes(a, *record, rows, focused, g)),
{
    reveal(logs::log_panes);
    reveal_strlit("Logs");
    assert(all_ascii("Logs"@));
    reveal_strlit(" Log entry detail ");
    assert(all_ascii(" Log entry detail "@));
    reveal_strlit("Detail");
    assert(all_ascii("Detail"@));
    reveal_strlit("");
    assert(all_ascii(""@));
    lemma_one_line(" Log entry detail "@, style::cursor_look());
    lemma_log_lines(*record);
    lemma_scrolled("Detail"@, detail_text::log_lines(*record), rows[1], a.at.scroll as int, focused, g);
    ascii::law_the_ascii_hints_are_ascii(record.trace_id is Some, g);
}

proof fn lemma_span_panes(a: AppView, trace_id: Seq<char>, span: &SpanRecord, rows: Seq<Rect>, focused: bool, g: Glyphs)
    requires
        g.is_for(true),
        all_ascii(trace_id),
        span_ascii(*span),
    ensures
        panes_ascii(traces::span_panes(a, trace_id, *span, rows, focused, g)),
{
    broadcast use group_ascii;

    reveal(traces::span_panes);
    reveal_strlit("Span detail");
    assert(all_ascii("Span detail"@));
    reveal_strlit(" ");
    assert(all_ascii(" "@));
    reveal_strlit("Fields");
    assert(all_ascii("Fields"@));
    reveal_strlit("");
    assert(all_ascii(""@));
    lemma_one_line(" "@ + span.name@ + " "@, style::cursor_look());
    lemma_span_lines(trace_id, *span, g);
    lemma_scrolled("Fields"@, detail_text::span_lines(trace_id, *span, g), rows[1], a.at.scroll as int, focused, g);
    ascii::law_the_ascii_hints_are_ascii(true, g);
}

proof fn lemma_trace_head(detail: &TraceDetail, g: Glyphs)
    requires
        g.is_for(true),
        trace_ascii(*detail),
    ensures
        all_ascii(traces::trace_head(*detail, g.sep@, true)),
        all_ascii("Trace "@ + g.sep@ + " "@ + traces::root_text(*detail, g.sep@)),
{
    broadcast use group_ascii;

    reveal_strlit("  ");
    assert(all_ascii("  "@));
    reveal_strlit(" ");
    assert(all_ascii(" "@));
    reveal_strlit(" spans  ");
    assert(all_ascii(" spans  "@));
    reveal_strlit("(no root span)");
    assert(all_ascii("(no root span)"@));
    reveal_strlit("Trace ");
    assert(all_ascii("Trace "@));
    glyphs::law_ascii_glyphs_are_ascii(g, 0);
    lemma_duration(detail.duration_ns as nat);
    lemma_timestamp(detail.start_time_ns as int);
    assert(all_ascii(traces::root_text(*detail, g.sep@)));
}

spec fn cursor_of(a: AppView, detail: Arc<TraceDetail>) -> int {
    traces::span_at(a, *detail)
}

proof fn lemma_waterfall(a: AppView, detail: Arc<TraceDetail>, area: Rect, focused: bool, g: Glyphs)
    requires
        g.is_for(true),
        trace_ascii(*detail),
    ensures
        pane_ascii(traces::waterfall_pane(a, detail, area, focused, g)),
{
    reveal_strlit("Spans");
    assert(all_ascii("Spans"@));
    reveal_strlit("(no spans)");
    assert(all_ascii("(no spans)"@));
    lemma_one_line("(no spans)"@, style::colored(style::Color::DarkGray));
    lemma_title("Spans"@, cursor_of(a, detail) + 1, detail.spans@.len() as int, g);
}

proof fn lemma_trace_panes(a: AppView, detail: Arc<TraceDetail>, rows: Seq<Rect>, focused: bool, g: Glyphs)
    requires
        g.is_for(true),
        trace_ascii(*detail),
    ensures
        panes_ascii(traces::trace_panes(a, detail, rows, focused, g)),
{
    broadcast use group_ascii;

    reveal(traces::trace_panes);
    reveal_strlit("Trace ");
    assert(all_ascii("Trace "@));
    reveal_strlit(" ");
    assert(all_ascii(" "@));
    reveal_strlit("Span ");
    assert(all_ascii("Span "@));
    reveal_strlit(" enter: fields");
    assert(all_ascii(" enter: fields"@));
    reveal_strlit("\n");
    assert(all_ascii("\n"@));
    reveal_strlit("");
    assert(all_ascii(""@));
    glyphs::law_ascii_glyphs_are_ascii(g, 0);
    lemma_trace_head(&*detail, g);
    lemma_waterfall(a, detail, rows[1], focused, g);
    ascii::law_the_ascii_hints_are_ascii(true, g);
    if detail.spans@.len() > 0 {
        let span = *detail.spans@[cursor_of(a, detail)];
        assert(span_ascii(span));
        lemma_summary(span, g);
        lemma_lines(detail_text::summary_lines(span, g));
        assert(all_ascii("Span "@ + g.sep@ + " enter: fields"@));
    }
}

proof fn lemma_series_head(detail: SeriesView, area: Rect, g: Glyphs)
    requires
        g.is_for(true),
        all_ascii(detail.labels),
        all_ascii(detail.query),
    ensures
        pane_ascii(metrics::series_head(detail, area, g.dash@)),
{
    broadcast use group_ascii;

    reveal_strlit("Metric series ");
    assert(all_ascii("Metric series "@));
    reveal_strlit(" ");
    assert(all_ascii(" "@));
    reveal_strlit(" Series ");
    assert(all_ascii(" Series "@));
    reveal_strlit("{}");
    assert(all_ascii("{}"@));
    glyphs::law_ascii_glyphs_are_ascii(g, 0);
    assert(all_ascii("Metric series "@ + g.dash@ + " "@ + detail.query));
    assert(all_ascii(" "@ + if detail.labels.len() == 0 { "{}"@ } else { detail.labels }));
}

proof fn lemma_cursor_line(a: AppView, points: Seq<(i64, u64)>, f: FiguresView)
    requires
        figures_ascii(f),
    ensures
        spans_ascii(metrics::cursor_line(a, points, f)),
{
    broadcast use group_ascii;

    reveal_strlit("no samples in this window");
    assert(all_ascii("no samples in this window"@));
    reveal_strlit("cursor [");
    assert(all_ascii("cursor ["@));
    reveal_strlit("/");
    assert(all_ascii("/"@));
    reveal_strlit("] ");
    assert(all_ascii("] "@));
    reveal_strlit("  =  ");
    assert(all_ascii("  =  "@));
    reveal_strlit("n/a");
    assert(all_ascii("n/a"@));
}

proof fn lemma_stats(points: Seq<(i64, u64)>, f: FiguresView, exemplars: nat, sep: Seq<char>)
    requires
        figures_ascii(f),
        all_ascii(sep),
    ensures
        all_ascii(metrics::series_stats(points, f, exemplars, sep)),
{
    broadcast use group_ascii;

    reveal_strlit("no finite samples");
    assert(all_ascii("no finite samples"@));
    reveal_strlit("min ");
    assert(all_ascii("min "@));
    reveal_strlit(" ");
    assert(all_ascii(" "@));
    reveal_strlit(" max ");
    assert(all_ascii(" max "@));
    reveal_strlit(" avg ");
    assert(all_ascii(" avg "@));
    reveal_strlit(" latest ");
    assert(all_ascii(" latest "@));
    reveal_strlit(" pts");
    assert(all_ascii(" pts"@));
    reveal_strlit(" exemplars (enter: nearest trace)");
    assert(all_ascii(" exemplars (enter: nearest trace)"@));
}

proof fn lemma_readout(a: AppView, detail: SeriesView, f: FiguresView, area: Rect, g: Glyphs)
    requires
        g.is_for(true),
        figures_ascii(f),
    ensures
        pane_ascii(metrics::series_readout(a, detail, f, area, g)),
{
    reveal_strlit("");
    glyphs::law_ascii_glyphs_are_ascii(g, 0);
    ascii::law_the_ascii_hints_are_ascii(true, g);
    let stats = metrics::series_stats(detail.points, f, a.metric_exemplars.len(), g.sep@);
    let hint = metrics::series_hint(g.left@, g.right@, g.sep@);
    lemma_cursor_line(a, detail.points, f);
    lemma_stats(detail.points, f, a.metric_exemplars.len(), g.sep@);
    lemma_one_line(stats, style::colored(style::Color::DarkGray));
    lemma_one_line(hint, style::colored(style::Color::DarkGray));
}

proof fn lemma_series_panes(a: AppView, detail: SeriesView, f: FiguresView, rows: Seq<Rect>, focused: bool, g: Glyphs)
    requires
        g.is_for(true),
        all_ascii(detail.labels),
        all_ascii(detail.query),
        figures_ascii(f),
    ensures
        panes_ascii(metrics::series_panes(a, detail, f, rows, focused, g)),
{
    reveal(metrics::series_panes);
    reveal_strlit("Chart");
    assert(all_ascii("Chart"@));
    reveal_strlit("no finite samples in this window");
    assert(all_ascii("no finite samples in this window"@));
    lemma_series_head(detail, rows[0], g);
    lemma_chart(
        f.chart,
        crate::geometry::monus(rows[1].width as int, 2),
        crate::geometry::monus(rows[1].height as int, 2),
    );
    assert(pane_ascii(metrics::series_chart(a, detail, f, rows[1], focused, true)));
    lemma_readout(a, detail, f, rows[2], g);
}

proof fn lemma_left(a: AppView, logo: Seq<char>, n: nat)
    requires
        all_ascii(logo),
    ensures
        spans_ascii(chrome::left_spans(a, logo, n)),
    decreases n,
{
    broadcast use group_ascii;

    reveal_strlit(" IMBH ");
    assert(all_ascii(" IMBH "@));
    reveal_strlit(" ");
    assert(all_ascii(" "@));
    reveal_strlit("1 Overview");
    assert(all_ascii("1 Overview"@));
    reveal_strlit("2 Metrics");
    assert(all_ascii("2 Metrics"@));
    reveal_strlit("3 Traces");
    assert(all_ascii("3 Traces"@));
    reveal_strlit("4 Logs");
    assert(all_ascii("4 Logs"@));
    if n > 0 {
        lemma_left(a, logo, (n - 1) as nat);
        assert(all_ascii(chrome::menu_item(n - 1).1));
        assert(all_ascii(" "@ + chrome::menu_item(n - 1).1 + " "@));
    }
}

proof fn lemma_header(a: AppView, g: Glyphs, area: Rect, now: i64)
    requires
        g.is_for(true),
    ensures
        pane_ascii(chrome::header(a, g, area, now)),
{
    broadcast use group_ascii;

    reveal(chrome::header);
    reveal_strlit("");
    glyphs::law_ascii_glyphs_are_ascii(g, 0);
    ascii::law_the_ascii_selector_is_ascii(a, g, now);
    lemma_left(a, g.logo@, 4);
}

proof fn lemma_token_text(screen: model::Screen, s: Seq<char>, t: Token, vline: Seq<char>)
    requires
        all_ascii(s),
        all_ascii(vline),
        syntax::is_token(screen, s, t),
    ensures
        all_ascii(syntax::token_text(s, t, vline)),
{
    broadcast use group_ascii;

}

proof fn lemma_token_with_caret(screen: model::Screen, s: Seq<char>, t: Token, vline: Seq<char>, k: int)
    requires
        all_ascii(s),
        all_ascii(vline),
        syntax::is_token(screen, s, t),
    ensures
        spans_ascii(syntax::token_with_caret(s, t, vline, k)),
{
    broadcast use group_ascii;

    lemma_token_text(screen, s, t, vline);
}

proof fn lemma_tokens_with_caret(screen: model::Screen, s: Seq<char>, tokens: Seq<Token>, n: nat, vline: Seq<char>, k: int)
    requires
        all_ascii(s),
        all_ascii(vline),
        syntax::are_tokens(screen, s, tokens),
    ensures
        spans_ascii(syntax::tokens_with_caret(s, tokens, n, vline, k)),
    decreases n,
{
    if 0 < n <= tokens.len() {
        lemma_tokens_with_caret(screen, s, tokens, (n - 1) as nat, vline, k);
        assert(syntax::is_token(screen, s, tokens[n - 1]));
        lemma_token_with_caret(screen, s, tokens[n - 1], vline, k);
        lemma_more_spans(
            syntax::tokens_with_caret(s, tokens, (n - 1) as nat, vline, k),
            syntax::token_with_caret(s, tokens[n - 1], vline, k),
        );
    }
}

proof fn lemma_more_spans(a: Seq<SpanView>, b: Seq<SpanView>)
    requires
        spans_ascii(a),
        spans_ascii(b),
    ensures
        spans_ascii(a + b),
{
    assert forall|i: int| 0 <= i < (a + b).len() implies all_ascii((#[trigger] (a + b)[i]).text) by {
        if i < a.len() {
            assert((a + b)[i] == a[i]);
        } else {
            assert((a + b)[i] == b[i - a.len()]);
        }
    }
}

proof fn lemma_query(a: AppView, g: Glyphs, spans: Seq<SpanView>)
    requires
        g.is_for(true),
        all_ascii(a.active_query()),
        chrome::shows_query(a, g, spans),
    ensures
        spans_ascii(spans),
{
    glyphs::law_ascii_glyphs_are_ascii(g, 0);
    let s = a.active_query();
    let screen = a.screen();
    let vline = g.vline@;
    if a.mode == model::Mode::Editing {
        let k = a.caret() as int;
        let tokens = choose|tokens: Seq<Token>|
            syntax::are_tokens(screen, s, tokens) && spans == #[trigger] syntax::tokens_with_caret(
                s,
                tokens,
                tokens.len(),
                vline,
                k,
            ) + syntax::end_caret(s, k);
        lemma_tokens_with_caret(screen, s, tokens, tokens.len(), vline, k);
        assert(spans_ascii(syntax::end_caret(s, k)));
        lemma_more_spans(syntax::tokens_with_caret(s, tokens, tokens.len(), vline, k), syntax::end_caret(s, k));
    } else {
        let tokens = choose|tokens: Seq<Token>|
            syntax::are_tokens(screen, s, tokens) && spans == #[trigger] syntax::token_spans(s, tokens, vline);
        assert forall|i: int| 0 <= i < spans.len() implies all_ascii((#[trigger] spans[i]).text) by {
            assert(syntax::is_token(screen, s, tokens[i]));
            lemma_token_text(screen, s, tokens[i], vline);
        }
    }
}

proof fn lemma_query_pane(a: AppView, g: Glyphs, area: Rect, spans: Seq<SpanView>)
    requires
        g.is_for(true),
        all_ascii(a.active_query()),
        chrome::shows_query(a, g, spans),
    ensures
        pane_ascii(chrome::query_pane(a, g, area, spans)),
{
    reveal(chrome::query_pane);
    lemma_query(a, g, spans);
    ascii::law_the_ascii_forms_are_ascii(a.mode == model::Mode::Editing, a.range.abs_target, g);
}

proof fn lemma_status(a: AppView, g: Glyphs, area: Rect)
    requires
        g.is_for(true),
        content_ascii(a),
    ensures
        pane_ascii(chrome::status_pane(a, g, area)),
{
    broadcast use group_ascii;

    reveal(chrome::status_pane);
    reveal_strlit("");
    assert(all_ascii(""@));
    reveal_strlit("error: ");
    assert(all_ascii("error: "@));
    ascii::law_the_ascii_legend_is_ascii(a, g);
    let legend = chrome::QUIT_HINT@ + chrome::legend_rest(a, g);
    let quit = chrome::QUIT_HINT@;
    assert(quit =~= legend.take(quit.len() as int));
    assert(chrome::legend_rest(a, g) =~= legend.subrange(quit.len() as int, legend.len() as int));
    assert(spans_ascii(chrome::status_spans(a, g)));
}

proof fn lemma_cell(s: Seq<char>, tree: bool)
    requires
        all_ascii(s),
    ensures
        spans_ascii(metrics::cell_spans(s, tree)),
{
    broadcast use group_ascii;

    reveal_strlit("v ");
    reveal_strlit("> ");
    let rest = text::trim_start(s);
    lemma_trimmed(s);
    if let Some(end) = metrics::marker_end(s) {
        assert(rest.len() >= 2);
        assert(s.skip(end) =~= s.subrange(end, s.len() as int));
    }
}

proof fn lemma_table(a: AppView, table: TableView, area: Rect, focused: bool, g: Glyphs)
    requires
        g.is_for(true),
        all_ascii(a.snapshot.title),
        texts_ascii(table.header),
        cells_ascii(table.rows),
    ensures
        pane_ascii(metrics::table_pane(a, table, area, focused)),
{
    if let Some(at) = metrics::selection(a) {
        lemma_title(a.snapshot.title, at + 1, table.rows.len() as int, g);
    }
    let rows = metrics::table_cells(table.rows, a.on_catalog());
    assert forall|i: int| 0 <= i < rows.len() implies lines_ascii(#[trigger] rows[i]) by {
        assert(rows[i] == metrics::row_cells(table.rows[i], a.on_catalog()));
        assert(texts_ascii(table.rows[i]));
        assert forall|j: int| 0 <= j < rows[i].len() implies spans_ascii(#[trigger] rows[i][j]) by {
            assert(all_ascii(table.rows[i][j]));
            lemma_cell(table.rows[i][j], a.on_catalog() && j == 0);
        }
    }
}

proof fn lemma_primary(a: AppView, area: Rect, focused: bool, below: bool, g: Glyphs)
    requires
        g.is_for(true),
        content_ascii(a),
    ensures
        pane_ascii(results::primary_pane(a, area, focused, below, g)),
{
    reveal(results::primary_pane);
    match a.snapshot.table {
        Some(table) => {
            lemma_table(a, table, area, focused, g);
        },
        None => match a.snapshot.list_from {
            Some(from) => {
                if let Some((first, last)) = a.selectable() {
                    lemma_title(a.snapshot.title, metrics::selection(a)->0 - first + 1, last - first + 1, g);
                }
                let items = results::list_items(a.snapshot.lines, from);
                assert forall|i: int| 0 <= i < items.len() implies spans_ascii(#[trigger] items[i]) by {
                    assert(all_ascii(a.snapshot.lines[i]));
                }
            },
            None => {
                let end = results::scroll_end(a.snapshot.lines, area);
                let at = if below { 0 } else { crate::geometry::min(a.at.scroll as int, end) };
                lemma_title(a.snapshot.title, at, end, g);
                lemma_lines(a.snapshot.lines);
            },
        },
    }
}

proof fn lemma_fitting_inside(s: Seq<char>, room: int, i: int)
    requires
        0 <= i <= s.len(),
    ensures
        i <= metrics::fitting(s, room, i) <= s.len(),
    decreases s.len() - i,
{
    if i < s.len() && metrics::single_cells(s, i + 1) <= room {
        lemma_fitting_inside(s, room, i + 1);
    }
}

proof fn lemma_columns(row: Seq<Seq<char>>, widths: Seq<usize>, n: nat)
    requires
        texts_ascii(row),
        n <= row.len(),
    ensures
        all_ascii(results::columns_text(row, widths, n)),
    decreases n,
{
    broadcast use group_ascii;

    reveal_strlit("  ");
    assert(all_ascii("  "@));
    if n > 0 {
        lemma_columns(row, widths, (n - 1) as nat);
        let s = row[n - 1];
        assert(all_ascii(s));
        let w = if n - 1 < widths.len() { widths[n - 1] as int } else { 0 };
        lemma_fitting_inside(s, crate::geometry::monus(w, 1), 0);
        assert(all_ascii(metrics::cell_text(s, w)));
    }
}

proof fn lemma_attr_lines(table: PaneTable)
    requires
        cells_ascii(table.data@.rows),
    ensures
        lines_ascii(results::attr_lines(table)),
{
    let r = results::attr_lines(table);
    assert forall|i: int| 0 <= i < r.len() implies spans_ascii(#[trigger] r[i]) by {
        let row = text::strs(table.data.rows@[i]@);
        assert(table.data@.rows[i] == row);
        assert(texts_ascii(row));
        lemma_columns(row, results::key_widths(table), row.len());
        if row.len() > 0 {
            assert(all_ascii(row[0]));
        }
    }
}

proof fn lemma_attr_title(a: AppView, detail: DetailPane, area: Rect, g: Glyphs)
    requires
        g.is_for(true),
        all_ascii(detail.title@),
        content_ascii(a),
    ensures
        all_ascii(results::attr_title(a, detail, area, g)),
{
    broadcast use group_ascii;

    reveal_strlit("  ");
    assert(all_ascii("  "@));
    reveal_strlit(" enter: change the range");
    assert(all_ascii(" enter: change the range"@));
    reveal_strlit(" ");
    assert(all_ascii(" "@));
    reveal_strlit(" p: promote/demote");
    assert(all_ascii(" p: promote/demote"@));
    glyphs::law_ascii_glyphs_are_ascii(g, 0);
    let end = results::attr_scroll_end(detail, area);
    lemma_title(detail.title@, crate::geometry::min(a.at.scroll as int, end), end, g);
    if let model::Focus::AttrTable(section) = a.effective_focus() {
        if let Some(name) = a.attr_label(section as int) {
            let table = a.attr_table()->0;
            let row = a.attr_sections()[section as int] as int;
            assert(table.data@.rows[row] == text::strs(table.data.rows@[row]@));
            assert(texts_ascii(table.data@.rows[row]));
            assert(table.data@.rows[row][0] == table.data.rows@[row]@[0]@);
            lemma_first_word(table.data.rows@[row]@[0]@);
        }
    }
}

proof fn lemma_attr_panes(a: AppView, detail: &DetailPane, area: Rect, parts: Seq<Rect>, g: Glyphs)
    requires
        g.is_for(true),
        detail_ascii(*detail),
        content_ascii(a),
    ensures
        panes_ascii(results::attr_panes(a, *detail, area, parts, g)),
{
    reveal(results::attr_panes);
    reveal_strlit("");
    lemma_attr_title(a, *detail, parts[1], g);
    let lines = text::strs(detail.lines@);
    let notes = results::note_lines(lines, a.effective_focus() is AttrRange);
    assert forall|i: int| 0 <= i < notes.len() implies spans_ascii(#[trigger] notes[i]) by {
        assert(all_ascii(lines[i]));
    }
    if let Some(table) = detail.table {
        lemma_attr_lines(table);
    }
}

proof fn lemma_preview(detail: &DetailPane, area: Rect, g: Glyphs)
    requires
        g.is_for(true),
        detail_ascii(*detail),
    ensures
        pane_ascii(results::preview(*detail, area, g.dash@)),
{
    broadcast use group_ascii;

    reveal(results::preview);
    reveal_strlit("Waterfall: ");
    assert(all_ascii("Waterfall: "@));
    reveal_strlit(" of ");
    assert(all_ascii(" of "@));
    reveal_strlit(" spans ");
    assert(all_ascii(" spans "@));
    reveal_strlit(" enter: all");
    assert(all_ascii(" enter: all"@));
    glyphs::law_ascii_glyphs_are_ascii(g, 0);
    lemma_lines(text::strs(detail.lines@));
}

proof fn lemma_banner(elapsed: int, area: Rect, g: Glyphs)
    requires
        g.is_for(true),
    ensures
        pane_ascii(overlays::banner(elapsed, area, g)),
{
    reveal(overlays::banner);
    reveal_strlit("");
    ascii::law_the_ascii_banner_is_ascii(elapsed, g);
}

proof fn lemma_preset(index: int)
    ensures
        all_ascii(overlays::preset_text(index)),
{
    broadcast use group_ascii;

    reveal_strlit(" window ");
    assert(all_ascii(" window "@));
    reveal_strlit("  step ");
    assert(all_ascii("  step "@));
    reveal_strlit("s");
    assert(all_ascii("s"@));
    reveal_strlit("5m");
    assert(all_ascii("5m"@));
    reveal_strlit("15m");
    assert(all_ascii("15m"@));
    reveal_strlit("1h");
    assert(all_ascii("1h"@));
    reveal_strlit("3h");
    assert(all_ascii("3h"@));
    reveal_strlit("6h");
    assert(all_ascii("6h"@));
    reveal_strlit("12h");
    assert(all_ascii("12h"@));
    reveal_strlit("24h");
    assert(all_ascii("24h"@));
    reveal_strlit("7d");
    assert(all_ascii("7d"@));
    reveal_strlit("d");
    assert(all_ascii("d"@));
    reveal_strlit("h");
    assert(all_ascii("h"@));
    reveal_strlit("m");
    assert(all_ascii("m"@));
    assert(all_ascii(model::range_label(index)));
    assert(all_ascii(time::human_text(model::range_secs(index).0)));
}

proof fn lemma_preset_rows(n: nat)
    ensures
        lines_ascii(overlays::preset_rows(n)),
    decreases n,
{
    if n > 0 {
        lemma_preset_rows((n - 1) as nat);
        lemma_preset(n - 1);
        lemma_one_line(overlays::preset_text(n - 1), style::plain());
    }
}

proof fn lemma_picker(cursor: usize, anchor: Rect, area: Rect, g: Glyphs)
    requires
        g.is_for(true),
    ensures
        pane_ascii(overlays::picker(cursor, anchor, area, g.ellipsis@)),
{
    reveal(overlays::picker);
    reveal_strlit("Time range (Enter: apply, Esc: cancel)");
    assert(all_ascii("Time range (Enter: apply, Esc: cancel)"@));
    ascii::law_the_ascii_forms_are_ascii(true, model::AbsTarget::Query, g);
    lemma_preset_rows(model::TIME_RANGES_LEN as nat);
    lemma_one_line(overlays::absolute_text(g.ellipsis@), style::plain());
}

proof fn lemma_run(s: Seq<char>, at: Option<int>, from: int, w: int, look: Style, n: int)
    requires
        all_ascii(s),
        n <= s.len(),
    ensures
        spans_ascii(overlays::field_run(s, at, from, w, look, n).0),
        all_ascii(overlays::field_run(s, at, from, w, look, n).1),
    decreases n,
{
    broadcast use group_ascii;

    if n > 0 {
        lemma_run(s, at, from, w, look, n - 1);
        assert(s[n - 1] <= '\u{7f}');
    }
}

proof fn lemma_field(s: Seq<char>, caret: int, w: int, look: Style)
    requires
        all_ascii(s),
    ensures
        spans_ascii(overlays::field_spans(s, caret, w, look)),
{
    broadcast use group_ascii;

    let cs = overlays::field_chars(s, caret);
    assert(all_ascii(cs));
    lemma_run(cs, overlays::caret_at(s, caret), overlays::field_offset(s, caret, w), w, look, cs.len() as int);
}

proof fn lemma_form_line(label: Seq<char>, value: Seq<char>, focused: bool, caret: int, w: int)
    requires
        all_ascii(label),
        all_ascii(value),
    ensures
        spans_ascii(overlays::form_line(label, value, focused, caret, w)),
{
    broadcast use group_ascii;

    reveal_strlit(" ");
    assert(all_ascii(" "@));
    reveal_strlit("  ");
    assert(all_ascii("  "@));
    lemma_field(value, caret, w, overlays::value_look(true));
    let first = seq![pane::one(" "@ + label + "  "@, style::colored(style::Color::DarkGray))];
    assert(spans_ascii(first));
    lemma_more_spans(first, overlays::field_spans(value, caret, w, overlays::value_look(true)));
    lemma_more_spans(first, seq![pane::one(value, overlays::value_look(false))]);
}

proof fn lemma_form(a: AppView, anchor: Rect, area: Rect, g: Glyphs)
    requires
        g.is_for(true),
        content_ascii(a),
    ensures
        pane_ascii(overlays::form(a, anchor, area, g.sep@)),
{
    broadcast use group_ascii;

    reveal(overlays::form);
    reveal_strlit("Attribute-statistics range (Esc: cancel)");
    assert(all_ascii("Attribute-statistics range (Esc: cancel)"@));
    reveal_strlit("Absolute range (Esc: cancel)");
    assert(all_ascii("Absolute range (Esc: cancel)"@));
    reveal_strlit("start");
    assert(all_ascii("start"@));
    reveal_strlit("end  ");
    assert(all_ascii("end  "@));
    reveal_strlit(" ");
    assert(all_ascii(" "@));
    reveal_strlit(" UTC ");
    assert(all_ascii(" UTC "@));
    reveal_strlit(" Tab: field ");
    assert(all_ascii(" Tab: field "@));
    reveal_strlit(" Enter: apply ");
    assert(all_ascii(" Enter: apply "@));
    reveal_strlit(" empty: all");
    assert(all_ascii(" empty: all"@));
    reveal_strlit(" YYYY-MM-DD HH:MM:SS ");
    assert(all_ascii(" YYYY-MM-DD HH:MM:SS "@));
    reveal_strlit(" Enter: apply");
    assert(all_ascii(" Enter: apply"@));
    ascii::law_the_ascii_forms_are_ascii(true, a.range.abs_target, g);
    let w = crate::geometry::monus(
        crate::geometry::monus(overlays::form_area(anchor, area).width as int, 2),
        8,
    );
    lemma_form_line("start"@, a.range.abs_start, a.range.abs_field == 0, overlays::form_caret(a), w);
    lemma_form_line("end  "@, a.range.abs_end, a.range.abs_field == 1, overlays::form_caret(a), w);
    assert(all_ascii(overlays::form_hint(a.range.abs_error, a.range.abs_target, g.sep@).text));
    assert(lines_ascii(overlays::form_lines(a, w, g.sep@)));
}

proof fn lemma_popup(c: CompletionView, query_area: Rect, area: Rect)
    requires
        forall|i: int| 0 <= i < c.candidates.len() ==> all_ascii((#[trigger] c.candidates[i]).text),
    ensures
        pane_ascii(overlays::popup(c, query_area, area)),
{
    reveal(overlays::popup);
    reveal_strlit("Tab: complete");
    assert(all_ascii("Tab: complete"@));
    let items = overlays::candidate_rows(c.candidates);
    assert forall|i: int| 0 <= i < items.len() implies spans_ascii(#[trigger] items[i]) by {
        assert(all_ascii(c.candidates[i].text));
    }
}

proof fn lemma_series_chart(values: Seq<u64>, area: Rect)
    ensures
        pane_ascii(ui::chart_pane(values, area, true)),
{
    reveal(ui::chart_pane);
    reveal_strlit("Series");
    assert(all_ascii("Series"@));
    lemma_chart(
        values,
        crate::geometry::monus(area.width as int, 2),
        crate::geometry::monus(area.height as int, 2),
    );
}

proof fn lemma_more_panes(a: Seq<PaneView>, b: Seq<PaneView>)
    requires
        panes_ascii(a),
        panes_ascii(b),
    ensures
        panes_ascii(a + b),
{
    assert forall|i: int| 0 <= i < (a + b).len() implies pane_ascii(#[trigger] (a + b)[i]) by {
        if i < a.len() {
            assert((a + b)[i] == a[i]);
        } else {
            assert((a + b)[i] == b[i - a.len()]);
        }
    }
}

proof fn lemma_one_pane(p: PaneView)
    requires
        pane_ascii(p),
    ensures
        panes_ascii(seq![p]),
{
}

proof fn lemma_above(a: AppView, areas: Areas, g: Glyphs, query: Seq<SpanView>)
    requires
        g.is_for(true),
        content_ascii(a),
        chrome::shows_query(a, g, query),
    ensures
        panes_ascii(ui::above_panes(a, areas, g, query)),
{
    lemma_query_pane(a, g, areas.rows.rows@[0], query);
    lemma_one_pane(chrome::query_pane(a, g, areas.rows.rows@[0], query));
    if let Some(split) = areas.chart {
        lemma_series_chart(a.snapshot.chart, split.rows@[0]);
        lemma_one_pane(ui::chart_pane(a.snapshot.chart, split.rows@[0], true));
    }
    let first = if a.has_query() {
        seq![chrome::query_pane(a, g, areas.rows.rows@[0], query)]
    } else {
        Seq::empty()
    };
    lemma_more_panes(first, ui::chart_panes(a, areas, g));
}

proof fn lemma_below(a: AppView, areas: Areas, g: Glyphs)
    requires
        g.is_for(true),
        content_ascii(a),
    ensures
        panes_ascii(ui::below_panes(a, areas, g)),
{
    if let Some(detail) = a.snapshot.detail {
        lemma_attr_panes(a, &*detail, (areas.halves->0).rows@[1], (areas.notes->0).rows@, g);
        lemma_preview(&*detail, (areas.halves->0).rows@[1], g);
    }
}

proof fn lemma_list(a: AppView, areas: Areas, g: Glyphs, query: Seq<SpanView>)
    requires
        g.is_for(true),
        content_ascii(a),
        chrome::shows_query(a, g, query),
    ensures
        panes_ascii(ui::list_panes(a, areas, g, query)),
{
    let rows = areas.rows.rows@;
    let focused = a.effective_focus() == model::Focus::Primary;
    let s1 = ui::above_panes(a, areas, g, query);
    let s2 = seq![results::primary_pane(a, areas.primary(a), focused, areas.notes is Some, g)];
    let s3 = ui::below_panes(a, areas, g);
    let s4 = seq![chrome::status_pane(a, g, rows[rows.len() - 1])];
    lemma_above(a, areas, g, query);
    lemma_primary(a, areas.primary(a), focused, areas.notes is Some, g);
    lemma_one_pane(results::primary_pane(a, areas.primary(a), focused, areas.notes is Some, g));
    lemma_below(a, areas, g);
    lemma_status(a, g, rows[rows.len() - 1]);
    lemma_one_pane(chrome::status_pane(a, g, rows[rows.len() - 1]));
    lemma_more_panes(s1, s2);
    lemma_more_panes(s1 + s2, s3);
    lemma_more_panes(s1 + s2 + s3, s4);
}

proof fn lemma_content(a: AppView, areas: Areas, f: FiguresView, g: Glyphs, query: Seq<SpanView>)
    requires
        g.is_for(true),
        content_ascii(a),
        figures_ascii(f),
        model::detail_route(a.at.route) || chrome::shows_query(a, g, query),
    ensures
        panes_ascii(ui::content_panes(a, areas, f, g, query)),
{
    let rows = areas.rows.rows@;
    let focused = a.effective_focus() == model::Focus::Primary;
    match a.at.route {
        RouteView::LogDetail { record } => {
            lemma_log_panes(a, &*record, rows, focused, g);
        },
        RouteView::MetricDetail { labels, query, points } => {
            lemma_series_panes(a, (SeriesView { labels, query, points }), f, rows, focused, g);
        },
        RouteView::TraceDetail { detail } => {
            lemma_trace_panes(a, detail, rows, focused, g);
        },
        RouteView::SpanDetail { trace_id, span } => {
            lemma_span_panes(a, trace_id, &*span, rows, focused, g);
        },
        _ => {
            lemma_list(a, areas, g, query);
        },
    }
}

proof fn lemma_overlays(a: AppView, m: Moment, selector: Rect, g: Glyphs)
    requires
        g.is_for(true),
        m.ascii,
        content_ascii(a),
    ensures
        panes_ascii(ui::overlay_panes(a, m, selector, g)),
{
    let s1 = ui::mascot_panes(a, m);
    assert(s1 =~= Seq::empty());
    let s2 = match a.load.banner(m.now) {
        Some(elapsed) => seq![overlays::banner(elapsed, m.area, g)],
        None => Seq::empty(),
    };
    if let Some(elapsed) = a.load.banner(m.now) {
        lemma_banner(elapsed, m.area, g);
        lemma_one_pane(overlays::banner(elapsed, m.area, g));
    }
    let s3 = if a.mode == model::Mode::TimeRange {
        seq![overlays::picker(a.range.range_cursor, selector, m.area, g.ellipsis@)]
    } else {
        Seq::empty()
    };
    lemma_picker(a.range.range_cursor, selector, m.area, g);
    lemma_one_pane(overlays::picker(a.range.range_cursor, selector, m.area, g.ellipsis@));
    let anchor = if a.range.abs_target == model::AbsTarget::Query { selector } else { a.frame.attr_area };
    let s4 = if a.mode == model::Mode::AbsoluteRange {
        seq![overlays::form(a, anchor, m.area, g.sep@)]
    } else {
        Seq::empty()
    };
    lemma_form(a, anchor, m.area, g);
    lemma_one_pane(overlays::form(a, anchor, m.area, g.sep@));
    lemma_more_panes(s1, s2);
    lemma_more_panes(s1 + s2, s3);
    lemma_more_panes(s1 + s2 + s3, s4);
}

/// In ASCII mode a frame is ASCII wherever its content is: the titles, the texts, the lists and the
/// tables of all its panes are, and none of them is a line chart or a sparkline.
pub proof fn law_an_ascii_frame_is_ascii(
    a: AppView,
    areas: Areas,
    m: Moment,
    f: FiguresView,
    g: Glyphs,
    query: Seq<SpanView>,
    panes: Seq<PaneView>,
)
    requires
        m.ascii,
        content_ascii(a),
        figures_ascii(f),
        ui::is_frame(a, areas, m, f, g, query, panes),
    ensures
        panes_ascii(panes),
{
    reveal(ui::is_frame);
    let nav = areas.outer.rows@[0];
    let b = ui::fresh(a);
    let c = ui::drawn(a, areas, g);
    let selector = chrome::indicator(b, g, nav, m.wall_ns);
    let s1 = seq![chrome::header(b, g, nav, m.wall_ns)];
    let s2 = ui::content_panes(b, areas, f, g, query);
    let s3 = ui::overlay_panes(c, m, selector, g);
    let s4 = ui::popup_panes(c, areas.rows.rows@[0], m);
    lemma_header(b, g, nav, m.wall_ns);
    lemma_one_pane(chrome::header(b, g, nav, m.wall_ns));
    assert(content_ascii(b));
    lemma_content(b, areas, f, g, query);
    assert(content_ascii(c));
    lemma_overlays(c, m, selector, g);
    if let Some(completion) = c.words.completion {
        lemma_popup(completion, areas.rows.rows@[0], m.area);
        lemma_one_pane(overlays::popup(completion, areas.rows.rows@[0], m.area));
    }
    lemma_more_panes(s1, s2);
    lemma_more_panes(s1 + s2, s3);
    lemma_more_panes(s1 + s2 + s3, s4);
}

/// The prompt for a terminal that is too small is ASCII in every mode.
pub proof fn law_the_resize_prompt_is_ascii(area: Rect)
    ensures
        pane_ascii(chrome::too_small(area)),
{
    broadcast use group_ascii;

    reveal(chrome::too_small);
    reveal_strlit("");
    assert(all_ascii(""@));
    reveal_strlit("Terminal too small");
    assert(all_ascii("Terminal too small"@));
    reveal_strlit("Resize to at least ");
    assert(all_ascii("Resize to at least "@));
    reveal_strlit("x");
    assert(all_ascii("x"@));
    reveal_strlit("(now ");
    assert(all_ascii("(now "@));
    reveal_strlit(")");
    assert(all_ascii(")"@));
    let lines = seq![
        "Terminal too small"@,
        "Resize to at least "@ + text::dec(chrome::MIN_COLS as nat) + "x"@ + text::dec(chrome::MIN_ROWS as nat),
        "(now "@ + text::dec(area.width as nat) + "x"@ + text::dec(area.height as nat) + ")"@,
    ];
    assert(texts_ascii(lines));
    let looks = pane::looks(lines, style::plain());
    assert forall|i: int| 0 <= i < looks.len() implies spans_ascii(#[trigger] looks[i]) by {
        assert(all_ascii(lines[i]));
    }
}

proof fn lemma_cut_inside(s: Seq<char>, room: int)
    ensures
        crate::format::fitting(s, room) <= s.len(),
    decreases s.len(),
{
    if s.len() > 0 {
        lemma_cut_inside(s.drop_first(), room - crate::width::own_cells(s[0]));
    }
}

proof fn lemma_field_text(s: Seq<char>, w: int, ellipsis: Seq<char>)
    requires
        all_ascii(s),
        all_ascii(ellipsis),
    ensures
        all_ascii(crate::format::field_text(s, w, ellipsis)),
{
    broadcast use group_ascii;

    lemma_cut_inside(s, crate::format::kept_cells(w, ellipsis));
}

/// In ASCII mode the waterfall row of a span with an ASCII name is ASCII.
pub proof fn law_an_ascii_waterfall_row_is_ascii(trace: TraceDetail, span: SpanRecord, width: int)
    requires
        all_ascii(span.name@),
    ensures
        all_ascii(waterfall::row_text(trace, span, width, true)),
{
    broadcast use group_ascii;

    reveal_strlit("!");
    assert(all_ascii("!"@));
    reveal_strlit(" ");
    assert(all_ascii(" "@));
    reveal_strlit("|");
    assert(all_ascii("|"@));
    reveal_strlit("...");
    assert(all_ascii("..."@));
    lemma_duration(span.duration_ns as nat);
    lemma_field_text(span.name@, waterfall::WATERFALL_NAME_W as int, "..."@);
}

} // verus!
