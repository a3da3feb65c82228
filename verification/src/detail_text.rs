//! The plain-text bodies of the detail views (log entry, span summary, span fields).

use vstd::prelude::*;

use crate::model::{LogRecord, SpanRecord};
use crate::text;
use crate::time::{format_duration_ns, format_timestamp_ns};
use crate::time;
use crate::ui::glyphs::Glyphs;

verus! {

/// A titled attribute section: a blank line, `Title (n)` and a row for each pair; nothing where
/// there are no pairs.
pub open spec fn section(title: Seq<char>, pairs: Seq<(String, String)>) -> Seq<Seq<char>> {
    if pairs.len() == 0 {
        Seq::empty()
    } else {
        seq![Seq::empty(), title + " ("@ + text::dec(pairs.len()) + ")"@] + pairs.map_values(
            |p: (String, String)| pair_text(p.0@, p.1@),
        )
    }
}

/// One row of an attribute section.
pub open spec fn pair_text(key: Seq<char>, value: Seq<char>) -> Seq<char> {
    "  "@ + key + " = "@ + value
}

/// Appends a titled attribute section (`Title (n)`, then `  key = value` rows) when it has rows.
pub fn push_attr_section(lines: &mut Vec<String>, title: &str, pairs: &Vec<(String, String)>)
    ensures
        text::strs(final(lines)@) == text::strs(old(lines)@) + section(title@, pairs@),
{
    if pairs.len() == 0 {
        assert(text::strs(lines@) =~= text::strs(old(lines)@) + section(title@, pairs@));
        return;
    }
    text::add_line(lines, String::new());
    let mut head = text::owned(title);
    head.append(" (");
    text::push_dec(&mut head, pairs.len() as u64);
    head.append(")");
    text::add_line(lines, head);
    let ghost start = text::strs(lines@);
    let ghost rows = pairs@.map_values(|p: (String, String)| pair_text(p.0@, p.1@));
    let mut i: usize = 0;
    assert(start + rows.take(0) =~= start);
    while i < pairs.len()
        invariant
            i <= pairs@.len(),
            rows == pairs@.map_values(|p: (String, String)| pair_text(p.0@, p.1@)),
            text::strs(lines@) == start + rows.take(i as int),
        decreases pairs.len() - i,
    {
        let pair = &pairs[i];
        let mut row = text::cat3("  ", &pair.0, " = ");
        row.append(&pair.1);
        text::add_line(lines, row);
        i += 1;
        assert(text::strs(lines@) =~= start + rows.take(i as int));
    }
    assert(rows.take(pairs@.len() as int) =~= rows);
    assert(text::strs(lines@) =~= text::strs(old(lines)@) + section(title@, pairs@));
}

/// The body of a log entry, each line indented.
pub open spec fn body_lines(body: Seq<char>) -> Seq<Seq<char>> {
    if body.len() == 0 {
        seq!["  (empty)"@]
    } else {
        text::lines_of(body).map_values(|l: Seq<char>| "  "@ + l)
    }
}

/// The lines of the log-entry detail view.
pub open spec fn log_lines(r: LogRecord) -> Seq<Seq<char>> {
    seq![
        "Time      "@ + time::timestamp_text(r.time_ns as int),
        "Severity  "@ + r.severity@,
        "Service   "@ + text::or(r.service, "-"@),
        "Trace ID  "@ + text::or(r.trace_id, "(none)"@),
        "Span ID   "@ + text::or(r.span_id, "(none)"@),
        Seq::empty(),
        "Body"@,
    ] + body_lines(r.body@) + section("Attributes"@, r.attributes@) + section("Resource"@, r.resource@) + section(
        "Scope"@,
        r.scope@,
    )
}

/// The lines of the log-entry detail view: header fields, body, then attribute sections.
pub fn log_detail_lines(record: &LogRecord) -> (r: Vec<String>)
    ensures
        text::strs(r@) == log_lines(*record),
{
    let mut lines: Vec<String> = Vec::new();
    assert(text::strs(lines@) =~= Seq::<Seq<char>>::empty());
    text::add_line(&mut lines, text::cat("Time      ", &format_timestamp_ns(record.time_ns)));
    text::add_line(&mut lines, text::cat("Severity  ", &record.severity));
    text::add_line(&mut lines, text::cat("Service   ", text::or_else(&record.service, "-")));
    text::add_line(&mut lines, text::cat("Trace ID  ", text::or_else(&record.trace_id, "(none)")));
    text::add_line(&mut lines, text::cat("Span ID   ", text::or_else(&record.span_id, "(none)")));
    text::add_line(&mut lines, String::new());
    text::add_line(&mut lines, text::owned("Body"));
    let ghost head = text::strs(lines@);
    if record.body.as_str().is_empty() {
        text::add_line(&mut lines, text::owned("  (empty)"));
        assert(text::strs(lines@) =~= head + body_lines(record.body@));
    } else {
        let body = text::lines(&record.body);
        let ghost all = body_lines(record.body@);
        let mut i: usize = 0;
        assert(head + all.take(0) =~= head);
        while i < body.len()
            invariant
                i <= body@.len(),
                text::strs(body@) == text::lines_of(record.body@),
                all == text::lines_of(record.body@).map_values(|l: Seq<char>| "  "@ + l),
                text::strs(lines@) == head + all.take(i as int),
            decreases body.len() - i,
        {
            assert(text::strs(body@)[i as int] == body@[i as int]@);
            text::add_line(&mut lines, text::cat("  ", &body[i]));
            i += 1;
            assert(text::strs(lines@) =~= head + all.take(i as int));
        }
        assert(all.take(body@.len() as int) =~= all);
    }
    push_attr_section(&mut lines, "Attributes", &record.attributes);
    push_attr_section(&mut lines, "Resource", &record.resource);
    push_attr_section(&mut lines, "Scope", &record.scope);
    assert(head =~= log_lines(*record).take(7));
    assert(text::strs(lines@) =~= log_lines(*record));
    lines
}

/// The duration from the start of the trace, a start before it counting as none.
pub open spec fn offset_text(span: SpanRecord, ascii: bool) -> Seq<char> {
    time::duration_text(if span.offset_ns < 0 { 0 } else { span.offset_ns as nat }, ascii)
}

fn format_offset(span: &SpanRecord, ascii: bool) -> (r: String)
    ensures
        r@ == offset_text(*span, ascii),
{
    format_duration_ns(if span.offset_ns < 0 { 0 } else { span.offset_ns as u64 }, ascii)
}

/// `s` between two spaces.
pub open spec fn spaced(s: Seq<char>) -> Seq<char> {
    " "@ + s + " "@
}

/// The status line of a span's summary.
pub open spec fn status_text(span: SpanRecord, sep: Seq<char>, warn: Seq<char>) -> Seq<char> {
    span.status_code@ + (match span.status_message {
        Some(message) => spaced(sep) + message@,
        None => Seq::empty(),
    }) + (if span.malformed { spaced(sep) + warn + " malformed parent chain"@ } else { Seq::empty() })
}

/// The lines of a span's summary.
pub open spec fn summary_lines(span: SpanRecord, g: Glyphs) -> Seq<Seq<char>> {
    let sep = spaced(g.sep@);
    seq![
        "Span    "@ + span.name@ + sep + text::or(span.service, "(no service)"@) + sep + (if span.kind@.len() == 0 {
            "(no kind)"@
        } else {
            span.kind@
        }),
        "IDs     "@ + span.span_id@ + sep + "parent "@ + text::or(span.parent_span_id, "(root)"@),
        "Timing  +"@ + offset_text(span, g.ascii) + " into trace"@ + sep + time::duration_text(
            span.duration_ns as nat,
            g.ascii,
        ) + " long"@,
        "Status  "@ + status_text(span, g.sep@, g.warn@),
        "Fields  attrs "@ + text::dec(span.attributes@.len()) + sep + "resource "@ + text::dec(span.resource@.len())
            + sep + "scope "@ + text::dec(span.scope@.len()) + (if span.events is Some {
            sep + "events"@
        } else {
            Seq::empty()
        }) + (if span.links is Some { sep + "links"@ } else { Seq::empty() }),
    ]
}

/// The compact summary of the span under the trace detail's cursor (the bottom pane).
pub fn span_summary_lines(span: &SpanRecord, g: &Glyphs) -> (r: Vec<String>)
    ensures
        text::strs(r@) == summary_lines(*span, *g),
{
    let sep = text::cat3(" ", g.sep, " ");
    let mut lines: Vec<String> = Vec::new();
    assert(text::strs(lines@) =~= Seq::<Seq<char>>::empty());
    let mut first = text::cat3("Span    ", &span.name, &sep);
    first.append(text::or_else(&span.service, "(no service)"));
    first.append(&sep);
    first.append(if span.kind.as_str().is_empty() { "(no kind)" } else { span.kind.as_str() });
    text::add_line(&mut lines, first);
    let mut ids = text::cat3("IDs     ", &span.span_id, &sep);
    ids.append("parent ");
    ids.append(text::or_else(&span.parent_span_id, "(root)"));
    text::add_line(&mut lines, ids);
    let mut timing = text::cat3("Timing  +", &format_offset(span, g.ascii), " into trace");
    timing.append(&sep);
    timing.append(&format_duration_ns(span.duration_ns, g.ascii));
    timing.append(" long");
    text::add_line(&mut lines, timing);
    let mut status = span.status_code.clone();
    if let Some(message) = &span.status_message {
        status.append(&sep);
        status.append(message);
    }
    if span.malformed {
        status.append(&sep);
        status.append(g.warn);
        status.append(" malformed parent chain");
    }
    assert(status@ =~= status_text(*span, g.sep@, g.warn@));
    text::add_line(&mut lines, text::cat("Status  ", &status));
    let mut fields = text::owned("Fields  attrs ");
    text::push_dec(&mut fields, span.attributes.len() as u64);
    fields.append(&sep);
    fields.append("resource ");
    text::push_dec(&mut fields, span.resource.len() as u64);
    fields.append(&sep);
    fields.append("scope ");
    text::push_dec(&mut fields, span.scope.len() as u64);
    if span.events.is_some() {
        fields.append(&sep);
        fields.append("events");
    }
    if span.links.is_some() {
        fields.append(&sep);
        fields.append("links");
    }
    assert(fields@ =~= summary_lines(*span, *g)[4]);
    text::add_line(&mut lines, fields);
    assert(text::strs(lines@) =~= summary_lines(*span, *g));
    lines
}

/// A titled block of raw text, or nothing where there is no text.
pub open spec fn raw_block(title: Seq<char>, json: Option<String>) -> Seq<Seq<char>> {
    match json {
        Some(s) => if s@.len() > 0 {
            seq![Seq::empty(), title, "  "@ + s@]
        } else {
            Seq::empty()
        },
        None => Seq::empty(),
    }
}

/// The header lines of a span's field detail.
pub open spec fn span_head(trace_id: Seq<char>, span: SpanRecord, g: Glyphs) -> Seq<Seq<char>> {
    seq![
        "Trace ID  "@ + trace_id,
        "Span ID   "@ + span.span_id@,
        "Parent    "@ + text::or(span.parent_span_id, "(root)"@),
        "Name      "@ + span.name@,
        "Service   "@ + text::or(span.service, "-"@),
        "Kind      "@ + (if span.kind@.len() == 0 { "-"@ } else { span.kind@ }),
        "Status    "@ + span.status_code@,
    ] + (match span.status_message {
        Some(message) => seq!["Message   "@ + message@],
        None => Seq::empty(),
    }) + seq![
        "Start     "@ + time::timestamp_text(span.start_time_ns as int),
        "Offset    +"@ + offset_text(span, g.ascii) + " into the trace"@,
        "Duration  "@ + time::duration_text(span.duration_ns as nat, g.ascii),
    ] + (if span.malformed {
        seq![
            g.warn@ + "  parent chain is broken (orphan or cycle) "@ + g.dash@ + " shown as a malformed root"@,
        ]
    } else {
        Seq::empty()
    })
}

/// The lines of a span's field detail.
pub open spec fn span_lines(trace_id: Seq<char>, span: SpanRecord, g: Glyphs) -> Seq<Seq<char>> {
    span_head(trace_id, span, g) + section("Attributes"@, span.attributes@) + section("Resource"@, span.resource@)
        + section("Scope"@, span.scope@) + raw_block("Events"@, span.events) + raw_block("Links"@, span.links)
}

fn push_raw_block(lines: &mut Vec<String>, title: &str, json: &Option<String>)
    ensures
        text::strs(final(lines)@) == text::strs(old(lines)@) + raw_block(title@, *json),
{
    if let Some(s) = json {
        if !s.as_str().is_empty() {
            text::add_line(lines, String::new());
            text::add_line(lines, text::owned(title));
            text::add_line(lines, text::cat("  ", s));
        }
    }
    assert(text::strs(lines@) =~= text::strs(old(lines)@) + raw_block(title@, *json));
}

/// The lines of the span field detail: header fields, the attribute sections, then the raw events
/// and links.
pub fn span_detail_lines(trace_id: &str, span: &SpanRecord, g: &Glyphs) -> (r: Vec<String>)
    ensures
        text::strs(r@) == span_lines(trace_id@, *span, *g),
{
    let mut lines: Vec<String> = Vec::new();
    assert(text::strs(lines@) =~= Seq::<Seq<char>>::empty());
    text::add_line(&mut lines, text::cat("Trace ID  ", trace_id));
    text::add_line(&mut lines, text::cat("Span ID   ", &span.span_id));
    text::add_line(&mut lines, text::cat("Parent    ", text::or_else(&span.parent_span_id, "(root)")));
    text::add_line(&mut lines, text::cat("Name      ", &span.name));
    text::add_line(&mut lines, text::cat("Service   ", text::or_else(&span.service, "-")));
    text::add_line(
        &mut lines,
        text::cat("Kind      ", if span.kind.as_str().is_empty() { "-" } else { span.kind.as_str() }),
    );
    text::add_line(&mut lines, text::cat("Status    ", &span.status_code));
    if let Some(message) = &span.status_message {
        text::add_line(&mut lines, text::cat("Message   ", message));
    }
    text::add_line(&mut lines, text::cat("Start     ", &format_timestamp_ns(span.start_time_ns)));
    text::add_line(&mut lines, text::cat3("Offset    +", &format_offset(span, g.ascii), " into the trace"));
    text::add_line(&mut lines, text::cat("Duration  ", &format_duration_ns(span.duration_ns, g.ascii)));
    if span.malformed {
        let mut note = text::cat3(g.warn, "  parent chain is broken (orphan or cycle) ", g.dash);
        note.append(" shown as a malformed root");
        text::add_line(&mut lines, note);
    }
    assert(text::strs(lines@) =~= span_head(trace_id@, *span, *g));
    push_attr_section(&mut lines, "Attributes", &span.attributes);
    push_attr_section(&mut lines, "Resource", &span.resource);
    push_attr_section(&mut lines, "Scope", &span.scope);
    push_raw_block(&mut lines, "Events", &span.events);
    push_raw_block(&mut lines, "Links", &span.links);
    lines
}

} // verus!
