//! Query results: what the tables and lists show of what was found.

use vstd::prelude::*;

use crate::app::catalog::catalog_header;
use crate::fetch;
use crate::fetch::attributes;
use crate::fetch::{CatalogEntry, LogPage, OverviewStats, SeriesResult, TraceSearch};
use crate::fetch::attributes::{AttrScope, Report, UnitReport};
use crate::laws::catalog::{lemma_lists_more, lists_exactly};
use crate::model;
use crate::model::{CorrelationView, Options, TableView};
use crate::promql;
use crate::text;
use crate::time;

verus! {

/// The cell of row `i` under the column of the given name.
pub open spec fn under(table: TableView, i: int, name: Seq<char>) -> Seq<char> {
    table.rows[i][table.header.index_of(name)]
}

/// The list of series for the results of a query.
pub open spec fn series_table(results: Seq<SeriesResult>, queries: Seq<Seq<char>>) -> TableView {
    model::table_of(fetch::series_header(), fetch::series_rows(results, queries))
}

proof fn lemma_series_columns()
    ensures
        fetch::series_header().len() == 5,
        fetch::series_header().index_of("Series"@) == 0,
        fetch::series_header().index_of("Latest"@) == 1,
        fetch::series_header().index_of("Min"@) == 2,
        fetch::series_header().index_of("Max"@) == 3,
        fetch::series_header().index_of("Points"@) == 4,
{
    reveal_strlit("Series");
    reveal_strlit("Latest");
    reveal_strlit("Min");
    reveal_strlit("Max");
    reveal_strlit("Points");
    let h = fetch::series_header();
    assert(h[0][0] == 'S' && h[1][0] == 'L' && h[2][1] == 'i' && h[3][1] == 'a' && h[4][0] == 'P');
    assert(h[2].len() == 3 && h[3].len() == 3 && h[0].len() == 6 && h[1].len() == 6 && h[4].len() == 6);
    assert(h[0] == "Series"@ && h[1] == "Latest"@ && h[2] == "Min"@ && h[3] == "Max"@ && h[4] == "Points"@);
}

/// The list of series has a row for each series, in the order of the results. In each row the cell under
/// Latest is the series' latest value, the one under Min its least, the one under Max its greatest, and
/// the one under Points the number of its samples.
pub proof fn law_every_cell_belongs_under_its_header(results: Seq<SeriesResult>, queries: Seq<Seq<char>>, i: int)
    requires
        0 <= i < results.len(),
    ensures
        series_table(results, queries).rows.len() == results.len(),
        series_table(results, queries).rows[i].len() == 5,
        series_table(results, queries).header == seq!["Series"@, "Latest"@, "Min"@, "Max"@, "Points"@],
        under(series_table(results, queries), i, "Latest"@) == results[i].latest@,
        under(series_table(results, queries), i, "Min"@) == results[i].min@,
        under(series_table(results, queries), i, "Max"@) == results[i].max@,
        text::number(under(series_table(results, queries), i, "Points"@)) == Some(results[i].samples@.len()),
        under(series_table(results, queries), i, "Series"@) == fetch::series_labels(results[i], queries),
{
    lemma_series_columns();
    text::law_number_reads_back(results[i].samples@.len(), 0);
}

/// Whether one of the labels is the metric's name.
pub open spec fn named(s: SeriesResult) -> bool {
    exists|k: int| 0 <= k < s.labels@.len() && (#[trigger] s.labels@[k]).0@ == "__name__"@
}

/// The labels of a series, each as its name, an equals sign and its value.
pub open spec fn written_labels(s: SeriesResult) -> Seq<Seq<char>> {
    Seq::new(s.labels@.len(), |k: int| s.labels@[k].0@ + "="@ + s.labels@[k].1@)
}

/// A series is labelled by its own labels, with commas between. Without labels it is a pair of braces.
pub proof fn law_a_series_is_labelled_by_its_labels(s: SeriesResult, queries: Seq<Seq<char>>)
    requires
        queries.len() <= 1 || s.query_index >= queries.len() || named(s),
    ensures
        s.labels@.len() == 0 ==> fetch::series_labels(s, queries) == "{}"@,
        s.labels@.len() > 0 ==> fetch::series_labels(s, queries) == text::join(written_labels(s), ","@),
{
    let own = fetch::label_texts(promql::pairs(s.labels@));
    assert(own =~= written_labels(s));
    lemma_named(s);
    if s.labels@.len() > 0 {
        reveal_strlit("=");
        lemma_joined_is_not_empty(written_labels(s));
    }
}

proof fn lemma_named(s: SeriesResult)
    ensures
        fetch::names_metric(promql::pairs(s.labels@)) <==> named(s),
{
    let pairs = promql::pairs(s.labels@);
    if named(s) {
        let k = choose|k: int| 0 <= k < s.labels@.len() && (#[trigger] s.labels@[k]).0@ == "__name__"@;
        assert(pairs[k].0 == "__name__"@);
    }
    if fetch::names_metric(pairs) {
        let k = choose|k: int| 0 <= k < pairs.len() && (#[trigger] pairs[k]).0 == "__name__"@;
        assert(s.labels@[k].0@ == "__name__"@);
    }
}

proof fn lemma_joined_is_not_empty(v: Seq<Seq<char>>)
    requires
        v.len() > 0,
        forall|k: int| 0 <= k < v.len() ==> (#[trigger] v[k]).len() > 0,
    ensures
        text::join(v, ","@).len() > 0,
{
    reveal_strlit(",");
}

/// Where several queries are shown together, a series that does not name its metric gets the name of the
/// metric that its own query shows, in front of its labels.
pub proof fn law_a_series_among_several_queries_is_named(s: SeriesResult, queries: Seq<Seq<char>>, name: Seq<char>)
    requires
        queries.len() > 1,
        s.query_index < queries.len(),
        !named(s),
        promql::shown_metric(queries[s.query_index as int]) == Some(name),
    ensures
        fetch::series_labels(s, queries) == text::join(seq!["__name__="@ + name] + written_labels(s), ","@),
{
    lemma_named(s);
    let own = fetch::label_texts(promql::pairs(s.labels@));
    assert(own =~= written_labels(s));
    let all = seq!["__name__="@ + name] + written_labels(s);
    reveal_strlit("__name__=");
    assert forall|k: int| 0 <= k < all.len() implies (#[trigger] all[k]).len() > 0 by {
        if k > 0 {
            assert(all[k] == s.labels@[k - 1].0@ + "="@ + s.labels@[k - 1].1@);
            reveal_strlit("=");
        }
    }
    lemma_joined_is_not_empty(all);
}

/// The lines of a text: none of them holds a line break, and with line breaks between they are the text.
pub proof fn law_splitting_and_joining_undo_each_other(s: Seq<char>, c: char)
    ensures
        text::split(s, c).len() == 1 + s.to_multiset().count(c),
        forall|i: int| 0 <= i < text::split(s, c).len() ==> !(#[trigger] text::split(s, c)[i]).contains(c),
        text::join(text::split(s, c), seq![c]) == s,
    decreases s.len(),
{
    broadcast use vstd::seq_lib::group_to_multiset_ensures;

    let all = text::split(s, c);
    if s.len() == 0 {
        assert(all =~= seq![Seq::<char>::empty()]);
        assert(text::join(all, seq![c]) =~= s);
    } else {
        let t = s.drop_last();
        law_splitting_and_joining_undo_each_other(t, c);
        assert(s =~= t.push(s.last()));
        let pieces = text::split(t, c);
        if s.last() == c {
            assert(all.drop_last() =~= pieces);
            assert(all.last() =~= Seq::<char>::empty());
            assert(text::join(all, seq![c]) =~= s);
        } else {
            let last = pieces.last().push(s.last());
            assert(all =~= pieces.drop_last().push(last));
            assert forall|i: int| 0 <= i < all.len() implies !(#[trigger] all[i]).contains(c) by {
                if i < pieces.len() - 1 {
                    assert(all[i] == pieces[i]);
                } else {
                    assert(!pieces[pieces.len() - 1].contains(c));
                    if all[i].contains(c) {
                        let k = choose|k: int| 0 <= k < last.len() && last[k] == c;
                        assert(pieces.last()[k] == c);
                    }
                }
            }
            if pieces.len() == 1 {
                assert(text::join(pieces, seq![c]) == pieces[0]);
                assert(text::join(all, seq![c]) == all[0]);
                assert(all[0] =~= s);
            } else {
                assert(all.drop_last() =~= pieces.drop_last());
                assert(text::join(all, seq![c]) =~= s);
            }
        }
    }
}

/// Trimming takes white space off both ends and nothing else.
pub proof fn law_trimming_takes_white_space_off_the_ends(s: Seq<char>)
    ensures
        exists|a: int, b: int|
            #![trigger s.subrange(a, b)]
            0 <= a <= b <= s.len() && text::trim(s) == s.subrange(a, b) && (forall|i: int|
                0 <= i < a ==> text::space(#[trigger] s[i])) && (forall|i: int| b <= i < s.len() ==> text::space(#[trigger] s[i]))
                && (a < b ==> !text::space(s[a]) && !text::space(s[b - 1])),
{
    let a = lemma_trim_start(s);
    let t = text::trim_start(s);
    let n = lemma_trim_end(t);
    let b = a + n;
    assert(text::trim(s) =~= s.subrange(a, b));
    assert forall|i: int| b <= i < s.len() implies text::space(#[trigger] s[i]) by {
        assert(t[i - a] == s[i]);
    }
    if n > 0 {
        assert(t[0] == s[a]);
        assert(t[n - 1] == s[b - 1]);
    }
}

proof fn lemma_trim_start(s: Seq<char>) -> (a: int)
    ensures
        0 <= a <= s.len(),
        text::trim_start(s) == s.skip(a),
        forall|i: int| 0 <= i < a ==> text::space(#[trigger] s[i]),
        a < s.len() ==> !text::space(s[a]),
    decreases s.len(),
{
    if s.len() > 0 && text::space(s[0]) {
        let t = s.drop_first();
        let a = lemma_trim_start(t);
        assert(t.skip(a) =~= s.skip(a + 1));
        assert forall|i: int| 0 <= i < a + 1 implies text::space(#[trigger] s[i]) by {
            if i > 0 {
                assert(t[i - 1] == s[i]);
            }
        }
        if a < t.len() {
            assert(t[a] == s[a + 1]);
        }
        a + 1
    } else {
        assert(s.skip(0) =~= s);
        0
    }
}

proof fn lemma_trim_end(s: Seq<char>) -> (n: int)
    ensures
        0 <= n <= s.len(),
        text::trim_end(s) == s.take(n),
        forall|i: int| n <= i < s.len() ==> text::space(#[trigger] s[i]),
        n > 0 ==> !text::space(s[n - 1]),
    decreases s.len(),
{
    if s.len() > 0 && text::space(s.last()) {
        let t = s.drop_last();
        let n = lemma_trim_end(t);
        assert(t.take(n) =~= s.take(n));
        assert forall|i: int| n <= i < s.len() implies text::space(#[trigger] s[i]) by {
            if i < t.len() {
                assert(t[i] == s[i]);
            }
        }
        n
    } else {
        assert(s.take(s.len() as int) =~= s);
        s.len() as int
    }
}

/// A query text holds one query for each of its lines that is not blank, in order, without the white
/// space around it.
pub proof fn law_every_line_is_a_query(query: Seq<char>)
    ensures
        exists|at: Seq<int>|
            #![trigger at.len()]
            {
                &&& lists_exactly(
                    at,
                    text::split(query, '\n').len() as int,
                    |i: int| text::trim(text::split(query, '\n')[i]).len() > 0,
                )
                &&& at.len() == fetch::queries_of(query).len()
                &&& forall|k: int|
                    0 <= k < at.len() ==> #[trigger] fetch::queries_of(query)[k] == text::trim(text::split(query, '\n')[at[k]])
            },
{
    let parts = text::split(query, '\n');
    let at = lemma_parts(parts, parts.len());
    assert(at.len() == fetch::queries_of(query).len());
}

proof fn lemma_parts(parts: Seq<Seq<char>>, n: nat) -> (at: Seq<int>)
    requires
        n <= parts.len(),
    ensures
        lists_exactly(at, n as int, |i: int| text::trim(parts[i]).len() > 0),
        at.len() == fetch::trimmed_parts(parts, n).len(),
        forall|k: int| 0 <= k < at.len() ==> #[trigger] fetch::trimmed_parts(parts, n)[k] == text::trim(parts[at[k]]),
    decreases n,
{
    let p = |i: int| text::trim(parts[i]).len() > 0;
    if n == 0 {
        Seq::empty()
    } else {
        let before = lemma_parts(parts, (n - 1) as nat);
        lemma_lists_more(before, n - 1, p);
        if p(n - 1) {
            let at = before.push(n - 1);
            let rest = fetch::trimmed_parts(parts, (n - 1) as nat);
            assert forall|k: int| 0 <= k < at.len() implies #[trigger] fetch::trimmed_parts(parts, n)[k] == text::trim(
                parts[at[k]],
            ) by {
                if k < rest.len() {
                    assert(rest[k] == text::trim(parts[before[k]]));
                }
            }
            at
        } else {
            before
        }
    }
}

/// The title of the list of series names the query, or how many queries there are, and how many series
/// were found.
pub proof fn law_the_series_title_tells_the_query(query: Seq<char>, n: nat, dash: Seq<char>)
    ensures
        fetch::queries_of(query).len() == 1 ==> fetch::series_title(query, n, dash) == "PromQL: "@ + fetch::queries_of(query)[0]
            + " "@ + dash + " "@ + text::dec(n) + " series (Enter: view series)"@,
        fetch::queries_of(query).len() > 1 ==> fetch::series_title(query, n, dash) == "PromQL: "@ + (text::dec(
            fetch::queries_of(query).len(),
        ) + " metrics"@) + " "@ + dash + " "@ + text::dec(n) + " series (Enter: view series)"@,
{
}

/// The catalog table of the metrics that were found.
pub open spec fn catalog_table(entries: Seq<CatalogEntry>) -> TableView {
    model::table_of(catalog_header(), fetch::entry_rows(entries))
}

/// The catalog has a row for each metric, in order: its name, its kind, its unit and its temporality
/// (a dash where it has none), each under its header.
pub proof fn law_every_metric_is_described_under_its_headers(entries: Seq<CatalogEntry>, i: int)
    requires
        0 <= i < entries.len(),
    ensures
        catalog_table(entries).rows.len() == entries.len(),
        catalog_table(entries).rows[i].len() == 4,
        catalog_table(entries).header == seq!["Metric"@, "Kind"@, "Unit"@, "Temporality"@],
        under(catalog_table(entries), i, "Metric"@) == entries[i].metric@,
        under(catalog_table(entries), i, "Kind"@) == entries[i].kind@,
        under(catalog_table(entries), i, "Unit"@) == entries[i].unit@,
        entries[i].temporality matches Some(t) ==> under(catalog_table(entries), i, "Temporality"@) == t@,
        entries[i].temporality is None ==> under(catalog_table(entries), i, "Temporality"@) == "-"@,
{
    reveal_strlit("Metric");
    reveal_strlit("Kind");
    reveal_strlit("Unit");
    reveal_strlit("Temporality");
    let h = catalog_header();
    assert(h[0][0] == 'M' && h[1][0] == 'K' && h[2][0] == 'U' && h[3][0] == 'T');
    assert(h[0] == "Metric"@ && h[1] == "Kind"@ && h[2] == "Unit"@ && h[3] == "Temporality"@);
    assert(h.index_of("Metric"@) == 0);
    assert(h.index_of("Kind"@) == 1);
    assert(h.index_of("Unit"@) == 2);
    assert(h.index_of("Temporality"@) == 3);
}

/// Each column of a table is as wide as its widest cell, the header among them, where that fits the
/// machine's numbers.
pub proof fn law_a_column_is_as_wide_as_its_widest_cell(header: Seq<Seq<char>>, rows: Seq<Seq<Seq<char>>>, c: int)
    requires
        0 <= c < header.len(),
        model::widest(header, rows, rows.len(), c) <= usize::MAX,
    ensures
        model::table_of(header, rows).widths.len() == header.len(),
        crate::width::cells(header[c]) <= model::table_of(header, rows).widths[c],
        forall|i: int|
            0 <= i < rows.len() && c < rows[i].len() ==> crate::width::cells(#[trigger] rows[i][c]) <= model::table_of(
                header,
                rows,
            ).widths[c],
        model::table_of(header, rows).widths[c] == crate::width::cells(header[c]) || exists|i: int|
            0 <= i < rows.len() && c < rows[i].len() && model::table_of(header, rows).widths[c] == crate::width::cells(
                #[trigger] rows[i][c],
            ),
{
    lemma_widest(header, rows, rows.len(), c);
}

proof fn lemma_widest(header: Seq<Seq<char>>, rows: Seq<Seq<Seq<char>>>, n: nat, c: int)
    requires
        n <= rows.len(),
    ensures
        crate::width::cells(header[c]) <= model::widest(header, rows, n, c),
        forall|i: int|
            0 <= i < n && c < rows[i].len() ==> crate::width::cells(#[trigger] rows[i][c]) <= model::widest(header, rows, n, c),
        model::widest(header, rows, n, c) == crate::width::cells(header[c]) || exists|i: int|
            0 <= i < n && c < rows[i].len() && model::widest(header, rows, n, c) == crate::width::cells(#[trigger] rows[i][c]),
    decreases n,
{
    if n > 0 {
        lemma_widest(header, rows, (n - 1) as nat, c);
        let before = model::widest(header, rows, (n - 1) as nat, c);
        if !(c < rows[n - 1].len() && crate::width::cells(rows[n - 1][c]) > before) && before != crate::width::cells(header[c]) {
            let i = choose|i: int|
                0 <= i < n - 1 && c < rows[i].len() && before == crate::width::cells(#[trigger] rows[i][c]);
            assert(crate::width::cells(rows[i][c]) == before);
        }
    }
}

/// The Overview tells the bytes that are buffered, the bytes of the write-ahead log and the depth of the
/// ingest queue, and then of each table its rows, sealed and buffered, and its segments.
pub proof fn law_the_overview_tells_the_state_of_the_database(stats: OverviewStats, i: int)
    requires
        0 <= i < stats.tables@.len(),
    ensures
        fetch::overview_lines(stats).len() == 3 + stats.tables@.len(),
        fetch::overview_lines(stats)[0] == "buffer: "@ + text::dec(stats.buffer_bytes as nat) + " bytes"@,
        fetch::overview_lines(stats)[1] == "WAL: "@ + text::dec(stats.wal_bytes as nat) + " bytes"@,
        fetch::overview_lines(stats)[2] == "ingest queue: "@ + text::dec(stats.ingest_queue_depth as nat),
        ({
            let t = stats.tables@[i];
            let name = t.table@;
            fetch::overview_lines(stats)[3 + i] == (name + Seq::new(
                if name.len() < 24 { (24 - name.len()) as nat } else { 0 },
                |k: int| ' ',
            )) + " rows="@ + text::dec(t.segment_rows as nat) + "+"@ + text::dec(t.buffer_rows as nat) + " segments="@
                + text::dec(t.segment_count as nat)
        }),
{
    let name = stats.tables@[i].table@;
    assert(text::pad_end(name, 24) =~= name + Seq::new(
        if name.len() < 24 { (24 - name.len()) as nat } else { 0 },
        |k: int| ' ',
    ));
}

/// The list of traces has a row for each match, in order, that starts with the trace's id and tells its
/// start and the spans that matched; above it a line tells how many there are.
pub proof fn law_every_match_has_its_row(search: TraceSearch, start: i64, end: i64, cap: nat, warn: Seq<char>, dash: Seq<char>, i: int)
    requires
        0 <= i < search.matches@.len(),
    ensures
        fetch::match_lines(search.matches@).len() == search.matches@.len(),
        ({
            let m = search.matches@[i];
            fetch::match_lines(search.matches@)[i] == m.trace_id@ + "  "@ + time::timestamp_text(m.start_time_ns as int)
                + "  selected="@ + text::join(
                Seq::new(m.selected_span_ids@.len(), |k: int| m.selected_span_ids@[k]@),
                ","@,
            )
        }),
        fetch::trace_heading(search, start, end, cap, warn, dash).last() == text::dec(search.matches@.len())
            + " matching traces"@,
        search.effective_start_ns <= start ==> fetch::trace_heading(search, start, end, cap, warn, dash).len() == 1,
        search.effective_start_ns > start ==> fetch::trace_heading(search, start, end, cap, warn, dash).len() == 4,
{
    let m = search.matches@[i];
    assert(text::strs(m.selected_span_ids@) =~= Seq::new(m.selected_span_ids@.len(), |k: int| m.selected_span_ids@[k]@));
}

/// A search that had to be narrowed says so first: the cap, how much of the window is shown, from when
/// and until when.
pub proof fn law_a_narrowed_search_tells_its_window(search: TraceSearch, start: i64, end: i64, cap: nat, warn: Seq<char>, dash: Seq<char>)
    requires
        search.effective_start_ns > start,
        end >= search.effective_start_ns + 1_000_000_000,
    ensures
        fetch::trace_heading(search, start, end, cap, warn, dash)[0] == warn + " full range had more than "@ + text::dec(cap)
            + " traces "@ + dash + " showing the most recent "@ + time::human_text(
            ((end - search.effective_start_ns) / 1_000_000_000) as nat,
        ) + " ("@ + time::timestamp_text(search.effective_start_ns as int) + " .. "@ + time::timestamp_text(end as int)
            + ")."@,
{
}

/// The list of logs has a row for each entry, in order: its time, the start of its trace's id, its
/// service, and its body with the line breaks taken out.
pub proof fn law_every_log_entry_has_its_row(page: LogPage, i: int)
    requires
        0 <= i < page.entries@.len(),
    ensures
        fetch::entry_lines(page.entries@).len() == page.entries@.len(),
        ({
            let e = page.entries@[i];
            let trace = match e.trace_id {
                Some(id) => text::head(id@, 8),
                None => "--------"@,
            };
            let service = match e.service {
                Some(s) => s@,
                None => "-"@,
            };
            fetch::entry_lines(page.entries@)[i] == time::timestamp_text(e.time_ns as int) + " "@ + trace + " "@ + (service
                + Seq::new(if service.len() < 8 { (8 - service.len()) as nat } else { 0 }, |k: int| ' ')) + " "@ + Seq::new(
                e.body@.len(),
                |k: int| if e.body@[k] == '\n' { ' ' } else { e.body@[k] },
            )
        }),
{
    let e = page.entries@[i];
    let service = match e.service {
        Some(s) => s@,
        None => "-"@,
    };
    assert(text::pad_end(service, 8) =~= service + Seq::new(
        if service.len() < 8 { (8 - service.len()) as nat } else { 0 },
        |k: int| ' ',
    ));
    assert(text::replaced(e.body@, '\n', ' ') =~= Seq::new(
        e.body@.len(),
        |k: int| if e.body@[k] == '\n' { ' ' } else { e.body@[k] },
    ));
}

/// The start of an ASCII text is as many of its characters as are asked for, or all of them.
pub proof fn law_the_start_of_an_ascii_text(s: Seq<char>, n: nat)
    requires
        forall|i: int| 0 <= i < s.len() ==> #[trigger] s[i] <= '\u{7f}',
    ensures
        text::head(s, n as int) == if s.len() <= n { s } else { s.take(n as int) },
    decreases s.len(),
{
    lemma_ascii_bytes(s);
    if s.len() > n {
        let t = s.drop_last();
        assert forall|i: int| 0 <= i < t.len() implies #[trigger] t[i] <= '\u{7f}' by {
            assert(t[i] == s[i]);
        }
        law_the_start_of_an_ascii_text(t, n);
        if t.len() > n {
            assert(t.take(n as int) =~= s.take(n as int));
        } else {
            assert(t =~= s.take(n as int));
        }
    }
}

proof fn lemma_ascii_bytes(s: Seq<char>)
    requires
        forall|i: int| 0 <= i < s.len() ==> #[trigger] s[i] <= '\u{7f}',
    ensures
        text::byte_len(s) == s.len(),
    decreases s.len(),
{
    if s.len() > 0 {
        let t = s.drop_last();
        assert forall|i: int| 0 <= i < t.len() implies #[trigger] t[i] <= '\u{7f}' by {
            assert(t[i] == s[i]);
        }
        lemma_ascii_bytes(t);
        assert(s.last() == s[s.len() - 1]);
    }
}

/// The line above the logs tells how many there are, what was scanned for them, and whether an index
/// was used.
pub proof fn law_the_log_page_tells_its_cost(page: LogPage)
    ensures
        fetch::page_line(page) == "viewer rows="@ + text::dec(page.entries@.len()) + " scanned="@ + text::dec(
            page.rows_scanned as nat,
        ) + " bytes="@ + text::dec(page.bytes_scanned as nat) + " index="@ + (if page.used_index { "true"@ } else { "false"@ }),
{
}

/// The title of the logs tells the query, or the trace and the span that they are restricted to, and
/// whether they are an older page.
pub proof fn law_the_logs_title_tells_what_is_shown(query: Seq<char>, range: bool, c: CorrelationView, older: bool, dash: Seq<char>)
    ensures
        fetch::logs_title(query, false, None, false, dash) == "Log search: "@ + query,
        fetch::logs_title(query, true, None, false, dash) == "Log search + synthesized metric: "@ + query,
        fetch::logs_title(query, range, None, true, dash) == fetch::logs_title(query, range, None, false, dash)
            + " [older]"@,
        c.span_id is None ==> fetch::logs_title(query, range, Some(c), false, dash) == "Logs for trace "@ + text::head(
            c.trace_id,
            8,
        ) + " "@ + dash + " n/p: page"@,
        c.span_id matches Some(id) ==> fetch::logs_title(query, range, Some(c), false, dash) == "Logs for trace "@ + text::head(
            c.trace_id,
            8,
        ) + " span "@ + text::head(id, 8) + " "@ + dash + " n/p: page"@,
        fetch::logs_title(query, range, Some(c), true, dash) == fetch::logs_title(query, range, Some(c), false, dash)
            + " [older]"@,
{
    reveal_strlit("");
    assert(fetch::logs_title(query, false, None, false, dash) =~= "Log search: "@ + query);
    assert(fetch::logs_title(query, true, None, false, dash) =~= "Log search + synthesized metric: "@ + query);
    assert(fetch::logs_title(query, range, None, true, dash) =~= fetch::logs_title(query, range, None, false, dash)
        + " [older]"@);
    assert(fetch::logs_title(query, range, Some(c), true, dash) =~= fetch::logs_title(query, range, Some(c), false, dash)
        + " [older]"@);
    match c.span_id {
        Some(id) => {
            assert(fetch::logs_title(query, range, Some(c), false, dash) =~= "Logs for trace "@ + text::head(c.trace_id, 8)
                + " span "@ + text::head(id, 8) + " "@ + dash + " n/p: page"@);
        },
        None => {
            assert(fetch::logs_title(query, range, Some(c), false, dash) =~= "Logs for trace "@ + text::head(c.trace_id, 8)
                + " "@ + dash + " n/p: page"@);
        },
    }
}

/// A query over an absolute window reads from its earlier to its later end; else from as long ago as is
/// looked back to now. It never reads backwards.
pub proof fn law_a_query_reads_its_window(options: Options, now: i64)
    ensures
        options.window matches Some((a, b)) ==> fetch::window_of(options, now) == if a <= b { (a, b) } else { (b, a) },
        options.window is None ==> fetch::window_of(options, now).1 == now,
        options.window is None && options.lookback.nanos <= now - i64::MIN && options.lookback.nanos <= i64::MAX
            ==> fetch::window_of(options, now).1 - fetch::window_of(options, now).0 == options.lookback.nanos,
        fetch::window_of(options, now).0 <= fetch::window_of(options, now).1,
{
}

/// A query over an absolute window steps by whole seconds, one at least: a hundred and twenty steps fit into the
/// window where it is that long, and a step of one second more would leave fewer.
pub proof fn law_the_step_divides_the_window(options: Options, now: i64, start: i64, end: i64)
    requires
        options.window == Some((start, end)),
        start <= end,
        end - start <= i64::MAX,
    ensures
        fetch::step_of(options, now) % 1_000_000_000 == 0,
        fetch::step_of(options, now) >= 1_000_000_000,
        end - start >= 120_000_000_000 ==> 120 * fetch::step_of(options, now) <= end - start < 120 * fetch::step_of(options, now)
            + 121_000_000_000,
        end - start < 120_000_000_000 ==> fetch::step_of(options, now) == 1_000_000_000,
{
    let secs = fetch::span_secs(fetch::window_of(options, now));
    assert(secs == (end - start) / 1_000_000_000);
}

/// A query over a rolling window has the step of its preset.
pub proof fn law_a_rolling_query_steps_by_its_preset(options: Options, now: i64)
    requires
        options.window is None,
        options.step.nanos <= u64::MAX,
    ensures
        fetch::step_of(options, now) == options.step.nanos,
{
}

/// The attribute table of a unit's keys.
pub open spec fn keys_table(unit: UnitReport, db_wide: bool, promoted: Seq<Seq<char>>) -> TableView {
    model::table_of(attributes::table_header(), attributes::unit_view(unit, db_wide, promoted))
}

proof fn lemma_attribute_columns()
    ensures
        attributes::table_header().len() == 10,
        attributes::table_header().index_of("Key"@) == 0,
        attributes::table_header().index_of("Scope"@) == 1,
        attributes::table_header().index_of("on"@) == 2,
        attributes::table_header().index_of("promote"@) == 3,
        attributes::table_header().index_of("index@"@) == 4,
        attributes::table_header().index_of("Cov"@) == 5,
        attributes::table_header().index_of("Distinct"@) == 6,
        attributes::table_header().index_of("sigma p50"@) == 7,
        attributes::table_header().index_of("est B/row"@) == 8,
        attributes::table_header().index_of("Rows"@) == 9,
{
    reveal_strlit("Key");
    reveal_strlit("Scope");
    reveal_strlit("on");
    reveal_strlit("promote");
    reveal_strlit("index@");
    reveal_strlit("Cov");
    reveal_strlit("Distinct");
    reveal_strlit("sigma p50");
    reveal_strlit("est B/row");
    reveal_strlit("Rows");
    let h = attributes::table_header();
    assert(h[0][0] == 'K' && h[1][0] == 'S' && h[2][0] == 'o' && h[3][0] == 'p' && h[4][0] == 'i');
    assert(h[5][0] == 'C' && h[6][0] == 'D' && h[7][0] == 's' && h[8][0] == 'e' && h[9][0] == 'R');
    assert(h[0] == "Key"@ && h[1] == "Scope"@ && h[2] == "on"@ && h[3] == "promote"@ && h[4] == "index@"@);
    assert(h[5] == "Cov"@ && h[6] == "Distinct"@ && h[7] == "sigma p50"@ && h[8] == "est B/row"@ && h[9] == "Rows"@);
}

/// Each key of a unit has one row, which shows what was measured of it under the headers; the rows stand
/// in the order of the keys' cost.
pub proof fn law_every_key_is_measured_under_its_headers(unit: UnitReport, db_wide: bool, promoted: Seq<Seq<char>>, i: int)
    requires
        0 <= i < unit.keys@.len() <= usize::MAX,
    ensures
        ({
            let table = keys_table(unit, db_wide, promoted);
            let at = attributes::ranked(unit.keys@, unit.keys@.len());
            let key = unit.keys@[at[i] as int];
            &&& table.rows.len() == unit.keys@.len()
            &&& at[i] < unit.keys@.len()
            &&& under(table, i, "Key"@) == key.name@
            &&& under(table, i, "Scope"@) == key.scope_column@
            &&& under(table, i, "on"@) == if promoted.contains(key.name@) { "yes"@ } else { ""@ }
            &&& under(table, i, "promote"@) == if db_wide && key.scope == AttrScope::Attributes {
                key.promote@
            } else {
                "-"@
            }
            &&& key.index matches Some(t) ==> under(table, i, "index@"@) == t@
            &&& key.index is None ==> under(table, i, "index@"@) == "-"@
            &&& under(table, i, "Cov"@) == key.coverage@
            &&& under(table, i, "Distinct"@) == key.distinct@
            &&& key.sigma matches Some(t) ==> under(table, i, "sigma p50"@) == t@
            &&& key.sigma is None ==> under(table, i, "sigma p50"@) == "-"@
            &&& under(table, i, "est B/row"@) == key.bytes_per_row@
            &&& under(table, i, "Rows"@) == key.rows_present@
        }),
{
    lemma_attribute_columns();
    attributes::law_keys_are_ranked_by_cost(unit.keys@, unit.keys@.len());
    let at = attributes::ranked(unit.keys@, unit.keys@.len());
    assert(at.contains(at[i]));
}

/// A key never stands behind one that costs less.
pub proof fn law_costly_keys_stand_first(unit: UnitReport, i: int, j: int)
    requires
        0 <= i < j < unit.keys@.len() <= usize::MAX,
    ensures
        ({
            let at = attributes::ranked(unit.keys@, unit.keys@.len());
            &&& unit.keys@[at[i] as int].cost >= unit.keys@[at[j] as int].cost
            &&& at[i] != at[j]
        }),
{
    attributes::law_keys_are_ranked_by_cost(unit.keys@, unit.keys@.len());
    let at = attributes::ranked(unit.keys@, unit.keys@.len());
    let x = unit.keys@[at[i] as int];
    let y = unit.keys@[at[j] as int];
    assert(attributes::ahead(x, y) || (!attributes::ahead(y, x) && at[i] < at[j]));
    if at[i] == at[j] {
        crate::completion::lemma_before_is_strict(x.name@, x.name@, x.name@);
    }
}

/// The whole database comes first, under the title of all tables; each table with segments follows,
/// behind a blank row and under its own name. A table without segments is left out.
pub proof fn law_tables_follow_the_whole_database(report: Report, promoted: Seq<Seq<char>>, n: nat)
    requires
        n < report.tables@.len(),
    ensures
        ({
            let g = report.global;
            let first = attributes::table_rows(report, promoted, 0);
            let before = attributes::table_rows(report, promoted, n);
            let all = attributes::table_rows(report, promoted, n + 1);
            let unit = report.tables@[n as int];
            let own = attributes::unit_view(unit, false, promoted);
            let title = unit.label@ + " "@ + "-"@ + " "@ + text::dec(unit.segments as nat) + " segment"@ + (if unit.segments == 1 {
                ""@
            } else {
                "s"@
            }) + ", "@ + unit.rows@ + " rows, "@ + text::dec(unit.keys@.len()) + " keys"@;
            &&& first.len() == 2 + attributes::unit_view(g, true, promoted).len()
            &&& first[0][0] == "ALL TABLES"@ + " "@ + "--"@ + " "@ + text::dec(g.segments as nat) + " segment"@ + (
            if g.segments == 1 { ""@ } else { "s"@ }) + ", "@ + g.rows@ + " rows, "@ + text::dec(g.keys@.len()) + " keys"@
            &&& first[1] == attributes::table_header()
            &&& first.skip(2) == attributes::unit_view(g, true, promoted)
            &&& unit.segments == 0 ==> all == before
            &&& unit.segments > 0 ==> all.len() == before.len() + 3 + own.len() && all.take(before.len() as int) == before
                && all[before.len() as int] == Seq::new(10, |k: int| Seq::<char>::empty()) && all[before.len() as int + 1][0] == title
                && all[before.len() as int + 2] == attributes::table_header() && all.skip(before.len() as int + 3) == own
        }),
{
    let g = report.global;
    let first = attributes::table_rows(report, promoted, 0);
    assert(first.skip(2) =~= attributes::unit_view(g, true, promoted));
    let before = attributes::table_rows(report, promoted, n);
    let all = attributes::table_rows(report, promoted, n + 1);
    let unit = report.tables@[n as int];
    if unit.segments > 0 {
        assert(all.take(before.len() as int) =~= before);
        assert(all[before.len() as int] =~= Seq::new(10, |k: int| Seq::<char>::empty()));
        assert(all.skip(before.len() as int + 3) =~= attributes::unit_view(unit, false, promoted));
    }
}

/// The notes tell the range that was measured; where nothing is sealed in it, that; how many frames of
/// the write-ahead log were left out; and each segment that could not be read.
pub proof fn law_the_notes_tell_what_was_measured(report: Report, k: int)
    requires
        0 <= k < report.segments_skipped@.len(),
    ensures
        ({
            let all = attributes::notes(report);
            let empty: int = if report.global.segments == 0 { 1 } else { 0 };
            let pending: int = if report.pending_wal_frames > 0 { 1 } else { 0 };
            &&& all.len() == 1 + empty + pending + report.segments_skipped@.len()
            &&& report.range is None ==> all[0] == "range: all sealed segments"@
            &&& report.range matches Some((start, end)) ==> all[0] == "range: "@ + time::datetime_text(start as int) + " - "@
                + time::datetime_text(end as int)
            &&& report.global.segments == 0 ==> all[1]
                == "No sealed segments in this range. Widen the time range, or flush the writer."@
            &&& report.pending_wal_frames > 0 ==> all[1 + empty] == "NOT MEASURED: "@ + text::dec(
                report.pending_wal_frames as nat,
            ) + " unsealed WAL frame(s) - buffered rows are in no segment yet."@
            &&& all[1 + empty + pending + k] == "SEGMENT SKIPPED: "@ + report.segments_skipped@[k]@
        }),
{
}

/// The title of the attribute pane tells how many keys there are over how many segments and rows.
pub proof fn law_the_attribute_title_counts(report: Report)
    ensures
        attributes::pane_title(report) == "Attributes: "@ + text::dec(report.global.keys@.len()) + " key"@ + (
        if report.global.keys@.len() == 1 { ""@ } else { "s"@ }) + " over "@ + text::dec(report.global.segments as nat)
            + " sealed segment"@ + (if report.global.segments == 1 { ""@ } else { "s"@ }) + ", "@ + report.global.rows@
            + " rows"@ + (if report.sampled { " (key map sampled)"@ } else { ""@ }),
{
}

} // verus!
