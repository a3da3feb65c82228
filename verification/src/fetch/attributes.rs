//! The Overview's attribute pane: the keys of every scan unit with their verdicts.

use vstd::prelude::*;

use crate::completion;
use crate::model;
use crate::model::{AttrRow, DetailPane, DetailStyle, KindView, PaneTable, TableData};
use crate::text;
use crate::time;

verus! {

/// Whether the pane says that the measurement is on its way.
pub open spec fn is_placeholder(pane: DetailPane) -> bool {
    &&& pane.title@ == "Attributes"@
    &&& text::strs(pane.lines@) == seq!["measuring (scanning the sealed segments in range)..."@]
    &&& pane.waterfall is None
    &&& pane.table is None
    &&& pane.style == DetailStyle::Pane
}

/// The attribute pane before the scan that fills it has landed: it says why the pane is empty, and
/// does not imply that there is nothing to measure.
pub fn attribute_placeholder() -> (r: DetailPane)
    ensures
        is_placeholder(r),
{
    let mut lines: Vec<String> = Vec::new();
    lines.push(text::owned("measuring (scanning the sealed segments in range)..."));
    assert(text::strs(lines@) =~= seq!["measuring (scanning the sealed segments in range)..."@]);
    DetailPane { title: text::owned("Attributes"), lines, waterfall: None, table: None, style: DetailStyle::Pane }
}

/// The attribute pane where the scan failed: it says why there are no numbers. The state of the
/// database beside it is an answer of its own, so the failure stays in the pane.
pub fn attribute_failure(error: &str) -> (r: DetailPane)
    ensures
        r.title@ == "Attributes"@,
        text::strs(r.lines@) == seq!["not measured - "@ + error@],
        r.waterfall is None,
        r.table is None,
        r.style == DetailStyle::Pane,
{
    let mut lines: Vec<String> = Vec::new();
    lines.push(text::cat("not measured - ", error));
    assert(text::strs(lines@) =~= seq!["not measured - "@ + error@]);
    DetailPane { title: text::owned("Attributes"), lines, waterfall: None, table: None, style: DetailStyle::Pane }
}

/// What an attribute key belongs to.
#[derive(Debug, Clone, Copy, PartialEq, Eq, Structural)]
pub enum AttrScope {
    Attributes,
    Resource,
    Scope,
}

/// What the scan measured of a key within a unit. The figures are text; `cost` orders the keys by
/// what a promoted column of theirs would take.
#[derive(Debug)]
pub struct KeyReport {
    pub name: String,
    pub scope: AttrScope,
    pub scope_column: String,
    pub cost: u64,
    /// Whether to promote the key, for the whole database.
    pub promote: String,
    /// From which scale on an index of the key pays, within the unit.
    pub index: Option<String>,
    pub coverage: String,
    pub distinct: String,
    pub sigma: Option<String>,
    pub bytes_per_row: String,
    pub rows_present: String,
}

/// What the scan measured of a table, or of all of them.
#[derive(Debug)]
pub struct UnitReport {
    pub label: String,
    pub segments: u64,
    pub rows: String,
    pub keys: Vec<KeyReport>,
}

/// What the scan measured.
#[derive(Debug)]
pub struct Report {
    pub global: UnitReport,
    pub tables: Vec<UnitReport>,
    pub range: Option<(i64, i64)>,
    pub pending_wal_frames: u64,
    pub segments_skipped: Vec<String>,
    /// Whether the keys were sampled.
    pub sampled: bool,
}

/// `s` for a count that is not one.
pub open spec fn plural(n: int) -> Seq<char> {
    if n == 1 { ""@ } else { "s"@ }
}

fn plural_of(n: u64) -> (r: &'static str)
    ensures
        r@ == plural(n as int),
{
    if n == 1 { "" } else { "s" }
}

/// The title of the attribute pane.
pub open spec fn pane_title(report: Report) -> Seq<char> {
    let g = report.global;
    "Attributes: "@ + text::dec(g.keys@.len()) + " key"@ + plural(g.keys@.len() as int) + " over "@ + text::dec(
        g.segments as nat,
    ) + " sealed segment"@ + plural(g.segments as int) + ", "@ + g.rows@ + " rows"@ + if report.sampled {
        " (key map sampled)"@
    } else {
        ""@
    }
}

/// The lines for the segments that could not be read.
pub open spec fn skipped_lines(skipped: Seq<String>) -> Seq<Seq<char>> {
    skipped.map_values(|s: String| "SEGMENT SKIPPED: "@ + s@)
}

/// What was measured, and what the measurement could not cover.
pub open spec fn notes(report: Report) -> Seq<Seq<char>> {
    seq![
        match report.range {
            Some((start, end)) => "range: "@ + time::datetime_text(start as int) + " - "@ + time::datetime_text(
                end as int,
            ),
            None => "range: all sealed segments"@,
        },
    ] + (if report.global.segments == 0 {
        seq!["No sealed segments in this range. Widen the time range, or flush the writer."@]
    } else {
        Seq::empty()
    }) + (if report.pending_wal_frames > 0 {
        seq![
            "NOT MEASURED: "@ + text::dec(report.pending_wal_frames as nat)
                + " unsealed WAL frame(s) - buffered rows are in no segment yet."@,
        ]
    } else {
        Seq::empty()
    }) + skipped_lines(report.segments_skipped@)
}

/// What was measured, and what the measurement could not cover. These lines stand above the table,
/// since they qualify its numbers.
pub fn attribute_notes(report: &Report) -> (r: Vec<String>)
    ensures
        text::strs(r@) == notes(*report),
{
    let mut out: Vec<String> = Vec::new();
    match report.range {
        Some((start, end)) => {
            let mut line = text::cat3("range: ", &time::format_datetime_ns(start), " - ");
            line.append(&time::format_datetime_ns(end));
            out.push(line);
        },
        None => {
            out.push(text::owned("range: all sealed segments"));
        },
    }
    if report.global.segments == 0 {
        out.push(text::owned("No sealed segments in this range. Widen the time range, or flush the writer."));
    }
    if report.pending_wal_frames > 0 {
        out.push(
            text::cat3(
                "NOT MEASURED: ",
                &text::dec_string(report.pending_wal_frames),
                " unsealed WAL frame(s) - buffered rows are in no segment yet.",
            ),
        );
    }
    let ghost first = text::strs(out@);
    let ghost all = skipped_lines(report.segments_skipped@);
    assert(first + all =~= notes(*report));
    let n: usize = report.segments_skipped.len();
    let mut i: usize = 0;
    assert(first + all.take(0) =~= first);
    while i < n
        invariant
            n == report.segments_skipped@.len(),
            i <= n,
            all == skipped_lines(report.segments_skipped@),
            text::strs(out@) == first + all.take(i as int),
        decreases n - i,
    {
        let ghost before = text::strs(out@);
        text::add_line(&mut out, text::cat("SEGMENT SKIPPED: ", &report.segments_skipped[i]));
        i += 1;
        assert(first + all.take(i as int) =~= before.push(all[i - 1]));
    }
    assert(all.take(n as int) =~= all);
    out
}

/// Whether `a` stands ahead of `b`: it costs more, or as much and its name comes first.
pub open spec fn ahead(a: KeyReport, b: KeyReport) -> bool {
    a.cost > b.cost || (a.cost == b.cost && completion::before(a.name@, b.name@))
}

/// The positions `s` with position `x` put in behind every key that it is not ahead of.
pub open spec fn placed(keys: Seq<KeyReport>, s: Seq<usize>, x: usize) -> Seq<usize>
    decreases s.len(),
{
    if s.len() > 0 && ahead(keys[x as int], keys[s.last() as int]) {
        placed(keys, s.drop_last(), x).push(s.last())
    } else {
        s.push(x)
    }
}

/// The positions of the first `n` keys, in the order in which they are shown.
pub open spec fn ranked(keys: Seq<KeyReport>, n: nat) -> Seq<usize>
    decreases n,
{
    if n == 0 {
        Seq::empty()
    } else {
        placed(keys, ranked(keys, (n - 1) as nat), (n - 1) as usize)
    }
}

/// Whether the positions are those of the first `n` keys, each once, in order: no key is ahead of one
/// that stands before it, and keys that tie keep their places.
pub open spec fn in_rank(keys: Seq<KeyReport>, s: Seq<usize>) -> bool {
    forall|i: int, j: int|
        #![trigger s[i], s[j]]
        0 <= i < j < s.len() ==> ahead(keys[s[i] as int], keys[s[j] as int]) || (!ahead(
            keys[s[j] as int],
            keys[s[i] as int],
        ) && s[i] < s[j])
}

proof fn lemma_ahead(a: KeyReport, b: KeyReport, c: KeyReport)
    ensures
        ahead(a, b) && ahead(b, c) ==> ahead(a, c),
        ahead(a, b) ==> !ahead(b, a),
        ahead(a, b) && !ahead(c, b) ==> ahead(a, c),
        !ahead(b, a) && ahead(b, c) ==> ahead(a, c),
{
    completion::lemma_before_is_strict(a.name@, b.name@, c.name@);
    completion::lemma_before_is_strict(b.name@, c.name@, a.name@);
    completion::lemma_before_is_strict(a.name@, c.name@, b.name@);
    completion::lemma_before_is_strict(c.name@, b.name@, a.name@);
    completion::lemma_before_is_strict(b.name@, a.name@, c.name@);
    completion::lemma_before_is_strict(c.name@, a.name@, b.name@);
}

proof fn lemma_placed(keys: Seq<KeyReport>, s: Seq<usize>, x: usize)
    requires
        in_rank(keys, s),
        forall|i: int| 0 <= i < s.len() ==> #[trigger] s[i] < x,
    ensures
        in_rank(keys, placed(keys, s, x)),
        placed(keys, s, x).len() == s.len() + 1,
        forall|y: usize| #[trigger] placed(keys, s, x).contains(y) <==> s.contains(y) || y == x,
    decreases s.len(),
{
    let r = placed(keys, s, x);
    if s.len() > 0 && ahead(keys[x as int], keys[s.last() as int]) {
        let t = s.drop_last();
        let last = s.last();
        lemma_placed(keys, t, x);
        let p = placed(keys, t, x);
        assert forall|i: int, j: int|
            #![trigger r[i], r[j]]
            0 <= i < j < r.len() implies ahead(keys[r[i] as int], keys[r[j] as int]) || (!ahead(
            keys[r[j] as int],
            keys[r[i] as int],
        ) && r[i] < r[j]) by {
            if j < p.len() {
                assert(r[i] == p[i] && r[j] == p[j]);
            } else {
                assert(r[i] == p[i] && r[j] == last);
                assert(p.contains(p[i]));
                if p[i] != x {
                    let k = choose|k: int| 0 <= k < t.len() && t[k] == p[i];
                    assert(s[k] == p[i] && s[s.len() - 1] == last);
                }
            }
        }
        assert forall|y: usize| #[trigger] r.contains(y) <==> s.contains(y) || y == x by {
            if r.contains(y) {
                let i = choose|i: int| 0 <= i < r.len() && r[i] == y;
                if i < p.len() {
                    assert(p.contains(p[i]));
                    if y != x {
                        let k = choose|k: int| 0 <= k < t.len() && t[k] == y;
                        assert(s[k] == y);
                    }
                } else {
                    assert(s[s.len() - 1] == y);
                }
            }
            if s.contains(y) {
                let k = choose|k: int| 0 <= k < s.len() && s[k] == y;
                if k < t.len() {
                    assert(t[k] == y);
                    assert(p.contains(y));
                    let i = choose|i: int| 0 <= i < p.len() && p[i] == y;
                    assert(r[i] == y);
                } else {
                    assert(r[p.len() as int] == y);
                }
            }
            if y == x {
                assert(p.contains(x));
                let i = choose|i: int| 0 <= i < p.len() && p[i] == x;
                assert(r[i] == x);
            }
        }
    } else {
        assert forall|i: int, j: int|
            #![trigger r[i], r[j]]
            0 <= i < j < r.len() implies ahead(keys[r[i] as int], keys[r[j] as int]) || (!ahead(
            keys[r[j] as int],
            keys[r[i] as int],
        ) && r[i] < r[j]) by {
            if j == s.len() {
                let last = s[s.len() - 1];
                lemma_ahead(keys[s[i] as int], keys[last as int], keys[x as int]);
                lemma_ahead(keys[x as int], keys[s[i] as int], keys[last as int]);
                assert(s[i] == r[i]);
            } else {
                assert(s[i] == r[i] && s[j] == r[j]);
            }
        }
        assert forall|y: usize| #[trigger] r.contains(y) <==> s.contains(y) || y == x by {
            if s.contains(y) {
                let k = choose|k: int| 0 <= k < s.len() && s[k] == y;
                assert(r[k] == y);
            }
            assert(r[s.len() as int] == x);
        }
    }
}

/// The keys of a unit are shown with the most expensive first, and by name where they cost the same;
/// every key is shown once.
pub proof fn law_keys_are_ranked_by_cost(keys: Seq<KeyReport>, n: nat)
    requires
        n <= usize::MAX,
    ensures
        in_rank(keys, ranked(keys, n)),
        ranked(keys, n).len() == n,
        forall|y: usize| #[trigger] ranked(keys, n).contains(y) <==> y < n,
    decreases n,
{
    if n > 0 {
        let m = (n - 1) as nat;
        law_keys_are_ranked_by_cost(keys, m);
        let s = ranked(keys, m);
        assert forall|i: int| 0 <= i < s.len() implies #[trigger] s[i] < (n - 1) as usize by {
            assert(s.contains(s[i]));
        }
        lemma_placed(keys, s, (n - 1) as usize);
    }
}

fn is_ahead(a: &KeyReport, b: &KeyReport) -> (r: bool)
    ensures
        r == ahead(*a, *b),
{
    a.cost > b.cost || (a.cost == b.cost && completion::is_before(
        &text::chars_of(&a.name),
        &text::chars_of(&b.name),
    ))
}

fn place(keys: &Vec<KeyReport>, s: &mut Vec<usize>, x: usize)
    requires
        x < keys@.len(),
        forall|i: int| 0 <= i < old(s)@.len() ==> #[trigger] old(s)@[i] < keys@.len(),
    ensures
        final(s)@ == placed(keys@, old(s)@, x),
{
    let ghost all = s@;
    let mut k: usize = s.len();
    assert(all.take(k as int) =~= all);
    assert(placed(keys@, all, x) =~= placed(keys@, all.take(k as int), x) + all.skip(k as int));
    while k > 0 && is_ahead(&keys[x], &keys[s[k - 1]])
        invariant
            k <= s@.len(),
            s@ == all,
            x < keys@.len(),
            forall|i: int| 0 <= i < all.len() ==> #[trigger] all[i] < keys@.len(),
            placed(keys@, all, x) == placed(keys@, all.take(k as int), x) + all.skip(k as int),
        decreases k,
    {
        let ghost head = all.take(k as int);
        assert(head.last() == all[k - 1]);
        assert(head.drop_last() =~= all.take(k - 1));
        assert(placed(keys@, all.take(k - 1), x).push(head.last()) + all.skip(k as int) =~= placed(
            keys@,
            all.take(k - 1),
            x,
        ) + all.skip(k - 1));
        k -= 1;
    }
    s.insert(k, x);
    assert(s@ =~= all.take(k as int).push(x) + all.skip(k as int));
}

/// The cells of a key's row. Only the section of the whole database says whether to promote a key,
/// and only of a record attribute: nothing else can be promoted.
pub open spec fn key_row(key: KeyReport, db_wide: bool, promoted: Seq<Seq<char>>) -> Seq<Seq<char>> {
    seq![
        key.name@,
        key.scope_column@,
        if promoted.contains(key.name@) { "yes"@ } else { ""@ },
        if db_wide && key.scope == AttrScope::Attributes { key.promote@ } else { "-"@ },
        text::or(key.index, "-"@),
        key.coverage@,
        key.distinct@,
        text::or(key.sigma, "-"@),
        key.bytes_per_row@,
        key.rows_present@,
    ]
}

/// The rows of the keys at the positions.
pub open spec fn key_rows(keys: Seq<KeyReport>, order: Seq<usize>, db_wide: bool, promoted: Seq<Seq<char>>) -> Seq<
    Seq<Seq<char>>,
> {
    order.map_values(|i: usize| key_row(keys[i as int], db_wide, promoted))
}

/// The rows of a unit's keys.
pub open spec fn unit_view(unit: UnitReport, db_wide: bool, promoted: Seq<Seq<char>>) -> Seq<Seq<Seq<char>>> {
    key_rows(unit.keys@, ranked(unit.keys@, unit.keys@.len()), db_wide, promoted)
}

fn row_of(key: &KeyReport, db_wide: bool, promoted: &Vec<String>) -> (r: Vec<String>)
    ensures
        text::strs(r@) == key_row(*key, db_wide, text::strs(promoted@)),
{
    let mut row: Vec<String> = Vec::new();
    row.push(key.name.clone());
    row.push(key.scope_column.clone());
    row.push(text::owned(if completion::has_name(promoted, &key.name) { "yes" } else { "" }));
    row.push(if db_wide && key.scope == AttrScope::Attributes { key.promote.clone() } else { text::owned("-") });
    row.push(text::owned(text::or_else(&key.index, "-")));
    row.push(key.coverage.clone());
    row.push(key.distinct.clone());
    row.push(text::owned(text::or_else(&key.sigma, "-")));
    row.push(key.bytes_per_row.clone());
    row.push(key.rows_present.clone());
    assert(text::strs(row@) =~= key_row(*key, db_wide, text::strs(promoted@)));
    row
}

/// The rows of a unit's keys. The verdicts are those of the unit: whether to promote a key is a
/// question to the whole database, so a table's rows leave it open.
pub fn unit_rows(unit: &UnitReport, db_wide: bool, promoted: &Vec<String>) -> (r: Vec<Vec<String>>)
    ensures
        model::rows_view(r@) == unit_view(*unit, db_wide, text::strs(promoted@)),
{
    let ghost keys = unit.keys@;
    let n: usize = unit.keys.len();
    let mut order: Vec<usize> = Vec::new();
    let mut i: usize = 0;
    while i < n
        invariant
            n == unit.keys@.len(),
            keys == unit.keys@,
            i <= n,
            order@ == ranked(keys, i as nat),
            forall|j: int| 0 <= j < order@.len() ==> #[trigger] order@[j] < n,
        decreases n - i,
    {
        place(&unit.keys, &mut order, i);
        i += 1;
        proof {
            law_keys_are_ranked_by_cost(keys, i as nat);
        }
        assert forall|j: int| 0 <= j < order@.len() implies #[trigger] order@[j] < n by {
            assert(ranked(keys, i as nat).contains(order@[j]));
        }
    }
    let ghost all = unit_view(*unit, db_wide, text::strs(promoted@));
    let m: usize = order.len();
    let mut rows: Vec<Vec<String>> = Vec::new();
    let mut k: usize = 0;
    assert(model::rows_view(rows@) =~= all.take(0));
    while k < m
        invariant
            m == order@.len(),
            k <= m,
            n == unit.keys@.len(),
            forall|j: int| 0 <= j < order@.len() ==> #[trigger] order@[j] < n,
            all == key_rows(unit.keys@, order@, db_wide, text::strs(promoted@)),
            model::rows_view(rows@) == all.take(k as int),
        decreases m - k,
    {
        let row = row_of(&unit.keys[order[k]], db_wide, promoted);
        let ghost before = rows@;
        rows.push(row);
        k += 1;
        assert(model::rows_view(rows@) =~= model::rows_view(before).push(all[k - 1]));
        assert(all.take(k as int) =~= all.take(k - 1).push(all[k - 1]));
    }
    assert(all.take(m as int) =~= all);
    rows
}

/// The column names of the attribute table.
pub open spec fn table_header() -> Seq<Seq<char>> {
    seq![
        "Key"@,
        "Scope"@,
        "on"@,
        "promote"@,
        "index@"@,
        "Cov"@,
        "Distinct"@,
        "sigma p50"@,
        "est B/row"@,
        "Rows"@,
    ]
}

fn header() -> (r: Vec<String>)
    ensures
        text::strs(r@) == table_header(),
{
    let mut row: Vec<String> = Vec::new();
    row.push(text::owned("Key"));
    row.push(text::owned("Scope"));
    row.push(text::owned("on"));
    row.push(text::owned("promote"));
    row.push(text::owned("index@"));
    row.push(text::owned("Cov"));
    row.push(text::owned("Distinct"));
    row.push(text::owned("sigma p50"));
    row.push(text::owned("est B/row"));
    row.push(text::owned("Rows"));
    assert(text::strs(row@) =~= table_header());
    row
}

/// A row with one label in its first cell.
pub open spec fn banner(columns: nat, label: Seq<char>) -> Seq<Seq<char>> {
    Seq::new(columns, |i: int| if i == 0 { label } else { Seq::empty() })
}

/// A row that spans the table with one label in its first cell.
pub fn banner_row(columns: usize, label: String) -> (r: Vec<String>)
    requires
        columns > 0,
    ensures
        text::strs(r@) == banner(columns as nat, label@),
{
    let ghost first = label@;
    let mut row: Vec<String> = Vec::new();
    row.push(label);
    let mut i: usize = 1;
    while i < columns
        invariant
            1 <= i <= columns,
            row@.len() == i,
            row@[0]@ == first,
            forall|j: int| 1 <= j < i ==> (#[trigger] row@[j])@ == Seq::<char>::empty(),
        decreases columns - i,
    {
        let cell = String::new();
        assert(cell@ =~= Seq::<char>::empty());
        row.push(cell);
        i += 1;
    }
    assert(text::strs(row@) =~= banner(columns as nat, first));
    row
}

/// The title of a section.
pub open spec fn section_title(unit: UnitReport, db_wide: bool) -> Seq<char> {
    (if db_wide { "ALL TABLES"@ } else { unit.label@ }) + " "@ + (if db_wide { "--"@ } else { "-"@ }) + " "@ + text::dec(
        unit.segments as nat,
    ) + " segment"@ + plural(unit.segments as int) + ", "@ + unit.rows@ + " rows, "@ + text::dec(unit.keys@.len())
        + " keys"@
}

/// The rows of a section: its title, its column names, and its keys.
pub open spec fn section_rows(unit: UnitReport, db_wide: bool, promoted: Seq<Seq<char>>) -> Seq<Seq<Seq<char>>> {
    seq![banner(10, section_title(unit, db_wide)), table_header()] + unit_view(unit, db_wide, promoted)
}

/// What rows of keys are.
pub open spec fn key_kinds(rows: Seq<Seq<Seq<char>>>) -> Seq<KindView> {
    rows.map_values(|row: Seq<Seq<char>>| KindView::Key(row[0]))
}

/// What the rows of a section are.
pub open spec fn section_kinds(unit: UnitReport, db_wide: bool, promoted: Seq<Seq<char>>) -> Seq<KindView> {
    seq![KindView::Section, KindView::Header] + key_kinds(unit_view(unit, db_wide, promoted))
}

/// The rows of the table with the sections of the first `n` tables: the section of the whole database
/// leads, and each later one has a blank row before it. A table without segments has no section.
pub open spec fn table_rows(report: Report, promoted: Seq<Seq<char>>, n: nat) -> Seq<Seq<Seq<char>>>
    decreases n,
{
    if n == 0 {
        section_rows(report.global, true, promoted)
    } else {
        let rows = table_rows(report, promoted, (n - 1) as nat);
        let unit = report.tables@[n - 1];
        if unit.segments > 0 {
            rows.push(banner(10, Seq::empty())) + section_rows(unit, false, promoted)
        } else {
            rows
        }
    }
}

/// What the rows of the table are.
pub open spec fn table_kinds(report: Report, promoted: Seq<Seq<char>>, n: nat) -> Seq<KindView>
    decreases n,
{
    if n == 0 {
        section_kinds(report.global, true, promoted)
    } else {
        let kinds = table_kinds(report, promoted, (n - 1) as nat);
        let unit = report.tables@[n - 1];
        if unit.segments > 0 {
            kinds.push(KindView::Blank) + section_kinds(unit, false, promoted)
        } else {
            kinds
        }
    }
}

/// Every row of the table has its kind, and the key that a row of a key stands for is the one in its
/// first cell.
pub proof fn law_a_key_row_shows_its_key(report: Report, promoted: Seq<Seq<char>>, n: nat)
    ensures
        table_rows(report, promoted, n).len() == table_kinds(report, promoted, n).len(),
        forall|i: int|
            0 <= i < table_kinds(report, promoted, n).len() ==> ((
            #[trigger] table_kinds(report, promoted, n)[i]) matches KindView::Key(key) ==> table_rows(
                report,
                promoted,
                n,
            )[i][0] == key),
    decreases n,
{
    if n > 0 {
        law_a_key_row_shows_its_key(report, promoted, (n - 1) as nat);
    }
}

fn add_section(
    rows: &mut Vec<Vec<String>>,
    kinds: &mut Vec<AttrRow>,
    unit: &UnitReport,
    db_wide: bool,
    promoted: &Vec<String>,
)
    ensures
        model::rows_view(final(rows)@) == model::rows_view(old(rows)@) + section_rows(
            *unit,
            db_wide,
            text::strs(promoted@),
        ),
        model::kinds_view(final(kinds)@) == model::kinds_view(old(kinds)@) + section_kinds(
            *unit,
            db_wide,
            text::strs(promoted@),
        ),
{
    let mut title = text::owned(if db_wide { "ALL TABLES" } else { unit.label.as_str() });
    title.append(" ");
    title.append(if db_wide { "--" } else { "-" });
    title.append(" ");
    text::push_dec(&mut title, unit.segments);
    title.append(" segment");
    title.append(plural_of(unit.segments));
    title.append(", ");
    title.append(&unit.rows);
    title.append(" rows, ");
    let n: usize = unit.keys.len();
    text::push_dec(&mut title, n as u64);
    title.append(" keys");
    assert(title@ =~= section_title(*unit, db_wide));
    let ghost rows0 = model::rows_view(rows@);
    let ghost kinds0 = model::kinds_view(kinds@);
    rows.push(banner_row(10, title));
    kinds.push(AttrRow::Section);
    rows.push(header());
    kinds.push(AttrRow::Header);
    let keys = unit_rows(unit, db_wide, promoted);
    let ghost all = unit_view(*unit, db_wide, text::strs(promoted@));
    let ghost all_kinds = key_kinds(all);
    let ghost rows1 = rows0 + seq![banner(10, section_title(*unit, db_wide)), table_header()];
    let ghost kinds1 = kinds0 + seq![KindView::Section, KindView::Header];
    assert(model::rows_view(rows@) =~= rows1 + all.take(0));
    assert(model::kinds_view(kinds@) =~= kinds1 + all_kinds.take(0));
    let mut rest = keys;
    let ghost mut k: int = 0;
    assert(all.skip(0) =~= all);
    proof {
        law_keys_are_ranked_by_cost(unit.keys@, unit.keys@.len());
    }
    assert forall|i: int| 0 <= i < all.len() implies (#[trigger] all[i]).len() > 0 by {}
    while rest.len() > 0
        invariant
            0 <= k <= all.len(),
            model::rows_view(rest@) == all.skip(k),
            all_kinds == key_kinds(all),
            forall|i: int| 0 <= i < all.len() ==> (#[trigger] all[i]).len() > 0,
            model::rows_view(rows@) == rows1 + all.take(k),
            model::kinds_view(kinds@) == kinds1 + all_kinds.take(k),
        decreases rest.len(),
    {
        assert(model::rows_view(rest@).len() == all.len() - k);
        assert(model::rows_view(rest@)[0] == all[k]);
        let ghost rest0 = rest@;
        let row = rest.remove(0);
        assert(text::strs(row@) == all[k]);
        assert(text::strs(row@).len() > 0);
        assert(model::rows_view(rest@) =~= model::rows_view(rest0).remove(0));
        assert(all.skip(k).remove(0) =~= all.skip(k + 1));
        let ghost rb = rows@;
        let ghost kb = kinds@;
        assert(text::strs(row@)[0] == row@[0]@);
        kinds.push(AttrRow::Key(row[0].clone()));
        rows.push(row);
        proof {
            k = k + 1;
        }
        assert(model::rows_view(rows@) =~= model::rows_view(rb).push(all[k - 1]));
        assert(rows1 + all.take(k) =~= (rows1 + all.take(k - 1)).push(all[k - 1]));
        assert(model::kinds_view(kinds@) =~= model::kinds_view(kb).push(all_kinds[k - 1]));
        assert(kinds1 + all_kinds.take(k) =~= (kinds1 + all_kinds.take(k - 1)).push(all_kinds[k - 1]));
    }
    assert(model::rows_view(rest@).len() == 0);
    assert(all.take(k) =~= all);
    assert(all_kinds.take(k) =~= all_kinds);
    assert(rows1 + all =~= rows0 + section_rows(*unit, db_wide, text::strs(promoted@)));
    assert(kinds1 + all_kinds =~= kinds0 + section_kinds(*unit, db_wide, text::strs(promoted@)));
}

/// The table of the attribute pane: the keys of the whole database, then those of each table.
pub fn attribute_table(report: &Report, promoted: &Vec<String>) -> (r: PaneTable)
    ensures
        r.data@ == model::table_of(
            table_header(),
            table_rows(*report, text::strs(promoted@), report.tables@.len()),
        ),
        model::kinds_view(r.kinds@) == table_kinds(*report, text::strs(promoted@), report.tables@.len()),
{
    let ghost keys = text::strs(promoted@);
    let mut rows: Vec<Vec<String>> = Vec::new();
    let mut kinds: Vec<AttrRow> = Vec::new();
    add_section(&mut rows, &mut kinds, &report.global, true, promoted);
    assert(model::rows_view(rows@) =~= table_rows(*report, keys, 0));
    assert(model::kinds_view(kinds@) =~= table_kinds(*report, keys, 0));
    let n: usize = report.tables.len();
    let mut i: usize = 0;
    while i < n
        invariant
            n == report.tables@.len(),
            i <= n,
            keys == text::strs(promoted@),
            model::rows_view(rows@) == table_rows(*report, keys, i as nat),
            model::kinds_view(kinds@) == table_kinds(*report, keys, i as nat),
        decreases n - i,
    {
        let unit = &report.tables[i];
        i += 1;
        if unit.segments > 0 {
            let ghost rb = model::rows_view(rows@);
            let ghost kb = model::kinds_view(kinds@);
            let label = String::new();
            assert(label@ =~= Seq::<char>::empty());
            rows.push(banner_row(10, label));
            kinds.push(AttrRow::Blank);
            assert(model::rows_view(rows@) =~= rb.push(banner(10, Seq::empty())));
            assert(model::kinds_view(kinds@) =~= kb.push(KindView::Blank));
            add_section(&mut rows, &mut kinds, unit, false, promoted);
        }
    }
    PaneTable { data: TableData::new(header(), rows), kinds }
}

/// The attribute pane: what was measured, and for each key its verdicts and the evidence for them.
pub fn attribute_pane(report: &Report, promoted: &Vec<String>) -> (r: DetailPane)
    ensures
        r.title@ == pane_title(*report),
        text::strs(r.lines@) == notes(*report),
        r.waterfall is None,
        r.style == DetailStyle::Pane,
        r.table matches Some(table) && table.data@ == model::table_of(
            table_header(),
            table_rows(*report, text::strs(promoted@), report.tables@.len()),
        ) && model::kinds_view(table.kinds@) == table_kinds(*report, text::strs(promoted@), report.tables@.len()),
{
    let g = &report.global;
    let n: usize = g.keys.len();
    let mut title = text::cat3("Attributes: ", &text::dec_string(n as u64), " key");
    title.append(plural_of(n as u64));
    title.append(" over ");
    text::push_dec(&mut title, g.segments);
    title.append(" sealed segment");
    title.append(plural_of(g.segments));
    title.append(", ");
    title.append(&g.rows);
    title.append(" rows");
    title.append(if report.sampled { " (key map sampled)" } else { "" });
    assert(title@ =~= pane_title(*report));
    DetailPane {
        title,
        lines: attribute_notes(report),
        waterfall: None,
        table: Some(attribute_table(report, promoted)),
        style: DetailStyle::Pane,
    }
}

} // verus!
