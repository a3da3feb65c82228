//! Building and reading back PromQL: the queries the catalog emits, and recovering a metric name
//! from a query for the exemplar lookup.

use vstd::prelude::*;

use crate::model::MetricDetail;
use crate::syntax;
use crate::text;
use crate::unicode;

verus! {

/// Whether `s` starts with `prefix`.
pub open spec fn starts_with(s: Seq<char>, prefix: Seq<char>) -> bool {
    prefix.len() <= s.len() && s.take(prefix.len() as int) == prefix
}

/// Whether `s` ends with `suffix`.
pub open spec fn ends_with(s: Seq<char>, suffix: Seq<char>) -> bool {
    suffix.len() <= s.len() && s.skip(s.len() - suffix.len()) == suffix
}

/// Whether `cs` starts with `prefix`.
pub(crate) fn has_prefix(cs: &Vec<char>, prefix: &str) -> (r: bool)
    ensures
        r == starts_with(cs@, prefix@),
{
    let p = text::chars_of(prefix);
    if p.len() > cs.len() {
        return false;
    }
    let mut i: usize = 0;
    while i < p.len()
        invariant
            p@ == prefix@,
            p@.len() <= cs@.len(),
            i <= p@.len(),
            forall|j: int| 0 <= j < i ==> p@[j] == cs@[j],
        decreases p.len() - i,
    {
        if p[i] != cs[i] {
            assert(cs@.take(prefix@.len() as int)[i as int] != prefix@[i as int]);
            return false;
        }
        i += 1;
    }
    assert(cs@.take(prefix@.len() as int) =~= prefix@);
    true
}

/// Whether `cs` ends with `suffix`.
fn has_suffix(cs: &Vec<char>, suffix: &str) -> (r: bool)
    ensures
        r == ends_with(cs@, suffix@),
{
    let p = text::chars_of(suffix);
    if p.len() > cs.len() {
        return false;
    }
    let tail = text::slice(cs, cs.len() - p.len(), cs.len());
    assert(tail@ =~= cs@.skip(cs@.len() - suffix@.len()));
    assert(tail@.take(suffix@.len() as int) =~= tail@);
    has_prefix(&tail, suffix)
}

/// Words of PromQL that are never a metric selector: aggregation operators and set keywords.
pub open spec fn reserved() -> Seq<Seq<char>> {
    seq![
        "sum"@,
        "avg"@,
        "min"@,
        "max"@,
        "count"@,
        "count_values"@,
        "stddev"@,
        "stdvar"@,
        "group"@,
        "topk"@,
        "bottomk"@,
        "quantile"@,
        "and"@,
        "or"@,
        "unless"@,
        "bool"@,
        "offset"@,
        "atan2"@,
    ]
}

/// Grouping modifiers, whose bracketed label list is skipped whole.
pub open spec fn grouping() -> Seq<Seq<char>> {
    seq!["by"@, "without"@, "on"@, "ignoring"@, "group_left"@, "group_right"@]
}

fn promql_reserved() -> (r: Vec<&'static str>)
    ensures
        syntax::words(r@) == reserved(),
{
    let r: Vec<&'static str> = vec![
        "sum",
        "avg",
        "min",
        "max",
        "count",
        "count_values",
        "stddev",
        "stdvar",
        "group",
        "topk",
        "bottomk",
        "quantile",
        "and",
        "or",
        "unless",
        "bool",
        "offset",
        "atan2",
    ];
    assert(syntax::words(r@) =~= reserved());
    r
}

fn promql_grouping() -> (r: Vec<&'static str>)
    ensures
        syntax::words(r@) == grouping(),
{
    let r: Vec<&'static str> = vec!["by", "without", "on", "ignoring", "group_left", "group_right"];
    assert(syntax::words(r@) =~= grouping());
    r
}

/// Whether an identifier of a query may start with `c`.
pub open spec fn starts_word(c: char) -> bool {
    unicode::ascii_letter(c) || c == '_' || c == ':'
}

/// Whether a byte `0x80 + n` is a letter or a number of Latin-1.
pub open spec fn latin(n: int) -> bool {
    n == 42 || n == 50 || n == 51 || n == 53 || n == 57 || n == 58 || n == 60 || n == 61 || n == 62
}

/// Whether all bytes of `c` but the first, each read as Latin-1, are letters or numbers.
pub open spec fn latin_tail(c: char) -> bool {
    let n = c as int;
    &&& latin(n % 64)
    &&& c > '\u{7ff}' ==> latin(n / 64 % 64)
    &&& c > '\u{ffff}' ==> latin(n / 4096 % 64)
}

/// Whether `c` continues an identifier of a query. A query is read by its bytes: past ASCII each byte
/// counts as the character of Latin-1 that it is. From U+05C0 to U+05FF the first byte is the
/// multiplication sign, which ends an identifier; every other first byte is a letter. A character whose
/// bytes do not agree is judged as a whole.
pub open spec fn continues_word(c: char) -> bool {
    if c <= '\u{7f}' {
        syntax::ident(c)
    } else if '\u{5c0}' <= c <= '\u{5ff}' {
        false
    } else {
        latin_tail(c) || syntax::ident(c)
    }
}

/// The end of the identifier that goes on at `i`.
pub open spec fn word_end(s: Seq<char>, i: int) -> int
    decreases s.len() - i,
{
    if 0 <= i < s.len() && continues_word(s[i]) {
        word_end(s, i + 1)
    } else {
        i
    }
}

/// Whether `c` is white space of ASCII.
pub open spec fn blank(c: char) -> bool {
    c == ' ' || '\t' <= c <= '\r'
}

/// The first character at or after `i` that is no white space of ASCII, or the end.
pub open spec fn after_blanks(s: Seq<char>, i: int) -> int
    decreases s.len() - i,
{
    if 0 <= i < s.len() && blank(s[i]) {
        after_blanks(s, i + 1)
    } else {
        i
    }
}

/// The index past the bracket that brings the depth back to nothing, from position `i` at `depth`;
/// the end where no bracket does.
pub open spec fn group_end(s: Seq<char>, i: int, depth: int) -> int
    decreases s.len() - i,
{
    if !(0 <= i < s.len()) {
        i
    } else if s[i] == '(' {
        group_end(s, i + 1, depth + 1)
    } else if s[i] == ')' {
        if depth == 1 {
            i + 1
        } else {
            group_end(s, i + 1, depth - 1)
        }
    } else {
        group_end(s, i + 1, depth)
    }
}

proof fn lemma_group_end(s: Seq<char>, i: int, depth: int)
    requires
        0 <= i <= s.len(),
    ensures
        i <= group_end(s, i, depth) <= s.len(),
    decreases s.len() - i,
{
    if i < s.len() {
        if s[i] == '(' {
            lemma_group_end(s, i + 1, depth + 1);
        } else if s[i] == ')' {
            if depth != 1 {
                lemma_group_end(s, i + 1, depth - 1);
            }
        } else {
            lemma_group_end(s, i + 1, depth);
        }
    }
}

/// The index just past the `)` that matches the `(` at `open`; the end of the text where none does.
pub fn skip_paren_group(cs: &Vec<char>, open: usize) -> (r: usize)
    requires
        open < cs@.len(),
        cs@[open as int] == '(',
    ensures
        r == group_end(cs@, open as int, 0),
        open < r <= cs@.len(),
{
    let mut depth: usize = 0;
    let mut i: usize = open;
    while i < cs.len()
        invariant
            open <= i <= cs@.len(),
            depth <= i - open,
            i > open ==> depth >= 1,
            i == open ==> depth == 0 && i < cs@.len() && cs@[i as int] == '(',
            group_end(cs@, open as int, 0) == group_end(cs@, i as int, depth as int),
        decreases cs.len() - i,
    {
        if cs[i] == '(' {
            depth += 1;
        } else if cs[i] == ')' {
            depth -= 1;
            if depth == 0 {
                return i + 1;
            }
        }
        i += 1;
    }
    i
}

proof fn lemma_word_end(s: Seq<char>, i: int)
    requires
        0 <= i <= s.len(),
    ensures
        i <= word_end(s, i) <= s.len(),
        i < s.len() && continues_word(s[i]) ==> i < word_end(s, i),
    decreases s.len() - i,
{
    if i < s.len() && continues_word(s[i]) {
        lemma_word_end(s, i + 1);
    }
}

pub proof fn lemma_after_blanks(s: Seq<char>, i: int)
    requires
        0 <= i <= s.len(),
    ensures
        i <= after_blanks(s, i) <= s.len(),
    decreases s.len() - i,
{
    if i < s.len() && blank(s[i]) {
        lemma_after_blanks(s, i + 1);
    }
}

/// Where the scan for the selector goes on after the word at `i..end`.
pub open spec fn scan_next(s: Seq<char>, i: int, end: int) -> int {
    let j = after_blanks(s, end);
    if grouping().contains(s.subrange(i, end)) && j < s.len() && s[j] == '(' {
        group_end(s, j, 0)
    } else {
        end
    }
}

/// Whether the word at `i..end` is the selector: no keyword, no grouping modifier, no call.
pub open spec fn selects(s: Seq<char>, i: int, end: int) -> bool {
    let j = after_blanks(s, end);
    let word = s.subrange(i, end);
    !grouping().contains(word) && !reserved().contains(word) && !(j < s.len() && s[j] == '(')
}

/// The metric selector of a query from position `i` on.
pub open spec fn selector(s: Seq<char>, i: int) -> Option<Seq<char>>
    decreases s.len() - i,
    when 0 <= i <= s.len()
    via selector_ends
{
    if i == s.len() {
        None
    } else if !starts_word(s[i]) {
        selector(s, i + 1)
    } else {
        let end = word_end(s, i);
        if selects(s, i, end) {
            Some(s.subrange(i, end))
        } else {
            selector(s, scan_next(s, i, end))
        }
    }
}

#[via_fn]
proof fn selector_ends(s: Seq<char>, i: int) {
    if i < s.len() {
        lemma_scan_next(s, i);
    }
}

proof fn lemma_scan_next(s: Seq<char>, i: int)
    requires
        0 <= i < s.len(),
    ensures
        starts_word(s[i]) ==> i < word_end(s, i) <= scan_next(s, i, word_end(s, i)) <= s.len(),
{
    lemma_word_end(s, i);
    let end = word_end(s, i);
    lemma_after_blanks(s, end);
    lemma_group_end(s, after_blanks(s, end), 0);
}

fn is_word_start(c: char) -> (r: bool)
    ensures
        r == starts_word(c),
{
    ('a' <= c && c <= 'z') || ('A' <= c && c <= 'Z') || c == '_' || c == ':'
}

fn is_latin(n: u32) -> (r: bool)
    ensures
        r == latin(n as int),
{
    n == 42 || n == 50 || n == 51 || n == 53 || n == 57 || n == 58 || n == 60 || n == 61 || n == 62
}

fn is_latin_tail(c: char) -> (r: bool)
    ensures
        r == latin_tail(c),
{
    let n: u32 = c as u32;
    is_latin(n % 64) && (c <= '\u{7ff}' || is_latin(n / 64 % 64)) && (c <= '\u{ffff}' || is_latin(n / 4096 % 64))
}

fn is_word_part(c: char) -> (r: bool)
    ensures
        r == continues_word(c),
{
    if c <= '\u{7f}' {
        syntax::is_ident_char(c)
    } else if '\u{5c0}' <= c && c <= '\u{5ff}' {
        false
    } else {
        is_latin_tail(c) || syntax::is_ident_char(c)
    }
}

/// The metric selector of a PromQL text: the first identifier that is no aggregation operator or
/// keyword, no grouping label and no function call, such as `name_bucket` inside
/// `histogram_quantile(0.95, sum by (le) (rate(name_bucket[5m])))`. `None` where there is none.
pub fn metric_ident_from_promql(query: &str) -> (r: Option<String>)
    ensures
        match r {
            Some(name) => selector(query@, 0) == Some(name@),
            None => selector(query@, 0) is None,
        },
{
    let cs = text::chars_of(query);
    let n: usize = cs.len();
    let groupings = promql_grouping();
    let words = promql_reserved();
    let mut i: usize = 0;
    while i < n
        invariant
            n == cs@.len(),
            cs@ == query@,
            i <= n,
            syntax::words(groupings@) == grouping(),
            syntax::words(words@) == reserved(),
            selector(query@, 0) == selector(query@, i as int),
        decreases n - i,
    {
        if !is_word_start(cs[i]) {
            i += 1;
            continue;
        }
        let mut end: usize = i;
        while end < n && is_word_part(cs[end])
            invariant
                n == cs@.len(),
                i <= end <= n,
                word_end(cs@, i as int) == word_end(cs@, end as int),
            decreases n - end,
        {
            end += 1;
        }
        let mut j: usize = end;
        while j < n && (cs[j] == ' ' || ('\t' <= cs[j] && cs[j] <= '\r'))
            invariant
                n == cs@.len(),
                end <= j <= n,
                after_blanks(cs@, end as int) == after_blanks(cs@, j as int),
            decreases n - j,
        {
            j += 1;
        }
        proof {
            lemma_scan_next(cs@, i as int);
        }
        let next_paren = j < n && cs[j] == '(';
        let word = text::string_range(&cs, i, end);
        if syntax::listed(&groupings, &word) {
            if next_paren {
                i = skip_paren_group(&cs, j);
            } else {
                i = end;
            }
        } else if syntax::listed(&words, &word) || next_paren {
            i = end;
        } else {
            return Some(word);
        }
    }
    None
}

/// The metric that a catalog-built query shows: the selector, without the suffix that names the
/// buckets of a histogram where the query is a histogram's quantile.
pub open spec fn shown_metric(s: Seq<char>) -> Option<Seq<char>> {
    match selector(s, 0) {
        Some(name) => if starts_with(text::trim_start(s), "histogram_quantile"@) && ends_with(name, "_bucket"@) {
            Some(name.take(name.len() - "_bucket"@.len()))
        } else {
            Some(name)
        },
        None => None,
    }
}

/// The metric a catalog-built query shows, used to name its series when several queries are shown
/// together. The `_bucket` suffix of a histogram's selector is Prometheus' spelling for that
/// metric's buckets, so it is trimmed back to the name the catalog lists.
pub fn query_metric_name(query: &str) -> (r: Option<String>)
    ensures
        match r {
            Some(name) => shown_metric(query@) == Some(name@),
            None => shown_metric(query@) is None,
        },
{
    let name = match metric_ident_from_promql(query) {
        Some(name) => name,
        None => { return None; },
    };
    let cs = text::chars_of(query);
    let rest = text::start_trimmed(&cs);
    let letters = text::chars_of(&name);
    if has_prefix(&rest, "histogram_quantile") && has_suffix(&letters, "_bucket") {
        let bucket: usize = "_bucket".unicode_len();
        let base = text::string_range(&letters, 0, letters.len() - bucket);
        assert(base@ =~= name@.take(name@.len() - "_bucket"@.len()));
        return Some(base);
    }
    Some(name)
}

/// The value of the first of `pairs` from `i` on that gives the metric's name.
pub open spec fn name_label(pairs: Seq<Seq<char>>, i: int) -> Option<Seq<char>>
    decreases pairs.len() - i,
{
    if !(0 <= i < pairs.len()) {
        None
    } else if starts_with(pairs[i], "__name__="@) && pairs[i].len() > "__name__="@.len() {
        Some(pairs[i].skip("__name__="@.len() as int))
    } else {
        name_label(pairs, i + 1)
    }
}

/// The name of the metric that a series belongs to: its `__name__` label, else the selector of its
/// query.
pub open spec fn detail_metric(labels: Seq<char>, query: Seq<char>) -> Option<Seq<char>> {
    match name_label(text::split(labels, ','), 0) {
        Some(name) => Some(name),
        None => selector(query, 0),
    }
}

/// Best-effort metric name for an exemplar lookup: the series' `__name__` label when present (a bare
/// selector keeps it), else the selector of the query (an aggregation drops the label).
pub fn metric_name_from_detail(detail: &MetricDetail) -> (r: Option<String>)
    ensures
        match r {
            Some(name) => detail_metric(detail.labels@, detail.query@) == Some(name@),
            None => detail_metric(detail.labels@, detail.query@) is None,
        },
{
    let labels = text::chars_of(&detail.labels);
    let pairs = text::split_on(&labels, ',');
    let ghost pieces = text::split(detail.labels@, ',');
    let skip: usize = "__name__=".unicode_len();
    let mut i: usize = 0;
    assert(pieces.len() == pairs@.len());
    while i < pairs.len()
        invariant
            i <= pairs@.len(),
            pieces == text::split(detail.labels@, ','),
            text::vecs(pairs@) == pieces,
            pieces.len() == pairs@.len(),
            skip == "__name__="@.len(),
            name_label(pieces, 0) == name_label(pieces, i as int),
        decreases pairs.len() - i,
    {
        assert(pieces[i as int] == pairs@[i as int]@);
        if has_prefix(&pairs[i], "__name__=") && pairs[i].len() > skip {
            let value = text::string_range(&pairs[i], skip, pairs[i].len());
            assert(value@ =~= pieces[i as int].skip(skip as int));
            return Some(value);
        }
        i += 1;
    }
    metric_ident_from_promql(&detail.query)
}

/// One label matcher of a selector.
pub open spec fn matcher_text(label: Seq<char>, value: Seq<char>) -> Seq<char> {
    label + "=\""@ + value + "\""@
}

/// The contents of a list of labels with values.
pub open spec fn pairs(v: Seq<(String, String)>) -> Seq<(Seq<char>, Seq<char>)> {
    v.map_values(|p: (String, String)| (p.0@, p.1@))
}

/// The matchers of a selector.
pub open spec fn matcher_texts(matchers: Seq<(Seq<char>, Seq<char>)>) -> Seq<Seq<char>> {
    matchers.map_values(|m: (Seq<char>, Seq<char>)| matcher_text(m.0, m.1))
}

/// The bracketed matchers of a selector, or nothing where there are none.
pub open spec fn braces_text(matchers: Seq<(Seq<char>, Seq<char>)>) -> Seq<char> {
    if matchers.len() == 0 {
        Seq::empty()
    } else {
        "{"@ + text::join(matcher_texts(matchers), ","@) + "}"@
    }
}

/// Checked `(label, value)` matchers as a PromQL selector suffix (`{a="1",b="2"}`, or nothing).
pub fn matcher_braces(matchers: &Vec<(String, String)>) -> (r: String)
    ensures
        r@ == braces_text(pairs(matchers@)),
{
    if matchers.len() == 0 {
        let r = String::new();
        assert(r@ =~= braces_text(pairs(matchers@)));
        return r;
    }
    let mut parts: Vec<String> = Vec::new();
    let mut i: usize = 0;
    while i < matchers.len()
        invariant
            i <= matchers@.len(),
            text::strs(parts@) == matcher_texts(pairs(matchers@)).take(i as int),
        decreases matchers.len() - i,
    {
        let m = &matchers[i];
        let mut out = m.0.clone();
        out.append("=\"");
        out.append(&m.1);
        out.append("\"");
        let ghost before = parts@;
        parts.push(out);
        i += 1;
        assert(text::strs(parts@) =~= text::strs(before).push(out@));
        assert(matcher_texts(pairs(matchers@)).take(i as int) =~= matcher_texts(pairs(matchers@)).take(i - 1).push(out@));
    }
    assert(matcher_texts(pairs(matchers@)).take(matchers@.len() as int) =~= matcher_texts(pairs(matchers@)));
    let mut r = text::owned("{");
    r.append(&text::joined(&parts, ","));
    r.append("}");
    r
}

/// The query that shows a metric: a gauge as it stands (its average where it is grouped), a sum as
/// a per-second rate, a histogram as its 95th percentile over the bucket rate.
pub open spec fn metric_query(
    name: Seq<char>,
    kind: Seq<char>,
    matchers: Seq<(Seq<char>, Seq<char>)>,
    group_by: Option<Seq<char>>,
    dimensions: Seq<Seq<char>>,
) -> Seq<char> {
    let braces = braces_text(matchers);
    if kind == "histogram"@ {
        let labels = match group_by {
            Some(label) => label + ", le"@,
            None => text::join(seq!["le"@, "__name__"@] + dimensions, ", "@),
        };
        "histogram_quantile(0.95, sum by ("@ + labels + ") (rate("@ + name + "_bucket"@ + braces + "[5m])))"@
    } else if kind == "sum"@ {
        match group_by {
            Some(label) => "sum by ("@ + label + ") (rate("@ + name + braces + "[5m]))"@,
            None => "rate("@ + name + braces + "[5m])"@,
        }
    } else {
        match group_by {
            Some(label) => "avg by ("@ + label + ") ("@ + name + braces + ")"@,
            None => name + braces,
        }
    }
}

/// The PromQL that shows a metric of the given kind, restricted to `matchers` and optionally
/// aggregated by `group_by`.
///
/// `dimensions` are the metric's discovered label axes. They matter only to a histogram that is not
/// grouped: its quantile is only expressible as an aggregation, so whatever the grouping list omits
/// is summed away; naming the metric's own axes, and `__name__`, keeps one series for each label set.
pub fn build_metric_query(
    name: &str,
    kind: &str,
    matchers: &Vec<(String, String)>,
    group_by: Option<&str>,
    dimensions: &Vec<String>,
) -> (r: String)
    ensures
        r@ == metric_query(
            name@,
            kind@,
            pairs(matchers@),
            match group_by {
                Some(label) => Some(label@),
                None => None,
            },
            text::strs(dimensions@),
        ),
{
    let braces = matcher_braces(matchers);
    if text::same(kind, "histogram") {
        let labels = match group_by {
            Some(label) => {
                let mut out = text::owned(label);
                out.append(", le");
                out
            },
            None => {
                let mut list: Vec<String> = Vec::new();
                list.push(text::owned("le"));
                list.push(text::owned("__name__"));
                let mut i: usize = 0;
                assert(text::strs(list@) =~= seq!["le"@, "__name__"@] + text::strs(dimensions@).take(0));
                while i < dimensions.len()
                    invariant
                        i <= dimensions@.len(),
                        text::strs(list@) == seq!["le"@, "__name__"@] + text::strs(dimensions@).take(i as int),
                    decreases dimensions.len() - i,
                {
                    let ghost before = list@;
                    list.push(dimensions[i].clone());
                    i += 1;
                    assert(text::strs(list@) =~= text::strs(before).push(dimensions@[i - 1]@));
                    assert(text::strs(list@) =~= seq!["le"@, "__name__"@] + text::strs(dimensions@).take(i as int));
                }
                assert(text::strs(dimensions@).take(dimensions@.len() as int) =~= text::strs(dimensions@));
                text::joined(&list, ", ")
            },
        };
        let mut out = text::owned("histogram_quantile(0.95, sum by (");
        out.append(&labels);
        out.append(") (rate(");
        out.append(name);
        out.append("_bucket");
        out.append(&braces);
        out.append("[5m])))");
        out
    } else if text::same(kind, "sum") {
        match group_by {
            Some(label) => {
                let mut out = text::owned("sum by (");
                out.append(label);
                out.append(") (rate(");
                out.append(name);
                out.append(&braces);
                out.append("[5m]))");
                out
            },
            None => {
                let mut out = text::owned("rate(");
                out.append(name);
                out.append(&braces);
                out.append("[5m])");
                out
            },
        }
    } else {
        match group_by {
            Some(label) => {
                let mut out = text::owned("avg by (");
                out.append(label);
                out.append(") (");
                out.append(name);
                out.append(&braces);
                out.append(")");
                out
            },
            None => {
                let mut out = text::owned(name);
                out.append(&braces);
                out
            },
        }
    }
}

pub proof fn lemma_word_ends_at(s: Seq<char>, i: int, e: int)
    requires
        0 <= i <= e <= s.len(),
        forall|k: int| i <= k < e ==> continues_word(#[trigger] s[k]),
        e < s.len() ==> !continues_word(s[e]),
    ensures
        word_end(s, i) == e,
    decreases e - i,
{
    if i < e {
        assert(continues_word(s[i]));
        lemma_word_ends_at(s, i + 1, e);
    }
}

proof fn lemma_skip_plain(s: Seq<char>, i: int, e: int)
    requires
        0 <= i <= e <= s.len(),
        forall|k: int| i <= k < e ==> !starts_word(#[trigger] s[k]),
    ensures
        selector(s, i) == selector(s, e),
    decreases e - i,
{
    if i < e {
        assert(!starts_word(s[i]));
        lemma_skip_plain(s, i + 1, e);
    }
}

proof fn lemma_skip_call(s: Seq<char>, i: int, e: int)
    requires
        0 <= i < e < s.len(),
        starts_word(s[i]),
        forall|k: int| i <= k < e ==> continues_word(#[trigger] s[k]),
        s[e] == '(',
        !grouping().contains(s.subrange(i, e)),
    ensures
        selector(s, i) == selector(s, e + 1),
{
    lemma_word_ends_at(s, i, e);
    assert(after_blanks(s, e) == e);
    assert(selector(s, e) == selector(s, e + 1));
}

proof fn lemma_skip_reserved(s: Seq<char>, i: int, e: int)
    requires
        0 <= i < e < s.len(),
        starts_word(s[i]),
        forall|k: int| i <= k < e ==> continues_word(#[trigger] s[k]),
        s[e] == ' ',
        reserved().contains(s.subrange(i, e)),
        !grouping().contains(s.subrange(i, e)),
    ensures
        selector(s, i) == selector(s, e + 1),
{
    lemma_word_ends_at(s, i, e);
    assert(selector(s, e) == selector(s, e + 1));
}

proof fn lemma_group_closes(s: Seq<char>, i: int, close: int)
    requires
        0 <= i <= close < s.len(),
        forall|k: int| i <= k < close ==> #[trigger] s[k] != '(' && s[k] != ')',
        s[close] == ')',
    ensures
        group_end(s, i, 1) == close + 1,
    decreases close - i,
{
    if i < close {
        assert(s[i] != '(' && s[i] != ')');
        lemma_group_closes(s, i + 1, close);
    }
}

proof fn lemma_skip_group(s: Seq<char>, i: int, e: int, close: int)
    requires
        0 <= i < e,
        e + 2 <= close < s.len(),
        starts_word(s[i]),
        forall|k: int| i <= k < e ==> continues_word(#[trigger] s[k]),
        s[e] == ' ',
        s[e + 1] == '(',
        grouping().contains(s.subrange(i, e)),
        forall|k: int| e + 2 <= k < close ==> #[trigger] s[k] != '(' && s[k] != ')',
        s[close] == ')',
    ensures
        selector(s, i) == selector(s, close + 1),
{
    lemma_word_ends_at(s, i, e);
    reveal_with_fuel(after_blanks, 3);
    assert(after_blanks(s, e) == e + 1);
    lemma_group_closes(s, e + 2, close);
    assert(group_end(s, e + 1, 0) == close + 1);
}

proof fn lemma_finds(s: Seq<char>, i: int, e: int)
    requires
        0 <= i < e <= s.len(),
        starts_word(s[i]),
        forall|k: int| i <= k < e ==> continues_word(#[trigger] s[k]),
        e < s.len() ==> !continues_word(s[e]) && !blank(s[e]) && s[e] != '(',
        !reserved().contains(s.subrange(i, e)),
        !grouping().contains(s.subrange(i, e)),
    ensures
        selector(s, i) == Some(s.subrange(i, e)),
{
    lemma_word_ends_at(s, i, e);
    assert(after_blanks(s, e) == e);
}

/// Whether `name` can be written as a selector: an identifier that PromQL does not keep for itself.
pub open spec fn selectable(name: Seq<char>) -> bool {
    &&& name.len() > 0
    &&& starts_word(name[0])
    &&& forall|i: int| 0 <= i < name.len() ==> continues_word(#[trigger] name[i])
    &&& !reserved().contains(name)
    &&& !grouping().contains(name)
}

/// Whether no bracket stands in `s`.
pub open spec fn bracketless(s: Seq<char>) -> bool {
    forall|i: int| 0 <= i < s.len() ==> #[trigger] s[i] != '(' && s[i] != ')'
}

proof fn lemma_words_apart()
    ensures
        !grouping().contains("rate"@),
        !grouping().contains("histogram_quantile"@),
        !grouping().contains("sum"@),
        !grouping().contains("avg"@),
        grouping().contains("by"@),
        reserved().contains("sum"@),
        reserved().contains("avg"@),
        "rate"@ =~= seq!['r', 'a', 't', 'e'],
        "sum"@ =~= seq!['s', 'u', 'm'],
        "avg"@ =~= seq!['a', 'v', 'g'],
        "by"@ =~= seq!['b', 'y'],
{
    reveal_strlit("rate");
    reveal_strlit("histogram_quantile");
    reveal_strlit("sum");
    reveal_strlit("avg");
    reveal_strlit("by");
    reveal_strlit("without");
    reveal_strlit("on");
    reveal_strlit("ignoring");
    reveal_strlit("group_left");
    reveal_strlit("group_right");
    assert(grouping()[0] == "by"@);
    assert(reserved()[0] == "sum"@);
    assert(reserved()[1] == "avg"@);
    let r = "rate"@;
    let h = "histogram_quantile"@;
    let u = "sum"@;
    let a = "avg"@;
    assert forall|i: int| 0 <= i < grouping().len() implies grouping()[i] != r && grouping()[i] != h && grouping()[i]
        != u && grouping()[i] != a by {
        let g = grouping()[i];
        assert(g.len() == 2 || g.len() == 7 || g.len() == 8 || g.len() == 10 || g.len() == 11);
        assert(r.len() == 4 && h.len() == 18 && u.len() == 3 && a.len() == 3);
    }
}

/// A bracketed list of matchers, or nothing, ends an identifier before it.
proof fn lemma_braces_end_a_word(matchers: Seq<(Seq<char>, Seq<char>)>)
    ensures
        braces_text(matchers).len() > 0 ==> braces_text(matchers)[0] == '{',
{
    reveal_strlit("{");
    if matchers.len() > 0 {
        assert(braces_text(matchers)[0] == "{"@[0]);
    }
}

/// `rate(NAME` at position `p` of a query leads the scan to the name.
proof fn lemma_rate_at(s: Seq<char>, p: int, name: Seq<char>)
    requires
        0 <= p,
        p + 5 + name.len() < s.len(),
        s.subrange(p, p + 5) == "rate("@,
        s.subrange(p + 5, p + 5 + name.len()) == name,
        selectable(name),
        !continues_word(s[p + 5 + name.len()]) && !blank(s[p + 5 + name.len()]) && s[p + 5 + name.len()] != '(',
    ensures
        selector(s, p) == Some(name),
{
    lemma_words_apart();
    reveal_strlit("rate(");
    let w = s.subrange(p, p + 5);
    assert(w[0] == 'r' && w[1] == 'a' && w[2] == 't' && w[3] == 'e' && w[4] == '(');
    assert(s.subrange(p, p + 4) =~= "rate"@);
    lemma_skip_call(s, p, p + 4);
    let i = p + 5;
    let e = i + name.len();
    assert forall|k: int| i <= k < e implies continues_word(#[trigger] s[k]) by {
        assert(s[k] == s.subrange(i, e)[k - i]);
    }
    assert(s[i] == s.subrange(i, e)[0]);
    lemma_finds(s, i, e);
}

/// `by (LABELS) ` at position `p` of a query is skipped whole.
proof fn lemma_by_at(s: Seq<char>, p: int, labels: Seq<char>)
    requires
        0 <= p,
        p + 5 + labels.len() < s.len(),
        s.subrange(p, p + 4) == "by ("@,
        s.subrange(p + 4, p + 4 + labels.len()) == labels,
        s[p + 4 + labels.len()] == ')',
        bracketless(labels),
    ensures
        selector(s, p) == selector(s, p + 5 + labels.len()),
{
    lemma_words_apart();
    reveal_strlit("by (");
    let w = s.subrange(p, p + 4);
    assert(w[0] == 'b' && w[1] == 'y' && w[2] == ' ' && w[3] == '(');
    assert(s.subrange(p, p + 2) =~= "by"@);
    let close = p + 4 + labels.len();
    assert forall|k: int| p + 4 <= k < close implies #[trigger] s[k] != '(' && s[k] != ')' by {
        assert(s[k] == labels[k - p - 4]);
    }
    lemma_skip_group(s, p, p + 2, close);
}

/// A query built for a metric names that metric: what is shown together can be told apart. The
/// metric's name must be one that can be written as a selector, and the grouping labels free of
/// brackets; a gauge that is itself named like the buckets of a quantile reads back without its
/// suffix.
pub proof fn law_query_names_its_metric(
    name: Seq<char>,
    kind: Seq<char>,
    matchers: Seq<(Seq<char>, Seq<char>)>,
    group_by: Option<Seq<char>>,
    dimensions: Seq<Seq<char>>,
)
    requires
        selectable(if kind == "histogram"@ { name + "_bucket"@ } else { name }),
        group_by matches Some(label) ==> bracketless(label),
        kind == "histogram"@ && group_by is None ==> bracketless(
            text::join(seq!["le"@, "__name__"@] + dimensions, ", "@),
        ),
        kind != "histogram"@ && kind != "sum"@ && group_by is None ==> !(starts_with(name, "histogram_quantile"@)
            && ends_with(name, "_bucket"@)),
    ensures
        shown_metric(metric_query(name, kind, matchers, group_by, dimensions)) == Some(name),
{
    let s = metric_query(name, kind, matchers, group_by, dimensions);
    let braces = braces_text(matchers);
    lemma_words_apart();
    lemma_braces_end_a_word(matchers);
    if kind == "histogram"@ {
        lemma_histogram(name, kind, matchers, group_by, dimensions);
    } else if kind == "sum"@ {
        reveal_strlit("[5m])");
        reveal_strlit("[5m]))");
        reveal_strlit("rate(");
        match group_by {
            Some(label) => {
                reveal_strlit("sum by (");
                reveal_strlit(") (rate(");
                let n = label.len() as int;
                assert(s.subrange(0, 3) =~= "sum"@);
                lemma_skip_reserved(s, 0, 3);
                assert(s.subrange(4, 8) =~= "by ("@) by {
                    reveal_strlit("by (");
                }
                assert(s.subrange(8, 8 + n) =~= label);
                assert(s[8 + n] == ')');
                lemma_by_at(s, 4, label);
                lemma_skip_plain(s, 9 + n, 11 + n);
                assert(s.subrange(11 + n, 16 + n) =~= "rate("@);
                assert(s.subrange(16 + n, 16 + n + name.len()) =~= name);
                assert(s[16 + n + name.len()] == '{' || s[16 + n + name.len()] == '[');
                lemma_rate_at(s, 11 + n, name);
                assert(s[0] == 's');
            },
            None => {
                assert(s.subrange(0, 5) =~= "rate("@);
                assert(s.subrange(5, 5int + name.len()) =~= name);
                assert(s[5int + name.len()] == '{' || s[5int + name.len()] == '[');
                lemma_rate_at(s, 0, name);
                assert(s[0] == 'r');
            },
        }
        lemma_not_quantile(s);
    } else {
        match group_by {
            Some(label) => {
                reveal_strlit("avg by (");
                reveal_strlit(") (");
                reveal_strlit(")");
                let n = label.len() as int;
                assert(s.subrange(0, 3) =~= "avg"@);
                lemma_skip_reserved(s, 0, 3);
                assert(s.subrange(4, 8) =~= "by ("@) by {
                    reveal_strlit("by (");
                }
                assert(s.subrange(8, 8 + n) =~= label);
                assert(s[8 + n] == ')');
                lemma_by_at(s, 4, label);
                lemma_skip_plain(s, 9 + n, 11 + n);
                let i = 11 + n;
                let e = i + name.len();
                assert(s.subrange(i, e) =~= name);
                assert forall|k: int| i <= k < e implies continues_word(#[trigger] s[k]) by {
                    assert(s[k] == name[k - i]);
                }
                assert(s[e] == '{' || s[e] == ')');
                lemma_finds(s, i, e);
                assert(s[0] == 'a');
                lemma_not_quantile(s);
            },
            None => {
                let e = name.len() as int;
                assert(s.subrange(0, e) =~= name);
                assert forall|k: int| 0 <= k < e implies continues_word(#[trigger] s[k]) by {
                    assert(s[k] == name[k]);
                }
                assert(e < s.len() ==> s[e] == '{');
                assert(s[0] == name[0]);
                lemma_finds(s, 0, e);
                assert(text::trim_start(s) == s);
                if starts_with(s, "histogram_quantile"@) && ends_with(name, "_bucket"@) {
                    lemma_prefix_in_name(s, name);
                }
            },
        }
    }
}

proof fn lemma_not_quantile(s: Seq<char>)
    requires
        s.len() > 0,
        s[0] == 's' || s[0] == 'r' || s[0] == 'a',
    ensures
        !starts_with(text::trim_start(s), "histogram_quantile"@),
{
    reveal_strlit("histogram_quantile");
    assert(text::trim_start(s) == s);
    if starts_with(s, "histogram_quantile"@) {
        assert(s.take(18)[0] == s[0]);
    }
}

/// A text that starts with the name and goes on with no identifier starts with the quantile's name
/// only where the name does.
proof fn lemma_prefix_in_name(s: Seq<char>, name: Seq<char>)
    requires
        name.len() <= s.len(),
        s.take(name.len() as int) == name,
        name.len() < s.len() ==> s[name.len() as int] == '{',
        starts_with(s, "histogram_quantile"@),
    ensures
        starts_with(name, "histogram_quantile"@),
{
    reveal_strlit("histogram_quantile");
    let h = "histogram_quantile"@;
    if name.len() < 18 {
        assert(s.take(18)[name.len() as int] == '{');
        assert(h[name.len() as int] != '{');
    }
    assert(name.take(18) =~= s.take(18));
}

proof fn lemma_histogram(
    name: Seq<char>,
    kind: Seq<char>,
    matchers: Seq<(Seq<char>, Seq<char>)>,
    group_by: Option<Seq<char>>,
    dimensions: Seq<Seq<char>>,
)
    requires
        kind == "histogram"@,
        selectable(name + "_bucket"@),
        group_by matches Some(label) ==> bracketless(label),
        group_by is None ==> bracketless(text::join(seq!["le"@, "__name__"@] + dimensions, ", "@)),
    ensures
        shown_metric(metric_query(name, kind, matchers, group_by, dimensions)) == Some(name),
{
    let s = metric_query(name, kind, matchers, group_by, dimensions);
    let braces = braces_text(matchers);
    let labels = match group_by {
        Some(label) => label + ", le"@,
        None => text::join(seq!["le"@, "__name__"@] + dimensions, ", "@),
    };
    let bucket = name + "_bucket"@;
    let rest = braces + "[5m])))"@;
    lemma_braces_end_a_word(matchers);
    reveal_strlit("[5m])))");
    reveal_strlit("_bucket");
    assert(rest[0] == '{' || rest[0] == '[');
    assert(bracketless(labels)) by {
        reveal_strlit(", le");
    }
    assert(s =~= "histogram_quantile(0.95, sum by ("@ + (labels + (") (rate("@ + (bucket + rest))));
    lemma_quantile(s, labels, bucket, rest);
    assert(bucket.skip(bucket.len() - 7) =~= "_bucket"@);
    assert(bucket.take(bucket.len() - 7) =~= name);
}

proof fn lemma_quantile(s: Seq<char>, labels: Seq<char>, bucket: Seq<char>, rest: Seq<char>)
    requires
        s == "histogram_quantile(0.95, sum by ("@ + (labels + (") (rate("@ + (bucket + rest))),
        rest.len() > 0,
        rest[0] == '{' || rest[0] == '[',
        bracketless(labels),
        selectable(bucket),
    ensures
        selector(s, 0) == Some(bucket),
        starts_with(text::trim_start(s), "histogram_quantile"@),
{
    let n = labels.len() as int;
    let tail = labels + (") (rate("@ + (bucket + rest));
    lemma_words_apart();
    assert(s.len() > 41 + n + bucket.len() && s.take(33) =~= "histogram_quantile(0.95, sum by ("@) by {
        reveal_strlit("histogram_quantile(0.95, sum by (");
        reveal_strlit(") (rate(");
    }
    assert(s.take(18) =~= "histogram_quantile"@ && s[18] == '(' && s.subrange(19, 25) =~= seq![
        '0',
        '.',
        '9',
        '5',
        ',',
        ' ',
    ] && s.subrange(25, 33) =~= seq!['s', 'u', 'm', ' ', 'b', 'y', ' ', '(']) by {
        reveal_strlit("histogram_quantile(0.95, sum by (");
        reveal_strlit("histogram_quantile");
    }
    assert(s.subrange(33, 33 + n) =~= labels && s.subrange(33 + n, 41 + n) =~= seq![
        ')',
        ' ',
        '(',
        'r',
        'a',
        't',
        'e',
        '(',
    ] && s.subrange(41 + n, 41 + n + bucket.len()) =~= bucket && s[41 + n + bucket.len()] == rest[0]) by {
        reveal_strlit("histogram_quantile(0.95, sum by (");
        reveal_strlit(") (rate(");
    }
    lemma_quantile_head(s);
    let by = s.subrange(25, 33);
    assert(s[29] == by[4] && s[30] == by[5] && s[31] == by[6] && s[32] == by[7]);
    assert(s.subrange(29, 33) =~= "by ("@) by {
        reveal_strlit("by (");
    }
    let mid = s.subrange(33 + n, 41 + n);
    assert(s[33 + n] == mid[0] && s[34 + n] == mid[1] && s[35 + n] == mid[2]);
    lemma_by_at(s, 29, labels);
    lemma_skip_plain(s, 34 + n, 36 + n);
    assert(s.subrange(36 + n, 41 + n) =~= "rate("@) by {
        reveal_strlit("rate(");
        assert(s.subrange(36 + n, 41 + n) =~= mid.subrange(3, 8));
    }
    lemma_rate_at(s, 36 + n, bucket);
    assert(s[0] == s.take(18)[0]);
    assert(s[0] == 'h') by {
        reveal_strlit("histogram_quantile");
    }
    assert(text::trim_start(s) == s);
    assert("histogram_quantile"@.len() == 18) by {
        reveal_strlit("histogram_quantile");
    }
}

proof fn lemma_quantile_head(s: Seq<char>)
    requires
        s.len() > 33,
        s.take(18) == "histogram_quantile"@,
        s[18] == '(',
        s.subrange(19, 25) == seq!['0', '.', '9', '5', ',', ' '],
        s.subrange(25, 33) == seq!['s', 'u', 'm', ' ', 'b', 'y', ' ', '('],
    ensures
        selector(s, 0) == selector(s, 29),
{
    lemma_words_apart();
    assert(s.subrange(0, 18) =~= s.take(18));
    assert forall|k: int| 0 <= k < 18 implies continues_word(#[trigger] s[k]) by {
        reveal_strlit("histogram_quantile");
        assert(s[k] == s.take(18)[k]);
    }
    assert(starts_word(s[0])) by {
        reveal_strlit("histogram_quantile");
        assert(s[0] == s.take(18)[0]);
    }
    lemma_skip_call(s, 0, 18);
    let digits = s.subrange(19, 25);
    assert forall|k: int| 19 <= k < 25 implies !starts_word(#[trigger] s[k]) by {
        assert(s[k] == digits[k - 19]);
    }
    lemma_skip_plain(s, 19, 25);
    let by = s.subrange(25, 33);
    assert(s[25] == by[0] && s[26] == by[1] && s[27] == by[2] && s[28] == by[3]);
    assert(s.subrange(25, 28) =~= "sum"@);
    lemma_skip_reserved(s, 25, 28);
}

} // verus!
