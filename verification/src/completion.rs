//! The completion vocabulary: what the caret position makes eligible, and the ranked candidates for
//! the token being written.

use vstd::prelude::*;

use crate::model::{DimNode, DimView, MetricNode, NodeView, Screen};
use crate::model;
use crate::promql;
use crate::syntax;
use crate::text;

verus! {

/// What a completion candidate is, so that accepting a function can append its opening bracket.
#[derive(Debug, Clone, Copy, PartialEq, Eq, Structural)]
pub enum CandidateKind {
    Function,
    Keyword,
    Metric,
    /// A label or attribute name (inside a `{...}` matcher block).
    Label,
    /// A label value (inside a quoted matcher value).
    LabelValue,
    /// A line-filter operator, offered in expression position on the Logs screen.
    Operator,
}

/// Where in the query the caret stands, which decides which vocabulary is eligible.
#[derive(Debug, PartialEq, Eq)]
#[allow(inconsistent_fields)]
pub enum CompletionContext {
    /// Expression position: metric names, functions, keywords.
    Expr,
    /// A label-name position inside a matcher block; `metric` is the selector before the `{`.
    LabelName { metric: Option<String> },
    /// A label-value position inside a quoted string; `label` is the key being matched.
    LabelValue { metric: Option<String>, label: String },
    /// A position where no vocabulary applies (an unquoted value after `=`), so no popup opens.
    Suppressed,
}

/// What a completion context says.
pub enum ContextView {
    Expr,
    LabelName { metric: Option<Seq<char>> },
    LabelValue { metric: Option<Seq<char>>, label: Seq<char> },
    Suppressed,
}

impl View for CompletionContext {
    type V = ContextView;

    open spec fn view(&self) -> ContextView {
        match *self {
            CompletionContext::Expr => ContextView::Expr,
            CompletionContext::LabelName { metric } => ContextView::LabelName { metric: text::opt(metric) },
            CompletionContext::LabelValue { metric, label } => ContextView::LabelValue {
                metric: text::opt(metric),
                label: label@,
            },
            CompletionContext::Suppressed => ContextView::Suppressed,
        }
    }
}

/// One suggestion.
#[derive(Debug)]
pub struct Candidate {
    pub text: String,
    pub kind: CandidateKind,
}

/// What a suggestion holds.
pub struct CandidateView {
    pub text: Seq<char>,
    pub kind: CandidateKind,
}

impl View for Candidate {
    type V = CandidateView;

    open spec fn view(&self) -> CandidateView {
        CandidateView { text: self.text@, kind: self.kind }
    }
}

/// The contents of a list of suggestions.
pub open spec fn candidates_view(v: Seq<Candidate>) -> Seq<CandidateView> {
    v.map_values(|c: Candidate| c@)
}

/// The open completion popup: the ranked candidates for the current token and the highlighted row.
#[derive(Debug)]
pub struct Completion {
    pub candidates: Vec<Candidate>,
    pub selected: usize,
}

/// What the completion popup shows.
#[verifier::ext_equal]
pub struct CompletionView {
    pub candidates: Seq<CandidateView>,
    pub selected: usize,
}

impl View for Completion {
    type V = CompletionView;

    open spec fn view(&self) -> CompletionView {
        CompletionView { candidates: candidates_view(self.candidates@), selected: self.selected }
    }
}

/// What log vocabulary the caret's position wants discovered.
#[derive(Debug, PartialEq, Eq)]
pub enum LogCompletionRequest {
    /// The log label names.
    Labels,
    /// The distinct values of one label.
    Values(String),
}

/// What a request for log vocabulary asks for.
pub enum LogRequestView {
    Labels,
    Values(Seq<char>),
}

impl View for LogCompletionRequest {
    type V = LogRequestView;

    open spec fn view(&self) -> LogRequestView {
        match *self {
            LogCompletionRequest::Labels => LogRequestView::Labels,
            LogCompletionRequest::Values(label) => LogRequestView::Values(label@),
        }
    }
}

/// The position of the last `c` in `s`.
pub open spec fn last_of(s: Seq<char>, c: char) -> Option<int>
    decreases s.len(),
{
    if s.len() == 0 {
        None
    } else if s.last() == c {
        Some(s.len() - 1)
    } else {
        last_of(s.drop_last(), c)
    }
}

/// How often `c` occurs in `s`.
pub open spec fn count_of(s: Seq<char>, c: char) -> nat
    decreases s.len(),
{
    if s.len() == 0 {
        0
    } else {
        count_of(s.drop_last(), c) + if s.last() == c { 1nat } else { 0 }
    }
}

/// Whether `c` may stand between a label and its quoted value.
pub open spec fn between(c: char) -> bool {
    c == '=' || c == '!' || c == '~' || c == '<' || c == '>' || c == ' '
}

/// `s` without the characters at its end that may stand between a label and its value.
pub open spec fn without_operator(s: Seq<char>) -> Seq<char>
    decreases s.len(),
{
    if s.len() > 0 && between(s.last()) {
        without_operator(s.drop_last())
    } else {
        s
    }
}

/// The metric selector that `s` ends in, if any.
pub open spec fn metric_before(s: Seq<char>) -> Option<Seq<char>> {
    let m = syntax::last_ident(s);
    if m.len() == 0 { None } else { Some(m) }
}

/// Whether the caret stands inside a quoted value: the quotes before it do not pair up.
pub open spec fn in_quotes(s: Seq<char>) -> bool {
    count_of(s, '"') % 2 == 1
}

/// The matcher block that the caret stands in: the last `{`, where no `}` follows it.
pub open spec fn open_block(s: Seq<char>) -> Option<int> {
    match last_of(s, '{') {
        Some(open) => match last_of(s, '}') {
            Some(close) => if open > close { Some(open) } else { None },
            None => Some(open),
        },
        None => None,
    }
}

/// The context of a caret at the end of `s`.
pub open spec fn context_of(s: Seq<char>) -> ContextView {
    if in_quotes(s) {
        let head = s.take(last_of(s, '"')->0);
        ContextView::LabelValue {
            metric: match last_of(head, '{') {
                Some(brace) => metric_before(head.take(brace)),
                None => None,
            },
            label: syntax::last_ident(without_operator(head)),
        }
    } else {
        match open_block(s) {
            Some(open) => {
                let head = text::trim_end(s.take(s.len() - syntax::last_ident(s).len()));
                if head.len() == 0 || head.last() == '{' || head.last() == ',' {
                    ContextView::LabelName { metric: metric_before(s.take(open)) }
                } else {
                    ContextView::Suppressed
                }
            },
            None => ContextView::Expr,
        }
    }
}

/// The token being written at the end of `s`: what stands after the opening quote of a value, else
/// the trailing identifier.
pub open spec fn token_of(s: Seq<char>) -> Seq<char> {
    if in_quotes(s) {
        s.skip(last_of(s, '"')->0 + 1)
    } else {
        syntax::last_ident(s)
    }
}

pub proof fn lemma_last_of(s: Seq<char>, c: char)
    ensures
        match last_of(s, c) {
            Some(k) => 0 <= k < s.len() && s[k] == c && forall|i: int| k < i < s.len() ==> s[i] != c,
            None => !s.contains(c),
        },
    decreases s.len(),
{
    if s.len() > 0 && s.last() != c {
        let t = s.drop_last();
        lemma_last_of(t, c);
        match last_of(t, c) {
            Some(k) => {
                assert(s[k] == t[k]);
                assert forall|i: int| k < i < s.len() implies s[i] != c by {
                    if i < t.len() {
                        assert(s[i] == t[i]);
                    }
                }
            },
            None => {
                assert forall|i: int| 0 <= i < s.len() implies s[i] != c by {
                    if i < t.len() {
                        assert(s[i] == t[i]);
                        assert(t.contains(t[i]));
                    }
                }
            },
        }
    }
}

pub proof fn lemma_counted_occurs(s: Seq<char>, c: char)
    requires
        count_of(s, c) > 0,
    ensures
        last_of(s, c) is Some,
    decreases s.len(),
{
    if s.len() > 0 && s.last() != c {
        lemma_counted_occurs(s.drop_last(), c);
    }
}

/// The position of the last `c` among the first `to` characters.
fn find_last(cs: &Vec<char>, to: usize, c: char) -> (r: Option<usize>)
    requires
        to <= cs@.len(),
    ensures
        match r {
            Some(k) => last_of(cs@.take(to as int), c) == Some(k as int) && k < to,
            None => last_of(cs@.take(to as int), c) is None,
        },
{
    let mut k: usize = to;
    while k > 0
        invariant
            k <= to <= cs@.len(),
            last_of(cs@.take(to as int), c) == last_of(cs@.take(k as int), c),
        decreases k,
    {
        assert(cs@.take(k as int).drop_last() =~= cs@.take(k - 1));
        assert(cs@.take(k as int).last() == cs@[k - 1]);
        if cs[k - 1] == c {
            return Some(k - 1);
        }
        k -= 1;
    }
    None
}

fn odd_quotes(cs: &Vec<char>) -> (r: bool)
    ensures
        r == in_quotes(cs@),
{
    let mut odd = false;
    let mut i: usize = 0;
    assert(cs@.take(0) =~= Seq::<char>::empty());
    while i < cs.len()
        invariant
            i <= cs@.len(),
            odd == in_quotes(cs@.take(i as int)),
        decreases cs.len() - i,
    {
        assert(cs@.take(i + 1).drop_last() =~= cs@.take(i as int));
        if cs[i] == '"' {
            odd = !odd;
        }
        i += 1;
    }
    assert(cs@.take(cs@.len() as int) =~= cs@);
    odd
}

/// The metric selector that the first `to` characters end in.
fn read_metric(cs: &Vec<char>, to: usize) -> (r: Option<String>)
    requires
        to <= cs@.len(),
    ensures
        text::opt(r) == metric_before(cs@.take(to as int)),
{
    let start: usize = syntax::ident_start(cs, to);
    if start == to {
        None
    } else {
        Some(text::string_range(cs, start, to))
    }
}

/// Classifies the caret position (the end of `query`) and gives the partial token being written
/// there. The classification counts quotes and looks for the last open `{`; it only decides which
/// vocabulary is eligible and never rejects input.
pub fn completion_context(query: &str) -> (r: (CompletionContext, &str))
    ensures
        r.0@ == context_of(query@),
        r.1@ == token_of(query@),
{
    let cs = text::chars_of(query);
    let n: usize = cs.len();
    assert(query@.take(n as int) =~= query@);
    if odd_quotes(&cs) {
        proof {
            lemma_counted_occurs(query@, '"');
        }
        let open: usize = match find_last(&cs, n, '"') {
            Some(k) => k,
            None => 0,
        };
        let ghost head = query@.take(open as int);
        let mut end: usize = open;
        while end > 0 && (cs[end - 1] == '=' || cs[end - 1] == '!' || cs[end - 1] == '~' || cs[end - 1] == '<'
            || cs[end - 1] == '>' || cs[end - 1] == ' ')
            invariant
                end <= open <= cs@.len(),
                cs@ == query@,
                head == query@.take(open as int),
                without_operator(head) == without_operator(query@.take(end as int)),
            decreases end,
        {
            assert(query@.take(end as int).drop_last() =~= query@.take(end - 1));
            end -= 1;
        }
        assert(without_operator(head) == query@.take(end as int));
        let start: usize = syntax::ident_start(&cs, end);
        let label = text::string_range(&cs, start, end);
        let metric = match find_last(&cs, open, '{') {
            Some(brace) => {
                assert(head.take(brace as int) =~= query@.take(brace as int));
                read_metric(&cs, brace)
            },
            None => None,
        };
        let token = query.substring_char(open + 1, n);
        assert(token@ =~= token_of(query@));
        return (CompletionContext::LabelValue { metric, label }, token);
    }
    let token = syntax::current_token(query);
    let start: usize = syntax::ident_start(&cs, n);
    let block = match find_last(&cs, n, '{') {
        Some(open) => match find_last(&cs, n, '}') {
            Some(close) => if open > close {
                Some(open)
            } else {
                None
            },
            None => Some(open),
        },
        None => None,
    };
    match block {
        Some(open) => {
            let ghost head = query@.take(start as int);
            assert(query@.len() - syntax::last_ident(query@).len() == start);
            let mut end: usize = start;
            while end > 0 && text::is_space(cs[end - 1])
                invariant
                    end <= start <= cs@.len(),
                    cs@ == query@,
                    head == query@.take(start as int),
                    text::trim_end(head) == text::trim_end(query@.take(end as int)),
                decreases end,
            {
                assert(query@.take(end as int).drop_last() =~= query@.take(end - 1));
                end -= 1;
            }
            assert(text::trim_end(head) == query@.take(end as int));
            if end == 0 || cs[end - 1] == '{' || cs[end - 1] == ',' {
                (CompletionContext::LabelName { metric: read_metric(&cs, open) }, token)
            } else {
                (CompletionContext::Suppressed, token)
            }
        },
        None => (CompletionContext::Expr, token),
    }
}

/// An ASCII capital as its small letter, any other character as it is.
pub open spec fn lower(c: char) -> char {
    if 'A' <= c <= 'Z' { (c as u32 + 32) as char } else { c }
}

/// `s` with its ASCII capitals as small letters.
pub open spec fn lowered(s: Seq<char>) -> Seq<char> {
    s.map_values(|c: char| lower(c))
}

/// Whether `name` completes `token`, whatever the case of ASCII letters.
pub open spec fn completes(name: Seq<char>, token: Seq<char>) -> bool {
    promql::starts_with(lowered(name), lowered(token))
}

/// The order of names: character by character, a prefix first.
pub open spec fn before(a: Seq<char>, b: Seq<char>) -> bool
    decreases a.len(),
{
    if b.len() == 0 {
        false
    } else if a.len() == 0 {
        true
    } else if a[0] != b[0] {
        a[0] < b[0]
    } else {
        before(a.drop_first(), b.drop_first())
    }
}

/// `x` put into its place among sorted names, once.
pub open spec fn put(names: Seq<Seq<char>>, x: Seq<char>) -> Seq<Seq<char>>
    decreases names.len(),
{
    if names.len() == 0 {
        seq![x]
    } else if names.last() == x {
        names
    } else if before(names.last(), x) {
        names.push(x)
    } else {
        put(names.drop_last(), x).push(names.last())
    }
}

/// The first `n` of `names` that complete `token` and are not among `seen`, sorted, each once.
pub open spec fn eligible(names: Seq<Seq<char>>, n: nat, token: Seq<char>, seen: Seq<Seq<char>>) -> Seq<Seq<char>>
    decreases n,
{
    if n == 0 || n > names.len() {
        Seq::empty()
    } else {
        let rest = eligible(names, (n - 1) as nat, token, seen);
        let name = names[n - 1];
        if completes(name, token) && !seen.contains(name) {
            put(rest, name)
        } else {
            rest
        }
    }
}

/// The texts of suggestions.
pub open spec fn texts(v: Seq<CandidateView>) -> Seq<Seq<char>> {
    v.map_values(|c: CandidateView| c.text)
}

/// Suggestions with another group after them: the names that complete the token and are not yet
/// suggested, sorted.
pub open spec fn with_group(
    out: Seq<CandidateView>,
    names: Seq<Seq<char>>,
    kind: CandidateKind,
    token: Seq<char>,
) -> Seq<CandidateView> {
    out + eligible(names, names.len(), token, texts(out)).map_values(
        |name: Seq<char>| CandidateView { text: name, kind },
    )
}

/// The first metric of the tree with a name.
pub open spec fn node_named(tree: Seq<NodeView>, name: Seq<char>, i: int) -> Option<int>
    decreases tree.len() - i,
{
    if !(0 <= i < tree.len()) {
        None
    } else if tree[i].name == name {
        Some(i)
    } else {
        node_named(tree, name, i + 1)
    }
}

/// The discovered dimension lists of the first `n` metrics.
pub open spec fn discovered(tree: Seq<NodeView>, n: nat) -> Seq<Seq<DimView>>
    decreases n,
{
    if n == 0 || n > tree.len() {
        Seq::empty()
    } else {
        let rest = discovered(tree, (n - 1) as nat);
        match tree[n - 1].dims {
            Some(dims) => rest.push(dims),
            None => rest,
        }
    }
}

/// The dimension lists in scope for label completion: the named metric's where the catalog has it and
/// they are discovered, otherwise every discovered one.
pub open spec fn scope_of(tree: Seq<NodeView>, metric: Option<Seq<char>>) -> Seq<Seq<DimView>> {
    match metric {
        Some(name) => match node_named(tree, name, 0) {
            Some(i) => match tree[i].dims {
                Some(dims) => seq![dims],
                None => discovered(tree, tree.len()),
            },
            None => discovered(tree, tree.len()),
        },
        None => discovered(tree, tree.len()),
    }
}

/// The labels of some dimensions.
pub open spec fn labels_of(dims: Seq<DimView>) -> Seq<Seq<char>> {
    dims.map_values(|d: DimView| d.label)
}

/// The labels of dimension lists.
pub open spec fn labels_in(lists: Seq<Seq<DimView>>) -> Seq<Seq<char>>
    decreases lists.len(),
{
    if lists.len() == 0 {
        Seq::empty()
    } else {
        labels_in(lists.drop_last()) + labels_of(lists.last())
    }
}

/// The values of a label among some dimensions.
pub open spec fn values_of(dims: Seq<DimView>, label: Seq<char>) -> Seq<Seq<char>>
    decreases dims.len(),
{
    if dims.len() == 0 {
        Seq::empty()
    } else {
        values_of(dims.drop_last(), label) + if dims.last().label == label {
            dims.last().values
        } else {
            Seq::empty()
        }
    }
}

/// The values of a label among dimension lists.
pub open spec fn values_in(lists: Seq<Seq<DimView>>, label: Seq<char>) -> Seq<Seq<char>>
    decreases lists.len(),
{
    if lists.len() == 0 {
        Seq::empty()
    } else {
        values_in(lists.drop_last(), label) + values_of(lists.last(), label)
    }
}

/// Lists kept under names.
pub open spec fn entries(v: Seq<(String, Vec<String>)>) -> Seq<(Seq<char>, Seq<Seq<char>>)> {
    v.map_values(|e: (String, Vec<String>)| (e.0@, text::strs(e.1@)))
}

/// The list kept under `key`, from entry `i` on.
pub open spec fn kept(v: Seq<(Seq<char>, Seq<Seq<char>>)>, key: Seq<char>, i: int) -> Option<Seq<Seq<char>>>
    decreases v.len() - i,
{
    if !(0 <= i < v.len()) {
        None
    } else if v[i].0 == key {
        Some(v[i].1)
    } else {
        kept(v, key, i + 1)
    }
}

/// The lists with `values` kept under `key`: in place of what was kept there, else as a new entry.
pub open spec fn keep(v: Seq<(Seq<char>, Seq<Seq<char>>)>, key: Seq<char>, values: Seq<Seq<char>>, i: int) -> Seq<
    (Seq<char>, Seq<Seq<char>>),
>
    decreases v.len() - i,
{
    if !(0 <= i < v.len()) {
        v.push((key, values))
    } else if v[i].0 == key {
        v.update(i, (key, values))
    } else {
        keep(v, key, values, i + 1)
    }
}

/// What is kept under a name is found there, and the other names find what they found before.
pub proof fn law_kept_lists_are_found(
    v: Seq<(Seq<char>, Seq<Seq<char>>)>,
    key: Seq<char>,
    values: Seq<Seq<char>>,
    other: Seq<char>,
)
    requires
        other != key,
    ensures
        kept(keep(v, key, values, 0), key, 0) == Some(values),
        kept(keep(v, key, values, 0), other, 0) == kept(v, other, 0),
{
    lemma_keep(v, key, values, other, 0);
}

proof fn lemma_keep(v: Seq<(Seq<char>, Seq<Seq<char>>)>, key: Seq<char>, values: Seq<Seq<char>>, other: Seq<char>, i: int)
    requires
        other != key,
        0 <= i <= v.len(),
    ensures
        kept(keep(v, key, values, i), key, i) == Some(values),
        kept(keep(v, key, values, i), other, i) == kept(v, other, i),
        keep(v, key, values, i).len() >= v.len(),
        forall|j: int| 0 <= j < i ==> keep(v, key, values, i)[j] == v[j],
    decreases v.len() - i,
{
    let w = keep(v, key, values, i);
    if i >= v.len() {
        assert(w[i] == (key, values));
        assert(kept(w, other, i + 1) is None);
    } else if v[i].0 == key {
        assert(w[i] == (key, values));
        lemma_kept_agree(v, w, other, i + 1);
    } else {
        lemma_keep(v, key, values, other, i + 1);
        assert(w[i] == v[i]);
    }
}

proof fn lemma_kept_agree(v: Seq<(Seq<char>, Seq<Seq<char>>)>, w: Seq<(Seq<char>, Seq<Seq<char>>)>, name: Seq<char>, i: int)
    requires
        v.len() == w.len(),
        0 <= i,
        forall|j: int| i <= j < v.len() ==> v[j] == w[j],
    ensures
        kept(v, name, i) == kept(w, name, i),
    decreases v.len() - i,
{
    if i < v.len() {
        lemma_kept_agree(v, w, name, i + 1);
    }
}

/// Keeps `values` under `key`.
pub fn put_kept(list: &mut Vec<(String, Vec<String>)>, key: String, values: Vec<String>)
    ensures
        entries(final(list)@) == keep(entries(old(list)@), key@, text::strs(values@), 0),
{
    let ghost all = entries(list@);
    let n: usize = list.len();
    let mut i: usize = 0;
    while i < n
        invariant
            list@ == old(list)@,
            all == entries(list@),
            n == list@.len(),
            i <= n,
            keep(all, key@, text::strs(values@), 0) == keep(all, key@, text::strs(values@), i as int),
        decreases n - i,
    {
        assert(all[i as int] == (list@[i as int].0@, text::strs(list@[i as int].1@)));
        if text::same(&list[i].0, &key) {
            let ghost entry = (key@, text::strs(values@));
            list.set(i, (key, values));
            assert(entries(list@) =~= all.update(i as int, entry));
            return;
        }
        i += 1;
    }
    let ghost entry = (key@, text::strs(values@));
    list.push((key, values));
    assert(entries(list@) =~= all.push(entry));
}

/// The names without `name`.
pub open spec fn without(names: Seq<Seq<char>>, name: Seq<char>) -> Seq<Seq<char>>
    decreases names.len(),
{
    if names.len() == 0 {
        Seq::empty()
    } else {
        let before = without(names.drop_last(), name);
        if names.last() == name { before } else { before.push(names.last()) }
    }
}

/// The names without `name`.
pub fn drop_name(names: &Vec<String>, name: &str) -> (r: Vec<String>)
    ensures
        text::strs(r@) == without(text::strs(names@), name@),
{
    let ghost all = text::strs(names@);
    let mut out: Vec<String> = Vec::new();
    let mut i: usize = 0;
    assert(text::strs(out@) =~= without(all.take(0), name@));
    while i < names.len()
        invariant
            i <= names@.len(),
            all == text::strs(names@),
            text::strs(out@) == without(all.take(i as int), name@),
        decreases names.len() - i,
    {
        let ghost before = out@;
        assert(all[i as int] == names@[i as int]@);
        assert(all.take(i + 1).drop_last() =~= all.take(i as int));
        if !text::same(&names[i], name) {
            out.push(names[i].clone());
            assert(text::strs(out@) =~= text::strs(before).push(all[i as int]));
        }
        i += 1;
    }
    assert(all.take(names@.len() as int) =~= all);
    out
}

/// Whether `name` is one of the names.
pub fn has_name(names: &Vec<String>, name: &str) -> (r: bool)
    ensures
        r == text::strs(names@).contains(name@),
{
    let ghost all = text::strs(names@);
    let mut i: usize = 0;
    while i < names.len()
        invariant
            i <= names@.len(),
            all == text::strs(names@),
            forall|j: int| 0 <= j < i ==> all[j] != name@,
        decreases names.len() - i,
    {
        assert(all[i as int] == names@[i as int]@);
        if text::same(&names[i], name) {
            return true;
        }
        i += 1;
    }
    false
}

/// The token ends the text: what stands before it and the token make up the whole.
pub proof fn law_the_token_ends_the_text(s: Seq<char>)
    ensures
        token_of(s).len() <= s.len(),
        s.take(s.len() - token_of(s).len()) + token_of(s) == s,
{
    if in_quotes(s) {
        lemma_counted_occurs(s, '"');
        lemma_last_of(s, '"');
    } else {
        syntax::law_current_token_is_the_longest_identifier(s);
    }
    assert(s.take(s.len() - token_of(s).len()) + token_of(s) =~= s);
}

/// The most suggestions that a popup holds.
pub const MAX_CANDIDATES: usize = 50;

/// Every suggestion for the token, best group first.
pub open spec fn all_candidates(
    screen: Screen,
    metric_names: Seq<Seq<char>>,
    tree: Seq<NodeView>,
    log_labels: Seq<Seq<char>>,
    log_label_values: Seq<(Seq<char>, Seq<Seq<char>>)>,
    context: ContextView,
    token: Seq<char>,
) -> Seq<CandidateView> {
    let none = Seq::<CandidateView>::empty();
    match context {
        ContextView::Suppressed => none,
        ContextView::Expr => if screen == Screen::Logs {
            with_group(
                with_group(none, syntax::line_filters(), CandidateKind::Operator, token),
                syntax::keywords(screen),
                CandidateKind::Keyword,
                token,
            )
        } else {
            let first = if screen == Screen::Metrics {
                with_group(none, metric_names, CandidateKind::Metric, token)
            } else {
                none
            };
            with_group(
                with_group(first, syntax::functions(screen), CandidateKind::Function, token),
                syntax::keywords(screen),
                CandidateKind::Keyword,
                token,
            )
        },
        ContextView::LabelName { metric } => with_group(
            none,
            if screen == Screen::Logs { log_labels } else { labels_in(scope_of(tree, metric)) },
            CandidateKind::Label,
            token,
        ),
        ContextView::LabelValue { metric, label } => with_group(
            none,
            if screen == Screen::Logs {
                match kept(log_label_values, label, 0) {
                    Some(values) => values,
                    None => Seq::empty(),
                }
            } else {
                values_in(scope_of(tree, metric), label)
            },
            CandidateKind::LabelValue,
            token,
        ),
    }
}

/// The first `n` items of a list, or all where it holds fewer.
pub open spec fn at_most<A>(v: Seq<A>, n: int) -> Seq<A> {
    if v.len() <= n { v } else { v.take(n) }
}

fn lower_char(c: char) -> (r: char)
    ensures
        r == lower(c),
{
    if 'A' <= c && c <= 'Z' {
        ((c as u8) + 32) as char
    } else {
        c
    }
}

fn is_completion(name: &Vec<char>, token: &Vec<char>) -> (r: bool)
    ensures
        r == completes(name@, token@),
{
    if token.len() > name.len() {
        return false;
    }
    let mut i: usize = 0;
    while i < token.len()
        invariant
            i <= token@.len() <= name@.len(),
            forall|j: int| 0 <= j < i ==> lower(name@[j]) == lower(token@[j]),
        decreases token.len() - i,
    {
        if lower_char(name[i]) != lower_char(token[i]) {
            assert(lowered(name@).take(token@.len() as int)[i as int] != lowered(token@)[i as int]);
            return false;
        }
        i += 1;
    }
    assert(lowered(name@).take(token@.len() as int) =~= lowered(token@));
    true
}

pub(crate) fn is_before(a: &Vec<char>, b: &Vec<char>) -> (r: bool)
    ensures
        r == before(a@, b@),
{
    let mut i: usize = 0;
    assert(a@.skip(0) =~= a@);
    assert(b@.skip(0) =~= b@);
    while i < a.len() && i < b.len()
        invariant
            i <= a@.len(),
            i <= b@.len(),
            before(a@, b@) == before(a@.skip(i as int), b@.skip(i as int)),
        decreases a.len() - i,
    {
        assert(a@.skip(i as int).drop_first() =~= a@.skip(i + 1));
        assert(b@.skip(i as int).drop_first() =~= b@.skip(i + 1));
        if a[i] != b[i] {
            return a[i] < b[i];
        }
        i += 1;
    }
    i < b.len()
}

/// Names no two of which are the same, in order.
pub open spec fn ascending(names: Seq<Seq<char>>) -> bool {
    forall|i: int, j: int| 0 <= i < j < names.len() ==> before(#[trigger] names[i], #[trigger] names[j])
}

pub proof fn lemma_before_is_strict(a: Seq<char>, b: Seq<char>, c: Seq<char>)
    ensures
        !before(a, a),
        before(a, b) ==> !before(b, a),
        before(a, b) && before(b, c) ==> before(a, c),
        a != b ==> before(a, b) || before(b, a),
    decreases a.len() + b.len() + c.len(),
{
    if a.len() > 0 && b.len() > 0 && c.len() > 0 {
        lemma_before_is_strict(a.drop_first(), b.drop_first(), c.drop_first());
    } else if a.len() > 0 && b.len() > 0 {
        lemma_before_is_strict(a.drop_first(), b.drop_first(), c);
    }
    if a.len() > 0 {
        lemma_irreflexive(a);
    }
    if a != b {
        if a.len() > 0 && b.len() > 0 && a[0] == b[0] {
            assert(a =~= seq![a[0]] + a.drop_first());
            assert(b =~= seq![b[0]] + b.drop_first());
            assert(a.drop_first() != b.drop_first());
        } else if a.len() == 0 && b.len() == 0 {
            assert(a =~= b);
        }
    }
}

proof fn lemma_irreflexive(a: Seq<char>)
    ensures
        !before(a, a),
    decreases a.len(),
{
    if a.len() > 0 {
        lemma_irreflexive(a.drop_first());
    }
}

pub proof fn lemma_put(names: Seq<Seq<char>>, x: Seq<char>)
    requires
        ascending(names),
    ensures
        ascending(put(names, x)),
        forall|y: Seq<char>| #[trigger] put(names, x).contains(y) <==> names.contains(y) || y == x,
    decreases names.len(),
{
    let r = put(names, x);
    if names.len() == 0 {
        assert(r[0] == x);
    } else if names.last() == x {
        assert(names[names.len() - 1] == x);
    } else if before(names.last(), x) {
        assert forall|i: int, j: int| 0 <= i < j < r.len() implies before(#[trigger] r[i], #[trigger] r[j]) by {
            if j == names.len() && i < names.len() - 1 {
                assert(before(names[i], names[names.len() - 1]));
                lemma_before_is_strict(names[i], names.last(), x);
            }
        }
        assert forall|y: Seq<char>| r.contains(y) <==> names.contains(y) || y == x by {
            if names.contains(y) {
                let i = choose|i: int| 0 <= i < names.len() && names[i] == y;
                assert(r[i] == y);
            }
            assert(r[names.len() as int] == x);
        }
    } else {
        let t = names.drop_last();
        let last = names.last();
        assert forall|i: int, j: int| 0 <= i < j < t.len() implies before(#[trigger] t[i], #[trigger] t[j]) by {
            assert(t[i] == names[i] && t[j] == names[j]);
        }
        lemma_put(t, x);
        lemma_before_is_strict(x, last, last);
        let p = put(t, x);
        assert forall|i: int| 0 <= i < p.len() implies before(#[trigger] p[i], last) by {
            assert(p.contains(p[i]));
            if p[i] != x {
                assert(t.contains(p[i]));
                let k = choose|k: int| 0 <= k < t.len() && t[k] == p[i];
                assert(before(names[k], names[names.len() - 1]));
            }
        }
        assert forall|i: int, j: int| 0 <= i < j < r.len() implies before(#[trigger] r[i], #[trigger] r[j]) by {
            if j < p.len() {
                assert(r[i] == p[i] && r[j] == p[j]);
            } else {
                assert(r[i] == p[i]);
            }
        }
        assert forall|y: Seq<char>| r.contains(y) <==> names.contains(y) || y == x by {
            if r.contains(y) {
                let i = choose|i: int| 0 <= i < r.len() && r[i] == y;
                if i < p.len() {
                    assert(p.contains(y));
                    if y != x {
                        assert(t.contains(y));
                        let k = choose|k: int| 0 <= k < t.len() && t[k] == y;
                        assert(names[k] == y);
                    }
                } else {
                    assert(names[names.len() - 1] == y);
                }
            }
            if names.contains(y) {
                let k = choose|k: int| 0 <= k < names.len() && names[k] == y;
                if k < t.len() {
                    assert(t[k] == y);
                    assert(t.contains(y));
                    assert(p.contains(y));
                    let i = choose|i: int| 0 <= i < p.len() && p[i] == y;
                    assert(r[i] == y);
                } else {
                    assert(r[p.len() as int] == y);
                }
            }
            if y == x {
                assert(put(t, x).contains(x));
                assert(p.contains(x));
                let i = choose|i: int| 0 <= i < p.len() && p[i] == x;
                assert(r[i] == x);
            }
        }
    }
}

/// A group of suggestions is sorted, holds no name twice, and holds exactly the names that complete
/// the token and stand in no earlier group.
pub proof fn law_groups_are_sorted_and_exact(names: Seq<Seq<char>>, n: nat, token: Seq<char>, seen: Seq<Seq<char>>)
    requires
        n <= names.len(),
    ensures
        ascending(eligible(names, n, token, seen)),
        forall|y: Seq<char>|
            #[trigger] eligible(names, n, token, seen).contains(y) <==> names.take(n as int).contains(y) && completes(
                y,
                token,
            ) && !seen.contains(y),
    decreases n,
{
    let r = eligible(names, n, token, seen);
    if n == 0 {
    } else {
        law_groups_are_sorted_and_exact(names, (n - 1) as nat, token, seen);
        let rest = eligible(names, (n - 1) as nat, token, seen);
        let name = names[n - 1];
        let shorter = names.take(n - 1);
        lemma_put(rest, name);
        assert forall|y: Seq<char>|
            #[trigger] r.contains(y) <==> names.take(n as int).contains(y) && completes(y, token) && !seen.contains(y) by {
            if names.take(n as int).contains(y) {
                let k = choose|k: int| 0 <= k < n && names.take(n as int)[k] == y;
                if k < n - 1 {
                    assert(shorter[k] == y);
                    assert(shorter.contains(y));
                }
            }
            if shorter.contains(y) {
                let k = choose|k: int| 0 <= k < n - 1 && shorter[k] == y;
                assert(names.take(n as int)[k] == y);
            }
            assert(names.take(n as int)[n - 1] == name);
            assert(put(rest, name).contains(y) <==> rest.contains(y) || y == name);
            assert(rest.contains(y) <==> shorter.contains(y) && completes(y, token) && !seen.contains(y));
        }
    }
}

/// Puts `name` into its place among sorted names, once.
pub(crate) fn put_name(names: &mut Vec<String>, name: String)
    ensures
        text::strs(final(names)@) == put(text::strs(old(names)@), name@),
{
    let ghost all = text::strs(names@);
    let x = text::chars_of(&name);
    let mut k: usize = names.len();
    assert(all.take(k as int) =~= all);
    assert(put(all, name@) =~= put(all.take(k as int), name@) + all.skip(k as int));
    while k > 0
        invariant
            k <= names@.len(),
            all == text::strs(names@),
            names@ == old(names)@,
            x@ == name@,
            put(all, name@) == put(all.take(k as int), name@) + all.skip(k as int),
        decreases k,
    {
        let other = text::chars_of(&names[k - 1]);
        let ghost head = all.take(k as int);
        assert(head.last() == names@[k - 1]@);
        assert(head.drop_last() =~= all.take(k - 1));
        if text::same(&names[k - 1], &name) {
            assert(head + all.skip(k as int) =~= all);
            return;
        }
        if is_before(&other, &x) {
            names.insert(k, name);
            assert(text::strs(names@) =~= head.push(name@) + all.skip(k as int));
            return;
        }
        assert(put(all.take(k - 1), name@).push(head.last()) + all.skip(k as int) =~= put(all.take(k - 1), name@)
            + all.skip(k - 1));
        k -= 1;
    }
    names.insert(0, name);
    assert(all.take(0) =~= Seq::<Seq<char>>::empty());
    assert(text::strs(names@) =~= seq![name@] + all.skip(0));
}

fn is_listed(out: &Vec<Candidate>, to: usize, name: &str) -> (r: bool)
    requires
        to <= out@.len(),
    ensures
        r == texts(candidates_view(out@.take(to as int))).contains(name@),
{
    let ghost shown = texts(candidates_view(out@.take(to as int)));
    let mut i: usize = 0;
    while i < to
        invariant
            i <= to <= out@.len(),
            shown == texts(candidates_view(out@.take(to as int))),
            forall|j: int| 0 <= j < i ==> shown[j] != name@,
        decreases to - i,
    {
        assert(shown[i as int] == out@[i as int].text@);
        if text::same(&out[i].text, name) {
            return true;
        }
        i += 1;
    }
    false
}

/// Adds a group of suggestions.
fn push_group(out: &mut Vec<Candidate>, names: &Vec<String>, kind: CandidateKind, token: &Vec<char>)
    ensures
        candidates_view(final(out)@) == with_group(candidates_view(old(out)@), text::strs(names@), kind, token@),
{
    let n: usize = out.len();
    let ghost seen = texts(candidates_view(out@));
    let ghost all = text::strs(names@);
    let mut group: Vec<String> = Vec::new();
    let mut i: usize = 0;
    assert(text::strs(group@) =~= eligible(all, 0, token@, seen));
    assert(out@.take(n as int) =~= out@);
    while i < names.len()
        invariant
            i <= names@.len(),
            n == out@.len(),
            out@ == old(out)@,
            out@.take(n as int) =~= out@,
            seen == texts(candidates_view(out@)),
            all == text::strs(names@),
            text::strs(group@) == eligible(all, i as nat, token@, seen),
        decreases names.len() - i,
    {
        let cs = text::chars_of(&names[i]);
        assert(all[i as int] == names@[i as int]@);
        if is_completion(&cs, token) && !is_listed(out, n, &names[i]) {
            put_name(&mut group, names[i].clone());
        }
        i += 1;
    }
    let ghost found = text::strs(group@);
    let ghost made = found.map_values(|name: Seq<char>| CandidateView { text: name, kind });
    let mut j: usize = 0;
    assert(candidates_view(out@) =~= candidates_view(old(out)@) + made.take(0));
    while j < group.len()
        invariant
            j <= group@.len(),
            found == text::strs(group@),
            made == found.map_values(|name: Seq<char>| CandidateView { text: name, kind }),
            candidates_view(out@) == candidates_view(old(out)@) + made.take(j as int),
        decreases group.len() - j,
    {
        let ghost before = out@;
        out.push(Candidate { text: group[j].clone(), kind });
        j += 1;
        assert(candidates_view(out@) =~= candidates_view(before).push(made[j - 1]));
        assert(candidates_view(out@) =~= candidates_view(old(out)@) + made.take(j as int));
    }
    assert(made.take(group@.len() as int) =~= made);
}

/// The contents of borrowed dimension lists.
pub open spec fn lists_view(v: Seq<&Vec<DimNode>>) -> Seq<Seq<DimView>> {
    v.map_values(|d: &Vec<DimNode>| model::dims_view(d@))
}

/// The discovered dimension lists in scope for label completion: the named metric's (when known
/// and loaded), otherwise every metric's, so that a bare selector still offers every label.
pub fn dims_for<'a>(metric_tree: &'a Vec<MetricNode>, metric: Option<&str>) -> (r: Vec<&'a Vec<DimNode>>)
    ensures
        lists_view(r@) == scope_of(
            model::tree_view(metric_tree@),
            match metric {
                Some(name) => Some(name@),
                None => None,
            },
        ),
{
    let ghost tree = model::tree_view(metric_tree@);
    let mut r: Vec<&'a Vec<DimNode>> = Vec::new();
    if let Some(name) = metric {
        let mut i: usize = 0;
        while i < metric_tree.len()
            invariant
                i <= metric_tree@.len(),
                tree == model::tree_view(metric_tree@),
                metric == Some(name),
                node_named(tree, name@, 0) == node_named(tree, name@, i as int),
                r@.len() == 0,
            ensures
                scope_of(tree, Some(name@)) == discovered(tree, tree.len()),
            decreases metric_tree.len() - i,
        {
            assert(tree[i as int] == metric_tree@[i as int]@);
            if text::same(&metric_tree[i].name, name) {
                assert(node_named(tree, name@, i as int) == Some(i as int));
                if let Some(dims) = &metric_tree[i].dims {
                    r.push(dims);
                    assert(tree[i as int].dims == Some(model::dims_view(dims@)));
                    assert(lists_view(r@) =~= seq![model::dims_view(dims@)]);
                    return r;
                }
                assert(tree[i as int].dims is None);
                break;
            }
            i += 1;
        }
    }
    let mut i: usize = 0;
    assert(lists_view(r@) =~= discovered(tree, 0));
    while i < metric_tree.len()
        invariant
            i <= metric_tree@.len(),
            tree == model::tree_view(metric_tree@),
            lists_view(r@) == discovered(tree, i as nat),
        decreases metric_tree.len() - i,
    {
        assert(tree[i as int] == metric_tree@[i as int]@);
        let ghost before = r@;
        if let Some(dims) = &metric_tree[i].dims {
            r.push(dims);
            assert(lists_view(r@) =~= lists_view(before).push(model::dims_view(dims@)));
        }
        i += 1;
    }
    r
}

/// Appends the strings of `more`.
fn extend(out: &mut Vec<String>, more: &Vec<String>)
    ensures
        text::strs(final(out)@) == text::strs(old(out)@) + text::strs(more@),
{
    let mut i: usize = 0;
    assert(text::strs(out@) =~= text::strs(old(out)@) + text::strs(more@).take(0));
    while i < more.len()
        invariant
            i <= more@.len(),
            text::strs(out@) == text::strs(old(out)@) + text::strs(more@).take(i as int),
        decreases more.len() - i,
    {
        let ghost before = out@;
        out.push(more[i].clone());
        i += 1;
        assert(text::strs(out@) =~= text::strs(before).push(more@[i - 1]@));
        assert(text::strs(out@) =~= text::strs(old(out)@) + text::strs(more@).take(i as int));
    }
    assert(text::strs(more@).take(more@.len() as int) =~= text::strs(more@));
}

fn collect_labels(lists: &Vec<&Vec<DimNode>>) -> (r: Vec<String>)
    ensures
        text::strs(r@) == labels_in(lists_view(lists@)),
{
    let ghost all = lists_view(lists@);
    let mut out: Vec<String> = Vec::new();
    let mut i: usize = 0;
    assert(all.take(0) =~= Seq::<Seq<DimView>>::empty());
    assert(text::strs(out@) =~= labels_in(all.take(0)));
    while i < lists.len()
        invariant
            i <= lists@.len(),
            all == lists_view(lists@),
            text::strs(out@) == labels_in(all.take(i as int)),
        decreases lists.len() - i,
    {
        let dims = lists[i];
        let ghost start = text::strs(out@);
        let ghost labels = labels_of(model::dims_view(dims@));
        let mut j: usize = 0;
        assert(text::strs(out@) =~= start + labels.take(0));
        while j < dims.len()
            invariant
                j <= dims@.len(),
                labels == labels_of(model::dims_view(dims@)),
                text::strs(out@) == start + labels.take(j as int),
            decreases dims.len() - j,
        {
            let ghost before = out@;
            out.push(dims[j].label.clone());
            j += 1;
            assert(text::strs(out@) =~= text::strs(before).push(labels[j - 1]));
            assert(text::strs(out@) =~= start + labels.take(j as int));
        }
        assert(labels.take(dims@.len() as int) =~= labels);
        assert(all.take(i + 1).drop_last() =~= all.take(i as int));
        assert(all.take(i + 1).last() == model::dims_view(dims@));
        i += 1;
    }
    assert(all.take(lists@.len() as int) =~= all);
    out
}

fn collect_values(lists: &Vec<&Vec<DimNode>>, label: &str) -> (r: Vec<String>)
    ensures
        text::strs(r@) == values_in(lists_view(lists@), label@),
{
    let ghost all = lists_view(lists@);
    let mut out: Vec<String> = Vec::new();
    let mut i: usize = 0;
    assert(all.take(0) =~= Seq::<Seq<DimView>>::empty());
    assert(text::strs(out@) =~= values_in(all.take(0), label@));
    while i < lists.len()
        invariant
            i <= lists@.len(),
            all == lists_view(lists@),
            text::strs(out@) == values_in(all.take(i as int), label@),
        decreases lists.len() - i,
    {
        let dims = lists[i];
        let ghost start = text::strs(out@);
        let ghost dv = model::dims_view(dims@);
        let mut j: usize = 0;
        assert(dv.take(0) =~= Seq::<DimView>::empty());
        assert(text::strs(out@) =~= start + values_of(dv.take(0), label@));
        while j < dims.len()
            invariant
                j <= dims@.len(),
                dv == model::dims_view(dims@),
                text::strs(out@) == start + values_of(dv.take(j as int), label@),
            decreases dims.len() - j,
        {
            let ghost before = text::strs(out@);
            assert(dv.take(j + 1).drop_last() =~= dv.take(j as int));
            assert(dv.take(j + 1).last() == dims@[j as int]@);
            if text::same(&dims[j].label, label) {
                extend(&mut out, &dims[j].values);
            }
            j += 1;
            assert(text::strs(out@) =~= start + values_of(dv.take(j as int), label@));
        }
        assert(dv.take(dims@.len() as int) =~= dv);
        assert(all.take(i + 1).drop_last() =~= all.take(i as int));
        assert(all.take(i + 1).last() == dv);
        i += 1;
    }
    assert(all.take(lists@.len() as int) =~= all);
    out
}

/// The list kept under `key`.
pub fn find_kept<'a>(list: &'a Vec<(String, Vec<String>)>, key: &str) -> (r: Option<&'a Vec<String>>)
    ensures
        match r {
            Some(v) => kept(entries(list@), key@, 0) == Some(text::strs(v@)),
            None => kept(entries(list@), key@, 0) is None,
        },
{
    let ghost all = entries(list@);
    let mut i: usize = 0;
    while i < list.len()
        invariant
            i <= list@.len(),
            all == entries(list@),
            kept(all, key@, 0) == kept(all, key@, i as int),
        decreases list.len() - i,
    {
        assert(all[i as int] == (list@[i as int].0@, text::strs(list@[i as int].1@)));
        if text::same(&list[i].0, key) {
            return Some(&list[i].1);
        }
        i += 1;
    }
    None
}

fn static_names(list: &Vec<&'static str>) -> (r: Vec<String>)
    ensures
        text::strs(r@) == syntax::words(list@),
{
    let mut out: Vec<String> = Vec::new();
    let mut i: usize = 0;
    while i < list.len()
        invariant
            i <= list@.len(),
            text::strs(out@) =~= syntax::words(list@).take(i as int),
        decreases list.len() - i,
    {
        let ghost before = out@;
        out.push(text::owned(list[i]));
        i += 1;
        assert(text::strs(out@) =~= text::strs(before).push(syntax::words(list@)[i - 1]));
        assert(syntax::words(list@).take(i as int) =~= syntax::words(list@).take(i - 1).push(syntax::words(list@)[i - 1]));
    }
    assert(syntax::words(list@).take(list@.len() as int) =~= syntax::words(list@));
    out
}

/// Ranks the suggestions whose name starts with `token` (whatever the case), filtered by the caret
/// `context`. In expression position: metric names first (on the Metrics screen), then functions,
/// then keywords. In a `{...}` matcher: the label names of the referenced metric (or of all
/// discovered metrics for a bare selector). In a quoted value: that label's known values. Each group
/// is sorted and holds no name twice.
pub fn completion_candidates(
    screen: Screen,
    metric_names: &Vec<String>,
    metric_tree: &Vec<MetricNode>,
    log_labels: &Vec<String>,
    log_label_values: &Vec<(String, Vec<String>)>,
    context: &CompletionContext,
    token: &str,
) -> (r: Vec<Candidate>)
    ensures
        candidates_view(r@) == at_most(
            all_candidates(
                screen,
                text::strs(metric_names@),
                model::tree_view(metric_tree@),
                text::strs(log_labels@),
                entries(log_label_values@),
                context@,
                token@,
            ),
            MAX_CANDIDATES as int,
        ),
{
    let letters = text::chars_of(token);
    let mut out: Vec<Candidate> = Vec::new();
    assert(candidates_view(out@) =~= Seq::<CandidateView>::empty());
    match context {
        CompletionContext::Suppressed => {},
        CompletionContext::Expr => {
            if screen == Screen::Logs {
                let operators = static_names(&syntax::logql_line_filters());
                push_group(&mut out, &operators, CandidateKind::Operator, &letters);
            } else {
                if screen == Screen::Metrics {
                    push_group(&mut out, metric_names, CandidateKind::Metric, &letters);
                }
                let functions = static_names(&syntax::functions_for(screen));
                push_group(&mut out, &functions, CandidateKind::Function, &letters);
            }
            let keywords = static_names(&syntax::keywords_for(screen));
            push_group(&mut out, &keywords, CandidateKind::Keyword, &letters);
        },
        CompletionContext::LabelName { metric } => {
            if screen == Screen::Logs {
                push_group(&mut out, log_labels, CandidateKind::Label, &letters);
            } else {
                let lists = dims_for(
                    metric_tree,
                    match metric {
                        Some(name) => Some(name.as_str()),
                        None => None,
                    },
                );
                let keys = collect_labels(&lists);
                push_group(&mut out, &keys, CandidateKind::Label, &letters);
            }
        },
        CompletionContext::LabelValue { metric, label } => {
            if screen == Screen::Logs {
                let mut values: Vec<String> = Vec::new();
                if let Some(v) = find_kept(log_label_values, label) {
                    extend(&mut values, v);
                }
                assert(text::strs(values@) =~= match kept(entries(log_label_values@), label@, 0) {
                    Some(v) => v,
                    None => Seq::empty(),
                });
                push_group(&mut out, &values, CandidateKind::LabelValue, &letters);
            } else {
                let lists = dims_for(
                    metric_tree,
                    match metric {
                        Some(name) => Some(name.as_str()),
                        None => None,
                    },
                );
                let values = collect_values(&lists, label);
                push_group(&mut out, &values, CandidateKind::LabelValue, &letters);
            }
        },
    }
    let ghost all = candidates_view(out@);
    if out.len() > MAX_CANDIDATES {
        out.truncate(MAX_CANDIDATES);
        assert(candidates_view(out@) =~= all.take(MAX_CANDIDATES as int));
    }
    out
}

} // verus!
