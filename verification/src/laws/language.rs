//! The query languages: how a query is coloured, which metric it shows, and what is offered and looked up
//! while it is typed.

use vstd::prelude::*;

use crate::app::AppView;
use crate::completion;
use crate::completion::ContextView;
use crate::laws::completion::{suggestions, Known};
use crate::model::{Mode, NodeView, Screen};
use crate::promql;
use crate::style::{Color, Style};
use crate::syntax;
use crate::syntax::{Run, Token};
use crate::tasks;
use crate::tasks::{Env, RequestView};
use crate::text;

verus! {

/// Whether the characters of `s` from `i` on are white space up to one that is `c`.
pub open spec fn next_is(s: Seq<char>, i: int, c: char) -> bool {
    exists|j: int|
        i <= j < s.len() && #[trigger] s[j] == c && forall|k: int| i <= k < j ==> text::space(#[trigger] s[k])
}

proof fn lemma_after_space(s: Seq<char>, i: int)
    requires
        0 <= i <= s.len(),
    ensures
        i <= syntax::after_space(s, i) <= s.len(),
        forall|k: int| i <= k < syntax::after_space(s, i) ==> text::space(#[trigger] s[k]),
        syntax::after_space(s, i) < s.len() ==> !text::space(s[syntax::after_space(s, i)]),
    decreases s.len() - i,
{
    if i < s.len() && text::space(s[i]) {
        lemma_after_space(s, i + 1);
    }
}

/// A word of a query is a function where an opening bracket follows, past any white space.
pub proof fn law_a_call_is_a_word_before_a_bracket(s: Seq<char>, i: int)
    requires
        0 <= i <= s.len(),
    ensures
        syntax::call_follows(s, i) <==> next_is(s, i, '('),
{
    lemma_after_space(s, i);
    let j = syntax::after_space(s, i);
    if syntax::call_follows(s, i) {
        assert(s[j] == '(');
    }
    if next_is(s, i, '(') {
        let m = choose|m: int|
            i <= m < s.len() && #[trigger] s[m] == '(' && forall|k: int| i <= k < m ==> text::space(#[trigger] s[k]);
        if m < j {
            assert(text::space(s[m]));
        }
        if j < m {
            assert(text::space(s[j]));
        }
    }
}

/// The colour of plain text in one colour.
pub open spec fn coloured(c: Color) -> Style {
    Style { fg: Some(c), bg: None, bold: false, underlined: false, reversed: false }
}

/// A query is coloured by what its parts are: quoted text green, numbers magenta, functions and keywords cyan,
/// operators yellow, brackets and commas grey, and other words plain.
pub proof fn law_a_query_is_coloured_by_its_parts(screen: Screen, s: Seq<char>, t: Token)
    requires
        syntax::is_token(screen, s, t),
    ensures
        ({
            let c = s[t.start as int];
            let word = s.subrange(t.start as int, t.end as int);
            let letter = 'a' <= c <= 'z' || 'A' <= c <= 'Z' || c == '_' || c == ':';
            &&& c == '"' || c == '\'' || c == '`' ==> t.style == coloured(Color::Green)
            &&& '0' <= c <= '9' ==> t.style == coloured(Color::Magenta)
            &&& c == '=' || c == '!' || c == '~' || c == '<' || c == '>' || c == '|' || c == '&' || c == '+' || c == '-' || c
                == '*' || c == '/' || c == '^' || c == '?' ==> t.style == coloured(Color::Yellow)
            &&& c == '{' || c == '}' || c == '[' || c == ']' || c == '(' || c == ')' || c == ',' ==> t.style == coloured(
                Color::DarkGray,
            ) && t.end == t.start + 1
            &&& letter && (next_is(s, t.end as int, '(') || syntax::keywords(screen).contains(word)) ==> t.style == coloured(
                Color::Cyan,
            )
            &&& letter && !next_is(s, t.end as int, '(') && !syntax::keywords(screen).contains(word) ==> t.style == (Style {
                fg: None,
                bg: None,
                bold: false,
                underlined: false,
                reversed: false,
            })
        }),
{
    law_a_call_is_a_word_before_a_bracket(s, t.end as int);
}

proof fn lemma_run(run: Run, s: Seq<char>, i: int)
    requires
        0 <= i <= s.len(),
    ensures
        forall|k: int| i <= k < syntax::run_end(run, s, i) ==> syntax::in_run(run, #[trigger] s[k]),
        syntax::run_end(run, s, i) < s.len() ==> !syntax::in_run(run, s[syntax::run_end(run, s, i)]),
        i <= syntax::run_end(run, s, i) <= s.len(),
    decreases s.len() - i,
{
    syntax::lemma_run_end(run, s, i);
    if i < s.len() && syntax::in_run(run, s[i]) {
        lemma_run(run, s, i + 1);
    }
}

/// A word goes on as long as identifier characters follow, a number as long as letters, digits and dots do, and
/// an operator as long as operator signs do: each part is as long as it can be.
pub proof fn law_parts_are_as_long_as_they_can_be(screen: Screen, s: Seq<char>, t: Token)
    requires
        syntax::is_token(screen, s, t),
    ensures
        ({
            let c = s[t.start as int];
            let word = 'a' <= c <= 'z' || 'A' <= c <= 'Z' || c == '_' || c == ':';
            let number = '0' <= c <= '9';
            let numeric = |x: char| 'a' <= x <= 'z' || 'A' <= x <= 'Z' || '0' <= x <= '9' || x == '.';
            &&& word ==> (forall|k: int| t.start <= k < t.end ==> syntax::ident(#[trigger] s[k])) && (t.end < s.len() ==> !syntax::ident(
                s[t.end as int],
            ))
            &&& number ==> (forall|k: int| t.start <= k < t.end ==> numeric(#[trigger] s[k])) && (t.end < s.len() ==> !numeric(
                s[t.end as int],
            ))
        }),
{
    let c = s[t.start as int];
    lemma_run(Run::Word, s, t.start as int);
    lemma_run(Run::Number, s, t.start as int);
}

/// A quoted text ends right behind the next quote of its kind, where no backslash stands in it.
pub proof fn law_a_quoted_text_ends_at_its_quote(screen: Screen, s: Seq<char>, t: Token, end: int)
    requires
        syntax::is_token(screen, s, t),
        s[t.start as int] == '"' || s[t.start as int] == '\'' || s[t.start as int] == '`',
        t.start < end < s.len(),
        s[end] == s[t.start as int],
        forall|k: int| t.start < k < end ==> #[trigger] s[k] != s[t.start as int] && s[k] != '\\',
    ensures
        t.end == end + 1,
{
    lemma_quoted(s[t.start as int], s, t.start + 1, end);
}

proof fn lemma_quoted(quote: char, s: Seq<char>, i: int, end: int)
    requires
        0 <= i <= end < s.len(),
        s[end] == quote,
        quote != '\\',
        forall|k: int| i <= k < end ==> #[trigger] s[k] != quote && s[k] != '\\',
    ensures
        syntax::quoted_end(quote, s, i) == end + 1,
    decreases end - i,
{
    if i < end {
        assert(s[i] != quote);
        lemma_quoted(quote, s, i + 1, end);
    }
}

/// Whether the characters `i..e` of a query are a word of it: an identifier of ASCII that does not go on.
pub open spec fn word_at(s: Seq<char>, i: int, e: int) -> bool {
    let part = |c: char| 'a' <= c <= 'z' || 'A' <= c <= 'Z' || '0' <= c <= '9' || c == '_' || c == ':' || c == '.';
    &&& 0 <= i < e <= s.len()
    &&& 'a' <= s[i] <= 'z' || 'A' <= s[i] <= 'Z' || s[i] == '_' || s[i] == ':'
    &&& forall|k: int| i <= k < e ==> part(#[trigger] s[k])
    &&& e < s.len() ==> s[e] <= '\u{7f}' && !part(s[e])
}

/// Whether the next character of a query that is no blank opens a bracket.
pub open spec fn opens(s: Seq<char>, i: int) -> bool {
    let blank = |c: char| c == ' ' || '\t' <= c <= '\r';
    exists|j: int| i <= j < s.len() && #[trigger] s[j] == '(' && forall|k: int| i <= k < j ==> blank(#[trigger] s[k])
}

proof fn lemma_opens(s: Seq<char>, i: int)
    requires
        0 <= i <= s.len(),
    ensures
        opens(s, i) <==> promql::after_blanks(s, i) < s.len() && s[promql::after_blanks(s, i)] == '(',
    decreases s.len() - i,
{
    promql::lemma_after_blanks(s, i);
    let blank = |c: char| c == ' ' || '\t' <= c <= '\r';
    if i < s.len() && promql::blank(s[i]) {
        lemma_opens(s, i + 1);
        if opens(s, i + 1) {
            let j = choose|j: int|
                i + 1 <= j < s.len() && #[trigger] s[j] == '(' && forall|k: int| i + 1 <= k < j ==> blank(#[trigger] s[k]);
            assert forall|k: int| i <= k < j implies blank(#[trigger] s[k]) by {
            }
            assert(s[j] == '(');
        }
        if opens(s, i) {
            let j = choose|j: int|
                i <= j < s.len() && #[trigger] s[j] == '(' && forall|k: int| i <= k < j ==> blank(#[trigger] s[k]);
            assert(j != i);
            assert(s[j] == '(');
        }
    } else if i < s.len() {
        if s[i] == '(' {
            assert(s[i] == '(');
        } else if opens(s, i) {
            let j = choose|j: int|
                i <= j < s.len() && #[trigger] s[j] == '(' && forall|k: int| i <= k < j ==> blank(#[trigger] s[k]);
            assert(blank(s[i]));
        }
    }
}

/// The metric that a query selects is its first word that is no call, no aggregation and no modifier. Calls and
/// keywords are passed over, and so is everything that is no word.
pub proof fn law_the_first_plain_word_is_the_metric(s: Seq<char>, i: int, e: int)
    requires
        word_at(s, i, e),
    ensures
        ({
            let word = s.subrange(i, e);
            let kept = promql::reserved().contains(word) || promql::grouping().contains(word);
            &&& !kept && !opens(s, e) ==> promql::selector(s, i) == Some(word)
            &&& !promql::grouping().contains(word) && (opens(s, e) || promql::reserved().contains(word)) ==> promql::selector(s, i)
                == promql::selector(s, e)
            &&& promql::grouping().contains(word) && !opens(s, e) ==> promql::selector(s, i) == promql::selector(s, e)
        }),
{
    assert forall|k: int| i <= k < e implies promql::continues_word(#[trigger] s[k]) by {
    }
    assert(e < s.len() ==> !promql::continues_word(s[e]));
    promql::lemma_word_ends_at(s, i, e);
    lemma_opens(s, e);
}

/// The labels in brackets behind a grouping modifier are no metrics: the search goes on behind the bracket.
pub proof fn law_grouping_labels_are_no_metrics(s: Seq<char>, i: int, e: int, open: int, close: int)
    requires
        word_at(s, i, e),
        promql::grouping().contains(s.subrange(i, e)),
        e <= open < close < s.len(),
        s[open] == '(' && s[close] == ')',
        forall|k: int| e <= k < open ==> #[trigger] s[k] == ' ',
        forall|k: int| open < k < close ==> #[trigger] s[k] != '(' && s[k] != ')',
    ensures
        promql::selector(s, i) == promql::selector(s, close + 1),
{
    assert forall|k: int| i <= k < e implies promql::continues_word(#[trigger] s[k]) by {
    }
    assert(e < s.len() ==> !promql::continues_word(s[e]));
    promql::lemma_word_ends_at(s, i, e);
    lemma_blanks(s, e, open);
    lemma_group(s, open + 1, close);
}

proof fn lemma_blanks(s: Seq<char>, i: int, j: int)
    requires
        0 <= i <= j < s.len(),
        s[j] == '(',
        forall|k: int| i <= k < j ==> #[trigger] s[k] == ' ',
    ensures
        promql::after_blanks(s, i) == j,
    decreases j - i,
{
    if i < j {
        assert(s[i] == ' ');
        lemma_blanks(s, i + 1, j);
    }
}

proof fn lemma_group(s: Seq<char>, i: int, close: int)
    requires
        0 <= i <= close < s.len(),
        forall|k: int| i <= k < close ==> #[trigger] s[k] != '(' && s[k] != ')',
        s[close] == ')',
    ensures
        promql::group_end(s, i, 1) == close + 1,
    decreases close - i,
{
    if i < close {
        assert(s[i] != '(' && s[i] != ')');
        lemma_group(s, i + 1, close);
    }
}

/// The aggregations of PromQL and its set operators select no metric, and its grouping modifiers do not either.
pub proof fn law_keywords_select_nothing()
    ensures
        forall|w: Seq<char>|
            w == "sum"@ || w == "avg"@ || w == "min"@ || w == "max"@ || w == "count"@ || w == "count_values"@ || w == "stddev"@ || w
                == "stdvar"@ || w == "group"@ || w == "topk"@ || w == "bottomk"@ || w == "quantile"@ || w == "and"@ || w == "or"@
                || w == "unless"@ || w == "bool"@ || w == "offset"@ || w == "atan2"@ <==> #[trigger] promql::reserved().contains(w),
        forall|w: Seq<char>|
            w == "by"@ || w == "without"@ || w == "on"@ || w == "ignoring"@ || w == "group_left"@ || w == "group_right"@
                <==> #[trigger] promql::grouping().contains(w),
{
    let r = promql::reserved();
    let g = promql::grouping();
    assert(r[0] == "sum"@ && r[1] == "avg"@ && r[2] == "min"@ && r[3] == "max"@ && r[4] == "count"@ && r[5] == "count_values"@);
    assert(r[6] == "stddev"@ && r[7] == "stdvar"@ && r[8] == "group"@ && r[9] == "topk"@ && r[10] == "bottomk"@);
    assert(r[11] == "quantile"@ && r[12] == "and"@ && r[13] == "or"@ && r[14] == "unless"@ && r[15] == "bool"@);
    assert(r[16] == "offset"@ && r[17] == "atan2"@);
    assert(g[0] == "by"@ && g[1] == "without"@ && g[2] == "on"@ && g[3] == "ignoring"@ && g[4] == "group_left"@ && g[5]
        == "group_right"@);
}

/// A series belongs to the metric that its labels name, and without such a label to the one that its query
/// selects.
pub proof fn law_a_series_belongs_to_its_named_metric(labels: Seq<char>, query: Seq<char>, k: int, name: Seq<char>)
    requires
        name.len() > 0,
        0 <= k < text::split(labels, ',').len(),
        text::split(labels, ',')[k] == "__name__="@ + name,
        forall|j: int| 0 <= j < k ==> !promql::starts_with(#[trigger] text::split(labels, ',')[j], "__name__="@),
    ensures
        promql::detail_metric(labels, query) == Some(name),
{
    let pairs = text::split(labels, ',');
    let p = "__name__="@;
    assert((p + name).take(p.len() as int) =~= p);
    assert((p + name).skip(p.len() as int) =~= name);
    lemma_name_label(pairs, 0, k);
}

proof fn lemma_name_label(pairs: Seq<Seq<char>>, i: int, k: int)
    requires
        0 <= i <= k < pairs.len(),
        promql::starts_with(pairs[k], "__name__="@) && pairs[k].len() > "__name__="@.len(),
        forall|j: int| 0 <= j < k ==> !promql::starts_with(#[trigger] pairs[j], "__name__="@),
    ensures
        promql::name_label(pairs, i) == Some(pairs[k].skip("__name__="@.len() as int)),
    decreases k - i,
{
    if i < k {
        assert(!promql::starts_with(pairs[i], "__name__="@));
        lemma_name_label(pairs, i + 1, k);
    }
}

/// Without a label that names the metric, the query tells it.
pub proof fn law_a_series_without_a_name_belongs_to_its_query(labels: Seq<char>, query: Seq<char>)
    requires
        forall|j: int|
            0 <= j < text::split(labels, ',').len() ==> !promql::starts_with(#[trigger] text::split(labels, ',')[j], "__name__="@),
    ensures
        promql::detail_metric(labels, query) == promql::selector(query, 0),
{
    lemma_no_name(text::split(labels, ','), 0);
}

proof fn lemma_no_name(pairs: Seq<Seq<char>>, i: int)
    requires
        0 <= i <= pairs.len(),
        forall|j: int| 0 <= j < pairs.len() ==> !promql::starts_with(#[trigger] pairs[j], "__name__="@),
    ensures
        promql::name_label(pairs, i) is None,
    decreases pairs.len() - i,
{
    if i < pairs.len() {
        assert(!promql::starts_with(pairs[i], "__name__="@));
        lemma_no_name(pairs, i + 1);
    }
}

/// What the session knows to complete with.
pub open spec fn known(a: AppView) -> Known {
    Known {
        screen: a.screen(),
        metric_names: a.words.metric_names,
        tree: a.catalog.metric_tree,
        log_labels: match a.words.log_labels {
            Some(names) => names,
            None => Seq::empty(),
        },
        log_label_values: a.words.log_label_values,
    }
}

/// The popup offers what fits in front of the caret, fifty suggestions at most. It stays closed outside of the
/// editor, where nothing fits, where all that fits is what is typed already, and before anything is typed of an
/// expression other than a log search.
pub proof fn law_the_popup_offers_what_fits(a: AppView)
    requires
        a.mode == Mode::Editing,
    ensures
        ({
            let context = completion::context_of(a.before_caret());
            let typed = completion::token_of(a.before_caret());
            let all = suggestions(known(a), context, typed);
            let waits = typed.len() == 0 && (context is Suppressed || (context is Expr && a.screen() != Screen::Logs));
            &&& a.offered() is None <==> waits || all.len() == 0 || (all.len() == 1 && all[0].text == typed)
            &&& a.offered() matches Some(c) ==> c.candidates == (if all.len() <= 50 { all } else { all.take(50) })
            &&& a.offered() is Some && a.words.completion is None ==> (a.offered()->0).selected == 0
            &&& a.offered() is Some && a.words.completion is Some && (a.words.completion->0).selected < (
            a.offered()->0).candidates.len() ==> (a.offered()->0).selected == (a.words.completion->0).selected
        }),
{
    let context = completion::context_of(a.before_caret());
    let typed = completion::token_of(a.before_caret());
    let all = suggestions(known(a), context, typed);
    let shown = completion::at_most(all, completion::MAX_CANDIDATES as int);
    assert(shown =~= if all.len() <= 50 { all } else { all.take(50) });
}

/// In the braces of a metric whose dimensions are not known, and not on their way, they are asked for; in all
/// other places of the Metrics screen nothing is.
pub proof fn law_dimensions_are_looked_up_where_they_are_needed(a: AppView, env: Env, name: Seq<char>, i: int)
    requires
        a.mode == Mode::Editing,
        a.at.route == crate::model::RouteView::Metrics,
        0 <= i < a.catalog.metric_tree.len(),
        a.catalog.metric_tree[i].name == name,
        forall|k: int| 0 <= k < i ==> (#[trigger] a.catalog.metric_tree[k]).name != name,
        match completion::context_of(a.before_caret()) {
            ContextView::LabelName { metric } => metric == Some(name),
            ContextView::LabelValue { metric, .. } => metric == Some(name),
            _ => false,
        },
    ensures
        ({
            let node = a.catalog.metric_tree[i];
            let s = tasks::discover_step(a, env);
            &&& node.dims is None && !node.loading ==> s.requests == seq![
                RequestView::MetricDims { name, max_values: env.options.max_series },
            ] && s.app.catalog.metric_tree == a.catalog.metric_tree.update(i, NodeView { loading: true, ..node })
            &&& node.dims is Some || node.loading ==> s.requests.len() == 0 && s.app == a
        }),
{
    reveal(tasks::discover_step);
    lemma_named(a.catalog.metric_tree, name, 0, i);
    let s = tasks::discover_step(a, env);
    let node = a.catalog.metric_tree[i];
    if node.dims is None && !node.loading {
        assert(s.requests =~= seq![RequestView::MetricDims { name, max_values: env.options.max_series }]);
    }
}

proof fn lemma_named(tree: Seq<NodeView>, name: Seq<char>, from: int, i: int)
    requires
        0 <= from <= i < tree.len(),
        tree[i].name == name,
        forall|k: int| 0 <= k < i ==> (#[trigger] tree[k]).name != name,
    ensures
        completion::node_named(tree, name, from) == Some(i),
    decreases i - from,
{
    if from < i {
        lemma_named(tree, name, from + 1, i);
    }
}

/// In a log search the labels are asked for where one is being written, and the values of a label where its
/// value is, each once.
pub proof fn law_log_words_are_looked_up_where_they_are_needed(a: AppView, env: Env, label: Seq<char>)
    requires
        a.mode == Mode::Editing,
        a.at.route == crate::model::RouteView::Logs,
    ensures
        ({
            let context = completion::context_of(a.before_caret());
            let s = tasks::discover_step(a, env);
            &&& context is LabelName ==> s.requests == if a.words.log_labels is None && !a.words.log_labels_loading {
                seq![RequestView::LogLabels]
            } else {
                Seq::empty()
            }
            &&& context is LabelName ==> (s.app.words.log_labels_loading <==> a.words.log_labels_loading || a.words.log_labels is None)
            &&& context matches ContextView::LabelValue { label: l, .. } ==> (l == label ==> s.requests == if completion::kept(
                a.words.log_label_values,
                label,
                0,
            ) is None && !a.words.log_label_values_loading.contains(label) {
                seq![RequestView::LogLabelValues(label)]
            } else {
                Seq::empty()
            })
            &&& context is Expr || context is Suppressed ==> s.requests.len() == 0
        }),
{
    reveal(tasks::discover_step);
    let s = tasks::discover_step(a, env);
    let context = completion::context_of(a.before_caret());
    assert(a.dims_wanted() is None);
    assert(a.dims_asked() == a);
    if context is LabelName {
        assert(s.requests =~= if a.words.log_labels is None && !a.words.log_labels_loading {
            seq![RequestView::LogLabels]
        } else {
            Seq::empty()
        });
    } else if let ContextView::LabelValue { label: l, .. } = context {
        if l == label {
            assert(s.requests =~= if completion::kept(a.words.log_label_values, label, 0) is None
                && !a.words.log_label_values_loading.contains(label) {
                seq![RequestView::LogLabelValues(label)]
            } else {
                Seq::empty()
            });
        }
    }
}

} // verus!
