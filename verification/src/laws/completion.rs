//! Completing a query while it is typed: what the place of the caret calls for, and what is offered.

use vstd::prelude::*;

use crate::completion;
use crate::completion::{before, CandidateKind, CandidateView, ContextView};
use crate::model::{DimView, NodeView, Screen};
use crate::syntax;
use crate::text;

verus! {

/// Whether every character of `s` can stand in an identifier.
pub open spec fn identifier(s: Seq<char>) -> bool {
    forall|i: int| 0 <= i < s.len() ==> syntax::ident(#[trigger] s[i])
}

/// Whether an identifier that follows `s` starts there.
pub open spec fn ends_no_identifier(s: Seq<char>) -> bool {
    s.len() == 0 || !syntax::ident(s[s.len() - 1])
}

/// Whether the double quotes of `s` pair up.
pub open spec fn quotes_pair_up(s: Seq<char>) -> bool {
    s.to_multiset().count('"') % 2 == 0
}

/// Whether `s` is made of comparison signs and blanks, as what stands between a label and its value is.
pub open spec fn comparison(s: Seq<char>) -> bool {
    forall|i: int| 0 <= i < s.len() ==> (#[trigger] s[i] == '=' || s[i] == '!' || s[i] == '~' || s[i] == '<' || s[i] == '>'
        || s[i] == ' ')
}

/// Identifiers are made of letters, digits, underscores, colons and dots; no other sign of ASCII stands
/// in one.
pub proof fn law_identifiers_are_letters_digits_and_three_signs(c: char)
    requires
        c <= '\u{7f}',
    ensures
        syntax::ident(c) <==> 'a' <= c <= 'z' || 'A' <= c <= 'Z' || '0' <= c <= '9' || c == '_' || c == ':' || c == '.',
{
}

pub proof fn lemma_count(s: Seq<char>, c: char)
    ensures
        completion::count_of(s, c) == s.to_multiset().count(c),
    decreases s.len(),
{
    broadcast use vstd::seq_lib::group_to_multiset_ensures;

    if s.len() > 0 {
        lemma_count(s.drop_last(), c);
        assert(s =~= s.drop_last().push(s.last()));
    }
}

pub proof fn lemma_count_concat(a: Seq<char>, b: Seq<char>, c: char)
    ensures
        completion::count_of(a + b, c) == completion::count_of(a, c) + completion::count_of(b, c),
    decreases b.len(),
{
    if b.len() == 0 {
        assert(a + b =~= a);
    } else {
        assert((a + b).drop_last() =~= a + b.drop_last());
        lemma_count_concat(a, b.drop_last(), c);
    }
}

proof fn lemma_count_absent(s: Seq<char>, c: char)
    requires
        !s.contains(c),
    ensures
        completion::count_of(s, c) == 0,
    decreases s.len(),
{
    if s.len() > 0 {
        assert(s.contains(s.last()));
        assert forall|x: char| s.drop_last().contains(x) implies s.contains(x) by {
            let i = choose|i: int| 0 <= i < s.drop_last().len() && s.drop_last()[i] == x;
            assert(s[i] == x);
        }
        lemma_count_absent(s.drop_last(), c);
    }
}

/// The last `c` of `a + c + b` is the one between, where `b` has none.
proof fn lemma_last_between(a: Seq<char>, c: char, b: Seq<char>)
    requires
        !b.contains(c),
    ensures
        completion::last_of(a + seq![c] + b, c) == Some(a.len() as int),
{
    let s = a + seq![c] + b;
    completion::lemma_last_of(s, c);
    assert(s[a.len() as int] == c);
    match completion::last_of(s, c) {
        Some(k) => {
            if k > a.len() {
                assert(b[k - a.len() - 1] == s[k]);
                assert(b.contains(c));
            }
        },
        None => {
            assert(s.contains(c));
        },
    }
}

pub proof fn lemma_last_absent(s: Seq<char>, c: char)
    requires
        !s.contains(c),
    ensures
        completion::last_of(s, c) is None,
{
    completion::lemma_last_of(s, c);
    if let Some(k) = completion::last_of(s, c) {
        assert(s.contains(s[k]));
    }
}

pub proof fn lemma_last_ident(a: Seq<char>, word: Seq<char>)
    requires
        identifier(word),
        ends_no_identifier(a),
    ensures
        syntax::last_ident(a + word) == word,
    decreases word.len(),
{
    if word.len() == 0 {
        assert(a + word =~= a);
    } else {
        let w = word.drop_last();
        assert((a + word).drop_last() =~= a + w);
        assert((a + word).last() == word[word.len() - 1]);
        assert forall|i: int| 0 <= i < w.len() implies syntax::ident(#[trigger] w[i]) by {
            assert(w[i] == word[i]);
        }
        lemma_last_ident(a, w);
        assert(w.push(word.last()) =~= word);
    }
}

proof fn lemma_without_operator(a: Seq<char>, op: Seq<char>)
    requires
        comparison(op),
        a.len() > 0 ==> syntax::ident(a[a.len() - 1]),
    ensures
        completion::without_operator(a + op) == a,
    decreases op.len(),
{
    let s = a + op;
    if op.len() == 0 {
        assert(s =~= a);
    } else {
        let w = op.drop_last();
        assert(s.drop_last() =~= a + w);
        assert(s.last() == op[op.len() - 1]);
        assert forall|i: int| 0 <= i < w.len() implies (#[trigger] w[i] == '=' || w[i] == '!' || w[i] == '~' || w[i] == '<'
            || w[i] == '>' || w[i] == ' ') by {
            assert(w[i] == op[i]);
        }
        lemma_without_operator(a, w);
    }
}

/// Inside the quotes of a matcher the values of its label are called for, whichever way it compares: a
/// text that ends in a label, a comparison, an opening quote and the start of a value stands for that
/// label, and the token is the start of the value.
pub proof fn law_a_quoted_value_belongs_to_its_label(head: Seq<char>, label: Seq<char>, op: Seq<char>, token: Seq<char>)
    requires
        label.len() > 0,
        identifier(label),
        ends_no_identifier(head),
        quotes_pair_up(head),
        comparison(op),
        !token.contains('"'),
    ensures
        completion::context_of(head + label + op + seq!['"'] + token) matches ContextView::LabelValue { label: l, .. } && l
            == label,
        completion::token_of(head + label + op + seq!['"'] + token) == token,
{
    let front = head + label + op;
    let s = front + seq!['"'] + token;
    lemma_quote_counts(head, label, op, token);
    lemma_last_between(front, '"', token);
    assert(s.take(front.len() as int) =~= front);
    lemma_without_operator(head + label, op);
    lemma_last_ident(head, label);
    assert(s.skip(front.len() as int + 1) =~= token);
}

proof fn lemma_quote_counts(head: Seq<char>, label: Seq<char>, op: Seq<char>, token: Seq<char>)
    requires
        identifier(label),
        quotes_pair_up(head),
        comparison(op),
        !token.contains('"'),
    ensures
        completion::in_quotes(head + label + op + seq!['"'] + token),
{
    lemma_count(head, '"');
    assert forall|i: int| 0 <= i < label.len() implies label[i] != '"' by {
        assert(syntax::ident(label[i]));
    }
    lemma_count_absent(label, '"');
    lemma_count_absent(op, '"');
    lemma_count_absent(token, '"');
    reveal_with_fuel(completion::count_of, 2);
    assert(completion::count_of(seq!['"'], '"') == 1) by {
        assert(seq!['"'].drop_last() =~= Seq::<char>::empty());
    }
    lemma_count_concat(head, label, '"');
    lemma_count_concat(head + label, op, '"');
    lemma_count_concat(head + label + op, seq!['"'], '"');
    lemma_count_concat(head + label + op + seq!['"'], token, '"');
}

/// The values that are called for are those of the metric whose matchers are being written: the
/// identifier right before the last opening brace. Without one, no metric is named.
pub proof fn law_a_quoted_value_belongs_to_its_metric(
    pre: Seq<char>,
    metric: Seq<char>,
    inner: Seq<char>,
    label: Seq<char>,
    op: Seq<char>,
    token: Seq<char>,
)
    requires
        identifier(metric),
        ends_no_identifier(pre),
        !inner.contains('{'),
        ends_no_identifier(inner),
        label.len() > 0,
        identifier(label),
        quotes_pair_up(pre + metric + seq!['{'] + inner),
        comparison(op),
        !token.contains('"'),
    ensures
        completion::context_of(pre + metric + seq!['{'] + inner + label + op + seq!['"'] + token) == (ContextView::LabelValue {
            metric: if metric.len() == 0 { None } else { Some(metric) },
            label,
        }),
{
    let head = pre + metric + seq!['{'] + inner;
    let front = head + label + op;
    let s = front + seq!['"'] + token;
    law_a_quoted_value_belongs_to_its_label(head, label, op, token);
    lemma_quote_counts(head, label, op, token);
    lemma_last_between(front, '"', token);
    assert(s.take(front.len() as int) =~= front);
    let rest = inner + label + op;
    assert(front =~= (pre + metric) + seq!['{'] + rest);
    assert(!rest.contains('{')) by {
        if rest.contains('{') {
            let i = choose|i: int| 0 <= i < rest.len() && rest[i] == '{';
            if i < inner.len() {
                assert(inner.contains(inner[i]));
            } else if i < inner.len() + label.len() {
                assert(syntax::ident(label[i - inner.len()]));
            } else {
                assert(op[i - inner.len() - label.len()] == '{');
            }
        }
    }
    lemma_last_between(pre + metric, '{', rest);
    assert(front.take((pre + metric).len() as int) =~= pre + metric);
    lemma_last_ident(pre, metric);
}

/// Outside of a brace a quoted value names no metric.
pub proof fn law_a_quoted_value_without_a_brace_names_no_metric(
    head: Seq<char>,
    label: Seq<char>,
    op: Seq<char>,
    token: Seq<char>,
)
    requires
        label.len() > 0,
        identifier(label),
        ends_no_identifier(head),
        quotes_pair_up(head),
        !head.contains('{'),
        comparison(op),
        !token.contains('"'),
    ensures
        completion::context_of(head + label + op + seq!['"'] + token) == (ContextView::LabelValue { metric: None, label }),
{
    let front = head + label + op;
    let s = front + seq!['"'] + token;
    law_a_quoted_value_belongs_to_its_label(head, label, op, token);
    lemma_quote_counts(head, label, op, token);
    lemma_last_between(front, '"', token);
    assert(s.take(front.len() as int) =~= front);
    assert(!front.contains('{')) by {
        if front.contains('{') {
            let i = choose|i: int| 0 <= i < front.len() && front[i] == '{';
            if i < head.len() {
                assert(head.contains(head[i]));
            } else if i < head.len() + label.len() {
                assert(syntax::ident(label[i - head.len()]));
            } else {
                assert(op[i - head.len() - label.len()] == '{');
            }
        }
    }
    lemma_last_absent(front, '{');
}

pub proof fn lemma_trim_end(a: Seq<char>, blanks: Seq<char>)
    requires
        forall|i: int| 0 <= i < blanks.len() ==> #[trigger] blanks[i] == ' ',
        a.len() > 0 ==> !text::space(a[a.len() - 1]),
    ensures
        text::trim_end(a + blanks) == a,
    decreases blanks.len(),
{
    if blanks.len() == 0 {
        assert(a + blanks =~= a);
    } else {
        let b = blanks.drop_last();
        assert((a + blanks).drop_last() =~= a + b);
        assert((a + blanks).last() == blanks[blanks.len() - 1]);
        assert forall|i: int| 0 <= i < b.len() implies #[trigger] b[i] == ' ' by {
            assert(b[i] == blanks[i]);
        }
        lemma_trim_end(a, b);
    }
}

proof fn lemma_in_block(open: Seq<char>, inner: Seq<char>, blanks: Seq<char>, token: Seq<char>)
    requires
        !inner.contains('{'),
        !inner.contains('}'),
        forall|i: int| 0 <= i < blanks.len() ==> #[trigger] blanks[i] == ' ',
        identifier(token),
        quotes_pair_up(open + seq!['{'] + inner),
    ensures
        ({
            let s = open + seq!['{'] + inner + blanks + token;
            &&& !completion::in_quotes(s)
            &&& completion::open_block(s) == Some(open.len() as int)
            &&& s.take(open.len() as int) == open
        }),
{
    let head = open + seq!['{'] + inner;
    let s = head + blanks + token;
    lemma_count(head, '"');
    lemma_count_absent(blanks, '"');
    assert forall|i: int| 0 <= i < token.len() implies token[i] != '"' && token[i] != '{' && token[i] != '}' by {
        assert(syntax::ident(token[i]));
    }
    lemma_count_absent(token, '"');
    lemma_count_concat(head, blanks, '"');
    lemma_count_concat(head + blanks, token, '"');
    let rest = inner + blanks + token;
    assert forall|i: int| 0 <= i < rest.len() implies rest[i] != '{' && rest[i] != '}' by {
        if i < inner.len() {
            assert(inner.contains(inner[i]));
        } else if i < inner.len() + blanks.len() {
            assert(blanks[i - inner.len()] == ' ');
        } else {
            assert(rest[i] == token[i - inner.len() - blanks.len()]);
        }
    }
    assert(s =~= open + seq!['{'] + rest);
    lemma_last_between(open, '{', rest);
    completion::lemma_last_of(s, '}');
    if let Some(close) = completion::last_of(s, '}') {
        if close > open.len() {
            assert(s[close] == rest[close - open.len() - 1]);
        }
        assert(s[open.len() as int] == '{');
    }
    assert(s.take(open.len() as int) =~= open);
}

/// Behind an opening brace, and behind a comma within the braces, the labels of the metric before the
/// brace are called for, with the identifier that is being written as the token.
pub proof fn law_a_label_is_called_for_behind_a_brace_or_comma(
    pre: Seq<char>,
    metric: Seq<char>,
    inner: Seq<char>,
    blanks: Seq<char>,
    token: Seq<char>,
)
    requires
        identifier(metric),
        ends_no_identifier(pre),
        !inner.contains('{'),
        !inner.contains('}'),
        inner.len() > 0 ==> inner[inner.len() - 1] == ',',
        forall|i: int| 0 <= i < blanks.len() ==> #[trigger] blanks[i] == ' ',
        identifier(token),
        quotes_pair_up(pre + metric + seq!['{'] + inner),
    ensures
        completion::context_of(pre + metric + seq!['{'] + inner + blanks + token) == (ContextView::LabelName {
            metric: if metric.len() == 0 { None } else { Some(metric) },
        }),
        completion::token_of(pre + metric + seq!['{'] + inner + blanks + token) == token,
{
    let head = pre + metric + seq!['{'] + inner;
    let s = head + blanks + token;
    lemma_in_block(pre + metric, inner, blanks, token);
    lemma_last_ident(pre, metric);
    let front = head + blanks;
    assert(head[head.len() - 1] == '{' || head[head.len() - 1] == ',') by {
        if inner.len() > 0 {
            assert(head[head.len() - 1] == inner[inner.len() - 1]);
        }
    }
    assert(ends_no_identifier(front)) by {
        if blanks.len() > 0 {
            assert(front[front.len() - 1] == blanks[blanks.len() - 1]);
        } else {
            assert(front =~= head);
        }
    }
    lemma_last_ident(front, token);
    assert(s.take(s.len() - token.len()) =~= front);
    lemma_trim_end(head, blanks);
}

/// Behind anything else within the braces nothing is offered: a value must be quoted first.
pub proof fn law_nothing_is_called_for_behind_a_comparison(
    open: Seq<char>,
    inner: Seq<char>,
    blanks: Seq<char>,
    token: Seq<char>,
)
    requires
        inner.len() > 0,
        !inner.contains('{'),
        !inner.contains('}'),
        inner[inner.len() - 1] != ',' && !text::space(inner[inner.len() - 1]),
        blanks.len() > 0 || !syntax::ident(inner[inner.len() - 1]),
        forall|i: int| 0 <= i < blanks.len() ==> #[trigger] blanks[i] == ' ',
        identifier(token),
        quotes_pair_up(open + seq!['{'] + inner),
    ensures
        completion::context_of(open + seq!['{'] + inner + blanks + token) == ContextView::Suppressed,
{
    let head = open + seq!['{'] + inner;
    let s = head + blanks + token;
    lemma_in_block(open, inner, blanks, token);
    let front = head + blanks;
    assert(head[head.len() - 1] == inner[inner.len() - 1]);
    assert(inner.contains(inner[inner.len() - 1]));
    assert(ends_no_identifier(front)) by {
        if blanks.len() > 0 {
            assert(front[front.len() - 1] == blanks[blanks.len() - 1]);
        } else {
            assert(front =~= head);
        }
    }
    lemma_last_ident(front, token);
    assert(s.take(s.len() - token.len()) =~= front);
    lemma_trim_end(head, blanks);
}

/// Outside of braces and quotes an expression is called for.
pub proof fn law_an_expression_is_called_for_outside_of_braces(head: Seq<char>, tail: Seq<char>)
    requires
        head.len() == 0 || head[head.len() - 1] == '}',
        !tail.contains('{'),
        quotes_pair_up(head + tail),
    ensures
        completion::context_of(head + tail) == ContextView::Expr,
        completion::token_of(head + tail) == syntax::last_ident(head + tail),
{
    let s = head + tail;
    lemma_count(s, '"');
    completion::lemma_last_of(s, '{');
    completion::lemma_last_of(s, '}');
    if let Some(open) = completion::last_of(s, '{') {
        if open >= head.len() {
            assert(tail[open - head.len()] == '{');
            assert(tail.contains('{'));
        }
        assert(s[head.len() - 1] == '}');
        match completion::last_of(s, '}') {
            Some(close) => {
                assert(close >= head.len() - 1);
            },
            None => {
                assert(s.contains(s[head.len() - 1]));
            },
        }
    }
}

/// Whether two characters are the same letter, whatever the case of ASCII letters.
pub open spec fn same_letter(a: char, b: char) -> bool {
    ||| a == b
    ||| 'A' <= a <= 'Z' && b as int == a as int + 32
    ||| 'A' <= b <= 'Z' && a as int == b as int + 32
}

/// Whether the name starts with what is typed, whatever the case of ASCII letters.
pub open spec fn starts_as_typed(name: Seq<char>, typed: Seq<char>) -> bool {
    typed.len() <= name.len() && forall|i: int| 0 <= i < typed.len() ==> same_letter(#[trigger] name[i], typed[i])
}

proof fn lemma_completes(name: Seq<char>, typed: Seq<char>)
    ensures
        completion::completes(name, typed) <==> starts_as_typed(name, typed),
{
    let a = completion::lowered(name);
    let b = completion::lowered(typed);
    if typed.len() <= name.len() {
        let head = a.take(b.len() as int);
        assert forall|i: int| 0 <= i < typed.len() implies (head[i] == b[i] <==> same_letter(#[trigger] name[i], typed[i])) by {
            assert(head[i] == completion::lower(name[i]));
            assert(b[i] == completion::lower(typed[i]));
            lemma_lower(name[i], typed[i]);
        }
        if starts_as_typed(name, typed) {
            assert(head =~= b);
        } else {
            let i = choose|i: int| 0 <= i < typed.len() && !same_letter(#[trigger] name[i], typed[i]);
            assert(head[i] != b[i]);
        }
    }
}

proof fn lemma_lower(a: char, b: char)
    ensures
        completion::lower(a) == completion::lower(b) <==> same_letter(a, b),
{
    if 'A' <= a <= 'Z' {
        assert(completion::lower(a) as int == a as int + 32);
    }
    if 'A' <= b <= 'Z' {
        assert(completion::lower(b) as int == b as int + 32);
    }
}

/// The metric whose labels are in question, in a tree of metrics: those of the named one where they are
/// known, and else those of every metric that has any.
pub open spec fn in_scope(tree: Seq<NodeView>, metric: Option<Seq<char>>, dims: Seq<DimView>) -> bool {
    if exists|i: int|
        0 <= i < tree.len() && metric == Some((#[trigger] tree[i]).name) && tree[i].dims is Some && (forall|j: int|
            0 <= j < i ==> metric != Some((#[trigger] tree[j]).name)) {
        exists|i: int|
            0 <= i < tree.len() && metric == Some((#[trigger] tree[i]).name) && tree[i].dims == Some(dims) && (forall|j: int|
                0 <= j < i ==> metric != Some((#[trigger] tree[j]).name))
    } else {
        exists|i: int| 0 <= i < tree.len() && (#[trigger] tree[i]).dims == Some(dims)
    }
}

proof fn lemma_node_named(tree: Seq<NodeView>, name: Seq<char>, i: int)
    requires
        0 <= i,
    ensures
        match completion::node_named(tree, name, i) {
            Some(k) => i <= k < tree.len() && tree[k].name == name && forall|j: int|
                i <= j < k ==> (#[trigger] tree[j]).name != name,
            None => forall|j: int| i <= j < tree.len() ==> (#[trigger] tree[j]).name != name,
        },
    decreases tree.len() - i,
{
    if i < tree.len() && tree[i].name != name {
        lemma_node_named(tree, name, i + 1);
    }
}

proof fn lemma_discovered(tree: Seq<NodeView>, n: nat, dims: Seq<DimView>)
    requires
        n <= tree.len(),
    ensures
        completion::discovered(tree, n).contains(dims) <==> exists|i: int|
            0 <= i < n && (#[trigger] tree[i]).dims == Some(dims),
    decreases n,
{
    if n > 0 {
        lemma_discovered(tree, (n - 1) as nat, dims);
        let rest = completion::discovered(tree, (n - 1) as nat);
        let all = completion::discovered(tree, n);
        if let Some(last) = tree[n - 1].dims {
            assert(all == rest.push(last));
            assert(all[rest.len() as int] == last);
            if rest.contains(dims) {
                let k = choose|k: int| 0 <= k < rest.len() && rest[k] == dims;
                assert(all[k] == dims);
            }
            if all.contains(dims) {
                let k = choose|k: int| 0 <= k < all.len() && all[k] == dims;
                if k < rest.len() {
                    assert(rest[k] == dims);
                } else {
                    assert(tree[n - 1].dims == Some(dims));
                }
            }
        } else {
            assert(all == rest);
        }
        if exists|i: int| 0 <= i < n && (#[trigger] tree[i]).dims == Some(dims) {
            let i = choose|i: int| 0 <= i < n && (#[trigger] tree[i]).dims == Some(dims);
            if i < n - 1 {
                assert(rest.contains(dims));
            }
        }
    }
}

/// The labels in question are those of the metric that is named, once they are known, and else those of
/// every metric.
pub proof fn law_the_scope_is_the_named_metric_or_all(tree: Seq<NodeView>, metric: Option<Seq<char>>, dims: Seq<DimView>)
    ensures
        completion::scope_of(tree, metric).contains(dims) <==> in_scope(tree, metric, dims),
{
    lemma_discovered(tree, tree.len(), dims);
    if let Some(name) = metric {
        lemma_node_named(tree, name, 0);
        if let Some(k) = completion::node_named(tree, name, 0) {
            if let Some(d) = tree[k].dims {
                assert(metric == Some(tree[k].name) && tree[k].dims is Some);
                assert(completion::scope_of(tree, metric) =~= seq![d]);
                assert(seq![d].contains(dims) <==> d == dims) by {
                    assert(seq![d][0] == d);
                }
                if in_scope(tree, metric, dims) {
                    let i = choose|i: int|
                        0 <= i < tree.len() && metric == Some((#[trigger] tree[i]).name) && tree[i].dims == Some(dims) && (
                        forall|j: int| 0 <= j < i ==> metric != Some((#[trigger] tree[j]).name));
                    assert(i == k);
                }
            } else {
                assert forall|i: int|
                    0 <= i < tree.len() && metric == Some((#[trigger] tree[i]).name) && tree[i].dims is Some implies !(forall|
                    j: int,
                |
                    0 <= j < i ==> metric != Some((#[trigger] tree[j]).name)) by {
                    assert(i > k);
                    assert(metric == Some(tree[k].name));
                }
            }
        }
    }
}

proof fn lemma_labels_of(dims: Seq<DimView>, x: Seq<char>)
    ensures
        completion::labels_of(dims).contains(x) <==> exists|i: int| 0 <= i < dims.len() && (#[trigger] dims[i]).label == x,
{
    let all = completion::labels_of(dims);
    if all.contains(x) {
        let i = choose|i: int| 0 <= i < all.len() && all[i] == x;
        assert(dims[i].label == x);
    }
    if exists|i: int| 0 <= i < dims.len() && (#[trigger] dims[i]).label == x {
        let i = choose|i: int| 0 <= i < dims.len() && (#[trigger] dims[i]).label == x;
        assert(all[i] == x);
    }
}

pub proof fn lemma_contains_concat<A>(a: Seq<A>, b: Seq<A>, x: A)
    ensures
        (a + b).contains(x) <==> a.contains(x) || b.contains(x),
{
    let s = a + b;
    if s.contains(x) {
        let i = choose|i: int| 0 <= i < s.len() && s[i] == x;
        if i < a.len() {
            assert(a[i] == x);
        } else {
            assert(b[i - a.len()] == x);
        }
    }
    if a.contains(x) {
        let i = choose|i: int| 0 <= i < a.len() && a[i] == x;
        assert(s[i] == x);
    }
    if b.contains(x) {
        let i = choose|i: int| 0 <= i < b.len() && b[i] == x;
        assert(s[a.len() + i] == x);
    }
}

proof fn lemma_contains_split<A>(s: Seq<A>, x: A)
    requires
        s.len() > 0,
    ensures
        s.contains(x) <==> s.drop_last().contains(x) || s.last() == x,
{
    lemma_contains_concat(s.drop_last(), seq![s.last()], x);
    assert(s.drop_last() + seq![s.last()] =~= s);
    assert(seq![s.last()].contains(x) <==> s.last() == x) by {
        assert(seq![s.last()][0] == s.last());
    }
}

proof fn lemma_labels_in(lists: Seq<Seq<DimView>>, x: Seq<char>)
    ensures
        completion::labels_in(lists).contains(x) <==> exists|dims: Seq<DimView>, i: int|
            #![trigger lists.contains(dims), dims[i]]
            lists.contains(dims) && 0 <= i < dims.len() && dims[i].label == x,
    decreases lists.len(),
{
    if lists.len() > 0 {
        let rest = lists.drop_last();
        let last = lists.last();
        lemma_labels_in(rest, x);
        lemma_labels_of(last, x);
        lemma_contains_concat(completion::labels_in(rest), completion::labels_of(last), x);
        lemma_contains_split(lists, last);
        if completion::labels_of(last).contains(x) {
            let i = choose|i: int| 0 <= i < last.len() && (#[trigger] last[i]).label == x;
            assert(lists.contains(last) && last[i].label == x);
        }
        if completion::labels_in(rest).contains(x) {
            let (dims, i) = choose|dims: Seq<DimView>, i: int|
                #![trigger rest.contains(dims), dims[i]]
                rest.contains(dims) && 0 <= i < dims.len() && dims[i].label == x;
            lemma_contains_split(lists, dims);
            assert(lists.contains(dims) && dims[i].label == x);
        }
        if exists|dims: Seq<DimView>, i: int|
            #![trigger lists.contains(dims), dims[i]]
            lists.contains(dims) && 0 <= i < dims.len() && dims[i].label == x {
            let (dims, i) = choose|dims: Seq<DimView>, i: int|
                #![trigger lists.contains(dims), dims[i]]
                lists.contains(dims) && 0 <= i < dims.len() && dims[i].label == x;
            lemma_contains_split(lists, dims);
            if rest.contains(dims) {
                assert(rest.contains(dims) && dims[i].label == x);
            } else {
                assert(last[i].label == x);
            }
        }
    }
}

proof fn lemma_values_of(dims: Seq<DimView>, label: Seq<char>, x: Seq<char>)
    ensures
        completion::values_of(dims, label).contains(x) <==> exists|i: int|
            0 <= i < dims.len() && (#[trigger] dims[i]).label == label && dims[i].values.contains(x),
    decreases dims.len(),
{
    if dims.len() > 0 {
        let rest = dims.drop_last();
        let last = dims.last();
        lemma_values_of(rest, label, x);
        let more = if last.label == label { last.values } else { Seq::empty() };
        lemma_contains_concat(completion::values_of(rest, label), more, x);
        if completion::values_of(rest, label).contains(x) {
            let i = choose|i: int| 0 <= i < rest.len() && (#[trigger] rest[i]).label == label && rest[i].values.contains(x);
            assert(dims[i] == rest[i]);
        }
        if more.contains(x) {
            assert(dims[dims.len() - 1].values.contains(x));
        }
        if exists|i: int| 0 <= i < dims.len() && (#[trigger] dims[i]).label == label && dims[i].values.contains(x) {
            let i = choose|i: int| 0 <= i < dims.len() && (#[trigger] dims[i]).label == label && dims[i].values.contains(x);
            if i < rest.len() {
                assert(rest[i] == dims[i]);
            }
        }
    }
}

proof fn lemma_values_in(lists: Seq<Seq<DimView>>, label: Seq<char>, x: Seq<char>)
    ensures
        completion::values_in(lists, label).contains(x) <==> exists|dims: Seq<DimView>, i: int|
            #![trigger lists.contains(dims), dims[i]]
            lists.contains(dims) && 0 <= i < dims.len() && dims[i].label == label && dims[i].values.contains(x),
    decreases lists.len(),
{
    if lists.len() > 0 {
        let rest = lists.drop_last();
        let last = lists.last();
        lemma_values_in(rest, label, x);
        lemma_values_of(last, label, x);
        lemma_contains_concat(completion::values_in(rest, label), completion::values_of(last, label), x);
        lemma_contains_split(lists, last);
        if completion::values_of(last, label).contains(x) {
            let i = choose|i: int| 0 <= i < last.len() && (#[trigger] last[i]).label == label && last[i].values.contains(x);
            assert(lists.contains(last) && last[i].values.contains(x));
        }
        if completion::values_in(rest, label).contains(x) {
            let (dims, i) = choose|dims: Seq<DimView>, i: int|
                #![trigger rest.contains(dims), dims[i]]
                rest.contains(dims) && 0 <= i < dims.len() && dims[i].label == label && dims[i].values.contains(x);
            lemma_contains_split(lists, dims);
            assert(lists.contains(dims) && dims[i].values.contains(x));
        }
        if exists|dims: Seq<DimView>, i: int|
            #![trigger lists.contains(dims), dims[i]]
            lists.contains(dims) && 0 <= i < dims.len() && dims[i].label == label && dims[i].values.contains(x) {
            let (dims, i) = choose|dims: Seq<DimView>, i: int|
                #![trigger lists.contains(dims), dims[i]]
                lists.contains(dims) && 0 <= i < dims.len() && dims[i].label == label && dims[i].values.contains(x);
            lemma_contains_split(lists, dims);
            if rest.contains(dims) {
                assert(rest.contains(dims) && dims[i].values.contains(x));
            } else {
                assert(last[i].values.contains(x));
            }
        }
    }
}

/// The words that the screens, the session and the database know.
pub struct Known {
    pub screen: Screen,
    pub metric_names: Seq<Seq<char>>,
    pub tree: Seq<NodeView>,
    pub log_labels: Seq<Seq<char>>,
    pub log_label_values: Seq<(Seq<char>, Seq<Seq<char>>)>,
}

/// Whether the word fits where the caret stands: metrics, functions and keywords in an expression, line
/// filters and keywords in one of the Logs screen, labels behind a brace or comma, and the values of its
/// label in a quoted value.
pub open spec fn fits(k: Known, context: ContextView, word: Seq<char>, kind: CandidateKind) -> bool {
    match context {
        ContextView::Suppressed => false,
        ContextView::Expr => match kind {
            CandidateKind::Metric => k.screen == Screen::Metrics && k.metric_names.contains(word),
            CandidateKind::Function => k.screen != Screen::Logs && syntax::functions(k.screen).contains(word),
            CandidateKind::Operator => k.screen == Screen::Logs && syntax::line_filters().contains(word),
            CandidateKind::Keyword => syntax::keywords(k.screen).contains(word),
            _ => false,
        },
        ContextView::LabelName { metric } => kind == CandidateKind::Label && if k.screen == Screen::Logs {
            k.log_labels.contains(word)
        } else {
            exists|dims: Seq<DimView>, i: int|
                #![trigger in_scope(k.tree, metric, dims), dims[i]]
                in_scope(k.tree, metric, dims) && 0 <= i < dims.len() && dims[i].label == word
        },
        ContextView::LabelValue { metric, label } => kind == CandidateKind::LabelValue && if k.screen == Screen::Logs {
            exists|i: int|
                0 <= i < k.log_label_values.len() && (#[trigger] k.log_label_values[i]).0 == label
                    && k.log_label_values[i].1.contains(word) && forall|j: int|
                    0 <= j < i ==> (#[trigger] k.log_label_values[j]).0 != label
        } else {
            exists|dims: Seq<DimView>, i: int|
                #![trigger in_scope(k.tree, metric, dims), dims[i]]
                in_scope(k.tree, metric, dims) && 0 <= i < dims.len() && dims[i].label == label && dims[i].values.contains(
                    word,
                )
        },
    }
}

/// Which kinds come first: metrics before functions, functions and line filters before keywords.
pub open spec fn rank(kind: CandidateKind) -> int {
    match kind {
        CandidateKind::Metric => 0,
        CandidateKind::Function => 1,
        CandidateKind::Operator => 1,
        _ => 2,
    }
}

/// All suggestions for what is typed.
pub open spec fn suggestions(k: Known, context: ContextView, typed: Seq<char>) -> Seq<CandidateView> {
    completion::all_candidates(
        k.screen,
        k.metric_names,
        k.tree,
        k.log_labels,
        k.log_label_values,
        context,
        typed,
    )
}

spec fn in_groups(v: Seq<CandidateView>) -> bool {
    forall|i: int, j: int|
        0 <= i < j < v.len() ==> rank((#[trigger] v[i]).kind) < rank((#[trigger] v[j]).kind) || (v[i].kind == v[j].kind
            && before(v[i].text, v[j].text))
}

spec fn all_new(v: Seq<CandidateView>) -> bool {
    forall|i: int, j: int| 0 <= i < j < v.len() ==> (#[trigger] v[i]).text != (#[trigger] v[j]).text
}

spec fn listed(v: Seq<CandidateView>, word: Seq<char>, kind: CandidateKind) -> bool {
    exists|i: int| 0 <= i < v.len() && (#[trigger] v[i]).text == word && v[i].kind == kind
}

spec fn offered(v: Seq<CandidateView>, word: Seq<char>) -> bool {
    exists|i: int| 0 <= i < v.len() && (#[trigger] v[i]).text == word
}

proof fn lemma_group(
    out: Seq<CandidateView>,
    names: Seq<Seq<char>>,
    kind: CandidateKind,
    typed: Seq<char>,
    word: Seq<char>,
    of: CandidateKind,
)
    requires
        in_groups(out),
        all_new(out),
        forall|i: int| 0 <= i < out.len() ==> rank((#[trigger] out[i]).kind) < rank(kind),
    ensures
        ({
            let all = completion::with_group(out, names, kind, typed);
            &&& in_groups(all)
            &&& all_new(all)
            &&& listed(all, word, of) <==> listed(out, word, of) || (of == kind && names.contains(word) && starts_as_typed(
                word,
                typed,
            ) && !offered(out, word))
            &&& offered(all, word) <==> offered(out, word) || (names.contains(word) && starts_as_typed(word, typed))
            &&& forall|i: int| 0 <= i < all.len() ==> rank((#[trigger] all[i]).kind) <= rank(kind)
        }),
{
    let seen = completion::texts(out);
    let more = completion::eligible(names, names.len(), typed, seen);
    let all = completion::with_group(out, names, kind, typed);
    completion::law_groups_are_sorted_and_exact(names, names.len(), typed, seen);
    assert(names.take(names.len() as int) =~= names);
    lemma_completes(word, typed);
    assert(more.contains(word) <==> names.contains(word) && completion::completes(word, typed) && !seen.contains(word));
    let n = out.len() as int;
    assert(all.len() == n + more.len());
    assert forall|i: int| n <= i < all.len() implies (#[trigger] all[i]).text == more[i - n] && all[i].kind == kind by {
    }
    assert forall|i: int| 0 <= i < n implies #[trigger] all[i] == out[i] by {
    }
    assert(seen.contains(word) <==> offered(out, word)) by {
        if seen.contains(word) {
            let i = choose|i: int| 0 <= i < seen.len() && seen[i] == word;
            assert(out[i].text == word);
        }
        if offered(out, word) {
            let i = choose|i: int| 0 <= i < out.len() && (#[trigger] out[i]).text == word;
            assert(seen[i] == word);
        }
    }
    if listed(out, word, of) {
        let i = choose|i: int| 0 <= i < out.len() && (#[trigger] out[i]).text == word && out[i].kind == of;
        assert(all[i].text == word && all[i].kind == of);
    }
    if offered(out, word) {
        let i = choose|i: int| 0 <= i < out.len() && (#[trigger] out[i]).text == word;
        assert(all[i].text == word);
    }
    if more.contains(word) {
        let i = choose|i: int| 0 <= i < more.len() && more[i] == word;
        assert(all[n + i].text == word && all[n + i].kind == kind);
    }
    if listed(all, word, of) {
        let i = choose|i: int| 0 <= i < all.len() && (#[trigger] all[i]).text == word && all[i].kind == of;
        if i < n {
            assert(out[i].text == word && out[i].kind == of);
        } else {
            assert(more[i - n] == word);
        }
    }
    if offered(all, word) {
        let i = choose|i: int| 0 <= i < all.len() && (#[trigger] all[i]).text == word;
        if i < n {
            assert(out[i].text == word);
        } else {
            assert(more[i - n] == word);
        }
    }
    assert forall|i: int, j: int| 0 <= i < j < all.len() implies (rank((#[trigger] all[i]).kind) < rank(
        (#[trigger] all[j]).kind,
    ) || (all[i].kind == all[j].kind && before(all[i].text, all[j].text))) && all[i].text != all[j].text by {
        if j < n {
        } else if i < n {
            assert(more.contains(more[j - n]));
            assert(seen[i] == out[i].text);
            assert(seen.contains(out[i].text));
        } else {
            assert(before(more[i - n], more[j - n]));
            completion::lemma_before_is_strict(more[i - n], more[i - n], more[i - n]);
        }
    }
}

proof fn lemma_scope_labels(k: Known, metric: Option<Seq<char>>, word: Seq<char>)
    ensures
        completion::labels_in(completion::scope_of(k.tree, metric)).contains(word) <==> exists|dims: Seq<DimView>, i: int|
            #![trigger in_scope(k.tree, metric, dims), dims[i]]
            in_scope(k.tree, metric, dims) && 0 <= i < dims.len() && dims[i].label == word,
{
    let lists = completion::scope_of(k.tree, metric);
    lemma_labels_in(lists, word);
    if completion::labels_in(lists).contains(word) {
        let (dims, i) = choose|dims: Seq<DimView>, i: int|
            #![trigger lists.contains(dims), dims[i]]
            lists.contains(dims) && 0 <= i < dims.len() && dims[i].label == word;
        law_the_scope_is_the_named_metric_or_all(k.tree, metric, dims);
        assert(in_scope(k.tree, metric, dims) && dims[i].label == word);
    }
    if exists|dims: Seq<DimView>, i: int|
        #![trigger in_scope(k.tree, metric, dims), dims[i]]
        in_scope(k.tree, metric, dims) && 0 <= i < dims.len() && dims[i].label == word {
        let (dims, i) = choose|dims: Seq<DimView>, i: int|
            #![trigger in_scope(k.tree, metric, dims), dims[i]]
            in_scope(k.tree, metric, dims) && 0 <= i < dims.len() && dims[i].label == word;
        law_the_scope_is_the_named_metric_or_all(k.tree, metric, dims);
        assert(lists.contains(dims) && dims[i].label == word);
    }
}

proof fn lemma_scope_values(k: Known, metric: Option<Seq<char>>, label: Seq<char>, word: Seq<char>)
    ensures
        completion::values_in(completion::scope_of(k.tree, metric), label).contains(word) <==> exists|
            dims: Seq<DimView>,
            i: int,
        |
            #![trigger in_scope(k.tree, metric, dims), dims[i]]
            in_scope(k.tree, metric, dims) && 0 <= i < dims.len() && dims[i].label == label && dims[i].values.contains(word),
{
    let lists = completion::scope_of(k.tree, metric);
    lemma_values_in(lists, label, word);
    if completion::values_in(lists, label).contains(word) {
        let (dims, i) = choose|dims: Seq<DimView>, i: int|
            #![trigger lists.contains(dims), dims[i]]
            lists.contains(dims) && 0 <= i < dims.len() && dims[i].label == label && dims[i].values.contains(word);
        law_the_scope_is_the_named_metric_or_all(k.tree, metric, dims);
        assert(in_scope(k.tree, metric, dims) && dims[i].values.contains(word));
    }
    if exists|dims: Seq<DimView>, i: int|
        #![trigger in_scope(k.tree, metric, dims), dims[i]]
        in_scope(k.tree, metric, dims) && 0 <= i < dims.len() && dims[i].label == label && dims[i].values.contains(word) {
        let (dims, i) = choose|dims: Seq<DimView>, i: int|
            #![trigger in_scope(k.tree, metric, dims), dims[i]]
            in_scope(k.tree, metric, dims) && 0 <= i < dims.len() && dims[i].label == label && dims[i].values.contains(word);
        law_the_scope_is_the_named_metric_or_all(k.tree, metric, dims);
        assert(lists.contains(dims) && dims[i].values.contains(word));
    }
}

proof fn lemma_kept(v: Seq<(Seq<char>, Seq<Seq<char>>)>, key: Seq<char>, i: int)
    requires
        0 <= i,
    ensures
        match completion::kept(v, key, i) {
            Some(values) => exists|k: int|
                i <= k < v.len() && (#[trigger] v[k]).0 == key && v[k].1 == values && forall|j: int|
                    i <= j < k ==> (#[trigger] v[j]).0 != key,
            None => forall|j: int| i <= j < v.len() ==> (#[trigger] v[j]).0 != key,
        },
    decreases v.len() - i,
{
    if i < v.len() {
        if v[i].0 == key {
            assert(v[i].1 == completion::kept(v, key, i)->0);
        } else {
            lemma_kept(v, key, i + 1);
            if let Some(values) = completion::kept(v, key, i + 1) {
                let k = choose|k: int|
                    i + 1 <= k < v.len() && (#[trigger] v[k]).0 == key && v[k].1 == values && forall|j: int|
                        i + 1 <= j < k ==> (#[trigger] v[j]).0 != key;
                assert(v[k].0 == key && v[k].1 == values);
            }
        }
    }
}

proof fn lemma_kept_values(k: Known, label: Seq<char>, word: Seq<char>)
    ensures
        (match completion::kept(k.log_label_values, label, 0) {
            Some(values) => values,
            None => Seq::empty(),
        }).contains(word) <==> exists|i: int|
            0 <= i < k.log_label_values.len() && (#[trigger] k.log_label_values[i]).0 == label
                && k.log_label_values[i].1.contains(word) && forall|j: int|
                0 <= j < i ==> (#[trigger] k.log_label_values[j]).0 != label,
{
    let v = k.log_label_values;
    lemma_kept(v, label, 0);
    match completion::kept(v, label, 0) {
        Some(values) => {
            let n = choose|n: int|
                0 <= n < v.len() && (#[trigger] v[n]).0 == label && v[n].1 == values && forall|j: int|
                    0 <= j < n ==> (#[trigger] v[j]).0 != label;
            if values.contains(word) {
                assert(v[n].1.contains(word));
            }
            if exists|i: int|
                0 <= i < v.len() && (#[trigger] v[i]).0 == label && v[i].1.contains(word) && forall|j: int|
                    0 <= j < i ==> (#[trigger] v[j]).0 != label {
                let i = choose|i: int|
                    0 <= i < v.len() && (#[trigger] v[i]).0 == label && v[i].1.contains(word) && forall|j: int|
                        0 <= j < i ==> (#[trigger] v[j]).0 != label;
                assert(i == n);
            }
        },
        None => {},
    }
}

/// What is offered are the words that fit where the caret stands and start with what is typed: each
/// word of them is offered, nothing else is, and nothing twice.
pub proof fn law_what_fits_is_offered(k: Known, context: ContextView, typed: Seq<char>, word: Seq<char>)
    ensures
        (exists|i: int| 0 <= i < suggestions(k, context, typed).len() && (#[trigger] suggestions(k, context, typed)[i]).text == word)
            <==> starts_as_typed(word, typed) && exists|kind: CandidateKind| #[trigger] fits(k, context, word, kind),
        forall|i: int|
            0 <= i < suggestions(k, context, typed).len() && (#[trigger] suggestions(k, context, typed)[i]).text == word
                ==> fits(k, context, word, suggestions(k, context, typed)[i].kind),
        forall|i: int, j: int|
            0 <= i < j < suggestions(k, context, typed).len() ==> (#[trigger] suggestions(k, context, typed)[i]).text != (
            #[trigger] suggestions(k, context, typed)[j]).text,
{
    let all = suggestions(k, context, typed);
    lemma_offers(k, context, typed, word, CandidateKind::Metric);
    lemma_offers(k, context, typed, word, CandidateKind::Function);
    lemma_offers(k, context, typed, word, CandidateKind::Keyword);
    lemma_offers(k, context, typed, word, CandidateKind::Label);
    lemma_offers(k, context, typed, word, CandidateKind::LabelValue);
    lemma_offers(k, context, typed, word, CandidateKind::Operator);
    assert forall|i: int| 0 <= i < all.len() && (#[trigger] all[i]).text == word implies fits(k, context, word, all[i].kind) by {
        assert(listed(all, word, all[i].kind));
        lemma_offers(k, context, typed, word, all[i].kind);
    }
    if exists|i: int| 0 <= i < all.len() && (#[trigger] all[i]).text == word {
        let i = choose|i: int| 0 <= i < all.len() && (#[trigger] all[i]).text == word;
        assert(fits(k, context, word, all[i].kind));
        assert(offered(all, word));
    }
}

/// The suggestions stand in their order: metrics first, then functions or line filters, then keywords,
/// and each of these in the order of the words.
pub proof fn law_suggestions_are_ranked(k: Known, context: ContextView, typed: Seq<char>)
    ensures
        forall|i: int, j: int|
            0 <= i < j < suggestions(k, context, typed).len() ==> rank((#[trigger] suggestions(k, context, typed)[i]).kind)
                < rank((#[trigger] suggestions(k, context, typed)[j]).kind) || (suggestions(k, context, typed)[i].kind
                == suggestions(k, context, typed)[j].kind && before(
                suggestions(k, context, typed)[i].text,
                suggestions(k, context, typed)[j].text,
            )),
        completion::at_most(suggestions(k, context, typed), completion::MAX_CANDIDATES as int).len() <= 50,
        suggestions(k, context, typed).len() <= 50 ==> completion::at_most(
            suggestions(k, context, typed),
            completion::MAX_CANDIDATES as int,
        ) == suggestions(k, context, typed),
        forall|i: int|
            0 <= i < 50 && i < suggestions(k, context, typed).len() ==> #[trigger] completion::at_most(
                suggestions(k, context, typed),
                completion::MAX_CANDIDATES as int,
            )[i] == suggestions(k, context, typed)[i],
{
    lemma_offers(k, context, typed, Seq::empty(), CandidateKind::Metric);
}

proof fn lemma_offers(k: Known, context: ContextView, typed: Seq<char>, word: Seq<char>, of: CandidateKind)
    ensures
        ({
            let all = suggestions(k, context, typed);
            &&& in_groups(all)
            &&& all_new(all)
            &&& listed(all, word, of) ==> fits(k, context, word, of)
            &&& offered(all, word) ==> starts_as_typed(word, typed)
            &&& fits(k, context, word, of) && starts_as_typed(word, typed) ==> offered(all, word)
        }),
{
    let none = Seq::<CandidateView>::empty();
    match context {
        ContextView::Suppressed => {},
        ContextView::Expr => {
            if k.screen == Screen::Logs {
                let first = completion::with_group(none, syntax::line_filters(), CandidateKind::Operator, typed);
                lemma_group(none, syntax::line_filters(), CandidateKind::Operator, typed, word, of);
                lemma_group(first, syntax::keywords(k.screen), CandidateKind::Keyword, typed, word, of);
            } else {
                let first = if k.screen == Screen::Metrics {
                    completion::with_group(none, k.metric_names, CandidateKind::Metric, typed)
                } else {
                    none
                };
                lemma_group(none, k.metric_names, CandidateKind::Metric, typed, word, of);
                let second = completion::with_group(first, syntax::functions(k.screen), CandidateKind::Function, typed);
                lemma_group(first, syntax::functions(k.screen), CandidateKind::Function, typed, word, of);
                lemma_group(second, syntax::keywords(k.screen), CandidateKind::Keyword, typed, word, of);
            }
        },
        ContextView::LabelName { metric } => {
            lemma_scope_labels(k, metric, word);
            let names = if k.screen == Screen::Logs {
                k.log_labels
            } else {
                completion::labels_in(completion::scope_of(k.tree, metric))
            };
            lemma_group(none, names, CandidateKind::Label, typed, word, of);
        },
        ContextView::LabelValue { metric, label } => {
            lemma_scope_values(k, metric, label, word);
            lemma_kept_values(k, label, word);
            let names = if k.screen == Screen::Logs {
                match completion::kept(k.log_label_values, label, 0) {
                    Some(values) => values,
                    None => Seq::empty(),
                }
            } else {
                completion::values_in(completion::scope_of(k.tree, metric), label)
            };
            lemma_group(none, names, CandidateKind::LabelValue, typed, word, of);
        },
    }
}

} // verus!
