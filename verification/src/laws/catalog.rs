//! The metric catalog: the tree, its rows, and the queries that a selection stands for.

use vstd::prelude::*;

use crate::app::catalog;
use crate::app::catalog::CatalogRow;
use crate::app::AppView;
use crate::completion;
use crate::model::{DimView, Focus, NodeView, RouteView, TreeRowRef};
use crate::promql;
use crate::text;

verus! {

/// Whether the dimension restricts a query: a value of it is checked, and the query is not grouped by it.
pub open spec fn restricts(dim: DimView, group_by: Option<Seq<char>>) -> bool {
    &&& dim.selected matches Some(vi) && vi < dim.values.len()
    &&& group_by != Some(dim.label)
}

/// Whether `at` lists, in order and each once, the positions below `n` for which `p` holds.
pub open spec fn lists_exactly(at: Seq<int>, n: int, p: spec_fn(int) -> bool) -> bool {
    &&& forall|i: int, j: int| 0 <= i < j < at.len() ==> #[trigger] at[i] < #[trigger] at[j]
    &&& forall|k: int| 0 <= k < at.len() ==> 0 <= #[trigger] at[k] < n && p(at[k])
    &&& forall|i: int| 0 <= i < n && #[trigger] p(i) ==> at.contains(i)
}

pub proof fn lemma_lists_more(at: Seq<int>, n: int, p: spec_fn(int) -> bool)
    requires
        lists_exactly(at, n, p),
        0 <= n,
    ensures
        p(n) ==> lists_exactly(at.push(n), n + 1, p),
        !p(n) ==> lists_exactly(at, n + 1, p),
{
    if p(n) {
        let more = at.push(n);
        assert forall|i: int| 0 <= i < n + 1 && #[trigger] p(i) implies more.contains(i) by {
            if i < n {
                let k = choose|k: int| 0 <= k < at.len() && at[k] == i;
                assert(more[k] == i);
            } else {
                assert(more[at.len() as int] == i);
            }
        }
    } else {
        assert forall|i: int| 0 <= i < n + 1 && #[trigger] p(i) implies at.contains(i) by {
            assert(i < n);
        }
    }
}

proof fn lemma_matchers(dims: Seq<DimView>, group_by: Option<Seq<char>>, n: nat) -> (at: Seq<int>)
    requires
        n <= dims.len(),
    ensures
        lists_exactly(at, n as int, |i: int| restricts(dims[i], group_by)),
        at.len() == catalog::checked_matchers(dims, group_by, n).len(),
        forall|k: int|
            0 <= k < at.len() ==> #[trigger] catalog::checked_matchers(dims, group_by, n)[k] == (
                dims[at[k]].label,
                dims[at[k]].values[dims[at[k]].selected->0 as int],
            ),
    decreases n,
{
    let p = |i: int| restricts(dims[i], group_by);
    if n == 0 {
        Seq::empty()
    } else {
        let before = lemma_matchers(dims, group_by, (n - 1) as nat);
        lemma_lists_more(before, n - 1, p);
        if p(n - 1) {
            let at = before.push(n - 1);
            let rest = catalog::checked_matchers(dims, group_by, (n - 1) as nat);
            assert forall|k: int| 0 <= k < at.len() implies #[trigger] catalog::checked_matchers(dims, group_by, n)[k] == (
                dims[at[k]].label,
                dims[at[k]].values[dims[at[k]].selected->0 as int],
            ) by {
                if k < rest.len() {
                    assert(rest[k] == (dims[before[k]].label, dims[before[k]].values[dims[before[k]].selected->0 as int]));
                }
            }
            at
        } else {
            before
        }
    }
}

/// A label with a value is among the matchers of a metric's query where some dimension other than the one
/// grouped by has that label and has that value checked, and nowhere else.
pub proof fn law_a_matcher_is_a_checked_value(
    dims: Seq<DimView>,
    group_by: Option<Seq<char>>,
    label: Seq<char>,
    value: Seq<char>,
)
    ensures
        catalog::checked_matchers(dims, group_by, dims.len()).contains((label, value)) <==> exists|i: int, vi: usize|
            #![trigger dims[i], dims[i].values[vi as int]]
            0 <= i < dims.len() && dims[i].label == label && group_by != Some(label) && dims[i].selected == Some(vi) && vi
                < dims[i].values.len() && dims[i].values[vi as int] == value,
{
    let all = catalog::checked_matchers(dims, group_by, dims.len());
    let p = |i: int| restricts(dims[i], group_by);
    let at = lemma_matchers(dims, group_by, dims.len());
    if all.contains((label, value)) {
        let k = choose|k: int| 0 <= k < all.len() && all[k] == (label, value);
        assert(p(at[k]));
        let vi = dims[at[k]].selected->0;
        assert(dims[at[k]].values[vi as int] == value);
    }
    if exists|i: int, vi: usize|
        #![trigger dims[i], dims[i].values[vi as int]]
        0 <= i < dims.len() && dims[i].label == label && group_by != Some(label) && dims[i].selected == Some(vi) && vi
            < dims[i].values.len() && dims[i].values[vi as int] == value {
        let (i, vi) = choose|i: int, vi: usize|
            #![trigger dims[i], dims[i].values[vi as int]]
            0 <= i < dims.len() && dims[i].label == label && group_by != Some(label) && dims[i].selected == Some(vi) && vi
                < dims[i].values.len() && dims[i].values[vi as int] == value;
        assert(p(i));
        let k = choose|k: int| 0 <= k < at.len() && at[k] == i;
        assert(all[k] == (label, value));
    }
}

/// A metric's query has one matcher for each dimension that restricts it, in the order of the
/// dimensions, with the label of the dimension and the value checked in it.
pub proof fn law_matchers_follow_the_dimensions(dims: Seq<DimView>, group_by: Option<Seq<char>>)
    ensures
        exists|at: Seq<int>|
            #![trigger at.len()]
            {
                &&& lists_exactly(at, dims.len() as int, |i: int| restricts(dims[i], group_by))
                &&& at.len() == catalog::checked_matchers(dims, group_by, dims.len()).len()
                &&& forall|k: int|
                    0 <= k < at.len() ==> #[trigger] catalog::checked_matchers(dims, group_by, dims.len())[k] == (
                        dims[at[k]].label,
                        dims[at[k]].values[dims[at[k]].selected->0 as int],
                    )
            },
{
    let at = lemma_matchers(dims, group_by, dims.len());
    assert(at.len() == catalog::checked_matchers(dims, group_by, dims.len()).len());
}

/// Checking one value more puts exactly one matcher more into the query of the metric: between the
/// matchers of the dimensions before it and those of the dimensions behind it.
pub proof fn law_a_checked_value_adds_its_matcher(a: Seq<DimView>, dim: DimView, b: Seq<DimView>, group_by: Option<Seq<char>>)
    ensures
        ({
            let all = a.push(dim) + b;
            let before = catalog::checked_matchers(a, group_by, a.len());
            let behind = catalog::checked_matchers(b, group_by, b.len());
            let own = if restricts(dim, group_by) {
                seq![(dim.label, dim.values[dim.selected->0 as int])]
            } else {
                Seq::empty()
            };
            catalog::checked_matchers(all, group_by, all.len()) == before + own + behind
        }),
    decreases b.len(),
{
    let all = a.push(dim) + b;
    if b.len() == 0 {
        assert(all =~= a.push(dim));
        lemma_prefix(a, all, group_by, a.len());
        assert(all[a.len() as int] == dim);
    } else {
        let c = b.drop_last();
        law_a_checked_value_adds_its_matcher(a, dim, c, group_by);
        lemma_prefix(a.push(dim) + c, all, group_by, (a.push(dim) + c).len());
        lemma_prefix(c, b, group_by, c.len());
        assert(all[all.len() - 1] == b[b.len() - 1]);
    }
}

proof fn lemma_prefix(a: Seq<DimView>, b: Seq<DimView>, group_by: Option<Seq<char>>, n: nat)
    requires
        n <= a.len() <= b.len(),
        forall|i: int| 0 <= i < a.len() ==> a[i] == b[i],
    ensures
        catalog::checked_matchers(a, group_by, n) == catalog::checked_matchers(b, group_by, n),
    decreases n,
{
    if n > 0 {
        lemma_prefix(a, b, group_by, (n - 1) as nat);
    }
}

/// The matchers of a selector are written between braces, each as its label, an equals sign and its
/// quoted value, with commas between; without matchers there are no braces.
pub proof fn law_matchers_are_written_in_braces(matchers: Seq<(Seq<char>, Seq<char>)>, label: Seq<char>, value: Seq<char>)
    ensures
        promql::braces_text(Seq::empty()) == Seq::<char>::empty(),
        promql::braces_text(seq![(label, value)]) == "{"@ + label + "=\""@ + value + "\"}"@,
        matchers.len() > 0 ==> promql::braces_text(matchers.push((label, value))) == promql::braces_text(
            matchers,
        ).drop_last() + ","@ + label + "=\""@ + value + "\"}"@,
{
    reveal_strlit("{");
    reveal_strlit("}");
    reveal_strlit("\"");
    reveal_strlit("\"}");
    let one = seq![(label, value)];
    assert(promql::matcher_texts(one) =~= seq![promql::matcher_text(label, value)]);
    assert(text::join(promql::matcher_texts(one), ","@) == promql::matcher_text(label, value));
    assert(promql::braces_text(one) =~= "{"@ + label + "=\""@ + value + "\"}"@);
    if matchers.len() > 0 {
        let more = matchers.push((label, value));
        let texts = promql::matcher_texts(matchers);
        assert(promql::matcher_texts(more) =~= texts.push(promql::matcher_text(label, value)));
        assert(promql::matcher_texts(more).drop_last() =~= texts);
        let all = text::join(promql::matcher_texts(more), ","@);
        assert(all == text::join(texts, ","@) + ","@ + promql::matcher_text(label, value));
        let head = promql::braces_text(matchers);
        assert(head.drop_last() =~= "{"@ + text::join(texts, ","@));
        assert(promql::braces_text(more) =~= head.drop_last() + ","@ + label + "=\""@ + value + "\"}"@);
    }
}

/// A gauge is shown as it stands, or as its average by the dimension that it is grouped by.
pub proof fn law_a_gauge_is_shown_as_it_stands(node: NodeView, label: Seq<char>)
    requires
        node.kind == "gauge"@,
    ensures
        catalog::node_query(node, None) == node.name + promql::braces_text(
            catalog::checked_matchers(catalog::dims_of(node), None, catalog::dims_of(node).len()),
        ),
        catalog::node_query(node, Some(label)) == "avg by ("@ + label + ") ("@ + node.name + promql::braces_text(
            catalog::checked_matchers(catalog::dims_of(node), Some(label), catalog::dims_of(node).len()),
        ) + ")"@,
{
    reveal_strlit("gauge");
    reveal_strlit("sum");
    reveal_strlit("histogram");
    assert("gauge"@.len() != "sum"@.len());
    assert("gauge"@.len() != "histogram"@.len());
}

/// A sum is shown as its rate over five minutes, or as the sum of the rates by the dimension that it is
/// grouped by.
pub proof fn law_a_sum_is_shown_as_its_rate(node: NodeView, label: Seq<char>)
    requires
        node.kind == "sum"@,
    ensures
        catalog::node_query(node, None) == "rate("@ + node.name + promql::braces_text(
            catalog::checked_matchers(catalog::dims_of(node), None, catalog::dims_of(node).len()),
        ) + "[5m])"@,
        catalog::node_query(node, Some(label)) == "sum by ("@ + label + ") (rate("@ + node.name + promql::braces_text(
            catalog::checked_matchers(catalog::dims_of(node), Some(label), catalog::dims_of(node).len()),
        ) + "[5m]))"@,
{
    reveal_strlit("sum");
    reveal_strlit("histogram");
    assert("sum"@.len() != "histogram"@.len());
}

/// A histogram is shown as the 95th percentile over the rates of its buckets: by the dimension that it is
/// grouped by, else by each of its dimensions and the metric's name.
pub proof fn law_a_histogram_is_shown_as_a_percentile(node: NodeView, label: Seq<char>)
    requires
        node.kind == "histogram"@,
    ensures
        catalog::node_query(node, None) == "histogram_quantile(0.95, sum by ("@ + text::join(
            seq!["le"@, "__name__"@] + Seq::new(catalog::dims_of(node).len(), |i: int| catalog::dims_of(node)[i].label),
            ", "@,
        ) + ") (rate("@ + node.name + "_bucket"@ + promql::braces_text(
            catalog::checked_matchers(catalog::dims_of(node), None, catalog::dims_of(node).len()),
        ) + "[5m])))"@,
        catalog::node_query(node, Some(label)) == "histogram_quantile(0.95, sum by ("@ + label + ", le"@ + ") (rate("@
            + node.name + "_bucket"@ + promql::braces_text(
            catalog::checked_matchers(catalog::dims_of(node), Some(label), catalog::dims_of(node).len()),
        ) + "[5m])))"@,
{
    let dims = catalog::dims_of(node);
    assert(completion::labels_of(dims) =~= Seq::new(dims.len(), |i: int| dims[i].label));
}

/// Whether the metric is chosen: as a whole, or by a value checked in one of its dimensions.
pub open spec fn chosen(node: NodeView) -> bool {
    node.whole_selected || (node.dims matches Some(dims) && exists|i: int|
        0 <= i < dims.len() && (#[trigger] dims[i]).selected is Some)
}

proof fn lemma_selected(tree: Seq<NodeView>, n: nat) -> (at: Seq<int>)
    requires
        n <= tree.len(),
    ensures
        lists_exactly(at, n as int, |i: int| chosen(tree[i])),
        at.len() == catalog::selected_queries(tree, n).len(),
        forall|k: int|
            0 <= k < at.len() ==> #[trigger] catalog::selected_queries(tree, n)[k] == catalog::node_query(tree[at[k]], None),
    decreases n,
{
    let p = |i: int| chosen(tree[i]);
    if n == 0 {
        Seq::empty()
    } else {
        let before = lemma_selected(tree, (n - 1) as nat);
        lemma_lists_more(before, n - 1, p);
        assert(p(n - 1) <==> catalog::is_selected(tree[n - 1]));
        if p(n - 1) {
            let at = before.push(n - 1);
            let rest = catalog::selected_queries(tree, (n - 1) as nat);
            assert forall|k: int| 0 <= k < at.len() implies #[trigger] catalog::selected_queries(tree, n)[k]
                == catalog::node_query(tree[at[k]], None) by {
                if k < rest.len() {
                    assert(rest[k] == catalog::node_query(tree[before[k]], None));
                }
            }
            at
        } else {
            before
        }
    }
}

/// A selection stands for one query for each chosen metric, in the order of the catalog, each with all
/// that is checked in it and grouped by nothing, wherever the cursor stands.
pub proof fn law_the_chosen_metrics_are_visualized(a: AppView)
    requires
        exists|i: int| 0 <= i < a.catalog.metric_tree.len() && chosen(#[trigger] a.catalog.metric_tree[i]),
    ensures
        exists|at: Seq<int>|
            #![trigger at.len()]
            {
                &&& lists_exactly(
                    at,
                    a.catalog.metric_tree.len() as int,
                    |i: int| chosen(a.catalog.metric_tree[i]),
                )
                &&& at.len() == a.visualize().len()
                &&& forall|k: int|
                    0 <= k < at.len() ==> #[trigger] a.visualize()[k] == catalog::node_query(
                        a.catalog.metric_tree[at[k]],
                        None,
                    )
            },
{
    let tree = a.catalog.metric_tree;
    let p = |i: int| chosen(tree[i]);
    let at = lemma_selected(tree, tree.len());
    let i = choose|i: int| 0 <= i < tree.len() && chosen(#[trigger] tree[i]);
    assert(p(i));
    assert(at.contains(i));
    assert(at.len() == a.visualize().len());
}

/// Whether the catalog is shown, with the cursor on row `row` and every row standing for a node.
pub open spec fn on_row(a: AppView, row: int) -> bool {
    &&& a.at.route == RouteView::Metrics
    &&& a.at.query.len() == 4 && a.at.query[1].len() == 0
    &&& a.focus == Focus::Primary
    &&& a.snapshot.table matches Some(table) && table.rows.len() == a.catalog.tree_rows.len()
    &&& 0 <= row < a.catalog.tree_rows.len() <= usize::MAX
    &&& a.at.selected == row
}

proof fn lemma_on_row(a: AppView, row: int)
    requires
        on_row(a, row),
    ensures
        a.on_catalog(),
        a.selected_row() == Some(a.catalog.tree_rows[row]),
{
    reveal_with_fuel(text::trim_start, 1);
    reveal_with_fuel(text::trim_end, 1);
    assert(a.active_query() == a.at.query[1]);
    assert(text::trim(a.active_query()).len() == 0);
}

/// Where no metric is chosen, the node under the cursor is shown: grouped by the dimension where the
/// cursor stands on one, and else ungrouped.
pub proof fn law_the_node_under_the_cursor_is_visualized(a: AppView, row: int)
    requires
        on_row(a, row),
        forall|i: int| 0 <= i < a.catalog.metric_tree.len() ==> !chosen(#[trigger] a.catalog.metric_tree[i]),
    ensures
        a.visualize() == seq![
            match a.catalog.tree_rows[row] {
                TreeRowRef::Metric(mi) => catalog::node_query(a.catalog.metric_tree[mi as int], None),
                TreeRowRef::NoDims(mi) => catalog::node_query(a.catalog.metric_tree[mi as int], None),
                TreeRowRef::Value(mi, _, _) => catalog::node_query(a.catalog.metric_tree[mi as int], None),
                TreeRowRef::Dim(mi, di) => catalog::node_query(
                    a.catalog.metric_tree[mi as int],
                    match a.catalog.metric_tree[mi as int].dims {
                        Some(dims) => if di < dims.len() { Some(dims[di as int].label) } else { None },
                        None => None,
                    },
                ),
            },
        ],
{
    lemma_on_row(a, row);
    let tree = a.catalog.metric_tree;
    let at = lemma_selected(tree, tree.len());
    if at.len() > 0 {
        let p = |i: int| chosen(tree[i]);
        assert(p(at[0]));
    }
}

/// Toggling touches the metric of the row under the cursor and no other, and of that metric only what
/// the row stands for: its branch, the branch of the dimension, the value checked in the dimension, or
/// the check of the whole metric.
pub proof fn law_a_toggle_touches_its_node_only(a: AppView, row: int)
    requires
        on_row(a, row),
        a.catalog.metric_tree.len() <= usize::MAX,
        crate::app::rows_belong(a.catalog.tree_rows, a.catalog.metric_tree.len() as int),
        match a.catalog.tree_rows[row] {
            TreeRowRef::Dim(mi, di) => a.catalog.metric_tree[mi as int].dims matches Some(dims) && di < dims.len(),
            TreeRowRef::Value(mi, di, vi) => a.catalog.metric_tree[mi as int].dims matches Some(dims) && di < dims.len(),
            _ => true,
        },
    ensures
        ({
            let before = a.catalog.metric_tree;
            let tree = a.toggle_node().catalog.metric_tree;
            match a.catalog.tree_rows[row] {
                TreeRowRef::Metric(mi) => tree == before.update(
                    mi as int,
                    NodeView {
                        expanded: !before[mi as int].expanded,
                        loading: before[mi as int].loading || (before[mi as int].dims is None && !before[mi as int].expanded),
                        ..before[mi as int]
                    },
                ),
                TreeRowRef::NoDims(mi) => tree == before.update(
                    mi as int,
                    NodeView { whole_selected: !before[mi as int].whole_selected, ..before[mi as int] },
                ),
                TreeRowRef::Dim(mi, di) => {
                    let dims = before[mi as int].dims->0;
                    tree == before.update(
                        mi as int,
                        NodeView {
                            dims: Some(
                                dims.update(di as int, DimView { expanded: !dims[di as int].expanded, ..dims[di as int] }),
                            ),
                            ..before[mi as int]
                        },
                    )
                },
                TreeRowRef::Value(mi, di, vi) => {
                    let dims = before[mi as int].dims->0;
                    tree == before.update(
                        mi as int,
                        NodeView {
                            dims: Some(
                                dims.update(
                                    di as int,
                                    DimView {
                                        selected: if dims[di as int].selected == Some(vi) { None } else { Some(vi) },
                                        ..dims[di as int]
                                    },
                                ),
                            ),
                            ..before[mi as int]
                        },
                    )
                },
            }
        }),
{
    lemma_on_row(a, row);
    let node = a.catalog.tree_rows[row];
    assert(crate::app::metric_of(node) < a.catalog.metric_tree.len());
    catalog::law_catalog_rows_match_the_tree(
        a.with_tree(
            a.catalog.metric_tree.update(
                crate::app::metric_of(node) as int,
                catalog::toggled(a.catalog.metric_tree[crate::app::metric_of(node) as int], node),
            ),
        ),
    );
}

/// Every metric has a row of its own that shows its marker and name, its kind, its unit and its
/// temporality, and the metrics stand in the order of the tree.
pub proof fn law_every_metric_has_its_row(tree: Seq<NodeView>, mi: int)
    requires
        0 <= mi < tree.len() <= usize::MAX,
    ensures
        exists|r: int|
            0 <= r < catalog::tree_rows(tree, tree.len()).len() && (#[trigger] catalog::tree_rows(tree, tree.len())[r]).node
                == TreeRowRef::Metric(mi as usize) && catalog::tree_rows(tree, tree.len())[r].cells == seq![
                (if tree[mi].expanded { "v "@ } else { "> "@ }) + tree[mi].name,
                tree[mi].kind,
                tree[mi].unit,
                tree[mi].temporality,
            ] && (tree[mi].expanded ==> r + catalog::inner_rows(tree[mi], mi).len() < catalog::tree_rows(
                tree,
                tree.len(),
            ).len() && catalog::tree_rows(tree, tree.len()).subrange(
                r + 1,
                r + 1 + catalog::inner_rows(tree[mi], mi).len(),
            ) == catalog::inner_rows(tree[mi], mi)),
{
    lemma_metric_row(tree, tree.len(), mi);
}

proof fn lemma_metric_row(tree: Seq<NodeView>, n: nat, mi: int)
    requires
        0 <= mi < n <= tree.len() <= usize::MAX,
    ensures
        exists|r: int|
            0 <= r < catalog::tree_rows(tree, n).len() && (#[trigger] catalog::tree_rows(tree, n)[r]).node
                == TreeRowRef::Metric(mi as usize) && catalog::tree_rows(tree, n)[r].cells == seq![
                (if tree[mi].expanded { "v "@ } else { "> "@ }) + tree[mi].name,
                tree[mi].kind,
                tree[mi].unit,
                tree[mi].temporality,
            ] && (tree[mi].expanded ==> r + catalog::inner_rows(tree[mi], mi).len() < catalog::tree_rows(tree, n).len()
                && catalog::tree_rows(tree, n).subrange(r + 1, r + 1 + catalog::inner_rows(tree[mi], mi).len())
                == catalog::inner_rows(tree[mi], mi)),
    decreases n,
{
    let before = catalog::tree_rows(tree, (n - 1) as nat);
    let all = catalog::tree_rows(tree, n);
    if mi == n - 1 {
        let r = before.len() as int;
        assert(all[r] == catalog::metric_row(tree[mi], mi));
        if tree[mi].expanded {
            assert(all.subrange(r + 1, r + 1 + catalog::inner_rows(tree[mi], mi).len()) =~= catalog::inner_rows(tree[mi], mi));
        }
    } else {
        lemma_metric_row(tree, (n - 1) as nat, mi);
        let r = choose|r: int|
            0 <= r < before.len() && (#[trigger] before[r]).node == TreeRowRef::Metric(mi as usize) && before[r].cells == seq![
                (if tree[mi].expanded { "v "@ } else { "> "@ }) + tree[mi].name,
                tree[mi].kind,
                tree[mi].unit,
                tree[mi].temporality,
            ] && (tree[mi].expanded ==> r + catalog::inner_rows(tree[mi], mi).len() < before.len() && before.subrange(
                r + 1,
                r + 1 + catalog::inner_rows(tree[mi], mi).len(),
            ) == catalog::inner_rows(tree[mi], mi));
        assert(all[r] == before[r]);
        if tree[mi].expanded {
            assert(all.subrange(r + 1, r + 1 + catalog::inner_rows(tree[mi], mi).len()) =~= before.subrange(
                r + 1,
                r + 1 + catalog::inner_rows(tree[mi], mi).len(),
            ));
        }
    }
}

/// A closed tree has one row for each metric, in the order of the tree.
pub proof fn law_a_closed_tree_has_a_row_for_each_metric(tree: Seq<NodeView>, n: nat)
    requires
        n <= tree.len() <= usize::MAX,
        forall|i: int| 0 <= i < tree.len() ==> !(#[trigger] tree[i]).expanded,
    ensures
        catalog::tree_rows(tree, n).len() == n,
        forall|i: int|
            0 <= i < n ==> (#[trigger] catalog::tree_rows(tree, n)[i]).node == TreeRowRef::Metric(i as usize),
    decreases n,
{
    if n > 0 {
        law_a_closed_tree_has_a_row_for_each_metric(tree, (n - 1) as nat);
        assert(catalog::tree_rows(tree, n) =~= catalog::tree_rows(tree, (n - 1) as nat).push(
            catalog::metric_row(tree[n - 1], n - 1),
        ));
    }
}

/// The cells of a dimension's row: its marker, its label, the number of its values, and the one checked.
pub open spec fn dimension_cells(dim: DimView) -> Seq<Seq<char>> {
    seq![
        "  "@ + (if dim.expanded { "v "@ } else { "> "@ }) + "by "@ + dim.label + " ("@ + text::dec(dim.values.len()) + ")"@
            + (match dim.selected {
            Some(vi) => if vi < dim.values.len() { " = "@ + dim.values[vi as int] } else { Seq::empty() },
            None => Seq::empty(),
        }),
        Seq::empty(),
        Seq::empty(),
        Seq::empty(),
    ]
}

/// The cells of a value's row: its box, checked where the value is the one of its dimension, and the
/// value with its label.
pub open spec fn value_cells(dim: DimView, vi: int) -> Seq<Seq<char>> {
    seq![
        "      "@ + (if dim.selected == Some(vi as usize) { "[x]"@ } else { "[ ]"@ }) + " "@ + dim.label + "="@
            + dim.values[vi],
        Seq::empty(),
        Seq::empty(),
        Seq::empty(),
    ]
}

/// An open metric has a row for each of its dimensions, and right below that of an open dimension a row
/// for each of its values, in order.
pub proof fn law_every_dimension_has_its_row(dims: Seq<DimView>, mi: int, di: int)
    requires
        0 <= di < dims.len() <= usize::MAX,
        0 <= mi <= usize::MAX,
    ensures
        exists|r: int|
            0 <= r < catalog::dim_rows(dims, mi, dims.len()).len() && #[trigger] catalog::dim_rows(dims, mi, dims.len())[r]
                == (CatalogRow { cells: dimension_cells(dims[di]), node: TreeRowRef::Dim(mi as usize, di as usize) }) && (
            dims[di].expanded ==> r + dims[di].values.len() < catalog::dim_rows(dims, mi, dims.len()).len()
                && catalog::dim_rows(dims, mi, dims.len()).subrange(r + 1, r + 1 + dims[di].values.len()) == Seq::new(
                dims[di].values.len(),
                |vi: int|
                    CatalogRow {
                        cells: value_cells(dims[di], vi),
                        node: TreeRowRef::Value(mi as usize, di as usize, vi as usize),
                    },
            )),
{
    let r = lemma_dim_row(dims, mi, dims.len(), di);
    assert(catalog::dim_row(dims[di], mi, di).cells =~= dimension_cells(dims[di]));
    let values = catalog::value_rows(dims[di], mi, di, dims[di].values.len());
    let shown = Seq::new(
        dims[di].values.len(),
        |vi: int|
            CatalogRow {
                cells: value_cells(dims[di], vi),
                node: TreeRowRef::Value(mi as usize, di as usize, vi as usize),
            },
    );
    assert forall|vi: int| 0 <= vi < values.len() implies #[trigger] values[vi] == shown[vi] by {
        assert(values[vi].cells =~= value_cells(dims[di], vi));
    }
    assert(values =~= shown);
}

proof fn lemma_dim_row(dims: Seq<DimView>, mi: int, n: nat, di: int) -> (r: int)
    requires
        0 <= di < n <= dims.len() <= usize::MAX,
        0 <= mi <= usize::MAX,
    ensures
        0 <= r < catalog::dim_rows(dims, mi, n).len(),
        catalog::dim_rows(dims, mi, n)[r] == catalog::dim_row(dims[di], mi, di),
        dims[di].expanded ==> r + dims[di].values.len() < catalog::dim_rows(dims, mi, n).len() && catalog::dim_rows(
            dims,
            mi,
            n,
        ).subrange(r + 1, r + 1 + dims[di].values.len()) == catalog::value_rows(dims[di], mi, di, dims[di].values.len()),
    decreases n,
{
    let before = catalog::dim_rows(dims, mi, (n - 1) as nat);
    let all = catalog::dim_rows(dims, mi, n);
    let count = dims[di].values.len() as int;
    if di == n - 1 {
        let r = before.len() as int;
        if dims[di].expanded {
            assert(all.subrange(r + 1, r + 1 + count) =~= catalog::value_rows(dims[di], mi, di, dims[di].values.len()));
        }
        r
    } else {
        let r = lemma_dim_row(dims, mi, (n - 1) as nat, di);
        if dims[di].expanded {
            assert(all.subrange(r + 1, r + 1 + count) =~= before.subrange(r + 1, r + 1 + count));
        }
        r
    }
}

/// The catalog table shows a row for each row of the tree, in the same order, and the cursor stands on
/// one of them.
pub proof fn law_the_catalog_shows_the_tree(a: AppView)
    requires
        a.catalog.metric_tree.len() <= usize::MAX,
        a.focus == Focus::Primary,
        0 < catalog::tree_rows(a.catalog.metric_tree, a.catalog.metric_tree.len()).len() <= usize::MAX,
    ensures
        ({
            let rows = catalog::tree_rows(a.catalog.metric_tree, a.catalog.metric_tree.len());
            let b = a.rebuild_catalog();
            &&& b.snapshot.table matches Some(table) && table.rows.len() == rows.len() && forall|i: int|
                0 <= i < rows.len() ==> #[trigger] table.rows[i] == rows[i].cells
            &&& b.catalog.tree_rows.len() == rows.len()
            &&& forall|i: int| 0 <= i < rows.len() ==> #[trigger] b.catalog.tree_rows[i] == rows[i].node
            &&& b.at.selected == if a.at.selected < rows.len() { a.at.selected as int } else { rows.len() - 1 }
        }),
{
}

/// A fresh catalog takes each metric's name, kind, unit and temporality from its row, and keeps what
/// the tree held of a metric of that name: what is open, what is checked, and its dimensions.
pub proof fn law_a_fresh_catalog_keeps_what_is_known(prior: Seq<NodeView>, rows: Seq<Seq<Seq<char>>>, i: int, j: int)
    requires
        0 <= i < rows.len(),
        rows[i].len() == 4,
        0 <= j < prior.len(),
        prior[j].name == rows[i][0],
        forall|k: int| 0 <= k < rows.len() && k != i ==> (#[trigger] rows[k]).len() == 4 && rows[k][0] != rows[i][0],
        forall|k: int| 0 <= k < prior.len() && k != j ==> (#[trigger] prior[k]).name != prior[j].name,
    ensures
        catalog::carried_tree(prior, rows).len() == rows.len(),
        catalog::carried_tree(prior, rows)[i] == (NodeView {
            name: rows[i][0],
            kind: rows[i][1],
            unit: rows[i][2],
            temporality: rows[i][3],
            expanded: prior[j].expanded,
            whole_selected: prior[j].whole_selected,
            dims: prior[j].dims,
            loading: prior[j].loading,
        }),
{
    lemma_last_named(prior, rows[i][0], prior.len(), j);
    assert(!catalog::named_before(rows, rows[i][0], i));
}

proof fn lemma_last_named(tree: Seq<NodeView>, name: Seq<char>, n: nat, j: int)
    requires
        0 <= j < n <= tree.len(),
        tree[j].name == name,
        forall|k: int| 0 <= k < tree.len() && k != j ==> (#[trigger] tree[k]).name != name,
    ensures
        catalog::last_named(tree, name, n) == Some(tree[j]),
    decreases n,
{
    if j != n - 1 {
        lemma_last_named(tree, name, (n - 1) as nat, j);
    }
}

/// A metric that the tree did not hold starts closed, unchecked and without dimensions.
pub proof fn law_a_new_metric_starts_closed(prior: Seq<NodeView>, rows: Seq<Seq<Seq<char>>>, i: int)
    requires
        0 <= i < rows.len(),
        rows[i].len() == 4,
        forall|k: int| 0 <= k < prior.len() ==> (#[trigger] prior[k]).name != rows[i][0],
    ensures
        catalog::carried_tree(prior, rows)[i] == (NodeView {
            name: rows[i][0],
            kind: rows[i][1],
            unit: rows[i][2],
            temporality: rows[i][3],
            expanded: false,
            whole_selected: false,
            dims: None,
            loading: false,
        }),
{
    lemma_not_named(prior, rows[i][0], prior.len());
}

proof fn lemma_not_named(tree: Seq<NodeView>, name: Seq<char>, n: nat)
    requires
        n <= tree.len(),
        forall|k: int| 0 <= k < tree.len() ==> (#[trigger] tree[k]).name != name,
    ensures
        catalog::last_named(tree, name, n) is None,
    decreases n,
{
    if n > 0 {
        lemma_not_named(tree, name, (n - 1) as nat);
    }
}

/// Dimensions that land belong to the metric they were asked for, which no longer loads; the other
/// metrics stay as they were.
pub proof fn law_dimensions_land_on_their_metric(a: AppView, metric: Seq<char>, dims: Seq<DimView>, i: int)
    requires
        0 <= i < a.catalog.metric_tree.len() <= usize::MAX,
        a.catalog.metric_tree[i].name == metric,
        forall|k: int| 0 <= k < i ==> (#[trigger] a.catalog.metric_tree[k]).name != metric,
    ensures
        a.take_dims(metric, dims).catalog.metric_tree == a.catalog.metric_tree.update(
            i,
            NodeView { dims: Some(dims), loading: false, ..a.catalog.metric_tree[i] },
        ),
{
    let tree = a.catalog.metric_tree;
    lemma_first_named(tree, metric, 0, i);
    let b = a.with_tree(tree.update(i, NodeView { dims: Some(dims), loading: false, ..tree[i] }));
    catalog::law_catalog_rows_match_the_tree(b);
}

proof fn lemma_first_named(tree: Seq<NodeView>, name: Seq<char>, from: int, i: int)
    requires
        0 <= from <= i < tree.len(),
        tree[i].name == name,
        forall|k: int| 0 <= k < i ==> (#[trigger] tree[k]).name != name,
    ensures
        completion::node_named(tree, name, from) == Some(i),
    decreases i - from,
{
    if from < i {
        lemma_first_named(tree, name, from + 1, i);
    }
}

} // verus!
