//! The Metrics catalog tree: expansion, discovered dimensions, checked series, and the queries that
//! the selection visualizes.

use vstd::prelude::*;

use crate::app::attributes::clamped;
use crate::app::{App, AppView, CatalogView};
use crate::app;
use crate::completion;
use crate::geometry;
use crate::model;
use crate::model::{DimNode, DimView, MetricNode, NodeView, SnapView, TableData, TreeRowRef};
use crate::promql;
use crate::text;

verus! {

/// A row of the catalog table: its cells and the tree node it shows.
#[verifier::ext_equal]
pub struct CatalogRow {
    pub cells: Seq<Seq<char>>,
    pub node: TreeRowRef,
}

/// The marker of an open or closed branch.
pub open spec fn branch(open: bool) -> Seq<char> {
    if open { "v "@ } else { "> "@ }
}

/// The marker of a checked or unchecked box.
pub open spec fn checkbox(checked: bool) -> Seq<char> {
    if checked { "[x]"@ } else { "[ ]"@ }
}

/// A row below a metric: only its first cell holds anything.
pub open spec fn inner_row(cell: Seq<char>, node: TreeRowRef) -> CatalogRow {
    CatalogRow { cells: seq![cell, Seq::empty(), Seq::empty(), Seq::empty()], node }
}

/// The value checked in a dimension.
pub open spec fn checked_value(dim: DimView) -> Option<Seq<char>> {
    match dim.selected {
        Some(vi) => if vi < dim.values.len() { Some(dim.values[vi as int]) } else { None },
        None => None,
    }
}

/// The row of a dimension, which shows the checked value also while it is collapsed.
pub open spec fn dim_row(dim: DimView, mi: int, di: int) -> CatalogRow {
    let chosen = match checked_value(dim) {
        Some(value) => " = "@ + value,
        None => Seq::empty(),
    };
    inner_row(
        "  "@ + branch(dim.expanded) + "by "@ + dim.label + " ("@ + text::dec(dim.values.len()) + ")"@ + chosen,
        TreeRowRef::Dim(mi as usize, di as usize),
    )
}

/// The rows of the first `n` values of a dimension.
pub open spec fn value_rows(dim: DimView, mi: int, di: int, n: nat) -> Seq<CatalogRow> {
    Seq::new(
        n,
        |vi: int|
            inner_row(
                "      "@ + checkbox(dim.selected == Some(vi as usize)) + " "@ + dim.label + "="@ + dim.values[vi],
                TreeRowRef::Value(mi as usize, di as usize, vi as usize),
            ),
    )
}

/// The rows of the first `n` dimensions of a metric.
pub open spec fn dim_rows(dims: Seq<DimView>, mi: int, n: nat) -> Seq<CatalogRow>
    decreases n,
{
    if n == 0 {
        Seq::empty()
    } else {
        let di = n - 1;
        let dim = dims[di];
        dim_rows(dims, mi, di as nat).push(dim_row(dim, mi, di)) + (if dim.expanded {
            value_rows(dim, mi, di, dim.values.len())
        } else {
            Seq::empty()
        })
    }
}

/// The rows below an expanded metric.
pub open spec fn inner_rows(node: NodeView, mi: int) -> Seq<CatalogRow> {
    match node.dims {
        None => seq![inner_row("    (loading dimensions...)"@, TreeRowRef::Metric(mi as usize))],
        Some(dims) => if dims.len() == 0 {
            seq![
                inner_row(
                    "    "@ + checkbox(node.whole_selected) + " (no dimensions)"@,
                    TreeRowRef::NoDims(mi as usize),
                ),
            ]
        } else {
            dim_rows(dims, mi, dims.len())
        },
    }
}

/// The row of a metric.
pub open spec fn metric_row(node: NodeView, mi: int) -> CatalogRow {
    CatalogRow {
        cells: seq![branch(node.expanded) + node.name, node.kind, node.unit, node.temporality],
        node: TreeRowRef::Metric(mi as usize),
    }
}

/// The rows of the first `n` metrics.
pub open spec fn tree_rows(tree: Seq<NodeView>, n: nat) -> Seq<CatalogRow>
    decreases n,
{
    if n == 0 {
        Seq::empty()
    } else {
        let mi = n - 1;
        let node = tree[mi];
        tree_rows(tree, mi as nat).push(metric_row(node, mi)) + (if node.expanded {
            inner_rows(node, mi)
        } else {
            Seq::empty()
        })
    }
}

/// The cells of the rows.
pub open spec fn cells_of(rows: Seq<CatalogRow>) -> Seq<Seq<Seq<char>>> {
    rows.map_values(|row: CatalogRow| row.cells)
}

/// The nodes of the rows.
pub open spec fn nodes_of(rows: Seq<CatalogRow>) -> Seq<TreeRowRef> {
    rows.map_values(|row: CatalogRow| row.node)
}

/// The column names of the catalog.
pub open spec fn catalog_header() -> Seq<Seq<char>> {
    seq!["Metric"@, "Kind"@, "Unit"@, "Temporality"@]
}

/// Cell `i` of a row, empty where the row is shorter.
pub open spec fn cell(row: Seq<Seq<char>>, i: int) -> Seq<char> {
    if i < row.len() { row[i] } else { Seq::empty() }
}

/// The last of the first `n` metrics that bears the name.
pub open spec fn last_named(tree: Seq<NodeView>, name: Seq<char>, n: nat) -> Option<NodeView>
    decreases n,
{
    if n == 0 {
        None
    } else if tree[n - 1].name == name {
        Some(tree[n - 1])
    } else {
        last_named(tree, name, (n - 1) as nat)
    }
}

/// Whether one of the first `n` rows names the metric.
pub open spec fn named_before(rows: Seq<Seq<Seq<char>>>, name: Seq<char>, n: int) -> bool {
    exists|j: int| 0 <= j < n && cell(#[trigger] rows[j], 0) == name
}

/// The metric of row `i` of a fresh catalog: the state of the metric of that name is carried over,
/// once, and its description is the row's.
pub open spec fn carried_node(prior: Seq<NodeView>, rows: Seq<Seq<Seq<char>>>, i: int) -> NodeView {
    let name = cell(rows[i], 0);
    let fresh = NodeView {
        name,
        kind: cell(rows[i], 1),
        unit: cell(rows[i], 2),
        temporality: cell(rows[i], 3),
        expanded: false,
        whole_selected: false,
        dims: None,
        loading: false,
    };
    if named_before(rows, name, i) {
        fresh
    } else {
        match last_named(prior, name, prior.len()) {
            Some(node) => NodeView { kind: fresh.kind, unit: fresh.unit, temporality: fresh.temporality, ..node },
            None => fresh,
        }
    }
}

/// The tree over a fresh catalog.
pub open spec fn carried_tree(prior: Seq<NodeView>, rows: Seq<Seq<Seq<char>>>) -> Seq<NodeView> {
    Seq::new(rows.len(), |i: int| carried_node(prior, rows, i))
}

/// Whether a dimension has a value checked.
pub open spec fn any_checked(dims: Seq<DimView>) -> bool {
    exists|i: int| 0 <= i < dims.len() && (#[trigger] dims[i]).selected is Some
}

/// Whether a metric is part of the selection.
pub open spec fn is_selected(node: NodeView) -> bool {
    node.whole_selected || (node.dims matches Some(dims) && any_checked(dims))
}

/// The label matchers of the first `n` dimensions: their checked values, but for the one grouped by.
pub open spec fn checked_matchers(dims: Seq<DimView>, group_by: Option<Seq<char>>, n: nat) -> Seq<(Seq<char>, Seq<char>)>
    decreases n,
{
    if n == 0 {
        Seq::empty()
    } else {
        let before = checked_matchers(dims, group_by, (n - 1) as nat);
        let dim = dims[n - 1];
        match checked_value(dim) {
            Some(value) => if Some(dim.label) != group_by { before.push((dim.label, value)) } else { before },
            None => before,
        }
    }
}

/// The dimensions of a metric, none before they are discovered.
pub open spec fn dims_of(node: NodeView) -> Seq<DimView> {
    match node.dims {
        Some(dims) => dims,
        None => Seq::empty(),
    }
}

/// The query of a metric, restricted to its checked values and optionally grouped.
pub open spec fn node_query(node: NodeView, group_by: Option<Seq<char>>) -> Seq<char> {
    let dims = dims_of(node);
    promql::metric_query(
        node.name,
        node.kind,
        checked_matchers(dims, group_by, dims.len()),
        group_by,
        completion::labels_of(dims),
    )
}

/// The queries of the selected metrics among the first `n`.
pub open spec fn selected_queries(tree: Seq<NodeView>, n: nat) -> Seq<Seq<char>>
    decreases n,
{
    if n == 0 {
        Seq::empty()
    } else {
        let before = selected_queries(tree, (n - 1) as nat);
        if is_selected(tree[n - 1]) { before.push(node_query(tree[n - 1], None)) } else { before }
    }
}

/// The dimension that a row groups by.
pub open spec fn row_group(tree: Seq<NodeView>, row: TreeRowRef) -> Option<Seq<char>> {
    match row {
        TreeRowRef::Dim(mi, di) => {
            let dims = dims_of(tree[mi as int]);
            if di < dims.len() { Some(dims[di as int].label) } else { None }
        },
        _ => None,
    }
}

/// A metric with its branch toggled; one that is opened for the first time starts loading.
pub open spec fn toggled_metric(node: NodeView) -> NodeView {
    if starts_loading(node) {
        NodeView { loading: true, expanded: true, ..node }
    } else {
        NodeView { expanded: !node.expanded, ..node }
    }
}

/// Whether opening the metric asks for its dimensions.
pub open spec fn starts_loading(node: NodeView) -> bool {
    !node.expanded && node.dims is None && !node.loading
}

/// A metric with dimension `di` replaced, where it has one.
pub open spec fn with_dim(node: NodeView, di: int, dim: DimView) -> NodeView {
    match node.dims {
        Some(dims) => if di < dims.len() { NodeView { dims: Some(dims.update(di, dim)), ..node } } else { node },
        None => node,
    }
}

/// A metric once the node of the row is toggled: a branch opens or closes, a value is checked in
/// place of any other of its dimension or unchecked, a metric without dimensions is checked whole.
pub open spec fn toggled(node: NodeView, row: TreeRowRef) -> NodeView {
    match row {
        TreeRowRef::Metric(_) => toggled_metric(node),
        TreeRowRef::Dim(_, di) => {
            let dim = dims_of(node)[di as int];
            with_dim(node, di as int, DimView { expanded: !dim.expanded, ..dim })
        },
        TreeRowRef::Value(_, di, vi) => {
            let dim = dims_of(node)[di as int];
            with_dim(
                node,
                di as int,
                DimView { selected: if dim.selected == Some(vi) { None } else { Some(vi) }, ..dim },
            )
        },
        TreeRowRef::NoDims(_) => NodeView { whole_selected: !node.whole_selected, ..node },
    }
}

impl AppView {
    /// The state with another tree.
    pub open spec fn with_tree(self, tree: Seq<NodeView>) -> AppView {
        AppView { catalog: CatalogView { metric_tree: tree, ..self.catalog }, ..self }
    }

    /// The state with the cursor held within the selectable rows.
    pub open spec fn hold_cursor(self) -> AppView {
        match self.selectable() {
            Some((first, last)) => self.select(
                geometry::clamp(self.at.selected as int, first as int, last as int) as usize,
            ),
            None => self,
        }
    }

    /// The state with the catalog table showing the tree.
    pub open spec fn rebuild_catalog(self) -> AppView {
        let tree = self.catalog.metric_tree;
        let rows = tree_rows(tree, tree.len());
        let header = match self.snapshot.table {
            Some(table) => table.header,
            None => catalog_header(),
        };
        (AppView {
            catalog: CatalogView { tree_rows: nodes_of(rows), ..self.catalog },
            snapshot: SnapView { table: Some(model::table_of(header, cells_of(rows))), ..self.snapshot },
            ..self
        }).hold_cursor()
    }

    /// The state with the tree over the catalog that the snapshot holds, where it holds one.
    pub open spec fn build_tree(self) -> AppView {
        match self.snapshot.table {
            Some(table) => if table.header.len() > 0 && table.header[0] == "Metric"@ {
                self.with_tree(carried_tree(self.catalog.metric_tree, table.rows)).rebuild_catalog()
            } else {
                self
            },
            None => self,
        }
    }

    /// The tree node under the cursor.
    pub open spec fn selected_row(self) -> Option<TreeRowRef> {
        if !self.on_catalog() {
            None
        } else {
            match self.selectable() {
                Some((first, last)) => {
                    let i = geometry::clamp(self.at.selected as int, first as int, last as int);
                    if i < self.catalog.tree_rows.len() { Some(self.catalog.tree_rows[i]) } else { None }
                },
                None => None,
            }
        }
    }

    /// The state with the node under the cursor toggled.
    pub open spec fn toggle_node(self) -> AppView {
        match self.selected_row() {
            Some(row) => {
                let mi = app::metric_of(row) as int;
                let tree = self.catalog.metric_tree;
                self.with_tree(tree.update(mi, toggled(tree[mi], row))).rebuild_catalog()
            },
            None => self,
        }
    }

    /// The metric whose dimensions a toggle of the node under the cursor asks for.
    pub open spec fn toggle_asks(self) -> Option<Seq<char>> {
        match self.selected_row() {
            Some(TreeRowRef::Metric(mi)) => {
                let node = self.catalog.metric_tree[mi as int];
                if starts_loading(node) { Some(node.name) } else { None }
            },
            _ => None,
        }
    }

    /// The state once the dimensions of a metric have landed.
    pub open spec fn take_dims(self, metric: Seq<char>, dims: Seq<DimView>) -> AppView {
        let tree = self.catalog.metric_tree;
        let b = match completion::node_named(tree, metric, 0) {
            Some(mi) => self.with_tree(
                tree.update(mi, NodeView { dims: Some(dims), loading: false, ..tree[mi] }),
            ),
            None => self,
        };
        if b.on_catalog() { b.rebuild_catalog() } else { b }
    }

    /// The queries that the selection visualizes: those of the selected metrics, else that of the
    /// node under the cursor.
    pub open spec fn visualize(self) -> Seq<Seq<char>> {
        let tree = self.catalog.metric_tree;
        let chosen = selected_queries(tree, tree.len());
        if chosen.len() > 0 {
            chosen
        } else {
            match self.selected_row() {
                Some(row) => seq![node_query(tree[app::metric_of(row) as int], row_group(tree, row))],
                None => Seq::empty(),
            }
        }
    }
}

/// The rows under construction, one list for the cells and one for the nodes.
struct RowList {
    rows: Vec<Vec<String>>,
    nodes: Vec<TreeRowRef>,
}

impl RowList {
    spec fn holds(self, all: Seq<CatalogRow>) -> bool {
        model::rows_view(self.rows@) == cells_of(all) && self.nodes@ == nodes_of(all)
    }

    fn push(&mut self, first: String, second: String, third: String, fourth: String, node: TreeRowRef, Ghost(all): Ghost<Seq<CatalogRow>>)
        requires
            old(self).holds(all),
        ensures
            final(self).holds(all.push(CatalogRow { cells: seq![first@, second@, third@, fourth@], node })),
    {
        let ghost before = self.rows@;
        let mut row: Vec<String> = Vec::new();
        row.push(first);
        row.push(second);
        row.push(third);
        row.push(fourth);
        let ghost new = CatalogRow { cells: seq![first@, second@, third@, fourth@], node };
        assert(text::strs(row@) =~= new.cells);
        self.rows.push(row);
        self.nodes.push(node);
        assert(model::rows_view(self.rows@) =~= model::rows_view(before).push(new.cells));
        assert(cells_of(all.push(new)) =~= cells_of(all).push(new.cells));
        assert(nodes_of(all.push(new)) =~= nodes_of(all).push(node));
    }

    fn push_inner(&mut self, first: String, node: TreeRowRef, Ghost(all): Ghost<Seq<CatalogRow>>)
        requires
            old(self).holds(all),
        ensures
            final(self).holds(all.push(inner_row(first@, node))),
    {
        let a = String::new();
        let b = String::new();
        let c = String::new();
        assert(a@ =~= Seq::<char>::empty() && b@ =~= Seq::<char>::empty() && c@ =~= Seq::<char>::empty());
        self.push(first, a, b, c, node, Ghost(all));
    }
}

fn dim_cell(dim: &DimNode) -> (r: String)
    ensures
        r@ == dim_row(dim@, 0, 0).cells[0],
{
    let mut out = text::owned("  ");
    out.append(if dim.expanded { "v " } else { "> " });
    out.append("by ");
    out.append(&dim.label);
    out.append(" (");
    out.append(&text::dec_string(dim.values.len() as u64));
    out.append(")");
    assert(text::strs(dim.values@).len() == dim.values@.len());
    match dim.selected {
        Some(vi) => {
            if vi < dim.values.len() {
                out.append(" = ");
                out.append(&dim.values[vi]);
            }
        },
        None => {},
    }
    assert(out@ =~= dim_row(dim@, 0, 0).cells[0]);
    out
}

fn push_dims(list: &mut RowList, dims: &Vec<DimNode>, mi: usize, Ghost(all): Ghost<Seq<CatalogRow>>)
    requires
        old(list).holds(all),
    ensures
        final(list).holds(all + dim_rows(model::dims_view(dims@), mi as int, dims@.len())),
{
    let ghost views = model::dims_view(dims@);
    let n: usize = dims.len();
    let mut di: usize = 0;
    assert(all + dim_rows(views, mi as int, 0) =~= all);
    while di < n
        invariant
            n == dims@.len(),
            di <= n,
            views == model::dims_view(dims@),
            list.holds(all + dim_rows(views, mi as int, di as nat)),
        decreases n - di,
    {
        let dim = &dims[di];
        let ghost before = all + dim_rows(views, mi as int, di as nat);
        assert(views[di as int] == dim@);
        list.push_inner(dim_cell(dim), TreeRowRef::Dim(mi, di), Ghost(before));
        let ghost opened = before.push(dim_row(dim@, mi as int, di as int));
        if dim.expanded {
            let m: usize = dim.values.len();
            let mut vi: usize = 0;
            assert(opened + value_rows(dim@, mi as int, di as int, 0) =~= opened);
            while vi < m
                invariant
                    m == dim.values@.len(),
                    vi <= m,
                    list.holds(opened + value_rows(dim@, mi as int, di as int, vi as nat)),
                decreases m - vi,
            {
                let checked = match dim.selected {
                    Some(k) => k == vi,
                    None => false,
                };
                let mut out = text::owned("      ");
                out.append(if checked { "[x]" } else { "[ ]" });
                out.append(" ");
                out.append(&dim.label);
                out.append("=");
                out.append(&dim.values[vi]);
                assert(dim@.values[vi as int] == dim.values@[vi as int]@);
                let ghost rows = opened + value_rows(dim@, mi as int, di as int, vi as nat);
                list.push_inner(out, TreeRowRef::Value(mi, di, vi), Ghost(rows));
                vi += 1;
                assert(opened + value_rows(dim@, mi as int, di as int, vi as nat) =~= rows.push(
                    inner_row(out@, TreeRowRef::Value(mi, di, (vi - 1) as usize)),
                ));
            }
            assert(all + dim_rows(views, mi as int, (di + 1) as nat) =~= opened + value_rows(
                dim@,
                mi as int,
                di as int,
                m as nat,
            ));
        } else {
            assert(all + dim_rows(views, mi as int, (di + 1) as nat) =~= opened);
        }
        di += 1;
    }
}

fn push_node(list: &mut RowList, node: &MetricNode, mi: usize, Ghost(all): Ghost<Seq<CatalogRow>>)
    requires
        old(list).holds(all),
    ensures
        final(list).holds(
            all.push(metric_row(node@, mi as int)) + (if node@.expanded {
                inner_rows(node@, mi as int)
            } else {
                Seq::empty()
            }),
        ),
{
    let name = text::cat(if node.expanded { "v " } else { "> " }, &node.name);
    list.push(
        name,
        node.kind.clone(),
        node.unit.clone(),
        node.temporality.clone(),
        TreeRowRef::Metric(mi),
        Ghost(all),
    );
    let ghost opened = all.push(metric_row(node@, mi as int));
    assert(opened + Seq::<CatalogRow>::empty() =~= opened);
    if node.expanded {
        match &node.dims {
            None => {
                list.push_inner(text::owned("    (loading dimensions...)"), TreeRowRef::Metric(mi), Ghost(opened));
                assert(opened + inner_rows(node@, mi as int) =~= opened.push(inner_rows(node@, mi as int)[0]));
            },
            Some(dims) => {
                if dims.len() == 0 {
                    let mut out = text::owned("    ");
                    out.append(if node.whole_selected { "[x]" } else { "[ ]" });
                    out.append(" (no dimensions)");
                    list.push_inner(out, TreeRowRef::NoDims(mi), Ghost(opened));
                    assert(opened + inner_rows(node@, mi as int) =~= opened.push(inner_rows(node@, mi as int)[0]));
                } else {
                    push_dims(list, dims, mi, Ghost(opened));
                }
            },
        }
    }
}

/// The names of the catalog's columns.
fn header_names() -> (r: Vec<String>)
    ensures
        text::strs(r@) == catalog_header(),
{
    let mut r: Vec<String> = Vec::new();
    r.push(text::owned("Metric"));
    r.push(text::owned("Kind"));
    r.push(text::owned("Unit"));
    r.push(text::owned("Temporality"));
    assert(text::strs(r@) =~= catalog_header());
    r
}

impl App {
    /// Puts the cursor within the selectable rows.
    pub(crate) fn hold_cursor(&mut self)
        ensures
            final(self)@ == old(self)@.hold_cursor(),
    {
        if let Some((first, last)) = self.selectable_bounds() {
            self.at.selected = clamped(self.at.selected, first, last);
        }
    }

    /// Flattens the catalog tree into the catalog table and the nodes behind its rows, the cursor
    /// held within the new rows.
    pub fn rebuild_catalog_table(&mut self)
        ensures
            final(self)@ == old(self)@.rebuild_catalog(),
    {
        let mut list = RowList { rows: Vec::new(), nodes: Vec::new() };
        let ghost tree = self@.catalog.metric_tree;
        let n: usize = self.catalog.metric_tree.len();
        let mut mi: usize = 0;
        assert(model::rows_view(list.rows@) =~= cells_of(tree_rows(tree, 0)));
        assert(list.nodes@ =~= nodes_of(tree_rows(tree, 0)));
        while mi < n
            invariant
                self@ == old(self)@,
                n == self.catalog.metric_tree@.len(),
                mi <= n,
                tree == model::tree_view(self.catalog.metric_tree@),
                list.holds(tree_rows(tree, mi as nat)),
            decreases n - mi,
        {
            assert(tree[mi as int] == self.catalog.metric_tree@[mi as int]@);
            push_node(&mut list, &self.catalog.metric_tree[mi], mi, Ghost(tree_rows(tree, mi as nat)));
            mi += 1;
        }
        let header = match self.snapshot.table.take() {
            Some(table) => table.header,
            None => header_names(),
        };
        let RowList { rows, nodes } = list;
        self.catalog.tree_rows = nodes;
        self.snapshot.table = Some(TableData::new(header, rows));
        self.hold_cursor();
    }

    /// The tree node under the cursor, on the catalog.
    pub fn selected_tree_row(&self) -> (r: Option<TreeRowRef>)
        ensures
            r == self@.selected_row(),
    {
        if !self.on_catalog() {
            return None;
        }
        match self.selectable_bounds() {
            Some((first, last)) => {
                let i: usize = clamped(self.at.selected, first, last);
                if i < self.catalog.tree_rows.len() {
                    Some(self.catalog.tree_rows[i])
                } else {
                    None
                }
            },
            None => None,
        }
    }

    /// Builds the tree over the catalog that the snapshot holds, and shows it. Expansion,
    /// discovered dimensions and the selection are carried over by name, so that a refresh of the
    /// catalog keeps them. Only a catalog is a tree; another table changes nothing.
    pub fn build_metric_tree(&mut self)
        ensures
            final(self)@ == old(self)@.build_tree(),
    {
        let ghost a = self@;
        match &self.snapshot.table {
            Some(table) => {
                if table.header.len() == 0 || !text::same(&table.header[0], "Metric") {
                    return;
                }
            },
            None => {
                return;
            },
        }
        let mut prior: Vec<MetricNode> = Vec::new();
        std::mem::swap(&mut prior, &mut self.catalog.metric_tree);
        let ghost start = a.catalog.metric_tree;
        let ghost rows = a.snapshot.table->0.rows;
        assert(model::tree_view(prior@) == start);
        let mut tree: Vec<MetricNode> = Vec::new();
        if let Some(table) = &self.snapshot.table {
            let n: usize = table.rows.len();
            let mut i: usize = 0;
            while i < n
                invariant
                    n == table.rows@.len(),
                    i <= n,
                    rows == model::rows_view(table.rows@),
                    model::tree_view(tree@) == carried_tree(start, rows).take(i as int),
                    forall|x: Seq<char>| !named_before(rows, x, i as int) ==> #[trigger] last_named(
                        model::tree_view(prior@),
                        x,
                        prior@.len(),
                    ) == last_named(start, x, start.len()),
                decreases n - i,
            {
                let row = &table.rows[i];
                assert(rows[i as int] == text::strs(row@));
                let name = cell_of(row, 0);
                let kind = cell_of(row, 1);
                let unit = cell_of(row, 2);
                let temporality = cell_of(row, 3);
                let ghost before = model::tree_view(tree@);
                let seen = bears(&tree, &name, Ghost(start), Ghost(rows), Ghost(i as int));
                let ghost kept = model::tree_view(prior@);
                let found: Option<MetricNode> = if seen { None } else { take_named(&mut prior, &name) };
                proof {
                    assert forall|x: Seq<char>| !named_before(rows, x, i + 1) implies #[trigger] last_named(
                        model::tree_view(prior@),
                        x,
                        prior@.len(),
                    ) == last_named(start, x, start.len()) by {
                        assert(!named_before(rows, x, i as int)) by {
                            if named_before(rows, x, i as int) {
                                let j = choose|j: int| 0 <= j < i && cell(#[trigger] rows[j], 0) == x;
                                assert(0 <= j < i + 1 && cell(rows[j], 0) == x);
                            }
                        }
                        assert(cell(rows[i as int], 0) != x);
                    }
                }
                let node = match found {
                    Some(mut node) => {
                        node.kind = kind;
                        node.unit = unit;
                        node.temporality = temporality;
                        node
                    },
                    None => MetricNode {
                        name,
                        kind,
                        unit,
                        temporality,
                        expanded: false,
                        whole_selected: false,
                        dims: None,
                        loading: false,
                    },
                };
                assert(node@ == carried_node(start, rows, i as int));
                tree.push(node);
                i += 1;
                assert(model::tree_view(tree@) =~= before.push(node@));
                assert(carried_tree(start, rows).take(i as int) =~= carried_tree(start, rows).take(i - 1).push(
                    carried_tree(start, rows)[i - 1],
                ));
            }
            assert(carried_tree(start, rows).take(n as int) =~= carried_tree(start, rows));
        }
        self.catalog.metric_tree = tree;
        self.rebuild_catalog_table();
    }

    /// Toggles the node under the cursor: opens or closes a metric or a dimension, or checks a
    /// value, which replaces any other one of its dimension. Returns the metric that was opened for
    /// the first time and whose dimensions are to be fetched.
    pub fn toggle_node(&mut self) -> (r: Option<String>)
        requires
            app::rows_belong(old(self)@.catalog.tree_rows, old(self)@.catalog.metric_tree.len() as int),
        ensures
            final(self)@ == old(self)@.toggle_node(),
            text::opt(r) == old(self)@.toggle_asks(),
    {
        let row = match self.selected_tree_row() {
            Some(row) => row,
            None => {
                return None;
            },
        };
        let ghost a = self@;
        let ghost mi = app::metric_of(row) as int;
        proof {
            let (first, last) = a.selectable()->Some_0;
            let i = geometry::clamp(a.at.selected as int, first as int, last as int);
            assert(app::metric_of(a.catalog.tree_rows[i]) < a.catalog.metric_tree.len());
        }
        let asked = toggle_in(&mut self.catalog.metric_tree, row);
        self.rebuild_catalog_table();
        asked
    }

    /// Stores the discovered dimensions of a metric, and shows them where the catalog is on screen.
    pub fn apply_metric_dims(&mut self, metric: &str, dims: Vec<DimNode>)
        ensures
            final(self)@ == old(self)@.take_dims(metric@, model::dims_view(dims@)),
    {
        store_dims(&mut self.catalog.metric_tree, metric, dims);
        if self.on_catalog() {
            self.rebuild_catalog_table();
        }
    }

    /// The query of metric `mi`, restricted to its checked values, and grouped by `group_by` where
    /// that is given (which makes that dimension's matcher redundant).
    pub fn metric_node_query(&self, mi: usize, group_by: Option<&str>) -> (r: String)
        requires
            mi < self@.catalog.metric_tree.len(),
        ensures
            r@ == node_query(
                self@.catalog.metric_tree[mi as int],
                match group_by {
                    Some(label) => Some(label@),
                    None => None,
                },
            ),
    {
        let node = &self.catalog.metric_tree[mi];
        let ghost by = match group_by {
            Some(label) => Some(label@),
            None => None,
        };
        let ghost dims = dims_of(node@);
        let mut matchers: Vec<(String, String)> = Vec::new();
        let mut labels: Vec<String> = Vec::new();
        assert(promql::pairs(matchers@) =~= checked_matchers(dims, by, 0));
        assert(text::strs(labels@) =~= completion::labels_of(dims).take(0));
        if let Some(list) = &node.dims {
            let n: usize = list.len();
            let mut di: usize = 0;
            while di < n
                invariant
                    n == list@.len(),
                    di <= n,
                    dims == model::dims_view(list@),
                    by == (match group_by {
                        Some(label) => Some(label@),
                        None => None,
                    }),
                    promql::pairs(matchers@) == checked_matchers(dims, by, di as nat),
                    text::strs(labels@) == completion::labels_of(dims).take(di as int),
                decreases n - di,
            {
                let dim = &list[di];
                assert(dims[di as int] == dim@);
                let grouped = match group_by {
                    Some(label) => text::same(&dim.label, label),
                    None => false,
                };
                let ghost before = matchers@;
                if let Some(vi) = dim.selected {
                    if vi < dim.values.len() && !grouped {
                        matchers.push((dim.label.clone(), dim.values[vi].clone()));
                        assert(promql::pairs(matchers@) =~= promql::pairs(before).push(
                            (dim@.label, dim@.values[vi as int]),
                        ));
                    }
                }
                let ghost named = labels@;
                labels.push(dim.label.clone());
                di += 1;
                assert(text::strs(labels@) =~= text::strs(named).push(dim@.label));
                assert(completion::labels_of(dims).take(di as int) =~= completion::labels_of(dims).take(di - 1).push(
                    completion::labels_of(dims)[di - 1],
                ));
            }
        }
        assert(completion::labels_of(dims).take(dims.len() as int) =~= completion::labels_of(dims));
        promql::build_metric_query(&node.name, &node.kind, &matchers, group_by, &labels)
    }

    /// The queries to run when visualizing from the catalog: every metric with a checked series is
    /// shown, each restricted to its own checked values; where nothing is checked, the node under
    /// the cursor is, grouped by its dimension on a dimension's row.
    pub fn visualize_queries(&self) -> (r: Vec<String>)
        requires
            app::rows_belong(self@.catalog.tree_rows, self@.catalog.metric_tree.len() as int),
        ensures
            text::strs(r@) == self@.visualize(),
    {
        let ghost tree = self@.catalog.metric_tree;
        let mut out: Vec<String> = Vec::new();
        let n: usize = self.catalog.metric_tree.len();
        let mut mi: usize = 0;
        assert(text::strs(out@) =~= selected_queries(tree, 0));
        while mi < n
            invariant
                n == self.catalog.metric_tree@.len(),
                mi <= n,
                tree == self@.catalog.metric_tree,
                text::strs(out@) == selected_queries(tree, mi as nat),
            decreases n - mi,
        {
            assert(tree[mi as int] == self.catalog.metric_tree@[mi as int]@);
            let ghost before = out@;
            if has_selection(&self.catalog.metric_tree[mi]) {
                out.push(self.metric_node_query(mi, None));
                assert(text::strs(out@) =~= text::strs(before).push(node_query(tree[mi as int], None)));
            }
            mi += 1;
        }
        if out.len() > 0 {
            return out;
        }
        match self.selected_tree_row() {
            Some(row) => {
                proof {
                    let (first, last) = self@.selectable()->Some_0;
                    let i = geometry::clamp(self@.at.selected as int, first as int, last as int);
                    assert(app::metric_of(self@.catalog.tree_rows[i]) < tree.len());
                }
                let mi: usize = match row {
                    TreeRowRef::Metric(mi) => mi,
                    TreeRowRef::Dim(mi, _) => mi,
                    TreeRowRef::Value(mi, _, _) => mi,
                    TreeRowRef::NoDims(mi) => mi,
                };
                let node = &self.catalog.metric_tree[mi];
                assert(tree[mi as int] == node@);
                let mut group: Option<&str> = None;
                if let TreeRowRef::Dim(_, di) = row {
                    if let Some(dims) = &node.dims {
                        if di < dims.len() {
                            group = Some(dims[di].label.as_str());
                            assert(model::dims_view(dims@)[di as int] == dims@[di as int]@);
                        }
                    }
                }
                let query = self.metric_node_query(mi, group);
                out.push(query);
                assert(text::strs(out@) =~= self@.visualize());
                out
            },
            None => {
                assert(text::strs(out@) =~= self@.visualize());
                out
            },
        }
    }
}

fn cell_of(row: &Vec<String>, i: usize) -> (r: String)
    ensures
        r@ == cell(text::strs(row@), i as int),
{
    if i < row.len() {
        row[i].clone()
    } else {
        let r = String::new();
        assert(r@ =~= cell(text::strs(row@), i as int));
        r
    }
}

/// Whether one of the metrics built so far bears the name.
fn bears(tree: &Vec<MetricNode>, name: &str, Ghost(prior): Ghost<Seq<NodeView>>, Ghost(rows): Ghost<Seq<Seq<Seq<char>>>>, Ghost(i): Ghost<int>) -> (r: bool)
    requires
        0 <= i <= rows.len(),
        model::tree_view(tree@) == carried_tree(prior, rows).take(i),
    ensures
        r == named_before(rows, name@, i),
{
    let n: usize = tree.len();
    let ghost views = model::tree_view(tree@);
    assert(views.len() == i);
    let mut k: usize = 0;
    while k < n
        invariant
            n == tree@.len(),
            n == i,
            i <= rows.len(),
            k <= n,
            views == model::tree_view(tree@),
            views == carried_tree(prior, rows).take(i),
            forall|j: int| 0 <= j < k ==> cell(#[trigger] rows[j], 0) != name@,
        decreases n - k,
    {
        assert(views[k as int] == tree@[k as int]@);
        proof {
            lemma_last_named(prior, cell(rows[k as int], 0), prior.len());
            assert(views[k as int] == carried_node(prior, rows, k as int));
        }
        if text::same(&tree[k].name, name) {
            assert(cell(rows[k as int], 0) == name@);
            return true;
        }
        k += 1;
    }
    false
}

proof fn lemma_last_named(tree: Seq<NodeView>, name: Seq<char>, n: nat)
    requires
        n <= tree.len(),
    ensures
        last_named(tree, name, n) matches Some(node) ==> node.name == name,
        last_named(tree, name, n) is None <==> forall|i: int| 0 <= i < n ==> (#[trigger] tree[i]).name != name,
    decreases n,
{
    if n > 0 {
        lemma_last_named(tree, name, (n - 1) as nat);
        if tree[n - 1].name == name {
            assert(!(forall|i: int| 0 <= i < n ==> (#[trigger] tree[i]).name != name));
        }
    }
}

proof fn lemma_prefix_named(a: Seq<NodeView>, b: Seq<NodeView>, name: Seq<char>, n: nat)
    requires
        n <= a.len(),
        n <= b.len(),
        forall|i: int| 0 <= i < n ==> a[i] == b[i],
    ensures
        last_named(a, name, n) == last_named(b, name, n),
    decreases n,
{
    if n > 0 {
        lemma_prefix_named(a, b, name, (n - 1) as nat);
    }
}

/// Removing a metric leaves what the other names find.
proof fn lemma_remove_named(tree: Seq<NodeView>, k: int, name: Seq<char>, n: nat)
    requires
        0 <= k < n <= tree.len(),
        tree[k].name != name,
    ensures
        last_named(tree.remove(k), name, (n - 1) as nat) == last_named(tree, name, n),
    decreases n,
{
    let rest = tree.remove(k);
    if k == n - 1 {
        lemma_prefix_named(rest, tree, name, (n - 1) as nat);
    } else {
        assert(rest[n - 2] == tree[n - 1]);
        lemma_remove_named(tree, k, name, (n - 1) as nat);
    }
}

/// Takes the last metric of the name out of the list.
fn take_named(list: &mut Vec<MetricNode>, name: &str) -> (r: Option<MetricNode>)
    ensures
        match r {
            Some(node) => last_named(model::tree_view(old(list)@), name@, old(list)@.len()) == Some(node@),
            None => last_named(model::tree_view(old(list)@), name@, old(list)@.len()) is None,
        },
        forall|x: Seq<char>| x != name@ ==> #[trigger] last_named(model::tree_view(final(list)@), x, final(list)@.len())
            == last_named(model::tree_view(old(list)@), x, old(list)@.len()),
{
    let ghost views = model::tree_view(list@);
    let mut k: usize = list.len();
    while k > 0
        invariant
            list@ == old(list)@,
            views == model::tree_view(list@),
            k <= list@.len(),
            last_named(views, name@, list@.len()) == last_named(views, name@, k as nat),
        decreases k,
    {
        k -= 1;
        assert(views[k as int] == list@[k as int]@);
        if text::same(&list[k].name, name) {
            let node = list.remove(k);
            proof {
                assert(model::tree_view(list@) =~= views.remove(k as int));
                assert forall|x: Seq<char>| x != name@ implies #[trigger] last_named(
                    model::tree_view(list@),
                    x,
                    list@.len(),
                ) == last_named(views, x, views.len()) by {
                    lemma_remove_named(views, k as int, x, views.len());
                }
            }
            return Some(node);
        }
    }
    None
}

fn toggle_in(tree: &mut Vec<MetricNode>, row: TreeRowRef) -> (r: Option<String>)
    requires
        app::metric_of(row) < old(tree)@.len(),
    ensures
        model::tree_view(final(tree)@) == model::tree_view(old(tree)@).update(
            app::metric_of(row) as int,
            toggled(old(tree)@[app::metric_of(row) as int]@, row),
        ),
        text::opt(r) == (match row {
            TreeRowRef::Metric(mi) => if starts_loading(old(tree)@[mi as int]@) {
                Some(old(tree)@[mi as int]@.name)
            } else {
                None
            },
            _ => None,
        }),
{
    let ghost views = model::tree_view(tree@);
    match row {
        TreeRowRef::Metric(mi) => {
            let node = &mut tree[mi];
            let mut asked: Option<String> = None;
            if !node.expanded && node.dims.is_none() && !node.loading {
                node.loading = true;
                node.expanded = true;
                asked = Some(node.name.clone());
            } else {
                node.expanded = !node.expanded;
            }
            assert(model::tree_view(tree@) =~= views.update(mi as int, toggled(old(tree)@[mi as int]@, row)));
            asked
        },
        TreeRowRef::Dim(mi, di) => {
            let node = &mut tree[mi];
            toggle_dim(node, di);
            assert(model::tree_view(tree@) =~= views.update(mi as int, toggled(old(tree)@[mi as int]@, row)));
            None
        },
        TreeRowRef::Value(mi, di, vi) => {
            let node = &mut tree[mi];
            toggle_value(node, di, vi);
            assert(model::tree_view(tree@) =~= views.update(mi as int, toggled(old(tree)@[mi as int]@, row)));
            None
        },
        TreeRowRef::NoDims(mi) => {
            let node = &mut tree[mi];
            node.whole_selected = !node.whole_selected;
            assert(model::tree_view(tree@) =~= views.update(mi as int, toggled(old(tree)@[mi as int]@, row)));
            None
        },
    }
}

fn toggle_dim(node: &mut MetricNode, di: usize)
    ensures
        final(node)@ == toggled(old(node)@, TreeRowRef::Dim(0, di)),
{
    match node.dims.take() {
        Some(mut dims) => {
            let ghost views = model::dims_view(dims@);
            if di < dims.len() {
                let dim = &mut dims[di];
                dim.expanded = !dim.expanded;
                assert(model::dims_view(dims@) =~= views.update(
                    di as int,
                    DimView { expanded: !views[di as int].expanded, ..views[di as int] },
                ));
            }
            node.dims = Some(dims);
        },
        None => {},
    }
}

fn toggle_value(node: &mut MetricNode, di: usize, vi: usize)
    ensures
        final(node)@ == toggled(old(node)@, TreeRowRef::Value(0, di, vi)),
{
    match node.dims.take() {
        Some(mut dims) => {
            let ghost views = model::dims_view(dims@);
            if di < dims.len() {
                let dim = &mut dims[di];
                let chosen = match dim.selected {
                    Some(k) => k == vi,
                    None => false,
                };
                dim.selected = if chosen { None } else { Some(vi) };
                assert(model::dims_view(dims@) =~= views.update(
                    di as int,
                    DimView {
                        selected: if views[di as int].selected == Some(vi) { None } else { Some(vi) },
                        ..views[di as int]
                    },
                ));
            }
            node.dims = Some(dims);
        },
        None => {},
    }
}

fn store_dims(tree: &mut Vec<MetricNode>, metric: &str, dims: Vec<DimNode>)
    ensures
        model::tree_view(final(tree)@) == (match completion::node_named(model::tree_view(old(tree)@), metric@, 0) {
            Some(mi) => model::tree_view(old(tree)@).update(
                mi,
                NodeView {
                    dims: Some(model::dims_view(dims@)),
                    loading: false,
                    ..model::tree_view(old(tree)@)[mi]
                },
            ),
            None => model::tree_view(old(tree)@),
        }),
{
    let ghost views = model::tree_view(tree@);
    let n: usize = tree.len();
    let mut mi: usize = 0;
    while mi < n
        invariant
            tree@ == old(tree)@,
            views == model::tree_view(tree@),
            n == tree@.len(),
            mi <= n,
            completion::node_named(views, metric@, 0) == completion::node_named(views, metric@, mi as int),
        decreases n - mi,
    {
        assert(views[mi as int] == tree@[mi as int]@);
        if text::same(&tree[mi].name, metric) {
            let ghost given = model::dims_view(dims@);
            let node = &mut tree[mi];
            node.dims = Some(dims);
            node.loading = false;
            assert(model::tree_view(tree@) =~= views.update(
                mi as int,
                NodeView { dims: Some(given), loading: false, ..views[mi as int] },
            ));
            return;
        }
        mi += 1;
    }
}

fn has_selection(node: &MetricNode) -> (r: bool)
    ensures
        r == is_selected(node@),
{
    if node.whole_selected {
        return true;
    }
    if let Some(dims) = &node.dims {
        let ghost views = model::dims_view(dims@);
        let mut i: usize = 0;
        while i < dims.len()
            invariant
                i <= dims@.len(),
                views == model::dims_view(dims@),
                node@.dims == Some(views),
                forall|j: int| 0 <= j < i ==> (#[trigger] views[j]).selected is None,
            decreases dims.len() - i,
        {
            assert(views[i as int] == dims@[i as int]@);
            if dims[i].selected.is_some() {
                assert(any_checked(views));
                return true;
            }
            i += 1;
        }
    }
    false
}

proof fn lemma_dim_rows_belong(dims: Seq<DimView>, mi: usize, n: nat)
    ensures
        forall|i: int| 0 <= i < dim_rows(dims, mi as int, n).len() ==> app::metric_of(
            (#[trigger] dim_rows(dims, mi as int, n)[i]).node,
        ) == mi,
    decreases n,
{
    if n > 0 {
        lemma_dim_rows_belong(dims, mi, (n - 1) as nat);
    }
}

proof fn lemma_rows_belong(tree: Seq<NodeView>, n: nat)
    requires
        n <= tree.len() <= usize::MAX,
    ensures
        forall|i: int| 0 <= i < tree_rows(tree, n).len() ==> app::metric_of((#[trigger] tree_rows(tree, n)[i]).node) < n,
    decreases n,
{
    if n > 0 {
        let mi = (n - 1) as usize;
        lemma_rows_belong(tree, mi as nat);
        if let Some(dims) = tree[mi as int].dims {
            lemma_dim_rows_belong(dims, mi, dims.len());
        }
    }
}

/// The catalog table and the nodes behind its rows stay aligned: there is one node for each row,
/// and each belongs to a metric of the tree.
pub proof fn law_catalog_rows_match_the_tree(a: AppView)
    requires
        a.catalog.metric_tree.len() <= usize::MAX,
    ensures
        a.rebuild_catalog().snapshot.table matches Some(table) && table.rows.len()
            == a.rebuild_catalog().catalog.tree_rows.len(),
        app::rows_belong(
            a.rebuild_catalog().catalog.tree_rows,
            a.rebuild_catalog().catalog.metric_tree.len() as int,
        ),
        a.rebuild_catalog().catalog.metric_tree == a.catalog.metric_tree,
{
    let tree = a.catalog.metric_tree;
    let rows = tree_rows(tree, tree.len());
    lemma_rows_belong(tree, tree.len());
    assert forall|i: int| 0 <= i < nodes_of(rows).len() implies #[trigger] app::metric_of(nodes_of(rows)[i])
        < tree.len() by {
        assert(nodes_of(rows)[i] == rows[i].node);
    }
}

/// A dimension has at most one value checked, the one checked last; checking it again clears it,
/// and the other dimensions keep theirs.
pub proof fn law_checking_a_value_is_exclusive(node: NodeView, di: usize, vi: usize)
    requires
        node.dims matches Some(dims) && di < dims.len(),
    ensures
        ({
            let once = toggled(node, TreeRowRef::Value(0, di, vi));
            let dims = dims_of(node);
            &&& dims_of(once)[di as int].selected == if dims[di as int].selected == Some(vi) { None } else { Some(vi) }
            &&& forall|j: int| 0 <= j < dims.len() && j != di ==> dims_of(once)[j] == dims[j]
            &&& dims[di as int].selected is None ==> toggled(once, TreeRowRef::Value(0, di, vi)) == node
        }),
{
    let dims = dims_of(node);
    let once = toggled(node, TreeRowRef::Value(0, di, vi));
    if dims[di as int].selected is None {
        let twice = toggled(once, TreeRowRef::Value(0, di, vi));
        assert(dims_of(twice) =~= dims);
    }
}

/// A metric's dimensions are asked for once: a metric that is opened for the first time is loading
/// afterwards, and while it loads, or once its dimensions are known, opening it asks for nothing.
pub proof fn law_dimensions_are_asked_for_once(node: NodeView)
    ensures
        starts_loading(node) ==> toggled_metric(node).loading,
        node.loading || node.dims is Some ==> !starts_loading(node),
        !starts_loading(toggled_metric(node)) || !starts_loading(node),
{
}

/// A refresh of the catalog keeps a metric's expansion, dimensions and selection: the first row of a
/// name takes over the state of the metric of that name.
pub proof fn law_a_refresh_keeps_the_selection(prior: Seq<NodeView>, rows: Seq<Seq<Seq<char>>>, i: int)
    requires
        0 <= i < rows.len(),
        !named_before(rows, cell(rows[i], 0), i),
    ensures
        last_named(prior, cell(rows[i], 0), prior.len()) matches Some(node) ==> {
            let kept = carried_tree(prior, rows)[i];
            kept.name == node.name && kept.expanded == node.expanded && kept.dims == node.dims && kept.whole_selected
                == node.whole_selected && kept.loading == node.loading
        },
        carried_tree(prior, rows)[i].name == cell(rows[i], 0),
{
    lemma_last_named(prior, cell(rows[i], 0), prior.len());
}

} // verus!
