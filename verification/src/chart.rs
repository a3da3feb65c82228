//! Metric-chart geometry, shared by the renderer and the mascot's chart ride.
//!
//! [`chart_graph_area`] gives the plotting rectangle that a chart widget reserves inside its area,
//! so that the mascot can walk the rendered line; [`ascii_chart`] is the plain-text plot.

use vstd::prelude::*;

use crate::geometry::{max16, min16, monus16, Rect};
use crate::geometry;
use crate::text;
use crate::width;

verus! {

/// The rendered geometry of the metric chart: the plotting rectangle, and the terminal cell of each
/// finite datapoint from left to right.
pub struct ChartGeometry {
    pub graph: Rect,
    pub cells: Vec<(u16, u16)>,
}

/// The columns of a label, in sixteen bits.
pub open spec fn label_cells(s: Seq<char>) -> int {
    (width::cells(s) as u16) as int
}

/// The widest of the labels.
pub open spec fn widest(labels: Seq<Seq<char>>) -> int
    decreases labels.len(),
{
    if labels.len() == 0 {
        0
    } else {
        geometry::max(widest(labels.drop_last()), label_cells(labels.last()))
    }
}

/// The columns left of the plot that the axis labels take: as many as the widest y label or the
/// overhang of the first x label, but no more than a third of the width.
pub open spec fn label_columns(inner: Rect, y_labels: Seq<Seq<char>>, x_first: Seq<char>) -> int {
    let axis = if y_labels.len() > 0 { 1int } else { 0 };
    geometry::min(
        geometry::max(widest(y_labels), geometry::monus(label_cells(x_first), axis)),
        inner.width as int / 3,
    )
}

/// The plotting rectangle inside `inner`: the labels and, where there is room, the axis line are
/// taken on the left, and up to two rows at the bottom for the x labels and the axis line.
pub open spec fn graph_area(inner: Rect, y_labels: Seq<Seq<char>>, x_first: Seq<char>) -> Option<Rect> {
    let labels_end = inner.x + label_columns(inner, y_labels, x_first);
    let x = if y_labels.len() > 0 && labels_end + 1 < inner.x + inner.width { labels_end + 1 } else { labels_end };
    let rows = geometry::max(inner.height - 2, 1);
    if inner.width == 0 || inner.height == 0 {
        None
    } else {
        Some(
            Rect {
                x: x as u16,
                y: inner.y,
                width: (inner.x + inner.width - x) as u16,
                height: rows as u16,
            },
        )
    }
}

/// The plotting rectangle that the chart widget reserves inside `block_inner`: space is taken on
/// the left for the y labels and the axis line, and two rows at the bottom for the x labels and
/// the axis line.
pub fn chart_graph_area(block_inner: Rect, y_labels: &Vec<String>, x_first_label: &str) -> (r: Option<Rect>)
    requires
        block_inner.fits(),
    ensures
        r == graph_area(block_inner, text::strs(y_labels@), x_first_label@),
        r matches Some(g) ==> g.width > 0 && g.height > 0 && g.within(block_inner),
{
    if block_inner.width == 0 || block_inner.height == 0 {
        return None;
    }
    let has_y_axis = y_labels.len() > 0;
    let mut y_max_w: u16 = 0;
    let mut i: usize = 0;
    assert(text::strs(y_labels@).take(0) =~= Seq::<Seq<char>>::empty());
    while i < y_labels.len()
        invariant
            i <= y_labels@.len(),
            y_max_w == widest(text::strs(y_labels@).take(i as int)),
        decreases y_labels.len() - i,
    {
        let w: usize = width::str_width(&y_labels[i]);
        y_max_w = max16(y_max_w, w as u16);
        assert(text::strs(y_labels@).take(i + 1).drop_last() =~= text::strs(y_labels@).take(i as int));
        i += 1;
    }
    assert(text::strs(y_labels@).take(y_labels@.len() as int) =~= text::strs(y_labels@));
    let x_width: usize = width::str_width(x_first_label);
    let x_overhang: u16 = monus16(x_width as u16, if has_y_axis { 1 } else { 0 });
    let label_left: u16 = min16(max16(y_max_w, x_overhang), block_inner.width / 3);

    let mut x: u16 = block_inner.x + label_left;
    if has_y_axis && x + 1 < block_inner.right() {
        x += 1;
    }
    let mut y: u16 = block_inner.bottom() - 1;
    if y > block_inner.y {
        y -= 1;
    }
    if y > block_inner.y {
        y -= 1;
    }
    Some(
        Rect {
            x,
            y: block_inner.y,
            width: block_inner.right() - x,
            height: y - block_inner.y + 1,
        },
    )
}

/// The terminal cell that a dot of the plot lies in: a cell holds two dots across and four down.
pub fn dot_cell(graph: Rect, dot_x: u32, dot_y: u32) -> (r: (u16, u16))
    requires
        graph.fits(),
        dot_x < 2 * graph.width,
        dot_y < 4 * graph.height,
    ensures
        r.0 == graph.x + dot_x / 2,
        r.1 == graph.y + dot_y / 4,
        graph.x <= r.0 < graph.x + graph.width,
        graph.y <= r.1 < graph.y + graph.height,
{
    (graph.x + (dot_x / 2) as u16, graph.y + (dot_y / 4) as u16)
}

/// The value that column `column` of `columns` samples, cut at a thousand.
pub open spec fn sampled(values: Seq<u64>, columns: int, column: int) -> int {
    let index = geometry::min(column * values.len(), usize::MAX as int) / columns;
    geometry::min(values[geometry::min(index, values.len() - 1)] as int, 1000)
}

/// The value from which row `row` of `rows`, counted from the bottom, is filled.
pub open spec fn threshold(rows: int, row: int) -> int {
    ((row + 1) * 1000 + rows - 1) / rows
}

/// One row of the plot.
pub open spec fn chart_row(values: Seq<u64>, columns: int, rows: int, row: int) -> Seq<char> {
    Seq::new(
        columns as nat,
        |column: int| if sampled(values, columns, column) >= threshold(rows, row) { '#' } else { ' ' },
    )
}

/// The rows of the plot from the top down.
pub open spec fn chart_rows(values: Seq<u64>, columns: int, rows: int) -> Seq<Seq<char>> {
    Seq::new(rows as nat, |i: int| chart_row(values, columns, rows, rows - 1 - i))
}

/// The plot, its rows joined by line ends; nothing where there is nothing to plot or no room.
pub open spec fn chart_text(values: Seq<u64>, columns: int, rows: int) -> Seq<char> {
    if values.len() == 0 || columns == 0 || rows == 0 {
        Seq::empty()
    } else {
        text::join(chart_rows(values, columns, rows), seq!['\n'])
    }
}

/// A bar plot of `values`, in thousandths, with `#`: `height` lines of `width` characters.
pub fn ascii_chart(values: &Vec<u64>, width: usize, height: usize) -> (r: String)
    requires
        height * 1000 <= u64::MAX,
    ensures
        r@ == chart_text(values@, width as int, height as int),
{
    let mut out = String::new();
    if values.len() == 0 || width == 0 || height == 0 {
        assert(out@ =~= Seq::empty());
        return out;
    }
    let n: usize = values.len();
    let ghost rows = chart_rows(values@, width as int, height as int);
    let mut done: usize = 0;
    assert(rows.take(0) =~= Seq::<Seq<char>>::empty());
    while done < height
        invariant
            done <= height,
            height * 1000 <= u64::MAX,
            n == values@.len() && n > 0,
            width > 0,
            rows == chart_rows(values@, width as int, height as int),
            out@ == text::join(rows.take(done as int), seq!['\n']),
        decreases height - done,
    {
        let row: usize = height - 1 - done;
        let h: u64 = height as u64;
        let level: u128 = ((row as u128 + 1) * 1000 + h as u128 - 1) / (h as u128);
        assert(level == threshold(height as int, row as int));
        if done > 0 {
            out.push('\n');
        }
        let ghost start = out@;
        let ghost line = chart_row(values@, width as int, height as int, row as int);
        let mut column: usize = 0;
        while column < width
            invariant
                column <= width,
                n == values@.len() && n > 0,
                line == chart_row(values@, width as int, height as int, row as int),
                level == threshold(height as int, row as int),
                out@ == start + line.take(column as int),
            decreases width - column,
        {
            proof {
                assert(column * n <= 0xffff_ffff_ffff_ffff * 0xffff_ffff_ffff_ffff) by (nonlinear_arith)
                    requires
                        column <= 0xffff_ffff_ffff_ffff,
                        n <= 0xffff_ffff_ffff_ffff,
                ;
            }
            let product: u128 = column as u128 * n as u128;
            let cut: u128 = if product > usize::MAX as u128 { usize::MAX as u128 } else { product };
            let index: u128 = cut / (width as u128);
            let at: usize = if index > (n - 1) as u128 { n - 1 } else { index as usize };
            let value: u64 = if values[at] > 1000 { 1000 } else { values[at] };
            assert(value == sampled(values@, width as int, column as int));
            out.push(if value as u128 >= level { '#' } else { ' ' });
            assert(line.take(column + 1) =~= line.take(column as int).push(line[column as int]));
            column += 1;
            assert(out@ =~= start + line.take(column as int));
        }
        assert(line.take(width as int) =~= line);
        assert(rows.take(done + 1).drop_last() =~= rows.take(done as int));
        assert(rows.take(done + 1).last() == line);
        done += 1;
        assert(out@ =~= text::join(rows.take(done as int), seq!['\n']));
    }
    assert(rows.take(height as int) =~= rows);
    out
}

/// A plot holds only `#`, spaces and line breaks, and each of its lines is as wide as asked for.
pub proof fn law_chart_rows_have_the_size_asked_for(values: Seq<u64>, columns: nat, rows: nat)
    ensures
        chart_rows(values, columns as int, rows as int).len() == rows,
        forall|i: int|
            0 <= i < rows ==> (#[trigger] chart_rows(values, columns as int, rows as int)[i]).len() == columns,
        forall|i: int, j: int|
            0 <= i < rows && 0 <= j < columns ==> #[trigger] chart_rows(values, columns as int, rows as int)[i][j]
                == '#' || chart_rows(values, columns as int, rows as int)[i][j] == ' ',
        forall|i: int, j: int, k: int|
            0 <= i <= k < rows && 0 <= j < columns && #[trigger] chart_rows(values, columns as int, rows as int)[i][j]
                == '#' ==> #[trigger] chart_rows(values, columns as int, rows as int)[k][j] == '#',
{
    assert forall|i: int, j: int, k: int|
        0 <= i <= k < rows && 0 <= j < columns && #[trigger] chart_rows(values, columns as int, rows as int)[i][j]
            == '#' implies #[trigger] chart_rows(values, columns as int, rows as int)[k][j] == '#' by {
        let r = rows as int;
        let a = r - 1 - i;
        let b = r - 1 - k;
        assert(threshold(r, b) <= threshold(r, a)) by {
            vstd::arithmetic::div_mod::lemma_div_is_ordered((b + 1) * 1000 + r - 1, (a + 1) * 1000 + r - 1, r);
        }
    }
}

} // verus!
