//! The mascot: the ride down a chart.

use vstd::prelude::*;

use crate::geometry::Rect;
use crate::mascot;
use crate::mascot::Descent;

verus! {

/// Whether the line never rises on the way from the peak of the descent to its trough.
pub open spec fn goes_down(cells: Seq<(u16, u16)>, d: Descent) -> bool {
    &&& 0 <= d.peak < cells.len()
    &&& 0 <= d.trough < cells.len()
    &&& forall|i: int, j: int|
        d.peak <= i <= j <= d.trough ==> (#[trigger] cells[i]).1 <= (#[trigger] cells[j]).1
    &&& forall|i: int, j: int|
        d.trough <= i <= j <= d.peak ==> (#[trigger] cells[i]).1 >= (#[trigger] cells[j]).1
}

proof fn lemma_run(cells: Seq<(u16, u16)>, i: int, falling: bool)
    requires
        0 <= i < cells.len(),
    ensures
        i <= mascot::run_stop(cells, i, falling) < cells.len(),
        forall|k: int, l: int|
            i <= k <= l <= mascot::run_stop(cells, i, falling) ==> if falling {
                (#[trigger] cells[k]).1 <= (#[trigger] cells[l]).1
            } else {
                cells[k].1 >= cells[l].1
            },
    decreases cells.len() - i,
{
    if i + 1 < cells.len() && mascot::goes_on(cells, i, falling) {
        lemma_run(cells, i + 1, falling);
        let stop = mascot::run_stop(cells, i, falling);
        assert forall|k: int, l: int| i <= k <= l <= stop implies if falling {
            (#[trigger] cells[k]).1 <= (#[trigger] cells[l]).1
        } else {
            cells[k].1 >= cells[l].1
        } by {
            if k == i && l > i {
                assert(cells[i + 1].1 <= cells[l].1 || !falling);
                assert(cells[i + 1].1 >= cells[l].1 || falling);
            }
        }
    }
}

proof fn lemma_best(cells: Seq<(u16, u16)>, threshold: int, i: int, falling: bool, best: Option<Descent>)
    requires
        0 <= i,
        best matches Some(d) ==> goes_down(cells, d) && mascot::fall(cells, d) >= threshold,
    ensures
        mascot::best_from(cells, threshold, i, falling, best) matches Some(d) ==> goes_down(cells, d) && mascot::fall(cells, d)
            >= threshold,
    decreases cells.len() - i,
{
    if i + 1 < cells.len() {
        let j = mascot::run_stop(cells, i, falling);
        lemma_run(cells, i, falling);
        if j > i {
            let d = mascot::descent(i, j, falling);
            assert(goes_down(cells, d));
            lemma_best(cells, threshold, j, falling, mascot::pick(cells, threshold, best, d));
        } else {
            lemma_best(cells, threshold, i + 1, falling, best);
        }
    }
}

/// A ride goes downhill: it starts at a peak of the line and ends in a trough, never rises on the way, follows
/// the line cell by cell, and falls by a third of the chart's height and by three rows at least.
pub proof fn law_a_ride_goes_downhill(graph: Rect, cells: Seq<(u16, u16)>)
    ensures
        mascot::ride(graph, cells) matches Some(d) ==> {
            let path = mascot::descent_path(cells, d);
            &&& path.len() > 0
            &&& path[0] == cells[d.peak]
            &&& path.last() == cells[d.trough]
            &&& forall|i: int, j: int| 0 <= i <= j < path.len() ==> (#[trigger] path[i]).1 <= (#[trigger] path[j]).1
            &&& path.last().1 - path[0].1 >= 3
            &&& 3 * (path.last().1 - path[0].1) > graph.height - 3
            &&& path.len() == (if d.peak <= d.trough { d.trough - d.peak } else { d.peak - d.trough }) + 1
        },
{
    let t = mascot::ride_threshold(graph);
    lemma_best(cells, t, 0, true, None);
    lemma_best(cells, t, 0, false, mascot::best_from(cells, t, 0, true, None));
    if let Some(d) = mascot::ride(graph, cells) {
        let path = mascot::descent_path(cells, d);
        if d.peak <= d.trough {
            assert forall|i: int| 0 <= i < path.len() implies #[trigger] path[i] == cells[d.peak + i] by {
            }
        } else {
            assert forall|i: int| 0 <= i < path.len() implies #[trigger] path[i] == cells[d.peak - i] by {
            }
        }
    }
}

} // verus!
