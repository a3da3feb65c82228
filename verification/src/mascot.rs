//! The mascot's decisions: which art to show, where it rests, and which descent of a chart it rides.
//!
//! The motions themselves (strolling, hopping, sliding) are the application's; this module decides
//! what they run on.

use vstd::prelude::*;

use crate::chart::ChartGeometry;
use crate::geometry::{max16, monus16, Rect};
use crate::geometry;

verus! {

/// The waddle cadence: one phase lasts this many nanoseconds.
pub const MASCOT_FRAME_NS: i64 = 1_000_000_000;

/// Rows of art.
pub const MASCOT_ART_HEIGHT: u16 = 3;

/// Nominal columns of art.
pub const MASCOT_ART_WIDTH: u16 = 8;

/// Rows kept clear at the bottom for the status bar.
pub const MASCOT_BOTTOM_MARGIN: u16 = 2;

/// How long without a keystroke before the user counts as idle, in nanoseconds.
pub const MASCOT_IDLE_AFTER: u64 = 3_000_000_000;

/// The longest step that one redraw advances the mascot by, in nanoseconds.
pub const MAX_DT_NS: i64 = 500_000_000;

/// How long an arming waits for a chart to ride, in nanoseconds.
pub const ARMED_NS: i64 = 2_000_000_000;

/// The rows of art frame `i`: two facings, two waddle phases each; the first pair faces right.
pub open spec fn frame_rows(i: int) -> Seq<Seq<char>> {
    if i == 0 {
        seq!["\u{2584}\u{2588}\u{2588}\u{2588}\u{2588}\u{2584}"@, "\u{2588}\u{2588}\u{2588}\u{2584}\u{2588}\u{2584}\u{2588}\u{2588}"@, "\u{2590}\u{259b}\u{259b}\u{259b}\u{259b}\u{259b}\u{259b}\u{258c}"@]
    } else if i == 1 {
        seq!["\u{2584}\u{2588}\u{2588}\u{2588}\u{2588}\u{2584}"@, "\u{2588}\u{2588}\u{2588}\u{2584}\u{2588}\u{2584}\u{2588}\u{2588}"@, "\u{2590}\u{259c}\u{259c}\u{259c}\u{259c}\u{259c}\u{259c}\u{258e}"@]
    } else if i == 2 {
        seq!["  \u{2584}\u{2588}\u{2588}\u{2588}\u{2588}\u{2584}"@, "\u{2588}\u{2588}\u{2584}\u{2588}\u{2584}\u{2588}\u{2588}\u{2588}"@, "\u{2590}\u{259c}\u{259c}\u{259c}\u{259c}\u{259c}\u{259c}\u{259b}"@]
    } else {
        seq!["  \u{2584}\u{2588}\u{2588}\u{2588}\u{2588}\u{2584}"@, "\u{2588}\u{2588}\u{2584}\u{2588}\u{2584}\u{2588}\u{2588}\u{2588}"@, " \u{259b}\u{259b}\u{259b}\u{259b}\u{259b}\u{259b}\u{258c}"@]
    }
}

/// The art frame for a facing and a waddle phase.
pub open spec fn art_frame(facing: int, phase: int) -> int {
    (if facing <= 0 { 2int } else { 0 }) + phase % 2
}

/// The rows of art frame `i`.
pub fn mascot_frame(i: usize) -> (r: Vec<&'static str>)
    requires
        i < 4,
    ensures
        crate::syntax::words(r@) == frame_rows(i as int),
{
    let r: Vec<&'static str> = if i == 0 {
        vec!["\u{2584}\u{2588}\u{2588}\u{2588}\u{2588}\u{2584}", "\u{2588}\u{2588}\u{2588}\u{2584}\u{2588}\u{2584}\u{2588}\u{2588}", "\u{2590}\u{259b}\u{259b}\u{259b}\u{259b}\u{259b}\u{259b}\u{258c}"]
    } else if i == 1 {
        vec!["\u{2584}\u{2588}\u{2588}\u{2588}\u{2588}\u{2584}", "\u{2588}\u{2588}\u{2588}\u{2584}\u{2588}\u{2584}\u{2588}\u{2588}", "\u{2590}\u{259c}\u{259c}\u{259c}\u{259c}\u{259c}\u{259c}\u{258e}"]
    } else if i == 2 {
        vec!["  \u{2584}\u{2588}\u{2588}\u{2588}\u{2588}\u{2584}", "\u{2588}\u{2588}\u{2584}\u{2588}\u{2584}\u{2588}\u{2588}\u{2588}", "\u{2590}\u{259c}\u{259c}\u{259c}\u{259c}\u{259c}\u{259c}\u{259b}"]
    } else {
        vec!["  \u{2584}\u{2588}\u{2588}\u{2588}\u{2588}\u{2584}", "\u{2588}\u{2588}\u{2584}\u{2588}\u{2584}\u{2588}\u{2588}\u{2588}", " \u{259b}\u{259b}\u{259b}\u{259b}\u{259b}\u{259b}\u{258c}"]
    };
    assert(crate::syntax::words(r@) =~= frame_rows(i as int));
    r
}

/// The art for a facing (positive is right, anything else left) and a waddle phase.
pub fn mascot_art(facing: i8, phase: usize) -> (r: Vec<&'static str>)
    ensures
        crate::syntax::words(r@) == frame_rows(art_frame(facing as int, phase as int)),
{
    let base: usize = if facing <= 0 { 2 } else { 0 };
    mascot_frame(base + phase % 2)
}

/// The waddle phase of an accumulated time: it flips every frame period.
pub open spec fn phase_of(phase_ns: int) -> int {
    phase_ns % (MASCOT_FRAME_NS * 2) / MASCOT_FRAME_NS as int
}

/// The waddle phase of an accumulated time: it flips every frame period.
pub fn mascot_phase(phase_ns: i64) -> (r: usize)
    ensures
        r == phase_of(phase_ns as int),
        r == 0 || r == 1,
{
    let period: i64 = MASCOT_FRAME_NS * 2;
    let part: i64 = if phase_ns >= 0 {
        phase_ns % period
    } else {
        let back: i64 = (-(phase_ns + 1)) % period;
        period - 1 - back
    };
    assert(part == phase_ns as int % 2_000_000_000);
    if part >= MASCOT_FRAME_NS { 1 } else { 0 }
}

/// What the mascot reacts to.
#[derive(Debug, Clone, Copy, PartialEq, Eq, Structural)]
pub enum MascotEvent {
    /// The view changed; `on_metric_chart` is whether it is now a metric's chart.
    Navigated { on_metric_chart: bool },
    /// The user has gone quiet.
    Idle,
    /// The user is driving the interface again.
    Active,
    /// A query result landed; `auto` is whether auto-refresh is on.
    Refreshed { auto: bool },
}

/// Whether the user is driving the interface or has gone quiet.
#[derive(Debug, Clone, Copy, PartialEq, Eq, Structural)]
pub enum Activity {
    Active,
    Idle,
}

/// The activity after an event.
pub fn activity_after(activity: Activity, event: MascotEvent) -> (r: Activity)
    ensures
        r == (match event {
            MascotEvent::Active => Activity::Active,
            MascotEvent::Idle => Activity::Idle,
            _ => activity,
        }),
{
    match event {
        MascotEvent::Active => Activity::Active,
        MascotEvent::Idle => Activity::Idle,
        _ => activity,
    }
}

/// The time that one redraw advances the mascot by: a long pause never teleports it.
pub fn step_ns(elapsed_ns: u64) -> (r: i64)
    ensures
        r == geometry::min(elapsed_ns as int, MAX_DT_NS as int),
{
    if elapsed_ns > MAX_DT_NS as u64 { MAX_DT_NS } else { elapsed_ns as i64 }
}

/// Where the mascot rests first: the bottom-right corner, above the status bar.
pub fn resting_place(area: Rect) -> (r: (u16, u16))
    ensures
        r.0 == geometry::monus(area.right_end(), MASCOT_ART_WIDTH + 1),
        r.1 == geometry::monus(area.bottom_end(), MASCOT_ART_HEIGHT + MASCOT_BOTTOM_MARGIN),
{
    (
        monus16(area.right(), MASCOT_ART_WIDTH + 1),
        monus16(area.bottom(), MASCOT_ART_HEIGHT + MASCOT_BOTTOM_MARGIN),
    )
}

/// The band that the idle mascot strolls in: its leftmost and rightmost column, and its row.
pub fn stroll_band(area: Rect) -> (r: (u16, u16, u16))
    ensures
        r.0 == area.x,
        r.1 == geometry::max(geometry::monus(area.right_end(), MASCOT_ART_WIDTH as int), area.x as int),
        r.2 == geometry::monus(area.bottom_end(), MASCOT_ART_HEIGHT + MASCOT_BOTTOM_MARGIN),
        r.0 <= r.1,
{
    (
        area.x,
        max16(monus16(area.right(), MASCOT_ART_WIDTH), area.x),
        monus16(area.bottom(), MASCOT_ART_HEIGHT + MASCOT_BOTTOM_MARGIN),
    )
}

/// Division that rounds toward nothing.
pub open spec fn tdiv(a: int, b: int) -> int {
    if a >= 0 { a / b } else { -((-a) / b) }
}

/// The steps of a segment: the longer of its two extents, at least one.
pub open spec fn segment_steps(a: (u16, u16), b: (u16, u16)) -> int {
    let dx = if b.0 >= a.0 { b.0 - a.0 } else { a.0 - b.0 };
    let dy = if b.1 >= a.1 { b.1 - a.1 } else { a.1 - b.1 };
    geometry::max(geometry::max(dx, dy), 1)
}

/// Step `s` of a segment.
pub open spec fn segment_cell(a: (u16, u16), b: (u16, u16), s: int) -> (int, int) {
    let n = segment_steps(a, b);
    (a.0 + tdiv((b.0 - a.0) * s, n), a.1 + tdiv((b.1 - a.1) * s, n))
}

/// A cell as numbers.
pub open spec fn cell(c: (u16, u16)) -> (int, int) {
    (c.0 as int, c.1 as int)
}

/// Cells as numbers.
pub open spec fn cells_view(v: Seq<(u16, u16)>) -> Seq<(int, int)> {
    v.map_values(|c: (u16, u16)| cell(c))
}

/// The cells of the segments up to cell `n`, without the last cell itself.
pub open spec fn dense(cells: Seq<(u16, u16)>, n: int) -> Seq<(int, int)>
    decreases n,
{
    if n <= 0 || n >= cells.len() {
        Seq::empty()
    } else {
        dense(cells, n - 1) + Seq::new(
            segment_steps(cells[n - 1], cells[n]) as nat,
            |s: int| segment_cell(cells[n - 1], cells[n], s),
        )
    }
}

/// The dense polyline through the cells.
pub open spec fn dense_path(cells: Seq<(u16, u16)>) -> Seq<(int, int)> {
    if cells.len() == 0 {
        Seq::empty()
    } else {
        dense(cells, cells.len() - 1).push(cell(cells.last()))
    }
}

proof fn lemma_tdiv_step(d: int, s: int, n: int)
    requires
        n >= 1,
        -n <= d <= n,
        0 <= s,
    ensures
        -1 <= tdiv(d * (s + 1), n) - tdiv(d * s, n) <= 1,
        s <= n && d >= 0 ==> 0 <= tdiv(d * s, n) <= d,
        s <= n && d <= 0 ==> d <= tdiv(d * s, n) <= 0,
        tdiv(d * n, n) == d,
        tdiv(d * 0, n) == 0,
{
    if d < 0 {
        let e = -d;
        assert(d * (s + 1) == -(e * (s + 1))) by (nonlinear_arith)
            requires
                e == -d,
        ;
        assert(d * s == -(e * s)) by (nonlinear_arith)
            requires
                e == -d,
        ;
        assert(d * n == -(e * n)) by (nonlinear_arith)
            requires
                e == -d,
        ;
        lemma_floor_step(e, s, n);
        assert(e * s >= 0 && e * (s + 1) >= 0 && e * n >= 0) by (nonlinear_arith)
            requires
                e > 0,
                s >= 0,
                n >= 1,
        ;
        assert(tdiv(d * s, n) == -((e * s) / n)) by {
            if e * s == 0 {
                assert(0int / n == 0) by (nonlinear_arith)
                    requires
                        n >= 1,
                ;
            }
        }
        assert(tdiv(d * (s + 1), n) == -((e * (s + 1)) / n));
        assert(tdiv(d * n, n) == -((e * n) / n));
        assert(d * 0 == 0);
        assert(0int / n == 0) by (nonlinear_arith)
            requires
                n >= 1,
        ;
    } else {
        lemma_floor_step(d, s, n);
        assert(d * s >= 0 && d * (s + 1) >= 0 && d * n >= 0) by (nonlinear_arith)
            requires
                d >= 0,
                s >= 0,
                n >= 1,
        ;
        assert(d * 0 == 0);
        assert(0int / n == 0) by (nonlinear_arith)
            requires
                n >= 1,
        ;
    }
}

proof fn lemma_floor_step(d: int, s: int, n: int)
    requires
        n >= 1,
        0 <= d <= n,
        0 <= s,
    ensures
        0 <= (d * (s + 1)) / n - (d * s) / n <= 1,
        s <= n ==> 0 <= (d * s) / n <= d,
        (d * n) / n == d,
{
    let a = d * s;
    assert(d * (s + 1) == a + d) by (nonlinear_arith)
        requires
            a == d * s,
    ;
    assert(a >= 0) by (nonlinear_arith)
        requires
            a == d * s,
            d >= 0,
            s >= 0,
    ;
    vstd::arithmetic::div_mod::lemma_div_is_ordered(a, a + d, n);
    vstd::arithmetic::div_mod::lemma_div_is_ordered(a + d, a + n, n);
    vstd::arithmetic::div_mod::lemma_div_plus_one(a, n);
    assert((a + n) / n == a / n + 1);
    vstd::arithmetic::div_mod::lemma_div_by_multiple(d, n);
    if s <= n {
        assert(a <= d * n) by (nonlinear_arith)
            requires
                a == d * s,
                0 <= s <= n,
                d >= 0,
        ;
        vstd::arithmetic::div_mod::lemma_div_is_ordered(a, d * n, n);
        vstd::arithmetic::div_mod::lemma_div_is_ordered(0, a, n);
        assert(0int / n == 0) by (nonlinear_arith)
            requires
                n >= 1,
        ;
    }
}

fn trunc_div(a: i64, b: i64) -> (r: i64)
    requires
        b > 0,
        a > i64::MIN,
    ensures
        r == tdiv(a as int, b as int),
{
    if a >= 0 { a / b } else { -((-a) / b) }
}

/// Interpolates a sparse polyline of datapoint cells into a dense one of one cell per step (the
/// longer extent of each segment sets its steps), so that a slide along it glides however far apart
/// the datapoints are.
pub fn densify(cells: &Vec<(u16, u16)>) -> (r: Vec<(u16, u16)>)
    ensures
        cells_view(r@) == dense_path(cells@),
{
    let mut out: Vec<(u16, u16)> = Vec::new();
    let n: usize = cells.len();
    let mut k: usize = 0;
    assert(cells_view(out@) =~= dense(cells@, 0));
    while n > 0 && k < n - 1
        invariant
            n == cells@.len(),
            k < cells@.len() || (k == 0 && cells@.len() == 0),
            cells_view(out@) == dense(cells@, k as int),
        decreases cells.len() - k,
    {
        let a = cells[k];
        let b = cells[k + 1];
        let dx: i64 = b.0 as i64 - a.0 as i64;
        let dy: i64 = b.1 as i64 - a.1 as i64;
        let ax: i64 = if dx >= 0 { dx } else { -dx };
        let ay: i64 = if dy >= 0 { dy } else { -dy };
        let longer: i64 = if ax >= ay { ax } else { ay };
        let steps: i64 = if longer >= 1 { longer } else { 1 };
        assert(steps == segment_steps(a, b));
        let ghost start = cells_view(out@);
        let ghost segment = Seq::new(steps as nat, |s: int| segment_cell(a, b, s));
        let mut s: i64 = 0;
        assert(cells_view(out@) =~= start + segment.take(0));
        while s < steps
            invariant
                0 <= s <= steps <= 65535,
                steps == segment_steps(a, b),
                dx == b.0 - a.0,
                dy == b.1 - a.1,
                segment == Seq::new(steps as nat, |s: int| segment_cell(a, b, s)),
                cells_view(out@) == start + segment.take(s as int),
            decreases steps - s,
        {
            proof {
                assert(-65535 * 65535 <= dx * s <= 65535 * 65535 && -65535 * 65535 <= dy * s <= 65535 * 65535)
                    by (nonlinear_arith)
                    requires
                        -65535 <= dx <= 65535,
                        -65535 <= dy <= 65535,
                        0 <= s <= 65535,
                ;
                lemma_tdiv_step(dx as int, s as int, steps as int);
                lemma_tdiv_step(dy as int, s as int, steps as int);
            }
            let x: i64 = a.0 as i64 + trunc_div(dx * s, steps);
            let y: i64 = a.1 as i64 + trunc_div(dy * s, steps);
            let ghost before = out@;
            out.push((x as u16, y as u16));
            s += 1;
            assert(cells_view(out@) =~= cells_view(before).push((x as int, y as int)));
            assert(segment.take(s as int) =~= segment.take(s - 1).push(segment[s - 1]));
            assert(cells_view(out@) =~= start + segment.take(s as int));
        }
        assert(segment.take(steps as int) =~= segment);
        k += 1;
        assert(dense(cells@, k as int) =~= start + segment);
    }
    if n > 0 {
        let ghost before = out@;
        out.push(cells[n - 1]);
        assert(cells_view(out@) =~= cells_view(before).push(cell(cells@.last())));
    } else {
        assert(cells_view(out@) =~= Seq::<(int, int)>::empty());
    }
    out
}

/// Whether two cells are no further apart than one row and one column.
pub open spec fn adjacent(a: (int, int), b: (int, int)) -> bool {
    -1 <= a.0 - b.0 <= 1 && -1 <= a.1 - b.1 <= 1
}

/// A dense path starts and ends where the datapoints do, and each step of it goes to the same or a
/// neighbouring cell.
pub proof fn law_dense_path_goes_cell_by_cell(cells: Seq<(u16, u16)>)
    requires
        cells.len() > 0,
    ensures
        dense_path(cells).len() > 0,
        dense_path(cells)[0] == cell(cells[0]),
        dense_path(cells).last() == cell(cells.last()),
        forall|i: int|
            0 <= i < dense_path(cells).len() - 1 ==> adjacent(
                #[trigger] dense_path(cells)[i],
                dense_path(cells)[i + 1],
            ),
{
    lemma_dense(cells, cells.len() - 1);
}

proof fn lemma_segment(a: (u16, u16), b: (u16, u16), s: int)
    requires
        0 <= s <= segment_steps(a, b),
    ensures
        s < segment_steps(a, b) ==> adjacent(segment_cell(a, b, s), segment_cell(a, b, s + 1)),
        segment_cell(a, b, 0) == cell(a),
        segment_cell(a, b, segment_steps(a, b)) == cell(b),
{
    let n = segment_steps(a, b);
    lemma_tdiv_step(b.0 - a.0, s, n);
    lemma_tdiv_step(b.1 - a.1, s, n);
}

proof fn lemma_dense(cells: Seq<(u16, u16)>, n: int)
    requires
        0 <= n < cells.len(),
    ensures
        ({
            let p = dense(cells, n).push(cell(cells[n]));
            &&& p[0] == cell(cells[0])
            &&& forall|i: int| 0 <= i < p.len() - 1 ==> adjacent(#[trigger] p[i], p[i + 1])
        }),
    decreases n,
{
    if n > 0 {
        lemma_dense(cells, n - 1);
        let a = cells[n - 1];
        let b = cells[n];
        let q = dense(cells, n - 1).push(cell(a));
        let k = dense(cells, n - 1).len() as int;
        let steps = segment_steps(a, b);
        let p = dense(cells, n).push(cell(b));
        lemma_segment(a, b, 0);
        assert forall|i: int| 0 <= i < p.len() - 1 implies adjacent(#[trigger] p[i], p[i + 1]) by {
            if i < k {
                assert(p[i] == q[i]);
                assert(p[i + 1] == q[i + 1]) by {
                    if i + 1 == k {
                        assert(p[k] == segment_cell(a, b, 0));
                    }
                }
                assert(adjacent(q[i], q[i + 1]));
            } else {
                lemma_segment(a, b, i - k);
                assert(p[i] == segment_cell(a, b, i - k));
                if i - k + 1 < steps {
                    assert(p[i + 1] == segment_cell(a, b, i - k + 1));
                } else {
                    lemma_segment(a, b, steps);
                }
            }
        }
        if k > 0 {
            assert(p[0] == q[0]);
        } else {
            assert(p[0] == segment_cell(a, b, 0));
            assert(q[0] == cell(a));
        }
    }
}

/// Whether the line goes on from cell `j` without rising (`falling`), or without falling.
pub open spec fn goes_on(cells: Seq<(u16, u16)>, j: int, falling: bool) -> bool {
    if falling { cells[j + 1].1 >= cells[j].1 } else { cells[j + 1].1 <= cells[j].1 }
}

/// The end of the run that goes on at cell `j`.
pub open spec fn run_stop(cells: Seq<(u16, u16)>, j: int, falling: bool) -> int
    decreases cells.len() - j,
{
    if 0 <= j && j + 1 < cells.len() && goes_on(cells, j, falling) {
        run_stop(cells, j + 1, falling)
    } else {
        j
    }
}

/// A descent: the cell it starts from and the cell it ends at. A falling run descends to the right,
/// a rising one to the left. Rows count downward.
pub struct Descent {
    pub peak: int,
    pub trough: int,
}

/// The descent over the run `i..=j`.
pub open spec fn descent(i: int, j: int, falling: bool) -> Descent {
    if falling { Descent { peak: i, trough: j } } else { Descent { peak: j, trough: i } }
}

/// The rows that a descent falls.
pub open spec fn fall(cells: Seq<(u16, u16)>, d: Descent) -> int {
    cells[d.trough].1 - cells[d.peak].1
}

/// The columns that a descent spans, at least one.
pub open spec fn span(cells: Seq<(u16, u16)>, d: Descent) -> int {
    let a = cells[d.peak].0;
    let b = cells[d.trough].0;
    geometry::max(if a >= b { a - b } else { b - a }, 1)
}

/// Whether descent `a` falls less for each column than `b`.
pub open spec fn gentler(cells: Seq<(u16, u16)>, a: Descent, b: Descent) -> bool {
    fall(cells, a) * span(cells, b) < fall(cells, b) * span(cells, a)
}

/// The better of the best descent so far and another: the other where it falls far enough and is
/// the first or gentler.
pub open spec fn pick(cells: Seq<(u16, u16)>, threshold: int, best: Option<Descent>, d: Descent) -> Option<Descent> {
    if fall(cells, d) < threshold {
        best
    } else {
        match best {
            None => Some(d),
            Some(b) => if gentler(cells, d, b) { Some(d) } else { best },
        }
    }
}

/// The best descent among `best` and the runs from cell `i` on.
pub open spec fn best_from(cells: Seq<(u16, u16)>, threshold: int, i: int, falling: bool, best: Option<Descent>) -> Option<
    Descent,
>
    decreases cells.len() - i,
    when i >= 0
    via best_from_ends
{
    if i + 1 >= cells.len() {
        best
    } else {
        let j = run_stop(cells, i, falling);
        if j > i {
            best_from(cells, threshold, j, falling, pick(cells, threshold, best, descent(i, j, falling)))
        } else {
            best_from(cells, threshold, i + 1, falling, best)
        }
    }
}

#[via_fn]
proof fn best_from_ends(cells: Seq<(u16, u16)>, threshold: int, i: int, falling: bool, best: Option<Descent>) {
    lemma_run_stop(cells, i, falling);
}

proof fn lemma_run_stop(cells: Seq<(u16, u16)>, j: int, falling: bool)
    requires
        0 <= j,
    ensures
        j <= run_stop(cells, j, falling),
        j < cells.len() ==> run_stop(cells, j, falling) < cells.len(),
        j < cells.len() ==> (falling ==> cells[run_stop(cells, j, falling)].1 >= cells[j].1),
        j < cells.len() ==> (!falling ==> cells[run_stop(cells, j, falling)].1 <= cells[j].1),
    decreases cells.len() - j,
{
    if j + 1 < cells.len() && goes_on(cells, j, falling) {
        lemma_run_stop(cells, j + 1, falling);
    }
}

/// The rows that a descent must fall to be worth a ride.
pub open spec fn ride_threshold(graph: Rect) -> int {
    geometry::max(graph.height as int / 3, 3)
}

/// The descent that the mascot rides.
pub open spec fn ride(graph: Rect, cells: Seq<(u16, u16)>) -> Option<Descent> {
    let t = ride_threshold(graph);
    best_from(cells, t, 0, false, best_from(cells, t, 0, true, None))
}

/// The cells of a descent from its peak to its trough.
pub open spec fn descent_path(cells: Seq<(u16, u16)>, d: Descent) -> Seq<(u16, u16)> {
    if d.peak <= d.trough {
        cells.subrange(d.peak, d.trough + 1)
    } else {
        cells.subrange(d.trough, d.peak + 1).reverse()
    }
}

fn fall_of(cells: &Vec<(u16, u16)>, peak: usize, trough: usize) -> (r: i64)
    requires
        peak < cells@.len(),
        trough < cells@.len(),
    ensures
        r == fall(cells@, Descent { peak: peak as int, trough: trough as int }),
        -65535 <= r <= 65535,
{
    cells[trough].1 as i64 - cells[peak].1 as i64
}

fn span_of(cells: &Vec<(u16, u16)>, peak: usize, trough: usize) -> (r: i64)
    requires
        peak < cells@.len(),
        trough < cells@.len(),
    ensures
        r == span(cells@, Descent { peak: peak as int, trough: trough as int }),
        1 <= r <= 65535,
{
    let d: i64 = cells[peak].0 as i64 - cells[trough].0 as i64;
    let e: i64 = if d >= 0 { d } else { -d };
    if e >= 1 { e } else { 1 }
}

/// A descent as the scan keeps it.
spec fn found(best: Option<(usize, usize)>) -> Option<Descent> {
    match best {
        Some(b) => Some(Descent { peak: b.0 as int, trough: b.1 as int }),
        None => None,
    }
}

fn consider(cells: &Vec<(u16, u16)>, threshold: u16, best: Option<(usize, usize)>, peak: usize, trough: usize) -> (r: Option<
    (usize, usize),
>)
    requires
        peak < cells@.len(),
        trough < cells@.len(),
        best matches Some(b) ==> b.0 < cells@.len() && b.1 < cells@.len(),
    ensures
        found(r) == pick(
            cells@,
            threshold as int,
            found(best),
            Descent { peak: peak as int, trough: trough as int },
        ),
        r matches Some(b) ==> b.0 < cells@.len() && b.1 < cells@.len(),
{
    let f: i64 = fall_of(cells, peak, trough);
    if f < threshold as i64 {
        return best;
    }
    match best {
        None => Some((peak, trough)),
        Some(b) => {
            let s: i64 = span_of(cells, peak, trough);
            let bf: i64 = fall_of(cells, b.0, b.1);
            let bs: i64 = span_of(cells, b.0, b.1);
            proof {
                assert(-65535 * 65535 <= f * bs <= 65535 * 65535 && -65535 * 65535 <= bf * s <= 65535 * 65535)
                    by (nonlinear_arith)
                    requires
                        -65535 <= f <= 65535,
                        -65535 <= bf <= 65535,
                        1 <= s <= 65535,
                        1 <= bs <= 65535,
                ;
            }
            if f * bs < bf * s {
                Some((peak, trough))
            } else {
                best
            }
        },
    }
}

fn scan(cells: &Vec<(u16, u16)>, threshold: u16, falling: bool, start: Option<(usize, usize)>) -> (r: Option<
    (usize, usize),
>)
    requires
        start matches Some(b) ==> b.0 < cells@.len() && b.1 < cells@.len(),
    ensures
        found(r) == best_from(cells@, threshold as int, 0, falling, found(start)),
        r matches Some(b) ==> b.0 < cells@.len() && b.1 < cells@.len(),
{
    let n: usize = cells.len();
    let mut best = start;
    let mut i: usize = 0;
    while n > 0 && i < n - 1
        invariant
            n == cells@.len(),
            best matches Some(b) ==> b.0 < cells@.len() && b.1 < cells@.len(),
            best_from(cells@, threshold as int, 0, falling, found(start)) == best_from(
                cells@,
                threshold as int,
                i as int,
                falling,
                found(best),
            ),
        decreases n - i,
    {
        let mut j: usize = i;
        while j < n - 1 && ((falling && cells[j + 1].1 >= cells[j].1) || (!falling && cells[j + 1].1 <= cells[j].1))
            invariant
                n == cells@.len(),
                i <= j < n,
                run_stop(cells@, i as int, falling) == run_stop(cells@, j as int, falling),
            decreases n - j,
        {
            j += 1;
        }
        if j > i {
            best = if falling {
                consider(cells, threshold, best, i, j)
            } else {
                consider(cells, threshold, best, j, i)
            };
            i = j;
        } else {
            i += 1;
        }
    }
    best
}

/// A rideable descent of a chart, as datapoint cells from its peak down to its trough, or `None`
/// when no fall is great enough. A descent can fall off to the right or to the left. It qualifies
/// when it falls at least a third of the plot's height, and no less than three rows; among those
/// that qualify the gentlest is chosen, since a near-vertical cliff reads as falling, not sliding.
pub fn great_displacement_path(chart: &ChartGeometry) -> (r: Option<Vec<(u16, u16)>>)
    ensures
        match (r, ride(chart.graph, chart.cells@)) {
            (Some(path), Some(d)) => path@ == descent_path(chart.cells@, d),
            (None, None) => true,
            _ => false,
        },
{
    let cells = &chart.cells;
    let threshold: u16 = max16(chart.graph.height / 3, 3);
    let right = scan(cells, threshold, true, None);
    match scan(cells, threshold, false, right) {
        None => None,
        Some((peak, trough)) => {
            let mut path: Vec<(u16, u16)> = Vec::new();
            let n: usize = cells.len();
            assert(peak < n && trough < n);
            if peak <= trough {
                let ghost whole = cells@.subrange(peak as int, trough + 1);
                let mut k: usize = peak;
                assert(path@ =~= whole.take(0));
                while k <= trough
                    invariant
                        peak <= k <= trough + 1,
                        trough < n,
                        n == cells@.len(),
                        whole == cells@.subrange(peak as int, trough + 1),
                        path@ == whole.take(k - peak),
                    decreases trough + 1 - k,
                {
                    path.push(cells[k]);
                    k += 1;
                    assert(whole.take(k - peak) =~= whole.take(k - 1 - peak).push(whole[k - 1 - peak]));
                }
                assert(whole.take(whole.len() as int) =~= whole);
            } else {
                let ghost whole = cells@.subrange(trough as int, peak + 1).reverse();
                let mut k: usize = peak + 1;
                assert(path@ =~= whole.take(0));
                while k > trough
                    invariant
                        trough <= k <= peak + 1,
                        trough < peak,
                        peak < cells@.len(),
                        whole == cells@.subrange(trough as int, peak + 1).reverse(),
                        path@ == whole.take(peak + 1 - k),
                    decreases k,
                {
                    path.push(cells[k - 1]);
                    k -= 1;
                    assert(whole.take(peak + 1 - k) =~= whole.take(peak - k).push(whole[peak - k]));
                }
                assert(whole.take(whole.len() as int) =~= whole);
            }
            Some(path)
        },
    }
}

/// Whether `d` is at least as gentle as `e`.
pub open spec fn as_gentle(cells: Seq<(u16, u16)>, d: Descent, e: Descent) -> bool {
    fall(cells, d) * span(cells, e) <= fall(cells, e) * span(cells, d)
}

/// Whether `best` falls far enough and is as gentle as `before` was, where there was one.
pub open spec fn improves(cells: Seq<(u16, u16)>, threshold: int, before: Option<Descent>, best: Option<Descent>) -> bool {
    &&& before matches Some(b) ==> best is Some && as_gentle(cells, best->0, b)
    &&& best matches Some(d) ==> fall(cells, d) >= threshold || before == best
}

proof fn lemma_as_gentle_chains(cells: Seq<(u16, u16)>, a: Descent, b: Descent, c: Descent)
    requires
        as_gentle(cells, a, b),
        as_gentle(cells, b, c),
    ensures
        as_gentle(cells, a, c),
{
    let (fa, fb, fc) = (fall(cells, a), fall(cells, b), fall(cells, c));
    let (sa, sb, sc) = (span(cells, a), span(cells, b), span(cells, c));
    assert(fa * sc <= fc * sa) by (nonlinear_arith)
        requires
            fa * sb <= fb * sa,
            fb * sc <= fc * sb,
            sa >= 1,
            sb >= 1,
            sc >= 1,
    {
        assert(fa * sb * sc <= fb * sa * sc);
        assert(fb * sc * sa <= fc * sb * sa);
        assert(fb * sa * sc == fb * sc * sa);
        assert((fa * sc) * sb == fa * sb * sc);
        assert((fc * sa) * sb == fc * sb * sa);
    }
}

proof fn lemma_best_from_improves(cells: Seq<(u16, u16)>, threshold: int, i: int, falling: bool, best: Option<Descent>)
    requires
        i >= 0,
    ensures
        improves(cells, threshold, best, best_from(cells, threshold, i, falling, best)),
    decreases cells.len() - i,
{
    if i + 1 < cells.len() {
        lemma_run_stop(cells, i, falling);
        let j = run_stop(cells, i, falling);
        if j > i {
            let next = pick(cells, threshold, best, descent(i, j, falling));
            lemma_best_from_improves(cells, threshold, j, falling, next);
            let last = best_from(cells, threshold, j, falling, next);
            if best is Some && last is Some && next is Some {
                lemma_as_gentle_chains(cells, last->0, next->0, best->0);
            }
        } else {
            lemma_best_from_improves(cells, threshold, i + 1, falling, best);
        }
    }
}

/// Whether `i..=j` is one of the runs that the scan from cell `from` meets.
pub open spec fn meets(cells: Seq<(u16, u16)>, from: int, falling: bool, i: int, j: int) -> bool
    decreases cells.len() - from,
    when from >= 0
    via meets_ends
{
    if from + 1 >= cells.len() {
        false
    } else {
        let stop = run_stop(cells, from, falling);
        if stop > from {
            (i == from && j == stop) || meets(cells, stop, falling, i, j)
        } else {
            meets(cells, from + 1, falling, i, j)
        }
    }
}

#[via_fn]
proof fn meets_ends(cells: Seq<(u16, u16)>, from: int, falling: bool, i: int, j: int) {
    lemma_run_stop(cells, from, falling);
}

proof fn lemma_best_from_beats(
    cells: Seq<(u16, u16)>,
    threshold: int,
    from: int,
    falling: bool,
    best: Option<Descent>,
    i: int,
    j: int,
)
    requires
        from >= 0,
        meets(cells, from, falling, i, j),
        fall(cells, descent(i, j, falling)) >= threshold,
    ensures
        best_from(cells, threshold, from, falling, best) is Some,
        as_gentle(cells, best_from(cells, threshold, from, falling, best)->0, descent(i, j, falling)),
    decreases cells.len() - from,
{
    lemma_run_stop(cells, from, falling);
    let stop = run_stop(cells, from, falling);
    if stop > from {
        let d = descent(from, stop, falling);
        let next = pick(cells, threshold, best, d);
        if i == from && j == stop {
            lemma_best_from_improves(cells, threshold, stop, falling, next);
            assert(next is Some && as_gentle(cells, next->0, d));
            lemma_as_gentle_chains(cells, best_from(cells, threshold, stop, falling, next)->0, next->0, d);
        } else {
            lemma_best_from_beats(cells, threshold, stop, falling, next, i, j);
        }
    } else {
        lemma_best_from_beats(cells, threshold, from + 1, falling, best, i, j);
    }
}

/// The descent that is ridden falls far enough, and none that the chart offers is gentler; where one
/// falls far enough, one is ridden.
pub proof fn law_the_gentlest_great_descent_is_ridden(graph: Rect, cells: Seq<(u16, u16)>, falling: bool, i: int, j: int)
    ensures
        ride(graph, cells) matches Some(d) ==> fall(cells, d) >= ride_threshold(graph),
        meets(cells, 0, falling, i, j) && fall(cells, descent(i, j, falling)) >= ride_threshold(graph) ==> ride(
            graph,
            cells,
        ) is Some && as_gentle(cells, ride(graph, cells)->0, descent(i, j, falling)),
{
    let t = ride_threshold(graph);
    let right = best_from(cells, t, 0, true, None);
    lemma_best_from_improves(cells, t, 0, true, None);
    lemma_best_from_improves(cells, t, 0, false, right);
    if meets(cells, 0, falling, i, j) && fall(cells, descent(i, j, falling)) >= t {
        if falling {
            lemma_best_from_beats(cells, t, 0, true, None, i, j);
            lemma_as_gentle_chains(cells, ride(graph, cells)->0, right->0, descent(i, j, true));
        } else {
            lemma_best_from_beats(cells, t, 0, false, right, i, j);
        }
    }
}

/// How likely an armed ride is to start.
#[derive(Debug, Clone, Copy, PartialEq, Eq, Structural)]
pub enum Chance {
    Never,
    /// Arriving at a chart usually rides: four times in five.
    Usual,
    /// A background refresh only occasionally rides again: one time in four.
    Rare,
}

/// Decides when the chart ride starts. Navigating onto a chart or an auto-refresh arms it for a
/// short time; once a chart with a rideable descent is on screen, one roll of the dice is spent.
#[derive(Debug, Clone, Copy, PartialEq, Eq, Structural)]
pub struct ChartRideIgniter {
    pub armed_ns: i64,
    /// Whether the single roll of the current arming has been spent.
    pub rolled: bool,
    pub chance: Chance,
}

/// The igniter after an event.
pub open spec fn armed(ig: ChartRideIgniter, ev: MascotEvent) -> ChartRideIgniter {
    match ev {
        MascotEvent::Navigated { on_metric_chart: true } => ChartRideIgniter {
            armed_ns: ARMED_NS,
            rolled: false,
            chance: Chance::Usual,
        },
        MascotEvent::Refreshed { auto: true } => ChartRideIgniter {
            armed_ns: ARMED_NS,
            rolled: false,
            chance: Chance::Rare,
        },
        _ => ig,
    }
}

/// Whether a redraw of the igniter spends its roll: it is armed, has not rolled, and the chart on
/// screen has a rideable descent.
pub open spec fn rolls(ig: ChartRideIgniter, chart: Option<ChartGeometry>) -> bool {
    ig.armed_ns > 0 && !ig.rolled && chart is Some && ride(chart->0.graph, chart->0.cells@) is Some
}

impl ChartRideIgniter {
    /// An igniter that nothing has armed.
    pub fn new() -> (r: ChartRideIgniter)
        ensures
            r == (ChartRideIgniter { armed_ns: 0, rolled: false, chance: Chance::Never }),
    {
        ChartRideIgniter { armed_ns: 0, rolled: false, chance: Chance::Never }
    }

    /// Arms the igniter on arriving at a chart or on an auto-refresh.
    pub fn arm(&mut self, ev: MascotEvent)
        ensures
            *final(self) == armed(*old(self), ev),
    {
        match ev {
            MascotEvent::Navigated { on_metric_chart } => {
                if on_metric_chart {
                    self.armed_ns = ARMED_NS;
                    self.rolled = false;
                    self.chance = Chance::Usual;
                }
            },
            MascotEvent::Refreshed { auto } => {
                if auto {
                    self.armed_ns = ARMED_NS;
                    self.rolled = false;
                    self.chance = Chance::Rare;
                }
            },
            _ => {},
        }
    }

    /// Advances the igniter by one redraw. Where the roll is spent, gives the path to ride should
    /// the dice say so.
    pub fn poll(&mut self, dt_ns: i64, chart: &Option<ChartGeometry>) -> (r: Option<Vec<(u16, u16)>>)
        requires
            dt_ns >= 0,
        ensures
            r is Some <==> rolls(*old(self), *chart),
            r matches Some(path) ==> path@ == descent_path(
                chart->0.cells@,
                ride(chart->0.graph, chart->0.cells@)->0,
            ),
            *final(self) == (ChartRideIgniter {
                armed_ns: if old(self).armed_ns > 0 {
                    (old(self).armed_ns - dt_ns) as i64
                } else {
                    old(self).armed_ns
                },
                rolled: old(self).rolled || rolls(*old(self), *chart),
                chance: old(self).chance,
            }),
    {
        if self.armed_ns <= 0 {
            return None;
        }
        self.armed_ns = self.armed_ns - dt_ns;
        if self.rolled {
            return None;
        }
        match chart {
            None => None,
            Some(geometry) => {
                match great_displacement_path(geometry) {
                    None => None,
                    Some(path) => {
                        self.rolled = true;
                        Some(path)
                    },
                }
            },
        }
    }
}

/// One arming spends one roll: after it, no redraw rolls again until the igniter is armed anew.
pub proof fn law_one_roll_for_each_arming(ig: ChartRideIgniter, dt_ns: int, chart: Option<ChartGeometry>, later: Option<
    ChartGeometry,
>)
    requires
        rolls(ig, chart),
    ensures
        !rolls(
            ChartRideIgniter { armed_ns: (ig.armed_ns - dt_ns) as i64, rolled: true, chance: ig.chance },
            later,
        ),
{
}

} // verus!
