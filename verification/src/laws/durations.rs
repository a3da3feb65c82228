//! Durations: what is told of a length of time is its value, to the thousandth of its unit.

use vstd::prelude::*;

use crate::app;
use crate::app::AppView;
use crate::laws::views::lemma_small_double;
use crate::model;
use crate::model::{Focus, Mode, RouteView};
use crate::text;
use crate::time;

verus! {

proof fn lemma_scale(n: nat, den: nat, k: nat)
    requires
        n * time::two_to(10) < time::two_to(53) * den,
        k >= 10,
    ensures
        time::scale_of(n, den, k) >= 10,
    decreases k,
{
    if !(n * time::two_to(k) < time::two_to(53) * den) {
        lemma_scale(n, den, (k - 1) as nat);
    }
}

/// A number within half a unit of a multiple is rounded to that multiple.
proof fn lemma_rounds_to(num: nat, d: nat, t: nat)
    requires
        d > 0,
        -(d as int) < 2 * (num - t * d) < d,
    ensures
        time::half_even(num, d) == t,
{
    let x = num - t * d;
    if x >= 0 {
        vstd::arithmetic::div_mod::lemma_fundamental_div_mod_converse(num as int, d as int, t as int, x);
    } else {
        assert(t >= 1) by (nonlinear_arith)
            requires
                num - t * d < 0,
                num >= 0,
                d > 0,
                t >= 0,
        ;
        assert((t - 1) * d + (d + x) == num) by (nonlinear_arith)
            requires
                x == num - t * d,
        ;
        vstd::arithmetic::div_mod::lemma_fundamental_div_mod_converse(num as int, d as int, t - 1, d + x);
    }
}

/// A rounded quotient is within half a unit of the number.
proof fn lemma_rounded_is_near(num: nat, d: nat)
    requires
        d > 0,
    ensures
        -(d as int) <= 2 * (time::half_even(num, d) * d - num) <= d,
{
    let q = num / d;
    let r = num % d;
    vstd::arithmetic::div_mod::lemma_fundamental_div_mod(num as int, d as int);
    assert(num == d * q + r && 0 <= r < d);
    assert(q * d == d * q && (q + 1) * d == d * q + d) by (nonlinear_arith);
}

proof fn lemma_thousandths(n: nat, den: nat, t: nat)
    requires
        n < 8_000_000_000_000_000,
        den >= 1000,
        1000 * n == t * den,
    ensures
        time::printed_thousandths(n, den) == t,
{
    lemma_small_double(n);
    time::lemma_two_to_values();
    assert(n * 1024 < 0x20_0000_0000_0000 * den) by (nonlinear_arith)
        requires
            n < 8_000_000_000_000_000,
            den >= 1000,
    ;
    let k = time::scale_of(n, den, 52);
    lemma_scale(n, den, 52);
    time::lemma_two_to_grows(10, k);
    let p = time::two_to(k);
    let q = time::half_even(n * p, den);
    lemma_rounded_is_near(n * p, den);
    let e = q * den - n * p;
    assert(den * (q * 1000 - t * p) == 1000 * e) by (nonlinear_arith)
        requires
            e == q * den - n * p,
            1000 * n == t * den,
    ;
    let y = q * 1000 - t * p;
    assert(-500 <= y <= 500) by (nonlinear_arith)
        requires
            den * y == 1000 * e,
            -(den as int) <= 2 * e <= den,
            den >= 1000,
    ;
    lemma_rounds_to(q * 1000, p, t);
}

/// The text of a number of thousandths.
pub open spec fn with_thousandths(t: nat) -> Seq<char> {
    text::dec(t / 1000) + seq!['.'] + text::pad0(t % 1000, 3)
}

/// Microseconds are told exactly, and so are whole microseconds in milliseconds and whole milliseconds in
/// seconds: the whole units, a dot, and three digits.
pub proof fn law_durations_are_told_to_the_thousandth(n: nat)
    ensures
        1_000 <= n < 1_000_000 ==> time::duration_text(n, true) == with_thousandths(n) + "us"@,
        1_000 <= n < 1_000_000 ==> time::duration_text(1_000 * n, true) == with_thousandths(n) + "ms"@,
        1_000 <= n < 8_000_000_000 ==> time::duration_text(1_000_000 * n, true) == with_thousandths(n) + "s"@,
{
    if 1_000 <= n < 1_000_000 {
        lemma_thousandths(n, 1_000, n);
        lemma_thousandths(1_000 * n, 1_000_000, n);
    }
    if 1_000 <= n < 8_000_000_000 {
        lemma_thousandths(1_000_000 * n, 1_000_000_000, n);
    }
}

/// A session starts on the Overview, over the last fifteen minutes, with the searches for all traces and all logs
/// and no query for metrics; nothing is in flight, and nothing refreshes by itself. The window is the one that a
/// query without a choice is made over.
pub proof fn law_a_session_starts_on_the_overview(now: u64)
    ensures
        ({
            let a = app::initial(now);
            &&& a.at.route == RouteView::Overview
            &&& a.at.query == seq![""@, ""@, "{}"@, "{}"@]
            &&& a.mode == Mode::Normal && a.focus == Focus::Primary
            &&& model::range_label(a.range.range_index as int) == "15m"@
            &&& a.range.abs_window is None && a.range.attr_window is None
            &&& !a.load.loading && !a.load.input_locked && !a.load.auto_refresh && a.load.last_error is None
            &&& a.load.last_refresh == now && a.mascot.last_input == now
            &&& a.back.len() == 0 && a.forward.len() == 0
            &&& a.trace.sticky_waterfall && !a.mascot.show_mascot
            &&& a.wf()
            &&& model::default_options().lookback.nanos == 1_000_000_000 * model::range_secs(a.range.range_index as int).0
            &&& model::default_options().step.nanos == 1_000_000_000 * model::range_secs(a.range.range_index as int).1
            &&& model::default_options().window is None
        }),
{
}

/// On the Overview a refresh asks for the attribute statistics too, over the window selected for them, where they
/// are to be measured; nowhere else.
pub proof fn law_the_overview_measures_attributes(a: AppView, origin: model::Refresh, env: crate::tasks::Env)
    requires
        !a.load.loading,
    ensures
        ({
            let s = crate::tasks::refresh_step(a, origin, env);
            let due = a.at.route is Overview && (match a.attrs.attr_stats {
                Some(stats) => stats.key != a.range.attr_window || env.now >= stats.measured_at + 60_000_000_000,
                None => true,
            });
            &&& due ==> s.requests.len() == 2 && s.requests[0] == crate::tasks::RequestView::AttributeStats(a.range.attr_window)
            &&& !due ==> s.requests.len() == 1
            &&& s.requests.last() is Refresh
        }),
{
    reveal(crate::tasks::refresh_step);
}

} // verus!
