//! Keys that lead from one view to another, and that change what is shown.

use vstd::prelude::*;

use crate::app::{AppView, AttributeView, LoadView, MascotView};
use crate::input::{KeyCode, KeyEvent};
use crate::keys;
use crate::laws::catalog::on_row;
use crate::laws::keys::{
    asks_for, law_a_refresh_asks_for_what_is_shown, law_a_switch_shows_the_screen, lemma_asks_more, lemma_char,
    lemma_no_detail, lemma_view, on_list, on_pane, pressed, rows,
};
use crate::model::{CorrelationView, Focus, Mode, NavView, Refresh, RouteView, Screen, TreeRowRef};
use crate::tasks;
use crate::tasks::{Env, RequestView, Step};
use crate::text;

verus! {

/// The state but for what the waterfall of the Traces list and a refresh keep of their own.
pub open spec fn same_view(a: AppView, b: AppView) -> bool {
    a == (AppView { trace: a.trace, load: a.load, paging: a.paging, ..b })
}

proof fn lemma_step(a: AppView, key: KeyEvent, env: Env)
    requires
        on_list(a),
        key.press,
        !(key.code is Char),
        keys::ring_step(a, key, env) is None,
    ensures
        pressed(a, key, env) == keys::view_step(a, key, env).and(
            tasks::waterfall_step(keys::view_step(a, key, env).app, env.options.ascii),
        ),
        pressed(a, key, env).app == (AppView { trace: pressed(a, key, env).app.trace, ..keys::view_step(a, key, env).app }),
{
    lemma_no_detail(a, key, env);
    lemma_view(a, key, env);
}

proof fn lemma_moved(b: AppView, a: AppView, env: Env)
    ensures
        ({
            let s = keys::moved_step(Some(b), a, env);
            &&& s.app == (AppView {
                load: s.app.load,
                paging: s.app.paging,
                metric_exemplars: Seq::empty(),
                ..b
            })
            &&& !b.load.loading ==> asks_for(s.requests, b.screen(), b.active_query(), b.at.log_correlation)
        }),
{
    reveal(keys::moved_step);
    reveal(tasks::exemplars_step);
    law_a_refresh_asks_for_what_is_shown(b, env, Refresh::Interactive);
    let first = keys::refresh(b, env);
    if !b.load.loading {
        lemma_asks_more(
            first.requests,
            tasks::exemplars_step(first.app).requests,
            b.screen(),
            b.active_query(),
            b.at.log_correlation,
        );
    }
}

proof fn lemma_asks_first(first: Step, second: Step, a: AppView)
    requires
        asks_for(first.requests, a.screen(), a.active_query(), a.at.log_correlation),
    ensures
        asks_for(first.and(second).requests, a.screen(), a.active_query(), a.at.log_correlation),
{
    lemma_asks_more(first.requests, second.requests, a.screen(), a.active_query(), a.at.log_correlation);
}

/// Left and Esc go back to the view that was left last, exactly as it was left, and ask for its results
/// anew. The view that is left waits to be gone forward to.
pub proof fn law_left_goes_back(a: AppView, key: KeyEvent, env: Env)
    requires
        on_list(a),
        on_pane(a),
        key.press,
        key.code == KeyCode::Left || key.code == KeyCode::Esc,
        a.back.len() > 0,
    ensures
        pressed(a, key, env).app.at == a.back.last(),
        pressed(a, key, env).app.back == a.back.drop_last(),
        pressed(a, key, env).app.forward == a.forward.push(a.at),
        pressed(a, key, env).app.mode == Mode::Normal,
        pressed(a, key, env).app.focus == Focus::Primary,
        !a.load.loading ==> asks_for(
            pressed(a, key, env).requests,
            pressed(a, key, env).app.screen(),
            pressed(a, key, env).app.active_query(),
            a.back.last().log_correlation,
        ),
{
    reveal(keys::ring_step);
    reveal(keys::view_step);
    lemma_step(a, key, env);
    let b = a.go_back()->0;
    lemma_moved(b, a, env);
    if !a.load.loading {
        lemma_asks_first(keys::view_step(a, key, env), tasks::waterfall_step(keys::view_step(a, key, env).app, env.options.ascii), b);
    }
}

/// Right goes forward to the view that Left came from last, exactly as it was left, and asks for its
/// results anew.
pub proof fn law_right_goes_forward(a: AppView, key: KeyEvent, env: Env)
    requires
        on_list(a),
        on_pane(a),
        key.press,
        key.code == KeyCode::Right,
        a.forward.len() > 0,
    ensures
        pressed(a, key, env).app.at == a.forward.last(),
        pressed(a, key, env).app.forward == a.forward.drop_last(),
        pressed(a, key, env).app.back == a.back.push(a.at),
        !a.load.loading ==> asks_for(
            pressed(a, key, env).requests,
            pressed(a, key, env).app.screen(),
            pressed(a, key, env).app.active_query(),
            a.forward.last().log_correlation,
        ),
{
    reveal(keys::ring_step);
    reveal(keys::view_step);
    lemma_step(a, key, env);
    let b = a.go_forward()->0;
    lemma_moved(b, a, env);
    if !a.load.loading {
        lemma_asks_first(keys::view_step(a, key, env), tasks::waterfall_step(keys::view_step(a, key, env).app, env.options.ascii), b);
    }
}

/// Where there is nothing to go back or forward to, Left, Esc and Right change nothing of the view and
/// ask for no results.
pub proof fn law_there_is_an_end_to_the_history(a: AppView, key: KeyEvent, env: Env)
    requires
        on_list(a),
        on_pane(a),
        key.press,
        ((key.code == KeyCode::Left || key.code == KeyCode::Esc) && a.back.len() == 0) || (key.code == KeyCode::Right
            && a.forward.len() == 0),
    ensures
        pressed(a, key, env).app == (AppView { trace: pressed(a, key, env).app.trace, ..a }),
{
    reveal(keys::ring_step);
    reveal(keys::view_step);
    reveal(keys::moved_step);
    lemma_step(a, key, env);
}

/// Backspace leads from a detail to the list it belongs to, from a span to its trace where that is held,
/// from the list of series to the catalog, and nowhere from the other lists.
pub proof fn law_a_step_up_leads_to_the_parent(a: AppView)
    requires
        a.at.query.len() == 4,
    ensures
        a.at.route is MetricDetail ==> (a.go_up() matches Some(b) && b.at.route == RouteView::Metrics && b.at.query == a.at.query),
        a.at.route is LogDetail ==> (a.go_up() matches Some(b) && b.at.route == RouteView::Logs && b.at.query == a.at.query),
        a.at.route is TraceDetail ==> (a.go_up() matches Some(b) && b.at.route == RouteView::Traces && b.at.query == a.at.query),
        a.at.route matches RouteView::SpanDetail { trace_id, .. } ==> (a.go_up() matches Some(b) && match a.trace.trace_detail {
            Some(detail) => detail.trace_id@ == trace_id ==> b.at.route == (RouteView::TraceDetail { detail }) && b.at.span_cursor
                == a.at.span_cursor,
            None => a.back.len() == 0 ==> b.at.route == RouteView::Traces,
        }),
        a.at.route == RouteView::Metrics && !a.on_catalog() ==> (a.go_up() matches Some(b) && b.at.route == RouteView::Metrics
            && b.at.query == a.at.query.update(1, Seq::empty()) && b.at.selected == 0),
        a.at.route == RouteView::Metrics && a.on_catalog() ==> a.go_up() is None,
        a.at.route == RouteView::Overview || a.at.route == RouteView::Traces || a.at.route == RouteView::Logs ==> a.go_up() is None,
        a.go_up() matches Some(b) ==> b.at.scroll == 0 && b.at.focus_trace_id is None && b.mode == Mode::Normal && b.focus
            == Focus::Primary && b.forward.len() == 0 && b.back.len() > 0 && b.back.last() == a.at,
{
}

/// Backspace takes the step up, and asks for the results of the view that it leads to.
pub proof fn law_backspace_goes_up(a: AppView, key: KeyEvent, env: Env)
    requires
        a.mode == Mode::Normal,
        key.press,
        key.code == KeyCode::Backspace,
    ensures
        a.go_up() matches Some(b) ==> pressed(a, key, env).app.at == b.at && pressed(a, key, env).app.back == b.back && pressed(
            a,
            key,
            env,
        ).app.forward == b.forward && (!a.load.loading ==> asks_for(
            pressed(a, key, env).requests,
            b.screen(),
            b.active_query(),
            b.at.log_correlation,
        )),
        a.go_up() is None ==> pressed(a, key, env).app == (AppView { trace: pressed(a, key, env).app.trace, ..a }),
{
    reveal(keys::ring_step);
    reveal(keys::view_step);
    reveal(keys::detail_step);
    reveal(keys::trace_key);
    reveal(keys::span_key);
    reveal(keys::log_key);
    reveal(keys::metric_key);
    reveal(keys::scroll_key);
    lemma_view(a, key, env);
    match a.go_up() {
        Some(b) => {
            lemma_moved(b, a, env);
            if !a.load.loading {
                lemma_asks_first(
                    keys::view_step(a, key, env),
                    tasks::waterfall_step(keys::view_step(a, key, env).app, env.options.ascii),
                    b,
                );
            }
        },
        None => {
            reveal(keys::moved_step);
        },
    }
}

proof fn lemma_changed(b: AppView, a: AppView, key: KeyEvent, env: Env)
    requires
        on_list(a),
        key.press,
        key.code matches KeyCode::Char(c) && c != 'q' && keys::char_step(a, c, env) == keys::changed_step(Some(b), a, env),
    ensures
        same_view(pressed(a, key, env).app, b),
        !b.load.loading ==> asks_for(pressed(a, key, env).requests, b.screen(), b.active_query(), b.at.log_correlation),
{
    lemma_char(a, key, env);
    reveal(keys::changed_step);
    law_a_refresh_asks_for_what_is_shown(b, env, Refresh::Interactive);
    let s = keys::refresh(b, env);
    if !b.load.loading {
        lemma_asks_first(s, tasks::waterfall_step(s.app, env.options.ascii), b);
    }
}

/// `[` shows an earlier window of the same length: it moves back, by half of its length.
pub proof fn law_a_bracket_moves_the_window_earlier(a: AppView, key: KeyEvent, env: Env, start: i64, end: i64)
    requires
        on_list(a),
        key.press && key.code == KeyCode::Char('['),
        a.range.abs_window == Some((start, end)),
        2 <= end - start < 0x10_0000_0000_0000,
        start >= i64::MIN + 0x10_0000_0000_0000,
        !a.load.loading,
    ensures
        ({
            let b = pressed(a, key, env);
            let half = (end - start) / 2;
            &&& b.app.range.abs_window == Some(((start - half) as i64, (end - half) as i64))
            &&& b.app.at == (NavView { selected: 0, scroll: 0, ..a.at })
            &&& asks_for(b.requests, a.screen(), a.active_query(), a.at.log_correlation)
        }),
{
    reveal(keys::char_step);
    lemma_small_double((end - start) as nat);
    let b = a.pan(false, 1, 2, env.wall_ns);
    assert(b is Some);
    lemma_changed(b->0, a, key, env);
}

/// `]` shows a later window of the same length: it moves ahead, by half of its length. A window that
/// would reach past now rolls with the time again.
pub proof fn law_a_bracket_moves_the_window_later(a: AppView, key: KeyEvent, env: Env, start: i64, end: i64)
    requires
        on_list(a),
        key.press && key.code == KeyCode::Char(']'),
        a.range.abs_window == Some((start, end)),
        2 <= end - start < 0x10_0000_0000_0000,
        end <= env.wall_ns,
        !a.load.loading,
    ensures
        ({
            let b = pressed(a, key, env);
            let half = (end - start) / 2;
            &&& end + half < env.wall_ns ==> b.app.range.abs_window == Some(((start + half) as i64, (end + half) as i64))
            &&& end + half >= env.wall_ns ==> b.app.range.abs_window is None
            &&& b.app.range.range_index == a.range.range_index
            &&& b.app.at == (NavView { selected: 0, scroll: 0, ..a.at })
            &&& asks_for(b.requests, a.screen(), a.active_query(), a.at.log_correlation)
        }),
{
    reveal(keys::char_step);
    lemma_small_double((end - start) as nat);
    let b = a.pan(true, 1, 2, env.wall_ns);
    assert(b is Some);
    lemma_changed(b->0, a, key, env);
}

/// A length of less than fifty-three bits is itself in double precision.
pub proof fn lemma_small_double(n: nat)
    requires
        n < 0x20_0000_0000_0000,
    ensures
        crate::time::as_double(n) == n,
{
    reveal_with_fuel(crate::time::two_to, 54);
    assert(crate::time::two_to(53) == 0x20_0000_0000_0000);
    assert(crate::time::excess_bits(n, 0) == 0);
    assert(crate::time::two_to(0) == 1);
    assert(n / 1 == n && n % 1 == 0);
}

/// `-` doubles the window about its center, and `+` and `=` halve it about its center.
pub proof fn law_signs_zoom_about_the_center(a: AppView, key: KeyEvent, env: Env, start: i64, end: i64)
    requires
        on_list(a),
        key.press,
        key.code == KeyCode::Char('-') || key.code == KeyCode::Char('+') || key.code == KeyCode::Char('='),
        a.range.abs_window == Some((start, end)),
        end - start < 0x10_0000_0000_0000,
        (end - start) % 4 == 0,
        2_000_000_000 <= end - start,
        start >= i64::MIN + 0x10_0000_0000_0000,
        end <= i64::MAX - 0x10_0000_0000_0000,
        !a.load.loading,
    ensures
        ({
            let b = pressed(a, key, env);
            let length = end - start;
            &&& key.code == KeyCode::Char('-') ==> b.app.range.abs_window == Some(
                ((start - length / 2) as i64, (end + length / 2) as i64),
            )
            &&& key.code != KeyCode::Char('-') ==> b.app.range.abs_window == Some(
                ((start + length / 4) as i64, (end - length / 4) as i64),
            )
            &&& b.app.at == (NavView { selected: 0, scroll: 0, ..a.at })
            &&& asks_for(b.requests, a.screen(), a.active_query(), a.at.log_correlation)
        }),
{
    reveal(keys::char_step);
    let length = end - start;
    lemma_small_double(length as nat);
    let b = if key.code == KeyCode::Char('-') { a.zoom(2, 1, env.wall_ns) } else { a.zoom(1, 2, env.wall_ns) };
    if key.code == KeyCode::Char('-') {
        assert(crate::app::window::zoomed_span(length, 2, 1) == 2 * length);
    } else {
        assert(crate::app::window::zoomed_span(length, 1, 2) == length / 2);
    }
    assert(b is Some);
    lemma_changed(b->0, a, key, env);
}

/// On the list of logs, `n` asks for the page behind the one shown, from the place where it ends, and
/// `p` for the page before it.
pub proof fn law_n_and_p_turn_the_log_pages(a: AppView, key: KeyEvent, env: Env)
    requires
        on_list(a),
        on_pane(a),
        a.at.route == RouteView::Logs,
        key.press,
        !a.load.loading,
    ensures
        ({
            let b = pressed(a, key, env);
            let stack = a.paging.log_cursor_stack;
            &&& key.code == KeyCode::Char('n') && a.paging.log_next_cursor is Some ==> {
                &&& b.app.paging.log_cursor_stack == stack.push(a.paging.log_next_cursor->0)
                &&& b.app.at.selected == 0
                &&& exists|i: int|
                    0 <= i < b.requests.len() && (#[trigger] b.requests[i] matches RequestView::Refresh { after, .. } && after
                        == a.paging.log_next_cursor)
            }
            &&& key.code == KeyCode::Char('n') && a.paging.log_next_cursor is None ==> b.app.at == a.at && b.app.paging == a.paging
            &&& key.code == KeyCode::Char('p') && stack.len() > 0 ==> {
                &&& b.app.paging.log_cursor_stack == stack.drop_last()
                &&& b.app.at.selected == 0
                &&& exists|i: int|
                    0 <= i < b.requests.len() && (#[trigger] b.requests[i] matches RequestView::Refresh { after, .. } && after
                        == if stack.len() > 1 { Some(stack[stack.len() - 2]) } else { None })
            }
            &&& key.code == KeyCode::Char('p') && stack.len() == 0 ==> b.app.at == a.at && b.app.paging == a.paging
        }),
{
    reveal(keys::char_step);
    reveal(keys::changed_step);
    reveal(tasks::refresh_step);
    if key.code == KeyCode::Char('n') || key.code == KeyCode::Char('p') {
        lemma_char(a, key, env);
        let moved = if key.code == KeyCode::Char('n') { a.page_older() } else { a.page_newer() };
        if let Some(m) = moved {
            let s = keys::refresh(m, env);
            assert(pressed(a, key, env).requests[0] == s.requests[0]);
        }
    }
}

/// `R` turns the periodic refresh on or off, `m` shows or hides the mascot, and nothing else changes.
pub proof fn law_letters_toggle(a: AppView, key: KeyEvent, env: Env)
    requires
        on_list(a),
        key.press,
    ensures
        ({
            let b = pressed(a, key, env).app;
            &&& key.code == KeyCode::Char('R') ==> b == (AppView {
                load: LoadView { auto_refresh: !a.load.auto_refresh, ..a.load },
                trace: b.trace,
                ..a
            })
            &&& key.code == KeyCode::Char('m') ==> b == (AppView {
                mascot: MascotView {
                    show_mascot: !a.mascot.show_mascot,
                    last_tick: if a.mascot.show_mascot { a.mascot.last_tick } else { env.now },
                    ..a.mascot
                },
                trace: b.trace,
                ..a
            })
        }),
{
    reveal(keys::char_step);
    if key.code == KeyCode::Char('R') || key.code == KeyCode::Char('m') {
        lemma_char(a, key, env);
    }
}

/// `r` asks for the results of the view anew, and lets the attribute statistics be measured anew.
pub proof fn law_r_reloads(a: AppView, key: KeyEvent, env: Env)
    requires
        on_list(a),
        key.press && key.code == KeyCode::Char('r'),
        !a.load.loading,
    ensures
        pressed(a, key, env).app.at == a.at,
        pressed(a, key, env).app.attrs.attr_stats is None,
        asks_for(pressed(a, key, env).requests, a.screen(), a.active_query(), a.at.log_correlation),
        a.screen() == Screen::Overview ==> pressed(a, key, env).requests.contains(
            RequestView::AttributeStats(a.range.attr_window),
        ),
{
    reveal(keys::char_step);
    reveal(keys::reload_step);
    lemma_char(a, key, env);
    let b = AppView { attrs: AttributeView { attr_stats: None, ..a.attrs }, ..a };
    law_a_refresh_asks_for_what_is_shown(b, env, Refresh::Interactive);
    let s = keys::refresh(b, env);
    lemma_asks_first(s, tasks::waterfall_step(s.app, env.options.ascii), b);
    if a.screen() == Screen::Overview {
        reveal(tasks::refresh_step);
        assert(pressed(a, key, env).requests[0] == RequestView::AttributeStats(a.range.attr_window));
    }
}

/// `t` opens the range picker on the window in effect, which it does not change: on the preset, or on the
/// row of the absolute window, the last one.
pub proof fn law_t_opens_the_range_picker(a: AppView, key: KeyEvent, env: Env)
    requires
        on_list(a),
        key.press && key.code == KeyCode::Char('t'),
    ensures
        ({
            let b = pressed(a, key, env).app;
            &&& b.mode == Mode::TimeRange
            &&& b.range.range_cursor == if a.range.abs_window is Some { 8 } else { a.range.range_index }
            &&& b.range.range_index == a.range.range_index
            &&& b.range.abs_window == a.range.abs_window
            &&& b.at == a.at
        }),
{
    reveal(keys::char_step);
    lemma_char(a, key, env);
}

/// `e` opens the query of a screen that has one for editing, with the caret at its end.
pub proof fn law_e_edits_the_query(a: AppView, key: KeyEvent, env: Env)
    requires
        on_list(a),
        key.press && key.code == KeyCode::Char('e'),
        text::byte_len(a.active_query()) <= usize::MAX,
    ensures
        a.at.route != RouteView::Overview ==> pressed(a, key, env).app.mode == Mode::Editing && pressed(a, key, env).app.focus
            == Focus::Query && pressed(a, key, env).app.query_cursor == text::byte_len(a.active_query()),
        a.at.route == RouteView::Overview ==> pressed(a, key, env).app.mode == Mode::Normal,
        pressed(a, key, env).app.at == a.at,
{
    reveal(keys::char_step);
    reveal(keys::edit_step);
    lemma_char(a, key, env);
}

/// `F9` opens the menu bar on the screen that is shown.
pub proof fn law_f9_opens_the_menu_bar(a: AppView, key: KeyEvent, env: Env)
    requires
        on_list(a),
        key.press && key.code == KeyCode::F(9),
    ensures
        pressed(a, key, env).app.mode == Mode::Menu,
        pressed(a, key, env).app.menu_cursor == (match a.at.route {
            RouteView::Overview => 0int,
            RouteView::Metrics => 1,
            RouteView::Traces => 2,
            _ => 3,
        }),
        pressed(a, key, env).app.at == a.at,
{
    reveal(keys::ring_step);
    reveal(keys::view_step);
    lemma_step(a, key, env);
}

/// Enter on a row of the logs opens its record, from its top; the list is one step back.
pub proof fn law_enter_opens_the_log_under_the_cursor(a: AppView, key: KeyEvent, env: Env, first: int, last: int)
    requires
        rows(a, first, last),
        on_pane(a),
        a.at.route == RouteView::Logs,
        first <= a.at.selected <= last,
        a.at.selected - first < a.snapshot.log_records.len(),
        key.press && key.code == KeyCode::Enter,
    ensures
        pressed(a, key, env).app.at == (NavView {
            route: RouteView::LogDetail { record: a.snapshot.log_records[a.at.selected - first] },
            scroll: 0,
            ..a.at
        }),
        pressed(a, key, env).app.back.len() > 0 && pressed(a, key, env).app.back.last() == a.at,
        pressed(a, key, env).app.forward.len() == 0,
{
    reveal(keys::ring_step);
    reveal(keys::view_step);
    reveal(keys::enter_step);
    lemma_step(a, key, env);
    assert(a.selectable() == Some((first as usize, last as usize)));
}

/// Enter on a row of the traces opens the trace that the row names where it is held, on its first span;
/// else the trace opens once it lands.
pub proof fn law_enter_opens_the_trace_under_the_cursor(a: AppView, key: KeyEvent, env: Env, first: int, last: int, id: Seq<char>)
    requires
        rows(a, first, last),
        on_pane(a),
        a.at.route == RouteView::Traces,
        a.at.focus_trace_id is None,
        a.snapshot.table is None,
        first <= a.at.selected <= last,
        text::first_word(a.snapshot.lines[a.at.selected as int]) == Some(id),
        key.press && key.code == KeyCode::Enter,
    ensures
        match a.trace.trace_detail {
            Some(detail) => detail.trace_id@ == id ==> pressed(a, key, env).app.at == (NavView {
                route: RouteView::TraceDetail { detail },
                span_cursor: 0,
                scroll: 0,
                ..a.at
            }) && pressed(a, key, env).app.back.len() > 0 && pressed(a, key, env).app.back.last() == a.at,
            None => a.trace.detail_trace_id == Some(id) ==> pressed(a, key, env).app.trace.pending_trace_open && pressed(
                a,
                key,
                env,
            ).app.at == a.at,
        },
{
    reveal(keys::ring_step);
    reveal(keys::view_step);
    reveal(keys::enter_step);
    lemma_step(a, key, env);
    assert(a.selectable() == Some((first as usize, last as usize)));
    reveal(tasks::waterfall_step);
}

/// Enter on a series opens its chart over all of its points, with the cursor on the last one; the list is
/// one step back.
pub proof fn law_enter_opens_the_series_under_the_cursor(a: AppView, key: KeyEvent, env: Env, first: int, last: int)
    requires
        rows(a, first, last),
        on_pane(a),
        a.at.route == RouteView::Metrics,
        !a.on_catalog(),
        first <= a.at.selected <= last,
        a.at.selected - first < a.snapshot.series.len(),
        0 < a.snapshot.series[a.at.selected - first].points@.len() <= usize::MAX,
        key.press && key.code == KeyCode::Enter,
    ensures
        ({
            let series = a.snapshot.series[a.at.selected - first];
            let b = pressed(a, key, env).app;
            &&& b.at == (NavView {
                route: RouteView::MetricDetail { labels: series.labels@, query: a.active_query(), points: series.points@ },
                metric_cursor: (series.points@.len() - 1) as usize,
                ..a.at
            })
            &&& b.back.len() > 0 && b.back.last() == a.at
            &&& b.forward.len() == 0
            &&& b.metric_exemplars.len() == 0
        }),
{
    reveal(keys::ring_step);
    reveal(keys::view_step);
    reveal(keys::enter_step);
    reveal(tasks::exemplars_step);
    lemma_step(a, key, env);
    assert(a.selectable() == Some((first as usize, last as usize)));
}

/// Enter on the catalog shows what is selected: the queries become the query of the Metrics screen, one
/// on each line, and their results are asked for. The catalog is one step back.
pub proof fn law_enter_visualizes_the_selection(a: AppView, key: KeyEvent, env: Env, row: int)
    requires
        on_row(a, row),
        a.mode == Mode::Normal,
        key.press && key.code == KeyCode::Enter,
        a.visualize().len() > 0,
        !a.load.loading,
    ensures
        ({
            let b = pressed(a, key, env);
            &&& b.app.at == (NavView {
                query: a.at.query.update(1, text::join(a.visualize(), "\n"@)),
                scroll: 0,
                selected: 0,
                ..a.at
            })
            &&& b.app.back.len() > 0 && b.app.back.last() == a.at
            &&& asks_for(b.requests, Screen::Metrics, text::join(a.visualize(), "\n"@), a.at.log_correlation)
        }),
{
    reveal(keys::ring_step);
    reveal(keys::view_step);
    reveal(keys::enter_step);
    lemma_step(a, key, env);
    lemma_catalog_shown(a, row);
    let b = a.push_history().set_query(text::join(a.visualize(), "\n"@)).at_top();
    law_a_refresh_asks_for_what_is_shown(b, env, Refresh::Interactive);
    let s = keys::refresh(b, env);
    assert(keys::view_step(a, key, env) == s);
    lemma_asks_first(s, tasks::waterfall_step(s.app, env.options.ascii), b);
}

proof fn lemma_catalog_shown(a: AppView, row: int)
    requires
        on_row(a, row),
    ensures
        a.on_catalog(),
        a.selected_row() == Some(a.catalog.tree_rows[row]),
{
    reveal_with_fuel(text::trim_start, 1);
    reveal_with_fuel(text::trim_end, 1);
    assert(a.active_query() == a.at.query[1]);
    assert(text::trim(a.active_query()).len() == 0);
}

/// Space toggles the node of the catalog under the cursor. Opening a metric for the first time asks for
/// its dimensions, and nothing else of the catalog asks for anything.
pub proof fn law_space_toggles_the_node_under_the_cursor(a: AppView, key: KeyEvent, env: Env, row: int)
    requires
        on_row(a, row),
        a.mode == Mode::Normal,
        key.press && key.code == KeyCode::Char(' '),
    ensures
        ({
            let b = pressed(a, key, env);
            let asks = (a.catalog.tree_rows[row] matches TreeRowRef::Metric(mi) && !a.catalog.metric_tree[mi as int].expanded
                && a.catalog.metric_tree[mi as int].dims is None && !a.catalog.metric_tree[mi as int].loading);
            &&& b.app.catalog.metric_tree == a.toggle_node().catalog.metric_tree
            &&& b.app.catalog.tree_rows == a.toggle_node().catalog.tree_rows
            &&& asks ==> exists|i: int|
                0 <= i < b.requests.len() && (#[trigger] b.requests[i] matches RequestView::MetricDims { name, .. } && name
                    == a.catalog.metric_tree[crate::app::metric_of(a.catalog.tree_rows[row]) as int].name)
            &&& !asks ==> forall|i: int| 0 <= i < b.requests.len() ==> !(#[trigger] b.requests[i] is MetricDims)
        }),
{
    reveal(keys::char_step);
    reveal(keys::toggle_step);
    reveal(tasks::waterfall_step);
    lemma_char(a, key, env);
    lemma_catalog_shown(a, row);
    let s = keys::toggle_step(a, env);
    let b = pressed(a, key, env);
    if s.requests.len() > 0 {
        assert(b.requests[0] == s.requests[0]);
    }
}

/// `L` on a trace of the list, on a span of a trace and on an open span, and Enter on an open span, go to
/// the logs of that trace, or of that span alone; the view that was left is one step back.
pub proof fn law_l_goes_to_the_logs(a: AppView, key: KeyEvent, env: Env, c: CorrelationView)
    requires
        a.mode == Mode::Normal,
        a.at.query.len() == 4,
        on_pane(a),
        key.press,
        !a.load.loading,
        match a.at.route {
            RouteView::Traces => key.code == KeyCode::Char('L') && c.span_id is None && a.snapshot.table is None
                && a.snapshot.list_from is Some && (a.snapshot.list_from->0) <= a.at.selected < a.snapshot.lines.len()
                && a.snapshot.lines.len() <= usize::MAX && text::first_word(a.snapshot.lines[a.at.selected as int]) == Some(
                c.trace_id,
            ),
            RouteView::TraceDetail { detail } => key.code == KeyCode::Char('L') && a.at.span_cursor < detail.spans@.len()
                && c.trace_id == detail.trace_id@ && c.span_id == Some(detail.spans@[a.at.span_cursor as int].span_id@),
            RouteView::SpanDetail { trace_id, span } => (key.code == KeyCode::Char('L') || key.code == KeyCode::Enter)
                && c.trace_id == trace_id && c.span_id == Some(span.span_id@),
            _ => false,
        },
    ensures
        pressed(a, key, env).app.at.route == RouteView::Logs,
        pressed(a, key, env).app.at.log_correlation == Some(c),
        pressed(a, key, env).app.at.query == a.at.query,
        pressed(a, key, env).app.back.len() > 0 && pressed(a, key, env).app.back.last() == a.at,
        asks_for(pressed(a, key, env).requests, Screen::Logs, a.at.query[3], Some(c)),
{
    let b = a.drilling(c);
    law_a_switch_shows_the_screen(b, Screen::Logs, env);
    let s = keys::switch_step(b, Screen::Logs, env);
    if a.at.route == RouteView::Traces {
        reveal(keys::char_step);
        reveal(keys::trace_logs_step);
        lemma_char(a, key, env);
        assert(a.selectable() == Some((a.snapshot.list_from->0, (a.snapshot.lines.len() - 1) as usize)));
        assert(a.selected_trace() == Some(c.trace_id));
        assert(keys::char_step(a, 'L', env) == s);
        lemma_asks_more(
            s.requests,
            tasks::waterfall_step(s.app, env.options.ascii).requests,
            Screen::Logs,
            a.at.query[3],
            Some(c),
        );
    } else {
        reveal(keys::normal_step);
        reveal(keys::ring_step);
        reveal(keys::detail_step);
        reveal(keys::trace_key);
        reveal(keys::span_key);
        reveal(keys::span_logs_step);
        assert(a.span_correlation() == Some(c));
    }
}

/// Enter on an open log goes to its trace, and on a chart with exemplars to the trace of the nearest one:
/// the Traces screen opens with that trace in focus, to be opened once it lands.
pub proof fn law_enter_jumps_to_the_trace(a: AppView, key: KeyEvent, env: Env, id: Seq<char>)
    requires
        a.mode == Mode::Normal,
        a.at.query.len() == 4,
        on_pane(a),
        key.press && key.code == KeyCode::Enter,
        match a.at.route {
            RouteView::LogDetail { record } => record.trace_id is Some && (record.trace_id->0)@ == id,
            RouteView::MetricDetail { points, .. } => a.nearest_exemplar() == Some(id),
            _ => false,
        },
    ensures
        pressed(a, key, env).app.at.route == RouteView::Traces,
        pressed(a, key, env).app.at.focus_trace_id == Some(id),
        pressed(a, key, env).app.trace.focus_trace_open,
        pressed(a, key, env).app.at.query == a.at.query,
        pressed(a, key, env).app.back.len() > 0 && pressed(a, key, env).app.back.last() == a.at,
        !a.load.loading ==> asks_for(pressed(a, key, env).requests, Screen::Traces, a.at.query[2], None),
{
    law_a_switch_shows_the_screen(a.jumping(id), Screen::Traces, env);
    reveal(keys::normal_step);
    reveal(keys::ring_step);
    reveal(keys::detail_step);
    reveal(keys::log_key);
    reveal(keys::metric_key);
    reveal(keys::jump_step);
}

/// Whether the full-screen text of a log or of a span is shown.
pub open spec fn in_text(a: AppView) -> bool {
    a.mode == Mode::Normal && (a.at.route is LogDetail || a.at.route is SpanDetail)
}

/// The text of an open log or span scrolls by its keys, never past its ends. Nothing else changes.
pub proof fn law_an_open_text_scrolls_by_its_keys(a: AppView, key: KeyEvent, env: Env)
    requires
        in_text(a),
        a.at.scroll <= a.frame.max_scroll,
        key.press,
    ensures
        ({
            let at = a.at.scroll as int;
            let end = a.frame.max_scroll as int;
            let page = a.frame.page_rows as int;
            let left_at = |row: int|
                pressed(a, key, env) == (Step {
                    app: AppView { at: NavView { scroll: row as u16, ..a.at }, ..a },
                    requests: Seq::empty(),
                });
            &&& key.code == KeyCode::Down ==> left_at(if at + 1 <= end { at + 1 } else { end })
            &&& key.code == KeyCode::Up ==> left_at(if at >= 1 { at - 1 } else { 0 })
            &&& key.code == KeyCode::PageDown ==> left_at(if at + page <= end { at + page } else { end })
            &&& key.code == KeyCode::PageUp ==> left_at(if at >= page { at - page } else { 0 })
            &&& key.code == KeyCode::Home ==> left_at(0)
            &&& key.code == KeyCode::End ==> left_at(end)
        }),
{
    reveal(keys::normal_step);
    reveal(keys::ring_step);
    reveal(keys::detail_step);
    reveal(keys::log_key);
    reveal(keys::span_key);
    reveal(keys::scroll_key);
}

/// On the chart of a series with `n` points, `l` and Shift with Right move the cursor to the next point,
/// `h` and Shift with Left to the one before, PageDown and PageUp by a page, Home to the first point and
/// End to the last. Up and Down do nothing. Nothing else changes.
pub proof fn law_the_chart_cursor_moves_by_its_keys(a: AppView, key: KeyEvent, env: Env, n: int)
    requires
        a.mode == Mode::Normal,
        on_pane(a),
        a.at.route matches RouteView::MetricDetail { points, .. } && points.len() == n,
        0 <= a.at.metric_cursor < n <= usize::MAX,
        key.press,
    ensures
        ({
            let c = a.at.metric_cursor as int;
            let page = if a.frame.page_rows >= 1 { a.frame.page_rows as int } else { 1 };
            let left_on = |point: int|
                pressed(a, key, env) == (Step {
                    app: AppView { at: NavView { metric_cursor: point as usize, ..a.at }, ..a },
                    requests: Seq::empty(),
                });
            let right = key.code == KeyCode::Char('l') || (key.code == KeyCode::Right && key.shift);
            let left = key.code == KeyCode::Char('h') || (key.code == KeyCode::Left && key.shift);
            &&& right ==> left_on(if c + 1 < n { c + 1 } else { n - 1 })
            &&& left ==> left_on(if c >= 1 { c - 1 } else { 0 })
            &&& key.code == KeyCode::PageDown ==> left_on(if c + page < n { c + page } else { n - 1 })
            &&& key.code == KeyCode::PageUp ==> left_on(if c >= page { c - page } else { 0 })
            &&& key.code == KeyCode::Home ==> left_on(0)
            &&& key.code == KeyCode::End ==> left_on(n - 1)
            &&& key.code == KeyCode::Up || key.code == KeyCode::Down ==> left_on(c)
        }),
{
    reveal(keys::normal_step);
    reveal(keys::ring_step);
    reveal(keys::detail_step);
    reveal(keys::metric_key);
}

/// `p` in the attribute pane promotes the key under the cursor, or demotes it where it is promoted: asked
/// for are the promoted keys with it or without it, and no other key comes or goes. A session that may
/// not promote says so.
pub proof fn law_p_promotes_the_key_under_the_cursor(a: AppView, key: KeyEvent, env: Env, name: Seq<char>)
    requires
        on_list(a),
        a.effective_focus() is AttrTable,
        a.attr_key_at_cursor() == Some(name),
        key.press && key.code == KeyCode::Char('p'),
        forall|i: int, j: int|
            0 <= i < j < a.attrs.promoted.len() ==> #[trigger] a.attrs.promoted[i] != #[trigger] a.attrs.promoted[j],
    ensures
        a.attrs.can_promote ==> exists|i: int|
            0 <= i < pressed(a, key, env).requests.len() && (
            #[trigger] pressed(a, key, env).requests[i] matches RequestView::Promotion(keys) && keys.contains(name)
                == !a.attrs.promoted.contains(name) && forall|x: Seq<char>|
                x != name ==> #[trigger] keys.contains(x) == a.attrs.promoted.contains(x)),
        !a.attrs.can_promote ==> pressed(a, key, env).app.load.last_error is Some && forall|i: int|
            0 <= i < pressed(a, key, env).requests.len() ==> !(#[trigger] pressed(a, key, env).requests[i] is Promotion),
{
    reveal(keys::char_step);
    reveal(keys::promotion_step);
    reveal(tasks::waterfall_step);
    lemma_char(a, key, env);
    let s = keys::promotion_step(a);
    if a.attrs.can_promote {
        assert(pressed(a, key, env).requests[0] == s.requests[0]);
        assert(s.requests[0] == RequestView::Promotion(keys::flip(a.attrs.promoted, name, 0)));
        lemma_flip(a.attrs.promoted, name, 0);
    }
}

proof fn lemma_flip(keys: Seq<Seq<char>>, key: Seq<char>, i: int)
    requires
        0 <= i <= keys.len(),
        forall|j: int| 0 <= j < i ==> #[trigger] keys[j] != key,
        forall|x: int, y: int| 0 <= x < y < keys.len() ==> #[trigger] keys[x] != #[trigger] keys[y],
    ensures
        keys::flip(keys, key, i).contains(key) == !keys.contains(key),
        forall|x: Seq<char>| x != key ==> #[trigger] keys::flip(keys, key, i).contains(x) == keys.contains(x),
    decreases keys.len() - i,
{
    let all = keys::flip(keys, key, i);
    if i == keys.len() {
        assert(!keys.contains(key));
        assert(all[keys.len() as int] == key);
        assert forall|x: Seq<char>| x != key implies #[trigger] all.contains(x) == keys.contains(x) by {
            if keys.contains(x) {
                let k = choose|k: int| 0 <= k < keys.len() && keys[k] == x;
                assert(all[k] == x);
            }
            if all.contains(x) {
                let k = choose|k: int| 0 <= k < all.len() && all[k] == x;
                assert(keys[k] == x);
            }
        }
    } else if keys[i] == key {
        assert(keys.contains(key));
        assert forall|k: int| 0 <= k < all.len() implies #[trigger] all[k] == keys[if k < i { k } else { k + 1 }] by {
        }
        if all.contains(key) {
            let k = choose|k: int| 0 <= k < all.len() && all[k] == key;
            assert(keys[if k < i { k } else { k + 1 }] == key);
        }
        assert forall|x: Seq<char>| x != key implies #[trigger] all.contains(x) == keys.contains(x) by {
            if keys.contains(x) {
                let k = choose|k: int| 0 <= k < keys.len() && keys[k] == x;
                assert(k != i);
                assert(all[if k < i { k } else { k - 1 }] == x);
            }
            if all.contains(x) {
                let k = choose|k: int| 0 <= k < all.len() && all[k] == x;
                assert(keys[if k < i { k } else { k + 1 }] == x);
            }
        }
    } else {
        lemma_flip(keys, key, i + 1);
    }
}

} // verus!
