//! Keys outside every overlay: where a press of them leaves the cursor, and what it opens.

use vstd::prelude::*;

use crate::app::AppView;
use crate::app::TraceView;
use crate::input::{KeyCode, KeyEvent};
use crate::keys;
use crate::model;
use crate::model::{CorrelationView, Focus, Mode, NavView, Refresh, RouteView, Screen};
use crate::tasks;
use crate::tasks::{Env, RequestView, Step};

verus! {

/// What a press of a key does.
pub open spec fn pressed(a: AppView, key: KeyEvent, env: Env) -> Step {
    keys::key_step(a, key, env).0
}

/// Whether the view is the list of a screen, outside every overlay.
pub open spec fn on_list(a: AppView) -> bool {
    &&& a.mode == Mode::Normal
    &&& a.at.route == RouteView::Overview || a.at.route == RouteView::Metrics || a.at.route == RouteView::Traces || a.at.route
        == RouteView::Logs
}

/// Whether the rows `first` to `last` of the shown list or table can be selected.
pub open spec fn rows(a: AppView, first: int, last: int) -> bool {
    &&& on_list(a)
    &&& !(a.focus is AttrTable)
    &&& 0 <= first <= last <= usize::MAX
    &&& match a.snapshot.table {
        Some(table) => first == 0 && last == table.rows.len() - 1,
        None => a.snapshot.list_from == Some(first as usize) && last == a.snapshot.lines.len() - 1,
    }
}

/// Whether the view is a text that is no list.
pub open spec fn is_text(a: AppView) -> bool {
    &&& on_list(a)
    &&& !(a.focus is AttrTable)
    &&& a.snapshot.table is None
    &&& a.snapshot.list_from is None
}

pub proof fn lemma_waterfall(a: AppView, ascii: bool)
    ensures
        tasks::waterfall_step(a, ascii).app == (AppView { trace: tasks::waterfall_step(a, ascii).app.trace, ..a }),
        tasks::waterfall_step(a, ascii).app.trace.focus_trace_open == a.trace.focus_trace_open,
{
    reveal(tasks::waterfall_step);
}

pub proof fn lemma_view(a: AppView, key: KeyEvent, env: Env)
    requires
        key.press,
        a.mode == Mode::Normal,
        keys::ring_step(a, key, env) is None,
        keys::detail_step(a, key, env) is None,
        key.code != KeyCode::Char('q'),
    ensures
        pressed(a, key, env).app == (AppView { trace: pressed(a, key, env).app.trace, ..keys::view_step(a, key, env).app }),
        pressed(a, key, env) == keys::view_step(a, key, env).and(
            tasks::waterfall_step(keys::view_step(a, key, env).app, env.options.ascii),
        ),
{
    reveal(keys::normal_step);
    lemma_waterfall(keys::view_step(a, key, env).app, env.options.ascii);
}

pub proof fn lemma_no_detail(a: AppView, key: KeyEvent, env: Env)
    requires
        on_list(a),
    ensures
        keys::detail_step(a, key, env) is None,
{
    reveal(keys::detail_step);
}

proof fn lemma_move(a: AppView, key: KeyEvent, env: Env)
    requires
        on_list(a),
        key.press,
        key.code == KeyCode::Down || key.code == KeyCode::Up || key.code == KeyCode::PageDown || key.code == KeyCode::PageUp
            || key.code == KeyCode::Home || key.code == KeyCode::End,
    ensures
        pressed(a, key, env).app == (AppView { trace: pressed(a, key, env).app.trace, ..keys::view_step(a, key, env).app }),
        keys::view_step(a, key, env).app == (match key.code {
            KeyCode::Down => a.move_selection(1),
            KeyCode::Up => a.move_selection(-1),
            KeyCode::PageDown => a.move_selection(a.frame.page_rows as int),
            KeyCode::PageUp => a.move_selection(-(a.frame.page_rows as int)),
            KeyCode::Home => a.select_first(),
            _ => a.select_last(),
        }),
{
    reveal(keys::ring_step);
    reveal(keys::view_step);
    lemma_no_detail(a, key, env);
    lemma_view(a, key, env);
}

/// On a list whose selectable rows are `first` to `last`, with the cursor on row `i`, Down leaves it on
/// the next row and Up on the one before, PageDown and PageUp a page further, Home on the first row and
/// End on the last; at the edges the cursor stays. Nothing else of the view moves, but for a trace that
/// was focused by a jump, which is let go.
pub proof fn law_the_row_cursor_moves_by_its_keys(a: AppView, key: KeyEvent, env: Env, first: int, last: int)
    requires
        rows(a, first, last),
        first <= a.at.selected <= last,
        key.press,
    ensures
        ({
            let i = a.at.selected as int;
            let page = a.frame.page_rows as int;
            let b = pressed(a, key, env).app;
            let left_on = |row: int|
                b == (AppView {
                    at: NavView { selected: row as usize, focus_trace_id: None, ..a.at },
                    trace: b.trace,
                    ..a
                }) && b.at.selected == row;
            &&& key.code == KeyCode::Down ==> left_on(if i + 1 <= last { i + 1 } else { last })
            &&& key.code == KeyCode::Up ==> left_on(if i - 1 >= first { i - 1 } else { first })
            &&& key.code == KeyCode::PageDown ==> left_on(if i + page <= last { i + page } else { last })
            &&& key.code == KeyCode::PageUp ==> left_on(if i - page >= first { i - page } else { first })
            &&& key.code == KeyCode::Home ==> left_on(first)
            &&& key.code == KeyCode::End ==> left_on(last)
        }),
{
    if key.code == KeyCode::Down || key.code == KeyCode::Up || key.code == KeyCode::PageDown || key.code == KeyCode::PageUp
        || key.code == KeyCode::Home || key.code == KeyCode::End {
        lemma_move(a, key, env);
        let c = a.clear_trace_focus();
        assert(c.selectable() == Some((first as usize, last as usize)));
        assert(!(c.effective_focus() is AttrTable));
    }
}

/// Down and Up undo each other, but at the edges.
pub proof fn law_down_and_up_undo_each_other(a: AppView, down: KeyEvent, up: KeyEvent, env: Env, first: int, last: int)
    requires
        rows(a, first, last),
        first <= a.at.selected <= last,
        down.press && down.code == KeyCode::Down,
        up.press && up.code == KeyCode::Up,
    ensures
        a.at.selected < last ==> pressed(pressed(a, down, env).app, up, env).app.at.selected == a.at.selected,
        a.at.selected > first ==> pressed(pressed(a, up, env).app, down, env).app.at.selected == a.at.selected,
{
    law_the_row_cursor_moves_by_its_keys(a, down, env, first, last);
    law_the_row_cursor_moves_by_its_keys(a, up, env, first, last);
    law_the_row_cursor_moves_by_its_keys(pressed(a, down, env).app, up, env, first, last);
    law_the_row_cursor_moves_by_its_keys(pressed(a, up, env).app, down, env, first, last);
}

/// On a text that is no list the same keys scroll it, never past its ends.
pub proof fn law_a_text_scrolls_by_its_keys(a: AppView, key: KeyEvent, env: Env)
    requires
        is_text(a),
        a.at.scroll <= a.frame.max_scroll,
        a.frame.page_rows < 0x1_0000,
        key.press,
    ensures
        ({
            let at = a.at.scroll as int;
            let end = a.frame.max_scroll as int;
            let page = a.frame.page_rows as int;
            let b = pressed(a, key, env).app;
            let left_at = |row: int|
                b == (AppView { at: NavView { scroll: row as u16, focus_trace_id: None, ..a.at }, trace: b.trace, ..a })
                    && b.at.scroll == row;
            &&& key.code == KeyCode::Down ==> left_at(if at + 1 <= end { at + 1 } else { end })
            &&& key.code == KeyCode::Up ==> left_at(if at >= 1 { at - 1 } else { 0 })
            &&& key.code == KeyCode::PageDown ==> left_at(if at + page <= end { at + page } else { end })
            &&& key.code == KeyCode::PageUp ==> left_at(if at >= page { at - page } else { 0 })
            &&& key.code == KeyCode::Home ==> left_at(0)
            &&& key.code == KeyCode::End ==> left_at(end)
        }),
{
    if key.code == KeyCode::Down || key.code == KeyCode::Up || key.code == KeyCode::PageDown || key.code == KeyCode::PageUp
        || key.code == KeyCode::Home || key.code == KeyCode::End {
        lemma_move(a, key, env);
        let c = a.clear_trace_focus();
        assert(c.selectable() is None);
        assert(!(c.effective_focus() is AttrTable));
    }
}

/// In the attribute pane the cursor moves from key to key: Down and Up go to the next key row of the
/// section and to the one before it, passing over everything that is no key.
pub proof fn law_the_attribute_cursor_moves_from_key_to_key(a: AppView, key: KeyEvent, env: Env, section: int, k: int)
    requires
        on_list(a),
        a.effective_focus() == Focus::AttrTable(section as usize),
        0 <= section <= usize::MAX,
        a.attr_table() matches Some(table) && table.kinds@.len() <= usize::MAX && table.data.rows@.len() <= usize::MAX,
        0 <= k < a.attr_keys(section).len(),
        a.at.selected == a.attr_keys(section)[k],
        key.press,
    ensures
        key.code == KeyCode::Down && k + 1 < a.attr_keys(section).len() ==> pressed(a, key, env).app.at.selected == a.attr_keys(
            section,
        )[k + 1],
        key.code == KeyCode::Up && k > 0 ==> pressed(a, key, env).app.at.selected == a.attr_keys(section)[k - 1],
        key.code == KeyCode::Home ==> pressed(a, key, env).app.at.selected == a.attr_keys(section)[0],
        key.code == KeyCode::End ==> pressed(a, key, env).app.at.selected == a.attr_keys(section).last(),
        key.code == KeyCode::Down && k + 1 == a.attr_keys(section).len() && section + 1 < a.attr_sections().len() && a.attr_keys(
            section + 1,
        ).len() > 0 ==> pressed(a, key, env).app.focus == Focus::AttrTable((section + 1) as usize) && pressed(
            a,
            key,
            env,
        ).app.at.selected == a.attr_keys(section + 1)[0],
        key.code == KeyCode::Up && k == 0 && section > 0 && a.attr_keys(section - 1).len() > 0 ==> pressed(a, key, env).app.focus
            == Focus::AttrTable((section - 1) as usize) && pressed(a, key, env).app.at.selected == a.attr_keys(
            section - 1,
        ).last(),
{
    if key.code == KeyCode::Down || key.code == KeyCode::Up || key.code == KeyCode::Home || key.code == KeyCode::End {
        lemma_move(a, key, env);
        let c = a.clear_trace_focus();
        let keys = a.attr_keys(section);
        let table = a.attr_table()->0;
        assert(c.effective_focus() == a.effective_focus());
        assert(c.attr_table() == a.attr_table());
        assert(c.attr_sections() == a.attr_sections());
        assert forall|i: int| c.attr_keys(i) == #[trigger] a.attr_keys(i) by {
        }
        assert(c.attr_keys(section) == keys);
        let starts = a.attr_sections();
        crate::app::attributes::law_section_rows_are_the_titles(table.kinds@, table.kinds@.len());
        assert(0 <= section < starts.len());
        let end = if section + 1 < starts.len() { starts[section + 1] as int } else { table.data.rows@.len() as int };
        crate::app::attributes::law_key_rows_are_the_keys(table, starts[section] as int, end);
        lemma_at_least(keys, k, 0);
        reveal_with_fuel(AppView::keyed_section, 1);
        if key.code == KeyCode::Down && section + 1 < starts.len() {
            assert(c.attr_keys(section + 1) == a.attr_keys(section + 1));
        }
        if key.code == KeyCode::Up && section > 0 {
            assert(c.attr_keys(section - 1) == a.attr_keys(section - 1));
        }
    }
}

proof fn lemma_at_least(keys: Seq<usize>, k: int, i: int)
    requires
        0 <= i <= k < keys.len(),
        forall|x: int, y: int| 0 <= x < y < keys.len() ==> keys[x] < keys[y],
    ensures
        crate::app::attributes::first_at_least(keys, keys[k], i) == Some(k),
    decreases k - i,
{
    if i < k {
        lemma_at_least(keys, k, i + 1);
    }
}

/// Whether the detail of a trace with `n` spans is shown, the cursor on span `c`.
pub open spec fn in_trace(a: AppView, n: int, c: int) -> bool {
    &&& a.mode == Mode::Normal
    &&& a.at.route matches RouteView::TraceDetail { detail } && detail.spans@.len() == n
    &&& 0 <= c < n <= usize::MAX
    &&& a.at.span_cursor == c
}

proof fn lemma_trace(a: AppView, key: KeyEvent, env: Env, n: int, c: int)
    requires
        in_trace(a, n, c),
        key.press,
        keys::ring_step(a, key, env) is None,
        keys::trace_key(a, n, key, env) is Some,
    ensures
        pressed(a, key, env) == keys::trace_key(a, n, key, env)->0,
{
    reveal(keys::normal_step);
    reveal(keys::detail_step);
}

/// In the waterfall of a trace, Down moves the cursor to the next span and Up to the one before, PageDown
/// and PageUp by a page, Home to the first and End to the last span; at the ends it stays. Nothing else
/// changes and nothing is asked for.
pub proof fn law_the_span_cursor_moves_by_its_keys(a: AppView, key: KeyEvent, env: Env, n: int, c: int)
    requires
        in_trace(a, n, c),
        key.press,
    ensures
        ({
            let page = if a.frame.page_rows >= 1 { a.frame.page_rows as int } else { 1 };
            let s = pressed(a, key, env);
            let left_on = |span: int|
                s == (Step {
                    app: AppView { at: NavView { span_cursor: span as usize, ..a.at }, ..a },
                    requests: Seq::empty(),
                });
            &&& key.code == KeyCode::Down ==> left_on(if c + 1 < n { c + 1 } else { n - 1 })
            &&& key.code == KeyCode::Up ==> left_on(if c >= 1 { c - 1 } else { 0 })
            &&& key.code == KeyCode::PageDown ==> left_on(if c + page < n { c + page } else { n - 1 })
            &&& key.code == KeyCode::PageUp ==> left_on(if c >= page { c - page } else { 0 })
            &&& key.code == KeyCode::Home ==> left_on(0)
            &&& key.code == KeyCode::End ==> left_on(n - 1)
        }),
{
    reveal(keys::trace_key);
    reveal(keys::ring_step);
    if keys::ring_step(a, key, env) is None && keys::trace_key(a, n, key, env) is Some {
        lemma_trace(a, key, env, n, c);
    }
}

/// In the waterfall of a trace, `s` pins the ancestors of the cursor or lets them go, and changes nothing
/// else.
pub proof fn law_s_pins_the_ancestors(a: AppView, key: KeyEvent, env: Env, n: int, c: int)
    requires
        in_trace(a, n, c),
        key.press && key.code == KeyCode::Char('s'),
    ensures
        pressed(a, key, env) == (Step {
            app: AppView { trace: TraceView { sticky_waterfall: !a.trace.sticky_waterfall, ..a.trace }, ..a },
            requests: Seq::empty(),
        }),
{
    reveal(keys::trace_key);
    reveal(keys::ring_step);
    lemma_trace(a, key, env, n, c);
}

/// Whether the focus is on none of the stops that take Enter for themselves.
pub open spec fn on_pane(a: AppView) -> bool {
    a.focus == Focus::Primary
}

/// In the waterfall of a trace, Enter opens the span under the cursor from its top, and the trace is one
/// step back.
pub proof fn law_enter_opens_the_span_under_the_cursor(a: AppView, key: KeyEvent, env: Env, n: int, c: int)
    requires
        in_trace(a, n, c),
        on_pane(a),
        key.press && key.code == KeyCode::Enter,
    ensures
        a.at.route matches RouteView::TraceDetail { detail } && pressed(a, key, env).app.at == (NavView {
            route: RouteView::SpanDetail { trace_id: detail.trace_id@, span: detail.spans@[c] },
            scroll: 0,
            ..a.at
        }),
        pressed(a, key, env).app.back.last() == a.at,
        pressed(a, key, env).app.back.len() > 0,
        pressed(a, key, env).app.forward.len() == 0,
        pressed(a, key, env).requests.len() == 0,
{
    reveal(keys::trace_key);
    reveal(keys::ring_step);
    lemma_trace(a, key, env, n, c);
}

/// Whether the requests hold one for the results of a screen with its query and correlation.
pub open spec fn asks_for(requests: Seq<RequestView>, of: Screen, what: Seq<char>, logs_of: Option<CorrelationView>) -> bool {
    exists|i: int|
        0 <= i < requests.len() && (#[trigger] requests[i] matches RequestView::Refresh { screen, query, correlation, .. }
            && screen == of && query == what && correlation == logs_of)
}

/// Asking for a fresh result leaves the view as it is, and asks for the results of the screen that is
/// shown with its own query, restricted as its logs are.
pub proof fn law_a_refresh_asks_for_what_is_shown(a: AppView, env: Env, origin: Refresh)
    ensures
        ({
            let s = tasks::refresh_step(a, origin, env);
            &&& s.app == (AppView { load: s.app.load, paging: s.app.paging, ..a })
            &&& !a.load.loading ==> s.requests.len() > 0 && asks_for(
                s.requests,
                a.screen(),
                a.active_query(),
                a.at.log_correlation,
            )
            &&& !a.load.loading ==> (s.requests.last() matches RequestView::Refresh { generation, options, .. } && generation
                == s.app.load.generation && options.window == a.range.abs_window && options.lookback.nanos
                == crate::model::range_secs(a.range.range_index as int).0 * 1_000_000_000 && options.step.nanos
                == crate::model::range_secs(a.range.range_index as int).1 * 1_000_000_000 && options.max_series
                == env.options.max_series && options.max_rows == env.options.max_rows)
            &&& a.load.loading ==> s.requests.len() == 0 && s.app.load.pending_refresh is Some
        }),
{
    reveal(tasks::refresh_step);
    let s = tasks::refresh_step(a, origin, env);
    if !a.load.loading {
        let q = s.requests.last();
        assert(s.requests[s.requests.len() - 1] == q);
        assert(q matches RequestView::Refresh { screen, query, correlation, .. } && screen == a.screen() && query
            == a.active_query() && correlation == a.at.log_correlation);
    }
}

pub proof fn lemma_asks_more(a: Seq<RequestView>, b: Seq<RequestView>, of: Screen, what: Seq<char>, c: Option<CorrelationView>)
    requires
        asks_for(a, of, what, c) || asks_for(b, of, what, c),
    ensures
        asks_for(a + b, of, what, c),
{
    if asks_for(a, of, what, c) {
        let i = choose|i: int|
            0 <= i < a.len() && (#[trigger] a[i] matches RequestView::Refresh { screen, query, correlation, .. } && screen == of
                && query == what && correlation == c);
        assert((a + b)[i] == a[i]);
    } else {
        let i = choose|i: int|
            0 <= i < b.len() && (#[trigger] b[i] matches RequestView::Refresh { screen, query, correlation, .. } && screen == of
                && query == what && correlation == c);
        assert((a + b)[a.len() + i] == b[i]);
    }
}

/// Switching to a screen shows its list from the top, with nothing focused but the pane, and asks for its
/// own query. What restricts the logs goes with the Logs screen only, and what focuses a trace with the
/// Traces screen only.
pub proof fn law_a_switch_shows_the_screen(a: AppView, screen: Screen, env: Env)
    requires
        a.at.query.len() == 4,
    ensures
        ({
            let s = keys::switch_step(a, screen, env);
            &&& s.app.at == (NavView {
                route: match screen {
                    Screen::Overview => RouteView::Overview,
                    Screen::Metrics => RouteView::Metrics,
                    Screen::Traces => RouteView::Traces,
                    Screen::Logs => RouteView::Logs,
                },
                scroll: 0,
                selected: 0,
                span_cursor: 0,
                focus_trace_id: if screen == Screen::Traces { a.at.focus_trace_id } else { None },
                log_correlation: if screen == Screen::Logs { a.at.log_correlation } else { None },
                ..a.at
            })
            &&& s.app.focus == Focus::Primary
            &&& s.app.mode == a.mode
            &&& s.app.back == a.back
            &&& s.app.forward == a.forward
            &&& s.app.range == a.range
            &&& s.app.trace.focus_trace_open == (screen == Screen::Traces && a.trace.focus_trace_open)
            &&& !s.app.trace.pending_trace_open
            &&& s.app.snapshot.table is None && s.app.snapshot.lines == seq!["Loading..."@]
            &&& !a.load.loading ==> asks_for(
                s.requests,
                screen,
                a.at.query[match screen {
                    Screen::Overview => 0,
                    Screen::Metrics => 1,
                    Screen::Traces => 2,
                    Screen::Logs => 3,
                }],
                if screen == Screen::Logs { a.at.log_correlation } else { None },
            )
            &&& screen == Screen::Metrics && a.words.metric_names.len() == 0 <==> s.requests.contains(RequestView::Vocabulary)
        }),
{
    reveal(keys::switch_step);
    let b = a.on_screen(screen);
    law_a_refresh_asks_for_what_is_shown(b, env, Refresh::Interactive);
    let first = keys::vocabulary_step(b).requests;
    let second = keys::refresh(b, env).requests;
    if !a.load.loading {
        lemma_asks_more(first, second, b.screen(), b.active_query(), b.at.log_correlation);
    }
    let all = first + second;
    assert forall|i: int| 0 <= i < second.len() implies second[i] != RequestView::Vocabulary by {
        reveal(tasks::refresh_step);
    }
    if first.len() > 0 {
        assert(all[0] == RequestView::Vocabulary);
    }
    if all.contains(RequestView::Vocabulary) {
        let i = choose|i: int| 0 <= i < all.len() && all[i] == RequestView::Vocabulary;
        if i >= first.len() {
            assert(all[i] == second[i - first.len()]);
        }
    }
}

/// The digits 1 to 4 go to Overview, Metrics, Traces and Logs; from another screen, with the view that
/// was left one step back.
pub proof fn law_digits_switch_screens(a: AppView, key: KeyEvent, env: Env, screen: Screen)
    requires
        on_list(a),
        a.at.query.len() == 4,
        key.press,
        key.code == KeyCode::Char(
            match screen {
                Screen::Overview => '1',
                Screen::Metrics => '2',
                Screen::Traces => '3',
                Screen::Logs => '4',
            },
        ),
    ensures
        pressed(a, key, env).app.screen() == screen,
        pressed(a, key, env).app.at.selected == 0,
        !model::detail_route(pressed(a, key, env).app.at.route),
        a.screen() != screen ==> pressed(a, key, env).app.back.len() > 0 && pressed(a, key, env).app.back.last() == a.at
            && pressed(a, key, env).app.forward.len() == 0,
        a.screen() == screen ==> pressed(a, key, env).app.back == a.back && pressed(a, key, env).app.forward == a.forward,
        !a.load.loading ==> asks_for(
            pressed(a, key, env).requests,
            screen,
            a.at.query[match screen {
                Screen::Overview => 0,
                Screen::Metrics => 1,
                Screen::Traces => 2,
                Screen::Logs => 3,
            }],
            if screen == Screen::Logs { a.at.log_correlation } else { None },
        ),
{
    lemma_char(a, key, env);
    reveal(keys::char_step);
    reveal(keys::navigate_step);
    let b = if a.screen() != screen { a.push_history() } else { a };
    law_a_switch_shows_the_screen(b, screen, env);
    let s = keys::navigate_step(a, screen, env);
    if !a.load.loading {
        lemma_asks_more(
            s.requests,
            tasks::waterfall_step(s.app, env.options.ascii).requests,
            screen,
            a.at.query[match screen {
                Screen::Overview => 0,
                Screen::Metrics => 1,
                Screen::Traces => 2,
                Screen::Logs => 3,
            }],
            if screen == Screen::Logs { a.at.log_correlation } else { None },
        );
    }
}

pub proof fn lemma_char(a: AppView, key: KeyEvent, env: Env)
    requires
        on_list(a),
        key.press,
        key.code matches KeyCode::Char(c) && c != 'q',
    ensures
        pressed(a, key, env).app == (AppView {
            trace: pressed(a, key, env).app.trace,
            ..keys::char_step(a, key.code->Char_0, env).app
        }),
        pressed(a, key, env) == keys::char_step(a, key.code->Char_0, env).and(
            tasks::waterfall_step(keys::char_step(a, key.code->Char_0, env).app, env.options.ascii),
        ),
{
    reveal(keys::ring_step);
    reveal(keys::view_step);
    lemma_no_detail(a, key, env);
    lemma_view(a, key, env);
}

} // verus!
