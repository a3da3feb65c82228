//! Keys of the query editor, of the range picker, of the form for a window, of the menu bar and of the
//! focus ring.

use vstd::prelude::*;

use crate::app::{AppView, TimeView};
use crate::completion;
use crate::completion::CandidateKind;
use crate::input::{KeyCode, KeyEvent};
use crate::keys;
use crate::laws::keys::{
    asks_for, law_a_refresh_asks_for_what_is_shown, law_a_switch_shows_the_screen, on_list, pressed,
};
use crate::model;
use crate::model::{AbsTarget, Focus, Mode, NavView, Refresh, RouteView, Screen};
use crate::tasks;
use crate::tasks::{Env, Step};
use crate::text;
use crate::textfield;
use crate::textfield::FieldView;
use crate::time;

verus! {

/// The query in front of the caret, and the query behind it.
pub open spec fn around_caret(a: AppView) -> (Seq<char>, Seq<char>) {
    (a.before_caret(), a.active_query().skip(a.caret()))
}

proof fn lemma_discover(a: AppView, env: Env)
    ensures
        ({
            let b = tasks::discover_step(a, env).app;
            b.at == a.at && b.query_cursor == a.query_cursor && b.mode == a.mode && b.focus == a.focus && b.words.completion
                == a.words.completion && b.back == a.back && b.range == a.range
        }),
{
    reveal(tasks::discover_step);
}

proof fn lemma_edit(a: AppView, key: KeyEvent, env: Env, g: FieldView)
    requires
        a.mode == Mode::Editing,
        a.at.query.len() == 4,
        key.press,
        !(key.code is Esc || key.code is Enter || key.code is Tab || key.code is Down || key.code is Up),
        textfield::edited(FieldView { text: a.active_query(), at: a.caret() }, key) == Some(g),
        g.wf(),
        text::byte_len(g.text) <= usize::MAX,
        !(key.code is Backspace && a.caret() == 0),
        !((key.code is Delete || (key.code == KeyCode::Char('d') && key.ctrl)) && a.caret() == a.active_query().len()),
    ensures
        pressed(a, key, env).app.active_query() == g.text,
        pressed(a, key, env).app.caret() == g.at,
        pressed(a, key, env).app.mode == Mode::Editing,
        pressed(a, key, env).app.at == (NavView {
            query: a.at.query.update(model::screen_index(a.screen()), g.text),
            ..a.at
        }),
{
    reveal(keys::editing_step);
    let b = a.edit_query(key)->0;
    lemma_discover(b.refresh_popup(), env);
    textfield::lemma_before_offset(g.text, g.at);
    text::lemma_byte_len_prefix(g.text, g.at, g.text.len() as int);
    assert(g.text.take(g.text.len() as int) =~= g.text);
}

/// A typed character stands in front of the caret afterwards, and the rest of the query is as it was.
pub proof fn law_a_typed_character_goes_in_at_the_caret(a: AppView, key: KeyEvent, env: Env, c: char)
    requires
        a.mode == Mode::Editing,
        a.at.query.len() == 4,
        key.press && key.code == KeyCode::Char(c) && !key.ctrl && !key.alt,
        text::byte_len(a.active_query()) + 4 <= usize::MAX,
    ensures
        around_caret(pressed(a, key, env).app) == (around_caret(a).0.push(c), around_caret(a).1),
        pressed(a, key, env).app.mode == Mode::Editing,
        pressed(a, key, env).app.at.route == a.at.route,
{
    crate::app::law_the_caret_is_inside_the_query(a);
    let k = a.caret();
    let q = a.active_query();
    let g = FieldView { text: q.insert(k, c), at: k + 1 };
    let (before, behind) = around_caret(a);
    assert(g.text =~= before.push(c) + behind);
    assert(q =~= before + behind);
    assert(before.push(c) =~= before + seq![c]);
    text::lemma_byte_len_concat(before, behind);
    text::lemma_byte_len_concat(before, seq![c]);
    text::lemma_byte_len_concat(before.push(c), behind);
    assert(seq![c].drop_last() =~= Seq::<char>::empty());
    reveal_with_fuel(text::byte_len, 2);
    lemma_edit(a, key, env, g);
    assert(g.text.take(k + 1) =~= before.push(c));
    assert(g.text.skip(k + 1) =~= behind);
}

/// Backspace takes the character in front of the caret away, and Delete the one behind it.
pub proof fn law_a_deleted_character_is_the_one_at_the_caret(a: AppView, key: KeyEvent, env: Env)
    requires
        a.mode == Mode::Editing,
        a.at.query.len() == 4,
        key.press,
        text::byte_len(a.active_query()) <= usize::MAX,
    ensures
        key.code == KeyCode::Backspace && around_caret(a).0.len() > 0 ==> around_caret(pressed(a, key, env).app) == (
            around_caret(a).0.drop_last(),
            around_caret(a).1,
        ),
        (key.code == KeyCode::Delete || (key.code == KeyCode::Char('d') && key.ctrl)) && around_caret(a).1.len() > 0
            ==> around_caret(pressed(a, key, env).app) == (around_caret(a).0, around_caret(a).1.drop_first()),
{
    crate::app::law_the_caret_is_inside_the_query(a);
    let k = a.caret();
    let q = a.active_query();
    let (before, behind) = around_caret(a);
    assert(q =~= before + behind);
    if key.code == KeyCode::Backspace && before.len() > 0 {
        let g = FieldView { text: q.remove(k - 1), at: k - 1 };
        assert(g.text =~= before.drop_last() + behind);
        lemma_without(q, k - 1);
        lemma_edit(a, key, env, g);
        assert(g.text.take(k - 1) =~= before.drop_last());
        assert(g.text.skip(k - 1) =~= behind);
    }
    if (key.code == KeyCode::Delete || (key.code == KeyCode::Char('d') && key.ctrl)) && behind.len() > 0 {
        let g = FieldView { text: q.remove(k), at: k };
        lemma_without(q, k);
        lemma_edit(a, key, env, g);
        assert(g.text.take(k) =~= before);
        assert(g.text.skip(k) =~= behind.drop_first());
    }
}

proof fn lemma_without(s: Seq<char>, i: int)
    requires
        0 <= i < s.len(),
    ensures
        text::byte_len(s.remove(i)) <= text::byte_len(s),
{
    let a = s.take(i);
    let b = s.skip(i + 1);
    assert(s.remove(i) =~= a + b);
    assert(s =~= (a + seq![s[i]]) + b);
    text::lemma_byte_len_concat(a, b);
    text::lemma_byte_len_concat(a, seq![s[i]]);
    text::lemma_byte_len_concat(a + seq![s[i]], b);
}

/// Left and Right move the caret over one character, Home and End to the ends of the query; the query
/// stays as it is.
pub proof fn law_the_caret_moves_by_its_keys(a: AppView, key: KeyEvent, env: Env)
    requires
        a.mode == Mode::Editing,
        a.at.query.len() == 4,
        key.press,
        text::byte_len(a.active_query()) <= usize::MAX,
    ensures
        ({
            let left = key.code == KeyCode::Left || (key.code == KeyCode::Char('b') && key.ctrl);
            let right = key.code == KeyCode::Right || (key.code == KeyCode::Char('f') && key.ctrl);
            let home = key.code == KeyCode::Home || (key.code == KeyCode::Char('a') && key.ctrl);
            let end = key.code == KeyCode::End || (key.code == KeyCode::Char('e') && key.ctrl);
            let b = pressed(a, key, env).app;
            let n = around_caret(a).0.len();
            &&& left || right || home || end ==> b.active_query() == a.active_query()
            &&& left && n > 0 ==> around_caret(b).0.len() == n - 1
            &&& right && n < a.active_query().len() ==> around_caret(b).0.len() == n + 1
            &&& home ==> around_caret(b).0.len() == 0
            &&& end ==> around_caret(b).0.len() == a.active_query().len()
        }),
{
    crate::app::law_the_caret_is_inside_the_query(a);
    let k = a.caret();
    let q = a.active_query();
    let f = FieldView { text: q, at: k };
    let left = key.code == KeyCode::Left || (key.code == KeyCode::Char('b') && key.ctrl);
    let right = key.code == KeyCode::Right || (key.code == KeyCode::Char('f') && key.ctrl);
    let home = key.code == KeyCode::Home || (key.code == KeyCode::Char('a') && key.ctrl);
    let end = key.code == KeyCode::End || (key.code == KeyCode::Char('e') && key.ctrl);
    if left || right || home || end {
        let g = textfield::edited(f, key)->0;
        textfield::law_editing_keeps_the_caret_inside(f, key);
        lemma_edit(a, key, env, g);
    }
}

/// Ctrl with `k` takes away what stands behind the caret, up to the end of its line.
pub proof fn law_a_kill_takes_the_rest_of_the_line(a: AppView, key: KeyEvent, env: Env, line: Seq<char>, rest: Seq<char>)
    requires
        a.mode == Mode::Editing,
        a.at.query.len() == 4,
        key.press && key.code == KeyCode::Char('k') && key.ctrl,
        text::byte_len(a.active_query()) <= usize::MAX,
        around_caret(a).1 == line + rest,
        line.len() > 0,
        !line.contains('\n'),
        rest.len() > 0 ==> rest[0] == '\n',
    ensures
        around_caret(pressed(a, key, env).app) == (around_caret(a).0, rest),
{
    crate::app::law_the_caret_is_inside_the_query(a);
    let k = a.caret();
    let q = a.active_query();
    let (before, behind) = around_caret(a);
    assert(q =~= before + behind);
    let f = FieldView { text: q, at: k };
    assert forall|i: int| k <= i < k + line.len() implies q[i] != '\n' by {
        assert(q[i] == behind[i - k]);
        assert(behind[i - k] == line[i - k]);
        assert(line.contains(line[i - k]));
    }
    if rest.len() > 0 {
        assert(q[k + line.len()] == behind[line.len() as int]);
        assert(behind[line.len() as int] == rest[0]);
    }
    lemma_line_end(q, k, k + line.len());
    let g = f.kill_to_end();
    assert(g.text =~= before + rest) by {
        assert(q.skip(k + line.len()) =~= rest);
    }
    text::lemma_byte_len_concat(before, behind);
    text::lemma_byte_len_concat(before, rest);
    text::lemma_byte_len_concat(line, rest);
    lemma_edit(a, key, env, g);
    assert(g.text.take(k) =~= before);
    assert(g.text.skip(k) =~= rest);
}

proof fn lemma_line_end(s: Seq<char>, k: int, end: int)
    requires
        0 <= k <= end <= s.len(),
        forall|i: int| k <= i < end ==> s[i] != '\n',
        end < s.len() ==> s[end] == '\n',
    ensures
        textfield::line_end(s, k) == end,
    decreases end - k,
{
    if k < end {
        lemma_line_end(s, k + 1, end);
    }
}

/// Enter in the editor runs the query: the editor closes, the list starts from its top, and the query's
/// results are asked for, over all logs again on the Logs screen.
pub proof fn law_enter_runs_the_query(a: AppView, key: KeyEvent, env: Env)
    requires
        a.mode == Mode::Editing,
        key.press && key.code == KeyCode::Enter,
        !a.load.loading,
    ensures
        ({
            let b = pressed(a, key, env);
            &&& b.app.mode == Mode::Normal
            &&& b.app.focus == Focus::Primary
            &&& b.app.words.completion is None
            &&& b.app.at == (NavView {
                selected: 0,
                scroll: 0,
                log_correlation: if a.screen() == Screen::Logs { None } else { a.at.log_correlation },
                ..a.at
            })
            &&& asks_for(b.requests, a.screen(), a.active_query(), b.app.at.log_correlation)
        }),
{
    reveal(keys::editing_step);
    let b = a.out_of_editor().at_top();
    let c = AppView {
        at: NavView {
            log_correlation: if b.screen() == Screen::Logs { None } else { b.at.log_correlation },
            ..b.at
        },
        focus: Focus::Primary,
        ..b
    };
    law_a_refresh_asks_for_what_is_shown(c, env, Refresh::Interactive);
}

/// Esc leaves the editor with the query as it was typed, and asks for nothing.
pub proof fn law_esc_leaves_the_editor(a: AppView, key: KeyEvent, env: Env)
    requires
        a.mode == Mode::Editing,
        key.press && key.code == KeyCode::Esc,
    ensures
        pressed(a, key, env).app.mode == Mode::Normal,
        pressed(a, key, env).app.words.completion is None,
        pressed(a, key, env).app.at == a.at,
        pressed(a, key, env).requests.len() == 0,
{
    reveal(keys::editing_step);
}

/// Down highlights the next suggestion and Up the one before; at the ends the highlight stays. The query
/// and the suggestions stay as they are.
pub proof fn law_the_highlight_moves_by_its_keys(a: AppView, key: KeyEvent, env: Env)
    requires
        a.mode == Mode::Editing,
        key.press,
        a.words.completion matches Some(c) && c.selected < c.candidates.len() <= usize::MAX,
    ensures
        ({
            let c = a.words.completion->0;
            let n = c.candidates.len();
            let s = c.selected as int;
            let b = pressed(a, key, env).app;
            &&& key.code == KeyCode::Down ==> (b.words.completion matches Some(d) && d.candidates == c.candidates && d.selected
                == if s + 1 < n { s + 1 } else { n - 1 })
            &&& key.code == KeyCode::Up ==> (b.words.completion matches Some(d) && d.candidates == c.candidates && d.selected
                == if s >= 1 { s - 1 } else { 0 })
            &&& key.code == KeyCode::Down || key.code == KeyCode::Up ==> b.at == a.at && b.mode == Mode::Editing
        }),
{
    reveal(keys::editing_step);
}

/// Tab puts the highlighted suggestion in place of the token in front of the caret, with an opening
/// bracket where it is a function; the caret stands behind it, and the rest of the query is as it was.
pub proof fn law_tab_accepts_the_suggestion(a: AppView, key: KeyEvent, env: Env)
    requires
        a.mode == Mode::Editing,
        a.at.query.len() == 4,
        key.press && key.code == KeyCode::Tab,
        a.words.completion matches Some(c) && c.selected < c.candidates.len(),
        ({
            let c = a.words.completion->0;
            text::byte_len(a.active_query()) + text::byte_len(c.candidates[c.selected as int].text) + 1 <= usize::MAX
        }),
    ensures
        ({
            let c = a.words.completion->0;
            let chosen = c.candidates[c.selected as int];
            let (before, behind) = around_caret(a);
            let token = completion::token_of(before);
            around_caret(pressed(a, key, env).app) == (
                before.take(before.len() - token.len()) + chosen.text + (if chosen.kind == CandidateKind::Function {
                    "("@
                } else {
                    Seq::empty()
                }),
                behind,
            )
        }),
        pressed(a, key, env).app.mode == Mode::Editing,
{
    reveal(keys::editing_step);
    crate::app::law_the_caret_is_inside_the_query(a);
    completion::law_the_token_ends_the_text(a.before_caret());
    lemma_discover(a.accept(), env);
    let c = a.words.completion->0;
    let chosen = c.candidates[c.selected as int];
    let (before, behind) = around_caret(a);
    let token = completion::token_of(before);
    let kept = before.take(before.len() - token.len());
    let sign = if chosen.kind == CandidateKind::Function { "("@ } else { Seq::empty() };
    let head = kept + chosen.text + sign;
    reveal_strlit("(");
    assert(a.active_query() =~= before + behind);
    text::lemma_byte_len_concat(before, behind);
    text::lemma_byte_len_prefix(before, kept.len() as int, before.len() as int);
    assert(before.take(before.len() as int) =~= before);
    text::lemma_byte_len_concat(kept, chosen.text);
    text::lemma_byte_len_concat(kept + chosen.text, sign);
    assert(text::byte_len(sign) <= 1) by {
        reveal_with_fuel(text::byte_len, 2);
        if chosen.kind == CandidateKind::Function {
            assert(sign.drop_last() =~= Seq::<char>::empty());
        }
    }
    let query = head + behind;
    assert(query.take(head.len() as int) =~= head);
    assert(query.skip(head.len() as int) =~= behind);
    textfield::lemma_before_offset(query, head.len() as int);
}

/// In the range picker Up and `k` move to the row above, Down and `j` to the row below; at the ends the
/// highlight stays. The window in effect stays as it is.
pub proof fn law_the_range_picker_moves_by_its_keys(a: AppView, key: KeyEvent, env: Env)
    requires
        a.mode == Mode::TimeRange,
        a.range.range_cursor <= 8,
        key.press,
    ensures
        ({
            let c = a.range.range_cursor as int;
            let left_on = |row: int|
                pressed(a, key, env) == (Step {
                    app: AppView { range: TimeView { range_cursor: row as usize, ..a.range }, ..a },
                    requests: Seq::empty(),
                });
            &&& key.code == KeyCode::Up || key.code == KeyCode::Char('k') ==> left_on(if c >= 1 { c - 1 } else { 0 })
            &&& key.code == KeyCode::Down || key.code == KeyCode::Char('j') ==> left_on(if c + 1 <= 8 { c + 1 } else { 8 })
        }),
{
    reveal(keys::range_step);
}

/// Esc closes the range picker, the form and the menu bar, and leaves the windows as they are.
pub proof fn law_esc_closes_the_overlay(a: AppView, key: KeyEvent, env: Env)
    requires
        a.mode == Mode::TimeRange || a.mode == Mode::AbsoluteRange || a.mode == Mode::Menu,
        key.press && key.code == KeyCode::Esc,
    ensures
        pressed(a, key, env) == (Step { app: AppView { mode: Mode::Normal, ..a }, requests: Seq::empty() }),
{
    reveal(keys::range_step);
    reveal(keys::form_step);
    reveal(keys::menu_step);
}

/// Enter in the range picker takes the highlighted preset, in place of any absolute window, and asks for
/// the results over it where it is another window than before. On the last row the form opens on the
/// window in effect.
pub proof fn law_enter_takes_the_highlighted_range(a: AppView, key: KeyEvent, env: Env)
    requires
        a.mode == Mode::TimeRange,
        key.press && key.code == KeyCode::Enter,
        a.range.range_cursor <= 8,
        !a.load.loading,
    ensures
        ({
            let b = pressed(a, key, env);
            &&& a.range.range_cursor < 8 ==> b.app.mode == Mode::Normal && b.app.range.range_index == a.range.range_cursor
                && b.app.range.abs_window is None
            &&& a.range.range_cursor < 8 && (a.range.range_cursor != a.range.range_index || a.range.abs_window is Some)
                ==> asks_for(b.requests, a.screen(), a.active_query(), a.at.log_correlation) && b.app.at == (NavView {
                selected: 0,
                scroll: 0,
                ..a.at
            })
            &&& a.range.range_cursor < 8 && a.range.range_cursor == a.range.range_index && a.range.abs_window is None
                ==> b.requests.len() == 0 && b.app.at == a.at
            &&& a.range.range_cursor == 8 ==> b.app.mode == Mode::AbsoluteRange && b.app.range.abs_target == AbsTarget::Query
                && b.app.range.abs_field == 0 && b.app.range.abs_error is None && b.requests.len() == 0
                && b.app.range.abs_window == a.range.abs_window
            &&& a.range.range_cursor == 8 && a.range.abs_window is Some ==> b.app.range.abs_start == time::datetime_text(
                (a.range.abs_window->0).0 as int,
            ) && b.app.range.abs_end == time::datetime_text((a.range.abs_window->0).1 as int)
            &&& a.range.range_cursor == 8 && a.range.abs_window is None ==> b.app.range.abs_end == time::datetime_text(
                env.wall_ns as int,
            )
        }),
{
    reveal(keys::range_step);
    reveal(keys::pick_step);
    let c = AppView {
        mode: Mode::Normal,
        range: TimeView { range_index: a.range.range_cursor, abs_window: None, ..a.range },
        ..a
    };
    law_a_refresh_asks_for_what_is_shown(c.at_top(), env, Refresh::Interactive);
}

/// The window in effect: an absolute one as it is set; else it ends now, and is as long as the preset.
pub proof fn law_the_window_in_effect(r: TimeView, now: i64)
    requires
        r.range_index < 8,
        now >= i64::MIN + 604_800_000_000_000,
    ensures
        r.abs_window matches Some(w) ==> r.window(now) == w,
        r.abs_window is None ==> r.window(now).1 == now && r.window(now).1 - r.window(now).0 == 1_000_000_000 * model::range_secs(
            r.range_index as int,
        ).0,
{
}

/// Whether the label names the length in seconds, in minutes, hours or days.
pub open spec fn names_length(label: Seq<char>, secs: nat) -> bool {
    ||| secs % 60 == 0 && label == text::dec(secs / 60) + "m"@
    ||| secs % 3_600 == 0 && label == text::dec(secs / 3_600) + "h"@
    ||| secs % 86_400 == 0 && label == text::dec(secs / 86_400) + "d"@
}

/// A preset is labelled by its length, the presets grow longer row by row, and a longer one has no
/// smaller step.
pub proof fn law_presets_are_labelled_by_their_length(i: int, j: int)
    requires
        0 <= i < j < 8,
    ensures
        names_length(model::range_label(i), model::range_secs(i).0),
        names_length(model::range_label(j), model::range_secs(j).0),
        model::range_secs(i).0 < model::range_secs(j).0,
        model::range_secs(i).1 <= model::range_secs(j).1,
        0 < 2 * model::range_secs(i).1 <= model::range_secs(i).0,
        model::range_secs(i).0 % model::range_secs(i).1 == 0,
{
    lemma_label(i);
    lemma_label(j);
}

proof fn lemma_label(i: int)
    requires
        0 <= i < 8,
    ensures
        names_length(model::range_label(i), model::range_secs(i).0),
{
    reveal_strlit("5m");
    reveal_strlit("15m");
    reveal_strlit("1h");
    reveal_strlit("3h");
    reveal_strlit("6h");
    reveal_strlit("12h");
    reveal_strlit("24h");
    reveal_strlit("7d");
    reveal_strlit("m");
    reveal_strlit("h");
    reveal_strlit("d");
    reveal_with_fuel(text::dec, 3);
    assert("5m"@ =~= text::dec(5) + "m"@);
    assert("15m"@ =~= text::dec(15) + "m"@);
    assert("1h"@ =~= text::dec(1) + "h"@);
    assert("3h"@ =~= text::dec(3) + "h"@);
    assert("6h"@ =~= text::dec(6) + "h"@);
    assert("12h"@ =~= text::dec(12) + "h"@);
    assert("24h"@ =~= text::dec(24) + "h"@);
    assert("7d"@ =~= text::dec(7) + "d"@);
}

/// In the form Tab goes to the other field, Up to the start and Down to the end, with the caret behind
/// its text; what the fields hold stays.
pub proof fn law_the_form_moves_between_its_fields(a: AppView, key: KeyEvent, env: Env)
    requires
        a.mode == Mode::AbsoluteRange,
        a.range.abs_field <= 1,
        key.press,
        text::byte_len(a.range.abs_start) <= usize::MAX,
        text::byte_len(a.range.abs_end) <= usize::MAX,
    ensures
        ({
            let in_start = (Step {
                app: AppView {
                    range: TimeView { abs_field: 0, abs_cursor: text::byte_len(a.range.abs_start) as usize, ..a.range },
                    ..a
                },
                requests: Seq::empty(),
            });
            let in_end = (Step {
                app: AppView {
                    range: TimeView { abs_field: 1, abs_cursor: text::byte_len(a.range.abs_end) as usize, ..a.range },
                    ..a
                },
                requests: Seq::empty(),
            });
            &&& key.code == KeyCode::Tab ==> pressed(a, key, env) == if a.range.abs_field == 0 { in_end } else { in_start }
            &&& key.code == KeyCode::Up ==> pressed(a, key, env) == in_start
            &&& key.code == KeyCode::Down ==> pressed(a, key, env) == in_end
        }),
{
    reveal(keys::form_step);
}

/// A character typed at the end of a field of the form goes behind its text, and the other field stays.
pub proof fn law_the_form_takes_what_is_typed(a: AppView, key: KeyEvent, env: Env, c: char)
    requires
        a.mode == Mode::AbsoluteRange,
        a.range.abs_field <= 1,
        key.press && key.code == KeyCode::Char(c) && !key.ctrl && !key.alt,
        a.range.abs_cursor == text::byte_len(if a.range.abs_field == 0 { a.range.abs_start } else { a.range.abs_end }),
    ensures
        a.range.abs_field == 0 ==> pressed(a, key, env).app.range.abs_start == a.range.abs_start.push(c) && pressed(
            a,
            key,
            env,
        ).app.range.abs_end == a.range.abs_end,
        a.range.abs_field == 1 ==> pressed(a, key, env).app.range.abs_end == a.range.abs_end.push(c) && pressed(
            a,
            key,
            env,
        ).app.range.abs_start == a.range.abs_start,
        pressed(a, key, env).app.range.abs_field == a.range.abs_field,
        pressed(a, key, env).app.mode == Mode::AbsoluteRange,
{
    reveal(keys::form_step);
    let s = if a.range.abs_field == 0 { a.range.abs_start } else { a.range.abs_end };
    assert(textfield::before(s, a.range.abs_cursor as int) == s.len());
    assert(s.insert(s.len() as int, c) =~= s.push(c));
}

/// Enter in the form takes the window that its fields spell, where the start is before the end: for the
/// queries, or for the attribute pane where the form was opened for that. The results over it are asked
/// for, from the top.
pub proof fn law_enter_takes_the_window_of_the_form(a: AppView, key: KeyEvent, env: Env, start: i64, end: i64)
    requires
        a.mode == Mode::AbsoluteRange,
        key.press && key.code == KeyCode::Enter,
        time::parsed_datetime(a.range.abs_start) == Some(start as int),
        time::parsed_datetime(a.range.abs_end) == Some(end as int),
        a.range.abs_start.len() > 0,
        start < end,
        !a.load.loading,
    ensures
        ({
            let b = pressed(a, key, env);
            &&& b.app.mode == Mode::Normal
            &&& b.app.range.abs_error is None
            &&& a.range.abs_target == AbsTarget::Query ==> b.app.range.abs_window == Some((start, end)) && b.app.range.attr_window
                == a.range.attr_window
            &&& a.range.abs_target == AbsTarget::Attributes ==> b.app.range.attr_window == Some((start, end))
                && b.app.range.abs_window == a.range.abs_window
            &&& b.app.at == (NavView { selected: 0, scroll: 0, ..a.at })
            &&& asks_for(b.requests, a.screen(), a.active_query(), a.at.log_correlation)
        }),
{
    reveal(keys::form_step);
    law_a_refresh_asks_for_what_is_shown(a.commit_absolute(), env, Refresh::Interactive);
}

/// Enter in a form that spells no window leaves it open and says what is wrong: the start, the end, or
/// that the start is not before the end. Nothing is asked for.
pub proof fn law_a_wrong_form_stays_open(a: AppView, key: KeyEvent, env: Env)
    requires
        a.mode == Mode::AbsoluteRange,
        key.press && key.code == KeyCode::Enter,
        a.range.abs_start.len() > 0 || a.range.abs_end.len() > 0 || a.range.abs_target == AbsTarget::Query,
    ensures
        ({
            let b = pressed(a, key, env);
            let start = time::parsed_datetime(a.range.abs_start);
            let end = time::parsed_datetime(a.range.abs_end);
            let refused = |error: Seq<char>|
                b == (Step {
                    app: AppView { range: TimeView { abs_error: Some(error), ..a.range }, ..a },
                    requests: Seq::empty(),
                });
            &&& start is None ==> refused("start: expected UTC YYYY-MM-DD HH:MM:SS"@)
            &&& start is Some && end is None ==> refused("end: expected UTC YYYY-MM-DD HH:MM:SS"@)
            &&& start is Some && end is Some && (start->0) >= (end->0) ==> refused("start must be before end"@)
        }),
{
    reveal(keys::form_step);
}

/// An empty form for the attribute pane lets it measure everything again.
pub proof fn law_an_empty_attribute_form_clears_its_window(a: AppView, key: KeyEvent, env: Env)
    requires
        a.mode == Mode::AbsoluteRange,
        key.press && key.code == KeyCode::Enter,
        a.range.abs_target == AbsTarget::Attributes,
        a.range.abs_start.len() == 0 && a.range.abs_end.len() == 0,
    ensures
        pressed(a, key, env).app.range.attr_window is None,
        pressed(a, key, env).app.range.abs_window == a.range.abs_window,
        pressed(a, key, env).app.mode == Mode::Normal,
{
    reveal(keys::form_step);
    law_a_refresh_asks_for_what_is_shown(a.commit_absolute(), env, Refresh::Interactive);
}

/// On the menu bar Right, Tab and `l` go to the next item, Left, BackTab and `h` to the one before, around
/// the bar. F9 closes it.
pub proof fn law_the_menu_moves_by_its_keys(a: AppView, key: KeyEvent, env: Env)
    requires
        a.mode == Mode::Menu,
        a.menu_cursor < 5,
        key.press,
    ensures
        ({
            let c = a.menu_cursor as int;
            let left_on = |item: int|
                pressed(a, key, env) == (Step { app: AppView { menu_cursor: item as usize, ..a }, requests: Seq::empty() });
            &&& key.code == KeyCode::Right || key.code == KeyCode::Tab || key.code == KeyCode::Char('l') ==> left_on(
                if c == 4 { 0 } else { c + 1 },
            )
            &&& key.code == KeyCode::Left || key.code == KeyCode::BackTab || key.code == KeyCode::Char('h') ==> left_on(
                if c == 0 { 4 } else { c - 1 },
            )
            &&& key.code == KeyCode::F(9) ==> pressed(a, key, env) == (Step {
                app: AppView { mode: Mode::Normal, ..a },
                requests: Seq::empty(),
            })
        }),
{
    reveal(keys::menu_step);
}

/// Enter on the menu bar goes to the screen of the item, or opens the range picker on the last one.
pub proof fn law_enter_takes_the_menu_item(a: AppView, key: KeyEvent, env: Env)
    requires
        a.mode == Mode::Menu,
        a.menu_cursor < 5,
        a.at.query.len() == 4,
        key.press && key.code == KeyCode::Enter,
    ensures
        a.menu_cursor < 4 ==> pressed(a, key, env).app.mode == Mode::Normal && pressed(a, key, env).app.at.route == (
        if a.menu_cursor == 0 {
            RouteView::Overview
        } else if a.menu_cursor == 1 {
            RouteView::Metrics
        } else if a.menu_cursor == 2 {
            RouteView::Traces
        } else {
            RouteView::Logs
        }),
        a.menu_cursor == 4 ==> pressed(a, key, env).app.mode == Mode::TimeRange && pressed(a, key, env).app.at == a.at,
{
    reveal(keys::menu_step);
    reveal(keys::navigate_step);
    if let Some(screen) = model::screen_at(a.menu_cursor as int) {
        let b = a.in_mode(Mode::Normal);
        law_a_switch_shows_the_screen(if b.screen() != screen { b.push_history() } else { b }, screen, env);
    }
}

/// The stops of the focus ring on a list with a query, in order: the four screens, the time range, the
/// query, and the results.
pub open spec fn stops_with_query() -> Seq<Focus> {
    seq![
        Focus::Menu(0),
        Focus::Menu(1),
        Focus::Menu(2),
        Focus::Menu(3),
        Focus::TimeRange,
        Focus::Query,
        Focus::Primary,
    ]
}

/// On a list with a query Tab moves the focus from stop to stop in reading order, from the last one to
/// the first, and BackTab the other way. Nothing else changes.
pub proof fn law_tab_goes_around_the_focus_ring(a: AppView, key: KeyEvent, env: Env, i: int)
    requires
        on_list(a),
        a.at.route != RouteView::Overview,
        0 <= i < 7,
        a.focus == stops_with_query()[i],
        key.press,
    ensures
        key.code == KeyCode::Tab ==> pressed(a, key, env) == (Step {
            app: AppView { focus: stops_with_query()[if i == 6 { 0 } else { i + 1 }], ..a },
            requests: Seq::empty(),
        }),
        key.code == KeyCode::BackTab ==> pressed(a, key, env) == (Step {
            app: AppView { focus: stops_with_query()[if i == 0 { 6 } else { i - 1 }], ..a },
            requests: Seq::empty(),
        }),
{
    lemma_ring(a);
    lemma_ring_position(a, i);
    assert(a.focus_advance(1) == (AppView { focus: stops_with_query()[if i == 6 { 0 } else { i + 1 }], ..a })) by {
        lemma_advance(a, i, 1);
    }
    assert(a.focus_advance(-1) == (AppView { focus: stops_with_query()[if i == 0 { 6 } else { i - 1 }], ..a })) by {
        lemma_advance(a, i, -1);
    }
    reveal(keys::normal_step);
    reveal(keys::ring_step);
}

proof fn lemma_ring(a: AppView)
    requires
        a.at.route == RouteView::Metrics || a.at.route == RouteView::Traces || a.at.route == RouteView::Logs,
    ensures
        a.focus_ring() == stops_with_query(),
{
    assert(a.has_query() && !a.has_attr_pane());
    assert(a.focus_ring() =~= stops_with_query());
}

proof fn lemma_ring_position(a: AppView, i: int)
    requires
        a.focus_ring() == stops_with_query(),
        a.has_query(),
        0 <= i < 7,
        a.focus == stops_with_query()[i],
    ensures
        a.ring_position() == i,
{
    assert(a.effective_focus() == a.focus);
    lemma_position(stops_with_query(), i, 0);
}

proof fn lemma_advance(a: AppView, i: int, delta: int)
    requires
        a.focus_ring() == stops_with_query(),
        a.ring_position() == i,
        0 <= i < 7,
        delta == 1 || delta == -1,
    ensures
        a.focus_advance(delta) == (AppView {
            focus: stops_with_query()[if i + delta == 7 {
                0
            } else if i + delta == -1 {
                6
            } else {
                i + delta
            }],
            ..a
        }),
{
    let next = if i + delta == 7 {
        0
    } else if i + delta == -1 {
        6
    } else {
        i + delta
    };
    assert((i + delta) % 7 == next);
    let stop = stops_with_query()[next];
    assert(!(stop is AttrTable));
    let b = AppView { focus: stop, ..a };
    assert(!(b.effective_focus() is AttrTable));
    assert(b.snap() == b);
}

proof fn lemma_position(ring: Seq<Focus>, k: int, i: int)
    requires
        0 <= i <= k < ring.len(),
        forall|x: int, y: int| 0 <= x < y < ring.len() ==> ring[x] != ring[y],
    ensures
        crate::app::nav::stop_position(ring, ring[k], i) == Some(k),
    decreases k - i,
{
    if i < k {
        lemma_position(ring, k, i + 1);
    }
}

/// The stops of the focus ring on the Overview: the four screens, the time range, the overview itself, the
/// range of the attribute pane, and each section of its table.
pub proof fn law_the_focus_ring_of_the_overview(a: AppView)
    requires
        a.at.route == RouteView::Overview,
    ensures
        ({
            let ring = a.focus_ring();
            &&& ring.len() == 7 + a.attr_sections().len()
            &&& ring.take(7) == seq![
                Focus::Menu(0),
                Focus::Menu(1),
                Focus::Menu(2),
                Focus::Menu(3),
                Focus::TimeRange,
                Focus::Primary,
                Focus::AttrRange,
            ]
            &&& forall|i: int|
                0 <= i < a.attr_sections().len() ==> #[trigger] ring[7 + i] == Focus::AttrTable(i as usize)
        }),
{
    assert(a.focus_ring().take(7) =~= seq![
        Focus::Menu(0),
        Focus::Menu(1),
        Focus::Menu(2),
        Focus::Menu(3),
        Focus::TimeRange,
        Focus::Primary,
        Focus::AttrRange,
    ]);
}

/// With the focus on the menu bar, Right moves it to the next item and Left to the one before, around the
/// bar; the time range is the last item.
pub proof fn law_arrows_move_along_the_menu_bar(a: AppView, key: KeyEvent, env: Env, i: int)
    requires
        on_list(a),
        0 <= i < 5,
        a.focus == if i == 4 { Focus::TimeRange } else { Focus::Menu(i as usize) },
        key.press,
    ensures
        ({
            let left_on = |item: int|
                pressed(a, key, env) == (Step {
                    app: AppView { focus: if item == 4 { Focus::TimeRange } else { Focus::Menu(item as usize) }, ..a },
                    requests: Seq::empty(),
                });
            &&& key.code == KeyCode::Right ==> left_on(if i == 4 { 0 } else { i + 1 })
            &&& key.code == KeyCode::Left ==> left_on(if i == 0 { 4 } else { i - 1 })
        }),
{
    reveal(keys::normal_step);
    reveal(keys::ring_step);
}

/// Enter takes what the focus is on: a screen of the menu bar is gone to, the time range opens the range
/// picker, the query the editor, and the range of the attribute pane its form.
pub proof fn law_enter_takes_the_focused_stop(a: AppView, key: KeyEvent, env: Env)
    requires
        on_list(a),
        a.at.query.len() == 4,
        key.press && key.code == KeyCode::Enter,
    ensures
        ({
            let b = pressed(a, key, env).app;
            &&& a.focus == Focus::Menu(0) ==> b.at.route == RouteView::Overview
            &&& a.focus == Focus::Menu(1) ==> b.at.route == RouteView::Metrics
            &&& a.focus == Focus::Menu(2) ==> b.at.route == RouteView::Traces
            &&& a.focus == Focus::Menu(3) ==> b.at.route == RouteView::Logs
            &&& a.focus == Focus::TimeRange ==> b.mode == Mode::TimeRange
            &&& a.focus == Focus::Query && a.at.route != RouteView::Overview ==> b.mode == Mode::Editing
            &&& a.focus == Focus::AttrRange && a.at.route == RouteView::Overview ==> b.mode == Mode::AbsoluteRange
                && b.range.abs_target == AbsTarget::Attributes && (a.range.attr_window matches Some((start, end)) ==> b.range.abs_start
                == time::datetime_text(start as int) && b.range.abs_end == time::datetime_text(end as int)) && (
            a.range.attr_window is None ==> b.range.abs_start.len() == 0 && b.range.abs_end.len() == 0)
        }),
{
    reveal(keys::normal_step);
    reveal(keys::ring_step);
    reveal(keys::navigate_step);
    reveal(keys::edit_step);
    if let Focus::Menu(i) = a.focus {
        if let Some(screen) = model::screen_at(i as int) {
            law_a_switch_shows_the_screen(if a.screen() != screen { a.push_history() } else { a }, screen, env);
        }
    }
}

} // verus!
