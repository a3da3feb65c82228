//! Navigation state: the menu bar, the keyboard focus ring, the back/forward history, and the walk
//! up a screen's own series of views.

use std::sync::Arc;

use vstd::prelude::*;

use crate::app::{App, AppView, TraceView, VocabularyView};
use crate::model;
use crate::model::{Focus, Mode, NavEntry, NavView, Route, RouteView, Screen, TraceDetail, MENU_LEN, SCREENS};
use crate::text;

verus! {

/// The most entries that the Back history keeps.
pub const HISTORY_CAP: usize = 64;

/// One step up a screen's series of views. Most rungs are another view, but the Metrics catalog is
/// the Metrics list with its query cleared.
#[derive(Debug)]
pub enum SeriesUp {
    Route(Route),
    Catalog,
}

/// What a step up leads to.
#[verifier::ext_equal]
pub enum SeriesView {
    Route(RouteView),
    Catalog,
}

impl View for SeriesUp {
    type V = SeriesView;

    open spec fn view(&self) -> SeriesView {
        match *self {
            SeriesUp::Route(route) => SeriesView::Route(route@),
            SeriesUp::Catalog => SeriesView::Catalog,
        }
    }
}

/// The first position of a stop in a ring, from `i` on.
pub open spec fn stop_position(ring: Seq<Focus>, stop: Focus, i: int) -> Option<int>
    decreases ring.len() - i,
{
    if !(0 <= i < ring.len()) {
        None
    } else if ring[i] == stop {
        Some(i)
    } else {
        stop_position(ring, stop, i + 1)
    }
}

/// The trace `trace_id` among the last `n` entries of the history, the most recent one first.
pub open spec fn visited_trace(back: Seq<NavView>, n: int, trace_id: Seq<char>) -> Option<Arc<TraceDetail>>
    decreases n,
{
    if n <= 0 || n > back.len() {
        None
    } else {
        match back[n - 1].route {
            RouteView::TraceDetail { detail } => if detail.trace_id@ == trace_id {
                Some(detail)
            } else {
                visited_trace(back, n - 1, trace_id)
            },
            _ => visited_trace(back, n - 1, trace_id),
        }
    }
}

/// Section stops of the attribute pane.
pub open spec fn section_stops(n: nat) -> Seq<Focus> {
    Seq::new(n, |i: int| Focus::AttrTable(i as usize))
}

/// Stops on the screens of the menu bar.
pub open spec fn screen_stops() -> Seq<Focus> {
    seq![Focus::Menu(0), Focus::Menu(1), Focus::Menu(2), Focus::Menu(3)]
}

impl AppView {
    /// The state with the menu bar active, the highlight on the current screen.
    pub open spec fn open_menu(self) -> AppView {
        AppView { menu_cursor: model::screen_index(self.screen()) as usize, mode: Mode::Menu, ..self }
    }

    /// The state with the menu highlight moved by `delta` items, around the bar.
    pub open spec fn menu_move(self, delta: int) -> AppView {
        AppView { menu_cursor: ((self.menu_cursor + delta) % MENU_LEN as int) as usize, ..self }
    }

    /// The stops of the focus ring, in reading order.
    pub open spec fn focus_ring(self) -> Seq<Focus> {
        screen_stops() + seq![Focus::TimeRange] + (if self.has_query() {
            seq![Focus::Query]
        } else {
            Seq::empty()
        }) + seq![Focus::Primary] + (if self.has_attr_pane() {
            seq![Focus::AttrRange] + section_stops(self.attr_sections().len())
        } else {
            Seq::empty()
        })
    }

    /// The position of the focus in the ring; the last one where it is on no stop.
    pub open spec fn ring_position(self) -> int {
        match stop_position(self.focus_ring(), self.effective_focus(), 0) {
            Some(i) => i,
            None => self.focus_ring().len() - 1,
        }
    }

    /// The state with the focus `delta` stops further around the ring.
    pub open spec fn focus_advance(self, delta: int) -> AppView {
        let ring = self.focus_ring();
        (AppView { focus: ring[(self.ring_position() + delta) % ring.len() as int], ..self }).snap()
    }

    /// The state with the focus `delta` items further around the menu bar, where it is on the bar.
    pub open spec fn menubar_move(self, delta: int) -> AppView {
        let current = match self.effective_focus() {
            Focus::Menu(index) => Some(index as int),
            Focus::TimeRange => Some(MENU_LEN - 1),
            _ => None,
        };
        match current {
            Some(i) => {
                let next = (i + delta) % MENU_LEN as int;
                AppView {
                    focus: if next == MENU_LEN - 1 { Focus::TimeRange } else { Focus::Menu(next as usize) },
                    ..self
                }
            },
            None => self,
        }
    }

    /// The state with a captured view restored, and every overlay and intent dropped.
    pub open spec fn restore(self, entry: NavView) -> AppView {
        AppView {
            at: entry,
            metric_exemplars: Seq::empty(),
            trace: TraceView { pending_trace_open: false, focus_trace_open: false, ..self.trace },
            mode: Mode::Normal,
            words: VocabularyView { completion: None, ..self.words },
            focus: Focus::Primary,
            ..self
        }
    }

    /// The state once a navigation has departed from `entry`.
    pub open spec fn push_entry(self, entry: NavView) -> AppView {
        let back = self.back.push(entry);
        AppView {
            back: if back.len() > HISTORY_CAP { back.remove(0) } else { back },
            forward: Seq::empty(),
            ..self
        }
    }

    /// The state once a navigation has departed from the current view.
    pub open spec fn push_history(self) -> AppView {
        self.push_entry(self.at)
    }

    /// The state one view back, where there is one.
    pub open spec fn go_back(self) -> Option<AppView> {
        if self.back.len() == 0 {
            None
        } else {
            Some(
                (AppView { back: self.back.drop_last(), forward: self.forward.push(self.at), ..self }).restore(
                    self.back.last(),
                ),
            )
        }
    }

    /// The state one view forward, where a Back was taken.
    pub open spec fn go_forward(self) -> Option<AppView> {
        if self.forward.len() == 0 {
            None
        } else {
            Some(
                (AppView { forward: self.forward.drop_last(), back: self.back.push(self.at), ..self }).restore(
                    self.forward.last(),
                ),
            )
        }
    }

    /// The state with the trace focus, and the intent to open it, dropped.
    pub open spec fn clear_trace_focus(self) -> AppView {
        AppView {
            at: NavView { focus_trace_id: None, ..self.at },
            trace: TraceView { focus_trace_open: false, ..self.trace },
            ..self
        }
    }

    /// The trace of the given id: the one behind the preview pane, else one of the history.
    pub open spec fn series_trace(self, trace_id: Seq<char>) -> Option<Arc<TraceDetail>> {
        match self.trace.trace_detail {
            Some(detail) => if detail.trace_id@ == trace_id {
                Some(detail)
            } else {
                visited_trace(self.back, self.back.len() as int, trace_id)
            },
            None => visited_trace(self.back, self.back.len() as int, trace_id),
        }
    }

    /// The view one step earlier in this screen's series, however the current one was reached.
    pub open spec fn series_parent(self) -> Option<SeriesView> {
        match self.at.route {
            RouteView::MetricDetail { .. } => Some(SeriesView::Route(RouteView::Metrics)),
            RouteView::LogDetail { .. } => Some(SeriesView::Route(RouteView::Logs)),
            RouteView::TraceDetail { .. } => Some(SeriesView::Route(RouteView::Traces)),
            RouteView::SpanDetail { trace_id, .. } => Some(
                SeriesView::Route(
                    match self.series_trace(trace_id) {
                        Some(detail) => RouteView::TraceDetail { detail },
                        None => RouteView::Traces,
                    },
                ),
            ),
            RouteView::Metrics => if self.on_catalog() { None } else { Some(SeriesView::Catalog) },
            _ => None,
        }
    }

    /// The state on another view, where a step up leads.
    pub open spec fn step_to(self, step: SeriesView) -> AppView {
        match step {
            SeriesView::Route(route) => AppView { at: NavView { route, ..self.at }, ..self },
            SeriesView::Catalog => self.set_query(Seq::empty()).select(0),
        }
    }

    /// The state once a step up has settled: the overlays and intents of the view left are dropped.
    pub open spec fn settle(self) -> AppView {
        AppView {
            at: NavView {
                scroll: 0,
                focus_trace_id: None,
                span_cursor: if model::detail_route(self.at.route) { self.at.span_cursor } else { 0 },
                ..self.at
            },
            focus: Focus::Primary,
            mode: Mode::Normal,
            words: VocabularyView { completion: None, ..self.words },
            trace: TraceView { pending_trace_open: false, focus_trace_open: false, ..self.trace },
            metric_exemplars: Seq::empty(),
            ..self
        }
    }

    /// The state one step up the screen's series, where there is one.
    pub open spec fn go_up(self) -> Option<AppView> {
        match self.series_parent() {
            Some(step) => Some(self.push_history().step_to(step).settle()),
            None => None,
        }
    }
}

impl App {
    /// Activates the menu bar, the highlight on the current screen.
    pub fn open_menu(&mut self)
        ensures
            final(self)@ == old(self)@.open_menu(),
    {
        self.menu_cursor = self.screen().index();
        self.mode = Mode::Menu;
    }

    /// Moves the menu highlight by `delta`, around the screens and the range item.
    pub fn menu_move(&mut self, delta: isize)
        ensures
            final(self)@ == old(self)@.menu_move(delta as int),
    {
        self.menu_cursor = around(self.menu_cursor, delta, MENU_LEN);
    }

    /// The screen that the menu highlight is on, or `None` on the range item.
    pub fn menu_screen(&self) -> (r: Option<Screen>)
        ensures
            r == model::screen_at(self@.menu_cursor as int),
    {
        Screen::at(self.menu_cursor)
    }

    /// The stops of the focus ring, in reading order: the menu-bar screens, the time selector, and
    /// the content panes that the view has.
    pub fn focus_ring(&self) -> (r: Vec<Focus>)
        ensures
            r@ == self@.focus_ring(),
            r@.len() >= 1,
    {
        let mut ring: Vec<Focus> = Vec::new();
        let mut i: usize = 0;
        while i < SCREENS
            invariant
                i <= SCREENS,
                ring@ == screen_stops().take(i as int),
            decreases SCREENS - i,
        {
            ring.push(Focus::Menu(i));
            i += 1;
            assert(screen_stops().take(i as int) =~= screen_stops().take(i - 1).push(screen_stops()[i - 1]));
        }
        assert(screen_stops().take(4) =~= screen_stops());
        ring.push(Focus::TimeRange);
        if self.has_query() {
            ring.push(Focus::Query);
        }
        ring.push(Focus::Primary);
        let ghost panes = ring@;
        if self.has_attr_pane() {
            ring.push(Focus::AttrRange);
            let ghost before = ring@;
            let n: usize = self.attr_sections().len();
            let mut k: usize = 0;
            assert(ring@ =~= before + section_stops(0));
            while k < n
                invariant
                    k <= n,
                    ring@ == before + section_stops(k as nat),
                decreases n - k,
            {
                ring.push(Focus::AttrTable(k));
                k += 1;
                assert(ring@ =~= before + section_stops(k as nat));
            }
        }
        assert(ring@ =~= self@.focus_ring());
        ring
    }

    /// Moves the focus `delta` stops around the ring. Landing on a section puts the cursor inside.
    pub fn focus_advance(&mut self, delta: isize)
        ensures
            final(self)@ == old(self)@.focus_advance(delta as int),
    {
        let ring = self.focus_ring();
        let n: usize = ring.len();
        let focus = self.effective_focus();
        let mut current: usize = 0;
        while current < n && ring[current] != focus
            invariant
                n == ring@.len(),
                current <= n,
                stop_position(ring@, focus, 0) == stop_position(ring@, focus, current as int),
            decreases n - current,
        {
            current += 1;
        }
        let at: usize = if current < n { current } else { n - 1 };
        let next: usize = around(at, delta, n);
        self.focus = ring[next];
        self.snap_attr_cursor();
    }

    /// Moves the focus among the menu-bar items, around the bar. A no-op off the bar.
    pub fn menubar_move(&mut self, delta: isize)
        ensures
            final(self)@ == old(self)@.menubar_move(delta as int),
    {
        let current: usize = match self.effective_focus() {
            Focus::Menu(index) => index,
            Focus::TimeRange => MENU_LEN - 1,
            _ => {
                return;
            },
        };
        let next: usize = around(current, delta, MENU_LEN);
        self.focus = if next == MENU_LEN - 1 { Focus::TimeRange } else { Focus::Menu(next) };
    }

    /// The current view, for the history.
    pub fn capture_nav(&self) -> (r: NavEntry)
        ensures
            r@ == self@.at,
    {
        self.at.clone()
    }

    /// Restores a captured view. Overlays are dropped: the history moves between views, not input
    /// modes; and so are the intents of the view that is left.
    pub fn restore_nav(&mut self, entry: NavEntry)
        ensures
            final(self)@ == old(self)@.restore(entry@),
    {
        self.at = entry;
        self.metric_exemplars.clear();
        self.trace.pending_trace_open = false;
        self.trace.focus_trace_open = false;
        self.mode = Mode::Normal;
        self.words.completion = None;
        self.focus = Focus::Primary;
    }

    /// Records `entry` as the view that a navigation departs from, dropping the Forward history.
    pub fn push_entry(&mut self, entry: NavEntry)
        ensures
            final(self)@ == old(self)@.push_entry(entry@),
    {
        let ghost before = self.back@;
        self.back.push(entry);
        assert(model::navs(self.back@) =~= model::navs(before).push(entry@));
        if self.back.len() > HISTORY_CAP {
            self.back.remove(0);
            assert(model::navs(self.back@) =~= model::navs(before).push(entry@).remove(0));
        }
        self.forward.clear();
        assert(model::navs(self.forward@) =~= Seq::empty());
    }

    /// Records the current view before a navigation.
    pub fn push_history(&mut self)
        ensures
            final(self)@ == old(self)@.push_history(),
    {
        let entry = self.capture_nav();
        self.push_entry(entry);
    }

    /// Back: restores the previous view, keeping the current one for Forward. Returns whether there
    /// was one.
    pub fn go_back(&mut self) -> (r: bool)
        ensures
            r == (old(self)@.go_back() is Some),
            r ==> Some(final(self)@) == old(self)@.go_back(),
            !r ==> final(self)@ == old(self)@,
    {
        let ghost before = self.back@;
        let ghost ahead = self.forward@;
        match self.back.pop() {
            Some(entry) => {
                let here = self.capture_nav();
                self.forward.push(here);
                assert(model::navs(self.back@) =~= model::navs(before).drop_last());
                assert(model::navs(self.forward@) =~= model::navs(ahead).push(here@));
                self.restore_nav(entry);
                true
            },
            None => false,
        }
    }

    /// Forward: redoes a Back. Returns whether there was one to redo.
    pub fn go_forward(&mut self) -> (r: bool)
        ensures
            r == (old(self)@.go_forward() is Some),
            r ==> Some(final(self)@) == old(self)@.go_forward(),
            !r ==> final(self)@ == old(self)@,
    {
        let ghost before = self.back@;
        let ghost ahead = self.forward@;
        match self.forward.pop() {
            Some(entry) => {
                let here = self.capture_nav();
                self.back.push(here);
                assert(model::navs(self.forward@) =~= model::navs(ahead).drop_last());
                assert(model::navs(self.back@) =~= model::navs(before).push(here@));
                self.restore_nav(entry);
                true
            },
            None => false,
        }
    }

    /// Drops the trace focus of a jump, and its intent to open the trace.
    pub fn clear_trace_focus(&mut self)
        ensures
            final(self)@ == old(self)@.clear_trace_focus(),
    {
        self.at.focus_trace_id = None;
        self.trace.focus_trace_open = false;
    }

    /// The trace of the given id: the one behind the preview pane, else one of the history.
    fn series_trace(&self, trace_id: &str) -> (r: Option<Arc<TraceDetail>>)
        ensures
            r == self@.series_trace(trace_id@),
    {
        if let Some(detail) = &self.trace.trace_detail {
            if text::same(&detail.trace_id, trace_id) {
                return Some(model::share(detail));
            }
        }
        let mut n: usize = self.back.len();
        let ghost all = model::navs(self.back@);
        while n > 0
            invariant
                n <= self.back@.len(),
                all == model::navs(self.back@),
                self@.series_trace(trace_id@) == visited_trace(all, n as int, trace_id@),
            decreases n,
        {
            n -= 1;
            assert(all[n as int] == self.back@[n as int]@);
            if let Route::TraceDetail { detail } = &self.back[n].route {
                if text::same(&detail.trace_id, trace_id) {
                    return Some(model::share(detail));
                }
            }
        }
        None
    }

    /// The view one step earlier in this screen's series: the chain that a screen drills through
    /// (catalog, series list, series; traces, trace, span; logs, log), however the current view was
    /// reached. `None` on a series' first view. A span whose trace is no longer held steps to the
    /// list of traces.
    pub fn series_parent(&self) -> (r: Option<SeriesUp>)
        ensures
            match r {
                Some(step) => self@.series_parent() == Some(step@),
                None => self@.series_parent() is None,
            },
    {
        match &self.at.route {
            Route::MetricDetail { .. } => Some(SeriesUp::Route(Route::Metrics)),
            Route::LogDetail { .. } => Some(SeriesUp::Route(Route::Logs)),
            Route::TraceDetail { .. } => Some(SeriesUp::Route(Route::Traces)),
            Route::SpanDetail { trace_id, .. } => match self.series_trace(trace_id) {
                Some(detail) => Some(SeriesUp::Route(Route::TraceDetail { detail })),
                None => Some(SeriesUp::Route(Route::Traces)),
            },
            Route::Metrics => {
                if self.on_catalog() {
                    None
                } else {
                    Some(SeriesUp::Catalog)
                }
            },
            _ => None,
        }
    }

    /// Walks one step up the screen's series, recording the view that is left so that Back undoes
    /// the move. Returns whether a move happened.
    pub fn go_up(&mut self) -> (r: bool)
        ensures
            r == (old(self)@.go_up() is Some),
            r ==> Some(final(self)@) == old(self)@.go_up(),
            !r ==> final(self)@ == old(self)@,
    {
        let step = match self.series_parent() {
            Some(step) => step,
            None => {
                return false;
            },
        };
        self.push_history();
        match step {
            SeriesUp::Route(route) => {
                self.at.route = route;
            },
            SeriesUp::Catalog => {
                let none = String::new();
                assert(none@ =~= Seq::<char>::empty());
                self.set_active_query(none);
                self.at.selected = 0;
            },
        }
        assert(self@ == old(self)@.push_history().step_to(step@));
        self.at.scroll = 0;
        self.focus = Focus::Primary;
        self.mode = Mode::Normal;
        self.words.completion = None;
        self.trace.pending_trace_open = false;
        self.clear_trace_focus();
        self.metric_exemplars.clear();
        if !self.at.route.is_detail() {
            self.at.span_cursor = 0;
        }
        true
    }
}

/// `x` moved by `delta` around a circle of `n` positions.
pub(crate) fn around(x: usize, delta: isize, n: usize) -> (r: usize)
    requires
        n > 0,
    ensures
        r == (x + delta) % n as int,
        r < n,
{
    let sum: i128 = x as i128 + delta as i128;
    let m: i128 = n as i128;
    if sum >= 0 {
        return (sum % m) as usize;
    }
    let rest: i128 = (-sum) % m;
    proof {
        let k = (-sum) / (m as int);
        vstd::arithmetic::div_mod::lemma_fundamental_div_mod(-sum, m as int);
        if rest == 0 {
            assert(sum == (-k) * m) by (nonlinear_arith)
                requires
                    -sum == m * k + rest,
                    rest == 0,
            ;
            vstd::arithmetic::div_mod::lemma_fundamental_div_mod_converse(sum as int, m as int, -k, 0);
        } else {
            assert(sum == (-k - 1) * m + (m - rest)) by (nonlinear_arith)
                requires
                    -sum == m * k + rest,
            ;
            vstd::arithmetic::div_mod::lemma_fundamental_div_mod_converse(sum as int, m as int, -k - 1, m - rest);
        }
    }
    if rest == 0 {
        0
    } else {
        (m - rest) as usize
    }
}

/// Back and Forward undo each other: Forward after a Back leads to the view that the Back left, and
/// Back after a Forward likewise, with the histories as they were.
pub proof fn law_back_and_forward_undo_each_other(a: AppView)
    ensures
        a.go_back() matches Some(b) ==> (b.go_forward() matches Some(c) && c.at == a.at && c.back == a.back && c.forward
            == a.forward),
        a.go_forward() matches Some(b) ==> (b.go_back() matches Some(c) && c.at == a.at && c.back == a.back && c.forward
            == a.forward),
{
    if let Some(b) = a.go_back() {
        assert(b.forward.drop_last() =~= a.forward);
        assert(b.back.push(b.at) =~= a.back);
    }
    if let Some(b) = a.go_forward() {
        assert(b.back.drop_last() =~= a.back);
        assert(b.forward.push(b.at) =~= a.forward);
    }
}

/// A navigation records the view it leaves, where Back finds it, drops the Forward history, and
/// keeps no more views than the history holds.
pub proof fn law_a_navigation_is_recorded(a: AppView)
    requires
        a.back.len() <= HISTORY_CAP,
    ensures
        a.push_history().back.len() > 0,
        a.push_history().back.last() == a.at,
        a.push_history().back.len() <= HISTORY_CAP,
        a.push_history().forward.len() == 0,
        a.push_history().go_back() matches Some(b) && b.at == a.at,
{
}

/// A step up is undone by Back: it leads to the view that the step left.
pub proof fn law_back_undoes_a_step_up(a: AppView)
    ensures
        a.go_up() matches Some(b) ==> (b.go_back() matches Some(c) && c.at == a.at),
{
}

/// The menu highlight wraps: a step right and a step left undo each other, and as many steps as the
/// bar has items lead around it.
pub proof fn law_the_menu_wraps(a: AppView)
    requires
        a.menu_cursor < MENU_LEN,
    ensures
        a.menu_move(1).menu_move(-1) == a,
        a.menu_move(-1).menu_move(1) == a,
        a.menu_move(MENU_LEN as int) == a,
        a.menu_move(1).menu_cursor < MENU_LEN,
{
}

proof fn lemma_ring_stops_apply(a: AppView, i: int)
    requires
        0 <= i < a.focus_ring().len(),
        a.attr_sections().len() <= usize::MAX,
    ensures
        (AppView { focus: a.focus_ring()[i], ..a }).effective_focus() == a.focus_ring()[i],
        stop_position(a.focus_ring(), a.focus_ring()[i], 0) == Some(i),
{
    let ring = a.focus_ring();
    let b = AppView { focus: ring[i], ..a };
    assert(b.attr_sections() == a.attr_sections());
    assert forall|j: int| 0 <= j < i implies ring[j] != ring[i] by {
    }
    lemma_stop_position(ring, i, 0);
}

proof fn lemma_stop_position(ring: Seq<Focus>, i: int, from: int)
    requires
        0 <= from <= i < ring.len(),
        forall|j: int| from <= j < i ==> ring[j] != ring[i],
    ensures
        stop_position(ring, ring[i], from) == Some(i),
    decreases i - from,
{
    if from < i {
        lemma_stop_position(ring, i, from + 1);
    }
}

proof fn lemma_snap_keeps_focus(a: AppView)
    ensures
        a.snap().focus == a.focus,
        a.snap().focus_ring() == a.focus_ring(),
        a.snap().effective_focus() == a.effective_focus(),
{
    assert(a.snap().attr_sections() == a.attr_sections());
}

proof fn lemma_stop_found(ring: Seq<Focus>, stop: Focus, i: int)
    requires
        0 <= i,
    ensures
        stop_position(ring, stop, i) matches Some(k) ==> i <= k < ring.len() && ring[k] == stop,
    decreases ring.len() - i,
{
    if i < ring.len() && ring[i] != stop {
        lemma_stop_found(ring, stop, i + 1);
    }
}

/// The focus applies to the view: it is the stored one where that is a stop of the view's ring, and on
/// the primary pane otherwise.
pub proof fn law_the_focus_is_a_stop_of_the_view(a: AppView)
    requires
        a.focus matches Focus::Menu(i) ==> i < SCREENS,
        a.attr_sections().len() <= usize::MAX,
    ensures
        a.focus_ring().contains(a.effective_focus()),
        a.effective_focus() == if a.focus_ring().contains(a.focus) { a.focus } else { Focus::Primary },
{
    let ring = a.focus_ring();
    let q: int = if a.has_query() { 6 } else { 5 };
    assert(ring[q] == Focus::Primary);
    match a.focus {
        Focus::Menu(i) => {
            assert(ring[i as int] == a.focus);
        },
        Focus::TimeRange => {
            assert(ring[4] == a.focus);
        },
        Focus::Query => {
            if a.has_query() {
                assert(ring[5] == a.focus);
            }
        },
        Focus::Primary => {},
        Focus::AttrRange => {
            if a.has_attr_pane() {
                assert(ring[q + 1] == a.focus);
            }
        },
        Focus::AttrTable(i) => {
            if a.has_attr_pane() && i < a.attr_sections().len() {
                assert(ring[q + 2 + i] == a.focus);
            }
        },
    }
}

/// The focus ring is a circle: a step always lands on a stop that the view has, and a step forward
/// and a step back undo each other.
pub proof fn law_the_focus_ring_is_a_circle(a: AppView, delta: int)
    requires
        a.attr_sections().len() <= usize::MAX,
    ensures
        a.focus_ring().contains(a.focus_advance(delta).focus),
        a.focus_advance(delta).effective_focus() == a.focus_advance(delta).focus,
        a.focus_ring().contains(a.effective_focus()) ==> a.focus_advance(delta).focus_advance(-delta).focus
            == a.effective_focus(),
{
    let ring = a.focus_ring();
    let n = ring.len() as int;
    let p = a.ring_position();
    lemma_stop_found(ring, a.effective_focus(), 0);
    let q = (p + delta) % n;
    assert(0 <= q < n);
    let b = AppView { focus: ring[q], ..a };
    assert(b.attr_sections() == a.attr_sections());
    assert(b.focus_ring() == ring);
    lemma_ring_stops_apply(a, q);
    lemma_snap_keeps_focus(b);
    let c = a.focus_advance(delta);
    assert(c.focus_ring() == ring);
    assert(c.ring_position() == q);
    let back = (q - delta) % n;
    if ring.contains(a.effective_focus()) {
        let i = choose|i: int| 0 <= i < ring.len() && ring[i] == a.effective_focus();
        lemma_ring_stops_apply(a, i);
        assert(p == i);
        assert(back == p) by {
            vstd::arithmetic::div_mod::lemma_fundamental_div_mod(p + delta, n);
            let k = (p + delta) / n;
            assert(q - delta == p - n * k);
            assert(p - n * k == (-k) * n + p) by (nonlinear_arith);
            vstd::arithmetic::div_mod::lemma_fundamental_div_mod_converse(q - delta, n, -k, p);
        }
        lemma_snap_keeps_focus(AppView { focus: ring[back], ..c });
    }
}

} // verus!
