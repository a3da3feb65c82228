//! The Overview's attribute pane: its sections and keys, the cursor over them, and the measurement
//! behind it.

use std::sync::Arc;

use vstd::prelude::*;

use crate::app::{App, AppView, AttributeView};
use crate::geometry;
use crate::model;
use crate::model::{
    AttrRow, AttrStats, DetailPane, DetailStyle, Focus, NavView, PaneTable, Screen, SnapView,
    ATTR_MEASURE_INTERVAL,
};
use crate::text;

verus! {

/// The rows among the first `n` that are section titles.
pub open spec fn section_rows(kinds: Seq<AttrRow>, n: nat) -> Seq<usize>
    decreases n,
{
    if n == 0 {
        Seq::empty()
    } else {
        let before = section_rows(kinds, (n - 1) as nat);
        if kinds[n - 1] is Section { before.push((n - 1) as usize) } else { before }
    }
}

/// The rows from `from` up to `to` that show a key.
pub open spec fn key_rows(table: PaneTable, from: int, to: int) -> Seq<usize>
    decreases to - from,
{
    if to <= from {
        Seq::empty()
    } else {
        let before = key_rows(table, from, to - 1);
        if table.key(to - 1) is Some { before.push((to - 1) as usize) } else { before }
    }
}

/// The position of the first row at or after `x`, from position `i` on.
pub open spec fn first_at_least(rows: Seq<usize>, x: usize, i: int) -> Option<int>
    decreases rows.len() - i,
{
    if !(0 <= i < rows.len()) {
        None
    } else if rows[i] >= x {
        Some(i)
    } else {
        first_at_least(rows, x, i + 1)
    }
}

impl AppView {
    /// The attribute pane's table, where one is shown.
    pub open spec fn attr_table(self) -> Option<PaneTable> {
        match self.snapshot.detail {
            Some(pane) => if pane.style == DetailStyle::Pane { pane.table } else { None },
            None => None,
        }
    }

    /// The rows of the attribute pane's section titles.
    pub open spec fn attr_sections(self) -> Seq<usize> {
        match self.attr_table() {
            Some(table) => section_rows(table.kinds@, table.kinds@.len()),
            None => Seq::empty(),
        }
    }

    /// The key rows of a section.
    pub open spec fn attr_keys(self, section: int) -> Seq<usize> {
        let starts = self.attr_sections();
        match self.attr_table() {
            Some(table) => if 0 <= section < starts.len() {
                let end = if section + 1 < starts.len() {
                    starts[section + 1] as int
                } else {
                    table.data.rows@.len() as int
                };
                key_rows(table, starts[section] as int, end)
            } else {
                Seq::empty()
            },
            None => Seq::empty(),
        }
    }

    /// The name of a section: the first word of its title.
    pub open spec fn attr_label(self, section: int) -> Option<Seq<char>> {
        match self.attr_table() {
            Some(table) => if 0 <= section < self.attr_sections().len() {
                let row = self.attr_sections()[section] as int;
                if row < table.data.rows@.len() && table.data.rows@[row]@.len() > 0 {
                    text::first_word(table.data.rows@[row]@[0]@)
                } else {
                    None
                }
            } else {
                None
            },
            None => None,
        }
    }

    /// Whether the current view has a query pane.
    pub open spec fn has_query(self) -> bool {
        self.screen() != Screen::Overview && !model::detail_route(self.at.route)
    }

    /// Whether the current view has an attribute pane.
    pub open spec fn has_attr_pane(self) -> bool {
        self.screen() == Screen::Overview && !model::detail_route(self.at.route)
    }

    /// The focus as it applies to the current view: one on a pane that is not shown is on the
    /// primary pane.
    pub open spec fn effective_focus(self) -> Focus {
        match self.focus {
            Focus::Query => if self.has_query() { self.focus } else { Focus::Primary },
            Focus::AttrRange => if self.has_attr_pane() { self.focus } else { Focus::Primary },
            Focus::AttrTable(section) => if self.has_attr_pane() && section < self.attr_sections().len() {
                self.focus
            } else {
                Focus::Primary
            },
            _ => self.focus,
        }
    }

    /// The first and the last row that the cursor may stand on, where there is one.
    pub open spec fn selectable(self) -> Option<(usize, usize)> {
        match self.effective_focus() {
            Focus::AttrTable(section) => {
                let keys = self.attr_keys(section as int);
                if keys.len() == 0 { None } else { Some((keys[0], keys.last())) }
            },
            _ => match self.snapshot.table {
                Some(table) => if table.rows.len() == 0 {
                    None
                } else {
                    Some((0, (table.rows.len() - 1) as usize))
                },
                None => match self.snapshot.list_from {
                    Some(first) => if first < self.snapshot.lines.len() {
                        Some((first, (self.snapshot.lines.len() - 1) as usize))
                    } else {
                        None
                    },
                    None => None,
                },
            },
        }
    }

    /// The state with the cursor on another row.
    pub open spec fn select(self, row: usize) -> AppView {
        AppView { at: NavView { selected: row, ..self.at }, ..self }
    }

    /// The state with the cursor on a key of the focused section: the first one from where it was
    /// on, or the section's first.
    pub open spec fn snap(self) -> AppView {
        match self.effective_focus() {
            Focus::AttrTable(section) => {
                let keys = self.attr_keys(section as int);
                if keys.len() == 0 {
                    self
                } else {
                    match first_at_least(keys, self.at.selected, 0) {
                        Some(i) => self.select(keys[i]),
                        None => self.select(keys[0]),
                    }
                }
            },
            _ => self,
        }
    }

    /// The next section that has keys, from `index` in the direction of `forward`.
    pub open spec fn keyed_section(self, index: int, forward: bool) -> Option<int>
        decreases if forward { self.attr_sections().len() - index } else { index + 1 },
    {
        if !(0 <= index < self.attr_sections().len()) {
            None
        } else if self.attr_keys(index).len() > 0 {
            Some(index)
        } else {
            self.keyed_section(if forward { index + 1 } else { index - 1 }, forward)
        }
    }

    /// The state once the cursor has crossed into the next section that has keys, where one has.
    pub open spec fn hop(self, from: int, delta: int) -> Option<AppView> {
        let forward = delta >= 0;
        match self.keyed_section(if forward { from + 1 } else { from - 1 }, forward) {
            Some(section) => {
                let keys = self.attr_keys(section);
                Some(
                    (AppView { focus: Focus::AttrTable(section as usize), ..self }).select(
                        if forward { keys[0] } else { keys.last() },
                    ),
                )
            },
            None => None,
        }
    }

    /// The state once the cursor has moved by `delta` key rows, or crossed into the next section
    /// where it stood at the edge; `None` where it cannot move.
    pub open spec fn move_key(self, delta: int) -> Option<AppView> {
        let section = match self.effective_focus() {
            Focus::AttrTable(section) => section as int,
            _ => 0,
        };
        let keys = self.attr_keys(section);
        if keys.len() == 0 {
            self.hop(section, delta)
        } else {
            let current = match first_at_least(keys, self.at.selected, 0) {
                Some(i) => i,
                None => keys.len() - 1,
            };
            let next = geometry::clamp(current + delta, 0, keys.len() - 1);
            if next != current { Some(self.select(keys[next])) } else { self.hop(section, delta) }
        }
    }

    /// The attribute key under the cursor.
    pub open spec fn attr_key_at_cursor(self) -> Option<Seq<char>> {
        match (self.attr_table(), self.selectable()) {
            (Some(table), Some((first, last))) => table.key(
                geometry::clamp(self.at.selected as int, first as int, last as int),
            ),
            _ => None,
        }
    }

    /// Whether the attribute statistics are to be measured: never measured, measured over another
    /// window, or measured too long ago.
    pub open spec fn needs_measure(self, now: u64) -> bool {
        match self.attrs.attr_stats {
            Some(stats) => stats.key != self.range.attr_window || now - stats.measured_at >= ATTR_MEASURE_INTERVAL,
            None => true,
        }
    }

    /// The state with the measurement in the attribute pane, where the two belong together.
    pub open spec fn compose(self) -> AppView {
        match self.attrs.attr_stats {
            Some(stats) => if self.has_attr_pane() && stats.key == self.range.attr_window {
                (AppView { snapshot: SnapView { detail: Some(stats.pane), ..self.snapshot }, ..self }).snap()
            } else {
                self
            },
            None => self,
        }
    }

    /// The state once a measurement has landed.
    pub open spec fn take_stats(self, key: Option<(i64, i64)>, pane: Arc<DetailPane>, now: u64) -> AppView {
        (AppView {
            attrs: AttributeView { attr_stats: Some(AttrStats { key, measured_at: now, pane }), ..self.attrs },
            ..self
        }).compose()
    }
}

/// A row that `section_rows` lists is a title, and each title is listed once, in order.
pub proof fn law_section_rows_are_the_titles(kinds: Seq<AttrRow>, n: nat)
    requires
        n <= kinds.len() <= usize::MAX,
    ensures
        forall|i: int| 0 <= i < section_rows(kinds, n).len() ==> #[trigger] section_rows(kinds, n)[i] < n
            && kinds[section_rows(kinds, n)[i] as int] is Section,
        forall|i: int, j: int| 0 <= i < j < section_rows(kinds, n).len() ==> section_rows(kinds, n)[i]
            < section_rows(kinds, n)[j],
        forall|r: usize| r < n && kinds[r as int] is Section ==> #[trigger] section_rows(kinds, n).contains(r),
    decreases n,
{
    if n > 0 {
        let m = (n - 1) as nat;
        law_section_rows_are_the_titles(kinds, m);
        let rows = section_rows(kinds, n);
        let before = section_rows(kinds, m);
        assert forall|r: usize| r < n && kinds[r as int] is Section implies #[trigger] rows.contains(r) by {
            if r < m {
                assert(before.contains(r));
                let i = choose|i: int| 0 <= i < before.len() && before[i] == r;
                assert(rows[i] == r);
            } else {
                assert(rows[before.len() as int] == r);
            }
        }
    }
}

/// A row that `key_rows` lists shows a key, and each row that shows one is listed once, in order.
pub proof fn law_key_rows_are_the_keys(table: PaneTable, from: int, to: int)
    requires
        0 <= from,
        to <= usize::MAX,
    ensures
        forall|i: int| 0 <= i < key_rows(table, from, to).len() ==> from <= #[trigger] key_rows(table, from, to)[i] < to
            && table.key(key_rows(table, from, to)[i] as int) is Some,
        forall|i: int, j: int| 0 <= i < j < key_rows(table, from, to).len() ==> key_rows(table, from, to)[i]
            < key_rows(table, from, to)[j],
        forall|r: usize| from <= r < to && table.key(r as int) is Some ==> #[trigger] key_rows(table, from, to).contains(r),
    decreases to - from,
{
    if to > from {
        law_key_rows_are_the_keys(table, from, to - 1);
        let rows = key_rows(table, from, to);
        let before = key_rows(table, from, to - 1);
        assert forall|r: usize| from <= r < to && table.key(r as int) is Some implies #[trigger] rows.contains(r) by {
            if r < to - 1 {
                assert(before.contains(r));
                let i = choose|i: int| 0 <= i < before.len() && before[i] == r;
                assert(rows[i] == r);
            } else {
                assert(rows[before.len() as int] == r);
            }
        }
    }
}

proof fn lemma_first_at_least(rows: Seq<usize>, x: usize, i: int)
    requires
        0 <= i,
    ensures
        first_at_least(rows, x, i) matches Some(k) ==> i <= k < rows.len() && rows[k] >= x,
        first_at_least(rows, x, i) is None ==> forall|j: int| i <= j < rows.len() ==> rows[j] < x,
    decreases rows.len() - i,
{
    if i < rows.len() && rows[i] < x {
        lemma_first_at_least(rows, x, i + 1);
    }
}

proof fn lemma_keyed_section(a: AppView, index: int, forward: bool)
    ensures
        a.keyed_section(index, forward) matches Some(s) ==> 0 <= s < a.attr_sections().len() && a.attr_keys(s).len() > 0,
    decreases if forward { a.attr_sections().len() - index } else { index + 1 },
{
    if 0 <= index < a.attr_sections().len() && a.attr_keys(index).len() == 0 {
        lemma_keyed_section(a, if forward { index + 1 } else { index - 1 }, forward);
    }
}

/// The position of the first row at or after `x`.
fn find_at_least(rows: &Vec<usize>, x: usize) -> (r: Option<usize>)
    ensures
        match r {
            Some(i) => first_at_least(rows@, x, 0) == Some(i as int) && i < rows@.len(),
            None => first_at_least(rows@, x, 0) is None,
        },
{
    let mut i: usize = 0;
    while i < rows.len()
        invariant
            i <= rows@.len(),
            first_at_least(rows@, x, 0) == first_at_least(rows@, x, i as int),
        decreases rows.len() - i,
    {
        if rows[i] >= x {
            return Some(i);
        }
        i += 1;
    }
    None
}

impl App {
    /// The attribute pane's table, where one is shown.
    pub fn attr_table(&self) -> (r: Option<&PaneTable>)
        ensures
            match r {
                Some(table) => self@.attr_table() == Some(*table),
                None => self@.attr_table() is None,
            },
    {
        match &self.snapshot.detail {
            Some(pane) => {
                if pane.style == DetailStyle::Pane {
                    match &pane.table {
                        Some(table) => Some(table),
                        None => None,
                    }
                } else {
                    None
                }
            },
            None => None,
        }
    }

    /// The attribute pane's sections, each as the row of its title: one for each scan unit, in
    /// display order, and each a stop of the focus ring.
    pub fn attr_sections(&self) -> (r: Vec<usize>)
        ensures
            r@ == self@.attr_sections(),
    {
        let mut out: Vec<usize> = Vec::new();
        if let Some(table) = self.attr_table() {
            let n: usize = table.kinds.len();
            let mut i: usize = 0;
            while i < n
                invariant
                    n == table.kinds@.len(),
                    i <= n,
                    out@ == section_rows(table.kinds@, i as nat),
                decreases n - i,
            {
                if let AttrRow::Section = &table.kinds[i] {
                    out.push(i);
                }
                i += 1;
            }
        }
        out
    }

    /// The scan unit that a section names: the first word of its title.
    pub fn attr_section_label(&self, section: usize) -> (r: Option<String>)
        ensures
            text::opt(r) == self@.attr_label(section as int),
    {
        match self.attr_table() {
            Some(table) => {
                let starts = self.attr_sections();
                if section < starts.len() {
                    let row: usize = starts[section];
                    if row < table.data.rows.len() && table.data.rows[row].len() > 0 {
                        return text::leading_word(&table.data.rows[row][0]);
                    }
                }
                None
            },
            None => None,
        }
    }

    /// The key rows of a section, in display order: the only rows that its cursor may stand on.
    /// None for a section that the current measurement does not have.
    pub fn attr_key_indices(&self, section: usize) -> (r: Vec<usize>)
        ensures
            r@ == self@.attr_keys(section as int),
            forall|i: int, j: int| 0 <= i < j < r@.len() ==> r@[i] < r@[j],
            forall|i: int| 0 <= i < r@.len() ==> #[trigger] r@[i] < usize::MAX,
    {
        let mut out: Vec<usize> = Vec::new();
        if let Some(table) = self.attr_table() {
            let starts = self.attr_sections();
            let n: usize = starts.len();
            if section < n {
                let from: usize = starts[section];
                let to: usize = if section + 1 < n { starts[section + 1] } else { table.data.rows.len() };
                let mut i: usize = from;
                while i < to
                    invariant
                        i == from || from <= i <= to,
                        out@ == key_rows(*table, from as int, i as int),
                    decreases to - i,
                {
                    if let Some(_) = table.key_at(i) {
                        out.push(i);
                    }
                    i += 1;
                }
                assert(out@ == key_rows(*table, from as int, to as int));
                proof {
                    law_key_rows_are_the_keys(*table, from as int, to as int);
                }
            }
        }
        out
    }

    /// Whether the current view has a query pane. The Overview is a report over the whole database,
    /// not an answer to a query, and a detail fills the screen.
    pub fn has_query(&self) -> (r: bool)
        ensures
            r == self@.has_query(),
    {
        self.screen() != Screen::Overview && !self.at.route.is_detail()
    }

    /// Whether the Overview's attribute pane is on screen.
    pub fn has_attr_pane(&self) -> (r: bool)
        ensures
            r == self@.has_attr_pane(),
    {
        self.screen() == Screen::Overview && !self.at.route.is_detail()
    }

    /// The focus as it applies to the current view, so that neither the highlight nor Enter targets
    /// a pane that is not shown.
    pub fn effective_focus(&self) -> (r: Focus)
        ensures
            r == self@.effective_focus(),
    {
        match self.focus {
            Focus::Query => {
                if self.has_query() { self.focus } else { Focus::Primary }
            },
            Focus::AttrRange => {
                if self.has_attr_pane() { self.focus } else { Focus::Primary }
            },
            Focus::AttrTable(section) => {
                if self.has_attr_pane() && section < self.attr_sections().len() { self.focus } else { Focus::Primary }
            },
            _ => self.focus,
        }
    }

    /// The first and the last row that the cursor may stand on, or `None` where the pane is not
    /// navigable. A focused attribute section owns the cursor; else a table's rows or a list's do.
    pub fn selectable_bounds(&self) -> (r: Option<(usize, usize)>)
        ensures
            r == self@.selectable(),
            r matches Some((first, last)) ==> first <= last < usize::MAX,
    {
        if let Focus::AttrTable(section) = self.effective_focus() {
            let keys = self.attr_key_indices(section);
            let n: usize = keys.len();
            if n == 0 {
                return None;
            }
            return Some((keys[0], keys[n - 1]));
        }
        if let Some(table) = &self.snapshot.table {
            let n: usize = table.rows.len();
            if n == 0 {
                return None;
            }
            return Some((0, n - 1));
        }
        match self.snapshot.list_from {
            Some(first) => {
                let n: usize = self.snapshot.lines.len();
                if first < n { Some((first, n - 1)) } else { None }
            },
            None => None,
        }
    }

    /// Moves the focus to the nearest section in the direction of `delta` that has keys, the cursor
    /// on the key next to the boundary just crossed. `false` at the pane's ends.
    fn hop_attr_section(&mut self, from: usize, delta: isize) -> (r: bool)
        ensures
            r == (old(self)@.hop(from as int, delta as int) is Some),
            r ==> Some(final(self)@) == old(self)@.hop(from as int, delta as int),
            !r ==> final(self)@ == old(self)@,
    {
        let total: usize = self.attr_sections().len();
        let forward = delta >= 0;
        let step: i128 = if forward { 1 } else { -1 };
        let ghost a = self@;
        let mut index: i128 = from as i128 + step;
        while 0 <= index && index < total as i128
            invariant
                self@ == a,
                a == old(self)@,
                total == a.attr_sections().len(),
                forward == (delta >= 0),
                step == if forward { 1int } else { -1 },
                -1 <= index <= usize::MAX + 1,
                a.keyed_section(from + step, forward) == a.keyed_section(index as int, forward),
            decreases if forward { total - index } else { index + 1 },
        {
            let keys = self.attr_key_indices(index as usize);
            let n: usize = keys.len();
            if n > 0 {
                let row: usize = if forward { keys[0] } else { keys[n - 1] };
                self.focus = Focus::AttrTable(index as usize);
                self.at.selected = row;
                return true;
            }
            index += step;
        }
        false
    }

    /// Moves the cursor by `delta` key rows, skipping the structure between them and hopping to the
    /// next section where it already stands at the edge. Returns whether it moved.
    ///
    /// The arrows so walk the whole pane, and a move that overshoots lands on the section's own
    /// last key first: the edge is a pause, not a wall.
    pub fn move_attr_cursor(&mut self, delta: isize) -> (r: bool)
        ensures
            r == (old(self)@.move_key(delta as int) is Some),
            r ==> Some(final(self)@) == old(self)@.move_key(delta as int),
            !r ==> final(self)@ == old(self)@,
    {
        let section: usize = match self.effective_focus() {
            Focus::AttrTable(section) => section,
            _ => 0,
        };
        let keys = self.attr_key_indices(section);
        let n: usize = keys.len();
        if n == 0 {
            return self.hop_attr_section(section, delta);
        }
        let current: usize = match find_at_least(&keys, self.at.selected) {
            Some(i) => i,
            None => n - 1,
        };
        let wanted: i128 = current as i128 + delta as i128;
        let next: usize = if wanted < 0 {
            0
        } else if wanted > (n - 1) as i128 {
            n - 1
        } else {
            wanted as usize
        };
        if next != current {
            self.at.selected = keys[next];
            return true;
        }
        self.hop_attr_section(section, delta)
    }

    /// Puts the cursor on a key row of the focused section, so that the highlight is always inside
    /// the section that the ring is on.
    pub fn snap_attr_cursor(&mut self)
        ensures
            final(self)@ == old(self)@.snap(),
    {
        if let Focus::AttrTable(section) = self.effective_focus() {
            let keys = self.attr_key_indices(section);
            if keys.len() > 0 {
                let row: usize = match find_at_least(&keys, self.at.selected) {
                    Some(i) => keys[i],
                    None => keys[0],
                };
                self.at.selected = row;
            }
        }
    }

    /// The attribute key under the pane's cursor: what a promotion acts on.
    pub fn selected_attr_key(&self) -> (r: Option<String>)
        ensures
            text::opt(r) == self@.attr_key_at_cursor(),
    {
        match (self.attr_table(), self.selectable_bounds()) {
            (Some(table), Some((first, last))) => {
                let row: usize = clamped(self.at.selected, first, last);
                match table.key_at(row) {
                    Some(key) => Some(text::owned(key)),
                    None => None,
                }
            },
            _ => None,
        }
    }

    /// Whether the attribute statistics need measuring again: never measured, measured over another
    /// window, or gone stale. Everything else reuses the measurement held.
    pub fn needs_attr_measure(&self, now: u64) -> (r: bool)
        ensures
            r == self@.needs_measure(now),
    {
        match &self.attrs.attr_stats {
            Some(stats) => {
                !same_window(stats.key, self.range.attr_window) || (now >= stats.measured_at && now - stats.measured_at
                    >= ATTR_MEASURE_INTERVAL)
            },
            None => true,
        }
    }

    /// Puts the measurement in the attribute pane, where the two belong together: on the Overview,
    /// and measured over the window now selected. The Overview's two panes are answered on their
    /// own schedules, so this follows both arrivals.
    pub fn compose_attr_stats(&mut self)
        ensures
            final(self)@ == old(self)@.compose(),
    {
        if self.has_attr_pane() {
            if let Some(stats) = &self.attrs.attr_stats {
                if same_window(stats.key, self.range.attr_window) {
                    let pane = model::share(&stats.pane);
                    self.snapshot.detail = Some(pane);
                    self.snap_attr_cursor();
                }
            }
        }
    }

    /// Records an attribute measurement and shows it if it is still current.
    pub fn take_attr_stats(&mut self, key: Option<(i64, i64)>, pane: Arc<DetailPane>, now: u64)
        ensures
            final(self)@ == old(self)@.take_stats(key, pane, now),
    {
        self.attrs.attr_stats = Some(AttrStats { key, measured_at: now, pane });
        self.compose_attr_stats();
    }
}

/// `x` held between `first` and `last`.
pub(crate) fn clamped(x: usize, first: usize, last: usize) -> (r: usize)
    ensures
        r == geometry::clamp(x as int, first as int, last as int),
{
    if x < first {
        first
    } else if x > last {
        last
    } else {
        x
    }
}

/// Whether two windows are the same.
pub(crate) fn same_window(a: Option<(i64, i64)>, b: Option<(i64, i64)>) -> (r: bool)
    ensures
        r == (a == b),
{
    match (a, b) {
        (Some(a), Some(b)) => a.0 == b.0 && a.1 == b.1,
        (None, None) => true,
        _ => false,
    }
}

/// The cursor of the attribute pane only ever moves to rows that show a key: where it moves, or is
/// put back into the focused section, it stands on one.
pub proof fn law_the_attribute_cursor_stands_on_keys(a: AppView, delta: int)
    requires
        a.attr_table() matches Some(table) ==> table.kinds@.len() <= usize::MAX && table.data.rows@.len() <= usize::MAX,
    ensures
        a.move_key(delta) matches Some(b) ==> a.attr_table()->0.key(b.at.selected as int) is Some,
        a.effective_focus() matches Focus::AttrTable(section) && a.attr_keys(section as int).len() > 0
            ==> a.attr_table()->0.key(a.snap().at.selected as int) is Some,
{
    assert forall|section: int| a.attr_keys(section).len() > 0 implies a.attr_table() is Some && forall|i: int|
        0 <= i < a.attr_keys(section).len() ==> a.attr_table()->0.key(#[trigger] a.attr_keys(section)[i] as int) is Some by {
        let table = a.attr_table()->0;
        let starts = a.attr_sections();
        let end = if section + 1 < starts.len() { starts[section + 1] as int } else { table.data.rows@.len() as int };
        law_key_rows_are_the_keys(table, starts[section] as int, end);
    }
    let section = match a.effective_focus() {
        Focus::AttrTable(section) => section as int,
        _ => 0,
    };
    let keys = a.attr_keys(section);
    lemma_first_at_least(keys, a.at.selected, 0);
    let forward = delta >= 0;
    lemma_keyed_section(a, if forward { section + 1 } else { section - 1 }, forward);
}

} // verus!
