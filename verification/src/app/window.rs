//! The query time window: the rolling presets, the absolute-range form, and pan and zoom.

use vstd::prelude::*;

use crate::app::{App, AppView, TimeSelection, TimeView};
use crate::geometry;
use crate::model;
use crate::model::{AbsTarget, Mode, NavView, MAX_WINDOW_NS, MIN_WINDOW_NS, TIME_RANGES_LEN};
use crate::text;
use crate::time;
use crate::time::Duration;
use crate::ui::glyphs::Glyphs;

verus! {

/// An instant held within sixty-four bits.
pub open spec fn instant(ns: int) -> i64 {
    geometry::clamp(ns, i64::MIN as int, i64::MAX as int) as i64
}

/// The length of a window: at least one nanosecond.
pub open spec fn span_of(window: (i64, i64)) -> int {
    geometry::max(window.1 - window.0, 1)
}

/// `num / den` of a window's length, rounded down. The length is taken in double precision.
pub open spec fn part_of(span: int, num: u32, den: u32) -> int {
    (time::as_double(span as nat) * num as nat) as int / den as int
}

/// `num / den` of a window's length, rounded to the nearest nanosecond and held between the
/// shortest and the longest window.
pub open spec fn zoomed_span(span: int, num: u32, den: u32) -> int {
    geometry::clamp(
        (2 * (time::as_double(span as nat) * num as nat) + den) / (2 * den as int),
        MIN_WINDOW_NS as int,
        MAX_WINDOW_NS as int,
    )
}

impl TimeView {
    /// The window in effect at `now`: the absolute one where it is set, else the rolling preset.
    pub open spec fn window(self, now: i64) -> (i64, i64) {
        match self.abs_window {
            Some(window) => window,
            None => (instant(now - model::range_secs(self.range_index as int).0 * 1_000_000_000), now),
        }
    }

    /// The text that the header shows for the window.
    pub open spec fn summary(self, arrow: Seq<char>) -> Seq<char> {
        match self.abs_window {
            Some((start, end)) => {
                let from = time::datetime_text(start as int);
                let to = time::datetime_text(end as int);
                if from.take(10) == to.take(10) {
                    from + " "@ + arrow + " "@ + to.skip(11)
                } else {
                    from + " "@ + arrow + " "@ + to
                }
            },
            None => "last "@ + model::range_label(self.range_index as int),
        }
    }

    /// The form opened on `window`, where there is one, its focus at the end of the start.
    pub open spec fn open_form(self, target: AbsTarget, window: Option<(i64, i64)>) -> TimeView {
        let start = match window {
            Some((start, _)) => time::datetime_text(start as int),
            None => Seq::empty(),
        };
        let end = match window {
            Some((_, end)) => time::datetime_text(end as int),
            None => Seq::empty(),
        };
        TimeView {
            abs_target: target,
            abs_start: start,
            abs_end: end,
            abs_field: 0,
            abs_cursor: text::byte_len(start) as usize,
            abs_error: None,
            ..self
        }
    }

    /// What the form says: a window, none where both fields of the attribute form are empty, or
    /// what is wrong with it.
    pub open spec fn read_form(self) -> Result<Option<(i64, i64)>, Seq<char>> {
        if self.abs_target == AbsTarget::Attributes && self.abs_start.len() == 0 && self.abs_end.len() == 0 {
            Ok(None)
        } else {
            match (time::parsed_datetime(self.abs_start), time::parsed_datetime(self.abs_end)) {
                (None, _) => Err("start: expected UTC YYYY-MM-DD HH:MM:SS"@),
                (_, None) => Err("end: expected UTC YYYY-MM-DD HH:MM:SS"@),
                (Some(start), Some(end)) => if start >= end {
                    Err("start must be before end"@)
                } else {
                    Ok(Some((start as i64, end as i64)))
                },
            }
        }
    }
}

impl AppView {
    /// The state with the cursor and the scroll position at the top.
    pub open spec fn at_top(self) -> AppView {
        AppView { at: NavView { scroll: 0, selected: 0, ..self.at }, ..self }
    }

    /// The state with another absolute window, from the top.
    pub open spec fn moved_to(self, window: Option<(i64, i64)>) -> AppView {
        (AppView { range: TimeView { abs_window: window, ..self.range }, ..self }).at_top()
    }

    /// The state with the absolute-range form open on the window in effect.
    pub open spec fn open_absolute_form(self, now: i64) -> AppView {
        AppView {
            range: self.range.open_form(AbsTarget::Query, Some(self.range.window(now))),
            mode: Mode::AbsoluteRange,
            ..self
        }
    }

    /// The state with the absolute-range form open on the attribute window.
    pub open spec fn open_attr_range_form(self) -> AppView {
        AppView {
            range: self.range.open_form(AbsTarget::Attributes, self.range.attr_window),
            mode: Mode::AbsoluteRange,
            ..self
        }
    }

    /// The state once the form is committed.
    pub open spec fn commit_absolute(self) -> AppView {
        match self.range.read_form() {
            Ok(window) => (AppView {
                range: if self.range.abs_target == AbsTarget::Query {
                    TimeView { abs_window: window, abs_error: None, ..self.range }
                } else {
                    TimeView { attr_window: window, abs_error: None, ..self.range }
                },
                mode: Mode::Normal,
                ..self
            }).at_top(),
            Err(error) => AppView { range: TimeView { abs_error: Some(error), ..self.range }, ..self },
        }
    }

    /// The state with the window moved by `num / den` of its length, where that changes it. Moving
    /// later never crosses `now`: reaching it resumes the rolling window.
    pub open spec fn pan(self, later: bool, num: u32, den: u32, now: i64) -> Option<AppView> {
        let (start, end) = self.range.window(now);
        let step = part_of(span_of((start, end)), num, den);
        if step == 0 {
            None
        } else if !later {
            Some(self.moved_to(Some((instant(start - step), instant(end - step)))))
        } else if step >= geometry::max(now - end, 0) {
            if self.range.abs_window is None { None } else { Some(self.moved_to(None)) }
        } else {
            Some(self.moved_to(Some((instant(start + step), instant(end + step)))))
        }
    }

    /// The state with the window's length scaled by `num / den` about its center, where that
    /// changes it.
    pub open spec fn zoom(self, num: u32, den: u32, now: i64) -> Option<AppView> {
        let (start, end) = self.range.window(now);
        let span = span_of((start, end));
        let wanted = zoomed_span(span, num, den);
        let center = start + span / 2;
        if wanted == span {
            None
        } else {
            Some(self.moved_to(Some((instant(center - wanted / 2), instant(center + wanted / 2)))))
        }
    }
}

fn held(ns: i128) -> (r: i64)
    ensures
        r == instant(ns as int),
{
    if ns < i64::MIN as i128 {
        i64::MIN
    } else if ns > i64::MAX as i128 {
        i64::MAX
    } else {
        ns as i64
    }
}

fn length(window: (i64, i64)) -> (r: u64)
    ensures
        r == span_of(window),
        r >= 1,
{
    let d: i128 = window.1 as i128 - window.0 as i128;
    if d < 1 { 1 } else { d as u64 }
}

fn double_times(span: u64, num: u32) -> (r: u128)
    ensures
        r == time::as_double(span as nat) * num as nat,
        r <= 0x1_0000_0000_0000_0000_0000_0000,
{
    let d: u128 = time::double_of(span);
    assert(d * num as u128 <= 0x1_0000_0000_0000_0000 * 0x1_0000_0000) by (nonlinear_arith)
        requires
            d <= 0x1_0000_0000_0000_0000,
            num <= 0xffff_ffff,
    ;
    d * num as u128
}

impl App {
    /// The length of the selected preset.
    pub fn lookback(&self) -> (r: Duration)
        requires
            self@.range.range_index < TIME_RANGES_LEN,
        ensures
            r.nanos == model::range_secs(self@.range.range_index as int).0 * 1_000_000_000,
    {
        Duration::from_secs(model::time_range(self.range.range_index).lookback_secs)
    }

    /// The evaluation step of the selected preset.
    pub fn step(&self) -> (r: Duration)
        requires
            self@.range.range_index < TIME_RANGES_LEN,
        ensures
            r.nanos == model::range_secs(self@.range.range_index as int).1 * 1_000_000_000,
    {
        Duration::from_secs(model::time_range(self.range.range_index).step_secs)
    }

    /// The label of the selected preset.
    pub fn range_label(&self) -> (r: &'static str)
        requires
            self@.range.range_index < TIME_RANGES_LEN,
        ensures
            r@ == model::range_label(self@.range.range_index as int),
    {
        model::time_range(self.range.range_index).label
    }

    /// The query window in effect at `now`: the absolute one where it is set, else the rolling one
    /// of the selected preset.
    pub fn effective_window(&self, now: i64) -> (r: (i64, i64))
        requires
            self@.range.range_index < TIME_RANGES_LEN,
        ensures
            r == self@.range.window(now),
    {
        match self.range.abs_window {
            Some(window) => window,
            None => {
                let back: u64 = model::time_range(self.range.range_index).lookback_secs;
                (held(now as i128 - back as i128 * 1_000_000_000), now)
            },
        }
    }

    /// The window for the header: the absolute one, a date shared by both ends shown once, or
    /// `last` and the preset's label.
    pub fn range_summary(&self, g: &Glyphs) -> (r: String)
        requires
            self@.range.range_index < TIME_RANGES_LEN,
        ensures
            r@ == self@.range.summary(g.right@),
    {
        match self.range.abs_window {
            Some((start, end)) => {
                let from = text::chars_of(&time::format_datetime_ns(start));
                let to = text::chars_of(&time::format_datetime_ns(end));
                proof {
                    time::law_datetime_text_has_fixed_width(start);
                    time::law_datetime_text_has_fixed_width(end);
                }
                let mut out = text::string_of(&from);
                out.append(" ");
                out.append(g.right);
                out.append(" ");
                let from_day = text::string_range(&from, 0, 10);
                let to_day = text::string_range(&to, 0, 10);
                assert(from_day@ =~= from@.take(10));
                assert(to_day@ =~= to@.take(10));
                let rest = if text::same(&from_day, &to_day) {
                    let clock = text::string_range(&to, 11, to.len());
                    assert(clock@ =~= to@.skip(11));
                    clock
                } else {
                    text::string_of(&to)
                };
                out.append(&rest);
                out
            },
            None => text::cat("last ", self.range_label()),
        }
    }

    /// Opens the absolute-range form on the window in effect.
    pub fn open_absolute_form(&mut self, now: i64)
        requires
            old(self)@.range.range_index < TIME_RANGES_LEN,
        ensures
            final(self)@ == old(self)@.open_absolute_form(now),
    {
        let window = self.effective_window(now);
        self.range.open_form(AbsTarget::Query, Some(window));
        self.mode = Mode::AbsoluteRange;
    }

    /// Opens the absolute-range form on the window of the attribute statistics; an unbounded one is
    /// an empty form.
    pub fn open_attr_range_form(&mut self)
        ensures
            final(self)@ == old(self)@.open_attr_range_form(),
    {
        let window = self.range.attr_window;
        self.range.open_form(AbsTarget::Attributes, window);
        self.mode = Mode::AbsoluteRange;
    }

    /// Commits the absolute-range form. Where it reads, its window is set and the form closes;
    /// where it does not, the form stays open with the error. Returns whether it was committed.
    pub fn commit_absolute(&mut self) -> (r: bool)
        ensures
            r == (old(self)@.range.read_form() is Ok),
            final(self)@ == old(self)@.commit_absolute(),
    {
        match self.range.read_form() {
            Ok(window) => {
                if self.range.abs_target == AbsTarget::Query {
                    self.range.abs_window = window;
                } else {
                    self.range.attr_window = window;
                }
                self.range.abs_error = None;
                self.mode = Mode::Normal;
                self.at.scroll = 0;
                self.at.selected = 0;
                true
            },
            Err(error) => {
                self.range.abs_error = Some(error);
                false
            },
        }
    }

    fn move_window(&mut self, window: Option<(i64, i64)>)
        ensures
            final(self)@ == old(self)@.moved_to(window),
    {
        self.range.abs_window = window;
        self.at.scroll = 0;
        self.at.selected = 0;
    }

    /// Moves the query window by `num / den` of its length, freezing it into an absolute one; but
    /// moving later far enough to reach `now` resumes the rolling window, so that the view follows
    /// new data. Returns whether the window changed.
    pub fn pan_window(&mut self, later: bool, num: u32, den: u32, now: i64) -> (r: bool)
        requires
            old(self)@.range.range_index < TIME_RANGES_LEN,
            den > 0,
        ensures
            r == (old(self)@.pan(later, num, den, now) is Some),
            r ==> Some(final(self)@) == old(self)@.pan(later, num, den, now),
            !r ==> final(self)@ == old(self)@,
    {
        let (start, end) = self.effective_window(now);
        let whole: u128 = double_times(length((start, end)), num);
        let step: u128 = whole / den as u128;
        assert(step <= whole) by (nonlinear_arith)
            requires
                step == whole / den as u128,
                den > 0,
        ;
        assert(step == part_of(span_of((start, end)), num, den));
        if step == 0 {
            return false;
        }
        let by: i128 = step as i128;
        if !later {
            self.move_window(Some((held(start as i128 - by), held(end as i128 - by))));
            return true;
        }
        let ahead: i128 = now as i128 - end as i128;
        let room: i128 = if ahead > 0 { ahead } else { 0 };
        if by >= room {
            if self.range.abs_window.is_none() {
                return false;
            }
            self.move_window(None);
            return true;
        }
        self.move_window(Some((held(start as i128 + by), held(end as i128 + by))));
        true
    }

    /// Scales the query window's length by `num / den` about its center, between the shortest and
    /// the longest window. Returns whether the window changed.
    pub fn zoom_window(&mut self, num: u32, den: u32, now: i64) -> (r: bool)
        requires
            old(self)@.range.range_index < TIME_RANGES_LEN,
            den > 0,
        ensures
            r == (old(self)@.zoom(num, den, now) is Some),
            r ==> Some(final(self)@) == old(self)@.zoom(num, den, now),
            !r ==> final(self)@ == old(self)@,
    {
        let (start, end) = self.effective_window(now);
        let span: u64 = length((start, end));
        let whole: u128 = double_times(span, num);
        let near: u128 = (2 * whole + den as u128) / (2 * den as u128);
        let wanted: u128 = if near < MIN_WINDOW_NS as u128 {
            MIN_WINDOW_NS as u128
        } else if near > MAX_WINDOW_NS as u128 {
            MAX_WINDOW_NS as u128
        } else {
            near
        };
        assert(wanted == zoomed_span(span as int, num, den));
        if wanted == span as u128 {
            return false;
        }
        let center: i128 = start as i128 + (span / 2) as i128;
        let half: i128 = (wanted / 2) as i128;
        self.move_window(Some((held(center - half), held(center + half))));
        true
    }
}

impl TimeSelection {
    fn open_form(&mut self, target: AbsTarget, window: Option<(i64, i64)>)
        ensures
            final(self)@ == old(self)@.open_form(target, window),
    {
        self.abs_target = target;
        match window {
            Some((start, end)) => {
                self.abs_start = time::format_datetime_ns(start);
                self.abs_end = time::format_datetime_ns(end);
            },
            None => {
                self.abs_start = String::new();
                self.abs_end = String::new();
                assert(self.abs_start@ =~= Seq::empty());
                assert(self.abs_end@ =~= Seq::empty());
            },
        }
        self.abs_field = 0;
        self.abs_cursor = text::bytes_of(&self.abs_start);
        self.abs_error = None;
    }

    fn read_form(&self) -> (r: Result<Option<(i64, i64)>, String>)
        ensures
            match r {
                Ok(window) => self@.read_form() == Ok::<Option<(i64, i64)>, Seq<char>>(window),
                Err(error) => self@.read_form() == Err::<Option<(i64, i64)>, Seq<char>>(error@),
            },
    {
        if self.abs_target == AbsTarget::Attributes && text::chars_of(&self.abs_start).len() == 0 && text::chars_of(
            &self.abs_end,
        ).len() == 0 {
            return Ok(None);
        }
        match (time::parse_datetime(&self.abs_start), time::parse_datetime(&self.abs_end)) {
            (None, _) => Err(text::owned("start: expected UTC YYYY-MM-DD HH:MM:SS")),
            (_, None) => Err(text::owned("end: expected UTC YYYY-MM-DD HH:MM:SS")),
            (Some(start), Some(end)) => {
                if start >= end {
                    Err(text::owned("start must be before end"))
                } else {
                    Ok(Some((start, end)))
                }
            },
        }
    }
}

/// A committed window is ordered, and a form that is not committed changes no window and stays open.
pub proof fn law_only_an_ordered_window_is_committed(a: AppView)
    requires
        a.mode == Mode::AbsoluteRange,
    ensures
        a.range.read_form() matches Ok(Some((start, end))) ==> start < end,
        a.range.read_form() is Err ==> {
            &&& a.commit_absolute().mode == Mode::AbsoluteRange
            &&& a.commit_absolute().range.abs_window == a.range.abs_window
            &&& a.commit_absolute().range.attr_window == a.range.attr_window
            &&& a.commit_absolute().range.abs_error is Some
        },
        a.range.abs_target == AbsTarget::Attributes ==> a.commit_absolute().range.abs_window == a.range.abs_window,
        a.range.abs_target == AbsTarget::Query ==> a.commit_absolute().range.attr_window == a.range.attr_window,
{
}

/// A pan earlier and one later undo each other, away from `now` and from the ends of time.
pub proof fn law_pans_undo_each_other(a: AppView, num: u32, den: u32, now: i64)
    requires
        den > 0,
        a.range.abs_window matches Some((start, end)) && start < end && end <= now && {
            let step = part_of(end - start, num, den);
            step > 0 && start - step >= i64::MIN && now - end > 0
        },
    ensures
        a.pan(false, num, den, now) matches Some(b) && (b.pan(true, num, den, now) matches Some(c)
            && c.range.abs_window == a.range.abs_window),
{
    let (start, end) = a.range.abs_window->0;
    let step = part_of(span_of((start, end)), num, den);
    let b = a.pan(false, num, den, now)->0;
    assert(b.range.abs_window == Some(((start - step) as i64, (end - step) as i64)));
    assert(span_of(b.range.abs_window->0) == span_of((start, end)));
}

/// A pan earlier out of the rolling window and one later return to it, away from the start of time.
pub proof fn law_a_round_trip_returns_to_the_rolling_window(a: AppView, num: u32, den: u32, now: i64)
    requires
        den > 0,
        a.range.abs_window is None,
        a.range.range_index < TIME_RANGES_LEN,
        a.range.window(now).0 - part_of(span_of(a.range.window(now)), num, den) >= i64::MIN,
    ensures
        a.pan(false, num, den, now) matches Some(b) ==> (b.pan(true, num, den, now) matches Some(c)
            && c.range.abs_window is None),
{
    let (start, end) = a.range.window(now);
    let step = part_of(span_of((start, end)), num, den);
    if let Some(b) = a.pan(false, num, den, now) {
        assert(span_of((start, end)) > 0);
        assert(step >= 0) by (nonlinear_arith)
            requires
                step == (time::as_double(span_of((start, end)) as nat) * num as nat) as int / den as int,
                den > 0,
        ;
        assert(b.range.abs_window == Some(((start - step) as i64, (end - step) as i64)));
        assert(span_of(b.range.abs_window->0) == span_of((start, end)));
    }
}

/// A zoom keeps the window's length between the shortest and the longest window, and its center to
/// within a nanosecond, away from the ends of time.
pub proof fn law_a_zoom_keeps_the_center(a: AppView, num: u32, den: u32, now: i64)
    requires
        den > 0,
        a.range.abs_window matches Some((start, end)) && start < end && -4_000_000_000_000_000_000 <= start && end
            <= 4_000_000_000_000_000_000,
    ensures
        a.zoom(num, den, now) matches Some(b) ==> (b.range.abs_window matches Some((s, e)) && MIN_WINDOW_NS - 1 <= e - s
            <= MAX_WINDOW_NS && s + (e - s) / 2 == (a.range.abs_window->0).0 + span_of(a.range.abs_window->0) / 2),
{
}

} // verus!
