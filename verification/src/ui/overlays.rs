//! What drops over the panes: the time-range picker, the absolute-range form, the completion popup,
//! and the loading banner.

use vstd::prelude::*;

use crate::app::{App, AppView};
use crate::completion::{CandidateKind, CandidateView, Completion, CompletionView};
use crate::geometry;
use crate::geometry::Rect;
use crate::model;
use crate::model::{AbsTarget, SPINNER_FRAME, TIME_RANGES_LEN};
use crate::style;
use crate::style::{Color, Span, SpanView, Style};
use crate::text;
use crate::textfield;
use crate::time;
use crate::ui::glyphs;
use crate::ui::glyphs::Glyphs;
use crate::ui::pane;
use crate::ui::pane::{Body, BodyView, Border, Pane, PaneView, Wrap};
use crate::width;

verus! {

/// Where the time-range picker drops: from the anchor's near edge, kept within the area.
pub open spec fn picker_area(anchor: Rect, area: Rect) -> Rect {
    let width = geometry::min(36, area.width as int);
    let height = geometry::min(TIME_RANGES_LEN + 3, area.height as int);
    let last = geometry::monus(area.right_end(), width);
    let x = geometry::max(
        if anchor.width > width {
            geometry::min(anchor.x as int, last)
        } else {
            geometry::min(geometry::monus(anchor.right_end(), width), last)
        },
        area.x as int,
    );
    let y = geometry::min(
        if anchor.height > height {
            geometry::min(anchor.y + 1, u16::MAX as int)
        } else {
            anchor.bottom_end()
        },
        geometry::monus(area.bottom_end(), height),
    );
    Rect { x: x as u16, y: y as u16, width: width as u16, height: height as u16 }
}

/// The picker's row of a preset.
pub open spec fn preset_text(index: int) -> Seq<char> {
    text::pad_end(model::range_label(index), 4) + " window "@ + text::pad_start(
        time::human_text(model::range_secs(index).0),
        5,
    ) + "  step "@ + text::dec(model::range_secs(index).1) + "s"@
}

/// The rows of the first `n` presets.
pub open spec fn preset_rows(n: nat) -> Seq<Seq<SpanView>>
    decreases n,
{
    if n == 0 {
        Seq::empty()
    } else {
        preset_rows((n - 1) as nat).push(pane::line(preset_text(n - 1), style::plain()))
    }
}

/// The picker's row for an explicit window.
pub open spec fn absolute_text(ellipsis: Seq<char>) -> Seq<char> {
    "Absolute"@ + ellipsis + "  set explicit start / end"@
}

/// The time-range picker.
#[verifier::opaque]
pub open spec fn picker(cursor: usize, anchor: Rect, area: Rect, ellipsis: Seq<char>) -> PaneView {
    PaneView {
        area: picker_area(anchor, area),
        clear: true,
        title: "Time range (Enter: apply, Esc: cancel)"@,
        border: Border::Boxed(style::plain()),
        style: style::plain(),
        body: BodyView::Items {
            items: preset_rows(TIME_RANGES_LEN as nat).push(pane::line(absolute_text(ellipsis), style::plain())),
            selected: Some(cursor),
            first: 0,
        },
    }
}

/// The time-range picker: a row for each preset, and one for an explicit window.
pub fn draw_time_range_picker(app: &App, anchor: Rect, area: Rect, g: &Glyphs) -> (r: Pane)
    ensures
        r@ == picker(app@.range.range_cursor, anchor, area, g.ellipsis@),
{
    proof {
        reveal(picker);
    }
    let width: u16 = geometry::min16(36, area.width);
    let height: u16 = geometry::min16(11, area.height);
    let last: u16 = geometry::monus16(area.right(), width);
    let near: u16 = if anchor.width > width {
        geometry::min16(anchor.x, last)
    } else {
        geometry::min16(geometry::monus16(anchor.right(), width), last)
    };
    let x: u16 = geometry::max16(near, area.x);
    let below: u16 = if anchor.height > height { anchor.y.saturating_add(1) } else { anchor.bottom() };
    let y: u16 = geometry::min16(below, geometry::monus16(area.bottom(), height));
    let mut items: Vec<Vec<Span>> = Vec::new();
    assert(pane::lines_view(items@) =~= preset_rows(0));
    let mut i: usize = 0;
    while i < TIME_RANGES_LEN
        invariant
            i <= TIME_RANGES_LEN,
            pane::lines_view(items@) == preset_rows(i as nat),
        decreases TIME_RANGES_LEN - i,
    {
        let preset = model::time_range(i);
        let mut row = String::new();
        text::push_padded(&mut row, preset.label, 4);
        row.append(" window ");
        text::push_right(&mut row, &time::humanize_secs(preset.lookback_secs), 5);
        row.append("  step ");
        text::push_dec(&mut row, preset.step_secs);
        row.append("s");
        assert(row@ =~= preset_text(i as int));
        pane::add_row(&mut items, pane::one_line(row, Style::plain()));
        i += 1;
    }
    pane::add_row(
        &mut items,
        pane::one_line(text::cat3("Absolute", g.ellipsis, "  set explicit start / end"), Style::plain()),
    );
    Pane {
        area: Rect { x, y, width, height },
        clear: true,
        title: text::owned("Time range (Enter: apply, Esc: cancel)"),
        border: Border::Boxed(Style::plain()),
        style: Style::plain(),
        body: Body::Items { items, selected: Some(app.range.range_cursor), first: 0 },
    }
}

/// The columns of one character of a field, at least one.
pub open spec fn field_cells(c: char) -> int {
    geometry::max(width::cells(seq![c]) as int, 1)
}

/// The columns of the first `n` characters of a field.
pub open spec fn column(s: Seq<char>, n: int) -> int
    decreases n,
{
    if n <= 0 { 0 } else { column(s, n - 1) + field_cells(s[n - 1]) }
}

/// The position of the character at a byte offset, from position `i` on.
pub open spec fn char_at(s: Seq<char>, caret: int, i: int) -> Option<int>
    decreases s.len() - i,
{
    if i < 0 || i >= s.len() {
        None
    } else if textfield::offset(s, i) == caret {
        Some(i)
    } else {
        char_at(s, caret, i + 1)
    }
}

/// The characters of a field and, where the caret stands at the end, a block for it.
pub open spec fn field_chars(s: Seq<char>, caret: int) -> Seq<char> {
    if caret >= text::byte_len(s) { s.push(' ') } else { s }
}

/// The position of the character that the caret is on.
pub open spec fn caret_at(s: Seq<char>, caret: int) -> Option<int> {
    if caret >= text::byte_len(s) { Some(s.len() as int) } else { char_at(s, caret, 0) }
}

/// The first column of a field that is shown: the least that leaves the caret within the window.
pub open spec fn field_offset(s: Seq<char>, caret: int, w: int) -> int {
    let at = match caret_at(s, caret) {
        Some(i) => column(field_chars(s, caret), i),
        None => 0,
    };
    geometry::monus(at, geometry::monus(w, 1))
}

/// The run of plain text that is open, closed.
pub open spec fn closed(spans: Seq<SpanView>, run: Seq<char>, look: Style) -> Seq<SpanView> {
    if run.len() == 0 { spans } else { spans.push(pane::one(run, look)) }
}

/// What the first `n` characters of a field show: the spans, and the run of plain text that is open.
pub open spec fn field_run(s: Seq<char>, at: Option<int>, from: int, w: int, look: Style, n: int) -> (
    Seq<SpanView>,
    Seq<char>,
)
    decreases n,
{
    if n <= 0 {
        (Seq::empty(), Seq::empty())
    } else {
        let (spans, run) = field_run(s, at, from, w, look, n - 1);
        let start = column(s, n - 1);
        if start < from || start >= from + w {
            (spans, run)
        } else if at == Some(n - 1) {
            (
                closed(spans, run, look).push(pane::one(seq![s[n - 1]], (Style { reversed: true, ..look }))),
                Seq::empty(),
            )
        } else {
            (spans, run.push(s[n - 1]))
        }
    }
}

/// A field with a block caret, windowed to `w` columns round the caret.
pub open spec fn field_spans(s: Seq<char>, caret: int, w: int, look: Style) -> Seq<SpanView> {
    let cs = field_chars(s, caret);
    let (spans, run) = field_run(cs, caret_at(s, caret), field_offset(s, caret, w), w, look, cs.len() as int);
    closed(spans, run, look)
}

fn char_columns(c: char) -> (r: usize)
    ensures
        r == field_cells(c),
{
    let mut one = String::new();
    one.push(c);
    assert(one@ =~= seq![c]);
    let w: usize = width::str_width(&one);
    if w > 1 { w } else { 1 }
}

/// A text field with a block caret on the character at byte offset `caret`, or a block at its end
/// where the caret stands there, windowed to `w` columns round the caret.
pub fn caret_spans(value: &str, caret: usize, w: usize, look: Style) -> (r: Vec<Span>)
    ensures
        style::spans(r@) == field_spans(value@, caret as int, w as int, look),
{
    let mut cs = text::chars_of(value);
    let ghost s = value@;
    let total: usize = text::bytes_of(value);
    let mut at: Option<usize> = None;
    if caret >= total {
        at = Some(cs.len());
        cs.push(' ');
    } else {
        let n: usize = cs.len();
        let mut i: usize = 0;
        let mut bytes: usize = 0;
        assert(s.take(0) =~= Seq::<char>::empty());
        while i < n
            invariant
                i <= n,
                n == cs@.len(),
                cs@ == s,
                total == text::byte_len(s),
                bytes == textfield::offset(s, i as int),
                at is None ==> char_at(s, caret as int, 0) == char_at(s, caret as int, i as int),
                at matches Some(k) ==> char_at(s, caret as int, 0) == Some(k as int),
            decreases n - i,
        {
            if bytes == caret && at.is_none() {
                at = Some(i);
            }
            assert(s.take(i + 1).drop_last() =~= s.take(i as int));
            proof {
                text::lemma_byte_len_prefix(s, i + 1, s.len() as int);
                assert(s.take(s.len() as int) =~= s);
            }
            bytes = bytes + text::char_bytes(cs[i]);
            i += 1;
        }
    }
    let ghost all = field_chars(s, caret as int);
    assert(cs@ == all);
    let ghost spot: Option<int> = caret_at(s, caret as int);
    assert(spot == match at {
        Some(k) => Some(k as int),
        None => None,
    });
    let n: usize = cs.len();
    let mut caret_column: u128 = 0;
    let mut sum: u128 = 0;
    let mut i: usize = 0;
    while i < n
        invariant
            n == cs@.len(),
            i <= n,
            cs@ == all,
            sum == column(all, i as int),
            sum <= i * usize::MAX,
            spot == match at {
                Some(k) => Some(k as int),
                None => None,
            },
            caret_column == match at {
                Some(k) => if k < i { column(all, k as int) } else { 0 },
                None => 0,
            },
            caret_column <= sum,
        decreases n - i,
    {
        match at {
            Some(k) => {
                if k == i {
                    caret_column = sum;
                }
            },
            None => {},
        }
        assert(i * usize::MAX + usize::MAX <= u128::MAX) by (nonlinear_arith)
            requires
                i < usize::MAX,
                usize::MAX <= 0xffff_ffff_ffff_ffff,
        ;
        assert((i + 1) * usize::MAX == i * usize::MAX + usize::MAX) by (nonlinear_arith);
        sum = sum + char_columns(cs[i]) as u128;
        i += 1;
    }
    proof {
        if spot is Some {
            lemma_caret_in_cells(s, caret as int);
        }
    }
    let room: u128 = if w > 0 { (w - 1) as u128 } else { 0 };
    let from: u128 = if caret_column > room { caret_column - room } else { 0 };
    let mut spans: Vec<Span> = Vec::new();
    let mut run = String::new();
    let mut start: u128 = 0;
    let mut j: usize = 0;
    assert(style::spans(spans@) =~= Seq::empty());
    assert(run@ =~= Seq::empty());
    while j < n
        invariant
            n == cs@.len(),
            j <= n,
            cs@ == all,
            start == column(all, j as int),
            start <= j * usize::MAX,
            spot == match at {
                Some(k) => Some(k as int),
                None => None,
            },
            (style::spans(spans@), run@) == field_run(all, spot, from as int, w as int, look, j as int),
        decreases n - j,
    {
        if start < from || start - from >= w as u128 {
        } else if at == Some(j) {
            if text::chars_of(&run).len() > 0 {
                pane::add_span(&mut spans, run, look);
            }
            run = String::new();
            assert(run@ =~= Seq::empty());
            let mut one = String::new();
            one.push(cs[j]);
            assert(one@ =~= seq![cs@[j as int]]);
            pane::add_span(&mut spans, one, look.reversed());
        } else {
            run.push(cs[j]);
        }
        assert(j * usize::MAX + usize::MAX <= u128::MAX) by (nonlinear_arith)
            requires
                j < usize::MAX,
                usize::MAX <= 0xffff_ffff_ffff_ffff,
        ;
        assert((j + 1) * usize::MAX == j * usize::MAX + usize::MAX) by (nonlinear_arith);
        start = start + char_columns(cs[j]) as u128;
        j += 1;
    }
    if text::chars_of(&run).len() > 0 {
        pane::add_span(&mut spans, run, look);
    }
    spans
}

proof fn lemma_caret_in_cells(s: Seq<char>, caret: int)
    requires
        caret_at(s, caret) is Some,
    ensures
        0 <= caret_at(s, caret)->0 < field_chars(s, caret).len(),
{
    if caret < text::byte_len(s) {
        lemma_char_at_inside(s, caret, 0);
    }
}

proof fn lemma_char_at_inside(s: Seq<char>, caret: int, i: int)
    requires
        i >= 0,
    ensures
        char_at(s, caret, i) matches Some(k) ==> i <= k < s.len() && textfield::offset(s, k) == caret,
    decreases s.len() - i,
{
    if i < s.len() {
        lemma_char_at_inside(s, caret, i + 1);
    }
}

/// The caret of a field stays in its window, however long the field is: its column is one of the `w`
/// that are shown.
pub proof fn law_the_caret_of_a_field_is_visible(s: Seq<char>, caret: int, w: int)
    requires
        caret_at(s, caret) is Some,
        w > 0,
    ensures
        ({
            let at = column(field_chars(s, caret), caret_at(s, caret)->0);
            field_offset(s, caret, w) <= at < field_offset(s, caret, w) + w
        }),
{
    lemma_caret_in_cells(s, caret);
    lemma_column_grows(field_chars(s, caret), caret_at(s, caret)->0);
}

proof fn lemma_column_grows(s: Seq<char>, n: int)
    ensures
        column(s, n) >= 0,
    decreases n,
{
    if n > 0 {
        lemma_column_grows(s, n - 1);
    }
}

/// Where the absolute-range form drops.
pub open spec fn form_area(anchor: Rect, area: Rect) -> Rect {
    let width = geometry::min(48, area.width as int);
    let height = geometry::min(5, area.height as int);
    let x = geometry::max(
        geometry::min(geometry::monus(anchor.right_end(), width), geometry::monus(area.right_end(), width)),
        area.x as int,
    );
    let y = geometry::min(anchor.bottom_end(), geometry::monus(area.bottom_end(), height));
    Rect { x: x as u16, y: y as u16, width: width as u16, height: height as u16 }
}

/// The look of a form's value.
pub open spec fn value_look(focused: bool) -> Style {
    pane::border_look(focused)
}

/// A line of the form: the label, and the value with a caret where the field has the focus.
pub open spec fn form_line(label: Seq<char>, value: Seq<char>, focused: bool, caret: int, w: int) -> Seq<SpanView> {
    seq![pane::one(" "@ + label + "  "@, style::colored(Color::DarkGray))] + if focused {
        field_spans(value, caret, w, value_look(true))
    } else {
        seq![pane::one(value, value_look(false))]
    }
}

/// The hint of the form, or what is wrong with its fields.
pub open spec fn form_hint(error: Option<Seq<char>>, target: AbsTarget, sep: Seq<char>) -> SpanView {
    match error {
        Some(e) => pane::one(" "@ + e, style::colored(Color::Red)),
        None => pane::one(
            if target == AbsTarget::Attributes {
                " UTC "@ + sep + " Tab: field "@ + sep + " Enter: apply "@ + sep + " empty: all"@
            } else {
                " UTC "@ + sep + " YYYY-MM-DD HH:MM:SS "@ + sep + " Tab: field "@ + sep + " Enter: apply"@
            },
            style::colored(Color::DarkGray),
        ),
    }
}

/// The caret of the form's focused field.
pub open spec fn form_caret(a: AppView) -> int {
    textfield::offset(
        a.range.abs_text(),
        textfield::before(a.range.abs_text(), a.range.abs_cursor as int) as int,
    ) as int
}

/// The lines of the absolute-range form, `w` columns wide inside.
pub open spec fn form_lines(a: AppView, w: int, sep: Seq<char>) -> Seq<Seq<SpanView>> {
    seq![
        form_line("start"@, a.range.abs_start, a.range.abs_field == 0, form_caret(a), w),
        form_line("end  "@, a.range.abs_end, a.range.abs_field == 1, form_caret(a), w),
        seq![form_hint(a.range.abs_error, a.range.abs_target, sep)],
    ]
}

/// The absolute-range form.
#[verifier::opaque]
pub open spec fn form(a: AppView, anchor: Rect, area: Rect, sep: Seq<char>) -> PaneView {
    let popup = form_area(anchor, area);
    PaneView {
        clear: true,
        ..pane::boxed_lines(
            popup,
            if a.range.abs_target == AbsTarget::Attributes {
                "Attribute-statistics range (Esc: cancel)"@
            } else {
                "Absolute range (Esc: cancel)"@
            },
            form_lines(a, geometry::monus(geometry::monus(popup.width as int, 2), 8), sep),
        )
    }
}

fn field_line(label: &str, value: &str, focused: bool, caret: usize, w: usize) -> (r: Vec<Span>)
    ensures
        style::spans(r@) == form_line(label@, value@, focused, caret as int, w as int),
{
    let mut spans = pane::one_line(text::cat3(" ", label, "  "), Style::fg(Color::DarkGray));
    let ghost first = style::spans(spans@);
    if focused {
        let mut rest = caret_spans(value, caret, w, pane::focus_border(true));
        let ghost tail = rest@;
        let ghost head = spans@;
        spans.append(&mut rest);
        assert(style::spans(spans@) =~= first + style::spans(tail));
    } else {
        pane::add_span(&mut spans, text::owned(value), pane::focus_border(false));
        assert(style::spans(spans@) =~= first + seq![pane::one(value@, value_look(false))]);
    }
    spans
}

/// The absolute-range form: a field for the start and one for the end, the focused one with a caret,
/// and a hint or what is wrong. It drops from what it edits.
pub fn draw_absolute_range(app: &App, anchor: Rect, area: Rect, g: &Glyphs) -> (r: Pane)
    ensures
        r@ == form(app@, anchor, area, g.sep@),
{
    proof {
        reveal(form);
    }
    let width: u16 = geometry::min16(48, area.width);
    let height: u16 = geometry::min16(5, area.height);
    let x: u16 = geometry::max16(
        geometry::min16(geometry::monus16(anchor.right(), width), geometry::monus16(area.right(), width)),
        area.x,
    );
    let y: u16 = geometry::min16(anchor.bottom(), geometry::monus16(area.bottom(), height));
    let value_width: usize = geometry::monus16(geometry::monus16(width, 2), 8) as usize;
    let attributes = app.range.abs_target == AbsTarget::Attributes;
    let hint = match &app.range.abs_error {
        Some(error) => pane::one_line(text::cat(" ", error), Style::fg(Color::Red)),
        None => {
            let mut out = text::cat(" UTC ", g.sep);
            if attributes {
                out.append(" Tab: field ");
                out.append(g.sep);
                out.append(" Enter: apply ");
                out.append(g.sep);
                out.append(" empty: all");
            } else {
                out.append(" YYYY-MM-DD HH:MM:SS ");
                out.append(g.sep);
                out.append(" Tab: field ");
                out.append(g.sep);
                out.append(" Enter: apply");
            }
            pane::one_line(out, Style::fg(Color::DarkGray))
        },
    };
    let caret: usize = app.range.abs_caret();
    let mut lines: Vec<Vec<Span>> = Vec::new();
    lines.push(field_line("start", &app.range.abs_start, app.range.abs_field == 0, caret, value_width));
    lines.push(field_line("end  ", &app.range.abs_end, app.range.abs_field == 1, caret, value_width));
    lines.push(hint);
    assert(pane::lines_view(lines@) =~= form_lines(app@, value_width as int, g.sep@));
    let title = if attributes { "Attribute-statistics range (Esc: cancel)" } else { "Absolute range (Esc: cancel)" };
    let mut r = pane::boxed_lines_pane(Rect { x, y, width, height }, text::owned(title), lines);
    r.clear = true;
    r
}

/// The colour of a candidate, by its kind.
pub open spec fn candidate_look(kind: CandidateKind) -> Style {
    match kind {
        CandidateKind::Function => style::colored(Color::Cyan),
        CandidateKind::Keyword => style::colored(Color::Yellow),
        CandidateKind::Metric => style::plain(),
        CandidateKind::Label => style::colored(Color::Green),
        CandidateKind::LabelValue => style::colored(Color::Magenta),
        CandidateKind::Operator => style::colored(Color::Blue),
    }
}

/// The items of the completion popup.
pub open spec fn candidate_rows(v: Seq<CandidateView>) -> Seq<Seq<SpanView>> {
    v.map_values(|c: CandidateView| pane::line(c.text, candidate_look(c.kind)))
}

/// The characters of the longest of the first `n` candidates.
pub open spec fn longest(v: Seq<CandidateView>, n: nat) -> int
    decreases n,
{
    if n == 0 { 0 } else { geometry::max(longest(v, (n - 1) as nat), v[n - 1].text.len() as int) }
}

/// Where the completion popup drops: below the query box, two columns in, cut at the frame's edges.
pub open spec fn popup_area(v: Seq<CandidateView>, query_area: Rect, area: Rect) -> Rect {
    let widest = if v.len() == 0 { 8 } else { longest(v, v.len()) };
    let x = query_area.x + 2;
    let y = query_area.y + query_area.height;
    Rect {
        x: x as u16,
        y: y as u16,
        width: geometry::min(
            geometry::clamp(widest, 8, 40) + 4,
            geometry::max(geometry::monus(area.right_end(), x), 1),
        ) as u16,
        height: geometry::min(
            geometry::min(v.len() as int, 8) + 2,
            geometry::max(geometry::monus(area.bottom_end(), y), 1),
        ) as u16,
    }
}

/// The completion popup.
#[verifier::opaque]
pub open spec fn popup(c: CompletionView, query_area: Rect, area: Rect) -> PaneView {
    PaneView {
        area: popup_area(c.candidates, query_area, area),
        clear: true,
        title: "Tab: complete"@,
        border: Border::Boxed(style::plain()),
        style: style::plain(),
        body: BodyView::Items { items: candidate_rows(c.candidates), selected: Some(c.selected), first: 0 },
    }
}

fn look_of(kind: CandidateKind) -> (r: Style)
    ensures
        r == candidate_look(kind),
{
    match kind {
        CandidateKind::Function => Style::fg(Color::Cyan),
        CandidateKind::Keyword => Style::fg(Color::Yellow),
        CandidateKind::Metric => Style::plain(),
        CandidateKind::Label => Style::fg(Color::Green),
        CandidateKind::LabelValue => Style::fg(Color::Magenta),
        CandidateKind::Operator => Style::fg(Color::Blue),
    }
}

/// The completion popup: the candidates, coloured by kind, with the highlighted one selected.
pub fn draw_completion_popup(completion: &Completion, query_area: Rect, area: Rect) -> (r: Pane)
    requires
        query_area.x + 2 <= u16::MAX,
        query_area.y + query_area.height <= u16::MAX,
    ensures
        r@ == popup(completion@, query_area, area),
{
    proof {
        reveal(popup);
    }
    let ghost v = completion@.candidates;
    let ghost all = candidate_rows(v);
    let n: usize = completion.candidates.len();
    let mut items: Vec<Vec<Span>> = Vec::new();
    let mut widest: usize = 0;
    let mut i: usize = 0;
    assert(pane::lines_view(items@) =~= all.take(0));
    while i < n
        invariant
            n == completion.candidates@.len(),
            i <= n,
            v == completion@.candidates,
            all == candidate_rows(v),
            widest == longest(v, i as nat),
            pane::lines_view(items@) == all.take(i as int),
        decreases n - i,
    {
        let c = &completion.candidates[i];
        assert(v[i as int] == c@);
        let len: usize = text::chars_of(&c.text).len();
        if len > widest {
            widest = len;
        }
        pane::add_row(&mut items, pane::one_line(c.text.clone(), look_of(c.kind)));
        i += 1;
        assert(all.take(i as int) =~= all.take(i - 1).push(all[i - 1]));
    }
    assert(all.take(n as int) =~= all);
    assert(v.len() == n);
    if n == 0 {
        widest = 8;
    }
    let wide: u16 = if widest < 8 { 8 } else if widest > 40 { 40 } else { widest as u16 };
    let rows: u16 = if n > 8 { 8 } else { n as u16 };
    let x: u16 = query_area.x + 2;
    let y: u16 = query_area.y + query_area.height;
    let width: u16 = geometry::min16(wide + 4, geometry::max16(geometry::monus16(area.right(), x), 1));
    let height: u16 = geometry::min16(rows + 2, geometry::max16(geometry::monus16(area.bottom(), y), 1));
    Pane {
        area: Rect { x, y, width, height },
        clear: true,
        title: text::owned("Tab: complete"),
        border: Border::Boxed(Style::plain()),
        style: Style::plain(),
        body: Body::Items { items, selected: Some(completion.selected), first: 0 },
    }
}

/// The text of the loading banner: the spinner, the word, and the whole seconds that have gone by.
pub open spec fn banner_text(elapsed: int, g: Glyphs) -> Seq<char> {
    glyphs::spinner_frame(g.ascii, (elapsed / SPINNER_FRAME as int) % glyphs::spinner_len(g.ascii) as int) + " Loading"@
        + g.ellipsis@ + " "@ + text::dec((elapsed / 1_000_000_000) as nat) + "s"@
}

/// The text of the loading banner: the spinner, the word, and the whole seconds that have gone by.
/// `elapsed` is in nanoseconds. It says nothing of the keyboard: the key legend does.
pub fn loading_banner_text(elapsed: u64, g: &Glyphs) -> (r: String)
    ensures
        r@ == banner_text(elapsed as int, *g),
{
    let n: u64 = g.spinner_frames() as u64;
    let frame: u64 = (elapsed / SPINNER_FRAME) % n;
    let mut out = text::cat3(g.spinner(frame as usize), " Loading", g.ellipsis);
    out.append(" ");
    text::push_dec(&mut out, elapsed / 1_000_000_000);
    out.append("s");
    out
}

/// The spinner turns as the wait goes on: whole turns later it shows the same frame.
pub proof fn law_the_spinner_turns(elapsed: int, turns: int, g: Glyphs)
    requires
        elapsed >= 0,
        turns >= 0,
    ensures
        glyphs::spinner_frame(g.ascii, (elapsed / SPINNER_FRAME as int) % glyphs::spinner_len(g.ascii) as int)
            == glyphs::spinner_frame(
            g.ascii,
            ((elapsed + turns * (glyphs::spinner_len(g.ascii) * SPINNER_FRAME)) / SPINNER_FRAME as int)
                % glyphs::spinner_len(g.ascii) as int,
        ),
{
    let n = glyphs::spinner_len(g.ascii) as int;
    let f = SPINNER_FRAME as int;
    let a = elapsed / f;
    let b = (elapsed + turns * (n * f)) / f;
    assert(turns * (n * f) == f * (turns * n)) by (nonlinear_arith);
    vstd::arithmetic::div_mod::lemma_div_multiples_vanish_fancy(turns * n, elapsed % f, f);
    assert(elapsed + f * (turns * n) == f * (a + turns * n) + elapsed % f) by (nonlinear_arith)
        requires
            elapsed == f * a + elapsed % f,
    ;
    vstd::arithmetic::div_mod::lemma_fundamental_div_mod(elapsed, f);
    vstd::arithmetic::div_mod::lemma_fundamental_div_mod_converse(
        elapsed + f * (turns * n),
        f,
        a + turns * n,
        elapsed % f,
    );
    assert(b == a + turns * n);
    assert(turns * n == n * turns) by (nonlinear_arith);
    vstd::arithmetic::div_mod::lemma_mod_multiples_vanish(turns, a, n);
}

/// Where the loading banner stands: in the middle of the area.
pub open spec fn banner_area(text: Seq<char>, area: Rect) -> Rect {
    let width = geometry::min(width::cells(text) as int % 65_536 + 4, area.width as int);
    let height = geometry::min(3, area.height as int);
    Rect {
        x: (area.x + (area.width - width) / 2) as u16,
        y: (area.y + (area.height - height) / 2) as u16,
        width: width as u16,
        height: height as u16,
    }
}

/// The loading banner.
#[verifier::opaque]
pub open spec fn banner(elapsed: int, area: Rect, g: Glyphs) -> PaneView {
    let text = banner_text(elapsed, g);
    PaneView {
        area: banner_area(text, area),
        clear: true,
        title: ""@,
        border: Border::Boxed(style::colored(Color::Yellow)),
        style: style::plain(),
        body: BodyView::Lines {
            lines: seq![pane::line(text, (Style { bold: true, ..style::colored(Color::Yellow) }))],
            wrap: Wrap::Cut,
            offset: 0,
            centered: true,
        },
    }
}

/// The loading banner: a small box in the middle of the screen, where it cannot be missed.
pub fn draw_loading_banner(elapsed: u64, area: Rect, g: &Glyphs) -> (r: Pane)
    requires
        area.fits(),
    ensures
        r@ == banner(elapsed as int, area, *g),
{
    proof {
        reveal(banner);
    }
    let out = loading_banner_text(elapsed, g);
    let cells: u64 = width::str_width(&out) as u64 % 65_536;
    let wide: u64 = cells + 4;
    let w: u16 = if wide < area.width as u64 { wide as u16 } else { area.width };
    let h: u16 = geometry::min16(3, area.height);
    let popup = Rect {
        x: area.x + (area.width - w) / 2,
        y: area.y + (area.height - h) / 2,
        width: w,
        height: h,
    };
    let look = Style { fg: Some(Color::Yellow), bg: None, bold: true, underlined: false, reversed: false };
    let mut lines: Vec<Vec<Span>> = Vec::new();
    lines.push(pane::one_line(out, look));
    assert(pane::lines_view(lines@) =~= seq![pane::line(out@, look)]);
    Pane {
        area: popup,
        clear: true,
        title: text::owned(""),
        border: Border::Boxed(Style::fg(Color::Yellow)),
        style: Style::plain(),
        body: Body::Lines { lines, wrap: Wrap::Cut, offset: 0, centered: true },
    }
}

/// The overlays stay within the frame: the picker, the form and the banner lie in the area that they
/// drop over.
pub proof fn law_overlays_stay_on_screen(anchor: Rect, area: Rect, elapsed: int, g: Glyphs)
    requires
        area.fits(),
    ensures
        picker_area(anchor, area).x >= area.x,
        picker_area(anchor, area).x + picker_area(anchor, area).width <= area.x + area.width,
        picker_area(anchor, area).y + picker_area(anchor, area).height <= area.y + area.height,
        form_area(anchor, area).x >= area.x,
        form_area(anchor, area).x + form_area(anchor, area).width <= area.x + area.width,
        form_area(anchor, area).y + form_area(anchor, area).height <= area.y + area.height,
        banner_area(banner_text(elapsed, g), area).within(area),
{
}

/// The completion popup stays within the frame, where the frame goes on to the right of its column and
/// below the query box.
pub proof fn law_the_popup_stays_on_screen(v: Seq<CandidateView>, query_area: Rect, area: Rect)
    requires
        area.fits(),
        area.x <= query_area.x,
        area.y <= query_area.y,
        query_area.x + 2 < area.x + area.width,
        query_area.y + query_area.height < area.y + area.height,
    ensures
        popup_area(v, query_area, area).within(area),
        popup_area(v, query_area, area).y == query_area.y + query_area.height,
{
}

} // verus!
