//! Rendering values as display text: field padding, severity bands, attributes.

use vstd::prelude::*;

use crate::text;
use crate::width;

verus! {

/// The longest prefix of `s` whose characters take at most `room` cells together.
pub open spec fn fitting(s: Seq<char>, room: int) -> nat
    decreases s.len(),
{
    if s.len() == 0 || width::own_cells(s[0]) > room {
        0
    } else {
        1 + fitting(s.drop_first(), room - width::own_cells(s[0]))
    }
}

/// The cells kept for the text of a cut field of `w` cells, and whether the marker fits beside it.
pub open spec fn kept_cells(w: int, ellipsis: Seq<char>) -> int {
    if width::cells(ellipsis) < w { w - width::cells(ellipsis) } else { w }
}

/// `s` in a field of `w` cells: padded where it fits, else cut, padded where a wide character
/// straddles the cut, and marked where there is room for the marker.
pub open spec fn field_text(s: Seq<char>, w: int, ellipsis: Seq<char>) -> Seq<char> {
    if w == 0 {
        Seq::empty()
    } else if width::cells(s) <= w {
        s + text::rep(' ', w - width::cells(s))
    } else {
        let keep = kept_cells(w, ellipsis);
        let head = s.take(fitting(s, keep) as int);
        head + text::rep(' ', keep - width::sum_cells(head)) + if 0 < width::cells(ellipsis) < w {
            ellipsis
        } else {
            Seq::empty()
        }
    }
}

proof fn lemma_sum_cells_step(s: Seq<char>, k: int)
    requires
        0 <= k < s.len(),
    ensures
        width::sum_cells(s.take(k + 1)) == width::sum_cells(s.take(k)) + width::own_cells(s[k]),
{
    assert(s.take(k + 1).drop_last() =~= s.take(k));
}

proof fn lemma_fitting(s: Seq<char>, room: int)
    requires
        room >= 0,
    ensures
        fitting(s, room) <= s.len(),
        width::sum_cells(s.take(fitting(s, room) as int)) <= room,
    decreases s.len(),
{
    let k = fitting(s, room) as int;
    if k == 0 {
        assert(s.take(0) =~= Seq::<char>::empty());
    } else {
        let t = s.drop_first();
        let c = width::own_cells(s[0]);
        lemma_fitting(t, room - c);
        assert(s.take(k) =~= seq![s[0]] + t.take(k - 1));
        width::lemma_sum_cells_concat(seq![s[0]], t.take(k - 1));
        assert(seq![s[0]].drop_last() =~= Seq::<char>::empty());
        reveal_with_fuel(width::sum_cells, 2);
        assert(width::sum_cells(seq![s[0]]) == c);
    }
}

/// Left-aligns `s` into a field of `w` terminal cells, padding where it fits and cutting it with a
/// trailing `ellipsis` where it does not.
///
/// Text is measured by display width: a wide character counts two cells, and one that straddles
/// the cut is dropped whole in favour of a pad space. The `ellipsis` is reserved out of the field
/// rather than written over its last cell; a field too narrow to hold it drops it.
pub fn fit_field(s: &str, w: usize, ellipsis: &str) -> (r: String)
    ensures
        r@ == field_text(s@, w as int, ellipsis@),
{
    if w == 0 {
        let out = String::new();
        assert(out@ =~= field_text(s@, w as int, ellipsis@));
        return out;
    }
    let total: usize = width::str_width(s);
    if total <= w {
        let mut out = text::owned(s);
        text::push_rep(&mut out, ' ', w - total);
        return out;
    }
    let marker: usize = width::str_width(ellipsis);
    let keep: usize = if marker < w { w - marker } else { w };
    let cs = text::chars_of(s);
    let mut out = String::new();
    let mut used: usize = 0;
    let mut i: usize = 0;
    assert(s@.take(0) =~= Seq::<char>::empty());
    assert(s@.skip(0) =~= s@);
    while i < cs.len()
        invariant_except_break
            i <= cs@.len(),
            cs@ == s@,
            out@ == s@.take(i as int),
            used <= keep,
            used == width::sum_cells(s@.take(i as int)),
            fitting(s@, keep as int) == i + fitting(s@.skip(i as int), keep - used),
        ensures
            out@ == s@.take(fitting(s@, keep as int) as int),
            used == width::sum_cells(out@),
            used <= keep,
        decreases cs.len() - i,
    {
        let cell: usize = match width::char_width(cs[i]) {
            Some(v) => v,
            None => 0,
        };
        assert(s@.skip(i as int)[0] == cs@[i as int]);
        assert(s@.skip(i as int).drop_first() =~= s@.skip(i + 1));
        if cell > keep - used {
            break;
        }
        proof {
            lemma_sum_cells_step(s@, i as int);
        }
        out.push(cs[i]);
        assert(s@.take(i + 1) =~= s@.take(i as int).push(cs@[i as int]));
        used += cell;
        i += 1;
        if i == cs.len() {
            assert(s@.skip(i as int).len() == 0);
        }
    }
    text::push_rep(&mut out, ' ', keep - used);
    if marker > 0 && marker < w {
        out.append(ellipsis);
    }
    assert(out@ =~= field_text(s@, w as int, ellipsis@));
    out
}

/// A field is exactly as wide as asked for: always where its text fits, and where the text is cut
/// whenever no character of it or of the marker combines with another. So it is for Latin, Greek and
/// Cyrillic letters, kana, ideographs and Hangul, and their mixtures.
pub proof fn law_fit_field_is_exactly_its_width(s: Seq<char>, w: nat, ellipsis: Seq<char>)
    requires
        width::cells(s) > w ==> width::all_alone(s) && width::all_alone(ellipsis),
    ensures
        width::cells(field_text(s, w as int, ellipsis)) == w,
{
    if w > 0 {
        lemma_field_adds_up(s, w, ellipsis);
        law_a_field_that_adds_up_is_exactly_its_width(s, w, ellipsis);
    }
}

proof fn lemma_field_adds_up(s: Seq<char>, w: nat, ellipsis: Seq<char>)
    requires
        width::cells(s) > w ==> width::all_alone(s) && width::all_alone(ellipsis),
        w > 0,
    ensures
        width::cells(s) > w ==> width::cells(ellipsis) == width::sum_cells(ellipsis) && width::cells(
            field_text(s, w as int, ellipsis),
        ) == width::sum_cells(field_text(s, w as int, ellipsis)),
{
    if width::cells(s) > w {
        let out = field_text(s, w as int, ellipsis);
        lemma_fitting(s, kept_cells(w as int, ellipsis));
        assert(width::all_alone(out)) by {
            assert forall|i: int| 0 <= i < out.len() implies width::alone(#[trigger] out[i]) by {
            }
        }
        width::law_characters_that_stand_alone_add_up(out);
        width::law_characters_that_stand_alone_add_up(ellipsis);
    }
}

/// A cut field is exactly as wide as asked for whenever the cells of the result are the sum over its
/// characters, and those of the marker are.
pub proof fn law_a_field_that_adds_up_is_exactly_its_width(s: Seq<char>, w: nat, ellipsis: Seq<char>)
    requires
        width::cells(s) > w ==> width::cells(ellipsis) == width::sum_cells(ellipsis) && width::cells(
            field_text(s, w as int, ellipsis),
        ) == width::sum_cells(field_text(s, w as int, ellipsis)),
    ensures
        width::cells(field_text(s, w as int, ellipsis)) == w,
{
    if w == 0 {
    } else if width::cells(s) <= w {
        width::lemma_cells_spaces(s, w - width::cells(s));
    } else {
        let keep = kept_cells(w as int, ellipsis);
        lemma_fitting(s, keep);
        let head = s.take(fitting(s, keep) as int);
        let pad = text::rep(' ', keep - width::sum_cells(head));
        width::lemma_sum_cells_concat(head, pad);
        width::lemma_sum_cells_spaces(keep - width::sum_cells(head));
        if 0 < width::cells(ellipsis) < w {
            width::lemma_sum_cells_concat(head + pad, ellipsis);
        } else {
            assert(head + pad + Seq::<char>::empty() =~= head + pad);
        }
    }
}

/// Printable ASCII with a printable ASCII marker always gives a field of exactly the width asked
/// for.
pub proof fn law_ascii_field_is_exactly_its_width(s: Seq<char>, w: nat, ellipsis: Seq<char>)
    requires
        width::printable(s),
        width::printable(ellipsis),
    ensures
        width::cells(field_text(s, w as int, ellipsis)) == w,
        width::printable(field_text(s, w as int, ellipsis)),
{
    let out = field_text(s, w as int, ellipsis);
    assert(width::printable(out)) by {
        if width::cells(s) > w && w > 0 {
            lemma_fitting(s, kept_cells(w as int, ellipsis));
        }
        assert forall|i: int| 0 <= i < out.len() implies ' ' <= #[trigger] out[i] <= '~' by {
        }
    }
    width::law_printable_ascii_takes_one_cell_each(out);
    width::law_printable_ascii_takes_one_cell_each(ellipsis);
    law_fit_field_is_exactly_its_width(s, w, ellipsis);
}

/// A log record's severity number.
#[derive(Clone, Copy, PartialEq, Eq, Structural, Debug)]
pub struct SeverityNumber(pub u8);

/// The name of a severity number's band.
pub open spec fn band_name(n: int) -> Seq<char> {
    if n == 0 {
        "UNSET"@
    } else if n <= 4 {
        "TRACE"@
    } else if n <= 8 {
        "DEBUG"@
    } else if n <= 12 {
        "INFO"@
    } else if n <= 16 {
        "WARN"@
    } else if n <= 20 {
        "ERROR"@
    } else {
        "FATAL"@
    }
}

/// A severity number as a `BAND (n)` label (such as `INFO (9)`).
pub fn severity_label(severity: SeverityNumber) -> (r: String)
    ensures
        r@ == band_name(severity.0 as int) + " ("@ + text::dec(severity.0 as nat) + ")"@,
{
    let n: u8 = severity.0;
    let band = if n == 0 {
        "UNSET"
    } else if n <= 4 {
        "TRACE"
    } else if n <= 8 {
        "DEBUG"
    } else if n <= 12 {
        "INFO"
    } else if n <= 16 {
        "WARN"
    } else if n <= 20 {
        "ERROR"
    } else {
        "FATAL"
    };
    let mut out = text::owned(band);
    out.append(" (");
    text::push_dec(&mut out, n as u64);
    out.append(")");
    out
}

/// An attribute's value. A floating-point number is held as the text it prints as.
#[derive(Debug)]
pub enum AnyValue {
    Null,
    Str(String),
    Int(i64),
    Double(String),
    Bool(bool),
    Bytes(Vec<u8>),
    Array(Vec<AnyValue>),
    Object(Vec<(String, AnyValue)>),
}

/// The hexadecimal digit for `d`.
pub open spec fn hex_digit(d: int) -> char {
    if d < 10 { (48 + d) as char } else { (87 + d) as char }
}

/// Bytes as pairs of hexadecimal digits.
pub open spec fn hex_text(bytes: Seq<u8>) -> Seq<char>
    decreases bytes.len(),
{
    if bytes.len() == 0 {
        Seq::empty()
    } else {
        hex_text(bytes.drop_last()) + seq![
            hex_digit(bytes.last() as int / 16),
            hex_digit(bytes.last() as int % 16),
        ]
    }
}

/// An attribute value as one display text.
pub open spec fn value_text(value: AnyValue) -> Seq<char>
    decreases value, 1nat, 0nat,
{
    match value {
        AnyValue::Null => "null"@,
        AnyValue::Str(s) => s@,
        AnyValue::Int(n) => text::int_text(n as int),
        AnyValue::Double(s) => s@,
        AnyValue::Bool(b) => if b { "true"@ } else { "false"@ },
        AnyValue::Bytes(bytes) => "0x"@ + hex_text(bytes@),
        AnyValue::Array(items) => "["@ + text::join(item_texts(value, items@.len()), ", "@) + "]"@,
        AnyValue::Object(entries) => "{"@ + text::join(item_texts(value, entries@.len()), ", "@) + "}"@,
    }
}

/// The texts of the first `n` items of an array or entries of a map.
pub open spec fn item_texts(value: AnyValue, n: nat) -> Seq<Seq<char>>
    decreases value, 0nat, n,
{
    if n == 0 {
        Seq::empty()
    } else {
        match value {
            AnyValue::Array(items) => if n <= items@.len() {
                item_texts(value, (n - 1) as nat).push(value_text(items@[n - 1]))
            } else {
                Seq::empty()
            },
            AnyValue::Object(entries) => if n <= entries@.len() {
                item_texts(value, (n - 1) as nat).push(
                    entries@[n - 1].0@ + ": "@ + value_text(entries@[n - 1].1),
                )
            } else {
                Seq::empty()
            },
            _ => Seq::empty(),
        }
    }
}

fn push_hex(out: &mut String, bytes: &Vec<u8>)
    ensures
        final(out)@ == old(out)@ + hex_text(bytes@),
{
    let mut i: usize = 0;
    assert(bytes@.take(0) =~= Seq::<u8>::empty());
    assert(out@ =~= old(out)@ + hex_text(bytes@.take(0)));
    while i < bytes.len()
        invariant
            i <= bytes@.len(),
            out@ == old(out)@ + hex_text(bytes@.take(i as int)),
        decreases bytes.len() - i,
    {
        let b: u8 = bytes[i];
        let hi: u8 = b / 16;
        let lo: u8 = b % 16;
        out.push(if hi < 10 { (48 + hi) as char } else { (87 + hi) as char });
        out.push(if lo < 10 { (48 + lo) as char } else { (87 + lo) as char });
        assert(bytes@.take(i + 1).drop_last() =~= bytes@.take(i as int));
        i += 1;
        assert(out@ =~= old(out)@ + hex_text(bytes@.take(i as int)));
    }
    assert(bytes@.take(bytes@.len() as int) =~= bytes@);
}

/// The texts of the first `n` items of an array or entries of a map.
fn render_items(value: &AnyValue, n: usize) -> (r: Vec<String>)
    requires
        match *value {
            AnyValue::Array(items) => n <= items@.len(),
            AnyValue::Object(entries) => n <= entries@.len(),
            _ => false,
        },
    ensures
        text::strs(r@) == item_texts(*value, n as nat),
    decreases *value, 0nat, n,
{
    if n == 0 {
        let r: Vec<String> = Vec::new();
        assert(text::strs(r@) =~= item_texts(*value, 0));
        return r;
    }
    let mut r = render_items(value, n - 1);
    let ghost head = r@;
    match value {
        AnyValue::Array(items) => {
            r.push(render_value(&items[n - 1]));
        },
        AnyValue::Object(entries) => {
            let entry = &entries[n - 1];
            let mut out = entry.0.clone();
            out.append(": ");
            out.append(&render_value(&entry.1));
            r.push(out);
        },
        _ => {},
    }
    assert(text::strs(r@) =~= text::strs(head).push(r@.last()@));
    r
}

/// An attribute value as one display string: arrays and maps compacted, bytes in hexadecimal.
pub fn render_value(value: &AnyValue) -> (r: String)
    ensures
        r@ == value_text(*value),
    decreases *value, 1nat, 0nat,
{
    match value {
        AnyValue::Null => text::owned("null"),
        AnyValue::Str(s) => s.clone(),
        AnyValue::Int(n) => {
            let mut out = String::new();
            text::push_int(&mut out, *n);
            assert(out@ =~= text::int_text(*n as int));
            out
        },
        AnyValue::Double(s) => s.clone(),
        AnyValue::Bool(b) => text::owned(if *b { "true" } else { "false" }),
        AnyValue::Bytes(bytes) => {
            let mut out = text::owned("0x");
            push_hex(&mut out, bytes);
            out
        },
        AnyValue::Array(items) => {
            let parts = render_items(value, items.len());
            let mut out = text::owned("[");
            out.append(&text::joined(&parts, ", "));
            out.append("]");
            out
        },
        AnyValue::Object(entries) => {
            let parts = render_items(value, entries.len());
            let mut out = text::owned("{");
            out.append(&text::joined(&parts, ", "));
            out.append("}");
            out
        },
    }
}

/// Attributes as displayable `(key, value)` pairs, in their order.
pub fn attrs_to_pairs(attributes: &Vec<(String, AnyValue)>) -> (r: Vec<(String, String)>)
    ensures
        r@.len() == attributes@.len(),
        forall|i: int|
            0 <= i < r@.len() ==> (#[trigger] r@[i]).0@ == attributes@[i].0@ && r@[i].1@ == value_text(
                attributes@[i].1,
            ),
{
    let mut r: Vec<(String, String)> = Vec::new();
    let mut i: usize = 0;
    while i < attributes.len()
        invariant
            i <= attributes@.len(),
            r@.len() == i,
            forall|j: int|
                0 <= j < i ==> (#[trigger] r@[j]).0@ == attributes@[j].0@ && r@[j].1@ == value_text(
                    attributes@[j].1,
                ),
        decreases attributes.len() - i,
    {
        let entry = &attributes[i];
        r.push((entry.0.clone(), render_value(&entry.1)));
        i += 1;
    }
    r
}

/// The rows a line of `n` characters takes, wrapped to `w` columns.
pub open spec fn rows_of(n: nat, w: nat) -> nat {
    if w == 0 {
        1
    } else {
        (((if n == 0 { 1 } else { n }) as u32) as nat + w - 1) as nat / w
    }
}

/// Approximates the terminal rows that a line takes once wrapped to `w` columns: an estimate by
/// the character count, which is adequate for clamping the scroll of a result pane.
pub fn wrapped_rows(line: &str, w: u16) -> (r: u32)
    ensures
        r == rows_of(line@.len(), w as nat),
        w > 0 && line@.len() <= u32::MAX ==> r * w >= line@.len() && r >= 1,
{
    if w == 0 {
        return 1;
    }
    let n: usize = line.unicode_len();
    let m: usize = if n == 0 { 1 } else { n };
    let k: u64 = (m as u32) as u64;
    let d: u64 = w as u64;
    let q: u64 = (k + d - 1) / d;
    proof {
        assert(q <= k + d - 1 && q <= u32::MAX && q * d >= k && (k >= 1 ==> q >= 1)) by (nonlinear_arith)
            requires
                q == (k + d - 1) / d as int,
                1 <= d <= 65535,
                k <= u32::MAX,
        ;
    }
    q as u32
}

} // verus!
