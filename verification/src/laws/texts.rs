//! Texts: instants, durations, values, and the details of logs and spans.

use vstd::prelude::*;

use crate::detail_text;
use crate::format::AnyValue;
use crate::model::{LogRecord, SpanRecord};
use crate::text;
use crate::time;
use crate::ui::glyphs::Glyphs;

verus! {

/// An instant is written as its date and its time of day, in UTC: the year in four digits, and the month,
/// the day, the hour, the minute and the second in two digits each.
pub proof fn law_an_instant_is_written_as_date_and_time(ns: i64)
    ensures
        ({
            let s = time::datetime_text(ns as int);
            let secs = ns as int / 1_000_000_000;
            let (y, m, d) = time::civil(secs / 86_400);
            let tod = secs % 86_400;
            &&& s.len() == 19
            &&& text::number(s.subrange(0, 4)) == Some(y as nat)
            &&& text::number(s.subrange(5, 7)) == Some(m as nat)
            &&& text::number(s.subrange(8, 10)) == Some(d as nat)
            &&& text::number(s.subrange(11, 13)) == Some((tod / 3600) as nat)
            &&& text::number(s.subrange(14, 16)) == Some((tod / 60 % 60) as nat)
            &&& text::number(s.subrange(17, 19)) == Some((tod % 60) as nat)
            &&& s[4] == '-' && s[7] == '-' && s[10] == ' ' && s[13] == ':' && s[16] == ':'
        }),
{
    let secs = ns as int / 1_000_000_000;
    let days = secs / 86_400;
    let tod = secs % 86_400;
    time::lemma_instant_year(ns as int);
    lemma_date_fields(days);
    lemma_clock_fields(tod);
    let a = time::date_text(days);
    let b = time::clock_text(tod);
    let s = time::datetime_text(ns as int);
    assert(s == a + seq![' '] + b);
    assert(s.subrange(0, 4) =~= a.subrange(0, 4));
    assert(s.subrange(5, 7) =~= a.subrange(5, 7));
    assert(s.subrange(8, 10) =~= a.subrange(8, 10));
    assert(s.subrange(11, 13) =~= b.subrange(0, 2));
    assert(s.subrange(14, 16) =~= b.subrange(3, 5));
    assert(s.subrange(17, 19) =~= b.subrange(6, 8));
}

proof fn lemma_date_fields(days: int)
    requires
        1000 <= time::civil(days).0 < 10000,
    ensures
        ({
            let s = time::date_text(days);
            let (y, m, d) = time::civil(days);
            &&& s.len() == 10
            &&& text::number(s.subrange(0, 4)) == Some(y as nat)
            &&& text::number(s.subrange(5, 7)) == Some(m as nat)
            &&& text::number(s.subrange(8, 10)) == Some(d as nat)
            &&& s[4] == '-' && s[7] == '-'
        }),
{
    time::law_civil_is_the_date(days);
    let (y, m, d) = time::civil(days);
    let ys = text::pad0(y as nat, 4);
    let ms = text::pad0(m as nat, 2);
    let ds = text::pad0(d as nat, 2);
    assert(ys.len() == 4 && text::number(ys) == Some(y as nat)) by {
        time::lemma_four_digits(y as nat);
        text::law_number_reads_back(y as nat, 4);
    }
    lemma_pair(m as nat);
    lemma_pair(d as nat);
    let s = time::date_text(days);
    assert(s == ys + seq!['-'] + ms + seq!['-'] + ds);
    lemma_three_parts(ys, '-', ms, ds);
}

proof fn lemma_clock_fields(tod: int)
    requires
        0 <= tod < 86_400,
    ensures
        ({
            let s = time::clock_text(tod);
            &&& s.len() == 8
            &&& text::number(s.subrange(0, 2)) == Some((tod / 3600) as nat)
            &&& text::number(s.subrange(3, 5)) == Some((tod / 60 % 60) as nat)
            &&& text::number(s.subrange(6, 8)) == Some((tod % 60) as nat)
            &&& s[2] == ':' && s[5] == ':'
        }),
{
    let h = tod / 3600;
    let mi = tod % 3600 / 60;
    let sec = tod % 60;
    assert(mi == tod / 60 % 60);
    let hs = text::pad0(h as nat, 2);
    let ms = text::pad0(mi as nat, 2);
    let ss = text::pad0(sec as nat, 2);
    lemma_pair(h as nat);
    lemma_pair(mi as nat);
    lemma_pair(sec as nat);
    let s = time::clock_text(tod);
    assert(s == hs + seq![':'] + ms + seq![':'] + ss);
    lemma_three_parts(hs, ':', ms, ss);
}

proof fn lemma_pair(n: nat)
    requires
        n < 100,
    ensures
        text::pad0(n, 2).len() == 2,
        text::number(text::pad0(n, 2)) == Some(n),
{
    time::lemma_two_digits(n);
    text::law_number_reads_back(n, 2);
}

proof fn lemma_three_parts(a: Seq<char>, c: char, b: Seq<char>, d: Seq<char>)
    requires
        b.len() == 2,
        d.len() == 2,
    ensures
        ({
            let s = a + seq![c] + b + seq![c] + d;
            let n = a.len() as int;
            &&& s.len() == n + 6
            &&& s.subrange(0, n) == a
            &&& s.subrange(n + 1, n + 3) == b
            &&& s.subrange(n + 4, n + 6) == d
            &&& s[n] == c && s[n + 3] == c
        }),
{
    let s = a + seq![c] + b + seq![c] + d;
    let n = a.len() as int;
    assert(s.subrange(0, n) =~= a);
    assert(s.subrange(n + 1, n + 3) =~= b);
    assert(s.subrange(n + 4, n + 6) =~= d);
}

/// A timestamp is the instant with its milliseconds behind a dot, in three digits.
pub proof fn law_a_timestamp_tells_milliseconds(ns: i64)
    ensures
        ({
            let s = time::timestamp_text(ns as int);
            &&& s.len() == 23
            &&& s.take(19) == time::datetime_text(ns as int)
            &&& s[19] == '.'
            &&& text::number(s.skip(20)) == Some((ns as int % 1_000_000_000 / 1_000_000) as nat)
        }),
{
    law_an_instant_is_written_as_date_and_time(ns);
    let ms = (ns as int % 1_000_000_000 / 1_000_000) as nat;
    lemma_three_digits(ms);
    text::law_number_reads_back(ms, 3);
    let s = time::timestamp_text(ns as int);
    assert(s.take(19) =~= time::datetime_text(ns as int));
    assert(s.skip(20) =~= text::pad0(ms, 3));
}

proof fn lemma_three_digits(n: nat)
    requires
        n < 1000,
    ensures
        text::pad0(n, 3).len() == 3,
{
    reveal_with_fuel(text::dec, 4);
}

/// The text of a date and, behind a space or a `T`, of a time of day.
pub open spec fn written(y: nat, m: nat, d: nat, sep: char, h: nat, mi: nat, s: nat) -> Seq<char> {
    text::pad0(y, 4) + seq!['-'] + text::pad0(m, 2) + seq!['-'] + text::pad0(d, 2) + seq![sep] + text::pad0(h, 2) + seq![':']
        + text::pad0(mi, 2) + seq![':'] + text::pad0(s, 2)
}

/// A date with a time of day behind a space or a `T` is read as that instant.
pub proof fn law_a_written_instant_is_read(y: nat, m: nat, d: nat, sep: char, h: nat, mi: nat, s: nat)
    requires
        1700 <= y <= 2200,
        time::is_date(y as int, m as int, d as int),
        h < 24 && mi < 60 && s < 60,
        sep == ' ' || sep == 'T',
    ensures
        time::parsed_datetime(written(y, m, d, sep, h, mi, s)) == Some(
            (time::day_number(y as int, m as int, d as int) * 86_400 + h * 3600 + mi * 60 + s) * 1_000_000_000,
        ),
{
    let date = text::pad0(y, 4) + seq!['-'] + text::pad0(m, 2) + seq!['-'] + text::pad0(d, 2);
    let clock = text::pad0(h, 2) + seq![':'] + text::pad0(mi, 2) + seq![':'] + text::pad0(s, 2);
    let all = written(y, m, d, sep, h, mi, s);
    assert(all =~= date + seq![sep] + clock);
    lemma_date(y, m, d);
    lemma_clock(h, mi, s);
    lemma_date_end(date, seq![sep] + clock);
    assert(date + (seq![sep] + clock) =~= all);
    time::lemma_trim_tight(all);
    time::lemma_trim_tight(clock);
    assert(all.subrange(0, 10) =~= date);
    assert(all.subrange(11, all.len() as int) =~= clock);
    let days = time::day_number(y as int, m as int, d as int);
    lemma_day_bounds(y as int, m as int, d as int);
}

proof fn lemma_day_bounds(y: int, m: int, d: int)
    requires
        1700 <= y <= 2200,
        time::is_date(y, m, d),
    ensures
        -100_000 <= time::day_number(y, m, d) <= 90_000,
{
    assert(-98_700 <= time::days_before_year(y) <= 84_100);
    lemma_month_bounds(y, m);
}

proof fn lemma_month_bounds(y: int, m: int)
    requires
        1 <= m <= 12,
    ensures
        0 <= time::days_before_month(y, m) <= 31 * (m - 1),
    decreases m,
{
    if m > 1 {
        lemma_month_bounds(y, m - 1);
    }
}

proof fn lemma_date(y: nat, m: nat, d: nat)
    requires
        1700 <= y <= 2200,
        1 <= m <= 12,
        1 <= d <= 31,
    ensures
        ({
            let date = text::pad0(y, 4) + seq!['-'] + text::pad0(m, 2) + seq!['-'] + text::pad0(d, 2);
            &&& date.len() == 10
            &&& '0' <= date[0] <= '9'
            &&& forall|i: int| 0 <= i < 10 ==> #[trigger] date[i] != ' ' && date[i] != 'T'
            &&& time::parsed_date(date) == Some(time::day_number(y as int, m as int, d as int))
        }),
{
    let ys = text::pad0(y, 4);
    let ms = text::pad0(m, 2);
    let ds = text::pad0(d, 2);
    time::lemma_four_digits(y);
    time::lemma_two_digits(m);
    time::lemma_two_digits(d);
    text::law_number_reads_back(y, 4);
    text::law_number_reads_back(m, 2);
    text::law_number_reads_back(d, 2);
    let s = ys + seq!['-'] + ms + seq!['-'] + ds;
    assert(s =~= ys + seq!['-'] + (ms + seq!['-'] + ds));
    text::lemma_split_first(ys, '-', ms + seq!['-'] + ds);
    text::lemma_split_first(ms, '-', ds);
    text::lemma_split_whole(ds, '-');
    assert(text::split(s, '-') =~= seq![ys, ms, ds]);
    time::lemma_trim_tight(ys);
}

proof fn lemma_clock(h: nat, mi: nat, s: nat)
    requires
        h < 24 && mi < 60 && s < 60,
    ensures
        ({
            let clock = text::pad0(h, 2) + seq![':'] + text::pad0(mi, 2) + seq![':'] + text::pad0(s, 2);
            &&& clock.len() == 8
            &&& '0' <= clock[0] <= '9'
            &&& '0' <= clock[7] <= '9'
            &&& time::parsed_clock(clock) == Some((h * 3600 + mi * 60 + s) as int)
        }),
{
    let hs = text::pad0(h, 2);
    let ms = text::pad0(mi, 2);
    let ss = text::pad0(s, 2);
    time::lemma_two_digits(h);
    time::lemma_two_digits(mi);
    time::lemma_two_digits(s);
    text::law_number_reads_back(h, 2);
    text::law_number_reads_back(mi, 2);
    text::law_number_reads_back(s, 2);
    let t = hs + seq![':'] + ms + seq![':'] + ss;
    assert(t =~= hs + seq![':'] + (ms + seq![':'] + ss));
    text::lemma_split_first(hs, ':', ms + seq![':'] + ss);
    text::lemma_split_first(ms, ':', ss);
    text::lemma_split_whole(ss, ':');
    assert(text::split(t, ':') =~= seq![hs, ms, ss]);
}

proof fn lemma_date_end(a: Seq<char>, b: Seq<char>)
    requires
        forall|i: int| 0 <= i < a.len() ==> #[trigger] a[i] != ' ' && a[i] != 'T',
        b.len() > 0 && (b[0] == ' ' || b[0] == 'T'),
    ensures
        time::date_end(a + b) == a.len(),
    decreases a.len(),
{
    if a.len() == 0 {
        assert(a + b =~= b);
    } else {
        let c = a.drop_first();
        assert((a + b).drop_first() =~= c + b);
        assert((a + b)[0] == a[0]);
        assert forall|i: int| 0 <= i < c.len() implies #[trigger] c[i] != ' ' && c[i] != 'T' by {
            assert(c[i] == a[i + 1]);
        }
        lemma_date_end(c, b);
    }
}

/// A length is told in the largest of days, hours, minutes and seconds that divides it.
pub proof fn law_a_length_is_told_in_its_largest_unit(secs: nat)
    ensures
        ({
            let s = time::human_text(secs);
            let n = text::number(s.drop_last());
            &&& s.len() > 1
            &&& n is Some
            &&& s.last() == 'd' || s.last() == 'h' || s.last() == 'm' || s.last() == 's'
            &&& (n->0) * (if s.last() == 'd' {
                86_400int
            } else if s.last() == 'h' {
                3_600
            } else if s.last() == 'm' {
                60
            } else {
                1
            }) == secs
            &&& s.last() == 'd' <==> secs % 86_400 == 0
            &&& s.last() == 's' <==> secs % 60 != 0
            &&& secs % 3_600 == 0 && secs % 86_400 != 0 ==> s.last() == 'h'
        }),
{
    reveal_strlit("d");
    reveal_strlit("h");
    reveal_strlit("m");
    reveal_strlit("s");
    let n = if secs % 86_400 == 0 {
        secs / 86_400
    } else if secs % 3_600 == 0 {
        secs / 3_600
    } else if secs % 60 == 0 {
        secs / 60
    } else {
        secs
    };
    text::law_number_reads_back(n, 0);
    assert(text::dec(n).len() > 0);
    assert(time::human_text(secs).drop_last() =~= text::dec(n));
}

/// A duration under a microsecond is told exactly, in nanoseconds; a longer one in the unit of its size.
pub proof fn law_a_duration_is_told_in_its_unit(ns: nat)
    ensures
        ns < 1_000 ==> time::duration_text(ns, true) == text::dec(ns) + "ns"@ && time::duration_text(ns, false) == text::dec(
            ns,
        ) + "ns"@,
        1_000 <= ns < 1_000_000 ==> exists|t: Seq<char>|
            time::duration_text(ns, true) == #[trigger] (t + "us"@) && time::duration_text(ns, false) == t + "\u{b5}s"@,
        1_000_000 <= ns < 1_000_000_000 ==> exists|t: Seq<char>|
            time::duration_text(ns, true) == #[trigger] (t + "ms"@) && time::duration_text(ns, false) == t + "ms"@,
        1_000_000_000 <= ns ==> exists|t: Seq<char>|
            time::duration_text(ns, true) == #[trigger] (t + "s"@) && time::duration_text(ns, false) == t + "s"@,
{
    let t1 = time::decimal3(ns, 1_000);
    let t2 = time::decimal3(ns, 1_000_000);
    let t3 = time::decimal3(ns, 1_000_000_000);
    if 1_000 <= ns < 1_000_000 {
        assert(time::duration_text(ns, true) == t1 + "us"@);
    } else if 1_000_000 <= ns < 1_000_000_000 {
        assert(time::duration_text(ns, true) == t2 + "ms"@);
    } else if ns >= 1_000_000_000 {
        assert(time::duration_text(ns, true) == t3 + "s"@);
    }
}

/// Severity numbers come in bands of four: trace, debug, info, warn, error and fatal. Nothing is unset but
/// zero, and what is past the last band is fatal.
pub proof fn law_severities_come_in_bands_of_four(n: int)
    requires
        0 <= n <= 255,
    ensures
        n == 0 ==> crate::format::band_name(n) == "UNSET"@,
        n >= 1 ==> crate::format::band_name(n) == seq!["TRACE"@, "DEBUG"@, "INFO"@, "WARN"@, "ERROR"@, "FATAL"@][if (n - 1) / 4
            < 5 {
            (n - 1) / 4
        } else {
            5
        }],
{
}

/// The value of a hexadecimal digit in lower case.
pub open spec fn hex_value(c: char) -> int {
    if '0' <= c <= '9' { c as int - 48 } else { c as int - 87 }
}

/// Bytes are written as two hexadecimal digits each, in order, the high one first.
pub proof fn law_bytes_are_written_in_hexadecimal(bytes: Seq<u8>, i: int)
    requires
        0 <= i < bytes.len(),
    ensures
        crate::format::hex_text(bytes).len() == 2 * bytes.len(),
        16 * hex_value(crate::format::hex_text(bytes)[2 * i]) + hex_value(crate::format::hex_text(bytes)[2 * i + 1]) == bytes[i],
        0 <= hex_value(crate::format::hex_text(bytes)[2 * i]) < 16,
        0 <= hex_value(crate::format::hex_text(bytes)[2 * i + 1]) < 16,
    decreases bytes.len(),
{
    let rest = bytes.drop_last();
    lemma_hex_len(rest);
    let all = crate::format::hex_text(bytes);
    if i < rest.len() {
        law_bytes_are_written_in_hexadecimal(rest, i);
        assert(all[2 * i] == crate::format::hex_text(rest)[2 * i]);
        assert(all[2 * i + 1] == crate::format::hex_text(rest)[2 * i + 1]);
    } else {
        let b = bytes[i] as int;
        assert(all[2 * i] == crate::format::hex_digit(b / 16));
        assert(all[2 * i + 1] == crate::format::hex_digit(b % 16));
    }
}

proof fn lemma_hex_len(bytes: Seq<u8>)
    ensures
        crate::format::hex_text(bytes).len() == 2 * bytes.len(),
    decreases bytes.len(),
{
    if bytes.len() > 0 {
        lemma_hex_len(bytes.drop_last());
    }
}

/// A value is written as what it is: text as it stands, a number in decimal, truth as a word, bytes in
/// hexadecimal, a list between square brackets and a map between braces, its entries with their keys.
pub proof fn law_a_value_is_written_as_what_it_is(value: AnyValue)
    ensures
        match value {
            AnyValue::Null => crate::format::value_text(value) == "null"@,
            AnyValue::Str(s) => crate::format::value_text(value) == s@,
            AnyValue::Int(n) => crate::format::value_text(value) == if n < 0 {
                seq!['-'] + text::dec((-n) as nat)
            } else {
                text::dec(n as nat)
            },
            AnyValue::Double(s) => crate::format::value_text(value) == s@,
            AnyValue::Bool(b) => crate::format::value_text(value) == if b { "true"@ } else { "false"@ },
            AnyValue::Bytes(bytes) => crate::format::value_text(value) == "0x"@ + crate::format::hex_text(bytes@),
            AnyValue::Array(items) => crate::format::value_text(value) == "["@ + text::join(
                Seq::new(items@.len(), |i: int| crate::format::value_text(items@[i])),
                ", "@,
            ) + "]"@,
            AnyValue::Object(entries) => crate::format::value_text(value) == "{"@ + text::join(
                Seq::new(entries@.len(), |i: int| entries@[i].0@ + ": "@ + crate::format::value_text(entries@[i].1)),
                ", "@,
            ) + "}"@,
        },
{
    match value {
        AnyValue::Array(items) => {
            lemma_items(value, items@.len());
            assert(crate::format::item_texts(value, items@.len()) =~= Seq::new(
                items@.len(),
                |i: int| crate::format::value_text(items@[i]),
            ));
        },
        AnyValue::Object(entries) => {
            lemma_items(value, entries@.len());
            assert(crate::format::item_texts(value, entries@.len()) =~= Seq::new(
                entries@.len(),
                |i: int| entries@[i].0@ + ": "@ + crate::format::value_text(entries@[i].1),
            ));
        },
        _ => {},
    }
}

proof fn lemma_items(value: AnyValue, n: nat)
    ensures
        match value {
            AnyValue::Array(items) => n <= items@.len() ==> crate::format::item_texts(value, n).len() == n && forall|i: int|
                0 <= i < n ==> #[trigger] crate::format::item_texts(value, n)[i] == crate::format::value_text(items@[i]),
            AnyValue::Object(entries) => n <= entries@.len() ==> crate::format::item_texts(value, n).len() == n && forall|i: int|
                0 <= i < n ==> #[trigger] crate::format::item_texts(value, n)[i] == entries@[i].0@ + ": "@
                    + crate::format::value_text(entries@[i].1),
            _ => true,
        },
    decreases n,
{
    if n > 0 {
        lemma_items(value, (n - 1) as nat);
    }
}

/// Whether the lines hold a titled section of the pairs: the title with their number, and right below it a
/// line for each pair.
pub open spec fn has_section(lines: Seq<Seq<char>>, title: Seq<char>, pairs: Seq<(String, String)>) -> bool {
    exists|i: int|
        0 <= i && i + pairs.len() < lines.len() && #[trigger] lines[i] == title + " ("@ + text::dec(pairs.len()) + ")"@
            && lines.subrange(i + 1, i + 1 + pairs.len()) == Seq::new(
            pairs.len(),
            |k: int| "  "@ + pairs[k].0@ + " = "@ + pairs[k].1@,
        )
}

proof fn lemma_section(before: Seq<Seq<char>>, title: Seq<char>, pairs: Seq<(String, String)>, behind: Seq<Seq<char>>)
    requires
        pairs.len() > 0,
    ensures
        has_section(before + detail_text::section(title, pairs) + behind, title, pairs),
{
    let all = before + detail_text::section(title, pairs) + behind;
    let i = before.len() as int + 1;
    assert(all[i] == title + " ("@ + text::dec(pairs.len()) + ")"@);
    assert(all.subrange(i + 1, i + 1 + pairs.len()) =~= Seq::new(
        pairs.len(),
        |k: int| "  "@ + pairs[k].0@ + " = "@ + pairs[k].1@,
    ));
}

/// The detail of a log entry tells its time, its severity, its service, its trace and its span, each behind
/// its own label, and then its body.
pub proof fn law_a_log_detail_tells_its_fields(r: LogRecord)
    ensures
        ({
            let lines = detail_text::log_lines(r);
            &&& lines.len() >= 8
            &&& lines[0] == "Time      "@ + time::timestamp_text(r.time_ns as int)
            &&& lines[1] == "Severity  "@ + r.severity@
            &&& r.service matches Some(s) ==> lines[2] == "Service   "@ + s@
            &&& r.service is None ==> lines[2] == "Service   "@ + "-"@
            &&& r.trace_id matches Some(s) ==> lines[3] == "Trace ID  "@ + s@
            &&& r.trace_id is None ==> lines[3] == "Trace ID  "@ + "(none)"@
            &&& r.span_id matches Some(s) ==> lines[4] == "Span ID   "@ + s@
            &&& r.span_id is None ==> lines[4] == "Span ID   "@ + "(none)"@
            &&& lines[6] == "Body"@
            &&& r.body@.len() == 0 ==> lines[7] == "  (empty)"@
            &&& r.body@.len() > 0 && !r.body@.contains('\n') ==> lines[7] == "  "@ + r.body@
        }),
{
    let lines = detail_text::log_lines(r);
    let body = detail_text::body_lines(r.body@);
    if r.body@.len() > 0 {
        if !r.body@.contains('\n') {
            text::lemma_split_whole(r.body@, '\n');
            let pieces = text::split(r.body@, '\n');
            assert(pieces =~= seq![r.body@]);
            assert(text::lines_of(r.body@) =~= seq![r.body@]);
        } else {
            lemma_some_line(r.body@);
        }
    }
    assert(body.len() >= 1);
    assert(lines[7] == body[0]);
}

proof fn lemma_some_line(s: Seq<char>)
    requires
        s.contains('\n'),
    ensures
        text::lines_of(s).len() >= 1,
{
    crate::laws::results::law_splitting_and_joining_undo_each_other(s, '\n');
    broadcast use vstd::seq_lib::group_to_multiset_ensures;

    assert(s.to_multiset().count('\n') > 0);
}

/// The detail of a log entry has a section for its attributes, one for its resource and one for its scope,
/// where there are any.
pub proof fn law_a_log_detail_has_its_sections(r: LogRecord)
    ensures
        r.attributes@.len() > 0 ==> has_section(detail_text::log_lines(r), "Attributes"@, r.attributes@),
        r.resource@.len() > 0 ==> has_section(detail_text::log_lines(r), "Resource"@, r.resource@),
        r.scope@.len() > 0 ==> has_section(detail_text::log_lines(r), "Scope"@, r.scope@),
{
    let lines = detail_text::log_lines(r);
    let a = detail_text::section("Attributes"@, r.attributes@);
    let b = detail_text::section("Resource"@, r.resource@);
    let c = detail_text::section("Scope"@, r.scope@);
    let n = lines.len() - a.len() - b.len() - c.len();
    let head = lines.take(n);
    if r.attributes@.len() > 0 {
        lemma_section(head, "Attributes"@, r.attributes@, b + c);
        assert(lines =~= head + a + (b + c));
    }
    if r.resource@.len() > 0 {
        lemma_section(head + a, "Resource"@, r.resource@, c);
        assert(lines =~= (head + a) + b + c);
    }
    if r.scope@.len() > 0 {
        lemma_section(head + a + b, "Scope"@, r.scope@, Seq::empty());
        assert(lines =~= (head + a + b) + c + Seq::empty());
    }
}

/// The detail of a span tells its trace, its own id and its parent's, its name, its service, its kind and
/// its status, each behind its own label, and then when it started and how long it took.
pub proof fn law_a_span_detail_tells_its_fields(trace_id: Seq<char>, span: SpanRecord, g: Glyphs)
    ensures
        ({
            let lines = detail_text::span_lines(trace_id, span, g);
            let k: int = if span.status_message is Some { 8 } else { 7 };
            &&& lines.len() >= k + 3
            &&& lines[0] == "Trace ID  "@ + trace_id
            &&& lines[1] == "Span ID   "@ + span.span_id@
            &&& span.parent_span_id matches Some(s) ==> lines[2] == "Parent    "@ + s@
            &&& span.parent_span_id is None ==> lines[2] == "Parent    "@ + "(root)"@
            &&& lines[3] == "Name      "@ + span.name@
            &&& span.service matches Some(s) ==> lines[4] == "Service   "@ + s@
            &&& span.service is None ==> lines[4] == "Service   "@ + "-"@
            &&& span.kind@.len() > 0 ==> lines[5] == "Kind      "@ + span.kind@
            &&& span.kind@.len() == 0 ==> lines[5] == "Kind      "@ + "-"@
            &&& lines[6] == "Status    "@ + span.status_code@
            &&& span.status_message matches Some(s) ==> lines[7] == "Message   "@ + s@
            &&& lines[k] == "Start     "@ + time::timestamp_text(span.start_time_ns as int)
            &&& span.offset_ns >= 0 ==> lines[k + 1] == "Offset    +"@ + time::duration_text(span.offset_ns as nat, g.ascii)
                + " into the trace"@
            &&& lines[k + 2] == "Duration  "@ + time::duration_text(span.duration_ns as nat, g.ascii)
            &&& span.malformed ==> lines.len() >= k + 4 && lines[k + 3] == g.warn@ + "  parent chain is broken (orphan or cycle) "@
                + g.dash@ + " shown as a malformed root"@
        }),
{
    let lines = detail_text::span_lines(trace_id, span, g);
    let head = detail_text::span_head(trace_id, span, g);
    assert forall|i: int| 0 <= i < head.len() implies #[trigger] lines[i] == head[i] by {
    }
    assert(head[6] == "Status    "@ + span.status_code@);
}

/// The detail of a span has a section for its attributes, one for its resource and one for its scope, where
/// there are any.
pub proof fn law_a_span_detail_has_its_sections(trace_id: Seq<char>, span: SpanRecord, g: Glyphs)
    ensures
        span.attributes@.len() > 0 ==> has_section(
            detail_text::span_lines(trace_id, span, g),
            "Attributes"@,
            span.attributes@,
        ),
        span.resource@.len() > 0 ==> has_section(detail_text::span_lines(trace_id, span, g), "Resource"@, span.resource@),
        span.scope@.len() > 0 ==> has_section(detail_text::span_lines(trace_id, span, g), "Scope"@, span.scope@),
{
    let lines = detail_text::span_lines(trace_id, span, g);
    let head = detail_text::span_head(trace_id, span, g);
    let a = detail_text::section("Attributes"@, span.attributes@);
    let b = detail_text::section("Resource"@, span.resource@);
    let c = detail_text::section("Scope"@, span.scope@);
    let rest = detail_text::raw_block("Events"@, span.events) + detail_text::raw_block("Links"@, span.links);
    lemma_parts_together(
        head,
        a,
        b,
        c,
        detail_text::raw_block("Events"@, span.events),
        detail_text::raw_block("Links"@, span.links),
    );
    if span.attributes@.len() > 0 {
        lemma_section(head, "Attributes"@, span.attributes@, b + c + rest);
    }
    if span.resource@.len() > 0 {
        lemma_section(head + a, "Resource"@, span.resource@, c + rest);
    }
    if span.scope@.len() > 0 {
        lemma_section(head + a + b, "Scope"@, span.scope@, rest);
    }
}

proof fn lemma_parts_together(
    head: Seq<Seq<char>>,
    a: Seq<Seq<char>>,
    b: Seq<Seq<char>>,
    c: Seq<Seq<char>>,
    d: Seq<Seq<char>>,
    e: Seq<Seq<char>>,
)
    ensures
        head + a + b + c + d + e == head + a + (b + c + (d + e)),
        head + a + b + c + d + e == (head + a) + b + (c + (d + e)),
        head + a + b + c + d + e == (head + a + b) + c + (d + e),
{
}

/// The detail of a span ends in its events and its links as they were recorded, where there are any.
pub proof fn law_a_span_detail_ends_in_events_and_links(trace_id: Seq<char>, span: SpanRecord, g: Glyphs)
    ensures
        ({
            let lines = detail_text::span_lines(trace_id, span, g);
            &&& span.links is Some && (span.links->0)@.len() > 0 ==> lines.len() >= 2 && lines[lines.len() - 2] == "Links"@
                && lines[lines.len() - 1] == "  "@ + (span.links->0)@
            &&& span.links is None && span.events is Some && (span.events->0)@.len() > 0 ==> lines.len() >= 2 && lines[lines.len()
                - 2] == "Events"@ && lines[lines.len() - 1] == "  "@ + (span.events->0)@
        }),
{
}

/// The summary of a span names the span, its service and its kind; its id and its parent; and when it started
/// and how long it took.
pub proof fn law_a_span_summary_tells_the_span(span: SpanRecord, g: Glyphs)
    requires
        span.service is Some,
        span.parent_span_id is Some,
        span.kind@.len() > 0,
        span.offset_ns >= 0,
    ensures
        ({
            let lines = detail_text::summary_lines(span, g);
            let sep = " "@ + g.sep@ + " "@;
            &&& lines.len() == 5
            &&& lines[0] == "Span    "@ + span.name@ + sep + (span.service->0)@ + sep + span.kind@
            &&& lines[1] == "IDs     "@ + span.span_id@ + sep + "parent "@ + (span.parent_span_id->0)@
            &&& lines[2] == "Timing  +"@ + time::duration_text(span.offset_ns as nat, g.ascii) + " into trace"@ + sep
                + time::duration_text(span.duration_ns as nat, g.ascii) + " long"@
        }),
{
}

/// The summary of a span tells its status, and how many attributes it has, of its own, of its resource and of
/// its scope.
pub proof fn law_a_span_summary_tells_the_status(span: SpanRecord, g: Glyphs)
    requires
        span.status_message is None,
        !span.malformed,
        span.events is None,
        span.links is None,
    ensures
        ({
            let lines = detail_text::summary_lines(span, g);
            let sep = " "@ + g.sep@ + " "@;
            &&& lines[3] == "Status  "@ + span.status_code@
            &&& lines[4] == "Fields  attrs "@ + text::dec(span.attributes@.len()) + sep + "resource "@ + text::dec(
                span.resource@.len(),
            ) + sep + "scope "@ + text::dec(span.scope@.len())
        }),
{
    let sep = " "@ + g.sep@ + " "@;
    assert(detail_text::status_text(span, g.sep@, g.warn@) =~= span.status_code@);
    let fields = "Fields  attrs "@ + text::dec(span.attributes@.len()) + sep + "resource "@ + text::dec(span.resource@.len())
        + sep + "scope "@ + text::dec(span.scope@.len());
    assert(fields + Seq::<char>::empty() + Seq::<char>::empty() =~= fields);
}

} // verus!
