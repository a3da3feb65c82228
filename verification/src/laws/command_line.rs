//! What the arguments of the command line ask for.

use vstd::prelude::*;

use crate::cli;
use crate::cli::{ModeView, Reading, SourceView};
use crate::text;
use crate::time;

verus! {

/// What the arguments ask for.
pub open spec fn read(args: Seq<Seq<char>>) -> Result<ModeView, Seq<char>> {
    cli::parsed(args, 0, cli::nothing_read())
}

proof fn lemma_value(args: Seq<Seq<char>>, i: int, r: Reading)
    requires
        0 <= i,
        i + 1 < args.len(),
        args[i] == "--url"@ || args[i] == "--db"@ || args[i] == "--refresh-seconds"@ || args[i] == "--from"@ || args[i] == "--to"@,
    ensures
        cli::parsed(args, i, r) == match cli::with_value(r, args[i], args[i + 1]) {
            Ok(next) => cli::parsed(args, i + 2, next),
            Err(e) => Err(e),
        },
{
    cli::lemma_flags();
}

proof fn lemma_word(args: Seq<Seq<char>>, i: int, r: Reading)
    requires
        0 <= i < args.len(),
        args[i] == "--mcp-stdio"@ || args[i] == "--ascii"@ || args[i].len() == 0 || args[i][0] != '-',
    ensures
        cli::parsed(args, i, r) == match cli::with_argument(r, args[i]) {
            Ok(next) => cli::parsed(args, i + 1, next),
            Err(e) => Err(e),
        },
{
    cli::lemma_flags();
}

proof fn lemma_directory(args: Seq<Seq<char>>, i: int, r: Reading)
    requires
        0 <= i < args.len(),
        args[i].len() == 0 || args[i][0] != '-',
        r.path is None,
    ensures
        cli::parsed(args, i, r) == cli::parsed(args, i + 1, Reading { path: Some(args[i]), ..r }),
{
    cli::lemma_flags();
    lemma_word(args, i, r);
}

/// The readings of the flags, each with its value.
proof fn lemma_read(r: Reading, v: Seq<char>)
    ensures
        cli::with_value(r, "--url"@, v) == Ok::<Reading, Seq<char>>(Reading { url: Some(v), ..r }),
        r.path is None ==> cli::with_value(r, "--db"@, v) == Ok::<Reading, Seq<char>>(Reading { path: Some(v), ..r }),
        cli::with_argument(r, "--mcp-stdio"@) == Ok::<Reading, Seq<char>>(Reading { mcp_stdio: true, ..r }),
        cli::with_argument(r, "--ascii"@) == Ok::<Reading, Seq<char>>(Reading { ascii: true, ..cli::note_flag(r, "--ascii"@) }),
{
    cli::lemma_flags();
}

proof fn lemma_read_options(r: Reading, v: Seq<char>)
    ensures
        text::number(v) matches Some(n) && n <= u64::MAX ==> (cli::with_value(r, "--refresh-seconds"@, v) matches Ok(s) && s
            == (Reading { refresh: s.refresh, ..cli::note_flag(r, "--refresh-seconds"@) }) && s.refresh.nanos == 1_000_000_000 * (
        if text::number(v)->0 == 0 { 1 } else { text::number(v)->0 as int })),
        time::parsed_datetime(v) matches Some(ns) ==> cli::with_value(r, "--from"@, v) == Ok::<Reading, Seq<char>>(
            Reading { from: Some(ns as i64), ..cli::note_flag(r, "--from"@) },
        ) && cli::with_value(r, "--to"@, v) == Ok::<Reading, Seq<char>>(
            Reading { to: Some(ns as i64), ..cli::note_flag(r, "--to"@) },
        ),
{
    cli::lemma_flags();
}

proof fn lemma_sources(path: Seq<char>, url: Seq<char>)
    requires
        path.len() == 0 || path[0] != '-',
    ensures
        read(seq![path]) == cli::finish(Reading { path: Some(path), ..cli::nothing_read() }),
        read(seq!["--db"@, path]) == read(seq![path]),
        read(seq!["--url"@, url]) == cli::finish(Reading { url: Some(url), ..cli::nothing_read() }),
        read(seq![path, "--url"@, url]) == cli::finish(Reading { path: Some(path), url: Some(url), ..cli::nothing_read() }),
{
    let r = cli::nothing_read();
    lemma_directory(seq![path], 0, r);
    lemma_read(r, path);
    lemma_read(r, url);
    lemma_value(seq!["--db"@, path], 0, r);
    lemma_value(seq!["--url"@, url], 0, r);
    let both = seq![path, "--url"@, url];
    lemma_directory(both, 0, r);
    let s = Reading { path: Some(path), ..r };
    lemma_read(s, url);
    lemma_value(both, 1, s);
}

proof fn lemma_servers(path: Seq<char>, url: Seq<char>)
    requires
        path.len() == 0 || path[0] != '-',
    ensures
        read(seq!["--mcp-stdio"@, path]) == cli::finish(Reading { mcp_stdio: true, path: Some(path), ..cli::nothing_read() }),
        read(seq!["--mcp-stdio"@, "--url"@, url]) == cli::finish(
            Reading { mcp_stdio: true, url: Some(url), ..cli::nothing_read() },
        ),
{
    let r = cli::nothing_read();
    let s = Reading { mcp_stdio: true, ..r };
    lemma_read(r, url);
    lemma_read(s, url);
    let a = seq!["--mcp-stdio"@, path];
    lemma_word(a, 0, r);
    lemma_directory(a, 1, s);
    let b = seq!["--mcp-stdio"@, "--url"@, url];
    lemma_word(b, 0, r);
    lemma_value(b, 1, s);
}

/// A directory opens the database in it, and an address behind `--url` the one behind it: with the explorer, or
/// behind `--mcp-stdio` without it.
pub proof fn law_the_source_is_a_directory_or_an_address(path: Seq<char>, url: Seq<char>)
    requires
        path.len() == 0 || path[0] != '-',
    ensures
        read(seq![path]) matches Ok(ModeView::Tui { source, .. }) && source == SourceView::Db(path),
        read(seq!["--db"@, path]) == read(seq![path]),
        read(seq!["--url"@, url]) matches Ok(ModeView::Tui { source, .. }) && source == SourceView::Url(url),
        read(seq!["--mcp-stdio"@, path]) == Ok::<ModeView, Seq<char>>(ModeView::McpStdio(SourceView::Db(path))),
        read(seq!["--mcp-stdio"@, "--url"@, url]) == Ok::<ModeView, Seq<char>>(ModeView::McpStdio(SourceView::Url(url))),
        read(seq!["--help"@]) == Ok::<ModeView, Seq<char>>(ModeView::Help),
        read(seq!["-h"@]) == Ok::<ModeView, Seq<char>>(ModeView::Help),
        read(Seq::empty()) is Err,
        read(seq![path, "--url"@, url]) is Err,
{
    lemma_sources(path, url);
    lemma_servers(path, url);
    assert(read(seq!["--help"@]) == Ok::<ModeView, Seq<char>>(ModeView::Help));
    assert(read(seq!["-h"@]) == Ok::<ModeView, Seq<char>>(ModeView::Help));
}

proof fn lemma_halves(path: Seq<char>, from: Seq<char>, to: Seq<char>, start: i64, end: i64)
    requires
        path.len() == 0 || path[0] != '-',
        time::parsed_datetime(from) == Some(start as int),
        time::parsed_datetime(to) == Some(end as int),
    ensures
        read(seq![path, "--from"@, from]) is Err,
        read(seq![path, "--to"@, to]) is Err,
{
    let r = cli::nothing_read();
    let p = Reading { path: Some(path), ..r };
    lemma_read_options(p, from);
    lemma_read_options(p, to);
    let a = seq![path, "--from"@, from];
    lemma_directory(a, 0, r);
    lemma_value(a, 1, p);
    let b = seq![path, "--to"@, to];
    lemma_directory(b, 0, r);
    lemma_value(b, 1, p);
}

proof fn lemma_window(path: Seq<char>, from: Seq<char>, to: Seq<char>, start: i64, end: i64)
    requires
        path.len() == 0 || path[0] != '-',
        time::parsed_datetime(from) == Some(start as int),
        time::parsed_datetime(to) == Some(end as int),
    ensures
        ({
            let p = Reading { path: Some(path), ..cli::nothing_read() };
            let s = Reading { from: Some(start), ..cli::note_flag(p, "--from"@) };
            read(seq![path, "--from"@, from, "--to"@, to]) == cli::finish(
                Reading { to: Some(end), ..cli::note_flag(s, "--to"@) },
            )
        }),
{
    let r = cli::nothing_read();
    let p = Reading { path: Some(path), ..r };
    let s = Reading { from: Some(start), ..cli::note_flag(p, "--from"@) };
    let c = seq![path, "--from"@, from, "--to"@, to];
    assert(cli::parsed(c, 0, r) == cli::parsed(c, 1, p)) by {
        lemma_directory(c, 0, r);
    }
    assert(cli::parsed(c, 1, p) == cli::parsed(c, 3, s)) by {
        lemma_read_options(p, from);
        lemma_value(c, 1, p);
    }
    let w = Reading { to: Some(end), ..cli::note_flag(s, "--to"@) };
    assert(cli::parsed(c, 3, s) == cli::parsed(c, 5, w)) by {
        lemma_read_options(s, to);
        lemma_value(c, 3, s);
    }
}

/// `--from` and `--to` give the start and the end of the window, where the start is before the end; one without
/// the other, and a window that is none, are refused.
pub proof fn law_from_and_to_give_the_window(path: Seq<char>, from: Seq<char>, to: Seq<char>, start: i64, end: i64)
    requires
        path.len() == 0 || path[0] != '-',
        time::parsed_datetime(from) == Some(start as int),
        time::parsed_datetime(to) == Some(end as int),
    ensures
        start < end ==> (read(seq![path, "--from"@, from, "--to"@, to]) matches Ok(ModeView::Tui { options, source })
            && options.window == Some((start, end)) && source == SourceView::Db(path)),
        start >= end ==> read(seq![path, "--from"@, from, "--to"@, to]) is Err,
        read(seq![path, "--from"@, from]) is Err,
        read(seq![path, "--to"@, to]) is Err,
        read(seq![path]) matches Ok(ModeView::Tui { options, .. }) && options.window is None && !options.ascii,
{
    lemma_sources(path, path);
    lemma_halves(path, from, to, start, end);
    lemma_window(path, from, to, start, end);
}

/// `--refresh-seconds` gives the interval of the periodic refresh in seconds, one at least, and `--ascii` a plain
/// terminal. Neither means anything behind `--mcp-stdio`.
pub proof fn law_options_of_the_explorer(path: Seq<char>, number: Seq<char>, n: nat)
    requires
        path.len() == 0 || path[0] != '-',
        text::number(number) == Some(n),
        n <= u64::MAX,
    ensures
        read(seq![path, "--refresh-seconds"@, number]) matches Ok(ModeView::Tui { options, .. })
            && options.refresh_interval.nanos == 1_000_000_000 * (if n == 0 { 1 } else { n as int }) && !options.ascii,
        read(seq![path, "--ascii"@]) matches Ok(ModeView::Tui { options, .. }) && options.ascii
            && options.refresh_interval.nanos == 5_000_000_000,
        read(seq![path, "--mcp-stdio"@, "--ascii"@]) is Err,
        read(seq![path, "--mcp-stdio"@, "--refresh-seconds"@, number]) is Err,
{
    lemma_plain_options(path, number);
    lemma_server_options(path, number);
}

proof fn lemma_plain_options(path: Seq<char>, number: Seq<char>)
    requires
        path.len() == 0 || path[0] != '-',
        text::number(number) matches Some(n) && n <= u64::MAX,
    ensures
        ({
            let p = Reading { path: Some(path), ..cli::nothing_read() };
            &&& read(seq![path, "--refresh-seconds"@, number]) == cli::finish(
                cli::with_value(p, "--refresh-seconds"@, number)->Ok_0,
            )
            &&& cli::with_value(p, "--refresh-seconds"@, number) is Ok
            &&& ({
                let s = cli::with_value(p, "--refresh-seconds"@, number)->Ok_0;
                s == (Reading { refresh: s.refresh, ..cli::note_flag(p, "--refresh-seconds"@) }) && s.refresh.nanos == 1_000_000_000
                    * (if text::number(number)->0 == 0 { 1 } else { text::number(number)->0 as int })
            })
            &&& read(seq![path, "--ascii"@]) == cli::finish(Reading { ascii: true, ..cli::note_flag(p, "--ascii"@) })
        }),
{
    let r = cli::nothing_read();
    let p = Reading { path: Some(path), ..r };
    let a = seq![path, "--refresh-seconds"@, number];
    lemma_read_options(p, number);
    assert(cli::parsed(a, 0, r) == cli::parsed(a, 1, p)) by {
        lemma_directory(a, 0, r);
    }
    lemma_value(a, 1, p);
    let b = seq![path, "--ascii"@];
    lemma_read(p, path);
    assert(cli::parsed(b, 0, r) == cli::parsed(b, 1, p)) by {
        lemma_directory(b, 0, r);
    }
    lemma_word(b, 1, p);
}

proof fn lemma_server_options(path: Seq<char>, number: Seq<char>)
    requires
        path.len() == 0 || path[0] != '-',
        text::number(number) matches Some(n) && n <= u64::MAX,
    ensures
        read(seq![path, "--mcp-stdio"@, "--ascii"@]) is Err,
        read(seq![path, "--mcp-stdio"@, "--refresh-seconds"@, number]) is Err,
{
    let r = cli::nothing_read();
    let p = Reading { path: Some(path), ..r };
    let m = Reading { mcp_stdio: true, ..p };
    let c = seq![path, "--mcp-stdio"@, "--ascii"@];
    lemma_read(p, path);
    lemma_read(m, path);
    assert(cli::parsed(c, 0, r) == cli::parsed(c, 2, m)) by {
        lemma_directory(c, 0, r);
        lemma_word(c, 1, p);
    }
    lemma_word(c, 2, m);
    let d = seq![path, "--mcp-stdio"@, "--refresh-seconds"@, number];
    lemma_read_options(m, number);
    assert(cli::parsed(d, 0, r) == cli::parsed(d, 2, m)) by {
        lemma_directory(d, 0, r);
        lemma_word(d, 1, p);
    }
    lemma_value(d, 2, m);
}

} // verus!
