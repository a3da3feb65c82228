//! The command line.
//!
//! The program is two programs sharing one [`Source`]: the terminal explorer and, with
//! `--mcp-stdio`, a protocol server on stdin and stdout. Both take their data the same two ways: a
//! database directory opened here, or `--url` naming a running daemon to ask instead.

use vstd::prelude::*;

use crate::model::Options;
use crate::model;
use crate::text;
use crate::time::{parse_datetime, Duration};
use crate::time;

verus! {

/// What the program was asked to do.
#[derive(Debug)]
pub enum Mode {
    /// Browse a database in the terminal.
    Tui { source: Source, options: Options },
    /// Serve the protocol over stdio.
    McpStdio(Source),
    /// Print the usage and exit successfully.
    Help,
}

/// Where a session gets its answers.
#[derive(Debug)]
pub enum Source {
    /// Open this directory read-only in this process.
    Db(String),
    /// Ask the running daemon at this address.
    Url(String),
}

/// What a source names.
pub enum SourceView {
    Db(Seq<char>),
    Url(Seq<char>),
}

/// What a mode asks for.
pub enum ModeView {
    Tui { source: SourceView, options: Options },
    McpStdio(SourceView),
    Help,
}

impl View for Source {
    type V = SourceView;

    open spec fn view(&self) -> SourceView {
        match *self {
            Source::Db(path) => SourceView::Db(path@),
            Source::Url(url) => SourceView::Url(url@),
        }
    }
}

impl View for Mode {
    type V = ModeView;

    open spec fn view(&self) -> ModeView {
        match *self {
            Mode::Tui { source, options } => ModeView::Tui { source: source@, options },
            Mode::McpStdio(source) => ModeView::McpStdio(source@),
            Mode::Help => ModeView::Help,
        }
    }
}

/// The usage text.
pub fn usage() -> (r: &'static str)
    ensures
        r@ == "usage:\n  imbh-tui (<database-directory> | --url http://host:port)\n           [--ascii] [--refresh-seconds N]\n           [--from 'YYYY-MM-DD HH:MM:SS' --to 'YYYY-MM-DD HH:MM:SS']\n      Browse a database in the terminal, either by opening the directory here\n      (read-only, alongside a running imbhd) or as a head onto a running imbhd,\n      which can also show what is still in its unsealed write buffer.\n\n  imbh-tui --mcp-stdio (<database-directory> | --url http://host:port)\n      Serve the Model Context Protocol on stdin/stdout, either from the database\n      directory directly or by forwarding to a running imbhd's POST /mcp."@,
{
    "usage:\n  imbh-tui (<database-directory> | --url http://host:port)\n           [--ascii] [--refresh-seconds N]\n           [--from 'YYYY-MM-DD HH:MM:SS' --to 'YYYY-MM-DD HH:MM:SS']\n      Browse a database in the terminal, either by opening the directory here\n      (read-only, alongside a running imbhd) or as a head onto a running imbhd,\n      which can also show what is still in its unsealed write buffer.\n\n  imbh-tui --mcp-stdio (<database-directory> | --url http://host:port)\n      Serve the Model Context Protocol on stdin/stdout, either from the database\n      directory directly or by forwarding to a running imbhd's POST /mcp."
}

/// What the arguments read so far say.
pub struct Reading {
    pub mcp_stdio: bool,
    pub url: Option<Seq<char>>,
    pub path: Option<Seq<char>>,
    /// The first flag given that only the explorer takes.
    pub tui_flag: Option<Seq<char>>,
    pub ascii: bool,
    pub refresh: Duration,
    pub from: Option<i64>,
    pub to: Option<i64>,
}

/// What no arguments say.
pub open spec fn nothing_read() -> Reading {
    Reading {
        mcp_stdio: false,
        url: None,
        path: None,
        tui_flag: None,
        ascii: false,
        refresh: model::default_options().refresh_interval,
        from: None,
        to: None,
    }
}

/// The reading with a flag of the explorer noted.
pub open spec fn note_flag(r: Reading, flag: Seq<char>) -> Reading {
    Reading { tui_flag: if r.tui_flag is Some { r.tui_flag } else { Some(flag) }, ..r }
}

/// The reading with a database directory, or the error where it already has one.
pub open spec fn note_path(r: Reading, path: Seq<char>) -> Result<Reading, Seq<char>> {
    match r.path {
        Some(first) => Err(
            "two database directories given ("@ + first + " and "@ + path + ")"@,
        ),
        None => Ok(Reading { path: Some(path), ..r }),
    }
}

/// The error of a flag whose value is missing.
pub open spec fn missing(flag: Seq<char>, what: Seq<char>) -> Seq<char> {
    flag + " requires "@ + what
}

/// What a flag that takes a value needs, or `None` where the argument is no such flag.
pub open spec fn needs(arg: Seq<char>) -> Option<Seq<char>> {
    if arg == "--url"@ {
        Some("an address, e.g. 127.0.0.1:4318"@)
    } else if arg == "--db"@ {
        Some("a database directory"@)
    } else if arg == "--refresh-seconds"@ {
        Some("an integer"@)
    } else if arg == "--from"@ || arg == "--to"@ {
        Some("a UTC datetime"@)
    } else {
        None
    }
}

/// The reading after a flag with its value.
pub open spec fn with_value(r: Reading, flag: Seq<char>, value: Seq<char>) -> Result<Reading, Seq<char>> {
    if flag == "--url"@ {
        Ok(Reading { url: Some(value), ..r })
    } else if flag == "--db"@ {
        note_path(r, value)
    } else if flag == "--refresh-seconds"@ {
        match text::number(value) {
            Some(n) => if n <= u64::MAX {
                Ok(
                    Reading {
                        refresh: Duration {
                            nanos: ((if n == 0 { 1 } else { n }) * 1_000_000_000) as u128,
                        },
                        ..note_flag(r, flag)
                    },
                )
            } else {
                Err("--refresh-seconds requires an integer"@)
            },
            None => Err("--refresh-seconds requires an integer"@),
        }
    } else if flag == "--from"@ {
        match time::parsed_datetime(value) {
            Some(ns) => Ok(Reading { from: Some(ns as i64), ..note_flag(r, flag) }),
            None => Err("--from: expected UTC 'YYYY-MM-DD HH:MM:SS'"@),
        }
    } else {
        match time::parsed_datetime(value) {
            Some(ns) => Ok(Reading { to: Some(ns as i64), ..note_flag(r, flag) }),
            None => Err("--to: expected UTC 'YYYY-MM-DD HH:MM:SS'"@),
        }
    }
}

/// The reading after an argument that takes no value.
pub open spec fn with_argument(r: Reading, arg: Seq<char>) -> Result<Reading, Seq<char>> {
    if arg == "--mcp-stdio"@ {
        Ok(Reading { mcp_stdio: true, ..r })
    } else if arg == "--ascii"@ {
        Ok(Reading { ascii: true, ..note_flag(r, arg) })
    } else if arg.len() > 0 && arg[0] == '-' {
        Err("unknown argument: "@ + arg)
    } else {
        note_path(r, arg)
    }
}

/// The one source of a session: exactly one of the two forms must be given.
pub open spec fn source_of(path: Option<Seq<char>>, url: Option<Seq<char>>, what: Seq<char>) -> Result<
    SourceView,
    Seq<char>,
> {
    match (path, url) {
        (Some(path), None) => Ok(SourceView::Db(path)),
        (None, Some(url)) => Ok(SourceView::Url(url)),
        (Some(_), Some(_)) => Err(
            what
                + " takes a database directory or --url, not both: one opens the data here, the other asks a running imbhd for it"@,
        ),
        (None, None) => Err(what + " needs a database directory or --url naming a running imbhd"@),
    }
}

/// What a complete reading asks for.
pub open spec fn finish(r: Reading) -> Result<ModeView, Seq<char>> {
    if r.mcp_stdio {
        match r.tui_flag {
            Some(flag) => Err(flag + " is a terminal-explorer option and means nothing with --mcp-stdio"@),
            None => match source_of(r.path, r.url, "--mcp-stdio"@) {
                Ok(source) => Ok(ModeView::McpStdio(source)),
                Err(e) => Err(e),
            },
        }
    } else {
        match source_of(r.path, r.url, "the terminal explorer"@) {
            Err(e) => Err(e),
            Ok(source) => {
                let options = Options {
                    refresh_interval: r.refresh,
                    ascii: r.ascii,
                    window: match (r.from, r.to) {
                        (Some(start), Some(end)) => Some((start, end)),
                        _ => None,
                    },
                    ..model::default_options()
                };
                match (r.from, r.to) {
                    (Some(start), Some(end)) => if start < end {
                        Ok(ModeView::Tui { source, options })
                    } else {
                        Err("--from must be before --to"@)
                    },
                    (None, None) => Ok(ModeView::Tui { source, options }),
                    _ => Err("--from and --to must be given together"@),
                }
            },
        }
    }
}

/// What the arguments from `i` on ask for, after what was read before them.
pub open spec fn parsed(args: Seq<Seq<char>>, i: int, r: Reading) -> Result<ModeView, Seq<char>>
    decreases args.len() - i,
{
    if !(0 <= i < args.len()) {
        finish(r)
    } else if args[i] == "--help"@ || args[i] == "-h"@ {
        Ok(ModeView::Help)
    } else {
        match needs(args[i]) {
            Some(what) => if i + 1 < args.len() {
                match with_value(r, args[i], args[i + 1]) {
                    Ok(next) => parsed(args, i + 2, next),
                    Err(e) => Err(e),
                }
            } else {
                Err(missing(args[i], what))
            },
            None => match with_argument(r, args[i]) {
                Ok(next) => parsed(args, i + 1, next),
                Err(e) => Err(e),
            },
        }
    }
}

/// Whether an outcome is the one the contract names.
pub open spec fn outcome(r: Result<Mode, String>, s: Result<ModeView, Seq<char>>) -> bool {
    match (r, s) {
        (Ok(mode), Ok(view)) => mode@ == view,
        (Err(e), Err(view)) => e@ == view,
        _ => false,
    }
}

struct State {
    mcp_stdio: bool,
    url: Option<String>,
    path: Option<String>,
    tui_flag: Option<String>,
    ascii: bool,
    refresh: Duration,
    from: Option<i64>,
    to: Option<i64>,
}

impl State {
    spec fn reading(&self) -> Reading {
        Reading {
            mcp_stdio: self.mcp_stdio,
            url: crate::text::opt(self.url),
            path: crate::text::opt(self.path),
            tui_flag: crate::text::opt(self.tui_flag),
            ascii: self.ascii,
            refresh: self.refresh,
            from: self.from,
            to: self.to,
        }
    }

    fn note(&mut self, flag: &str)
        ensures
            final(self).reading() == note_flag(old(self).reading(), flag@),
    {
        if self.tui_flag.is_none() {
            self.tui_flag = Some(text::owned(flag));
        }
    }

    /// Records a database directory; a second one is refused.
    fn set_path(&mut self, value: &str) -> (r: Result<(), String>)
        ensures
            match (r, note_path(old(self).reading(), value@)) {
                (Ok(()), Ok(next)) => final(self).reading() == next,
                (Err(e), Err(view)) => e@ == view,
                _ => false,
            },
    {
        if let Some(first) = &self.path {
            let mut out = text::owned("two database directories given (");
            out.append(first);
            out.append(" and ");
            out.append(value);
            out.append(")");
            return Err(out);
        }
        self.path = Some(text::owned(value));
        Ok(())
    }

    fn take_value(&mut self, flag: &str, value: &str) -> (r: Result<(), String>)
        requires
            needs(flag@) is Some,
        ensures
            match (r, with_value(old(self).reading(), flag@, value@)) {
                (Ok(()), Ok(next)) => final(self).reading() == next,
                (Err(e), Err(view)) => e@ == view,
                _ => false,
            },
    {
        if text::same(flag, "--url") {
            self.url = Some(text::owned(value));
            Ok(())
        } else if text::same(flag, "--db") {
            self.set_path(value)
        } else if text::same(flag, "--refresh-seconds") {
            let cs = text::chars_of(value);
            match text::read_number(&cs, 18_446_744_073_709_551_615) {
                Some(n) => {
                    self.note(flag);
                    self.refresh = Duration::from_secs(if n == 0 { 1 } else { n });
                    Ok(())
                },
                None => Err(text::owned("--refresh-seconds requires an integer")),
            }
        } else if text::same(flag, "--from") {
            match parse_datetime(value) {
                Some(ns) => {
                    self.note(flag);
                    self.from = Some(ns);
                    Ok(())
                },
                None => Err(text::owned("--from: expected UTC 'YYYY-MM-DD HH:MM:SS'")),
            }
        } else {
            match parse_datetime(value) {
                Some(ns) => {
                    self.note(flag);
                    self.to = Some(ns);
                    Ok(())
                },
                None => Err(text::owned("--to: expected UTC 'YYYY-MM-DD HH:MM:SS'")),
            }
        }
    }

    fn take_argument(&mut self, arg: &str) -> (r: Result<(), String>)
        ensures
            match (r, with_argument(old(self).reading(), arg@)) {
                (Ok(()), Ok(next)) => final(self).reading() == next,
                (Err(e), Err(view)) => e@ == view,
                _ => false,
            },
    {
        if text::same(arg, "--mcp-stdio") {
            self.mcp_stdio = true;
            Ok(())
        } else if text::same(arg, "--ascii") {
            self.note(arg);
            self.ascii = true;
            Ok(())
        } else if arg.unicode_len() > 0 && arg.get_char(0) == '-' {
            let mut out = text::owned("unknown argument: ");
            out.append(arg);
            Err(out)
        } else {
            self.set_path(arg)
        }
    }

    fn finish(self) -> (r: Result<Mode, String>)
        ensures
            outcome(r, finish(self.reading())),
    {
        if self.mcp_stdio {
            if let Some(flag) = self.tui_flag {
                let mut out = flag;
                out.append(" is a terminal-explorer option and means nothing with --mcp-stdio");
                return Err(out);
            }
            return match source(self.path, self.url, "--mcp-stdio") {
                Ok(source) => Ok(Mode::McpStdio(source)),
                Err(e) => Err(e),
            };
        }
        let source = match source(self.path, self.url, "the terminal explorer") {
            Ok(source) => source,
            Err(e) => {
                return Err(e);
            },
        };
        let mut options = Options::default();
        options.refresh_interval = self.refresh;
        options.ascii = self.ascii;
        match (self.from, self.to) {
            (Some(start), Some(end)) => {
                if start < end {
                    options.window = Some((start, end));
                    Ok(Mode::Tui { source, options })
                } else {
                    Err(text::owned("--from must be before --to"))
                }
            },
            (None, None) => Ok(Mode::Tui { source, options }),
            _ => Err(text::owned("--from and --to must be given together")),
        }
    }
}

/// The one source that a session reads from. Exactly one of the two forms must be given: they are
/// not alternatives that could be merged but two different databases to ask.
pub fn source(path: Option<String>, url: Option<String>, what: &str) -> (r: Result<Source, String>)
    ensures
        match (r, source_of(crate::text::opt(path), crate::text::opt(url), what@)) {
            (Ok(source), Ok(view)) => source@ == view,
            (Err(e), Err(view)) => e@ == view,
            _ => false,
        },
{
    match (path, url) {
        (Some(path), None) => Ok(Source::Db(path)),
        (None, Some(url)) => Ok(Source::Url(url)),
        (Some(_), Some(_)) => {
            let mut out = text::owned(what);
            out.append(
                " takes a database directory or --url, not both: one opens the data here, the other asks a running imbhd for it",
            );
            Err(out)
        },
        (None, None) => {
            let mut out = text::owned(what);
            out.append(" needs a database directory or --url naming a running imbhd");
            Err(out)
        },
    }
}

/// What a flag that takes a value needs.
fn value_of(arg: &str) -> (r: Option<&'static str>)
    ensures
        match r {
            Some(what) => needs(arg@) == Some(what@),
            None => needs(arg@) is None,
        },
{
    if text::same(arg, "--url") {
        Some("an address, e.g. 127.0.0.1:4318")
    } else if text::same(arg, "--db") {
        Some("a database directory")
    } else if text::same(arg, "--refresh-seconds") {
        Some("an integer")
    } else if text::same(arg, "--from") || text::same(arg, "--to") {
        Some("a UTC datetime")
    } else {
        None
    }
}

/// Reads the argument list (without the program's own name).
///
/// The `Err` is the message to print; it never carries the usage text, which the caller appends.
pub fn parse(args: &Vec<String>) -> (r: Result<Mode, String>)
    ensures
        outcome(r, parsed(text::strs(args@), 0, nothing_read())),
{
    let ghost all = text::strs(args@);
    let mut state = State {
        mcp_stdio: false,
        url: None,
        path: None,
        tui_flag: None,
        ascii: false,
        refresh: Options::default().refresh_interval,
        from: None,
        to: None,
    };
    let mut i: usize = 0;
    while i < args.len()
        invariant
            i <= args@.len(),
            all == text::strs(args@),
            parsed(all, 0, nothing_read()) == parsed(all, i as int, state.reading()),
        decreases args.len() - i,
    {
        let arg = &args[i];
        assert(all[i as int] == arg@);
        if text::same(arg, "--help") || text::same(arg, "-h") {
            return Ok(Mode::Help);
        }
        match value_of(arg) {
            Some(what) => {
                if args.len() - i <= 1 {
                    let mut out = arg.clone();
                    out.append(" requires ");
                    out.append(what);
                    return Err(out);
                }
                assert(all[i + 1] == args@[i + 1]@);
                match state.take_value(arg, &args[i + 1]) {
                    Ok(()) => {},
                    Err(e) => {
                        return Err(e);
                    },
                }
                i += 2;
            },
            None => {
                match state.take_argument(arg) {
                    Ok(()) => {},
                    Err(e) => {
                        return Err(e);
                    },
                }
                i += 1;
            },
        }
    }
    state.finish()
}

/// What holds of every reading: the refresh interval is at least a second.
pub open spec fn sound(r: Reading) -> bool {
    r.refresh.nanos >= 1_000_000_000
}

proof fn lemma_sound(args: Seq<Seq<char>>, i: int, r: Reading)
    requires
        sound(r),
    ensures
        parsed(args, i, r) matches Ok(ModeView::Tui { source, options }) ==> {
            &&& options.window matches Some((start, end)) ==> start < end
            &&& options.refresh_interval.nanos >= 1_000_000_000
        },
    decreases args.len() - i,
{
    if 0 <= i < args.len() {
        match needs(args[i]) {
            Some(_) => if i + 1 < args.len() {
                match with_value(r, args[i], args[i + 1]) {
                    Ok(next) => {
                        lemma_sound(args, i + 2, next);
                    },
                    Err(_) => {},
                }
            },
            None => match with_argument(r, args[i]) {
                Ok(next) => {
                    lemma_sound(args, i + 1, next);
                },
                Err(_) => {},
            },
        }
    }
}

/// A command line that is accepted for the explorer names an ordered window, or none, and a refresh
/// interval of at least a second.
pub proof fn law_accepted_options_are_sound(args: Seq<Seq<char>>)
    ensures
        parsed(args, 0, nothing_read()) matches Ok(ModeView::Tui { source, options }) ==> {
            &&& options.window matches Some((start, end)) ==> start < end
            &&& options.refresh_interval.nanos >= 1_000_000_000
        },
{
    lemma_sound(args, 0, nothing_read());
}

/// A session has a source exactly where one of the two forms is given and the other is not.
pub proof fn law_exactly_one_source(path: Option<Seq<char>>, url: Option<Seq<char>>, what: Seq<char>)
    ensures
        source_of(path, url, what) is Ok <==> (path is Some) != (url is Some),
{
}

/// One thing that a command line says: a flag with its value, a flag alone, or a database directory by
/// itself.
pub enum Setting {
    Url(Seq<char>),
    Db(Seq<char>),
    Directory(Seq<char>),
    RefreshSeconds(Seq<char>),
    From(Seq<char>),
    To(Seq<char>),
    McpStdio,
    Ascii,
}

/// The arguments that say it.
pub open spec fn spelling(s: Setting) -> Seq<Seq<char>> {
    match s {
        Setting::Url(v) => seq!["--url"@, v],
        Setting::Db(v) => seq!["--db"@, v],
        Setting::Directory(v) => seq![v],
        Setting::RefreshSeconds(v) => seq!["--refresh-seconds"@, v],
        Setting::From(v) => seq!["--from"@, v],
        Setting::To(v) => seq!["--to"@, v],
        Setting::McpStdio => seq!["--mcp-stdio"@],
        Setting::Ascii => seq!["--ascii"@],
    }
}

/// The arguments that say all of it, in this order.
pub open spec fn written(settings: Seq<Setting>) -> Seq<Seq<char>>
    decreases settings.len(),
{
    if settings.len() == 0 {
        Seq::empty()
    } else {
        spelling(settings[0]) + written(settings.drop_first())
    }
}

/// Whether it can be read back: a directory that starts with a dash would be read as a flag.
pub open spec fn readable(settings: Seq<Setting>) -> bool {
    forall|i: int| 0 <= i < settings.len() ==> (#[trigger] settings[i] matches Setting::Directory(v) ==> v.len() == 0
        || v[0] != '-')
}

/// The setting, however it is spelled: a directory by itself is the value of `--db`.
pub open spec fn meaning(s: Setting) -> Setting {
    match s {
        Setting::Directory(v) => Setting::Db(v),
        _ => s,
    }
}

/// Which setting it is, whatever its value.
pub open spec fn kind(s: Setting) -> int {
    match s {
        Setting::Url(_) => 0,
        Setting::Db(_) => 1,
        Setting::Directory(_) => 1,
        Setting::RefreshSeconds(_) => 2,
        Setting::From(_) => 3,
        Setting::To(_) => 4,
        Setting::McpStdio => 5,
        Setting::Ascii => 6,
    }
}

/// Whether nothing is said twice.
pub open spec fn each_once(settings: Seq<Setting>) -> bool {
    forall|i: int, j: int| 0 <= i < j < settings.len() ==> kind(#[trigger] settings[i]) != kind(#[trigger] settings[j])
}

/// Whether the setting is among them, however it is spelled.
pub open spec fn says(settings: Seq<Setting>, s: Setting) -> bool {
    exists|i: int| 0 <= i < settings.len() && meaning(#[trigger] settings[i]) == meaning(s)
}

/// What is said of one kind.
spec fn found(settings: Seq<Setting>, k: int) -> Option<Setting>
    decreases settings.len(),
{
    if settings.len() == 0 {
        None
    } else if kind(settings[0]) == k {
        Some(meaning(settings[0]))
    } else {
        found(settings.drop_first(), k)
    }
}

/// The reading after a setting.
spec fn applied(r: Reading, s: Setting) -> Result<Reading, Seq<char>> {
    match s {
        Setting::Url(v) => with_value(r, "--url"@, v),
        Setting::Db(v) => with_value(r, "--db"@, v),
        Setting::Directory(v) => note_path(r, v),
        Setting::RefreshSeconds(v) => with_value(r, "--refresh-seconds"@, v),
        Setting::From(v) => with_value(r, "--from"@, v),
        Setting::To(v) => with_value(r, "--to"@, v),
        Setting::McpStdio => with_argument(r, "--mcp-stdio"@),
        Setting::Ascii => with_argument(r, "--ascii"@),
    }
}

/// The reading after all settings.
spec fn all_applied(r: Reading, settings: Seq<Setting>) -> Result<Reading, Seq<char>>
    decreases settings.len(),
{
    if settings.len() == 0 {
        Ok(r)
    } else {
        match applied(r, settings[0]) {
            Ok(next) => all_applied(next, settings.drop_first()),
            Err(e) => Err(e),
        }
    }
}

pub proof fn lemma_flags()
    ensures
        "--help"@.len() == 6 && "-h"@.len() == 2 && "--url"@.len() == 5 && "--db"@.len() == 4,
        "--refresh-seconds"@.len() == 17 && "--from"@.len() == 6 && "--to"@.len() == 4,
        "--mcp-stdio"@.len() == 11 && "--ascii"@.len() == 7,
        "--help"@[2] == 'h' && "--from"@[2] == 'f' && "--db"@[2] == 'd' && "--to"@[2] == 't',
        "--help"@[0] == '-' && "-h"@[0] == '-' && "--url"@[0] == '-' && "--db"@[0] == '-',
        "--refresh-seconds"@[0] == '-' && "--from"@[0] == '-' && "--to"@[0] == '-',
        "--mcp-stdio"@[0] == '-' && "--ascii"@[0] == '-',
{
    reveal_strlit("--help");
    reveal_strlit("-h");
    reveal_strlit("--url");
    reveal_strlit("--db");
    reveal_strlit("--refresh-seconds");
    reveal_strlit("--from");
    reveal_strlit("--to");
    reveal_strlit("--mcp-stdio");
    reveal_strlit("--ascii");
}

proof fn lemma_spelling(r: Reading, s: Setting)
    requires
        s matches Setting::Directory(v) ==> v.len() == 0 || v[0] != '-',
    ensures
        spelling(s)[0] != "--help"@ && spelling(s)[0] != "-h"@,
        spelling(s).len() == 1 || spelling(s).len() == 2,
        needs(spelling(s)[0]) is Some <==> spelling(s).len() == 2,
        spelling(s).len() == 2 ==> with_value(r, spelling(s)[0], spelling(s)[1]) == applied(r, s),
        spelling(s).len() == 1 ==> with_argument(r, spelling(s)[0]) == applied(r, s),
{
    lemma_flags();
}

proof fn lemma_one_read(args: Seq<Seq<char>>, i: int, r: Reading, s: Setting)
    requires
        0 <= i,
        i + spelling(s).len() <= args.len(),
        args[i] == spelling(s)[0],
        spelling(s).len() == 2 ==> args[i + 1] == spelling(s)[1],
        s matches Setting::Directory(v) ==> v.len() == 0 || v[0] != '-',
    ensures
        parsed(args, i, r) == match applied(r, s) {
            Ok(next) => parsed(args, i + spelling(s).len(), next),
            Err(e) => Err(e),
        },
{
    lemma_spelling(r, s);
}

proof fn lemma_read_back(args: Seq<Seq<char>>, i: int, r: Reading, settings: Seq<Setting>)
    requires
        0 <= i <= args.len(),
        args.skip(i) == written(settings),
        readable(settings),
    ensures
        parsed(args, i, r) == match all_applied(r, settings) {
            Ok(t) => finish(t),
            Err(e) => Err(e),
        },
    decreases settings.len(),
{
    if settings.len() == 0 {
        assert(args.skip(i).len() == 0);
    } else {
        let s = settings[0];
        let rest = settings.drop_first();
        let n = spelling(s).len() as int;
        lemma_split_off(args, i, s, rest);
        assert(readable(rest)) by {
            assert forall|j: int| 0 <= j < rest.len() implies (#[trigger] rest[j] matches Setting::Directory(v)
                ==> v.len() == 0 || v[0] != '-') by {
                assert(rest[j] == settings[j + 1]);
            }
        }
        lemma_one_read(args, i, r, s);
        if let Ok(next) = applied(r, s) {
            lemma_read_back(args, i + n, next, rest);
        }
    }
}

proof fn lemma_split_off(args: Seq<Seq<char>>, i: int, s: Setting, rest: Seq<Setting>)
    requires
        0 <= i <= args.len(),
        args.skip(i) == spelling(s) + written(rest),
    ensures
        i + spelling(s).len() <= args.len(),
        args[i] == spelling(s)[0],
        spelling(s).len() == 2 ==> args[i + 1] == spelling(s)[1],
        args.skip(i + spelling(s).len()) == written(rest),
{
    let head = spelling(s);
    let n = head.len() as int;
    assert(args.skip(i).len() == args.len() - i);
    assert(head[0] == args.skip(i)[0] && args.skip(i)[0] == args[i]);
    if n == 2 {
        assert(head[1] == args.skip(i)[1] && args.skip(i)[1] == args[i + 1]);
    }
    assert(args.skip(i + n) =~= args.skip(i).skip(n));
    assert(args.skip(i).skip(n) =~= written(rest));
}

proof fn lemma_once(settings: Seq<Setting>)
    requires
        settings.len() > 0,
        each_once(settings),
    ensures
        each_once(settings.drop_first()),
        found(settings.drop_first(), kind(settings[0])) is None,
{
    let rest = settings.drop_first();
    assert forall|i: int, j: int| 0 <= i < j < rest.len() implies kind(#[trigger] rest[i]) != kind(#[trigger] rest[j]) by {
        assert(rest[i] == settings[i + 1] && rest[j] == settings[j + 1]);
    }
    assert forall|j: int| 0 <= j < rest.len() implies kind(#[trigger] rest[j]) != kind(settings[0]) by {
        assert(rest[j] == settings[j + 1]);
    }
    lemma_not_found(rest, kind(settings[0]));
}

proof fn lemma_not_found(settings: Seq<Setting>, k: int)
    requires
        forall|j: int| 0 <= j < settings.len() ==> kind(#[trigger] settings[j]) != k,
    ensures
        found(settings, k) is None,
    decreases settings.len(),
{
    if settings.len() > 0 {
        let rest = settings.drop_first();
        assert forall|j: int| 0 <= j < rest.len() implies kind(#[trigger] rest[j]) != k by {
            assert(rest[j] == settings[j + 1]);
        }
        lemma_not_found(rest, k);
    }
}

proof fn lemma_found(settings: Seq<Setting>, k: int)
    ensures
        found(settings, k) matches Some(s) ==> exists|i: int|
            0 <= i < settings.len() && kind(#[trigger] settings[i]) == k && meaning(settings[i]) == s,
        found(settings, k) is None ==> forall|i: int| 0 <= i < settings.len() ==> kind(#[trigger] settings[i]) != k,
    decreases settings.len(),
{
    if settings.len() > 0 {
        let rest = settings.drop_first();
        if kind(settings[0]) == k {
            assert(kind(settings[0]) == k && meaning(settings[0]) == found(settings, k)->0);
        } else {
            lemma_found(rest, k);
            match found(rest, k) {
                Some(s) => {
                    let j = choose|j: int|
                        0 <= j < rest.len() && kind(#[trigger] rest[j]) == k && meaning(rest[j]) == s;
                    assert(rest[j] == settings[j + 1]);
                },
                None => {
                    assert forall|i: int| 0 <= i < settings.len() implies kind(#[trigger] settings[i]) != k by {
                        if i > 0 {
                            assert(settings[i] == rest[i - 1]);
                        }
                    }
                },
            }
        }
    }
}

proof fn lemma_found_alike(a: Seq<Setting>, b: Seq<Setting>, k: int)
    requires
        each_once(b),
        forall|s: Setting| says(a, s) == says(b, s),
    ensures
        found(a, k) == found(b, k),
{
    lemma_found(a, k);
    lemma_found(b, k);
    if let Some(s) = found(a, k) {
        let i = choose|i: int| 0 <= i < a.len() && kind(#[trigger] a[i]) == k && meaning(a[i]) == s;
        assert(meaning(a[i]) == meaning(a[i]));
        assert(says(a, a[i]));
        assert(says(b, a[i]));
        let j = choose|j: int| 0 <= j < b.len() && meaning(#[trigger] b[j]) == meaning(a[i]);
        assert(kind(b[j]) == k);
        let h = choose|h: int| 0 <= h < b.len() && kind(#[trigger] b[h]) == k && meaning(b[h]) == found(b, k)->0;
        assert(h == j);
    } else if let Some(s) = found(b, k) {
        let j = choose|j: int| 0 <= j < b.len() && kind(#[trigger] b[j]) == k && meaning(b[j]) == s;
        assert(meaning(b[j]) == meaning(b[j]));
        assert(says(b, b[j]));
        assert(says(a, b[j]));
        let i = choose|i: int| 0 <= i < a.len() && meaning(#[trigger] a[i]) == meaning(b[j]);
        assert(kind(a[i]) == k);
    }
}

/// The interval that a number of seconds asks for.
spec fn interval_of(v: Seq<char>) -> Duration {
    let n = text::number(v)->0;
    Duration { nanos: ((if n == 0 { 1 } else { n }) * 1_000_000_000) as u128 }
}

/// Whether the value can be read.
spec fn acceptable(s: Option<Setting>) -> bool {
    match s {
        Some(Setting::RefreshSeconds(v)) => text::number(v) matches Some(n) && n <= u64::MAX,
        Some(Setting::From(v)) => time::parsed_datetime(v) is Some,
        Some(Setting::To(v)) => time::parsed_datetime(v) is Some,
        _ => true,
    }
}

/// The reading with what is said of each kind; which flag of the explorer came first is left as it was.
spec fn settled(r: Reading, settings: Seq<Setting>) -> Reading {
    Reading {
        url: match found(settings, 0) {
            Some(Setting::Url(v)) => Some(v),
            _ => r.url,
        },
        path: match found(settings, 1) {
            Some(Setting::Db(v)) => Some(v),
            _ => r.path,
        },
        refresh: match found(settings, 2) {
            Some(Setting::RefreshSeconds(v)) => interval_of(v),
            _ => r.refresh,
        },
        from: match found(settings, 3) {
            Some(Setting::From(v)) => Some(time::parsed_datetime(v)->0 as i64),
            _ => r.from,
        },
        to: match found(settings, 4) {
            Some(Setting::To(v)) => Some(time::parsed_datetime(v)->0 as i64),
            _ => r.to,
        },
        mcp_stdio: r.mcp_stdio || found(settings, 5) is Some,
        ascii: r.ascii || found(settings, 6) is Some,
        tui_flag: r.tui_flag,
    }
}

/// Whether anything that only the explorer takes is said.
spec fn explores(r: Reading, settings: Seq<Setting>) -> bool {
    r.tui_flag is Some || found(settings, 2) is Some || found(settings, 3) is Some || found(settings, 4) is Some || found(
        settings,
        6,
    ) is Some
}

proof fn lemma_applied(r: Reading, s: Setting)
    ensures
        applied(r, s) is Ok <==> acceptable(Some(meaning(s))) && (kind(s) == 1 ==> r.path is None),
        applied(r, s) matches Ok(t) ==> (Reading { tui_flag: r.tui_flag, ..t }) == settled(r, seq![s]) && (t.tui_flag is Some
            <==> explores(r, seq![s])),
{
    lemma_flags();
    reveal_with_fuel(found, 2);
    assert(seq![s][0] == s);
    assert(seq![s].drop_first() =~= Seq::<Setting>::empty());
}

proof fn lemma_all_applied(r: Reading, settings: Seq<Setting>)
    requires
        each_once(settings),
    ensures
        all_applied(r, settings) is Ok <==> acceptable(found(settings, 2)) && acceptable(found(settings, 3))
            && acceptable(found(settings, 4)) && (found(settings, 1) is Some ==> r.path is None),
        all_applied(r, settings) matches Ok(t) ==> (Reading { tui_flag: r.tui_flag, ..t }) == settled(r, settings) && (
        t.tui_flag is Some <==> explores(r, settings)),
    decreases settings.len(),
{
    if settings.len() > 0 {
        let s = settings[0];
        let rest = settings.drop_first();
        lemma_once(settings);
        lemma_applied(r, s);
        reveal_with_fuel(found, 2);
        assert(seq![s][0] == s);
        assert(seq![s].drop_first() =~= Seq::<Setting>::empty());
        if let Ok(next) = applied(r, s) {
            lemma_all_applied(next, rest);
        } else {
            assert(found(settings, kind(s)) == Some(meaning(s)));
        }
    }
}

/// The order of the arguments does not matter, nor whether a directory stands by itself or behind
/// `--db`: where nothing is said twice, command lines that say the same ask for the same.
pub proof fn law_order_and_spelling_do_not_matter(a: Seq<Setting>, b: Seq<Setting>)
    requires
        readable(a),
        readable(b),
        each_once(a),
        each_once(b),
        forall|s: Setting| says(a, s) == says(b, s),
    ensures
        parsed(written(a), 0, nothing_read()) is Ok ==> parsed(written(b), 0, nothing_read()) == parsed(
            written(a),
            0,
            nothing_read(),
        ),
        parsed(written(a), 0, nothing_read()) is Err ==> parsed(written(b), 0, nothing_read()) is Err,
{
    let r = nothing_read();
    assert(written(a).skip(0) =~= written(a));
    assert(written(b).skip(0) =~= written(b));
    lemma_read_back(written(a), 0, r, a);
    lemma_read_back(written(b), 0, r, b);
    lemma_all_applied(r, a);
    lemma_all_applied(r, b);
    lemma_found_alike(a, b, 0);
    lemma_found_alike(a, b, 1);
    lemma_found_alike(a, b, 2);
    lemma_found_alike(a, b, 3);
    lemma_found_alike(a, b, 4);
    lemma_found_alike(a, b, 5);
    lemma_found_alike(a, b, 6);
    assert(settled(r, a) == settled(r, b));
}

/// The setting that argument `i` begins.
spec fn setting_at(args: Seq<Seq<char>>, i: int) -> Setting {
    let s = args[i];
    let v = args[i + 1];
    if s == "--url"@ {
        Setting::Url(v)
    } else if s == "--db"@ {
        Setting::Db(v)
    } else if s == "--refresh-seconds"@ {
        Setting::RefreshSeconds(v)
    } else if s == "--from"@ {
        Setting::From(v)
    } else if s == "--to"@ {
        Setting::To(v)
    } else if s == "--mcp-stdio"@ {
        Setting::McpStdio
    } else if s == "--ascii"@ {
        Setting::Ascii
    } else {
        Setting::Directory(s)
    }
}

/// The settings that the arguments from `i` on say.
spec fn settings_from(args: Seq<Seq<char>>, i: int) -> Seq<Setting>
    decreases args.len() - i,
{
    if !(0 <= i < args.len()) {
        Seq::empty()
    } else {
        seq![setting_at(args, i)] + if needs(args[i]) is Some && i + 1 < args.len() {
            settings_from(args, i + 2)
        } else {
            settings_from(args, i + 1)
        }
    }
}

proof fn lemma_setting_at(args: Seq<Seq<char>>, i: int, r: Reading)
    requires
        0 <= i < args.len(),
        parsed(args, i, r) matches Ok(m) && !(m is Help),
    ensures
        spelling(setting_at(args, i)) == if needs(args[i]) is Some {
            seq![args[i], args[i + 1]]
        } else {
            seq![args[i]]
        },
        setting_at(args, i) matches Setting::Directory(v) ==> v.len() == 0 || v[0] != '-',
        needs(args[i]) is Some ==> i + 1 < args.len(),
{
    lemma_flags();
}

proof fn lemma_settings(args: Seq<Seq<char>>, i: int, r: Reading)
    requires
        0 <= i <= args.len(),
        parsed(args, i, r) matches Ok(m) && !(m is Help),
    ensures
        written(settings_from(args, i)) == args.skip(i),
        readable(settings_from(args, i)),
    decreases args.len() - i,
{
    let all = settings_from(args, i);
    if i < args.len() {
        lemma_setting_at(args, i, r);
        let n: int = if needs(args[i]) is Some { 2 } else { 1 };
        let rest = settings_from(args, i + n);
        if n == 2 {
            lemma_settings(args, i + 2, with_value(r, args[i], args[i + 1])->Ok_0);
        } else {
            lemma_settings(args, i + 1, with_argument(r, args[i])->Ok_0);
        }
        assert(all.drop_first() =~= rest);
        assert(all[0] == setting_at(args, i));
        assert(spelling(all[0]) + args.skip(i + n) =~= args.skip(i));
        assert forall|j: int| 0 <= j < all.len() implies (#[trigger] all[j] matches Setting::Directory(v) ==> v.len() == 0
            || v[0] != '-') by {
            if j > 0 {
                assert(all[j] == rest[j - 1]);
            }
        }
    } else {
        assert(args.skip(i) =~= Seq::<Seq<char>>::empty());
    }
}

/// A command line that is accepted, and does not ask for help, is made of settings.
pub proof fn law_an_accepted_command_line_is_made_of_settings(args: Seq<Seq<char>>)
    requires
        parsed(args, 0, nothing_read()) matches Ok(m) && !(m is Help),
    ensures
        exists|settings: Seq<Setting>| readable(settings) && #[trigger] written(settings) == args,
{
    lemma_settings(args, 0, nothing_read());
    assert(args.skip(0) =~= args);
    assert(written(settings_from(args, 0)) == args);
}

} // verus!
