//! Query-language knowledge shared by the editor: the keyword and function vocabularies, the
//! trailing identifier the caret sits on, and the lightweight lexer that colours the input bar.

use vstd::prelude::*;

use crate::model::Screen;
use crate::style::{Color, Span, Style};
use crate::style;
use crate::text;
use crate::textfield;
use crate::ui::glyphs::Glyphs;
use crate::unicode;

verus! {

/// The contents of a list of string slices.
pub open spec fn words(v: Seq<&'static str>) -> Seq<Seq<char>> {
    v.map_values(|s: &'static str| s@)
}

/// The line-filter operators that the Logs search box accepts.
pub open spec fn line_filters() -> Seq<Seq<char>> {
    seq!["|="@, "!="@, "|~"@, "!~"@, "|?"@, "!?"@]
}

/// The line-filter operators that the Logs search box accepts, offered as completion hints in
/// expression position on the Logs screen.
pub fn logql_line_filters() -> (r: Vec<&'static str>)
    ensures
        words(r@) == line_filters(),
{
    let r: Vec<&'static str> = vec!["|=", "!=", "|~", "!~", "|?", "!?"];
    assert(words(r@) =~= line_filters());
    r
}

/// The words of a screen's query language that are worth colouring though no bracket follows.
pub open spec fn keywords(screen: Screen) -> Seq<Seq<char>> {
    match screen {
        Screen::Metrics => seq![
            "by"@,
            "without"@,
            "on"@,
            "ignoring"@,
            "group_left"@,
            "group_right"@,
            "offset"@,
            "bool"@,
            "and"@,
            "or"@,
            "unless"@,
            "inf"@,
            "nan"@,
        ],
        Screen::Logs => seq![
            "by"@,
            "without"@,
            "unwrap"@,
            "json"@,
            "logfmt"@,
            "regexp"@,
            "pattern"@,
            "line_format"@,
            "label_format"@,
            "ip"@,
            "and"@,
            "or"@,
        ],
        Screen::Traces => seq![
            "by"@,
            "select"@,
            "and"@,
            "or"@,
            "duration"@,
            "status"@,
            "name"@,
            "kind"@,
            "rootName"@,
            "rootServiceName"@,
        ],
        Screen::Overview => Seq::empty(),
    }
}

/// The bare keywords of a screen's query language. A word with a bracket after it is a function
/// whether it is listed or not.
pub fn keywords_for(screen: Screen) -> (r: Vec<&'static str>)
    ensures
        words(r@) == keywords(screen),
{
    let r: Vec<&'static str> = match screen {
        Screen::Metrics => vec![
            "by",
            "without",
            "on",
            "ignoring",
            "group_left",
            "group_right",
            "offset",
            "bool",
            "and",
            "or",
            "unless",
            "inf",
            "nan",
        ],
        Screen::Logs => vec![
            "by",
            "without",
            "unwrap",
            "json",
            "logfmt",
            "regexp",
            "pattern",
            "line_format",
            "label_format",
            "ip",
            "and",
            "or",
        ],
        Screen::Traces => vec![
            "by",
            "select",
            "and",
            "or",
            "duration",
            "status",
            "name",
            "kind",
            "rootName",
            "rootServiceName",
        ],
        Screen::Overview => Vec::new(),
    };
    assert(words(r@) =~= keywords(screen));
    r
}

/// The functions of a screen's query language.
pub open spec fn functions(screen: Screen) -> Seq<Seq<char>> {
    match screen {
        Screen::Metrics => seq![
            "abs"@,
            "absent"@,
            "absent_over_time"@,
            "avg"@,
            "avg_over_time"@,
            "bottomk"@,
            "ceil"@,
            "changes"@,
            "clamp"@,
            "clamp_max"@,
            "clamp_min"@,
            "count"@,
            "count_over_time"@,
            "count_values"@,
            "delta"@,
            "deriv"@,
            "exp"@,
            "floor"@,
            "histogram_quantile"@,
            "increase"@,
            "irate"@,
            "label_join"@,
            "label_replace"@,
            "last_over_time"@,
            "ln"@,
            "log10"@,
            "log2"@,
            "max"@,
            "max_over_time"@,
            "min"@,
            "min_over_time"@,
            "predict_linear"@,
            "present_over_time"@,
            "quantile"@,
            "quantile_over_time"@,
            "rate"@,
            "resets"@,
            "round"@,
            "scalar"@,
            "sort"@,
            "sort_desc"@,
            "sqrt"@,
            "stddev"@,
            "stddev_over_time"@,
            "stdvar"@,
            "sum"@,
            "sum_over_time"@,
            "time"@,
            "timestamp"@,
            "topk"@,
            "vector"@,
        ],
        Screen::Logs => seq![
            "avg"@,
            "avg_over_time"@,
            "bottomk"@,
            "bytes_over_time"@,
            "bytes_rate"@,
            "count"@,
            "count_over_time"@,
            "first_over_time"@,
            "last_over_time"@,
            "max"@,
            "max_over_time"@,
            "min"@,
            "min_over_time"@,
            "quantile_over_time"@,
            "rate"@,
            "stddev_over_time"@,
            "stdvar_over_time"@,
            "sum"@,
            "sum_over_time"@,
            "topk"@,
        ],
        Screen::Traces => seq!["avg"@, "count"@, "histogram"@, "max"@, "min"@, "quantile"@, "sum"@],
        Screen::Overview => Seq::empty(),
    }
}

/// The call-like functions worth completing in a screen's query language.
pub fn functions_for(screen: Screen) -> (r: Vec<&'static str>)
    ensures
        words(r@) == functions(screen),
{
    let r: Vec<&'static str> = match screen {
        Screen::Metrics => vec![
            "abs",
            "absent",
            "absent_over_time",
            "avg",
            "avg_over_time",
            "bottomk",
            "ceil",
            "changes",
            "clamp",
            "clamp_max",
            "clamp_min",
            "count",
            "count_over_time",
            "count_values",
            "delta",
            "deriv",
            "exp",
            "floor",
            "histogram_quantile",
            "increase",
            "irate",
            "label_join",
            "label_replace",
            "last_over_time",
            "ln",
            "log10",
            "log2",
            "max",
            "max_over_time",
            "min",
            "min_over_time",
            "predict_linear",
            "present_over_time",
            "quantile",
            "quantile_over_time",
            "rate",
            "resets",
            "round",
            "scalar",
            "sort",
            "sort_desc",
            "sqrt",
            "stddev",
            "stddev_over_time",
            "stdvar",
            "sum",
            "sum_over_time",
            "time",
            "timestamp",
            "topk",
            "vector",
        ],
        Screen::Logs => vec![
            "avg",
            "avg_over_time",
            "bottomk",
            "bytes_over_time",
            "bytes_rate",
            "count",
            "count_over_time",
            "first_over_time",
            "last_over_time",
            "max",
            "max_over_time",
            "min",
            "min_over_time",
            "quantile_over_time",
            "rate",
            "stddev_over_time",
            "stdvar_over_time",
            "sum",
            "sum_over_time",
            "topk",
        ],
        Screen::Traces => vec!["avg", "count", "histogram", "max", "min", "quantile", "sum"],
        Screen::Overview => Vec::new(),
    };
    assert(words(r@) =~= functions(screen));
    r
}

/// Whether `c` can appear in a metric or label identifier.
pub open spec fn ident(c: char) -> bool {
    unicode::letter_or_number(c) || c == '_' || c == ':' || c == '.'
}

/// Whether `c` can appear in a metric or label identifier (the run [`current_token`] recognises).
pub fn is_ident_char(c: char) -> (r: bool)
    ensures
        r == ident(c),
{
    unicode::is_letter_or_number(c) || c == '_' || c == ':' || c == '.'
}

/// The identifier that `s` ends in, which may be empty.
pub open spec fn last_ident(s: Seq<char>) -> Seq<char>
    decreases s.len(),
{
    if s.len() > 0 && ident(s.last()) {
        last_ident(s.drop_last()).push(s.last())
    } else {
        Seq::empty()
    }
}

/// Where the identifier that `cs` ends in starts.
pub(crate) fn ident_start(cs: &Vec<char>, to: usize) -> (r: usize)
    requires
        to <= cs@.len(),
    ensures
        r <= to,
        last_ident(cs@.take(to as int)) == cs@.subrange(r as int, to as int),
{
    let mut k: usize = to;
    while k > 0 && is_ident_char(cs[k - 1])
        invariant
            k <= to <= cs@.len(),
            last_ident(cs@.take(to as int)) == last_ident(cs@.take(k as int)) + cs@.subrange(k as int, to as int),
        decreases k,
    {
        let ghost head = cs@.take(k as int);
        assert(head.drop_last() =~= cs@.take(k - 1));
        assert(last_ident(head) + cs@.subrange(k as int, to as int) =~= last_ident(cs@.take(k - 1)) + cs@.subrange(
            k - 1,
            to as int,
        ));
        k -= 1;
    }
    assert(last_ident(cs@.take(k as int)) =~= Seq::<char>::empty());
    assert(last_ident(cs@.take(to as int)) =~= cs@.subrange(k as int, to as int));
    k
}

/// The identifier token at the very end of the query. Callers pass the query up to the caret, so
/// the end of the string is the caret. This is what completion suggests against.
pub fn current_token(query: &str) -> (r: &str)
    ensures
        r@ == last_ident(query@),
{
    trailing_ident(query)
}

/// The trailing identifier of a text.
pub fn trailing_ident(s: &str) -> (r: &str)
    ensures
        r@ == last_ident(s@),
{
    let cs = text::chars_of(s);
    let n: usize = cs.len();
    let k: usize = ident_start(&cs, n);
    assert(s@.take(n as int) =~= s@);
    s.substring_char(k, n)
}

/// The trailing identifier holds identifier characters only, and what stands before it ends in none.
pub proof fn law_current_token_is_the_longest_identifier(s: Seq<char>)
    ensures
        last_ident(s).len() <= s.len(),
        last_ident(s) == s.skip(s.len() - last_ident(s).len()),
        forall|i: int| 0 <= i < last_ident(s).len() ==> ident(#[trigger] last_ident(s)[i]),
        last_ident(s).len() < s.len() ==> !ident(s[s.len() - last_ident(s).len() - 1]),
    decreases s.len(),
{
    if s.len() > 0 && ident(s.last()) {
        let t = s.drop_last();
        law_current_token_is_the_longest_identifier(t);
        assert(last_ident(s) =~= s.skip(s.len() - last_ident(s).len()));
    } else {
        assert(last_ident(s) =~= s.skip(s.len() as int));
    }
}

/// A run of characters that the lexer takes as one token.
pub enum Run {
    Space,
    Number,
    Word,
    Operator,
}

/// Whether `c` is an operator character.
pub open spec fn operator(c: char) -> bool {
    c == '=' || c == '!' || c == '~' || c == '<' || c == '>' || c == '|' || c == '&' || c == '+' || c == '-' || c
        == '*' || c == '/' || c == '^' || c == '?'
}

/// Whether `c` continues a run.
pub open spec fn in_run(run: Run, c: char) -> bool {
    match run {
        Run::Space => text::space(c) && c != '\n',
        Run::Number => unicode::ascii_letter(c) || unicode::ascii_digit(c) || c == '.',
        Run::Word => ident(c),
        Run::Operator => operator(c),
    }
}

/// The end of the run that goes on at `i`.
pub open spec fn run_end(run: Run, s: Seq<char>, i: int) -> int
    decreases s.len() - i,
{
    if 0 <= i < s.len() && in_run(run, s[i]) {
        run_end(run, s, i + 1)
    } else {
        i
    }
}

/// The end of a quoted text whose contents go on at `i`: past the closing quote, or the end. A
/// backslash takes the next character with it, except between backquotes.
pub open spec fn quoted_end(quote: char, s: Seq<char>, i: int) -> int
    decreases s.len() + 1 - i,
{
    if !(0 <= i < s.len()) {
        s.len() as int
    } else if s[i] == '\\' && quote != '`' {
        quoted_end(quote, s, i + 2)
    } else if s[i] == quote {
        i + 1
    } else {
        quoted_end(quote, s, i + 1)
    }
}

/// The first character at or after `i` that is no white space, or the end.
pub open spec fn after_space(s: Seq<char>, i: int) -> int
    decreases s.len() - i,
{
    if 0 <= i < s.len() && text::space(s[i]) {
        after_space(s, i + 1)
    } else {
        i
    }
}

/// The end of the token that starts at `i`.
pub open spec fn token_end(s: Seq<char>, i: int) -> int {
    let c = s[i];
    if c == '\n' {
        i + 1
    } else if text::space(c) {
        run_end(Run::Space, s, i)
    } else if c == '"' || c == '\'' || c == '`' {
        quoted_end(c, s, i + 1)
    } else if unicode::ascii_digit(c) {
        run_end(Run::Number, s, i)
    } else if unicode::letter(c) || c == '_' || c == ':' {
        run_end(Run::Word, s, i)
    } else if operator(c) {
        run_end(Run::Operator, s, i)
    } else {
        i + 1
    }
}

/// Whether an opening bracket follows position `i`, past any white space.
pub open spec fn call_follows(s: Seq<char>, i: int) -> bool {
    let j = after_space(s, i);
    j < s.len() && s[j] == '('
}

/// The look of the token that starts at `i`.
pub open spec fn token_style(screen: Screen, s: Seq<char>, i: int) -> Style {
    let c = s[i];
    if c == '\n' {
        style::colored(Color::DarkGray)
    } else if text::space(c) {
        style::plain()
    } else if c == '"' || c == '\'' || c == '`' {
        style::colored(Color::Green)
    } else if unicode::ascii_digit(c) {
        style::colored(Color::Magenta)
    } else if unicode::letter(c) || c == '_' || c == ':' {
        let end = run_end(Run::Word, s, i);
        if call_follows(s, end) || keywords(screen).contains(s.subrange(i, end)) {
            style::colored(Color::Cyan)
        } else {
            style::plain()
        }
    } else if operator(c) {
        style::colored(Color::Yellow)
    } else if c == '{' || c == '}' || c == '[' || c == ']' || c == '(' || c == ')' || c == ',' {
        style::colored(Color::DarkGray)
    } else {
        style::plain()
    }
}

/// A token: the characters `start..end`, and its look.
#[derive(Clone, Copy)]
pub struct Token {
    pub start: usize,
    pub end: usize,
    pub style: Style,
}

/// Whether `t` is the token that starts where it says.
pub open spec fn is_token(screen: Screen, s: Seq<char>, t: Token) -> bool {
    &&& t.start < t.end <= s.len()
    &&& t.end == token_end(s, t.start as int)
    &&& t.style == token_style(screen, s, t.start as int)
}

/// Whether `v` are the tokens of `s` in order, none left out.
pub open spec fn are_tokens(screen: Screen, s: Seq<char>, v: Seq<Token>) -> bool {
    &&& forall|i: int| 0 <= i < v.len() ==> is_token(screen, s, #[trigger] v[i])
    &&& forall|i: int| 0 <= i < v.len() - 1 ==> (#[trigger] v[i]).end == v[i + 1].start
    &&& if s.len() == 0 {
        v.len() == 0
    } else {
        v.len() > 0 && v[0].start == 0 && v.last().end == s.len()
    }
}

pub proof fn lemma_run_end(run: Run, s: Seq<char>, i: int)
    requires
        0 <= i <= s.len(),
    ensures
        i <= run_end(run, s, i) <= s.len(),
        i < s.len() && in_run(run, s[i]) ==> i < run_end(run, s, i),
    decreases s.len() - i,
{
    if i < s.len() && in_run(run, s[i]) {
        lemma_run_end(run, s, i + 1);
    }
}

proof fn lemma_quoted_end(quote: char, s: Seq<char>, i: int)
    requires
        0 <= i,
    ensures
        quoted_end(quote, s, i) <= s.len(),
        i <= s.len() ==> i <= quoted_end(quote, s, i),
    decreases s.len() + 1 - i,
{
    if i < s.len() {
        if s[i] == '\\' && quote != '`' {
            lemma_quoted_end(quote, s, i + 2);
        } else if s[i] != quote {
            lemma_quoted_end(quote, s, i + 1);
        }
    }
}

fn is_operator(c: char) -> (r: bool)
    ensures
        r == operator(c),
{
    c == '=' || c == '!' || c == '~' || c == '<' || c == '>' || c == '|' || c == '&' || c == '+' || c == '-' || c
        == '*' || c == '/' || c == '^' || c == '?'
}

fn continues(run: &Run, c: char) -> (r: bool)
    ensures
        r == in_run(*run, c),
{
    match run {
        Run::Space => text::is_space(c) && c != '\n',
        Run::Number => ('a' <= c && c <= 'z') || ('A' <= c && c <= 'Z') || ('0' <= c && c <= '9') || c == '.',
        Run::Word => is_ident_char(c),
        Run::Operator => is_operator(c),
    }
}

fn find_run_end(run: Run, cs: &Vec<char>, from: usize) -> (r: usize)
    requires
        from <= cs@.len(),
    ensures
        r == run_end(run, cs@, from as int),
        from <= r <= cs@.len(),
{
    let mut i: usize = from;
    while i < cs.len() && continues(&run, cs[i])
        invariant
            from <= i <= cs@.len(),
            run_end(run, cs@, from as int) == run_end(run, cs@, i as int),
        decreases cs.len() - i,
    {
        i += 1;
    }
    i
}

fn find_quoted_end(quote: char, cs: &Vec<char>, from: usize) -> (r: usize)
    requires
        from <= cs@.len(),
    ensures
        r == quoted_end(quote, cs@, from as int),
        from <= r <= cs@.len(),
{
    let mut i: usize = from;
    while i < cs.len()
        invariant
            from <= i <= cs@.len(),
            quoted_end(quote, cs@, from as int) == quoted_end(quote, cs@, i as int),
        decreases cs.len() - i,
    {
        if cs[i] == '\\' && quote != '`' {
            if cs.len() - i <= 2 {
                assert(quoted_end(quote, cs@, i + 2) == cs@.len());
                return cs.len();
            }
            i += 2;
        } else if cs[i] == quote {
            return i + 1;
        } else {
            i += 1;
        }
    }
    i
}

fn is_call(cs: &Vec<char>, from: usize) -> (r: bool)
    requires
        from <= cs@.len(),
    ensures
        r == call_follows(cs@, from as int),
{
    let mut j: usize = from;
    while j < cs.len() && text::is_space(cs[j])
        invariant
            from <= j <= cs@.len(),
            after_space(cs@, from as int) == after_space(cs@, j as int),
        decreases cs.len() - j,
    {
        j += 1;
    }
    j < cs.len() && cs[j] == '('
}

/// Whether `word` is one of `list`.
pub(crate) fn listed(list: &Vec<&'static str>, word: &str) -> (r: bool)
    ensures
        r == words(list@).contains(word@),
{
    let mut i: usize = 0;
    while i < list.len()
        invariant
            i <= list@.len(),
            forall|j: int| 0 <= j < i ==> words(list@)[j] != word@,
        decreases list.len() - i,
    {
        if text::same(list[i], word) {
            assert(words(list@)[i as int] == word@);
            return true;
        }
        i += 1;
    }
    false
}

/// The token that starts at `i`.
fn token_at(screen: Screen, keys: &Vec<&'static str>, cs: &Vec<char>, i: usize) -> (r: Token)
    requires
        i < cs@.len(),
        words(keys@) == keywords(screen),
    ensures
        is_token(screen, cs@, r),
        r.start == i,
{
    let n: usize = cs.len();
    assert(i < n);
    let c = cs[i];
    let (end, look): (usize, Style) = if c == '\n' {
        (i + 1, Style::fg(Color::DarkGray))
    } else if text::is_space(c) {
        proof {
            lemma_run_end(Run::Space, cs@, i as int);
        }
        (find_run_end(Run::Space, cs, i), Style::plain())
    } else if c == '"' || c == '\'' || c == '`' {
        proof {
            lemma_quoted_end(c, cs@, i + 1);
        }
        (find_quoted_end(c, cs, i + 1), Style::fg(Color::Green))
    } else if '0' <= c && c <= '9' {
        proof {
            lemma_run_end(Run::Number, cs@, i as int);
        }
        (find_run_end(Run::Number, cs, i), Style::fg(Color::Magenta))
    } else if unicode::is_letter(c) || c == '_' || c == ':' {
        proof {
            lemma_run_end(Run::Word, cs@, i as int);
        }
        let end: usize = find_run_end(Run::Word, cs, i);
        let word = text::string_range(cs, i, end);
        let look = if is_call(cs, end) || listed(keys, &word) {
            Style::fg(Color::Cyan)
        } else {
            Style::plain()
        };
        (end, look)
    } else if is_operator(c) {
        proof {
            lemma_run_end(Run::Operator, cs@, i as int);
        }
        (find_run_end(Run::Operator, cs, i), Style::fg(Color::Yellow))
    } else if c == '{' || c == '}' || c == '[' || c == ']' || c == '(' || c == ')' || c == ',' {
        (i + 1, Style::fg(Color::DarkGray))
    } else {
        (i + 1, Style::plain())
    };
    Token { start: i, end, style: look }
}

/// The tokens of a text.
fn lex(screen: Screen, cs: &Vec<char>) -> (r: Vec<Token>)
    ensures
        are_tokens(screen, cs@, r@),
{
    let keys = keywords_for(screen);
    let mut out: Vec<Token> = Vec::new();
    let mut i: usize = 0;
    while i < cs.len()
        invariant
            words(keys@) == keywords(screen),
            i <= cs@.len(),
            forall|j: int| 0 <= j < out@.len() ==> is_token(screen, cs@, #[trigger] out@[j]),
            forall|j: int| 0 <= j < out@.len() - 1 ==> (#[trigger] out@[j]).end == out@[j + 1].start,
            i == 0 ==> out@.len() == 0,
            i > 0 ==> out@.len() > 0 && out@[0].start == 0 && out@.last().end == i,
        decreases cs.len() - i,
    {
        let t = token_at(screen, &keys, cs, i);
        out.push(t);
        i = t.end;
    }
    out
}

/// What a token shows: its own text, or a separator where it is a line break.
pub open spec fn token_text(s: Seq<char>, t: Token, vline: Seq<char>) -> Seq<char> {
    if s[t.start as int] == '\n' {
        seq![' '] + vline + seq![' ']
    } else {
        s.subrange(t.start as int, t.end as int)
    }
}

fn shown(cs: &Vec<char>, t: Token, g: &Glyphs) -> (r: String)
    requires
        t.start < t.end <= cs@.len(),
    ensures
        r@ == token_text(cs@, t, g.vline@),
{
    if cs[t.start] == '\n' {
        let mut out = String::new();
        out.push(' ');
        out.append(g.vline);
        out.push(' ');
        assert(out@ =~= token_text(cs@, t, g.vline@));
        out
    } else {
        text::string_range(cs, t.start, t.end)
    }
}

/// A coloured piece of the input bar and the bytes of the query that it shows.
pub struct SourceSpan {
    pub span: Span,
    pub start: usize,
    pub end: usize,
}

/// Whether `r` shows the tokens of `s` one by one.
pub open spec fn shows_tokens(screen: Screen, s: Seq<char>, vline: Seq<char>, tokens: Seq<Token>, r: Seq<SourceSpan>) -> bool {
    &&& are_tokens(screen, s, tokens)
    &&& r.len() == tokens.len()
    &&& forall|i: int|
        0 <= i < r.len() ==> {
            &&& (#[trigger] r[i]).span.text@ == token_text(s, tokens[i], vline)
            &&& r[i].span.style == tokens[i].style
            &&& r[i].start == textfield::offset(s, tokens[i].start as int)
            &&& r[i].end == textfield::offset(s, tokens[i].end as int)
        }
}

/// Splits a query into coloured spans for the input bar, each with the byte range of the query it
/// shows. A lightweight lexer shared by the three query languages (strings, numbers and durations,
/// identifiers and functions, operators, punctuation); it never rejects input.
///
/// Every span shows its source range as it stands, except that a line break shows as a separator.
pub fn highlight_spans(screen: Screen, query: &str, g: &Glyphs) -> (r: Vec<SourceSpan>)
    ensures
        exists|tokens: Seq<Token>| shows_tokens(screen, query@, g.vline@, tokens, r@),
{
    let cs = text::chars_of(query);
    let tokens = lex(screen, &cs);
    let mut out: Vec<SourceSpan> = Vec::new();
    let mut i: usize = 0;
    while i < tokens.len()
        invariant
            cs@ == query@,
            are_tokens(screen, query@, tokens@),
            i <= tokens@.len(),
            out@.len() == i,
            forall|j: int|
                0 <= j < i ==> {
                    &&& (#[trigger] out@[j]).span.text@ == token_text(query@, tokens@[j], g.vline@)
                    &&& out@[j].span.style == tokens@[j].style
                    &&& out@[j].start == textfield::offset(query@, tokens@[j].start as int)
                    &&& out@[j].end == textfield::offset(query@, tokens@[j].end as int)
                },
        decreases tokens.len() - i,
    {
        let t = tokens[i];
        assert(is_token(screen, query@, tokens@[i as int]));
        let head = text::string_range(&cs, 0, t.start);
        let through = text::string_range(&cs, 0, t.end);
        assert(head@ =~= query@.take(t.start as int));
        assert(through@ =~= query@.take(t.end as int));
        out.push(
            SourceSpan {
                span: Span { text: shown(&cs, t, g), style: t.style },
                start: text::bytes_of(&head),
                end: text::bytes_of(&through),
            },
        );
        i += 1;
    }
    assert(shows_tokens(screen, query@, g.vline@, tokens@, out@));
    out
}

/// The coloured spans of `s` as the tokens give them.
pub open spec fn token_spans(s: Seq<char>, tokens: Seq<Token>, vline: Seq<char>) -> Seq<style::SpanView> {
    Seq::new(
        tokens.len(),
        |i: int| style::SpanView { text: token_text(s, tokens[i], vline), style: tokens[i].style },
    )
}

/// Whether `r` is what the input bar shows of `s` when nothing is being edited.
pub open spec fn is_highlight(screen: Screen, s: Seq<char>, vline: Seq<char>, r: Seq<style::SpanView>) -> bool {
    exists|tokens: Seq<Token>| are_tokens(screen, s, tokens) && r == #[trigger] token_spans(s, tokens, vline)
}

/// The coloured spans for the input bar (see [`highlight_spans`]), without the source ranges.
pub fn highlight_query(screen: Screen, query: &str, g: &Glyphs) -> (r: Vec<Span>)
    ensures
        is_highlight(screen, query@, g.vline@, style::spans(r@)),
{
    let cs = text::chars_of(query);
    let tokens = lex(screen, &cs);
    let mut out: Vec<Span> = Vec::new();
    let mut i: usize = 0;
    let ghost all = token_spans(query@, tokens@, g.vline@);
    while i < tokens.len()
        invariant
            cs@ == query@,
            are_tokens(screen, query@, tokens@),
            i <= tokens@.len(),
            all == token_spans(query@, tokens@, g.vline@),
            style::spans(out@) == all.take(i as int),
        decreases tokens.len() - i,
    {
        let t = tokens[i];
        assert(is_token(screen, query@, tokens@[i as int]));
        let ghost before = out@;
        out.push(Span { text: shown(&cs, t, g), style: t.style });
        i += 1;
        assert(style::spans(out@) =~= style::spans(before).push(out@.last()@));
        assert(all.take(i as int) =~= all.take(i - 1).push(all[i - 1]));
    }
    assert(all.take(tokens@.len() as int) =~= all);
    out
}

/// What a token shows when the caret stands on character `k`: split at that character where it is
/// the token's, and wholly marked where the token is a line break.
pub open spec fn token_with_caret(s: Seq<char>, t: Token, vline: Seq<char>, k: int) -> Seq<style::SpanView> {
    let marked = Style { reversed: true, ..t.style };
    if !(t.start <= k < t.end) {
        seq![style::SpanView { text: token_text(s, t, vline), style: t.style }]
    } else if s[t.start as int] == '\n' {
        seq![style::SpanView { text: token_text(s, t, vline), style: marked }]
    } else {
        (if k > t.start {
            seq![style::SpanView { text: s.subrange(t.start as int, k), style: t.style }]
        } else {
            Seq::empty()
        }) + seq![style::SpanView { text: s.subrange(k, k + 1), style: marked }] + (if k + 1 < t.end {
            seq![style::SpanView { text: s.subrange(k + 1, t.end as int), style: t.style }]
        } else {
            Seq::empty()
        })
    }
}

/// What the first `n` tokens show when the caret stands on character `k`.
pub open spec fn tokens_with_caret(s: Seq<char>, tokens: Seq<Token>, n: nat, vline: Seq<char>, k: int) -> Seq<
    style::SpanView,
>
    decreases n,
{
    if n == 0 || n > tokens.len() {
        Seq::empty()
    } else {
        tokens_with_caret(s, tokens, (n - 1) as nat, vline, k) + token_with_caret(s, tokens[n - 1], vline, k)
    }
}

/// The block that marks a caret at the end of the text.
pub open spec fn end_caret(s: Seq<char>, k: int) -> Seq<style::SpanView> {
    if k >= s.len() {
        seq![style::SpanView { text: seq![' '], style: Style { reversed: true, ..style::plain() } }]
    } else {
        Seq::empty()
    }
}

/// Whether `r` is what the input bar shows of `s` with the caret on character `k`.
pub open spec fn is_caret_highlight(screen: Screen, s: Seq<char>, vline: Seq<char>, k: int, r: Seq<style::SpanView>) -> bool {
    exists|tokens: Seq<Token>|
        are_tokens(screen, s, tokens) && r == #[trigger] tokens_with_caret(s, tokens, tokens.len(), vline, k)
            + end_caret(s, k)
}

/// The coloured spans with the character at byte offset `caret` drawn reversed: a block caret, since
/// the terminal's own cursor stays hidden. A caret at the end of the query has no character to
/// reverse, so a reversed space is appended. A line break shows wider than its source, so a caret
/// on one marks the whole separator.
pub fn highlight_caret(screen: Screen, query: &str, caret: usize, g: &Glyphs) -> (r: Vec<Span>)
    requires
        textfield::offset(query@, textfield::before(query@, caret as int) as int) == caret || caret
            >= text::byte_len(query@),
    ensures
        is_caret_highlight(
            screen,
            query@,
            g.vline@,
            textfield::before(query@, caret as int) as int,
            style::spans(r@),
        ),
{
    let cs = text::chars_of(query);
    let k: usize = textfield::chars_before(query, caret);
    let tokens = lex(screen, &cs);
    let mut out: Vec<Span> = Vec::new();
    let mut i: usize = 0;
    assert(style::spans(out@) =~= tokens_with_caret(query@, tokens@, 0, g.vline@, k as int));
    while i < tokens.len()
        invariant
            cs@ == query@,
            are_tokens(screen, query@, tokens@),
            i <= tokens@.len(),
            style::spans(out@) == tokens_with_caret(query@, tokens@, i as nat, g.vline@, k as int),
        decreases tokens.len() - i,
    {
        let t = tokens[i];
        assert(is_token(screen, query@, tokens@[i as int]));
        let ghost before = style::spans(out@);
        if k < t.start || k >= t.end {
            out.push(Span { text: shown(&cs, t, g), style: t.style });
        } else if cs[t.start] == '\n' {
            out.push(Span { text: shown(&cs, t, g), style: t.style.reversed() });
        } else {
            if k > t.start {
                out.push(Span { text: text::string_range(&cs, t.start, k), style: t.style });
            }
            out.push(Span { text: text::string_range(&cs, k, k + 1), style: t.style.reversed() });
            if k + 1 < t.end {
                out.push(Span { text: text::string_range(&cs, k + 1, t.end), style: t.style });
            }
        }
        i += 1;
        assert(style::spans(out@) =~= before + token_with_caret(query@, t, g.vline@, k as int));
    }
    let ghost before = style::spans(out@);
    if k >= cs.len() {
        let mut block = String::new();
        block.push(' ');
        out.push(Span { text: block, style: Style::plain().reversed() });
        assert(block@ =~= seq![' ']);
    }
    assert(style::spans(out@) =~= before + end_caret(query@, k as int));
    out
}

/// The concatenation of the source texts of the first `n` tokens.
pub open spec fn sources(s: Seq<char>, tokens: Seq<Token>, n: nat) -> Seq<char>
    decreases n,
{
    if n == 0 || n > tokens.len() {
        Seq::empty()
    } else {
        sources(s, tokens, (n - 1) as nat) + s.subrange(tokens[n - 1].start as int, tokens[n - 1].end as int)
    }
}

/// The tokens lie one behind the other from the start of the text.
spec fn adjoin(tokens: Seq<Token>, len: int) -> bool {
    &&& tokens.len() > 0 ==> tokens[0].start == 0
    &&& forall|i: int| 0 <= i < tokens.len() ==> (#[trigger] tokens[i]).start <= tokens[i].end <= len
    &&& forall|i: int, j: int| #![trigger tokens[i], tokens[j]]
        0 <= i < tokens.len() && j == i + 1 && j < tokens.len() ==> tokens[i].end == tokens[j].start
}

proof fn lemma_tokens_adjoin(screen: Screen, s: Seq<char>, tokens: Seq<Token>)
    requires
        are_tokens(screen, s, tokens),
    ensures
        adjoin(tokens, s.len() as int),
{
    assert forall|i: int| 0 <= i < tokens.len() implies (#[trigger] tokens[i]).start <= tokens[i].end <= s.len() by {
        assert(is_token(screen, s, tokens[i]));
    }
}

proof fn lemma_sources(s: Seq<char>, tokens: Seq<Token>, n: nat)
    requires
        adjoin(tokens, s.len() as int),
        n <= tokens.len(),
    ensures
        n > 0 ==> sources(s, tokens, n) == s.take(tokens[n - 1].end as int),
    decreases n,
{
    if n > 0 {
        lemma_sources(s, tokens, (n - 1) as nat);
        let last = tokens[n - 1];
        if n > 1 {
            assert(tokens[n - 2].end == last.start);
        } else {
            assert(sources(s, tokens, 0) =~= s.take(0));
        }
        assert(s.take(last.start as int) + s.subrange(last.start as int, last.end as int)
            =~= s.take(last.end as int));
    }
}

/// Highlighting is presentation only: the sources of the spans, one after another, are the query;
/// and where the query holds no line break, so are the texts shown.
pub proof fn law_highlight_reconstructs_the_input(screen: Screen, s: Seq<char>, tokens: Seq<Token>, vline: Seq<char>)
    requires
        are_tokens(screen, s, tokens),
    ensures
        sources(s, tokens, tokens.len()) == s,
        !s.contains('\n') ==> style::spans_text(token_spans(s, tokens, vline)) == s,
{
    lemma_tokens_adjoin(screen, s, tokens);
    lemma_sources(s, tokens, tokens.len());
    if tokens.len() > 0 {
        assert(s.take(s.len() as int) =~= s);
    } else {
        assert(s =~= Seq::<char>::empty());
    }
    if !s.contains('\n') {
        lemma_shown_is_source(screen, s, tokens, vline, tokens.len());
        assert(token_spans(s, tokens, vline).take(tokens.len() as int) =~= token_spans(s, tokens, vline));
    }
}

proof fn lemma_shown_is_source(screen: Screen, s: Seq<char>, tokens: Seq<Token>, vline: Seq<char>, n: nat)
    requires
        are_tokens(screen, s, tokens),
        !s.contains('\n'),
        n <= tokens.len(),
    ensures
        style::spans_text(token_spans(s, tokens, vline).take(n as int)) == sources(s, tokens, n),
    decreases n,
{
    let all = token_spans(s, tokens, vline);
    if n > 0 {
        lemma_shown_is_source(screen, s, tokens, vline, (n - 1) as nat);
        assert(all.take(n as int).drop_last() =~= all.take(n - 1));
        assert(is_token(screen, s, tokens[n - 1]));
        assert(s[tokens[n - 1].start as int] != '\n');
    } else {
        assert(all.take(0) =~= Seq::<style::SpanView>::empty());
    }
}

/// The caret splits a span without changing what the bar shows, save for a block at the end.
pub proof fn law_caret_keeps_the_text(screen: Screen, s: Seq<char>, tokens: Seq<Token>, vline: Seq<char>, k: int)
    requires
        are_tokens(screen, s, tokens),
        !s.contains('\n'),
    ensures
        style::spans_text(tokens_with_caret(s, tokens, tokens.len(), vline, k)) == s,
{
    lemma_caret_text(screen, s, tokens, vline, k, tokens.len());
    law_highlight_reconstructs_the_input(screen, s, tokens, vline);
}

proof fn lemma_spans_text_concat(a: Seq<style::SpanView>, b: Seq<style::SpanView>)
    ensures
        style::spans_text(a + b) == style::spans_text(a) + style::spans_text(b),
    decreases b.len(),
{
    if b.len() == 0 {
        assert(a + b =~= a);
        assert(style::spans_text(a) + style::spans_text(b) =~= style::spans_text(a));
    } else {
        assert((a + b).drop_last() =~= a + b.drop_last());
        lemma_spans_text_concat(a, b.drop_last());
        assert(style::spans_text(a + b) =~= style::spans_text(a) + style::spans_text(b));
    }
}

proof fn lemma_caret_text(screen: Screen, s: Seq<char>, tokens: Seq<Token>, vline: Seq<char>, k: int, n: nat)
    requires
        are_tokens(screen, s, tokens),
        !s.contains('\n'),
        n <= tokens.len(),
    ensures
        style::spans_text(tokens_with_caret(s, tokens, n, vline, k)) == sources(s, tokens, n),
    decreases n,
{
    if n > 0 {
        lemma_caret_text(screen, s, tokens, vline, k, (n - 1) as nat);
        let t = tokens[n - 1];
        assert(is_token(screen, s, t));
        assert(s[t.start as int] != '\n');
        lemma_piece_text(s, t, vline, k);
        lemma_spans_text_concat(
            tokens_with_caret(s, tokens, (n - 1) as nat, vline, k),
            token_with_caret(s, t, vline, k),
        );
    }
}

proof fn lemma_one_text(a: style::SpanView)
    ensures
        style::spans_text(seq![a]) == a.text,
{
    reveal_with_fuel(style::spans_text, 2);
    assert(seq![a].drop_last() =~= Seq::<style::SpanView>::empty());
    assert(style::spans_text(seq![a]) =~= a.text);
}

proof fn lemma_piece_text(s: Seq<char>, t: Token, vline: Seq<char>, k: int)
    requires
        t.start < t.end <= s.len(),
        s[t.start as int] != '\n',
    ensures
        style::spans_text(token_with_caret(s, t, vline, k)) == s.subrange(t.start as int, t.end as int),
{
    let whole = s.subrange(t.start as int, t.end as int);
    let pieces = token_with_caret(s, t, vline, k);
    if t.start <= k < t.end {
        let at = style::SpanView { text: s.subrange(k, k + 1), style: Style { reversed: true, ..t.style } };
        let head = style::SpanView { text: s.subrange(t.start as int, k), style: t.style };
        let tail = style::SpanView { text: s.subrange(k + 1, t.end as int), style: t.style };
        lemma_one_text(at);
        lemma_one_text(head);
        lemma_one_text(tail);
        lemma_spans_text_concat(seq![head], seq![at]);
        lemma_spans_text_concat(seq![head] + seq![at], seq![tail]);
        lemma_spans_text_concat(seq![at], seq![tail]);
        if k > t.start && k + 1 < t.end {
            assert(pieces =~= seq![head] + seq![at] + seq![tail]);
        } else if k > t.start {
            assert(pieces =~= seq![head] + seq![at]);
        } else if k + 1 < t.end {
            assert(pieces =~= seq![at] + seq![tail]);
        } else {
            assert(pieces =~= seq![at]);
        }
        assert(style::spans_text(pieces) =~= whole);
    } else {
        lemma_one_text(style::SpanView { text: token_text(s, t, vline), style: t.style });
    }
}

/// A text has one list of tokens only.
pub proof fn law_tokens_are_unique(screen: Screen, s: Seq<char>, a: Seq<Token>, b: Seq<Token>)
    requires
        are_tokens(screen, s, a),
        are_tokens(screen, s, b),
    ensures
        a == b,
{
    if s.len() > 0 {
        lemma_tokens_agree(screen, s, a, b, a.len());
        lemma_tokens_agree(screen, s, b, a, b.len());
    }
    assert(a =~= b);
}

/// One token starts at each place.
proof fn lemma_one_token(screen: Screen, s: Seq<char>, t: Token, u: Token)
    requires
        is_token(screen, s, t),
        is_token(screen, s, u),
        t.start == u.start,
    ensures
        t == u,
{
}

/// Token `i` ends where the next one starts.
proof fn lemma_next_token(screen: Screen, s: Seq<char>, v: Seq<Token>, i: int)
    requires
        are_tokens(screen, s, v),
        0 <= i < v.len(),
    ensures
        is_token(screen, s, v[i]),
        i < v.len() - 1 ==> v[i].end == v[i + 1].start,
        i == v.len() - 1 ==> v[i].end == s.len(),
        i == 0 ==> v[i].start == 0,
{
}

#[verifier::spinoff_prover]
proof fn lemma_tokens_agree(screen: Screen, s: Seq<char>, a: Seq<Token>, b: Seq<Token>, n: nat)
    requires
        are_tokens(screen, s, a),
        are_tokens(screen, s, b),
        s.len() > 0,
        n <= a.len(),
    ensures
        n <= b.len(),
        forall|i: int| 0 <= i < n ==> #[trigger] a[i] == b[i],
    decreases n,
{
    if n > 0 {
        lemma_tokens_agree(screen, s, a, b, (n - 1) as nat);
        lemma_next_token(screen, s, a, n - 1);
        if n >= 2 {
            lemma_next_token(screen, s, a, n - 2);
            lemma_next_token(screen, s, b, n - 2);
            assert(a[n - 2] == b[n - 2]);
        }
        assert(n <= b.len());
        lemma_next_token(screen, s, b, n - 1);
        lemma_one_token(screen, s, a[n - 1], b[n - 1]);
    }
}

} // verus!
