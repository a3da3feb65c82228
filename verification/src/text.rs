//! Strings as sequences of characters.
//!
//! A string's view is the sequence of its characters. The functions here move between strings and
//! character vectors, write numbers, and measure text.

use vstd::prelude::*;

verus! {

/// `String::push`: appends one character.
pub assume_specification[ String::push ](s: &mut String, c: char)
    ensures
        final(s)@ == old(s)@.push(c),
;

/// The contents of an optional string.
pub open spec fn opt(s: Option<String>) -> Option<Seq<char>> {
    match s {
        Some(t) => Some(t@),
        None => None,
    }
}

/// The contents of a list of strings.
pub open spec fn strs(v: Seq<String>) -> Seq<Seq<char>> {
    v.map_values(|s: String| s@)
}

/// The characters of a string.
pub fn chars_of(s: &str) -> (r: Vec<char>)
    ensures
        r@ == s@,
{
    let mut r: Vec<char> = Vec::new();
    for c in it: s.chars()
        invariant
            r@ == it.seq().take(it.index() as int),
    {
        r.push(c);
        assert(it.seq().take(it.index() + 1) =~= it.seq().take(it.index() as int).push(c));
    }
    assert(r@ =~= s@);
    r
}

/// Appends the characters `from..to` of `cs`.
pub fn push_range(out: &mut String, cs: &Vec<char>, from: usize, to: usize)
    requires
        from <= to <= cs@.len(),
    ensures
        final(out)@ == old(out)@ + cs@.subrange(from as int, to as int),
{
    let mut i: usize = from;
    assert(cs@.subrange(from as int, from as int) =~= Seq::<char>::empty());
    assert(out@ =~= old(out)@ + cs@.subrange(from as int, from as int));
    while i < to
        invariant
            from <= i <= to <= cs@.len(),
            out@ == old(out)@ + cs@.subrange(from as int, i as int),
        decreases to - i,
    {
        out.push(cs[i]);
        assert(cs@.subrange(from as int, i + 1) =~= cs@.subrange(from as int, i as int).push(cs@[i as int]));
        assert(out@ =~= old(out)@ + cs@.subrange(from as int, i + 1));
        i += 1;
    }
}

/// The characters `from..to` of `cs` as a string.
pub fn string_range(cs: &Vec<char>, from: usize, to: usize) -> (r: String)
    requires
        from <= to <= cs@.len(),
    ensures
        r@ == cs@.subrange(from as int, to as int),
{
    let mut r = String::new();
    push_range(&mut r, cs, from, to);
    assert(r@ =~= cs@.subrange(from as int, to as int));
    r
}

/// All of `cs` as a string.
pub fn string_of(cs: &Vec<char>) -> (r: String)
    ensures
        r@ == cs@,
{
    let r = string_range(cs, 0, cs.len());
    assert(cs@.subrange(0, cs@.len() as int) =~= cs@);
    r
}

/// Whether two strings hold the same characters.
pub fn same(a: &str, b: &str) -> (r: bool)
    ensures
        r == (a@ == b@),
{
    let x = chars_of(a);
    let y = chars_of(b);
    if x.len() != y.len() {
        return false;
    }
    let mut i: usize = 0;
    while i < x.len()
        invariant
            x@ == a@,
            y@ == b@,
            x@.len() == y@.len(),
            i <= x@.len(),
            forall|j: int| 0 <= j < i ==> x@[j] == y@[j],
        decreases x.len() - i,
    {
        if x[i] != y[i] {
            return false;
        }
        i += 1;
    }
    assert(a@ =~= b@);
    true
}

/// The decimal digit for `d`.
pub open spec fn digit(d: int) -> char {
    (48 + d) as char
}

/// `n` in decimal, without leading zeros.
pub open spec fn dec(n: nat) -> Seq<char>
    decreases n,
{
    if n < 10 {
        seq![digit(n as int)]
    } else {
        dec(n / 10).push(digit((n % 10) as int))
    }
}

/// Appends `n` in decimal.
pub fn push_dec(out: &mut String, n: u64)
    ensures
        final(out)@ == old(out)@ + dec(n as nat),
    decreases n,
{
    let ghost before = out@;
    if n >= 10 {
        push_dec(out, n / 10);
    }
    let d: u8 = (n % 10) as u8;
    out.push((48u8 + d) as char);
    assert(out@ =~= before + dec(n as nat));
}

/// A run of `n` copies of `c`.
pub open spec fn rep(c: char, n: int) -> Seq<char> {
    Seq::new(if n < 0 { 0 } else { n as nat }, |i: int| c)
}

/// Appends `n` copies of `c`.
pub fn push_rep(out: &mut String, c: char, n: usize)
    ensures
        final(out)@ == old(out)@ + rep(c, n as int),
{
    let mut i: usize = 0;
    assert(out@ =~= old(out)@ + rep(c, 0));
    while i < n
        invariant
            i <= n,
            out@ == old(out)@ + rep(c, i as int),
        decreases n - i,
    {
        out.push(c);
        assert(rep(c, i + 1) =~= rep(c, i as int).push(c));
        assert(out@ =~= old(out)@ + rep(c, i + 1));
        i += 1;
    }
}

/// `n` in decimal, padded with zeros on the left to at least `w` digits.
pub open spec fn pad0(n: nat, w: int) -> Seq<char> {
    rep('0', w - dec(n).len()) + dec(n)
}

/// The number of decimal digits of `n`.
pub fn dec_len(n: u64) -> (r: usize)
    ensures
        r == dec(n as nat).len(),
        1 <= r <= 20,
    decreases n,
{
    if n < 10 {
        1
    } else {
        let r: usize = dec_len(n / 10);
        proof {
            lemma_dec_len_bound(n as nat, 20);
        }
        r + 1
    }
}

spec fn ten_to(k: nat) -> nat
    decreases k,
{
    if k == 0 {
        1
    } else {
        10 * ten_to((k - 1) as nat)
    }
}

proof fn lemma_dec_len_bound(n: nat, k: nat)
    requires
        k >= 1,
        n < ten_to(k) || (k == 20 && n <= u64::MAX),
    ensures
        1 <= dec(n).len() <= k,
    decreases k,
{
    if k == 20 && n <= u64::MAX {
        reveal_with_fuel(ten_to, 21);
        assert(n < ten_to(20));
    }
    if n >= 10 {
        assert(k > 1) by {
            reveal_with_fuel(ten_to, 2);
        }
        lemma_dec_len_bound(n / 10, (k - 1) as nat);
    }
}

/// Appends `n` in decimal, padded with zeros to at least `w` digits.
pub fn push_pad0(out: &mut String, n: u64, w: usize)
    ensures
        final(out)@ == old(out)@ + pad0(n as nat, w as int),
{
    let ghost before = out@;
    let k: usize = dec_len(n);
    if k < w {
        push_rep(out, '0', w - k);
    } else {
        assert(rep('0', w - k) =~= Seq::<char>::empty());
    }
    push_dec(out, n);
    assert(out@ =~= before + pad0(n as nat, w as int));
}

/// Whether `c` is white space: the characters with the Unicode property `White_Space`.
pub open spec fn space(c: char) -> bool {
    ||| '\u{9}' <= c <= '\u{d}'
    ||| c == ' '
    ||| c == '\u{85}'
    ||| c == '\u{a0}'
    ||| c == '\u{1680}'
    ||| '\u{2000}' <= c <= '\u{200a}'
    ||| c == '\u{2028}'
    ||| c == '\u{2029}'
    ||| c == '\u{202f}'
    ||| c == '\u{205f}'
    ||| c == '\u{3000}'
}

/// Whether `c` is white space.
pub fn is_space(c: char) -> (r: bool)
    ensures
        r == space(c),
{
    ('\u{9}' <= c && c <= '\u{d}') || c == ' ' || c == '\u{85}' || c == '\u{a0}' || c == '\u{1680}' || (
    '\u{2000}' <= c && c <= '\u{200a}') || c == '\u{2028}' || c == '\u{2029}' || c == '\u{202f}' || c
        == '\u{205f}' || c == '\u{3000}'
}

/// `s` without its leading white space.
pub open spec fn trim_start(s: Seq<char>) -> Seq<char>
    decreases s.len(),
{
    if s.len() > 0 && space(s[0]) {
        trim_start(s.drop_first())
    } else {
        s
    }
}

/// `s` without its trailing white space.
pub open spec fn trim_end(s: Seq<char>) -> Seq<char>
    decreases s.len(),
{
    if s.len() > 0 && space(s.last()) {
        trim_end(s.drop_last())
    } else {
        s
    }
}

/// `s` without white space at either end.
pub open spec fn trim(s: Seq<char>) -> Seq<char> {
    trim_end(trim_start(s))
}

/// Where the leading white space of `cs` ends.
fn lead(cs: &Vec<char>) -> (r: usize)
    ensures
        r <= cs@.len(),
        trim_start(cs@) == cs@.subrange(r as int, cs@.len() as int),
{
    let n: usize = cs.len();
    let mut i: usize = 0;
    assert(cs@.subrange(0, n as int) =~= cs@);
    while i < n && is_space(cs[i])
        invariant
            i <= n == cs@.len(),
            trim_start(cs@) == trim_start(cs@.subrange(i as int, n as int)),
        decreases n - i,
    {
        assert(cs@.subrange(i as int, n as int).drop_first() =~= cs@.subrange(i + 1, n as int));
        i += 1;
    }
    i
}

/// The characters of `cs` without leading white space.
pub fn start_trimmed(cs: &Vec<char>) -> (r: Vec<char>)
    ensures
        r@ == trim_start(cs@),
{
    let i: usize = lead(cs);
    slice(cs, i, cs.len())
}

/// The characters of `cs` without white space at either end.
pub fn trimmed(cs: &Vec<char>) -> (r: Vec<char>)
    ensures
        r@ == trim(cs@),
{
    let n: usize = cs.len();
    let i: usize = lead(cs);
    let mut j: usize = n;
    while j > i && is_space(cs[j - 1])
        invariant
            i <= j <= n == cs@.len(),
            trim(cs@) == trim_end(cs@.subrange(i as int, j as int)),
        decreases j,
    {
        assert(cs@.subrange(i as int, j as int).drop_last() =~= cs@.subrange(i as int, j - 1));
        j -= 1;
    }
    slice(cs, i, j)
}

/// Where the word that holds position `i` ends.
pub open spec fn word_end(s: Seq<char>, i: int) -> int
    decreases s.len() - i,
{
    if 0 <= i < s.len() && !space(s[i]) {
        word_end(s, i + 1)
    } else {
        i
    }
}

/// The first word of a text, where it has one.
pub open spec fn first_word(s: Seq<char>) -> Option<Seq<char>> {
    let t = trim_start(s);
    if t.len() == 0 { None } else { Some(t.take(word_end(t, 0))) }
}

/// The first word of a text, where it has one.
pub fn leading_word(s: &str) -> (r: Option<String>)
    ensures
        opt(r) == first_word(s@),
{
    let t = start_trimmed(&chars_of(s));
    if t.len() == 0 {
        return None;
    }
    let n: usize = t.len();
    let mut i: usize = 0;
    while i < n && !is_space(t[i])
        invariant
            n == t@.len(),
            i <= n,
            word_end(t@, 0) == word_end(t@, i as int),
        decreases n - i,
    {
        i += 1;
    }
    let r = string_range(&t, 0, i);
    assert(r@ =~= t@.take(i as int));
    Some(r)
}

/// The pieces of `s` between the occurrences of `c`.
pub open spec fn split(s: Seq<char>, c: char) -> Seq<Seq<char>>
    decreases s.len(),
{
    if s.len() == 0 {
        seq![Seq::<char>::empty()]
    } else {
        let pieces = split(s.drop_last(), c);
        if s.last() == c {
            pieces.push(Seq::<char>::empty())
        } else {
            pieces.drop_last().push(pieces.last().push(s.last()))
        }
    }
}

pub proof fn lemma_split_not_empty(s: Seq<char>, c: char)
    ensures
        split(s, c).len() > 0,
    decreases s.len(),
{
    if s.len() > 0 {
        lemma_split_not_empty(s.drop_last(), c);
    }
}

/// A text without `c` is its own only piece.
pub proof fn lemma_split_whole(s: Seq<char>, c: char)
    requires
        !s.contains(c),
    ensures
        split(s, c) == seq![s],
    decreases s.len(),
{
    if s.len() > 0 {
        assert(!s.drop_last().contains(c)) by {
            assert forall|i: int| 0 <= i < s.len() - 1 implies s.drop_last()[i] != c by {
                assert(s[i] == s.drop_last()[i]);
            }
        }
        lemma_split_whole(s.drop_last(), c);
        assert(s.last() == s[s.len() - 1]);
        assert(s.drop_last().push(s.last()) =~= s);
        assert(split(s, c) =~= seq![s]);
    } else {
        assert(s =~= Seq::<char>::empty());
    }
}

/// The first piece ends at the first occurrence of `c`.
pub proof fn lemma_split_first(a: Seq<char>, c: char, b: Seq<char>)
    requires
        !a.contains(c),
    ensures
        split(a + seq![c] + b, c) == seq![a] + split(b, c),
    decreases b.len(),
{
    let s = a + seq![c] + b;
    if b.len() == 0 {
        assert(s.drop_last() =~= a);
        lemma_split_whole(a, c);
        assert(b =~= Seq::<char>::empty());
        assert(split(s, c) =~= seq![a] + split(b, c));
    } else {
        assert(s.drop_last() =~= a + seq![c] + b.drop_last());
        lemma_split_first(a, c, b.drop_last());
        lemma_split_not_empty(b.drop_last(), c);
        assert(s.last() == b.last());
        assert(split(s, c) =~= seq![a] + split(b, c));
    }
}

/// The contents of a list of character vectors.
pub open spec fn vecs(v: Seq<Vec<char>>) -> Seq<Seq<char>> {
    v.map_values(|s: Vec<char>| s@)
}

/// The pieces of `cs` between the occurrences of `c`.
pub fn split_on(cs: &Vec<char>, c: char) -> (r: Vec<Vec<char>>)
    ensures
        vecs(r@) == split(cs@, c),
        r@.len() > 0,
{
    let mut done: Vec<Vec<char>> = Vec::new();
    let mut piece: Vec<char> = Vec::new();
    let mut i: usize = 0;
    assert(cs@.subrange(0, 0) =~= Seq::<char>::empty());
    assert(vecs(done@).push(piece@) =~= split(cs@.subrange(0, 0), c));
    while i < cs.len()
        invariant
            i <= cs@.len(),
            vecs(done@).push(piece@) == split(cs@.subrange(0, i as int), c),
        decreases cs.len() - i,
    {
        let ghost before = vecs(done@).push(piece@);
        assert(cs@.subrange(0, i + 1).drop_last() =~= cs@.subrange(0, i as int));
        assert(before.drop_last() =~= vecs(done@));
        if cs[i] == c {
            done.push(piece);
            piece = Vec::new();
            assert(vecs(done@) =~= before);
        } else {
            piece.push(cs[i]);
        }
        i += 1;
        assert(vecs(done@).push(piece@) =~= split(cs@.subrange(0, i as int), c));
    }
    assert(cs@.subrange(0, cs@.len() as int) =~= cs@);
    done.push(piece);
    assert(vecs(done@) =~= split(cs@, c));
    done
}

/// The value of a run of decimal digits, or `None` where another character stands among them.
pub open spec fn digits_value(s: Seq<char>) -> Option<nat>
    decreases s.len(),
{
    if s.len() == 0 {
        Some(0)
    } else if '0' <= s.last() <= '9' {
        match digits_value(s.drop_last()) {
            Some(v) => Some((v * 10 + (s.last() as nat - 48)) as nat),
            None => None,
        }
    } else {
        None
    }
}

/// The number that `s` spells: an optional plus sign and at least one decimal digit.
pub open spec fn number(s: Seq<char>) -> Option<nat> {
    let body = if s.len() > 0 && s[0] == '+' { s.drop_first() } else { s };
    if body.len() == 0 {
        None
    } else {
        digits_value(body)
    }
}

proof fn lemma_digits_grow(s: Seq<char>, k: int)
    requires
        0 <= k <= s.len(),
        digits_value(s) is Some,
    ensures
        digits_value(s.subrange(0, k)) is Some,
        digits_value(s.subrange(0, k))->0 <= digits_value(s)->0,
    decreases s.len() - k,
{
    if k == s.len() {
        assert(s.subrange(0, k) =~= s);
    } else {
        lemma_digits_grow(s, k + 1);
        assert(s.subrange(0, k + 1).drop_last() =~= s.subrange(0, k));
    }
}

/// Reads a number of at most `max`; `None` where the text spells none or a larger one.
pub fn read_number(cs: &Vec<char>, max: u64) -> (r: Option<u64>)
    ensures
        match r {
            Some(v) => number(cs@) == Some(v as nat) && v <= max,
            None => number(cs@) matches Some(v) ==> v > max,
        },
{
    let n: usize = cs.len();
    let start: usize = if n > 0 && cs[0] == '+' { 1 } else { 0 };
    if start == n {
        return None;
    }
    let ghost body = cs@.subrange(start as int, n as int);
    proof {
        if start == 1 {
            assert(cs@.drop_first() =~= body);
        } else {
            assert(cs@ =~= body);
        }
    }
    let mut v: u64 = 0;
    let mut i: usize = start;
    assert(body.subrange(0, 0) =~= Seq::<char>::empty());
    while i < n
        invariant
            start <= i <= n == cs@.len(),
            start < n,
            body == cs@.subrange(start as int, n as int),
            number(cs@) == digits_value(body),
            digits_value(body.subrange(0, i - start)) == Some(v as nat),
            v <= max,
        decreases n - i,
    {
        let c = cs[i];
        let ghost next = body.subrange(0, i + 1 - start);
        assert(next.drop_last() =~= body.subrange(0, i - start));
        assert(next.last() == c);
        proof {
            if digits_value(body) is Some {
                lemma_digits_grow(body, i + 1 - start);
            }
        }
        if !('0' <= c && c <= '9') {
            return None;
        }
        let d: u64 = (c as u32 - 48) as u64;
        let w: u128 = v as u128 * 10 + d as u128;
        assert(digits_value(next) == Some(w as nat));
        if w > max as u128 {
            return None;
        }
        v = w as u64;
        i += 1;
    }
    assert(body.subrange(0, n - start) =~= body);
    Some(v)
}

/// A number's decimal digits, with any zeros before them, spell that number.
pub proof fn law_number_reads_back(n: nat, w: int)
    ensures
        number(pad0(n, w)) == Some(n),
        number(dec(n)) == Some(n),
{
    lemma_dec_digits(n);
    let z = rep('0', w - dec(n).len());
    lemma_zeros_before(z, dec(n));
    assert(pad0(n, w)[0] == z.push('0')[0] || pad0(n, w)[0] == dec(n)[0]);
}

proof fn lemma_dec_digits(n: nat)
    ensures
        dec(n).len() > 0,
        digits_value(dec(n)) == Some(n),
        forall|i: int| 0 <= i < dec(n).len() ==> '0' <= #[trigger] dec(n)[i] <= '9',
    decreases n,
{
    if n >= 10 {
        lemma_dec_digits(n / 10);
        assert(dec(n).drop_last() =~= dec(n / 10));
    } else {
        assert(dec(n).drop_last() =~= Seq::<char>::empty());
        assert(digits_value(dec(n).drop_last()) == Some(0nat));
    }
}

proof fn lemma_zeros_before(z: Seq<char>, s: Seq<char>)
    requires
        forall|i: int| 0 <= i < z.len() ==> z[i] == '0',
        digits_value(s) is Some,
    ensures
        digits_value(z + s) == digits_value(s),
    decreases z.len() + s.len(),
{
    if s.len() > 0 {
        assert((z + s).drop_last() =~= z + s.drop_last());
        lemma_zeros_before(z, s.drop_last());
    } else if z.len() > 0 {
        assert(s =~= Seq::<char>::empty());
        assert((z + s).drop_last() =~= z.drop_last() + s);
        lemma_zeros_before(z.drop_last(), s);
    } else {
        assert(z + s =~= s);
    }
}

/// The bytes that a character takes in UTF-8.
pub open spec fn utf8_len(c: char) -> nat {
    if c <= '\u{7f}' {
        1
    } else if c <= '\u{7ff}' {
        2
    } else if c <= '\u{ffff}' {
        3
    } else {
        4
    }
}

/// The bytes that a text takes in UTF-8.
pub open spec fn byte_len(s: Seq<char>) -> nat
    decreases s.len(),
{
    if s.len() == 0 {
        0
    } else {
        byte_len(s.drop_last()) + utf8_len(s.last())
    }
}

/// The bytes that a character takes in UTF-8.
pub fn char_bytes(c: char) -> (r: usize)
    ensures
        r == utf8_len(c),
        1 <= r <= 4,
{
    if c <= '\u{7f}' {
        1
    } else if c <= '\u{7ff}' {
        2
    } else if c <= '\u{ffff}' {
        3
    } else {
        4
    }
}

pub proof fn lemma_byte_len_concat(a: Seq<char>, b: Seq<char>)
    ensures
        byte_len(a + b) == byte_len(a) + byte_len(b),
    decreases b.len(),
{
    if b.len() == 0 {
        assert(a + b =~= a);
    } else {
        assert((a + b).drop_last() =~= a + b.drop_last());
        lemma_byte_len_concat(a, b.drop_last());
    }
}

/// A longer prefix takes at least one byte more for each further character.
pub proof fn lemma_byte_len_prefix(s: Seq<char>, i: int, j: int)
    requires
        0 <= i <= j <= s.len(),
    ensures
        byte_len(s.take(i)) + (j - i) <= byte_len(s.take(j)) <= byte_len(s.take(i)) + 4 * (j - i),
    decreases j - i,
{
    if i < j {
        lemma_byte_len_prefix(s, i, j - 1);
        assert(s.take(j).drop_last() =~= s.take(j - 1));
    }
}

proof fn lemma_scalar_len(c: char)
    ensures
        vstd::utf8::encode_scalar(c as u32).len() == utf8_len(c),
{
    vstd::utf8::char_is_scalar(c);
}

proof fn lemma_byte_len_is_utf8(s: Seq<char>)
    ensures
        vstd::utf8::encode_utf8(s).len() == byte_len(s),
    decreases s.len(),
{
    if s.len() > 0 {
        lemma_byte_len_is_utf8(s.drop_first());
        lemma_scalar_len(s[0]);
        assert(s =~= seq![s[0]] + s.drop_first());
        lemma_byte_len_concat(seq![s[0]], s.drop_first());
        assert(seq![s[0]].drop_last() =~= Seq::<char>::empty());
        assert(byte_len(seq![s[0]]) == utf8_len(s[0])) by {
            reveal_with_fuel(byte_len, 2);
        }
    }
}

/// The length of a string in bytes.
pub fn bytes_of(s: &str) -> (r: usize)
    ensures
        r == byte_len(s@),
{
    proof {
        lemma_byte_len_is_utf8(s@);
    }
    s.as_bytes().len()
}

/// The characters `from..to` of `cs`.
pub fn slice(cs: &Vec<char>, from: usize, to: usize) -> (r: Vec<char>)
    requires
        from <= to <= cs@.len(),
    ensures
        r@ == cs@.subrange(from as int, to as int),
{
    let mut r: Vec<char> = Vec::new();
    let mut k: usize = from;
    assert(cs@.subrange(from as int, from as int) =~= Seq::<char>::empty());
    while k < to
        invariant
            from <= k <= to <= cs@.len(),
            r@ == cs@.subrange(from as int, k as int),
        decreases to - k,
    {
        r.push(cs[k]);
        assert(cs@.subrange(from as int, k + 1) =~= cs@.subrange(from as int, k as int).push(cs@[k as int]));
        k += 1;
    }
    r
}

/// The texts `parts` one after another, `sep` between any two.
pub open spec fn join(parts: Seq<Seq<char>>, sep: Seq<char>) -> Seq<char>
    decreases parts.len(),
{
    if parts.len() == 0 {
        Seq::empty()
    } else if parts.len() == 1 {
        parts[0]
    } else {
        join(parts.drop_last(), sep) + sep + parts.last()
    }
}

/// The strings `parts` one after another, `sep` between any two.
pub fn joined(parts: &Vec<String>, sep: &str) -> (r: String)
    ensures
        r@ == join(strs(parts@), sep@),
{
    let mut out = String::new();
    let mut i: usize = 0;
    assert(strs(parts@).take(0) =~= Seq::<Seq<char>>::empty());
    while i < parts.len()
        invariant
            i <= parts@.len(),
            out@ == join(strs(parts@).take(i as int), sep@),
        decreases parts.len() - i,
    {
        let ghost head = strs(parts@).take(i as int);
        let ghost next = strs(parts@).take(i + 1);
        assert(next.drop_last() =~= head);
        assert(next.last() == parts@[i as int]@);
        if i > 0 {
            out.append(sep);
        } else {
            assert(next.len() == 1);
        }
        out.append(&parts[i]);
        assert(out@ =~= join(next, sep@));
        i += 1;
    }
    assert(strs(parts@).take(parts@.len() as int) =~= strs(parts@));
    out
}

/// `n` in decimal, with a minus sign where it is negative.
pub open spec fn int_text(n: int) -> Seq<char> {
    if n < 0 {
        seq!['-'] + dec((-n) as nat)
    } else {
        dec(n as nat)
    }
}

/// Appends `n` in decimal.
pub fn push_int(out: &mut String, n: i64)
    ensures
        final(out)@ == old(out)@ + int_text(n as int),
{
    let ghost start = out@;
    if n < 0 {
        out.push('-');
        push_dec(out, (-(n + 1)) as u64 + 1);
    } else {
        push_dec(out, n as u64);
    }
    assert(out@ =~= start + int_text(n as int));
}

/// A string's own copy.
pub fn owned(s: &str) -> (r: String)
    ensures
        r@ == s@,
{
    String::from_str(s)
}

/// `n` in decimal.
pub fn dec_string(n: u64) -> (r: String)
    ensures
        r@ == dec(n as nat),
{
    let mut out = String::new();
    push_dec(&mut out, n);
    assert(out@ =~= dec(n as nat));
    out
}

/// Appends a line to a list of lines.
pub fn add_line(lines: &mut Vec<String>, line: String)
    ensures
        strs(final(lines)@) == strs(old(lines)@).push(line@),
        final(lines)@ == old(lines)@.push(line),
{
    lines.push(line);
    assert(strs(lines@) =~= strs(old(lines)@).push(line@));
}

/// Two texts as one.
pub fn cat(a: &str, b: &str) -> (r: String)
    ensures
        r@ == a@ + b@,
{
    let mut r = owned(a);
    r.append(b);
    r
}

/// Three texts as one.
pub fn cat3(a: &str, b: &str, c: &str) -> (r: String)
    ensures
        r@ == a@ + b@ + c@,
{
    let mut r = owned(a);
    r.append(b);
    r.append(c);
    r
}

/// The string that an option holds, or another where it holds none.
pub fn or_else<'a>(s: &'a Option<String>, other: &'a str) -> (r: &'a str)
    ensures
        r@ == or(*s, other@),
{
    match s {
        Some(t) => t.as_str(),
        None => other,
    }
}

/// The text that an option holds, or another where it holds none.
pub open spec fn or(s: Option<String>, other: Seq<char>) -> Seq<char> {
    match s {
        Some(t) => t@,
        None => other,
    }
}

/// `s` without one carriage return at its end.
pub open spec fn without_return(s: Seq<char>) -> Seq<char> {
    if s.len() > 0 && s.last() == '\r' { s.drop_last() } else { s }
}

/// The lines of `s`: the pieces between line breaks, without the carriage return before a break,
/// and without an empty piece after the last break.
pub open spec fn lines_of(s: Seq<char>) -> Seq<Seq<char>> {
    let pieces = split(s, '\n');
    let ended = pieces.drop_last().map_values(|p: Seq<char>| without_return(p));
    if pieces.last().len() == 0 { ended } else { ended.push(pieces.last()) }
}

/// The lines of a text.
pub fn lines(s: &str) -> (r: Vec<String>)
    ensures
        strs(r@) == lines_of(s@),
{
    let cs = chars_of(s);
    let pieces = split_on(&cs, '\n');
    let ghost all = split(s@, '\n');
    let ghost ended = all.drop_last().map_values(|p: Seq<char>| without_return(p));
    let mut out: Vec<String> = Vec::new();
    let mut i: usize = 0;
    assert(strs(out@) =~= ended.take(0));
    while i < pieces.len() - 1
        invariant
            pieces@.len() > 0,
            i <= pieces@.len() - 1,
            vecs(pieces@) == all,
            ended == all.drop_last().map_values(|p: Seq<char>| without_return(p)),
            strs(out@) == ended.take(i as int),
        decreases pieces.len() - i,
    {
        let piece = &pieces[i];
        assert(all[i as int] == piece@);
        let n: usize = piece.len();
        let stop: usize = if n > 0 && piece[n - 1] == '\r' { n - 1 } else { n };
        let line = string_range(piece, 0, stop);
        assert(line@ =~= ended[i as int]);
        add_line(&mut out, line);
        i += 1;
        assert(strs(out@) =~= ended.take(i as int));
    }
    assert(ended.take(pieces@.len() - 1) =~= ended);
    let last = &pieces[pieces.len() - 1];
    assert(all.last() == last@);
    if last.len() > 0 {
        add_line(&mut out, string_of(last));
    }
    out
}

/// `s` with spaces added up to `w` characters.
pub open spec fn pad_end(s: Seq<char>, w: int) -> Seq<char> {
    s + rep(' ', w - s.len())
}

/// Appends `s` with spaces added up to `w` characters.
pub fn push_padded(out: &mut String, s: &str, w: usize)
    ensures
        final(out)@ == old(out)@ + pad_end(s@, w as int),
{
    let ghost start = out@;
    let n: usize = chars_of(s).len();
    out.append(s);
    push_rep(out, ' ', if n < w { w - n } else { 0 });
    assert(out@ =~= start + pad_end(s@, w as int));
}

/// The characters of `s` that lie wholly in its first `n` bytes.
pub open spec fn head(s: Seq<char>, n: int) -> Seq<char>
    decreases s.len(),
{
    if s.len() == 0 || byte_len(s) <= n { s } else { head(s.drop_last(), n) }
}

proof fn lemma_head(s: Seq<char>, k: int, n: int)
    requires
        0 <= k <= s.len(),
        byte_len(s.take(k)) <= n,
        k < s.len() ==> byte_len(s.take(k + 1)) > n,
    ensures
        head(s, n) == s.take(k),
    decreases s.len() - k,
{
    assert(s.take(s.len() as int) =~= s);
    if k < s.len() {
        lemma_byte_len_prefix(s, k + 1, s.len() as int);
        let t = s.drop_last();
        assert(t.take(k) =~= s.take(k));
        if k < t.len() {
            assert(t.take(k + 1) =~= s.take(k + 1));
        }
        lemma_head(t, k, n);
    }
}

/// The characters of `s` that lie wholly in its first `n` bytes.
pub fn head_of(s: &str, n: usize) -> (r: String)
    ensures
        r@ == head(s@, n as int),
{
    let cs = chars_of(s);
    let mut k: usize = 0;
    let mut room: usize = n;
    assert(s@.take(0) =~= Seq::<char>::empty());
    while k < cs.len() && char_bytes(cs[k]) <= room
        invariant
            cs@ == s@,
            k <= cs@.len(),
            byte_len(s@.take(k as int)) + room == n,
        decreases cs.len() - k,
    {
        room -= char_bytes(cs[k]);
        k += 1;
        assert(s@.take(k as int).drop_last() =~= s@.take(k - 1));
    }
    proof {
        if k < cs@.len() {
            assert(s@.take(k + 1).drop_last() =~= s@.take(k as int));
        }
        lemma_head(s@, k as int, n as int);
    }
    string_range(&cs, 0, k)
}

/// `s` with each `from` replaced by `to`.
pub open spec fn replaced(s: Seq<char>, from: char, to: char) -> Seq<char> {
    s.map_values(|c: char| if c == from { to } else { c })
}

/// `s` with each `from` replaced by `to`.
pub fn replace_char(s: &str, from: char, to: char) -> (r: String)
    ensures
        r@ == replaced(s@, from, to),
{
    let cs = chars_of(s);
    let mut out = String::new();
    let mut i: usize = 0;
    while i < cs.len()
        invariant
            i <= cs@.len(),
            out@ =~= replaced(cs@, from, to).take(i as int),
        decreases cs.len() - i,
    {
        out.push(if cs[i] == from { to } else { cs[i] });
        i += 1;
    }
    assert(replaced(cs@, from, to).take(cs@.len() as int) =~= replaced(cs@, from, to));
    out
}

/// `s` with spaces put before it up to `w` characters.
pub open spec fn pad_start(s: Seq<char>, w: int) -> Seq<char> {
    rep(' ', w - s.len()) + s
}

/// Appends `s` with spaces put before it up to `w` characters.
pub fn push_right(out: &mut String, s: &str, w: usize)
    ensures
        final(out)@ == old(out)@ + pad_start(s@, w as int),
{
    let ghost start = out@;
    let n: usize = chars_of(s).len();
    push_rep(out, ' ', if n < w { w - n } else { 0 });
    out.append(s);
    assert(out@ =~= start + pad_start(s@, w as int));
}

/// `s` with each `c` replaced by the text `to`.
pub open spec fn expanded(s: Seq<char>, c: char, to: Seq<char>) -> Seq<char>
    decreases s.len(),
{
    if s.len() == 0 {
        Seq::empty()
    } else {
        expanded(s.drop_last(), c, to) + if s.last() == c { to } else { seq![s.last()] }
    }
}

/// `s` with each `c` replaced by the text `to`.
pub fn expand(s: &str, c: char, to: &str) -> (r: String)
    ensures
        r@ == expanded(s@, c, to@),
{
    let cs = chars_of(s);
    let mut out = String::new();
    let mut i: usize = 0;
    assert(cs@.take(0) =~= Seq::<char>::empty());
    while i < cs.len()
        invariant
            i <= cs@.len(),
            out@ =~= expanded(cs@.take(i as int), c, to@),
        decreases cs.len() - i,
    {
        let ghost before = cs@.take(i as int);
        if cs[i] == c {
            out.append(to);
        } else {
            out.push(cs[i]);
        }
        i += 1;
        assert(cs@.take(i as int).drop_last() =~= before);
    }
    assert(cs@.take(cs@.len() as int) =~= cs@);
    out
}

} // verus!
