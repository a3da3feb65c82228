//! The one-line text field shared by the query box and the absolute-range form.
//!
//! Both editors are the same thing: a string plus a caret into it, driven by the same keys, so the
//! caret arithmetic and the key map live here once. The caret is a byte offset that may outlive the
//! text it was set against, which is why every read clamps: see [`caret_in`].

use vstd::prelude::*;

use crate::input::{KeyCode, KeyEvent};
use crate::text;

verus! {

/// The characters of `s` that lie wholly before byte `caret`.
pub open spec fn before(s: Seq<char>, caret: int) -> nat
    decreases s.len(),
{
    if s.len() == 0 || text::byte_len(s) <= caret {
        s.len()
    } else {
        before(s.drop_last(), caret)
    }
}

/// The byte offset of character `k`.
pub open spec fn offset(s: Seq<char>, k: int) -> nat {
    text::byte_len(s.take(k))
}

/// `before` counts the longest prefix that ends at or before the caret.
pub proof fn lemma_before(s: Seq<char>, caret: int)
    requires
        caret >= 0,
    ensures
        before(s, caret) <= s.len(),
        offset(s, before(s, caret) as int) <= caret,
        before(s, caret) < s.len() ==> offset(s, before(s, caret) as int + 1) > caret,
    decreases s.len(),
{
    if s.len() == 0 {
        assert(s.take(0) =~= s);
    } else if text::byte_len(s) <= caret {
        assert(s.take(s.len() as int) =~= s);
    } else {
        let t = s.drop_last();
        lemma_before(t, caret);
        let k = before(t, caret) as int;
        assert(s.take(k) =~= t.take(k));
        if k < t.len() {
            assert(s.take(k + 1) =~= t.take(k + 1));
        } else {
            assert(s.take(k + 1) =~= s);
        }
    }
}

/// The caret at character `k` stands before exactly `k` characters.
pub proof fn lemma_before_offset(s: Seq<char>, k: int)
    requires
        0 <= k <= s.len(),
    ensures
        before(s, offset(s, k) as int) == k,
{
    let b = before(s, offset(s, k) as int) as int;
    lemma_before(s, offset(s, k) as int);
    if b < k {
        text::lemma_byte_len_prefix(s, b + 1, k);
    } else if b > k {
        text::lemma_byte_len_prefix(s, k, b);
    }
}

/// Where the caret stands: the characters before it and the byte offset there.
fn locate(s: &str, cs: &Vec<char>, caret: usize) -> (r: (usize, usize))
    requires
        cs@ == s@,
    ensures
        r.0 == before(s@, caret as int),
        r.0 <= cs@.len(),
        r.1 == offset(s@, r.0 as int),
{
    let total: usize = text::bytes_of(s);
    let mut k: usize = 0;
    let mut at: usize = 0;
    assert(s@.take(0) =~= Seq::<char>::empty());
    while k < cs.len()
        invariant
            cs@ == s@,
            k <= cs@.len(),
            at == offset(s@, k as int),
            at <= caret,
            total == text::byte_len(s@),
        decreases cs.len() - k,
    {
        let w: usize = text::char_bytes(cs[k]);
        assert(s@.take(k + 1).drop_last() =~= s@.take(k as int));
        proof {
            text::lemma_byte_len_prefix(s@, k + 1, s@.len() as int);
            assert(s@.take(s@.len() as int) =~= s@);
        }
        if w > caret - at {
            proof {
                lemma_before(s@, caret as int);
                let b = before(s@, caret as int) as int;
                if b < k {
                    text::lemma_byte_len_prefix(s@, b + 1, k as int);
                } else if b > k {
                    text::lemma_byte_len_prefix(s@, k + 1, b);
                }
            }
            return (k, at);
        }
        at += w;
        k += 1;
    }
    proof {
        assert(s@.take(k as int) =~= s@);
    }
    (k, at)
}

/// How many characters of `s` stand before the caret.
pub fn chars_before(s: &str, caret: usize) -> (r: usize)
    ensures
        r == before(s@, caret as int),
        r <= s@.len(),
{
    let cs = text::chars_of(s);
    let (k, _) = locate(s, &cs, caret);
    k
}

/// `caret` clamped into `s` and floored onto a character boundary.
///
/// A caret routinely outlives the text it was set against: the query box swaps texts with the
/// screen, the range form swaps fields, and Back/Forward restores whole query sets. Clamping on
/// read keeps that unobservable.
pub fn caret_in(s: &str, caret: usize) -> (r: usize)
    ensures
        r == offset(s@, before(s@, caret as int) as int),
        r <= caret,
        r <= text::byte_len(s@),
{
    let cs = text::chars_of(s);
    let (k, at) = locate(s, &cs, caret);
    proof {
        lemma_before(s@, caret as int);
        text::lemma_byte_len_prefix(s@, k as int, s@.len() as int);
        assert(s@.take(s@.len() as int) =~= s@);
    }
    at
}

/// A one-line text field: a text and the caret into it.
pub struct TextField {
    pub text: String,
    pub caret: usize,
}

/// What a text field shows: its characters, and how many of them stand before the caret.
pub struct FieldView {
    pub text: Seq<char>,
    pub at: int,
}

impl View for TextField {
    type V = FieldView;

    open spec fn view(&self) -> FieldView {
        FieldView { text: self.text@, at: before(self.text@, self.caret as int) as int }
    }
}

impl FieldView {
    /// Whether the caret stands inside the text.
    pub open spec fn wf(self) -> bool {
        0 <= self.at <= self.text.len()
    }

    /// The field with its caret moved one character left.
    pub open spec fn left(self) -> FieldView {
        FieldView { at: if self.at > 0 { self.at - 1 } else { 0 }, ..self }
    }

    /// The field with its caret moved one character right.
    pub open spec fn right(self) -> FieldView {
        FieldView { at: if self.at < self.text.len() { self.at + 1 } else { self.at }, ..self }
    }

    /// The field with its caret at the start.
    pub open spec fn home(self) -> FieldView {
        FieldView { at: 0, ..self }
    }

    /// The field with its caret at the end.
    pub open spec fn end(self) -> FieldView {
        FieldView { at: self.text.len() as int, ..self }
    }

    /// The field with `c` inserted at the caret, and the caret after it.
    pub open spec fn insert(self, c: char) -> FieldView {
        FieldView { text: self.text.insert(self.at, c), at: self.at + 1 }
    }

    /// The field without the character before the caret.
    pub open spec fn delete_before(self) -> FieldView {
        if self.at > 0 {
            FieldView { text: self.text.remove(self.at - 1), at: self.at - 1 }
        } else {
            self
        }
    }

    /// The field without the character under the caret.
    pub open spec fn delete_after(self) -> FieldView {
        if self.at < self.text.len() {
            FieldView { text: self.text.remove(self.at), ..self }
        } else {
            self
        }
    }

    /// The end of what a kill removes: the next line break, or the one under the caret itself.
    pub open spec fn kill_end(self) -> int {
        let n = line_end(self.text, self.at);
        if n == self.at && n < self.text.len() { n + 1 } else { n }
    }

    /// The field without the text from the caret to the end of its line.
    pub open spec fn kill_to_end(self) -> FieldView {
        FieldView {
            text: self.text.take(self.at) + self.text.skip(self.kill_end()),
            ..self
        }
    }
}

/// The first line break of `s` at or after `k`, or the end.
pub open spec fn line_end(s: Seq<char>, k: int) -> int
    decreases s.len() - k,
{
    if 0 <= k < s.len() && s[k] != '\n' {
        line_end(s, k + 1)
    } else {
        k
    }
}

impl TextField {
    /// The caret, clamped into the text (see [`caret_in`]).
    pub fn position(&self) -> (r: usize)
        ensures
            r == offset(self@.text, self@.at),
            self@.wf(),
    {
        proof {
            lemma_before(self.text@, self.caret as int);
        }
        caret_in(&self.text, self.caret)
    }

    /// Stores the characters `0..a` and `b..` of `cs`, and puts the caret between them.
    fn cut(&mut self, cs: &Vec<char>, a: usize, b: usize)
        requires
            a <= b <= cs@.len(),
        ensures
            final(self)@.text == cs@.take(a as int) + cs@.skip(b as int),
            final(self)@.at == a,
            final(self).caret == offset(final(self)@.text, a as int),
    {
        let mut out = String::new();
        text::push_range(&mut out, cs, 0, a);
        assert(out@ =~= cs@.take(a as int));
        let at: usize = text::bytes_of(&out);
        text::push_range(&mut out, cs, b, cs.len());
        assert(cs@.subrange(b as int, cs@.len() as int) =~= cs@.skip(b as int));
        self.text = out;
        self.caret = at;
        proof {
            assert(self.text@.take(a as int) =~= cs@.take(a as int));
            lemma_before_offset(self.text@, a as int);
        }
    }

    /// Puts the caret before character `k`.
    fn seek(&mut self, cs: &Vec<char>, k: usize)
        requires
            k <= cs@.len(),
            cs@ == old(self).text@,
        ensures
            final(self).text == old(self).text,
            final(self)@.at == k,
            final(self).caret == offset(old(self).text@, k as int),
    {
        let head = text::string_range(cs, 0, k);
        assert(head@ =~= cs@.take(k as int));
        self.caret = text::bytes_of(&head);
        proof {
            lemma_before_offset(self.text@, k as int);
        }
    }

    /// Moves one character left (`Left` / `Ctrl-B`). A no-op at the start.
    pub fn left(&mut self)
        ensures
            final(self)@ == old(self)@.left(),
            final(self).caret == offset(final(self)@.text, final(self)@.at),
    {
        let cs = text::chars_of(&self.text);
        let (k, _) = locate(&self.text, &cs, self.caret);
        self.seek(&cs, if k > 0 { k - 1 } else { 0 });
    }

    /// Moves one character right (`Right` / `Ctrl-F`). A no-op at the end.
    pub fn right(&mut self)
        ensures
            final(self)@ == old(self)@.right(),
            final(self).caret == offset(final(self)@.text, final(self)@.at),
    {
        let cs = text::chars_of(&self.text);
        let (k, _) = locate(&self.text, &cs, self.caret);
        self.seek(&cs, if k < cs.len() { k + 1 } else { k });
    }

    /// Moves the caret to the start.
    pub fn home(&mut self)
        ensures
            final(self)@ == old(self)@.home(),
            final(self).caret == 0,
    {
        self.caret = 0;
        proof {
            assert(self.text@.take(0) =~= Seq::<char>::empty());
            lemma_before_offset(self.text@, 0);
        }
    }

    /// Moves the caret to the end.
    pub fn end(&mut self)
        ensures
            final(self)@ == old(self)@.end(),
            final(self).caret == text::byte_len(final(self).text@),
    {
        self.caret = text::bytes_of(&self.text);
        proof {
            assert(self.text@.take(self.text@.len() as int) =~= self.text@);
            lemma_before_offset(self.text@, self.text@.len() as int);
        }
    }

    /// Inserts a character at the caret and steps over it.
    pub fn insert(&mut self, character: char)
        ensures
            final(self)@ == old(self)@.insert(character),
            final(self).caret == offset(final(self)@.text, final(self)@.at),
    {
        let cs = text::chars_of(&self.text);
        let (k, _) = locate(&self.text, &cs, self.caret);
        let mut out = String::new();
        text::push_range(&mut out, &cs, 0, k);
        out.push(character);
        let at: usize = text::bytes_of(&out);
        let ghost head = out@;
        text::push_range(&mut out, &cs, k, cs.len());
        self.text = out;
        self.caret = at;
        proof {
            assert(self.text@ =~= cs@.insert(k as int, character));
            assert(self.text@.take(k + 1) =~= head);
            lemma_before_offset(self.text@, k + 1);
        }
    }

    /// Deletes the character before the caret (`Backspace`). A no-op at the start.
    pub fn delete_before(&mut self)
        ensures
            final(self)@ == old(self)@.delete_before(),
            old(self)@.at == 0 ==> *final(self) == *old(self),
            old(self)@.at > 0 ==> final(self).caret == offset(final(self)@.text, final(self)@.at),
    {
        let cs = text::chars_of(&self.text);
        let (k, _) = locate(&self.text, &cs, self.caret);
        if k > 0 {
            self.cut(&cs, k - 1, k);
            assert(self.text@ =~= cs@.remove(k - 1));
        }
    }

    /// Deletes the character under the caret (`Delete` / `Ctrl-D`). A no-op at the end.
    pub fn delete_after(&mut self)
        ensures
            final(self)@ == old(self)@.delete_after(),
            old(self)@.at == old(self)@.text.len() ==> *final(self) == *old(self),
            old(self)@.at < old(self)@.text.len() ==> final(self).caret == offset(
                final(self)@.text,
                final(self)@.at,
            ),
    {
        let cs = text::chars_of(&self.text);
        let (k, _) = locate(&self.text, &cs, self.caret);
        if k < cs.len() {
            self.cut(&cs, k, k + 1);
            assert(self.text@ =~= cs@.remove(k as int));
        }
    }

    /// Deletes from the caret to the end of the line (`Ctrl-K`): up to the next line break, or to
    /// the end of the text when there is none. A caret on a line break kills only that break,
    /// joining the two lines. Nothing is stashed: there is no yank to pair a kill ring with.
    pub fn kill_to_end(&mut self)
        ensures
            final(self)@ == old(self)@.kill_to_end(),
            final(self).caret == offset(final(self)@.text, final(self)@.at),
    {
        let cs = text::chars_of(&self.text);
        let (k, _) = locate(&self.text, &cs, self.caret);
        let mut n: usize = k;
        while n < cs.len() && cs[n] != '\n'
            invariant
                k <= n <= cs@.len(),
                line_end(cs@, k as int) == line_end(cs@, n as int),
            decreases cs.len() - n,
        {
            n += 1;
        }
        let stop: usize = if n == k && n < cs.len() { n + 1 } else { n };
        self.cut(&cs, k, stop);
    }
}

/// What an editing key does to a field, or `None` where the key is not the field's.
pub open spec fn edited(f: FieldView, key: KeyEvent) -> Option<FieldView> {
    match key.code {
        KeyCode::Left => Some(f.left()),
        KeyCode::Right => Some(f.right()),
        KeyCode::Home => Some(f.home()),
        KeyCode::End => Some(f.end()),
        KeyCode::Backspace => Some(f.delete_before()),
        KeyCode::Delete => Some(f.delete_after()),
        KeyCode::Char(c) => if key.ctrl {
            if c == 'b' {
                Some(f.left())
            } else if c == 'f' {
                Some(f.right())
            } else if c == 'a' {
                Some(f.home())
            } else if c == 'e' {
                Some(f.end())
            } else if c == 'd' {
                Some(f.delete_after())
            } else if c == 'k' {
                Some(f.kill_to_end())
            } else {
                None
            }
        } else if key.alt {
            None
        } else {
            Some(f.insert(c))
        },
        _ => None,
    }
}

/// The caret after an editing key, as a byte offset. A delete that has nothing to delete leaves the
/// caret as it was; every other key puts it on the boundary that it moved to.
pub open spec fn caret_after(f: FieldView, caret: usize, key: KeyEvent) -> int {
    let back = key.code == KeyCode::Backspace;
    let ahead = key.code == KeyCode::Delete || (key.code == KeyCode::Char('d') && key.ctrl);
    if (back && f.at == 0) || (ahead && f.at == f.text.len()) {
        caret as int
    } else {
        match edited(f, key) {
            Some(g) => offset(g.text, g.at) as int,
            None => caret as int,
        }
    }
}

/// Applies one editing key to `field`: the cursor keys and their Emacs aliases (`Ctrl-B`/`Ctrl-F`,
/// `Ctrl-A`/`Ctrl-E`), `Home`/`End`, `Backspace`, forward delete (`Delete`/`Ctrl-D`), `Ctrl-K`, and
/// ordinary characters.
///
/// Returns whether the key belonged to the field, so a caller can bind the rest itself. A letter
/// held with Control or Alt is never typed.
pub fn handle_edit_key(field: &mut TextField, key: KeyEvent) -> (r: bool)
    ensures
        r == (edited(old(field)@, key) is Some),
        r ==> Some(final(field)@) == edited(old(field)@, key),
        !r ==> *final(field) == *old(field),
        final(field).caret == caret_after(old(field)@, old(field).caret, key),
{
    proof {
        lemma_before(field.text@, field.caret as int);
        assert(field.text@.take(0) =~= Seq::<char>::empty());
        assert(field.text@.take(field.text@.len() as int) =~= field.text@);
    }
    match key.code {
        KeyCode::Left => field.left(),
        KeyCode::Right => field.right(),
        KeyCode::Home => field.home(),
        KeyCode::End => field.end(),
        KeyCode::Backspace => field.delete_before(),
        KeyCode::Delete => field.delete_after(),
        KeyCode::Char(c) => {
            if key.ctrl {
                if c == 'b' {
                    field.left();
                } else if c == 'f' {
                    field.right();
                } else if c == 'a' {
                    field.home();
                } else if c == 'e' {
                    field.end();
                } else if c == 'd' {
                    field.delete_after();
                } else if c == 'k' {
                    field.kill_to_end();
                } else {
                    return false;
                }
            } else if key.alt {
                return false;
            } else {
                field.insert(c);
            }
        },
        _ => {
            return false;
        },
    }
    true
}

/// Backspace undoes the insertion of a character.
pub proof fn law_delete_before_undoes_insert(f: FieldView, c: char)
    requires
        f.wf(),
    ensures
        f.insert(c).delete_before() == f,
{
    assert(f.text.insert(f.at, c).remove(f.at) =~= f.text);
}

/// Left and right undo each other away from the ends of the text.
pub proof fn law_left_and_right_undo_each_other(f: FieldView)
    requires
        f.wf(),
    ensures
        f.at > 0 ==> f.left().right() == f,
        f.at < f.text.len() ==> f.right().left() == f,
{
}

/// No editing key puts the caret outside the text, and moving the caret changes no character.
pub proof fn law_editing_keeps_the_caret_inside(f: FieldView, key: KeyEvent)
    requires
        f.wf(),
    ensures
        edited(f, key) matches Some(g) ==> g.wf(),
        f.left().text == f.text && f.right().text == f.text && f.home().text == f.text && f.end().text
            == f.text,
{
    lemma_line_end(f.text, f.at);
}

proof fn lemma_line_end(s: Seq<char>, k: int)
    requires
        0 <= k <= s.len(),
    ensures
        k <= line_end(s, k) <= s.len(),
    decreases s.len() - k,
{
    if k < s.len() && s[k] != '\n' {
        lemma_line_end(s, k + 1);
    }
}

/// A second kill at the same place removes the line break that the first one stopped at.
pub proof fn law_kill_stops_at_the_line_break(f: FieldView)
    requires
        f.wf(),
        f.at < f.text.len(),
        f.text[f.at] != '\n',
    ensures
        f.kill_end() < f.text.len() ==> f.text[f.kill_end()] == '\n',
        forall|i: int| f.at <= i < f.kill_end() ==> f.text[i] != '\n',
{
    lemma_line_end(f.text, f.at);
    lemma_line_end_chars(f.text, f.at);
    assert(line_end(f.text, f.at) == line_end(f.text, f.at + 1));
    lemma_line_end(f.text, f.at + 1);
}

proof fn lemma_line_end_chars(s: Seq<char>, k: int)
    requires
        0 <= k <= s.len(),
    ensures
        line_end(s, k) < s.len() ==> s[line_end(s, k)] == '\n',
        forall|i: int| k <= i < line_end(s, k) ==> s[i] != '\n',
    decreases s.len() - k,
{
    if k < s.len() && s[k] != '\n' {
        lemma_line_end_chars(s, k + 1);
    }
}

} // verus!
