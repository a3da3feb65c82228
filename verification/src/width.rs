//! The width of text in terminal cells.

use vstd::prelude::*;
use unicode_width::{UnicodeWidthChar, UnicodeWidthStr};

verus! {

/// The cells of a character from U+00A0 up, as the Unicode width tables give them.
pub uninterp spec fn table_cells(c: char) -> nat;

/// The cells of a text that ends in no space and holds characters that may combine.
pub uninterp spec fn shaped_cells(s: Seq<char>) -> nat;

/// Whether `c` is a letter or a mark of the Latin, Greek or Cyrillic blocks, or general punctuation
/// such as the dashes, the quotes and the ellipsis.
pub open spec fn narrow(c: char) -> bool {
    ||| '\u{a0}' <= c <= '\u{ac}'
    ||| '\u{ae}' <= c <= '\u{2ff}'
    ||| '\u{370}' <= c <= '\u{482}'
    ||| '\u{48a}' <= c <= '\u{52f}'
    ||| '\u{2010}' <= c <= '\u{2029}'
}

/// Whether `c` is kana, a CJK ideograph, a Hangul syllable or a full-width form.
pub open spec fn wide(c: char) -> bool {
    ||| '\u{3041}' <= c <= '\u{3096}'
    ||| '\u{309b}' <= c <= '\u{30ff}'
    ||| '\u{3250}' <= c <= '\u{a48c}'
    ||| '\u{ac00}' <= c <= '\u{d7a3}'
    ||| '\u{ff01}' <= c <= '\u{ff60}'
}

/// The cells of one character: none for a control character, one for printable ASCII and the narrow
/// letters, two for the wide ones.
pub open spec fn char_cells(c: char) -> Option<nat> {
    if c <= '\u{1f}' || '\u{7f}' <= c <= '\u{9f}' {
        None
    } else if c <= '~' || narrow(c) {
        Some(1)
    } else if wide(c) {
        Some(2)
    } else {
        Some(table_cells(c))
    }
}

/// Whether `c` never combines with a neighbour: printable ASCII, and the characters outside the blocks
/// that hold emoji, variation selectors, and the letters that some scripts join.
pub open spec fn alone(c: char) -> bool {
    ||| ' ' <= c <= '~'
    ||| '\u{a0}' <= c <= '\u{5db}'
    ||| '\u{883}' <= c <= '\u{177f}'
    ||| '\u{1a11}' <= c <= '\u{2319}'
    ||| '\u{2e80}' <= c <= '\u{a4fb}'
    ||| '\u{a4fe}' <= c <= '\u{fdff}'
    ||| '\u{fe10}' <= c <= '\u{10c02}'
    ||| '\u{20000}' <= c
}

/// Whether no character of `s` combines with another.
pub open spec fn all_alone(s: Seq<char>) -> bool {
    forall|i: int| 0 <= i < s.len() ==> alone(#[trigger] s[i])
}

/// Whether `s` is printable ASCII throughout.
pub open spec fn printable(s: Seq<char>) -> bool {
    forall|i: int| 0 <= i < s.len() ==> ' ' <= #[trigger] s[i] <= '~'
}

/// The cells of a text. Characters of a text may combine, so this is not in general the sum over
/// its characters; but a space at the end takes one cell of its own, and where no character combines
/// with another it is the sum.
pub open spec fn cells(s: Seq<char>) -> nat
    decreases s.len(),
{
    if s.len() > 0 && s.last() == ' ' {
        cells(s.drop_last()) + 1
    } else if all_alone(s) {
        sum_cells(s)
    } else {
        shaped_cells(s)
    }
}

/// `UnicodeWidthChar::width`: the columns of one character, or `None` for a control character.
/// Characters from U+0020 to U+007E are one column wide; the rest comes from the crate's tables, which
/// give the narrow letters one column, the wide ones two, and no character more than two but for
/// U+17D8, which has three.
#[verifier::external_body]
pub(crate) fn char_width(c: char) -> (r: Option<usize>)
    ensures
        c >= '\u{a0}' ==> r is Some && r->0 == table_cells(c),
        r matches Some(w) ==> w <= 3 && (w <= 2 || c == '\u{17d8}'),
        match r {
            Some(w) => char_cells(c) == Some(w as nat),
            None => char_cells(c) is None,
        },
{
    UnicodeWidthChar::width(c)
}

/// `UnicodeWidthStr::width`: the columns of a text. The crate folds over the characters from the
/// end: a trailing space counts one column and leaves the fold in its first state. A character that
/// the tables give no joining behaviour counts its own columns there and leaves the fold in its first
/// state too; what other characters count may depend on their neighbours.
#[verifier::external_body]
pub(crate) fn str_width(s: &str) -> (r: usize)
    ensures
        r == cells(s@),
        !all_alone(s@) && s@.last() != ' ' ==> r == shaped_cells(s@),
{
    UnicodeWidthStr::width(s)
}

/// The sum of the cells of the characters of `s`, control characters counting none.
pub open spec fn sum_cells(s: Seq<char>) -> nat
    decreases s.len(),
{
    if s.len() == 0 {
        0
    } else {
        sum_cells(s.drop_last()) + own_cells(s.last())
    }
}

/// The cells of one character, a control character counting none.
pub open spec fn own_cells(c: char) -> nat {
    match char_cells(c) {
        Some(w) => w,
        None => 0,
    }
}

pub proof fn lemma_sum_cells_concat(a: Seq<char>, b: Seq<char>)
    ensures
        sum_cells(a + b) == sum_cells(a) + sum_cells(b),
    decreases b.len(),
{
    if b.len() == 0 {
        assert(a + b =~= a);
    } else {
        assert((a + b).drop_last() =~= a + b.drop_last());
        lemma_sum_cells_concat(a, b.drop_last());
    }
}

pub proof fn lemma_sum_cells_spaces(n: int)
    requires
        n >= 0,
    ensures
        sum_cells(crate::text::rep(' ', n)) == n,
    decreases n,
{
    if n > 0 {
        assert(crate::text::rep(' ', n).drop_last() =~= crate::text::rep(' ', n - 1));
        lemma_sum_cells_spaces(n - 1);
    }
}

/// Spaces at the end of a text take one cell each.
pub proof fn lemma_cells_spaces(s: Seq<char>, n: int)
    requires
        n >= 0,
    ensures
        cells(s + crate::text::rep(' ', n)) == cells(s) + n,
    decreases n,
{
    let t = s + crate::text::rep(' ', n);
    if n == 0 {
        assert(t =~= s);
    } else {
        assert(t.drop_last() =~= s + crate::text::rep(' ', n - 1));
        lemma_cells_spaces(s, n - 1);
    }
}

/// Where no character combines with another, a text takes the sum of the cells of its characters.
pub proof fn law_characters_that_stand_alone_add_up(s: Seq<char>)
    requires
        all_alone(s),
    ensures
        cells(s) == sum_cells(s),
    decreases s.len(),
{
    if s.len() > 0 {
        let front = s.drop_last();
        assert forall|i: int| 0 <= i < front.len() implies alone(#[trigger] front[i]) by {
            assert(front[i] == s[i]);
        }
        law_characters_that_stand_alone_add_up(front);
    }
}

/// Printable ASCII takes one cell for each character.
pub proof fn law_printable_ascii_takes_one_cell_each(s: Seq<char>)
    requires
        printable(s),
    ensures
        cells(s) == s.len(),
        sum_cells(s) == s.len(),
    decreases s.len(),
{
    if s.len() > 0 {
        assert(s.last() == s[s.len() - 1]);
        assert forall|i: int| 0 <= i < s.len() - 1 implies ' ' <= #[trigger] s.drop_last()[i] <= '~' by {
            assert(s.drop_last()[i] == s[i]);
        }
        law_printable_ascii_takes_one_cell_each(s.drop_last());
    }
    assert(all_alone(s)) by {
        assert forall|i: int| 0 <= i < s.len() implies alone(#[trigger] s[i]) by {
        }
    }
    law_characters_that_stand_alone_add_up(s);
}

} // verus!
