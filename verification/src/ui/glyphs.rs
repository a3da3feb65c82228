//! The chrome glyph set, swapped to pure ASCII where the terminal asks for it.

use vstd::prelude::*;

use crate::text;

verus! {

/// The glyphs of the interface's own decoration. Content (log bodies, labels, values) is never
/// rewritten.
pub struct Glyphs {
    pub ascii: bool,
    pub logo: &'static str,
    pub clock: &'static str,
    pub warn: &'static str,
    pub dash: &'static str,
    pub sep: &'static str,
    pub up: &'static str,
    pub down: &'static str,
    pub left: &'static str,
    pub right: &'static str,
    pub ellipsis: &'static str,
    pub vline: &'static str,
}

/// The number of frames of the loading spinner.
pub open spec fn spinner_len(ascii: bool) -> nat {
    if ascii { 4 } else { 10 }
}

/// Frame `i` of the loading spinner.
pub open spec fn spinner_frame(ascii: bool, i: int) -> Seq<char> {
    if ascii {
        if i == 0 {
            "|"@
        } else if i == 1 {
            "/"@
        } else if i == 2 {
            "-"@
        } else {
            "\\"@
        }
    } else if i == 0 {
        "\u{280b}"@
    } else if i == 1 {
        "\u{2819}"@
    } else if i == 2 {
        "\u{2839}"@
    } else if i == 3 {
        "\u{2838}"@
    } else if i == 4 {
        "\u{283c}"@
    } else if i == 5 {
        "\u{2834}"@
    } else if i == 6 {
        "\u{2826}"@
    } else if i == 7 {
        "\u{2827}"@
    } else if i == 8 {
        "\u{2807}"@
    } else {
        "\u{280f}"@
    }
}

/// Whether every character of `s` is ASCII.
pub open spec fn all_ascii(s: Seq<char>) -> bool {
    forall|i: int| 0 <= i < s.len() ==> #[trigger] s[i] <= '\u{7f}'
}

impl Glyphs {
    /// Whether these are the glyphs for the mode.
    pub open spec fn is_for(self, ascii: bool) -> bool {
        &&& self.ascii == ascii
        &&& ascii ==> self.logo@ == "*"@ && self.clock@ == ""@ && self.warn@ == "!"@ && self.dash@ == "-"@
            && self.sep@ == "|"@ && self.up@ == "^"@ && self.down@ == "v"@ && self.left@ == "<"@ && self.right@
            == ">"@ && self.ellipsis@ == "..."@ && self.vline@ == "|"@
        &&& !ascii ==> self.logo@ == "\u{2b24}"@ && self.clock@ == "\u{23f2}"@ && self.warn@ == "\u{26a0}"@
            && self.dash@ == "\u{2014}"@ && self.sep@ == "\u{b7}"@ && self.up@ == "\u{2191}"@ && self.down@
            == "\u{2193}"@ && self.left@ == "\u{2190}"@ && self.right@ == "\u{2192}"@ && self.ellipsis@
            == "\u{2026}"@ && self.vline@ == "\u{2502}"@
    }

    /// The glyphs for the mode.
    pub fn new(ascii: bool) -> (r: Glyphs)
        ensures
            r.is_for(ascii),
    {
        if ascii {
            Glyphs {
                ascii,
                logo: "*",
                clock: "",
                warn: "!",
                dash: "-",
                sep: "|",
                up: "^",
                down: "v",
                left: "<",
                right: ">",
                ellipsis: "...",
                vline: "|",
            }
        } else {
            Glyphs {
                ascii,
                logo: "\u{2b24}",
                clock: "\u{23f2}",
                warn: "\u{26a0}",
                dash: "\u{2014}",
                sep: "\u{b7}",
                up: "\u{2191}",
                down: "\u{2193}",
                left: "\u{2190}",
                right: "\u{2192}",
                ellipsis: "\u{2026}",
                vline: "\u{2502}",
            }
        }
    }

    /// The two-glyph vertical scroll indicator.
    pub fn scroll(&self) -> (r: String)
        ensures
            r@ == self.up@ + self.down@,
    {
        let mut out = text::owned(self.up);
        out.append(self.down);
        out
    }

    /// Frame `i` of the loading spinner.
    pub fn spinner(&self, i: usize) -> (r: &'static str)
        requires
            i < spinner_len(self.ascii),
        ensures
            r@ == spinner_frame(self.ascii, i as int),
    {
        if self.ascii {
            if i == 0 {
                "|"
            } else if i == 1 {
                "/"
            } else if i == 2 {
                "-"
            } else {
                "\\"
            }
        } else if i == 0 {
            "\u{280b}"
        } else if i == 1 {
            "\u{2819}"
        } else if i == 2 {
            "\u{2839}"
        } else if i == 3 {
            "\u{2838}"
        } else if i == 4 {
            "\u{283c}"
        } else if i == 5 {
            "\u{2834}"
        } else if i == 6 {
            "\u{2826}"
        } else if i == 7 {
            "\u{2827}"
        } else if i == 8 {
            "\u{2807}"
        } else {
            "\u{280f}"
        }
    }

    /// The number of frames of the loading spinner.
    pub fn spinner_frames(&self) -> (r: usize)
        ensures
            r == spinner_len(self.ascii),
            r > 0,
    {
        if self.ascii { 4 } else { 10 }
    }
}

/// In ASCII mode every glyph of the chrome is ASCII.
pub proof fn law_ascii_glyphs_are_ascii(g: Glyphs, i: int)
    requires
        g.is_for(true),
    ensures
        all_ascii(g.logo@) && all_ascii(g.clock@) && all_ascii(g.warn@) && all_ascii(g.dash@) && all_ascii(g.sep@),
        all_ascii(g.up@) && all_ascii(g.down@) && all_ascii(g.left@) && all_ascii(g.right@),
        all_ascii(g.ellipsis@) && all_ascii(g.vline@),
        all_ascii(spinner_frame(true, i)),
{
    reveal_strlit("*");
    reveal_strlit("");
    reveal_strlit("!");
    reveal_strlit("-");
    reveal_strlit("|");
    reveal_strlit("^");
    reveal_strlit("v");
    reveal_strlit("<");
    reveal_strlit(">");
    reveal_strlit("...");
    reveal_strlit("/");
    reveal_strlit("\\");
}

} // verus!
