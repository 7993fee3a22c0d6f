//! Replaces the mathematical glyphs that the typesetter does not read by the
//! macros that stand for them.

use crate::text::chars_of;
use vstd::prelude::*;

verus! {

/// The macro that stands for `c`, with the space that ends it, or nothing
/// where `c` is not one of the glyphs replaced.
pub open spec fn macro_of(c: char) -> Option<Seq<char>> {
    if c == '\u{2026}' {
        Some("\\ldots "@)
    } else if c == '\u{03c0}' {
        Some("\\pi "@)
    } else if c == '\u{221e}' {
        Some("\\infty "@)
    } else if c == '\u{222b}' {
        Some("\\int "@)
    } else if c == '\u{2211}' {
        Some("\\sum "@)
    } else if c == '\u{221a}' {
        Some("\\sqrt "@)
    } else if c == '\u{2202}' {
        Some("\\partial "@)
    } else if c == '\u{2207}' {
        Some("\\nabla "@)
    } else if c == '\u{2200}' {
        Some("\\forall "@)
    } else if c == '\u{2203}' {
        Some("\\exists "@)
    } else if c == '\u{2208}' {
        Some("\\in "@)
    } else if c == '\u{2209}' {
        Some("\\notin "@)
    } else if c == '\u{220b}' {
        Some("\\ni "@)
    } else if c == '\u{220c}' {
        Some("\\notni "@)
    } else if c == '\u{220f}' {
        Some("\\prod "@)
    } else if c == '\u{2210}' {
        Some("\\coprod "@)
    } else if c == '\u{2213}' {
        Some("\\mp "@)
    } else if c == '\u{2214}' {
        Some("\\dotplus "@)
    } else if c == '\u{2218}' {
        Some("\\circ "@)
    } else if c == '\u{221d}' {
        Some("\\propto "@)
    } else {
        None
    }
}

/// What one character becomes: its macro, or itself.
pub open spec fn expansion(c: char) -> Seq<char> {
    match macro_of(c) {
        Some(m) => m,
        None => seq![c],
    }
}

/// The text in which every glyph is replaced by its macro and every other
/// character is kept, in order.
pub open spec fn substituted(text: Seq<char>) -> Seq<char>
    decreases text.len(),
{
    if text.len() == 0 {
        Seq::empty()
    } else {
        substituted(text.drop_last()) + expansion(text.last())
    }
}

/// The macro that stands for `c`, if `c` is one of the glyphs replaced.
pub fn latex_macro(c: char) -> (found: Option<&'static str>)
    ensures
        match found {
            Some(m) => macro_of(c) == Some(m@),
            None => macro_of(c) is None,
        },
{
    if c == '\u{2026}' {
        Some("\\ldots ")
    } else if c == '\u{03c0}' {
        Some("\\pi ")
    } else if c == '\u{221e}' {
        Some("\\infty ")
    } else if c == '\u{222b}' {
        Some("\\int ")
    } else if c == '\u{2211}' {
        Some("\\sum ")
    } else if c == '\u{221a}' {
        Some("\\sqrt ")
    } else if c == '\u{2202}' {
        Some("\\partial ")
    } else if c == '\u{2207}' {
        Some("\\nabla ")
    } else if c == '\u{2200}' {
        Some("\\forall ")
    } else if c == '\u{2203}' {
        Some("\\exists ")
    } else if c == '\u{2208}' {
        Some("\\in ")
    } else if c == '\u{2209}' {
        Some("\\notin ")
    } else if c == '\u{220b}' {
        Some("\\ni ")
    } else if c == '\u{220c}' {
        Some("\\notni ")
    } else if c == '\u{220f}' {
        Some("\\prod ")
    } else if c == '\u{2210}' {
        Some("\\coprod ")
    } else if c == '\u{2213}' {
        Some("\\mp ")
    } else if c == '\u{2214}' {
        Some("\\dotplus ")
    } else if c == '\u{2218}' {
        Some("\\circ ")
    } else if c == '\u{221d}' {
        Some("\\propto ")
    } else {
        None
    }
}

/// Replaces every glyph in `text` by its macro.
pub fn substitute(text: &str) -> (out: String)
    ensures
        out@ == substituted(text@),
{
    let chars = chars_of(text);
    let mut out = String::new();
    let mut i: usize = 0;
    while i < chars.len()
        invariant
            i <= chars.len(),
            chars@ == text@,
            out@ == substituted(chars@.subrange(0, i as int)),
        decreases chars.len() - i,
    {
        let c = chars[i];
        proof {
            let next = chars@.subrange(0, i + 1);
            assert(next.drop_last() =~= chars@.subrange(0, i as int));
            assert(next.last() == c);
        }
        match latex_macro(c) {
            Some(m) => {
                out.append(m);
            },
            None => {
                crate::text::push_char(&mut out, c);
                assert(out@ =~= substituted(chars@.subrange(0, i as int)) + seq![c]);
            },
        }
        i += 1;
    }
    assert(chars@.subrange(0, chars@.len() as int) =~= chars@);
    out
}

} // verus!
