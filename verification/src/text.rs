//! Conversions between strings and sequences of characters.

use vstd::prelude::*;
use vstd::std_specs::iter::IteratorSpec;

verus! {

/// The characters of `s`, in order.
pub fn chars_of(s: &str) -> (out: Vec<char>)
    ensures
        out@ == s@,
{
    let mut out: Vec<char> = Vec::new();
    let mut it = s.chars();
    let ghost start = it;
    proof {
        vstd::string::axiom_spec_iter(s);
    }
    loop
        invariant
            it.obeys_prophetic_iter_laws(),
            out@ + it.remaining() == s@,
            it.decrease() is Some,
        decreases it.decrease()->0,
    {
        let ghost before = it;
        let next = it.next();
        proof {
            vstd::string::next_postcondition(&before, &it, next);
        }
        match next {
            Some(c) => {
                assert(out@.push(c) + it.remaining() =~= out@ + before.remaining());
                out.push(c);
            },
            None => {
                assert(out@ + before.remaining() =~= out@);
                return out;
            },
        }
    }
}

/// Appends one character to a string.
///
/// Wraps `String::push`, which adds the character at the end and leaves what
/// was there untouched.
#[verifier::external_body]
pub(crate) fn push_char(s: &mut String, c: char)
    ensures
        final(s)@ == old(s)@.push(c),
{
    s.push(c)
}

/// The string made of the characters of `chars`, in order.
pub fn string_of(chars: &Vec<char>) -> (out: String)
    ensures
        out@ == chars@,
{
    let mut out = String::new();
    let mut i: usize = 0;
    while i < chars.len()
        invariant
            i <= chars.len(),
            out@ == chars@.subrange(0, i as int),
        decreases chars.len() - i,
    {
        push_char(&mut out, chars[i]);
        assert(chars@.subrange(0, i as int).push(chars@[i as int]) =~= chars@.subrange(0, i + 1));
        i += 1;
    }
    assert(chars@.subrange(0, chars@.len() as int) =~= chars@);
    out
}

/// The texts of a list of texts, position by position.
pub open spec fn texts_of(list: Seq<Vec<char>>) -> Seq<Seq<char>> {
    Seq::new(list.len(), |i: int| list[i]@)
}

/// Whether `pattern` stands in `text` at `at`.
pub open spec fn occurs_at(text: Seq<char>, pattern: Seq<char>, at: int) -> bool {
    &&& 0 <= at
    &&& at + pattern.len() <= text.len()
    &&& text.subrange(at, at + pattern.len()) == pattern
}

/// The first place at or after `from` where `pattern` stands in `text`, or
/// -1 where it stands nowhere from there on.
pub open spec fn find(text: Seq<char>, pattern: Seq<char>, from: int) -> int
    decreases text.len() + 1 - from,
{
    if from < 0 || from + pattern.len() > text.len() {
        -1
    } else if occurs_at(text, pattern, from) {
        from
    } else {
        find(text, pattern, from + 1)
    }
}

/// The pieces into which the occurrences of `pattern` cut what `text` holds
/// from `from` on. The occurrences are taken from left to right and do not
/// overlap; a text without one is a single piece.
pub open spec fn pieces(text: Seq<char>, pattern: Seq<char>, from: int) -> Seq<Seq<char>>
    decreases text.len() - from,
{
    let at = find(text, pattern, from);
    if 0 <= from <= at && at + pattern.len() <= text.len() && pattern.len() > 0 {
        seq![text.subrange(from, at)] + pieces(text, pattern, at + pattern.len())
    } else if 0 <= from <= text.len() {
        seq![text.subrange(from, text.len() as int)]
    } else {
        seq![Seq::empty()]
    }
}

/// `text` cut at every occurrence of `pattern`.
pub open spec fn split(text: Seq<char>, pattern: Seq<char>) -> Seq<Seq<char>> {
    pieces(text, pattern, 0)
}

/// Whether two texts are the same.
pub fn same_chars(a: &Vec<char>, b: &Vec<char>) -> (same: bool)
    ensures
        same == (a@ == b@),
{
    if a.len() != b.len() {
        return false;
    }
    let mut i: usize = 0;
    while i < a.len()
        invariant
            i <= a.len(),
            a.len() == b.len(),
            forall|j: int| 0 <= j < i ==> a@[j] == b@[j],
        decreases a.len() - i,
    {
        if a[i] != b[i] {
            return false;
        }
        i += 1;
    }
    assert(a@ =~= b@);
    true
}

/// Whether `pattern` stands in `text` at `at`.
fn stands_at(text: &Vec<char>, pattern: &Vec<char>, at: usize) -> (found: bool)
    requires
        at + pattern.len() <= text.len(),
    ensures
        found == occurs_at(text@, pattern@, at as int),
{
    let mut i: usize = 0;
    while i < pattern.len()
        invariant
            i <= pattern.len(),
            at + pattern.len() <= text.len(),
            forall|j: int| 0 <= j < i ==> text@[at + j] == pattern@[j],
        decreases pattern.len() - i,
    {
        if text[at + i] != pattern[i] {
            assert(text@.subrange(at as int, at + pattern.len())[i as int] != pattern@[i as int]);
            return false;
        }
        i += 1;
    }
    assert(text@.subrange(at as int, at + pattern.len()) =~= pattern@);
    true
}

/// The first place at or after `from` where `pattern` stands in `text`.
pub fn find_from(text: &Vec<char>, pattern: &Vec<char>, from: usize) -> (found: Option<usize>)
    ensures
        match found {
            Some(at) => find(text@, pattern@, from as int) == at,
            None => find(text@, pattern@, from as int) == -1,
        },
{
    if from > text.len() || pattern.len() > text.len() - from {
        return None;
    }
    let last: usize = text.len() - pattern.len();
    let mut at: usize = from;
    loop
        invariant
            from <= at <= last,
            last == text.len() - pattern.len(),
            find(text@, pattern@, from as int) == find(text@, pattern@, at as int),
        decreases last - at,
    {
        if stands_at(text, pattern, at) {
            return Some(at);
        }
        if at == last {
            assert(find(text@, pattern@, at + 1) == -1);
            return None;
        }
        at += 1;
    }
}

/// The characters of `text` from `from` up to `to`.
pub fn slice_of(text: &Vec<char>, from: usize, to: usize) -> (out: Vec<char>)
    requires
        from <= to <= text.len(),
    ensures
        out@ == text@.subrange(from as int, to as int),
{
    let mut out: Vec<char> = Vec::new();
    let mut i: usize = from;
    while i < to
        invariant
            from <= i <= to,
            to <= text.len(),
            out@ == text@.subrange(from as int, i as int),
        decreases to - i,
    {
        out.push(text[i]);
        assert(out@ =~= text@.subrange(from as int, i + 1));
        i += 1;
    }
    out
}

/// Cuts `text` at every occurrence of `pattern`.
pub fn split_on(text: &Vec<char>, pattern: &Vec<char>) -> (out: Vec<Vec<char>>)
    ensures
        texts_of(out@) == split(text@, pattern@),
        out@.len() > 0,
{
    let mut out: Vec<Vec<char>> = Vec::new();
    let mut from: usize = 0;
    assert(texts_of(out@) =~= Seq::<Seq<char>>::empty());
    loop
        invariant
            from <= text.len(),
            texts_of(out@) + pieces(text@, pattern@, from as int) == split(text@, pattern@),
        decreases text.len() - from,
    {
        let found = if pattern.len() > 0 {
            find_from(text, pattern, from)
        } else {
            None
        };
        match found {
            Some(at) => {
                proof {
                    lemma_find_in_range(text@, pattern@, from as int);
                }
                let piece = slice_of(text, from, at);
                let ghost before = texts_of(out@);
                out.push(piece);
                assert(texts_of(out@) =~= before.push(text@.subrange(from as int, at as int)));
                assert(texts_of(out@) + pieces(text@, pattern@, at + pattern.len()) =~= before
                    + pieces(text@, pattern@, from as int));
                from = at + pattern.len();
            },
            None => {
                let piece = slice_of(text, from, text.len());
                let ghost before = texts_of(out@);
                out.push(piece);
                assert(texts_of(out@) =~= before.push(
                    text@.subrange(from as int, text@.len() as int),
                ));
                assert(texts_of(out@) =~= before + pieces(text@, pattern@, from as int));
                return out;
            },
        }
    }
}

/// Where `find` finds the pattern, it stands there, at or after the start
/// and within the text.
pub proof fn lemma_find_in_range(text: Seq<char>, pattern: Seq<char>, from: int)
    requires
        find(text, pattern, from) >= 0,
    ensures
        from <= find(text, pattern, from),
        occurs_at(text, pattern, find(text, pattern, from)),
    decreases text.len() + 1 - from,
{
    if from < 0 || from + pattern.len() > text.len() {
    } else if occurs_at(text, pattern, from) {
    } else {
        lemma_find_in_range(text, pattern, from + 1);
    }
}

} // verus!
