//! Finds the token among the cookies that the handshake sets.

use crate::text::{chars_of, same_chars, split, split_on, string_of, texts_of};
use vstd::prelude::*;

verus! {

/// The name of the cookie that carries the token.
pub open spec fn token_name() -> Seq<char> {
    "sy2.pub.token"@
}

/// The first result that `f` gives on the items in turn.
pub open spec fn first_some<A, B>(items: Seq<A>, f: spec_fn(A) -> Option<B>) -> Option<B>
    decreases items.len(),
{
    if items.len() == 0 {
        None
    } else if f(items[0]) is Some {
        f(items[0])
    } else {
        first_some(items.drop_first(), f)
    }
}

/// Where `f` gives nothing before `i`, the first result is that on `i` if it
/// gives one there, and there is none if `i` is the end.
pub proof fn lemma_first_some<A, B>(items: Seq<A>, f: spec_fn(A) -> Option<B>, i: int)
    requires
        0 <= i <= items.len(),
        forall|j: int| 0 <= j < i ==> f(#[trigger] items[j]) is None,
        i < items.len() ==> f(items[i]) is Some,
    ensures
        first_some(items, f) == if i < items.len() {
            f(items[i])
        } else {
            None::<B>
        },
    decreases i,
{
    if items.len() == 0 {
    } else if i == 0 {
    } else {
        let rest = items.drop_first();
        assert(f(items[0]) is None);
        assert forall|j: int| 0 <= j < i - 1 implies f(#[trigger] rest[j]) is None by {
            assert(rest[j] == items[j + 1]);
        }
        lemma_first_some(rest, f, i - 1);
    }
}

/// What stands before the first `=` of a piece: the piece itself where it
/// has none.
pub open spec fn name_of(piece: Seq<char>) -> Seq<char> {
    split(piece, seq!['='])[0]
}

/// What stands between the first `=` of a piece and the next, or its end;
/// nothing where the piece has no `=`.
pub open spec fn value_of(piece: Seq<char>) -> Option<Seq<char>> {
    let parts = split(piece, seq!['=']);
    if parts.len() > 1 {
        Some(parts[1])
    } else {
        None
    }
}

/// The piece itself if it is named as the token is.
pub open spec fn named_as_token(piece: Seq<char>) -> Option<Seq<char>> {
    if name_of(piece) == token_name() {
        Some(piece)
    } else {
        None
    }
}

/// The first of the pieces between `", "` in `pair` that is named as the
/// token is.
pub open spec fn token_piece_in(pair: Seq<char>) -> Option<Seq<char>> {
    first_some(split(pair, seq![',', ' ']), |piece: Seq<char>| named_as_token(piece))
}

/// The token that one header carries. The header is cut at `"; "` and each
/// part at `", "`; the first piece named as the token is decides, and gives
/// its value.
pub open spec fn header_token(header: Seq<char>) -> Option<Seq<char>> {
    match first_some(split(header, seq![';', ' ']), |pair: Seq<char>| token_piece_in(pair)) {
        Some(piece) => value_of(piece),
        None => None,
    }
}

/// The token of the first header that carries one.
pub open spec fn first_token(headers: Seq<Seq<char>>) -> Option<Seq<char>> {
    first_some(headers, |header: Seq<char>| header_token(header))
}

/// The texts of a list of strings, position by position.
pub open spec fn header_texts(headers: Seq<String>) -> Seq<Seq<char>> {
    Seq::new(headers.len(), |i: int| headers[i]@)
}

fn single(c: char) -> (out: Vec<char>)
    ensures
        out@ == seq![c],
{
    let mut out: Vec<char> = Vec::new();
    out.push(c);
    assert(out@ =~= seq![c]);
    out
}

fn pair(a: char, b: char) -> (out: Vec<char>)
    ensures
        out@ == seq![a, b],
{
    let mut out: Vec<char> = Vec::new();
    out.push(a);
    out.push(b);
    assert(out@ =~= seq![a, b]);
    out
}

/// Whether a piece is named as the token is.
fn is_token_piece(piece: &Vec<char>, name: &Vec<char>) -> (found: bool)
    requires
        name@ == token_name(),
    ensures
        found == (named_as_token(piece@) is Some),
{
    let parts = split_on(piece, &single('='));
    assert(texts_of(parts@)[0] == parts@[0]@);
    same_chars(&parts[0], name)
}

/// The first piece of `pair` that is named as the token is.
fn find_token_piece(pair_text: &Vec<char>, name: &Vec<char>) -> (found: Option<Vec<char>>)
    requires
        name@ == token_name(),
    ensures
        match found {
            Some(piece) => token_piece_in(pair_text@) == Some(piece@),
            None => token_piece_in(pair_text@) is None,
        },
{
    let parts = split_on(pair_text, &pair(',', ' '));
    let ghost f = |piece: Seq<char>| named_as_token(piece);
    let mut i: usize = 0;
    while i < parts.len()
        invariant
            i <= parts.len(),
            name@ == token_name(),
            texts_of(parts@) == split(pair_text@, seq![',', ' ']),
            f == |piece: Seq<char>| named_as_token(piece),
            forall|j: int| 0 <= j < i ==> f(#[trigger] texts_of(parts@)[j]) is None,
        decreases parts.len() - i,
    {
        assert(texts_of(parts@)[i as int] == parts@[i as int]@);
        if is_token_piece(&parts[i], name) {
            proof {
                lemma_first_some(texts_of(parts@), f, i as int);
            }
            return Some(crate::text::slice_of(&parts[i], 0, parts[i].len()));
        }
        i += 1;
    }
    proof {
        lemma_first_some(texts_of(parts@), f, parts@.len() as int);
    }
    None
}

/// The value of a piece.
fn piece_value(piece: &Vec<char>) -> (value: Option<Vec<char>>)
    ensures
        match value {
            Some(v) => value_of(piece@) == Some(v@),
            None => value_of(piece@) is None,
        },
{
    let parts = split_on(piece, &single('='));
    if parts.len() > 1 {
        assert(texts_of(parts@)[1] == parts@[1]@);
        Some(crate::text::slice_of(&parts[1], 0, parts[1].len()))
    } else {
        None
    }
}

/// The token that one header carries.
pub fn token_in_header(header: &str) -> (token: Option<String>)
    ensures
        match token {
            Some(t) => header_token(header@) == Some(t@),
            None => header_token(header@) is None,
        },
{
    let name = chars_of("sy2.pub.token");
    let text = chars_of(header);
    let parts = split_on(&text, &pair(';', ' '));
    let ghost f = |pair: Seq<char>| token_piece_in(pair);
    let mut i: usize = 0;
    while i < parts.len()
        invariant
            i <= parts.len(),
            name@ == token_name(),
            text@ == header@,
            texts_of(parts@) == split(text@, seq![';', ' ']),
            f == |pair: Seq<char>| token_piece_in(pair),
            forall|j: int| 0 <= j < i ==> f(#[trigger] texts_of(parts@)[j]) is None,
        decreases parts.len() - i,
    {
        assert(texts_of(parts@)[i as int] == parts@[i as int]@);
        match find_token_piece(&parts[i], &name) {
            Some(piece) => {
                proof {
                    lemma_first_some(texts_of(parts@), f, i as int);
                }
                return match piece_value(&piece) {
                    Some(value) => Some(string_of(&value)),
                    None => None,
                };
            },
            None => {},
        }
        i += 1;
    }
    proof {
        lemma_first_some(texts_of(parts@), f, parts@.len() as int);
    }
    None
}

/// The token that the handshake's answer carries: that of the first of its
/// `set-cookie` headers that carries one. Without one the handshake has
/// failed.
pub fn extract_token(headers: &Vec<String>) -> (token: Option<String>)
    ensures
        match token {
            Some(t) => first_token(header_texts(headers@)) == Some(t@),
            None => first_token(header_texts(headers@)) is None,
        },
{
    let ghost f = |header: Seq<char>| header_token(header);
    let mut i: usize = 0;
    while i < headers.len()
        invariant
            i <= headers.len(),
            f == |header: Seq<char>| header_token(header),
            forall|j: int| 0 <= j < i ==> f(#[trigger] header_texts(headers@)[j]) is None,
        decreases headers.len() - i,
    {
        assert(header_texts(headers@)[i as int] == headers@[i as int]@);
        match token_in_header(headers[i].as_str()) {
            Some(t) => {
                proof {
                    lemma_first_some(header_texts(headers@), f, i as int);
                }
                return Some(t);
            },
            None => {},
        }
        i += 1;
    }
    proof {
        lemma_first_some(header_texts(headers@), f, headers@.len() as int);
    }
    None
}

} // verus!
