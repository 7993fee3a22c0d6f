//! The response cache: answers already assembled, found again by the
//! canonical form of the request that asked for them.

use crate::entry::{Data, DataView};
use vstd::prelude::*;

verus! {

/// The foreground colour of a request that names none: opaque black.
pub open spec fn default_foreground() -> Seq<char> {
    "#000000ff"@
}

/// The background colour of a request that names none: fully transparent.
pub open spec fn default_background() -> Seq<char> {
    "#00000000"@
}

/// A colour as the request gave it, or the default where it gave none.
pub open spec fn or_default(colour: Option<Seq<char>>, default: Seq<char>) -> Seq<char> {
    match colour {
        Some(c) => c,
        None => default,
    }
}

/// The text of an optional string.
pub open spec fn opt_text(text: Option<String>) -> Option<Seq<char>> {
    match text {
        Some(s) => Some(s@),
        None => None,
    }
}

/// What a cache key stands for: the query and the two colours, none of them
/// absent.
pub ghost struct CacheKeyView {
    pub query: Seq<char>,
    pub foreground: Seq<char>,
    pub background: Seq<char>,
}

/// The key of a request: its query, and its colours with the defaults filled
/// in.
pub open spec fn canonical_key(
    query: Seq<char>,
    foreground: Option<Seq<char>>,
    background: Option<Seq<char>>,
) -> CacheKeyView {
    CacheKeyView {
        query,
        foreground: or_default(foreground, default_foreground()),
        background: or_default(background, default_background()),
    }
}

/// The canonical form of a request. Two requests that differ only in colours
/// left out have the same key.
#[derive(Clone, Debug, PartialEq)]
pub struct CacheKey {
    query: String,
    foreground: String,
    background: String,
}

impl View for CacheKey {
    type V = CacheKeyView;

    closed spec fn view(&self) -> CacheKeyView {
        CacheKeyView {
            query: self.query@,
            foreground: self.foreground@,
            background: self.background@,
        }
    }
}

impl CacheKey {
    pub fn new(query: String, foreground: Option<String>, background: Option<String>) -> (key:
        CacheKey)
        ensures
            key@ == canonical_key(query@, opt_text(foreground), opt_text(background)),
    {
        let foreground = match foreground {
            Some(colour) => colour,
            None => String::from_str("#000000ff"),
        };
        let background = match background {
            Some(colour) => colour,
            None => String::from_str("#00000000"),
        };
        CacheKey { query, foreground, background }
    }

    pub fn query(&self) -> (text: &str)
        ensures
            text@ == self@.query,
    {
        self.query.as_str()
    }

    pub fn foreground(&self) -> (text: &str)
        ensures
            text@ == self@.foreground,
    {
        self.foreground.as_str()
    }

    pub fn background(&self) -> (text: &str)
        ensures
            text@ == self@.background,
    {
        self.background.as_str()
    }

    /// Whether two keys stand for the same request.
    pub fn same(&self, other: &CacheKey) -> (equal: bool)
        ensures
            equal == (self@ == other@),
    {
        self.query == other.query && self.foreground == other.foreground && self.background
            == other.background
    }

    pub fn duplicate(&self) -> (out: CacheKey)
        ensures
            out@ == self@,
    {
        CacheKey {
            query: self.query.clone(),
            foreground: self.foreground.clone(),
            background: self.background.clone(),
        }
    }
}

/// A request that leaves its colours out has the key of the request that
/// names the default colours.
pub proof fn absent_colours_are_defaults(query: Seq<char>)
    ensures
        canonical_key(query, None, None) == canonical_key(
            query,
            Some(default_foreground()),
            Some(default_background()),
        ),
{
}

/// One stored answer with its key.
pub struct Slot {
    key: CacheKey,
    data: Data,
}

/// The cache. It never forgets and never holds two answers for one key.
pub struct ResponseCache {
    slots: Vec<Slot>,
}

/// The keys of a sequence of slots, position by position.
pub closed spec fn slot_keys(slots: Seq<Slot>) -> Seq<CacheKeyView> {
    Seq::new(slots.len(), |i: int| slots[i].key@)
}

/// The position of `key` among `keys`, where it occurs.
pub open spec fn position_of(keys: Seq<CacheKeyView>, key: CacheKeyView) -> int {
    choose|i: int| 0 <= i < keys.len() && keys[i] == key
}

/// No key occurs twice.
pub open spec fn distinct(keys: Seq<CacheKeyView>) -> bool {
    forall|i: int, j: int| 0 <= i < j < keys.len() ==> keys[i] != keys[j]
}

/// A key that occurs among distinct keys occurs there once.
proof fn lemma_one_occurrence(keys: Seq<CacheKeyView>, key: CacheKeyView)
    requires
        distinct(keys),
        keys.contains(key),
    ensures
        keys.filter(|k: CacheKeyView| k == key).len() == 1,
    decreases keys.len(),
{
    let same = |k: CacheKeyView| k == key;
    reveal(Seq::filter);
    let rest = keys.drop_last();
    assert(distinct(rest)) by {
        assert forall|i: int, j: int| 0 <= i < j < rest.len() implies rest[i] != rest[j] by {
            assert(rest[i] == keys[i] && rest[j] == keys[j]);
        }
    }
    if keys.last() == key {
        assert(!rest.contains(key)) by {
            if rest.contains(key) {
                let i = choose|i: int| 0 <= i < rest.len() && rest[i] == key;
                assert(keys[i] == key);
            }
        }
        lemma_no_occurrence(rest, key);
    } else {
        let i = choose|i: int| 0 <= i < keys.len() && keys[i] == key;
        assert(rest[i] == key);
        lemma_one_occurrence(rest, key);
    }
}

/// A key that does not occur among the keys is filtered out of them
/// altogether.
proof fn lemma_no_occurrence(keys: Seq<CacheKeyView>, key: CacheKeyView)
    requires
        !keys.contains(key),
    ensures
        keys.filter(|k: CacheKeyView| k == key).len() == 0,
    decreases keys.len(),
{
    reveal(Seq::filter);
    if keys.len() > 0 {
        let rest = keys.drop_last();
        assert(keys[keys.len() - 1] != key);
        assert(!rest.contains(key)) by {
            if rest.contains(key) {
                let i = choose|i: int| 0 <= i < rest.len() && rest[i] == key;
                assert(keys[i] == key);
            }
        }
        lemma_no_occurrence(rest, key);
    }
}

impl ResponseCache {
    /// The keys held, in the order in which they first came.
    pub closed spec fn keys(&self) -> Seq<CacheKeyView> {
        slot_keys(self.slots@)
    }

    /// The answers held, each at the position of its key.
    pub closed spec fn answers(&self) -> Seq<DataView> {
        Seq::new(self.slots@.len(), |i: int| self.slots@[i].data@)
    }

    /// Each key is held once, with one answer.
    pub open spec fn wf(&self) -> bool {
        &&& distinct(self.keys())
        &&& self.answers().len() == self.keys().len()
    }

    pub fn new() -> (cache: ResponseCache)
        ensures
            cache.wf(),
            cache@ == Map::<CacheKeyView, DataView>::empty(),
            cache.keys().len() == 0,
    {
        let cache = ResponseCache { slots: Vec::new() };
        assert(cache@ =~= Map::<CacheKeyView, DataView>::empty());
        cache
    }

    /// The number of answers held.
    pub fn len(&self) -> (n: usize)
        requires
            self.wf(),
        ensures
            n == self.keys().len(),
    {
        self.slots.len()
    }

    fn find(&self, key: &CacheKey) -> (found: Option<usize>)
        requires
            self.wf(),
        ensures
            match found {
                Some(i) => i < self.keys().len() && self.keys()[i as int] == key@,
                None => !self.keys().contains(key@),
            },
    {
        let mut i: usize = 0;
        while i < self.slots.len()
            invariant
                i <= self.slots.len(),
                forall|j: int| 0 <= j < i ==> self.keys()[j] != key@,
                self.keys().len() == self.slots.len(),
            decreases self.slots.len() - i,
        {
            if self.slots[i].key.same(key) {
                return Some(i);
            }
            i += 1;
        }
        None
    }

    /// Looks `key` up and returns a copy of its answer, if there is one. The
    /// cache is left as it was.
    pub fn get(&self, key: &CacheKey) -> (found: Option<Data>)
        requires
            self.wf(),
        ensures
            match found {
                Some(data) => self@.contains_key(key@) && data@ == self@[key@],
                None => !self@.contains_key(key@),
            },
    {
        match self.find(key) {
            Some(i) => {
                proof {
                    self.lemma_lookup(i as int);
                }
                Some(self.slots[i].data.duplicate())
            },
            None => None,
        }
    }

    /// Stores `data` under `key`. An answer already held under that key is
    /// replaced; every other key keeps its answer.
    pub fn put(&mut self, key: CacheKey, data: Data)
        requires
            old(self).wf(),
        ensures
            final(self).wf(),
            final(self)@ == old(self)@.insert(key@, data@),
            old(self)@.contains_key(key@) ==> final(self).keys() == old(self).keys(),
            !old(self)@.contains_key(key@) ==> final(self).keys() == old(self).keys().push(key@),
    {
        let ghost before = *self;
        match self.find(&key) {
            Some(i) => {
                let slot = Slot { key, data };
                self.slots.set(i, slot);
                assert(self.keys() =~= before.keys());
                assert(self.answers() =~= before.answers().update(i as int, data@));
                assert(self@ =~= before@.insert(key@, data@)) by {
                    assert forall|k: CacheKeyView| self@.contains_key(k) implies #[trigger] self@[k]
                        == before@.insert(key@, data@)[k] by {
                        let p = position_of(self.keys(), k);
                        if k == key@ {
                            assert(p == i);
                        }
                    }
                }
            },
            None => {
                let slot = Slot { key, data };
                self.slots.push(slot);
                assert(self.keys() =~= before.keys().push(key@));
                assert(self.answers() =~= before.answers().push(data@));
                let ghost last = before.keys().len() as int;
                assert(self.keys()[last] == key@);
                assert(self@ =~= before@.insert(key@, data@)) by {
                    assert forall|k: CacheKeyView| self@.contains_key(k) implies #[trigger] self@[k]
                        == before@.insert(key@, data@)[k] by {
                        let p = position_of(self.keys(), k);
                        if k == key@ {
                            assert(p == last);
                        } else {
                            assert(p < last);
                            assert(before.keys()[p] == k);
                            let q = position_of(before.keys(), k);
                            assert(self.keys()[q] == k);
                            assert(p == q);
                        }
                    }
                    assert forall|k: CacheKeyView|
                        before@.insert(key@, data@).contains_key(k) implies self@.contains_key(
                        k,
                    ) by {
                        if k == key@ {
                            assert(self.keys()[last] == k);
                        } else {
                            let q = position_of(before.keys(), k);
                            assert(self.keys()[q] == k);
                        }
                    }
                }
            },
        }
    }

    /// The cache holds an answer for a key exactly when the key is among
    /// its keys, and no key is among them twice: there is one answer for each
    /// key that was ever written, and none for any other.
    pub proof fn one_answer_for_each_key(&self, key: CacheKeyView)
        requires
            self.wf(),
        ensures
            self@.contains_key(key) <==> self.keys().contains(key),
            self@.contains_key(key) ==> self.keys().filter(|k: CacheKeyView| k == key).len() == 1,
    {
        if self.keys().contains(key) {
            lemma_one_occurrence(self.keys(), key);
        }
    }

    /// The answer at the position of a key is the one that the cache maps
    /// the key to.
    proof fn lemma_lookup(&self, i: int)
        requires
            self.wf(),
            0 <= i < self.keys().len(),
        ensures
            self@.contains_key(self.keys()[i]),
            self@[self.keys()[i]] == self.answers()[i],
    {
        let p = position_of(self.keys(), self.keys()[i]);
        assert(p == i);
    }
}

impl View for ResponseCache {
    type V = Map<CacheKeyView, DataView>;

    /// The cache as a map from keys to answers.
    closed spec fn view(&self) -> Map<CacheKeyView, DataView> {
        Map::new(
            |k: CacheKeyView| self.keys().contains(k),
            |k: CacheKeyView| self.answers()[position_of(self.keys(), k)],
        )
    }
}

} // verus!
