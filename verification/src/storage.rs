//! Where the front end keeps its state: the storage keys, and a key-value store held in
//! memory that stands in for the browser's storage off the browser.
use vstd::prelude::*;
use crate::lang::LANGUAGE_STORAGE_KEY;
use crate::language::Language;
use crate::text::{chars_of, string_of};
use crate::text::vec_eq;

verus! {

/// The progress since several languages exist; keys are `<language>/<id>`. It has a key
/// of its own so that an older version, which reads only the legacy key, still works.
pub const PROGRESS_KEY: &'static str = "rust100knocks.progress.v2";

/// The progress of the single-language era, keyed by bare ids. Read, never removed.
pub const LEGACY_PROGRESS_KEY: &'static str = "rust100knocks.progress.v1";

/// The first value stored under `key` in `items`.
pub open spec fn lookup(items: Seq<(Seq<char>, Seq<char>)>, key: Seq<char>) -> Option<Seq<char>>
    decreases items.len(),
{
    if items.len() == 0 {
        None
    } else if items[0].0 == key {
        Some(items[0].1)
    } else {
        lookup(items.drop_first(), key)
    }
}

/// A string key-value store in memory.
#[derive(Debug)]
pub struct MemoryStore {
    items: Vec<(String, String)>,
}

/// The pairs of a store as plain values.
pub open spec fn pairs(items: Seq<(String, String)>) -> Seq<(Seq<char>, Seq<char>)> {
    items.map_values(|p: (String, String)| (p.0@, p.1@))
}

impl View for MemoryStore {
    type V = Map<Seq<char>, Seq<char>>;

    closed spec fn view(&self) -> Map<Seq<char>, Seq<char>> {
        Map::new(
            |k: Seq<char>| lookup(pairs(self.items@), k) is Some,
            |k: Seq<char>| lookup(pairs(self.items@), k)->0,
        )
    }
}

proof fn lemma_lookup_index(items: Seq<(Seq<char>, Seq<char>)>, key: Seq<char>, i: int)
    requires
        0 <= i < items.len(),
        items[i].0 == key,
        forall|j: int| 0 <= j < i ==> items[j].0 != key,
    ensures
        lookup(items, key) == Some(items[i].1),
    decreases i,
{
    if i > 0 {
        lemma_lookup_index(items.drop_first(), key, i - 1);
    }
}

proof fn lemma_lookup_none(items: Seq<(Seq<char>, Seq<char>)>, key: Seq<char>)
    requires
        forall|j: int| 0 <= j < items.len() ==> items[j].0 != key,
    ensures
        lookup(items, key) is None,
    decreases items.len(),
{
    if items.len() > 0 {
        lemma_lookup_none(items.drop_first(), key);
    }
}

proof fn lemma_lookup_update(
    items: Seq<(Seq<char>, Seq<char>)>,
    i: int,
    p: (Seq<char>, Seq<char>),
    key: Seq<char>,
)
    requires
        0 <= i < items.len(),
        items[i].0 == p.0,
        forall|j: int| 0 <= j < i ==> items[j].0 != p.0,
    ensures
        lookup(items.update(i, p), key) == if key == p.0 {
            Some(p.1)
        } else {
            lookup(items, key)
        },
    decreases i,
{
    if i > 0 {
        assert(items.update(i, p).drop_first() =~= items.drop_first().update(i - 1, p));
        lemma_lookup_update(items.drop_first(), i - 1, p, key);
    } else {
        assert(items.update(0, p).drop_first() =~= items.drop_first());
        assert(items.update(0, p)[0] == p);
    }
}

proof fn lemma_lookup_push(items: Seq<(Seq<char>, Seq<char>)>, p: (Seq<char>, Seq<char>), key: Seq<char>)
    requires
        lookup(items, p.0) is None,
    ensures
        lookup(items.push(p), key) == if key == p.0 {
            Some(p.1)
        } else {
            lookup(items, key)
        },
    decreases items.len(),
{
    if items.len() > 0 {
        assert(items.push(p).drop_first() =~= items.drop_first().push(p));
        assert(items.push(p)[0] == items[0]);
        assert(items[0].0 != p.0);
        if items[0].0 != key {
            lemma_lookup_push(items.drop_first(), p, key);
        }
    } else {
        let q = items.push(p);
        assert(q.drop_first() =~= Seq::<(Seq<char>, Seq<char>)>::empty());
        assert(q[0] == p);
        assert(q.len() == 1);
        assert(lookup(q.drop_first(), key) is None);
        assert(lookup(items, key) is None);
        assert(lookup(q, key) == if key == p.0 { Some(p.1) } else { lookup(q.drop_first(), key) });
    }
}

impl MemoryStore {
    /// An empty store.
    pub fn new() -> (s: Self)
        ensures
            s@ == Map::<Seq<char>, Seq<char>>::empty(),
    {
        let s = MemoryStore { items: Vec::new() };
        assert(s@ =~= Map::<Seq<char>, Seq<char>>::empty());
        s
    }

    fn position(&self, key: &Vec<char>) -> (r: Option<usize>)
        ensures
            match r {
                Some(i) => i < self.items@.len() && self.items@[i as int].0@ == key@ && forall|
                    j: int,
                | 0 <= j < i ==> self.items@[j].0@ != key@,
                None => forall|j: int| 0 <= j < self.items@.len() ==> self.items@[j].0@ != key@,
            },
    {
        let mut i: usize = 0;
        while i < self.items.len()
            invariant
                i <= self.items@.len(),
                forall|j: int| 0 <= j < i ==> self.items@[j].0@ != key@,
            decreases self.items.len() - i,
        {
            if vec_eq(&chars_of(self.items[i].0.as_str()), key) {
                return Some(i);
            }
            i += 1;
        }
        None
    }

    /// The value stored under `key`.
    pub fn raw_get(&self, key: &str) -> (r: Option<String>)
        ensures
            match r {
                Some(v) => self@.contains_key(key@) && self@[key@] == v@,
                None => !self@.contains_key(key@),
            },
    {
        let k = chars_of(key);
        let ghost ps = pairs(self.items@);
        match self.position(&k) {
            Some(i) => {
                proof {
                    assert forall|j: int| 0 <= j < i implies ps[j].0 != key@ by {
                        assert(ps[j] == (self.items@[j].0@, self.items@[j].1@));
                    }
                    lemma_lookup_index(ps, key@, i as int);
                }
                Some(string_of(&chars_of(self.items[i].1.as_str())))
            },
            None => {
                proof {
                    assert forall|j: int| 0 <= j < ps.len() implies ps[j].0 != key@ by {
                        assert(ps[j] == (self.items@[j].0@, self.items@[j].1@));
                    }
                    lemma_lookup_none(ps, key@);
                }
                None
            },
        }
    }

    /// Stores `value` under `key`; returns whether it was stored, which in memory it
    /// always is.
    pub fn raw_set(&mut self, key: &str, value: &str) -> (ok: bool)
        ensures
            final(self)@ == old(self)@.insert(key@, value@),
            ok,
    {
        let k = chars_of(key);
        let ghost ps = pairs(self.items@);
        let ghost p = (key@, value@);
        let pair = (string_of(&k), string_of(&chars_of(value)));
        match self.position(&k) {
            Some(i) => {
                proof {
                    assert forall|j: int| 0 <= j < i implies ps[j].0 != key@ by {
                        assert(ps[j] == (self.items@[j].0@, self.items@[j].1@));
                    }
                }
                self.items.set(i, pair);
                proof {
                    assert(pairs(self.items@) =~= ps.update(i as int, p));
                    assert forall|q: Seq<char>| #[trigger] lookup(pairs(self.items@), q) == if q == key@ {
                        Some(value@)
                    } else {
                        lookup(ps, q)
                    } by {
                        lemma_lookup_update(ps, i as int, p, q);
                    }
                }
            },
            None => {
                proof {
                    assert forall|j: int| 0 <= j < ps.len() implies ps[j].0 != key@ by {
                        assert(ps[j] == (self.items@[j].0@, self.items@[j].1@));
                    }
                    lemma_lookup_none(ps, key@);
                }
                self.items.push(pair);
                proof {
                    assert(pairs(self.items@) =~= ps.push(p));
                    assert forall|q: Seq<char>| #[trigger] lookup(pairs(self.items@), q) == if q == key@ {
                        Some(value@)
                    } else {
                        lookup(ps, q)
                    } by {
                        lemma_lookup_push(ps, p, q);
                    }
                }
            },
        }
        proof {
            assert(self@ =~= old(self)@.insert(key@, value@));
        }
        true
    }
}

/// The language selected last time, if one was stored.
pub fn load_language(store: &MemoryStore) -> (r: Option<String>)
    ensures
        match r {
            Some(v) => store@.contains_key(LANGUAGE_STORAGE_KEY@) && store@[LANGUAGE_STORAGE_KEY@]
                == v@,
            None => !store@.contains_key(LANGUAGE_STORAGE_KEY@),
        },
{
    store.raw_get(LANGUAGE_STORAGE_KEY)
}

/// Stores the selected language by its slug.
pub fn save_language(store: &mut MemoryStore, language: Language)
    ensures
        final(store)@ == old(store)@.insert(LANGUAGE_STORAGE_KEY@, language.spec_slug()),
{
    let _ = store.raw_set(LANGUAGE_STORAGE_KEY, language.slug());
}

/// What is saved is what is loaded: after `save_language`, `load_language` gives the
/// slug of that language, whatever the store held before, and no other key changes.
pub proof fn law_language_roundtrip(before: Map<Seq<char>, Seq<char>>, language: Language, k: Seq<char>)
    ensures
        before.insert(LANGUAGE_STORAGE_KEY@, language.spec_slug()).contains_key(LANGUAGE_STORAGE_KEY@),
        before.insert(LANGUAGE_STORAGE_KEY@, language.spec_slug())[LANGUAGE_STORAGE_KEY@]
            == language.spec_slug(),
        k != LANGUAGE_STORAGE_KEY@ ==> before.insert(LANGUAGE_STORAGE_KEY@, language.spec_slug()).contains_key(k)
            == before.contains_key(k),
{
}

} // verus!
