//! Per-problem progress: status, saved drafts, and the map that holds them.
use vstd::prelude::*;
use crate::language::{Language, lemma_slug_has_no_slash, lemma_slug_injective};
use crate::problem::Problem;
use crate::text::{
    chars_of, contains, contains_exec, lowercase, push_str, string_of, to_lowercase, trim,
    trim_exec,
};
use crate::text::vec_eq;

verus! {

broadcast use vstd::seq_lib::group_seq_properties;

/// How far a user got with a problem.
#[derive(Clone, Copy, Debug, PartialEq, Eq, Structural)]
pub enum ProblemStatus {
    /// Never judged.
    Unanswered,
    /// Judged, not passed yet.
    Attempted,
    /// Passed.
    Passed,
}

/// The stored progress of one problem.
#[derive(Clone, Debug)]
pub struct ProgressEntry {
    pub status: ProblemStatus,
    /// Draft code; None shows the starter code.
    pub saved_code: Option<String>,
    /// When the entry last changed, in milliseconds since the epoch.
    pub updated_at_ms: u64,
}

impl ProgressEntry {
    /// An entry for a problem nobody touched.
    pub fn empty() -> (e: Self)
        ensures
            e.status == ProblemStatus::Unanswered,
            e.saved_code is None,
            e.updated_at_ms == 0,
    {
        ProgressEntry { status: ProblemStatus::Unanswered, saved_code: None, updated_at_ms: 0 }
    }
}

/// The keys of a list of entries.
pub open spec fn entry_keys(es: Seq<(String, ProgressEntry)>) -> Seq<Seq<char>> {
    es.map_values(|e: (String, ProgressEntry)| e.0@)
}

/// The map a duplicate-free list of entries stands for.
pub open spec fn entries_map(es: Seq<(String, ProgressEntry)>) -> Map<Seq<char>, ProgressEntry> {
    Map::new(
        |k: Seq<char>| entry_keys(es).contains(k),
        |k: Seq<char>| es[entry_keys(es).index_of(k)].1,
    )
}

proof fn lemma_entries_map_at(es: Seq<(String, ProgressEntry)>, i: int)
    requires
        entry_keys(es).no_duplicates(),
        0 <= i < es.len(),
    ensures
        entries_map(es).contains_key(es[i].0@),
        entries_map(es)[es[i].0@] == es[i].1,
{
    let ks = entry_keys(es);
    assert(ks[i] == es[i].0@);
    assert(ks.contains(es[i].0@));
    let j = ks.index_of(es[i].0@);
    assert(ks[j] == ks[i]);
}

proof fn lemma_entries_map_push(es: Seq<(String, ProgressEntry)>, x: (String, ProgressEntry))
    requires
        entry_keys(es).no_duplicates(),
        !entry_keys(es).contains(x.0@),
    ensures
        entry_keys(es.push(x)).no_duplicates(),
        entries_map(es.push(x)) == entries_map(es).insert(x.0@, x.1),
{
    let n = es.push(x);
    assert(entry_keys(n) =~= entry_keys(es).push(x.0@));
    assert forall|a: int, b: int| 0 <= a < b < entry_keys(n).len() implies entry_keys(n)[a]
        != entry_keys(n)[b] by {
        if b == es.len() {
            assert(entry_keys(es)[a] == entry_keys(n)[a]);
        }
    }
    assert forall|i: int| 0 <= i < n.len() implies entries_map(n).contains_key(n[i].0@)
        && entries_map(n)[n[i].0@] == n[i].1 by {
        lemma_entries_map_at(n, i);
    }
    assert forall|i: int| 0 <= i < es.len() implies entries_map(es)[es[i].0@] == es[i].1 by {
        lemma_entries_map_at(es, i);
    }
    assert forall|k: Seq<char>| #[trigger] entries_map(n).contains_key(k) implies entries_map(
        es,
    ).insert(x.0@, x.1).contains_key(k) && entries_map(n)[k] == entries_map(es).insert(
        x.0@,
        x.1,
    )[k] by {
        assert(entry_keys(n).contains(k));
        let i = entry_keys(n).index_of(k);
        assert(entry_keys(n)[i] == k);
        assert(n[i].0@ == k);
        lemma_entries_map_at(n, i);
        if i < es.len() {
            assert(es[i] == n[i]);
            lemma_entries_map_at(es, i);
        }
    }
    assert(entries_map(n) =~= entries_map(es).insert(x.0@, x.1));
}

proof fn lemma_entries_map_update(es: Seq<(String, ProgressEntry)>, i: int, x: (String, ProgressEntry))
    requires
        entry_keys(es).no_duplicates(),
        0 <= i < es.len(),
        es[i].0@ == x.0@,
    ensures
        entry_keys(es.update(i, x)).no_duplicates(),
        entries_map(es.update(i, x)) == entries_map(es).insert(x.0@, x.1),
{
    let n = es.update(i, x);
    assert(entry_keys(n) =~= entry_keys(es));
    assert forall|j: int| 0 <= j < n.len() implies entries_map(n).contains_key(n[j].0@)
        && entries_map(n)[n[j].0@] == n[j].1 by {
        lemma_entries_map_at(n, j);
    }
    assert forall|j: int| 0 <= j < es.len() implies entries_map(es)[es[j].0@] == es[j].1 by {
        lemma_entries_map_at(es, j);
    }
    assert forall|k: Seq<char>| #[trigger] entries_map(n).contains_key(k) implies entries_map(
        es,
    ).insert(x.0@, x.1).contains_key(k) && entries_map(n)[k] == entries_map(es).insert(
        x.0@,
        x.1,
    )[k] by {
        assert(entry_keys(n).contains(k));
        let j = entry_keys(n).index_of(k);
        assert(entry_keys(n)[j] == k);
        assert(n[j].0@ == k);
        lemma_entries_map_at(n, j);
        if j != i {
            assert(es[j] == n[j]);
            assert(entry_keys(es)[j] != entry_keys(es)[i]);
            lemma_entries_map_at(es, j);
        }
    }
    assert forall|k: Seq<char>| #[trigger] entries_map(es).insert(x.0@, x.1).contains_key(k)
        implies entries_map(n).contains_key(k) by {
        if k != x.0@ {
            assert(entry_keys(es).contains(k));
            let j = entry_keys(es).index_of(k);
            assert(entry_keys(es)[j] == k);
            assert(es[j].0@ == k);
            assert(entry_keys(n)[j] == k);
        } else {
            assert(entry_keys(n)[i] == k);
        }
        assert(entry_keys(n).contains(k));
    }
    assert(entries_map(n) =~= entries_map(es).insert(x.0@, x.1));
}

proof fn lemma_entries_map_len(es: Seq<(String, ProgressEntry)>)
    requires
        entry_keys(es).no_duplicates(),
    ensures
        entries_map(es).dom().finite(),
        entries_map(es).dom().len() == es.len(),
{
    entry_keys(es).unique_seq_to_set();
    assert(entries_map(es).dom() =~= entry_keys(es).to_set());
}

/// Progress of many problems, keyed by `progress_key`.
#[derive(Debug)]
pub struct ProgressMap {
    entries: Vec<(String, ProgressEntry)>,
}

impl View for ProgressMap {
    type V = Map<Seq<char>, ProgressEntry>;

    closed spec fn view(&self) -> Map<Seq<char>, ProgressEntry> {
        entries_map(self.entries@)
    }
}

impl ProgressMap {
    #[verifier::type_invariant]
    spec fn well_formed(self) -> bool {
        entry_keys(self.entries@).no_duplicates()
    }

    /// An empty map.
    pub fn new() -> (m: Self)
        ensures
            m@ == Map::<Seq<char>, ProgressEntry>::empty(),
    {
        let m = ProgressMap { entries: Vec::new() };
        assert(m@ =~= Map::<Seq<char>, ProgressEntry>::empty());
        m
    }

    /// The entry stored under `key`.
    pub fn get(&self, key: &str) -> (r: Option<&ProgressEntry>)
        ensures
            match r {
                Some(e) => self@.contains_key(key@) && self@[key@] == *e,
                None => !self@.contains_key(key@),
            },
    {
        proof {
            use_type_invariant(self);
        }
        let k = chars_of(key);
        match self_find(&self.entries, &k) {
            Some(i) => {
                proof {
                    lemma_entries_map_at(self.entries@, i as int);
                }
                Some(&self.entries[i].1)
            },
            None => None,
        }
    }

    /// Whether an entry is stored under `key`.
    pub fn contains_key(&self, key: &str) -> (b: bool)
        ensures
            b == self@.contains_key(key@),
    {
        match self.get(key) {
            Some(_) => true,
            None => false,
        }
    }

    /// Number of entries.
    pub fn len(&self) -> (n: usize)
        ensures
            n == self@.dom().len(),
    {
        proof {
            use_type_invariant(self);
            lemma_entries_map_len(self.entries@);
        }
        self.entries.len()
    }

    /// Stores `value` under `key`, returning what was stored there before.
    pub fn insert(&mut self, key: String, value: ProgressEntry) -> (r: Option<ProgressEntry>)
        ensures
            final(self)@ == old(self)@.insert(key@, value),
            match r {
                Some(e) => old(self)@.contains_key(key@) && old(self)@[key@] == e,
                None => !old(self)@.contains_key(key@),
            },
    {
        proof {
            use_type_invariant(&*self);
        }
        let k = chars_of(key.as_str());
        let mut es: Vec<(String, ProgressEntry)> = Vec::new();
        std::mem::swap(&mut es, &mut self.entries);
        let ghost old_es = es@;
        match self_find(&es, &k) {
            Some(i) => {
                proof {
                    lemma_entries_map_at(old_es, i as int);
                }
                let (_, prev) = es.remove(i);
                let ghost kv = (key, value);
                es.insert(i, (key, value));
                proof {
                    assert(es@ =~= old_es.update(i as int, kv));
                    lemma_entries_map_update(old_es, i as int, kv);
                }
                self.entries = es;
                Some(prev)
            },
            None => {
                let ghost kv = (key, value);
                es.push((key, value));
                proof {
                    lemma_entries_map_push(old_es, kv);
                }
                self.entries = es;
                None
            },
        }
    }
}

fn self_find(es: &Vec<(String, ProgressEntry)>, key: &Vec<char>) -> (r: Option<usize>)
    ensures
        match r {
            Some(i) => i < es@.len() && es@[i as int].0@ == key@,
            None => !entry_keys(es@).contains(key@),
        },
{
    let mut i: usize = 0;
    while i < es.len()
        invariant
            i <= es.len(),
            forall|j: int| 0 <= j < i ==> es@[j].0@ != key@,
        decreases es.len() - i,
    {
        let k = chars_of(es[i].0.as_str());
        if vec_eq(&k, key) {
            return Some(i);
        }
        i += 1;
    }
    assert forall|j: int| 0 <= j < entry_keys(es@).len() implies entry_keys(es@)[j] != key@ by {
        assert(entry_keys(es@)[j] == es@[j].0@);
    }
    None
}

proof fn lemma_entries_map_prepend(x: (String, ProgressEntry), es: Seq<(String, ProgressEntry)>)
    requires
        entry_keys(seq![x] + es).no_duplicates(),
    ensures
        entry_keys(es).no_duplicates(),
        !entry_keys(es).contains(x.0@),
        entries_map(seq![x] + es) == entries_map(es).insert(x.0@, x.1),
{
    let n = seq![x] + es;
    assert(entry_keys(n) =~= seq![x.0@] + entry_keys(es));
    assert forall|a: int, b: int| 0 <= a < b < entry_keys(es).len() implies entry_keys(es)[a]
        != entry_keys(es)[b] by {
        assert(entry_keys(n)[a + 1] == entry_keys(es)[a]);
        assert(entry_keys(n)[b + 1] == entry_keys(es)[b]);
    }
    assert forall|a: int| 0 <= a < entry_keys(es).len() implies entry_keys(es)[a] != x.0@ by {
        assert(entry_keys(n)[a + 1] == entry_keys(es)[a]);
        assert(entry_keys(n)[0] == x.0@);
    }
    assert forall|k: Seq<char>| #[trigger] entries_map(n).contains_key(k) implies entries_map(
        es,
    ).insert(x.0@, x.1).contains_key(k) && entries_map(n)[k] == entries_map(es).insert(
        x.0@,
        x.1,
    )[k] by {
        assert(entry_keys(n).contains(k));
        let i = entry_keys(n).index_of(k);
        assert(entry_keys(n)[i] == k);
        lemma_entries_map_at(n, i);
        if i > 0 {
            assert(n[i] == es[i - 1]);
            lemma_entries_map_at(es, i - 1);
        }
    }
    assert forall|k: Seq<char>| #[trigger] entries_map(es).insert(x.0@, x.1).contains_key(k)
        implies entries_map(n).contains_key(k) by {
        if k != x.0@ {
            assert(entry_keys(es).contains(k));
            let j = entry_keys(es).index_of(k);
            assert(entry_keys(es)[j] == k);
            assert(entry_keys(n)[j + 1] == k);
        } else {
            assert(entry_keys(n)[0] == k);
        }
        assert(entry_keys(n).contains(k));
    }
    assert(entries_map(n) =~= entries_map(es).insert(x.0@, x.1));
}

impl ProgressMap {
    /// The entries, each key once, in no particular order.
    pub fn entries(&self) -> (r: &[(String, ProgressEntry)])
        ensures
            entry_keys(r@).no_duplicates(),
            entries_map(r@) == self@,
    {
        proof {
            use_type_invariant(self);
        }
        self.entries.as_slice()
    }

    /// The entries, each key once, in no particular order.
    pub fn into_entries(self) -> (r: Vec<(String, ProgressEntry)>)
        ensures
            entry_keys(r@).no_duplicates(),
            entries_map(r@) == self@,
    {
        proof {
            use_type_invariant(&self);
        }
        self.entries
    }
}

/// The progress read at start: `current`, with each entry of `legacy` taken in where
/// `current` holds nothing under its key or holds an older entry (the newer one wins,
/// so that nothing learned while an older version was in use is lost).
pub open spec fn spec_merge_progress(
    current: Map<Seq<char>, ProgressEntry>,
    legacy: Map<Seq<char>, ProgressEntry>,
) -> Map<Seq<char>, ProgressEntry> {
    Map::new(
        |k: Seq<char>| current.contains_key(k) || legacy.contains_key(k),
        |k: Seq<char>|
            if legacy.contains_key(k) && !(current.contains_key(k) && current[k].updated_at_ms
                >= legacy[k].updated_at_ms) {
                legacy[k]
            } else {
                current[k]
            },
    )
}

/// Takes the entries of `legacy` into `map` (see `spec_merge_progress`).
pub fn merge_progress(map: &mut ProgressMap, legacy: ProgressMap)
    ensures
        final(map)@ == spec_merge_progress(old(map)@, legacy@),
{
    let mut es = legacy.into_entries();
    let ghost e = es@;
    let ghost start = map@;
    proof {
        assert(e.skip(e.len() as int) =~= Seq::<(String, ProgressEntry)>::empty());
        assert(spec_merge_progress(start, entries_map(e.skip(e.len() as int))) =~= start);
    }
    while es.len() > 0
        invariant
            entry_keys(e).no_duplicates(),
            es.len() <= e.len(),
            es@ == e.take(es.len() as int),
            map@ == spec_merge_progress(start, entries_map(e.skip(es.len() as int))),
        decreases es.len(),
    {
        let x = es.pop().unwrap();
        let ghost n = es.len() as int;
        let ghost d = entries_map(e.skip(n + 1));
        proof {
            assert(e.skip(n) =~= seq![x] + e.skip(n + 1));
            assert(entry_keys(e.skip(n)) =~= entry_keys(e).skip(n));
            lemma_entries_map_prepend(x, e.skip(n + 1));
            assert(es@ =~= e.take(n));
        }
        let ghost m = map@;
        let keep_current = match map.get(x.0.as_str()) {
            Some(existing) => existing.updated_at_ms >= x.1.updated_at_ms,
            None => false,
        };
        if keep_current {
            proof {
                assert(spec_merge_progress(start, d.insert(x.0@, x.1)) =~= m);
            }
        } else {
            let ghost xx = x;
            let _ = map.insert(x.0, x.1);
            proof {
                assert(spec_merge_progress(start, d.insert(xx.0@, xx.1)) =~= m.insert(xx.0@, xx.1));
            }
        }
    }
    proof {
        assert(e.skip(0) =~= e);
    }
}

/// The newer of two entries of one problem; the first wins a tie.
pub open spec fn newer(a: ProgressEntry, b: ProgressEntry) -> ProgressEntry {
    if a.updated_at_ms >= b.updated_at_ms {
        a
    } else {
        b
    }
}

/// The progress read at start from what is stored under the current key and under the
/// key of the single-language era: both migrated to `<language>/<id>` keys, then merged
/// so that on a collision the newer entry wins; and whether either held bare ids (and
/// so the result needs saving).
pub fn load_migrated(current: ProgressMap, legacy: ProgressMap) -> (r: (ProgressMap, bool))
    ensures
        r.0@ == spec_merge_progress(spec_migrate(current@), spec_migrate(legacy@)),
        r.1 == (legacy_entries(current@).dom().len() > 0 || legacy_entries(legacy@).dom().len()
            > 0),
{
    let mut map = current;
    let moved_current = migrate_legacy_keys(&mut map);
    let mut old = legacy;
    let moved_legacy = migrate_legacy_keys(&mut old);
    merge_progress(&mut map, old);
    (map, moved_current > 0 || moved_legacy > 0)
}

/// Nothing stored in the single-language era is lost at start: each of its bare-id
/// entries ends up under `rust/<id>`, where it meets what the current progress holds for
/// that problem (under `rust/<id>`, or else under the bare id) and the newer entry wins;
/// and no bare id is left.
pub proof fn law_legacy_progress_survives(
    current: Map<Seq<char>, ProgressEntry>,
    legacy: Map<Seq<char>, ProgressEntry>,
    k: Seq<char>,
)
    requires
        legacy.contains_key(k),
        is_legacy_key(k),
    ensures
        spec_merge_progress(spec_migrate(current), spec_migrate(legacy)).contains_key(
            legacy_namespace() + k,
        ),
        !legacy.contains_key(legacy_namespace() + k) && current.contains_key(legacy_namespace() + k)
            ==> spec_merge_progress(spec_migrate(current), spec_migrate(legacy))[legacy_namespace()
            + k] == newer(current[legacy_namespace() + k], legacy[k]),
        !legacy.contains_key(legacy_namespace() + k) && !current.contains_key(legacy_namespace()
            + k) && current.contains_key(k) ==> spec_merge_progress(
            spec_migrate(current),
            spec_migrate(legacy),
        )[legacy_namespace() + k] == newer(current[k], legacy[k]),
        !legacy.contains_key(legacy_namespace() + k) && !current.contains_key(legacy_namespace()
            + k) && !current.contains_key(k) ==> spec_merge_progress(
            spec_migrate(current),
            spec_migrate(legacy),
        )[legacy_namespace() + k] == legacy[k],
        forall|j: Seq<char>|
            spec_merge_progress(spec_migrate(current), spec_migrate(legacy)).contains_key(j)
                ==> !is_legacy_key(j),
{
    let nk = legacy_namespace() + k;
    law_migration_result(current, k);
    law_migration_result(current, nk);
    law_migration_result(legacy, k);
    law_migration_result(legacy, nk);
    assert forall|j: Seq<char>|
        spec_merge_progress(spec_migrate(current), spec_migrate(legacy)).contains_key(
            j,
        ) implies !is_legacy_key(j) by {
        law_migration_result(current, j);
        law_migration_result(legacy, j);
    }
    if !current.contains_key(nk) && !current.contains_key(k) {
        if spec_migrate(current).contains_key(nk) {
            let m = current;
            assert(is_moved_key(nk) && legacy_entries(m).contains_key(nk.skip(5)));
            reveal_strlit("rust/");
            assert(nk.skip(5) =~= k);
            assert(false);
        }
    }
}

/// A key of the single-language era: a bare id, without a `/`.
pub open spec fn is_legacy_key(k: Seq<char>) -> bool {
    !k.contains('/')
}

/// The namespace that bare ids move into.
pub open spec fn legacy_namespace() -> Seq<char> {
    "rust/"@
}

/// The entries of `m` under bare ids.
pub open spec fn legacy_entries(m: Map<Seq<char>, ProgressEntry>) -> Map<Seq<char>, ProgressEntry> {
    Map::new(|k: Seq<char>| m.contains_key(k) && is_legacy_key(k), |k: Seq<char>| m[k])
}

/// The entries of `m` under namespaced keys.
pub open spec fn namespaced_entries(m: Map<Seq<char>, ProgressEntry>) -> Map<
    Seq<char>,
    ProgressEntry,
> {
    Map::new(|k: Seq<char>| m.contains_key(k) && !is_legacy_key(k), |k: Seq<char>| m[k])
}

/// `k` is `rust/` followed by a bare id.
pub open spec fn is_moved_key(k: Seq<char>) -> bool {
    k.len() >= 5 && k.take(5) == legacy_namespace() && is_legacy_key(k.skip(5))
}

/// The namespaced entries of `m`, plus each entry of `moved` under `rust/<id>` where `m`
/// holds nothing under that key.
pub open spec fn migrate_with(
    m: Map<Seq<char>, ProgressEntry>,
    moved: Map<Seq<char>, ProgressEntry>,
) -> Map<Seq<char>, ProgressEntry> {
    Map::new(
        |k: Seq<char>|
            (m.contains_key(k) && !is_legacy_key(k)) || (is_moved_key(k) && moved.contains_key(
                k.skip(5),
            ) && !m.contains_key(k)),
        |k: Seq<char>|
            if m.contains_key(k) {
                m[k]
            } else {
                moved[k.skip(5)]
            },
    )
}

/// `m` with every bare-id entry moved under `rust/`, unless an entry already sits there.
pub open spec fn spec_migrate(m: Map<Seq<char>, ProgressEntry>) -> Map<Seq<char>, ProgressEntry> {
    migrate_with(m, legacy_entries(m))
}

fn has_slash(k: &String) -> (b: bool)
    ensures
        b == k@.contains('/'),
{
    let v = chars_of(k.as_str());
    let mut i: usize = 0;
    while i < v.len()
        invariant
            i <= v.len(),
            v@ == k@,
            forall|j: int| 0 <= j < i ==> v@[j] != '/',
        decreases v.len() - i,
    {
        if v[i] == '/' {
            return true;
        }
        i += 1;
    }
    false
}

/// Moves progress stored under bare ids (`b001`, from when only Rust existed) to
/// `rust/b001`, keeping an entry that is already there; returns how many bare-id
/// entries there were.
pub fn migrate_legacy_keys(map: &mut ProgressMap) -> (moved: usize)
    ensures
        final(map)@ == spec_migrate(old(map)@),
        moved == legacy_entries(old(map)@).dom().len(),
{
    proof {
        use_type_invariant(&*map);
    }
    let mut rem: Vec<(String, ProgressEntry)> = Vec::new();
    std::mem::swap(&mut rem, &mut map.entries);
    let ghost e = rem@;
    let ghost m = entries_map(e);
    let mut kept: Vec<(String, ProgressEntry)> = Vec::new();
    let mut legacy: Vec<(String, ProgressEntry)> = Vec::new();
    proof {
        assert(e.skip(e.len() as int) =~= Seq::<(String, ProgressEntry)>::empty());
        assert(entries_map(kept@) =~= namespaced_entries(entries_map(e.skip(e.len() as int))));
        assert(entries_map(legacy@) =~= legacy_entries(entries_map(e.skip(e.len() as int))));
    }
    while rem.len() > 0
        invariant
            entry_keys(e).no_duplicates(),
            m == entries_map(e),
            rem.len() <= e.len(),
            rem@ == e.take(rem.len() as int),
            entry_keys(kept@).no_duplicates(),
            entry_keys(legacy@).no_duplicates(),
            entries_map(kept@) == namespaced_entries(entries_map(e.skip(rem.len() as int))),
            entries_map(legacy@) == legacy_entries(entries_map(e.skip(rem.len() as int))),
        decreases rem.len(),
    {
        let x = rem.pop().unwrap();
        let ghost n = rem.len() as int;
        let ghost before = entries_map(e.skip(n + 1));
        proof {
            assert(e.skip(n) =~= seq![x] + e.skip(n + 1));
            assert(entry_keys(e.skip(n)) =~= entry_keys(e).skip(n));
            assert(entry_keys(e.skip(n)).no_duplicates());
            lemma_entries_map_prepend(x, e.skip(n + 1));
            assert(!before.contains_key(x.0@));
        }
        let ghost kept_seq = kept@;
        let ghost legacy_seq = legacy@;
        proof {
            assert(!entries_map(kept_seq).contains_key(x.0@));
            assert(!entries_map(legacy_seq).contains_key(x.0@));
        }
        if has_slash(&x.0) {
            let ghost xx = x;
            kept.push(x);
            proof {
                lemma_entries_map_push(kept_seq, xx);
                assert(namespaced_entries(before.insert(xx.0@, xx.1)) =~= namespaced_entries(
                    before,
                ).insert(xx.0@, xx.1));
                assert(legacy_entries(before.insert(xx.0@, xx.1)) =~= legacy_entries(before));
            }
        } else {
            let ghost xx = x;
            legacy.push(x);
            proof {
                lemma_entries_map_push(legacy_seq, xx);
                assert(legacy_entries(before.insert(xx.0@, xx.1)) =~= legacy_entries(
                    before,
                ).insert(xx.0@, xx.1));
                assert(namespaced_entries(before.insert(xx.0@, xx.1)) =~= namespaced_entries(
                    before,
                ));
            }
        }
    }
    proof {
        assert(e.skip(0) =~= e);
        lemma_entries_map_len(legacy@);
    }
    let count = legacy.len();
    let ghost l = legacy@;
    proof {
        assert(l.skip(l.len() as int) =~= Seq::<(String, ProgressEntry)>::empty());
        assert(entries_map(kept@) =~= migrate_with(m, entries_map(l.skip(l.len() as int))));
        reveal_strlit("rust/");
    }
    while legacy.len() > 0
        invariant
            entry_keys(l).no_duplicates(),
            entries_map(l) == legacy_entries(m),
            legacy.len() <= l.len(),
            legacy@ == l.take(legacy.len() as int),
            entry_keys(kept@).no_duplicates(),
            entries_map(kept@) == migrate_with(m, entries_map(l.skip(legacy.len() as int))),
            legacy_namespace() == seq!['r', 'u', 's', 't', '/'],
        decreases legacy.len(),
    {
        let x = legacy.pop().unwrap();
        let ghost n = legacy.len() as int;
        let ghost d = entries_map(l.skip(n + 1));
        proof {
            assert(l.skip(n) =~= seq![x] + l.skip(n + 1));
            assert(entry_keys(l.skip(n)) =~= entry_keys(l).skip(n));
            lemma_entries_map_prepend(x, l.skip(n + 1));
            assert(l[n] == x);
            lemma_entries_map_at(l, n);
            assert(is_legacy_key(x.0@));
        }
        let mut nk = chars_of("rust/");
        let xk = chars_of(x.0.as_str());
        crate::text::push_all(&mut nk, &xk);
        let ghost nkv = nk@;
        proof {
            assert(nkv.take(5) =~= legacy_namespace());
            assert(nkv.skip(5) =~= x.0@);
            assert(is_moved_key(nkv));
        }
        let ghost kept_before = kept@;
        match self_find(&kept, &nk) {
            Some(i) => {
                proof {
                    lemma_entries_map_at(kept_before, i as int);
                    assert(m.contains_key(nkv));
                    assert forall|k: Seq<char>| is_moved_key(k) && k.skip(5) == x.0@ implies k
                        == nkv by {
                        assert(k =~= k.take(5) + k.skip(5));
                        assert(nkv =~= nkv.take(5) + nkv.skip(5));
                    }
                    assert(migrate_with(m, d.insert(x.0@, x.1)) =~= migrate_with(m, d));
                }
            },
            None => {
                let key = string_of(&nk);
                let ghost kv = (key, x.1);
                kept.push((key, x.1));
                proof {
                    lemma_entries_map_push(kept_before, kv);
                    assert(!migrate_with(m, d).contains_key(nkv));
                    assert(!m.contains_key(nkv));
                    assert forall|k: Seq<char>| is_moved_key(k) && k.skip(5) == x.0@ implies k
                        == nkv by {
                        assert(k =~= k.take(5) + k.skip(5));
                        assert(nkv =~= nkv.take(5) + nkv.skip(5));
                    }
                    assert(migrate_with(m, d.insert(x.0@, x.1)) =~= migrate_with(m, d).insert(
                        nkv,
                        x.1,
                    ));
                }
            },
        }
    }
    proof {
        assert(l.skip(0) =~= l);
    }
    map.entries = kept;
    count
}

/// The migration leaves no bare-id key behind, keeps every namespaced entry as it was,
/// and puts each bare-id entry under `rust/<id>` unless that key was taken.
pub proof fn law_migration_result(m: Map<Seq<char>, ProgressEntry>, k: Seq<char>)
    ensures
        spec_migrate(m).contains_key(k) ==> !is_legacy_key(k),
        m.contains_key(k) && !is_legacy_key(k) ==> spec_migrate(m).contains_key(k)
            && spec_migrate(m)[k] == m[k],
        m.contains_key(k) && is_legacy_key(k) ==> spec_migrate(m).contains_key(
            legacy_namespace() + k,
        ),
        m.contains_key(k) && is_legacy_key(k) && !m.contains_key(legacy_namespace() + k)
            ==> spec_migrate(m)[legacy_namespace() + k] == m[k],
{
    reveal_strlit("rust/");
    let nk = legacy_namespace() + k;
    assert(nk.take(5) =~= legacy_namespace());
    assert(nk.skip(5) =~= k);
    assert(nk[4] == '/');
    assert(!is_legacy_key(nk));
    if spec_migrate(m).contains_key(k) && !(m.contains_key(k) && !is_legacy_key(k)) {
        assert(k.take(5)[4] == '/');
        assert(k[4] == '/');
    }
}

/// Migrating twice is migrating once: the second pass finds no bare id and changes nothing.
pub proof fn law_migration_idempotent(m: Map<Seq<char>, ProgressEntry>)
    ensures
        legacy_entries(spec_migrate(m)).dom().len() == 0,
        spec_migrate(spec_migrate(m)) == spec_migrate(m),
{
    let m1 = spec_migrate(m);
    assert forall|k: Seq<char>| m1.contains_key(k) implies !is_legacy_key(k) by {
        law_migration_result(m, k);
    }
    assert(legacy_entries(m1) =~= Map::<Seq<char>, ProgressEntry>::empty());
    assert(legacy_entries(m1).dom() =~= Set::<Seq<char>>::empty());
    assert(spec_migrate(m1) =~= m1);
}

/// The key that progress of `problem` is stored under: `<language slug>/<id>`.
pub open spec fn spec_progress_key(problem: Problem) -> Seq<char> {
    problem.language.spec_slug() + "/"@ + problem.id@
}

/// The one place progress keys are made. Ids repeat across languages (`b001` exists in
/// all of them), so the key carries the language.
pub fn progress_key(problem: &Problem) -> (k: String)
    ensures
        k@ == spec_progress_key(*problem),
{
    let mut v = chars_of(problem.language.slug());
    push_str(&mut v, "/");
    push_str(&mut v, problem.id.as_str());
    string_of(&v)
}

/// A progress key names exactly one language and one id: problems of different
/// languages never share progress, even with the same id.
pub proof fn law_progress_key_injective(a: Problem, b: Problem)
    ensures
        spec_progress_key(a) == spec_progress_key(b) ==> a.language == b.language && a.id@
            == b.id@,
{
    let ka = spec_progress_key(a);
    let kb = spec_progress_key(b);
    if ka == kb {
        let sa = a.language.spec_slug();
        let sb = b.language.spec_slug();
        lemma_slug_has_no_slash(a.language);
        lemma_slug_has_no_slash(b.language);
        reveal_strlit("/");
        assert(ka[sa.len() as int] == '/');
        assert(kb[sb.len() as int] == '/');
        if sa.len() < sb.len() {
            assert(kb[sa.len() as int] == sb[sa.len() as int]);
            assert(false);
        }
        if sb.len() < sa.len() {
            assert(ka[sb.len() as int] == sa[sb.len() as int]);
            assert(false);
        }
        assert(sa =~= ka.take(sa.len() as int));
        assert(sb =~= kb.take(sb.len() as int));
        lemma_slug_injective(a.language, b.language);
        assert(a.id@ =~= ka.skip(sa.len() as int + 1));
        assert(b.id@ =~= kb.skip(sb.len() as int + 1));
    }
}


/// The status recorded for `problem`, Unanswered when nothing is recorded.
pub open spec fn spec_status_of(m: Map<Seq<char>, ProgressEntry>, problem: Problem) -> ProblemStatus {
    if m.contains_key(spec_progress_key(problem)) {
        m[spec_progress_key(problem)].status
    } else {
        ProblemStatus::Unanswered
    }
}

/// The status of `problem`, looked up under its language-scoped key.
pub fn status_of(map: &ProgressMap, problem: &Problem) -> (s: ProblemStatus)
    ensures
        s == spec_status_of(map@, *problem),
{
    let k = progress_key(problem);
    match map.get(k.as_str()) {
        Some(e) => e.status,
        None => ProblemStatus::Unanswered,
    }
}

/// The draft saved for `problem`, if any.
pub fn saved_code_of<'a>(map: &'a ProgressMap, problem: &Problem) -> (r: Option<&'a str>)
    ensures
        match r {
            Some(c) => map@.contains_key(spec_progress_key(*problem)) && map@[spec_progress_key(
                *problem,
            )].saved_code is Some && map@[spec_progress_key(*problem)].saved_code->0@ == c@,
            None => !map@.contains_key(spec_progress_key(*problem)) || map@[spec_progress_key(
                *problem,
            )].saved_code is None,
        },
{
    let k = progress_key(problem);
    match map.get(k.as_str()) {
        Some(e) => match &e.saved_code {
            Some(c) => Some(c.as_str()),
            None => None,
        },
        None => None,
    }
}

/// Which problems the list shows.
#[derive(Clone, Copy, Debug, PartialEq, Eq, Structural)]
pub enum StatusFilter {
    All,
    OnlyUnanswered,
    OnlyAttempted,
    OnlyPassed,
}

pub open spec fn spec_matches_filter(status: ProblemStatus, filter: StatusFilter) -> bool {
    match filter {
        StatusFilter::All => true,
        StatusFilter::OnlyUnanswered => status == ProblemStatus::Unanswered,
        StatusFilter::OnlyAttempted => status == ProblemStatus::Attempted,
        StatusFilter::OnlyPassed => status == ProblemStatus::Passed,
    }
}

/// Whether a problem in `status` is listed under `filter`.
pub fn matches_filter(status: ProblemStatus, filter: StatusFilter) -> (b: bool)
    ensures
        b == spec_matches_filter(status, filter),
{
    match filter {
        StatusFilter::All => true,
        StatusFilter::OnlyUnanswered => status == ProblemStatus::Unanswered,
        StatusFilter::OnlyAttempted => status == ProblemStatus::Attempted,
        StatusFilter::OnlyPassed => status == ProblemStatus::Passed,
    }
}

/// The lowered query `q` occurs in the lowered id, title or one of the tags; an empty
/// query matches everything.
pub open spec fn matches_query(p: Problem, q: Seq<char>) -> bool {
    ||| q.len() == 0
    ||| contains(lowercase(p.id@), q)
    ||| contains(lowercase(p.title@), q)
    ||| exists|i: int| 0 <= i < p.tags@.len() && contains(lowercase(#[trigger] p.tags@[i]@), q)
}

/// The search text as compared: trimmed, then lowered.
pub open spec fn normalized_query(query: Seq<char>) -> Seq<char> {
    lowercase(trim(query))
}

/// Whether `p` is listed.
pub open spec fn listed(
    m: Map<Seq<char>, ProgressEntry>,
    filter: StatusFilter,
    q: Seq<char>,
    p: Problem,
) -> bool {
    spec_matches_filter(spec_status_of(m, p), filter) && matches_query(p, q)
}

/// The listed problems of `ps`, in order.
pub open spec fn listed_problems(
    ps: Seq<Problem>,
    m: Map<Seq<char>, ProgressEntry>,
    filter: StatusFilter,
    q: Seq<char>,
) -> Seq<Problem>
    decreases ps.len(),
{
    if ps.len() == 0 {
        seq![]
    } else if listed(m, filter, q, ps.last()) {
        listed_problems(ps.drop_last(), m, filter, q).push(ps.last())
    } else {
        listed_problems(ps.drop_last(), m, filter, q)
    }
}

/// A problem is listed exactly when it is among the problems, its status passes the
/// filter (every status for `All`, else the one the filter names), and the query is empty
/// or occurs anywhere in its lowered id, its lowered title or one of its lowered tags.
pub proof fn law_listed_problems(
    ps: Seq<Problem>,
    m: Map<Seq<char>, ProgressEntry>,
    filter: StatusFilter,
    q: Seq<char>,
    p: Problem,
)
    ensures
        listed_problems(ps, m, filter, q).contains(p) <==> (ps.contains(p) && (filter
            == StatusFilter::All || (filter == StatusFilter::OnlyUnanswered && spec_status_of(m, p)
            == ProblemStatus::Unanswered) || (filter == StatusFilter::OnlyAttempted
            && spec_status_of(m, p) == ProblemStatus::Attempted) || (filter
            == StatusFilter::OnlyPassed && spec_status_of(m, p) == ProblemStatus::Passed)) && (
        q.len() == 0 || contains(lowercase(p.id@), q) || contains(lowercase(p.title@), q) || exists|
            i: int,
        |
            0 <= i < p.tags@.len() && contains(lowercase(#[trigger] p.tags@[i]@), q))),
    decreases ps.len(),
{
    if ps.len() > 0 {
        let init = ps.drop_last();
        law_listed_problems(init, m, filter, q, p);
        assert(ps =~= init.push(ps.last()));
        let l0 = listed_problems(init, m, filter, q);
        if ps.contains(p) && p != ps.last() {
            let k = choose|k: int| 0 <= k < ps.len() && ps[k] == p;
            assert(k < init.len() && init[k] == p);
        }
        if init.contains(p) {
            let k = choose|k: int| 0 <= k < init.len() && init[k] == p;
            assert(ps[k] == p);
        }
        assert(ps[ps.len() - 1] == ps.last());
        if listed(m, filter, q, ps.last()) {
            let l1 = l0.push(ps.last());
            assert(l1[l0.len() as int] == ps.last());
            if l1.contains(p) && p != ps.last() {
                let k = choose|k: int| 0 <= k < l1.len() && l1[k] == p;
                assert(l0[k] == p);
            }
            if l0.contains(p) {
                let k = choose|k: int| 0 <= k < l0.len() && l0[k] == p;
                assert(l1[k] == p);
            }
        }
    }
}

fn matches_query_exec(p: &Problem, q: &Vec<char>) -> (b: bool)
    ensures
        b == matches_query(*p, q@),
{
    if q.len() == 0 {
        return true;
    }
    let id = chars_of(to_lowercase(p.id.as_str()).as_str());
    if contains_exec(&id, q) {
        return true;
    }
    let title = chars_of(to_lowercase(p.title.as_str()).as_str());
    if contains_exec(&title, q) {
        return true;
    }
    let mut i: usize = 0;
    while i < p.tags.len()
        invariant
            i <= p.tags.len(),
            forall|j: int| 0 <= j < i ==> !contains(lowercase(#[trigger] p.tags@[j]@), q@),
        decreases p.tags.len() - i,
    {
        let t = chars_of(to_lowercase(p.tags[i].as_str()).as_str());
        if contains_exec(&t, q) {
            return true;
        }
        i += 1;
    }
    false
}

/// The problems shown in the list: those whose status passes `filter` and whose id,
/// title or a tag contains the query (trimmed, case-insensitive), in their order.
pub fn filter_problems<'a>(
    problems: &'a [Problem],
    map: &ProgressMap,
    filter: StatusFilter,
    query: &str,
) -> (r: Vec<&'a Problem>)
    ensures
        r@.len() == listed_problems(problems@, map@, filter, normalized_query(query@)).len(),
        forall|i: int|
            0 <= i < r@.len() ==> *r@[i] == listed_problems(
                problems@,
                map@,
                filter,
                normalized_query(query@),
            )[i],
{
    let qv = chars_of(query);
    let qt = trim_exec(&qv);
    let q = chars_of(to_lowercase(string_of(&qt).as_str()).as_str());
    let ghost qs = normalized_query(query@);
    let mut r: Vec<&'a Problem> = Vec::new();
    let mut i: usize = 0;
    while i < problems.len()
        invariant
            i <= problems@.len(),
            q@ == qs,
            r@.len() == listed_problems(problems@.take(i as int), map@, filter, qs).len(),
            forall|j: int|
                0 <= j < r@.len() ==> *r@[j] == listed_problems(
                    problems@.take(i as int),
                    map@,
                    filter,
                    qs,
                )[j],
        decreases problems.len() - i,
    {
        let p = &problems[i];
        proof {
            assert(problems@.take(i + 1).drop_last() =~= problems@.take(i as int));
            assert(problems@.take(i + 1).last() == problems@[i as int]);
        }
        if matches_filter(status_of(map, p), filter) && matches_query_exec(p, &q) {
            r.push(p);
        }
        i += 1;
    }
    assert(problems@.take(problems.len() as int) =~= problems@);
    r
}

/// Number of problems of `ps` that are passed.
pub open spec fn passed_in(ps: Seq<Problem>, m: Map<Seq<char>, ProgressEntry>) -> nat
    decreases ps.len(),
{
    if ps.len() == 0 {
        0
    } else {
        passed_in(ps.drop_last(), m) + if spec_status_of(m, ps.last()) == ProblemStatus::Passed {
            1nat
        } else {
            0nat
        }
    }
}

proof fn lemma_passed_in_bound(ps: Seq<Problem>, m: Map<Seq<char>, ProgressEntry>)
    ensures
        passed_in(ps, m) <= ps.len(),
    decreases ps.len(),
{
    if ps.len() > 0 {
        lemma_passed_in_bound(ps.drop_last(), m);
    }
}

/// How many of the listed problems are passed (for the completion rate).
pub fn passed_count(problems: &[Problem], map: &ProgressMap) -> (n: usize)
    ensures
        n == passed_in(problems@, map@),
{
    let mut n: usize = 0;
    let mut i: usize = 0;
    while i < problems.len()
        invariant
            i <= problems@.len(),
            n == passed_in(problems@.take(i as int), map@),
        decreases problems.len() - i,
    {
        proof {
            assert(problems@.take(i + 1).drop_last() =~= problems@.take(i as int));
            lemma_passed_in_bound(problems@.take(i as int), map@);
        }
        if status_of(map, &problems[i]) == ProblemStatus::Passed {
            n += 1;
        }
        i += 1;
    }
    assert(problems@.take(problems.len() as int) =~= problems@);
    n
}

} // verus!
