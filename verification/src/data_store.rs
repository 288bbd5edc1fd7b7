//! The crawl store: a mapping from a URL key to its crawl record — whether
//! that URL's own page has been fetched, and which URLs were discovered on
//! it, in extraction order.

use vstd::prelude::*;

verus! {

/// One crawl record: `visited` is true once this URL's own page has been
/// fetched and processed; `urls_found` lists the URLs discovered on this
/// page in extraction order, duplicates kept, never reordered.
#[derive(Debug, PartialEq)]
pub struct DataStoreEntry {
    pub visited: bool,
    pub urls_found: Vec<String>,
}

/// Mathematical model of one crawl record.
pub struct EntryModel {
    pub visited: bool,
    pub urls_found: Seq<Seq<char>>,
}

impl View for DataStoreEntry {
    type V = EntryModel;

    open spec fn view(&self) -> EntryModel {
        EntryModel { visited: self.visited, urls_found: self.urls_found.deep_view() }
    }
}

/// What `add(key, value)` does to a store model: if a record for `key`
/// exists and a discovery is given, the discovery is appended to that
/// record; otherwise a fresh unvisited record is created, holding the
/// discovery if one is given.
pub open spec fn add_spec(
    m: Map<Seq<char>, EntryModel>,
    key: Seq<char>,
    value: Option<Seq<char>>,
) -> Map<Seq<char>, EntryModel> {
    match value {
        Some(v) => if m.contains_key(key) {
            m.insert(
                key,
                EntryModel { visited: m[key].visited, urls_found: m[key].urls_found.push(v) },
            )
        } else {
            m.insert(key, EntryModel { visited: false, urls_found: seq![v] })
        },
        None => m.insert(key, EntryModel { visited: false, urls_found: Seq::empty() }),
    }
}

/// What `visited(key)` does to a store model: sets the flag on an existing
/// record, and is a no-op on an absent key.
pub open spec fn mark_visited_spec(
    m: Map<Seq<char>, EntryModel>,
    key: Seq<char>,
) -> Map<Seq<char>, EntryModel> {
    if m.contains_key(key) {
        m.insert(key, EntryModel { visited: true, urls_found: m[key].urls_found })
    } else {
        m
    }
}

/// Whether `key` has a record that is marked visited.
pub open spec fn has_visited_spec(m: Map<Seq<char>, EntryModel>, key: Seq<char>) -> bool {
    m.contains_key(key) && m[key].visited
}

/// The store interface the worker loop relies on. A store is modelled as a
/// mapping from URL key to record model.
pub trait DataStore: View<V = Map<Seq<char>, EntryModel>> {
    fn add(&mut self, key: String, value: Option<String>)
        ensures
            final(self)@ == add_spec(old(self)@, key@, value.deep_view()),
    ;

    fn visited(&mut self, key: &str)
        ensures
            final(self)@ == mark_visited_spec(old(self)@, key@),
    ;

    fn has_visited(&self, key: &str) -> (r: bool)
        ensures
            r == has_visited_spec(self@, key@),
    ;

    fn exists_key(&self, key: &str) -> (r: bool)
        ensures
            r == self@.contains_key(key@),
    ;

    fn get<'a>(&'a self, key: &str) -> (r: Option<&'a DataStoreEntry>)
        ensures
            match r {
                Some(entry) => self@.contains_key(key@) && entry@ == self@[key@],
                None => !self@.contains_key(key@),
            },
    ;
}

/// The store: an association list of records, looked up by first match,
/// viewed as a map.
#[derive(Debug, PartialEq)]
pub struct Store {
    data: Vec<(String, DataStoreEntry)>,
}

/// Whether some pair of the association list carries `k`.
spec fn assoc_has(s: Seq<(String, DataStoreEntry)>, k: Seq<char>) -> bool
    decreases s.len(),
{
    if s.len() == 0 {
        false
    } else if s[0].0@ == k {
        true
    } else {
        assoc_has(s.drop_first(), k)
    }
}

/// The entry of the first pair carrying `k`.
spec fn assoc_at(s: Seq<(String, DataStoreEntry)>, k: Seq<char>) -> EntryModel
    decreases s.len(),
{
    if s.len() == 0 {
        vstd::pervasive::arbitrary()
    } else if s[0].0@ == k {
        s[0].1@
    } else {
        assoc_at(s.drop_first(), k)
    }
}

/// The map described by an association list, first match taking precedence.
spec fn assoc_view(s: Seq<(String, DataStoreEntry)>) -> Map<Seq<char>, EntryModel> {
    Map::new(|k: Seq<char>| assoc_has(s, k), |k: Seq<char>| assoc_at(s, k))
}

impl View for Store {
    type V = Map<Seq<char>, EntryModel>;

    closed spec fn view(&self) -> Map<Seq<char>, EntryModel> {
        assoc_view(self.data@)
    }
}

/// Appending a pair leaves every present key's first match alone and fills
/// in the appended key where it was absent.
proof fn lemma_assoc_push(s: Seq<(String, DataStoreEntry)>, p: (String, DataStoreEntry), k: Seq<char>)
    ensures
        assoc_has(s.push(p), k) == (assoc_has(s, k) || p.0@ == k),
        assoc_has(s, k) ==> assoc_at(s.push(p), k) == assoc_at(s, k),
        !assoc_has(s, k) && p.0@ == k ==> assoc_at(s.push(p), k) == p.1@,
    decreases s.len(),
{
    if s.len() == 0 {
        assert(s.push(p)[0] == p);
        assert(s.push(p).drop_first() =~= s);
        assert(!assoc_has(s, k));
        if p.0@ == k {
            assert(assoc_has(s.push(p), k));
            assert(assoc_at(s.push(p), k) == p.1@);
        } else {
            assert(assoc_has(s.push(p), k) == assoc_has(s, k));
        }
    } else {
        assert(s.push(p)[0] == s[0]);
        assert(s.push(p).drop_first() =~= s.drop_first().push(p));
        lemma_assoc_push(s.drop_first(), p, k);
        if s[0].0@ == k {
            assert(assoc_has(s.push(p), k));
            assert(assoc_has(s, k));
            assert(assoc_at(s.push(p), k) == s[0].1@);
            assert(assoc_at(s, k) == s[0].1@);
        } else {
            assert(assoc_has(s.push(p), k) == assoc_has(s.drop_first().push(p), k));
            assert(assoc_has(s, k) == assoc_has(s.drop_first(), k));
            if assoc_has(s, k) {
                assert(assoc_at(s.push(p), k) == assoc_at(s.drop_first().push(p), k));
                assert(assoc_at(s, k) == assoc_at(s.drop_first(), k));
            }
        }
    }
}

/// Replacing the first pair that carries a key (the key kept) changes the
/// lookup of that key alone.
proof fn lemma_assoc_update(
    s: Seq<(String, DataStoreEntry)>,
    i: int,
    p: (String, DataStoreEntry),
    k: Seq<char>,
)
    requires
        0 <= i < s.len(),
        forall|j: int| 0 <= j < i ==> s[j].0@ != s[i].0@,
        p.0@ == s[i].0@,
    ensures
        assoc_has(s.update(i, p), k) == assoc_has(s, k),
        k == p.0@ ==> assoc_has(s, k) && assoc_at(s.update(i, p), k) == p.1@,
        k != p.0@ && assoc_has(s, k) ==> assoc_at(s.update(i, p), k) == assoc_at(s, k),
    decreases s.len(),
{
    let t = s.update(i, p);
    if i == 0 {
        assert(t[0] == p);
        assert(t.drop_first() =~= s.drop_first());
    } else {
        assert(t[0] == s[0]);
        assert(t.drop_first() =~= s.drop_first().update(i - 1, p));
        assert(forall|j: int| 0 <= j < i - 1 ==> s.drop_first()[j] == s[j + 1]);
        assert(s.drop_first()[i - 1] == s[i]);
        lemma_assoc_update(s.drop_first(), i - 1, p, k);
    }
}

/// Replacing the first pair that carries a key (the key kept) updates the
/// view at that key alone.
proof fn lemma_assoc_update_view(
    s: Seq<(String, DataStoreEntry)>,
    i: int,
    p: (String, DataStoreEntry),
)
    requires
        0 <= i < s.len(),
        forall|j: int| 0 <= j < i ==> s[j].0@ != s[i].0@,
        p.0@ == s[i].0@,
    ensures
        assoc_view(s.update(i, p)) == assoc_view(s).insert(p.0@, p.1@),
{
    let m1 = assoc_view(s.update(i, p));
    let m2 = assoc_view(s).insert(p.0@, p.1@);
    assert forall|k: Seq<char>| #[trigger] m1.contains_key(k) == m2.contains_key(k) by {
        lemma_assoc_update(s, i, p, k);
    }
    assert forall|k: Seq<char>| m1.contains_key(k) implies #[trigger] m1[k] == m2[k] by {
        lemma_assoc_update(s, i, p, k);
    }
    assert(m1 =~= m2);
}

/// Appending a pair whose key no earlier pair carries adds that key to the
/// view and changes nothing else.
proof fn lemma_assoc_push_view(s: Seq<(String, DataStoreEntry)>, p: (String, DataStoreEntry))
    requires
        forall|i: int| 0 <= i < s.len() ==> s[i].0@ != p.0@,
    ensures
        assoc_view(s.push(p)) == assoc_view(s).insert(p.0@, p.1@),
{
    Store::lemma_absent(s, p.0@);
    let m1 = assoc_view(s.push(p));
    let m2 = assoc_view(s).insert(p.0@, p.1@);
    assert forall|k: Seq<char>| #[trigger] m1.contains_key(k) == m2.contains_key(k) by {
        lemma_assoc_push(s, p, k);
    }
    assert forall|k: Seq<char>| m1.contains_key(k) implies #[trigger] m1[k] == m2[k] by {
        lemma_assoc_push(s, p, k);
    }
    assert(m1 =~= m2);
}

/// The first pair carrying a key is what the view holds for it.
proof fn lemma_assoc_first(s: Seq<(String, DataStoreEntry)>, i: int)
    requires
        0 <= i < s.len(),
        forall|j: int| 0 <= j < i ==> s[j].0@ != s[i].0@,
    ensures
        assoc_has(s, s[i].0@),
        assoc_at(s, s[i].0@) == s[i].1@,
    decreases i,
{
    if i > 0 {
        assert(forall|j: int| 0 <= j < i - 1 ==> s.drop_first()[j] == s[j + 1]);
        assert(s.drop_first()[i - 1] == s[i]);
        lemma_assoc_first(s.drop_first(), i - 1);
    }
}

impl Store {
    pub fn new() -> (s: Store)
        ensures
            s@ == Map::<Seq<char>, EntryModel>::empty(),
    {
        let s = Store { data: Vec::new() };
        proof {
            assert(s@ =~= Map::<Seq<char>, EntryModel>::empty());
        }
        s
    }

    /// Index of the first pair carrying `key`, if a record for it exists.
    fn find_index(&self, key: &str) -> (r: Option<usize>)
        ensures
            match r {
                Some(i) => {
                    &&& i < self.data@.len()
                    &&& self.data@[i as int].0@ == key@
                    &&& forall|j: int| 0 <= j < i ==> self.data@[j].0@ != key@
                },
                None => forall|i: int| 0 <= i < self.data@.len() ==> self.data@[i].0@ != key@,
            },
    {
        let owned: String = key.to_owned();
        let n = self.data.len();
        let mut i: usize = 0;
        while i < n
            invariant
                n == self.data@.len(),
                i <= n,
                owned@ == key@,
                forall|j: int| 0 <= j < i ==> self.data@[j].0@ != key@,
            decreases n - i,
        {
            if self.data[i].0 == owned {
                return Some(i);
            }
            i += 1;
        }
        None
    }

    /// A key absent from every pair is absent from the view.
    proof fn lemma_absent(s: Seq<(String, DataStoreEntry)>, k: Seq<char>)
        requires
            forall|i: int| 0 <= i < s.len() ==> s[i].0@ != k,
        ensures
            !assoc_has(s, k),
        decreases s.len(),
    {
        if s.len() > 0 {
            assert(forall|i: int| 0 <= i < s.drop_first().len() ==> s.drop_first()[i] == s[i + 1]);
            Self::lemma_absent(s.drop_first(), k);
        }
    }
}

impl Default for Store {
    fn default() -> (s: Store)
        ensures
            s@ == Map::<Seq<char>, EntryModel>::empty(),
    {
        Store::new()
    }
}

impl DataStore for Store {
    fn add(&mut self, key: String, value: Option<String>) {
        let ghost s0 = self.data@;
        let ghost m0 = self@;
        let idx = self.find_index(key.as_str());
        match idx {
            Some(i) => {
                proof {
                    lemma_assoc_first(s0, i as int);
                }
                match value {
                    Some(v) => {
                        self.data[i].1.urls_found.push(v);
                        proof {
                            let p = self.data@[i as int];
                            assert(self.data@ =~= s0.update(i as int, p));
                            assert(p.1@.urls_found =~= s0[i as int].1@.urls_found.push(v@));
                            lemma_assoc_update_view(s0, i as int, p);
                            assert(self@ =~= add_spec(m0, key@, Some(v@)));
                        }
                    },
                    None => {
                        self.data[i].1 = DataStoreEntry { visited: false, urls_found: Vec::new() };
                        proof {
                            let p = self.data@[i as int];
                            assert(self.data@ =~= s0.update(i as int, p));
                            assert(p.1@.urls_found =~= Seq::<Seq<char>>::empty());
                            lemma_assoc_update_view(s0, i as int, p);
                            assert(self@ =~= add_spec(m0, key@, None));
                        }
                    },
                }
            },
            None => {
                let mut entry = DataStoreEntry { visited: false, urls_found: Vec::new() };
                let ghost em: EntryModel;
                match value {
                    Some(v) => {
                        entry.urls_found.push(v);
                        proof {
                            em = entry@;
                            assert(em.urls_found =~= seq![v@]);
                        }
                    },
                    None => {
                        proof {
                            em = entry@;
                            assert(em.urls_found =~= Seq::<Seq<char>>::empty());
                        }
                    },
                }
                self.data.push((key, entry));
                proof {
                    let p = self.data@.last();
                    assert(self.data@ =~= s0.push(p));
                    lemma_assoc_push_view(s0, p);
                    Self::lemma_absent(s0, p.0@);
                    assert(self@ =~= add_spec(m0, key@, value.deep_view()));
                }
            },
        }
    }

    fn visited(&mut self, key: &str) {
        let ghost s0 = self.data@;
        let ghost m0 = self@;
        let idx = self.find_index(key);
        if let Some(i) = idx {
            proof {
                lemma_assoc_first(s0, i as int);
            }
            self.data[i].1.visited = true;
            proof {
                let p = self.data@[i as int];
                assert(self.data@ =~= s0.update(i as int, p));
                assert(p.1@.urls_found =~= s0[i as int].1@.urls_found);
                lemma_assoc_update_view(s0, i as int, p);
                assert(self@ =~= mark_visited_spec(m0, key@));
            }
        } else {
            proof {
                Self::lemma_absent(s0, key@);
            }
        }
    }

    fn has_visited(&self, key: &str) -> (r: bool) {
        let idx = self.find_index(key);
        match idx {
            Some(i) => {
                proof {
                    lemma_assoc_first(self.data@, i as int);
                }
                self.data[i].1.visited
            },
            None => {
                proof {
                    Self::lemma_absent(self.data@, key@);
                }
                false
            },
        }
    }

    fn exists_key(&self, key: &str) -> (r: bool) {
        let idx = self.find_index(key);
        proof {
            if let Some(i) = idx {
                lemma_assoc_first(self.data@, i as int);
            } else {
                Self::lemma_absent(self.data@, key@);
            }
        }
        idx.is_some()
    }

    fn get<'a>(&'a self, key: &str) -> (r: Option<&'a DataStoreEntry>) {
        let idx = self.find_index(key);
        match idx {
            Some(i) => {
                proof {
                    lemma_assoc_first(self.data@, i as int);
                }
                Some(&self.data[i].1)
            },
            None => {
                proof {
                    Self::lemma_absent(self.data@, key@);
                }
                None
            },
        }
    }
}

/// Law: on a fresh key, two discoveries accumulate in call order on an
/// unvisited record.
pub proof fn lemma_discovery_accumulation(
    m: Map<Seq<char>, EntryModel>,
    key: Seq<char>,
    v1: Seq<char>,
    v2: Seq<char>,
)
    requires
        !m.contains_key(key),
    ensures
        ({
            let m2 = add_spec(add_spec(m, key, Some(v1)), key, Some(v2));
            &&& m2.contains_key(key)
            &&& m2[key].visited == false
            &&& m2[key].urls_found =~= seq![v1, v2]
        }),
{
}

/// Law: marking any key visited never clears another key's visited flag.
pub proof fn lemma_visited_monotonic_mark(
    m: Map<Seq<char>, EntryModel>,
    key: Seq<char>,
    k: Seq<char>,
)
    requires
        has_visited_spec(m, k),
    ensures
        has_visited_spec(mark_visited_spec(m, key), k),
{
}

/// Law: recording a discovery never clears a visited flag. (An `add` that
/// carries no discovery re-creates its own key's record afresh, so that one
/// key is left out here.)
pub proof fn lemma_visited_monotonic_add(
    m: Map<Seq<char>, EntryModel>,
    key: Seq<char>,
    value: Option<Seq<char>>,
    k: Seq<char>,
)
    requires
        has_visited_spec(m, k),
        value is Some || k != key,
    ensures
        has_visited_spec(add_spec(m, key, value), k),
{
}

/// Law: a never-added key is not visited, and marking it visited is a
/// no-op that creates no record.
pub proof fn lemma_absent_key_safety(m: Map<Seq<char>, EntryModel>, k: Seq<char>)
    requires
        !m.contains_key(k),
    ensures
        !has_visited_spec(m, k),
        mark_visited_spec(m, k) == m,
{
}

} // verus!
