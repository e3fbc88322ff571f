//! Storage backends for the media redirection cache.
//!
//! A backend is a key-value store from cache keys to origin URLs with `put`,
//! `get` and `contains_key`. Exactly one backend is active per process. The
//! in-process variant is `MemoryBackend`, defined here; the two external
//! variants (a remote hash-map service and an embedded on-disk store) reach
//! their stores over connections and disk I/O, so they live with the driver
//! that performs that I/O, against the same key and reference contract.

use vstd::prelude::*;

verus! {

/// Failure of an external backend: the remote store was unreachable, or the
/// embedded store's disk operation failed. The in-process backend never fails.
#[derive(Clone, Copy, Debug, PartialEq, Eq, Structural)]
pub enum BackendError {
    Connection,
    Io,
}

/// Copies a byte string.
pub fn copy_bytes(v: &Vec<u8>) -> (r: Vec<u8>)
    ensures
        r@ == v@,
{
    let mut r: Vec<u8> = Vec::new();
    let mut i: usize = 0;
    while i < v.len()
        invariant
            i <= v.len(),
            r@ == v@.take(i as int),
        decreases v.len() - i,
    {
        r.push(v[i]);
        proof {
            assert(v@.take(i + 1) =~= v@.take(i as int).push(v@[i as int]));
        }
        i = i + 1;
    }
    proof {
        assert(v@.take(v@.len() as int) =~= v@);
    }
    r
}

/// Compares two byte strings for equality.
pub fn bytes_eq(a: &Vec<u8>, b: &Vec<u8>) -> (r: bool)
    ensures
        r == (a@ == b@),
{
    if a.len() != b.len() {
        return false;
    }
    let mut i: usize = 0;
    while i < a.len()
        invariant
            i <= a.len(),
            a@.len() == b@.len(),
            forall|j: int| 0 <= j < i ==> a@[j] == b@[j],
        decreases a.len() - i,
    {
        if a[i] != b[i] {
            return false;
        }
        i = i + 1;
    }
    proof {
        assert(a@ =~= b@);
    }
    true
}

/// The mapping that a sequence of (key, origin URL) entries represents.
/// When a key occurs more than once, the earliest entry wins.
pub open spec fn map_of(s: Seq<(Vec<u8>, Vec<u8>)>) -> Map<Seq<u8>, Seq<u8>>
    decreases s.len(),
{
    if s.len() == 0 {
        Map::empty()
    } else {
        map_of(s.drop_first()).insert(s[0].0@, s[0].1@)
    }
}

/// A key that no entry holds is not in the mapping.
proof fn lemma_map_of_no_match(s: Seq<(Vec<u8>, Vec<u8>)>, k: Seq<u8>)
    requires
        forall|j: int| 0 <= j < s.len() ==> s[j].0@ != k,
    ensures
        !map_of(s).dom().contains(k),
    decreases s.len(),
{
    if s.len() > 0 {
        lemma_map_of_no_match(s.drop_first(), k);
    }
}

/// The first entry holding a key gives that key's value in the mapping.
proof fn lemma_map_of_match(s: Seq<(Vec<u8>, Vec<u8>)>, i: int)
    requires
        0 <= i < s.len(),
        forall|j: int| 0 <= j < i ==> s[j].0@ != s[i].0@,
    ensures
        map_of(s).dom().contains(s[i].0@),
        map_of(s)[s[i].0@] == s[i].1@,
    decreases s.len(),
{
    if i > 0 {
        assert(forall|j: int|
            0 <= j < i - 1 ==> (#[trigger] s.drop_first()[j]).0@ != s.drop_first()[i - 1].0@);
        lemma_map_of_match(s.drop_first(), i - 1);
    }
}

/// Appending an entry with a fresh key inserts its pair into the mapping.
proof fn lemma_map_of_push_fresh(s: Seq<(Vec<u8>, Vec<u8>)>, e: (Vec<u8>, Vec<u8>))
    requires
        forall|j: int| 0 <= j < s.len() ==> s[j].0@ != e.0@,
    ensures
        map_of(s.push(e)) == map_of(s).insert(e.0@, e.1@),
    decreases s.len(),
{
    if s.len() == 0 {
        assert(s.push(e)[0] == e);
        assert(s.push(e).drop_first() =~= Seq::<(Vec<u8>, Vec<u8>)>::empty());
        assert(map_of(Seq::<(Vec<u8>, Vec<u8>)>::empty()) =~= Map::<Seq<u8>, Seq<u8>>::empty());
        assert(map_of(s.push(e)) =~= map_of(s).insert(e.0@, e.1@));
    } else {
        assert(s.push(e)[0] == s[0]);
        assert(s.push(e).drop_first() =~= s.drop_first().push(e));
        lemma_map_of_push_fresh(s.drop_first(), e);
        assert(map_of(s.push(e)) =~= map_of(s).insert(e.0@, e.1@));
    }
}

/// Overwriting the first entry that holds a key updates that key's value.
proof fn lemma_map_of_update(s: Seq<(Vec<u8>, Vec<u8>)>, i: int, e: (Vec<u8>, Vec<u8>))
    requires
        0 <= i < s.len(),
        forall|j: int| 0 <= j < i ==> s[j].0@ != s[i].0@,
        e.0@ == s[i].0@,
    ensures
        map_of(s.update(i, e)) == map_of(s).insert(e.0@, e.1@),
    decreases s.len(),
{
    if i == 0 {
        assert(s.update(0, e).drop_first() =~= s.drop_first());
        assert(map_of(s.update(i, e)) =~= map_of(s).insert(e.0@, e.1@));
    } else {
        assert(s.update(i, e)[0] == s[0]);
        assert(s.update(i, e).drop_first() =~= s.drop_first().update(i - 1, e));
        assert(forall|j: int|
            0 <= j < i - 1 ==> (#[trigger] s.drop_first()[j]).0@ != s.drop_first()[i - 1].0@);
        lemma_map_of_update(s.drop_first(), i - 1, e);
        assert(s[0].0@ != e.0@);
        assert(map_of(s.update(i, e)) =~= map_of(s).insert(e.0@, e.1@));
    }
}

/// The in-process backend: a mutable mapping from cache key to origin URL.
/// The backing entries are lost when the process exits.
pub struct MemoryBackend {
    pub entries: Vec<(Vec<u8>, Vec<u8>)>,
}

impl View for MemoryBackend {
    type V = Map<Seq<u8>, Seq<u8>>;

    open spec fn view(&self) -> Map<Seq<u8>, Seq<u8>> {
        map_of(self.entries@)
    }
}

impl MemoryBackend {
    /// The number of entries the backend holds. A key stored twice still
    /// occupies a single entry.
    pub open spec fn spec_len(&self) -> nat {
        self.entries@.len()
    }

    /// Creates an empty in-process backend.
    pub fn new() -> (r: MemoryBackend)
        ensures
            r@ == Map::<Seq<u8>, Seq<u8>>::empty(),
            r.spec_len() == 0,
    {
        MemoryBackend { entries: Vec::new() }
    }

    /// The number of entries the backend holds.
    pub fn len(&self) -> (n: usize)
        ensures
            n == self.spec_len(),
    {
        self.entries.len()
    }

    /// The index of the first entry holding `key`, if any.
    fn find(&self, key: &Vec<u8>) -> (r: Option<usize>)
        ensures
            match r {
                Some(i) => i < self.entries@.len() && self.entries@[i as int].0@ == key@
                    && (forall|j: int| 0 <= j < i ==> self.entries@[j].0@ != key@)
                    && self@.dom().contains(key@),
                None => (forall|j: int| 0 <= j < self.entries@.len()
                    ==> self.entries@[j].0@ != key@) && !self@.dom().contains(key@),
            },
    {
        let mut i: usize = 0;
        while i < self.entries.len()
            invariant
                i <= self.entries@.len(),
                forall|j: int| 0 <= j < i ==> self.entries@[j].0@ != key@,
            decreases self.entries@.len() - i,
        {
            if bytes_eq(&self.entries[i].0, key) {
                proof {
                    lemma_map_of_match(self.entries@, i as int);
                }
                return Some(i);
            }
            i = i + 1;
        }
        proof {
            lemma_map_of_no_match(self.entries@, key@);
        }
        None
    }

    /// Stores the association from `key` to `url`. A `put` on an existing key
    /// overwrites its value silently and adds no second entry; a `put` on a
    /// fresh key adds one entry. The in-process backend never fails.
    pub fn put(&mut self, key: &Vec<u8>, url: &Vec<u8>) -> (r: Result<(), BackendError>)
        ensures
            r is Ok,
            final(self)@ == old(self)@.insert(key@, url@),
            final(self).spec_len() == if old(self)@.dom().contains(key@) {
                old(self).spec_len()
            } else {
                old(self).spec_len() + 1
            },
    {
        let entry = (copy_bytes(key), copy_bytes(url));
        match self.find(key) {
            Some(i) => {
                proof {
                    lemma_map_of_update(self.entries@, i as int, entry);
                }
                self.entries.set(i, entry);
            },
            None => {
                proof {
                    lemma_map_of_push_fresh(self.entries@, entry);
                }
                self.entries.push(entry);
            },
        }
        Ok(())
    }

    /// Looks the origin URL for `key` up: its value when the key is present,
    /// nothing when it is absent.
    pub fn get(&self, key: &Vec<u8>) -> (r: Option<Vec<u8>>)
        ensures
            match r {
                Some(url) => self@.dom().contains(key@) && url@ == self@[key@],
                None => !self@.dom().contains(key@),
            },
    {
        match self.find(key) {
            Some(i) => {
                proof {
                    lemma_map_of_match(self.entries@, i as int);
                }
                Some(copy_bytes(&self.entries[i].1))
            },
            None => None,
        }
    }

    /// Whether the backend holds an entry for `key`.
    pub fn contains_key(&self, key: &Vec<u8>) -> (b: bool)
        ensures
            b == self@.dom().contains(key@),
    {
        match self.find(key) {
            Some(_) => true,
            None => false,
        }
    }
}

} // verus!
