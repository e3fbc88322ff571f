//! The keystore facade over the configured backend.
//!
//! `store` derives the cache key of an origin URL, records the key-to-URL
//! association in the backend, and returns the local reference `proxy/<key>`
//! that outgoing responses embed in place of the origin URL. `resolve` is the
//! inverse used by the proxy endpoint: it extracts the key from a local
//! reference and looks the origin URL up, reporting "not found" for a
//! reference that no `store` produced.

use crate::backend::{BackendError, MemoryBackend};
use crate::keys::{derive_key, key_of, lemma_key_of_injective, lemma_key_of_len};
use vstd::prelude::*;

verus! {

/// A keystore failure: the backend failed, or a resolved reference named a
/// key the backend does not hold.
#[derive(Clone, Copy, Debug, PartialEq, Eq, Structural)]
pub enum KeystoreError {
    Backend(BackendError),
    NotFound,
}

/// The fixed path segment that every local reference starts with: `proxy/`.
pub open spec fn proxy_prefix() -> Seq<u8> {
    seq![0x70u8, 0x72u8, 0x6fu8, 0x78u8, 0x79u8, 0x2fu8]
}

/// The local reference under which a stored origin URL is served:
/// `proxy/<key>`.
pub open spec fn local_ref(url: Seq<u8>) -> Seq<u8> {
    proxy_prefix() + key_of(url)
}

/// What `store` does to the backend mapping: it associates the URL's key
/// with the URL.
pub open spec fn store_model(m: Map<Seq<u8>, Seq<u8>>, url: Seq<u8>) -> Map<Seq<u8>, Seq<u8>> {
    m.insert(key_of(url), url)
}

/// What `resolve` answers over the backend mapping: the URL stored under the
/// reference's key part, provided the reference carries the proxy prefix and
/// the key is present; nothing otherwise.
pub open spec fn resolve_model(m: Map<Seq<u8>, Seq<u8>>, re: Seq<u8>) -> Option<Seq<u8>> {
    if re.len() >= 6 && re.take(6) == proxy_prefix() && m.dom().contains(re.skip(6)) {
        Some(m[re.skip(6)])
    } else {
        None
    }
}

/// Storing the same URL twice leaves the mapping exactly as one `store`
/// left it: no duplicate entry arises, and — since the reference is the pure
/// `local_ref` of the URL — both calls yield the same local reference.
pub proof fn lemma_store_idempotent(m: Map<Seq<u8>, Seq<u8>>, url: Seq<u8>)
    ensures
        store_model(store_model(m, url), url) == store_model(m, url),
{
    assert(store_model(store_model(m, url), url) =~= store_model(m, url));
}

/// Resolving the reference that `store` returned yields the stored origin
/// URL, whatever else the mapping holds.
pub proof fn lemma_store_resolve_round_trip(m: Map<Seq<u8>, Seq<u8>>, url: Seq<u8>)
    ensures
        resolve_model(store_model(m, url), local_ref(url)) == Some(url),
{
    lemma_key_of_len(url);
    assert(local_ref(url).take(6) =~= proxy_prefix());
    assert(local_ref(url).skip(6) =~= key_of(url));
}

/// A later store of a different URL never disturbs an earlier stored URL:
/// its reference still resolves to it. Distinct URLs have distinct keys, so
/// no store can clobber another URL's entry.
pub proof fn lemma_store_no_collision(m: Map<Seq<u8>, Seq<u8>>, u1: Seq<u8>, u2: Seq<u8>)
    requires
        u1 != u2,
    ensures
        resolve_model(store_model(store_model(m, u1), u2), local_ref(u1)) == Some(u1),
{
    if key_of(u1) == key_of(u2) {
        lemma_key_of_injective(u1, u2);
    }
    lemma_key_of_len(u1);
    assert(local_ref(u1).take(6) =~= proxy_prefix());
    assert(local_ref(u1).skip(6) =~= key_of(u1));
}

/// The keystore: exactly one configured backend, selected at startup. The
/// in-process variant is the one whose state lives in this process; the
/// external variants perform I/O and are driven outside the library against
/// the same `local_ref`/`resolve_model` contract.
pub enum Keystore {
    Memory(MemoryBackend),
}

impl View for Keystore {
    type V = Map<Seq<u8>, Seq<u8>>;

    open spec fn view(&self) -> Map<Seq<u8>, Seq<u8>> {
        match self {
            Keystore::Memory(mem) => mem@,
        }
    }
}

impl Keystore {
    /// The number of entries the backend holds.
    pub open spec fn spec_len(&self) -> nat {
        match self {
            Keystore::Memory(mem) => mem.spec_len(),
        }
    }

    /// Creates a keystore over a fresh in-process backend.
    pub fn memory() -> (r: Keystore)
        ensures
            r@ == Map::<Seq<u8>, Seq<u8>>::empty(),
            r.spec_len() == 0,
    {
        Keystore::Memory(MemoryBackend::new())
    }

    /// The number of entries the backend holds.
    pub fn len(&self) -> (n: usize)
        ensures
            n == self.spec_len(),
    {
        match self {
            Keystore::Memory(mem) => mem.len(),
        }
    }

    /// Stores an origin URL and returns its local reference. Storing is
    /// idempotent: a URL already stored keeps its single entry and yields
    /// the same reference again.
    pub fn store(&mut self, url: &Vec<u8>) -> (r: Result<Vec<u8>, KeystoreError>)
        ensures
            match r {
                Ok(re) => re@ == local_ref(url@),
                Err(_) => false,
            },
            final (self)@ == store_model(old(self)@, url@),
            final (self).spec_len() == if old(self)@.dom().contains(key_of(url@)) {
                old(self).spec_len()
            } else {
                old(self).spec_len() + 1
            },
    {
        let key = derive_key(url);
        let mut re: Vec<u8> = Vec::new();
        re.push(0x70);
        re.push(0x72);
        re.push(0x6f);
        re.push(0x78);
        re.push(0x79);
        re.push(0x2f);
        let mut i: usize = 0;
        while i < key.len()
            invariant
                i <= key@.len(),
                re@ == proxy_prefix() + key@.take(i as int),
            decreases key@.len() - i,
        {
            re.push(key[i]);
            proof {
                assert(key@.take(i + 1) =~= key@.take(i as int).push(key@[i as int]));
                assert(re@ =~= proxy_prefix() + key@.take(i + 1));
            }
            i = i + 1;
        }
        proof {
            assert(key@.take(key@.len() as int) =~= key@);
        }
        match self {
            Keystore::Memory(mem) => {
                match mem.put(&key, url) {
                    Ok(_) => Ok(re),
                    Err(e) => Err(KeystoreError::Backend(e)),
                }
            },
        }
    }

    /// Resolves a local reference back to the origin URL it was stored for.
    /// Every other input — a reference without the proxy prefix, or one whose
    /// key the backend does not hold — is answered with `NotFound`.
    pub fn resolve(&self, re: &Vec<u8>) -> (r: Result<Vec<u8>, KeystoreError>)
        ensures
            match r {
                Ok(url) => resolve_model(self@, re@) == Some(url@),
                Err(e) => resolve_model(self@, re@) is None && e == KeystoreError::NotFound,
            },
    {
        if re.len() < 6 {
            return Err(KeystoreError::NotFound);
        }
        if re[0] != 0x70 || re[1] != 0x72 || re[2] != 0x6f || re[3] != 0x78 || re[4] != 0x79
            || re[5] != 0x2f {
            proof {
                assert(re@.take(6)[0] == re@[0] && re@.take(6)[1] == re@[1] && re@.take(6)[2]
                    == re@[2] && re@.take(6)[3] == re@[3] && re@.take(6)[4] == re@[4]
                    && re@.take(6)[5] == re@[5]);
            }
            return Err(KeystoreError::NotFound);
        }
        proof {
            assert(re@.take(6) =~= proxy_prefix());
        }
        let mut key: Vec<u8> = Vec::new();
        let mut i: usize = 6;
        while i < re.len()
            invariant
                6 <= i <= re@.len(),
                key@ == re@.subrange(6, i as int),
            decreases re@.len() - i,
        {
            key.push(re[i]);
            proof {
                assert(re@.subrange(6, i + 1) =~= re@.subrange(6, i as int).push(re@[i as int]));
            }
            i = i + 1;
        }
        proof {
            assert(key@ =~= re@.skip(6));
        }
        match self {
            Keystore::Memory(mem) => {
                match mem.get(&key) {
                    Some(url) => Ok(url),
                    None => Err(KeystoreError::NotFound),
                }
            },
        }
    }
}

} // verus!
