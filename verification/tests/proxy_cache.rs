use shoelace::backend::MemoryBackend;
use shoelace::keys::derive_key;
use shoelace::keystore::{Keystore, KeystoreError};
use shoelace::status::status_marker;

fn bytes(s: &str) -> Vec<u8> {
    s.as_bytes().to_vec()
}

/// Test-local hex encoding used as the expected key of a URL.
fn hex_of(s: &str) -> Vec<u8> {
    let digits = b"0123456789abcdef";
    let mut out = Vec::new();
    for b in s.as_bytes() {
        out.push(digits[(b >> 4) as usize]);
        out.push(digits[(b & 0x0f) as usize]);
    }
    out
}

fn reference_of(s: &str) -> Vec<u8> {
    let mut out = bytes("proxy/");
    out.extend_from_slice(&hex_of(s));
    out
}

#[test]
fn derive_key_is_deterministic() {
    let url = bytes("https://cdn.example/img1.jpg");
    assert_eq!(derive_key(&url), derive_key(&url));
}

#[test]
fn derive_key_exact_encoding() {
    assert_eq!(derive_key(&bytes("ab")), bytes("6162"));
    assert_eq!(derive_key(&bytes("")), bytes(""));
}

#[test]
fn derive_key_distinct_urls_distinct_keys() {
    let urls = [
        "https://cdn.example/img1.jpg",
        "https://cdn.example/img2.jpg",
        "https://cdn.example/img1.jpG",
        "http://cdn.example/img1.jpg",
        "",
        "a",
        "aa",
    ];
    for i in 0..urls.len() {
        for j in 0..urls.len() {
            if i != j {
                assert_ne!(derive_key(&bytes(urls[i])), derive_key(&bytes(urls[j])));
            }
        }
    }
}

#[test]
fn store_is_idempotent() {
    let mut ks = Keystore::memory();
    let url = bytes("https://cdn.example/img1.jpg");
    let first = ks.store(&url).unwrap();
    let second = ks.store(&url).unwrap();
    assert_eq!(first, second);
    assert_eq!(ks.len(), 1);
}

#[test]
fn store_two_urls_two_entries() {
    let mut ks = Keystore::memory();
    ks.store(&bytes("https://cdn.example/img1.jpg")).unwrap();
    ks.store(&bytes("https://cdn.example/img2.jpg")).unwrap();
    assert_eq!(ks.len(), 2);
}

#[test]
fn store_resolve_round_trip() {
    let mut ks = Keystore::memory();
    let url = bytes("https://cdn.example/img1.jpg");
    let re = ks.store(&url).unwrap();
    assert_eq!(ks.resolve(&re), Ok(url));
}

#[test]
fn memory_scenario_exact_reference() {
    let mut ks = Keystore::memory();
    let url = "https://cdn.example/img1.jpg";
    let re = ks.store(&bytes(url)).unwrap();
    assert_eq!(re, reference_of(url));
    assert_eq!(
        String::from_utf8(re.clone()).unwrap(),
        "proxy/68747470733a2f2f63646e2e6578616d706c652f696d67312e6a7067"
    );
    assert_eq!(ks.resolve(&re), Ok(bytes(url)));
    assert_eq!(ks.resolve(&bytes("proxy/deadbeef")), Err(KeystoreError::NotFound));
}

#[test]
fn resolve_rejects_foreign_references() {
    let mut ks = Keystore::memory();
    let url = bytes("https://cdn.example/img1.jpg");
    let re = ks.store(&url).unwrap();
    assert_eq!(ks.resolve(&bytes("")), Err(KeystoreError::NotFound));
    assert_eq!(ks.resolve(&bytes("prox")), Err(KeystoreError::NotFound));
    assert_eq!(ks.resolve(&bytes("static/6162")), Err(KeystoreError::NotFound));
    let mut truncated = re.clone();
    truncated.pop();
    assert_eq!(ks.resolve(&truncated), Err(KeystoreError::NotFound));
}

#[test]
fn backend_put_overwrites_without_duplicating() {
    let mut mem = MemoryBackend::new();
    let key = bytes("6162");
    mem.put(&key, &bytes("one")).unwrap();
    mem.put(&key, &bytes("two")).unwrap();
    assert_eq!(mem.len(), 1);
    assert_eq!(mem.get(&key), Some(bytes("two")));
    assert!(mem.contains_key(&key));
    assert_eq!(mem.get(&bytes("6163")), None);
    assert!(!mem.contains_key(&bytes("6163")));
}

#[test]
fn status_marker_cases() {
    assert_eq!(status_marker(404), "??");
    assert_eq!(status_marker(400), "!!");
    assert_eq!(status_marker(500), "!!");
    assert_eq!(status_marker(200), "<3");
    assert_eq!(status_marker(399), "<3");
}
