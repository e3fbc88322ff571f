//! Media redirection cache for a social-media proxy frontend.
//!
//! Fetched user, post and thread structures carry media references that point
//! at the upstream content-delivery host. This library derives a stable cache
//! key from every origin URL, records the mapping in a key-value backend, and
//! rewrites the fetched tree so that every media field holds an opaque local
//! reference of the form `proxy/<key>` instead of the origin URL. The proxy
//! endpoint later resolves such a reference back to the origin URL.

pub mod backend;
pub mod keys;
pub mod keystore;
pub mod media;
pub mod status;
pub mod walker;
