//! Media items and the media rewriter.
//!
//! A media item carries a content reference and a thumbnail reference, both
//! origin URLs when the item arrives from the content provider. Rewriting
//! stores each URL in the keystore and replaces the field with the local
//! reference, after which the item is terminal: the tree walker never
//! rewrites an already-rewritten item again.

use crate::keystore::{store_model, Keystore, KeystoreError, local_ref};
use vstd::prelude::*;

verus! {

/// A media item: a content reference and a thumbnail reference.
pub struct Media {
    pub content: Vec<u8>,
    pub thumbnail: Vec<u8>,
}

/// The mathematical value of a media item: its two references.
pub ghost struct MediaV {
    pub content: Seq<u8>,
    pub thumbnail: Seq<u8>,
}

impl View for Media {
    type V = MediaV;

    open spec fn view(&self) -> MediaV {
        MediaV { content: self.content@, thumbnail: self.thumbnail@ }
    }
}

/// The profile-picture reference embedded in every post node.
pub struct AuthorRef {
    pub pfp: Vec<u8>,
}

impl View for AuthorRef {
    type V = Seq<u8>;

    open spec fn view(&self) -> Seq<u8> {
        self.pfp@
    }
}

/// Failure while rewriting one media item: the content store call failed, or
/// the thumbnail store call failed after the content field was already
/// rewritten.
#[derive(Clone, Copy, Debug, PartialEq, Eq, Structural)]
pub enum MediaRewriteError {
    Content(KeystoreError),
    Thumbnail(KeystoreError),
}

/// What rewriting one media item does to the backend mapping: it stores the
/// content URL, then the thumbnail URL.
pub open spec fn media_stored(m: Map<Seq<u8>, Seq<u8>>, item: MediaV) -> Map<Seq<u8>, Seq<u8>> {
    store_model(store_model(m, item.content), item.thumbnail)
}

/// Rewrites one media item in place: stores the content URL, then the
/// thumbnail URL, replacing each field with its local reference. Were a
/// store call to fail, the fields already rewritten would keep their new
/// values and the error would be returned for the caller's failure policy;
/// the in-process backend never fails, so here the rewrite always completes.
pub fn rewrite_media(item: &mut Media, ks: &mut Keystore) -> (r: Result<(), MediaRewriteError>)
    ensures
        r is Ok,
        final (item)@.content == local_ref(old(item)@.content),
        final (item)@.thumbnail == local_ref(old(item)@.thumbnail),
        final (ks)@ == media_stored(old(ks)@, old(item)@),
{
    let content = match ks.store(&item.content) {
        Ok(re) => re,
        Err(e) => {
            return Err(MediaRewriteError::Content(e));
        },
    };
    item.content = content;
    let thumbnail = match ks.store(&item.thumbnail) {
        Ok(re) => re,
        Err(e) => {
            return Err(MediaRewriteError::Thumbnail(e));
        },
    };
    item.thumbnail = thumbnail;
    Ok(())
}

} // verus!
