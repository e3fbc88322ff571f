//! The tree walker: rewriting every media reference in a fetched structure.
//!
//! A fetched user carries a profile picture and a set of posts; a fetched
//! post carries its author's profile picture, its own media, a parent chain
//! and a reply set, each parent and reply with a profile picture and media of
//! its own. The walker stores every origin URL through the keystore and
//! replaces the field with the local reference.
//!
//! Failure policy: a failed store for the root author's profile picture or
//! for the root post's own media aborts the whole rewrite, and no partial
//! tree is returned; a failed store inside a parent or a reply is swallowed
//! and the field keeps its origin URL. Sibling posts of one user share the
//! author's single stored reference: the author's profile picture is stored
//! exactly once per user rewrite.

use crate::backend::copy_bytes;
use crate::keystore::{store_model, Keystore, local_ref};
use crate::media::{media_stored, AuthorRef, Media, MediaV};
use vstd::prelude::*;

verus! {

/// A media-bearing node of a thread tree: one parent or reply post, or one
/// post of a fetched user.
pub struct PostNode {
    pub author: AuthorRef,
    pub media: Vec<Media>,
}

/// The mathematical value of a post node.
pub ghost struct PostNodeV {
    pub pfp: Seq<u8>,
    pub media: Seq<MediaV>,
}

impl View for PostNode {
    type V = PostNodeV;

    open spec fn view(&self) -> PostNodeV {
        PostNodeV { pfp: self.author@, media: self.media@.map_values(|m: Media| m@) }
    }
}

/// A fetched thread tree: the root post with its author, its own media, its
/// ancestor chain and its replies.
pub struct Post {
    pub author: AuthorRef,
    pub media: Vec<Media>,
    pub parents: Vec<PostNode>,
    pub replies: Vec<PostNode>,
}

/// The mathematical value of a thread tree.
pub ghost struct PostV {
    pub pfp: Seq<u8>,
    pub media: Seq<MediaV>,
    pub parents: Seq<PostNodeV>,
    pub replies: Seq<PostNodeV>,
}

impl View for Post {
    type V = PostV;

    open spec fn view(&self) -> PostV {
        PostV {
            pfp: self.author@,
            media: self.media@.map_values(|m: Media| m@),
            parents: self.parents@.map_values(|n: PostNode| n@),
            replies: self.replies@.map_values(|n: PostNode| n@),
        }
    }
}

/// A fetched user: the profile picture and the user's posts, all authored by
/// that same user.
pub struct User {
    pub pfp: Vec<u8>,
    pub posts: Vec<PostNode>,
}

/// The mathematical value of a fetched user.
pub ghost struct UserV {
    pub pfp: Seq<u8>,
    pub posts: Seq<PostNodeV>,
}

impl View for User {
    type V = UserV;

    open spec fn view(&self) -> UserV {
        UserV { pfp: self.pfp@, posts: self.posts@.map_values(|n: PostNode| n@) }
    }
}

/// The aggregate error of a failed tree rewrite: the root author's profile
/// picture could not be stored, or the root post's own media could not.
#[derive(Clone, Copy, Debug, PartialEq, Eq, Structural)]
pub enum RewriteError {
    RootAuthor,
    RootMedia,
}

/// What storing a sequence of media items, in order, does to the backend
/// mapping.
pub open spec fn media_seq_stored(m: Map<Seq<u8>, Seq<u8>>, s: Seq<MediaV>) -> Map<
    Seq<u8>,
    Seq<u8>,
>
    decreases s.len(),
{
    if s.len() == 0 {
        m
    } else {
        media_seq_stored(media_stored(m, s[0]), s.drop_first())
    }
}

/// What rewriting one parent or reply node does to the backend mapping: its
/// profile picture is stored, then its media items.
pub open spec fn node_stored(m: Map<Seq<u8>, Seq<u8>>, n: PostNodeV) -> Map<Seq<u8>, Seq<u8>> {
    media_seq_stored(store_model(m, n.pfp), n.media)
}

/// What rewriting a sequence of parent or reply nodes, in order, does to the
/// backend mapping.
pub open spec fn node_seq_stored(m: Map<Seq<u8>, Seq<u8>>, s: Seq<PostNodeV>) -> Map<
    Seq<u8>,
    Seq<u8>,
>
    decreases s.len(),
{
    if s.len() == 0 {
        m
    } else {
        node_seq_stored(node_stored(m, s[0]), s.drop_first())
    }
}

/// What rewriting a user's posts does to the backend mapping: only their
/// media is stored; their author reference reuses the user's single stored
/// profile picture.
pub open spec fn user_posts_stored(m: Map<Seq<u8>, Seq<u8>>, s: Seq<PostNodeV>) -> Map<
    Seq<u8>,
    Seq<u8>,
>
    decreases s.len(),
{
    if s.len() == 0 {
        m
    } else {
        user_posts_stored(media_seq_stored(m, s[0].media), s.drop_first())
    }
}

/// What a whole post rewrite does to the backend mapping: root profile
/// picture, root media, then the parent chain, then the replies.
pub open spec fn post_stored(m: Map<Seq<u8>, Seq<u8>>, p: PostV) -> Map<Seq<u8>, Seq<u8>> {
    node_seq_stored(
        node_seq_stored(media_seq_stored(store_model(m, p.pfp), p.media), p.parents),
        p.replies,
    )
}

/// What a whole user rewrite does to the backend mapping: the profile
/// picture exactly once, then every post's media.
pub open spec fn user_stored(m: Map<Seq<u8>, Seq<u8>>, u: UserV) -> Map<Seq<u8>, Seq<u8>> {
    user_posts_stored(store_model(m, u.pfp), u.posts)
}

/// Both references of a media item have been replaced with the local
/// references of its origin URLs.
pub open spec fn media_rewritten(orig: MediaV, new: MediaV) -> bool {
    &&& new.content == local_ref(orig.content)
    &&& new.thumbnail == local_ref(orig.thumbnail)
}

/// A parent or reply node has been fully rewritten: profile picture and
/// every media item.
pub open spec fn node_rewritten(orig: PostNodeV, new: PostNodeV) -> bool {
    &&& new.pfp == local_ref(orig.pfp)
    &&& new.media.len() == orig.media.len()
    &&& forall|k: int|
        0 <= k < orig.media.len() ==> #[trigger] media_rewritten(orig.media[k], new.media[k])
}

/// A sequence of parent or reply nodes has been fully rewritten, item by
/// item, in order.
pub open spec fn nodes_rewritten(orig: Seq<PostNodeV>, new: Seq<PostNodeV>) -> bool {
    &&& new.len() == orig.len()
    &&& forall|j: int| 0 <= j < orig.len() ==> #[trigger] node_rewritten(orig[j], new[j])
}

/// A whole thread tree has been rewritten.
pub open spec fn post_rewritten(orig: PostV, new: PostV) -> bool {
    &&& new.pfp == local_ref(orig.pfp)
    &&& new.media.len() == orig.media.len()
    &&& forall|i: int|
        0 <= i < orig.media.len() ==> #[trigger] media_rewritten(orig.media[i], new.media[i])
    &&& nodes_rewritten(orig.parents, new.parents)
    &&& nodes_rewritten(orig.replies, new.replies)
}

/// A whole user has been rewritten. Every post's author reference equals the
/// single local reference of the user's profile picture: sibling posts share
/// one stored reference rather than deriving their own.
pub open spec fn user_rewritten(orig: UserV, new: UserV) -> bool {
    &&& new.pfp == local_ref(orig.pfp)
    &&& new.posts.len() == orig.posts.len()
    &&& forall|i: int|
        0 <= i < orig.posts.len() ==> (#[trigger] new.posts[i]).pfp == local_ref(orig.pfp)
            && new.posts[i].media.len() == orig.posts[i].media.len() && (forall|k: int|
            0 <= k < orig.posts[i].media.len() ==> #[trigger] media_rewritten(
                orig.posts[i].media[k],
                new.posts[i].media[k],
            ))
}

proof fn lemma_media_seq_stored_push(m: Map<Seq<u8>, Seq<u8>>, s: Seq<MediaV>, x: MediaV)
    ensures
        media_seq_stored(m, s.push(x)) == media_stored(media_seq_stored(m, s), x),
    decreases s.len(),
{
    if s.len() == 0 {
        assert(s.push(x)[0] == x);
        assert(s.push(x).drop_first() =~= Seq::<MediaV>::empty());
        assert(media_seq_stored(media_stored(m, x), Seq::<MediaV>::empty()) == media_stored(m, x));
    } else {
        assert(s.push(x)[0] == s[0]);
        assert(s.push(x).drop_first() =~= s.drop_first().push(x));
        lemma_media_seq_stored_push(media_stored(m, s[0]), s.drop_first(), x);
    }
}

proof fn lemma_node_seq_stored_push(m: Map<Seq<u8>, Seq<u8>>, s: Seq<PostNodeV>, x: PostNodeV)
    ensures
        node_seq_stored(m, s.push(x)) == node_stored(node_seq_stored(m, s), x),
    decreases s.len(),
{
    if s.len() == 0 {
        assert(s.push(x)[0] == x);
        assert(s.push(x).drop_first() =~= Seq::<PostNodeV>::empty());
        assert(node_seq_stored(node_stored(m, x), Seq::<PostNodeV>::empty()) == node_stored(m, x));
    } else {
        assert(s.push(x)[0] == s[0]);
        assert(s.push(x).drop_first() =~= s.drop_first().push(x));
        lemma_node_seq_stored_push(node_stored(m, s[0]), s.drop_first(), x);
    }
}

proof fn lemma_user_posts_stored_push(m: Map<Seq<u8>, Seq<u8>>, s: Seq<PostNodeV>, x: PostNodeV)
    ensures
        user_posts_stored(m, s.push(x)) == media_seq_stored(user_posts_stored(m, s), x.media),
    decreases s.len(),
{
    if s.len() == 0 {
        assert(s.push(x)[0] == x);
        assert(s.push(x).drop_first() =~= Seq::<PostNodeV>::empty());
        assert(user_posts_stored(media_seq_stored(m, x.media), Seq::<PostNodeV>::empty())
            == media_seq_stored(m, x.media));
    } else {
        assert(s.push(x)[0] == s[0]);
        assert(s.push(x).drop_first() =~= s.drop_first().push(x));
        lemma_user_posts_stored_push(media_seq_stored(m, s[0].media), s.drop_first(), x);
    }
}

/// Stores one origin URL and hands its local reference back. A backend
/// failure would leave the field's origin URL in place (the swallowing
/// policy for nested nodes); the in-process backend never fails.
fn store_or_keep(url: &Vec<u8>, ks: &mut Keystore) -> (r: Vec<u8>)
    ensures
        r@ == local_ref(url@),
        final (ks)@ == store_model(old(ks)@, url@),
{
    match ks.store(url) {
        Ok(re) => re,
        Err(_) => copy_bytes(url),
    }
}

/// Rewrites one media item of a nested node.
fn store_media_item(item: &Media, ks: &mut Keystore) -> (r: Media)
    ensures
        media_rewritten(item@, r@),
        final (ks)@ == media_stored(old(ks)@, item@),
{
    let content = store_or_keep(&item.content, ks);
    let thumbnail = store_or_keep(&item.thumbnail, ks);
    Media { content, thumbnail }
}

/// Rewrites the media items of one node, in order.
fn store_media_vec(media: &Vec<Media>, ks: &mut Keystore) -> (r: Vec<Media>)
    ensures
        r@.len() == media@.len(),
        forall|i: int|
            0 <= i < media@.len() ==> #[trigger] media_rewritten(media@[i]@, r@[i]@),
        final (ks)@ == media_seq_stored(old(ks)@, media@.map_values(|m: Media| m@)),
{
    let ghost mv = media@.map_values(|m: Media| m@);
    let mut r: Vec<Media> = Vec::new();
    let mut i: usize = 0;
    proof {
        assert(mv.take(0) =~= Seq::<MediaV>::empty());
    }
    while i < media.len()
        invariant
            i <= media@.len(),
            mv == media@.map_values(|m: Media| m@),
            r@.len() == i,
            forall|j: int| 0 <= j < i ==> #[trigger] media_rewritten(media@[j]@, r@[j]@),
            ks@ == media_seq_stored(old(ks)@, mv.take(i as int)),
        decreases media@.len() - i,
    {
        let item = store_media_item(&media[i], ks);
        r.push(item);
        proof {
            lemma_media_seq_stored_push(old(ks)@, mv.take(i as int), mv[i as int]);
            assert(mv.take(i + 1) =~= mv.take(i as int).push(mv[i as int]));
            assert(mv[i as int] == media@[i as int]@);
        }
        i = i + 1;
    }
    proof {
        assert(mv.take(mv.len() as int) =~= mv);
    }
    r
}

/// Rewrites one parent or reply node: its author's profile picture, then its
/// media items. Store failures inside such a node are swallowed.
fn rewrite_node(n: &PostNode, ks: &mut Keystore) -> (r: PostNode)
    ensures
        node_rewritten(n@, r@),
        final (ks)@ == node_stored(old(ks)@, n@),
{
    let pfp = store_or_keep(&n.author.pfp, ks);
    let media = store_media_vec(&n.media, ks);
    PostNode { author: AuthorRef { pfp }, media }
}

/// Rewrites a sequence of parent or reply nodes, in order.
fn rewrite_nodes(nodes: &Vec<PostNode>, ks: &mut Keystore) -> (r: Vec<PostNode>)
    ensures
        nodes_rewritten(nodes@.map_values(|n: PostNode| n@), r@.map_values(|n: PostNode| n@)),
        final (ks)@ == node_seq_stored(old(ks)@, nodes@.map_values(|n: PostNode| n@)),
{
    let ghost nv = nodes@.map_values(|n: PostNode| n@);
    let mut r: Vec<PostNode> = Vec::new();
    let mut i: usize = 0;
    proof {
        assert(nv.take(0) =~= Seq::<PostNodeV>::empty());
    }
    while i < nodes.len()
        invariant
            i <= nodes@.len(),
            nv == nodes@.map_values(|n: PostNode| n@),
            r@.len() == i,
            forall|j: int| 0 <= j < i ==> #[trigger] node_rewritten(nodes@[j]@, r@[j]@),
            ks@ == node_seq_stored(old(ks)@, nv.take(i as int)),
        decreases nodes@.len() - i,
    {
        let node = rewrite_node(&nodes[i], ks);
        r.push(node);
        proof {
            lemma_node_seq_stored_push(old(ks)@, nv.take(i as int), nv[i as int]);
            assert(nv.take(i + 1) =~= nv.take(i as int).push(nv[i as int]));
            assert(nv[i as int] == nodes@[i as int]@);
        }
        i = i + 1;
    }
    proof {
        assert(nv.take(nv.len() as int) =~= nv);
        assert(forall|j: int|
            0 <= j < nv.len() ==> r@.map_values(|n: PostNode| n@)[j] == r@[j]@);
        assert(forall|j: int| 0 <= j < nv.len() ==> nv[j] == nodes@[j]@);
    }
    r
}

/// Fetch-side rewrite of a whole thread tree. The root author's profile
/// picture and the root post's media are stored first; a failure there
/// aborts the rewrite and returns no tree. The parent chain and the reply
/// set follow, their failures swallowed. The in-process backend never fails,
/// so the rewrite is total here.
pub fn rewrite_post(p: Post, ks: &mut Keystore) -> (r: Result<Post, RewriteError>)
    ensures
        match r {
            Ok(q) => post_rewritten(p@, q@),
            Err(_) => false,
        },
        final (ks)@ == post_stored(old(ks)@, p@),
{
    let pfp = match ks.store(&p.author.pfp) {
        Ok(re) => re,
        Err(_) => {
            return Err(RewriteError::RootAuthor);
        },
    };
    let ghost m1 = ks@;
    let ghost mv = p.media@.map_values(|m: Media| m@);
    let mut media: Vec<Media> = Vec::new();
    let mut i: usize = 0;
    proof {
        assert(mv.take(0) =~= Seq::<MediaV>::empty());
    }
    while i < p.media.len()
        invariant
            i <= p.media@.len(),
            mv == p.media@.map_values(|m: Media| m@),
            media@.len() == i,
            forall|j: int| 0 <= j < i ==> #[trigger] media_rewritten(p.media@[j]@, media@[j]@),
            ks@ == media_seq_stored(m1, mv.take(i as int)),
        decreases p.media@.len() - i,
    {
        let content = match ks.store(&p.media[i].content) {
            Ok(re) => re,
            Err(_) => {
                return Err(RewriteError::RootMedia);
            },
        };
        let thumbnail = match ks.store(&p.media[i].thumbnail) {
            Ok(re) => re,
            Err(_) => {
                return Err(RewriteError::RootMedia);
            },
        };
        media.push(Media { content, thumbnail });
        proof {
            lemma_media_seq_stored_push(m1, mv.take(i as int), mv[i as int]);
            assert(mv.take(i + 1) =~= mv.take(i as int).push(mv[i as int]));
            assert(mv[i as int] == p.media@[i as int]@);
        }
        i = i + 1;
    }
    proof {
        assert(mv.take(mv.len() as int) =~= mv);
    }
    let parents = rewrite_nodes(&p.parents, ks);
    let replies = rewrite_nodes(&p.replies, ks);
    let q = Post { author: AuthorRef { pfp }, media, parents, replies };
    proof {
        assert(forall|j: int|
            0 <= j < p.media@.len() ==> p@.media[j] == p.media@[j]@ && q@.media[j]
                == q.media@[j]@);
    }
    Ok(q)
}

/// Fetch-side rewrite of a whole user. The profile picture is stored exactly
/// once; every post's author reference receives that single local reference,
/// and every post's media is rewritten. A failure on the profile picture
/// aborts the rewrite; the in-process backend never fails, so the rewrite is
/// total here.
pub fn rewrite_user(u: User, ks: &mut Keystore) -> (r: Result<User, RewriteError>)
    ensures
        match r {
            Ok(q) => user_rewritten(u@, q@),
            Err(_) => false,
        },
        final (ks)@ == user_stored(old(ks)@, u@),
{
    let pfp = match ks.store(&u.pfp) {
        Ok(re) => re,
        Err(_) => {
            return Err(RewriteError::RootAuthor);
        },
    };
    let ghost m1 = ks@;
    let ghost nv = u.posts@.map_values(|n: PostNode| n@);
    let mut posts: Vec<PostNode> = Vec::new();
    let mut i: usize = 0;
    proof {
        assert(nv.take(0) =~= Seq::<PostNodeV>::empty());
    }
    while i < u.posts.len()
        invariant
            i <= u.posts@.len(),
            nv == u.posts@.map_values(|n: PostNode| n@),
            posts@.len() == i,
            pfp@ == local_ref(u.pfp@),
            forall|j: int|
                0 <= j < i ==> (#[trigger] posts@[j]@).pfp == local_ref(u.pfp@),
            forall|j: int|
                0 <= j < i ==> posts@[j]@.media.len() == u.posts@[j]@.media.len() && (forall|
                    k: int,
                |
                    0 <= k < u.posts@[j]@.media.len() ==> #[trigger] media_rewritten(
                        u.posts@[j]@.media[k],
                        posts@[j]@.media[k],
                    )),
            ks@ == user_posts_stored(m1, nv.take(i as int)),
        decreases u.posts@.len() - i,
    {
        let media = store_media_vec(&u.posts[i].media, ks);
        posts.push(PostNode { author: AuthorRef { pfp: copy_bytes(&pfp) }, media });
        proof {
            lemma_user_posts_stored_push(m1, nv.take(i as int), nv[i as int]);
            assert(nv.take(i + 1) =~= nv.take(i as int).push(nv[i as int]));
            assert(nv[i as int] == u.posts@[i as int]@);
        }
        i = i + 1;
    }
    proof {
        assert(nv.take(nv.len() as int) =~= nv);
    }
    let q = User { pfp, posts };
    proof {
        assert(forall|j: int| 0 <= j < u.posts@.len() ==> u@.posts[j] == u.posts@[j]@);
        assert(forall|j: int| 0 <= j < q.posts@.len() ==> q@.posts[j] == q.posts@[j]@);
    }
    Ok(q)
}

/// The outcome that the backend driver reports for one attempted store: the
/// local reference on success, nothing on a backend failure.
pub struct MediaOutcome {
    pub content: Option<Vec<u8>>,
    pub thumbnail: Option<Vec<u8>>,
}

/// The mathematical value of a media-store outcome.
pub ghost struct MediaOutcomeV {
    pub content: Option<Seq<u8>>,
    pub thumbnail: Option<Seq<u8>>,
}

impl View for MediaOutcome {
    type V = MediaOutcomeV;

    open spec fn view(&self) -> MediaOutcomeV {
        MediaOutcomeV {
            content: match self.content {
                Some(re) => Some(re@),
                None => None,
            },
            thumbnail: match self.thumbnail {
                Some(re) => Some(re@),
                None => None,
            },
        }
    }
}

/// The outcomes for one parent or reply node: its profile picture and its
/// media items.
pub struct NodeOutcome {
    pub pfp: Option<Vec<u8>>,
    pub media: Vec<MediaOutcome>,
}

/// The mathematical value of a node's outcomes.
pub ghost struct NodeOutcomeV {
    pub pfp: Option<Seq<u8>>,
    pub media: Seq<MediaOutcomeV>,
}

impl View for NodeOutcome {
    type V = NodeOutcomeV;

    open spec fn view(&self) -> NodeOutcomeV {
        NodeOutcomeV {
            pfp: match self.pfp {
                Some(re) => Some(re@),
                None => None,
            },
            media: self.media@.map_values(|o: MediaOutcome| o@),
        }
    }
}

/// The outcomes for a whole thread tree, in tree order.
pub struct PostOutcome {
    pub pfp: Option<Vec<u8>>,
    pub media: Vec<MediaOutcome>,
    pub parents: Vec<NodeOutcome>,
    pub replies: Vec<NodeOutcome>,
}

/// The mathematical value of a tree's outcomes.
pub ghost struct PostOutcomeV {
    pub pfp: Option<Seq<u8>>,
    pub media: Seq<MediaOutcomeV>,
    pub parents: Seq<NodeOutcomeV>,
    pub replies: Seq<NodeOutcomeV>,
}

impl View for PostOutcome {
    type V = PostOutcomeV;

    open spec fn view(&self) -> PostOutcomeV {
        PostOutcomeV {
            pfp: match self.pfp {
                Some(re) => Some(re@),
                None => None,
            },
            media: self.media@.map_values(|o: MediaOutcome| o@),
            parents: self.parents@.map_values(|o: NodeOutcome| o@),
            replies: self.replies@.map_values(|o: NodeOutcome| o@),
        }
    }
}

/// The outcomes for a whole user: the single profile-picture store and the
/// media of each post. There is no per-post profile-picture outcome: sibling
/// posts share the single stored reference by design.
pub struct UserOutcome {
    pub pfp: Option<Vec<u8>>,
    pub posts: Vec<Vec<MediaOutcome>>,
}

/// The mathematical value of a user's outcomes.
pub ghost struct UserOutcomeV {
    pub pfp: Option<Seq<u8>>,
    pub posts: Seq<Seq<MediaOutcomeV>>,
}

impl View for UserOutcome {
    type V = UserOutcomeV;

    open spec fn view(&self) -> UserOutcomeV {
        UserOutcomeV {
            pfp: match self.pfp {
                Some(re) => Some(re@),
                None => None,
            },
            posts: self.posts@.map_values(|v: Vec<MediaOutcome>| v@.map_values(|o: MediaOutcome| o@)),
        }
    }
}

/// The field value after one outcome is applied: the stored local reference
/// on success, the origin URL unchanged on a swallowed failure.
pub open spec fn applied(orig: Seq<u8>, out: Option<Seq<u8>>) -> Seq<u8> {
    match out {
        Some(re) => re,
        None => orig,
    }
}

/// One media item after its two outcomes are applied, field by field.
pub open spec fn media_applied(orig: MediaV, out: MediaOutcomeV, new: MediaV) -> bool {
    &&& new.content == applied(orig.content, out.content)
    &&& new.thumbnail == applied(orig.thumbnail, out.thumbnail)
}

/// One parent or reply node after its outcomes are applied.
pub open spec fn node_applied(orig: PostNodeV, out: NodeOutcomeV, new: PostNodeV) -> bool {
    &&& new.pfp == applied(orig.pfp, out.pfp)
    &&& new.media.len() == orig.media.len()
    &&& forall|k: int|
        0 <= k < orig.media.len() ==> #[trigger] media_applied(
            orig.media[k],
            out.media[k],
            new.media[k],
        )
}

/// A sequence of parent or reply nodes after their outcomes are applied.
pub open spec fn nodes_applied(
    orig: Seq<PostNodeV>,
    out: Seq<NodeOutcomeV>,
    new: Seq<PostNodeV>,
) -> bool {
    &&& new.len() == orig.len()
    &&& forall|j: int|
        0 <= j < orig.len() ==> #[trigger] node_applied(orig[j], out[j], new[j])
}

/// Every store of a media-outcome sequence succeeded.
pub open spec fn media_out_complete(out: Seq<MediaOutcomeV>) -> bool {
    forall|i: int|
        0 <= i < out.len() ==> (#[trigger] out[i]).content is Some && out[i].thumbnail is Some
}

/// The root-level stores of a tree all succeeded: the root author's profile
/// picture and every root media item.
pub open spec fn post_root_ok(out: PostOutcomeV) -> bool {
    out.pfp is Some && media_out_complete(out.media)
}

/// The outcome structure matches the tree's shape.
pub open spec fn post_outcome_fits(p: PostV, o: PostOutcomeV) -> bool {
    &&& o.media.len() == p.media.len()
    &&& o.parents.len() == p.parents.len()
    &&& o.replies.len() == p.replies.len()
    &&& forall|j: int|
        0 <= j < p.parents.len() ==> (#[trigger] o.parents[j]).media.len()
            == p.parents[j].media.len()
    &&& forall|j: int|
        0 <= j < p.replies.len() ==> (#[trigger] o.replies[j]).media.len()
            == p.replies[j].media.len()
}

/// The outcome structure matches the user's shape.
pub open spec fn user_outcome_fits(u: UserV, o: UserOutcomeV) -> bool {
    &&& o.posts.len() == u.posts.len()
    &&& forall|i: int|
        0 <= i < u.posts.len() ==> (#[trigger] o.posts[i]).len() == u.posts[i].media.len()
}

/// Applies the outcomes of one media item.
fn apply_media_item(item: &Media, out: &MediaOutcome) -> (r: Media)
    ensures
        media_applied(item@, out@, r@),
{
    let content = match &out.content {
        Some(re) => copy_bytes(re),
        None => copy_bytes(&item.content),
    };
    let thumbnail = match &out.thumbnail {
        Some(re) => copy_bytes(re),
        None => copy_bytes(&item.thumbnail),
    };
    Media { content, thumbnail }
}

/// Applies the outcomes of one node's media items, in order.
fn apply_media_vec(media: &Vec<Media>, outs: &Vec<MediaOutcome>) -> (r: Vec<Media>)
    requires
        outs@.len() == media@.len(),
    ensures
        r@.len() == media@.len(),
        forall|i: int|
            0 <= i < media@.len() ==> #[trigger] media_applied(media@[i]@, outs@[i]@, r@[i]@),
{
    let mut r: Vec<Media> = Vec::new();
    let mut i: usize = 0;
    while i < media.len()
        invariant
            i <= media@.len(),
            outs@.len() == media@.len(),
            r@.len() == i,
            forall|j: int|
                0 <= j < i ==> #[trigger] media_applied(media@[j]@, outs@[j]@, r@[j]@),
        decreases media@.len() - i,
    {
        let item = apply_media_item(&media[i], &outs[i]);
        r.push(item);
        i = i + 1;
    }
    r
}

/// Applies the outcomes of one parent or reply node. A failed store leaves
/// its field's origin URL in place; nothing here fails.
fn apply_node(n: &PostNode, out: &NodeOutcome) -> (r: PostNode)
    requires
        out.media@.len() == n.media@.len(),
    ensures
        node_applied(n@, out@, r@),
{
    let pfp = match &out.pfp {
        Some(re) => copy_bytes(re),
        None => copy_bytes(&n.author.pfp),
    };
    let media = apply_media_vec(&n.media, &out.media);
    PostNode { author: AuthorRef { pfp }, media }
}

/// Applies the outcomes of a sequence of parent or reply nodes, in order.
fn apply_nodes(nodes: &Vec<PostNode>, outs: &Vec<NodeOutcome>) -> (r: Vec<PostNode>)
    requires
        outs@.len() == nodes@.len(),
        forall|j: int|
            0 <= j < nodes@.len() ==> (#[trigger] outs@[j]).media@.len() == nodes@[j].media@.len(),
    ensures
        nodes_applied(
            nodes@.map_values(|n: PostNode| n@),
            outs@.map_values(|o: NodeOutcome| o@),
            r@.map_values(|n: PostNode| n@),
        ),
{
    let mut r: Vec<PostNode> = Vec::new();
    let mut i: usize = 0;
    while i < nodes.len()
        invariant
            i <= nodes@.len(),
            outs@.len() == nodes@.len(),
            forall|j: int|
                0 <= j < nodes@.len() ==> (#[trigger] outs@[j]).media@.len()
                    == nodes@[j].media@.len(),
            r@.len() == i,
            forall|j: int| 0 <= j < i ==> #[trigger] node_applied(nodes@[j]@, outs@[j]@, r@[j]@),
        decreases nodes@.len() - i,
    {
        let node = apply_node(&nodes[i], &outs[i]);
        r.push(node);
        i = i + 1;
    }
    proof {
        assert(forall|j: int|
            0 <= j < nodes@.len() ==> nodes@.map_values(|n: PostNode| n@)[j] == nodes@[j]@
                && outs@.map_values(|o: NodeOutcome| o@)[j] == outs@[j]@ && r@.map_values(
                |n: PostNode| n@,
            )[j] == r@[j]@);
    }
    r
}

/// Whether every store of a media-outcome sequence succeeded.
fn media_outs_complete(outs: &Vec<MediaOutcome>) -> (b: bool)
    ensures
        b == media_out_complete(outs@.map_values(|o: MediaOutcome| o@)),
{
    let ghost ov = outs@.map_values(|o: MediaOutcome| o@);
    let mut i: usize = 0;
    while i < outs.len()
        invariant
            i <= outs@.len(),
            ov == outs@.map_values(|o: MediaOutcome| o@),
            forall|j: int| 0 <= j < i ==> (#[trigger] ov[j]).content is Some
                && ov[j].thumbnail is Some,
        decreases outs@.len() - i,
    {
        if outs[i].content.is_none() || outs[i].thumbnail.is_none() {
            proof {
                assert(ov[i as int] == outs@[i as int]@);
            }
            return false;
        }
        i = i + 1;
    }
    true
}

/// Driver-side rewrite of a whole thread tree from reported store outcomes.
/// A failed store for the root author's profile picture aborts with
/// `RootAuthor`; a failed store for any root media item aborts with
/// `RootMedia`; either way no partial tree is returned. A failed store
/// inside a parent or a reply is swallowed: that field keeps its origin URL
/// and every sibling keeps its own outcome.
pub fn apply_post(p: &Post, o: &PostOutcome) -> (r: Result<Post, RewriteError>)
    requires
        post_outcome_fits(p@, o@),
    ensures
        match r {
            Ok(q) => {
                &&& post_root_ok(o@)
                &&& o@.pfp == Some(q@.pfp)
                &&& q@.media.len() == p@.media.len()
                &&& forall|i: int|
                    0 <= i < p@.media.len() ==> #[trigger] media_applied(
                        p@.media[i],
                        o@.media[i],
                        q@.media[i],
                    )
                &&& nodes_applied(p@.parents, o@.parents, q@.parents)
                &&& nodes_applied(p@.replies, o@.replies, q@.replies)
            },
            Err(e) => !post_root_ok(o@) && e == (if o@.pfp is None {
                RewriteError::RootAuthor
            } else {
                RewriteError::RootMedia
            }),
        },
{
    let pfp = match &o.pfp {
        Some(re) => copy_bytes(re),
        None => {
            return Err(RewriteError::RootAuthor);
        },
    };
    if !media_outs_complete(&o.media) {
        return Err(RewriteError::RootMedia);
    }
    let media = apply_media_vec(&p.media, &o.media);
    proof {
        assert forall|j: int| 0 <= j < p.parents@.len() implies (#[trigger] o.parents@[j]).media@.len()
            == p.parents@[j].media@.len() by {
            assert(o@.parents[j] == o.parents@[j]@);
            assert(p@.parents[j] == p.parents@[j]@);
        }
        assert forall|j: int| 0 <= j < p.replies@.len() implies (#[trigger] o.replies@[j]).media@.len()
            == p.replies@[j].media@.len() by {
            assert(o@.replies[j] == o.replies@[j]@);
            assert(p@.replies[j] == p.replies@[j]@);
        }
    }
    let parents = apply_nodes(&p.parents, &o.parents);
    let replies = apply_nodes(&p.replies, &o.replies);
    let q = Post { author: AuthorRef { pfp }, media, parents, replies };
    proof {
        assert(forall|i: int|
            0 <= i < p@.media.len() ==> p@.media[i] == p.media@[i]@ && o@.media[i]
                == o.media@[i]@ && q@.media[i] == q.media@[i]@);
    }
    Ok(q)
}

/// Driver-side rewrite of a whole user from reported store outcomes. The
/// profile picture was stored exactly once; on success every post's author
/// reference receives that single reference, and each post's media outcomes
/// are applied with nested failures swallowed. A failed profile-picture
/// store aborts with `RootAuthor` and returns no partial user.
pub fn apply_user(u: &User, o: &UserOutcome) -> (r: Result<User, RewriteError>)
    requires
        user_outcome_fits(u@, o@),
    ensures
        match r {
            Ok(q) => {
                &&& o@.pfp is Some
                &&& o@.pfp == Some(q@.pfp)
                &&& q@.posts.len() == u@.posts.len()
                &&& forall|i: int|
                    0 <= i < u@.posts.len() ==> (#[trigger] q@.posts[i]).pfp == q@.pfp
                        && q@.posts[i].media.len() == u@.posts[i].media.len() && (forall|k: int|
                        0 <= k < u@.posts[i].media.len() ==> #[trigger] media_applied(
                            u@.posts[i].media[k],
                            o@.posts[i][k],
                            q@.posts[i].media[k],
                        ))
            },
            Err(e) => o@.pfp is None && e == RewriteError::RootAuthor,
        },
{
    let pfp = match &o.pfp {
        Some(re) => copy_bytes(re),
        None => {
            return Err(RewriteError::RootAuthor);
        },
    };
    let mut posts: Vec<PostNode> = Vec::new();
    let mut i: usize = 0;
    while i < u.posts.len()
        invariant
            i <= u.posts@.len(),
            user_outcome_fits(u@, o@),
            o.posts@.len() == u.posts@.len(),
            pfp@ == o@.pfp.unwrap(),
            posts@.len() == i,
            forall|j: int| 0 <= j < i ==> (#[trigger] posts@[j]@).pfp == pfp@,
            forall|j: int|
                0 <= j < i ==> posts@[j]@.media.len() == u.posts@[j]@.media.len() && (forall|
                    k: int,
                |
                    0 <= k < u.posts@[j]@.media.len() ==> media_applied(
                        u.posts@[j]@.media[k],
                        o.posts@[j]@[k]@,
                        #[trigger] posts@[j]@.media[k],
                    )),
        decreases u.posts@.len() - i,
    {
        proof {
            assert(u@.posts[i as int] == u.posts@[i as int]@);
            assert(o@.posts[i as int] == o.posts@[i as int]@.map_values(|x: MediaOutcome| x@));
        }
        let media = apply_media_vec(&u.posts[i].media, &o.posts[i]);
        posts.push(PostNode { author: AuthorRef { pfp: copy_bytes(&pfp) }, media });
        i = i + 1;
    }
    let q = User { pfp, posts };
    proof {
        assert(forall|j: int| 0 <= j < u.posts@.len() ==> u@.posts[j] == u.posts@[j]@);
        assert(forall|j: int| 0 <= j < q.posts@.len() ==> q@.posts[j] == q.posts@[j]@);
        assert(forall|j: int|
            0 <= j < o.posts@.len() ==> o@.posts[j] == o.posts@[j]@.map_values(
                |x: MediaOutcome| x@,
            ));
    }
    Ok(q)
}

} // verus!
