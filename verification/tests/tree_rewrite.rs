use shoelace::keystore::Keystore;
use shoelace::media::{rewrite_media, AuthorRef, Media};
use shoelace::walker::{
    apply_post, apply_user, rewrite_post, rewrite_user, MediaOutcome, NodeOutcome, Post,
    PostNode, PostOutcome, RewriteError, User, UserOutcome,
};

fn bytes(s: &str) -> Vec<u8> {
    s.as_bytes().to_vec()
}

/// Test-local expectation: the local reference of a URL.
fn reference_of(s: &str) -> Vec<u8> {
    let digits = b"0123456789abcdef";
    let mut out = bytes("proxy/");
    for b in s.as_bytes() {
        out.push(digits[(b >> 4) as usize]);
        out.push(digits[(b & 0x0f) as usize]);
    }
    out
}

fn media(content: &str, thumbnail: &str) -> Media {
    Media { content: bytes(content), thumbnail: bytes(thumbnail) }
}

fn node(pfp: &str, items: Vec<Media>) -> PostNode {
    PostNode { author: AuthorRef { pfp: bytes(pfp) }, media: items }
}

fn ok_outcome(url: &str) -> Option<Vec<u8>> {
    Some(reference_of(url))
}

#[test]
fn rewrite_media_replaces_both_fields() {
    let mut ks = Keystore::memory();
    let mut item = media("https://cdn.example/a.jpg", "https://cdn.example/a-thumb.jpg");
    rewrite_media(&mut item, &mut ks).unwrap();
    assert_eq!(item.content, reference_of("https://cdn.example/a.jpg"));
    assert_eq!(item.thumbnail, reference_of("https://cdn.example/a-thumb.jpg"));
    assert_eq!(ks.len(), 2);
    assert_eq!(ks.resolve(&item.content), Ok(bytes("https://cdn.example/a.jpg")));
}

#[test]
fn rewrite_post_rewrites_whole_tree() {
    let mut ks = Keystore::memory();
    let p = Post {
        author: AuthorRef { pfp: bytes("https://cdn.example/root-pfp.jpg") },
        media: vec![media("https://cdn.example/root.jpg", "https://cdn.example/root-t.jpg")],
        parents: vec![node(
            "https://cdn.example/parent-pfp.jpg",
            vec![media("https://cdn.example/p0.jpg", "https://cdn.example/p0-t.jpg")],
        )],
        replies: vec![
            node("https://cdn.example/reply-pfp.jpg", vec![]),
            node(
                "https://cdn.example/reply2-pfp.jpg",
                vec![media("https://cdn.example/r1.jpg", "https://cdn.example/r1-t.jpg")],
            ),
        ],
    };
    let q = rewrite_post(p, &mut ks).unwrap();
    assert_eq!(q.author.pfp, reference_of("https://cdn.example/root-pfp.jpg"));
    assert_eq!(q.media[0].content, reference_of("https://cdn.example/root.jpg"));
    assert_eq!(q.media[0].thumbnail, reference_of("https://cdn.example/root-t.jpg"));
    assert_eq!(q.parents[0].author.pfp, reference_of("https://cdn.example/parent-pfp.jpg"));
    assert_eq!(q.parents[0].media[0].content, reference_of("https://cdn.example/p0.jpg"));
    assert_eq!(q.replies[0].author.pfp, reference_of("https://cdn.example/reply-pfp.jpg"));
    assert!(q.replies[0].media.is_empty());
    assert_eq!(q.replies[1].media[0].thumbnail, reference_of("https://cdn.example/r1-t.jpg"));
    // every rewritten reference resolves back to its origin URL
    assert_eq!(
        ks.resolve(&q.replies[1].media[0].content),
        Ok(bytes("https://cdn.example/r1.jpg"))
    );
    assert_eq!(ks.len(), 10);
}

#[test]
fn rewrite_user_shares_single_author_reference() {
    let mut ks = Keystore::memory();
    let posts = vec![
        node("https://cdn.example/pfp.jpg", vec![media(
            "https://cdn.example/m0.jpg",
            "https://cdn.example/m0-t.jpg",
        )]),
        node("https://cdn.example/pfp.jpg", vec![]),
        node("https://cdn.example/pfp.jpg", vec![]),
    ];
    let u = User { pfp: bytes("https://cdn.example/pfp.jpg"), posts };
    let q = rewrite_user(u, &mut ks).unwrap();
    let shared = reference_of("https://cdn.example/pfp.jpg");
    assert_eq!(q.pfp, shared);
    assert_eq!(q.posts.len(), 3);
    for p in &q.posts {
        assert_eq!(p.author.pfp, shared);
    }
    // one entry for the profile picture, two for the single media item
    assert_eq!(ks.len(), 3);
}

#[test]
fn apply_post_swallows_nested_reply_failure() {
    let p = Post {
        author: AuthorRef { pfp: bytes("https://cdn.example/root-pfp.jpg") },
        media: vec![],
        parents: vec![],
        replies: vec![
            node(
                "https://cdn.example/ra-pfp.jpg",
                vec![media("https://cdn.example/ra.jpg", "https://cdn.example/ra-t.jpg")],
            ),
            node(
                "https://cdn.example/rb-pfp.jpg",
                vec![media("https://cdn.example/rb.jpg", "https://cdn.example/rb-t.jpg")],
            ),
        ],
    };
    let o = PostOutcome {
        pfp: ok_outcome("https://cdn.example/root-pfp.jpg"),
        media: vec![],
        parents: vec![],
        replies: vec![
            NodeOutcome {
                pfp: ok_outcome("https://cdn.example/ra-pfp.jpg"),
                media: vec![MediaOutcome {
                    content: None,
                    thumbnail: ok_outcome("https://cdn.example/ra-t.jpg"),
                }],
            },
            NodeOutcome {
                pfp: ok_outcome("https://cdn.example/rb-pfp.jpg"),
                media: vec![MediaOutcome {
                    content: ok_outcome("https://cdn.example/rb.jpg"),
                    thumbnail: ok_outcome("https://cdn.example/rb-t.jpg"),
                }],
            },
        ],
    };
    let q = apply_post(&p, &o).unwrap();
    // the failed field keeps its origin URL
    assert_eq!(q.replies[0].media[0].content, bytes("https://cdn.example/ra.jpg"));
    // its sibling field and the sibling reply are unaffected
    assert_eq!(q.replies[0].media[0].thumbnail, reference_of("https://cdn.example/ra-t.jpg"));
    assert_eq!(q.replies[1].media[0].content, reference_of("https://cdn.example/rb.jpg"));
}

#[test]
fn apply_post_propagates_root_media_failure() {
    let p = Post {
        author: AuthorRef { pfp: bytes("https://cdn.example/root-pfp.jpg") },
        media: vec![media("https://cdn.example/root.jpg", "https://cdn.example/root-t.jpg")],
        parents: vec![],
        replies: vec![],
    };
    let o = PostOutcome {
        pfp: ok_outcome("https://cdn.example/root-pfp.jpg"),
        media: vec![MediaOutcome {
            content: ok_outcome("https://cdn.example/root.jpg"),
            thumbnail: None,
        }],
        parents: vec![],
        replies: vec![],
    };
    assert_eq!(apply_post(&p, &o).err(), Some(RewriteError::RootMedia));
}

#[test]
fn apply_post_propagates_root_author_failure() {
    let p = Post {
        author: AuthorRef { pfp: bytes("https://cdn.example/root-pfp.jpg") },
        media: vec![],
        parents: vec![],
        replies: vec![],
    };
    let o = PostOutcome { pfp: None, media: vec![], parents: vec![], replies: vec![] };
    assert_eq!(apply_post(&p, &o).err(), Some(RewriteError::RootAuthor));
}

#[test]
fn apply_user_shares_reference_and_propagates_author_failure() {
    let posts = vec![
        node("https://cdn.example/pfp.jpg", vec![media(
            "https://cdn.example/m0.jpg",
            "https://cdn.example/m0-t.jpg",
        )]),
        node("https://cdn.example/pfp.jpg", vec![]),
    ];
    let u = User { pfp: bytes("https://cdn.example/pfp.jpg"), posts };
    let o = UserOutcome {
        pfp: ok_outcome("https://cdn.example/pfp.jpg"),
        posts: vec![
            vec![MediaOutcome {
                content: ok_outcome("https://cdn.example/m0.jpg"),
                thumbnail: None,
            }],
            vec![],
        ],
    };
    let q = apply_user(&u, &o).unwrap();
    let shared = reference_of("https://cdn.example/pfp.jpg");
    assert_eq!(q.pfp, shared);
    assert_eq!(q.posts[0].author.pfp, shared);
    assert_eq!(q.posts[1].author.pfp, shared);
    assert_eq!(q.posts[0].media[0].content, reference_of("https://cdn.example/m0.jpg"));
    assert_eq!(q.posts[0].media[0].thumbnail, bytes("https://cdn.example/m0-t.jpg"));

    let failed = UserOutcome { pfp: None, posts: vec![vec![], vec![]] };
    assert_eq!(apply_user(&u, &failed).err(), Some(RewriteError::RootAuthor));
}
