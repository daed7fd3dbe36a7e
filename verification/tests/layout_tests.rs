use heffalump_conduit::layout::build_sync;
use heffalump_conduit::post::{MediaItem, Post, ReblogInfo};
use heffalump_conduit::render::parsed_toot;

fn plain_post(id: &str, acct: &str, body: &str) -> Post {
    Post {
        id: id.to_string(),
        acct: acct.to_string(),
        body: body.to_string(),
        is_reply: false,
        reblog: None,
        media: vec![],
        card_description: None,
    }
}

#[test]
fn empty_timeline_builds_empty_databases() {
    let build = build_sync(&vec![], &vec![], &vec![]);
    assert_eq!(build.contents.len(), 0);
    assert_eq!(build.authors.len(), 0);
    assert_eq!(build.prefs.home_timeline_len, 0);
    assert_eq!(build.prefs.self_timeline_len, 0);
    assert_eq!(build.prefs.reply_content_len, 0);
    assert_eq!(build.snapshot_ids.len(), 0);
}

#[test]
fn one_toot_one_reply() {
    let p1 = plain_post("101", "alice", "first post");
    let r1 = plain_post("102", "bob", "nice post");
    let build = build_sync(&vec![p1], &vec![], &vec![vec![r1]]);

    // Authors sorted bytewise on the encoded author line.
    assert_eq!(build.authors.len(), 2);
    assert_eq!(build.authors[0].author_name, b"@alice\0".to_vec());
    assert_eq!(build.authors[1].author_name, b"@bob\0".to_vec());

    assert_eq!(build.contents.len(), 2);
    let top = &build.contents[0];
    assert_eq!(top.author, 0);
    assert_eq!(top.is_reply_to, 0);
    assert_eq!(top.replies_start, 1);
    assert_eq!(top.contents, b"first post".to_vec());

    let reply = &build.contents[1];
    assert_eq!(reply.author, 1);
    assert_eq!(reply.is_reply_to, 1);
    assert_eq!(reply.replies_start, 0);
    assert_eq!(reply.contents, b"nice post".to_vec());

    assert_eq!(build.prefs.home_timeline_len, 1);
    assert_eq!(build.prefs.self_timeline_len, 0);
    assert_eq!(build.prefs.reply_content_len, 1);

    assert_eq!(build.snapshot_ids, vec!["101".to_string(), "102".to_string()]);
}

#[test]
fn author_indexing_is_deterministic() {
    let posts1 = vec![
        plain_post("1", "zoe", "a"),
        plain_post("2", "anna", "b"),
        plain_post("3", "zoe", "c"),
    ];
    let replies1 = vec![vec![], vec![], vec![]];
    let posts2 = posts1.clone();
    let replies2 = replies1.clone();
    let b1 = build_sync(&posts1, &vec![], &replies1);
    let b2 = build_sync(&posts2, &vec![], &replies2);
    assert_eq!(b1.authors.len(), 2);
    assert_eq!(b1.authors[0].author_name, b"@anna\0".to_vec());
    assert_eq!(b1.authors[1].author_name, b"@zoe\0".to_vec());
    for (a, b) in b1.authors.iter().zip(b2.authors.iter()) {
        assert_eq!(a.author_name, b.author_name);
    }
    for (c1, c2) in b1.contents.iter().zip(b2.contents.iter()) {
        assert_eq!(c1.author, c2.author);
    }
    // The duplicated author resolves to one shared index.
    assert_eq!(b1.contents[0].author, 1);
    assert_eq!(b1.contents[1].author, 0);
    assert_eq!(b1.contents[2].author, 1);
}

#[test]
fn regions_are_laid_out_in_order() {
    let feed = vec![plain_post("f1", "a", "x"), plain_post("f2", "b", "y")];
    let selfp = vec![plain_post("s1", "me", "mine")];
    let replies = vec![
        vec![plain_post("r1", "c", "re1"), plain_post("r2", "d", "re2")],
        vec![],
        vec![plain_post("r3", "e", "re3")],
    ];
    let build = build_sync(&feed, &selfp, &replies);

    assert_eq!(build.contents.len(), 6);
    // Top-level records come first and carry no parent.
    for k in 0..3 {
        assert_eq!(build.contents[k].is_reply_to, 0);
    }
    // Reply blocks in parent order; parent position is stored plus one.
    assert_eq!(build.contents[0].replies_start, 3);
    assert_eq!(build.contents[1].replies_start, 0);
    assert_eq!(build.contents[2].replies_start, 5);
    assert_eq!(build.contents[3].is_reply_to, 1);
    assert_eq!(build.contents[4].is_reply_to, 1);
    assert_eq!(build.contents[5].is_reply_to, 3);
    for k in 3..6 {
        assert_eq!(build.contents[k].replies_start, 0);
    }
    // The snapshot lines up with the content positions.
    assert_eq!(
        build.snapshot_ids,
        vec!["f1", "f2", "s1", "r1", "r2", "r3"].into_iter().map(String::from).collect::<Vec<_>>()
    );
    assert_eq!(build.prefs.home_timeline_len, 2);
    assert_eq!(build.prefs.self_timeline_len, 1);
    assert_eq!(build.prefs.reply_content_len, 3);
}

#[test]
fn rendering_appends_media_and_card_lines() {
    let post = Post {
        id: "1".to_string(),
        acct: "alice@example.social".to_string(),
        body: "look".to_string(),
        is_reply: false,
        reblog: None,
        media: vec![
            MediaItem { alt_text: Some("a cat".to_string()) },
            MediaItem { alt_text: None },
        ],
        card_description: Some("a link".to_string()),
    };
    let (author, content) = parsed_toot(&post);
    assert_eq!(author, "@alice");
    assert_eq!(
        content,
        "look\n[img] (Alt Text: a cat)\n[img] (Alt Text: No Alt Text)\n[media] (Alt Text: a link)"
    );
}

#[test]
fn rendering_empty_card_description_gets_placeholder() {
    let mut post = plain_post("1", "alice", "look");
    post.card_description = Some(String::new());
    let (_, content) = parsed_toot(&post);
    assert_eq!(content, "look\n[media] (Alt Text: No Alt Text)");
}

#[test]
fn rendering_boost_uses_boosted_body_and_via_line() {
    let post = Post {
        id: "9".to_string(),
        acct: "booster@here".to_string(),
        body: "ignored".to_string(),
        is_reply: false,
        reblog: Some(ReblogInfo {
            acct: "original@there".to_string(),
            body: "the real text".to_string(),
            media: vec![MediaItem { alt_text: Some("pic".to_string()) }],
        }),
        media: vec![],
        card_description: None,
    };
    let (author, content) = parsed_toot(&post);
    assert_eq!(author, "@original via @booster");
    assert_eq!(content, "the real text\n[img] (Alt Text: pic)");
}

#[test]
fn author_records_are_clipped_to_39_bytes_plus_nul() {
    let long = "x".repeat(60);
    let post = plain_post("1", &long, "hi");
    let build = build_sync(&vec![post], &vec![], &vec![vec![]]);
    assert_eq!(build.authors.len(), 1);
    let rec = &build.authors[0].author_name;
    assert_eq!(rec.len(), 40);
    assert_eq!(rec[0], b'@');
    assert_eq!(rec[39], 0);
}
