use heffalump_conduit::codec::{OnDevice, TootContent, TootWrite};
use heffalump_conduit::layout::build_sync;
use heffalump_conduit::post::Post;
use heffalump_conduit::writer::{parse_writes, plan_single_write, plan_writes, MastodonAction};
use heffalump_conduit::SyncError;

fn snapshot(ids: &[&str]) -> Vec<String> {
    ids.iter().map(|s| s.to_string()).collect()
}

#[test]
fn favorite_replay_issues_one_call() {
    let snap = snapshot(&["P1", "R1"]);
    let writes = vec![TootWrite::Favorite(0)];
    let actions = plan_writes(&writes, &snap).unwrap();
    assert_eq!(actions.len(), 1);
    match &actions[0] {
        MastodonAction::Favourite { id } => assert_eq!(id, "P1"),
        other => panic!("unexpected action: {:?}", other),
    }
}

#[test]
fn reply_toot_targets_the_post_before_the_stored_index() {
    let snap = snapshot(&["P1", "R1", "P2"]);
    let writes = vec![TootWrite::Toot(TootContent {
        author: 0,
        is_reply_to: 2,
        replies_start: 0,
        contents: b"hi".to_vec(),
    })];
    let actions = plan_writes(&writes, &snap).unwrap();
    assert_eq!(actions.len(), 1);
    match &actions[0] {
        MastodonAction::Post { content, in_reply_to } => {
            assert_eq!(content, "hi");
            assert_eq!(in_reply_to.as_deref(), Some("R1"));
        },
        other => panic!("unexpected action: {:?}", other),
    }
}

#[test]
fn top_level_toot_has_no_reply_target() {
    let snap = snapshot(&[]);
    let write = TootWrite::Toot(TootContent {
        author: 0,
        is_reply_to: 0,
        replies_start: 0,
        contents: b"hello world".to_vec(),
    });
    match plan_single_write(&write, &snap).unwrap() {
        Some(MastodonAction::Post { content, in_reply_to }) => {
            assert_eq!(content, "hello world");
            assert_eq!(in_reply_to, None);
        },
        other => panic!("unexpected action: {:?}", other),
    }
}

#[test]
fn latin1_toot_body_decodes_bytewise() {
    let snap = snapshot(&[]);
    let write = TootWrite::Toot(TootContent {
        author: 0,
        is_reply_to: 0,
        replies_start: 0,
        contents: vec![b'h', 0xFE],
    });
    match plan_single_write(&write, &snap).unwrap() {
        Some(MastodonAction::Post { content, .. }) => assert_eq!(content, "h\u{fe}"),
        other => panic!("unexpected action: {:?}", other),
    }
}

#[test]
fn follow_is_accepted_and_ignored() {
    let snap = snapshot(&["P1"]);
    assert!(plan_single_write(&TootWrite::Follow(0), &snap).unwrap().is_none());
    let actions = plan_writes(&vec![TootWrite::Follow(7)], &snap).unwrap();
    assert_eq!(actions.len(), 0);
}

#[test]
fn out_of_range_favorite_is_cache_inconsistent() {
    let snap = snapshot(&["P1", "R1"]);
    assert_eq!(
        plan_single_write(&TootWrite::Favorite(5), &snap).unwrap_err(),
        SyncError::CacheInconsistent
    );
    assert_eq!(
        plan_single_write(&TootWrite::Reblog(2), &snap).unwrap_err(),
        SyncError::CacheInconsistent
    );
}

#[test]
fn out_of_range_reply_toot_is_cache_inconsistent() {
    let snap = snapshot(&["P1"]);
    let write = TootWrite::Toot(TootContent {
        author: 0,
        is_reply_to: 2,
        replies_start: 0,
        contents: b"hi".to_vec(),
    });
    assert_eq!(plan_single_write(&write, &snap).unwrap_err(), SyncError::CacheInconsistent);
}

#[test]
fn earlier_writes_stay_planned_before_a_late_failure() {
    let snap = snapshot(&["P1"]);
    let writes = vec![TootWrite::Favorite(0), TootWrite::Favorite(9)];
    assert_eq!(plan_writes(&writes, &snap).unwrap_err(), SyncError::CacheInconsistent);
    // Planned one at a time, the first write still resolves.
    assert!(plan_single_write(&writes[0], &snap).unwrap().is_some());
}

#[test]
fn parse_writes_decodes_each_record() {
    let raw = vec![
        TootWrite::Favorite(1).to_hh_bytes().unwrap(),
        TootWrite::Reblog(0).to_hh_bytes().unwrap(),
    ];
    let writes = parse_writes(&raw).unwrap();
    assert_eq!(writes.len(), 2);
    assert!(matches!(writes[0], TootWrite::Favorite(1)));
    assert!(matches!(writes[1], TootWrite::Reblog(0)));
}

#[test]
fn parse_writes_rejects_invalid_discriminant() {
    let raw = vec![vec![0x00, 0x09, 0x00, 0x00]];
    assert_eq!(parse_writes(&raw).unwrap_err(), SyncError::MalformedRecord);
}

#[test]
fn parse_writes_stops_on_first_malformed_record() {
    let raw = vec![TootWrite::Favorite(1).to_hh_bytes().unwrap(), vec![0x00]];
    assert_eq!(parse_writes(&raw).unwrap_err(), SyncError::MalformedRecord);
}

#[test]
fn snapshot_positions_resolve_next_syncs_writes() {
    let mk = |id: &str, acct: &str, body: &str| Post {
        id: id.to_string(),
        acct: acct.to_string(),
        body: body.to_string(),
        is_reply: false,
        reblog: None,
        media: vec![],
        card_description: None,
    };
    let feed = vec![mk("p1", "alice", "one"), mk("p2", "bob", "two")];
    let replies = vec![vec![mk("r1", "carol", "re")], vec![]];
    let build = build_sync(&feed, &vec![], &replies);

    // Device index 2 is the reply record; favoriting it must act on r1.
    assert_eq!(build.contents[2].contents, b"re".to_vec());
    let actions = plan_writes(&vec![TootWrite::Favorite(2)], &build.snapshot_ids).unwrap();
    match &actions[0] {
        MastodonAction::Favourite { id } => assert_eq!(id, "r1"),
        other => panic!("unexpected action: {:?}", other),
    }
}

#[test]
fn raw_device_bytes_flow_through_parse_and_plan() {
    let snap = snapshot(&["p1", "p2"]);
    let raw = vec![
        TootWrite::Favorite(1).to_hh_bytes().unwrap(),
        TootWrite::Toot(TootContent {
            author: 0,
            is_reply_to: 1,
            replies_start: 0,
            contents: b"ok".to_vec(),
        })
        .to_hh_bytes()
        .unwrap(),
    ];
    let writes = parse_writes(&raw).unwrap();
    let actions = plan_writes(&writes, &snap).unwrap();
    assert_eq!(actions.len(), 2);
    match &actions[0] {
        MastodonAction::Favourite { id } => assert_eq!(id, "p2"),
        other => panic!("unexpected action: {:?}", other),
    }
    match &actions[1] {
        MastodonAction::Post { content, in_reply_to } => {
            assert_eq!(content, "ok");
            assert_eq!(in_reply_to.as_deref(), Some("p1"));
        },
        other => panic!("unexpected action: {:?}", other),
    }
}
