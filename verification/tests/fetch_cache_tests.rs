use heffalump_conduit::cache::{plan_rotation, writes_decision, RotationStep, WritesDecision};
use heffalump_conduit::fetch::{keep_replies, FetchAction, FetchEvent, Pager};
use heffalump_conduit::post::Post;
use heffalump_conduit::SyncError;

fn post(id: &str, is_reply: bool) -> Post {
    Post {
        id: id.to_string(),
        acct: "someone".to_string(),
        body: "text".to_string(),
        is_reply,
        reblog: None,
        media: vec![],
        card_description: None,
    }
}

#[test]
fn pager_filters_replies_and_asks_for_the_rest() {
    let mut pager = Pager::new(3, true);
    assert!(pager.needs_more());
    assert!(pager.last_id().is_none());
    let action = pager.handle_event(FetchEvent::Page(vec![post("1", true), post("2", false)]));
    assert_eq!(action, FetchAction::Request { limit: 2 });
    assert_eq!(pager.posts.len(), 1);
    assert_eq!(pager.posts[0].id, "2");
    assert_eq!(pager.last_id().unwrap(), "2");
}

#[test]
fn pager_finishes_at_target() {
    let mut pager = Pager::new(2, false);
    let action = pager.handle_event(FetchEvent::Page(vec![post("1", true), post("2", false)]));
    assert_eq!(action, FetchAction::Finished);
    assert_eq!(pager.posts.len(), 2);
    assert_eq!(pager.posts[0].id, "1");
}

#[test]
fn pager_finishes_on_empty_page() {
    let mut pager = Pager::new(5, true);
    let action = pager.handle_event(FetchEvent::Page(vec![]));
    assert_eq!(action, FetchAction::Finished);
    assert_eq!(pager.posts.len(), 0);
    assert!(!pager.needs_more());
}

#[test]
fn rate_limit_then_success_equals_plain_success() {
    let mut troubled = Pager::new(2, true);
    let retry = troubled.handle_event(FetchEvent::RateLimited);
    assert_eq!(retry, FetchAction::Sleep100Retry);
    let a1 = troubled.handle_event(FetchEvent::Page(vec![post("1", false)]));

    let mut untroubled = Pager::new(2, true);
    let a2 = untroubled.handle_event(FetchEvent::Page(vec![post("1", false)]));

    assert_eq!(a1, a2);
    assert_eq!(troubled.posts.len(), untroubled.posts.len());
    assert_eq!(troubled.posts[0].id, untroubled.posts[0].id);
    assert_eq!(troubled.done, untroubled.done);
}

#[test]
fn pager_aborts_on_other_errors() {
    let mut pager = Pager::new(2, true);
    assert_eq!(pager.handle_event(FetchEvent::Failed), FetchAction::Abort);
}

#[test]
fn pager_clips_an_oversized_page() {
    let mut pager = Pager::new(1, false);
    let action = pager.handle_event(FetchEvent::Page(vec![post("1", false), post("2", false)]));
    assert_eq!(action, FetchAction::Finished);
    assert_eq!(pager.posts.len(), 1);
}

#[test]
fn keep_replies_caps_each_block() {
    let descendants = vec![post("1", true), post("2", true), post("3", true)];
    let kept = keep_replies(descendants, 2);
    assert_eq!(kept.len(), 2);
    assert_eq!(kept[0].id, "1");
    assert_eq!(kept[1].id, "2");
    let few = keep_replies(vec![post("9", true)], 10);
    assert_eq!(few.len(), 1);
}

#[test]
fn rotation_renames_before_writing_when_a_snapshot_exists() {
    assert_eq!(
        plan_rotation(true),
        vec![RotationStep::RenameNewToOld, RotationStep::WriteNew]
    );
    assert_eq!(plan_rotation(false), vec![RotationStep::WriteNew]);
}

#[test]
fn missing_cache_rule() {
    assert_eq!(writes_decision(true, 0), WritesDecision::Resolve);
    assert_eq!(writes_decision(true, 3), WritesDecision::Resolve);
    assert_eq!(writes_decision(false, 0), WritesDecision::NothingToDo);
    assert_eq!(writes_decision(false, 2), WritesDecision::MissingCache);
}

#[test]
fn error_descriptions() {
    assert_eq!(SyncError::MalformedRecord.describe(), "malformed record from handheld");
    assert_eq!(SyncError::CacheInconsistent.describe(), "cache seems to have incorrect data");
    assert_eq!(SyncError::TranscodeError.describe(), "invalid ISO-8859-1 text from handheld");
}
