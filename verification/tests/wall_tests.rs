use wall::database::mock::MockBase;
use wall::database::{Database, GetMsgs, ReceiveMsg, ValidationError, WallError};
use wall::git_info::GitService;
use wall::html::escape_html;
use wall::integration::telegram::Telegram;
use wall::integration::Integration;
use wall::limiter::RateLimiter;
use wall::surface::Wall;

fn msg(author: &str, content: &str) -> ReceiveMsg {
    ReceiveMsg {
        author: author.to_string(),
        content: content.to_string(),
    }
}

#[test]
fn empty_store_has_latest_id_zero() {
    let db = MockBase::new();
    assert_eq!(db.last_msg().unwrap(), 0);
}

#[test]
fn end_to_end_scenario() {
    let db = MockBase::new();
    let limiter = RateLimiter::new(2, 60);
    let mut wall = Wall::new(db, limiter);

    let id1 = wall.submit("10.0.0.1", msg("alice", "hi")).unwrap();
    assert_eq!(id1, 1);
    let id2 = wall.submit("10.0.0.2", msg("bob", "yo")).unwrap();
    assert_eq!(id2, 2);

    let newest = wall.list_newer(0, 10).unwrap();
    assert_eq!(newest.len(), 2);
    assert_eq!(newest[0].id, 2);
    assert_eq!(newest[0].author, "bob");
    assert_eq!(newest[0].content, "yo");
    assert_eq!(newest[1].id, 1);
    assert_eq!(newest[1].author, "alice");
    assert_eq!(newest[1].content, "hi");

    let older = wall.list_older(2, 10).unwrap();
    assert_eq!(older.len(), 1);
    assert_eq!(older[0].id, 1);
    assert_eq!(older[0].author, "alice");

    assert_eq!(wall.peek_latest_id().unwrap(), 2);
}

#[test]
fn latest_page_is_capped_by_limit() {
    let mut db = MockBase::new();
    for i in 0..5 {
        db.send_msg(msg("a", &format!("m{}", i))).unwrap();
    }
    let page = db.get_msgs(GetMsgs::After(0), 3).unwrap();
    assert_eq!(page.iter().map(|m| m.id).collect::<Vec<_>>(), vec![5, 4, 3]);
}

#[test]
fn list_newer_skips_ids_at_or_below_cursor() {
    let mut db = MockBase::new();
    for i in 0..4 {
        db.send_msg(msg("a", &format!("m{}", i))).unwrap();
    }
    let page = db.get_msgs(GetMsgs::After(2), 10).unwrap();
    assert_eq!(page.iter().map(|m| m.id).collect::<Vec<_>>(), vec![4, 3]);
    for m in &page {
        assert!(m.id > 2);
    }
    let beyond = db.get_msgs(GetMsgs::After(4), 10).unwrap();
    assert!(beyond.is_empty());
    let far_beyond = db.get_msgs(GetMsgs::After(100), 10).unwrap();
    assert!(far_beyond.is_empty());
}

#[test]
fn list_older_skips_ids_at_or_above_cursor() {
    let mut db = MockBase::new();
    for i in 0..4 {
        db.send_msg(msg("a", &format!("m{}", i))).unwrap();
    }
    let page = db.get_msgs(GetMsgs::Before(3), 10).unwrap();
    assert_eq!(page.iter().map(|m| m.id).collect::<Vec<_>>(), vec![2, 1]);
    for m in &page {
        assert!(m.id < 3);
    }
}

#[test]
fn list_older_boundaries_on_a_small_store() {
    let mut db = MockBase::new();
    db.send_msg(msg("a", "one")).unwrap();
    db.send_msg(msg("a", "two")).unwrap();
    db.send_msg(msg("a", "three")).unwrap();

    // Cursor at the minimum existing id: nothing is older.
    assert!(db.get_msgs(GetMsgs::Before(1), 10).unwrap().is_empty());
    // Cursor of 0: no id is below 0.
    assert!(db.get_msgs(GetMsgs::Before(0), 10).unwrap().is_empty());
    // Cursor above the maximum id: everything qualifies.
    let all = db.get_msgs(GetMsgs::Before(10), 10).unwrap();
    assert_eq!(all.iter().map(|m| m.id).collect::<Vec<_>>(), vec![3, 2, 1]);
    // Empty store: empty page, not an error.
    let empty = MockBase::new();
    assert!(empty.get_msgs(GetMsgs::Before(10), 10).unwrap().is_empty());
    assert!(empty.get_msgs(GetMsgs::After(0), 10).unwrap().is_empty());
}

#[test]
fn limit_zero_returns_empty_page() {
    let mut db = MockBase::new();
    db.send_msg(msg("a", "one")).unwrap();
    assert!(db.get_msgs(GetMsgs::After(0), 0).unwrap().is_empty());
    assert!(db.get_msgs(GetMsgs::Before(2), 0).unwrap().is_empty());
}

#[test]
fn reads_are_idempotent() {
    let mut db = MockBase::new();
    for i in 0..4 {
        db.send_msg(msg("a", &format!("m{}", i))).unwrap();
    }
    let first = db.get_msgs(GetMsgs::After(1), 2).unwrap();
    let second = db.get_msgs(GetMsgs::After(1), 2).unwrap();
    assert_eq!(first.len(), second.len());
    for (x, y) in first.iter().zip(second.iter()) {
        assert_eq!(x.id, y.id);
        assert_eq!(x.author, y.author);
        assert_eq!(x.content, y.content);
        assert_eq!(x.timestamp, y.timestamp);
    }
}

#[test]
fn ids_increase_by_one_and_match_latest_id() {
    let mut db = MockBase::new();
    let mut previous = 0;
    for i in 0..5 {
        let m = db.send_msg(msg("a", &format!("m{}", i))).unwrap();
        assert_eq!(m.id, previous + 1);
        assert_eq!(db.last_msg().unwrap(), m.id);
        previous = m.id;
    }
}

#[test]
fn validation_rejects_empty_author() {
    assert_eq!(
        msg("", "hello").check_valid(),
        Err(ValidationError::EmptyField)
    );
}

#[test]
fn validation_rejects_empty_content() {
    assert_eq!(msg("a", "").check_valid(), Err(ValidationError::EmptyField));
}

#[test]
fn validation_bounds_author_length() {
    let just_fits = "x".repeat(20);
    assert_eq!(msg(&just_fits, "hello").check_valid(), Ok(()));
    let too_long = "x".repeat(21);
    assert_eq!(
        msg(&too_long, "hello").check_valid(),
        Err(ValidationError::AuthorTooLong)
    );
}

#[test]
fn validation_bounds_content_length() {
    let just_fits = "y".repeat(250);
    assert_eq!(msg("a", &just_fits).check_valid(), Ok(()));
    let too_long = "y".repeat(251);
    assert_eq!(
        msg("a", &too_long).check_valid(),
        Err(ValidationError::ContentTooLong)
    );
}

#[test]
fn validation_counts_scalar_values_not_bytes() {
    // 20 two-byte characters: 40 bytes, but exactly 20 scalar values.
    let author = "\u{e9}".repeat(20);
    assert_eq!(msg(&author, "hello").check_valid(), Ok(()));
    let over = "\u{e9}".repeat(21);
    assert_eq!(
        msg(&over, "hello").check_valid(),
        Err(ValidationError::AuthorTooLong)
    );
}

#[test]
fn store_rechecks_validation_on_append() {
    let mut db = MockBase::new();
    let r = db.send_msg(msg("", "hello"));
    assert_eq!(r.unwrap_err(), WallError::Validation(ValidationError::EmptyField));
    assert_eq!(db.last_msg().unwrap(), 0);
}

#[test]
fn sliding_window_admits_two_then_rejects_then_recovers() {
    let mut limiter = RateLimiter::new(2, 60);
    assert!(!limiter.check_at("1.2.3.4", 1000));
    assert!(!limiter.check_at("1.2.3.4", 1010));
    // Third attempt within the same window: rejected.
    assert!(limiter.check_at("1.2.3.4", 1020));
    // Window fully elapsed since the first attempt: admitted again.
    assert!(!limiter.check_at("1.2.3.4", 1060));
}

#[test]
fn rejected_attempt_is_not_recorded() {
    let mut limiter = RateLimiter::new(2, 60);
    assert!(!limiter.check_at("a", 100));
    assert!(!limiter.check_at("a", 101));
    assert!(limiter.check_at("a", 102));
    // The rejected attempt at 102 left no record, so once the two recorded
    // attempts age out the identity is admitted again.
    assert!(!limiter.check_at("a", 161));
}

#[test]
fn clock_based_check_applies_the_same_policy() {
    let mut limiter = RateLimiter::new(2, 60);
    assert!(!limiter.check_request_limit("7.7.7.7"));
    assert!(!limiter.check_request_limit("7.7.7.7"));
    assert!(limiter.check_request_limit("7.7.7.7"));
}

#[test]
fn identities_are_limited_independently() {
    let mut limiter = RateLimiter::new(1, 60);
    assert!(!limiter.check_at("a", 10));
    assert!(!limiter.check_at("b", 11));
    assert!(limiter.check_at("a", 12));
    assert!(limiter.check_at("b", 13));
}

#[test]
fn zero_budget_rejects_every_attempt() {
    let mut limiter = RateLimiter::new(0, 60);
    assert!(limiter.check_at("a", 10));
    assert!(limiter.check_at("a", 11));
}

#[test]
fn submit_is_rate_limited_before_validation() {
    let db = MockBase::new();
    let limiter = RateLimiter::new(1, 60);
    let mut wall = Wall::new(db, limiter);
    assert!(wall.submit("9.9.9.9", msg("alice", "hi")).is_ok());
    // Same identity, budget spent: rejected as rate-limited, even though the
    // message itself would be valid.
    assert_eq!(
        wall.submit("9.9.9.9", msg("alice", "hi again")),
        Err(WallError::RateLimited)
    );
    assert_eq!(wall.peek_latest_id().unwrap(), 1);
}

#[test]
fn invalid_submission_still_burns_budget() {
    let db = MockBase::new();
    let limiter = RateLimiter::new(2, 60);
    let mut wall = Wall::new(db, limiter);
    assert_eq!(
        wall.submit("8.8.8.8", msg("", "hello")),
        Err(WallError::Validation(ValidationError::EmptyField))
    );
    assert_eq!(
        wall.submit("8.8.8.8", msg("", "hello")),
        Err(WallError::Validation(ValidationError::EmptyField))
    );
    assert_eq!(
        wall.submit("8.8.8.8", msg("alice", "hello")),
        Err(WallError::RateLimited)
    );
}

#[test]
fn submit_rejects_invalid_message_with_reason() {
    let db = MockBase::new();
    let limiter = RateLimiter::new(10, 60);
    let mut wall = Wall::new(db, limiter);
    assert_eq!(
        wall.submit("1.1.1.1", msg(&"x".repeat(21), "hello")),
        Err(WallError::Validation(ValidationError::AuthorTooLong))
    );
    assert_eq!(
        wall.submit("1.1.1.2", msg("a", &"y".repeat(251))),
        Err(WallError::Validation(ValidationError::ContentTooLong))
    );
    assert_eq!(wall.peek_latest_id().unwrap(), 0);
}

#[test]
fn read_with_both_cursors_is_a_bad_request() {
    let db = MockBase::new();
    let limiter = RateLimiter::new(2, 60);
    let mut wall = Wall::new(db, limiter);
    wall.submit("2.2.2.2", msg("alice", "hi")).unwrap();
    assert_eq!(wall.list(Some(2), Some(0), 10).unwrap_err(), WallError::BadRequest);
    // The store was not consulted and is intact.
    assert_eq!(wall.peek_latest_id().unwrap(), 1);
}

#[test]
fn read_with_no_cursor_is_a_bad_request() {
    let db = MockBase::new();
    let limiter = RateLimiter::new(2, 60);
    let wall = Wall::new(db, limiter);
    assert_eq!(wall.list(None, None, 10).unwrap_err(), WallError::BadRequest);
}

#[test]
fn read_with_one_cursor_reaches_the_store() {
    let db = MockBase::new();
    let limiter = RateLimiter::new(10, 60);
    let mut wall = Wall::new(db, limiter);
    wall.submit("3.3.3.3", msg("alice", "hi")).unwrap();
    wall.submit("3.3.3.4", msg("bob", "yo")).unwrap();
    let newer = wall.list(None, Some(0), 10).unwrap();
    assert_eq!(newer.iter().map(|m| m.id).collect::<Vec<_>>(), vec![2, 1]);
    let older = wall.list(Some(2), None, 10).unwrap();
    assert_eq!(older.iter().map(|m| m.id).collect::<Vec<_>>(), vec![1]);
}

#[test]
fn escape_html_rewrites_markup_characters() {
    assert_eq!(escape_html("a&b<c>d\"e"), "a&amp;b&lt;c&gt;d&quot;e");
}

#[test]
fn escape_html_leaves_plain_text_alone() {
    assert_eq!(escape_html("hello, world"), "hello, world");
    assert_eq!(escape_html(""), "");
}

#[test]
fn escape_html_escapes_every_occurrence() {
    assert_eq!(escape_html("<<&>>"), "&lt;&lt;&amp;&gt;&gt;");
}

#[test]
fn telegram_renders_escaped_notification() {
    let telegram = Telegram::new("token123".to_string(), "42".to_string());
    let n = telegram.integrate(&msg("a&b", "x<y"));
    assert_eq!(n.url, "https://api.telegram.org/bottoken123/sendMessage");
    assert_eq!(n.chat_id, "42");
    assert_eq!(n.text, "<b>a&amp;b</b>:\nx&lt;y");
}

#[test]
fn git_info_prefers_configured_url() {
    let service = GitService::new("https://example.test/repo".to_string());
    let info = service.make_info("abc123".to_string(), "https://derived.test/r".to_string());
    assert_eq!(info.commit_hash, "abc123");
    assert_eq!(info.repo_url, "https://example.test/repo");
}

#[test]
fn git_info_falls_back_to_derived_url() {
    let service = GitService::new(String::new());
    let info = service.make_info("abc123".to_string(), "https://derived.test/r".to_string());
    assert_eq!(info.repo_url, "https://derived.test/r");
}
