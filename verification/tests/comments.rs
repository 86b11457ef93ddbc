use std::collections::HashMap;

use peterlits_com_server::clock::{Instant, FOUR_DIGIT_YEARS_END, FOUR_DIGIT_YEARS_START};
use peterlits_com_server::comments::{
    comment_allowed, comments_page_body, plan_comment_at, page_count, page_index, page_offset, plan_comment,
    requested_page, CommentPlan,
};

fn body_map(body: &str) -> HashMap<String, String> {
    serde_json::from_str(body).unwrap()
}

fn now_instant() -> Instant {
    let t = chrono::Utc::now();
    Instant { secs: t.timestamp(), nanos: t.timestamp_subsec_nanos() }
}

#[test]
fn test_get() {
    // in the new database, the length of it is 0
    let body = comments_page_body("[]", 0);
    assert_eq!(body_map(&body).get(&"length".to_string()).unwrap(), "0");
    // after post a comments, the length is 1.
    let body = comments_page_body("[]", 1);
    assert_eq!(body_map(&body).get(&"length".to_string()).unwrap(), "1");
    // after post 43 comments, the length is 3 (because ceil(44 / 20) == 3).
    let body = comments_page_body("[]", 44);
    assert_eq!(body_map(&body).get(&"length".to_string()).unwrap(), "3");
}

#[test]
fn test_post() {
    // add 40 comments with time limit => only the first one is stored.
    let mut stored: Vec<String> = Vec::new();
    for i in 0..40 {
        let previous: Vec<String> = stored.last().cloned().into_iter().collect();
        match plan_comment(now_instant(), true, &previous).unwrap() {
            CommentPlan::Store { datetime } => {
                assert_eq!(i, 0);
                stored.push(datetime);
            }
            CommentPlan::Refused => assert_ne!(i, 0),
        }
    }
    assert_eq!(stored.len(), 1);
}

#[test]
fn comments_body_holds_the_page() {
    let rows = r#"[{"id":1,"ip":"127.0.0.1","datetime":"x","content":"say \"hi\"\n"}]"#;
    let body = comments_page_body(rows, 21);
    let map = body_map(&body);
    assert_eq!(map.get("result").unwrap(), rows);
    assert_eq!(map.get("length").unwrap(), "2");
    assert_eq!(map.len(), 2);
    assert_eq!(
        comments_page_body("[]", 20),
        "{\"result\":\"[]\",\"length\":\"1\"}"
    );
}

#[test]
fn page_counts() {
    assert_eq!(page_count(0), 0);
    assert_eq!(page_count(1), 1);
    assert_eq!(page_count(20), 1);
    assert_eq!(page_count(21), 2);
    assert_eq!(page_count(44), 3);
    assert_eq!(page_count(-1), 0);
    assert_eq!(page_count(-45), -1);
    assert_eq!(page_count(i64::MAX - 19), (i64::MAX - 19 + 19) / 20);
}

#[test]
fn pages_from_queries() {
    assert_eq!(requested_page(None), Some(0));
    assert_eq!(requested_page(Some("")), Some(0));
    assert_eq!(requested_page(Some("page=3")), Some(2));
    assert_eq!(requested_page(Some("page=1")), Some(0));
    assert_eq!(requested_page(Some("page=0")), Some(-1));
    assert_eq!(requested_page(Some("page=abc")), Some(0));
    assert_eq!(requested_page(Some("page=")), Some(0));
    assert_eq!(requested_page(Some("x=9")), Some(0));
    assert_eq!(requested_page(Some("page=1&page=5")), Some(4));
    assert_eq!(requested_page(Some("a=1&page=7&b=2")), Some(6));
    assert_eq!(requested_page(Some("page=%35")), Some(4));
    assert_eq!(requested_page(Some("pa%67e=2")), Some(1));
    assert_eq!(requested_page(Some("page=+2")), Some(0));
    assert_eq!(requested_page(Some("page=-9223372036854775807")), Some(i64::MIN));
    assert_eq!(requested_page(Some("page=-9223372036854775808")), None);
}

#[test]
fn page_indexes_and_offsets() {
    assert_eq!(page_index(None), 0);
    assert_eq!(page_index(Some("2")), 1);
    assert_eq!(page_index(Some("two")), 0);
    assert_eq!(page_offset(0), 0);
    assert_eq!(page_offset(2), 40);
    assert_eq!(page_offset(-1), -20);
}

#[test]
fn three_seconds_between_comments() {
    let last = Instant { secs: 1_700_000_000, nanos: 500 };
    let exactly = Instant { secs: 1_700_000_003, nanos: 500 };
    let later = Instant { secs: 1_700_000_003, nanos: 501 };
    let sooner = Instant { secs: 1_700_000_001, nanos: 0 };
    assert!(!comment_allowed(true, Some(last), exactly));
    assert!(comment_allowed(true, Some(last), later));
    assert!(!comment_allowed(true, Some(last), sooner));
    assert!(comment_allowed(false, Some(last), sooner));
    assert!(comment_allowed(true, None, sooner));
}

#[test]
fn plan_without_limit_or_history_stores() {
    let t = Instant { secs: 0, nanos: 123_456_789 };
    let many = vec!["a".to_string(), "b".to_string()];
    match plan_comment(t, false, &many) {
        Some(CommentPlan::Store { datetime }) => {
            assert_eq!(datetime, "1970-01-01T00:00:00.123456789+00:00")
        }
        _ => panic!("expected a stored comment"),
    }
    match plan_comment(t, true, &Vec::new()) {
        Some(CommentPlan::Store { datetime }) => {
            assert_eq!(datetime, "1970-01-01T00:00:00.123456789+00:00")
        }
        _ => panic!("expected a stored comment"),
    }
}

#[test]
fn plan_refuses_what_the_store_cannot_hold() {
    let t = now_instant();
    let many = vec!["2020-01-01T00:00:00+00:00".to_string(), "2020-01-01T00:00:00+00:00".to_string()];
    assert!(plan_comment(t, true, &many).is_none());
    let bad = vec!["yesterday".to_string()];
    assert!(plan_comment(t, true, &bad).is_none());
}

#[test]
fn plan_stores_after_a_long_pause() {
    let t = now_instant();
    let old = vec!["2020-01-01T00:00:00+08:00".to_string()];
    assert!(matches!(plan_comment(t, true, &old), Some(CommentPlan::Store { .. })));
    let future = vec!["2999-01-01T00:00:00Z".to_string()];
    assert!(matches!(plan_comment(t, true, &future), Some(CommentPlan::Refused)));
}

#[test]
fn plan_at_a_given_time() {
    let t = Instant { secs: 1_700_000_010, nanos: 0 };
    let previous = vec!["2023-11-14T22:13:20+00:00".to_string()]; // 1_700_000_000
    let at = |secs: i64, nanos: u32| Instant { secs, nanos };
    assert!(matches!(
        plan_comment_at(t, true, &previous, at(1_700_000_003, 0)),
        Some(CommentPlan::Refused)
    ));
    assert!(matches!(
        plan_comment_at(t, true, &previous, at(1_700_000_003, 1)),
        Some(CommentPlan::Store { .. })
    ));
    assert!(matches!(
        plan_comment_at(t, false, &previous, at(1_700_000_000, 0)),
        Some(CommentPlan::Store { .. })
    ));
    let two = vec![previous[0].clone(), previous[0].clone()];
    assert!(plan_comment_at(t, true, &two, at(0, 0)).is_none());
    assert!(matches!(
        plan_comment_at(t, false, &two, at(0, 0)),
        Some(CommentPlan::Store { .. })
    ));
}

#[test]
fn stored_times_read_back() {
    let times = [
        Instant { secs: FOUR_DIGIT_YEARS_START, nanos: 0 },
        Instant { secs: FOUR_DIGIT_YEARS_END, nanos: 999_999_999 },
        Instant { secs: FOUR_DIGIT_YEARS_END, nanos: 1_500_000_000 },
        Instant { secs: 1_483_228_799, nanos: 1_000_000_000 },
        Instant { secs: 0, nanos: 120_000_000 },
        Instant { secs: -1, nanos: 999_999 },
    ];
    for t in times {
        let text = match plan_comment_at(t, false, &Vec::new(), t) {
            Some(CommentPlan::Store { datetime }) => datetime,
            _ => panic!("expected a stored comment"),
        };
        let back = chrono::DateTime::parse_from_rfc3339(&text).unwrap();
        assert_eq!((back.timestamp(), back.timestamp_subsec_nanos()), (t.secs, t.nanos), "{}", text);
    }
    let first = chrono::DateTime::parse_from_rfc3339("0000-01-01T00:00:00Z").unwrap();
    assert_eq!(first.timestamp(), FOUR_DIGIT_YEARS_START);
    let last = chrono::DateTime::parse_from_rfc3339("9999-12-31T23:59:59Z").unwrap();
    assert_eq!(last.timestamp(), FOUR_DIGIT_YEARS_END);
}

#[test]
fn rows_are_escaped_as_serde_json_does() {
    let rows = "a\"b\\c\u{1}\u{8}\t\n\u{c}\r\u{1f}\u{7f}é/";
    let expected = "\"a\\\"b\\\\c\\u0001\\b\\t\\n\\f\\r\\u001f\u{7f}é/\"";
    assert_eq!(
        comments_page_body(rows, -40),
        format!("{{\"result\":{},\"length\":\"-1\"}}", expected)
    );
}
