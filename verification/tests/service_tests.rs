use rss_reader::feed::{Article, Timestamp};
use rss_reader::service::{combine_outcomes, fetch_outcome, sort_newest_first, FeedStatus, FetchResult};
use rss_reader::subscription::Feed;

fn article(title: &str, secs: Option<i64>) -> Article {
    Article {
        title: title.to_string(),
        link: format!("https://example.com/{}", title),
        published: secs.map(|s| Timestamp { secs: s, nanos: 0 }),
        feed_title: "Feed".to_string(),
    }
}

#[test]
fn test_fetch_result_no_failures() {
    let result = FetchResult { articles: vec![], failed_feeds: vec![], feed_status: FeedStatus::new() };

    assert!(result.failure_message().is_none());
}

#[test]
fn test_fetch_result_single_failure() {
    let result = FetchResult {
        articles: vec![],
        failed_feeds: vec!["https://example.com/feed.xml".to_string()],
        feed_status: FeedStatus::new(),
    };

    let message = result.failure_message().unwrap();
    assert!(message.contains("Failed"));
    assert!(message.contains("https://example.com/feed.xml"));
}

#[test]
fn test_fetch_result_multiple_failures() {
    let result = FetchResult {
        articles: vec![],
        failed_feeds: vec![
            "https://example.com/feed1.xml".to_string(),
            "https://example.com/feed2.xml".to_string(),
        ],
        feed_status: FeedStatus::new(),
    };

    let message = result.failure_message().unwrap();
    assert!(message.contains("Failed"));
    assert!(message.contains("2"));
}

#[test]
fn failure_messages_exact() {
    let one = FetchResult { articles: vec![], failed_feeds: vec!["Blog".to_string()], feed_status: FeedStatus::new() };
    assert_eq!(one.failure_message(), Some("Failed: Blog".to_string()));
    let many = FetchResult {
        articles: vec![],
        failed_feeds: (0..12).map(|i| format!("f{}", i)).collect(),
        feed_status: FeedStatus::new(),
    };
    assert_eq!(many.failure_message(), Some("Failed: 12 feeds".to_string()));
}

#[test]
fn law_status_read_after_write() {
    let mut s = FeedStatus::new();
    assert_eq!(s.get("a"), None);
    s.insert("a", true);
    s.insert("b", false);
    assert_eq!(s.get("a"), Some(true));
    assert_eq!(s.get("b"), Some(false));
    s.insert("a", false);
    assert_eq!(s.get("a"), Some(false));
    assert_eq!(s.get("b"), Some(false));
    assert_eq!(s.get("c"), None);
}

#[test]
fn law_sort_newest_first_is_sorted_permutation() {
    let input = vec![
        article("a", Some(5)),
        article("b", None),
        article("c", Some(9)),
        article("d", Some(5)),
        article("e", Some(1)),
    ];
    let sorted = sort_newest_first(input);
    let titles: Vec<&str> = sorted.iter().map(|a| a.title.as_str()).collect();
    assert_eq!(titles, vec!["c", "a", "d", "e", "b"]);
}

#[test]
fn fetch_outcome_reports_failure_by_title_or_address() {
    let ok = fetch_outcome(&Feed { url: "u1".to_string(), title: Some("T".to_string()) }, Some(vec![article("x", Some(1))]));
    assert!(ok.success);
    assert_eq!(ok.error_name, None);
    assert_eq!(ok.articles.len(), 1);
    let titled = fetch_outcome(&Feed { url: "u2".to_string(), title: Some("T2".to_string()) }, None);
    assert!(!titled.success);
    assert_eq!(titled.error_name, Some("T2".to_string()));
    let bare = fetch_outcome(&Feed { url: "u3".to_string(), title: None }, None);
    assert_eq!(bare.error_name, Some("u3".to_string()));
}

#[test]
fn combine_outcomes_merges_and_sorts() {
    let a = fetch_outcome(&Feed { url: "u1".to_string(), title: None }, Some(vec![article("old", Some(1)), article("new", Some(3))]));
    let b = fetch_outcome(&Feed { url: "u2".to_string(), title: Some("Two".to_string()) }, None);
    let c = fetch_outcome(&Feed { url: "u3".to_string(), title: None }, Some(vec![article("mid", Some(2))]));
    let r = combine_outcomes(vec![a, b, c]);
    let titles: Vec<&str> = r.articles.iter().map(|a| a.title.as_str()).collect();
    assert_eq!(titles, vec!["new", "mid", "old"]);
    assert_eq!(r.failed_feeds, vec!["Two".to_string()]);
    assert_eq!(r.feed_status.get("u1"), Some(true));
    assert_eq!(r.feed_status.get("u2"), Some(false));
    assert_eq!(r.feed_status.get("u3"), Some(true));
    assert!(r.has_news());
    assert_eq!(r.failure_message(), Some("Failed: Two".to_string()));
}

#[test]
fn law_status_is_that_of_the_last_fetch() {
    let first = fetch_outcome(&Feed { url: "u".to_string(), title: None }, None);
    let second = fetch_outcome(&Feed { url: "u".to_string(), title: None }, Some(vec![]));
    let r = combine_outcomes(vec![first, second]);
    assert_eq!(r.feed_status.get("u"), Some(true));
    assert_eq!(r.failed_feeds, vec!["u".to_string()]);
    let r = combine_outcomes(vec![]);
    assert_eq!(r.feed_status.get("u"), None);
    assert!(!r.has_news());
    assert!(r.into_news().is_none());
}

#[test]
fn law_sort_is_stable_for_equal_dates() {
    let input = vec![article("x", None), article("y", Some(3)), article("z", None), article("w", Some(3))];
    let sorted = sort_newest_first(input);
    let titles: Vec<&str> = sorted.iter().map(|a| a.title.as_str()).collect();
    assert_eq!(titles, vec!["y", "w", "x", "z"]);
}
