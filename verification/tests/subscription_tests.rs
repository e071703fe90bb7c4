use rss_reader::subscription::{Feed, SubscriptionError, SubscriptionManager};
use tempfile::tempdir;

fn manager_in(dir: &tempfile::TempDir) -> SubscriptionManager {
    let config_path = dir.path().join("feeds.json");
    SubscriptionManager::new(config_path.to_str().unwrap())
}

#[test]
fn test_new_creates_empty_subscription_list() {
    let dir = tempdir().unwrap();

    let manager = manager_in(&dir);

    assert!(manager.list().is_empty());
}

#[test]
fn test_add_feed() {
    let dir = tempdir().unwrap();

    let mut manager = manager_in(&dir);
    manager.add("https://example.com/feed.xml").unwrap();

    let feeds = manager.list();
    assert_eq!(feeds.len(), 1);
    assert_eq!(feeds[0].url, "https://example.com/feed.xml");
}

#[test]
fn test_add_duplicate_feed_returns_error() {
    let dir = tempdir().unwrap();

    let mut manager = manager_in(&dir);
    manager.add("https://example.com/feed.xml").unwrap();

    let result = manager.add("https://example.com/feed.xml");
    assert!(result.is_err());
}

#[test]
fn test_delete_feed() {
    let dir = tempdir().unwrap();

    let mut manager = manager_in(&dir);
    manager.add("https://example.com/feed.xml").unwrap();

    let deleted = manager.delete("https://example.com/feed.xml");

    assert!(deleted);
    assert!(manager.list().is_empty());
}

#[test]
fn test_delete_nonexistent_feed_returns_false() {
    let dir = tempdir().unwrap();

    let mut manager = manager_in(&dir);

    let deleted = manager.delete("https://example.com/feed.xml");

    assert!(!deleted);
}

#[test]
fn test_list_returns_all_feeds() {
    let dir = tempdir().unwrap();

    let mut manager = manager_in(&dir);
    manager.add("https://example.com/feed1.xml").unwrap();
    manager.add("https://example.com/feed2.xml").unwrap();
    manager.add("https://example.com/feed3.xml").unwrap();

    let feeds = manager.list();

    assert_eq!(feeds.len(), 3);
}

#[test]
fn manager_keeps_its_path() {
    let m = SubscriptionManager::new("/tmp/x/feeds.json");
    assert_eq!(m.config_path(), "/tmp/x/feeds.json");
}

#[test]
fn duplicate_error_names_the_address() {
    let mut m = SubscriptionManager::new("p");
    m.add_with_title("https://a", Some("A".to_string())).unwrap();
    let e = m.add_with_title("https://a", Some("Other".to_string())).unwrap_err();
    assert_eq!(e, SubscriptionError::AlreadySubscribed("https://a".to_string()));
    assert_eq!(e.message(), "Already subscribed: https://a");
    assert_eq!(m.list()[0].title, Some("A".to_string()));
    assert_eq!(m.list().len(), 1);
}

#[test]
fn law_delete_undoes_add() {
    let mut m = SubscriptionManager::with_feeds(
        "p",
        vec![Feed { url: "https://a".to_string(), title: None }],
    );
    m.add("https://b").unwrap();
    assert!(m.contains("https://b"));
    assert!(m.delete("https://b"));
    assert_eq!(m.list().to_vec(), vec![Feed { url: "https://a".to_string(), title: None }]);
    assert!(!m.contains("https://b"));
}

#[test]
fn law_sort_orders_by_name_stably() {
    let mut m = SubscriptionManager::with_feeds(
        "p",
        vec![
            Feed { url: "https://z".to_string(), title: Some("beta".to_string()) },
            Feed { url: "https://alpha".to_string(), title: None },
            Feed { url: "https://y".to_string(), title: Some("Beta".to_string()) },
            Feed { url: "https://x".to_string(), title: Some("beta".to_string()) },
        ],
    );
    m.sort();
    let urls: Vec<&str> = m.list().iter().map(|f| f.url.as_str()).collect();
    assert_eq!(urls, vec!["https://y", "https://z", "https://x", "https://alpha"]);
}

#[test]
fn import_skips_known_addresses() {
    let mut m = SubscriptionManager::with_feeds(
        "p",
        vec![Feed { url: "https://a".to_string(), title: None }],
    );
    let n = m.import_feeds(vec![
        Feed { url: "https://a".to_string(), title: Some("A".to_string()) },
        Feed { url: "https://b".to_string(), title: Some("B".to_string()) },
        Feed { url: "https://b".to_string(), title: None },
    ]);
    assert_eq!(n, 1);
    assert_eq!(
        m.list().to_vec(),
        vec![
            Feed { url: "https://a".to_string(), title: None },
            Feed { url: "https://b".to_string(), title: Some("B".to_string()) },
        ]
    );
}
