use rss_reader::app::App;
use rss_reader::feed::Article;
use rss_reader::refresh::first_feed_title;
use rss_reader::service::{FeedStatus, FetchResult};
use rss_reader::subscription::Feed;

const SECOND: u128 = 1_000_000_000;

fn article(t: &str) -> Article {
    Article { title: t.to_string(), link: t.to_string(), published: None, feed_title: "F".to_string() }
}

fn result(articles: Vec<Article>, failed: Vec<&str>) -> FetchResult {
    let mut status = FeedStatus::new();
    status.insert("https://f", failed.is_empty());
    FetchResult { articles, failed_feeds: failed.into_iter().map(|s| s.to_string()).collect(), feed_status: status }
}

#[test]
fn refresh_is_due_after_the_interval_or_on_request() {
    let mut a = App::new(vec![article("a")], 10 * SECOND, false, 0);
    assert!(!a.refresh_due(5 * SECOND));
    assert!(a.refresh_due(10 * SECOND));
    a.request_reload();
    assert!(a.refresh_due(SECOND));
    a.start_search();
    assert!(!a.refresh_due(20 * SECOND));
}

#[test]
fn manual_refresh_reports_reloading_then_reloaded() {
    let mut a = App::new(vec![article("a")], 10 * SECOND, false, 0);
    a.request_reload();
    let manual = a.begin_refresh(SECOND);
    assert!(manual);
    assert_eq!(a.status_message, Some("Reloading...".to_string()));
    a.finish_refresh(result(vec![article("b"), article("c")], vec![]), manual, 2 * SECOND);
    assert_eq!(a.status_message, Some("Reloaded".to_string()));
    assert_eq!(a.articles.len(), 2);
    assert!(!a.should_reload);
    assert_eq!(a.last_refresh, 2 * SECOND);
    assert_eq!(a.get_feed_status("https://f"), Some(true));
    assert!(!a.refresh_due(3 * SECOND));
}

#[test]
fn automatic_refresh_reports_only_failures() {
    let mut a = App::new(vec![article("a")], 10 * SECOND, false, 0);
    let manual = a.begin_refresh(10 * SECOND);
    assert!(!manual);
    assert_eq!(a.status_message, None);
    a.finish_refresh(result(vec![], vec!["Blog"]), manual, 10 * SECOND);
    assert_eq!(a.status_message, Some("Failed: Blog".to_string()));
    assert_eq!(a.articles.len(), 1);
    assert_eq!(a.get_feed_status("https://f"), Some(false));
}

#[test]
fn delete_keeps_the_selection_on_the_list() {
    let mut a = App::new(vec![], 10 * SECOND, false, 0);
    a.show_feed_list(vec![
        Feed { url: "u1".to_string(), title: None },
        Feed { url: "u2".to_string(), title: Some("Two".to_string()) },
    ]);
    a.select_next_feed();
    let (url, name) = a.feed_to_delete().unwrap();
    assert_eq!(url, "u2");
    assert_eq!(name, "Two");
    a.finish_delete(vec![Feed { url: "u1".to_string(), title: None }], None, &name, SECOND);
    assert_eq!(a.feed_selected, 0);
    assert_eq!(a.status_message, Some("Deleted: Two".to_string()));
    let mut empty = App::new(vec![], 0, false, 0);
    assert_eq!(empty.feed_to_delete(), None);
    empty.finish_sort(vec![], 0);
    assert_eq!(empty.status_message, Some("Sorted".to_string()));
}

#[test]
fn add_reports_title_or_address() {
    let mut a = App::new(vec![], 10 * SECOND, false, 0);
    a.finish_add(vec![Feed { url: "u".to_string(), title: None }], Some(result(vec![article("n")], vec![])), None, "u", SECOND);
    assert_eq!(a.status_message, Some("Added: u".to_string()));
    assert_eq!(a.articles.len(), 1);
    assert_eq!(a.feeds.len(), 1);
    a.finish_add(vec![], None, Some("T".to_string()), "u", SECOND);
    assert_eq!(a.status_message, Some("Added: T".to_string()));
}

#[test]
fn new_feed_title_comes_from_first_article() {
    assert_eq!(first_feed_title(&Some(vec![article("a")])), Some("F".to_string()));
    assert_eq!(first_feed_title(&Some(vec![])), None);
    assert_eq!(first_feed_title(&None), None);
}
