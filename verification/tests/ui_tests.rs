use rss_reader::app::App;
use rss_reader::feed::{Article, Timestamp};
use rss_reader::screen::InputMode;
use rss_reader::service::FeedStatus;
use rss_reader::subscription::Feed;

const SECOND: u128 = 1_000_000_000;
const NOW: u128 = 1_000 * SECOND;
const TEST_REFRESH_INTERVAL: u128 = 300 * SECOND;

fn now_stamp() -> Timestamp {
    let now = chrono::Utc::now();
    Timestamp { secs: now.timestamp(), nanos: now.timestamp_subsec_nanos() }
}

fn create_test_articles(count: usize) -> Vec<Article> {
    (0..count)
        .map(|i| Article {
            title: format!("Article {}", i),
            link: format!("https://example.com/{}", i),
            published: Some(now_stamp()),
            feed_title: "Test Feed".to_string(),
        })
        .collect()
}

#[test]
fn test_new_app_with_articles() {
    let articles = create_test_articles(3);
    let app = App::new(articles.clone(), TEST_REFRESH_INTERVAL, false, NOW);

    assert_eq!(app.articles.len(), 3);
    assert_eq!(app.selected, 0);
    assert!(!app.should_quit);
}

#[test]
fn test_select_next() {
    let articles = create_test_articles(3);
    let mut app = App::new(articles, TEST_REFRESH_INTERVAL, false, NOW);

    app.select_next();
    assert_eq!(app.selected, 1);

    app.select_next();
    assert_eq!(app.selected, 2);

    app.select_next();
    assert_eq!(app.selected, 2);
}

#[test]
fn test_select_previous() {
    let articles = create_test_articles(3);
    let mut app = App::new(articles, TEST_REFRESH_INTERVAL, false, NOW);
    app.selected = 2;

    app.select_previous();
    assert_eq!(app.selected, 1);

    app.select_previous();
    assert_eq!(app.selected, 0);

    app.select_previous();
    assert_eq!(app.selected, 0);
}

#[test]
fn test_quit() {
    let articles = create_test_articles(3);
    let mut app = App::new(articles, TEST_REFRESH_INTERVAL, false, NOW);

    app.quit();

    assert!(app.should_quit);
}

#[test]
fn test_request_reload() {
    let articles = create_test_articles(3);
    let mut app = App::new(articles, TEST_REFRESH_INTERVAL, false, NOW);

    app.request_reload();

    assert!(app.should_reload);
}

#[test]
fn test_should_auto_refresh_after_interval() {
    let articles = create_test_articles(3);
    let mut app = App::new(articles, 0, false, NOW);
    app.last_refresh = NOW - SECOND;

    assert!(app.should_auto_refresh(NOW));
}

#[test]
fn test_should_not_auto_refresh_before_interval() {
    let articles = create_test_articles(3);
    let app = App::new(articles, TEST_REFRESH_INTERVAL, false, NOW);

    assert!(!app.should_auto_refresh(NOW));
}

#[test]
fn test_update_articles_preserves_selection_if_valid() {
    let articles = create_test_articles(5);
    let mut app = App::new(articles, TEST_REFRESH_INTERVAL, false, NOW);
    app.selected = 2;

    let new_articles = create_test_articles(5);
    app.update_articles(new_articles, NOW);

    assert_eq!(app.selected, 2);
}

#[test]
fn test_update_articles_adjusts_selection_if_out_of_bounds() {
    let articles = create_test_articles(5);
    let mut app = App::new(articles, TEST_REFRESH_INTERVAL, false, NOW);
    app.selected = 4;

    let new_articles = create_test_articles(2);
    app.update_articles(new_articles, NOW);

    assert_eq!(app.selected, 1);
}

#[test]
fn test_selected_article() {
    let articles = create_test_articles(3);
    let mut app = App::new(articles, TEST_REFRESH_INTERVAL, false, NOW);
    app.selected = 1;

    let article = app.selected_article().unwrap();
    assert_eq!(article.title, "Article 1");
}

#[test]
fn test_selected_article_empty_list() {
    let app = App::new(vec![], TEST_REFRESH_INTERVAL, false, NOW);

    assert!(app.selected_article().is_none());
}

#[test]
fn test_start_adding_feed() {
    let articles = create_test_articles(3);
    let mut app = App::new(articles, TEST_REFRESH_INTERVAL, false, NOW);
    app.input_buffer = "old".to_string();
    app.status_message = Some("old message".to_string());

    app.start_adding_feed();

    assert_eq!(app.input_mode, InputMode::AddingFeed);
    assert!(app.input_buffer.is_empty());
    assert!(app.status_message.is_none());
}

#[test]
fn test_cancel_input() {
    let articles = create_test_articles(3);
    let mut app = App::new(articles, TEST_REFRESH_INTERVAL, false, NOW);
    app.input_mode = InputMode::AddingFeed;
    app.input_buffer = "https://example.com".to_string();

    app.cancel_input();

    assert_eq!(app.input_mode, InputMode::Normal);
    assert!(app.input_buffer.is_empty());
}

#[test]
fn test_select_next_feed() {
    let articles = create_test_articles(3);
    let mut app = App::new(articles, TEST_REFRESH_INTERVAL, false, NOW);
    app.feeds = vec![
        Feed {
            url: "https://example.com/1".to_string(),
            title: None,
        },
        Feed {
            url: "https://example.com/2".to_string(),
            title: None,
        },
    ];

    app.select_next_feed();
    assert_eq!(app.feed_selected, 1);

    app.select_next_feed();
    assert_eq!(app.feed_selected, 1);
}

#[test]
fn test_select_previous_feed() {
    let articles = create_test_articles(3);
    let mut app = App::new(articles, TEST_REFRESH_INTERVAL, false, NOW);
    app.feeds = vec![
        Feed {
            url: "https://example.com/1".to_string(),
            title: None,
        },
        Feed {
            url: "https://example.com/2".to_string(),
            title: None,
        },
    ];
    app.feed_selected = 1;

    app.select_previous_feed();
    assert_eq!(app.feed_selected, 0);

    app.select_previous_feed();
    assert_eq!(app.feed_selected, 0);
}

#[test]
fn test_close_feed_list() {
    let articles = create_test_articles(3);
    let mut app = App::new(articles, TEST_REFRESH_INTERVAL, false, NOW);
    app.input_mode = InputMode::FeedList;
    app.feeds = vec![Feed {
        url: "https://example.com".to_string(),
        title: None,
    }];

    app.close_feed_list();

    assert_eq!(app.input_mode, InputMode::Normal);
    assert!(app.feeds.is_empty());
}

#[test]
fn test_set_status() {
    let articles = create_test_articles(3);
    let mut app = App::new(articles, TEST_REFRESH_INTERVAL, false, NOW);

    app.set_status("Test message".to_string(), NOW);

    assert_eq!(app.status_message, Some("Test message".to_string()));
    assert!(app.status_message_time.is_some());
}

#[test]
fn test_clear_status() {
    let articles = create_test_articles(3);
    let mut app = App::new(articles, TEST_REFRESH_INTERVAL, false, NOW);
    app.set_status("Test message".to_string(), NOW);

    app.clear_status();

    assert!(app.status_message.is_none());
    assert!(app.status_message_time.is_none());
}

#[test]
fn test_feed_status_success() {
    let articles = create_test_articles(3);
    let mut app = App::new(articles, TEST_REFRESH_INTERVAL, false, NOW);
    let mut status = FeedStatus::new();
    status.insert("https://example.com/feed.xml", true);

    app.apply_feed_status(status);

    assert_eq!(
        app.get_feed_status("https://example.com/feed.xml"),
        Some(true)
    );
}

#[test]
fn test_feed_status_failure() {
    let articles = create_test_articles(3);
    let mut app = App::new(articles, TEST_REFRESH_INTERVAL, false, NOW);
    let mut status = FeedStatus::new();
    status.insert("https://example.com/feed.xml", false);

    app.apply_feed_status(status);

    assert_eq!(
        app.get_feed_status("https://example.com/feed.xml"),
        Some(false)
    );
}

#[test]
fn test_feed_status_unknown() {
    let articles = create_test_articles(3);
    let app = App::new(articles, TEST_REFRESH_INTERVAL, false, NOW);

    assert_eq!(app.get_feed_status("https://example.com/feed.xml"), None);
}

fn create_searchable_articles() -> Vec<Article> {
    vec![
        Article {
            title: "Rust Programming".to_string(),
            link: "https://example.com/1".to_string(),
            published: Some(now_stamp()),
            feed_title: "Tech Blog".to_string(),
        },
        Article {
            title: "Python Tutorial".to_string(),
            link: "https://example.com/2".to_string(),
            published: Some(now_stamp()),
            feed_title: "Tech Blog".to_string(),
        },
        Article {
            title: "Rust Web Framework".to_string(),
            link: "https://example.com/3".to_string(),
            published: Some(now_stamp()),
            feed_title: "Dev News".to_string(),
        },
        Article {
            title: "JavaScript Basics".to_string(),
            link: "https://example.com/4".to_string(),
            published: Some(now_stamp()),
            feed_title: "Dev News".to_string(),
        },
    ]
}

#[test]
fn test_start_search() {
    let articles = create_searchable_articles();
    let mut app = App::new(articles, TEST_REFRESH_INTERVAL, false, NOW);

    app.start_search();

    assert_eq!(app.input_mode, InputMode::Searching);
    assert!(app.input_buffer.is_empty());
}

#[test]
fn test_execute_search_finds_matches() {
    let articles = create_searchable_articles();
    let mut app = App::new(articles, TEST_REFRESH_INTERVAL, false, NOW);
    app.input_buffer = "Rust".to_string();

    app.execute_search();

    assert_eq!(app.search_matches.len(), 2);
    assert_eq!(app.search_matches[0], 0);
    assert_eq!(app.search_matches[1], 2);
    assert_eq!(app.selected, 0);
}

#[test]
fn test_execute_search_no_matches() {
    let articles = create_searchable_articles();
    let mut app = App::new(articles, TEST_REFRESH_INTERVAL, false, NOW);
    app.input_buffer = "Golang".to_string();

    app.execute_search();

    assert!(app.search_matches.is_empty());
}

#[test]
fn test_execute_search_case_insensitive() {
    let articles = create_searchable_articles();
    let mut app = App::new(articles, TEST_REFRESH_INTERVAL, false, NOW);
    app.input_buffer = "rust".to_string();

    app.execute_search();

    assert_eq!(app.search_matches.len(), 2);
}

#[test]
fn test_next_match() {
    let articles = create_searchable_articles();
    let mut app = App::new(articles, TEST_REFRESH_INTERVAL, false, NOW);
    app.input_buffer = "Rust".to_string();
    app.execute_search();

    app.next_match();

    assert_eq!(app.selected, 2);
    assert_eq!(app.search_current, 1);
}

#[test]
fn test_next_match_wraps_around() {
    let articles = create_searchable_articles();
    let mut app = App::new(articles, TEST_REFRESH_INTERVAL, false, NOW);
    app.input_buffer = "Rust".to_string();
    app.execute_search();
    app.search_current = 1;
    app.selected = 2;

    app.next_match();

    assert_eq!(app.selected, 0);
    assert_eq!(app.search_current, 0);
}

#[test]
fn test_previous_match() {
    let articles = create_searchable_articles();
    let mut app = App::new(articles, TEST_REFRESH_INTERVAL, false, NOW);
    app.input_buffer = "Rust".to_string();
    app.execute_search();
    app.search_current = 1;
    app.selected = 2;

    app.previous_match();

    assert_eq!(app.selected, 0);
    assert_eq!(app.search_current, 0);
}

#[test]
fn test_previous_match_wraps_around() {
    let articles = create_searchable_articles();
    let mut app = App::new(articles, TEST_REFRESH_INTERVAL, false, NOW);
    app.input_buffer = "Rust".to_string();
    app.execute_search();

    app.previous_match();

    assert_eq!(app.selected, 2);
    assert_eq!(app.search_current, 1);
}

#[test]
fn test_clear_search() {
    let articles = create_searchable_articles();
    let mut app = App::new(articles, TEST_REFRESH_INTERVAL, false, NOW);
    app.input_buffer = "Rust".to_string();
    app.execute_search();
    app.search_query = Some("Rust".to_string());

    app.clear_search();

    assert!(app.search_query.is_none());
    assert!(app.search_matches.is_empty());
    assert_eq!(app.search_current, 0);
}

#[test]
fn test_start_visual_select() {
    let articles = create_test_articles(1);
    let mut app = App::new(articles, TEST_REFRESH_INTERVAL, false, NOW);
    app.input_mode = InputMode::ViewingArticle;
    app.article_content = Some("Line 1\nLine 2\nLine 3".to_string());
    app.article_scroll = 0;

    app.start_visual_select();

    assert_eq!(app.input_mode, InputMode::VisualSelect);
    assert_eq!(app.visual_select_start, Some((0, 0)));
    assert_eq!(app.visual_select_end, Some((0, 0)));
}

#[test]
fn test_visual_select_extend_down() {
    let articles = create_test_articles(1);
    let mut app = App::new(articles, TEST_REFRESH_INTERVAL, false, NOW);
    app.input_mode = InputMode::VisualSelect;
    app.article_content = Some("Line 1\nLine 2\nLine 3".to_string());
    app.visual_select_start = Some((0, 0));
    app.visual_select_end = Some((0, 0));

    app.visual_select_down();

    assert_eq!(app.visual_select_end.map(|(r, _)| r), Some(1));
}

#[test]
fn test_visual_select_extend_up() {
    let articles = create_test_articles(1);
    let mut app = App::new(articles, TEST_REFRESH_INTERVAL, false, NOW);
    app.input_mode = InputMode::VisualSelect;
    app.article_content = Some("Line 1\nLine 2\nLine 3".to_string());
    app.visual_select_start = Some((1, 0));
    app.visual_select_end = Some((1, 0));

    app.visual_select_up();

    assert_eq!(app.visual_select_end.map(|(r, _)| r), Some(0));
}

#[test]
fn test_visual_select_extend_down_at_bottom() {
    let articles = create_test_articles(1);
    let mut app = App::new(articles, TEST_REFRESH_INTERVAL, false, NOW);
    app.input_mode = InputMode::VisualSelect;
    app.article_content = Some("Line 1\nLine 2\nLine 3".to_string());
    app.visual_select_start = Some((2, 0));
    app.visual_select_end = Some((2, 0));

    app.visual_select_down();

    assert_eq!(app.visual_select_end.map(|(r, _)| r), Some(2));
}

#[test]
fn test_visual_select_extend_up_at_top() {
    let articles = create_test_articles(1);
    let mut app = App::new(articles, TEST_REFRESH_INTERVAL, false, NOW);
    app.input_mode = InputMode::VisualSelect;
    app.article_content = Some("Line 1\nLine 2\nLine 3".to_string());
    app.visual_select_start = Some((0, 0));
    app.visual_select_end = Some((0, 0));

    app.visual_select_up();

    assert_eq!(app.visual_select_end.map(|(r, _)| r), Some(0));
}

#[test]
fn test_get_selected_text_single_line() {
    let articles = create_test_articles(1);
    let mut app = App::new(articles, TEST_REFRESH_INTERVAL, false, NOW);
    app.article_content = Some("Line 1\nLine 2\nLine 3".to_string());
    app.visual_select_start = Some((1, 0));
    app.visual_select_end = Some((1, 5));

    let selected = app.get_selected_text();

    assert_eq!(selected, Some("Line 2".to_string()));
}

#[test]
fn test_get_selected_text_multiple_lines() {
    let articles = create_test_articles(1);
    let mut app = App::new(articles, TEST_REFRESH_INTERVAL, false, NOW);
    app.article_content = Some("Line 1\nLine 2\nLine 3".to_string());
    app.visual_select_start = Some((0, 0));
    app.visual_select_end = Some((2, 5));

    let selected = app.get_selected_text();

    assert_eq!(selected, Some("Line 1\nLine 2\nLine 3".to_string()));
}

#[test]
fn test_get_selected_text_reverse_selection() {
    let articles = create_test_articles(1);
    let mut app = App::new(articles, TEST_REFRESH_INTERVAL, false, NOW);
    app.article_content = Some("Line 1\nLine 2\nLine 3".to_string());
    app.visual_select_start = Some((2, 5));
    app.visual_select_end = Some((0, 0));

    let selected = app.get_selected_text();

    assert_eq!(selected, Some("Line 1\nLine 2\nLine 3".to_string()));
}

#[test]
fn test_cancel_visual_select() {
    let articles = create_test_articles(1);
    let mut app = App::new(articles, TEST_REFRESH_INTERVAL, false, NOW);
    app.input_mode = InputMode::VisualSelect;
    app.article_content = Some("Line 1\nLine 2\nLine 3".to_string());
    app.visual_select_start = Some((0, 0));
    app.visual_select_end = Some((1, 0));

    app.cancel_visual_select();

    assert_eq!(app.input_mode, InputMode::ViewingArticle);
    assert_eq!(app.visual_select_start, None);
    assert_eq!(app.visual_select_end, None);
}

#[test]
fn test_article_cursor_down() {
    let articles = create_test_articles(1);
    let mut app = App::new(articles, TEST_REFRESH_INTERVAL, false, NOW);
    app.article_content = Some("Line 1\nLine 2\nLine 3".to_string());
    app.article_cursor = 0;

    app.article_cursor_down();

    assert_eq!(app.article_cursor, 1);
}

#[test]
fn test_article_cursor_down_at_bottom() {
    let articles = create_test_articles(1);
    let mut app = App::new(articles, TEST_REFRESH_INTERVAL, false, NOW);
    app.article_content = Some("Line 1\nLine 2\nLine 3".to_string());
    app.article_cursor = 2;

    app.article_cursor_down();

    assert_eq!(app.article_cursor, 2);
}

#[test]
fn test_article_cursor_up() {
    let articles = create_test_articles(1);
    let mut app = App::new(articles, TEST_REFRESH_INTERVAL, false, NOW);
    app.article_content = Some("Line 1\nLine 2\nLine 3".to_string());
    app.article_cursor = 2;

    app.article_cursor_up();

    assert_eq!(app.article_cursor, 1);
}

#[test]
fn test_article_cursor_up_at_top() {
    let articles = create_test_articles(1);
    let mut app = App::new(articles, TEST_REFRESH_INTERVAL, false, NOW);
    app.article_content = Some("Line 1\nLine 2\nLine 3".to_string());
    app.article_cursor = 0;

    app.article_cursor_up();

    assert_eq!(app.article_cursor, 0);
}

#[test]
fn test_article_cursor_to_top() {
    let articles = create_test_articles(1);
    let mut app = App::new(articles, TEST_REFRESH_INTERVAL, false, NOW);
    app.article_content = Some("Line 1\nLine 2\nLine 3".to_string());
    app.article_cursor = 2;

    app.article_cursor_to_top();

    assert_eq!(app.article_cursor, 0);
}

#[test]
fn test_article_cursor_to_bottom() {
    let articles = create_test_articles(1);
    let mut app = App::new(articles, TEST_REFRESH_INTERVAL, false, NOW);
    app.article_content = Some("Line 1\nLine 2\nLine 3".to_string());
    app.article_cursor = 0;

    app.article_cursor_to_bottom();

    assert_eq!(app.article_cursor, 2);
}

#[test]
fn test_visual_select_starts_at_cursor() {
    let articles = create_test_articles(1);
    let mut app = App::new(articles, TEST_REFRESH_INTERVAL, false, NOW);
    app.input_mode = InputMode::ViewingArticle;
    app.article_content = Some("Line 1\nLine 2\nLine 3".to_string());
    app.article_cursor = 1;
    app.article_cursor_col = 2;

    app.start_visual_select();

    assert_eq!(app.visual_select_start, Some((1, 2)));
    assert_eq!(app.visual_select_end, Some((1, 2)));
}

#[test]
fn test_article_cursor_right() {
    let articles = create_test_articles(1);
    let mut app = App::new(articles, TEST_REFRESH_INTERVAL, false, NOW);
    app.article_content = Some("Hello".to_string());
    app.article_cursor = 0;
    app.article_cursor_col = 0;

    app.article_cursor_right();

    assert_eq!(app.article_cursor_col, 1);
}

#[test]
fn test_article_cursor_right_at_end() {
    let articles = create_test_articles(1);
    let mut app = App::new(articles, TEST_REFRESH_INTERVAL, false, NOW);
    app.article_content = Some("Hello".to_string());
    app.article_cursor = 0;
    app.article_cursor_col = 4;

    app.article_cursor_right();

    assert_eq!(app.article_cursor_col, 4);
}

#[test]
fn test_article_cursor_left() {
    let articles = create_test_articles(1);
    let mut app = App::new(articles, TEST_REFRESH_INTERVAL, false, NOW);
    app.article_content = Some("Hello".to_string());
    app.article_cursor = 0;
    app.article_cursor_col = 3;

    app.article_cursor_left();

    assert_eq!(app.article_cursor_col, 2);
}

#[test]
fn test_article_cursor_left_at_start() {
    let articles = create_test_articles(1);
    let mut app = App::new(articles, TEST_REFRESH_INTERVAL, false, NOW);
    app.article_content = Some("Hello".to_string());
    app.article_cursor = 0;
    app.article_cursor_col = 0;

    app.article_cursor_left();

    assert_eq!(app.article_cursor_col, 0);
}

#[test]
fn test_get_selected_text_character_based() {
    let articles = create_test_articles(1);
    let mut app = App::new(articles, TEST_REFRESH_INTERVAL, false, NOW);
    app.article_content = Some("Hello World".to_string());
    app.visual_select_start = Some((0, 0));
    app.visual_select_end = Some((0, 4));

    let selected = app.get_selected_text();

    assert_eq!(selected, Some("Hello".to_string()));
}

#[test]
fn test_get_selected_text_multiline_character_based() {
    let articles = create_test_articles(1);
    let mut app = App::new(articles, TEST_REFRESH_INTERVAL, false, NOW);
    app.article_content = Some("Hello\nWorld".to_string());
    app.visual_select_start = Some((0, 2));
    app.visual_select_end = Some((1, 2));

    let selected = app.get_selected_text();

    assert_eq!(selected, Some("llo\nWor".to_string()));
}

#[test]
fn test_start_visual_line_select() {
    let articles = create_test_articles(1);
    let mut app = App::new(articles, TEST_REFRESH_INTERVAL, false, NOW);
    app.input_mode = InputMode::ViewingArticle;
    app.article_content = Some("Line 1\nLine 2\nLine 3".to_string());
    app.article_cursor = 1;

    app.start_visual_line_select();

    assert_eq!(app.input_mode, InputMode::VisualLine);
    assert_eq!(app.visual_line_start, Some(1));
    assert_eq!(app.visual_line_end, Some(1));
}

#[test]
fn test_visual_line_extend_down() {
    let articles = create_test_articles(1);
    let mut app = App::new(articles, TEST_REFRESH_INTERVAL, false, NOW);
    app.input_mode = InputMode::VisualLine;
    app.article_content = Some("Line 1\nLine 2\nLine 3".to_string());
    app.visual_line_start = Some(0);
    app.visual_line_end = Some(0);

    app.visual_line_down();

    assert_eq!(app.visual_line_end, Some(1));
}

#[test]
fn test_visual_line_extend_up() {
    let articles = create_test_articles(1);
    let mut app = App::new(articles, TEST_REFRESH_INTERVAL, false, NOW);
    app.input_mode = InputMode::VisualLine;
    app.article_content = Some("Line 1\nLine 2\nLine 3".to_string());
    app.visual_line_start = Some(1);
    app.visual_line_end = Some(1);

    app.visual_line_up();

    assert_eq!(app.visual_line_end, Some(0));
}

#[test]
fn test_get_selected_lines_single() {
    let articles = create_test_articles(1);
    let mut app = App::new(articles, TEST_REFRESH_INTERVAL, false, NOW);
    app.article_content = Some("Line 1\nLine 2\nLine 3".to_string());
    app.visual_line_start = Some(1);
    app.visual_line_end = Some(1);

    let selected = app.get_selected_lines();

    assert_eq!(selected, Some("Line 2".to_string()));
}

#[test]
fn test_get_selected_lines_multiple() {
    let articles = create_test_articles(1);
    let mut app = App::new(articles, TEST_REFRESH_INTERVAL, false, NOW);
    app.article_content = Some("Line 1\nLine 2\nLine 3".to_string());
    app.visual_line_start = Some(0);
    app.visual_line_end = Some(2);

    let selected = app.get_selected_lines();

    assert_eq!(selected, Some("Line 1\nLine 2\nLine 3".to_string()));
}

#[test]
fn test_get_selected_lines_reverse() {
    let articles = create_test_articles(1);
    let mut app = App::new(articles, TEST_REFRESH_INTERVAL, false, NOW);
    app.article_content = Some("Line 1\nLine 2\nLine 3".to_string());
    app.visual_line_start = Some(2);
    app.visual_line_end = Some(0);

    let selected = app.get_selected_lines();

    assert_eq!(selected, Some("Line 1\nLine 2\nLine 3".to_string()));
}

#[test]
fn test_cancel_visual_line_select() {
    let articles = create_test_articles(1);
    let mut app = App::new(articles, TEST_REFRESH_INTERVAL, false, NOW);
    app.input_mode = InputMode::VisualLine;
    app.visual_line_start = Some(0);
    app.visual_line_end = Some(1);

    app.cancel_visual_line_select();

    assert_eq!(app.input_mode, InputMode::ViewingArticle);
    assert_eq!(app.visual_line_start, None);
    assert_eq!(app.visual_line_end, None);
}
