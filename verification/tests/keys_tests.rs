use rss_reader::app::App;
use rss_reader::feed::Article;
use rss_reader::keys::{Action, Key, KeyCode};
use rss_reader::screen::InputMode;
use rss_reader::subscription::Feed;

const SECOND: u128 = 1_000_000_000;
const NOW: u128 = 50 * SECOND;
const ROWS: usize = 30;

fn key(c: KeyCode) -> Key {
    Key { code: c, ctrl: false, super_key: false }
}

fn ctrl(c: char) -> Key {
    Key { code: KeyCode::Char(c), ctrl: true, super_key: false }
}

fn ch(c: char) -> Key {
    key(KeyCode::Char(c))
}

fn articles(n: usize) -> Vec<Article> {
    (0..n)
        .map(|i| Article {
            title: format!("Title {}", i),
            link: format!("https://example.com/{}", i),
            published: None,
            feed_title: if i % 2 == 0 { "Even".to_string() } else { "Odd".to_string() },
        })
        .collect()
}

fn app(n: usize) -> App {
    App::new(articles(n), 300 * SECOND, false, 0)
}

#[test]
fn keys_move_the_selection() {
    let mut a = app(30);
    let r = a.handle_key(ch('j'), NOW, ROWS);
    assert_eq!(a.selected, 1);
    assert!(r.sync_list);
    a.handle_key(ctrl('d'), NOW, ROWS);
    assert_eq!(a.selected, 11);
    a.handle_key(ch('G'), NOW, ROWS);
    assert_eq!(a.selected, 29);
    a.handle_key(key(KeyCode::Down), NOW, ROWS);
    assert_eq!(a.selected, 29);
    a.handle_key(ctrl('u'), NOW, ROWS);
    assert_eq!(a.selected, 19);
    a.handle_key(ch('g'), NOW, ROWS);
    assert_eq!(a.selected, 0);
    a.handle_key(ch('k'), NOW, ROWS);
    assert_eq!(a.selected, 0);
}

#[test]
fn enter_asks_to_open_the_selected_article() {
    let mut a = app(3);
    a.handle_key(ch('j'), NOW, ROWS);
    let r = a.handle_key(key(KeyCode::Enter), NOW, ROWS);
    assert_eq!(r.action, Action::OpenArticle("https://example.com/1".to_string()));
    assert_eq!(a.status_message, Some("Loading...".to_string()));
    assert_eq!(a.status_message_time, Some(NOW));
    let mut empty = app(0);
    let r = empty.handle_key(key(KeyCode::Enter), NOW, ROWS);
    assert_eq!(r.action, Action::Nothing);
    assert_eq!(empty.status_message, None);
}

#[test]
fn quit_reload_and_modes() {
    let mut a = app(3);
    assert_eq!(a.handle_key(ch('o'), NOW, ROWS).action, Action::OpenInBrowser("https://example.com/0".to_string()));
    assert_eq!(a.handle_key(ch('l'), NOW, ROWS).action, Action::ShowFeedList);
    a.handle_key(ch('r'), NOW, ROWS);
    assert!(a.should_reload);
    a.handle_key(ch('/'), NOW, ROWS);
    assert_eq!(a.input_mode, InputMode::Searching);
    a.handle_key(key(KeyCode::Esc), NOW, ROWS);
    assert_eq!(a.input_mode, InputMode::Normal);
    a.handle_key(ctrl('c'), NOW, ROWS);
    assert!(a.should_quit);
}

#[test]
fn adding_a_feed_by_typing() {
    let mut a = app(1);
    a.handle_key(ch('a'), NOW, ROWS);
    assert_eq!(a.input_mode, InputMode::AddingFeed);
    for c in "ht".chars() {
        a.handle_key(ch(c), NOW, ROWS);
    }
    a.handle_key(ch('x'), NOW, ROWS);
    a.handle_key(key(KeyCode::Backspace), NOW, ROWS);
    assert_eq!(a.input_buffer, "ht");
    assert_eq!(a.handle_key(ch('p'), NOW, ROWS).action, Action::PasteFromClipboard);
    a.paste("tps://b");
    let v = Key { code: KeyCode::Char('v'), ctrl: false, super_key: true };
    a.handle_key(v, NOW, ROWS);
    assert_eq!(a.input_buffer, "https://b");
    let r = a.handle_key(key(KeyCode::Enter), NOW, ROWS);
    assert_eq!(r.action, Action::AddFeed("https://b".to_string()));
    assert_eq!(a.input_mode, InputMode::Normal);
    assert_eq!(a.input_buffer, "");
}

#[test]
fn enter_with_nothing_typed_adds_nothing() {
    let mut a = app(1);
    a.handle_key(ch('a'), NOW, ROWS);
    let r = a.handle_key(key(KeyCode::Enter), NOW, ROWS);
    assert_eq!(r.action, Action::Nothing);
    assert_eq!(a.input_mode, InputMode::Normal);
}

#[test]
fn paste_is_ignored_outside_adding() {
    let mut a = app(1);
    a.paste("text");
    assert_eq!(a.input_buffer, "");
}

#[test]
fn feed_list_keys() {
    let mut a = app(4);
    a.show_feed_list(vec![
        Feed { url: "https://e".to_string(), title: Some("Even".to_string()) },
        Feed { url: "https://o".to_string(), title: Some("Odd".to_string()) },
    ]);
    assert_eq!(a.input_mode, InputMode::FeedList);
    a.handle_key(ch('j'), NOW, ROWS);
    assert_eq!(a.feed_selected, 1);
    assert_eq!(a.handle_key(ch('o'), NOW, ROWS).action, Action::OpenInBrowser("https://o".to_string()));
    assert_eq!(a.handle_key(ch('d'), NOW, ROWS).action, Action::DeleteFeed);
    assert_eq!(a.handle_key(ch('s'), NOW, ROWS).action, Action::SortFeeds);
    a.handle_key(key(KeyCode::Enter), NOW, ROWS);
    assert_eq!(a.input_mode, InputMode::Normal);
    assert_eq!(a.filter_feed_url, Some("Odd".to_string()));
    let shown: Vec<String> = a.filtered_articles().iter().map(|x| x.title.clone()).collect();
    assert_eq!(shown, vec!["Title 1".to_string(), "Title 3".to_string()]);
    a.handle_key(key(KeyCode::Esc), NOW, ROWS);
    assert_eq!(a.filter_feed_url, None);
}

#[test]
fn search_keys() {
    let mut a = app(12);
    a.handle_key(ch('/'), NOW, ROWS);
    for c in "title 1".chars() {
        a.handle_key(ch(c), NOW, ROWS);
    }
    let r = a.handle_key(key(KeyCode::Enter), NOW, ROWS);
    assert!(r.sync_list);
    assert_eq!(a.search_matches, vec![1, 10, 11]);
    assert_eq!(a.selected, 1);
    a.handle_key(ch('n'), NOW, ROWS);
    assert_eq!(a.selected, 10);
    a.handle_key(ch('N'), NOW, ROWS);
    a.handle_key(ch('N'), NOW, ROWS);
    assert_eq!(a.selected, 11);
}

#[test]
fn article_view_keys_and_yank() {
    let mut a = app(1);
    a.show_article("Hello\nWorld\n".to_string());
    assert_eq!(a.input_mode, InputMode::ViewingArticle);
    a.handle_key(ch('l'), NOW, ROWS);
    a.handle_key(ch('l'), NOW, ROWS);
    a.handle_key(ch('v'), NOW, ROWS);
    assert_eq!(a.input_mode, InputMode::VisualSelect);
    a.handle_key(ch('j'), NOW, ROWS);
    assert!(a.key_defined(ch('y')));
    let r = a.handle_key(ch('y'), NOW, ROWS);
    assert_eq!(r.action, Action::Copy("llo\nWor".to_string()));
    assert_eq!(a.input_mode, InputMode::ViewingArticle);
    a.handle_key(ch('V'), NOW, ROWS);
    a.handle_key(ch('k'), NOW, ROWS);
    let r = a.handle_key(ch('y'), NOW, ROWS);
    assert_eq!(r.action, Action::Copy("Hello".to_string()));
    a.handle_key(ch('$'), NOW, ROWS);
    assert_eq!(a.article_cursor_col, 4);
    a.handle_key(ch('0'), NOW, ROWS);
    assert_eq!(a.article_cursor_col, 0);
    a.handle_key(ch('q'), NOW, ROWS);
    assert_eq!(a.input_mode, InputMode::Normal);
    assert_eq!(a.article_content, None);
}

#[test]
fn page_keys_move_the_cursor_by_pages() {
    let mut a = app(1);
    let text: String = (0..100).map(|i| format!("line {}\n", i)).collect();
    a.show_article(text);
    a.handle_key(ctrl('f'), NOW, ROWS);
    assert_eq!(a.article_cursor, 30);
    a.handle_key(ctrl('d'), NOW, ROWS);
    assert_eq!(a.article_cursor, 45);
    a.handle_key(ctrl('u'), NOW, ROWS);
    assert_eq!(a.article_cursor, 30);
    a.handle_key(ctrl('b'), NOW, ROWS);
    assert_eq!(a.article_cursor, 0);
    a.handle_key(ch('G'), NOW, ROWS);
    assert_eq!(a.article_cursor, 99);
}

#[test]
fn page_keys_follow_the_view_height() {
    let mut a = app(1);
    let text: String = (0..100).map(|i| format!("line {}\n", i)).collect();
    a.show_article(text);
    a.handle_key(ctrl('f'), NOW, 20);
    assert_eq!(a.article_cursor, 20);
    a.handle_key(ctrl('d'), NOW, 21);
    assert_eq!(a.article_cursor, 30);
    a.handle_key(ctrl('u'), NOW, 8);
    assert_eq!(a.article_cursor, 26);
    a.handle_key(ctrl('b'), NOW, 0);
    assert_eq!(a.article_cursor, 26);
    assert_eq!(rss_reader::render::view_rows(24), 22);
    assert_eq!(rss_reader::render::view_rows(1), 0);
}

#[test]
fn status_expires_after_three_seconds() {
    let mut a = app(1);
    a.set_status("hi".to_string(), NOW);
    a.clear_expired_status(NOW + 2 * SECOND);
    assert_eq!(a.status_message, Some("hi".to_string()));
    a.clear_expired_status(NOW + 3 * SECOND);
    assert_eq!(a.status_message, None);
}

#[test]
fn law_backspace_undoes_typing_concrete() {
    let mut a = app(1);
    a.handle_key(ch('/'), NOW, ROWS);
    a.handle_key(ch('a'), NOW, ROWS);
    let before = a.input_buffer.clone();
    a.handle_key(ch('é'), NOW, ROWS);
    a.handle_key(key(KeyCode::Backspace), NOW, ROWS);
    assert_eq!(a.input_buffer, before);
}
