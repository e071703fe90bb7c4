use rss_reader::app::App;
use rss_reader::cli::{added_message, deleted_message, imported_message, list_lines, no_subscriptions_message, set_message};
use rss_reader::config::ConfigKey;
use rss_reader::feed::{Article, Timestamp};
use rss_reader::listing::{article_date, article_item_lines, feed_line, feed_list_line};
use rss_reader::page::{article_width, content_html};
use rss_reader::render::Segment;
use rss_reader::screen::InputMode;
use rss_reader::subscription::Feed;
use rss_reader::text::{truncate_str, wrap_text};

const SECOND: u128 = 1_000_000_000;

fn app_with(content: &str) -> App {
    let mut a = App::new(vec![], 300 * SECOND, false, 0);
    a.show_article(content.to_string());
    a
}

fn seg(text: &str, highlighted: bool) -> (String, bool) {
    (text.to_string(), highlighted)
}

fn pieces(lines: &[Vec<Segment>]) -> Vec<Vec<(String, bool)>> {
    lines.iter().map(|l| l.iter().map(|s| (s.text.clone(), s.highlighted)).collect()).collect()
}

#[test]
fn cursor_line_is_highlighted_at_the_cursor() {
    let mut a = app_with("abc\n\nxyz");
    a.article_cursor_right();
    assert!(a.render_defined(10));
    let r = pieces(&a.article_lines(10));
    assert_eq!(
        r,
        vec![
            vec![seg("a", false), seg("b", true), seg("c", false)],
            vec![seg("", false)],
            vec![seg("xyz", false)],
        ]
    );
    a.article_cursor_down();
    let r = pieces(&a.article_lines(10));
    assert_eq!(r[1], vec![seg(" ", true)]);
}

#[test]
fn view_scrolls_to_the_cursor() {
    let text: String = (0..10).map(|i| format!("l{}\n", i)).collect();
    let mut a = app_with(&text);
    for _ in 0..7 {
        a.article_cursor_down();
    }
    let r = pieces(&a.article_lines(3));
    assert_eq!(r.len(), 3);
    assert_eq!(r[0], vec![seg("l5", false)]);
    assert_eq!(r[2], vec![seg("l", true), seg("7", false)]);
}

#[test]
fn zero_height_view_is_refused() {
    let a = app_with("abc");
    assert!(!a.render_defined(0));
}

#[test]
fn character_selection_is_highlighted() {
    let mut a = app_with("Hello\nWorld\nAgain");
    a.article_cursor_right();
    a.article_cursor_right();
    a.start_visual_select();
    a.visual_select_down();
    let r = pieces(&a.article_lines(5));
    assert_eq!(
        r,
        vec![
            vec![seg("He", false), seg("llo", true)],
            vec![seg("Wor", true), seg("ld", false)],
            vec![seg("Again", false)],
        ]
    );
}

#[test]
fn line_selection_is_highlighted() {
    let mut a = app_with("one\ntwo\nthree");
    a.article_cursor_down();
    a.start_visual_line_select();
    a.visual_line_down();
    assert_eq!(a.input_mode, InputMode::VisualLine);
    let r = pieces(&a.article_lines(5));
    assert_eq!(r, vec![vec![seg("one", false)], vec![seg("two", true)], vec![seg("three", true)]]);
}

#[test]
fn article_entry_lines() {
    let a = Article {
        title: "A fairly long title".to_string(),
        link: "l".to_string(),
        published: Some(Timestamp { secs: 1735732800, nanos: 0 }),
        feed_title: "Some Feed Name".to_string(),
    };
    let lines = article_item_lines(&a, 17);
    assert_eq!(
        lines,
        vec![
            "01/01 A fairly l".to_string(),
            "      ong title".to_string(),
            "      [Some F...]".to_string(),
        ]
    );
    let undated = Article { published: None, ..a };
    assert_eq!(article_date(undated.published), "     ");
    assert_eq!(article_item_lines(&undated, 0)[0], "      A fairly long title");
}

#[test]
fn feed_lines() {
    let titled = Feed { url: "https://x".to_string(), title: Some("X".to_string()) };
    let bare = Feed { url: "https://y".to_string(), title: None };
    assert_eq!(feed_line(&titled), "X (https://x)");
    assert_eq!(feed_line(&bare), "https://y");
    assert_eq!(feed_list_line(&titled, 8), "X (ht...");
    assert_eq!(list_lines(&[titled.clone(), bare.clone()]), vec!["X (https://x)".to_string(), "https://y".to_string()]);
    assert_eq!(list_lines(&[]), vec![no_subscriptions_message()]);
    assert_eq!(no_subscriptions_message(), "No subscriptions yet. Use 'rss add <url>' to add a feed.");
}

#[test]
fn command_line_messages() {
    assert_eq!(added_message("https://x", Some("X".to_string())), "Added: X (https://x)");
    assert_eq!(added_message("https://x", None), "Added: https://x");
    assert_eq!(deleted_message("https://x", true), "Deleted: https://x");
    assert_eq!(deleted_message("https://x", false), "Not found: https://x");
    assert_eq!(imported_message(3), "Imported 3 feed(s)");
    assert_eq!(set_message(ConfigKey::AutoSort, "true"), "Set auto_sort = true");
}

#[test]
fn list_title_names_the_filter() {
    let mut a = App::new(vec![], 0, false, 0);
    assert_eq!(a.list_title(), "Articles");
    a.filter_feed_url = Some("Blog".to_string());
    assert_eq!(a.list_title(), "Articles [Blog]");
}

#[test]
fn article_width_has_a_floor() {
    assert_eq!(article_width(120), 116);
    assert_eq!(article_width(44), 40);
    assert_eq!(article_width(10), 40);
    assert_eq!(article_width(0), 40);
}

#[test]
fn extracted_content_wins() {
    assert_eq!(content_html(Some("<p>a</p>".to_string()), "<html/>".to_string()), "<p>a</p>");
    assert_eq!(content_html(None, "<html/>".to_string()), "<html/>");
}

#[test]
fn article_text_renders_page() {
    let html = "<html><body><p>Hello <b>there</b></p></body></html>".to_string();
    let text = rss_reader::page::article_text("not a url", html, 40).unwrap();
    assert!(text.contains("Hello"));
    assert!(text.contains("there"));
    assert!(!text.contains("<p>"));
}

#[test]
fn law_wrap_text_pieces_put_back_together() {
    for (s, w) in [("abcdefg", 3usize), ("", 4), ("abc", 0), ("abcdef", 3), ("héllo wörld", 4)] {
        let lines = wrap_text(s, w);
        assert!(!lines.is_empty());
        assert_eq!(lines.concat(), s);
        if w > 0 {
            for l in &lines[..lines.len() - 1] {
                assert_eq!(l.chars().count(), w);
            }
            assert!(lines.last().unwrap().chars().count() <= w);
        }
    }
    assert_eq!(wrap_text("abcdefg", 3), vec!["abc", "def", "g"]);
    assert_eq!(wrap_text("", 3), vec![""]);
}

#[test]
fn law_truncate_fits_width() {
    assert_eq!(truncate_str("hello", 10), "hello");
    assert_eq!(truncate_str("hello", 5), "hello");
    assert_eq!(truncate_str("hello world", 8), "hello...");
    assert_eq!(truncate_str("hello", 3), "hel");
    assert_eq!(truncate_str("hello", 0), "");
    assert_eq!(truncate_str("ünïcödé", 6), "ünï...");
}

#[test]
fn law_pieces_keep_the_line_text() {
    let mut a = app_with("Hello\nWorld\nAgain");
    let text_of = |l: &Vec<Segment>| l.iter().map(|s| s.text.clone()).collect::<String>();
    a.article_cursor_right();
    for (l, want) in a.article_lines(5).iter().zip(["Hello", "World", "Again"]) {
        assert_eq!(text_of(l), want);
    }
    a.start_visual_select();
    a.visual_select_down();
    a.visual_select_right();
    for (l, want) in a.article_lines(5).iter().zip(["Hello", "World", "Again"]) {
        assert_eq!(text_of(l), want);
    }
}

#[test]
fn article_text_keeps_the_main_content() {
    let body: String = (0..8)
        .map(|i| format!("<p>Paragraph {} of the story, long enough to count as content, with commas, and more words here.</p>", i))
        .collect();
    let html = format!(
        "<html><head><title>T</title></head><body><div class=\"sidebar\"><a href=\"/x\">Sidebar link</a></div><div class=\"article\">{}</div></body></html>",
        body
    );
    let text = rss_reader::page::article_text("https://example.com/story", html, 200).unwrap();
    assert!(text.contains("Paragraph 0 of the story"));
    assert!(!text.contains("<div"));
}

#[test]
fn export_message_shows_the_path_as_debug_does() {
    assert_eq!(rss_reader::cli::exported_message(2, "/tmp/feeds.opml"), "Exported 2 feed(s) to \"/tmp/feeds.opml\"");
    assert_eq!(rss_reader::cli::export_report(0, "x"), "Exported 0 feed(s) to x");
}

#[test]
fn article_dates_follow_the_calendar() {
    let date = |secs: i64, nanos: u32| article_date(Some(Timestamp { secs, nanos }));
    assert_eq!(date(-1, 0), "12/31");
    assert_eq!(date(1709164800, 0), "02/29");
    assert_eq!(date(1709164800 + 59, 1_500_000_000), "02/29");
    assert_eq!(date(1709164800 + 58, 1_500_000_000), "     ");
    assert_eq!(date(i64::MAX, 0), "     ");
    assert_eq!(date(-62135596800, 0), "01/01");
}
