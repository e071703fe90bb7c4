use rss_reader::canonical::{canonical_target, extract_canonical_url, try_extract_canonical_url};
use rss_reader::feed::{
    is_valid_entity, parse_atom_feed, parse_date, parse_feed, parse_rss_channel, published_at_most,
    sanitize_xml, AtomEntry, AtomFeed, FeedError, RssChannel, RssItem, Timestamp,
};
use rss_reader::text::sanitize_text;

const SAMPLE_RSS: &str = r#"<?xml version="1.0" encoding="UTF-8"?>
<rss version="2.0">
  <channel>
    <title>Sample Blog</title>
    <link>https://example.com</link>
    <description>A sample blog</description>
    <item>
      <title>First Post</title>
      <link>https://example.com/first</link>
      <pubDate>Wed, 01 Jan 2025 12:00:00 +0000</pubDate>
    </item>
    <item>
      <title>Second Post</title>
      <link>https://example.com/second</link>
      <pubDate>Thu, 02 Jan 2025 12:00:00 +0000</pubDate>
    </item>
  </channel>
</rss>"#;

const SAMPLE_ATOM: &str = r#"<?xml version="1.0" encoding="UTF-8"?>
<feed xmlns="http://www.w3.org/2005/Atom">
  <title>Sample Atom Feed</title>
  <link href="https://example.com"/>
  <entry>
    <title>Atom Entry</title>
    <link href="https://example.com/atom-entry"/>
    <updated>2025-01-03T12:00:00Z</updated>
  </entry>
</feed>"#;

fn ymd(t: Timestamp) -> String {
    chrono::DateTime::from_timestamp(t.secs, t.nanos).unwrap().format("%Y-%m-%d").to_string()
}

#[test]
fn test_parse_rss_returns_articles() {
    let articles = parse_feed(SAMPLE_RSS).unwrap();

    assert_eq!(articles.len(), 2);
}

#[test]
fn test_parse_rss_article_has_title() {
    let articles = parse_feed(SAMPLE_RSS).unwrap();

    assert_eq!(articles[0].title, "First Post");
    assert_eq!(articles[1].title, "Second Post");
}

#[test]
fn test_parse_rss_article_has_link() {
    let articles = parse_feed(SAMPLE_RSS).unwrap();

    assert_eq!(articles[0].link, "https://example.com/first");
}

#[test]
fn test_parse_rss_article_has_published_date() {
    let articles = parse_feed(SAMPLE_RSS).unwrap();

    assert!(articles[0].published.is_some());
}

#[test]
fn test_parse_rss_article_has_feed_title() {
    let articles = parse_feed(SAMPLE_RSS).unwrap();

    assert_eq!(articles[0].feed_title, "Sample Blog");
}

#[test]
fn test_parse_atom_returns_articles() {
    let articles = parse_feed(SAMPLE_ATOM).unwrap();

    assert_eq!(articles.len(), 1);
    assert_eq!(articles[0].title, "Atom Entry");
}

#[test]
fn test_parse_invalid_feed_returns_error() {
    let result = parse_feed("invalid xml");

    assert!(result.is_err());
    assert_eq!(result.unwrap_err(), FeedError::UnsupportedFormat);
}

#[test]
fn test_parse_atom_prefers_published_over_updated() {
    let atom_with_published = r#"<?xml version="1.0" encoding="UTF-8"?>
<feed xmlns="http://www.w3.org/2005/Atom">
  <title>Test Feed</title>
  <entry>
    <title>Test Entry</title>
    <link href="https://example.com/entry"/>
    <published>2025-01-01T10:00:00Z</published>
    <updated>2025-01-10T15:00:00Z</updated>
  </entry>
</feed>"#;

    let articles = parse_feed(atom_with_published).unwrap();

    assert_eq!(articles.len(), 1);
    let published = articles[0].published.unwrap();
    assert_eq!(ymd(published), "2025-01-01");
}

#[test]
fn test_parse_atom_falls_back_to_updated_when_no_published() {
    let atom_without_published = r#"<?xml version="1.0" encoding="UTF-8"?>
<feed xmlns="http://www.w3.org/2005/Atom">
  <title>Test Feed</title>
  <entry>
    <title>Test Entry</title>
    <link href="https://example.com/entry"/>
    <updated>2025-01-10T15:00:00Z</updated>
  </entry>
</feed>"#;

    let articles = parse_feed(atom_without_published).unwrap();

    assert_eq!(articles.len(), 1);
    let published = articles[0].published.unwrap();
    assert_eq!(ymd(published), "2025-01-10");
}

#[test]
fn test_parse_rss_removes_newlines_from_titles() {
    let rss_with_newlines = r#"<?xml version="1.0" encoding="UTF-8"?>
<rss version="2.0">
  <channel>
    <title>Sample
Blog</title>
    <item>
      <title>First
Post</title>
      <link>https://example.com/first</link>
    </item>
  </channel>
</rss>"#;

    let articles = parse_feed(rss_with_newlines).unwrap();

    assert_eq!(articles[0].feed_title, "Sample Blog");
    assert_eq!(articles[0].title, "First Post");
}

#[test]
fn test_parse_atom_removes_newlines_from_titles() {
    let atom_with_newlines = r#"<?xml version="1.0" encoding="UTF-8"?>
<feed xmlns="http://www.w3.org/2005/Atom">
  <title>Sample
Atom</title>
  <entry>
    <title>Atom
Entry</title>
    <link href="https://example.com/atom-entry"/>
    <updated>2025-01-03T12:00:00Z</updated>
  </entry>
</feed>"#;

    let articles = parse_feed(atom_with_newlines).unwrap();

    assert_eq!(articles[0].feed_title, "Sample Atom");
    assert_eq!(articles[0].title, "Atom Entry");
}

#[test]
fn test_parse_rss10_with_dc_date() {
    let rss10 = r#"<?xml version="1.0" encoding="UTF-8"?>
<rdf:RDF
 xmlns:rdf="http://www.w3.org/1999/02/22-rdf-syntax-ns#"
 xmlns="http://purl.org/rss/1.0/"
 xmlns:dc="http://purl.org/dc/elements/1.1/"
>
<channel>
<title>Sample RDF Feed</title>
<link>https://example.com</link>
</channel>
<item rdf:about="https://example.com/item1">
<title>RDF Item</title>
<link>https://example.com/item1</link>
<dc:date>2025-01-11T12:00:00Z</dc:date>
</item>
</rdf:RDF>"#;

    let articles = parse_feed(rss10).unwrap();

    assert_eq!(articles.len(), 1);
    assert_eq!(articles[0].title, "RDF Item");
    assert_eq!(articles[0].link, "https://example.com/item1");
    assert!(articles[0].published.is_some());
}

#[test]
fn test_sanitize_unescaped_ampersands() {
    let input = "url?foo=1&bar=2&amp;baz=3";
    let expected = "url?foo=1&amp;bar=2&amp;baz=3";
    assert_eq!(sanitize_xml(input), expected);
}

#[test]
fn test_sanitize_preserves_valid_entities() {
    let input = "&amp; &lt; &gt; &quot; &apos; &#38; &#x26;";
    assert_eq!(sanitize_xml(input), input);
}

#[test]
fn test_parse_rss_with_unescaped_ampersands() {
    let rss_with_ampersands = r#"<?xml version="1.0" encoding="UTF-8"?>
<rss version="2.0">
  <channel>
    <title>Test Feed</title>
    <item>
      <title>Test Item</title>
      <link>https://example.com?foo=1&amp;bar=2</link>
      <description>Image: https://example.com/img?w=100&h=200</description>
    </item>
  </channel>
</rss>"#;

    let articles = parse_feed(rss_with_ampersands).unwrap();

    assert_eq!(articles.len(), 1);
    assert_eq!(articles[0].title, "Test Item");
}

#[test]
fn sanitize_escapes_malformed_references() {
    assert_eq!(sanitize_xml("&#;"), "&amp;#;");
    assert_eq!(sanitize_xml("&#x;"), "&amp;#x;");
    assert_eq!(sanitize_xml("&#12a;"), "&amp;#12a;");
    assert_eq!(sanitize_xml("&#X1F;"), "&#X1F;");
    assert_eq!(sanitize_xml("&nbsp;"), "&amp;nbsp;");
    assert_eq!(sanitize_xml("&"), "&amp;");
    assert_eq!(sanitize_xml("a & b"), "a &amp; b");
    assert_eq!(sanitize_xml(""), "");
}

#[test]
fn law_sanitize_twice_is_sanitize_once() {
    for s in ["url?foo=1&bar=2&amp;baz=3", "&&&", "&#;&#x26;&", "plain", "&amp&lt;"] {
        let once = sanitize_xml(s);
        assert_eq!(sanitize_xml(&once), once);
    }
}

#[test]
fn is_valid_entity_cases() {
    let chars: Vec<char> = "x&amp;&#12;&#xfF;&#;&bad;&#x;".chars().collect();
    assert!(!is_valid_entity(&chars, 0));
    assert!(is_valid_entity(&chars, 1));
    assert!(is_valid_entity(&chars, 6));
    assert!(is_valid_entity(&chars, 11));
    assert!(!is_valid_entity(&chars, 18));
    assert!(!is_valid_entity(&chars, 21));
    assert!(!is_valid_entity(&chars, 26));
    assert!(!is_valid_entity(&chars, chars.len()));
}

#[test]
fn sanitize_text_collapses_white_space() {
    assert_eq!(sanitize_text("  a\n\tb   c  "), "a b c");
    assert_eq!(sanitize_text(""), "");
    assert_eq!(sanitize_text(" \n "), "");
    assert_eq!(sanitize_text("x\u{3000}y"), "x y");
}

#[test]
fn law_collapse_twice_is_collapse_once() {
    for s in ["  a\n\tb   c  ", "one", "", "\u{2003}x\u{2003}\u{2003}y\u{2003}"] {
        let once = sanitize_text(s);
        assert_eq!(sanitize_text(&once), once);
    }
}

#[test]
fn parse_date_formats() {
    let a = parse_date("Wed, 01 Jan 2025 12:00:00 +0000").unwrap();
    assert_eq!(a, Timestamp { secs: 1735732800, nanos: 0 });
    let b = parse_date("2025-01-03T12:00:00Z").unwrap();
    assert_eq!(b, Timestamp { secs: 1735905600, nanos: 0 });
    let c = parse_date("01 Jan 2025 12:00:00 +0000").unwrap();
    assert_eq!(c, Timestamp { secs: 1735732800, nanos: 0 });
    let d = parse_date("2025-01-03T12:00:00+0000").unwrap();
    assert_eq!(d, Timestamp { secs: 1735905600, nanos: 0 });
    assert_eq!(parse_date("not a date"), None);
}

#[test]
fn published_order() {
    let early = Some(Timestamp { secs: 10, nanos: 5 });
    let late = Some(Timestamp { secs: 10, nanos: 6 });
    assert!(published_at_most(early, late));
    assert!(!published_at_most(late, early));
    assert!(published_at_most(None, early));
    assert!(!published_at_most(early, None));
    assert!(published_at_most(None, None));
}

#[test]
fn rss_channel_articles_skip_items_without_title_or_link() {
    let channel = RssChannel {
        title: " My \n Feed ".to_string(),
        items: vec![
            RssItem {
                title: Some("A\ntitle".to_string()),
                link: Some("https://a".to_string()),
                pub_date: None,
                dc_dates: vec!["2025-01-03T12:00:00Z".to_string()],
            },
            RssItem { title: None, link: None, pub_date: Some("garbage".to_string()), dc_dates: vec![] },
        ],
    };
    let articles = parse_rss_channel(&channel);
    assert_eq!(articles.len(), 1);
    assert_eq!(articles[0].feed_title, "My Feed");
    assert_eq!(articles[0].title, "A title");
    assert_eq!(articles[0].published, Some(Timestamp { secs: 1735905600, nanos: 0 }));
}

#[test]
fn atom_feed_articles_take_first_link() {
    let feed = AtomFeed {
        title: "T".to_string(),
        entries: vec![AtomEntry {
            title: "E".to_string(),
            links: vec!["https://one".to_string(), "https://two".to_string()],
            published: None,
            updated: Timestamp { secs: 7, nanos: 0 },
        }],
    };
    let articles = parse_atom_feed(&feed);
    assert_eq!(articles[0].link, "https://one");
    assert_eq!(articles[0].published, Some(Timestamp { secs: 7, nanos: 0 }));
}

#[test]
fn canonical_url_is_found_near_rel() {
    let html = r#"<html><head><link rel="canonical" href="https://example.com/real"></head></html>"#;
    assert_eq!(extract_canonical_url(html), Some("https://example.com/real".to_string()));
    let before = format!(r#"<link href="https://example.com/b" rel="canonical">{}"#, " ".repeat(60));
    assert_eq!(extract_canonical_url(&before), Some("https://example.com/b".to_string()));
    let upper = format!(r#"<LINK REL="CANONICAL" HREF="https://example.com/c">{}"#, " ".repeat(60));
    assert_eq!(extract_canonical_url(&upper), Some("https://example.com/c".to_string()));
}

#[test]
fn canonical_url_must_be_http() {
    let html = r#"<link rel="canonical" href="/relative/path">                                 "#;
    assert_eq!(extract_canonical_url(html), None);
    assert_eq!(extract_canonical_url("<p>no link</p>"), None);
}

#[test]
fn canonical_search_out_of_range_is_reported() {
    let short = r#"rel="canonical""#;
    assert_eq!(try_extract_canonical_url(short), None);
    let fine = r#"<link rel="canonical" href="https://x.org/a">                                      "#;
    assert_eq!(try_extract_canonical_url(fine), Some(Some("https://x.org/a".to_string())));
}

#[test]
fn canonical_target_skips_same_address() {
    let html = r#"<link rel="canonical" href="https://x.org/a">                                      "#;
    assert_eq!(canonical_target("https://x.org/a", html), None);
    assert_eq!(canonical_target("https://x.org/b", html), Some("https://x.org/a".to_string()));
}

#[test]
fn try_canonical_target_cases() {
    let html = r#"<link rel="canonical" href="https://x.org/a">                                      "#;
    assert_eq!(rss_reader::canonical::try_canonical_target("https://x.org/a", html), Some(None));
    assert_eq!(
        rss_reader::canonical::try_canonical_target("https://x.org/b", html),
        Some(Some("https://x.org/a".to_string()))
    );
    assert_eq!(rss_reader::canonical::try_canonical_target("u", r#"rel="canonical""#), None);
}
