use rss_reader::opml::{generate_opml, parse_opml, OpmlError};
use rss_reader::subscription::Feed;

const SAMPLE_OPML: &str = r#"<?xml version="1.0" encoding="UTF-8"?>
<opml version="2.0">
  <head><title>Feeds</title></head>
  <body>
    <outline type="rss" xmlUrl="https://example.com/feed1.xml" title="Feed 1"/>
    <outline type="rss" xmlUrl="https://example.com/feed2.xml" text="Feed 2"/>
  </body>
</opml>"#;

#[test]
fn test_parse_opml_returns_feeds() {
    let feeds = parse_opml(SAMPLE_OPML).unwrap();

    assert_eq!(feeds.len(), 2);
}

#[test]
fn test_parse_opml_extracts_url() {
    let feeds = parse_opml(SAMPLE_OPML).unwrap();

    assert_eq!(feeds[0].url, "https://example.com/feed1.xml");
    assert_eq!(feeds[1].url, "https://example.com/feed2.xml");
}

#[test]
fn test_parse_opml_extracts_title() {
    let feeds = parse_opml(SAMPLE_OPML).unwrap();

    assert_eq!(feeds[0].title, Some("Feed 1".to_string()));
    assert_eq!(feeds[1].title, Some("Feed 2".to_string()));
}

#[test]
fn test_generate_opml_creates_valid_xml() {
    let feeds = vec![Feed {
        url: "https://example.com/feed.xml".to_string(),
        title: Some("Test Feed".to_string()),
    }];

    let result = generate_opml(&feeds).unwrap();

    assert!(result.contains("xmlUrl=\"https://example.com/feed.xml\""));
    assert!(result.contains("title=\"Test Feed\""));
}

#[test]
fn test_roundtrip() {
    let original = vec![
        Feed {
            url: "https://example.com/feed1.xml".to_string(),
            title: Some("Feed 1".to_string()),
        },
        Feed {
            url: "https://example.com/feed2.xml".to_string(),
            title: None,
        },
    ];

    let opml = generate_opml(&original).unwrap();
    let parsed = parse_opml(&opml).unwrap();

    assert_eq!(parsed.len(), 2);
    assert_eq!(parsed[0].url, original[0].url);
    assert_eq!(parsed[0].title, original[0].title);
    assert_eq!(parsed[1].url, original[1].url);
}

#[test]
fn generate_opml_exact_document() {
    let feeds = vec![
        Feed { url: "https://a.example/x?a=1&b=2".to_string(), title: Some("A <b> \"c\"".to_string()) },
        Feed { url: "https://b.example".to_string(), title: None },
    ];
    let doc = generate_opml(&feeds).unwrap();
    assert_eq!(
        doc,
        [
            "<?xml version=\"1.0\" encoding=\"UTF-8\"?>",
            "<opml version=\"2.0\"><head><title>RSS Subscriptions</title></head><body>",
            "<outline type=\"rss\" xmlUrl=\"https://a.example/x?a=1&amp;b=2\" title=\"A &lt;b&gt; &quot;c&quot;\" text=\"A &lt;b&gt; &quot;c&quot;\"/>",
            "<outline type=\"rss\" xmlUrl=\"https://b.example\"/>",
            "</body></opml>",
        ]
        .concat()
    );
}

#[test]
fn law_roundtrip_without_markup_characters() {
    let original = vec![
        Feed { url: "https://b.example/feed?x=1".to_string(), title: None },
        Feed { url: "https://c.example".to_string(), title: Some("Ünïcödé title".to_string()) },
    ];
    let parsed = parse_opml(&generate_opml(&original).unwrap()).unwrap();
    assert_eq!(parsed, original);
}

#[test]
fn roundtrip_keeps_attribute_text_as_written() {
    let original = vec![Feed {
        url: "https://a.example/x?a=1&b=2".to_string(),
        title: Some("A <b> \"c\" 'd'".to_string()),
    }];
    let parsed = parse_opml(&generate_opml(&original).unwrap()).unwrap();
    assert_eq!(
        parsed,
        vec![Feed {
            url: "https://a.example/x?a=1&amp;b=2".to_string(),
            title: Some("A &lt;b&gt; &quot;c&quot; &apos;d&apos;".to_string()),
        }]
    );
}

#[test]
fn parse_opml_skips_outlines_without_address() {
    let doc = r#"<opml><body><outline text="Folder"><outline xmlUrl="https://x" text="X"/></outline></body></opml>"#;
    let feeds = parse_opml(doc).unwrap();
    assert_eq!(feeds, vec![Feed { url: "https://x".to_string(), title: Some("X".to_string()) }]);
}

#[test]
fn parse_opml_reports_malformed_xml() {
    let r = parse_opml("<opml><body></opml>");
    assert!(matches!(r, Err(OpmlError::Parse(_))));
}
