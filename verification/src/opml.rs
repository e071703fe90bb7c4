use vstd::prelude::*;
use vstd::utf8::*;
use quick_xml::events::{BytesDecl, BytesEnd, BytesStart, BytesText, Event};
use crate::canonical::utf8_to_string;
use crate::feed::opt_view;
use crate::subscription::{Feed, FeedView, feed_views};
use crate::text::{chars_equal, chars_of, string_of};

verus! {

#[verifier::external_type_specification]
#[verifier::external_body]
#[verifier::reject_recursive_types(R)]
pub struct ExXmlReader<R>(quick_xml::Reader<R>);

#[verifier::external_type_specification]
#[verifier::external_body]
#[verifier::reject_recursive_types(W)]
pub struct ExXmlWriter<W>(quick_xml::Writer<W>);

#[verifier::external_type_specification]
#[verifier::external_body]
#[verifier::reject_recursive_types(T)]
pub struct ExCursor<T>(std::io::Cursor<T>);

#[verifier::external_type_specification]
#[verifier::external_body]
pub struct ExIoError(std::io::Error);

/// An element tag as the reader reports it: its name and its attributes,
/// in order; an attribute that does not parse stands as `None`.
pub struct XmlElement {
    pub name: String,
    pub attributes: Vec<Option<(String, String)>>,
}

/// An event of an XML document, as far as the reader tells them apart.
pub enum XmlEvent {
    Start(XmlElement),
    Empty(XmlElement),
    Eof,
    Error(String),
    Other,
}

/// What an element tag holds, as plain values.
pub struct XmlElementView {
    pub name: Seq<char>,
    pub attributes: Seq<Option<(Seq<char>, Seq<char>)>>,
}

/// What an event holds, as plain values.
pub enum XmlEventView {
    Start(XmlElementView),
    Empty(XmlElementView),
    Eof,
    Error(Seq<char>),
    Other,
}

/// The view of an attribute.
pub open spec fn attribute_view(a: Option<(String, String)>) -> Option<(Seq<char>, Seq<char>)> {
    match a {
        Some((k, v)) => Some((k@, v@)),
        None => None,
    }
}

impl View for XmlElement {
    type V = XmlElementView;

    open spec fn view(&self) -> XmlElementView {
        XmlElementView {
            name: self.name@,
            attributes: self.attributes@.map_values(|a: Option<(String, String)>| attribute_view(a)),
        }
    }
}

impl View for XmlEvent {
    type V = XmlEventView;

    open spec fn view(&self) -> XmlEventView {
        match self {
            XmlEvent::Start(e) => XmlEventView::Start(e@),
            XmlEvent::Empty(e) => XmlEventView::Empty(e@),
            XmlEvent::Eof => XmlEventView::Eof,
            XmlEvent::Error(m) => XmlEventView::Error(m@),
            XmlEvent::Other => XmlEventView::Other,
        }
    }
}

/// The event ends a document: its end, or an error.
pub open spec fn is_final(e: XmlEventView) -> bool {
    e is Eof || e is Error
}

/// The events end with a final one, and only the last is final.
pub open spec fn ends_once(events: Seq<XmlEventView>) -> bool {
    &&& events.len() > 0
    &&& is_final(events.last())
    &&& forall|i: int| 0 <= i < events.len() - 1 ==> !is_final(#[trigger] events[i])
}

/// The events that `quick_xml`'s reader, trimming text, reports for a
/// document, up to and including the first end of document or error.
pub uninterp spec fn xml_events(content: Seq<char>) -> Seq<XmlEventView>;

/// The events a reader will report from where it stands, up to and including
/// the first end of document or error.
pub uninterp spec fn pending_events(reader: quick_xml::Reader<&[u8]>) -> Seq<XmlEventView>;

/// `quick_xml::Reader::from_str` with text trimming on. The contract claims
/// that the reader will report the document's events, listed up to and
/// including the first end of document or error, and that a written OPML
/// document reads as the events of its tags: the declaration, the title's
/// text and the end tags as other events, each start or empty-element tag
/// with its attributes' values as they stand in the text (escaped), then the
/// end of the document. Nothing is claimed of what the reader reports after
/// the end or an error.
#[verifier::external_body]
fn open_reader(content: &str) -> (r: quick_xml::Reader<&[u8]>)
    ensures
        pending_events(r) == xml_events(content@),
        ends_once(pending_events(r)),
        forall|fs: Seq<FeedView>| #[trigger] opml_document(fs) == content@ ==> pending_events(r)
            == document_events(fs),
{
    let mut r = quick_xml::Reader::from_str(content);
    r.config_mut().trim_text(true);
    r
}

/// `quick_xml::Reader::read_event`, the event copied into plain values. The
/// contract claims that it reports the next pending event and, where that
/// event is neither the end of the document nor an error, that the rest are
/// still pending. It claims nothing of the reader after a final event.
#[verifier::external_body]
fn next_event(reader: &mut quick_xml::Reader<&[u8]>) -> (ev: XmlEvent)
    ensures
        pending_events(*old(reader)).len() > 0 ==> ev@ == pending_events(*old(reader))[0],
        pending_events(*old(reader)).len() > 0 && !is_final(pending_events(*old(reader))[0])
            ==> pending_events(*final(reader)) == pending_events(*old(reader)).drop_first(),
{
    let text = |b: &[u8]| String::from_utf8_lossy(b).into_owned();
    let tag = |e: &BytesStart| XmlElement {
        name: text(e.name().as_ref()),
        attributes: e.attributes().map(|a| a.ok().map(|a| (text(a.key.as_ref()), text(&a.value)))).collect(),
    };
    match reader.read_event() {
        Ok(Event::Start(e)) => XmlEvent::Start(tag(&e)),
        Ok(Event::Empty(e)) => XmlEvent::Empty(tag(&e)),
        Ok(Event::Eof) => XmlEvent::Eof,
        Ok(_) => XmlEvent::Other,
        Err(e) => XmlEvent::Error(e.to_string()),
    }
}

/// Why an OPML document could not be read or written.
#[derive(Debug, Clone, PartialEq, Eq)]
pub enum OpmlError {
    /// The XML reader stopped on an error, with its message.
    Parse(String),
    /// Writing the document failed.
    Write,
}

/// The address and title that an outline's attributes give: the last
/// `xmlUrl`, and the first `title` or `text`.
pub open spec fn outline_fields(attrs: Seq<Option<(Seq<char>, Seq<char>)>>) -> (
    Option<Seq<char>>,
    Option<Seq<char>>,
)
    decreases attrs.len(),
{
    if attrs.len() == 0 {
        (None, None)
    } else {
        let (u, t) = outline_fields(attrs.drop_last());
        match attrs.last() {
            Some((k, v)) => (
                if k == "xmlUrl"@ {
                    Some(v)
                } else {
                    u
                },
                if (k == "title"@ || k == "text"@) && t is None {
                    Some(v)
                } else {
                    t
                },
            ),
            None => (u, t),
        }
    }
}

/// The feed that a tag stands for: an `outline` with an `xmlUrl`.
pub open spec fn outline_feed(e: XmlElementView) -> Option<FeedView> {
    if e.name == "outline"@ {
        match outline_fields(e.attributes) {
            (Some(url), title) => Some(FeedView { url, title }),
            _ => None,
        }
    } else {
        None
    }
}

/// The feeds that a list of events gives, read up to the first end or
/// error: the outlines in order, or the message of the error.
pub open spec fn opml_from_events(events: Seq<XmlEventView>) -> Result<Seq<FeedView>, Seq<char>>
    decreases events.len(),
{
    if events.len() == 0 {
        Ok(Seq::empty())
    } else {
        match events[0] {
            XmlEventView::Eof => Ok(Seq::empty()),
            XmlEventView::Error(m) => Err(m),
            XmlEventView::Start(e) | XmlEventView::Empty(e) => match opml_from_events(
                events.drop_first(),
            ) {
                Ok(rest) => Ok(
                    match outline_feed(e) {
                        Some(f) => seq![f] + rest,
                        None => rest,
                    },
                ),
                Err(m) => Err(m),
            },
            XmlEventView::Other => opml_from_events(events.drop_first()),
        }
    }
}

fn outline_of(e: &XmlElement) -> (r: Option<Feed>)
    ensures
        match outline_feed(e@) {
            Some(f) => r matches Some(g) && g@ == f,
            None => r is None,
        },
{
    if !chars_equal(&chars_of(e.name.as_str()), &chars_of("outline")) {
        return None;
    }
    let url_key = chars_of("xmlUrl");
    let title_key = chars_of("title");
    let text_key = chars_of("text");
    let ghost attrs = e@.attributes;
    let mut url: Option<String> = None;
    let mut title: Option<String> = None;
    let mut i: usize = 0;
    assert(attrs.take(0) =~= Seq::<Option<(Seq<char>, Seq<char>)>>::empty());
    while i < e.attributes.len()
        invariant
            i <= e.attributes.len(),
            attrs == e@.attributes,
            url_key@ == "xmlUrl"@,
            title_key@ == "title"@,
            text_key@ == "text"@,
            outline_fields(attrs.take(i as int)) == (opt_view(url), opt_view(title)),
        decreases e.attributes.len() - i,
    {
        assert(attrs[i as int] == attribute_view(e.attributes@[i as int]));
        assert(attrs.take(i + 1).drop_last() == attrs.take(i as int));
        assert(attrs.take(i + 1).last() == attrs[i as int]);
        if let Some((k, v)) = &e.attributes[i] {
            let kc = chars_of(k.as_str());
            if chars_equal(&kc, &url_key) {
                url = Some(v.clone());
            }
            if (chars_equal(&kc, &title_key) || chars_equal(&kc, &text_key)) && title.is_none() {
                title = Some(v.clone());
            }
        }
        i += 1;
    }
    assert(attrs.take(i as int) == attrs);
    match url {
        Some(u) => Some(Feed { url: u, title }),
        None => None,
    }
}

/// The feeds that a list of events gives, read up to the first end or
/// error.
pub fn feeds_from_events(events: &[XmlEvent]) -> (r: Result<Vec<Feed>, OpmlError>)
    ensures
        match opml_from_events(events@.map_values(|e: XmlEvent| e@)) {
            Ok(f) => r matches Ok(v) && feed_views(v@) == f,
            Err(m) => r matches Err(OpmlError::Parse(n)) && n@ == m,
        },
{
    let ghost evs = events@.map_values(|e: XmlEvent| e@);
    let mut feeds: Vec<Feed> = Vec::new();
    let mut i: usize = 0;
    let mut stop = false;
    assert(feed_views(feeds@) =~= Seq::<FeedView>::empty());
    assert(evs.skip(0) == evs);
    while i < events.len() && !stop
        invariant
            i <= events.len(),
            evs == events@.map_values(|e: XmlEvent| e@),
            !stop ==> match opml_from_events(evs) {
                Ok(all) => match opml_from_events(evs.skip(i as int)) {
                    Ok(rest) => all == feed_views(feeds@) + rest,
                    Err(_) => false,
                },
                Err(m) => opml_from_events(evs.skip(i as int)) == Err::<Seq<FeedView>, Seq<char>>(m),
            },
            stop ==> opml_from_events(evs) == Ok::<Seq<FeedView>, Seq<char>>(feed_views(feeds@)),
        decreases events.len() - i,
    {
        let ghost rest = evs.skip(i as int);
        assert(rest[0] == events@[i as int]@);
        assert(rest.drop_first() == evs.skip(i + 1));
        match &events[i] {
            XmlEvent::Eof => {
                assert(opml_from_events(rest) == Ok::<Seq<FeedView>, Seq<char>>(Seq::empty()));
                assert(feed_views(feeds@) + Seq::<FeedView>::empty() == feed_views(feeds@));
                stop = true;
            },
            XmlEvent::Error(m) => {
                return Err(OpmlError::Parse(m.clone()));
            },
            XmlEvent::Start(e) | XmlEvent::Empty(e) => {
                let ghost before = feeds@;
                if let Some(f) = outline_of(e) {
                    feeds.push(f);
                    assert(feed_views(feeds@) =~= feed_views(before).push(f@));
                    proof {
                        if let Ok(r2) = opml_from_events(rest.drop_first()) {
                            assert(feed_views(before) + (seq![f@] + r2) =~= feed_views(feeds@) + r2);
                        }
                    }
                }
            },
            XmlEvent::Other => {},
        }
        i += 1;
    }
    if !stop {
        assert(evs.skip(i as int) =~= Seq::<XmlEventView>::empty());
        assert(feed_views(feeds@) + Seq::<FeedView>::empty() == feed_views(feeds@));
    }
    Ok(feeds)
}

/// The feeds an OPML document lists: each `outline` element with an
/// `xmlUrl`, in document order; the reader's message when the document is
/// not well-formed XML.
pub open spec fn opml_feeds(content: Seq<char>) -> Result<Seq<FeedView>, Seq<char>> {
    opml_from_events(xml_events(content))
}

/// Reads the feeds of an OPML document. A document written by
/// `generate_opml` reads back as the feeds it lists, each address and title
/// with its markup characters escaped; feeds without such characters read
/// back unchanged.
pub fn parse_opml(content: &str) -> (r: Result<Vec<Feed>, OpmlError>)
    ensures
        match opml_feeds(content@) {
            Ok(f) => r matches Ok(v) && feed_views(v@) == f,
            Err(m) => r matches Err(OpmlError::Parse(n)) && n@ == m,
        },
        forall|fs: Seq<FeedView>| #[trigger] opml_document(fs) == content@ ==> (r matches Ok(v)
            && feed_views(v@) == fs.map_values(|f: FeedView| escaped_feed(f)) && (all_plain(fs)
            ==> feed_views(v@) == fs)),
{
    let mut reader = open_reader(content);
    let ghost all = xml_events(content@);
    assert forall|fs: Seq<FeedView>| #[trigger] opml_document(fs) == content@ implies opml_feeds(
        content@,
    ) == Ok::<Seq<FeedView>, Seq<char>>(fs.map_values(|f: FeedView| escaped_feed(f))) && (all_plain(
        fs,
    ) ==> opml_feeds(content@) == Ok::<Seq<FeedView>, Seq<char>>(fs)) by {
        law_export_reads_back(fs);
    }
    let mut events: Vec<XmlEvent> = Vec::new();
    let mut done = false;
    assert(events@.map_values(|e: XmlEvent| e@) =~= all.take(0));
    while !done
        invariant
            ends_once(all),
            all == xml_events(content@),
            !done ==> events@.len() < all.len() && pending_events(reader) == all.skip(
                events@.len() as int,
            ),
            events@.map_values(|e: XmlEvent| e@) == all.take(events@.len() as int),
            done ==> events@.len() == all.len(),
        decreases all.len() - events@.len(),
    {
        let ghost k = events@.len() as int;
        assert(pending_events(reader)[0] == all[k]);
        let ev = next_event(&mut reader);
        let last = match &ev {
            XmlEvent::Eof => true,
            XmlEvent::Error(_) => true,
            _ => false,
        };
        let ghost before = events@;
        events.push(ev);
        assert(events@.map_values(|e: XmlEvent| e@) =~= before.map_values(|e: XmlEvent| e@).push(
            all[k],
        ));
        assert(all.take(k + 1) == all.take(k).push(all[k]));
        if last {
            assert(k == all.len() - 1);
            done = true;
        } else {
            assert(k < all.len() - 1);
            assert(!is_final(all[k]));
            assert(all.skip(k).drop_first() == all.skip(k + 1));
        }
    }
    assert(all.take(all.len() as int) == all);
    feeds_from_events(&events)
}


/// How the writer escapes text and attribute values (`quick_xml::escape::escape`).
pub open spec fn escape_char(c: char) -> Seq<char> {
    if c == '<' {
        "&lt;"@
    } else if c == '>' {
        "&gt;"@
    } else if c == '&' {
        "&amp;"@
    } else if c == '\'' {
        "&apos;"@
    } else if c == '"' {
        "&quot;"@
    } else {
        seq![c]
    }
}

/// `s` with each of `< > & ' "` written as its predefined entity.
pub open spec fn xml_escaped(s: Seq<char>) -> Seq<char>
    decreases s.len(),
{
    if s.len() == 0 {
        Seq::empty()
    } else {
        xml_escaped(s.drop_last()) + escape_char(s.last())
    }
}

/// The attributes of a tag as the writer writes them: ` key="value"` each,
/// the value escaped.
pub open spec fn attributes_text(attrs: Seq<(Seq<char>, Seq<char>)>) -> Seq<char>
    decreases attrs.len(),
{
    if attrs.len() == 0 {
        Seq::empty()
    } else {
        attributes_text(attrs.drop_last()) + " "@ + attrs.last().0 + "=\""@ + xml_escaped(
            attrs.last().1,
        ) + "\""@
    }
}

/// The views of a list of attributes.
pub open spec fn pair_views(attrs: Seq<(String, String)>) -> Seq<(Seq<char>, Seq<char>)> {
    attrs.map_values(|a: (String, String)| (a.0@, a.1@))
}

/// The bytes a writer has written so far.
pub uninterp spec fn written_bytes(w: quick_xml::Writer<std::io::Cursor<Vec<u8>>>) -> Seq<u8>;

/// `quick_xml::Writer::new` over an empty in-memory buffer, without indentation.
#[verifier::external_body]
fn new_writer() -> (w: quick_xml::Writer<std::io::Cursor<Vec<u8>>>)
    ensures
        written_bytes(w) == Seq::<u8>::empty(),
{
    quick_xml::Writer::new(std::io::Cursor::new(Vec::new()))
}

/// An event for the writer to write.
pub enum XmlOut<'a> {
    /// An XML declaration with a version and an encoding.
    Decl(&'a str, &'a str),
    /// A start tag with its attributes, in order.
    Start(&'a str, &'a [(String, String)]),
    /// An empty-element tag with its attributes, in order.
    Empty(&'a str, &'a [(String, String)]),
    /// An end tag.
    End(&'a str),
    /// Text.
    Text(&'a str),
}

/// The text the writer writes for an event: the tags as written, attribute
/// values and text escaped.
pub open spec fn out_text(ev: XmlOut) -> Seq<char> {
    match ev {
        XmlOut::Decl(v, e) => "<?xml version=\""@ + v@ + "\" encoding=\""@ + e@ + "\"?>"@,
        XmlOut::Start(n, a) => "<"@ + n@ + attributes_text(pair_views(a@)) + ">"@,
        XmlOut::Empty(n, a) => "<"@ + n@ + attributes_text(pair_views(a@)) + "/>"@,
        XmlOut::End(n) => "</"@ + n@ + ">"@,
        XmlOut::Text(t) => xml_escaped(t@),
    }
}

/// `quick_xml::Writer::write_event`, the event built from its parts
/// (`BytesDecl::new(version, Some(encoding), None)`, `BytesStart::new` with
/// the attributes pushed in order, `BytesEnd::new`, `BytesText::new`). The
/// contract claims that the write succeeds (its only errors are those of the
/// underlying `write_all`, and writing to an in-memory `Cursor<Vec<u8>>` does
/// not fail) and that the event's text, as `out_text` gives it, was appended
/// to what the writer holds.
#[verifier::external_body]
fn write_event(w: &mut quick_xml::Writer<std::io::Cursor<Vec<u8>>>, ev: XmlOut) -> (r: Result<
    (),
    std::io::Error,
>)
    ensures
        r is Ok,
        written_bytes(*final(w)) == written_bytes(*old(w)) + encode_utf8(out_text(ev)),
{
    let tag = |n: &str, a: &[(String, String)]| BytesStart::new(n.to_string())
        .with_attributes(a.iter().map(|(k, v)| (k.as_str(), v.as_str())));
    w.write_event(match ev {
        XmlOut::Decl(v, e) => Event::Decl(BytesDecl::new(v, Some(e), None)),
        XmlOut::Start(n, a) => Event::Start(tag(n, a)),
        XmlOut::Empty(n, a) => Event::Empty(tag(n, a)),
        XmlOut::End(n) => Event::End(BytesEnd::new(n)),
        XmlOut::Text(t) => Event::Text(BytesText::new(t)),
    })
}

/// The bytes a writer wrote (`Writer::into_inner`, then `Cursor::into_inner`).
#[verifier::external_body]
fn into_written(w: quick_xml::Writer<std::io::Cursor<Vec<u8>>>) -> (r: Vec<u8>)
    ensures
        r@ == written_bytes(w),
{
    w.into_inner().into_inner()
}

/// The attributes of the outline written for a feed.
pub open spec fn outline_attributes(f: FeedView) -> Seq<(Seq<char>, Seq<char>)> {
    seq![("type"@, "rss"@), ("xmlUrl"@, f.url)] + match f.title {
        Some(t) => seq![("title"@, t), ("text"@, t)],
        None => Seq::empty(),
    }
}

/// The outlines written for a list of feeds, one empty `outline` tag each.
pub open spec fn outlines_text(feeds: Seq<FeedView>) -> Seq<char>
    decreases feeds.len(),
{
    if feeds.len() == 0 {
        Seq::empty()
    } else {
        outlines_text(feeds.drop_last()) + "<outline"@ + attributes_text(
            outline_attributes(feeds.last()),
        ) + "/>"@
    }
}

/// The OPML document listing `feeds`, as the writer lays it out: an XML
/// declaration, a head titled `RSS Subscriptions`, and one outline per feed.
pub open spec fn opml_document(feeds: Seq<FeedView>) -> Seq<char> {
    "<?xml version=\""@ + "1.0"@ + "\" encoding=\""@ + "UTF-8"@ + "\"?>"@ + ("<"@ + "opml"@
        + attributes_text(seq![("version"@, "2.0"@)]) + ">"@) + ("<"@ + "head"@
        + attributes_text(Seq::empty()) + ">"@) + ("<"@ + "title"@ + attributes_text(
        Seq::empty(),
    ) + ">"@) + xml_escaped("RSS Subscriptions"@) + ("</"@ + "title"@ + ">"@) + ("</"@ + "head"@
        + ">"@) + ("<"@ + "body"@ + attributes_text(Seq::empty()) + ">"@) + outlines_text(feeds)
        + ("</"@ + "body"@ + ">"@) + ("</"@ + "opml"@ + ">"@)
}

/// The encoding of a concatenation is the concatenation of the encodings.
pub proof fn lemma_encode_utf8_concat(a: Seq<char>, b: Seq<char>)
    ensures
        encode_utf8(a + b) == encode_utf8(a) + encode_utf8(b),
    decreases a.len(),
{
    if a.len() > 0 {
        lemma_encode_utf8_concat(a.drop_first(), b);
        assert((a + b).drop_first() == a.drop_first() + b);
        assert((a + b)[0] == a[0]);
    } else {
        assert(a + b == b);
    }
}

fn pair(k: &str, v: &str) -> (r: (String, String))
    ensures
        r.0@ == k@,
        r.1@ == v@,
{
    (string_of(&chars_of(k)), string_of(&chars_of(v)))
}

/// Writes the OPML document that lists `feeds`.
pub fn generate_opml(feeds: &[Feed]) -> (r: Result<String, OpmlError>)
    ensures
        r matches Ok(s) && s@ == opml_document(feed_views(feeds@)),
{
    let mut w = new_writer();
    let ghost mut text: Seq<char> = Seq::empty();
    let none: Vec<(String, String)> = Vec::new();
    assert(pair_views(none@) =~= Seq::<(Seq<char>, Seq<char>)>::empty());
    if write_event(&mut w, XmlOut::Decl("1.0", "UTF-8")).is_err() {
        return Err(OpmlError::Write);
    }
    proof {
        lemma_encode_utf8_concat(text, "<?xml version=\""@ + "1.0"@ + "\" encoding=\""@ + "UTF-8"@ + "\"?>"@);
        text = text + ("<?xml version=\""@ + "1.0"@ + "\" encoding=\""@ + "UTF-8"@ + "\"?>"@);
    }
    let mut version: Vec<(String, String)> = Vec::new();
    version.push(pair("version", "2.0"));
    assert(pair_views(version@) =~= seq![("version"@, "2.0"@)]);
    if write_event(&mut w, XmlOut::Start("opml", &version)).is_err() {
        return Err(OpmlError::Write);
    }
    proof {
        let piece = "<"@ + "opml"@ + attributes_text(seq![("version"@, "2.0"@)]) + ">"@;
        lemma_encode_utf8_concat(text, piece);
        text = text + piece;
    }
    if write_event(&mut w, XmlOut::Start("head", &none)).is_err() {
        return Err(OpmlError::Write);
    }
    proof {
        let piece = "<"@ + "head"@ + attributes_text(Seq::empty()) + ">"@;
        lemma_encode_utf8_concat(text, piece);
        text = text + piece;
    }
    if write_event(&mut w, XmlOut::Start("title", &none)).is_err() {
        return Err(OpmlError::Write);
    }
    proof {
        let piece = "<"@ + "title"@ + attributes_text(Seq::empty()) + ">"@;
        lemma_encode_utf8_concat(text, piece);
        text = text + piece;
    }
    if write_event(&mut w, XmlOut::Text("RSS Subscriptions")).is_err() {
        return Err(OpmlError::Write);
    }
    proof {
        let piece = xml_escaped("RSS Subscriptions"@);
        lemma_encode_utf8_concat(text, piece);
        text = text + piece;
    }
    if write_event(&mut w, XmlOut::End("title")).is_err() {
        return Err(OpmlError::Write);
    }
    proof {
        let piece = "</"@ + "title"@ + ">"@;
        lemma_encode_utf8_concat(text, piece);
        text = text + piece;
    }
    if write_event(&mut w, XmlOut::End("head")).is_err() {
        return Err(OpmlError::Write);
    }
    proof {
        let piece = "</"@ + "head"@ + ">"@;
        lemma_encode_utf8_concat(text, piece);
        text = text + piece;
    }
    if write_event(&mut w, XmlOut::Start("body", &none)).is_err() {
        return Err(OpmlError::Write);
    }
    proof {
        let piece = "<"@ + "body"@ + attributes_text(Seq::empty()) + ">"@;
        lemma_encode_utf8_concat(text, piece);
        text = text + piece;
    }
    let ghost head = text;
    let ghost fv = feed_views(feeds@);
    let mut i: usize = 0;
    assert(fv.take(0) =~= Seq::<FeedView>::empty());
    assert(head + outlines_text(fv.take(0)) =~= head);
    while i < feeds.len()
        invariant
            i <= feeds.len(),
            fv == feed_views(feeds@),
            written_bytes(w) == encode_utf8(text),
            text == head + outlines_text(fv.take(i as int)),
        decreases feeds.len() - i,
    {
        let f = &feeds[i];
        assert(fv[i as int] == f@);
        let mut attrs: Vec<(String, String)> = Vec::new();
        attrs.push(pair("type", "rss"));
        attrs.push(pair("xmlUrl", f.url.as_str()));
        if let Some(t) = &f.title {
            attrs.push(pair("title", t.as_str()));
            attrs.push(pair("text", t.as_str()));
        }
        assert(pair_views(attrs@) =~= outline_attributes(f@));
        if write_event(&mut w, XmlOut::Empty("outline", &attrs)).is_err() {
            return Err(OpmlError::Write);
        }
        proof {
            let piece = "<"@ + "outline"@ + attributes_text(outline_attributes(f@)) + "/>"@;
            lemma_encode_utf8_concat(text, piece);
            assert(fv.take(i + 1).drop_last() == fv.take(i as int));
            assert(fv.take(i + 1).last() == f@);
            assert(outlines_text(fv.take(i + 1)) == outlines_text(fv.take(i as int)) + ("<outline"@
                + attributes_text(outline_attributes(f@)) + "/>"@));
            assert("<"@ + "outline"@ == "<outline"@) by {
                reveal_strlit("<");
                reveal_strlit("outline");
                reveal_strlit("<outline");
            }
            text = text + piece;
            assert(text =~= head + outlines_text(fv.take(i + 1)));
        }
        i += 1;
    }
    assert(fv.take(i as int) == fv);
    if write_event(&mut w, XmlOut::End("body")).is_err() {
        return Err(OpmlError::Write);
    }
    proof {
        let piece = "</"@ + "body"@ + ">"@;
        lemma_encode_utf8_concat(text, piece);
        text = text + piece;
    }
    if write_event(&mut w, XmlOut::End("opml")).is_err() {
        return Err(OpmlError::Write);
    }
    proof {
        let piece = "</"@ + "opml"@ + ">"@;
        lemma_encode_utf8_concat(text, piece);
        text = text + piece;
        assert(text =~= opml_document(fv));
    }
    let bytes = into_written(w);
    proof {
        encode_utf8_valid_utf8(text);
        encode_utf8_decode_utf8(text);
    }
    match utf8_to_string(bytes) {
        Some(s) => Ok(s),
        None => Err(OpmlError::Write),
    }
}

/// A tag as a reader reports it when every attribute parses.
pub open spec fn element_of(name: Seq<char>, attrs: Seq<(Seq<char>, Seq<char>)>) -> XmlElementView {
    XmlElementView {
        name,
        attributes: attrs.map_values(|a: (Seq<char>, Seq<char>)| Some::<(Seq<char>, Seq<char>)>(a)),
    }
}

/// A feed as it reads back from the text written for it: address and
/// title with their markup characters escaped.
pub open spec fn escaped_feed(f: FeedView) -> FeedView {
    FeedView {
        url: xml_escaped(f.url),
        title: match f.title {
            Some(t) => Some(xml_escaped(t)),
            None => None,
        },
    }
}

/// The events of the tags that `opml_document` writes, as a reader that
/// reports attribute values as they stand in the document sees them: the
/// declaration, the text and the end tags as other events, each tag with
/// its attributes' written (escaped) text, then the end of the document.
pub open spec fn document_events(feeds: Seq<FeedView>) -> Seq<XmlEventView> {
    seq![
        XmlEventView::Other,
        XmlEventView::Start(element_of("opml"@, seq![("version"@, "2.0"@)])),
        XmlEventView::Start(element_of("head"@, Seq::empty())),
        XmlEventView::Start(element_of("title"@, Seq::empty())),
        XmlEventView::Other,
        XmlEventView::Other,
        XmlEventView::Other,
        XmlEventView::Start(element_of("body"@, Seq::empty())),
    ] + outline_events(feeds) + seq![XmlEventView::Other, XmlEventView::Other, XmlEventView::Eof]
}

/// The events of the outline tags written for `feeds`.
pub open spec fn outline_events(feeds: Seq<FeedView>) -> Seq<XmlEventView> {
    feeds.map_values(
        |f: FeedView| XmlEventView::Empty(element_of("outline"@, outline_attributes(escaped_feed(f)))),
    )
}

/// No feed's address or title holds a character that the writer escapes.
pub open spec fn all_plain(feeds: Seq<FeedView>) -> bool {
    forall|i: int|
        0 <= i < feeds.len() ==> has_no_markup(#[trigger] feeds[i].url) && match feeds[i].title {
            Some(t) => has_no_markup(t),
            None => true,
        }
}

/// `s` holds none of the characters that the writer escapes.
pub open spec fn has_no_markup(s: Seq<char>) -> bool {
    forall|i: int| 0 <= i < s.len() ==> escape_char(#[trigger] s[i]) == seq![s[i]]
}

proof fn lemma_escape_plain(s: Seq<char>)
    requires
        has_no_markup(s),
    ensures
        xml_escaped(s) == s,
    decreases s.len(),
{
    if s.len() > 0 {
        let d = s.drop_last();
        assert(has_no_markup(d)) by {
            assert forall|i: int| 0 <= i < d.len() implies escape_char(#[trigger] d[i]) == seq![d[i]] by {
                assert(d[i] == s[i]);
            }
        }
        lemma_escape_plain(d);
        assert(escape_char(s[s.len() - 1]) == seq![s.last()]);
        assert(d + seq![s.last()] =~= s);
    }
}

proof fn lemma_outline_read_back(f: FeedView)
    ensures
        outline_feed(element_of("outline"@, outline_attributes(f))) == Some(f),
{
    reveal_strlit("outline");
    reveal_strlit("type");
    reveal_strlit("xmlUrl");
    reveal_strlit("title");
    reveal_strlit("text");
    reveal_strlit("rss");
    let attrs = outline_attributes(f).map_values(
        |a: (Seq<char>, Seq<char>)| Some::<(Seq<char>, Seq<char>)>(a),
    );
    assert("type"@ != "xmlUrl"@ && "type"@ != "title"@ && "type"@ != "text"@) by {
        assert("type"@[0] != "xmlUrl"@[0]);
        assert("type"@[1] != "title"@[1]);
        assert("type"@[1] != "text"@[1]);
    }
    assert("xmlUrl"@ != "title"@ && "xmlUrl"@ != "text"@) by {
        assert("xmlUrl"@[0] != "title"@[0]);
        assert("xmlUrl"@[0] != "text"@[0]);
    }
    assert("title"@ != "xmlUrl"@ && "text"@ != "xmlUrl"@);
    let a2 = attrs.take(2);
    assert(a2.drop_last() =~= attrs.take(1));
    assert(attrs.take(1).drop_last() =~= attrs.take(0));
    assert(outline_fields(attrs.take(0)) == (None::<Seq<char>>, None::<Seq<char>>));
    assert(outline_fields(attrs.take(1)) == (None::<Seq<char>>, None::<Seq<char>>));
    assert(outline_fields(a2) == (Some(f.url), None::<Seq<char>>));
    match f.title {
        Some(t) => {
            assert(attrs.take(3).drop_last() =~= a2);
            assert(attrs.take(4) =~= attrs);
            assert(attrs.drop_last() =~= attrs.take(3));
            assert(outline_fields(attrs.take(3)) == (Some(f.url), Some(t)));
        },
        None => {
            assert(a2 =~= attrs);
        },
    }
}

proof fn lemma_outlines_read_back(feeds: Seq<FeedView>, tail: Seq<XmlEventView>)
    ensures
        opml_from_events(outline_events(feeds) + tail) == match opml_from_events(tail) {
            Ok(r) => Ok(feeds.map_values(|f: FeedView| escaped_feed(f)) + r),
            Err(m) => Err::<Seq<FeedView>, Seq<char>>(m),
        },
    decreases feeds.len(),
{
    let evs = outline_events(feeds);
    let back = feeds.map_values(|f: FeedView| escaped_feed(f));
    if feeds.len() == 0 {
        assert(evs + tail =~= tail);
        if let Ok(r) = opml_from_events(tail) {
            assert(back + r =~= r);
        }
    } else {
        let rest = feeds.drop_first();
        lemma_outlines_read_back(rest, tail);
        lemma_outline_read_back(escaped_feed(feeds[0]));
        let all = evs + tail;
        assert(all[0] == XmlEventView::Empty(
            element_of("outline"@, outline_attributes(escaped_feed(feeds[0]))),
        ));
        assert(all.drop_first() =~= outline_events(rest) + tail);
        if let Ok(r) = opml_from_events(tail) {
            assert(seq![escaped_feed(feeds[0])] + (rest.map_values(|f: FeedView| escaped_feed(f)) + r)
                =~= back + r);
        }
    }
}

/// What importing gives back of an export, as far as this library decides
/// it: when the XML reader reports the tags of a written document with
/// their attributes' text as written, each feed reads back with its
/// markup characters escaped, in order; feeds whose address and title hold
/// no markup characters read back as they were.
pub proof fn law_export_reads_back(feeds: Seq<FeedView>)
    ensures
        opml_from_events(document_events(feeds)) == Ok::<Seq<FeedView>, Seq<char>>(
            feeds.map_values(|f: FeedView| escaped_feed(f)),
        ),
        all_plain(feeds) ==> opml_from_events(document_events(feeds)) == Ok::<Seq<FeedView>, Seq<char>>(feeds),
{
    reveal_strlit("opml");
    reveal_strlit("head");
    reveal_strlit("title");
    reveal_strlit("body");
    reveal_strlit("outline");
    let head = seq![
        XmlEventView::Other,
        XmlEventView::Start(element_of("opml"@, seq![("version"@, "2.0"@)])),
        XmlEventView::Start(element_of("head"@, Seq::empty())),
        XmlEventView::Start(element_of("title"@, Seq::empty())),
        XmlEventView::Other,
        XmlEventView::Other,
        XmlEventView::Other,
        XmlEventView::Start(element_of("body"@, Seq::empty())),
    ];
    let mid = outline_events(feeds);
    let tail = seq![XmlEventView::Other, XmlEventView::Other, XmlEventView::Eof];
    assert(tail.drop_first().drop_first().drop_first() =~= Seq::<XmlEventView>::empty());
    assert(opml_from_events(tail.drop_first().drop_first()) == Ok::<Seq<FeedView>, Seq<char>>(Seq::empty()));
    assert(opml_from_events(tail.drop_first()) == Ok::<Seq<FeedView>, Seq<char>>(Seq::empty()));
    assert(opml_from_events(tail) == Ok::<Seq<FeedView>, Seq<char>>(Seq::empty()));
    lemma_outlines_read_back(feeds, tail);
    let back = feeds.map_values(|f: FeedView| escaped_feed(f));
    assert(back + Seq::<FeedView>::empty() =~= back);
    let body = mid + tail;
    let all = document_events(feeds);
    assert(all =~= head + body);
    assert("opml"@ != "outline"@) by { assert("opml"@[1] != "outline"@[1]); }
    assert("head"@ != "outline"@) by { assert("head"@[0] != "outline"@[0]); }
    assert("title"@ != "outline"@) by { assert("title"@[0] != "outline"@[0]); }
    assert("body"@ != "outline"@) by { assert("body"@[0] != "outline"@[0]); }
    assert(all.skip(8) =~= body);
    assert(all.skip(7).drop_first() =~= all.skip(8));
    assert(all.skip(6).drop_first() =~= all.skip(7));
    assert(all.skip(5).drop_first() =~= all.skip(6));
    assert(all.skip(4).drop_first() =~= all.skip(5));
    assert(all.skip(3).drop_first() =~= all.skip(4));
    assert(all.skip(2).drop_first() =~= all.skip(3));
    assert(all.skip(1).drop_first() =~= all.skip(2));
    assert(all.drop_first() =~= all.skip(1));
    assert(opml_from_events(all.skip(7)) == opml_from_events(all.skip(8)));
    assert(opml_from_events(all.skip(6)) == opml_from_events(all.skip(7)));
    assert(opml_from_events(all.skip(5)) == opml_from_events(all.skip(6)));
    assert(opml_from_events(all.skip(4)) == opml_from_events(all.skip(5)));
    assert(opml_from_events(all.skip(3)) == opml_from_events(all.skip(4)));
    assert(opml_from_events(all.skip(2)) == opml_from_events(all.skip(3)));
    assert(opml_from_events(all.skip(1)) == opml_from_events(all.skip(2)));
    assert(opml_from_events(all) == opml_from_events(all.skip(1)));
    if all_plain(feeds) {
        assert forall|i: int| 0 <= i < feeds.len() implies #[trigger] back[i] == feeds[i] by {
            let f = feeds[i];
            assert(has_no_markup(f.url));
            lemma_escape_plain(f.url);
            let t2 = match f.title {
                Some(t) => {
                    assert(has_no_markup(t));
                    lemma_escape_plain(t);
                    Some(xml_escaped(t))
                },
                None => None,
            };
            assert(t2 == f.title);
            assert(back[i] == escaped_feed(f));
            assert(escaped_feed(f) == FeedView { url: f.url, title: f.title });
        }
        assert(back =~= feeds);
        assert(opml_from_events(document_events(feeds)) == Ok::<Seq<FeedView>, Seq<char>>(feeds));
    }
}


/// An outline reads the same whether it is written as an empty-element tag
/// or as a start tag with a separate end tag: whatever follows it, the two
/// forms give the same feeds; read alone, an outline with an address gives
/// exactly that one feed in either form.
pub proof fn law_outline_tag_forms(e: XmlElementView, rest: Seq<XmlEventView>)
    ensures
        opml_from_events(seq![XmlEventView::Start(e)] + rest) == opml_from_events(
            seq![XmlEventView::Empty(e)] + rest,
        ),
        outline_feed(e) matches Some(f) ==> opml_from_events(seq![XmlEventView::Start(e), XmlEventView::Eof])
            == Ok::<Seq<FeedView>, Seq<char>>(seq![f]) && opml_from_events(
            seq![XmlEventView::Empty(e), XmlEventView::Eof],
        ) == Ok::<Seq<FeedView>, Seq<char>>(seq![f]),
{
    assert((seq![XmlEventView::Start(e)] + rest).drop_first() =~= rest);
    assert((seq![XmlEventView::Empty(e)] + rest).drop_first() =~= rest);
    let one = seq![XmlEventView::Eof];
    assert(seq![XmlEventView::Start(e), XmlEventView::Eof].drop_first() =~= one);
    assert(seq![XmlEventView::Empty(e), XmlEventView::Eof].drop_first() =~= one);
    assert(opml_from_events(one) == Ok::<Seq<FeedView>, Seq<char>>(Seq::empty()));
    if let Some(f) = outline_feed(e) {
        assert(seq![f] + Seq::<FeedView>::empty() =~= seq![f]);
    }
}

proof fn lemma_address_found(attrs: Seq<Option<(Seq<char>, Seq<char>)>>, i: int)
    requires
        0 <= i < attrs.len(),
        attrs[i] matches Some((k, _)) && k == "xmlUrl"@,
    ensures
        outline_fields(attrs).0 is Some,
    decreases attrs.len(),
{
    if i < attrs.len() - 1 {
        lemma_address_found(attrs.drop_last(), i);
    }
}

/// Every `outline` element with an `xmlUrl` attribute is a feed, reported
/// as a start tag or as an empty-element tag alike: read alone, it gives
/// one feed, whose address is the value of one of its `xmlUrl` attributes.
pub proof fn law_outline_with_address_is_feed(e: XmlElementView, i: int)
    requires
        e.name == "outline"@,
        0 <= i < e.attributes.len(),
        e.attributes[i] matches Some((k, _)) && k == "xmlUrl"@,
    ensures
        opml_from_events(seq![XmlEventView::Start(e), XmlEventView::Eof]) matches Ok(fs) && fs.len() == 1
            && exists|j: int| 0 <= j < e.attributes.len() && #[trigger] e.attributes[j] == Some(
            ("xmlUrl"@, fs[0].url),
        ),
        opml_from_events(seq![XmlEventView::Empty(e), XmlEventView::Eof]) matches Ok(fs) && fs.len() == 1
            && exists|j: int| 0 <= j < e.attributes.len() && #[trigger] e.attributes[j] == Some(
            ("xmlUrl"@, fs[0].url),
        ),
{
    lemma_address_found(e.attributes, i);
    lemma_address_is_attribute(e.attributes);
    law_outline_tag_forms(e, seq![XmlEventView::Eof]);
    assert(seq![XmlEventView::Start(e)] + seq![XmlEventView::Eof] =~= seq![XmlEventView::Start(e), XmlEventView::Eof]);
    assert(seq![XmlEventView::Empty(e)] + seq![XmlEventView::Eof] =~= seq![XmlEventView::Empty(e), XmlEventView::Eof]);
}

proof fn lemma_address_is_attribute(attrs: Seq<Option<(Seq<char>, Seq<char>)>>)
    ensures
        outline_fields(attrs).0 matches Some(u) ==> exists|j: int| 0 <= j < attrs.len() && #[trigger] attrs[j] == Some(
            ("xmlUrl"@, u),
        ),
    decreases attrs.len(),
{
    if attrs.len() > 0 {
        let d = attrs.drop_last();
        lemma_address_is_attribute(d);
        if let Some(u) = outline_fields(attrs).0 {
            if outline_fields(d).0 == Some(u) && !(attrs.last() matches Some((k, _)) && k == "xmlUrl"@) {
                let j = choose|j: int| 0 <= j < d.len() && #[trigger] d[j] == Some(("xmlUrl"@, u));
                assert(attrs[j] == d[j]);
            } else {
                assert(attrs[attrs.len() - 1] == Some(("xmlUrl"@, u)));
            }
        }
    }
}

} // verus!
