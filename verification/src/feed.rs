use vstd::prelude::*;
use crate::text::{chars_of, string_of, collapse_white_space, sanitize_text};

verus! {

/// An instant, as seconds and nanoseconds since the Unix epoch in UTC.
#[derive(Debug, Clone, Copy, PartialEq, Eq, Structural)]
pub struct Timestamp {
    pub secs: i64,
    pub nanos: u32,
}

/// `a` comes no later than `b`: the order of UTC date-times.
pub open spec fn timestamp_le(a: Timestamp, b: Timestamp) -> bool {
    a.secs < b.secs || (a.secs == b.secs && a.nanos <= b.nanos)
}

/// The order of optional publication times: a missing time comes before every
/// present one, as `Option`'s order puts `None` first.
pub open spec fn published_le(a: Option<Timestamp>, b: Option<Timestamp>) -> bool {
    match (a, b) {
        (None, _) => true,
        (Some(_), None) => false,
        (Some(x), Some(y)) => timestamp_le(x, y),
    }
}

/// Compares two optional publication times.
pub fn published_at_most(a: Option<Timestamp>, b: Option<Timestamp>) -> (r: bool)
    ensures
        r == published_le(a, b),
{
    match (a, b) {
        (None, _) => true,
        (Some(_), None) => false,
        (Some(x), Some(y)) => x.secs < y.secs || (x.secs == y.secs && x.nanos <= y.nanos),
    }
}

/// One entry of a feed.
#[derive(Debug, Clone)]
pub struct Article {
    pub title: String,
    pub link: String,
    pub published: Option<Timestamp>,
    pub feed_title: String,
}

/// What an article holds, as plain values.
pub struct ArticleView {
    pub title: Seq<char>,
    pub link: Seq<char>,
    pub published: Option<Timestamp>,
    pub feed_title: Seq<char>,
}

impl View for Article {
    type V = ArticleView;

    open spec fn view(&self) -> ArticleView {
        ArticleView {
            title: self.title@,
            link: self.link@,
            published: self.published,
            feed_title: self.feed_title@,
        }
    }
}

/// The views of a sequence of articles.
pub open spec fn article_views(v: Seq<Article>) -> Seq<ArticleView> {
    v.map_values(|a: Article| a@)
}

impl Article {
    /// A copy of the article.
    pub fn duplicate(&self) -> (r: Article)
        ensures
            r@ == self@,
    {
        Article {
            title: self.title.clone(),
            link: self.link.clone(),
            published: self.published,
            feed_title: self.feed_title.clone(),
        }
    }
}

/// `p` stands in `s` at position `i`.
pub open spec fn has_at(s: Seq<char>, i: int, p: Seq<char>) -> bool {
    0 <= i && i + p.len() <= s.len() && s.subrange(i, i + p.len()) == p
}

/// An ASCII decimal digit.
pub open spec fn is_dec_digit(c: char) -> bool {
    '0' <= c <= '9'
}

/// An ASCII hexadecimal digit.
pub open spec fn is_hex_digit(c: char) -> bool {
    ('0' <= c <= '9') || ('a' <= c <= 'f') || ('A' <= c <= 'F')
}

/// From `from` on, `s` holds one or more digits (hexadecimal ones if `hex`)
/// and then `;`.
pub open spec fn digits_then_semicolon(s: Seq<char>, from: int, hex: bool) -> bool {
    exists|j: int|
        from < j < s.len() && #[trigger] s[j] == ';' && forall|k: int|
            from <= k < j ==> (if hex {
                is_hex_digit(#[trigger] s[k])
            } else {
                is_dec_digit(s[k])
            })
}

/// An XML character or entity reference starts at `i`: one of the five
/// predefined entities, `&#` and decimal digits, or `&#x` (or `&#X`) and
/// hexadecimal digits, closed by `;`.
pub open spec fn valid_entity_at(s: Seq<char>, i: int) -> bool {
    ||| has_at(s, i, seq!['&', 'a', 'm', 'p', ';'])
    ||| has_at(s, i, seq!['&', 'l', 't', ';'])
    ||| has_at(s, i, seq!['&', 'g', 't', ';'])
    ||| has_at(s, i, seq!['&', 'q', 'u', 'o', 't', ';'])
    ||| has_at(s, i, seq!['&', 'a', 'p', 'o', 's', ';'])
    ||| (has_at(s, i, seq!['&', '#', 'x']) || has_at(s, i, seq!['&', '#', 'X']))
        && digits_then_semicolon(s, i + 3, true)
    ||| has_at(s, i, seq!['&', '#']) && digits_then_semicolon(s, i + 2, false)
}

fn has_prefix_at(s: &[char], i: usize, p: &[char]) -> (r: bool)
    requires
        i <= s.len(),
    ensures
        r == has_at(s@, i as int, p@),
{
    if p.len() > s.len() - i {
        return false;
    }
    let mut k: usize = 0;
    while k < p.len()
        invariant
            i + p.len() <= s.len(),
            k <= p.len(),
            forall|t: int| 0 <= t < k ==> s@[i + t] == p@[t],
        decreases p.len() - k,
    {
        if s[i + k] != p[k] {
            assert(s@.subrange(i as int, i + p.len())[k as int] != p@[k as int]);
            return false;
        }
        k += 1;
    }
    assert(s@.subrange(i as int, i + p.len()) =~= p@);
    true
}

fn scan_digits_then_semicolon(s: &[char], from: usize, hex: bool) -> (r: bool)
    requires
        from <= s.len(),
    ensures
        r == digits_then_semicolon(s@, from as int, hex),
{
    let mut j: usize = from;
    while j < s.len()
        invariant
            from <= j <= s.len(),
            forall|k: int|
                from <= k < j ==> (if hex {
                    is_hex_digit(#[trigger] s@[k])
                } else {
                    is_dec_digit(s@[k])
                }),
        decreases s.len() - j,
    {
        let c = s[j];
        if c == ';' {
            if j > from {
                assert(s@[j as int] == ';');
                return true;
            } else {
                assert(!digits_then_semicolon(s@, from as int, hex)) by {
                    if exists|t: int|
                        from < t < s@.len() && #[trigger] s@[t] == ';' && forall|k: int|
                            from <= k < t ==> (if hex {
                                is_hex_digit(#[trigger] s@[k])
                            } else {
                                is_dec_digit(s@[k])
                            }) {
                        let t = choose|t: int|
                            from < t < s@.len() && #[trigger] s@[t] == ';' && forall|k: int|
                                from <= k < t ==> (if hex {
                                    is_hex_digit(#[trigger] s@[k])
                                } else {
                                    is_dec_digit(s@[k])
                                });
                        assert(s@[from as int] == ';');
                    }
                }
                return false;
            }
        }
        let ok = if hex {
            ('0' <= c && c <= '9') || ('a' <= c && c <= 'f') || ('A' <= c && c <= 'F')
        } else {
            '0' <= c && c <= '9'
        };
        if !ok {
            assert(!digits_then_semicolon(s@, from as int, hex)) by {
                if exists|t: int|
                    from < t < s@.len() && #[trigger] s@[t] == ';' && forall|k: int|
                        from <= k < t ==> (if hex {
                            is_hex_digit(#[trigger] s@[k])
                        } else {
                            is_dec_digit(s@[k])
                        }) {
                    let t = choose|t: int|
                        from < t < s@.len() && #[trigger] s@[t] == ';' && forall|k: int|
                            from <= k < t ==> (if hex {
                                is_hex_digit(#[trigger] s@[k])
                            } else {
                                is_dec_digit(s@[k])
                            });
                    if t > j {
                        assert(s@[j as int] == c);
                    }
                }
            }
            return false;
        }
        j += 1;
    }
    false
}

/// Tells whether an entity or character reference starts at `start`.
pub fn is_valid_entity(chars: &[char], start: usize) -> (r: bool)
    requires
        start <= chars.len(),
    ensures
        r == valid_entity_at(chars@, start as int),
{
    let amp: Vec<char> = vec!['&', 'a', 'm', 'p', ';'];
    let lt: Vec<char> = vec!['&', 'l', 't', ';'];
    let gt: Vec<char> = vec!['&', 'g', 't', ';'];
    let quot: Vec<char> = vec!['&', 'q', 'u', 'o', 't', ';'];
    let apos: Vec<char> = vec!['&', 'a', 'p', 'o', 's', ';'];
    let hex_lower: Vec<char> = vec!['&', '#', 'x'];
    let hex_upper: Vec<char> = vec!['&', '#', 'X'];
    let num: Vec<char> = vec!['&', '#'];
    if has_prefix_at(chars, start, &amp) || has_prefix_at(chars, start, &lt) || has_prefix_at(
        chars,
        start,
        &gt,
    ) || has_prefix_at(chars, start, &quot) || has_prefix_at(chars, start, &apos) {
        return true;
    }
    if has_prefix_at(chars, start, &hex_lower) || has_prefix_at(chars, start, &hex_upper) {
        if scan_digits_then_semicolon(chars, start + 3, true) {
            return true;
        }
    }
    if has_prefix_at(chars, start, &num) {
        return scan_digits_then_semicolon(chars, start + 2, false);
    }
    false
}

/// What the character at `i` becomes: a `&` that starts no entity is
/// written `&amp;`; every other character stays.
pub open spec fn sanitized_piece(s: Seq<char>, i: int) -> Seq<char> {
    if s[i] == '&' && !valid_entity_at(s, i) {
        seq!['&', 'a', 'm', 'p', ';']
    } else {
        seq![s[i]]
    }
}

/// The pieces of the characters before position `n`, in order.
pub open spec fn sanitized_prefix(s: Seq<char>, n: int) -> Seq<char>
    decreases n,
{
    if n <= 0 {
        Seq::empty()
    } else {
        sanitized_prefix(s, n - 1) + sanitized_piece(s, n - 1)
    }
}

/// `s` with every `&` that starts no entity escaped as `&amp;`.
pub open spec fn sanitized_xml(s: Seq<char>) -> Seq<char> {
    sanitized_prefix(s, s.len() as int)
}

/// Every `&` of `s` starts an entity or character reference.
pub open spec fn entities_escaped(s: Seq<char>) -> bool {
    forall|i: int| 0 <= i < s.len() && #[trigger] s[i] == '&' ==> valid_entity_at(s, i)
}

proof fn lemma_prefix_of_clean(s: Seq<char>, n: int)
    requires
        entities_escaped(s),
        0 <= n <= s.len(),
    ensures
        sanitized_prefix(s, n) == s.take(n),
    decreases n,
{
    if n > 0 {
        lemma_prefix_of_clean(s, n - 1);
        assert(s.take(n) =~= s.take(n - 1) + seq![s[n - 1]]);
    }
}

/// A document whose every `&` already starts a reference is left as it is.
pub proof fn law_sanitize_keeps_escaped(s: Seq<char>)
    requires
        entities_escaped(s),
    ensures
        sanitized_xml(s) == s,
{
    lemma_prefix_of_clean(s, s.len() as int);
    assert(s.take(s.len() as int) =~= s);
}

proof fn lemma_prefix_grows(s: Seq<char>, m: int, n: int)
    requires
        0 <= m <= n,
    ensures
        sanitized_prefix(s, m).len() <= sanitized_prefix(s, n).len(),
        sanitized_prefix(s, n).take(sanitized_prefix(s, m).len() as int) == sanitized_prefix(s, m),
    decreases n - m,
{
    if m < n {
        lemma_prefix_grows(s, m, n - 1);
        let a = sanitized_prefix(s, m);
        let b = sanitized_prefix(s, n - 1);
        assert(sanitized_prefix(s, n) == b + sanitized_piece(s, n - 1));
        assert((b + sanitized_piece(s, n - 1)).take(a.len() as int) =~= b.take(a.len() as int));
    } else {
        assert(sanitized_prefix(s, n).take(sanitized_prefix(s, n).len() as int) =~= sanitized_prefix(s, n));
    }
}

/// The first `&` of `s` from `k` on, or the end.
pub open spec fn next_amp(s: Seq<char>, k: int) -> int
    decreases s.len() - k,
{
    if k >= s.len() {
        s.len() as int
    } else if s[k] == '&' {
        k
    } else {
        next_amp(s, k + 1)
    }
}

proof fn lemma_next_amp(s: Seq<char>, k: int)
    requires
        0 <= k <= s.len(),
    ensures
        k <= next_amp(s, k) <= s.len(),
        next_amp(s, k) == s.len() || s[next_amp(s, k)] == '&',
        forall|t: int| k <= t < next_amp(s, k) ==> #[trigger] s[t] != '&',
    decreases s.len() - k,
{
    if k < s.len() && s[k] != '&' {
        lemma_next_amp(s, k + 1);
    }
}

proof fn lemma_copied_run(s: Seq<char>, i: int, e: int)
    requires
        0 <= i < e <= s.len(),
        s[i] == '&',
        valid_entity_at(s, i),
        forall|t: int| i < t < e ==> #[trigger] s[t] != '&',
    ensures
        sanitized_prefix(s, e) == sanitized_prefix(s, i) + s.subrange(i, e),
    decreases e - i,
{
    if e == i + 1 {
        assert(s.subrange(i, e) =~= seq![s[i]]);
    } else {
        lemma_copied_run(s, i, e - 1);
        assert(s.subrange(i, e) =~= s.subrange(i, e - 1) + seq![s[e - 1]]);
    }
}

proof fn lemma_entity_transfer(s: Seq<char>, i: int, e: int, o: Seq<char>, p: int)
    requires
        0 <= i < e <= s.len(),
        valid_entity_at(s, i),
        forall|t: int| i < t < e ==> #[trigger] s[t] != '&',
        e == s.len() || s[e] == '&',
        0 <= p,
        p + (e - i) <= o.len(),
        forall|t: int| 0 <= t < e - i ==> o[p + t] == #[trigger] s[i + t],
    ensures
        valid_entity_at(o, p),
{
    assert forall|lit: Seq<char>| has_at(s, i, lit) && lit.len() > 0 && (forall|t: int|
        1 <= t < lit.len() ==> #[trigger] lit[t] != '&') implies has_at(o, p, lit) by {
        if i + lit.len() > e {
            assert(s.subrange(i, i + lit.len())[e - i] == s[e]);
        }
        assert forall|t: int| 0 <= t < lit.len() implies o.subrange(p, p + lit.len())[t] == lit[t] by {
            assert(o[p + t] == s[i + t]);
            assert(s.subrange(i, i + lit.len())[t] == s[i + t]);
        }
        assert(o.subrange(p, p + lit.len()) =~= lit);
    }
    let amp = seq!['&', 'a', 'm', 'p', ';'];
    let lt = seq!['&', 'l', 't', ';'];
    let gt = seq!['&', 'g', 't', ';'];
    let quot = seq!['&', 'q', 'u', 'o', 't', ';'];
    let apos = seq!['&', 'a', 'p', 'o', 's', ';'];
    let hx = seq!['&', '#', 'x'];
    let hu = seq!['&', '#', 'X'];
    let num = seq!['&', '#'];
    assert(forall|t: int| 1 <= t < amp.len() ==> #[trigger] amp[t] != '&');
    assert(forall|t: int| 1 <= t < lt.len() ==> #[trigger] lt[t] != '&');
    assert(forall|t: int| 1 <= t < gt.len() ==> #[trigger] gt[t] != '&');
    assert(forall|t: int| 1 <= t < quot.len() ==> #[trigger] quot[t] != '&');
    assert(forall|t: int| 1 <= t < apos.len() ==> #[trigger] apos[t] != '&');
    assert(forall|t: int| 1 <= t < hx.len() ==> #[trigger] hx[t] != '&');
    assert(forall|t: int| 1 <= t < hu.len() ==> #[trigger] hu[t] != '&');
    assert(forall|t: int| 1 <= t < num.len() ==> #[trigger] num[t] != '&');
    assert forall|from: int, hex: bool|
        i < from <= e && digits_then_semicolon(s, from, hex) implies digits_then_semicolon(
        o,
        p + (from - i),
        hex,
    ) by {
        let j = choose|j: int|
            from < j < s.len() && #[trigger] s[j] == ';' && forall|k: int|
                from <= k < j ==> (if hex {
                    is_hex_digit(#[trigger] s[k])
                } else {
                    is_dec_digit(s[k])
                });
        if j >= e {
            if e < j {
                assert(if hex { is_hex_digit(s[e]) } else { is_dec_digit(s[e]) });
            }
        }
        let jo = p + (j - i);
        assert(o[p + (j - i)] == s[i + (j - i)]);
        assert forall|k: int| p + (from - i) <= k < jo implies (if hex {
            is_hex_digit(#[trigger] o[k])
        } else {
            is_dec_digit(o[k])
        }) by {
            assert(o[p + (k - p)] == s[i + (k - p)]);
        }
        assert(o[jo] == ';');
    }
}

proof fn lemma_pieces_escaped(s: Seq<char>, n: int)
    requires
        0 <= n <= s.len(),
    ensures
        forall|q: int|
            0 <= q < sanitized_prefix(s, n).len() && #[trigger] sanitized_xml(s)[q] == '&'
                ==> valid_entity_at(sanitized_xml(s), q),
    decreases n,
{
    let o = sanitized_xml(s);
    if n > 0 {
        lemma_pieces_escaped(s, n - 1);
        let i = n - 1;
        let a = sanitized_prefix(s, i);
        let b = sanitized_prefix(s, n);
        lemma_prefix_grows(s, i, n);
        lemma_prefix_grows(s, n, s.len() as int);
        lemma_prefix_grows(s, i, s.len() as int);
        assert(b == a + sanitized_piece(s, i));
        assert forall|q: int| a.len() <= q < b.len() && #[trigger] o[q] == '&' implies valid_entity_at(o, q) by {
            assert(o[q] == b[q]);
            if s[i] == '&' && !valid_entity_at(s, i) {
                let amp = seq!['&', 'a', 'm', 'p', ';'];
                assert(b[q] == amp[q - a.len()]);
                assert(q == a.len());
                assert(o.subrange(q, q + 5) =~= amp) by {
                    assert forall|t: int| 0 <= t < 5 implies o.subrange(q, q + 5)[t] == amp[t] by {
                        assert(o[q + t] == b[q + t]);
                    }
                }
            } else {
                assert(q == a.len());
                assert(s[i] == '&');
                lemma_next_amp(s, i + 1);
                let e = next_amp(s, i + 1);
                lemma_copied_run(s, i, e);
                lemma_prefix_grows(s, e, s.len() as int);
                let c = sanitized_prefix(s, e);
                assert forall|t: int| 0 <= t < e - i implies o[q + t] == #[trigger] s[i + t] by {
                    assert(o[q + t] == c[q + t]);
                    assert(c[q + t] == s.subrange(i, e)[t]);
                }
                lemma_entity_transfer(s, i, e, o, q);
            }
        }
    }
}

/// Escaping leaves every `&` of the result starting a reference, so
/// escaping twice gives what escaping once gave.
pub proof fn law_sanitize_idempotent(s: Seq<char>)
    ensures
        entities_escaped(sanitized_xml(s)),
        sanitized_xml(sanitized_xml(s)) == sanitized_xml(s),
{
    lemma_pieces_escaped(s, s.len() as int);
    law_sanitize_keeps_escaped(sanitized_xml(s));
}

/// Escapes the stray ampersands of a document so that an XML parser accepts
/// it, leaving entity and character references as they are.
pub fn sanitize_xml(content: &str) -> (r: String)
    ensures
        r@ == sanitized_xml(content@),
{
    let chars = chars_of(content);
    let mut out: Vec<char> = Vec::new();
    let mut i: usize = 0;
    while i < chars.len()
        invariant
            i <= chars.len(),
            chars@ == content@,
            out@ == sanitized_prefix(chars@, i as int),
        decreases chars.len() - i,
    {
        if chars[i] == '&' {
            if is_valid_entity(&chars, i) {
                out.push('&');
            } else {
                out.push('&');
                out.push('a');
                out.push('m');
                out.push('p');
                out.push(';');
            }
        } else {
            out.push(chars[i]);
        }
        i += 1;
        assert(out@ =~= sanitized_prefix(chars@, i as int));
    }
    string_of(&out)
}

/// The view of an optional string.
pub open spec fn opt_view(o: Option<String>) -> Option<Seq<char>> {
    match o {
        Some(s) => Some(s@),
        None => None,
    }
}

/// An item of an RSS channel, as far as the reader uses it.
#[derive(Debug, Clone)]
pub struct RssItem {
    pub title: Option<String>,
    pub link: Option<String>,
    pub pub_date: Option<String>,
    /// The Dublin Core dates of the item (`dc:date`), in document order.
    pub dc_dates: Vec<String>,
}

/// What an RSS item holds, as plain values.
pub struct RssItemView {
    pub title: Option<Seq<char>>,
    pub link: Option<Seq<char>>,
    pub pub_date: Option<Seq<char>>,
    pub dc_dates: Seq<Seq<char>>,
}

impl View for RssItem {
    type V = RssItemView;

    open spec fn view(&self) -> RssItemView {
        RssItemView {
            title: opt_view(self.title),
            link: opt_view(self.link),
            pub_date: opt_view(self.pub_date),
            dc_dates: crate::text::string_views(self.dc_dates@),
        }
    }
}

/// An RSS channel (RSS 0.9x, 1.0 or 2.0), as far as the reader uses it.
#[derive(Debug, Clone)]
pub struct RssChannel {
    pub title: String,
    pub items: Vec<RssItem>,
}

/// What an RSS channel holds, as plain values.
pub struct RssChannelView {
    pub title: Seq<char>,
    pub items: Seq<RssItemView>,
}

impl View for RssChannel {
    type V = RssChannelView;

    open spec fn view(&self) -> RssChannelView {
        RssChannelView { title: self.title@, items: self.items@.map_values(|i: RssItem| i@) }
    }
}

/// An entry of an Atom feed, as far as the reader uses it.
#[derive(Debug, Clone)]
pub struct AtomEntry {
    pub title: String,
    /// The `href` of each link of the entry, in document order.
    pub links: Vec<String>,
    pub published: Option<Timestamp>,
    pub updated: Timestamp,
}

/// What an Atom entry holds, as plain values.
pub struct AtomEntryView {
    pub title: Seq<char>,
    pub links: Seq<Seq<char>>,
    pub published: Option<Timestamp>,
    pub updated: Timestamp,
}

impl View for AtomEntry {
    type V = AtomEntryView;

    open spec fn view(&self) -> AtomEntryView {
        AtomEntryView {
            title: self.title@,
            links: crate::text::string_views(self.links@),
            published: self.published,
            updated: self.updated,
        }
    }
}

/// An Atom feed, as far as the reader uses it.
#[derive(Debug, Clone)]
pub struct AtomFeed {
    pub title: String,
    pub entries: Vec<AtomEntry>,
}

/// What an Atom feed holds, as plain values.
pub struct AtomFeedView {
    pub title: Seq<char>,
    pub entries: Seq<AtomEntryView>,
}

impl View for AtomFeed {
    type V = AtomFeedView;

    open spec fn view(&self) -> AtomFeedView {
        AtomFeedView { title: self.title@, entries: self.entries@.map_values(|e: AtomEntry| e@) }
    }
}

/// The channel that the `rss` crate reads from a document, if it reads one.
pub uninterp spec fn rss_channel_of(content: Seq<char>) -> Option<RssChannelView>;

/// The feed that the `atom_syndication` crate reads from a document, if it reads one.
pub uninterp spec fn atom_feed_of(content: Seq<char>) -> Option<AtomFeedView>;

/// The instant that `chrono`'s RFC 2822 parser reads from a date, if any.
pub uninterp spec fn rfc2822_time(date: Seq<char>) -> Option<Timestamp>;

/// The instant that `chrono`'s RFC 3339 parser reads from a date, if any.
pub uninterp spec fn rfc3339_time(date: Seq<char>) -> Option<Timestamp>;

/// The instant that `chrono` reads from a date with a `strftime` format, if any.
pub uninterp spec fn formatted_time(date: Seq<char>, format: Seq<char>) -> Option<Timestamp>;

/// `<rss::Channel as FromStr>::from_str`, its result copied into plain values.
/// The contract claims only that the result depends on the document alone.
#[verifier::external_body]
fn read_rss_channel(content: &str) -> (r: Option<RssChannel>)
    ensures
        match r {
            Some(c) => rss_channel_of(content@) == Some(c@),
            None => rss_channel_of(content@) is None,
        },
{
    let c = content.parse::<rss::Channel>().ok()?;
    let items = c.items().iter().map(|i| RssItem {
        title: i.title().map(|t| t.to_string()),
        link: i.link().map(|l| l.to_string()),
        pub_date: i.pub_date().map(|d| d.to_string()),
        dc_dates: i.dublin_core_ext().map(|d| d.dates().to_vec()).unwrap_or_default(),
    });
    Some(RssChannel { title: c.title().to_string(), items: items.collect() })
}

/// `<atom_syndication::Feed as FromStr>::from_str`, its result copied into
/// plain values (date-times as instants). The contract claims only that the
/// result depends on the document alone.
#[verifier::external_body]
fn read_atom_feed(content: &str) -> (r: Option<AtomFeed>)
    ensures
        match r {
            Some(f) => atom_feed_of(content@) == Some(f@),
            None => atom_feed_of(content@) is None,
        },
{
    let f = content.parse::<atom_syndication::Feed>().ok()?;
    let entries = f.entries().iter().map(|e| AtomEntry {
        title: e.title().to_string(),
        links: e.links().iter().map(|l| l.href().to_string()).collect(),
        published: e.published().map(|d| Timestamp { secs: d.timestamp(), nanos: d.timestamp_subsec_nanos() }),
        updated: Timestamp { secs: e.updated().timestamp(), nanos: e.updated().timestamp_subsec_nanos() },
    });
    Some(AtomFeed { title: f.title().to_string(), entries: entries.collect() })
}

/// `chrono::DateTime::parse_from_rfc2822`, taken as an instant.
#[verifier::external_body]
fn parse_rfc2822(date: &str) -> (r: Option<Timestamp>)
    ensures
        r == rfc2822_time(date@),
{
    let d = chrono::DateTime::parse_from_rfc2822(date).ok()?;
    Some(Timestamp { secs: d.timestamp(), nanos: d.timestamp_subsec_nanos() })
}

/// `chrono::DateTime::parse_from_rfc3339`, taken as an instant.
#[verifier::external_body]
fn parse_rfc3339(date: &str) -> (r: Option<Timestamp>)
    ensures
        r == rfc3339_time(date@),
{
    let d = chrono::DateTime::parse_from_rfc3339(date).ok()?;
    Some(Timestamp { secs: d.timestamp(), nanos: d.timestamp_subsec_nanos() })
}

/// `chrono::DateTime::parse_from_str`, taken as an instant.
#[verifier::external_body]
fn parse_formatted(date: &str, format: &str) -> (r: Option<Timestamp>)
    ensures
        r == formatted_time(date@, format@),
{
    let d = chrono::DateTime::parse_from_str(date, format).ok()?;
    Some(Timestamp { secs: d.timestamp(), nanos: d.timestamp_subsec_nanos() })
}

/// The `strftime` formats tried, in order, after RFC 2822 and RFC 3339.
pub open spec fn date_formats() -> Seq<Seq<char>> {
    seq![
        "%a, %d %b %Y %H:%M:%S %z"@,
        "%a, %d %b %Y %H:%M:%S %Z"@,
        "%a, %-d %b %Y %H:%M:%S %z"@,
        "%d %b %Y %H:%M:%S %z"@,
        "%Y-%m-%dT%H:%M:%S%z"@,
    ]
}

/// The first format of `formats` that reads `date`, with its instant.
pub open spec fn first_formatted_time(date: Seq<char>, formats: Seq<Seq<char>>) -> Option<Timestamp>
    decreases formats.len(),
{
    if formats.len() == 0 {
        None
    } else if formatted_time(date, formats[0]) is Some {
        formatted_time(date, formats[0])
    } else {
        first_formatted_time(date, formats.drop_first())
    }
}

/// The instant a feed's date stands for: RFC 2822 first, then RFC 3339,
/// then the formats of `date_formats`, in order.
pub open spec fn date_of(date: Seq<char>) -> Option<Timestamp> {
    if rfc2822_time(date) is Some {
        rfc2822_time(date)
    } else if rfc3339_time(date) is Some {
        rfc3339_time(date)
    } else {
        first_formatted_time(date, date_formats())
    }
}

/// Reads the date of a feed entry.
pub fn parse_date(date: &str) -> (r: Option<Timestamp>)
    ensures
        r == date_of(date@),
{
    if let Some(t) = parse_rfc2822(date) {
        return Some(t);
    }
    if let Some(t) = parse_rfc3339(date) {
        return Some(t);
    }
    let formats: [&str; 5] = [
        "%a, %d %b %Y %H:%M:%S %z",
        "%a, %d %b %Y %H:%M:%S %Z",
        "%a, %-d %b %Y %H:%M:%S %z",
        "%d %b %Y %H:%M:%S %z",
        "%Y-%m-%dT%H:%M:%S%z",
    ];
    let ghost fs = seq![formats[0]@, formats[1]@, formats[2]@, formats[3]@, formats[4]@];
    assert(fs == date_formats());
    assert(fs.skip(0) == fs);
    let mut i: usize = 0;
    while i < 5
        invariant
            i <= 5,
            fs == date_formats(),
            rfc2822_time(date@) is None,
            rfc3339_time(date@) is None,
            forall|k: int| 0 <= k < 5 ==> #[trigger] fs[k] == formats@[k]@,
            first_formatted_time(date@, date_formats()) == first_formatted_time(
                date@,
                fs.skip(i as int),
            ),
        decreases 5 - i,
    {
        let ghost rest = fs.skip(i as int);
        assert(rest[0] == formats@[i as int]@);
        assert(rest.drop_first() == fs.skip(i + 1));
        if let Some(t) = parse_formatted(date, formats[i]) {
            return Some(t);
        }
        i += 1;
    }
    assert(fs.skip(5) =~= Seq::<Seq<char>>::empty());
    None
}

/// When an RSS item was published: its `pubDate` if that reads as a date,
/// else its first Dublin Core date if that does.
pub open spec fn rss_published(item: RssItemView) -> Option<Timestamp> {
    let from_pub_date = match item.pub_date {
        Some(d) => date_of(d),
        None => None,
    };
    if from_pub_date is Some {
        from_pub_date
    } else if item.dc_dates.len() > 0 {
        date_of(item.dc_dates[0])
    } else {
        None
    }
}

/// The article an RSS item makes: items without a title or a link make none.
pub open spec fn rss_article(item: RssItemView, feed_title: Seq<char>) -> Option<ArticleView> {
    match (item.title, item.link) {
        (Some(title), Some(link)) => Some(
            ArticleView {
                title: collapse_white_space(title),
                link,
                published: rss_published(item),
                feed_title,
            },
        ),
        _ => None,
    }
}

/// The articles that a list of RSS items makes, in order.
pub open spec fn rss_articles(items: Seq<RssItemView>, feed_title: Seq<char>) -> Seq<ArticleView>
    decreases items.len(),
{
    if items.len() == 0 {
        Seq::empty()
    } else {
        rss_articles(items.drop_last(), feed_title) + match rss_article(items.last(), feed_title) {
            Some(a) => seq![a],
            None => Seq::empty(),
        }
    }
}

/// The articles of an RSS channel, under its title with white space collapsed.
pub open spec fn channel_articles(c: RssChannelView) -> Seq<ArticleView> {
    rss_articles(c.items, collapse_white_space(c.title))
}

/// The article an Atom entry makes: entries without a link make none; the
/// publication time falls back to the update time.
pub open spec fn atom_article(e: AtomEntryView, feed_title: Seq<char>) -> Option<ArticleView> {
    if e.links.len() > 0 {
        Some(
            ArticleView {
                title: collapse_white_space(e.title),
                link: e.links[0],
                published: Some(
                    match e.published {
                        Some(p) => p,
                        None => e.updated,
                    },
                ),
                feed_title,
            },
        )
    } else {
        None
    }
}

/// The articles that a list of Atom entries makes, in order.
pub open spec fn atom_articles(entries: Seq<AtomEntryView>, feed_title: Seq<char>) -> Seq<
    ArticleView,
>
    decreases entries.len(),
{
    if entries.len() == 0 {
        Seq::empty()
    } else {
        atom_articles(entries.drop_last(), feed_title) + match atom_article(
            entries.last(),
            feed_title,
        ) {
            Some(a) => seq![a],
            None => Seq::empty(),
        }
    }
}

/// The articles of an Atom feed, under its title with white space collapsed.
pub open spec fn atom_feed_articles(f: AtomFeedView) -> Seq<ArticleView> {
    atom_articles(f.entries, collapse_white_space(f.title))
}

/// The articles of an RSS channel.
pub fn parse_rss_channel(channel: &RssChannel) -> (r: Vec<Article>)
    ensures
        article_views(r@) == channel_articles(channel@),
{
    let feed_title = sanitize_text(channel.title.as_str());
    let ghost items = channel@.items;
    let mut out: Vec<Article> = Vec::new();
    let mut i: usize = 0;
    assert(items.take(0) =~= Seq::<RssItemView>::empty());
    assert(article_views(out@) =~= Seq::<ArticleView>::empty());
    while i < channel.items.len()
        invariant
            i <= channel.items.len(),
            items == channel@.items,
            items.len() == channel.items.len(),
            feed_title@ == collapse_white_space(channel.title@),
            article_views(out@) == rss_articles(items.take(i as int), feed_title@),
        decreases channel.items.len() - i,
    {
        let item = &channel.items[i];
        assert(items[i as int] == item@);
        assert(items.take(i + 1).drop_last() == items.take(i as int));
        assert(items.take(i + 1).last() == item@);
        let ghost old_out = out@;
        if let Some(title) = &item.title {
            if let Some(link) = &item.link {
                let mut published: Option<Timestamp> = None;
                if let Some(d) = &item.pub_date {
                    published = parse_date(d.as_str());
                }
                if published.is_none() && item.dc_dates.len() > 0 {
                    published = parse_date(item.dc_dates[0].as_str());
                }
                let article = Article {
                    title: sanitize_text(title.as_str()),
                    link: link.clone(),
                    published,
                    feed_title: feed_title.clone(),
                };
                out.push(article);
                assert(article_views(out@) =~= article_views(old_out).push(article@));
            }
        }
        i += 1;
    }
    assert(items.take(i as int) == items);
    out
}

/// The articles of an Atom feed.
pub fn parse_atom_feed(feed: &AtomFeed) -> (r: Vec<Article>)
    ensures
        article_views(r@) == atom_feed_articles(feed@),
{
    let feed_title = sanitize_text(feed.title.as_str());
    let ghost entries = feed@.entries;
    let mut out: Vec<Article> = Vec::new();
    let mut i: usize = 0;
    assert(entries.take(0) =~= Seq::<AtomEntryView>::empty());
    assert(article_views(out@) =~= Seq::<ArticleView>::empty());
    while i < feed.entries.len()
        invariant
            i <= feed.entries.len(),
            entries == feed@.entries,
            entries.len() == feed.entries.len(),
            feed_title@ == collapse_white_space(feed.title@),
            article_views(out@) == atom_articles(entries.take(i as int), feed_title@),
        decreases feed.entries.len() - i,
    {
        let entry = &feed.entries[i];
        assert(entries[i as int] == entry@);
        assert(entries.take(i + 1).drop_last() == entries.take(i as int));
        assert(entries.take(i + 1).last() == entry@);
        let ghost old_out = out@;
        if entry.links.len() > 0 {
            let published = match entry.published {
                Some(p) => p,
                None => entry.updated,
            };
            let article = Article {
                title: sanitize_text(entry.title.as_str()),
                link: entry.links[0].clone(),
                published: Some(published),
                feed_title: feed_title.clone(),
            };
            out.push(article);
            assert(article_views(out@) =~= article_views(old_out).push(article@));
        }
        i += 1;
    }
    assert(entries.take(i as int) == entries);
    out
}

/// Why a document gave no articles.
#[derive(Debug, Clone, Copy, PartialEq, Eq, Structural)]
pub enum FeedError {
    /// Neither an RSS nor an Atom parser accepts the document, as it is or
    /// with its stray ampersands escaped.
    UnsupportedFormat,
}

impl FeedError {
    /// The message that reports the error.
    pub fn message(&self) -> (r: String)
        ensures
            r@ == "Failed to parse feed: unsupported format or invalid XML"@,
    {
        string_of(&chars_of("Failed to parse feed: unsupported format or invalid XML"))
    }
}

/// The articles a document gives: it is read as RSS, else as Atom, else,
/// with its stray ampersands escaped, as RSS and then as Atom.
pub open spec fn feed_articles(content: Seq<char>) -> Option<Seq<ArticleView>> {
    if let Some(c) = rss_channel_of(content) {
        Some(channel_articles(c))
    } else if let Some(f) = atom_feed_of(content) {
        Some(atom_feed_articles(f))
    } else if let Some(c) = rss_channel_of(sanitized_xml(content)) {
        Some(channel_articles(c))
    } else if let Some(f) = atom_feed_of(sanitized_xml(content)) {
        Some(atom_feed_articles(f))
    } else {
        None
    }
}

/// Reads the articles of an RSS or Atom document.
pub fn parse_feed(content: &str) -> (r: Result<Vec<Article>, FeedError>)
    ensures
        match feed_articles(content@) {
            Some(a) => r matches Ok(v) && article_views(v@) == a,
            None => r == Err::<Vec<Article>, FeedError>(FeedError::UnsupportedFormat),
        },
{
    if let Some(channel) = read_rss_channel(content) {
        return Ok(parse_rss_channel(&channel));
    }
    if let Some(feed) = read_atom_feed(content) {
        return Ok(parse_atom_feed(&feed));
    }
    let sanitized = sanitize_xml(content);
    if let Some(channel) = read_rss_channel(sanitized.as_str()) {
        return Ok(parse_rss_channel(&channel));
    }
    if let Some(feed) = read_atom_feed(sanitized.as_str()) {
        return Ok(parse_atom_feed(&feed));
    }
    Err(FeedError::UnsupportedFormat)
}


/// How a document is read: as RSS if it reads as RSS, else as Atom if it
/// reads as Atom; a document that reads as neither gives exactly what its
/// stray-ampersand-escaped form gives, whichever of the two formats that
/// form is; in particular one whose escaped form is Atom gives that Atom
/// feed's articles; and it is refused only when no reading of it or of its
/// escaped form succeeds.
pub proof fn law_feed_read_order(content: Seq<char>)
    ensures
        rss_channel_of(content) matches Some(c) ==> feed_articles(content) == Some(channel_articles(c)),
        rss_channel_of(content) is None ==> (atom_feed_of(content) matches Some(f) ==> feed_articles(
            content,
        ) == Some(atom_feed_articles(f))),
        rss_channel_of(content) is None && atom_feed_of(content) is None ==> feed_articles(content)
            == feed_articles(sanitized_xml(content)),
        rss_channel_of(content) is None && atom_feed_of(content) is None && rss_channel_of(
            sanitized_xml(content),
        ) is None ==> (atom_feed_of(sanitized_xml(content)) matches Some(f) ==> feed_articles(content)
            == Some(atom_feed_articles(f))),
        feed_articles(content) is None <==> (rss_channel_of(content) is None && atom_feed_of(content) is None
            && rss_channel_of(sanitized_xml(content)) is None && atom_feed_of(sanitized_xml(content)) is None),
{
    law_sanitize_idempotent(content);
}

} // verus!
