use vstd::prelude::*;
use crate::feed::{Article, ArticleView, article_views, published_le, published_at_most};
use crate::subscription::Feed;
use crate::text::{append_chars, chars_equal, chars_of, decimal, push_decimal, string_of, string_views};

verus! {

/// The status of each address that occurs in `entries`.
pub open spec fn map_of(entries: Seq<(String, bool)>) -> Map<Seq<char>, bool> {
    Map::new(
        |u: Seq<char>| exists|i: int| 0 <= i < entries.len() && entries[i].0@ == u,
        |u: Seq<char>| entries[choose|i: int| 0 <= i < entries.len() && entries[i].0@ == u].1,
    )
}

/// No address occurs twice in `entries`.
pub open spec fn distinct_keys(entries: Seq<(String, bool)>) -> bool {
    forall|i: int, j: int|
        0 <= i < entries.len() && 0 <= j < entries.len() && i != j ==> #[trigger] entries[i].0@
            != #[trigger] entries[j].0@
}

proof fn lemma_map_of_update(entries: Seq<(String, bool)>, i: int, e: (String, bool))
    requires
        distinct_keys(entries),
        0 <= i < entries.len(),
        entries[i].0@ == e.0@,
    ensures
        distinct_keys(entries.update(i, e)),
        map_of(entries.update(i, e)) == map_of(entries).insert(e.0@, e.1),
{
    let n = entries.update(i, e);
    assert forall|u: Seq<char>| #[trigger] map_of(n).contains_key(u) <==> map_of(entries).insert(e.0@, e.1).contains_key(u) by {
        if map_of(entries).contains_key(u) {
            let k = choose|k: int| 0 <= k < entries.len() && entries[k].0@ == u;
            assert(n[k].0@ == u);
        }
        if map_of(n).contains_key(u) {
            let k = choose|k: int| 0 <= k < n.len() && n[k].0@ == u;
            assert(entries[k].0@ == u);
        }
    }
    assert forall|u: Seq<char>| #[trigger] map_of(n).contains_key(u) implies map_of(n)[u] == map_of(entries).insert(e.0@, e.1)[u] by {
        let k = choose|k: int| 0 <= k < n.len() && n[k].0@ == u;
        if u != e.0@ {
            assert(entries[k].0@ == u);
            let k2 = choose|k2: int| 0 <= k2 < entries.len() && entries[k2].0@ == u;
            assert(k == k2);
        } else {
            assert(k == i);
        }
    }
    assert(map_of(n) =~= map_of(entries).insert(e.0@, e.1));
}

proof fn lemma_map_of_push(entries: Seq<(String, bool)>, e: (String, bool))
    requires
        distinct_keys(entries),
        forall|i: int| 0 <= i < entries.len() ==> #[trigger] entries[i].0@ != e.0@,
    ensures
        distinct_keys(entries.push(e)),
        map_of(entries.push(e)) == map_of(entries).insert(e.0@, e.1),
{
    let n = entries.push(e);
    let len = entries.len() as int;
    assert(n[len] == e);
    assert forall|u: Seq<char>| #[trigger] map_of(n).contains_key(u) <==> map_of(entries).insert(e.0@, e.1).contains_key(u) by {
        if map_of(entries).contains_key(u) {
            let k = choose|k: int| 0 <= k < entries.len() && entries[k].0@ == u;
            assert(n[k].0@ == u);
        }
        if map_of(n).contains_key(u) && u != e.0@ {
            let k = choose|k: int| 0 <= k < n.len() && n[k].0@ == u;
            assert(k < len);
            assert(entries[k].0@ == u);
        }
    }
    assert forall|u: Seq<char>| #[trigger] map_of(n).contains_key(u) implies map_of(n)[u] == map_of(entries).insert(e.0@, e.1)[u] by {
        let k = choose|k: int| 0 <= k < n.len() && n[k].0@ == u;
        if u != e.0@ {
            assert(k < len);
            assert(entries[k].0@ == u);
            let k2 = choose|k2: int| 0 <= k2 < entries.len() && entries[k2].0@ == u;
            assert(k == k2);
        } else {
            assert(k == len);
        }
    }
    assert(map_of(n) =~= map_of(entries).insert(e.0@, e.1));
}

/// Whether the last fetch of each feed succeeded, by feed address.
///
/// The entries are kept in a `Vec` whose addresses are distinct (the type
/// invariant `wf`). A `HashMap<String, bool>` is accepted by Verus, but its
/// contracts hold only for key types whose hashing and equality vstd models,
/// which `String` is not: not even the size of a map after one insertion
/// can be proved of it.
pub struct FeedStatus {
    entries: Vec<(String, bool)>,
}

impl FeedStatus {
    /// The status of each address that has one.
    pub closed spec fn view_map(&self) -> Map<Seq<char>, bool> {
        map_of(self.entries@)
    }

    /// No address occurs twice.
    #[verifier::type_invariant]
    closed spec fn wf(&self) -> bool {
        distinct_keys(self.entries@)
    }

    /// No status for any address.
    pub fn new() -> (r: FeedStatus)
        ensures
            r.view_map() == Map::<Seq<char>, bool>::empty(),
    {
        let r = FeedStatus { entries: Vec::new() };
        assert(r.view_map() =~= Map::<Seq<char>, bool>::empty());
        r
    }

    fn find(entries: &Vec<(String, bool)>, url: &str) -> (r: Option<usize>)
        ensures
            match r {
                Some(i) => i < entries@.len() && entries@[i as int].0@ == url@,
                None => forall|i: int|
                    0 <= i < entries@.len() ==> #[trigger] entries@[i].0@ != url@,
            },
    {
        let u = chars_of(url);
        let mut i: usize = 0;
        while i < entries.len()
            invariant
                i <= entries.len(),
                u@ == url@,
                forall|k: int| 0 <= k < i ==> #[trigger] entries@[k].0@ != url@,
            decreases entries.len() - i,
        {
            if chars_equal(&chars_of(entries[i].0.as_str()), &u) {
                return Some(i);
            }
            i += 1;
        }
        None
    }

    /// The status recorded for `url`, if any.
    pub fn get(&self, url: &str) -> (r: Option<bool>)
        ensures
            r == (if self.view_map().contains_key(url@) {
                Some(self.view_map()[url@])
            } else {
                None
            }),
    {
        proof {
            use_type_invariant(self);
        }
        match Self::find(&self.entries, url) {
            Some(i) => {
                assert(self.view_map().contains_key(url@));
                let ghost c = choose|k: int| 0 <= k < self.entries@.len() && self.entries@[k].0@ == url@;
                assert(c == i);
                Some(self.entries[i].1)
            },
            None => {
                assert(!self.view_map().contains_key(url@));
                None
            },
        }
    }

    /// Records `ok` as the status of `url`, replacing any earlier one.
    pub fn insert(&mut self, url: &str, ok: bool)
        ensures
            final(self).view_map() == old(self).view_map().insert(url@, ok),
    {
        proof {
            use_type_invariant(&*self);
        }
        let mut entries: Vec<(String, bool)> = Vec::new();
        std::mem::swap(&mut entries, &mut self.entries);
        let ghost old_entries = entries@;
        match Self::find(&entries, url) {
            Some(i) => {
                let key = entries[i].0.clone();
                entries.set(i, (key, ok));
                proof {
                    lemma_map_of_update(old_entries, i as int, (key, ok));
                }
            },
            None => {
                let e = (crate::text::string_of(&chars_of(url)), ok);
                entries.push(e);
                proof {
                    lemma_map_of_push(old_entries, e);
                }
            },
        }
        self.entries = entries;
    }
}

/// Where `x` goes in `t`, a list newest first: after every article
/// published no earlier than it.
pub open spec fn article_insert_pos(t: Seq<ArticleView>, x: ArticleView) -> int
    decreases t.len(),
{
    if t.len() == 0 {
        0
    } else if published_le(x.published, t[0].published) {
        1 + article_insert_pos(t.drop_first(), x)
    } else {
        0
    }
}

/// `articles` newest first, articles published at the same time (or both
/// undated) kept in their order, undated ones last: the stable sort by
/// descending publication time.
pub open spec fn newest_first(articles: Seq<ArticleView>) -> Seq<ArticleView>
    decreases articles.len(),
{
    if articles.len() == 0 {
        articles
    } else {
        let t = newest_first(articles.drop_last());
        let k = article_insert_pos(t, articles.last());
        t.take(k) + seq![articles.last()] + t.skip(k)
    }
}

/// Sorts articles newest first, stably.
pub fn sort_newest_first(articles: Vec<Article>) -> (r: Vec<Article>)
    ensures
        article_views(r@) == newest_first(article_views(articles@)),
{
    let ghost input = article_views(articles@);
    let mut out: Vec<Article> = Vec::new();
    let mut i: usize = 0;
    assert(input.take(0) =~= Seq::<ArticleView>::empty());
    assert(article_views(out@) =~= Seq::<ArticleView>::empty());
    while i < articles.len()
        invariant
            i <= articles.len(),
            input == article_views(articles@),
            article_views(out@) == newest_first(input.take(i as int)),
        decreases articles.len() - i,
    {
        let x = &articles[i];
        assert(input[i as int] == x@);
        assert(input.take(i + 1).drop_last() == input.take(i as int));
        assert(input.take(i + 1).last() == x@);
        let ghost t = article_views(out@);
        let mut k: usize = 0;
        assert(t.skip(0) == t);
        while k < out.len() && published_at_most(x.published, out[k].published)
            invariant
                k <= out.len(),
                t == article_views(out@),
                article_insert_pos(t, x@) == k + article_insert_pos(t.skip(k as int), x@),
            decreases out.len() - k,
        {
            let ghost rest = t.skip(k as int);
            assert(rest[0] == out@[k as int]@);
            assert(rest.drop_first() == t.skip(k + 1));
            k += 1;
        }
        proof {
            if k < out.len() {
                let rest = t.skip(k as int);
                assert(rest[0] == out@[k as int]@);
            }
        }
        assert(article_insert_pos(t, x@) == k);
        let d = x.duplicate();
        out.insert(k, d);
        assert(article_views(out@) =~= t.take(k as int) + seq![x@] + t.skip(k as int));
        i += 1;
    }
    assert(input.take(i as int) == input);
    out
}

/// What fetching one subscribed feed gave.
pub struct FeedFetchOutcome {
    pub url: String,
    pub articles: Vec<Article>,
    /// The name the feed is reported under when its fetch failed.
    pub error_name: Option<String>,
    pub success: bool,
}

/// What a fetch outcome holds, as plain values.
pub struct OutcomeView {
    pub url: Seq<char>,
    pub articles: Seq<ArticleView>,
    pub error_name: Option<Seq<char>>,
    pub success: bool,
}

impl View for FeedFetchOutcome {
    type V = OutcomeView;

    open spec fn view(&self) -> OutcomeView {
        OutcomeView {
            url: self.url@,
            articles: article_views(self.articles@),
            error_name: crate::feed::opt_view(self.error_name),
            success: self.success,
        }
    }
}

/// The outcome of fetching `feed`: its articles when the fetch gave some
/// (`fetched` is `Some`), else a failure reported under the feed's title,
/// or its address when it has none.
pub fn fetch_outcome(feed: &Feed, fetched: Option<Vec<Article>>) -> (r: FeedFetchOutcome)
    ensures
        r.url@ == feed.url@,
        match fetched {
            Some(a) => r@.articles == article_views(a@) && r.error_name is None && r.success,
            None => r@.articles.len() == 0 && r@.error_name == Some(
                crate::subscription::display_name(feed@),
            ) && !r.success,
        },
{
    match fetched {
        Some(articles) => FeedFetchOutcome {
            url: feed.url.clone(),
            articles,
            error_name: None,
            success: true,
        },
        None => {
            let name = match &feed.title {
                Some(t) => t.clone(),
                None => feed.url.clone(),
            };
            let r = FeedFetchOutcome {
                url: feed.url.clone(),
                articles: Vec::new(),
                error_name: Some(name),
                success: false,
            };
            assert(r@.articles =~= Seq::<ArticleView>::empty());
            r
        },
    }
}

/// All articles of the outcomes, in the order of the outcomes.
pub open spec fn all_articles(outs: Seq<OutcomeView>) -> Seq<ArticleView>
    decreases outs.len(),
{
    if outs.len() == 0 {
        Seq::empty()
    } else {
        all_articles(outs.drop_last()) + outs.last().articles
    }
}

/// The names of the feeds whose fetch failed, in the order of the outcomes.
pub open spec fn failed_names(outs: Seq<OutcomeView>) -> Seq<Seq<char>>
    decreases outs.len(),
{
    if outs.len() == 0 {
        Seq::empty()
    } else {
        failed_names(outs.drop_last()) + match outs.last().error_name {
            Some(n) => seq![n],
            None => Seq::empty(),
        }
    }
}

/// Each feed address with whether its fetch succeeded; for an address that
/// occurs twice the later outcome counts.
pub open spec fn status_map(outs: Seq<OutcomeView>) -> Map<Seq<char>, bool>
    decreases outs.len(),
{
    if outs.len() == 0 {
        Map::empty()
    } else {
        status_map(outs.drop_last()).insert(outs.last().url, outs.last().success)
    }
}

/// What fetching all subscribed feeds gave.
pub struct FetchResult {
    /// All articles, newest first.
    pub articles: Vec<Article>,
    /// The names of the feeds that could not be fetched.
    pub failed_feeds: Vec<String>,
    /// Whether each feed's fetch succeeded, by address.
    pub feed_status: FeedStatus,
}

/// What a fetch gave, as values.
pub struct FetchView {
    pub articles: Seq<ArticleView>,
    pub failed: Seq<Seq<char>>,
    pub status: Map<Seq<char>, bool>,
}

impl View for FetchResult {
    type V = FetchView;

    open spec fn view(&self) -> FetchView {
        FetchView {
            articles: article_views(self.articles@),
            failed: string_views(self.failed_feeds@),
            status: self.feed_status.view_map(),
        }
    }
}

/// The message that reports failed fetches: none when all succeeded, the
/// feed's name when one failed, their number otherwise.
pub open spec fn failure_text(failed: Seq<Seq<char>>) -> Option<Seq<char>> {
    if failed.len() == 0 {
        None
    } else if failed.len() == 1 {
        Some("Failed: "@ + failed[0])
    } else {
        Some("Failed: "@ + decimal(failed.len()) + " feeds"@)
    }
}

impl FetchResult {
    /// The message that reports the feeds that could not be fetched.
    pub fn failure_message(&self) -> (r: Option<String>)
        ensures
            crate::feed::opt_view(r) == failure_text(string_views(self.failed_feeds@)),
    {
        let n = self.failed_feeds.len();
        if n == 0 {
            return None;
        }
        let mut out: Vec<char> = Vec::new();
        append_chars(&mut out, &chars_of("Failed: "));
        if n == 1 {
            append_chars(&mut out, &chars_of(self.failed_feeds[0].as_str()));
        } else {
            push_decimal(&mut out, n as u64);
            append_chars(&mut out, &chars_of(" feeds"));
        }
        Some(string_of(&out))
    }

    /// The fetch, unless it gave neither articles nor failures.
    pub fn into_news(self) -> (r: Option<FetchResult>)
        ensures
            r is Some <==> (self.articles@.len() > 0 || self.failed_feeds@.len() > 0),
            r matches Some(n) ==> n@ == self@,
    {
        if self.has_news() {
            Some(self)
        } else {
            None
        }
    }

    /// A fetch that gave neither articles nor failures has nothing to show.
    pub fn has_news(&self) -> (r: bool)
        ensures
            r == (self.articles@.len() > 0 || self.failed_feeds@.len() > 0),
    {
        self.articles.len() > 0 || self.failed_feeds.len() > 0
    }
}

/// Gathers the outcomes of fetching each feed: all their articles newest
/// first, the names of the failed feeds, and each feed's status.
pub fn combine_outcomes(outcomes: Vec<FeedFetchOutcome>) -> (r: FetchResult)
    ensures
        article_views(r.articles@) == newest_first(
            all_articles(outcomes@.map_values(|o: FeedFetchOutcome| o@)),
        ),
        string_views(r.failed_feeds@) == failed_names(
            outcomes@.map_values(|o: FeedFetchOutcome| o@),
        ),
        r.feed_status.view_map() == status_map(outcomes@.map_values(|o: FeedFetchOutcome| o@)),
{
    let ghost outs = outcomes@.map_values(|o: FeedFetchOutcome| o@);
    let mut all: Vec<Article> = Vec::new();
    let mut failed: Vec<String> = Vec::new();
    let mut status = FeedStatus::new();
    let mut i: usize = 0;
    assert(outs.take(0) =~= Seq::<OutcomeView>::empty());
    assert(article_views(all@) =~= Seq::<ArticleView>::empty());
    assert(string_views(failed@) =~= Seq::<Seq<char>>::empty());
    assert(status_map(outs.take(0)) =~= Map::<Seq<char>, bool>::empty());
    while i < outcomes.len()
        invariant
            i <= outcomes.len(),
            outs == outcomes@.map_values(|o: FeedFetchOutcome| o@),
            article_views(all@) == all_articles(outs.take(i as int)),
            string_views(failed@) == failed_names(outs.take(i as int)),
            status.view_map() == status_map(outs.take(i as int)),
        decreases outcomes.len() - i,
    {
        let o = &outcomes[i];
        assert(outs[i as int] == o@);
        assert(outs.take(i + 1).drop_last() == outs.take(i as int));
        assert(outs.take(i + 1).last() == o@);
        let ghost before = article_views(all@);
        let mut k: usize = 0;
        while k < o.articles.len()
            invariant
                k <= o.articles.len(),
                article_views(all@) == before + article_views(o.articles@).take(k as int),
            decreases o.articles.len() - k,
        {
            let ghost prev = all@;
            let d = o.articles[k].duplicate();
            all.push(d);
            assert(article_views(all@) =~= article_views(prev).push(o.articles@[k as int]@));
            assert(article_views(o.articles@).take(k + 1) =~= article_views(o.articles@).take(
                k as int,
            ).push(o.articles@[k as int]@));
            k += 1;
        }
        assert(article_views(o.articles@).take(k as int) == o@.articles);
        if let Some(name) = &o.error_name {
            let ghost prev = failed@;
            failed.push(name.clone());
            assert(string_views(failed@) =~= string_views(prev).push(name@));
        } else {
            assert(failed_names(outs.take(i + 1)) =~= failed_names(outs.take(i as int)));
        }
        status.insert(o.url.as_str(), o.success);
        i += 1;
    }
    assert(outs.take(i as int) == outs);
    let articles = sort_newest_first(all);
    FetchResult { articles, failed_feeds: failed, feed_status: status }
}

/// No article of `a` comes before a newer one.
pub open spec fn is_newest_first(a: Seq<ArticleView>) -> bool {
    forall|i: int, j: int|
        0 <= i < j < a.len() ==> published_le(#[trigger] a[j].published, #[trigger] a[i].published)
}

proof fn lemma_published_total(a: Option<crate::feed::Timestamp>, b: Option<crate::feed::Timestamp>)
    ensures
        published_le(a, b) || published_le(b, a),
{
}

proof fn lemma_published_trans(
    a: Option<crate::feed::Timestamp>,
    b: Option<crate::feed::Timestamp>,
    c: Option<crate::feed::Timestamp>,
)
    requires
        published_le(a, b),
        published_le(b, c),
    ensures
        published_le(a, c),
{
}

proof fn lemma_article_insert_pos(t: Seq<ArticleView>, x: ArticleView)
    requires
        is_newest_first(t),
    ensures
        0 <= article_insert_pos(t, x) <= t.len(),
        forall|i: int|
            0 <= i < article_insert_pos(t, x) ==> published_le(x.published, #[trigger] t[i].published),
        forall|i: int|
            article_insert_pos(t, x) <= i < t.len() ==> !published_le(x.published, #[trigger] t[i].published),
    decreases t.len(),
{
    if t.len() > 0 {
        let r = t.drop_first();
        assert(is_newest_first(r)) by {
            assert forall|i: int, j: int| 0 <= i < j < r.len() implies published_le(
                #[trigger] r[j].published,
                #[trigger] r[i].published,
            ) by {
                assert(r[i] == t[i + 1] && r[j] == t[j + 1]);
            }
        }
        lemma_article_insert_pos(r, x);
        if published_le(x.published, t[0].published) {
            assert forall|i: int| 0 <= i < article_insert_pos(t, x) implies published_le(
                x.published,
                #[trigger] t[i].published,
            ) by {
                if i > 0 {
                    assert(t[i] == r[i - 1]);
                }
            }
            assert forall|i: int| article_insert_pos(t, x) <= i < t.len() implies !published_le(
                x.published,
                #[trigger] t[i].published,
            ) by {
                assert(t[i] == r[i - 1]);
            }
        } else {
            assert forall|i: int| 0 <= i < t.len() implies !published_le(
                x.published,
                #[trigger] t[i].published,
            ) by {
                if i > 0 && published_le(x.published, t[i].published) {
                    assert(published_le(t[i].published, t[0].published));
                    lemma_published_trans(x.published, t[i].published, t[0].published);
                }
            }
        }
    }
}

/// Sorting newest first gives the same articles, each as often as before,
/// with no article before a newer one.
pub proof fn law_newest_first(a: Seq<ArticleView>)
    ensures
        is_newest_first(newest_first(a)),
        newest_first(a).to_multiset() == a.to_multiset(),
        newest_first(a).len() == a.len(),
    decreases a.len(),
{
    broadcast use vstd::seq_lib::group_to_multiset_ensures;

    if a.len() > 0 {
        let d = a.drop_last();
        let x = a.last();
        law_newest_first(d);
        let t = newest_first(d);
        lemma_article_insert_pos(t, x);
        let k = article_insert_pos(t, x);
        let r = newest_first(a);
        assert(r == t.take(k) + seq![x] + t.skip(k));
        assert(r =~= t.insert(k, x));
        assert(d.push(x) =~= a);
        assert(r.to_multiset() == t.to_multiset().insert(x));
        assert forall|i: int, j: int| 0 <= i < j < r.len() implies published_le(
            #[trigger] r[j].published,
            #[trigger] r[i].published,
        ) by {
            if j < k {
                assert(r[i] == t[i] && r[j] == t[j]);
            } else if j == k {
                assert(r[i] == t[i] && r[j] == x);
            } else if i < k {
                assert(r[i] == t[i] && r[j] == t[j - 1]);
            } else if i == k {
                assert(r[i] == x && r[j] == t[j - 1]);
                lemma_published_total(x.published, t[j - 1].published);
            } else {
                assert(r[i] == t[i - 1] && r[j] == t[j - 1]);
            }
        }
    }
}

/// Reading a feed's status gives what was last recorded for it; recording
/// one feed's status leaves every other feed's as it was.
pub proof fn law_status_read_after_write(m: Map<Seq<char>, bool>, url: Seq<char>, ok: bool, other: Seq<char>)
    ensures
        m.insert(url, ok).contains_key(url),
        m.insert(url, ok)[url] == ok,
        other != url ==> (m.insert(url, ok).contains_key(other) == m.contains_key(other)),
        other != url && m.contains_key(other) ==> m.insert(url, ok)[other] == m[other],
{
}

/// Filtering a one-element sequence keeps the element or drops it.
pub proof fn lemma_filter_single<A>(x: A, q: spec_fn(A) -> bool)
    ensures
        seq![x].filter(q) == if q(x) {
            seq![x]
        } else {
            Seq::<A>::empty()
        },
{
    reveal(Seq::filter);
    assert(seq![x].drop_last() =~= Seq::<A>::empty());
    assert(Seq::<A>::empty().filter(q) =~= Seq::<A>::empty());
    assert(Seq::<A>::empty().push(x) =~= seq![x]);
}

/// A filter that no element passes gives nothing.
pub proof fn lemma_filter_none<A>(s: Seq<A>, q: spec_fn(A) -> bool)
    requires
        forall|i: int| 0 <= i < s.len() ==> !q(#[trigger] s[i]),
    ensures
        s.filter(q) == Seq::<A>::empty(),
{
    let f = s.filter(q);
    if f.len() > 0 {
        s.lemma_filter_pred(q, 0);
        assert(f.contains(f[0]));
        s.lemma_filter_contains_rev(q, f[0]);
    }
    assert(f =~= Seq::<A>::empty());
}

/// Sorting newest first is stable: the articles published at any one time
/// (or the undated ones) come out in the order they came in.
pub proof fn law_newest_first_stable(a: Seq<ArticleView>, p: Option<crate::feed::Timestamp>)
    ensures
        newest_first(a).filter(|x: ArticleView| x.published == p) == a.filter(
            |x: ArticleView| x.published == p,
        ),
    decreases a.len(),
{
    let q = |x: ArticleView| x.published == p;
    if a.len() > 0 {
        let d = a.drop_last();
        let x = a.last();
        law_newest_first(d);
        law_newest_first_stable(d, p);
        let t = newest_first(d);
        lemma_article_insert_pos(t, x);
        let k = article_insert_pos(t, x);
        let lo = t.take(k);
        let hi = t.skip(k);
        assert(newest_first(a) == lo + seq![x] + hi);
        Seq::filter_distributes_over_add(lo + seq![x], hi, q);
        Seq::filter_distributes_over_add(lo, seq![x], q);
        Seq::filter_distributes_over_add(lo, hi, q);
        assert(lo + hi =~= t);
        lemma_filter_single(x, q);
        reveal(Seq::filter);
        assert(d.push(x) =~= a);
        assert(a.filter(q) == if q(x) {
            d.filter(q).push(x)
        } else {
            d.filter(q)
        });
        if q(x) {
            assert forall|i: int| 0 <= i < hi.len() implies !q(#[trigger] hi[i]) by {
                assert(hi[i] == t[k + i]);
                assert(!published_le(x.published, t[k + i].published));
            }
            lemma_filter_none(hi, q);
            assert(lo.filter(q) + seq![x] + Seq::<ArticleView>::empty() =~= (lo.filter(q)
                + Seq::<ArticleView>::empty()).push(x));
            assert(lo.filter(q) + Seq::<ArticleView>::empty() =~= lo.filter(q));
        } else {
            assert(lo.filter(q) + Seq::<ArticleView>::empty() =~= lo.filter(q));
        }
    } else {
        reveal(Seq::filter);
    }
}

/// After fetching all feeds, each feed's status is that of its last fetch,
/// and only the fetched addresses have a status.
pub proof fn law_status_of_each_feed(outs: Seq<OutcomeView>)
    ensures
        forall|u: Seq<char>|
            #[trigger] status_map(outs).contains_key(u) <==> exists|i: int|
                0 <= i < outs.len() && outs[i].url == u,
        forall|i: int|
            0 <= i < outs.len() && (forall|j: int| i < j < outs.len() ==> outs[j].url != outs[i].url)
                ==> #[trigger] status_map(outs)[outs[i].url] == outs[i].success,
    decreases outs.len(),
{
    if outs.len() > 0 {
        let d = outs.drop_last();
        law_status_of_each_feed(d);
        let x = outs.last();
        assert(status_map(outs) == status_map(d).insert(x.url, x.success));
        assert forall|u: Seq<char>| #[trigger] status_map(outs).contains_key(u) <==> exists|i: int|
            0 <= i < outs.len() && outs[i].url == u by {
            if status_map(outs).contains_key(u) {
                if u == x.url {
                    assert(outs[outs.len() - 1].url == u);
                } else {
                    assert(status_map(d).contains_key(u));
                    let i = choose|i: int| 0 <= i < d.len() && d[i].url == u;
                    assert(outs[i] == d[i]);
                }
            }
            if exists|i: int| 0 <= i < outs.len() && outs[i].url == u {
                let i = choose|i: int| 0 <= i < outs.len() && outs[i].url == u;
                if i < d.len() {
                    assert(outs[i] == d[i]);
                }
            }
        }
        assert forall|i: int|
            0 <= i < outs.len() && (forall|j: int| i < j < outs.len() ==> outs[j].url != outs[i].url)
                implies #[trigger] status_map(outs)[outs[i].url] == outs[i].success by {
            if i < d.len() {
                assert(outs[i] == d[i]);
                assert(outs[outs.len() - 1].url != outs[i].url);
                assert forall|j: int| i < j < d.len() implies d[j].url != d[i].url by {
                    assert(d[j] == outs[j]);
                }
            }
        }
    }
}

} // verus!
