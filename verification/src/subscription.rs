use vstd::prelude::*;
use crate::feed::opt_view;
use crate::text::{chars_equal, chars_of};

verus! {

/// A subscribed feed: its address and, when known, its title.
#[derive(Debug, Clone, PartialEq)]
pub struct Feed {
    pub url: String,
    pub title: Option<String>,
}

impl Feed {
    /// A copy of the subscription.
    pub fn duplicate(&self) -> (r: Feed)
        ensures
            r@ == self@,
    {
        Feed {
            url: self.url.clone(),
            title: match &self.title {
                Some(t) => Some(t.clone()),
                None => None,
            },
        }
    }
}

/// What a subscription holds, as plain values.
pub struct FeedView {
    pub url: Seq<char>,
    pub title: Option<Seq<char>>,
}

impl View for Feed {
    type V = FeedView;

    open spec fn view(&self) -> FeedView {
        FeedView { url: self.url@, title: opt_view(self.title) }
    }
}

/// The views of a sequence of feeds.
pub open spec fn feed_views(v: Seq<Feed>) -> Seq<FeedView> {
    v.map_values(|f: Feed| f@)
}

/// Some feed of `feeds` has the address `url`.
pub open spec fn has_url(feeds: Seq<FeedView>, url: Seq<char>) -> bool {
    exists|i: int| 0 <= i < feeds.len() && #[trigger] feeds[i].url == url
}

/// No two feeds of `feeds` share an address.
pub open spec fn distinct_urls(feeds: Seq<FeedView>) -> bool {
    forall|i: int, j: int|
        0 <= i < feeds.len() && 0 <= j < feeds.len() && i != j ==> #[trigger] feeds[i].url
            != #[trigger] feeds[j].url
}

/// `feeds` without the feeds whose address is `url`, in order.
pub open spec fn without_url(feeds: Seq<FeedView>, url: Seq<char>) -> Seq<FeedView> {
    feeds.filter(|f: FeedView| f.url != url)
}

/// The name a feed is shown and sorted by: its title, else its address.
pub open spec fn display_name(f: FeedView) -> Seq<char> {
    match f.title {
        Some(t) => t,
        None => f.url,
    }
}

/// `a` comes no later than `b` in the order of `str`: code point by code
/// point, a prefix first.
pub open spec fn text_le(a: Seq<char>, b: Seq<char>) -> bool
    decreases a.len(),
{
    if a.len() == 0 {
        true
    } else if b.len() == 0 {
        false
    } else if (a[0] as u32) < (b[0] as u32) {
        true
    } else if (a[0] as u32) > (b[0] as u32) {
        false
    } else {
        text_le(a.drop_first(), b.drop_first())
    }
}

/// Where `x` goes in the sorted `t`: after every feed whose name does not
/// come after its own.
pub open spec fn feed_insert_pos(t: Seq<FeedView>, x: FeedView) -> int
    decreases t.len(),
{
    if t.len() == 0 {
        0
    } else if text_le(display_name(t[0]), display_name(x)) {
        1 + feed_insert_pos(t.drop_first(), x)
    } else {
        0
    }
}

/// `feeds` sorted by name, feeds with equal names kept in their order
/// (a stable sort, as `slice::sort_by` performs).
pub open spec fn sorted_by_name(feeds: Seq<FeedView>) -> Seq<FeedView>
    decreases feeds.len(),
{
    if feeds.len() == 0 {
        feeds
    } else {
        let t = sorted_by_name(feeds.drop_last());
        let k = feed_insert_pos(t, feeds.last());
        t.take(k) + seq![feeds.last()] + t.skip(k)
    }
}

/// Why a subscription could not be added.
#[derive(Debug, Clone, PartialEq, Eq)]
pub enum SubscriptionError {
    /// A feed with this address is already subscribed.
    AlreadySubscribed(String),
}

impl SubscriptionError {
    /// The message that reports the error.
    pub fn message(&self) -> (r: String)
        ensures
            match self {
                SubscriptionError::AlreadySubscribed(u) => r@ == "Already subscribed: "@ + u@,
            },
    {
        match self {
            SubscriptionError::AlreadySubscribed(u) => {
                let mut out = chars_of("Already subscribed: ");
                crate::text::append_chars(&mut out, &chars_of(u.as_str()));
                crate::text::string_of(&out)
            },
        }
    }
}

/// The subscriptions after importing `new` into `feeds` in order, each feed
/// whose address is not yet subscribed added at the end, and how many were
/// added.
pub open spec fn imported(feeds: Seq<FeedView>, new: Seq<FeedView>) -> (Seq<FeedView>, nat)
    decreases new.len(),
{
    if new.len() == 0 {
        (feeds, 0)
    } else {
        let (f, n) = imported(feeds, new.drop_last());
        if has_url(f, new.last().url) {
            (f, n)
        } else {
            (f.push(new.last()), n + 1)
        }
    }
}

/// The list of subscribed feeds, and the file it is kept in.
pub struct SubscriptionManager {
    feeds: Vec<Feed>,
    config_path: String,
}

impl SubscriptionManager {
    /// The subscribed feeds, in order.
    pub closed spec fn feeds_view(&self) -> Seq<FeedView> {
        feed_views(self.feeds@)
    }

    /// The file the subscriptions are kept in.
    pub closed spec fn path_view(&self) -> Seq<char> {
        self.config_path@
    }

    /// An empty list, kept in `config_path` (what a missing file holds).
    pub fn new(config_path: &str) -> (r: SubscriptionManager)
        ensures
            r.feeds_view() == Seq::<FeedView>::empty(),
            r.path_view() == config_path@,
    {
        let r = SubscriptionManager { feeds: Vec::new(), config_path: crate::text::string_of(&chars_of(config_path)) };
        assert(feed_views(r.feeds@) =~= Seq::<FeedView>::empty());
        r
    }

    /// The list that a file kept in `config_path` holds.
    pub fn with_feeds(config_path: &str, feeds: Vec<Feed>) -> (r: SubscriptionManager)
        ensures
            r.feeds_view() == feed_views(feeds@),
            r.path_view() == config_path@,
    {
        SubscriptionManager { feeds, config_path: crate::text::string_of(&chars_of(config_path)) }
    }

    /// The file the subscriptions are kept in.
    pub fn config_path(&self) -> (r: &str)
        ensures
            r@ == self.path_view(),
    {
        self.config_path.as_str()
    }

    /// The subscribed feeds, in order.
    pub fn list(&self) -> (r: &[Feed])
        ensures
            feed_views(r@) == self.feeds_view(),
    {
        self.feeds.as_slice()
    }

    /// Tells whether a feed with address `url` is subscribed.
    pub fn contains(&self, url: &str) -> (r: bool)
        ensures
            r == has_url(self.feeds_view(), url@),
    {
        let u = chars_of(url);
        let mut i: usize = 0;
        while i < self.feeds.len()
            invariant
                i <= self.feeds.len(),
                u@ == url@,
                forall|k: int| 0 <= k < i ==> #[trigger] self.feeds@[k].url@ != url@,
            decreases self.feeds.len() - i,
        {
            if chars_equal(&chars_of(self.feeds[i].url.as_str()), &u) {
                assert(self.feeds_view()[i as int].url == url@);
                return true;
            }
            i += 1;
        }
        assert forall|k: int| 0 <= k < self.feeds_view().len() implies #[trigger] self.feeds_view()[k].url
            != url@ by {
            assert(self.feeds_view()[k] == self.feeds@[k]@);
        }
        false
    }

    /// Subscribes to `url` under `title`; a feed already subscribed under that
    /// address is refused and the list stays as it was.
    pub fn add_with_title(&mut self, url: &str, title: Option<String>) -> (r: Result<
        (),
        SubscriptionError,
    >)
        ensures
            final(self).path_view() == old(self).path_view(),
            has_url(old(self).feeds_view(), url@) ==> (r matches Err(
                SubscriptionError::AlreadySubscribed(u),
            ) && u@ == url@ && final(self).feeds_view() == old(self).feeds_view()),
            !has_url(old(self).feeds_view(), url@) ==> r is Ok && final(self).feeds_view()
                == old(self).feeds_view().push(FeedView { url: url@, title: opt_view(title) }),
    {
        if self.contains(url) {
            return Err(SubscriptionError::AlreadySubscribed(crate::text::string_of(&chars_of(url))));
        }
        let f = Feed { url: crate::text::string_of(&chars_of(url)), title };
        let ghost old_feeds = self.feeds@;
        self.feeds.push(f);
        assert(feed_views(self.feeds@) =~= feed_views(old_feeds).push(f@));
        Ok(())
    }

    /// Subscribes to `url`, with no title; a feed already subscribed under that
    /// address is refused and the list stays as it was.
    pub fn add(&mut self, url: &str) -> (r: Result<(), SubscriptionError>)
        ensures
            final(self).path_view() == old(self).path_view(),
            has_url(old(self).feeds_view(), url@) ==> (r matches Err(
                SubscriptionError::AlreadySubscribed(u),
            ) && u@ == url@ && final(self).feeds_view() == old(self).feeds_view()),
            !has_url(old(self).feeds_view(), url@) ==> r is Ok && final(self).feeds_view()
                == old(self).feeds_view().push(FeedView { url: url@, title: None }),
    {
        self.add_with_title(url, None)
    }

    /// Unsubscribes from `url`; tells whether a feed with that address was
    /// subscribed.
    pub fn delete(&mut self, url: &str) -> (r: bool)
        ensures
            r == has_url(old(self).feeds_view(), url@),
            final(self).feeds_view() == without_url(old(self).feeds_view(), url@),
            final(self).path_view() == old(self).path_view(),
    {
        let u = chars_of(url);
        let ghost old_view = self.feeds_view();
        let mut kept: Vec<Feed> = Vec::new();
        let mut found = false;
        let mut i: usize = 0;
        let mut old_feeds: Vec<Feed> = Vec::new();
        std::mem::swap(&mut old_feeds, &mut self.feeds);
        assert(feed_views(old_feeds@) == old_view);
        assert(old_view.take(0).filter(|f: FeedView| f.url != url@) =~= Seq::<FeedView>::empty()) by {
            reveal(Seq::filter);
        }
        assert(feed_views(kept@) =~= Seq::<FeedView>::empty());
        while i < old_feeds.len()
            invariant
                i <= old_feeds.len(),
                u@ == url@,
                old_view == feed_views(old_feeds@),
                feed_views(kept@) == old_view.take(i as int).filter(|f: FeedView| f.url != url@),
                found == exists|k: int| 0 <= k < i && #[trigger] old_view[k].url == url@,
            decreases old_feeds.len() - i,
        {
            let f = &old_feeds[i];
            assert(old_view[i as int] == f@);
            assert(old_view.take(i + 1).drop_last() == old_view.take(i as int));
            let same = chars_equal(&chars_of(f.url.as_str()), &u);
            let ghost before = kept@;
            if same {
                found = true;
            } else {
                let d = f.duplicate();
                kept.push(d);
                assert(feed_views(kept@) =~= feed_views(before).push(f@));
            }
            proof {
                old_view.take(i as int).lemma_filter_push(old_view[i as int], |f: FeedView| f.url != url@);
                assert(old_view.take(i as int).push(old_view[i as int]) == old_view.take(i + 1));
            }
            i += 1;
        }
        assert(old_view.take(i as int) == old_view);
        self.feeds = kept;
        found
    }

    /// Subscribes to each of `feeds` in order, under its title, skipping those
    /// already subscribed; tells how many were added.
    pub fn import_feeds(&mut self, feeds: Vec<Feed>) -> (count: usize)
        ensures
            (final(self).feeds_view(), count as nat) == imported(old(self).feeds_view(), feed_views(feeds@)),
            final(self).path_view() == old(self).path_view(),
    {
        let ghost new = feed_views(feeds@);
        let mut count: usize = 0;
        let mut i: usize = 0;
        assert(new.take(0) =~= Seq::<FeedView>::empty());
        while i < feeds.len()
            invariant
                i <= feeds.len(),
                count <= i,
                new == feed_views(feeds@),
                (self.feeds_view(), count as nat) == imported(old(self).feeds_view(), new.take(i as int)),
                self.path_view() == old(self).path_view(),
            decreases feeds.len() - i,
        {
            let f = &feeds[i];
            assert(new.take(i + 1).drop_last() == new.take(i as int));
            assert(new.take(i + 1).last() == f@);
            let title = match &f.title {
                Some(t) => Some(t.clone()),
                None => None,
            };
            assert(opt_view(title) == f@.title);
            let r = self.add_with_title(f.url.as_str(), title);
            if r.is_ok() {
                count += 1;
            }
            i += 1;
        }
        assert(new.take(i as int) == new);
        count
    }

    /// Sorts the feeds by name (title, else address), keeping feeds with equal
    /// names in their order.
    pub fn sort(&mut self)
        ensures
            final(self).feeds_view() == sorted_by_name(old(self).feeds_view()),
            final(self).path_view() == old(self).path_view(),
    {
        let mut old_feeds: Vec<Feed> = Vec::new();
        std::mem::swap(&mut old_feeds, &mut self.feeds);
        self.feeds = sort_feeds_by_name(old_feeds);
    }
}

fn name_chars(f: &Feed) -> (r: Vec<char>)
    ensures
        r@ == display_name(f@),
{
    match &f.title {
        Some(t) => chars_of(t.as_str()),
        None => chars_of(f.url.as_str()),
    }
}

fn text_at_most(a: &[char], b: &[char]) -> (r: bool)
    ensures
        r == text_le(a@, b@),
{
    let mut i: usize = 0;
    assert(a@.skip(0) == a@ && b@.skip(0) == b@);
    while i < a.len() && i < b.len()
        invariant
            i <= a.len(),
            i <= b.len(),
            text_le(a@, b@) == text_le(a@.skip(i as int), b@.skip(i as int)),
        decreases a.len() - i,
    {
        let ghost sa = a@.skip(i as int);
        let ghost sb = b@.skip(i as int);
        assert(sa[0] == a@[i as int] && sb[0] == b@[i as int]);
        if (a[i] as u32) < (b[i] as u32) {
            return true;
        }
        if (a[i] as u32) > (b[i] as u32) {
            return false;
        }
        assert(sa.drop_first() == a@.skip(i + 1));
        assert(sb.drop_first() == b@.skip(i + 1));
        i += 1;
    }
    i == a.len()
}

fn sort_feeds_by_name(feeds: Vec<Feed>) -> (r: Vec<Feed>)
    ensures
        feed_views(r@) == sorted_by_name(feed_views(feeds@)),
{
    let ghost input = feed_views(feeds@);
    let mut out: Vec<Feed> = Vec::new();
    let mut i: usize = 0;
    assert(input.take(0) =~= Seq::<FeedView>::empty());
    assert(feed_views(out@) =~= Seq::<FeedView>::empty());
    while i < feeds.len()
        invariant
            i <= feeds.len(),
            input == feed_views(feeds@),
            feed_views(out@) == sorted_by_name(input.take(i as int)),
        decreases feeds.len() - i,
    {
        let x = &feeds[i];
        assert(input[i as int] == x@);
        assert(input.take(i + 1).drop_last() == input.take(i as int));
        assert(input.take(i + 1).last() == x@);
        let xn = name_chars(x);
        let ghost t = feed_views(out@);
        let mut k: usize = 0;
        assert(t.skip(0) == t);
        while k < out.len() && text_at_most(&name_chars(&out[k]), &xn)
            invariant
                k <= out.len(),
                t == feed_views(out@),
                xn@ == display_name(x@),
                feed_insert_pos(t, x@) == k + feed_insert_pos(t.skip(k as int), x@),
            decreases out.len() - k,
        {
            let ghost rest = t.skip(k as int);
            assert(rest[0] == out@[k as int]@);
            assert(rest.drop_first() == t.skip(k + 1));
            k += 1;
        }
        proof {
            if k < out.len() {
                let rest = t.skip(k as int);
                assert(rest[0] == out@[k as int]@);
            }
        }
        assert(feed_insert_pos(t, x@) == k);
        let ghost before = out@;
        let d = x.duplicate();
        out.insert(k, d);
        assert(feed_views(out@) =~= t.take(k as int) + seq![x@] + t.skip(k as int));
        i += 1;
    }
    assert(input.take(i as int) == input);
    out
}

/// A subscription, once added, is listed under its address, so adding the
/// same address again is refused; adding keeps the addresses distinct.
pub proof fn law_added_is_listed(feeds: Seq<FeedView>, f: FeedView)
    requires
        !has_url(feeds, f.url),
    ensures
        has_url(feeds.push(f), f.url),
        distinct_urls(feeds) ==> distinct_urls(feeds.push(f)),
        forall|u: Seq<char>| has_url(feeds, u) ==> has_url(feeds.push(f), u),
{
    let g = feeds.push(f);
    assert(g[feeds.len() as int].url == f.url);
    assert forall|u: Seq<char>| has_url(feeds, u) implies has_url(g, u) by {
        let i = choose|i: int| 0 <= i < feeds.len() && #[trigger] feeds[i].url == u;
        assert(g[i] == feeds[i]);
    }
    if distinct_urls(feeds) {
        assert forall|i: int, j: int|
            0 <= i < g.len() && 0 <= j < g.len() && i != j implies #[trigger] g[i].url != #[trigger] g[j].url by {
            if i == feeds.len() {
                assert(g[j] == feeds[j]);
            } else if j == feeds.len() {
                assert(g[i] == feeds[i]);
            } else {
                assert(g[i] == feeds[i] && g[j] == feeds[j]);
            }
        }
    }
}

/// Deleting an address leaves no feed under it and every other feed in
/// place; deleting a feed just added gives back the list from before.
pub proof fn law_delete_removes(feeds: Seq<FeedView>, url: Seq<char>, f: FeedView)
    ensures
        !has_url(without_url(feeds, url), url),
        forall|u: Seq<char>| u != url ==> (has_url(without_url(feeds, url), u) <==> has_url(feeds, u)),
        !has_url(feeds, f.url) ==> without_url(feeds.push(f), f.url) == feeds,
        !has_url(feeds, url) ==> without_url(feeds, url) == feeds,
{
    let p = |g: FeedView| g.url != url;
    let w = feeds.filter(p);
    if has_url(w, url) {
        let i = choose|i: int| 0 <= i < w.len() && #[trigger] w[i].url == url;
        feeds.lemma_filter_pred(p, i);
        assert(p(w[i]));
    }
    assert forall|u: Seq<char>| u != url implies (has_url(w, u) <==> has_url(feeds, u)) by {
        if has_url(w, u) {
            let i = choose|i: int| 0 <= i < w.len() && #[trigger] w[i].url == u;
            assert(w.contains(w[i]));
            feeds.lemma_filter_contains_rev(p, w[i]);
            assert(feeds.contains(w[i]));
            let j = choose|j: int| 0 <= j < feeds.len() && feeds[j] == w[i];
            assert(feeds[j].url == u);
        }
        if has_url(feeds, u) {
            let j = choose|j: int| 0 <= j < feeds.len() && #[trigger] feeds[j].url == u;
            feeds.lemma_filter_contains(p, j);
            let i = choose|i: int| 0 <= i < w.len() && w[i] == feeds[j];
            assert(w[i].url == u);
        }
    }
    lemma_without_absent(feeds, url);
    if !has_url(feeds, f.url) {
        let q = |g: FeedView| g.url != f.url;
        reveal(Seq::filter);
        assert(feeds.push(f).drop_last() =~= feeds);
        assert(feeds.push(f).filter(q) == feeds.filter(q));
        lemma_without_absent(feeds, f.url);
    }
}

proof fn lemma_without_absent(feeds: Seq<FeedView>, url: Seq<char>)
    ensures
        !has_url(feeds, url) ==> without_url(feeds, url) == feeds,
    decreases feeds.len(),
{
    if !has_url(feeds, url) && feeds.len() > 0 {
        let d = feeds.drop_last();
        assert(!has_url(d, url)) by {
            if has_url(d, url) {
                let i = choose|i: int| 0 <= i < d.len() && #[trigger] d[i].url == url;
                assert(feeds[i] == d[i]);
            }
        }
        lemma_without_absent(d, url);
        reveal(Seq::filter);
        assert(feeds.last().url != url) by {
            assert(feeds[feeds.len() - 1].url == feeds.last().url);
        }
        assert(d.push(feeds.last()) =~= feeds);
    } else if feeds.len() == 0 {
        reveal(Seq::filter);
    }
}

/// Importing keeps the addresses distinct, and lists every imported
/// address.
pub proof fn law_import_distinct(feeds: Seq<FeedView>, new: Seq<FeedView>)
    requires
        distinct_urls(feeds),
    ensures
        distinct_urls(imported(feeds, new).0),
        forall|u: Seq<char>| has_url(feeds, u) ==> has_url(imported(feeds, new).0, u),
        forall|i: int| 0 <= i < new.len() ==> has_url(imported(feeds, new).0, #[trigger] new[i].url),
        imported(feeds, new).1 <= new.len(),
    decreases new.len(),
{
    if new.len() > 0 {
        let d = new.drop_last();
        law_import_distinct(feeds, d);
        let (f, n) = imported(feeds, d);
        let x = new.last();
        if !has_url(f, x.url) {
            law_added_is_listed(f, x);
        }
        assert forall|i: int| 0 <= i < new.len() implies has_url(imported(feeds, new).0, #[trigger] new[i].url) by {
            if i < new.len() - 1 {
                assert(new[i] == d[i]);
                if !has_url(f, x.url) {
                    law_added_is_listed(f, x);
                }
            }
        }
    }
}

/// No feed of `feeds` comes before one whose name comes earlier.
pub open spec fn is_sorted_by_name(feeds: Seq<FeedView>) -> bool {
    forall|i: int, j: int|
        0 <= i < j < feeds.len() ==> text_le(
            display_name(#[trigger] feeds[i]),
            display_name(#[trigger] feeds[j]),
        )
}

proof fn lemma_text_le_total(a: Seq<char>, b: Seq<char>)
    ensures
        text_le(a, b) || text_le(b, a),
    decreases a.len(),
{
    if a.len() > 0 && b.len() > 0 && a[0] as u32 == b[0] as u32 {
        lemma_text_le_total(a.drop_first(), b.drop_first());
    }
}

proof fn lemma_text_le_trans(a: Seq<char>, b: Seq<char>, c: Seq<char>)
    requires
        text_le(a, b),
        text_le(b, c),
    ensures
        text_le(a, c),
    decreases a.len(),
{
    if a.len() > 0 && b.len() > 0 && c.len() > 0 && a[0] as u32 == b[0] as u32 && b[0] as u32
        == c[0] as u32 {
        lemma_text_le_trans(a.drop_first(), b.drop_first(), c.drop_first());
    }
}

proof fn lemma_feed_insert_pos(t: Seq<FeedView>, x: FeedView)
    requires
        is_sorted_by_name(t),
    ensures
        0 <= feed_insert_pos(t, x) <= t.len(),
        forall|i: int|
            0 <= i < feed_insert_pos(t, x) ==> text_le(display_name(#[trigger] t[i]), display_name(x)),
        forall|i: int|
            feed_insert_pos(t, x) <= i < t.len() ==> !text_le(display_name(#[trigger] t[i]), display_name(x)),
    decreases t.len(),
{
    if t.len() > 0 {
        let r = t.drop_first();
        assert(is_sorted_by_name(r)) by {
            assert forall|i: int, j: int| 0 <= i < j < r.len() implies text_le(
                display_name(#[trigger] r[i]),
                display_name(#[trigger] r[j]),
            ) by {
                assert(r[i] == t[i + 1] && r[j] == t[j + 1]);
            }
        }
        lemma_feed_insert_pos(r, x);
        if text_le(display_name(t[0]), display_name(x)) {
            assert forall|i: int| 0 <= i < feed_insert_pos(t, x) implies text_le(
                display_name(#[trigger] t[i]),
                display_name(x),
            ) by {
                if i > 0 {
                    assert(t[i] == r[i - 1]);
                }
            }
            assert forall|i: int| feed_insert_pos(t, x) <= i < t.len() implies !text_le(
                display_name(#[trigger] t[i]),
                display_name(x),
            ) by {
                assert(t[i] == r[i - 1]);
            }
        } else {
            assert forall|i: int| 0 <= i < t.len() implies !text_le(
                display_name(#[trigger] t[i]),
                display_name(x),
            ) by {
                if i > 0 && text_le(display_name(t[i]), display_name(x)) {
                    assert(text_le(display_name(t[0]), display_name(t[i])));
                    lemma_text_le_trans(display_name(t[0]), display_name(t[i]), display_name(x));
                }
            }
        }
    }
}

/// Sorting gives the same feeds, each as often as before, with no feed
/// before one whose name comes earlier.
pub proof fn law_sorted_by_name(feeds: Seq<FeedView>)
    ensures
        is_sorted_by_name(sorted_by_name(feeds)),
        sorted_by_name(feeds).to_multiset() == feeds.to_multiset(),
        sorted_by_name(feeds).len() == feeds.len(),
    decreases feeds.len(),
{
    broadcast use vstd::seq_lib::group_to_multiset_ensures;

    if feeds.len() > 0 {
        let d = feeds.drop_last();
        let x = feeds.last();
        law_sorted_by_name(d);
        let t = sorted_by_name(d);
        lemma_feed_insert_pos(t, x);
        let k = feed_insert_pos(t, x);
        let r = sorted_by_name(feeds);
        assert(r == t.take(k) + seq![x] + t.skip(k));
        assert(r =~= t.insert(k, x));
        assert(d.push(x) =~= feeds);
        assert(r.to_multiset() == t.to_multiset().insert(x));
        assert forall|i: int, j: int| 0 <= i < j < r.len() implies text_le(
            display_name(#[trigger] r[i]),
            display_name(#[trigger] r[j]),
        ) by {
            if j < k {
                assert(r[i] == t[i] && r[j] == t[j]);
            } else if j == k {
                assert(r[i] == t[i] && r[j] == x);
            } else if i < k {
                assert(r[i] == t[i] && r[j] == t[j - 1]);
            } else if i == k {
                assert(r[i] == x && r[j] == t[j - 1]);
                lemma_text_le_total(display_name(x), display_name(t[j - 1]));
            } else {
                assert(r[i] == t[i - 1] && r[j] == t[j - 1]);
            }
        }
    }
}

proof fn lemma_text_le_refl(a: Seq<char>)
    ensures
        text_le(a, a),
    decreases a.len(),
{
    if a.len() > 0 {
        lemma_text_le_refl(a.drop_first());
    }
}

/// Sorting by name is stable: the feeds of any one name come out in the
/// order they came in.
pub proof fn law_sorted_by_name_stable(feeds: Seq<FeedView>, name: Seq<char>)
    ensures
        sorted_by_name(feeds).filter(|f: FeedView| display_name(f) == name) == feeds.filter(
            |f: FeedView| display_name(f) == name,
        ),
    decreases feeds.len(),
{
    let q = |f: FeedView| display_name(f) == name;
    if feeds.len() > 0 {
        let d = feeds.drop_last();
        let x = feeds.last();
        law_sorted_by_name(d);
        law_sorted_by_name_stable(d, name);
        let t = sorted_by_name(d);
        lemma_feed_insert_pos(t, x);
        let k = feed_insert_pos(t, x);
        let lo = t.take(k);
        let hi = t.skip(k);
        assert(sorted_by_name(feeds) == lo + seq![x] + hi);
        Seq::filter_distributes_over_add(lo + seq![x], hi, q);
        Seq::filter_distributes_over_add(lo, seq![x], q);
        Seq::filter_distributes_over_add(lo, hi, q);
        assert(lo + hi =~= t);
        crate::service::lemma_filter_single(x, q);
        reveal(Seq::filter);
        assert(d.push(x) =~= feeds);
        assert(feeds.filter(q) == if q(x) {
            d.filter(q).push(x)
        } else {
            d.filter(q)
        });
        if q(x) {
            assert forall|i: int| 0 <= i < hi.len() implies !q(#[trigger] hi[i]) by {
                assert(hi[i] == t[k + i]);
                assert(!text_le(display_name(t[k + i]), display_name(x)));
                lemma_text_le_refl(display_name(x));
            }
            crate::service::lemma_filter_none(hi, q);
            assert(lo.filter(q) + seq![x] + Seq::<FeedView>::empty() =~= (lo.filter(q)
                + Seq::<FeedView>::empty()).push(x));
            assert(lo.filter(q) + Seq::<FeedView>::empty() =~= lo.filter(q));
        } else {
            assert(lo.filter(q) + Seq::<FeedView>::empty() =~= lo.filter(q));
        }
    } else {
        reveal(Seq::filter);
    }
}

} // verus!
