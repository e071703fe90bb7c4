use vstd::prelude::*;
use crate::app::App;
use crate::feed::{Article, ArticleView};
use crate::screen::{AppView, InputMode, elapsed, with_articles, with_status};
use crate::service::{FetchResult, FetchView, failure_text};
use crate::subscription::{Feed, FeedView, SubscriptionManager, feed_views, sorted_by_name};
use crate::text::{append_chars, chars_of, string_of};

verus! {

/// A refresh is due on the article list when the interval has passed or
/// one was asked for.
pub open spec fn is_refresh_due(v: AppView, now: u128) -> bool {
    v.input_mode == InputMode::Normal && (elapsed(now, v.last_refresh) >= v.refresh_interval
        || v.should_reload)
}

/// A refresh asked for by the user is announced.
pub open spec fn reloading(v: AppView, now: u128) -> AppView {
    if v.should_reload {
        with_status(v, "Reloading..."@, now)
    } else {
        v
    }
}

/// The screen after a fetch: the statuses are replaced, the articles too
/// unless the fetch gave none.
pub open spec fn after_fetch(v: AppView, f: FetchView, now: u128) -> AppView {
    let s = AppView { feed_status: f.status, ..v };
    if f.articles.len() > 0 {
        with_articles(s, f.articles, now)
    } else {
        s
    }
}

/// The screen after a refresh: failures are reported, and a refresh that
/// the user asked for says that it is done.
pub open spec fn after_refresh(v: AppView, f: FetchView, manual: bool, now: u128) -> AppView {
    let a = after_fetch(v, f, now);
    match failure_text(f.failed) {
        Some(m) => with_status(a, m, now),
        None => if manual {
            with_status(a, "Reloaded"@, now)
        } else {
            a
        },
    }
}

/// The screen after the subscriptions changed: the feed list is replaced and
/// the articles fetched again, where the fetch could be made.
pub open spec fn after_change(v: AppView, feeds: Seq<FeedView>, f: Option<FetchView>, now: u128) -> AppView {
    let s = AppView { feeds: feeds, ..v };
    match f {
        Some(f) => after_fetch(s, f, now),
        None => s,
    }
}

/// The screen after a feed was deleted: the selection stays on the list,
/// and the deletion is reported by the feed's name.
pub open spec fn after_delete(
    v: AppView,
    feeds: Seq<FeedView>,
    f: Option<FetchView>,
    name: Seq<char>,
    now: u128,
) -> AppView {
    let c = after_change(v, feeds, f, now);
    let k = if c.feeds.len() > 0 && c.feed_selected >= c.feeds.len() {
        AppView { feed_selected: (c.feeds.len() - 1) as usize, ..c }
    } else {
        c
    };
    with_status(k, "Deleted: "@ + name, now)
}

/// The screen after the feeds were sorted.
pub open spec fn after_sort(v: AppView, feeds: Seq<FeedView>, now: u128) -> AppView {
    with_status(AppView { feeds: feeds, feed_selected: 0, ..v }, "Sorted"@, now)
}

/// The screen after a feed was added: it is reported by its title, or by its
/// address where it has none.
pub open spec fn after_add(
    v: AppView,
    feeds: Seq<FeedView>,
    f: Option<FetchView>,
    title: Option<Seq<char>>,
    url: Seq<char>,
    now: u128,
) -> AppView {
    let name = match title {
        Some(t) => t,
        None => url,
    };
    with_status(after_change(v, feeds, f, now), "Added: "@ + name, now)
}

/// The title under which a newly added feed is listed: that of the first
/// article fetched from it, if any.
pub open spec fn first_title(fetched: Option<Seq<ArticleView>>) -> Option<Seq<char>> {
    match fetched {
        Some(a) => if a.len() > 0 {
            Some(a[0].feed_title)
        } else {
            None
        },
        None => None,
    }
}

/// The title under which a newly added feed is listed, from what fetching
/// it gave.
pub fn first_feed_title(fetched: &Option<Vec<Article>>) -> (r: Option<String>)
    ensures
        crate::feed::opt_view(r) == first_title(
            match fetched {
                Some(a) => Some(crate::feed::article_views(a@)),
                None => None,
            },
        ),
{
    match fetched {
        Some(a) => if a.len() > 0 {
            Some(a[0].feed_title.clone())
        } else {
            None
        },
        None => None,
    }
}

fn text_of(s: &str) -> (r: String)
    ensures
        r@ == s@,
{
    string_of(&chars_of(s))
}

fn prefixed(prefix: &str, s: &str) -> (r: String)
    ensures
        r@ == prefix@ + s@,
{
    let mut out = chars_of(prefix);
    append_chars(&mut out, &chars_of(s));
    string_of(&out)
}

impl App {
    /// After a subscription was added or deleted, sorts the subscriptions by
    /// name when the settings ask for it; tells whether it sorted them.
    pub fn sort_if_auto(&self, manager: &mut SubscriptionManager) -> (sorted: bool)
        ensures
            sorted == self.auto_sort,
            final(manager).feeds_view() == if self.auto_sort {
                sorted_by_name(old(manager).feeds_view())
            } else {
                old(manager).feeds_view()
            },
            final(manager).path_view() == old(manager).path_view(),
    {
        if self.auto_sort {
            manager.sort();
        }
        self.auto_sort
    }

    /// Whether the article list is to be refreshed at `now`.
    pub fn refresh_due(&self, now: u128) -> (r: bool)
        ensures
            r == is_refresh_due(self@, now),
    {
        self.input_mode == InputMode::Normal && (self.should_auto_refresh(now) || self.should_reload)
    }

    /// Starts a refresh; tells whether the user asked for it.
    pub fn begin_refresh(&mut self, now: u128) -> (manual: bool)
        ensures
            manual == old(self).should_reload,
            final(self)@ == reloading(old(self)@, now),
    {
        let manual = self.should_reload;
        if manual {
            proof {
                reveal_strlit("Reloading...");
            }
            self.set_status(text_of("Reloading..."), now);
        }
        manual
    }

    fn apply_fetch(&mut self, result: FetchResult, now: u128)
        ensures
            final(self)@ == after_fetch(old(self)@, result@, now),
    {
        let FetchResult { articles, failed_feeds: _, feed_status } = result;
        self.apply_feed_status(feed_status);
        if articles.len() > 0 {
            self.update_articles(articles, now);
        }
    }

    /// Takes in what a refresh fetched.
    pub fn finish_refresh(&mut self, result: FetchResult, manual: bool, now: u128)
        ensures
            final(self)@ == after_refresh(old(self)@, result@, manual, now),
    {
        let message = result.failure_message();
        self.apply_fetch(result, now);
        match message {
            Some(m) => self.set_status(m, now),
            None => if manual {
                self.set_status(text_of("Reloaded"), now);
            },
        }
    }

    /// Takes in the subscriptions after a change, and what fetching them
    /// gave, if the fetch could be made.
    pub fn refresh_after_change(&mut self, feeds: Vec<Feed>, result: Option<FetchResult>, now: u128)
        ensures
            final(self)@ == after_change(
                old(self)@,
                feed_views(feeds@),
                match result {
                    Some(r) => Some(r@),
                    None => None,
                },
                now,
            ),
    {
        self.feeds = feeds;
        if let Some(r) = result {
            self.apply_fetch(r, now);
        }
    }

    /// The address and the name of the feed that the cursor of the feed
    /// list is on; none when there are no feeds.
    pub fn feed_to_delete(&self) -> (r: Option<(String, String)>)
        requires
            self.feeds.len() == 0 || self.feed_selected < self.feeds.len(),
        ensures
            match r {
                Some((url, name)) => self.feeds.len() > 0
                    && url@ == self@.feeds[self.feed_selected as int].url
                    && name@ == crate::subscription::display_name(self@.feeds[self.feed_selected as int]),
                None => self.feeds.len() == 0,
            },
    {
        if self.feeds.len() == 0 {
            return None;
        }
        let feed = &self.feeds[self.feed_selected];
        let url = feed.url.clone();
        let name = match &feed.title {
            Some(t) => t.clone(),
            None => url.clone(),
        };
        Some((url, name))
    }

    /// Takes in the subscriptions after the feed called `name` was deleted.
    pub fn finish_delete(&mut self, feeds: Vec<Feed>, result: Option<FetchResult>, name: &str, now: u128)
        ensures
            final(self)@ == after_delete(
                old(self)@,
                feed_views(feeds@),
                match result {
                    Some(r) => Some(r@),
                    None => None,
                },
                name@,
                now,
            ),
    {
        self.refresh_after_change(feeds, result, now);
        if self.feeds.len() > 0 && self.feed_selected >= self.feeds.len() {
            self.feed_selected = self.feeds.len() - 1;
        }
        proof {
            reveal_strlit("Deleted: ");
        }
        self.set_status(prefixed("Deleted: ", name), now);
    }

    /// Takes in the sorted subscriptions.
    pub fn finish_sort(&mut self, feeds: Vec<Feed>, now: u128)
        ensures
            final(self)@ == after_sort(old(self)@, feed_views(feeds@), now),
    {
        self.feeds = feeds;
        self.feed_selected = 0;
        self.set_status(text_of("Sorted"), now);
    }

    /// Takes in the subscriptions after the feed at `url` was added under
    /// `title`.
    pub fn finish_add(
        &mut self,
        feeds: Vec<Feed>,
        result: Option<FetchResult>,
        title: Option<String>,
        url: &str,
        now: u128,
    )
        ensures
            final(self)@ == after_add(
                old(self)@,
                feed_views(feeds@),
                match result {
                    Some(r) => Some(r@),
                    None => None,
                },
                crate::feed::opt_view(title),
                url@,
                now,
            ),
    {
        self.refresh_after_change(feeds, result, now);
        let message = match &title {
            Some(t) => prefixed("Added: ", t.as_str()),
            None => prefixed("Added: ", url),
        };
        self.set_status(message, now);
    }
}

/// Asking for a reload in the article list makes a refresh due at once; a
/// refresh that brought articles is done, and the next one is due only when
/// the interval has passed again.
pub proof fn law_reload_cycle(
    v: AppView,
    k: crate::keys::Key,
    f: FetchView,
    manual: bool,
    now: u128,
    later: u128,
    rows: usize,
)
    requires
        v.input_mode == InputMode::Normal,
        k.code == crate::keys::KeyCode::Char('r'),
        f.articles.len() > 0,
    ensures
        is_refresh_due(crate::keys::key_step(v, k, now, rows).0, now),
        !after_refresh(v, f, manual, now).should_reload,
        after_refresh(v, f, manual, now).last_refresh == now,
        after_refresh(v, f, manual, now).input_mode == v.input_mode ==> (is_refresh_due(
            after_refresh(v, f, manual, now),
            later,
        ) <==> elapsed(later, now) >= v.refresh_interval),
{
}

/// A refresh reports each outcome once: the failures when some feed
/// failed, else that it is done when the user asked for it, else nothing.
pub proof fn law_refresh_reports(v: AppView, f: FetchView, manual: bool, now: u128)
    ensures
        f.failed.len() > 0 ==> after_refresh(v, f, manual, now).status_message == failure_text(f.failed),
        f.failed.len() == 0 && manual ==> after_refresh(v, f, manual, now).status_message == Some(
            "Reloaded"@,
        ),
        f.failed.len() == 0 && !manual ==> after_refresh(v, f, manual, now).status_message
            == v.status_message,
        after_refresh(v, f, manual, now).feed_status == f.status,
{
}

} // verus!
