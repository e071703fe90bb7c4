use vstd::prelude::*;
use crate::feed::{Article, ArticleView, article_views, opt_view};
use crate::service::FeedStatus;
use crate::subscription::{Feed, feed_views};
use crate::text::{chars_equal, chars_of, contains_chars, lines, lines_of, lowercase, string_of, string_views, to_lowercase, views};
use crate::screen::{initial_screen, elapsed, sat_dec, shown, screen_lines, line_len, clamp_col, text_hits, lowered_titles, with_status, without_status, expire_status, select_next, select_previous, select_first, select_last, with_articles, start_adding_feed, cancel_input, show_feed_list, select_next_feed, select_previous_feed, select_first_feed, select_last_feed, close_feed_list, filter_by_selected_feed, start_search, execute_search, next_match, previous_match, clear_search, start_visual_select, visual_select_down, visual_select_up, visual_select_right, visual_select_left, visual_select_to_top, visual_select_to_bottom, cancel_visual_select, start_visual_line_select, visual_line_down, visual_line_up, visual_line_to_top, visual_line_to_bottom, cancel_visual_line_select, cursor_down, cursor_up, cursor_to_top, cursor_to_bottom, cursor_right, cursor_left, cursor_line_start, cursor_line_end, AppView, InputMode, STATUS_MESSAGE_DURATION_NANOS};

verus! {

/// The state of the reader's screen. Instants are nanoseconds on a
/// monotonic clock that the caller reads.
pub struct App {
    pub articles: Vec<Article>,
    pub selected: usize,
    pub should_quit: bool,
    pub should_reload: bool,
    pub last_refresh: u128,
    pub refresh_interval: u128,
    pub input_mode: InputMode,
    pub input_buffer: String,
    pub status_message: Option<String>,
    pub status_message_time: Option<u128>,
    pub feeds: Vec<Feed>,
    pub feed_selected: usize,
    pub auto_sort: bool,
    pub feed_status: FeedStatus,
    pub article_content: Option<String>,
    pub article_scroll: usize,
    pub article_cursor: usize,
    pub article_cursor_col: usize,
    pub filter_feed_url: Option<String>,
    pub search_query: Option<String>,
    pub search_matches: Vec<usize>,
    pub search_current: usize,
    pub visual_select_start: Option<(usize, usize)>,
    pub visual_select_end: Option<(usize, usize)>,
    pub visual_line_start: Option<usize>,
    pub visual_line_end: Option<usize>,
}

impl View for App {
    type V = AppView;

    open spec fn view(&self) -> AppView {
        AppView {
            articles: article_views(self.articles@),
            selected: self.selected,
            should_quit: self.should_quit,
            should_reload: self.should_reload,
            last_refresh: self.last_refresh,
            refresh_interval: self.refresh_interval,
            input_mode: self.input_mode,
            input_buffer: self.input_buffer@,
            status_message: opt_view(self.status_message),
            status_message_time: self.status_message_time,
            feeds: feed_views(self.feeds@),
            feed_selected: self.feed_selected,
            auto_sort: self.auto_sort,
            feed_status: self.feed_status.view_map(),
            article_content: opt_view(self.article_content),
            article_scroll: self.article_scroll,
            article_cursor: self.article_cursor,
            article_cursor_col: self.article_cursor_col,
            filter_feed_url: opt_view(self.filter_feed_url),
            search_query: opt_view(self.search_query),
            search_matches: self.search_matches@,
            search_current: self.search_current,
            visual_select_start: self.visual_select_start,
            visual_select_end: self.visual_select_end,
            visual_line_start: self.visual_line_start,
            visual_line_end: self.visual_line_end,
        }
    }
}

impl App {
    /// A screen showing `articles`, refreshed at `now`, that refreshes every
    /// `refresh_interval`.
    pub fn new(articles: Vec<Article>, refresh_interval: u128, auto_sort: bool, now: u128) -> (r: App)
        ensures
            r@ == initial_screen(article_views(articles@), refresh_interval, auto_sort, now),
    {
        App {
            articles,
            selected: 0,
            should_quit: false,
            should_reload: false,
            last_refresh: now,
            refresh_interval,
            input_mode: InputMode::Normal,
            input_buffer: String::new(),
            status_message: None,
            status_message_time: None,
            feeds: Vec::new(),
            feed_selected: 0,
            auto_sort,
            feed_status: FeedStatus::new(),
            article_content: None,
            article_scroll: 0,
            article_cursor: 0,
            article_cursor_col: 0,
            filter_feed_url: None,
            search_query: None,
            search_matches: Vec::new(),
            search_current: 0,
            visual_select_start: None,
            visual_select_end: None,
            visual_line_start: None,
            visual_line_end: None,
        }
    }

    /// Shows `message`, from `now` on.
    pub fn set_status(&mut self, message: String, now: u128)
        ensures
            final(self)@ == with_status(old(self)@, message@, now),
    {
        self.status_message = Some(message);
        self.status_message_time = Some(now);
    }

    /// Removes the status message.
    pub fn clear_status(&mut self)
        ensures
            final(self)@ == without_status(old(self)@),
    {
        self.status_message = None;
        self.status_message_time = None;
    }

    /// Removes the status message once it has been shown long enough.
    pub fn clear_expired_status(&mut self, now: u128)
        ensures
            final(self)@ == expire_status(old(self)@, now),
    {
        if let Some(t) = self.status_message_time {
            let e = if now >= t {
                now - t
            } else {
                0
            };
            if e >= STATUS_MESSAGE_DURATION_NANOS {
                self.clear_status();
            }
        }
    }

    /// The articles shown, in order.
    pub fn filtered_articles(&self) -> (r: Vec<&Article>)
        ensures
            r@.map_values(|a: &Article| a@) == shown(self@),
    {
        let ghost all = article_views(self.articles@);
        let mut out: Vec<&Article> = Vec::new();
        match &self.filter_feed_url {
            None => {
                let mut i: usize = 0;
                while i < self.articles.len()
                    invariant
                        i <= self.articles.len(),
                        all == article_views(self.articles@),
                        out@.map_values(|a: &Article| a@) == all.take(i as int),
                    decreases self.articles.len() - i,
                {
                    out.push(&self.articles[i]);
                    assert(all.take(i + 1) =~= all.take(i as int).push(self.articles@[i as int]@));
                    assert(out@.map_values(|a: &Article| a@) =~= all.take(i + 1));
                    i += 1;
                }
                assert(all.take(i as int) == all);
            },
            Some(filter) => {
                let f = chars_of(filter.as_str());
                let ghost pred = |a: ArticleView| a.feed_title == filter@;
                let mut i: usize = 0;
                assert(all.take(0).filter(pred) =~= Seq::<ArticleView>::empty()) by {
                    reveal(Seq::filter);
                }
                while i < self.articles.len()
                    invariant
                        i <= self.articles.len(),
                        all == article_views(self.articles@),
                        f@ == filter@,
                        pred == (|a: ArticleView| a.feed_title == filter@),
                        out@.map_values(|a: &Article| a@) == all.take(i as int).filter(pred),
                    decreases self.articles.len() - i,
                {
                    let a = &self.articles[i];
                    let ghost before = out@;
                    if chars_equal(&chars_of(a.feed_title.as_str()), &f) {
                        out.push(a);
                        assert(out@.map_values(|a: &Article| a@) =~= before.map_values(
                            |a: &Article| a@,
                        ).push(a@));
                    }
                    proof {
                        all.take(i as int).lemma_filter_push(all[i as int], pred);
                        assert(all.take(i as int).push(all[i as int]) == all.take(i + 1));
                    }
                    i += 1;
                }
                assert(all.take(i as int) == all);
            },
        }
        out
    }

    /// Moves the selection one article down, stopping at the last.
    pub fn select_next(&mut self)
        ensures
            final(self)@ == select_next(old(self)@),
    {
        let count = self.filtered_articles().len();
        if count > 0 && self.selected < count - 1 {
            self.selected += 1;
        }
    }

    /// Moves the selection one article up, stopping at the first.
    pub fn select_previous(&mut self)
        ensures
            final(self)@ == select_previous(old(self)@),
    {
        if self.selected > 0 {
            self.selected -= 1;
        }
    }

    /// Selects the first article.
    pub fn select_first(&mut self)
        ensures
            final(self)@ == select_first(old(self)@),
    {
        self.selected = 0;
    }

    /// Selects the last article shown (no change when none is shown).
    pub fn select_last(&mut self)
        ensures
            final(self)@ == select_last(old(self)@),
    {
        let count = self.filtered_articles().len();
        if count > 0 {
            self.selected = count - 1;
        }
    }

    /// Asks the event loop to stop.
    pub fn quit(&mut self)
        ensures
            final(self)@ == (AppView { should_quit: true, ..old(self)@ }),
    {
        self.should_quit = true;
    }

    /// Asks for the feeds to be fetched again.
    pub fn request_reload(&mut self)
        ensures
            final(self)@ == (AppView { should_reload: true, ..old(self)@ }),
    {
        self.should_reload = true;
    }

    /// The refresh interval has passed since the last refresh.
    pub fn should_auto_refresh(&self, now: u128) -> (r: bool)
        ensures
            r == (elapsed(now, self.last_refresh) >= self.refresh_interval),
    {
        let e = if now >= self.last_refresh {
            now - self.last_refresh
        } else {
            0
        };
        e >= self.refresh_interval
    }

    /// Replaces the articles after a refresh at `now`, keeping the selection
    /// on the list.
    pub fn update_articles(&mut self, articles: Vec<Article>, now: u128)
        ensures
            final(self)@ == with_articles(old(self)@, article_views(articles@), now),
    {
        self.articles = articles;
        if self.articles.len() > 0 && self.selected >= self.articles.len() {
            self.selected = self.articles.len() - 1;
        }
        self.last_refresh = now;
        self.should_reload = false;
    }

    /// The selected article, among those shown.
    pub fn selected_article(&self) -> (r: Option<&Article>)
        ensures
            match r {
                Some(a) => self.selected < shown(self@).len() && a@ == shown(self@)[self.selected as int],
                None => self.selected >= shown(self@).len(),
            },
    {
        let shown = self.filtered_articles();
        if self.selected < shown.len() {
            let a = shown[self.selected];
            assert(shown@.map_values(|a: &Article| a@)[self.selected as int] == a@);
            Some(a)
        } else {
            None
        }
    }

    /// Starts typing the address of a feed to add.
    pub fn start_adding_feed(&mut self)
        ensures
            final(self)@ == start_adding_feed(old(self)@),
    {
        self.input_mode = InputMode::AddingFeed;
        self.input_buffer = String::new();
        self.clear_status();
    }

    /// Stops typing and drops what was typed.
    pub fn cancel_input(&mut self)
        ensures
            final(self)@ == cancel_input(old(self)@),
    {
        self.input_mode = InputMode::Normal;
        self.input_buffer = String::new();
    }

    /// Opens the list of subscriptions, showing `feeds` (as loaded from the
    /// subscription file) with the first selected.
    pub fn show_feed_list(&mut self, feeds: Vec<Feed>)
        ensures
            final(self)@ == show_feed_list(old(self)@, feed_views(feeds@)),
    {
        self.feeds = feeds;
        self.feed_selected = 0;
        self.input_mode = InputMode::FeedList;
    }

    /// Moves the feed selection one down, stopping at the last.
    pub fn select_next_feed(&mut self)
        ensures
            final(self)@ == select_next_feed(old(self)@),
    {
        if self.feeds.len() > 0 && self.feed_selected < self.feeds.len() - 1 {
            self.feed_selected += 1;
        }
    }

    /// Moves the feed selection one up, stopping at the first.
    pub fn select_previous_feed(&mut self)
        ensures
            final(self)@ == select_previous_feed(old(self)@),
    {
        if self.feed_selected > 0 {
            self.feed_selected -= 1;
        }
    }

    /// Selects the first feed.
    pub fn select_first_feed(&mut self)
        ensures
            final(self)@ == select_first_feed(old(self)@),
    {
        self.feed_selected = 0;
    }

    /// Selects the last feed (no change when there is none).
    pub fn select_last_feed(&mut self)
        ensures
            final(self)@ == select_last_feed(old(self)@),
    {
        if self.feeds.len() > 0 {
            self.feed_selected = self.feeds.len() - 1;
        }
    }

    /// Closes the list of subscriptions and drops the feed filter.
    pub fn close_feed_list(&mut self)
        ensures
            final(self)@ == close_feed_list(old(self)@),
    {
        self.input_mode = InputMode::Normal;
        self.feeds = Vec::new();
        self.filter_feed_url = None;
    }

    /// Shows only the articles of the selected feed (found by its title, else
    /// its address) and goes back to the article list.
    pub fn filter_by_selected_feed(&mut self)
        ensures
            final(self)@ == filter_by_selected_feed(old(self)@),
    {
        if self.feed_selected < self.feeds.len() {
            let feed = &self.feeds[self.feed_selected];
            let name = match &feed.title {
                Some(t) => t.clone(),
                None => feed.url.clone(),
            };
            self.filter_feed_url = Some(name);
            self.input_mode = InputMode::Normal;
            self.selected = 0;
        }
    }

    /// Whether the last fetch of the feed at `url` succeeded, if known.
    pub fn get_feed_status(&self, url: &str) -> (r: Option<bool>)
        ensures
            r == (if self.feed_status.view_map().contains_key(url@) {
                Some(self.feed_status.view_map()[url@])
            } else {
                None
            }),
    {
        self.feed_status.get(url)
    }

    /// Replaces the feed statuses with those of the last fetch.
    pub fn apply_feed_status(&mut self, status: FeedStatus)
        ensures
            final(self)@ == (AppView { feed_status: status.view_map(), ..old(self)@ }),
    {
        self.feed_status = status;
    }
}

/// The indices of the texts that hold `query`, in order.
pub fn matching_indices(texts: &[String], query: &str) -> (r: Vec<usize>)
    ensures
        r@ == text_hits(string_views(texts@), query@, texts@.len() as int),
{
    let q = chars_of(query);
    let ghost tv = string_views(texts@);
    let mut out: Vec<usize> = Vec::new();
    let mut i: usize = 0;
    while i < texts.len()
        invariant
            i <= texts.len(),
            q@ == query@,
            tv == string_views(texts@),
            out@ == text_hits(tv, q@, i as int),
        decreases texts.len() - i,
    {
        assert(tv[i as int] == texts@[i as int]@);
        if contains_chars(&chars_of(texts[i].as_str()), &q) {
            out.push(i);
        }
        i += 1;
    }
    out
}

/// Position `a` (row, column) comes no later than `b`.
pub open spec fn pos_le(a: (usize, usize), b: (usize, usize)) -> bool {
    a.0 < b.0 || (a.0 == b.0 && a.1 <= b.1)
}

/// The two ends of a selection, the earlier first.
pub open spec fn ordered(a: (usize, usize), b: (usize, usize)) -> ((usize, usize), (usize, usize)) {
    if pos_le(a, b) {
        (a, b)
    } else {
        (b, a)
    }
}

/// Lines `from` up to `to` (exclusive), each preceded by a line break.
pub open spec fn lines_after_breaks(ls: Seq<Seq<char>>, from: int, to: int) -> Seq<char>
    decreases to - from,
{
    if to <= from {
        Seq::empty()
    } else {
        lines_after_breaks(ls, from, to - 1) + seq!['\n'] + ls[to - 1]
    }
}

/// The character selection can be read without slicing a line out of range:
/// a one-line selection ends on a character of a nonempty line and does not
/// start past it; a longer one starts within its first line and ends on a
/// nonempty last line.
pub open spec fn selection_text_defined(
    content: Option<Seq<char>>,
    start: Option<(usize, usize)>,
    end: Option<(usize, usize)>,
) -> bool {
    match (content, start, end) {
        (Some(c), Some(s), Some(e)) => {
            let (a, b) = ordered(s, e);
            let ls = lines(c);
            if a.0 >= ls.len() || b.0 >= ls.len() {
                true
            } else if a.0 == b.0 {
                let n = ls[a.0 as int].len() as int;
                n > 0 && a.1 <= clamp_col(b.1 as int, n) + 1
            } else {
                a.1 <= ls[a.0 as int].len() && ls[b.0 as int].len() > 0
            }
        },
        _ => true,
    }
}

/// The text a character selection covers, both ends included, lines joined
/// by line breaks; none when a line of it is missing.
pub open spec fn selection_text(
    content: Option<Seq<char>>,
    start: Option<(usize, usize)>,
    end: Option<(usize, usize)>,
) -> Option<Seq<char>> {
    match (content, start, end) {
        (Some(c), Some(s), Some(e)) => {
            let (a, b) = ordered(s, e);
            let ls = lines(c);
            if a.0 >= ls.len() || b.0 >= ls.len() {
                None
            } else if a.0 == b.0 {
                let line = ls[a.0 as int];
                Some(line.subrange(a.1 as int, clamp_col(b.1 as int, line.len() as int) + 1))
            } else {
                let last = ls[b.0 as int];
                Some(
                    ls[a.0 as int].skip(a.1 as int) + lines_after_breaks(ls, a.0 + 1, b.0 as int)
                        + seq!['\n'] + last.take(clamp_col(b.1 as int, last.len() as int) + 1),
                )
            }
        },
        _ => None,
    }
}

/// The text a line selection covers, both ends included, lines joined by
/// line breaks; none when its last line is missing.
pub open spec fn selected_lines_text(
    content: Option<Seq<char>>,
    start: Option<usize>,
    end: Option<usize>,
) -> Option<Seq<char>> {
    match (content, start, end) {
        (Some(c), Some(s), Some(e)) => {
            let (from, to) = if s <= e {
                (s, e)
            } else {
                (e, s)
            };
            let ls = lines(c);
            if to >= ls.len() {
                None
            } else {
                Some(ls[from as int] + lines_after_breaks(ls, from + 1, to + 1))
            }
        },
        _ => None,
    }
}

/// A selection reads the same whichever end was marked first: swapping a
/// character selection's two ends changes neither whether it can be read
/// nor the text it covers, and swapping a line selection's two lines
/// changes nothing either.
pub proof fn law_selection_ends_swap(
    content: Option<Seq<char>>,
    a: (usize, usize),
    b: (usize, usize),
    la: usize,
    lb: usize,
)
    ensures
        selection_text_defined(content, Some(a), Some(b)) == selection_text_defined(
            content,
            Some(b),
            Some(a),
        ),
        selection_text(content, Some(a), Some(b)) == selection_text(content, Some(b), Some(a)),
        selected_lines_text(content, Some(la), Some(lb)) == selected_lines_text(
            content,
            Some(lb),
            Some(la),
        ),
{
    assert(ordered(a, b) == ordered(b, a));
}

fn min_usize(a: usize, b: usize) -> (r: usize)
    ensures
        r == if a < b {
            a
        } else {
            b
        },
{
    if a < b {
        a
    } else {
        b
    }
}

fn sat_dec_usize(n: usize) -> (r: usize)
    ensures
        r == sat_dec(n as int),
{
    if n > 0 {
        n - 1
    } else {
        0
    }
}

fn append_lines_after_breaks(out: &mut Vec<char>, ls: &Vec<Vec<char>>, from: usize, to: usize)
    requires
        from <= to <= ls.len(),
    ensures
        final(out)@ == old(out)@ + lines_after_breaks(views(ls@), from as int, to as int),
{
    let mut i: usize = from;
    while i < to
        invariant
            from <= i <= to <= ls.len(),
            out@ == old(out)@ + lines_after_breaks(views(ls@), from as int, i as int),
        decreases to - i,
    {
        let ghost before = out@;
        out.push('\n');
        crate::text::append_chars(out, &ls[i]);
        i += 1;
        assert(views(ls@)[i - 1] == ls@[i - 1]@);
        assert(out@ =~= old(out)@ + lines_after_breaks(views(ls@), from as int, i as int));
    }
}

impl App {
    pub(crate) fn content_line_list(&self) -> (r: Vec<Vec<char>>)
        ensures
            views(r@) == screen_lines(self@),
    {
        match &self.article_content {
            Some(c) => lines_of(&chars_of(c.as_str())),
            None => {
                let r: Vec<Vec<char>> = Vec::new();
                assert(views(r@) =~= Seq::<Seq<char>>::empty());
                r
            },
        }
    }

    /// Starts searching: the typed text will be the query.
    pub fn start_search(&mut self)
        ensures
            final(self)@ == start_search(old(self)@),
    {
        self.input_mode = InputMode::Searching;
        self.input_buffer = String::new();
    }

    /// Searches the shown articles' titles for the typed text, ignoring case,
    /// and selects the first match.
    pub fn execute_search(&mut self)
        ensures
            final(self)@ == execute_search(old(self)@),
    {
        let query = to_lowercase(self.input_buffer.as_str());
        let ghost shown = shown(self@);
        let mut lowered: Vec<String> = Vec::new();
        {
            let shown_refs = self.filtered_articles();
            let mut i: usize = 0;
            while i < shown_refs.len()
                invariant
                    i <= shown_refs.len(),
                    shown_refs@.map_values(|a: &Article| a@) == shown,
                    lowered@.len() == i,
                    forall|j: int| 0 <= j < i ==> #[trigger] lowered@[j]@ == lowercase(shown[j].title),
                decreases shown_refs.len() - i,
            {
                assert(shown[i as int] == shown_refs@[i as int]@);
                lowered.push(to_lowercase(shown_refs[i].title.as_str()));
                i += 1;
            }
        }
        assert(string_views(lowered@) =~= lowered_titles(shown));
        let matches = matching_indices(&lowered, query.as_str());
        self.search_query = Some(self.input_buffer.clone());
        self.search_matches = matches;
        self.search_current = 0;
        if self.search_matches.len() > 0 {
            self.selected = self.search_matches[0];
        }
        self.input_mode = InputMode::Normal;
    }

    /// Selects the next match, after the last going back to the first.
    pub fn next_match(&mut self)
        requires
            old(self).search_matches@.len() == 0 || old(self).search_current < usize::MAX,
        ensures
            final(self)@ == next_match(old(self)@),
    {
        if self.search_matches.len() == 0 {
            return;
        }
        self.search_current = (self.search_current + 1) % self.search_matches.len();
        self.selected = self.search_matches[self.search_current];
    }

    /// Selects the previous match, before the first going to the last.
    pub fn previous_match(&mut self)
        requires
            old(self).search_matches@.len() == 0 || old(self).search_current <= old(
                self,
            ).search_matches@.len(),
        ensures
            final(self)@ == previous_match(old(self)@),
    {
        if self.search_matches.len() == 0 {
            return;
        }
        if self.search_current == 0 {
            self.search_current = self.search_matches.len() - 1;
        } else {
            self.search_current -= 1;
        }
        self.selected = self.search_matches[self.search_current];
    }

    /// Forgets the last search.
    pub fn clear_search(&mut self)
        ensures
            final(self)@ == clear_search(old(self)@),
    {
        self.search_query = None;
        self.search_matches = Vec::new();
        self.search_current = 0;
    }

    /// Starts selecting characters at the cursor.
    pub fn start_visual_select(&mut self)
        ensures
            final(self)@ == start_visual_select(old(self)@),
    {
        self.input_mode = InputMode::VisualSelect;
        let pos = (self.article_cursor, self.article_cursor_col);
        self.visual_select_start = Some(pos);
        self.visual_select_end = Some(pos);
    }

    /// Moves the end of the character selection one line down, no further
    /// than the last line and the new line's last character.
    pub fn visual_select_down(&mut self)
        ensures
            final(self)@ == visual_select_down(old(self)@),
    {
        if self.article_content.is_some() {
            if let Some((row, col)) = self.visual_select_end {
                let ls = self.content_line_list();
                if row < sat_dec_usize(ls.len()) {
                    let nr = row + 1;
                    assert(views(ls@)[nr as int] == ls@[nr as int]@);
                    let nc = min_usize(col, sat_dec_usize(ls[nr].len()));
                    self.visual_select_end = Some((nr, nc));
                }
            }
        }
    }

    /// Moves the end of the character selection one line up, no further than
    /// the first line and the new line's last character.
    pub fn visual_select_up(&mut self)
        ensures
            final(self)@ == visual_select_up(old(self)@),
    {
        if self.article_content.is_some() {
            if let Some((row, col)) = self.visual_select_end {
                if row > 0 {
                    let ls = self.content_line_list();
                    let nr = row - 1;
                    let n = if nr < ls.len() {
                        assert(views(ls@)[nr as int] == ls@[nr as int]@);
                        ls[nr].len()
                    } else {
                        0
                    };
                    let nc = min_usize(col, sat_dec_usize(n));
                    self.visual_select_end = Some((nr, nc));
                }
            }
        }
    }

    /// Moves the end of the character selection one character right, no
    /// further than the line's last character.
    pub fn visual_select_right(&mut self)
        ensures
            final(self)@ == visual_select_right(old(self)@),
    {
        if self.article_content.is_some() {
            if let Some((row, col)) = self.visual_select_end {
                let ls = self.content_line_list();
                if row < ls.len() {
                    assert(views(ls@)[row as int] == ls@[row as int]@);
                    let max_col = sat_dec_usize(ls[row].len());
                    if col < max_col {
                        self.visual_select_end = Some((row, col + 1));
                    }
                }
            }
        }
    }

    /// Moves the end of the character selection one character left, no
    /// further than the line's start.
    pub fn visual_select_left(&mut self)
        ensures
            final(self)@ == visual_select_left(old(self)@),
    {
        if let Some((row, col)) = self.visual_select_end {
            if col > 0 {
                self.visual_select_end = Some((row, col - 1));
            }
        }
    }

    /// Moves the end of the character selection to the start of the article.
    pub fn visual_select_to_top(&mut self)
        ensures
            final(self)@ == visual_select_to_top(old(self)@),
    {
        self.visual_select_end = Some((0, 0));
    }

    /// Moves the end of the character selection to the last character of the
    /// article.
    pub fn visual_select_to_bottom(&mut self)
        ensures
            final(self)@ == visual_select_to_bottom(old(self)@),
    {
        if self.article_content.is_some() {
            let ls = self.content_line_list();
            if ls.len() > 0 {
                let last_row = ls.len() - 1;
                assert(views(ls@)[last_row as int] == ls@[last_row as int]@);
                let last_col = sat_dec_usize(ls[last_row].len());
                self.visual_select_end = Some((last_row, last_col));
            }
        }
    }

    /// The character selection can be read without slicing out of range.
    pub fn selected_text_defined(&self) -> (r: bool)
        ensures
            r == selection_text_defined(
                self@.article_content,
                self.visual_select_start,
                self.visual_select_end,
            ),
    {
        match (&self.article_content, self.visual_select_start, self.visual_select_end) {
            (Some(_), Some(s), Some(e)) => {
                let (a, b) = if s.0 < e.0 || (s.0 == e.0 && s.1 <= e.1) {
                    (s, e)
                } else {
                    (e, s)
                };
                let ls = self.content_line_list();
                if a.0 >= ls.len() || b.0 >= ls.len() {
                    true
                } else if a.0 == b.0 {
                    assert(views(ls@)[a.0 as int] == ls@[a.0 as int]@);
                    let n = ls[a.0].len();
                    let ec = min_usize(b.1, sat_dec_usize(n));
                    n > 0 && a.1 <= ec + 1
                } else {
                    assert(views(ls@)[a.0 as int] == ls@[a.0 as int]@);
                    assert(views(ls@)[b.0 as int] == ls@[b.0 as int]@);
                    a.1 <= ls[a.0].len() && ls[b.0].len() > 0
                }
            },
            _ => true,
        }
    }

    /// The text the character selection covers.
    pub fn get_selected_text(&self) -> (r: Option<String>)
        requires
            selection_text_defined(self@.article_content, self.visual_select_start, self.visual_select_end),
        ensures
            opt_view(r) == selection_text(
                self@.article_content,
                self.visual_select_start,
                self.visual_select_end,
            ),
    {
        if self.article_content.is_none() {
            return None;
        }
        let s = match self.visual_select_start {
            Some(s) => s,
            None => return None,
        };
        let e = match self.visual_select_end {
            Some(e) => e,
            None => return None,
        };
        let (a, b) = if s.0 < e.0 || (s.0 == e.0 && s.1 <= e.1) {
            (s, e)
        } else {
            (e, s)
        };
        let ls = self.content_line_list();
        if a.0 >= ls.len() || b.0 >= ls.len() {
            return None;
        }
        let mut out: Vec<char> = Vec::new();
        if a.0 == b.0 {
            let line = &ls[a.0];
            assert(views(ls@)[a.0 as int] == line@);
            let ec = min_usize(b.1, sat_dec_usize(line.len()));
            crate::text::append_range(&mut out, line, a.1, ec + 1);
        } else {
            let first = &ls[a.0];
            let last = &ls[b.0];
            assert(views(ls@)[a.0 as int] == first@);
            assert(views(ls@)[b.0 as int] == last@);
            crate::text::append_range(&mut out, first, a.1, first.len());
            append_lines_after_breaks(&mut out, &ls, a.0 + 1, b.0);
            out.push('\n');
            let ec = min_usize(b.1, sat_dec_usize(last.len()));
            crate::text::append_range(&mut out, last, 0, ec + 1);
            assert(out@ =~= first@.skip(a.1 as int) + lines_after_breaks(views(ls@), a.0 + 1, b.0 as int)
                + seq!['\n'] + last@.take(ec + 1));
        }
        Some(string_of(&out))
    }

    /// Stops selecting characters.
    pub fn cancel_visual_select(&mut self)
        ensures
            final(self)@ == cancel_visual_select(old(self)@),
    {
        self.input_mode = InputMode::ViewingArticle;
        self.visual_select_start = None;
        self.visual_select_end = None;
    }

    /// Starts selecting lines at the cursor's line.
    pub fn start_visual_line_select(&mut self)
        ensures
            final(self)@ == start_visual_line_select(old(self)@),
    {
        self.input_mode = InputMode::VisualLine;
        self.visual_line_start = Some(self.article_cursor);
        self.visual_line_end = Some(self.article_cursor);
    }

    fn article_line_count(&self) -> (r: usize)
        ensures
            r == screen_lines(self@).len(),
    {
        self.content_line_list().len()
    }

    /// Moves the end of the line selection one line down, no further than the
    /// last line.
    pub fn visual_line_down(&mut self)
        ensures
            final(self)@ == visual_line_down(old(self)@),
    {
        if let Some(end) = self.visual_line_end {
            let n = self.article_line_count();
            if n > 0 && end < n - 1 {
                self.visual_line_end = Some(end + 1);
            }
        }
    }

    /// Moves the end of the line selection one line up, no further than the
    /// first line.
    pub fn visual_line_up(&mut self)
        ensures
            final(self)@ == visual_line_up(old(self)@),
    {
        if let Some(end) = self.visual_line_end {
            if end > 0 {
                self.visual_line_end = Some(end - 1);
            }
        }
    }

    /// Moves the end of the line selection to the first line.
    pub fn visual_line_to_top(&mut self)
        ensures
            final(self)@ == visual_line_to_top(old(self)@),
    {
        self.visual_line_end = Some(0);
    }

    /// Moves the end of the line selection to the last line.
    pub fn visual_line_to_bottom(&mut self)
        ensures
            final(self)@ == visual_line_to_bottom(old(self)@),
    {
        let n = self.article_line_count();
        if n > 0 {
            self.visual_line_end = Some(n - 1);
        }
    }

    /// The text the line selection covers.
    pub fn get_selected_lines(&self) -> (r: Option<String>)
        ensures
            opt_view(r) == selected_lines_text(
                self@.article_content,
                self.visual_line_start,
                self.visual_line_end,
            ),
    {
        if self.article_content.is_none() {
            return None;
        }
        let s = match self.visual_line_start {
            Some(s) => s,
            None => return None,
        };
        let e = match self.visual_line_end {
            Some(e) => e,
            None => return None,
        };
        let (from, to) = if s <= e {
            (s, e)
        } else {
            (e, s)
        };
        let ls = self.content_line_list();
        if to >= ls.len() {
            return None;
        }
        let mut out: Vec<char> = Vec::new();
        assert(views(ls@)[from as int] == ls@[from as int]@);
        crate::text::append_chars(&mut out, &ls[from]);
        append_lines_after_breaks(&mut out, &ls, from + 1, to + 1);
        Some(string_of(&out))
    }

    /// Stops selecting lines.
    pub fn cancel_visual_line_select(&mut self)
        ensures
            final(self)@ == cancel_visual_line_select(old(self)@),
    {
        self.input_mode = InputMode::ViewingArticle;
        self.visual_line_start = None;
        self.visual_line_end = None;
    }

    /// Moves the cursor one line down, no further than the last line.
    pub fn article_cursor_down(&mut self)
        ensures
            final(self)@ == cursor_down(old(self)@),
    {
        let n = self.article_line_count();
        if n > 0 && self.article_cursor < n - 1 {
            self.article_cursor += 1;
        }
    }

    /// Moves the cursor one line up, no further than the first line.
    pub fn article_cursor_up(&mut self)
        ensures
            final(self)@ == cursor_up(old(self)@),
    {
        self.article_cursor = sat_dec_usize(self.article_cursor);
    }

    /// Moves the cursor to the first line.
    pub fn article_cursor_to_top(&mut self)
        ensures
            final(self)@ == cursor_to_top(old(self)@),
    {
        self.article_cursor = 0;
    }

    /// Moves the cursor to the last line.
    pub fn article_cursor_to_bottom(&mut self)
        ensures
            final(self)@ == cursor_to_bottom(old(self)@),
    {
        let n = self.article_line_count();
        if n > 0 {
            self.article_cursor = n - 1;
        }
    }

    fn current_line_length(&self) -> (r: usize)
        ensures
            r == line_len(screen_lines(self@), self.article_cursor as int),
    {
        let ls = self.content_line_list();
        if self.article_cursor < ls.len() {
            assert(views(ls@)[self.article_cursor as int] == ls@[self.article_cursor as int]@);
            ls[self.article_cursor].len()
        } else {
            0
        }
    }

    /// Moves the cursor one character right, no further than the line's last
    /// character.
    pub fn article_cursor_right(&mut self)
        ensures
            final(self)@ == cursor_right(old(self)@),
    {
        let n = self.current_line_length();
        if n > 0 && self.article_cursor_col < n - 1 {
            self.article_cursor_col += 1;
        }
    }

    /// Moves the cursor one character left, no further than the line's start.
    pub fn article_cursor_left(&mut self)
        ensures
            final(self)@ == cursor_left(old(self)@),
    {
        self.article_cursor_col = sat_dec_usize(self.article_cursor_col);
    }

    /// Moves the cursor to the start of the line.
    pub fn article_cursor_line_start(&mut self)
        ensures
            final(self)@ == cursor_line_start(old(self)@),
    {
        self.article_cursor_col = 0;
    }

    /// Moves the cursor to the last character of the line.
    pub fn article_cursor_line_end(&mut self)
        ensures
            final(self)@ == cursor_line_end(old(self)@),
    {
        let n = self.current_line_length();
        if n > 0 {
            self.article_cursor_col = n - 1;
        }
    }
}

} // verus!
