use vstd::prelude::*;
use crate::feed::ArticleView;
use crate::subscription::{FeedView, display_name};
use crate::text::{lines, lowercase, occurs_in};

verus! {

/// How long a status message stays, in nanoseconds.
pub const STATUS_MESSAGE_DURATION_NANOS: u128 = 3_000_000_000;

/// What the keys currently do.
#[derive(Debug, Clone, Copy, PartialEq, Eq, Structural)]
pub enum InputMode {
    Normal,
    AddingFeed,
    FeedList,
    ViewingArticle,
    Searching,
    VisualSelect,
    VisualLine,
}

/// The reader's screen state, as plain values. Instants are nanoseconds on a
/// monotonic clock.
#[verifier::ext_equal]
pub struct AppView {
    pub articles: Seq<ArticleView>,
    pub selected: usize,
    pub should_quit: bool,
    pub should_reload: bool,
    pub last_refresh: u128,
    pub refresh_interval: u128,
    pub input_mode: InputMode,
    pub input_buffer: Seq<char>,
    pub status_message: Option<Seq<char>>,
    pub status_message_time: Option<u128>,
    pub feeds: Seq<FeedView>,
    pub feed_selected: usize,
    pub auto_sort: bool,
    pub feed_status: Map<Seq<char>, bool>,
    pub article_content: Option<Seq<char>>,
    pub article_scroll: usize,
    pub article_cursor: usize,
    pub article_cursor_col: usize,
    pub filter_feed_url: Option<Seq<char>>,
    pub search_query: Option<Seq<char>>,
    pub search_matches: Seq<usize>,
    pub search_current: usize,
    pub visual_select_start: Option<(usize, usize)>,
    pub visual_select_end: Option<(usize, usize)>,
    pub visual_line_start: Option<usize>,
    pub visual_line_end: Option<usize>,
}

/// A new screen showing `articles`, refreshed at `now`, refreshing every
/// `refresh_interval`: nothing selected but the first article, nothing typed,
/// no status, no article open, no filter, no search, no selection.
pub open spec fn initial_screen(
    articles: Seq<ArticleView>,
    refresh_interval: u128,
    auto_sort: bool,
    now: u128,
) -> AppView {
    AppView {
        articles,
        selected: 0,
        should_quit: false,
        should_reload: false,
        last_refresh: now,
        refresh_interval,
        input_mode: InputMode::Normal,
        input_buffer: Seq::empty(),
        status_message: None,
        status_message_time: None,
        feeds: Seq::empty(),
        feed_selected: 0,
        auto_sort,
        feed_status: Map::empty(),
        article_content: None,
        article_scroll: 0,
        article_cursor: 0,
        article_cursor_col: 0,
        filter_feed_url: None,
        search_query: None,
        search_matches: Seq::empty(),
        search_current: 0,
        visual_select_start: None,
        visual_select_end: None,
        visual_line_start: None,
        visual_line_end: None,
    }
}

/// The time elapsed from `then` to `now`, zero if `now` is earlier.
pub open spec fn elapsed(now: u128, then: u128) -> int {
    if now >= then {
        now - then
    } else {
        0
    }
}

/// `n - 1`, or 0 for 0 (`usize::saturating_sub(1)`).
pub open spec fn sat_dec(n: int) -> int {
    if n > 0 {
        n - 1
    } else {
        0
    }
}

/// The articles shown: all of them, or those of the feed filtered by.
pub open spec fn visible(articles: Seq<ArticleView>, filter: Option<Seq<char>>) -> Seq<ArticleView> {
    match filter {
        Some(f) => articles.filter(|a: ArticleView| a.feed_title == f),
        None => articles,
    }
}

/// The articles shown on a screen.
pub open spec fn shown(v: AppView) -> Seq<ArticleView> {
    visible(v.articles, v.filter_feed_url)
}

/// The lines of the article being read (none when no article is open).
pub open spec fn content_lines(content: Option<Seq<char>>) -> Seq<Seq<char>> {
    match content {
        Some(c) => lines(c),
        None => Seq::empty(),
    }
}

/// The lines of the article open on a screen.
pub open spec fn screen_lines(v: AppView) -> Seq<Seq<char>> {
    content_lines(v.article_content)
}

/// The number of characters of line `r`, 0 past the last line.
pub open spec fn line_len(ls: Seq<Seq<char>>, r: int) -> int {
    if 0 <= r < ls.len() {
        ls[r].len() as int
    } else {
        0
    }
}

/// The last column a selection ending at `col` on a line of `n` characters
/// takes: `col`, but no further than the line's last character.
pub open spec fn clamp_col(col: int, n: int) -> int {
    if col < sat_dec(n) {
        col
    } else {
        sat_dec(n)
    }
}

/// The indices, among the first `n` texts, of those that hold `query`, in
/// order.
pub open spec fn text_hits(texts: Seq<Seq<char>>, query: Seq<char>, n: int) -> Seq<usize>
    decreases n,
{
    if n <= 0 {
        Seq::empty()
    } else {
        text_hits(texts, query, n - 1) + if occurs_in(query, texts[n - 1]) {
            seq![(n - 1) as usize]
        } else {
            Seq::empty()
        }
    }
}

/// The shown articles' titles in lower case.
pub open spec fn lowered_titles(shown: Seq<ArticleView>) -> Seq<Seq<char>> {
    shown.map_values(|a: ArticleView| lowercase(a.title))
}

/// Which shown articles' titles hold the query, compared in lower case: the
/// indices among the first `n`, in order.
pub open spec fn search_hits(shown: Seq<ArticleView>, query: Seq<char>, n: int) -> Seq<usize> {
    text_hits(lowered_titles(shown), query, n)
}

/// Shows `message` from `now` on.
pub open spec fn with_status(v: AppView, message: Seq<char>, now: u128) -> AppView {
    AppView { status_message: Some(message), status_message_time: Some(now), ..v }
}

/// Removes the status message.
pub open spec fn without_status(v: AppView) -> AppView {
    AppView { status_message: None, status_message_time: None, ..v }
}

/// Removes the status message once it has been shown long enough.
pub open spec fn expire_status(v: AppView, now: u128) -> AppView {
    match v.status_message_time {
        Some(t) => if elapsed(now, t) >= STATUS_MESSAGE_DURATION_NANOS {
            without_status(v)
        } else {
            v
        },
        None => v,
    }
}

/// Selects the next shown article, stopping at the last.
pub open spec fn select_next(v: AppView) -> AppView {
    if shown(v).len() > 0 && v.selected < shown(v).len() - 1 {
        AppView { selected: (v.selected + 1) as usize, ..v }
    } else {
        v
    }
}

/// Selects the previous article, stopping at the first.
pub open spec fn select_previous(v: AppView) -> AppView {
    AppView { selected: sat_dec(v.selected as int) as usize, ..v }
}

/// `select_next` done `n` times.
pub open spec fn select_next_times(v: AppView, n: nat) -> AppView
    decreases n,
{
    if n == 0 {
        v
    } else {
        select_next(select_next_times(v, (n - 1) as nat))
    }
}

/// `select_previous` done `n` times.
pub open spec fn select_previous_times(v: AppView, n: nat) -> AppView
    decreases n,
{
    if n == 0 {
        v
    } else {
        select_previous(select_previous_times(v, (n - 1) as nat))
    }
}

/// Selects the first article.
pub open spec fn select_first(v: AppView) -> AppView {
    AppView { selected: 0, ..v }
}

/// Selects the last shown article (no change when none is shown).
pub open spec fn select_last(v: AppView) -> AppView {
    if shown(v).len() > 0 {
        AppView { selected: (shown(v).len() - 1) as usize, ..v }
    } else {
        v
    }
}

/// Replaces the articles after a refresh at `now`, keeping the selection on
/// the list.
pub open spec fn with_articles(v: AppView, articles: Seq<ArticleView>, now: u128) -> AppView {
    AppView {
        articles,
        selected: if articles.len() > 0 && v.selected >= articles.len() {
            (articles.len() - 1) as usize
        } else {
            v.selected
        },
        last_refresh: now,
        should_reload: false,
        ..v
    }
}

/// Starts typing the address of a feed to add.
pub open spec fn start_adding_feed(v: AppView) -> AppView {
    without_status(AppView { input_mode: InputMode::AddingFeed, input_buffer: Seq::empty(), ..v })
}

/// Stops typing and drops what was typed.
pub open spec fn cancel_input(v: AppView) -> AppView {
    AppView { input_mode: InputMode::Normal, input_buffer: Seq::empty(), ..v }
}

/// Opens the list of subscriptions on `feeds`.
pub open spec fn show_feed_list(v: AppView, feeds: Seq<FeedView>) -> AppView {
    AppView { feeds, feed_selected: 0, input_mode: InputMode::FeedList, ..v }
}

/// Selects the next feed, stopping at the last.
pub open spec fn select_next_feed(v: AppView) -> AppView {
    if v.feeds.len() > 0 && v.feed_selected < v.feeds.len() - 1 {
        AppView { feed_selected: (v.feed_selected + 1) as usize, ..v }
    } else {
        v
    }
}

/// Selects the previous feed, stopping at the first.
pub open spec fn select_previous_feed(v: AppView) -> AppView {
    AppView { feed_selected: sat_dec(v.feed_selected as int) as usize, ..v }
}

/// `select_next_feed` done `n` times.
pub open spec fn select_next_feed_times(v: AppView, n: nat) -> AppView
    decreases n,
{
    if n == 0 {
        v
    } else {
        select_next_feed(select_next_feed_times(v, (n - 1) as nat))
    }
}

/// `select_previous_feed` done `n` times.
pub open spec fn select_previous_feed_times(v: AppView, n: nat) -> AppView
    decreases n,
{
    if n == 0 {
        v
    } else {
        select_previous_feed(select_previous_feed_times(v, (n - 1) as nat))
    }
}

/// Selects the first feed.
pub open spec fn select_first_feed(v: AppView) -> AppView {
    AppView { feed_selected: 0, ..v }
}

/// Selects the last feed (no change when there is none).
pub open spec fn select_last_feed(v: AppView) -> AppView {
    if v.feeds.len() > 0 {
        AppView { feed_selected: (v.feeds.len() - 1) as usize, ..v }
    } else {
        v
    }
}

/// Closes the list of subscriptions and drops the feed filter.
pub open spec fn close_feed_list(v: AppView) -> AppView {
    AppView { input_mode: InputMode::Normal, feeds: Seq::empty(), filter_feed_url: None, ..v }
}

/// Shows only the selected feed's articles (by its title, else its address).
pub open spec fn filter_by_selected_feed(v: AppView) -> AppView {
    if v.feed_selected < v.feeds.len() {
        AppView {
            filter_feed_url: Some(display_name(v.feeds[v.feed_selected as int])),
            input_mode: InputMode::Normal,
            selected: 0,
            ..v
        }
    } else {
        v
    }
}

/// Starts typing a search.
pub open spec fn start_search(v: AppView) -> AppView {
    AppView { input_mode: InputMode::Searching, input_buffer: Seq::empty(), ..v }
}

/// Searches the shown titles for the typed text, ignoring case, and selects
/// the first match.
pub open spec fn execute_search(v: AppView) -> AppView {
    let hits = search_hits(shown(v), lowercase(v.input_buffer), shown(v).len() as int);
    AppView {
        search_query: Some(v.input_buffer),
        search_matches: hits,
        search_current: 0,
        selected: if hits.len() > 0 {
            hits[0]
        } else {
            v.selected
        },
        input_mode: InputMode::Normal,
        ..v
    }
}

/// Selects the next match, after the last going back to the first.
pub open spec fn next_match(v: AppView) -> AppView {
    if v.search_matches.len() == 0 {
        v
    } else {
        let c = ((v.search_current + 1) % (v.search_matches.len() as int)) as usize;
        AppView { search_current: c, selected: v.search_matches[c as int], ..v }
    }
}

/// Selects the previous match, before the first going to the last.
pub open spec fn previous_match(v: AppView) -> AppView {
    if v.search_matches.len() == 0 {
        v
    } else {
        let c = if v.search_current == 0 {
            (v.search_matches.len() - 1) as usize
        } else {
            (v.search_current - 1) as usize
        };
        AppView { search_current: c, selected: v.search_matches[c as int], ..v }
    }
}

/// Forgets the last search.
pub open spec fn clear_search(v: AppView) -> AppView {
    AppView { search_query: None, search_matches: Seq::empty(), search_current: 0, ..v }
}

/// Starts selecting characters at the cursor.
pub open spec fn start_visual_select(v: AppView) -> AppView {
    AppView {
        input_mode: InputMode::VisualSelect,
        visual_select_start: Some((v.article_cursor, v.article_cursor_col)),
        visual_select_end: Some((v.article_cursor, v.article_cursor_col)),
        ..v
    }
}

/// Moves the selection's end one line down, within the article and the line.
pub open spec fn visual_select_down(v: AppView) -> AppView {
    match (v.article_content, v.visual_select_end) {
        (Some(_), Some((row, col))) => if row < sat_dec(screen_lines(v).len() as int) {
            let nr = row + 1;
            let nc = clamp_col(col as int, line_len(screen_lines(v), nr));
            AppView { visual_select_end: Some((nr as usize, nc as usize)), ..v }
        } else {
            v
        },
        _ => v,
    }
}

/// Moves the selection's end one line up, within the article and the line.
pub open spec fn visual_select_up(v: AppView) -> AppView {
    match (v.article_content, v.visual_select_end) {
        (Some(_), Some((row, col))) => if row > 0 {
            let nr = row - 1;
            let nc = clamp_col(col as int, line_len(screen_lines(v), nr));
            AppView { visual_select_end: Some((nr as usize, nc as usize)), ..v }
        } else {
            v
        },
        _ => v,
    }
}

/// Moves the selection's end one character right, within the line.
pub open spec fn visual_select_right(v: AppView) -> AppView {
    match (v.article_content, v.visual_select_end) {
        (Some(_), Some((row, col))) => if row < screen_lines(v).len() && col < sat_dec(
            line_len(screen_lines(v), row as int),
        ) {
            AppView { visual_select_end: Some((row, (col + 1) as usize)), ..v }
        } else {
            v
        },
        _ => v,
    }
}

/// Moves the selection's end one character left, within the line.
pub open spec fn visual_select_left(v: AppView) -> AppView {
    match v.visual_select_end {
        Some((row, col)) => if col > 0 {
            AppView { visual_select_end: Some((row, (col - 1) as usize)), ..v }
        } else {
            v
        },
        None => v,
    }
}

/// Moves the selection's end to the start of the article.
pub open spec fn visual_select_to_top(v: AppView) -> AppView {
    AppView { visual_select_end: Some((0, 0)), ..v }
}

/// Moves the selection's end to the article's last character.
pub open spec fn visual_select_to_bottom(v: AppView) -> AppView {
    if v.article_content is Some && screen_lines(v).len() > 0 {
        let ls = screen_lines(v);
        AppView {
            visual_select_end: Some(((ls.len() - 1) as usize, sat_dec(ls.last().len() as int) as usize)),
            ..v
        }
    } else {
        v
    }
}

/// Stops selecting characters.
pub open spec fn cancel_visual_select(v: AppView) -> AppView {
    AppView {
        input_mode: InputMode::ViewingArticle,
        visual_select_start: None,
        visual_select_end: None,
        ..v
    }
}

/// Starts selecting lines at the cursor's line.
pub open spec fn start_visual_line_select(v: AppView) -> AppView {
    AppView {
        input_mode: InputMode::VisualLine,
        visual_line_start: Some(v.article_cursor),
        visual_line_end: Some(v.article_cursor),
        ..v
    }
}

/// Moves the line selection's end one line down, within the article.
pub open spec fn visual_line_down(v: AppView) -> AppView {
    match v.visual_line_end {
        Some(e) => if screen_lines(v).len() > 0 && e < screen_lines(v).len() - 1 {
            AppView { visual_line_end: Some((e + 1) as usize), ..v }
        } else {
            v
        },
        None => v,
    }
}

/// Moves the line selection's end one line up, within the article.
pub open spec fn visual_line_up(v: AppView) -> AppView {
    match v.visual_line_end {
        Some(e) => if e > 0 {
            AppView { visual_line_end: Some((e - 1) as usize), ..v }
        } else {
            v
        },
        None => v,
    }
}

/// Moves the line selection's end to the first line.
pub open spec fn visual_line_to_top(v: AppView) -> AppView {
    AppView { visual_line_end: Some(0), ..v }
}

/// Moves the line selection's end to the last line.
pub open spec fn visual_line_to_bottom(v: AppView) -> AppView {
    if screen_lines(v).len() > 0 {
        AppView { visual_line_end: Some((screen_lines(v).len() - 1) as usize), ..v }
    } else {
        v
    }
}

/// Stops selecting lines.
pub open spec fn cancel_visual_line_select(v: AppView) -> AppView {
    AppView {
        input_mode: InputMode::ViewingArticle,
        visual_line_start: None,
        visual_line_end: None,
        ..v
    }
}

/// Moves the cursor one line down, within the article.
pub open spec fn cursor_down(v: AppView) -> AppView {
    if screen_lines(v).len() > 0 && v.article_cursor < screen_lines(v).len() - 1 {
        AppView { article_cursor: (v.article_cursor + 1) as usize, ..v }
    } else {
        v
    }
}

/// Moves the cursor one line up, within the article.
pub open spec fn cursor_up(v: AppView) -> AppView {
    AppView { article_cursor: sat_dec(v.article_cursor as int) as usize, ..v }
}

/// `cursor_down` done `n` times.
pub open spec fn cursor_down_times(v: AppView, n: nat) -> AppView
    decreases n,
{
    if n == 0 {
        v
    } else {
        cursor_down(cursor_down_times(v, (n - 1) as nat))
    }
}

/// `cursor_up` done `n` times.
pub open spec fn cursor_up_times(v: AppView, n: nat) -> AppView
    decreases n,
{
    if n == 0 {
        v
    } else {
        cursor_up(cursor_up_times(v, (n - 1) as nat))
    }
}

/// Moves the cursor to the first line.
pub open spec fn cursor_to_top(v: AppView) -> AppView {
    AppView { article_cursor: 0, ..v }
}

/// Moves the cursor to the last line.
pub open spec fn cursor_to_bottom(v: AppView) -> AppView {
    if screen_lines(v).len() > 0 {
        AppView { article_cursor: (screen_lines(v).len() - 1) as usize, ..v }
    } else {
        v
    }
}

/// Moves the cursor one character right, within the line.
pub open spec fn cursor_right(v: AppView) -> AppView {
    if v.article_cursor_col < sat_dec(line_len(screen_lines(v), v.article_cursor as int)) {
        AppView { article_cursor_col: (v.article_cursor_col + 1) as usize, ..v }
    } else {
        v
    }
}

/// Moves the cursor one character left, within the line.
pub open spec fn cursor_left(v: AppView) -> AppView {
    AppView { article_cursor_col: sat_dec(v.article_cursor_col as int) as usize, ..v }
}

/// Moves the cursor to the start of the line.
pub open spec fn cursor_line_start(v: AppView) -> AppView {
    AppView { article_cursor_col: 0, ..v }
}

/// Moves the cursor to the last character of the line.
pub open spec fn cursor_line_end(v: AppView) -> AppView {
    let n = line_len(screen_lines(v), v.article_cursor as int);
    if n > 0 {
        AppView { article_cursor_col: (n - 1) as usize, ..v }
    } else {
        v
    }
}

/// Opens a fetched article, cursor and scroll at its start.
pub open spec fn show_article(v: AppView, content: Seq<char>) -> AppView {
    without_status(
        AppView {
            article_content: Some(content),
            article_scroll: 0,
            input_mode: InputMode::ViewingArticle,
            ..v
        },
    )
}

/// Closes the article and goes back to the list.
pub open spec fn leave_article(v: AppView) -> AppView {
    AppView {
        input_mode: InputMode::Normal,
        article_content: None,
        article_scroll: 0,
        article_cursor: 0,
        article_cursor_col: 0,
        ..v
    }
}

/// Drops the feed filter, selecting the first article, and forgets the
/// search.
pub open spec fn escape_list(v: AppView) -> AppView {
    clear_search(
        if v.filter_feed_url is Some {
            AppView { filter_feed_url: None, selected: 0, ..v }
        } else {
            v
        },
    )
}

/// Types one character.
pub open spec fn type_char(v: AppView, c: char) -> AppView {
    AppView { input_buffer: v.input_buffer.push(c), ..v }
}

/// Deletes the last typed character, if any.
pub open spec fn backspace(v: AppView) -> AppView {
    if v.input_buffer.len() > 0 {
        AppView { input_buffer: v.input_buffer.drop_last(), ..v }
    } else {
        v
    }
}

/// Appends pasted text while a feed address is being typed.
pub open spec fn paste(v: AppView, text: Seq<char>) -> AppView {
    if v.input_mode == InputMode::AddingFeed {
        AppView { input_buffer: v.input_buffer + text, ..v }
    } else {
        v
    }
}

/// The article selection moves within the shown list: from a selected
/// article, going down, up, to the top or to the bottom, any number of
/// times, still selects a shown article; going down and then up comes back
/// to where it was, unless the last article was selected.
pub proof fn law_selection_stays_in_list(v: AppView, n: nat)
    requires
        v.selected < shown(v).len() <= usize::MAX,
    ensures
        select_next(v).selected < shown(v).len(),
        select_previous(v).selected < shown(v).len(),
        select_first(v).selected < shown(v).len(),
        select_last(v).selected < shown(v).len(),
        select_next_times(v, n).selected < shown(v).len(),
        select_previous_times(v, n).selected < shown(v).len(),
        v.selected + 1 < shown(v).len() ==> select_previous(select_next(v)) == v,
    decreases n,
{
    if n > 0 {
        law_selection_stays_in_list(v, (n - 1) as nat);
        lemma_select_times_keep_rest(v, (n - 1) as nat);
        let a = select_next_times(v, (n - 1) as nat);
        let b = select_previous_times(v, (n - 1) as nat);
        assert(shown(a) == shown(v));
        assert(shown(b) == shown(v));
    }
    if v.selected + 1 < shown(v).len() {
        assert(select_previous(select_next(v)) =~= v);
    }
}

proof fn lemma_select_times_keep_rest(v: AppView, n: nat)
    ensures
        select_next_times(v, n) == (AppView { selected: select_next_times(v, n).selected, ..v }),
        select_previous_times(v, n) == (AppView { selected: select_previous_times(v, n).selected, ..v }),
    decreases n,
{
    if n > 0 {
        lemma_select_times_keep_rest(v, (n - 1) as nat);
    }
}

/// The feed selection moves within the feed list: from a selected feed,
/// going down, up, to the top or to the bottom still selects a feed; going
/// down and then up comes back, unless the last feed was selected.
pub proof fn law_feed_selection_stays_in_list(v: AppView)
    requires
        v.feed_selected < v.feeds.len() <= usize::MAX,
    ensures
        select_next_feed(v).feed_selected < v.feeds.len(),
        select_previous_feed(v).feed_selected < v.feeds.len(),
        select_first_feed(v).feed_selected < v.feeds.len(),
        select_last_feed(v).feed_selected < v.feeds.len(),
        v.feed_selected + 1 < v.feeds.len() ==> select_previous_feed(select_next_feed(v)) == v,
{
    if v.feed_selected + 1 < v.feeds.len() {
        assert(select_previous_feed(select_next_feed(v)) =~= v);
    }
}

/// The cursor moves within the article: from a line of it, going down, up,
/// to the top or to the bottom stays on a line of it; going down and then up
/// comes back, unless the cursor was on the last line.
pub proof fn law_cursor_stays_in_article(v: AppView)
    requires
        v.article_cursor < screen_lines(v).len() <= usize::MAX,
    ensures
        cursor_down(v).article_cursor < screen_lines(v).len(),
        cursor_up(v).article_cursor < screen_lines(v).len(),
        cursor_to_top(v).article_cursor < screen_lines(v).len(),
        cursor_to_bottom(v).article_cursor < screen_lines(v).len(),
        v.article_cursor + 1 < screen_lines(v).len() ==> cursor_up(cursor_down(v)) == v,
{
    if v.article_cursor + 1 < screen_lines(v).len() {
        assert(cursor_up(cursor_down(v)) =~= v);
    }
}

/// Deleting the character just typed gives back what was typed before.
pub proof fn law_backspace_undoes_typing(v: AppView, c: char)
    ensures
        backspace(type_char(v, c)) == v,
{
    assert(v.input_buffer.push(c).drop_last() =~= v.input_buffer);
}

/// Starting a selection while reading and cancelling it gives back the
/// screen as it was.
pub proof fn law_cancelled_selection_changes_nothing(v: AppView)
    requires
        v.input_mode == InputMode::ViewingArticle,
    ensures
        v.visual_select_start is None && v.visual_select_end is None ==> cancel_visual_select(
            start_visual_select(v),
        ) == v,
        v.visual_line_start is None && v.visual_line_end is None ==> cancel_visual_line_select(
            start_visual_line_select(v),
        ) == v,
{
}

/// Going to the previous match right after the next one comes back to the
/// same match.
pub proof fn law_previous_match_undoes_next(v: AppView)
    requires
        v.search_current < v.search_matches.len() <= usize::MAX,
        v.selected == v.search_matches[v.search_current as int],
    ensures
        previous_match(next_match(v)) == v,
{
    let n = v.search_matches.len() as int;
    if v.search_current + 1 < n {
        vstd::arithmetic::div_mod::lemma_small_mod((v.search_current + 1) as nat, n as nat);
    } else {
        vstd::arithmetic::div_mod::lemma_mod_self_0(n);
    }
    assert(previous_match(next_match(v)) =~= v);
}

/// A status message stays until it has been shown for the status duration,
/// and goes then.
pub proof fn law_status_expires(v: AppView, message: Seq<char>, shown_at: u128, now: u128)
    ensures
        expire_status(with_status(v, message, shown_at), now) == if elapsed(now, shown_at)
            >= STATUS_MESSAGE_DURATION_NANOS {
            without_status(v)
        } else {
            with_status(v, message, shown_at)
        },
{
}

/// Leaving an article just opened goes back to the list with no article
/// open and the cursor at the start.
pub proof fn law_leave_closes_article(v: AppView, content: Seq<char>)
    ensures
        leave_article(show_article(v, content)).input_mode == InputMode::Normal,
        leave_article(show_article(v, content)).article_content is None,
        leave_article(show_article(v, content)).article_cursor == 0,
        leave_article(show_article(v, content)).article_cursor_col == 0,
        leave_article(show_article(v, content)).articles == v.articles,
        leave_article(show_article(v, content)).selected == v.selected,
{
}

/// A search finds exactly the texts that hold the query: every index it
/// reports is that of such a text among the first `n`, each such text is
/// reported, and the indices come in increasing order.
pub proof fn law_search_finds_exactly_the_matches(texts: Seq<Seq<char>>, query: Seq<char>, n: int)
    requires
        0 <= n <= texts.len(),
        n <= usize::MAX + 1,
    ensures
        forall|k: int|
            0 <= k < text_hits(texts, query, n).len() ==> #[trigger] text_hits(texts, query, n)[k] < n
                && occurs_in(query, texts[text_hits(texts, query, n)[k] as int]),
        forall|i: int|
            0 <= i < n && #[trigger] occurs_in(query, texts[i]) ==> text_hits(texts, query, n).contains(
                i as usize,
            ),
        forall|j: int, k: int|
            0 <= j < k < text_hits(texts, query, n).len() ==> #[trigger] text_hits(texts, query, n)[j]
                < #[trigger] text_hits(texts, query, n)[k],
    decreases n,
{
    if n > 0 {
        law_search_finds_exactly_the_matches(texts, query, n - 1);
        let h = text_hits(texts, query, n - 1);
        let r = text_hits(texts, query, n);
        if occurs_in(query, texts[n - 1]) {
            assert(r == h.push((n - 1) as usize));
            assert(r[h.len() as int] == (n - 1) as usize);
            assert forall|i: int| 0 <= i < n && #[trigger] occurs_in(query, texts[i]) implies r.contains(
                i as usize,
            ) by {
                if i < n - 1 {
                    let k = choose|k: int| 0 <= k < h.len() && h[k] == i as usize;
                    assert(r[k] == h[k]);
                }
            }
            assert forall|k: int| 0 <= k < r.len() implies #[trigger] r[k] < n && occurs_in(
                query,
                texts[r[k] as int],
            ) by {
                if k < h.len() {
                    assert(r[k] == h[k]);
                }
            }
            assert forall|j: int, k: int| 0 <= j < k < r.len() implies #[trigger] r[j] < #[trigger] r[k] by {
                assert(r[j] == h[j]);
                if k < h.len() {
                    assert(r[k] == h[k]);
                }
            }
        } else {
            assert(r =~= h);
        }
    }
}


/// A search looks only at the articles on screen: every match it records is
/// the index of a shown article whose title, in lower case, holds the
/// lower-cased query; every such shown article is a match, in list order;
/// the first match becomes the selection and the current match.
pub proof fn law_search_matches_shown(v: AppView)
    requires
        shown(v).len() <= usize::MAX,
    ensures
        forall|k: int|
            0 <= k < execute_search(v).search_matches.len() ==> (#[trigger] execute_search(v).search_matches[k])
                < shown(v).len() && occurs_in(
                lowercase(v.input_buffer),
                lowercase(shown(v)[execute_search(v).search_matches[k] as int].title),
            ),
        forall|i: int|
            0 <= i < shown(v).len() && occurs_in(lowercase(v.input_buffer), lowercase(#[trigger] shown(v)[i].title))
                ==> execute_search(v).search_matches.contains(i as usize),
        forall|j: int, k: int|
            0 <= j < k < execute_search(v).search_matches.len() ==> #[trigger] execute_search(v).search_matches[j]
                < #[trigger] execute_search(v).search_matches[k],
        execute_search(v).search_matches.len() > 0 ==> execute_search(v).selected
            == execute_search(v).search_matches[0] && execute_search(v).search_current == 0,
{
    let s = shown(v);
    let t = lowered_titles(s);
    let q = lowercase(v.input_buffer);
    law_search_finds_exactly_the_matches(t, q, s.len() as int);
    assert forall|i: int| 0 <= i < s.len() && occurs_in(q, lowercase(#[trigger] s[i].title)) implies execute_search(
        v,
    ).search_matches.contains(i as usize) by {
        assert(t[i] == lowercase(s[i].title));
    }
    assert forall|k: int| 0 <= k < execute_search(v).search_matches.len() implies (#[trigger] execute_search(
        v,
    ).search_matches[k]) < s.len() && occurs_in(q, lowercase(s[execute_search(v).search_matches[k] as int].title)) by {
        let m = execute_search(v).search_matches[k] as int;
        assert(t[m] == lowercase(s[m].title));
    }
}

} // verus!
