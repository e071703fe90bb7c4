use vstd::prelude::*;
use crate::app::{App, selection_text, selection_text_defined, selected_lines_text};
use crate::feed::opt_view;
use crate::screen::{AppView, InputMode, screen_lines, backspace, cancel_input, cancel_visual_line_select, cancel_visual_select, clear_search, close_feed_list, cursor_down, cursor_down_times, cursor_left, cursor_line_end, cursor_line_start, cursor_right, cursor_to_bottom, cursor_to_top, cursor_up, cursor_up_times, escape_list, execute_search, filter_by_selected_feed, leave_article, next_match, paste, previous_match, select_first, select_first_feed, select_last, select_last_feed, select_next, select_next_feed, select_next_feed_times, select_next_times, select_previous, select_previous_feed, select_previous_feed_times, select_previous_times, show_article, shown, start_adding_feed, start_search, start_visual_line_select, start_visual_select, type_char, visual_line_down, visual_line_to_bottom, visual_line_to_top, visual_line_up, visual_select_down, visual_select_left, visual_select_right, visual_select_to_bottom, visual_select_to_top, visual_select_up, with_status};
use crate::text::{append_chars, chars_of, string_of};

verus! {

/// A key, as far as the reader tells keys apart.
#[derive(Debug, Clone, Copy, PartialEq, Eq, Structural)]
pub enum KeyCode {
    Char(char),
    Enter,
    Esc,
    Up,
    Down,
    Left,
    Right,
    Backspace,
    Other,
}

/// A key press with the modifiers the reader looks at.
#[derive(Debug, Clone, Copy, PartialEq, Eq, Structural)]
pub struct Key {
    pub code: KeyCode,
    pub ctrl: bool,
    pub super_key: bool,
}

/// Work that a key asks of the caller, beyond changing the screen.
#[derive(Debug, Clone, PartialEq, Eq)]
pub enum Action {
    Nothing,
    /// Fetch and open this article.
    OpenArticle(String),
    /// Open this address in the web browser.
    OpenInBrowser(String),
    /// Load the subscriptions and show their list.
    ShowFeedList,
    /// Unsubscribe from the selected feed.
    DeleteFeed,
    /// Sort the subscriptions by name.
    SortFeeds,
    /// Subscribe to this address.
    AddFeed(String),
    /// Paste the clipboard's text into the address being typed.
    PasteFromClipboard,
    /// Copy this text to the clipboard.
    Copy(String),
}

/// What an action holds, as plain values.
pub enum ActionView {
    Nothing,
    OpenArticle(Seq<char>),
    OpenInBrowser(Seq<char>),
    ShowFeedList,
    DeleteFeed,
    SortFeeds,
    AddFeed(Seq<char>),
    PasteFromClipboard,
    Copy(Seq<char>),
}

impl View for Action {
    type V = ActionView;

    open spec fn view(&self) -> ActionView {
        match self {
            Action::Nothing => ActionView::Nothing,
            Action::OpenArticle(s) => ActionView::OpenArticle(s@),
            Action::OpenInBrowser(s) => ActionView::OpenInBrowser(s@),
            Action::ShowFeedList => ActionView::ShowFeedList,
            Action::DeleteFeed => ActionView::DeleteFeed,
            Action::SortFeeds => ActionView::SortFeeds,
            Action::AddFeed(s) => ActionView::AddFeed(s@),
            Action::PasteFromClipboard => ActionView::PasteFromClipboard,
            Action::Copy(s) => ActionView::Copy(s@),
        }
    }
}

/// What a key press gives: the work to do, and whether the article list's
/// highlight is to follow the selection afterwards.
#[derive(Debug)]
pub struct KeyOutcome {
    pub action: Action,
    pub sync_list: bool,
}

/// A screen change with no further work.
pub open spec fn only(v: AppView, sync: bool) -> (AppView, ActionView, bool) {
    (v, ActionView::Nothing, sync)
}

/// The selected article's address, if one is selected.
pub open spec fn selected_link(v: AppView) -> Option<Seq<char>> {
    if v.selected < shown(v).len() {
        Some(shown(v)[v.selected as int].link)
    } else {
        None
    }
}

/// Opens the selected article in the browser, if one is selected.
pub open spec fn open_selected(v: AppView) -> (AppView, ActionView, bool) {
    match selected_link(v) {
        Some(l) => (v, ActionView::OpenInBrowser(l), false),
        None => only(v, false),
    }
}

/// The keys of the article list.
pub open spec fn normal_key(v: AppView, k: Key, now: u128) -> (AppView, ActionView, bool) {
    let c = k.code;
    if c == KeyCode::Char('c') && k.ctrl {
        only(AppView { should_quit: true, ..v }, false)
    } else if c == KeyCode::Char('q') {
        only(AppView { should_quit: true, ..v }, false)
    } else if c == KeyCode::Esc {
        only(escape_list(v), false)
    } else if c == KeyCode::Down || c == KeyCode::Char('j') {
        only(select_next(v), true)
    } else if c == KeyCode::Up || c == KeyCode::Char('k') {
        only(select_previous(v), true)
    } else if c == KeyCode::Char('g') {
        only(select_first(v), true)
    } else if c == KeyCode::Char('G') {
        only(select_last(v), true)
    } else if c == KeyCode::Char('d') && k.ctrl {
        only(select_next_times(v, 10), true)
    } else if c == KeyCode::Char('u') && k.ctrl {
        only(select_previous_times(v, 10), true)
    } else if c == KeyCode::Enter {
        match selected_link(v) {
            Some(l) => (with_status(v, "Loading..."@, now), ActionView::OpenArticle(l), false),
            None => only(v, false),
        }
    } else if c == KeyCode::Char('o') {
        open_selected(v)
    } else if c == KeyCode::Char('r') {
        only(AppView { should_reload: true, ..v }, false)
    } else if c == KeyCode::Char('a') {
        only(start_adding_feed(v), false)
    } else if c == KeyCode::Char('l') {
        (v, ActionView::ShowFeedList, false)
    } else if c == KeyCode::Char('/') {
        only(start_search(v), false)
    } else if c == KeyCode::Char('n') {
        only(next_match(v), true)
    } else if c == KeyCode::Char('N') {
        only(previous_match(v), true)
    } else {
        only(v, false)
    }
}

/// The keys of the list of subscriptions.
pub open spec fn feed_list_key(v: AppView, k: Key) -> (AppView, ActionView, bool) {
    let c = k.code;
    if c == KeyCode::Esc {
        only(close_feed_list(v), false)
    } else if c == KeyCode::Down || c == KeyCode::Char('j') {
        only(select_next_feed(v), false)
    } else if c == KeyCode::Up || c == KeyCode::Char('k') {
        only(select_previous_feed(v), false)
    } else if c == KeyCode::Char('g') {
        only(select_first_feed(v), false)
    } else if c == KeyCode::Char('G') {
        only(select_last_feed(v), false)
    } else if c == KeyCode::Char('u') && k.ctrl {
        only(select_previous_feed_times(v, 10), false)
    } else if c == KeyCode::Enter {
        only(filter_by_selected_feed(v), false)
    } else if c == KeyCode::Char('o') {
        if v.feed_selected < v.feeds.len() {
            (v, ActionView::OpenInBrowser(v.feeds[v.feed_selected as int].url), false)
        } else {
            only(v, false)
        }
    } else if c == KeyCode::Char('a') {
        only(start_adding_feed(v), false)
    } else if c == KeyCode::Char('d') && !k.ctrl {
        (v, ActionView::DeleteFeed, false)
    } else if c == KeyCode::Char('d') && k.ctrl {
        only(select_next_feed_times(v, 10), false)
    } else if c == KeyCode::Char('s') {
        (v, ActionView::SortFeeds, false)
    } else {
        only(v, false)
    }
}

/// The keys while a feed address is typed.
pub open spec fn adding_feed_key(v: AppView, k: Key) -> (AppView, ActionView, bool) {
    let c = k.code;
    if c == KeyCode::Esc {
        only(cancel_input(v), false)
    } else if c == KeyCode::Enter {
        if v.input_buffer.len() > 0 {
            (cancel_input(v), ActionView::AddFeed(v.input_buffer), true)
        } else {
            only(cancel_input(v), false)
        }
    } else if c == KeyCode::Char('v') && (k.ctrl || k.super_key) {
        only(v, false)
    } else if c == KeyCode::Char('p') {
        (v, ActionView::PasteFromClipboard, false)
    } else if let KeyCode::Char(ch) = c {
        only(type_char(v, ch), false)
    } else if c == KeyCode::Backspace {
        only(backspace(v), false)
    } else {
        only(v, false)
    }
}

/// The keys while an article is read, in a view `rows` lines high: Ctrl+d
/// and Ctrl+u move the cursor half a page, Ctrl+f and Ctrl+b a full page.
pub open spec fn article_key(v: AppView, k: Key, rows: usize) -> (AppView, ActionView, bool) {
    let c = k.code;
    if c == KeyCode::Esc || c == KeyCode::Char('q') {
        only(leave_article(v), false)
    } else if c == KeyCode::Down || c == KeyCode::Char('j') {
        only(cursor_down(v), false)
    } else if c == KeyCode::Up || c == KeyCode::Char('k') {
        only(cursor_up(v), false)
    } else if c == KeyCode::Left || c == KeyCode::Char('h') {
        only(cursor_left(v), false)
    } else if c == KeyCode::Right || c == KeyCode::Char('l') {
        only(cursor_right(v), false)
    } else if c == KeyCode::Char('0') {
        only(cursor_line_start(v), false)
    } else if c == KeyCode::Char('$') {
        only(cursor_line_end(v), false)
    } else if c == KeyCode::Char('g') {
        only(cursor_to_top(v), false)
    } else if c == KeyCode::Char('G') {
        only(cursor_to_bottom(v), false)
    } else if c == KeyCode::Char('d') && k.ctrl {
        only(cursor_down_times(v, (rows / 2) as nat), false)
    } else if c == KeyCode::Char('u') && k.ctrl {
        only(cursor_up_times(v, (rows / 2) as nat), false)
    } else if c == KeyCode::Char('f') && k.ctrl {
        only(cursor_down_times(v, rows as nat), false)
    } else if c == KeyCode::Char('b') && k.ctrl {
        only(cursor_up_times(v, rows as nat), false)
    } else if c == KeyCode::Char('o') {
        open_selected(v)
    } else if c == KeyCode::Char('v') {
        only(start_visual_select(v), false)
    } else if c == KeyCode::Char('V') {
        only(start_visual_line_select(v), false)
    } else {
        only(v, false)
    }
}

/// The keys while a search is typed.
pub open spec fn searching_key(v: AppView, k: Key) -> (AppView, ActionView, bool) {
    let c = k.code;
    if c == KeyCode::Esc {
        only(cancel_input(v), false)
    } else if c == KeyCode::Enter {
        if v.input_buffer.len() > 0 {
            only(execute_search(v), true)
        } else {
            only(AppView { input_mode: InputMode::Normal, ..v }, false)
        }
    } else if let KeyCode::Char(ch) = c {
        only(type_char(v, ch), false)
    } else if c == KeyCode::Backspace {
        only(backspace(v), false)
    } else {
        only(v, false)
    }
}

/// The keys while characters are selected.
pub open spec fn visual_select_key(v: AppView, k: Key) -> (AppView, ActionView, bool) {
    let c = k.code;
    if c == KeyCode::Esc {
        only(cancel_visual_select(v), false)
    } else if c == KeyCode::Down || c == KeyCode::Char('j') {
        only(visual_select_down(v), false)
    } else if c == KeyCode::Up || c == KeyCode::Char('k') {
        only(visual_select_up(v), false)
    } else if c == KeyCode::Left || c == KeyCode::Char('h') {
        only(visual_select_left(v), false)
    } else if c == KeyCode::Right || c == KeyCode::Char('l') {
        only(visual_select_right(v), false)
    } else if c == KeyCode::Char('g') {
        only(visual_select_to_top(v), false)
    } else if c == KeyCode::Char('G') {
        only(visual_select_to_bottom(v), false)
    } else if c == KeyCode::Char('y') {
        match selection_text(v.article_content, v.visual_select_start, v.visual_select_end) {
            Some(t) => (cancel_visual_select(v), ActionView::Copy(t), false),
            None => only(cancel_visual_select(v), false),
        }
    } else {
        only(v, false)
    }
}

/// The keys while lines are selected.
pub open spec fn visual_line_key(v: AppView, k: Key) -> (AppView, ActionView, bool) {
    let c = k.code;
    if c == KeyCode::Esc {
        only(cancel_visual_line_select(v), false)
    } else if c == KeyCode::Down || c == KeyCode::Char('j') {
        only(visual_line_down(v), false)
    } else if c == KeyCode::Up || c == KeyCode::Char('k') {
        only(visual_line_up(v), false)
    } else if c == KeyCode::Char('g') {
        only(visual_line_to_top(v), false)
    } else if c == KeyCode::Char('G') {
        only(visual_line_to_bottom(v), false)
    } else if c == KeyCode::Char('y') {
        match selected_lines_text(v.article_content, v.visual_line_start, v.visual_line_end) {
            Some(t) => (cancel_visual_line_select(v), ActionView::Copy(t), false),
            None => only(cancel_visual_line_select(v), false),
        }
    } else {
        only(v, false)
    }
}

/// What a key press does on a screen, by the mode the screen is in: the
/// new screen, the work it asks for, and whether the list highlight follows.
pub open spec fn key_step(v: AppView, k: Key, now: u128, rows: usize) -> (AppView, ActionView, bool) {
    match v.input_mode {
        InputMode::Normal => normal_key(v, k, now),
        InputMode::FeedList => feed_list_key(v, k),
        InputMode::AddingFeed => adding_feed_key(v, k),
        InputMode::ViewingArticle => article_key(v, k, rows),
        InputMode::Searching => searching_key(v, k),
        InputMode::VisualSelect => visual_select_key(v, k),
        InputMode::VisualLine => visual_line_key(v, k),
    }
}

/// The key can be handled without indexing out of range or overflowing:
/// match steps need a current match within reach, and copying a character
/// selection needs a selection that can be read.
pub open spec fn key_step_defined(v: AppView, k: Key) -> bool {
    match v.input_mode {
        InputMode::Normal => {
            &&& k.code == KeyCode::Char('n') ==> (v.search_matches.len() == 0 || v.search_current
                < usize::MAX)
            &&& k.code == KeyCode::Char('N') ==> (v.search_matches.len() == 0 || v.search_current
                <= v.search_matches.len())
        },
        InputMode::VisualSelect => k.code == KeyCode::Char('y') ==> selection_text_defined(
            v.article_content,
            v.visual_select_start,
            v.visual_select_end,
        ),
        _ => true,
    }
}

impl App {
    fn select_next_times(&mut self, n: usize)
        ensures
            final(self)@ == select_next_times(old(self)@, n as nat),
    {
        let mut i: usize = 0;
        while i < n
            invariant
                i <= n,
                self@ == select_next_times(old(self)@, i as nat),
            decreases n - i,
        {
            self.select_next();
            i += 1;
        }
    }

    fn select_previous_times(&mut self, n: usize)
        ensures
            final(self)@ == select_previous_times(old(self)@, n as nat),
    {
        let mut i: usize = 0;
        while i < n
            invariant
                i <= n,
                self@ == select_previous_times(old(self)@, i as nat),
            decreases n - i,
        {
            self.select_previous();
            i += 1;
        }
    }

    fn select_next_feed_times(&mut self, n: usize)
        ensures
            final(self)@ == select_next_feed_times(old(self)@, n as nat),
    {
        let mut i: usize = 0;
        while i < n
            invariant
                i <= n,
                self@ == select_next_feed_times(old(self)@, i as nat),
            decreases n - i,
        {
            self.select_next_feed();
            i += 1;
        }
    }

    fn select_previous_feed_times(&mut self, n: usize)
        ensures
            final(self)@ == select_previous_feed_times(old(self)@, n as nat),
    {
        let mut i: usize = 0;
        while i < n
            invariant
                i <= n,
                self@ == select_previous_feed_times(old(self)@, i as nat),
            decreases n - i,
        {
            self.select_previous_feed();
            i += 1;
        }
    }

    fn cursor_down_times(&mut self, n: usize)
        ensures
            final(self)@ == cursor_down_times(old(self)@, n as nat),
    {
        let mut i: usize = 0;
        while i < n
            invariant
                i <= n,
                self@ == cursor_down_times(old(self)@, i as nat),
            decreases n - i,
        {
            self.article_cursor_down();
            i += 1;
        }
    }

    fn cursor_up_times(&mut self, n: usize)
        ensures
            final(self)@ == cursor_up_times(old(self)@, n as nat),
    {
        let mut i: usize = 0;
        while i < n
            invariant
                i <= n,
                self@ == cursor_up_times(old(self)@, i as nat),
            decreases n - i,
        {
            self.article_cursor_up();
            i += 1;
        }
    }

    /// Opens a fetched article at its start.
    pub fn show_article(&mut self, content: String)
        ensures
            final(self)@ == show_article(old(self)@, content@),
    {
        self.article_content = Some(content);
        self.article_scroll = 0;
        self.input_mode = InputMode::ViewingArticle;
        self.clear_status();
    }

    fn leave_article(&mut self)
        ensures
            final(self)@ == leave_article(old(self)@),
    {
        self.input_mode = InputMode::Normal;
        self.article_content = None;
        self.article_scroll = 0;
        self.article_cursor = 0;
        self.article_cursor_col = 0;
    }

    fn escape_list(&mut self)
        ensures
            final(self)@ == escape_list(old(self)@),
    {
        if self.filter_feed_url.is_some() {
            self.filter_feed_url = None;
            self.selected = 0;
        }
        self.clear_search();
    }

    fn type_char(&mut self, c: char)
        ensures
            final(self)@ == type_char(old(self)@, c),
    {
        crate::text::push_char(&mut self.input_buffer, c);
    }

    fn backspace(&mut self)
        ensures
            final(self)@ == backspace(old(self)@),
    {
        let mut chars = chars_of(self.input_buffer.as_str());
        if chars.len() > 0 {
            chars.pop();
            self.input_buffer = string_of(&chars);
        }
    }

    /// Appends pasted text to the feed address being typed.
    pub fn paste(&mut self, text: &str)
        ensures
            final(self)@ == paste(old(self)@, text@),
    {
        if self.input_mode == InputMode::AddingFeed {
            let mut chars = chars_of(self.input_buffer.as_str());
            append_chars(&mut chars, &chars_of(text));
            self.input_buffer = string_of(&chars);
        }
    }

    fn selected_link(&self) -> (r: Option<String>)
        ensures
            opt_view(r) == selected_link(self@),
    {
        match self.selected_article() {
            Some(a) => Some(a.link.clone()),
            None => None,
        }
    }

    /// Tells whether `key` can be handled on this screen (see
    /// `key_step_defined`).
    pub fn key_defined(&self, key: Key) -> (r: bool)
        ensures
            r == key_step_defined(self@, key),
    {
        match self.input_mode {
            InputMode::Normal => {
                let n_ok = key.code != KeyCode::Char('n') || self.search_matches.len() == 0
                    || self.search_current < usize::MAX;
                let p_ok = key.code != KeyCode::Char('N') || self.search_matches.len() == 0
                    || self.search_current <= self.search_matches.len();
                n_ok && p_ok
            },
            InputMode::VisualSelect => key.code != KeyCode::Char('y') || self.selected_text_defined(),
            _ => true,
        }
    }

    /// Handles a key press, the article view being `rows` lines high:
    /// changes the screen as `key_step` says and returns the work it asks for.
    pub fn handle_key(&mut self, key: Key, now: u128, rows: usize) -> (r: KeyOutcome)
        requires
            key_step_defined(old(self)@, key),
        ensures
            (final(self)@, r.action@, r.sync_list) == key_step(old(self)@, key, now, rows),
    {
        let c = key.code;
        match self.input_mode {
            InputMode::Normal => {
                if c == KeyCode::Char('c') && key.ctrl {
                    self.quit();
                } else if c == KeyCode::Char('q') {
                    self.quit();
                } else if c == KeyCode::Esc {
                    self.escape_list();
                } else if c == KeyCode::Down || c == KeyCode::Char('j') {
                    self.select_next();
                    return KeyOutcome { action: Action::Nothing, sync_list: true };
                } else if c == KeyCode::Up || c == KeyCode::Char('k') {
                    self.select_previous();
                    return KeyOutcome { action: Action::Nothing, sync_list: true };
                } else if c == KeyCode::Char('g') {
                    self.select_first();
                    return KeyOutcome { action: Action::Nothing, sync_list: true };
                } else if c == KeyCode::Char('G') {
                    self.select_last();
                    return KeyOutcome { action: Action::Nothing, sync_list: true };
                } else if c == KeyCode::Char('d') && key.ctrl {
                    self.select_next_times(10);
                    return KeyOutcome { action: Action::Nothing, sync_list: true };
                } else if c == KeyCode::Char('u') && key.ctrl {
                    self.select_previous_times(10);
                    return KeyOutcome { action: Action::Nothing, sync_list: true };
                } else if c == KeyCode::Enter {
                    if let Some(link) = self.selected_link() {
                        self.set_status(string_of(&chars_of("Loading...")), now);
                        return KeyOutcome { action: Action::OpenArticle(link), sync_list: false };
                    }
                } else if c == KeyCode::Char('o') {
                    if let Some(link) = self.selected_link() {
                        return KeyOutcome { action: Action::OpenInBrowser(link), sync_list: false };
                    }
                } else if c == KeyCode::Char('r') {
                    self.request_reload();
                } else if c == KeyCode::Char('a') {
                    self.start_adding_feed();
                } else if c == KeyCode::Char('l') {
                    return KeyOutcome { action: Action::ShowFeedList, sync_list: false };
                } else if c == KeyCode::Char('/') {
                    self.start_search();
                } else if c == KeyCode::Char('n') {
                    self.next_match();
                    return KeyOutcome { action: Action::Nothing, sync_list: true };
                } else if c == KeyCode::Char('N') {
                    self.previous_match();
                    return KeyOutcome { action: Action::Nothing, sync_list: true };
                }
                KeyOutcome { action: Action::Nothing, sync_list: false }
            },
            InputMode::FeedList => {
                if c == KeyCode::Esc {
                    self.close_feed_list();
                } else if c == KeyCode::Down || c == KeyCode::Char('j') {
                    self.select_next_feed();
                } else if c == KeyCode::Up || c == KeyCode::Char('k') {
                    self.select_previous_feed();
                } else if c == KeyCode::Char('g') {
                    self.select_first_feed();
                } else if c == KeyCode::Char('G') {
                    self.select_last_feed();
                } else if c == KeyCode::Char('u') && key.ctrl {
                    self.select_previous_feed_times(10);
                } else if c == KeyCode::Enter {
                    self.filter_by_selected_feed();
                } else if c == KeyCode::Char('o') {
                    if self.feed_selected < self.feeds.len() {
                        let url = self.feeds[self.feed_selected].url.clone();
                        return KeyOutcome { action: Action::OpenInBrowser(url), sync_list: false };
                    }
                } else if c == KeyCode::Char('a') {
                    self.start_adding_feed();
                } else if c == KeyCode::Char('d') && !key.ctrl {
                    return KeyOutcome { action: Action::DeleteFeed, sync_list: false };
                } else if c == KeyCode::Char('d') && key.ctrl {
                    self.select_next_feed_times(10);
                } else if c == KeyCode::Char('s') {
                    return KeyOutcome { action: Action::SortFeeds, sync_list: false };
                }
                KeyOutcome { action: Action::Nothing, sync_list: false }
            },
            InputMode::AddingFeed => {
                if c == KeyCode::Esc {
                    self.cancel_input();
                } else if c == KeyCode::Enter {
                    if !self.input_buffer.as_str().is_empty() {
                        let url = self.input_buffer.clone();
                        self.cancel_input();
                        return KeyOutcome { action: Action::AddFeed(url), sync_list: true };
                    }
                    self.cancel_input();
                } else if c == KeyCode::Char('v') && (key.ctrl || key.super_key) {
                } else if c == KeyCode::Char('p') {
                    return KeyOutcome { action: Action::PasteFromClipboard, sync_list: false };
                } else if let KeyCode::Char(ch) = c {
                    self.type_char(ch);
                } else if c == KeyCode::Backspace {
                    self.backspace();
                }
                KeyOutcome { action: Action::Nothing, sync_list: false }
            },
            InputMode::ViewingArticle => {
                if c == KeyCode::Esc || c == KeyCode::Char('q') {
                    self.leave_article();
                } else if c == KeyCode::Down || c == KeyCode::Char('j') {
                    self.article_cursor_down();
                } else if c == KeyCode::Up || c == KeyCode::Char('k') {
                    self.article_cursor_up();
                } else if c == KeyCode::Left || c == KeyCode::Char('h') {
                    self.article_cursor_left();
                } else if c == KeyCode::Right || c == KeyCode::Char('l') {
                    self.article_cursor_right();
                } else if c == KeyCode::Char('0') {
                    self.article_cursor_line_start();
                } else if c == KeyCode::Char('$') {
                    self.article_cursor_line_end();
                } else if c == KeyCode::Char('g') {
                    self.article_cursor_to_top();
                } else if c == KeyCode::Char('G') {
                    self.article_cursor_to_bottom();
                } else if c == KeyCode::Char('d') && key.ctrl {
                    self.cursor_down_times(rows / 2);
                } else if c == KeyCode::Char('u') && key.ctrl {
                    self.cursor_up_times(rows / 2);
                } else if c == KeyCode::Char('f') && key.ctrl {
                    self.cursor_down_times(rows);
                } else if c == KeyCode::Char('b') && key.ctrl {
                    self.cursor_up_times(rows);
                } else if c == KeyCode::Char('o') {
                    if let Some(link) = self.selected_link() {
                        return KeyOutcome { action: Action::OpenInBrowser(link), sync_list: false };
                    }
                } else if c == KeyCode::Char('v') {
                    self.start_visual_select();
                } else if c == KeyCode::Char('V') {
                    self.start_visual_line_select();
                }
                KeyOutcome { action: Action::Nothing, sync_list: false }
            },
            InputMode::Searching => {
                if c == KeyCode::Esc {
                    self.cancel_input();
                } else if c == KeyCode::Enter {
                    if !self.input_buffer.as_str().is_empty() {
                        self.execute_search();
                        return KeyOutcome { action: Action::Nothing, sync_list: true };
                    }
                    self.input_mode = InputMode::Normal;
                } else if let KeyCode::Char(ch) = c {
                    self.type_char(ch);
                } else if c == KeyCode::Backspace {
                    self.backspace();
                }
                KeyOutcome { action: Action::Nothing, sync_list: false }
            },
            InputMode::VisualSelect => {
                if c == KeyCode::Esc {
                    self.cancel_visual_select();
                } else if c == KeyCode::Down || c == KeyCode::Char('j') {
                    self.visual_select_down();
                } else if c == KeyCode::Up || c == KeyCode::Char('k') {
                    self.visual_select_up();
                } else if c == KeyCode::Left || c == KeyCode::Char('h') {
                    self.visual_select_left();
                } else if c == KeyCode::Right || c == KeyCode::Char('l') {
                    self.visual_select_right();
                } else if c == KeyCode::Char('g') {
                    self.visual_select_to_top();
                } else if c == KeyCode::Char('G') {
                    self.visual_select_to_bottom();
                } else if c == KeyCode::Char('y') {
                    let text = self.get_selected_text();
                    self.cancel_visual_select();
                    if let Some(t) = text {
                        return KeyOutcome { action: Action::Copy(t), sync_list: false };
                    }
                }
                KeyOutcome { action: Action::Nothing, sync_list: false }
            },
            InputMode::VisualLine => {
                if c == KeyCode::Esc {
                    self.cancel_visual_line_select();
                } else if c == KeyCode::Down || c == KeyCode::Char('j') {
                    self.visual_line_down();
                } else if c == KeyCode::Up || c == KeyCode::Char('k') {
                    self.visual_line_up();
                } else if c == KeyCode::Char('g') {
                    self.visual_line_to_top();
                } else if c == KeyCode::Char('G') {
                    self.visual_line_to_bottom();
                } else if c == KeyCode::Char('y') {
                    let text = self.get_selected_lines();
                    self.cancel_visual_line_select();
                    if let Some(t) = text {
                        return KeyOutcome { action: Action::Copy(t), sync_list: false };
                    }
                }
                KeyOutcome { action: Action::Nothing, sync_list: false }
            },
        }
    }
}

proof fn lemma_cursor_moves_keep_rest(v: AppView, n: nat)
    requires
        v.article_cursor < screen_lines(v).len() <= usize::MAX,
    ensures
        cursor_down_times(v, n) == (AppView { article_cursor: cursor_down_times(v, n).article_cursor, ..v }),
        cursor_up_times(v, n) == (AppView { article_cursor: cursor_up_times(v, n).article_cursor, ..v }),
        cursor_down_times(v, n).article_cursor < screen_lines(v).len(),
        cursor_up_times(v, n).article_cursor < screen_lines(v).len(),
    decreases n,
{
    if n > 0 {
        lemma_cursor_moves_keep_rest(v, (n - 1) as nat);
        let a = cursor_down_times(v, (n - 1) as nat);
        let b = cursor_up_times(v, (n - 1) as nat);
        assert(screen_lines(a) == screen_lines(v));
        assert(screen_lines(b) == screen_lines(v));
    }
}

/// While an article is read, every key keeps the cursor on a line of the
/// article, unless it leaves the article.
pub proof fn law_article_keys_keep_cursor(v: AppView, k: Key, now: u128, rows: usize)
    requires
        v.input_mode == InputMode::ViewingArticle,
        v.article_cursor < screen_lines(v).len() <= usize::MAX,
    ensures
        key_step(v, k, now, rows).0.input_mode != InputMode::Normal ==> key_step(v, k, now, rows).0.article_cursor
            < screen_lines(key_step(v, k, now, rows).0).len(),
        key_step(v, k, now, rows).0.articles == v.articles,
{
    let half = (rows / 2) as nat;
    let full = rows as nat;
    lemma_cursor_moves_keep_rest(v, half);
    lemma_cursor_moves_keep_rest(v, full);
    let a = cursor_down_times(v, half);
    let b = cursor_up_times(v, half);
    let c = cursor_down_times(v, full);
    let d = cursor_up_times(v, full);
    assert(screen_lines(a) == screen_lines(v) && screen_lines(b) == screen_lines(v));
    assert(screen_lines(c) == screen_lines(v) && screen_lines(d) == screen_lines(v));
    assert(key_step(v, k, now, rows) == article_key(v, k, rows));
}

} // verus!
