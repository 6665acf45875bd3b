use vstd::prelude::*;
use crate::export::entry_body;
use crate::db::{lemma_entry_listing_unique, lemma_feed_listing_unique, Database, DbError, DbState};
use crate::model::{opt_text, Entry, EntryView, Feed, FeedView, Pane};
use crate::text::{
    ascii_lower, concat, decimal, i64_to_string, int_decimal, is_control, is_control_char, push_char, push_decimal,
    str_eq, to_ascii_lowercase, trim, trim_spec, without_last,
};
use crate::time::{opt_valid, UtcTime};
use crate::screen::{
    add_feed_box_lines, add_feed_box_spec, entry_label, entry_label_spec, feed_label, feed_label_spec, html_text,
    preview_body, preview_header, preview_header_spec, PREVIEW_WIDTH,
};
use crate::validation::{url_error_message, validate_feed_url, validate_feed_url_spec};

verus! {

/// What the keyboard is typed into.
#[derive(Debug, Clone, Copy, PartialEq, Eq, Structural)]
pub enum InputMode {
    Normal,
    AddFeed,
    Command,
}

/// The page the reader shows.
#[derive(Debug, Clone, Copy, PartialEq, Eq, Structural)]
pub enum Screen {
    Main,
    Help,
    About,
}

/// A key press, as far as the reader tells keys apart.
#[derive(Debug, Clone, Copy, PartialEq, Eq, Structural)]
pub enum Key {
    Char(char),
    Esc,
    Enter,
    Backspace,
    Up,
    Down,
    Left,
    Right,
    PageUp,
    PageDown,
    Other,
}

/// What the reader asks of its surroundings after a key: nothing, to quit, or work that needs
/// the network or the desktop, after which the matching `finish_` method takes the outcome.
#[derive(Debug)]
pub enum Request {
    Continue,
    Quit,
    /// Refresh this feed, then call `finish_refresh_feed`.
    RefreshFeed { feed_id: i64, feed_url: String, title: String },
    /// Refresh every active feed, then call `finish_refresh_all`.
    RefreshAll,
    /// Fetch the newly added feed, then call `finish_add_feed`.
    AddFeed { feed_id: i64, feed_url: String },
    /// Open the link, then call `finish_open_url`.
    OpenUrl { url: String },
}

/// The plain content of a `Request`.
pub enum RequestView {
    Continue,
    Quit,
    RefreshFeed { feed_id: i64, feed_url: Seq<char>, title: Seq<char> },
    RefreshAll,
    AddFeed { feed_id: i64, feed_url: Seq<char> },
    OpenUrl { url: Seq<char> },
}

impl View for Request {
    type V = RequestView;

    open spec fn view(&self) -> RequestView {
        match self {
            Request::Continue => RequestView::Continue,
            Request::Quit => RequestView::Quit,
            Request::RefreshFeed { feed_id, feed_url, title } => RequestView::RefreshFeed {
                feed_id: *feed_id,
                feed_url: feed_url@,
                title: title@,
            },
            Request::RefreshAll => RequestView::RefreshAll,
            Request::AddFeed { feed_id, feed_url } => RequestView::AddFeed { feed_id: *feed_id, feed_url: feed_url@ },
            Request::OpenUrl { url } => RequestView::OpenUrl { url: url@ },
        }
    }
}

/// The state of the reader: the database, the lists on screen, the selection, the filters, the
/// mode and what has been typed.
pub struct App {
    pub db: Database,
    feeds: Vec<Feed>,
    entries: Vec<Entry>,
    feed_idx: usize,
    entry_idx: usize,
    pane: Pane,
    show_unread_only: bool,
    show_starred_only: bool,
    include_hidden: bool,
    refresh_interval_min: Option<u64>,
    status: String,
    input_mode: InputMode,
    screen: Screen,
    add_feed_input: String,
    command_input: String,
    preview_scroll: u16,
    g_pending: bool,
}

/// The plain content of an `App`.
#[verifier::ext_equal]
pub struct AppView {
    pub db: DbState,
    pub feeds: Seq<FeedView>,
    pub entries: Seq<EntryView>,
    pub feed_idx: usize,
    pub entry_idx: usize,
    pub pane: Pane,
    pub unread_only: bool,
    pub starred_only: bool,
    pub include_hidden: bool,
    pub refresh_interval_min: Option<u64>,
    pub status: Seq<char>,
    pub input_mode: InputMode,
    pub screen: Screen,
    pub add_feed_input: Seq<char>,
    pub command_input: Seq<char>,
    pub preview_scroll: u16,
    pub g_pending: bool,
}

impl View for App {
    type V = AppView;

    closed spec fn view(&self) -> AppView {
        AppView {
            db: self.db@,
            feeds: self.feeds@.map_values(|f: Feed| f@),
            entries: self.entries@.map_values(|e: Entry| e@),
            feed_idx: self.feed_idx,
            entry_idx: self.entry_idx,
            pane: self.pane,
            unread_only: self.show_unread_only,
            starred_only: self.show_starred_only,
            include_hidden: self.include_hidden,
            refresh_interval_min: self.refresh_interval_min,
            status: self.status@,
            input_mode: self.input_mode,
            screen: self.screen,
            add_feed_input: self.add_feed_input@,
            command_input: self.command_input@,
            preview_scroll: self.preview_scroll,
            g_pending: self.g_pending,
        }
    }
}

/// An index kept inside a list of `len` items: past the end it becomes the last item (0 for
/// an empty list).
pub open spec fn clamp_index(i: usize, len: nat) -> usize {
    if i >= len {
        if len == 0 { 0 } else { (len - 1) as usize }
    } else {
        i
    }
}

/// `u16::saturating_add`.
pub open spec fn sat_add(a: u16, b: u16) -> u16 {
    if a + b > u16::MAX { u16::MAX } else { (a + b) as u16 }
}

/// `u16::saturating_sub`.
pub open spec fn sat_sub(a: u16, b: u16) -> u16 {
    if a < b { 0 } else { (a - b) as u16 }
}

/// The pane left of `p` (wrapping around).
pub open spec fn pane_before(p: Pane) -> Pane {
    match p {
        Pane::Feeds => Pane::Preview,
        Pane::Entries => Pane::Feeds,
        Pane::Preview => Pane::Entries,
    }
}

/// The pane right of `p` (wrapping around).
pub open spec fn pane_after(p: Pane) -> Pane {
    match p {
        Pane::Feeds => Pane::Entries,
        Pane::Entries => Pane::Preview,
        Pane::Preview => Pane::Feeds,
    }
}

/// The status after toggling whether hidden entries show.
pub open spec fn hidden_status(include_hidden: bool) -> Seq<char> {
    if include_hidden { "Hidden entries are visible"@ } else { "Hidden entries are hidden"@ }
}

impl AppView {
    /// The id of the selected feed, if any.
    pub open spec fn selected_feed_id(self) -> Option<i64> {
        if self.feed_idx < self.feeds.len() { Some(self.feeds[self.feed_idx as int].id) } else { None }
    }

    /// The selected entry, if any.
    pub open spec fn selected_entry(self) -> Option<EntryView> {
        if self.entry_idx < self.entries.len() { Some(self.entries[self.entry_idx as int]) } else { None }
    }

    /// The entries reloaded for the selected feed and the filters; the selection kept inside.
    pub open spec fn reload_entries(self) -> AppView {
        let v = self.db.entry_listing(self.selected_feed_id(), self.unread_only, self.starred_only, self.include_hidden);
        AppView { entries: v, entry_idx: clamp_index(self.entry_idx, v.len()), ..self }
    }

    /// The feeds reloaded (selection kept inside), then the entries.
    pub open spec fn reload(self) -> AppView {
        let f = self.db.feed_listing();
        AppView { feeds: f, feed_idx: clamp_index(self.feed_idx, f.len()), ..self }.reload_entries()
    }

    /// Moves down in the focused pane (in the preview: scrolls by 2).
    pub open spec fn next(self) -> AppView {
        match self.pane {
            Pane::Feeds => if self.feeds.len() > 0 {
                AppView {
                    feed_idx: if self.feed_idx + 1 < self.feeds.len() - 1 {
                        (self.feed_idx + 1) as usize
                    } else {
                        (self.feeds.len() - 1) as usize
                    },
                    preview_scroll: 0,
                    ..self
                }.reload_entries()
            } else {
                self
            },
            Pane::Entries => if self.entries.len() > 0 {
                AppView {
                    entry_idx: if self.entry_idx + 1 < self.entries.len() - 1 {
                        (self.entry_idx + 1) as usize
                    } else {
                        (self.entries.len() - 1) as usize
                    },
                    preview_scroll: 0,
                    ..self
                }
            } else {
                self
            },
            Pane::Preview => AppView { preview_scroll: sat_add(self.preview_scroll, 2), ..self },
        }
    }

    /// Moves up in the focused pane (in the preview: scrolls back by 2).
    pub open spec fn prev(self) -> AppView {
        match self.pane {
            Pane::Feeds => if self.feed_idx > 0 {
                AppView { feed_idx: (self.feed_idx - 1) as usize, preview_scroll: 0, ..self }.reload_entries()
            } else {
                self
            },
            Pane::Entries => if self.entry_idx > 0 {
                AppView { entry_idx: (self.entry_idx - 1) as usize, preview_scroll: 0, ..self }
            } else {
                self
            },
            Pane::Preview => AppView { preview_scroll: sat_sub(self.preview_scroll, 2), ..self },
        }
    }

    /// Jumps to the top of the focused pane.
    pub open spec fn jump_top(self) -> AppView {
        match self.pane {
            Pane::Feeds => AppView { feed_idx: 0, preview_scroll: 0, ..self }.reload_entries(),
            Pane::Entries => AppView { entry_idx: 0, preview_scroll: 0, ..self },
            Pane::Preview => AppView { preview_scroll: 0, ..self },
        }
    }

    /// Jumps to the bottom of the focused pane (in the preview: scrolls by 50).
    pub open spec fn jump_bottom(self) -> AppView {
        match self.pane {
            Pane::Feeds => if self.feeds.len() > 0 {
                AppView { feed_idx: (self.feeds.len() - 1) as usize, preview_scroll: 0, ..self }.reload_entries()
            } else {
                self
            },
            Pane::Entries => if self.entries.len() > 0 {
                AppView { entry_idx: (self.entries.len() - 1) as usize, preview_scroll: 0, ..self }
            } else {
                self
            },
            Pane::Preview => AppView { preview_scroll: sat_add(self.preview_scroll, 50), ..self },
        }
    }

    /// Deletes the selected feed (naming it by its id) with its entries; on success the
    /// selection moves up one and everything reloads.
    pub open spec fn delete_selected_feed(self) -> AppView {
        if self.feed_idx < self.feeds.len() {
            let f = self.feeds[self.feed_idx as int];
            let (db, n) = self.db.delete_feed(int_decimal(f.id as int));
            if n > 0 {
                AppView {
                    db: db,
                    status: "Deleted feed: "@ + f.title,
                    feed_idx: if self.feed_idx > 0 { (self.feed_idx - 1) as usize } else { 0 },
                    ..self
                }.reload()
            } else {
                AppView { db: db, status: "No feed deleted"@, ..self }
            }
        } else {
            AppView { status: "No feed selected"@, ..self }
        }
    }

    /// Shows or hides hidden entries.
    pub open spec fn toggle_show_hidden(self) -> AppView {
        let a = AppView { include_hidden: !self.include_hidden, ..self }.reload_entries();
        AppView { status: hidden_status(a.include_hidden), ..a }
    }

    /// A command typed after ':' (already trimmed and lower-cased).
    pub open spec fn execute_command(self, cmd: Seq<char>) -> (AppView, RequestView) {
        if cmd == "q"@ || cmd == "quit"@ {
            (self, RequestView::Quit)
        } else if cmd == "help"@ {
            (AppView { screen: Screen::Help, status: "Help"@, ..self }, RequestView::Continue)
        } else if cmd == "about"@ {
            (AppView { screen: Screen::About, status: "About"@, ..self }, RequestView::Continue)
        } else if cmd == "main"@ || cmd == "close"@ {
            (AppView { screen: Screen::Main, status: "Main"@, ..self }, RequestView::Continue)
        } else if cmd == "hidden"@ {
            (self.toggle_show_hidden(), RequestView::Continue)
        } else if cmd == "refresh"@ {
            (self, RequestView::RefreshAll)
        } else if cmd == "deletefeed"@ {
            (self.delete_selected_feed(), RequestView::Continue)
        } else if cmd == "unread"@ {
            (AppView { unread_only: !self.unread_only, ..self }.reload_entries(), RequestView::Continue)
        } else if cmd == "starred"@ {
            (AppView { starred_only: !self.starred_only, ..self }.reload_entries(), RequestView::Continue)
        } else {
            (AppView { status: "Unknown command: "@ + cmd, ..self }, RequestView::Continue)
        }
    }

    /// A key typed in command mode.
    pub open spec fn command_key(self, key: Key) -> (AppView, RequestView) {
        match key {
            Key::Esc => (
                AppView {
                    input_mode: InputMode::Normal,
                    command_input: Seq::empty(),
                    status: "Command canceled"@,
                    ..self
                },
                RequestView::Continue,
            ),
            Key::Enter => {
                let cmd = trim_spec(self.command_input).map_values(|c: char| ascii_lower(c));
                AppView { command_input: Seq::empty(), input_mode: InputMode::Normal, ..self }.execute_command(cmd)
            },
            Key::Backspace => (
                AppView {
                    command_input: if self.command_input.len() > 0 {
                        self.command_input.drop_last()
                    } else {
                        self.command_input
                    },
                    ..self
                },
                RequestView::Continue,
            ),
            Key::Char(c) => if is_control_char(c) {
                (self, RequestView::Continue)
            } else {
                (AppView { command_input: self.command_input.push(c), ..self }, RequestView::Continue)
            },
            _ => (self, RequestView::Continue),
        }
    }

    /// A key typed into the add-feed box. On Enter a valid URL is stored as a feed (titled by
    /// its URL) and its fetch is asked for; an invalid one is reported; the box closes.
    pub open spec fn add_feed_key(self, key: Key) -> (AppView, Result<RequestView, DbError>) {
        match key {
            Key::Esc => (
                AppView { input_mode: InputMode::Normal, status: "Add feed canceled"@, ..self },
                Ok(RequestView::Continue),
            ),
            Key::Enter => {
                let closed = AppView { add_feed_input: Seq::empty(), input_mode: InputMode::Normal, ..self };
                match validate_feed_url_spec(trim_spec(self.add_feed_input)) {
                    Ok(url) => {
                        let (db, r) = self.db.upsert_feed(url, None, url);
                        match r {
                            Ok(id) => (
                                AppView { db: db, ..closed },
                                Ok(RequestView::AddFeed { feed_id: id, feed_url: url }),
                            ),
                            Err(e) => (AppView { db: db, ..self }, Err(e)),
                        }
                    },
                    Err(e) => (
                        AppView { status: "Invalid feed URL: "@ + url_error_message(e), ..closed },
                        Ok(RequestView::Continue),
                    ),
                }
            },
            Key::Backspace => (
                AppView {
                    add_feed_input: if self.add_feed_input.len() > 0 {
                        self.add_feed_input.drop_last()
                    } else {
                        self.add_feed_input
                    },
                    ..self
                },
                Ok(RequestView::Continue),
            ),
            Key::Char(c) => if is_control_char(c) {
                (self, Ok(RequestView::Continue))
            } else {
                (AppView { add_feed_input: self.add_feed_input.push(c), ..self }, Ok(RequestView::Continue))
            },
            _ => (self, Ok(RequestView::Continue)),
        }
    }

    /// A key on the help or about page.
    pub open spec fn page_key(self, key: Key) -> AppView {
        match key {
            Key::Esc | Key::Char('q') => AppView { screen: Screen::Main, status: "Returned to main"@, ..self },
            Key::Char(':') => AppView { input_mode: InputMode::Command, command_input: Seq::empty(), ..self },
            _ => self,
        }
    }

    /// A key on the main page (before the pending 'g' is cleared).
    pub open spec fn main_key(self, key: Key, now: UtcTime) -> (AppView, Result<RequestView, DbError>) {
        match key {
            Key::Char('?') => (AppView { screen: Screen::Help, ..self }, Ok(RequestView::Continue)),
            Key::Char(':') => (
                AppView { input_mode: InputMode::Command, command_input: Seq::empty(), ..self },
                Ok(RequestView::Continue),
            ),
            Key::Char('a') => (
                AppView {
                    input_mode: InputMode::AddFeed,
                    add_feed_input: Seq::empty(),
                    status: "Add feed URL and press Enter"@,
                    ..self
                },
                Ok(RequestView::Continue),
            ),
            Key::Char('D') => (self.delete_selected_feed(), Ok(RequestView::Continue)),
            Key::Char('j') | Key::Down => (self.next(), Ok(RequestView::Continue)),
            Key::Char('k') | Key::Up => (self.prev(), Ok(RequestView::Continue)),
            Key::PageDown => (
                AppView { preview_scroll: sat_add(self.preview_scroll, 10), ..self },
                Ok(RequestView::Continue),
            ),
            Key::PageUp => (
                AppView { preview_scroll: sat_sub(self.preview_scroll, 10), ..self },
                Ok(RequestView::Continue),
            ),
            Key::Char('h') | Key::Left => (AppView { pane: pane_before(self.pane), ..self }, Ok(RequestView::Continue)),
            Key::Char('l') | Key::Right => (AppView { pane: pane_after(self.pane), ..self }, Ok(RequestView::Continue)),
            Key::Char('g') => if self.g_pending {
                (AppView { g_pending: false, ..self.jump_top() }, Ok(RequestView::Continue))
            } else {
                (
                    AppView { g_pending: true, status: "g pending. press g again for top"@, ..self },
                    Ok(RequestView::Continue),
                )
            },
            Key::Char('G') => (self.jump_bottom(), Ok(RequestView::Continue)),
            Key::Char('r') => if self.feed_idx < self.feeds.len() {
                let f = self.feeds[self.feed_idx as int];
                (self, Ok(RequestView::RefreshFeed { feed_id: f.id, feed_url: f.feed_url, title: f.title }))
            } else {
                (self.reload_entries(), Ok(RequestView::Continue))
            },
            Key::Char('R') => (self, Ok(RequestView::RefreshAll)),
            Key::Char('u') => (
                AppView { unread_only: !self.unread_only, ..self }.reload_entries(),
                Ok(RequestView::Continue),
            ),
            Key::Char('f') => (
                AppView { starred_only: !self.starred_only, ..self }.reload_entries(),
                Ok(RequestView::Continue),
            ),
            Key::Char('H') => (self.toggle_show_hidden(), Ok(RequestView::Continue)),
            Key::Char('m') => match self.selected_entry() {
                Some(e) => {
                    let (db, r) = self.db.toggle_read(e.id, now);
                    match r {
                        Ok(_) => (AppView { db: db, ..self }.reload_entries(), Ok(RequestView::Continue)),
                        Err(x) => (AppView { db: db, ..self }, Err(x)),
                    }
                },
                None => (self, Ok(RequestView::Continue)),
            },
            Key::Char('s') => match self.selected_entry() {
                Some(e) => {
                    let (db, r) = self.db.toggle_star(e.id, now);
                    match r {
                        Ok(_) => (AppView { db: db, ..self }.reload_entries(), Ok(RequestView::Continue)),
                        Err(x) => (AppView { db: db, ..self }, Err(x)),
                    }
                },
                None => (self, Ok(RequestView::Continue)),
            },
            Key::Char('x') => match self.selected_entry() {
                Some(e) => {
                    let a = AppView { db: self.db.toggle_hidden(e.id), ..self }.reload_entries();
                    (
                        AppView { status: "Toggled hidden state. Press H to show hidden entries"@, ..a },
                        Ok(RequestView::Continue),
                    )
                },
                None => (self, Ok(RequestView::Continue)),
            },
            Key::Char('o') => match self.selected_entry() {
                Some(e) => match e.url {
                    Some(u) => (self, Ok(RequestView::OpenUrl { url: u })),
                    None => (self, Ok(RequestView::Continue)),
                },
                None => (self, Ok(RequestView::Continue)),
            },
            _ => (AppView { g_pending: false, ..self }, Ok(RequestView::Continue)),
        }
    }

    /// A key press at time `now`: by input mode, then by page; on the main page any key but
    /// 'g' clears a pending 'g', and 'q' quits.
    pub open spec fn handle_key(self, key: Key, now: UtcTime) -> (AppView, Result<RequestView, DbError>) {
        match self.input_mode {
            InputMode::AddFeed => self.add_feed_key(key),
            InputMode::Command => {
                let (a, r) = self.command_key(key);
                (a, Ok(r))
            },
            InputMode::Normal => if self.screen != Screen::Main {
                (self.page_key(key), Ok(RequestView::Continue))
            } else if key == Key::Char('q') {
                (self, Ok(RequestView::Quit))
            } else {
                let (a, r) = self.main_key(key, now);
                match r {
                    Err(e) => (a, Err(e)),
                    Ok(req) => (AppView { g_pending: if key == Key::Char('g') { a.g_pending } else { false }, ..a }, Ok(req)),
                }
            },
        }
    }

    /// After refreshing the feed titled `title`: the outcome in the status line, everything
    /// reloaded.
    pub open spec fn finish_refresh_feed(self, title: Seq<char>, outcome: Result<usize, Seq<char>>) -> AppView {
        let status = match outcome {
            Ok(n) => "Refreshed "@ + decimal(n as nat) + " entries for "@ + title,
            Err(e) => "Refresh failed: "@ + e,
        };
        AppView { status: status, ..self }.reload().reload_entries()
    }

    /// After refreshing all feeds: the counts in the status line, everything reloaded.
    pub open spec fn finish_refresh_all(self, total: usize, failed: usize) -> AppView {
        let status = if failed == 0 {
            "Refreshed all feeds. "@ + decimal(total as nat) + " items updated"@
        } else {
            "Refreshed with "@ + decimal(failed as nat) + " failed feeds. "@ + decimal(total as nat) + " items updated"@
        };
        AppView { status: status, ..self }.reload().reload_entries()
    }

    /// After fetching a newly added feed: the outcome in the status line, everything reloaded.
    pub open spec fn finish_add_feed(self, outcome: Result<usize, Seq<char>>) -> AppView {
        let status = match outcome {
            Ok(n) => "Added feed and synced "@ + decimal(n as nat) + " entries"@,
            Err(e) => "Added feed but sync failed: "@ + e,
        };
        AppView { status: status, ..self }.reload()
    }

    /// After trying to open a link: the outcome in the status line.
    pub open spec fn finish_open_url(self, outcome: Result<(), Seq<char>>) -> AppView {
        AppView {
            status: match outcome {
                Ok(_) => "Opened URL"@,
                Err(e) => "Failed to open URL: "@ + e,
            },
            ..self
        }
    }

    /// Whether the feed selection is consistent: it points into the list (or is 0 for an empty
    /// list).
    pub open spec fn feed_idx_ok(self) -> bool {
        &&& (self.feeds.len() == 0 ==> self.feed_idx == 0)
        &&& (self.feeds.len() > 0 ==> self.feed_idx < self.feeds.len())
    }

    /// Whether the entry selection is consistent: it points into the list (or is 0 for an empty
    /// list).
    pub open spec fn entry_idx_ok(self) -> bool {
        &&& (self.entries.len() == 0 ==> self.entry_idx == 0)
        &&& (self.entries.len() > 0 ==> self.entry_idx < self.entries.len())
    }

    /// Whether both selections are consistent.
    pub open spec fn indices_ok(self) -> bool {
        self.feed_idx_ok() && self.entry_idx_ok()
    }

    /// Whether every time on screen is one that can be printed.
    pub open spec fn times_ok(self) -> bool {
        &&& forall|i: int| 0 <= i < self.feeds.len() ==> opt_valid(#[trigger] self.feeds[i].last_checked_at)
        &&& forall|i: int| 0 <= i < self.entries.len() ==> opt_valid(#[trigger] self.entries[i].published_at)
    }

    /// Whether the refresh interval, in seconds, fits in a `u64`.
    pub open spec fn interval_ok(self) -> bool {
        self.refresh_interval_min matches Some(m) ==> m * 60 <= u64::MAX
    }

    /// Whether the automatic refresh is due, `elapsed_secs` after the last refresh (`None`: there
    /// was none): only on the main page in normal mode, with an interval set.
    pub open spec fn auto_refresh_due(self, elapsed_secs: Option<u64>) -> bool {
        &&& self.input_mode == InputMode::Normal
        &&& self.screen == Screen::Main
        &&& match self.refresh_interval_min {
            Some(m) => match elapsed_secs {
                Some(e) => e >= m * 60,
                None => true,
            },
            None => false,
        }
    }
}

/// The reader as it starts, before the first load: main page, feeds pane, no filters.
pub open spec fn initial_view(db: DbState, refresh_interval_min: Option<u64>) -> AppView {
    AppView {
        db: db,
        feeds: Seq::empty(),
        entries: Seq::empty(),
        feed_idx: 0,
        entry_idx: 0,
        pane: Pane::Feeds,
        unread_only: false,
        starred_only: false,
        include_hidden: false,
        refresh_interval_min: refresh_interval_min,
        status: "Ready"@,
        input_mode: InputMode::Normal,
        screen: Screen::Main,
        add_feed_input: Seq::empty(),
        command_input: Seq::empty(),
        preview_scroll: 0,
        g_pending: false,
    }
}

impl App {
    /// Whether the reader's state is consistent: the database keeps its constraints, the
    /// selections point into their lists, and the times on screen can be printed.
    pub open spec fn wf(&self) -> bool {
        &&& self@.db.wf()
        &&& self@.indices_ok()
        &&& self@.times_ok()
        &&& self@.interval_ok()
    }

    /// A reader on `db` that refreshes every `refresh_interval_min` minutes (if given), with the
    /// feeds and entries loaded.
    pub fn new(db: Database, refresh_interval_min: Option<u64>) -> (app: App)
        requires
            db.wf(),
            refresh_interval_min matches Some(m) ==> m * 60 <= u64::MAX,
        ensures
            app.wf(),
            app@ == initial_view(db@, refresh_interval_min).reload(),
    {
        let mut app = App {
            db: db,
            feeds: Vec::new(),
            entries: Vec::new(),
            feed_idx: 0,
            entry_idx: 0,
            pane: Pane::Feeds,
            show_unread_only: false,
            show_starred_only: false,
            include_hidden: false,
            refresh_interval_min: refresh_interval_min,
            status: "Ready".to_string(),
            input_mode: InputMode::Normal,
            screen: Screen::Main,
            add_feed_input: String::new(),
            command_input: String::new(),
            preview_scroll: 0,
            g_pending: false,
        };
        assert(app@ =~= initial_view(db@, refresh_interval_min));
        app.reload();
        app
    }

    /// The id of the selected feed, if any.
    fn selected_feed_id(&self) -> (r: Option<i64>)
        ensures
            r == self@.selected_feed_id(),
    {
        if self.feed_idx < self.feeds.len() {
            Some(self.feeds[self.feed_idx].id)
        } else {
            None
        }
    }

    /// Reloads the entries for the selected feed and the filters, keeping the selection inside.
    pub fn reload_entries(&mut self)
        requires
            old(self)@.db.wf(),
            old(self)@.times_ok(),
        ensures
            final(self)@ == old(self)@.reload_entries(),
            final(self)@.times_ok(),
            final(self)@.entry_idx_ok(),
    {
        let feed_id = self.selected_feed_id();
        let v = match self.db.list_entries(feed_id, self.show_unread_only, self.show_starred_only, self.include_hidden) {
            Ok(v) => v,
            Err(_) => {
                assert(false);
                return;
            },
        };
        proof {
            lemma_entry_listing_unique(
                self.db@,
                v@.map_values(|e: Entry| e@),
                feed_id,
                self.show_unread_only,
                self.show_starred_only,
                self.include_hidden,
            );
        }
        self.entries = v;
        if self.entry_idx >= self.entries.len() {
            self.entry_idx = if self.entries.len() == 0 { 0 } else { self.entries.len() - 1 };
        }
        assert(self@ =~= old(self)@.reload_entries());
    }

    /// Reloads the feeds (keeping the selection inside), then the entries.
    fn reload(&mut self)
        requires
            old(self).db.wf(),
            old(self)@.times_ok(),
        ensures
            final(self)@ == old(self)@.reload(),
            final(self)@.times_ok(),
            final(self)@.indices_ok(),
    {
        let f = match self.db.all_feeds() {
            Ok(f) => f,
            Err(_) => {
                assert(false);
                return;
            },
        };
        proof {
            lemma_feed_listing_unique(self.db@, f@.map_values(|x: Feed| x@));
        }
        self.feeds = f;
        if self.feed_idx >= self.feeds.len() {
            self.feed_idx = if self.feeds.len() == 0 { 0 } else { self.feeds.len() - 1 };
        }
        let ghost mid = self@;
        assert(mid =~= AppView {
            feeds: old(self)@.db.feed_listing(),
            feed_idx: clamp_index(old(self)@.feed_idx, old(self)@.db.feed_listing().len()),
            ..old(self)@
        });
        self.reload_entries();
    }

    /// Moves down in the focused pane; in the preview, scrolls down by 2.
    pub fn next(&mut self)
        requires
            old(self).wf(),
        ensures
            final(self).wf(),
            final(self)@ == old(self)@.next(),
    {
        match self.pane {
            Pane::Feeds => {
                if self.feeds.len() > 0 {
                    let last = self.feeds.len() - 1;
                    self.feed_idx = if self.feed_idx + 1 < last { self.feed_idx + 1 } else { last };
                    self.preview_scroll = 0;
                    self.reload_entries();
                }
            },
            Pane::Entries => {
                if self.entries.len() > 0 {
                    let last = self.entries.len() - 1;
                    self.entry_idx = if self.entry_idx + 1 < last { self.entry_idx + 1 } else { last };
                    self.preview_scroll = 0;
                }
            },
            Pane::Preview => {
                self.preview_scroll = self.preview_scroll.saturating_add(2);
            },
        }
        assert(self@ =~= old(self)@.next());
    }

    /// Moves up in the focused pane; in the preview, scrolls up by 2.
    pub fn prev(&mut self)
        requires
            old(self).wf(),
        ensures
            final(self).wf(),
            final(self)@ == old(self)@.prev(),
    {
        match self.pane {
            Pane::Feeds => {
                if self.feed_idx > 0 {
                    self.feed_idx = self.feed_idx - 1;
                    self.preview_scroll = 0;
                    self.reload_entries();
                }
            },
            Pane::Entries => {
                if self.entry_idx > 0 {
                    self.entry_idx = self.entry_idx - 1;
                    self.preview_scroll = 0;
                }
            },
            Pane::Preview => {
                self.preview_scroll = self.preview_scroll.saturating_sub(2);
            },
        }
        assert(self@ =~= old(self)@.prev());
    }

    /// Jumps to the top of the focused pane.
    pub fn jump_top(&mut self)
        requires
            old(self).wf(),
        ensures
            final(self).wf(),
            final(self)@ == old(self)@.jump_top(),
    {
        match self.pane {
            Pane::Feeds => {
                self.feed_idx = 0;
                self.preview_scroll = 0;
                self.reload_entries();
            },
            Pane::Entries => {
                self.entry_idx = 0;
                self.preview_scroll = 0;
            },
            Pane::Preview => {
                self.preview_scroll = 0;
            },
        }
        assert(self@ =~= old(self)@.jump_top());
    }

    /// Jumps to the bottom of the focused pane; in the preview, scrolls down by 50.
    pub fn jump_bottom(&mut self)
        requires
            old(self).wf(),
        ensures
            final(self).wf(),
            final(self)@ == old(self)@.jump_bottom(),
    {
        match self.pane {
            Pane::Feeds => {
                if self.feeds.len() > 0 {
                    self.feed_idx = self.feeds.len() - 1;
                    self.preview_scroll = 0;
                    self.reload_entries();
                }
            },
            Pane::Entries => {
                if self.entries.len() > 0 {
                    self.entry_idx = self.entries.len() - 1;
                    self.preview_scroll = 0;
                }
            },
            Pane::Preview => {
                self.preview_scroll = self.preview_scroll.saturating_add(50);
            },
        }
        assert(self@ =~= old(self)@.jump_bottom());
    }

    /// Moves the focus to the pane on the left (from the feeds, round to the preview).
    pub fn focus_prev_pane(&mut self)
        ensures
            final(self)@ == (AppView { pane: pane_before(old(self)@.pane), ..old(self)@ }),
    {
        self.pane = match self.pane {
            Pane::Feeds => Pane::Preview,
            Pane::Entries => Pane::Feeds,
            Pane::Preview => Pane::Entries,
        };
        assert(self@ =~= AppView { pane: pane_before(old(self)@.pane), ..old(self)@ });
    }

    /// Moves the focus to the pane on the right (from the preview, round to the feeds).
    pub fn focus_next_pane(&mut self)
        ensures
            final(self)@ == (AppView { pane: pane_after(old(self)@.pane), ..old(self)@ }),
    {
        self.pane = match self.pane {
            Pane::Feeds => Pane::Entries,
            Pane::Entries => Pane::Preview,
            Pane::Preview => Pane::Feeds,
        };
        assert(self@ =~= AppView { pane: pane_after(old(self)@.pane), ..old(self)@ });
    }

    /// Deletes the selected feed (naming it by its id) with its entries. When a feed went, the
    /// selection moves up one and everything reloads; the status line says what happened.
    pub fn delete_selected_feed(&mut self)
        requires
            old(self).wf(),
        ensures
            final(self).wf(),
            final(self)@ == old(self)@.delete_selected_feed(),
    {
        if self.feed_idx < self.feeds.len() {
            let id = self.feeds[self.feed_idx].id;
            let title = self.feeds[self.feed_idx].title.clone();
            let key = i64_to_string(id);
            let n = match self.db.delete_feed(key.as_str()) {
                Ok(n) => n,
                Err(_) => {
                    assert(false);
                    return;
                },
            };
            if n > 0 {
                self.status = concat("Deleted feed: ", title.as_str());
                self.feed_idx = if self.feed_idx > 0 { self.feed_idx - 1 } else { 0 };
                let ghost mid = self@;
                self.reload();
                assert(mid =~= AppView {
                    db: old(self)@.db.delete_feed(key@).0,
                    status: "Deleted feed: "@ + title@,
                    feed_idx: if old(self)@.feed_idx > 0 { (old(self)@.feed_idx - 1) as usize } else { 0 },
                    ..old(self)@
                });
            } else {
                self.status = "No feed deleted".to_string();
            }
        } else {
            self.status = "No feed selected".to_string();
        }
        assert(self@ =~= old(self)@.delete_selected_feed());
    }

    /// Shows or hides the hidden entries, and says which in the status line.
    fn toggle_show_hidden(&mut self)
        requires
            old(self).wf(),
        ensures
            final(self).wf(),
            final(self)@ == old(self)@.toggle_show_hidden(),
    {
        self.include_hidden = !self.include_hidden;
        self.reload_entries();
        self.status = if self.include_hidden {
            "Hidden entries are visible".to_string()
        } else {
            "Hidden entries are hidden".to_string()
        };
        assert(self@ =~= old(self)@.toggle_show_hidden());
    }

    /// Runs a command typed after ':' (trimmed and lower-cased): `q`/`quit`, `help`, `about`,
    /// `main`/`close`, `hidden`, `refresh`, `deletefeed`, `unread`, `starred`; anything else is
    /// reported as unknown.
    pub fn execute_command(&mut self, cmd: &str) -> (r: Request)
        requires
            old(self).wf(),
        ensures
            final(self).wf(),
            (final(self)@, r@) == old(self)@.execute_command(cmd@),
    {
        if str_eq(cmd, "q") || str_eq(cmd, "quit") {
            Request::Quit
        } else if str_eq(cmd, "help") {
            self.screen = Screen::Help;
            self.status = "Help".to_string();
            Request::Continue
        } else if str_eq(cmd, "about") {
            self.screen = Screen::About;
            self.status = "About".to_string();
            Request::Continue
        } else if str_eq(cmd, "main") || str_eq(cmd, "close") {
            self.screen = Screen::Main;
            self.status = "Main".to_string();
            Request::Continue
        } else if str_eq(cmd, "hidden") {
            self.toggle_show_hidden();
            Request::Continue
        } else if str_eq(cmd, "refresh") {
            Request::RefreshAll
        } else if str_eq(cmd, "deletefeed") {
            self.delete_selected_feed();
            Request::Continue
        } else if str_eq(cmd, "unread") {
            self.show_unread_only = !self.show_unread_only;
            let ghost mid = self@;
            self.reload_entries();
            assert(mid =~= AppView { unread_only: !old(self)@.unread_only, ..old(self)@ });
            Request::Continue
        } else if str_eq(cmd, "starred") {
            self.show_starred_only = !self.show_starred_only;
            let ghost mid = self@;
            self.reload_entries();
            assert(mid =~= AppView { starred_only: !old(self)@.starred_only, ..old(self)@ });
            Request::Continue
        } else {
            self.status = concat("Unknown command: ", cmd);
            assert(self@ =~= AppView { status: "Unknown command: "@ + cmd@, ..old(self)@ });
            Request::Continue
        }
    }

    /// A key typed in command mode: Esc cancels, Enter runs the command, Backspace deletes the
    /// last character, any other printable character is typed.
    fn handle_command_input(&mut self, key: Key) -> (r: Request)
        requires
            old(self).wf(),
            old(self)@.input_mode == InputMode::Command,
        ensures
            final(self).wf(),
            (final(self)@, r@) == old(self)@.command_key(key),
    {
        match key {
            Key::Esc => {
                self.input_mode = InputMode::Normal;
                self.command_input = String::new();
                self.status = "Command canceled".to_string();
                assert(self@ =~= AppView {
                    input_mode: InputMode::Normal,
                    command_input: Seq::empty(),
                    status: "Command canceled"@,
                    ..old(self)@
                });
                Request::Continue
            },
            Key::Enter => {
                let t = trim(self.command_input.as_str());
                let cmd = to_ascii_lowercase(t.as_str());
                self.command_input = String::new();
                self.input_mode = InputMode::Normal;
                assert(self@ =~= AppView {
                    command_input: Seq::empty(),
                    input_mode: InputMode::Normal,
                    ..old(self)@
                });
                self.execute_command(cmd.as_str())
            },
            Key::Backspace => {
                self.command_input = without_last(&self.command_input);
                assert(self@ =~= AppView {
                    command_input: if old(self)@.command_input.len() > 0 {
                        old(self)@.command_input.drop_last()
                    } else {
                        old(self)@.command_input
                    },
                    ..old(self)@
                });
                Request::Continue
            },
            Key::Char(c) => {
                if !is_control(c) {
                    push_char(&mut self.command_input, c);
                    assert(self@ =~= AppView { command_input: old(self)@.command_input.push(c), ..old(self)@ });
                }
                Request::Continue
            },
            _ => Request::Continue,
        }
    }
}

impl App {
    /// A key typed into the add-feed box: Esc cancels; Enter validates the trimmed URL and, when
    /// it is valid, stores it as a feed titled by its URL and asks for its fetch (an invalid one
    /// is reported), closing the box; Backspace deletes; printable characters are typed.
    fn handle_add_feed_input(&mut self, key: Key) -> (r: Result<Request, DbError>)
        requires
            old(self).wf(),
            old(self)@.input_mode == InputMode::AddFeed,
        ensures
            final(self).wf(),
            (final(self)@, outcome_view(r)) == old(self)@.add_feed_key(key),
    {
        match key {
            Key::Esc => {
                self.input_mode = InputMode::Normal;
                self.status = "Add feed canceled".to_string();
                assert(self@ =~= AppView { input_mode: InputMode::Normal, status: "Add feed canceled"@, ..old(self)@ });
                Ok(Request::Continue)
            },
            Key::Enter => {
                let raw = trim(self.add_feed_input.as_str());
                match validate_feed_url(raw.as_str()) {
                    Ok(url) => {
                        match self.db.upsert_feed(url.as_str(), None, url.as_str()) {
                            Ok(id) => {
                                self.add_feed_input = String::new();
                                self.input_mode = InputMode::Normal;
                                assert(self@ =~= AppView {
                                    db: old(self)@.db.upsert_feed(url@, None, url@).0,
                                    add_feed_input: Seq::empty(),
                                    input_mode: InputMode::Normal,
                                    ..old(self)@
                                });
                                Ok(Request::AddFeed { feed_id: id, feed_url: url })
                            },
                            Err(e) => {
                                assert(self@ =~= AppView { db: old(self)@.db.upsert_feed(url@, None, url@).0, ..old(self)@ });
                                Err(e)
                            },
                        }
                    },
                    Err(e) => {
                        let m = e.message();
                        self.status = concat("Invalid feed URL: ", m.as_str());
                        self.add_feed_input = String::new();
                        self.input_mode = InputMode::Normal;
                        assert(self@ =~= AppView {
                            status: "Invalid feed URL: "@ + url_error_message(e@),
                            add_feed_input: Seq::empty(),
                            input_mode: InputMode::Normal,
                            ..old(self)@
                        });
                        Ok(Request::Continue)
                    },
                }
            },
            Key::Backspace => {
                self.add_feed_input = without_last(&self.add_feed_input);
                assert(self@ =~= AppView {
                    add_feed_input: if old(self)@.add_feed_input.len() > 0 {
                        old(self)@.add_feed_input.drop_last()
                    } else {
                        old(self)@.add_feed_input
                    },
                    ..old(self)@
                });
                Ok(Request::Continue)
            },
            Key::Char(c) => {
                if !is_control(c) {
                    push_char(&mut self.add_feed_input, c);
                    assert(self@ =~= AppView { add_feed_input: old(self)@.add_feed_input.push(c), ..old(self)@ });
                }
                Ok(Request::Continue)
            },
            _ => Ok(Request::Continue),
        }
    }

    /// The id of the selected entry, if any.
    pub fn current_entry_id(&self) -> (r: Option<i64>)
        ensures
            r == match self@.selected_entry() {
                Some(e) => Some(e.id),
                None => None,
            },
    {
        if self.entry_idx < self.entries.len() {
            Some(self.entries[self.entry_idx].id)
        } else {
            None
        }
    }

    /// The selected entry, if any.
    pub fn current_entry(&self) -> (r: Option<&Entry>)
        ensures
            match r {
                Some(e) => self@.selected_entry() == Some(e@),
                None => self@.selected_entry() is None,
            },
    {
        if self.entry_idx < self.entries.len() {
            Some(&self.entries[self.entry_idx])
        } else {
            None
        }
    }

    /// A key on the help or about page: Esc or 'q' go back to the main page, ':' opens the
    /// command line.
    fn handle_page_key(&mut self, key: Key)
        requires
            old(self).wf(),
        ensures
            final(self).wf(),
            final(self)@ == old(self)@.page_key(key),
    {
        match key {
            Key::Esc | Key::Char('q') => {
                self.screen = Screen::Main;
                self.status = "Returned to main".to_string();
            },
            Key::Char(':') => {
                self.input_mode = InputMode::Command;
                self.command_input = String::new();
            },
            _ => {},
        }
        assert(self@ =~= old(self)@.page_key(key));
    }
}

impl App {
    /// A key on the main page, at time `now` (before a pending 'g' is cleared).
    fn handle_main_key(&mut self, key: Key, now: UtcTime) -> (r: Result<Request, DbError>)
        requires
            old(self).wf(),
            now.valid(),
        ensures
            final(self).wf(),
            (final(self)@, outcome_view(r)) == old(self)@.main_key(key, now),
    {
        if entry_key(key) {
            self.handle_entry_key(key, now)
        } else {
            self.handle_move_key(key, now);
            Ok(Request::Continue)
        }
    }

    /// A main-page key that moves, opens a page or a box, or deletes the selected feed.
    fn handle_move_key(&mut self, key: Key, now: UtcTime)
        requires
            old(self).wf(),
            !is_entry_key(key),
        ensures
            final(self).wf(),
            (final(self)@, Ok::<RequestView, DbError>(RequestView::Continue)) == old(self)@.main_key(key, now),
    {
        match key {
            Key::Char('?') => {
                self.screen = Screen::Help;
                assert(self@ =~= AppView { screen: Screen::Help, ..old(self)@ });
            },
            Key::Char(':') => {
                self.input_mode = InputMode::Command;
                self.command_input = String::new();
                assert(self@ =~= AppView { input_mode: InputMode::Command, command_input: Seq::empty(), ..old(self)@ });
            },
            Key::Char('a') => {
                self.input_mode = InputMode::AddFeed;
                self.add_feed_input = String::new();
                self.status = "Add feed URL and press Enter".to_string();
                assert(self@ =~= AppView {
                    input_mode: InputMode::AddFeed,
                    add_feed_input: Seq::empty(),
                    status: "Add feed URL and press Enter"@,
                    ..old(self)@
                });
            },
            Key::Char('D') => self.delete_selected_feed(),
            Key::Char('j') | Key::Down => self.next(),
            Key::Char('k') | Key::Up => self.prev(),
            Key::PageDown => {
                self.preview_scroll = self.preview_scroll.saturating_add(10);
                assert(self@ =~= AppView { preview_scroll: sat_add(old(self)@.preview_scroll, 10), ..old(self)@ });
            },
            Key::PageUp => {
                self.preview_scroll = self.preview_scroll.saturating_sub(10);
                assert(self@ =~= AppView { preview_scroll: sat_sub(old(self)@.preview_scroll, 10), ..old(self)@ });
            },
            Key::Char('h') | Key::Left => self.focus_prev_pane(),
            Key::Char('l') | Key::Right => self.focus_next_pane(),
            Key::Char('g') => {
                if self.g_pending {
                    self.jump_top();
                    self.g_pending = false;
                    assert(self@ =~= AppView { g_pending: false, ..old(self)@.jump_top() });
                } else {
                    self.g_pending = true;
                    self.status = "g pending. press g again for top".to_string();
                    assert(self@ =~= AppView {
                        g_pending: true,
                        status: "g pending. press g again for top"@,
                        ..old(self)@
                    });
                }
            },
            Key::Char('G') => self.jump_bottom(),
            _ => {
                self.g_pending = false;
                assert(self@ =~= AppView { g_pending: false, ..old(self)@ });
            },
        }
    }

    /// A main-page key that refreshes, filters, marks the selected entry or opens its link.
    #[verifier::spinoff_prover]
    fn handle_entry_key(&mut self, key: Key, now: UtcTime) -> (r: Result<Request, DbError>)
        requires
            old(self).wf(),
            now.valid(),
            is_entry_key(key),
        ensures
            final(self).wf(),
            (final(self)@, outcome_view(r)) == old(self)@.main_key(key, now),
    {
        match key {
            Key::Char('r') => {
                if self.feed_idx < self.feeds.len() {
                    let f = &self.feeds[self.feed_idx];
                    return Ok(Request::RefreshFeed {
                        feed_id: f.id,
                        feed_url: f.feed_url.clone(),
                        title: f.title.clone(),
                    });
                } else {
                    self.reload_entries();
                }
            },
            Key::Char('R') => {
                return Ok(Request::RefreshAll);
            },
            Key::Char('u') => {
                self.show_unread_only = !self.show_unread_only;
                let ghost mid = self@;
                self.reload_entries();
                assert(mid =~= AppView { unread_only: !old(self)@.unread_only, ..old(self)@ });
            },
            Key::Char('f') => {
                self.show_starred_only = !self.show_starred_only;
                let ghost mid = self@;
                self.reload_entries();
                assert(mid =~= AppView { starred_only: !old(self)@.starred_only, ..old(self)@ });
            },
            Key::Char('H') => self.toggle_show_hidden(),
            Key::Char('m') | Key::Char('s') | Key::Char('x') => {
                return self.handle_mark_key(key, now);
            },
            Key::Char('o') => {
                if self.entry_idx < self.entries.len() {
                    match &self.entries[self.entry_idx].url {
                        Some(u) => {
                            return Ok(Request::OpenUrl { url: u.clone() });
                        },
                        None => {},
                    }
                }
            },
            _ => {},
        }
        Ok(Request::Continue)
    }

    /// A main-page key that marks the selected entry: 'm' read, 's' starred, 'x' hidden.
    #[verifier::spinoff_prover]
    fn handle_mark_key(&mut self, key: Key, now: UtcTime) -> (r: Result<Request, DbError>)
        requires
            old(self).wf(),
            now.valid(),
            key == Key::Char('m') || key == Key::Char('s') || key == Key::Char('x'),
        ensures
            final(self).wf(),
            (final(self)@, outcome_view(r)) == old(self)@.main_key(key, now),
    {
        match key {
            Key::Char('m') => {
                if let Some(id) = self.current_entry_id() {
                    match self.db.toggle_read(id, now) {
                        Ok(()) => {
                            let ghost mid = self@;
                            self.reload_entries();
                            assert(mid =~= AppView { db: old(self)@.db.toggle_read(id, now).0, ..old(self)@ });
                        },
                        Err(e) => {
                            assert(self@ =~= AppView { db: old(self)@.db.toggle_read(id, now).0, ..old(self)@ });
                            return Err(e);
                        },
                    }
                }
            },
            Key::Char('s') => {
                if let Some(id) = self.current_entry_id() {
                    match self.db.toggle_star(id, now) {
                        Ok(()) => {
                            let ghost mid = self@;
                            self.reload_entries();
                            assert(mid =~= AppView { db: old(self)@.db.toggle_star(id, now).0, ..old(self)@ });
                        },
                        Err(e) => {
                            assert(self@ =~= AppView { db: old(self)@.db.toggle_star(id, now).0, ..old(self)@ });
                            return Err(e);
                        },
                    }
                }
            },
            Key::Char('x') => {
                if let Some(id) = self.current_entry_id() {
                    let _ = self.db.toggle_hidden(id);
                    let ghost mid = self@;
                    self.reload_entries();
                    assert(mid =~= AppView { db: old(self)@.db.toggle_hidden(id), ..old(self)@ });
                    let ghost a = self@;
                    self.status = "Toggled hidden state. Press H to show hidden entries".to_string();
                    assert(self@ =~= AppView { status: "Toggled hidden state. Press H to show hidden entries"@, ..a });
                }
            },
            _ => {},
        }
        Ok(Request::Continue)
    }
}

impl App {
    /// A key press at time `now`. In the add-feed box and on the command line the key is typed
    /// there; on the help and about pages it can only leave them; on the main page 'q' quits,
    /// and any key but 'g' clears a pending 'g'. The result says what the surroundings must do
    /// next; a database error is passed on.
    pub fn handle_key(&mut self, key: Key, now: UtcTime) -> (r: Result<Request, DbError>)
        requires
            old(self).wf(),
            now.valid(),
        ensures
            final(self).wf(),
            (final(self)@, outcome_view(r)) == old(self)@.handle_key(key, now),
    {
        match self.input_mode {
            InputMode::AddFeed => {
                return self.handle_add_feed_input(key);
            },
            InputMode::Command => {
                return Ok(self.handle_command_input(key));
            },
            InputMode::Normal => {},
        }
        if self.screen != Screen::Main {
            self.handle_page_key(key);
            return Ok(Request::Continue);
        }
        if key == Key::Char('q') {
            return Ok(Request::Quit);
        }
        let r = self.handle_main_key(key, now);
        match r {
            Err(e) => Err(e),
            Ok(req) => {
                let ghost a = self@;
                if key != Key::Char('g') {
                    self.g_pending = false;
                }
                assert(self@ =~= AppView { g_pending: if key == Key::Char('g') { a.g_pending } else { false }, ..a });
                Ok(req)
            },
        }
    }

    /// After the feed titled `title` was refreshed with `outcome` (the number of entries stored,
    /// or what went wrong): the status line says so and everything reloads.
    pub fn finish_refresh_feed(&mut self, title: &str, outcome: &Result<usize, String>)
        requires
            old(self).wf(),
        ensures
            final(self).wf(),
            final(self)@ == old(self)@.finish_refresh_feed(title@, count_outcome_view(*outcome)),
    {
        let status = match outcome {
            Ok(n) => {
                let mut s = "Refreshed ".to_string();
                push_decimal(&mut s, *n as u64);
                s.append(" entries for ");
                s.append(title);
                s
            },
            Err(e) => concat("Refresh failed: ", e.as_str()),
        };
        self.status = status;
        let ghost mid = self@;
        self.reload();
        self.reload_entries();
        assert(mid =~= AppView { status: status@, ..old(self)@ });
    }

    /// After all feeds were refreshed with these outcomes (for each, the number of entries
    /// stored, or `None` when it failed): the status line gives the totals and everything
    /// reloads.
    pub fn finish_refresh_all(&mut self, outcomes: &Vec<Option<usize>>)
        requires
            old(self).wf(),
            ok_total(outcomes@) <= usize::MAX,
        ensures
            final(self).wf(),
            final(self)@ == old(self)@.finish_refresh_all(
                ok_total(outcomes@) as usize,
                failed_count(outcomes@) as usize,
            ),
    {
        let mut total: usize = 0;
        let mut failed: usize = 0;
        let n = outcomes.len();
        let mut i: usize = 0;
        while i < n
            invariant
                n == outcomes@.len(),
                0 <= i <= n,
                total == ok_total(outcomes@.take(i as int)),
                failed == failed_count(outcomes@.take(i as int)),
                ok_total(outcomes@) <= usize::MAX,
            decreases n - i,
        {
            proof {
                assert(outcomes@.take(i as int + 1).drop_last() =~= outcomes@.take(i as int));
                lemma_ok_total_prefix(outcomes@, i as int + 1);
                lemma_failed_count_bound(outcomes@.take(i as int + 1));
            }
            match outcomes[i] {
                Some(k) => {
                    total = total + k;
                },
                None => {
                    failed = failed + 1;
                },
            }
            i = i + 1;
        }
        assert(outcomes@.take(n as int) =~= outcomes@);
        let status = if failed == 0 {
            let mut s = "Refreshed all feeds. ".to_string();
            push_decimal(&mut s, total as u64);
            s.append(" items updated");
            s
        } else {
            let mut s = "Refreshed with ".to_string();
            push_decimal(&mut s, failed as u64);
            s.append(" failed feeds. ");
            push_decimal(&mut s, total as u64);
            s.append(" items updated");
            s
        };
        self.status = status;
        let ghost mid = self@;
        self.reload();
        self.reload_entries();
        assert(mid =~= AppView { status: status@, ..old(self)@ });
    }

    /// After a newly added feed was fetched with `outcome`: the status line says so and
    /// everything reloads.
    pub fn finish_add_feed(&mut self, outcome: &Result<usize, String>)
        requires
            old(self).wf(),
        ensures
            final(self).wf(),
            final(self)@ == old(self)@.finish_add_feed(count_outcome_view(*outcome)),
    {
        let status = match outcome {
            Ok(n) => {
                let mut s = "Added feed and synced ".to_string();
                push_decimal(&mut s, *n as u64);
                s.append(" entries");
                s
            },
            Err(e) => concat("Added feed but sync failed: ", e.as_str()),
        };
        self.status = status;
        let ghost mid = self@;
        self.reload();
        assert(mid =~= AppView { status: status@, ..old(self)@ });
    }

    /// After trying to open a link: the status line says how it went.
    pub fn finish_open_url(&mut self, outcome: &Result<(), String>)
        ensures
            final(self)@ == old(self)@.finish_open_url(
                match outcome {
                    Ok(_) => Ok(()),
                    Err(e) => Err(e@),
                },
            ),
    {
        self.status = match outcome {
            Ok(_) => "Opened URL".to_string(),
            Err(e) => concat("Failed to open URL: ", e.as_str()),
        };
        assert(self@ =~= old(self)@.finish_open_url(
            match outcome {
                Ok(_) => Ok(()),
                Err(e) => Err(e@),
            },
        ));
    }

    /// Whether the automatic refresh is due, `elapsed_secs` whole seconds after the last
    /// refresh (`None`: there was none).
    pub fn should_auto_refresh(&self, elapsed_secs: Option<u64>) -> (r: bool)
        requires
            self.wf(),
        ensures
            r == self@.auto_refresh_due(elapsed_secs),
    {
        if self.input_mode != InputMode::Normal || self.screen != Screen::Main {
            return false;
        }
        match self.refresh_interval_min {
            Some(m) => match elapsed_secs {
                Some(e) => e >= m * 60,
                None => true,
            },
            None => false,
        }
    }
}

impl AppView {
    /// The footer of the main page: the status with a reminder of the help, about and quit
    /// commands; the command being typed; or, in the add-feed box, the status alone.
    pub open spec fn footer(self) -> Seq<char> {
        match self.input_mode {
            InputMode::Normal => self.status + " | :help for cheat sheet | :about | :q"@,
            InputMode::Command => ":"@ + self.command_input,
            InputMode::AddFeed => self.status,
        }
    }

    /// The command line shown over the help and about pages while a command is typed.
    pub open spec fn command_line(self) -> Option<Seq<char>> {
        if self.input_mode == InputMode::Command {
            Some(":"@ + self.command_input)
        } else {
            None
        }
    }

    /// The preview: the header lines and the body of the selected entry, or a note that none is
    /// selected.
    pub open spec fn preview(self) -> (Seq<Seq<char>>, Option<Seq<char>>) {
        match self.selected_entry() {
            Some(e) => (
                preview_header_spec(e),
                Some(
                    match html_text(entry_body(e), PREVIEW_WIDTH) {
                        Some(t) => t,
                        None => entry_body(e),
                    },
                ),
            ),
            None => (seq!["No entry selected"@], None),
        }
    }
}

impl App {
    /// The labels of the feeds pane, in order.
    pub fn feed_labels(&self) -> (r: Vec<String>)
        requires
            self.wf(),
        ensures
            r@.map_values(|s: String| s@) == self@.feeds.map_values(|f: FeedView| feed_label_spec(f)),
    {
        let mut v: Vec<String> = Vec::new();
        let n = self.feeds.len();
        let mut i: usize = 0;
        while i < n
            invariant
                n == self.feeds@.len(),
                self.wf(),
                0 <= i <= n,
                v@.len() == i,
                forall|k: int| 0 <= k < i ==> (#[trigger] v@[k])@ == feed_label_spec(self.feeds@[k]@),
            decreases n - i,
        {
            assert(self@.feeds[i as int] == self.feeds@[i as int]@);
            assert(opt_valid(self@.feeds[i as int].last_checked_at));
            v.push(feed_label(&self.feeds[i]));
            i = i + 1;
        }
        assert(v@.map_values(|s: String| s@) =~= self@.feeds.map_values(|f: FeedView| feed_label_spec(f)));
        v
    }

    /// The labels of the entries pane, in order.
    pub fn entry_labels(&self) -> (r: Vec<String>)
        ensures
            r@.map_values(|s: String| s@) == self@.entries.map_values(|e: EntryView| entry_label_spec(e)),
    {
        let mut v: Vec<String> = Vec::new();
        let n = self.entries.len();
        let mut i: usize = 0;
        while i < n
            invariant
                n == self.entries@.len(),
                0 <= i <= n,
                v@.len() == i,
                forall|k: int| 0 <= k < i ==> (#[trigger] v@[k])@ == entry_label_spec(self.entries@[k]@),
            decreases n - i,
        {
            v.push(entry_label(&self.entries[i]));
            i = i + 1;
        }
        assert(v@.map_values(|s: String| s@) =~= self@.entries.map_values(|e: EntryView| entry_label_spec(e)));
        v
    }

    /// The footer of the main page.
    pub fn footer(&self) -> (r: String)
        ensures
            r@ == self@.footer(),
    {
        match self.input_mode {
            InputMode::Normal => concat(self.status.as_str(), " | :help for cheat sheet | :about | :q"),
            InputMode::Command => concat(":", self.command_input.as_str()),
            InputMode::AddFeed => self.status.clone(),
        }
    }

    /// The command line over the help and about pages, while a command is typed.
    pub fn command_line(&self) -> (r: Option<String>)
        ensures
            opt_text(r) == self@.command_line(),
    {
        if self.input_mode == InputMode::Command {
            Some(concat(":", self.command_input.as_str()))
        } else {
            None
        }
    }

    /// The preview of the selected entry: its header lines and its body; or a note that no entry
    /// is selected, and no body.
    pub fn preview(&self) -> (r: (Vec<String>, Option<String>))
        requires
            self.wf(),
        ensures
            (r.0@.map_values(|s: String| s@), opt_text(r.1)) == self@.preview(),
    {
        if self.entry_idx < self.entries.len() {
            let e = &self.entries[self.entry_idx];
            assert(self@.entries[self.entry_idx as int] == e@);
            assert(opt_valid(self@.entries[self.entry_idx as int].published_at));
            (preview_header(e), Some(preview_body(e)))
        } else {
            let mut v: Vec<String> = Vec::new();
            v.push("No entry selected".to_string());
            assert(v@.map_values(|s: String| s@) =~= seq!["No entry selected"@]);
            (v, None)
        }
    }

    /// The lines of the add-feed box.
    pub fn add_feed_box(&self) -> (r: Vec<String>)
        ensures
            r@.map_values(|s: String| s@) == add_feed_box_spec(self@.add_feed_input),
    {
        add_feed_box_lines(self.add_feed_input.as_str())
    }

    /// The page shown.
    pub fn screen(&self) -> (r: Screen)
        ensures
            r == self@.screen,
    {
        self.screen
    }

    /// What keys are typed into.
    pub fn input_mode(&self) -> (r: InputMode)
        ensures
            r == self@.input_mode,
    {
        self.input_mode
    }

    /// The focused pane.
    pub fn pane(&self) -> (r: Pane)
        ensures
            r == self@.pane,
    {
        self.pane
    }

    /// The position of the selected feed.
    pub fn feed_idx(&self) -> (r: usize)
        ensures
            r == self@.feed_idx,
    {
        self.feed_idx
    }

    /// The position of the selected entry.
    pub fn entry_idx(&self) -> (r: usize)
        ensures
            r == self@.entry_idx,
    {
        self.entry_idx
    }

    /// How far the preview is scrolled, in lines.
    pub fn preview_scroll(&self) -> (r: u16)
        ensures
            r == self@.preview_scroll,
    {
        self.preview_scroll
    }

    /// The status line.
    pub fn status(&self) -> (r: &str)
        ensures
            r@ == self@.status,
    {
        self.status.as_str()
    }

    /// The feeds on screen.
    pub fn feeds(&self) -> (r: &Vec<Feed>)
        ensures
            r@.map_values(|f: Feed| f@) == self@.feeds,
    {
        &self.feeds
    }

    /// The entries on screen.
    pub fn entries(&self) -> (r: &Vec<Entry>)
        ensures
            r@.map_values(|e: Entry| e@) == self@.entries,
    {
        &self.entries
    }
}

/// The plain content of the outcome of a fetch: the number of entries stored, or the message
/// of what went wrong.
pub open spec fn count_outcome_view(o: Result<usize, String>) -> Result<usize, Seq<char>> {
    match o {
        Ok(n) => Ok(n),
        Err(e) => Err(e@),
    }
}

/// The sum of the counts of the refreshes that succeeded.
pub open spec fn ok_total(o: Seq<Option<usize>>) -> int
    decreases o.len(),
{
    if o.len() == 0 {
        0
    } else {
        ok_total(o.drop_last()) + match o.last() {
            Some(n) => n as int,
            None => 0,
        }
    }
}

/// The number of refreshes that failed.
pub open spec fn failed_count(o: Seq<Option<usize>>) -> int
    decreases o.len(),
{
    if o.len() == 0 {
        0
    } else {
        failed_count(o.drop_last()) + if o.last() is None { 1int } else { 0int }
    }
}

/// The total of a prefix is at most the total of the whole.
proof fn lemma_ok_total_prefix(o: Seq<Option<usize>>, k: int)
    requires
        0 <= k <= o.len(),
    ensures
        ok_total(o.take(k)) <= ok_total(o),
        ok_total(o.take(k)) >= 0,
    decreases o.len() - k,
{
    if k < o.len() {
        lemma_ok_total_prefix(o, k + 1);
        assert(o.take(k + 1).drop_last() =~= o.take(k));
    } else {
        assert(o.take(k) =~= o);
    }
    lemma_ok_total_nonneg(o.take(k));
}

/// A total is never negative.
proof fn lemma_ok_total_nonneg(o: Seq<Option<usize>>)
    ensures
        ok_total(o) >= 0,
    decreases o.len(),
{
    if o.len() > 0 {
        lemma_ok_total_nonneg(o.drop_last());
    }
}

/// At most every refresh failed.
proof fn lemma_failed_count_bound(o: Seq<Option<usize>>)
    ensures
        0 <= failed_count(o) <= o.len(),
    decreases o.len(),
{
    if o.len() > 0 {
        lemma_failed_count_bound(o.drop_last());
    }
}

/// The keys of the main page that refresh, filter, mark the selected entry or open its link.
pub open spec fn is_entry_key(key: Key) -> bool {
    key == Key::Char('r') || key == Key::Char('R') || key == Key::Char('u') || key == Key::Char('f')
        || key == Key::Char('H') || key == Key::Char('m') || key == Key::Char('s') || key == Key::Char('x')
        || key == Key::Char('o')
}

/// Whether the key refreshes, filters, marks the selected entry or opens its link.
fn entry_key(key: Key) -> (r: bool)
    ensures
        r == is_entry_key(key),
{
    match key {
        Key::Char(c) => c == 'r' || c == 'R' || c == 'u' || c == 'f' || c == 'H' || c == 'm' || c == 's' || c == 'x'
            || c == 'o',
        _ => false,
    }
}

/// The plain content of what a key press gives back.
pub open spec fn outcome_view(r: Result<Request, DbError>) -> Result<RequestView, DbError> {
    match r {
        Ok(q) => Ok(q@),
        Err(e) => Err(e),
    }
}

} // verus!
