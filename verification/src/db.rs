use vstd::prelude::*;
use crate::model::{clone_opt, opt_str_text, opt_text, own_opt, Entry, EntryView, Feed, FeedView};
use crate::order::{lemma_row_before_transitive, lemma_sorted_unique, positions_sorted, row_before, sort_positions};
use crate::text::{chars_of, i64_to_string, int_decimal, parse_i64, parse_i64_spec};
use crate::time::{
    opt_valid, parse_rfc3339, parse_rfc3339_spec, rfc3339_text, sql_timestamp_text, to_rfc3339, to_sql_timestamp,
    UtcTime,
};

verus! {

/// Why a database operation did not take place.
#[derive(Debug, Clone, Copy, PartialEq, Eq, Structural)]
pub enum DbError {
    /// A row would refer to a feed or an entry that does not exist.
    ForeignKeyViolation,
    /// The row that a query asks for does not exist.
    NoSuchRow,
    /// No row id is left above the largest one in use.
    RowIdsExhausted,
}

/// The message of a database error, as SQLite words it.
pub open spec fn db_error_message(e: DbError) -> Seq<char> {
    match e {
        DbError::ForeignKeyViolation => "FOREIGN KEY constraint failed"@,
        DbError::NoSuchRow => "Query returned no rows"@,
        DbError::RowIdsExhausted => "database or disk is full"@,
    }
}

impl DbError {
    /// The error's message.
    pub fn message(&self) -> (r: String)
        ensures
            r@ == db_error_message(*self),
    {
        match self {
            DbError::ForeignKeyViolation => "FOREIGN KEY constraint failed".to_string(),
            DbError::NoSuchRow => "Query returned no rows".to_string(),
            DbError::RowIdsExhausted => "database or disk is full".to_string(),
        }
    }
}

/// The version of the schema that this reader creates (SQLite's `user_version`).
pub const SCHEMA_VERSION: i64 = 1;

/// Why a database file cannot be used.
#[derive(Debug, Clone, Copy, PartialEq, Eq, Structural)]
pub enum SchemaError {
    /// The file was written by a newer version of the reader.
    TooNew { found: i64, supported: i64 },
}

/// The message of a schema error.
pub open spec fn schema_error_message(e: SchemaError) -> Seq<char> {
    match e {
        SchemaError::TooNew { found, supported } => "database schema version "@ + int_decimal(found as int)
            + " is newer than supported "@ + int_decimal(supported as int),
    }
}

impl SchemaError {
    /// The error's message.
    pub fn message(&self) -> (r: String)
        ensures
            r@ == schema_error_message(*self),
    {
        match self {
            SchemaError::TooNew { found, supported } => {
                let mut s = "database schema version ".to_string();
                s.append(i64_to_string(*found).as_str());
                s.append(" is newer than supported ");
                s.append(i64_to_string(*supported).as_str());
                s
            },
        }
    }
}

/// What opening a database file whose `user_version` is `user_version` takes: `Ok(true)` when
/// the tables must be created (and the version set), `Ok(false)` when they are there, and an
/// error when the file is newer than this reader.
pub fn schema_step(user_version: i64) -> (r: Result<bool, SchemaError>)
    ensures
        user_version > SCHEMA_VERSION <==> r == Err::<bool, SchemaError>(
            SchemaError::TooNew { found: user_version, supported: SCHEMA_VERSION },
        ),
        user_version < 1 <==> r == Ok::<bool, SchemaError>(true),
        1 <= user_version <= SCHEMA_VERSION <==> r == Ok::<bool, SchemaError>(false),
{
    if user_version > SCHEMA_VERSION {
        Err(SchemaError::TooNew { found: user_version, supported: SCHEMA_VERSION })
    } else if user_version < 1 {
        Ok(true)
    } else {
        Ok(false)
    }
}

/// A row of the feeds table.
#[derive(Debug, Clone)]
pub struct FeedRecord {
    pub id: i64,
    pub title: String,
    pub site_url: Option<String>,
    pub feed_url: String,
    pub etag: Option<String>,
    pub last_modified: Option<String>,
    pub last_checked_at: Option<String>,
    pub is_active: bool,
}

/// The plain content of a `FeedRecord`.
pub struct FeedRow {
    pub id: i64,
    pub title: Seq<char>,
    pub site_url: Option<Seq<char>>,
    pub feed_url: Seq<char>,
    pub etag: Option<Seq<char>>,
    pub last_modified: Option<Seq<char>>,
    pub last_checked_at: Option<Seq<char>>,
    pub is_active: bool,
}

impl View for FeedRecord {
    type V = FeedRow;

    open spec fn view(&self) -> FeedRow {
        FeedRow {
            id: self.id,
            title: self.title@,
            site_url: opt_text(self.site_url),
            feed_url: self.feed_url@,
            etag: opt_text(self.etag),
            last_modified: opt_text(self.last_modified),
            last_checked_at: opt_text(self.last_checked_at),
            is_active: self.is_active,
        }
    }
}

/// A row of the entries table. `key` tells the entries of one feed apart; `fetched_at` is the
/// time the row was first stored, as SQLite's CURRENT_TIMESTAMP writes it.
#[derive(Debug, Clone)]
pub struct EntryRecord {
    pub id: i64,
    pub feed_id: i64,
    pub key: String,
    pub title: String,
    pub author: Option<String>,
    pub url: Option<String>,
    pub published_at: Option<String>,
    pub updated_at: Option<String>,
    pub summary: Option<String>,
    pub content: Option<String>,
    pub fetched_at: String,
    pub is_hidden: bool,
}

/// The plain content of an `EntryRecord`.
pub struct EntryRow {
    pub id: i64,
    pub feed_id: i64,
    pub key: Seq<char>,
    pub title: Seq<char>,
    pub author: Option<Seq<char>>,
    pub url: Option<Seq<char>>,
    pub published_at: Option<Seq<char>>,
    pub updated_at: Option<Seq<char>>,
    pub summary: Option<Seq<char>>,
    pub content: Option<Seq<char>>,
    pub fetched_at: Seq<char>,
    pub is_hidden: bool,
}

impl View for EntryRecord {
    type V = EntryRow;

    open spec fn view(&self) -> EntryRow {
        EntryRow {
            id: self.id,
            feed_id: self.feed_id,
            key: self.key@,
            title: self.title@,
            author: opt_text(self.author),
            url: opt_text(self.url),
            published_at: opt_text(self.published_at),
            updated_at: opt_text(self.updated_at),
            summary: opt_text(self.summary),
            content: opt_text(self.content),
            fetched_at: self.fetched_at@,
            is_hidden: self.is_hidden,
        }
    }
}

/// A row of the entry_state table: whether an entry was read or starred, and when.
#[derive(Debug, Clone)]
pub struct EntryStateRecord {
    pub entry_id: i64,
    pub is_read: bool,
    pub is_starred: bool,
    pub read_at: Option<String>,
    pub starred_at: Option<String>,
}

/// The plain content of an `EntryStateRecord`.
pub struct EntryStateRow {
    pub entry_id: i64,
    pub is_read: bool,
    pub is_starred: bool,
    pub read_at: Option<Seq<char>>,
    pub starred_at: Option<Seq<char>>,
}

impl View for EntryStateRecord {
    type V = EntryStateRow;

    open spec fn view(&self) -> EntryStateRow {
        EntryStateRow {
            entry_id: self.entry_id,
            is_read: self.is_read,
            is_starred: self.is_starred,
            read_at: opt_text(self.read_at),
            starred_at: opt_text(self.starred_at),
        }
    }
}

/// The time an optional RFC 3339 text denotes, if it is one.
pub open spec fn opt_time(text: Option<Seq<char>>) -> Option<UtcTime> {
    match text {
        Some(t) => parse_rfc3339_spec(t),
        None => None,
    }
}

/// The feed that the reader shows for a row of the feeds table.
pub open spec fn feed_view_of(r: FeedRow) -> FeedView {
    FeedView {
        id: r.id,
        title: r.title,
        site_url: r.site_url,
        feed_url: r.feed_url,
        last_checked_at: opt_time(r.last_checked_at),
    }
}

/// The time that an optional stored text denotes.
fn opt_parse_time(text: &Option<String>) -> (r: Option<UtcTime>)
    ensures
        r == opt_time(opt_text(*text)),
        r matches Some(t) ==> t.valid(),
{
    match text {
        Some(t) => parse_rfc3339(t.as_str()),
        None => None,
    }
}

/// Whether an entry row belongs to a feed other than `feed_id`.
pub open spec fn outside_feed(feed_id: i64) -> spec_fn(EntryRow) -> bool {
    |e: EntryRow| e.feed_id != feed_id
}

/// One step of filtering a sequence from the front.
pub proof fn lemma_filter_take_step<A>(s: Seq<A>, p: spec_fn(A) -> bool, k: int)
    requires
        0 <= k < s.len(),
    ensures
        s.take(k + 1).filter(p) == if p(s[k]) {
            s.take(k).filter(p).push(s[k])
        } else {
            s.take(k).filter(p)
        },
{
    reveal_with_fuel(Seq::filter, 1);
    assert(s.take(k + 1).drop_last() =~= s.take(k));
}

impl FeedRecord {
    /// A copy of the row.
    pub fn copy(&self) -> (r: FeedRecord)
        ensures
            r@ == self@,
    {
        FeedRecord {
            id: self.id,
            title: self.title.clone(),
            site_url: clone_opt(&self.site_url),
            feed_url: self.feed_url.clone(),
            etag: clone_opt(&self.etag),
            last_modified: clone_opt(&self.last_modified),
            last_checked_at: clone_opt(&self.last_checked_at),
            is_active: self.is_active,
        }
    }
}

impl EntryRecord {
    /// A copy of the row.
    pub fn copy(&self) -> (r: EntryRecord)
        ensures
            r@ == self@,
    {
        EntryRecord {
            id: self.id,
            feed_id: self.feed_id,
            key: self.key.clone(),
            title: self.title.clone(),
            author: clone_opt(&self.author),
            url: clone_opt(&self.url),
            published_at: clone_opt(&self.published_at),
            updated_at: clone_opt(&self.updated_at),
            summary: clone_opt(&self.summary),
            content: clone_opt(&self.content),
            fetched_at: self.fetched_at.clone(),
            is_hidden: self.is_hidden,
        }
    }
}

impl EntryStateRecord {
    /// A copy of the row.
    pub fn copy(&self) -> (r: EntryStateRecord)
        ensures
            r@ == self@,
    {
        EntryStateRecord {
            entry_id: self.entry_id,
            is_read: self.is_read,
            is_starred: self.is_starred,
            read_at: clone_opt(&self.read_at),
            starred_at: clone_opt(&self.starred_at),
        }
    }
}

/// An entry as a fetch delivers it, to be stored for feed `feed_id` under `key`.
#[derive(Debug, Clone)]
pub struct NewEntry {
    pub feed_id: i64,
    pub key: String,
    pub title: String,
    pub author: Option<String>,
    pub url: Option<String>,
    pub published_at: Option<UtcTime>,
    pub updated_at: Option<UtcTime>,
    pub summary: Option<String>,
    pub content: Option<String>,
}

/// The plain content of a `NewEntry`.
pub struct NewEntryView {
    pub feed_id: i64,
    pub key: Seq<char>,
    pub title: Seq<char>,
    pub author: Option<Seq<char>>,
    pub url: Option<Seq<char>>,
    pub published_at: Option<UtcTime>,
    pub updated_at: Option<UtcTime>,
    pub summary: Option<Seq<char>>,
    pub content: Option<Seq<char>>,
}

impl View for NewEntry {
    type V = NewEntryView;

    open spec fn view(&self) -> NewEntryView {
        NewEntryView {
            feed_id: self.feed_id,
            key: self.key@,
            title: self.title@,
            author: opt_text(self.author),
            url: opt_text(self.url),
            published_at: self.published_at,
            updated_at: self.updated_at,
            summary: opt_text(self.summary),
            content: opt_text(self.content),
        }
    }
}

impl NewEntryView {
    /// Its times are ones that chrono represents.
    pub open spec fn valid(self) -> bool {
        &&& (self.published_at matches Some(t) ==> t.valid())
        &&& (self.updated_at matches Some(t) ==> t.valid())
    }
}

/// The RFC 3339 text of an optional time.
pub open spec fn opt_rfc3339(t: Option<UtcTime>) -> Option<Seq<char>> {
    match t {
        Some(t) => Some(rfc3339_text(t.secs, t.nanos)),
        None => None,
    }
}

/// SQL's COALESCE of two values.
pub open spec fn coalesce(a: Option<Seq<char>>, b: Option<Seq<char>>) -> Option<Seq<char>> {
    match a {
        Some(x) => Some(x),
        None => b,
    }
}

/// The text entries are ordered by: published, else updated, else fetched time.
pub open spec fn sort_text(r: EntryRow) -> Seq<char> {
    match r.published_at {
        Some(t) => t,
        None => match r.updated_at {
            Some(t) => t,
            None => r.fetched_at,
        },
    }
}

/// The RFC 3339 text stored for an optional time.
fn opt_time_text(t: Option<UtcTime>) -> (r: Option<String>)
    requires
        t matches Some(x) ==> x.valid(),
    ensures
        opt_text(r) == opt_rfc3339(t),
{
    match t {
        Some(x) => Some(to_rfc3339(x)),
        None => None,
    }
}

/// The first value when there is one, else a copy of the second.
fn coalesce_exec(a: Option<String>, b: &Option<String>) -> (r: Option<String>)
    ensures
        opt_text(r) == coalesce(opt_text(a), opt_text(*b)),
{
    match a {
        Some(x) => Some(x),
        None => clone_opt(b),
    }
}

/// The content of the three tables, each in increasing order of its key.
pub struct DbState {
    pub feeds: Seq<FeedRow>,
    pub entries: Seq<EntryRow>,
    pub states: Seq<EntryStateRow>,
}

impl DbState {
    /// Whether a feed with this id exists.
    pub open spec fn has_feed(self, id: i64) -> bool {
        exists|k: int| 0 <= k < self.feeds.len() && #[trigger] self.feeds[k].id == id
    }

    /// Whether an entry with this id exists.
    pub open spec fn has_entry(self, id: i64) -> bool {
        exists|k: int| 0 <= k < self.entries.len() && #[trigger] self.entries[k].id == id
    }

    /// Entries are in increasing order of id.
    pub open spec fn entry_ids_increasing(self) -> bool {
        forall|i: int, j: int|
            0 <= i < j < self.entries.len() ==> #[trigger] self.entries[i].id < #[trigger] self.entries[j].id
    }

    /// Feeds are in increasing order of id.
    pub open spec fn feed_ids_increasing(self) -> bool {
        forall|i: int, j: int|
            0 <= i < j < self.feeds.len() ==> #[trigger] self.feeds[i].id < #[trigger] self.feeds[j].id
    }

    /// The constraints of the schema: ids are unique (rows are kept in id order), feed URLs are
    /// unique, (feed, key) pairs of entries are unique, every entry belongs to a feed and every
    /// state row to an entry.
    pub open spec fn wf(self) -> bool {
        &&& forall|i: int, j: int|
            0 <= i < j < self.feeds.len() ==> #[trigger] self.feeds[i].id < #[trigger] self.feeds[j].id
        &&& forall|i: int, j: int|
            0 <= i < self.feeds.len() && 0 <= j < self.feeds.len() && i != j
                ==> #[trigger] self.feeds[i].feed_url != #[trigger] self.feeds[j].feed_url
        &&& forall|i: int, j: int|
            0 <= i < j < self.entries.len() ==> #[trigger] self.entries[i].id < #[trigger] self.entries[j].id
        &&& forall|i: int, j: int|
            0 <= i < self.entries.len() && 0 <= j < self.entries.len() && i != j
                ==> !(#[trigger] self.entries[i].feed_id == #[trigger] self.entries[j].feed_id
                && self.entries[i].key == self.entries[j].key)
        &&& forall|i: int| 0 <= i < self.entries.len() ==> self.has_feed(#[trigger] self.entries[i].feed_id)
        &&& forall|i: int, j: int|
            0 <= i < j < self.states.len() ==> #[trigger] self.states[i].entry_id < #[trigger] self.states[j].entry_id
        &&& forall|i: int| 0 <= i < self.states.len() ==> self.has_entry(#[trigger] self.states[i].entry_id)
    }

    /// Whether the feed at position `k` is active.
    pub open spec fn active_at(self, k: int) -> bool {
        self.feeds[k].is_active
    }

    /// Whether `list_entries` with these filters shows the entry at position `k`.
    pub open spec fn listed_at(
        self,
        k: int,
        feed_id: Option<i64>,
        unread_only: bool,
        starred_only: bool,
        include_hidden: bool,
    ) -> bool {
        self.entry_listed(self.entries[k], feed_id, unread_only, starred_only, include_hidden)
    }

    /// Whether `v` is what `all_feeds` lists: the active feeds, each once, ordered by title
    /// (code-point order) and, for equal titles, by id.
    pub open spec fn is_feed_listing(self, v: Seq<FeedView>) -> bool {
        &&& forall|i: int|
            0 <= i < v.len() ==> exists|k: int|
                0 <= k < self.feeds.len() && self.feeds[k].is_active && #[trigger] v[i] == feed_view_of(
                    #[trigger] self.feeds[k],
                )
        &&& forall|k: int|
            0 <= k < self.feeds.len() && #[trigger] self.active_at(k) ==> exists|i: int|
                0 <= i < v.len() && #[trigger] v[i].id == self.feeds[k].id
        &&& forall|i: int, j: int|
            0 <= i < j < v.len() ==> row_before(#[trigger] v[i].title, v[i].id, #[trigger] v[j].title, v[j].id, false)
    }

    /// The list that `all_feeds` gives (the one sequence that `is_feed_listing` holds of).
    pub open spec fn feed_listing(self) -> Seq<FeedView> {
        choose|v: Seq<FeedView>| self.is_feed_listing(v)
    }

    /// The list that `list_entries` gives for these filters (the one sequence that
    /// `is_entry_listing` holds of).
    pub open spec fn entry_listing(
        self,
        feed_id: Option<i64>,
        unread_only: bool,
        starred_only: bool,
        include_hidden: bool,
    ) -> Seq<EntryView> {
        choose|v: Seq<EntryView>| self.is_entry_listing(v, feed_id, unread_only, starred_only, include_hidden)
    }

    /// The position of the feed with this URL, or -1.
    pub open spec fn feed_url_index(self, url: Seq<char>) -> int {
        if exists|i: int| 0 <= i < self.feeds.len() && #[trigger] self.feeds[i].feed_url == url {
            choose|i: int| 0 <= i < self.feeds.len() && #[trigger] self.feeds[i].feed_url == url
        } else {
            -1
        }
    }

    /// The position of the feed with this id, or -1.
    pub open spec fn feed_id_index(self, id: i64) -> int {
        if exists|i: int| 0 <= i < self.feeds.len() && #[trigger] self.feeds[i].id == id {
            choose|i: int| 0 <= i < self.feeds.len() && #[trigger] self.feeds[i].id == id
        } else {
            -1
        }
    }

    /// The position of the feed that `key` names: the feed with that id when `key` is an
    /// integer, else the feed with that URL; -1 when there is none.
    pub open spec fn feed_key_index(self, key: Seq<char>) -> int {
        match parse_i64_spec(key) {
            Some(id) => self.feed_id_index(id),
            None => self.feed_url_index(key),
        }
    }

    /// Whether the entry with id `entry_id` belongs to the feed `feed_id`.
    pub open spec fn entry_in_feed(self, entry_id: i64, feed_id: i64) -> bool {
        exists|k: int|
            0 <= k < self.entries.len() && #[trigger] self.entries[k].id == entry_id
                && self.entries[k].feed_id == feed_id
    }

    /// Whether a state row's entry does not belong to the feed `feed_id`.
    pub open spec fn state_outside_feed(self, feed_id: i64) -> spec_fn(EntryStateRow) -> bool {
        |st: EntryStateRow| !self.entry_in_feed(st.entry_id, feed_id)
    }

    /// `remove_feed`: the feed that `key` names becomes inactive; the count of feeds it names.
    pub open spec fn remove_feed(self, key: Seq<char>) -> (DbState, usize) {
        let i = self.feed_key_index(key);
        if i >= 0 {
            (DbState { feeds: self.feeds.update(i, FeedRow { is_active: false, ..self.feeds[i] }), ..self }, 1)
        } else {
            (self, 0)
        }
    }

    /// `delete_feed`: the feed that `key` names goes, with its entries and their states; the
    /// count of feeds it names.
    pub open spec fn delete_feed(self, key: Seq<char>) -> (DbState, usize) {
        let i = self.feed_key_index(key);
        if i >= 0 {
            (self.delete_feed_at(i), 1)
        } else {
            (self, 0)
        }
    }

    /// The tables without the feed at position `i`, its entries and their states.
    pub open spec fn delete_feed_at(self, i: int) -> DbState {
        let fid = self.feeds[i].id;
        DbState {
            feeds: self.feeds.remove(i),
            entries: self.entries.filter(outside_feed(fid)),
            states: self.states.filter(self.state_outside_feed(fid)),
        }
    }

    /// `set_feed_headers` at time `now`: the feed with this id gets the validators and is marked
    /// as checked at `now` (as RFC 3339 text). No feed with the id: nothing changes.
    pub open spec fn set_feed_headers(
        self,
        feed_id: i64,
        etag: Option<Seq<char>>,
        last_modified: Option<Seq<char>>,
        now: UtcTime,
    ) -> DbState {
        let i = self.feed_id_index(feed_id);
        if i >= 0 {
            DbState {
                feeds: self.feeds.update(
                    i,
                    FeedRow {
                        etag: etag,
                        last_modified: last_modified,
                        last_checked_at: Some(rfc3339_text(now.secs, now.nanos)),
                        ..self.feeds[i]
                    },
                ),
                ..self
            }
        } else {
            self
        }
    }

    /// `feed_headers`: the validators stored for the feed with this id.
    pub open spec fn feed_headers(self, feed_id: i64) -> Result<(Option<Seq<char>>, Option<Seq<char>>), DbError> {
        let i = self.feed_id_index(feed_id);
        if i >= 0 {
            Ok((self.feeds[i].etag, self.feeds[i].last_modified))
        } else {
            Err(DbError::NoSuchRow)
        }
    }

    /// The position of the entry of feed `feed_id` with key `key`, or -1.
    pub open spec fn entry_key_index(self, feed_id: i64, key: Seq<char>) -> int {
        if exists|i: int|
            0 <= i < self.entries.len() && #[trigger] self.entries[i].feed_id == feed_id && self.entries[i].key == key {
            choose|i: int|
                0 <= i < self.entries.len() && #[trigger] self.entries[i].feed_id == feed_id && self.entries[i].key
                    == key
        } else {
            -1
        }
    }

    /// The position of the entry with this id, or -1.
    pub open spec fn entry_id_index(self, id: i64) -> int {
        if exists|i: int| 0 <= i < self.entries.len() && #[trigger] self.entries[i].id == id {
            choose|i: int| 0 <= i < self.entries.len() && #[trigger] self.entries[i].id == id
        } else {
            -1
        }
    }

    /// The position of the state row of the entry with this id, or -1.
    pub open spec fn state_index(self, entry_id: i64) -> int {
        if exists|i: int| 0 <= i < self.states.len() && #[trigger] self.states[i].entry_id == entry_id {
            choose|i: int| 0 <= i < self.states.len() && #[trigger] self.states[i].entry_id == entry_id
        } else {
            -1
        }
    }

    /// Where a state row for `entry_id` goes to keep the order: after the rows with smaller ids.
    pub open spec fn state_insert_pos(self, entry_id: i64) -> int {
        choose|p: int| #[trigger] self.is_state_pos(p, entry_id)
    }

    /// Whether `p` lies between the state rows with smaller and larger entry ids.
    pub open spec fn is_state_pos(self, p: int, entry_id: i64) -> bool {
        &&& 0 <= p <= self.states.len()
        &&& forall|k: int| 0 <= k < p ==> #[trigger] self.states[k].entry_id < entry_id
        &&& forall|k: int| p <= k < self.states.len() ==> #[trigger] self.states[k].entry_id > entry_id
    }

    /// The id SQLite gives the next entry: one above the largest, or 1 for an empty table.
    pub open spec fn next_entry_id(self) -> int {
        if self.entries.len() == 0 {
            1
        } else {
            self.entries.last().id + 1
        }
    }

    /// The tables with a state row (unread, unstarred) for the entry `entry_id` when it has none
    /// (INSERT OR IGNORE).
    pub open spec fn with_state(self, entry_id: i64) -> DbState {
        if self.state_index(entry_id) >= 0 {
            self
        } else {
            DbState {
                states: self.states.insert(
                    self.state_insert_pos(entry_id),
                    EntryStateRow { entry_id: entry_id, is_read: false, is_starred: false, read_at: None, starred_at: None },
                ),
                ..self
            }
        }
    }

    /// `upsert_entry` at time `now`: the entry of the same feed with the same key gets the new
    /// title, author and URL, and the new times, summary and content where they are given; or a
    /// new visible entry is added, fetched at `now`. The entry then has a state row. Refused when
    /// the feed does not exist.
    pub open spec fn upsert_entry(self, e: NewEntryView, now: UtcTime) -> (DbState, Result<i64, DbError>) {
        if !self.has_feed(e.feed_id) {
            (self, Err(DbError::ForeignKeyViolation))
        } else {
            let i = self.entry_key_index(e.feed_id, e.key);
            if i >= 0 {
                let old = self.entries[i];
                let row = EntryRow {
                    title: e.title,
                    author: e.author,
                    url: e.url,
                    published_at: coalesce(opt_rfc3339(e.published_at), old.published_at),
                    updated_at: coalesce(opt_rfc3339(e.updated_at), old.updated_at),
                    summary: coalesce(e.summary, old.summary),
                    content: coalesce(e.content, old.content),
                    ..old
                };
                (DbState { entries: self.entries.update(i, row), ..self }.with_state(old.id), Ok(old.id))
            } else if self.next_entry_id() <= i64::MAX {
                let id = self.next_entry_id() as i64;
                let row = EntryRow {
                    id: id,
                    feed_id: e.feed_id,
                    key: e.key,
                    title: e.title,
                    author: e.author,
                    url: e.url,
                    published_at: opt_rfc3339(e.published_at),
                    updated_at: opt_rfc3339(e.updated_at),
                    summary: e.summary,
                    content: e.content,
                    fetched_at: sql_timestamp_text(now.secs, now.nanos),
                    is_hidden: false,
                };
                (DbState { entries: self.entries.push(row), ..self }.with_state(id), Ok(id))
            } else {
                (self, Err(DbError::RowIdsExhausted))
            }
        }
    }

    /// Whether the entry with this id is marked read (no state row: unread).
    pub open spec fn is_read(self, entry_id: i64) -> bool {
        let k = self.state_index(entry_id);
        k >= 0 && self.states[k].is_read
    }

    /// Whether the entry with this id is starred (no state row: not starred).
    pub open spec fn is_starred(self, entry_id: i64) -> bool {
        let k = self.state_index(entry_id);
        k >= 0 && self.states[k].is_starred
    }

    /// `toggle_read` at time `now`: flips the entry's read mark; marking read records `now`,
    /// unmarking clears the time. Refused when the entry does not exist.
    pub open spec fn toggle_read(self, entry_id: i64, now: UtcTime) -> (DbState, Result<(), DbError>) {
        let k = self.state_index(entry_id);
        let stamp = Some(rfc3339_text(now.secs, now.nanos));
        if k >= 0 {
            let st = self.states[k];
            let nv = !st.is_read;
            (
                DbState {
                    states: self.states.update(
                        k,
                        EntryStateRow { is_read: nv, read_at: if nv { stamp } else { None }, ..st },
                    ),
                    ..self
                },
                Ok(()),
            )
        } else if self.has_entry(entry_id) {
            (
                DbState {
                    states: self.states.insert(
                        self.state_insert_pos(entry_id),
                        EntryStateRow { entry_id: entry_id, is_read: true, is_starred: false, read_at: stamp, starred_at: None },
                    ),
                    ..self
                },
                Ok(()),
            )
        } else {
            (self, Err(DbError::ForeignKeyViolation))
        }
    }

    /// `toggle_star` at time `now`: flips the entry's star; starring records `now`, unstarring
    /// clears the time. Refused when the entry does not exist.
    pub open spec fn toggle_star(self, entry_id: i64, now: UtcTime) -> (DbState, Result<(), DbError>) {
        let k = self.state_index(entry_id);
        let stamp = Some(rfc3339_text(now.secs, now.nanos));
        if k >= 0 {
            let st = self.states[k];
            let nv = !st.is_starred;
            (
                DbState {
                    states: self.states.update(
                        k,
                        EntryStateRow { is_starred: nv, starred_at: if nv { stamp } else { None }, ..st },
                    ),
                    ..self
                },
                Ok(()),
            )
        } else if self.has_entry(entry_id) {
            (
                DbState {
                    states: self.states.insert(
                        self.state_insert_pos(entry_id),
                        EntryStateRow { entry_id: entry_id, is_read: false, is_starred: true, read_at: None, starred_at: stamp },
                    ),
                    ..self
                },
                Ok(()),
            )
        } else {
            (self, Err(DbError::ForeignKeyViolation))
        }
    }

    /// `toggle_hidden`: flips whether the entry with this id is hidden; nothing when there is none.
    pub open spec fn toggle_hidden(self, entry_id: i64) -> DbState {
        let i = self.entry_id_index(entry_id);
        if i >= 0 {
            DbState {
                entries: self.entries.update(i, EntryRow { is_hidden: !self.entries[i].is_hidden, ..self.entries[i] }),
                ..self
            }
        } else {
            self
        }
    }

    /// Whether `list_entries` with these filters shows the entry row `r`.
    pub open spec fn entry_listed(
        self,
        r: EntryRow,
        feed_id: Option<i64>,
        unread_only: bool,
        starred_only: bool,
        include_hidden: bool,
    ) -> bool {
        &&& (feed_id matches Some(f) ==> r.feed_id == f)
        &&& (unread_only ==> !self.is_read(r.id))
        &&& (starred_only ==> self.is_starred(r.id))
        &&& (include_hidden || !r.is_hidden)
    }

    /// The entry that the reader shows for the row `r`.
    pub open spec fn entry_view_of(self, r: EntryRow) -> EntryView {
        EntryView {
            id: r.id,
            title: r.title,
            author: r.author,
            url: r.url,
            published_at: opt_time(r.published_at),
            summary: r.summary,
            content: r.content,
            is_read: self.is_read(r.id),
            is_starred: self.is_starred(r.id),
            is_hidden: r.is_hidden,
        }
    }

    /// Whether `v` is what `list_entries` gives for these filters: the entries that pass them,
    /// each once, newest first by published, else updated, else fetched time (as text), and by
    /// increasing id where those texts are equal.
    pub open spec fn is_entry_listing(
        self,
        v: Seq<EntryView>,
        feed_id: Option<i64>,
        unread_only: bool,
        starred_only: bool,
        include_hidden: bool,
    ) -> bool {
        &&& forall|i: int|
            0 <= i < v.len() ==> exists|k: int|
                0 <= k < self.entries.len() && self.entry_listed(
                    self.entries[k],
                    feed_id,
                    unread_only,
                    starred_only,
                    include_hidden,
                ) && #[trigger] v[i] == self.entry_view_of(#[trigger] self.entries[k])
        &&& forall|k: int|
            0 <= k < self.entries.len() && #[trigger] self.listed_at(k, feed_id, unread_only, starred_only, include_hidden)
                ==> exists|i: int| 0 <= i < v.len() && #[trigger] v[i].id == self.entries[k].id
        &&& forall|i: int, j: int|
            0 <= i < j < v.len() ==> row_before(
                sort_text(self.entries[self.entry_id_index(#[trigger] v[i].id)]),
                v[i].id,
                sort_text(self.entries[self.entry_id_index(#[trigger] v[j].id)]),
                v[j].id,
                true,
            )
    }

    /// The id SQLite gives the next feed: one above the largest, or 1 for an empty table.
    pub open spec fn next_feed_id(self) -> int {
        if self.feeds.len() == 0 {
            1
        } else {
            self.feeds.last().id + 1
        }
    }

    /// `upsert_feed`: an existing feed with this URL gets the new title and site URL and becomes
    /// active again; otherwise a new active feed is added. The result is the feed's id.
    pub open spec fn upsert_feed(
        self,
        title: Seq<char>,
        site_url: Option<Seq<char>>,
        feed_url: Seq<char>,
    ) -> (DbState, Result<i64, DbError>) {
        let i = self.feed_url_index(feed_url);
        if i >= 0 {
            let f = self.feeds[i];
            (
                DbState {
                    feeds: self.feeds.update(
                        i,
                        FeedRow { title: title, site_url: site_url, is_active: true, ..f },
                    ),
                    ..self
                },
                Ok(f.id),
            )
        } else if self.next_feed_id() <= i64::MAX {
            let id = self.next_feed_id() as i64;
            (
                DbState {
                    feeds: self.feeds.push(
                        FeedRow {
                            id: id,
                            title: title,
                            site_url: site_url,
                            feed_url: feed_url,
                            etag: None,
                            last_modified: None,
                            last_checked_at: None,
                            is_active: true,
                        },
                    ),
                    ..self
                },
                Ok(id),
            )
        } else {
            (self, Err(DbError::RowIdsExhausted))
        }
    }
}

/// The position of a feed is the one its URL gives.
pub proof fn lemma_feed_url_index(s: DbState, i: int)
    requires
        s.wf(),
        0 <= i < s.feeds.len(),
    ensures
        s.feed_url_index(s.feeds[i].feed_url) == i,
{
    let url = s.feeds[i].feed_url;
    assert(s.feeds[i].feed_url == url);
    let j = s.feed_url_index(url);
    if j != i {
        assert(s.feeds[i].feed_url != s.feeds[j].feed_url);
    }
}

/// The position of a feed is the one its id gives.
pub proof fn lemma_feed_id_index(s: DbState, i: int)
    requires
        s.feed_ids_increasing(),
        0 <= i < s.feeds.len(),
    ensures
        s.feed_id_index(s.feeds[i].id) == i,
{
    let id = s.feeds[i].id;
    assert(s.feeds[i].id == id);
    let j = s.feed_id_index(id);
    if j < i {
        assert(s.feeds[j].id < s.feeds[i].id);
    } else if j > i {
        assert(s.feeds[i].id < s.feeds[j].id);
    }
}

/// Every id in the table is below the next id SQLite gives.
pub proof fn lemma_feed_ids_below_next(s: DbState)
    requires
        s.wf(),
    ensures
        forall|k: int| 0 <= k < s.feeds.len() ==> (#[trigger] s.feeds[k].id) < s.next_feed_id(),
{
    assert forall|k: int| 0 <= k < s.feeds.len() implies (#[trigger] s.feeds[k].id) < s.next_feed_id() by {
        if k < s.feeds.len() - 1 {
            assert(s.feeds[k].id < s.feeds[s.feeds.len() - 1].id);
        }
    }
}

/// `upsert_feed` keeps the schema's constraints.
pub proof fn lemma_upsert_feed_wf(
    s: DbState,
    title: Seq<char>,
    site_url: Option<Seq<char>>,
    feed_url: Seq<char>,
)
    requires
        s.wf(),
    ensures
        s.upsert_feed(title, site_url, feed_url).0.wf(),
{
    let t = s.upsert_feed(title, site_url, feed_url).0;
    let i = s.feed_url_index(feed_url);
    lemma_feed_ids_below_next(s);
    if i >= 0 {
        assert forall|k: int| 0 <= k < t.feeds.len() implies #[trigger] t.feeds[k].id == s.feeds[k].id
            && t.feeds[k].feed_url == s.feeds[k].feed_url by {}
        assert forall|k: int| 0 <= k < t.entries.len() implies t.has_feed(#[trigger] t.entries[k].feed_id) by {
            let fid = t.entries[k].feed_id;
            assert(s.has_feed(fid));
            let m = choose|m: int| 0 <= m < s.feeds.len() && #[trigger] s.feeds[m].id == fid;
            assert(t.feeds[m].id == fid);
        }
    } else if t.feeds.len() > s.feeds.len() {
        assert(!(exists|j: int| 0 <= j < s.feeds.len() && #[trigger] s.feeds[j].feed_url == feed_url));
        assert forall|k: int| 0 <= k < s.feeds.len() implies #[trigger] t.feeds[k] == s.feeds[k] by {}
        assert forall|k: int| 0 <= k < t.entries.len() implies t.has_feed(#[trigger] t.entries[k].feed_id) by {
            let fid = t.entries[k].feed_id;
            assert(s.has_feed(fid));
            let m = choose|m: int| 0 <= m < s.feeds.len() && #[trigger] s.feeds[m].id == fid;
            assert(t.feeds[m].id == fid);
        }
    }
}

/// Changing a feed row but not its id or URL keeps the schema's constraints.
pub proof fn lemma_feed_update_wf(s: DbState, i: int, r: FeedRow)
    requires
        s.wf(),
        0 <= i < s.feeds.len(),
        r.id == s.feeds[i].id,
        r.feed_url == s.feeds[i].feed_url,
    ensures
        (DbState { feeds: s.feeds.update(i, r), ..s }).wf(),
{
    let t = DbState { feeds: s.feeds.update(i, r), ..s };
    assert forall|k: int| 0 <= k < t.feeds.len() implies #[trigger] t.feeds[k].id == s.feeds[k].id
        && t.feeds[k].feed_url == s.feeds[k].feed_url by {}
    assert forall|k: int| 0 <= k < t.entries.len() implies t.has_feed(#[trigger] t.entries[k].feed_id) by {
        let fid = t.entries[k].feed_id;
        assert(s.has_feed(fid));
        let m = choose|m: int| 0 <= m < s.feeds.len() && #[trigger] s.feeds[m].id == fid;
        assert(t.feeds[m].id == fid);
    }
}

/// Deleting a feed with its entries and their states keeps the schema's constraints. `esrc`
/// and `ssrc` give, in increasing order, the positions of the rows that stay.
proof fn lemma_delete_feed_wf(s: DbState, i: int, esrc: Seq<int>, ssrc: Seq<int>)
    requires
        s.wf(),
        0 <= i < s.feeds.len(),
        esrc.len() == s.entries.filter(outside_feed(s.feeds[i].id)).len(),
        forall|a: int, b: int| 0 <= a < b < esrc.len() ==> #[trigger] esrc[a] < #[trigger] esrc[b],
        forall|a: int| 0 <= a < esrc.len() ==> 0 <= #[trigger] esrc[a] < s.entries.len()
            && s.entries.filter(outside_feed(s.feeds[i].id))[a] == s.entries[esrc[a]]
            && s.entries[esrc[a]].feed_id != s.feeds[i].id,
        ssrc.len() == s.states.filter(s.state_outside_feed(s.feeds[i].id)).len(),
        forall|a: int, b: int| 0 <= a < b < ssrc.len() ==> #[trigger] ssrc[a] < #[trigger] ssrc[b],
        forall|a: int| 0 <= a < ssrc.len() ==> 0 <= #[trigger] ssrc[a] < s.states.len()
            && s.states.filter(s.state_outside_feed(s.feeds[i].id))[a] == s.states[ssrc[a]]
            && (s.state_outside_feed(s.feeds[i].id))(s.states[ssrc[a]]),
    ensures
        s.delete_feed_at(i).wf(),
{
    let fid = s.feeds[i].id;
    let t = s.delete_feed_at(i);
    lemma_feed_id_index(s, i);
    // feeds
    assert forall|a: int, b: int| 0 <= a < b < t.feeds.len() implies #[trigger] t.feeds[a].id < #[trigger] t.feeds[b].id by {
        let a2 = if a < i { a } else { a + 1 };
        let b2 = if b < i { b } else { b + 1 };
        assert(t.feeds[a] == s.feeds[a2] && t.feeds[b] == s.feeds[b2]);
        assert(s.feeds[a2].id < s.feeds[b2].id);
    }
    assert forall|a: int, b: int|
        0 <= a < t.feeds.len() && 0 <= b < t.feeds.len() && a != b implies #[trigger] t.feeds[a].feed_url != #[trigger] t.feeds[b].feed_url by {
        let a2 = if a < i { a } else { a + 1 };
        let b2 = if b < i { b } else { b + 1 };
        assert(t.feeds[a] == s.feeds[a2] && t.feeds[b] == s.feeds[b2]);
        assert(s.feeds[a2].feed_url != s.feeds[b2].feed_url);
    }
    // entries
    assert forall|a: int, b: int| 0 <= a < b < t.entries.len() implies #[trigger] t.entries[a].id < #[trigger] t.entries[b].id by {
        assert(s.entries[esrc[a]].id < s.entries[esrc[b]].id);
    }
    assert forall|a: int, b: int|
        0 <= a < t.entries.len() && 0 <= b < t.entries.len() && a != b implies !(#[trigger] t.entries[a].feed_id
        == #[trigger] t.entries[b].feed_id && t.entries[a].key == t.entries[b].key) by {
        if a < b {
            assert(esrc[a] < esrc[b]);
        } else {
            assert(esrc[b] < esrc[a]);
        }
        let ea = s.entries[esrc[a]];
        let eb = s.entries[esrc[b]];
        assert(!(ea.feed_id == eb.feed_id && ea.key == eb.key));
    }
    assert forall|a: int| 0 <= a < t.entries.len() implies t.has_feed(#[trigger] t.entries[a].feed_id) by {
        let e = s.entries[esrc[a]];
        assert(s.has_feed(e.feed_id));
        let m = choose|m: int| 0 <= m < s.feeds.len() && #[trigger] s.feeds[m].id == e.feed_id;
        assert(m != i);
        if m < i {
            assert(t.feeds[m].id == e.feed_id);
        } else {
            assert(t.feeds[m - 1].id == e.feed_id);
        }
    }
    // states
    assert forall|a: int, b: int| 0 <= a < b < t.states.len() implies #[trigger] t.states[a].entry_id < #[trigger] t.states[b].entry_id by {
        assert(s.states[ssrc[a]].entry_id < s.states[ssrc[b]].entry_id);
    }
    assert forall|a: int| 0 <= a < t.states.len() implies t.has_entry(#[trigger] t.states[a].entry_id) by {
        let st = s.states[ssrc[a]];
        assert(s.has_entry(st.entry_id));
        let m = choose|m: int| 0 <= m < s.entries.len() && #[trigger] s.entries[m].id == st.entry_id;
        assert(!s.entry_in_feed(st.entry_id, fid));
        assert(s.entries[m].feed_id != fid);
        assert((outside_feed(fid))(s.entries[m]));
        s.entries.lemma_filter_contains(outside_feed(fid), m);
        let q = choose|q: int| 0 <= q < t.entries.len() && t.entries[q] == s.entries[m];
        assert(t.entries[q].id == st.entry_id);
    }
}

/// The position of an entry is the one its feed and key give.
pub proof fn lemma_entry_key_index(s: DbState, i: int)
    requires
        s.wf(),
        0 <= i < s.entries.len(),
    ensures
        s.entry_key_index(s.entries[i].feed_id, s.entries[i].key) == i,
{
    assert(s.entries[i].feed_id == s.entries[i].feed_id && s.entries[i].key == s.entries[i].key);
    let j = s.entry_key_index(s.entries[i].feed_id, s.entries[i].key);
    if j != i {
        assert(!(s.entries[i].feed_id == s.entries[j].feed_id && s.entries[i].key == s.entries[j].key));
    }
}

/// The position of an entry is the one its id gives.
pub proof fn lemma_entry_id_index(s: DbState, i: int)
    requires
        s.entry_ids_increasing(),
        0 <= i < s.entries.len(),
    ensures
        s.entry_id_index(s.entries[i].id) == i,
{
    let id = s.entries[i].id;
    assert(s.entries[i].id == id);
    let j = s.entry_id_index(id);
    if j < i {
        assert(s.entries[j].id < s.entries[i].id);
    } else if j > i {
        assert(s.entries[i].id < s.entries[j].id);
    }
}

/// The position of a state row is the one its entry id gives.
pub proof fn lemma_state_index(s: DbState, i: int)
    requires
        s.wf(),
        0 <= i < s.states.len(),
    ensures
        s.state_index(s.states[i].entry_id) == i,
{
    let id = s.states[i].entry_id;
    assert(s.states[i].entry_id == id);
    let j = s.state_index(id);
    if j < i {
        assert(s.states[j].entry_id < s.states[i].entry_id);
    } else if j > i {
        assert(s.states[i].entry_id < s.states[j].entry_id);
    }
}

/// A position between smaller and larger entry ids is the insertion position.
pub proof fn lemma_state_pos(s: DbState, p: int, entry_id: i64)
    requires
        s.is_state_pos(p, entry_id),
    ensures
        s.state_insert_pos(entry_id) == p,
{
    let q = s.state_insert_pos(entry_id);
    assert(s.is_state_pos(q, entry_id));
    if q < p {
        assert(s.states[q].entry_id > entry_id);
        assert(s.states[q].entry_id < entry_id);
    } else if q > p {
        assert(s.states[p].entry_id > entry_id);
        assert(s.states[p].entry_id < entry_id);
    }
}

/// Whether every entry has a feed and every state row an entry.
proof fn lemma_refs_from_ids(s: DbState, t: DbState)
    requires
        s.wf(),
        t.feeds == s.feeds,
        t.entries.len() == s.entries.len(),
        forall|k: int| 0 <= k < t.entries.len() ==> #[trigger] t.entries[k].id == s.entries[k].id
            && t.entries[k].feed_id == s.entries[k].feed_id,
        forall|k: int| 0 <= k < t.states.len() ==> t.has_entry(#[trigger] t.states[k].entry_id),
    ensures
        forall|k: int| 0 <= k < t.entries.len() ==> t.has_feed(#[trigger] t.entries[k].feed_id),
{
    assert forall|k: int| 0 <= k < t.entries.len() implies t.has_feed(#[trigger] t.entries[k].feed_id) by {
        assert(t.entries[k].id == s.entries[k].id);
        assert(s.has_feed(s.entries[k].feed_id));
        let m = choose|m: int| 0 <= m < s.feeds.len() && #[trigger] s.feeds[m].id == s.entries[k].feed_id;
        assert(t.feeds[m].id == t.entries[k].feed_id);
    }
}

/// Changing an entry row but not its id, feed or key keeps the schema's constraints.
pub proof fn lemma_entry_update_wf(s: DbState, i: int, r: EntryRow)
    requires
        s.wf(),
        0 <= i < s.entries.len(),
        r.id == s.entries[i].id,
        r.feed_id == s.entries[i].feed_id,
        r.key == s.entries[i].key,
    ensures
        (DbState { entries: s.entries.update(i, r), ..s }).wf(),
{
    let t = DbState { entries: s.entries.update(i, r), ..s };
    assert forall|k: int| 0 <= k < t.entries.len() implies #[trigger] t.entries[k].id == s.entries[k].id
        && t.entries[k].feed_id == s.entries[k].feed_id && t.entries[k].key == s.entries[k].key by {}
    assert forall|k: int| 0 <= k < t.states.len() implies t.has_entry(#[trigger] t.states[k].entry_id) by {
        let eid = t.states[k].entry_id;
        assert(s.has_entry(eid));
        let m = choose|m: int| 0 <= m < s.entries.len() && #[trigger] s.entries[m].id == eid;
        assert(t.entries[m].id == eid);
    }
    lemma_refs_from_ids(s, t);
}

/// Adding an entry above the largest id, of an existing feed, under a new key keeps the
/// schema's constraints.
pub proof fn lemma_entry_push_wf(s: DbState, r: EntryRow)
    requires
        s.wf(),
        r.id == s.next_entry_id(),
        s.has_feed(r.feed_id),
        s.entry_key_index(r.feed_id, r.key) == -1,
    ensures
        (DbState { entries: s.entries.push(r), ..s }).wf(),
{
    let t = DbState { entries: s.entries.push(r), ..s };
    assert forall|k: int| 0 <= k < s.entries.len() implies (#[trigger] s.entries[k].id) < r.id by {
        if k < s.entries.len() - 1 {
            assert(s.entries[k].id < s.entries[s.entries.len() - 1].id);
        }
    }
    assert forall|a: int, b: int| 0 <= a < b < t.entries.len() implies #[trigger] t.entries[a].id
        < #[trigger] t.entries[b].id by {
        if b == s.entries.len() {
            assert(t.entries[a] == s.entries[a]);
        } else {
            assert(t.entries[a] == s.entries[a] && t.entries[b] == s.entries[b]);
        }
    }
    assert forall|a: int, b: int|
        0 <= a < t.entries.len() && 0 <= b < t.entries.len() && a != b implies !(#[trigger] t.entries[a].feed_id
        == #[trigger] t.entries[b].feed_id && t.entries[a].key == t.entries[b].key) by {
        if a == s.entries.len() {
            assert(t.entries[b] == s.entries[b]);
            if s.entries[b].feed_id == r.feed_id && s.entries[b].key == r.key {
                assert(s.entries[b].feed_id == r.feed_id && s.entries[b].key == r.key);
            }
        } else if b == s.entries.len() {
            assert(t.entries[a] == s.entries[a]);
            if s.entries[a].feed_id == r.feed_id && s.entries[a].key == r.key {
                assert(s.entries[a].feed_id == r.feed_id && s.entries[a].key == r.key);
            }
        } else {
            assert(t.entries[a] == s.entries[a] && t.entries[b] == s.entries[b]);
        }
    }
    assert forall|k: int| 0 <= k < t.entries.len() implies t.has_feed(#[trigger] t.entries[k].feed_id) by {
        if k < s.entries.len() {
            assert(t.entries[k] == s.entries[k]);
        }
    }
    assert forall|k: int| 0 <= k < t.states.len() implies t.has_entry(#[trigger] t.states[k].entry_id) by {
        let eid = t.states[k].entry_id;
        assert(s.has_entry(eid));
        let m = choose|m: int| 0 <= m < s.entries.len() && #[trigger] s.entries[m].id == eid;
        assert(t.entries[m].id == eid);
    }
}

/// Adding a state row at its position for an existing entry without one keeps the schema's
/// constraints.
pub proof fn lemma_state_insert_wf(s: DbState, st: EntryStateRow)
    requires
        s.wf(),
        s.has_entry(st.entry_id),
        s.state_index(st.entry_id) == -1,
        s.is_state_pos(s.state_insert_pos(st.entry_id), st.entry_id),
    ensures
        (DbState { states: s.states.insert(s.state_insert_pos(st.entry_id), st), ..s }).wf(),
{
    let p = s.state_insert_pos(st.entry_id);
    let t = DbState { states: s.states.insert(p, st), ..s };
    assert forall|a: int, b: int| 0 <= a < b < t.states.len() implies #[trigger] t.states[a].entry_id
        < #[trigger] t.states[b].entry_id by {
        if b < p {
            assert(t.states[a] == s.states[a] && t.states[b] == s.states[b]);
        } else if b == p {
            assert(t.states[a] == s.states[a]);
        } else if a < p {
            assert(t.states[a] == s.states[a] && t.states[b] == s.states[b - 1]);
        } else if a == p {
            assert(t.states[b] == s.states[b - 1]);
        } else {
            assert(t.states[a] == s.states[a - 1] && t.states[b] == s.states[b - 1]);
            assert(s.states[a - 1].entry_id < s.states[b - 1].entry_id);
        }
    }
    assert forall|k: int| 0 <= k < t.states.len() implies t.has_entry(#[trigger] t.states[k].entry_id) by {
        if k < p {
            assert(t.states[k] == s.states[k]);
        } else if k > p {
            assert(t.states[k] == s.states[k - 1]);
        }
    }
}

/// Changing a state row but not its entry id keeps the schema's constraints.
pub proof fn lemma_state_update_wf(s: DbState, i: int, st: EntryStateRow)
    requires
        s.wf(),
        0 <= i < s.states.len(),
        st.entry_id == s.states[i].entry_id,
    ensures
        (DbState { states: s.states.update(i, st), ..s }).wf(),
{
    let t = DbState { states: s.states.update(i, st), ..s };
    assert forall|k: int| 0 <= k < t.states.len() implies #[trigger] t.states[k].entry_id == s.states[k].entry_id by {}
}

/// Each feed of a listing is the one its id gives.
#[verifier::spinoff_prover]
#[verifier::rlimit(100)]
proof fn lemma_feed_listing_by_id(s: DbState, v: Seq<FeedView>)
    requires
        s.feed_ids_increasing(),
        s.is_feed_listing(v),
    ensures
        forall|i: int| 0 <= i < v.len() ==> s.feed_id_index(#[trigger] v[i].id) >= 0 && v[i] == feed_view_of(
            s.feeds[s.feed_id_index(v[i].id)],
        ) && s.active_at(s.feed_id_index(v[i].id)),
{
    assert forall|i: int| 0 <= i < v.len() implies s.feed_id_index(#[trigger] v[i].id) >= 0 && v[i] == feed_view_of(
        s.feeds[s.feed_id_index(v[i].id)],
    ) && s.active_at(s.feed_id_index(v[i].id)) by {
        let k = choose|k: int| 0 <= k < s.feeds.len() && s.feeds[k].is_active && #[trigger] v[i] == feed_view_of(
            #[trigger] s.feeds[k],
        );
        lemma_feed_id_index(s, k);
    }
}

/// `all_feeds` has one possible result: two lists that both answer it are equal.
#[verifier::spinoff_prover]
#[verifier::rlimit(100)]
pub proof fn lemma_feed_listing_unique(s: DbState, v: Seq<FeedView>)
    requires
        s.wf(),
        s.is_feed_listing(v),
    ensures
        v == s.feed_listing(),
{
    let w = s.feed_listing();
    assert(s.is_feed_listing(w));
    lemma_feed_listing_by_id(s, v);
    lemma_feed_listing_by_id(s, w);
    let lt = |x: i64, y: i64|
        row_before(
            s.feeds[s.feed_id_index(x)].title,
            x,
            s.feeds[s.feed_id_index(y)].title,
            y,
            false,
        );
    let iv = v.map_values(|f: FeedView| f.id);
    let iw = w.map_values(|f: FeedView| f.id);
    assert forall|x: i64, y: i64, z: i64| #[trigger] lt(x, y) && #[trigger] lt(y, z) implies lt(x, z) by {
        lemma_row_before_transitive(
            s.feeds[s.feed_id_index(x)].title, x,
            s.feeds[s.feed_id_index(y)].title, y,
            s.feeds[s.feed_id_index(z)].title, z, false,
        );
    }
    assert forall|i: int, j: int| 0 <= i < j < iv.len() implies lt(#[trigger] iv[i], #[trigger] iv[j]) by {
        assert(row_before(v[i].title, v[i].id, v[j].title, v[j].id, false));
    }
    assert forall|i: int, j: int| 0 <= i < j < iw.len() implies lt(#[trigger] iw[i], #[trigger] iw[j]) by {
        assert(row_before(w[i].title, w[i].id, w[j].title, w[j].id, false));
    }
    assert forall|x: i64| iv.contains(x) <==> iw.contains(x) by {
        if iv.contains(x) {
            let i = choose|i: int| 0 <= i < iv.len() && iv[i] == x;
            let k = s.feed_id_index(v[i].id);
            assert(s.active_at(k));
            let j = choose|j: int| 0 <= j < w.len() && #[trigger] w[j].id == s.feeds[k].id;
            assert(iw[j] == x);
        }
        if iw.contains(x) {
            let i = choose|i: int| 0 <= i < iw.len() && iw[i] == x;
            let k = s.feed_id_index(w[i].id);
            assert(s.active_at(k));
            let j = choose|j: int| 0 <= j < v.len() && #[trigger] v[j].id == s.feeds[k].id;
            assert(iv[j] == x);
        }
    }
    lemma_sorted_unique(iv, iw, lt);
    assert forall|i: int| 0 <= i < v.len() implies v[i] == w[i] by {
        assert(iv[i] == iw[i]);
    }
    assert(v =~= w);
}

/// An entry of a listing is the one its id gives.
proof fn lemma_entry_listing_elem(
    s: DbState,
    v: Seq<EntryView>,
    feed_id: Option<i64>,
    unread_only: bool,
    starred_only: bool,
    include_hidden: bool,
    i: int,
)
    requires
        s.entry_ids_increasing(),
        0 <= i < v.len(),
        exists|k: int|
            0 <= k < s.entries.len() && s.entry_listed(
                s.entries[k],
                feed_id,
                unread_only,
                starred_only,
                include_hidden,
            ) && v[i] == s.entry_view_of(#[trigger] s.entries[k]),
    ensures
        s.entry_id_index(v[i].id) >= 0,
        v[i] == s.entry_view_of(s.entries[s.entry_id_index(v[i].id)]),
        s.listed_at(s.entry_id_index(v[i].id), feed_id, unread_only, starred_only, include_hidden),
{
    let k = choose|k: int|
        0 <= k < s.entries.len() && s.entry_listed(
            s.entries[k],
            feed_id,
            unread_only,
            starred_only,
            include_hidden,
        ) && v[i] == s.entry_view_of(#[trigger] s.entries[k]);
    lemma_entry_id_index(s, k);
}

/// `list_entries` has one possible result: two lists that both answer it are equal.
#[verifier::spinoff_prover]
#[verifier::rlimit(100)]
pub proof fn lemma_entry_listing_unique(
    s: DbState,
    v: Seq<EntryView>,
    feed_id: Option<i64>,
    unread_only: bool,
    starred_only: bool,
    include_hidden: bool,
)
    requires
        s.wf(),
        s.is_entry_listing(v, feed_id, unread_only, starred_only, include_hidden),
    ensures
        v == s.entry_listing(feed_id, unread_only, starred_only, include_hidden),
{
    let w = s.entry_listing(feed_id, unread_only, starred_only, include_hidden);
    assert(s.is_entry_listing(w, feed_id, unread_only, starred_only, include_hidden));
    assert forall|i: int| 0 <= i < v.len() implies s.entry_id_index(#[trigger] v[i].id) >= 0 && v[i]
        == s.entry_view_of(s.entries[s.entry_id_index(v[i].id)]) && s.listed_at(
        s.entry_id_index(v[i].id),
        feed_id,
        unread_only,
        starred_only,
        include_hidden,
    ) by {
        lemma_entry_listing_elem(s, v, feed_id, unread_only, starred_only, include_hidden, i);
    }
    assert forall|i: int| 0 <= i < w.len() implies s.entry_id_index(#[trigger] w[i].id) >= 0 && w[i]
        == s.entry_view_of(s.entries[s.entry_id_index(w[i].id)]) && s.listed_at(
        s.entry_id_index(w[i].id),
        feed_id,
        unread_only,
        starred_only,
        include_hidden,
    ) by {
        lemma_entry_listing_elem(s, w, feed_id, unread_only, starred_only, include_hidden, i);
    }
    let lt = |x: i64, y: i64|
        row_before(
            sort_text(s.entries[s.entry_id_index(x)]),
            x,
            sort_text(s.entries[s.entry_id_index(y)]),
            y,
            true,
        );
    let iv = v.map_values(|e: EntryView| e.id);
    let iw = w.map_values(|e: EntryView| e.id);
    assert forall|x: i64, y: i64, z: i64| #[trigger] lt(x, y) && #[trigger] lt(y, z) implies lt(x, z) by {
        lemma_row_before_transitive(
            sort_text(s.entries[s.entry_id_index(x)]), x,
            sort_text(s.entries[s.entry_id_index(y)]), y,
            sort_text(s.entries[s.entry_id_index(z)]), z, true,
        );
    }
    assert forall|i: int, j: int| 0 <= i < j < iv.len() implies lt(#[trigger] iv[i], #[trigger] iv[j]) by {
        assert(iv[i] == v[i].id && iv[j] == v[j].id);
    }
    assert forall|i: int, j: int| 0 <= i < j < iw.len() implies lt(#[trigger] iw[i], #[trigger] iw[j]) by {
        assert(iw[i] == w[i].id && iw[j] == w[j].id);
    }
    assert forall|x: i64| iv.contains(x) <==> iw.contains(x) by {
        if iv.contains(x) {
            let i = choose|i: int| 0 <= i < iv.len() && iv[i] == x;
            let k = s.entry_id_index(v[i].id);
            let j = choose|j: int| 0 <= j < w.len() && #[trigger] w[j].id == s.entries[k].id;
            assert(iw[j] == x);
        }
        if iw.contains(x) {
            let i = choose|i: int| 0 <= i < iw.len() && iw[i] == x;
            let k = s.entry_id_index(w[i].id);
            let j = choose|j: int| 0 <= j < v.len() && #[trigger] v[j].id == s.entries[k].id;
            assert(iv[j] == x);
        }
    }
    lemma_sorted_unique(iv, iw, lt);
    assert forall|i: int| 0 <= i < v.len() implies v[i] == w[i] by {
        assert(iv[i] == iw[i]);
    }
    assert(v =~= w);
}

/// Whether the numbers increase strictly.
fn ids_increase(ids: &Vec<i64>) -> (r: bool)
    ensures
        r == (forall|i: int, j: int| 0 <= i < j < ids@.len() ==> #[trigger] ids@[i] < #[trigger] ids@[j]),
{
    let n = ids.len();
    if n == 0 {
        return true;
    }
    let mut i: usize = 1;
    while i < n
        invariant
            n == ids@.len(),
            1 <= i <= n,
            forall|a: int, b: int| 0 <= a < b < i ==> #[trigger] ids@[a] < #[trigger] ids@[b],
        decreases n - i,
    {
        if ids[i - 1] >= ids[i] {
            assert(!(ids@[i - 1] < ids@[i as int]));
            return false;
        }
        assert forall|a: int, b: int| 0 <= a < b < i + 1 implies #[trigger] ids@[a] < #[trigger] ids@[b] by {
            if b == i && a < i - 1 {
                assert(ids@[a] < ids@[i - 1]);
            }
        }
        i = i + 1;
    }
    true
}

/// Whether `x` is one of the numbers `ids`.
pub open spec fn in_ids(ids: Seq<i64>, x: i64) -> bool {
    exists|k: int| 0 <= k < ids.len() && #[trigger] ids[k] == x
}

/// Whether `x` is one of the numbers.
fn has_id(ids: &Vec<i64>, x: i64) -> (r: bool)
    ensures
        r == in_ids(ids@, x),
{
    let n = ids.len();
    let mut i: usize = 0;
    while i < n
        invariant
            n == ids@.len(),
            0 <= i <= n,
            forall|k: int| 0 <= k < i ==> #[trigger] ids@[k] != x,
        decreases n - i,
    {
        if ids[i] == x {
            assert(ids@[i as int] == x);
            return true;
        }
        i = i + 1;
    }
    false
}

/// Whether no two feed rows share a URL.
fn urls_unique(v: &Vec<FeedRecord>) -> (r: bool)
    ensures
        r == (forall|i: int, j: int|
            0 <= i < v@.len() && 0 <= j < v@.len() && i != j ==> #[trigger] v@[i]@.feed_url != #[trigger] v@[j]@.feed_url),
{
    let n = v.len();
    let mut i: usize = 0;
    while i < n
        invariant
            n == v@.len(),
            0 <= i <= n,
            forall|a: int, b: int| 0 <= a < i && 0 <= b < n && a != b ==> #[trigger] v@[a]@.feed_url != #[trigger] v@[b]@.feed_url,
        decreases n - i,
    {
        let mut j: usize = i + 1;
        while j < n
            invariant
                n == v@.len(),
                0 <= i < n,
                i + 1 <= j <= n,
                forall|a: int, b: int| 0 <= a < i && 0 <= b < n && a != b ==> #[trigger] v@[a]@.feed_url != #[trigger] v@[b]@.feed_url,
                forall|b: int| i < b < j ==> v@[i as int]@.feed_url != #[trigger] v@[b]@.feed_url,
            decreases n - j,
        {
            if v[i].feed_url == v[j].feed_url {
                assert(v@[i as int]@.feed_url == v@[j as int]@.feed_url);
                return false;
            }
            j = j + 1;
        }
        assert forall|a: int, b: int| 0 <= a < i + 1 && 0 <= b < n && a != b implies #[trigger] v@[a]@.feed_url
            != #[trigger] v@[b]@.feed_url by {
            if a == i && b < i {
                assert(v@[b]@.feed_url != v@[a]@.feed_url);
            }
        }
        i = i + 1;
    }
    true
}

/// Whether no two entry rows share a feed and a key.
fn entry_keys_unique(v: &Vec<EntryRecord>) -> (r: bool)
    ensures
        r == (forall|i: int, j: int|
            0 <= i < v@.len() && 0 <= j < v@.len() && i != j ==> !(#[trigger] v@[i]@.feed_id == #[trigger] v@[j]@.feed_id
                && v@[i]@.key == v@[j]@.key)),
{
    let n = v.len();
    let mut i: usize = 0;
    while i < n
        invariant
            n == v@.len(),
            0 <= i <= n,
            forall|a: int, b: int|
                0 <= a < i && 0 <= b < n && a != b ==> !(#[trigger] v@[a]@.feed_id == #[trigger] v@[b]@.feed_id
                    && v@[a]@.key == v@[b]@.key),
        decreases n - i,
    {
        let mut j: usize = i + 1;
        while j < n
            invariant
                n == v@.len(),
                0 <= i < n,
                i + 1 <= j <= n,
                forall|a: int, b: int|
                    0 <= a < i && 0 <= b < n && a != b ==> !(#[trigger] v@[a]@.feed_id == #[trigger] v@[b]@.feed_id
                        && v@[a]@.key == v@[b]@.key),
                forall|b: int| i < b < j ==> !(v@[i as int]@.feed_id == (#[trigger] v@[b])@.feed_id && v@[i as int]@.key == v@[b]@.key),
            decreases n - j,
        {
            if v[i].feed_id == v[j].feed_id && v[i].key == v[j].key {
                assert(v@[i as int]@.feed_id == v@[j as int]@.feed_id && v@[i as int]@.key == v@[j as int]@.key);
                return false;
            }
            j = j + 1;
        }
        assert forall|a: int, b: int| 0 <= a < i + 1 && 0 <= b < n && a != b implies !(#[trigger] v@[a]@.feed_id
            == #[trigger] v@[b]@.feed_id && v@[a]@.key == v@[b]@.key) by {
            if a == i && b < i {
                assert(!(v@[b]@.feed_id == v@[a]@.feed_id && v@[b]@.key == v@[a]@.key));
            }
        }
        i = i + 1;
    }
    true
}

/// Whether every number of `xs` is one of `ids`.
fn all_in(xs: &Vec<i64>, ids: &Vec<i64>) -> (r: bool)
    ensures
        r == (forall|i: int| 0 <= i < xs@.len() ==> in_ids(ids@, #[trigger] xs@[i])),
{
    let n = xs.len();
    let mut i: usize = 0;
    while i < n
        invariant
            n == xs@.len(),
            0 <= i <= n,
            forall|a: int| 0 <= a < i ==> in_ids(ids@, #[trigger] xs@[a]),
        decreases n - i,
    {
        if !has_id(ids, xs[i]) {
            assert(!in_ids(ids@, xs@[i as int]));
            return false;
        }
        i = i + 1;
    }
    true
}

/// The feeds, entries and entry states of the reader, with the rules of its SQLite schema.
pub struct Database {
    feeds: Vec<FeedRecord>,
    entries: Vec<EntryRecord>,
    states: Vec<EntryStateRecord>,
}

impl View for Database {
    type V = DbState;

    closed spec fn view(&self) -> DbState {
        DbState {
            feeds: self.feeds@.map_values(|f: FeedRecord| f@),
            entries: self.entries@.map_values(|e: EntryRecord| e@),
            states: self.states@.map_values(|s: EntryStateRecord| s@),
        }
    }
}

impl Database {
    /// Whether the tables keep the schema's constraints.
    pub open spec fn wf(&self) -> bool {
        self@.wf()
    }

    /// An empty database.
    pub fn new() -> (db: Database)
        ensures
            db.wf(),
            db@.feeds.len() == 0,
            db@.entries.len() == 0,
            db@.states.len() == 0,
    {
        let db = Database { feeds: Vec::new(), entries: Vec::new(), states: Vec::new() };
        assert(db@.feeds =~= Seq::<FeedRow>::empty());
        db
    }

    /// The tables made of these rows (each table in increasing order of its key, as SQLite gives
    /// them with ORDER BY), or `None` when the rows break a constraint of the schema.
    pub fn from_records(feeds: Vec<FeedRecord>, entries: Vec<EntryRecord>, states: Vec<EntryStateRecord>) -> (r:
        Option<Database>)
        ensures
            match r {
                Some(db) => db.wf() && db@ == (DbState {
                    feeds: feeds@.map_values(|f: FeedRecord| f@),
                    entries: entries@.map_values(|e: EntryRecord| e@),
                    states: states@.map_values(|s: EntryStateRecord| s@),
                }),
                None => !(DbState {
                    feeds: feeds@.map_values(|f: FeedRecord| f@),
                    entries: entries@.map_values(|e: EntryRecord| e@),
                    states: states@.map_values(|s: EntryStateRecord| s@),
                }).wf(),
            },
    {
        let db = Database { feeds: feeds, entries: entries, states: states };
        if db.keeps_constraints() {
            Some(db)
        } else {
            None
        }
    }

    /// Whether the rows keep the constraints of the schema.
    #[verifier::rlimit(30)]
    fn keeps_constraints(&self) -> (r: bool)
        ensures
            r == self@.wf(),
    {
        let mut feed_ids: Vec<i64> = Vec::new();
        let mut i: usize = 0;
        while i < self.feeds.len()
            invariant
                0 <= i <= self.feeds@.len(),
                feed_ids@.len() == i,
                forall|k: int| 0 <= k < i ==> #[trigger] feed_ids@[k] == self.feeds@[k].id,
            decreases self.feeds@.len() - i,
        {
            feed_ids.push(self.feeds[i].id);
            i = i + 1;
        }
        let mut entry_ids: Vec<i64> = Vec::new();
        let mut entry_feeds: Vec<i64> = Vec::new();
        let mut i: usize = 0;
        while i < self.entries.len()
            invariant
                0 <= i <= self.entries@.len(),
                entry_ids@.len() == i,
                entry_feeds@.len() == i,
                forall|k: int| 0 <= k < i ==> #[trigger] entry_ids@[k] == self.entries@[k].id,
                forall|k: int| 0 <= k < i ==> #[trigger] entry_feeds@[k] == self.entries@[k].feed_id,
            decreases self.entries@.len() - i,
        {
            entry_ids.push(self.entries[i].id);
            entry_feeds.push(self.entries[i].feed_id);
            i = i + 1;
        }
        let mut state_ids: Vec<i64> = Vec::new();
        let mut i: usize = 0;
        while i < self.states.len()
            invariant
                0 <= i <= self.states@.len(),
                state_ids@.len() == i,
                forall|k: int| 0 <= k < i ==> #[trigger] state_ids@[k] == self.states@[k].entry_id,
            decreases self.states@.len() - i,
        {
            state_ids.push(self.states[i].entry_id);
            i = i + 1;
        }
        let ghost s = self@;
        let c1 = ids_increase(&feed_ids);
        let c2 = urls_unique(&self.feeds);
        let c3 = ids_increase(&entry_ids);
        let c4 = entry_keys_unique(&self.entries);
        let c5 = all_in(&entry_feeds, &feed_ids);
        let c6 = ids_increase(&state_ids);
        let c7 = all_in(&state_ids, &entry_ids);
        proof {
            assert(c1 == (forall|i: int, j: int|
                0 <= i < j < s.feeds.len() ==> #[trigger] s.feeds[i].id < #[trigger] s.feeds[j].id)) by {
                if c1 {
                    assert forall|i: int, j: int| 0 <= i < j < s.feeds.len() implies #[trigger] s.feeds[i].id
                        < #[trigger] s.feeds[j].id by {
                        assert(feed_ids@[i] < feed_ids@[j]);
                    }
                } else {
                    let (i, j) = choose|i: int, j: int| 0 <= i < j < feed_ids@.len() && !(#[trigger] feed_ids@[i] < #[trigger] feed_ids@[j]);
                    assert(!(s.feeds[i].id < s.feeds[j].id));
                }
            }
            assert(c3 == (forall|i: int, j: int|
                0 <= i < j < s.entries.len() ==> #[trigger] s.entries[i].id < #[trigger] s.entries[j].id)) by {
                if c3 {
                    assert forall|i: int, j: int| 0 <= i < j < s.entries.len() implies #[trigger] s.entries[i].id
                        < #[trigger] s.entries[j].id by {
                        assert(entry_ids@[i] < entry_ids@[j]);
                    }
                } else {
                    let (i, j) = choose|i: int, j: int| 0 <= i < j < entry_ids@.len() && !(#[trigger] entry_ids@[i] < #[trigger] entry_ids@[j]);
                    assert(!(s.entries[i].id < s.entries[j].id));
                }
            }
            assert(c6 == (forall|i: int, j: int|
                0 <= i < j < s.states.len() ==> #[trigger] s.states[i].entry_id < #[trigger] s.states[j].entry_id)) by {
                if c6 {
                    assert forall|i: int, j: int| 0 <= i < j < s.states.len() implies #[trigger] s.states[i].entry_id
                        < #[trigger] s.states[j].entry_id by {
                        assert(state_ids@[i] < state_ids@[j]);
                    }
                } else {
                    let (i, j) = choose|i: int, j: int| 0 <= i < j < state_ids@.len() && !(#[trigger] state_ids@[i] < #[trigger] state_ids@[j]);
                    assert(!(s.states[i].entry_id < s.states[j].entry_id));
                }
            }
            assert(c2 == (forall|i: int, j: int|
                0 <= i < s.feeds.len() && 0 <= j < s.feeds.len() && i != j ==> #[trigger] s.feeds[i].feed_url
                    != #[trigger] s.feeds[j].feed_url)) by {
                if !c2 {
                    let (i, j) = choose|i: int, j: int|
                        0 <= i < self.feeds@.len() && 0 <= j < self.feeds@.len() && i != j && !(#[trigger] self.feeds@[i]@.feed_url
                            != #[trigger] self.feeds@[j]@.feed_url);
                    assert(s.feeds[i].feed_url == s.feeds[j].feed_url);
                }
            }
            assert(c4 == (forall|i: int, j: int|
                0 <= i < s.entries.len() && 0 <= j < s.entries.len() && i != j ==> !(#[trigger] s.entries[i].feed_id
                    == #[trigger] s.entries[j].feed_id && s.entries[i].key == s.entries[j].key))) by {
                if !c4 {
                    let (i, j) = choose|i: int, j: int|
                        0 <= i < self.entries@.len() && 0 <= j < self.entries@.len() && i != j && !!(
                        #[trigger] self.entries@[i]@.feed_id == #[trigger] self.entries@[j]@.feed_id
                            && self.entries@[i]@.key == self.entries@[j]@.key);
                    assert(s.entries[i].feed_id == s.entries[j].feed_id && s.entries[i].key == s.entries[j].key);
                }
            }
            assert(c5 == (forall|i: int| 0 <= i < s.entries.len() ==> s.has_feed(#[trigger] s.entries[i].feed_id))) by {
                if c5 {
                    assert forall|i: int| 0 <= i < s.entries.len() implies s.has_feed(#[trigger] s.entries[i].feed_id) by {
                        assert(entry_feeds@[i] == s.entries[i].feed_id);
                        assert(in_ids(feed_ids@, entry_feeds@[i]));
                        let k = choose|k: int| 0 <= k < feed_ids@.len() && #[trigger] feed_ids@[k] == entry_feeds@[i];
                        assert(s.feeds[k].id == s.entries[i].feed_id);
                    }
                } else {
                    let i = choose|i: int| 0 <= i < entry_feeds@.len() && !in_ids(feed_ids@, #[trigger] entry_feeds@[i]);
                    if s.has_feed(s.entries[i].feed_id) {
                        let k = choose|k: int| 0 <= k < s.feeds.len() && #[trigger] s.feeds[k].id == s.entries[i].feed_id;
                        assert(feed_ids@[k] == entry_feeds@[i]);
                    }
                }
            }
            assert(c7 == (forall|i: int| 0 <= i < s.states.len() ==> s.has_entry(#[trigger] s.states[i].entry_id))) by {
                if c7 {
                    assert forall|i: int| 0 <= i < s.states.len() implies s.has_entry(#[trigger] s.states[i].entry_id) by {
                        assert(state_ids@[i] == s.states[i].entry_id);
                        assert(in_ids(entry_ids@, state_ids@[i]));
                        let k = choose|k: int| 0 <= k < entry_ids@.len() && #[trigger] entry_ids@[k] == state_ids@[i];
                        assert(s.entries[k].id == s.states[i].entry_id);
                    }
                } else {
                    let i = choose|i: int| 0 <= i < state_ids@.len() && !in_ids(entry_ids@, #[trigger] state_ids@[i]);
                    if s.has_entry(s.states[i].entry_id) {
                        let k = choose|k: int| 0 <= k < s.entries.len() && #[trigger] s.entries[k].id == s.states[i].entry_id;
                        assert(entry_ids@[k] == state_ids@[i]);
                    }
                }
            }
        }
        c1 && c2 && c3 && c4 && c5 && c6 && c7
    }

    /// The rows of the feeds table, in increasing order of id.
    pub fn feed_records(&self) -> (r: &Vec<FeedRecord>)
        ensures
            r@.map_values(|f: FeedRecord| f@) == self@.feeds,
    {
        &self.feeds
    }

    /// The rows of the entries table, in increasing order of id.
    pub fn entry_records(&self) -> (r: &Vec<EntryRecord>)
        ensures
            r@.map_values(|e: EntryRecord| e@) == self@.entries,
    {
        &self.entries
    }

    /// The rows of the entry_state table, in increasing order of entry id.
    pub fn state_records(&self) -> (r: &Vec<EntryStateRecord>)
        ensures
            r@.map_values(|s: EntryStateRecord| s@) == self@.states,
    {
        &self.states
    }

    /// The active feeds, ordered by title and, for equal titles, by id.
    pub fn all_feeds(&self) -> (r: Result<Vec<Feed>, DbError>)
        requires
            self.wf(),
        ensures
            r matches Ok(v) && self@.is_feed_listing(v@.map_values(|f: Feed| f@))
                && (forall|i: int| 0 <= i < v@.len() ==> opt_valid((#[trigger] v@[i]).last_checked_at)),
    {
        let n = self.feeds.len();
        let mut keys: Vec<Vec<char>> = Vec::new();
        let mut ids: Vec<i64> = Vec::new();
        let mut selected: Vec<usize> = Vec::new();
        let mut i: usize = 0;
        while i < n
            invariant
                n == self@.feeds.len(),
                n == self.feeds@.len(),
                0 <= i <= n,
                keys@.len() == i,
                ids@.len() == i,
                forall|k: int| 0 <= k < i ==> #[trigger] keys@[k]@ == self@.feeds[k].title,
                forall|k: int| 0 <= k < i ==> #[trigger] ids@[k] == self@.feeds[k].id,
                forall|k: int| 0 <= k < selected@.len() ==> #[trigger] selected@[k] < i,
                forall|a: int, b: int| 0 <= a < b < selected@.len() ==> #[trigger] selected@[a] < #[trigger] selected@[b],
                forall|k: int| 0 <= k < selected@.len() ==> self@.feeds[#[trigger] selected@[k] as int].is_active,
                forall|k: int| 0 <= k < i && self@.feeds[k].is_active ==> #[trigger] selected@.contains(k as usize),
            decreases n - i,
        {
            keys.push(chars_of(self.feeds[i].title.as_str()));
            ids.push(self.feeds[i].id);
            let ghost prev = selected@;
            if self.feeds[i].is_active {
                selected.push(i);
                assert(selected@[selected@.len() - 1] == i);
            }
            assert forall|k: int| 0 <= k < i + 1 && self@.feeds[k].is_active implies #[trigger] selected@.contains(k as usize) by {
                if k < i {
                    assert(prev.contains(k as usize));
                    let q = choose|q: int| 0 <= q < prev.len() && prev[q] == k as usize;
                    assert(selected@[q] == k as usize);
                } else {
                    assert(selected@[selected@.len() - 1] == k as usize);
                }
            }
            i = i + 1;
        }
        let ghost kv = keys@.map_values(|k: Vec<char>| k@);
        proof {
            assert forall|a: int, b: int| 0 <= a < ids@.len() && 0 <= b < ids@.len() && a != b
                implies #[trigger] ids@[a] != #[trigger] ids@[b] by {
                if a < b {
                    assert(self@.feeds[a].id < self@.feeds[b].id);
                } else {
                    assert(self@.feeds[b].id < self@.feeds[a].id);
                }
            }
        }
        let order = sort_positions(&keys, &ids, &selected, false);
        let m = order.len();
        proof {
            assert forall|k: int| 0 <= k < m implies #[trigger] order@[k] < n by {
                assert(order@.contains(order@[k]));
                assert(selected@.contains(order@[k]));
            }
        }
        let mut out: Vec<Feed> = Vec::new();
        let mut j: usize = 0;
        while j < m
            invariant
                m == order@.len(),
                n == self.feeds@.len(),
                0 <= j <= m,
                out@.len() == j,
                forall|k: int| 0 <= k < m ==> #[trigger] order@[k] < n,
                forall|k: int| 0 <= k < j ==> #[trigger] out@[k]@ == feed_view_of(self@.feeds[order@[k] as int]),
                forall|k: int| 0 <= k < j ==> opt_valid((#[trigger] out@[k]).last_checked_at),
            decreases m - j,
        {
            let rec = &self.feeds[order[j]];
            let f = Feed {
                id: rec.id,
                title: rec.title.clone(),
                site_url: clone_opt(&rec.site_url),
                feed_url: rec.feed_url.clone(),
                last_checked_at: opt_parse_time(&rec.last_checked_at),
            };
            out.push(f);
            j = j + 1;
        }
        proof {
            let v = out@.map_values(|f: Feed| f@);
            assert forall|i: int| 0 <= i < v.len() implies exists|k: int|
                0 <= k < self@.feeds.len() && self@.feeds[k].is_active && #[trigger] v[i] == feed_view_of(
                    #[trigger] self@.feeds[k],
                ) by {
                let k = order@[i] as int;
                assert(order@.contains(order@[i]));
                assert(selected@.contains(order@[i]));
                let q = choose|q: int| 0 <= q < selected@.len() && selected@[q] == order@[i];
                assert(self@.feeds[selected@[q] as int].is_active);
            }
            assert forall|k: int| 0 <= k < self@.feeds.len() && #[trigger] self@.active_at(k) implies exists|i: int|
                0 <= i < v.len() && #[trigger] v[i].id == self@.feeds[k].id by {
                assert(selected@.contains(k as usize));
                assert(order@.contains(k as usize));
                let i = choose|i: int| 0 <= i < order@.len() && order@[i] == k as usize;
                assert(v[i].id == self@.feeds[k].id);
            }
            assert forall|a: int, b: int| 0 <= a < b < v.len() implies row_before(
                #[trigger] v[a].title, v[a].id, #[trigger] v[b].title, v[b].id, false) by {
                assert(positions_sorted(kv, ids@, order@, false));
                assert(row_before(kv[order@[a] as int], ids@[order@[a] as int], kv[order@[b] as int], ids@[order@[b] as int], false));
            }
        }
        Ok(out)
    }

    /// Position of the feed with id `id`, if any.
    fn find_feed_by_id(&self, id: i64) -> (r: Option<usize>)
        requires
            self.wf(),
        ensures
            match r {
                Some(i) => i == self@.feed_id_index(id) && i < self@.feeds.len(),
                None => self@.feed_id_index(id) == -1,
            },
    {
        let n = self.feeds.len();
        let mut i: usize = 0;
        while i < n
            invariant
                n == self.feeds@.len(),
                self@.feeds.len() == n,
                self.wf(),
                0 <= i <= n,
                forall|k: int| 0 <= k < i ==> #[trigger] self@.feeds[k].id != id,
            decreases n - i,
        {
            if self.feeds[i].id == id {
                proof {
                    lemma_feed_id_index(self@, i as int);
                }
                return Some(i);
            }
            i = i + 1;
        }
        None
    }

    /// Position of the feed that `key` names (by id when it is an integer, else by URL).
    fn find_feed_by_key(&self, key: &str) -> (r: Option<usize>)
        requires
            self.wf(),
        ensures
            match r {
                Some(i) => i == self@.feed_key_index(key@) && i < self@.feeds.len(),
                None => self@.feed_key_index(key@) == -1,
            },
    {
        match parse_i64(key) {
            Some(id) => self.find_feed_by_id(id),
            None => self.find_feed_by_url(&key.to_string()),
        }
    }

    /// Marks the feed that `key` names (its id, or else its URL) as inactive. Returns how many
    /// feeds it names: 1 or 0.
    pub fn remove_feed(&mut self, key: &str) -> (r: Result<usize, DbError>)
        requires
            old(self).wf(),
        ensures
            final(self).wf(),
            r == Ok::<usize, DbError>(old(self)@.remove_feed(key@).1),
            final(self)@ == old(self)@.remove_feed(key@).0,
    {
        match self.find_feed_by_key(key) {
            Some(i) => {
                let old_rec = &self.feeds[i];
                let rec = FeedRecord {
                    id: old_rec.id,
                    title: old_rec.title.clone(),
                    site_url: clone_opt(&old_rec.site_url),
                    feed_url: old_rec.feed_url.clone(),
                    etag: clone_opt(&old_rec.etag),
                    last_modified: clone_opt(&old_rec.last_modified),
                    last_checked_at: clone_opt(&old_rec.last_checked_at),
                    is_active: false,
                };
                self.feeds.set(i, rec);
                proof {
                    lemma_feed_update_wf(old(self)@, i as int, rec@);
                    assert(self@.feeds =~= old(self)@.remove_feed(key@).0.feeds);
                }
                Ok(1)
            },
            None => Ok(0),
        }
    }

    /// Whether the entry with id `entry_id` belongs to the feed `feed_id`.
    fn entry_in_feed(&self, entry_id: i64, feed_id: i64) -> (r: bool)
        ensures
            r == self@.entry_in_feed(entry_id, feed_id),
    {
        let n = self.entries.len();
        let mut i: usize = 0;
        while i < n
            invariant
                n == self.entries@.len(),
                self@.entries.len() == n,
                0 <= i <= n,
                forall|k: int| 0 <= k < i ==> !(#[trigger] self@.entries[k].id == entry_id
                    && self@.entries[k].feed_id == feed_id),
            decreases n - i,
        {
            if self.entries[i].id == entry_id && self.entries[i].feed_id == feed_id {
                assert(self@.entries[i as int].id == entry_id);
                return true;
            }
            i = i + 1;
        }
        false
    }

    /// Deletes the feed that `key` names (its id, or else its URL), with its entries and their
    /// states. Returns how many feeds it names: 1 or 0.
    pub fn delete_feed(&mut self, key: &str) -> (r: Result<usize, DbError>)
        requires
            old(self).wf(),
        ensures
            final(self).wf(),
            r == Ok::<usize, DbError>(old(self)@.delete_feed(key@).1),
            final(self)@ == old(self)@.delete_feed(key@).0,
    {
        match self.find_feed_by_key(key) {
            None => Ok(0),
            Some(i) => {
                let fid = self.feeds[i].id;
                let ghost s0 = self@;
                let ghost sp = s0.state_outside_feed(fid);
                let ghost ep = outside_feed(fid);
                // states whose entry stays
                let mut new_states: Vec<EntryStateRecord> = Vec::new();
                let ghost mut ssrc: Seq<int> = Seq::empty();
                let ns = self.states.len();
                let mut k: usize = 0;
                while k < ns
                    invariant
                        ns == self.states@.len(),
                        self@ == s0,
                        sp == s0.state_outside_feed(fid),
                        0 <= k <= ns,
                        new_states@.map_values(|x: EntryStateRecord| x@) == s0.states.take(k as int).filter(sp),
                        ssrc.len() == new_states@.len(),
                        forall|a: int, b: int| 0 <= a < b < ssrc.len() ==> #[trigger] ssrc[a] < #[trigger] ssrc[b],
                        forall|a: int| 0 <= a < ssrc.len() ==> 0 <= #[trigger] ssrc[a] < k
                            && new_states@[a]@ == s0.states[ssrc[a]] && sp(s0.states[ssrc[a]]),
                    decreases ns - k,
                {
                    proof {
                        lemma_filter_take_step(s0.states, sp, k as int);
                    }
                    let keep = !self.entry_in_feed(self.states[k].entry_id, fid);
                    if keep {
                        let ghost before = new_states@;
                        new_states.push(self.states[k].copy());
                        proof {
                            ssrc = ssrc.push(k as int);
                            assert(new_states@.map_values(|x: EntryStateRecord| x@) =~= before.map_values(
                                |x: EntryStateRecord| x@,
                            ).push(s0.states[k as int]));
                        }
                    }
                    k = k + 1;
                }
                // entries of other feeds
                let mut new_entries: Vec<EntryRecord> = Vec::new();
                let ghost mut esrc: Seq<int> = Seq::empty();
                let ne = self.entries.len();
                let mut k: usize = 0;
                while k < ne
                    invariant
                        ne == self.entries@.len(),
                        self@ == s0,
                        ep == outside_feed(fid),
                        0 <= k <= ne,
                        new_entries@.map_values(|x: EntryRecord| x@) == s0.entries.take(k as int).filter(ep),
                        esrc.len() == new_entries@.len(),
                        forall|a: int, b: int| 0 <= a < b < esrc.len() ==> #[trigger] esrc[a] < #[trigger] esrc[b],
                        forall|a: int| 0 <= a < esrc.len() ==> 0 <= #[trigger] esrc[a] < k
                            && new_entries@[a]@ == s0.entries[esrc[a]] && s0.entries[esrc[a]].feed_id != fid,
                    decreases ne - k,
                {
                    proof {
                        lemma_filter_take_step(s0.entries, ep, k as int);
                    }
                    if self.entries[k].feed_id != fid {
                        let ghost before = new_entries@;
                        new_entries.push(self.entries[k].copy());
                        proof {
                            esrc = esrc.push(k as int);
                            assert(new_entries@.map_values(|x: EntryRecord| x@) =~= before.map_values(
                                |x: EntryRecord| x@,
                            ).push(s0.entries[k as int]));
                        }
                    }
                    k = k + 1;
                }
                proof {
                    assert(s0.states.take(ns as int) =~= s0.states);
                    assert(s0.entries.take(ne as int) =~= s0.entries);
                }
                self.feeds.remove(i);
                self.entries = new_entries;
                self.states = new_states;
                proof {
                    let t = self@;
                    assert(t.feeds =~= s0.feeds.remove(i as int));
                    assert(t.entries =~= s0.entries.filter(ep));
                    assert(t.states =~= s0.states.filter(sp));
                    lemma_delete_feed_wf(s0, i as int, esrc, ssrc);
                }
                Ok(1)
            },
        }
    }

    /// Position of the entry of feed `feed_id` with key `key`, if any.
    fn find_entry_by_key(&self, feed_id: i64, key: &String) -> (r: Option<usize>)
        requires
            self.wf(),
        ensures
            match r {
                Some(i) => i == self@.entry_key_index(feed_id, key@) && i < self@.entries.len(),
                None => self@.entry_key_index(feed_id, key@) == -1,
            },
    {
        let n = self.entries.len();
        let mut i: usize = 0;
        while i < n
            invariant
                n == self.entries@.len(),
                self@.entries.len() == n,
                self.wf(),
                0 <= i <= n,
                forall|k: int| 0 <= k < i ==> !(#[trigger] self@.entries[k].feed_id == feed_id
                    && self@.entries[k].key == key@),
            decreases n - i,
        {
            if self.entries[i].feed_id == feed_id && self.entries[i].key == *key {
                proof {
                    lemma_entry_key_index(self@, i as int);
                }
                return Some(i);
            }
            i = i + 1;
        }
        None
    }

    /// Position of the entry with id `id`, if any.
    fn find_entry_by_id(&self, id: i64) -> (r: Option<usize>)
        requires
            self.wf(),
        ensures
            match r {
                Some(i) => i == self@.entry_id_index(id) && i < self@.entries.len(),
                None => self@.entry_id_index(id) == -1 && !self@.has_entry(id),
            },
    {
        let n = self.entries.len();
        let mut i: usize = 0;
        while i < n
            invariant
                n == self.entries@.len(),
                self@.entries.len() == n,
                self.wf(),
                0 <= i <= n,
                forall|k: int| 0 <= k < i ==> #[trigger] self@.entries[k].id != id,
            decreases n - i,
        {
            if self.entries[i].id == id {
                proof {
                    lemma_entry_id_index(self@, i as int);
                }
                return Some(i);
            }
            i = i + 1;
        }
        None
    }

    /// Position of the state row of the entry `entry_id`, if any; else where one would go.
    fn find_state(&self, entry_id: i64) -> (r: Result<usize, usize>)
        requires
            self.wf(),
        ensures
            match r {
                Ok(i) => i == self@.state_index(entry_id) && i < self@.states.len(),
                Err(p) => self@.state_index(entry_id) == -1 && p == self@.state_insert_pos(entry_id)
                    && self@.is_state_pos(p as int, entry_id),
            },
    {
        let n = self.states.len();
        let mut i: usize = 0;
        while i < n && self.states[i].entry_id < entry_id
            invariant
                n == self.states@.len(),
                self@.states.len() == n,
                self.wf(),
                0 <= i <= n,
                forall|k: int| 0 <= k < i ==> #[trigger] self@.states[k].entry_id < entry_id,
            decreases n - i,
        {
            i = i + 1;
        }
        if i < n && self.states[i].entry_id == entry_id {
            proof {
                lemma_state_index(self@, i as int);
            }
            return Ok(i);
        }
        proof {
            assert forall|k: int| i <= k < n implies #[trigger] self@.states[k].entry_id > entry_id by {
                if k > i {
                    assert(self@.states[i as int].entry_id < self@.states[k].entry_id);
                }
            }
            assert(self@.is_state_pos(i as int, entry_id));
            lemma_state_pos(self@, i as int, entry_id);
            assert forall|k: int| 0 <= k < n implies #[trigger] self@.states[k].entry_id != entry_id by {}
        }
        Err(i)
    }

    /// Gives the entry `entry_id` a state row (unread, unstarred) when it has none.
    fn ensure_state(&mut self, entry_id: i64)
        requires
            old(self).wf(),
            old(self)@.has_entry(entry_id),
        ensures
            final(self).wf(),
            final(self)@ == old(self)@.with_state(entry_id),
    {
        match self.find_state(entry_id) {
            Ok(_) => {},
            Err(p) => {
                let st = EntryStateRecord {
                    entry_id: entry_id,
                    is_read: false,
                    is_starred: false,
                    read_at: None,
                    starred_at: None,
                };
                self.states.insert(p, st);
                proof {
                    lemma_state_insert_wf(old(self)@, st@);
                    assert(self@.states =~= old(self)@.with_state(entry_id).states);
                }
            },
        }
    }

    /// Stores a fetched entry at time `now`: updates the entry of the same feed with the same
    /// key (or adds a new one) and makes sure it has a state row. Returns the entry's id.
    pub fn upsert_entry(&mut self, e: &NewEntry, now: UtcTime) -> (r: Result<i64, DbError>)
        requires
            old(self).wf(),
            e@.valid(),
            now.valid(),
        ensures
            final(self).wf(),
            (final(self)@, r) == old(self)@.upsert_entry(e@, now),
    {
        if self.find_feed_by_id(e.feed_id).is_none() {
            proof {
                if old(self)@.has_feed(e.feed_id) {
                    let m = choose|m: int| 0 <= m < old(self)@.feeds.len() && #[trigger] old(self)@.feeds[m].id == e.feed_id;
                    assert(old(self)@.feeds[m].id == e.feed_id);
                }
            }
            return Err(DbError::ForeignKeyViolation);
        }
        let published = opt_time_text(e.published_at);
        let updated = opt_time_text(e.updated_at);
        match self.find_entry_by_key(e.feed_id, &e.key) {
            Some(i) => {
                let old_rec = &self.entries[i];
                let id = old_rec.id;
                let rec = EntryRecord {
                    id: id,
                    feed_id: old_rec.feed_id,
                    key: old_rec.key.clone(),
                    title: e.title.clone(),
                    author: clone_opt(&e.author),
                    url: clone_opt(&e.url),
                    published_at: coalesce_exec(published, &old_rec.published_at),
                    updated_at: coalesce_exec(updated, &old_rec.updated_at),
                    summary: coalesce_exec(clone_opt(&e.summary), &old_rec.summary),
                    content: coalesce_exec(clone_opt(&e.content), &old_rec.content),
                    fetched_at: old_rec.fetched_at.clone(),
                    is_hidden: old_rec.is_hidden,
                };
                self.entries.set(i, rec);
                proof {
                    lemma_entry_update_wf(old(self)@, i as int, rec@);
                    assert(self@.entries =~= old(self)@.entries.update(i as int, rec@));
                    assert(self@.has_entry(id)) by {
                        assert(self@.entries[i as int].id == id);
                    }
                }
                self.ensure_state(id);
                Ok(id)
            },
            None => {
                let n = self.entries.len();
                let id: i64 = if n == 0 {
                    1
                } else {
                    let last = self.entries[n - 1].id;
                    if last == i64::MAX {
                        return Err(DbError::RowIdsExhausted);
                    }
                    last + 1
                };
                let rec = EntryRecord {
                    id: id,
                    feed_id: e.feed_id,
                    key: e.key.clone(),
                    title: e.title.clone(),
                    author: clone_opt(&e.author),
                    url: clone_opt(&e.url),
                    published_at: published,
                    updated_at: updated,
                    summary: clone_opt(&e.summary),
                    content: clone_opt(&e.content),
                    fetched_at: to_sql_timestamp(now),
                    is_hidden: false,
                };
                self.entries.push(rec);
                proof {
                    lemma_entry_push_wf(old(self)@, rec@);
                    assert(self@.entries =~= old(self)@.entries.push(rec@));
                    assert(self@.has_entry(id)) by {
                        assert(self@.entries[n as int].id == id);
                    }
                }
                self.ensure_state(id);
                Ok(id)
            },
        }
    }


    /// Flips the read mark of the entry `entry_id`, recording `now` when it becomes read.
    /// Refused with `ForeignKeyViolation` when the entry does not exist.
    pub fn toggle_read(&mut self, entry_id: i64, now: UtcTime) -> (r: Result<(), DbError>)
        requires
            old(self).wf(),
            now.valid(),
        ensures
            final(self).wf(),
            (final(self)@, r) == old(self)@.toggle_read(entry_id, now),
    {
        match self.find_state(entry_id) {
            Ok(k) => {
                let old_st = &self.states[k];
                let nv = !old_st.is_read;
                let st = EntryStateRecord {
                    entry_id: old_st.entry_id,
                    is_read: nv,
                    is_starred: old_st.is_starred,
                    read_at: if nv { Some(to_rfc3339(now)) } else { None },
                    starred_at: clone_opt(&old_st.starred_at),
                };
                self.states.set(k, st);
                proof {
                    lemma_state_update_wf(old(self)@, k as int, st@);
                    assert(self@.states =~= old(self)@.toggle_read(entry_id, now).0.states);
                }
                Ok(())
            },
            Err(p) => {
                if self.find_entry_by_id(entry_id).is_none() {
                    return Err(DbError::ForeignKeyViolation);
                }
                let st = EntryStateRecord {
                    entry_id: entry_id,
                    is_read: true,
                    is_starred: false,
                    read_at: Some(to_rfc3339(now)),
                    starred_at: None,
                };
                proof {
                    let i = old(self)@.entry_id_index(entry_id);
                    assert(old(self)@.entries[i].id == entry_id);
                }
                self.states.insert(p, st);
                proof {
                    lemma_state_insert_wf(old(self)@, st@);
                    assert(self@.states =~= old(self)@.toggle_read(entry_id, now).0.states);
                }
                Ok(())
            },
        }
    }


    /// Flips the star of the entry `entry_id`, recording `now` when it becomes starred. Refused
    /// with `ForeignKeyViolation` when the entry does not exist.
    pub fn toggle_star(&mut self, entry_id: i64, now: UtcTime) -> (r: Result<(), DbError>)
        requires
            old(self).wf(),
            now.valid(),
        ensures
            final(self).wf(),
            (final(self)@, r) == old(self)@.toggle_star(entry_id, now),
    {
        match self.find_state(entry_id) {
            Ok(k) => {
                let old_st = &self.states[k];
                let nv = !old_st.is_starred;
                let st = EntryStateRecord {
                    entry_id: old_st.entry_id,
                    is_read: old_st.is_read,
                    is_starred: nv,
                    read_at: clone_opt(&old_st.read_at),
                    starred_at: if nv { Some(to_rfc3339(now)) } else { None },
                };
                self.states.set(k, st);
                proof {
                    lemma_state_update_wf(old(self)@, k as int, st@);
                    assert(self@.states =~= old(self)@.toggle_star(entry_id, now).0.states);
                }
                Ok(())
            },
            Err(p) => {
                if self.find_entry_by_id(entry_id).is_none() {
                    return Err(DbError::ForeignKeyViolation);
                }
                let st = EntryStateRecord {
                    entry_id: entry_id,
                    is_read: false,
                    is_starred: true,
                    read_at: None,
                    starred_at: Some(to_rfc3339(now)),
                };
                proof {
                    let i = old(self)@.entry_id_index(entry_id);
                    assert(old(self)@.entries[i].id == entry_id);
                }
                self.states.insert(p, st);
                proof {
                    lemma_state_insert_wf(old(self)@, st@);
                    assert(self@.states =~= old(self)@.toggle_star(entry_id, now).0.states);
                }
                Ok(())
            },
        }
    }


    /// Flips whether the entry `entry_id` is hidden; nothing changes when it does not exist.
    pub fn toggle_hidden(&mut self, entry_id: i64) -> (r: Result<(), DbError>)
        requires
            old(self).wf(),
        ensures
            final(self).wf(),
            r is Ok,
            final(self)@ == old(self)@.toggle_hidden(entry_id),
    {
        match self.find_entry_by_id(entry_id) {
            Some(i) => {
                let mut rec = self.entries[i].copy();
                rec.is_hidden = !rec.is_hidden;
                self.entries.set(i, rec);
                proof {
                    lemma_entry_update_wf(old(self)@, i as int, rec@);
                    assert(self@.entries =~= old(self)@.toggle_hidden(entry_id).entries);
                }
                Ok(())
            },
            None => Ok(()),
        }
    }

    /// Whether the entry `entry_id` is read, and whether it is starred.
    fn read_and_starred(&self, entry_id: i64) -> (r: (bool, bool))
        requires
            self.wf(),
        ensures
            r.0 == self@.is_read(entry_id),
            r.1 == self@.is_starred(entry_id),
    {
        match self.find_state(entry_id) {
            Ok(k) => (self.states[k].is_read, self.states[k].is_starred),
            Err(_) => (false, false),
        }
    }

    #[verifier::rlimit(40)]
    /// The entries that pass the filters (of the feed `feed_id` if given; only unread; only
    /// starred; hidden ones too), newest first: by published, else updated, else fetched time
    /// as stored text, descending, and by increasing id where those are equal.
    pub fn list_entries(
        &self,
        feed_id: Option<i64>,
        unread_only: bool,
        starred_only: bool,
        include_hidden: bool,
    ) -> (r: Result<Vec<Entry>, DbError>)
        requires
            self.wf(),
        ensures
            r matches Ok(v) && self@.is_entry_listing(
                v@.map_values(|e: Entry| e@),
                feed_id,
                unread_only,
                starred_only,
                include_hidden,
            ) && (forall|i: int| 0 <= i < v@.len() ==> opt_valid((#[trigger] v@[i]).published_at)),
    {
        let n = self.entries.len();
        let mut keys: Vec<Vec<char>> = Vec::new();
        let mut ids: Vec<i64> = Vec::new();
        let mut selected: Vec<usize> = Vec::new();
        let mut i: usize = 0;
        while i < n
            invariant
                n == self@.entries.len(),
                n == self.entries@.len(),
                self.wf(),
                0 <= i <= n,
                keys@.len() == i,
                ids@.len() == i,
                forall|k: int| 0 <= k < i ==> #[trigger] keys@[k]@ == sort_text(self@.entries[k]),
                forall|k: int| 0 <= k < i ==> #[trigger] ids@[k] == self@.entries[k].id,
                forall|k: int| 0 <= k < selected@.len() ==> #[trigger] selected@[k] < i,
                forall|a: int, b: int| 0 <= a < b < selected@.len() ==> #[trigger] selected@[a] < #[trigger] selected@[b],
                forall|k: int| 0 <= k < selected@.len() ==> self@.entry_listed(
                    self@.entries[#[trigger] selected@[k] as int],
                    feed_id,
                    unread_only,
                    starred_only,
                    include_hidden,
                ),
                forall|k: int| 0 <= k < i && self@.entry_listed(self@.entries[k], feed_id, unread_only, starred_only, include_hidden)
                    ==> #[trigger] selected@.contains(k as usize),
            decreases n - i,
        {
            let rec = &self.entries[i];
            let key: &String = match &rec.published_at {
                Some(t) => t,
                None => match &rec.updated_at {
                    Some(t) => t,
                    None => &rec.fetched_at,
                },
            };
            keys.push(chars_of(key.as_str()));
            ids.push(rec.id);
            let (read, starred) = self.read_and_starred(rec.id);
            let listed = (match feed_id {
                Some(f) => rec.feed_id == f,
                None => true,
            }) && (!unread_only || !read) && (!starred_only || starred) && (include_hidden || !rec.is_hidden);
            let ghost prev = selected@;
            if listed {
                selected.push(i);
                assert(selected@[selected@.len() - 1] == i);
            }
            assert forall|k: int|
                0 <= k < i + 1 && self@.entry_listed(self@.entries[k], feed_id, unread_only, starred_only, include_hidden)
                implies #[trigger] selected@.contains(k as usize) by {
                if k < i {
                    assert(prev.contains(k as usize));
                    let q = choose|q: int| 0 <= q < prev.len() && prev[q] == k as usize;
                    assert(selected@[q] == k as usize);
                } else {
                    assert(selected@[selected@.len() - 1] == k as usize);
                }
            }
            i = i + 1;
        }
        let ghost kv = keys@.map_values(|k: Vec<char>| k@);
        proof {
            assert forall|a: int, b: int| 0 <= a < ids@.len() && 0 <= b < ids@.len() && a != b
                implies #[trigger] ids@[a] != #[trigger] ids@[b] by {
                if a < b {
                    assert(self@.entries[a].id < self@.entries[b].id);
                } else {
                    assert(self@.entries[b].id < self@.entries[a].id);
                }
            }
        }
        let order = sort_positions(&keys, &ids, &selected, true);
        let m = order.len();
        proof {
            assert forall|k: int| 0 <= k < m implies #[trigger] order@[k] < n by {
                assert(order@.contains(order@[k]));
                assert(selected@.contains(order@[k]));
            }
        }
        let mut out: Vec<Entry> = Vec::new();
        let mut j: usize = 0;
        while j < m
            invariant
                m == order@.len(),
                n == self.entries@.len(),
                self.wf(),
                0 <= j <= m,
                out@.len() == j,
                forall|k: int| 0 <= k < m ==> #[trigger] order@[k] < n,
                forall|k: int| 0 <= k < j ==> #[trigger] out@[k]@ == self@.entry_view_of(self@.entries[order@[k] as int]),
                forall|k: int| 0 <= k < j ==> opt_valid((#[trigger] out@[k]).published_at),
            decreases m - j,
        {
            let rec = &self.entries[order[j]];
            let (read, starred) = self.read_and_starred(rec.id);
            let e = Entry {
                id: rec.id,
                title: rec.title.clone(),
                author: clone_opt(&rec.author),
                url: clone_opt(&rec.url),
                published_at: opt_parse_time(&rec.published_at),
                summary: clone_opt(&rec.summary),
                content: clone_opt(&rec.content),
                is_read: read,
                is_starred: starred,
                is_hidden: rec.is_hidden,
            };
            out.push(e);
            j = j + 1;
        }
        proof {
            let v = out@.map_values(|e: Entry| e@);
            assert forall|i: int| 0 <= i < v.len() implies exists|k: int|
                0 <= k < self@.entries.len() && self@.entry_listed(
                    self@.entries[k],
                    feed_id,
                    unread_only,
                    starred_only,
                    include_hidden,
                ) && #[trigger] v[i] == self@.entry_view_of(#[trigger] self@.entries[k]) by {
                assert(order@.contains(order@[i]));
                assert(selected@.contains(order@[i]));
                let q = choose|q: int| 0 <= q < selected@.len() && selected@[q] == order@[i];
                assert(self@.entry_listed(self@.entries[selected@[q] as int], feed_id, unread_only, starred_only, include_hidden));
            }
            assert forall|k: int|
                0 <= k < self@.entries.len() && #[trigger] self@.listed_at(k, feed_id, unread_only, starred_only, include_hidden)
                implies exists|i: int| 0 <= i < v.len() && #[trigger] v[i].id == self@.entries[k].id by {
                assert(selected@.contains(k as usize));
                assert(order@.contains(k as usize));
                let i = choose|i: int| 0 <= i < order@.len() && order@[i] == k as usize;
                assert(v[i].id == self@.entries[k].id);
            }
            assert forall|a: int, b: int| 0 <= a < b < v.len() implies row_before(
                sort_text(self@.entries[self@.entry_id_index(#[trigger] v[a].id)]),
                v[a].id,
                sort_text(self@.entries[self@.entry_id_index(#[trigger] v[b].id)]),
                v[b].id,
                true,
            ) by {
                assert(positions_sorted(kv, ids@, order@, true));
                assert(row_before(kv[order@[a] as int], ids@[order@[a] as int], kv[order@[b] as int], ids@[order@[b] as int], true));
                lemma_entry_id_index(self@, order@[a] as int);
                lemma_entry_id_index(self@, order@[b] as int);
            }
        }
        Ok(out)
    }

    /// Sets the HTTP validators of the feed with this id and records `now` as the time it was
    /// last checked. Nothing changes when no feed has the id.
    pub fn set_feed_headers(
        &mut self,
        feed_id: i64,
        etag: Option<&str>,
        last_modified: Option<&str>,
        now: UtcTime,
    ) -> (r: Result<(), DbError>)
        requires
            old(self).wf(),
            now.valid(),
        ensures
            final(self).wf(),
            r is Ok,
            final(self)@ == old(self)@.set_feed_headers(feed_id, opt_str_text(etag), opt_str_text(last_modified), now),
    {
        match self.find_feed_by_id(feed_id) {
            Some(i) => {
                let old_rec = &self.feeds[i];
                let rec = FeedRecord {
                    id: old_rec.id,
                    title: old_rec.title.clone(),
                    site_url: clone_opt(&old_rec.site_url),
                    feed_url: old_rec.feed_url.clone(),
                    etag: own_opt(etag),
                    last_modified: own_opt(last_modified),
                    last_checked_at: Some(to_rfc3339(now)),
                    is_active: old_rec.is_active,
                };
                self.feeds.set(i, rec);
                proof {
                    lemma_feed_update_wf(old(self)@, i as int, rec@);
                    assert(self@.feeds =~= old(self)@.set_feed_headers(feed_id, opt_str_text(etag), opt_str_text(last_modified), now).feeds);
                }
                Ok(())
            },
            None => Ok(()),
        }
    }


    /// The HTTP validators (ETag, Last-Modified) stored for the feed with this id.
    pub fn feed_headers(&self, feed_id: i64) -> (r: Result<(Option<String>, Option<String>), DbError>)
        requires
            self.wf(),
        ensures
            match (r, self@.feed_headers(feed_id)) {
                (Ok((e, l)), Ok((e2, l2))) => opt_text(e) == e2 && opt_text(l) == l2,
                (Err(x), Err(y)) => x == y,
                _ => false,
            },
    {
        match self.find_feed_by_id(feed_id) {
            Some(i) => Ok((clone_opt(&self.feeds[i].etag), clone_opt(&self.feeds[i].last_modified))),
            None => Err(DbError::NoSuchRow),
        }
    }

    /// Position of the feed with URL `url`, if any.
    fn find_feed_by_url(&self, url: &String) -> (r: Option<usize>)
        requires
            self.wf(),
        ensures
            match r {
                Some(i) => i == self@.feed_url_index(url@) && i < self@.feeds.len(),
                None => self@.feed_url_index(url@) == -1,
            },
    {
        let n = self.feeds.len();
        let mut i: usize = 0;
        while i < n
            invariant
                n == self.feeds@.len(),
                self@.feeds.len() == n,
                self.wf(),
                0 <= i <= n,
                forall|k: int| 0 <= k < i ==> #[trigger] self@.feeds[k].feed_url != url@,
            decreases n - i,
        {
            if self.feeds[i].feed_url == *url {
                proof {
                    lemma_feed_url_index(self@, i as int);
                }
                return Some(i);
            }
            i = i + 1;
        }
        None
    }

    /// Inserts a feed, or updates the one with the same URL (new title and site URL, active again).
    /// Returns the feed's id.
    pub fn upsert_feed(&mut self, title: &str, site_url: Option<&str>, feed_url: &str) -> (r: Result<
        i64,
        DbError,
    >)
        requires
            old(self).wf(),
        ensures
            final(self).wf(),
            (final(self)@, r) == old(self)@.upsert_feed(title@, opt_str_text(site_url), feed_url@),
    {
        let url = feed_url.to_string();
        match self.find_feed_by_url(&url) {
            Some(i) => {
                let id = self.feeds[i].id;
                let rec = FeedRecord {
                    id: id,
                    title: title.to_string(),
                    site_url: own_opt(site_url),
                    feed_url: self.feeds[i].feed_url.clone(),
                    etag: clone_opt(&self.feeds[i].etag),
                    last_modified: clone_opt(&self.feeds[i].last_modified),
                    last_checked_at: clone_opt(&self.feeds[i].last_checked_at),
                    is_active: true,
                };
                self.feeds.set(i, rec);
                proof {
                    lemma_upsert_feed_wf(old(self)@, title@, opt_str_text(site_url), feed_url@);
                }
                assert(self@.feeds =~= old(self)@.upsert_feed(title@, opt_str_text(site_url), feed_url@).0.feeds);
                Ok(id)
            },
            None => {
                let n = self.feeds.len();
                let id: i64 = if n == 0 {
                    1
                } else {
                    let last = self.feeds[n - 1].id;
                    if last == i64::MAX {
                        return Err(DbError::RowIdsExhausted);
                    }
                    last + 1
                };
                let rec = FeedRecord {
                    id: id,
                    title: title.to_string(),
                    site_url: own_opt(site_url),
                    feed_url: url,
                    etag: None,
                    last_modified: None,
                    last_checked_at: None,
                    is_active: true,
                };
                self.feeds.push(rec);
                proof {
                    lemma_upsert_feed_wf(old(self)@, title@, opt_str_text(site_url), feed_url@);
                }
                assert(self@.feeds =~= old(self)@.upsert_feed(title@, opt_str_text(site_url), feed_url@).0.feeds);
                Ok(id)
            },
        }
    }
}

} // verus!
