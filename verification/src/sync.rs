use vstd::prelude::*;
use crate::db::{Database, DbError, DbState, NewEntry, NewEntryView};
use crate::model::{clone_opt, opt_text};
use crate::text::{concat, decimal, trim, trim_spec, usize_to_string};
use crate::db::opt_time;
use crate::scan::{parser_safe, parser_safe_exec};
use crate::time::{parse_rfc3339, UtcTime};
use chrono::DateTime;
use feed_rs::parser::parse;

verus! {

/// An entry of a parsed feed: what the reader takes from a `feed_rs` entry.
pub struct ParsedItem {
    pub id: String,
    pub title: Option<String>,
    pub links: Vec<String>,
    pub authors: Vec<String>,
    pub published: Option<UtcTime>,
    pub updated: Option<UtcTime>,
    pub summary: Option<String>,
    pub content: Option<String>,
}

/// The plain content of a `ParsedItem`.
pub struct ParsedItemView {
    pub id: Seq<char>,
    pub title: Option<Seq<char>>,
    pub links: Seq<Seq<char>>,
    pub authors: Seq<Seq<char>>,
    pub published: Option<UtcTime>,
    pub updated: Option<UtcTime>,
    pub summary: Option<Seq<char>>,
    pub content: Option<Seq<char>>,
}

impl View for ParsedItem {
    type V = ParsedItemView;

    open spec fn view(&self) -> ParsedItemView {
        ParsedItemView {
            id: self.id@,
            title: opt_text(self.title),
            links: self.links@.map_values(|l: String| l@),
            authors: self.authors@.map_values(|a: String| a@),
            published: self.published,
            updated: self.updated,
            summary: opt_text(self.summary),
            content: opt_text(self.content),
        }
    }
}

/// A parsed feed: what the reader takes from a `feed_rs` feed.
pub struct ParsedFeed {
    pub title: Option<String>,
    pub links: Vec<String>,
    pub entries: Vec<ParsedItem>,
}

/// The plain content of a `ParsedFeed`.
pub struct ParsedFeedView {
    pub title: Option<Seq<char>>,
    pub links: Seq<Seq<char>>,
    pub entries: Seq<ParsedItemView>,
}

impl View for ParsedFeed {
    type V = ParsedFeedView;

    open spec fn view(&self) -> ParsedFeedView {
        ParsedFeedView {
            title: opt_text(self.title),
            links: self.links@.map_values(|l: String| l@),
            entries: self.entries@.map_values(|e: ParsedItem| e@),
        }
    }
}

impl ParsedFeedView {
    /// Its times are ones that chrono represents.
    pub open spec fn valid(self) -> bool {
        forall|i: int|
            0 <= i < self.entries.len() ==> {
                &&& (#[trigger] self.entries[i]).published matches Some(t) ==> t.valid()
                &&& self.entries[i].updated matches Some(t) ==> t.valid()
            }
    }
}

/// What `feed_rs` reads of one item from the bytes alone: its id (`None` where the parser makes
/// one up at random), title, link targets, author names, published and updated times (as
/// chrono's `to_rfc3339` writes them), summary and content.
pub type ItemText = (
    Option<Seq<char>>,
    Option<Seq<char>>,
    Seq<Seq<char>>,
    Seq<Seq<char>>,
    Option<Seq<char>>,
    Option<Seq<char>>,
    Option<Seq<char>>,
    Option<Seq<char>>,
);

/// An item as the parser hands it over: id, title, link targets, author names, published and
/// updated times (RFC 3339), summary and content.
pub type RawItem = (
    String,
    Option<String>,
    Vec<String>,
    Vec<String>,
    Option<String>,
    Option<String>,
    Option<String>,
    Option<String>,
);

/// The texts of a list of strings.
pub open spec fn texts(v: Vec<String>) -> Seq<Seq<char>> {
    v@.map_values(|s: String| s@)
}

/// Whether an item as handed over holds what `feed_rs` read for it: the same id where the id
/// does not come from chance, and the same title, links, authors, times, summary and content.
pub open spec fn raw_reads_as(r: RawItem, x: ItemText) -> bool {
    &&& (x.0 matches Some(id) ==> r.0@ == id)
    &&& opt_text(r.1) == x.1
    &&& texts(r.2) == x.2
    &&& texts(r.3) == x.3
    &&& opt_text(r.4) == x.4
    &&& opt_text(r.5) == x.5
    &&& opt_text(r.6) == x.6
    &&& opt_text(r.7) == x.7
}

/// Whether a parsed item holds what `feed_rs` read for it: the same id where the id does not
/// come from chance, the same title, links, authors, summary and content, and the times that
/// the RFC 3339 texts denote.
pub open spec fn item_reads_as(it: ParsedItemView, x: ItemText) -> bool {
    &&& (x.0 matches Some(id) ==> it.id == id)
    &&& it.title == x.1
    &&& it.links == x.2
    &&& it.authors == x.3
    &&& it.published == opt_time(x.4)
    &&& it.updated == opt_time(x.5)
    &&& it.summary == x.6
    &&& it.content == x.7
}

/// Whether a parsed feed holds what `feed_rs` read: the title, the links, and one item per
/// item read, in order.
pub open spec fn feed_reads_as(f: ParsedFeedView, t: Option<Seq<char>>, l: Seq<Seq<char>>, xs: Seq<ItemText>) -> bool {
    &&& f.title == t
    &&& f.links == l
    &&& f.entries.len() == xs.len()
    &&& forall|i: int| 0 <= i < xs.len() ==> item_reads_as(#[trigger] f.entries[i], xs[i])
}

/// What `feed_rs::parser::parse` makes of the bytes `body`, as far as that depends on the bytes
/// alone: the text of the feed's title, the targets of its links and what it reads of each
/// item; or the text of its error.
pub uninterp spec fn feed_rs_reading(body: Seq<u8>) -> Result<(Option<Seq<char>>, Seq<Seq<char>>, Seq<ItemText>), Seq<char>>;

/// `feed_rs::parser::parse` on the bytes of a feed (RSS, Atom or JSON Feed): the text of the
/// feed's title, the targets of its links and its items; or the text of its error. It is only
/// called on bodies where the parser meets no bad time value (`parser_safe`), since it panics on
/// those. An item's id
/// is the feed's own, else one made from its first link and title, else (no link) a random one.
#[verifier::external_body]
fn feed_rs_parse(body: &[u8]) -> (r: Result<(Option<String>, Vec<String>, Vec<RawItem>), String>)
    requires
        parser_safe(body@),
    ensures
        match (r, feed_rs_reading(body@)) {
            (Ok((title, links, items)), Ok((t, l, xs))) => {
                &&& opt_text(title) == t
                &&& texts(links) == l
                &&& items@.len() == xs.len()
                &&& forall|i: int|
                    0 <= i < xs.len() ==> raw_reads_as(#[trigger] items@[i], xs[i]) && (xs[i].0 is None
                        ==> xs[i].2.len() == 0)
            },
            (Err(m), Err(e)) => m@ == e,
            _ => false,
        },
{
    parse(body).map(|f| (f.title.map(|t| t.content), f.links.into_iter().map(|l| l.href).collect(), f.entries.into_iter().map(|e| (e.id,
        e.title.map(|t| t.content), e.links.into_iter().map(|l| l.href).collect(), e.authors.into_iter().map(|a| a.name).collect(),
        e.published.as_ref().map(DateTime::to_rfc3339), e.updated.as_ref().map(DateTime::to_rfc3339), e.summary.map(|t| t.content),
        e.content.and_then(|c| c.body))).collect())).map_err(|e| e.to_string())
}

/// The item whose parts are handed over: its times are read back from their RFC 3339 texts.
fn item_of(r: RawItem) -> (it: ParsedItem)
    ensures
        it.id@ == r.0@,
        opt_text(it.title) == opt_text(r.1),
        it@.links == texts(r.2),
        it@.authors == texts(r.3),
        it.published == opt_time(opt_text(r.4)),
        it.updated == opt_time(opt_text(r.5)),
        opt_text(it.summary) == opt_text(r.6),
        opt_text(it.content) == opt_text(r.7),
        it.published matches Some(u) ==> u.valid(),
        it.updated matches Some(u) ==> u.valid(),
{
    let (id, title, links, authors, published, updated, summary, content) = r;
    let published = match &published {
        Some(t) => parse_rfc3339(t.as_str()),
        None => None,
    };
    let updated = match &updated {
        Some(t) => parse_rfc3339(t.as_str()),
        None => None,
    };
    ParsedItem { id, title, links, authors, published, updated, summary, content }
}

/// The refusal of a body on which the parser would meet a bad time value.
pub open spec fn unreadable_time_message() -> Seq<char> {
    "feed holds a time value that the parser cannot read"@
}

/// Parses the bytes of a feed (RSS, Atom or JSON Feed) with `feed_rs`, or gives the text of the
/// parser's error; a body on which the parser would meet a bad time value (see `parser_safe`) is
/// refused instead. The feed holds what the parser read (see `feed_reads_as`); its times are ones
/// that chrono represents.
pub fn parse_feed(body: &[u8]) -> (r: Result<ParsedFeed, String>)
    ensures
        !parser_safe(body@) ==> (r matches Err(m) && m@ == unreadable_time_message()),
        parser_safe(body@) ==> match (r, feed_rs_reading(body@)) {
            (Ok(f), Ok((t, l, xs))) => f@.valid() && feed_reads_as(f@, t, l, xs),
            (Err(m), Err(e)) => m@ == e,
            _ => false,
        },
{
    if !parser_safe_exec(body) {
        return Err("feed holds a time value that the parser cannot read".to_string());
    }
    let (title, links, raw) = match feed_rs_parse(body) {
        Ok(parts) => parts,
        Err(e) => return Err(e),
    };
    let ghost xs = feed_rs_reading(body@)->Ok_0.2;
    let ghost rv = raw@;
    let mut entries: Vec<ParsedItem> = Vec::new();
    for r in it: raw
        invariant
            it.seq() == rv,
            rv.len() == xs.len(),
            entries@.len() == it.index(),
            forall|i: int| 0 <= i < rv.len() ==> raw_reads_as(#[trigger] rv[i], xs[i]),
            forall|i: int|
                0 <= i < entries@.len() ==> {
                    &&& item_reads_as((#[trigger] entries@[i])@, xs[i])
                    &&& entries@[i].published matches Some(u) ==> u.valid()
                    &&& entries@[i].updated matches Some(u) ==> u.valid()
                },
    {
        let ghost k = it.index();
        assert(r == rv[k]);
        let item = item_of(r);
        entries.push(item);
        assert(entries@[k]@ == item@);
    }
    let feed = ParsedFeed { title, links, entries };
    proof {
        assert forall|i: int| 0 <= i < feed@.entries.len() implies {
            &&& (#[trigger] feed@.entries[i]).published matches Some(u) ==> u.valid()
            &&& feed@.entries[i].updated matches Some(u) ==> u.valid()
        } by {
            assert(feed@.entries[i] == feed.entries@[i]@);
        }
        assert forall|i: int| 0 <= i < xs.len() implies item_reads_as(#[trigger] feed@.entries[i], xs[i]) by {
            assert(feed@.entries[i] == feed.entries@[i]@);
        }
    }
    Ok(feed)
}

/// A text that is not blank, else nothing.
pub open spec fn nonblank(t: Option<Seq<char>>) -> Option<Seq<char>> {
    match t {
        Some(s) => if trim_spec(s).len() == 0 { None } else { Some(s) },
        None => None,
    }
}

/// The first of a sequence, if any.
pub open spec fn first_of(s: Seq<Seq<char>>) -> Option<Seq<char>> {
    if s.len() > 0 { Some(s[0]) } else { None }
}

/// The entry stored for the item at position `index` of a feed: its key is its trimmed id, else
/// its first link, else "item-" and the position; a blank title becomes "(untitled)"; a blank
/// summary none; the author is the first one.
pub open spec fn item_entry(feed_id: i64, item: ParsedItemView, index: nat) -> NewEntryView {
    let id = trim_spec(item.id);
    let link = first_of(item.links);
    NewEntryView {
        feed_id: feed_id,
        key: if id.len() > 0 {
            id
        } else {
            match link {
                Some(l) => l,
                None => "item-"@ + decimal(index),
            }
        },
        title: match nonblank(item.title) {
            Some(t) => t,
            None => "(untitled)"@,
        },
        author: first_of(item.authors),
        url: link,
        published_at: item.published,
        updated_at: item.updated,
        summary: nonblank(item.summary),
        content: item.content,
    }
}

/// The tables after storing the first `k` items of a feed for `feed_id`, in order, and how many
/// were stored; the first refusal stops it, the earlier items staying stored.
pub open spec fn store_items(s: DbState, feed_id: i64, items: Seq<ParsedItemView>, k: nat, now: UtcTime) -> (
    DbState,
    Result<usize, DbError>,
)
    decreases k,
{
    if k == 0 {
        (s, Ok(0))
    } else {
        let (s1, r1) = store_items(s, feed_id, items, (k - 1) as nat, now);
        match r1 {
            Err(e) => (s1, Err(e)),
            Ok(c) => {
                let (s2, r2) = s1.upsert_entry(item_entry(feed_id, items[k - 1], (k - 1) as nat), now);
                match r2 {
                    Ok(_) => (s2, Ok((c + 1) as usize)),
                    Err(e) => (s2, Err(e)),
                }
            },
        }
    }
}

/// What storing a fetched feed does: the feed row (by URL) gets the feed's title (else the URL)
/// and first link; the items are stored under `feed_id`; then the feed gets the new validators
/// and is marked as checked at `now`. The result counts the items.
pub open spec fn apply_feed_spec(
    s: DbState,
    feed_id: i64,
    feed_url: Seq<char>,
    feed: ParsedFeedView,
    etag: Option<Seq<char>>,
    last_modified: Option<Seq<char>>,
    now: UtcTime,
) -> (DbState, Result<usize, DbError>) {
    let title = match nonblank(feed.title) {
        Some(t) => t,
        None => feed_url,
    };
    let (s1, r1) = s.upsert_feed(title, first_of(feed.links), feed_url);
    match r1 {
        Err(e) => (s1, Err(e)),
        Ok(_) => {
            let (s2, r2) = store_items(s1, feed_id, feed.entries, feed.entries.len(), now);
            match r2 {
                Err(e) => (s2, Err(e)),
                Ok(n) => (s2.set_feed_headers(feed_id, etag, last_modified, now), Ok(n)),
            }
        },
    }
}

/// A text that is not blank, else nothing.
fn nonblank_text(t: &Option<String>) -> (r: Option<String>)
    ensures
        opt_text(r) == nonblank(opt_text(*t)),
{
    match t {
        Some(s) => {
            let tr = trim(s.as_str());
            if tr.as_str().is_empty() {
                None
            } else {
                Some(s.clone())
            }
        },
        None => None,
    }
}

/// A copy of the first text, if there is one.
fn first_text(v: &Vec<String>) -> (r: Option<String>)
    ensures
        opt_text(r) == first_of(v@.map_values(|l: String| l@)),
{
    if v.len() > 0 {
        Some(v[0].clone())
    } else {
        None
    }
}

/// The entry stored for the item at position `index` of a feed.
pub fn entry_for_item(feed_id: i64, item: &ParsedItem, index: usize) -> (e: NewEntry)
    ensures
        e@ == item_entry(feed_id, item@, index as nat),
{
    let id = trim(item.id.as_str());
    let link = first_text(&item.links);
    let key = if !id.as_str().is_empty() {
        id
    } else {
        match &link {
            Some(l) => l.clone(),
            None => concat("item-", usize_to_string(index).as_str()),
        }
    };
    let title = match nonblank_text(&item.title) {
        Some(t) => t,
        None => "(untitled)".to_string(),
    };
    NewEntry {
        feed_id: feed_id,
        key: key,
        title: title,
        author: first_text(&item.authors),
        url: link,
        published_at: item.published,
        updated_at: item.updated,
        summary: nonblank_text(&item.summary),
        content: clone_opt(&item.content),
    }
}

/// Stores a fetched feed at time `now` (see `apply_feed_spec`); returns how many items were
/// stored.
pub fn apply_feed(
    db: &mut Database,
    feed_id: i64,
    feed_url: &str,
    feed: &ParsedFeed,
    etag: Option<&str>,
    last_modified: Option<&str>,
    now: UtcTime,
) -> (r: Result<usize, DbError>)
    requires
        old(db).wf(),
        feed@.valid(),
        now.valid(),
    ensures
        final(db).wf(),
        (final(db)@, r) == apply_feed_spec(
            old(db)@,
            feed_id,
            feed_url@,
            feed@,
            crate::model::opt_str_text(etag),
            crate::model::opt_str_text(last_modified),
            now,
        ),
{
    let title = match nonblank_text(&feed.title) {
        Some(t) => t,
        None => feed_url.to_string(),
    };
    let site = first_text(&feed.links);
    let site_ref: Option<&str> = match &site {
        Some(s) => Some(s.as_str()),
        None => None,
    };
    match db.upsert_feed(title.as_str(), site_ref, feed_url) {
        Err(e) => return Err(e),
        Ok(_) => {},
    }
    let ghost s1 = db@;
    let ghost spec_title = match nonblank(feed@.title) {
        Some(t) => t,
        None => feed_url@,
    };
    let ghost s0 = old(db)@;
    assert(s1 == s0.upsert_feed(spec_title, first_of(feed@.links), feed_url@).0);
    assert(s0.upsert_feed(spec_title, first_of(feed@.links), feed_url@).1 is Ok);
    let n = feed.entries.len();
    let ghost items = feed@.entries;
    let mut count: usize = 0;
    let mut i: usize = 0;
    while i < n
        invariant
            n == feed.entries@.len(),
            items == feed@.entries,
            items.len() == n,
            feed@.valid(),
            now.valid(),
            db.wf(),
            0 <= i <= n,
            count == i,
            (db@, Ok::<usize, DbError>(count)) == store_items(s1, feed_id, items, i as nat, now),
            s1 == s0.upsert_feed(spec_title, first_of(feed@.links), feed_url@).0,
            s0 == old(db)@,
            s0.upsert_feed(spec_title, first_of(feed@.links), feed_url@).1 is Ok,
            spec_title == match nonblank(feed@.title) {
                Some(t) => t,
                None => feed_url@,
            },
        decreases n - i,
    {
        let e = entry_for_item(feed_id, &feed.entries[i], i);
        assert(items[i as int] == feed.entries@[i as int]@);
        assert(e@.valid()) by {
            assert(feed@.entries[i as int].published == feed.entries@[i as int].published);
        }
        let ghost before = db@;
        match db.upsert_entry(&e, now) {
            Ok(_) => {},
            Err(err) => {
                assert(store_items(s1, feed_id, items, (i + 1) as nat, now) == (db@, Err::<usize, DbError>(err)));
                proof {
                    lemma_store_items_stops(s1, feed_id, items, (i + 1) as nat, n as nat, now);
                }
                return Err(err);
            },
        }
        count = count + 1;
        i = i + 1;
    }
    db.set_feed_headers(feed_id, etag, last_modified, now).unwrap();
    Ok(count)
}

/// Once storing stops on a refusal, the later items change nothing.
proof fn lemma_store_items_stops(s: DbState, feed_id: i64, items: Seq<ParsedItemView>, k: nat, m: nat, now: UtcTime)
    requires
        k <= m,
        store_items(s, feed_id, items, k, now).1 is Err,
    ensures
        store_items(s, feed_id, items, m, now) == store_items(s, feed_id, items, k, now),
    decreases m - k,
{
    if m > k {
        lemma_store_items_stops(s, feed_id, items, k, (m - 1) as nat, now);
    }
}

} // verus!

verus! {

/// The answer to a feed request, as far as a refresh reads it.
pub struct FetchResponse {
    pub status: u16,
    pub etag: Option<String>,
    pub last_modified: Option<String>,
    pub body: Vec<u8>,
}

/// Why a refresh failed after the feed was fetched.
#[derive(Debug)]
pub enum SyncError {
    /// The database refused a change.
    Db(DbError),
    /// The body is not a feed; the parser's message.
    Parse(String),
}

/// The refresh that a response to a request with validators `sent_etag` and
/// `sent_last_modified` completes: `304 Not Modified` only marks the feed as checked (keeping
/// the validators); any other answer is parsed as a feed (see `parse_feed`, which refuses a body
/// holding a time value that the parser cannot read) and stored with the answer's validators.
/// Returns how many items were stored; a refused body leaves the database as it was.
pub fn complete_refresh(
    db: &mut Database,
    feed_id: i64,
    feed_url: &str,
    sent_etag: Option<&str>,
    sent_last_modified: Option<&str>,
    resp: &FetchResponse,
    now: UtcTime,
) -> (r: Result<usize, SyncError>)
    requires
        old(db).wf(),
        now.valid(),
    ensures
        final(db).wf(),
        resp.status == 304 ==> (r matches Ok(0) && final(db)@ == old(db)@.set_feed_headers(
            feed_id,
            crate::model::opt_str_text(sent_etag),
            crate::model::opt_str_text(sent_last_modified),
            now,
        )),
        resp.status != 304 && !parser_safe(resp.body@) ==> (r matches Err(SyncError::Parse(m)) && m@
            == unreadable_time_message() && final(db)@ == old(db)@),
        resp.status != 304 && parser_safe(resp.body@) ==> match feed_rs_reading(resp.body@) {
            Err(e) => (r matches Err(SyncError::Parse(m)) && m@ == e && final(db)@ == old(db)@),
            Ok((t, l, xs)) => exists|f: ParsedFeedView|
                f.valid() && feed_reads_as(f, t, l, xs) && ({
                    let (s2, r2) = apply_feed_spec(
                        old(db)@,
                        feed_id,
                        feed_url@,
                        f,
                        opt_text(resp.etag),
                        opt_text(resp.last_modified),
                        now,
                    );
                    &&& final(db)@ == s2
                    &&& match r2 {
                        Ok(c) => (r matches Ok(m) && m == c),
                        Err(e) => (r matches Err(SyncError::Db(d)) && d == e),
                    }
                }),
        },
{
    if resp.status == 304 {
        db.set_feed_headers(feed_id, sent_etag, sent_last_modified, now).unwrap();
        return Ok(0);
    }
    let feed = match parse_feed(resp.body.as_slice()) {
        Ok(f) => f,
        Err(m) => return Err(SyncError::Parse(m)),
    };
    let etag: Option<&str> = match &resp.etag {
        Some(s) => Some(s.as_str()),
        None => None,
    };
    let last_modified: Option<&str> = match &resp.last_modified {
        Some(s) => Some(s.as_str()),
        None => None,
    };
    match apply_feed(db, feed_id, feed_url, &feed, etag, last_modified, now) {
        Ok(n) => Ok(n),
        Err(e) => Err(SyncError::Db(e)),
    }
}

impl SyncError {
    /// The error's message, with its cause.
    pub fn message(&self) -> (r: String)
        ensures
            match self {
                SyncError::Db(e) => r@ == crate::db::db_error_message(*e),
                SyncError::Parse(m) => r@ == "failed to parse feed: "@ + m@,
            },
    {
        match self {
            SyncError::Db(e) => e.message(),
            SyncError::Parse(m) => concat("failed to parse feed: ", m.as_str()),
        }
    }
}

} // verus!
