use feedy::db::{
    schema_step, Database, DbError, EntryRecord, EntryStateRecord, FeedRecord, NewEntry, SchemaError,
    SCHEMA_VERSION,
};
use feedy::time::UtcTime;

fn temp_db() -> Database {
    Database::new()
}

fn entry(feed_id: i64, key: &str, title: &str) -> NewEntry {
    NewEntry {
        feed_id,
        key: key.to_string(),
        title: title.to_string(),
        author: None,
        url: None,
        published_at: None,
        updated_at: None,
        summary: None,
        content: None,
    }
}

/// 2024-01-02T03:04:05Z.
fn jan_second() -> UtcTime {
    UtcTime { secs: 1704164645, nanos: 0 }
}

#[test]
fn upsert_feed_reuses_existing_row() {
    let mut db = temp_db();
    let id1 = db
        .upsert_feed("Example", Some("https://example.com"), "https://example.com/feed.xml")
        .expect("insert");
    let id2 = db
        .upsert_feed("Example2", None, "https://example.com/feed.xml")
        .expect("update");
    assert_eq!(id1, id2);
}

#[test]
fn dedup_entry_by_feed_and_key() {
    let mut db = temp_db();
    let feed_id = db
        .upsert_feed("Example", None, "https://example.com/feed.xml")
        .expect("feed");
    let entry = NewEntry {
        feed_id,
        key: "entry-1".to_string(),
        title: "Title A".to_string(),
        author: None,
        url: Some("https://example.com/posts/1".to_string()),
        published_at: None,
        updated_at: None,
        summary: Some("Summary A".to_string()),
        content: None,
    };
    let id1 = db.upsert_entry(&entry, jan_second()).expect("entry insert");
    let mut updated = entry.clone();
    updated.title = "Title B".to_string();
    let id2 = db.upsert_entry(&updated, jan_second()).expect("entry update");
    assert_eq!(id1, id2);
    let entries = db.list_entries(Some(feed_id), false, false, true).expect("list");
    assert_eq!(entries.len(), 1);
    assert_eq!(entries[0].title, "Title B");
}

#[test]
fn toggle_states_work() {
    let mut db = temp_db();
    let feed_id = db
        .upsert_feed("Example", None, "https://example.com/feed.xml")
        .expect("feed");
    let entry = NewEntry {
        feed_id,
        key: "entry-2".to_string(),
        title: "Title".to_string(),
        author: None,
        url: None,
        published_at: None,
        updated_at: None,
        summary: None,
        content: None,
    };
    let id = db.upsert_entry(&entry, jan_second()).expect("entry");
    db.toggle_read(id, jan_second()).expect("toggle read");
    db.toggle_star(id, jan_second()).expect("toggle star");
    db.toggle_hidden(id).expect("toggle hidden");
    let entries = db.list_entries(Some(feed_id), false, false, true).expect("list");
    assert_eq!(entries.len(), 1);
    assert!(entries[0].is_read);
    assert!(entries[0].is_starred);
    assert!(entries[0].is_hidden);
}

#[test]
fn feed_ids_count_up_from_one() {
    let mut db = temp_db();
    assert_eq!(db.upsert_feed("A", None, "https://a.example/feed").unwrap(), 1);
    assert_eq!(db.upsert_feed("B", None, "https://b.example/feed").unwrap(), 2);
    assert_eq!(db.upsert_feed("A again", None, "https://a.example/feed").unwrap(), 1);
    assert_eq!(db.feed_records().len(), 2);
    assert_eq!(db.feed_records()[0].title, "A again");
}

#[test]
fn upsert_feed_updates_title_and_site() {
    let mut db = temp_db();
    db.upsert_feed("Old", Some("https://old.example"), "https://x.example/feed").unwrap();
    db.upsert_feed("New", None, "https://x.example/feed").unwrap();
    let feeds = db.all_feeds().unwrap();
    assert_eq!(feeds.len(), 1);
    assert_eq!(feeds[0].title, "New");
    assert_eq!(feeds[0].site_url, None);
}

#[test]
fn all_feeds_orders_by_title_then_id() {
    let mut db = temp_db();
    db.upsert_feed("zeta", None, "https://z.example/feed").unwrap();
    db.upsert_feed("Alpha", None, "https://a.example/feed").unwrap();
    db.upsert_feed("beta", None, "https://b.example/feed").unwrap();
    db.upsert_feed("Alpha", None, "https://a2.example/feed").unwrap();
    let titles: Vec<(String, i64)> = db.all_feeds().unwrap().into_iter().map(|f| (f.title, f.id)).collect();
    assert_eq!(
        titles,
        vec![
            ("Alpha".to_string(), 2),
            ("Alpha".to_string(), 4),
            ("beta".to_string(), 3),
            ("zeta".to_string(), 1)
        ]
    );
}

#[test]
fn remove_feed_hides_it_but_keeps_entries() {
    let mut db = temp_db();
    let a = db.upsert_feed("A", None, "https://a.example/feed").unwrap();
    let b = db.upsert_feed("B", None, "https://b.example/feed").unwrap();
    db.upsert_entry(&entry(a, "k1", "one"), jan_second()).unwrap();
    assert_eq!(db.remove_feed("https://a.example/feed").unwrap(), 1);
    let feeds = db.all_feeds().unwrap();
    assert_eq!(feeds.len(), 1);
    assert_eq!(feeds[0].id, b);
    assert_eq!(db.list_entries(Some(a), false, false, true).unwrap().len(), 1);
    assert_eq!(db.remove_feed("https://missing.example/feed").unwrap(), 0);
    // Adding the URL again makes the feed active under its old id.
    assert_eq!(db.upsert_feed("A", None, "https://a.example/feed").unwrap(), a);
    assert_eq!(db.all_feeds().unwrap().len(), 2);
}

#[test]
fn remove_feed_by_id() {
    let mut db = temp_db();
    db.upsert_feed("A", None, "https://a.example/feed").unwrap();
    let b = db.upsert_feed("B", None, "https://b.example/feed").unwrap();
    assert_eq!(db.remove_feed(&b.to_string()).unwrap(), 1);
    assert_eq!(db.all_feeds().unwrap().len(), 1);
    assert_eq!(db.remove_feed("99").unwrap(), 0);
}

#[test]
fn delete_feed_removes_entries_and_states() {
    let mut db = temp_db();
    let a = db.upsert_feed("A", None, "https://a.example/feed").unwrap();
    let b = db.upsert_feed("B", None, "https://b.example/feed").unwrap();
    let e1 = db.upsert_entry(&entry(a, "k1", "one"), jan_second()).unwrap();
    let e2 = db.upsert_entry(&entry(b, "k2", "two"), jan_second()).unwrap();
    db.toggle_read(e1, jan_second()).unwrap();
    db.toggle_star(e2, jan_second()).unwrap();
    assert_eq!(db.delete_feed(&a.to_string()).unwrap(), 1);
    assert_eq!(db.feed_records().len(), 1);
    assert_eq!(db.entry_records().len(), 1);
    assert_eq!(db.entry_records()[0].id, e2);
    assert_eq!(db.state_records().len(), 1);
    assert_eq!(db.state_records()[0].entry_id, e2);
    assert!(db.list_entries(None, false, false, true).unwrap().iter().all(|e| e.id != e1));
    assert_eq!(db.delete_feed(&a.to_string()).unwrap(), 0);
    assert_eq!(db.delete_feed("https://b.example/feed").unwrap(), 1);
    assert!(db.all_feeds().unwrap().is_empty());
}

#[test]
fn toggle_read_twice_restores() {
    let mut db = temp_db();
    let f = db.upsert_feed("A", None, "https://a.example/feed").unwrap();
    let id = db.upsert_entry(&entry(f, "k", "t"), jan_second()).unwrap();
    db.toggle_read(id, jan_second()).unwrap();
    assert!(db.list_entries(Some(f), false, false, true).unwrap()[0].is_read);
    assert_eq!(db.state_records()[0].read_at.as_deref(), Some("2024-01-02T03:04:05+00:00"));
    db.toggle_read(id, jan_second()).unwrap();
    let e = &db.list_entries(Some(f), false, false, true).unwrap()[0];
    assert!(!e.is_read);
    assert!(!e.is_starred);
    assert_eq!(db.state_records()[0].read_at, None);
}

#[test]
fn toggle_star_twice_restores() {
    let mut db = temp_db();
    let f = db.upsert_feed("A", None, "https://a.example/feed").unwrap();
    let id = db.upsert_entry(&entry(f, "k", "t"), jan_second()).unwrap();
    db.toggle_star(id, jan_second()).unwrap();
    assert!(db.list_entries(Some(f), false, false, true).unwrap()[0].is_starred);
    assert_eq!(db.state_records()[0].starred_at.as_deref(), Some("2024-01-02T03:04:05+00:00"));
    db.toggle_star(id, jan_second()).unwrap();
    let e = &db.list_entries(Some(f), false, false, true).unwrap()[0];
    assert!(!e.is_starred);
    assert!(!e.is_read);
}

#[test]
fn toggle_hidden_twice_restores() {
    let mut db = temp_db();
    let f = db.upsert_feed("A", None, "https://a.example/feed").unwrap();
    let id = db.upsert_entry(&entry(f, "k", "t"), jan_second()).unwrap();
    db.toggle_hidden(id).unwrap();
    assert!(db.list_entries(Some(f), false, false, false).unwrap().is_empty());
    assert_eq!(db.list_entries(Some(f), false, false, true).unwrap().len(), 1);
    db.toggle_hidden(id).unwrap();
    assert_eq!(db.list_entries(Some(f), false, false, false).unwrap().len(), 1);
    // Hiding an entry that does not exist changes nothing.
    db.toggle_hidden(99).unwrap();
    assert_eq!(db.entry_records().len(), 1);
}

#[test]
fn toggles_refuse_missing_entries() {
    let mut db = temp_db();
    assert_eq!(db.toggle_read(7, jan_second()), Err(DbError::ForeignKeyViolation));
    assert_eq!(db.toggle_star(7, jan_second()), Err(DbError::ForeignKeyViolation));
    assert!(db.state_records().is_empty());
    assert_eq!(DbError::ForeignKeyViolation.message(), "FOREIGN KEY constraint failed");
}

#[test]
fn upsert_entry_refuses_missing_feed() {
    let mut db = temp_db();
    assert_eq!(db.upsert_entry(&entry(3, "k", "t"), jan_second()), Err(DbError::ForeignKeyViolation));
    assert!(db.entry_records().is_empty());
}

#[test]
fn feed_headers_of_missing_feed() {
    let db = temp_db();
    assert_eq!(db.feed_headers(1), Err(DbError::NoSuchRow));
    assert_eq!(DbError::NoSuchRow.message(), "Query returned no rows");
}

#[test]
fn set_and_read_feed_headers() {
    let mut db = temp_db();
    let f = db.upsert_feed("A", None, "https://a.example/feed").unwrap();
    assert_eq!(db.feed_headers(f), Ok((None, None)));
    db.set_feed_headers(f, Some("\"abc\""), Some("Tue, 02 Jan 2024 03:04:05 GMT"), jan_second()).unwrap();
    assert_eq!(
        db.feed_headers(f),
        Ok((Some("\"abc\"".to_string()), Some("Tue, 02 Jan 2024 03:04:05 GMT".to_string())))
    );
    assert_eq!(db.feed_records()[0].last_checked_at.as_deref(), Some("2024-01-02T03:04:05+00:00"));
    let feeds = db.all_feeds().unwrap();
    assert_eq!(feeds[0].last_checked_at, Some(jan_second()));
}

#[test]
fn new_entry_records_fetch_time() {
    let mut db = temp_db();
    let f = db.upsert_feed("A", None, "https://a.example/feed").unwrap();
    db.upsert_entry(&entry(f, "k", "t"), jan_second()).unwrap();
    assert_eq!(db.entry_records()[0].fetched_at, "2024-01-02 03:04:05");
    assert_eq!(db.state_records().len(), 1);
    assert!(!db.state_records()[0].is_read);
}

#[test]
fn upsert_entry_keeps_old_values_when_new_ones_are_missing() {
    let mut db = temp_db();
    let f = db.upsert_feed("A", None, "https://a.example/feed").unwrap();
    let mut e = entry(f, "k", "t");
    e.summary = Some("first".to_string());
    e.published_at = Some(jan_second());
    db.upsert_entry(&e, jan_second()).unwrap();
    let mut e2 = entry(f, "k", "t2");
    e2.content = Some("body".to_string());
    db.upsert_entry(&e2, jan_second()).unwrap();
    let r = &db.entry_records()[0];
    assert_eq!(r.title, "t2");
    assert_eq!(r.summary.as_deref(), Some("first"));
    assert_eq!(r.content.as_deref(), Some("body"));
    assert_eq!(r.published_at.as_deref(), Some("2024-01-02T03:04:05+00:00"));
}

#[test]
fn list_entries_newest_first_and_filters() {
    let mut db = temp_db();
    let f = db.upsert_feed("A", None, "https://a.example/feed").unwrap();
    let g = db.upsert_feed("B", None, "https://b.example/feed").unwrap();
    let mut old = entry(f, "old", "old");
    old.published_at = Some(UtcTime { secs: 1_600_000_000, nanos: 0 });
    let mut new = entry(f, "new", "new");
    new.published_at = Some(UtcTime { secs: 1_700_000_000, nanos: 0 });
    let other = entry(g, "other", "other");
    let id_old = db.upsert_entry(&old, jan_second()).unwrap();
    let id_new = db.upsert_entry(&new, jan_second()).unwrap();
    let id_other = db.upsert_entry(&other, jan_second()).unwrap();
    let titles: Vec<String> = db.list_entries(Some(f), false, false, true).unwrap().into_iter().map(|e| e.title).collect();
    assert_eq!(titles, vec!["new".to_string(), "old".to_string()]);
    assert_eq!(db.list_entries(None, false, false, true).unwrap().len(), 3);
    db.toggle_read(id_new, jan_second()).unwrap();
    let unread: Vec<i64> = db.list_entries(Some(f), true, false, true).unwrap().into_iter().map(|e| e.id).collect();
    assert_eq!(unread, vec![id_old]);
    db.toggle_star(id_other, jan_second()).unwrap();
    let starred: Vec<i64> = db.list_entries(None, false, true, true).unwrap().into_iter().map(|e| e.id).collect();
    assert_eq!(starred, vec![id_other]);
    db.toggle_hidden(id_old).unwrap();
    assert_eq!(db.list_entries(Some(f), false, false, false).unwrap().len(), 1);
}

#[test]
fn row_ids_exhausted() {
    let feeds = vec![FeedRecord {
        id: i64::MAX,
        title: "Last".to_string(),
        site_url: None,
        feed_url: "https://last.example/feed".to_string(),
        etag: None,
        last_modified: None,
        last_checked_at: None,
        is_active: true,
    }];
    let mut db = Database::from_records(feeds, Vec::new(), Vec::new()).expect("valid rows");
    assert_eq!(db.upsert_feed("New", None, "https://new.example/feed"), Err(DbError::RowIdsExhausted));
    assert_eq!(DbError::RowIdsExhausted.message(), "database or disk is full");
    assert_eq!(db.upsert_feed("Last", None, "https://last.example/feed"), Ok(i64::MAX));
}

fn feed_row(id: i64, url: &str) -> FeedRecord {
    FeedRecord {
        id,
        title: "T".to_string(),
        site_url: None,
        feed_url: url.to_string(),
        etag: None,
        last_modified: None,
        last_checked_at: None,
        is_active: true,
    }
}

fn entry_row(id: i64, feed_id: i64, key: &str) -> EntryRecord {
    EntryRecord {
        id,
        feed_id,
        key: key.to_string(),
        title: "t".to_string(),
        author: None,
        url: None,
        published_at: None,
        updated_at: None,
        summary: None,
        content: None,
        fetched_at: "2024-01-02 03:04:05".to_string(),
        is_hidden: false,
    }
}

fn state_row(entry_id: i64) -> EntryStateRecord {
    EntryStateRecord { entry_id, is_read: true, is_starred: false, read_at: None, starred_at: None }
}

#[test]
fn from_records_checks_the_schema() {
    let ok = Database::from_records(
        vec![feed_row(1, "https://a/f"), feed_row(5, "https://b/f")],
        vec![entry_row(2, 5, "k"), entry_row(3, 1, "k")],
        vec![state_row(3)],
    );
    assert!(ok.is_some());
    let db = ok.unwrap();
    assert!(db.list_entries(Some(1), false, false, true).unwrap()[0].is_read);
    // Ids out of order.
    assert!(Database::from_records(vec![feed_row(5, "https://a/f"), feed_row(1, "https://b/f")], vec![], vec![]).is_none());
    // Two feeds with one URL.
    assert!(Database::from_records(vec![feed_row(1, "https://a/f"), feed_row(2, "https://a/f")], vec![], vec![]).is_none());
    // An entry of a missing feed.
    assert!(Database::from_records(vec![feed_row(1, "https://a/f")], vec![entry_row(1, 2, "k")], vec![]).is_none());
    // Two entries of one feed with one key.
    assert!(Database::from_records(
        vec![feed_row(1, "https://a/f")],
        vec![entry_row(1, 1, "k"), entry_row(2, 1, "k")],
        vec![]
    )
    .is_none());
    // A state row of a missing entry.
    assert!(Database::from_records(vec![feed_row(1, "https://a/f")], vec![], vec![state_row(4)]).is_none());
}

#[test]
fn schema_versions() {
    assert_eq!(SCHEMA_VERSION, 1);
    assert_eq!(schema_step(0), Ok(true));
    assert_eq!(schema_step(1), Ok(false));
    let err = schema_step(2).unwrap_err();
    assert_eq!(err, SchemaError::TooNew { found: 2, supported: 1 });
    assert_eq!(err.message(), "database schema version 2 is newer than supported 1");
}

#[test]
fn rows_reload_into_the_same_lists() {
    let mut db = temp_db();
    let a = db.upsert_feed("A", None, "https://a.example/feed").unwrap();
    let b = db.upsert_feed("B", Some("https://b.example/"), "https://b.example/feed").unwrap();
    let e1 = db.upsert_entry(&entry(a, "k1", "One"), jan_second()).unwrap();
    db.upsert_entry(&entry(b, "k2", "Two"), jan_second()).unwrap();
    db.toggle_read(e1, jan_second()).unwrap();
    db.remove_feed("https://b.example/feed").unwrap();
    let again = Database::from_records(
        db.feed_records().clone(),
        db.entry_records().clone(),
        db.state_records().clone(),
    )
    .expect("rows of a database keep the schema");
    let titles = |d: &Database| d.all_feeds().unwrap().into_iter().map(|f| (f.id, f.title)).collect::<Vec<_>>();
    assert_eq!(titles(&again), titles(&db));
    assert_eq!(titles(&again), vec![(a, "A".to_string())]);
    let listed = |d: &Database| {
        d.list_entries(None, false, false, true)
            .unwrap()
            .into_iter()
            .map(|e| (e.id, e.title, e.is_read))
            .collect::<Vec<_>>()
    };
    assert_eq!(listed(&again), listed(&db));
    assert_eq!(listed(&again).len(), 2);
    // Re-adding the removed feed after the reload gives it back under its id.
    let mut again = again;
    assert_eq!(again.upsert_feed("B", None, "https://b.example/feed"), Ok(b));
    assert_eq!(again.all_feeds().unwrap().len(), 2);
}
