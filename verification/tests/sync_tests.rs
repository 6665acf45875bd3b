use feedy::db::Database;
use feedy::sync::{complete_refresh, parse_feed, FetchResponse, SyncError};
use feedy::time::UtcTime;

fn now() -> UtcTime {
    UtcTime { secs: 1704164645, nanos: 0 }
}

const RSS: &str = r#"<?xml version="1.0"?>
<rss version="2.0">
  <channel>
    <title>Example Blog</title>
    <link>https://blog.example/</link>
    <item>
      <title>First</title>
      <guid>post-1</guid>
      <link>https://blog.example/1</link>
      <description>Hello</description>
      <pubDate>Tue, 02 Jan 2024 03:04:05 GMT</pubDate>
    </item>
    <item>
      <title>  </title>
      <link>https://blog.example/2</link>
    </item>
  </channel>
</rss>"#;

fn response(status: u16, body: &str) -> FetchResponse {
    FetchResponse {
        status,
        etag: Some("\"v1\"".to_string()),
        last_modified: None,
        body: body.as_bytes().to_vec(),
    }
}

#[test]
fn parse_feed_reads_rss() {
    let f = parse_feed(RSS.as_bytes()).expect("parses");
    assert_eq!(f.title.as_deref(), Some("Example Blog"));
    assert_eq!(f.entries.len(), 2);
    assert_eq!(f.entries[0].id, "post-1");
    assert_eq!(f.entries[0].published.map(|t| t.secs), Some(1704164645));
    assert_eq!(f.entries[0].title.as_deref(), Some("First"));
    assert_eq!(f.entries[0].links, vec!["https://blog.example/1".to_string()]);
    assert_eq!(f.entries[0].summary.as_deref(), Some("Hello"));
    assert_eq!(f.entries[0].published.map(|t| t.nanos), Some(0));
    assert_eq!(f.links, vec!["https://blog.example/".to_string()]);
    // An item without an id gets one made from its link, the same at every parse.
    let again = parse_feed(RSS.as_bytes()).unwrap();
    assert!(!f.entries[1].id.is_empty());
    assert_eq!(f.entries[1].id, again.entries[1].id);
}

#[test]
fn parse_feed_refuses_garbage() {
    assert!(parse_feed(b"this is not a feed").is_err());
}

#[test]
fn refresh_stores_items_and_validators() {
    let mut db = Database::new();
    let url = "https://blog.example/rss";
    let id = db.upsert_feed(url, None, url).unwrap();
    let n = complete_refresh(&mut db, id, url, None, None, &response(200, RSS), now()).expect("refresh");
    assert_eq!(n, 2);
    let feeds = db.all_feeds().unwrap();
    assert_eq!(feeds[0].title, "Example Blog");
    assert_eq!(feeds[0].site_url.as_deref(), Some("https://blog.example/"));
    assert!(feeds[0].last_checked_at.is_some());
    assert_eq!(db.feed_headers(id), Ok((Some("\"v1\"".to_string()), None)));
    let entries = db.list_entries(Some(id), false, false, true).unwrap();
    assert_eq!(entries.len(), 2);
    let first = entries.iter().find(|e| e.title == "First").expect("first");
    assert_eq!(first.url.as_deref(), Some("https://blog.example/1"));
    assert_eq!(first.summary.as_deref(), Some("Hello"));
    assert!(entries.iter().any(|e| e.title == "(untitled)"));
    // A second refresh stores the same items again, under the same keys.
    complete_refresh(&mut db, id, url, None, None, &response(200, RSS), now()).unwrap();
    assert_eq!(db.entry_records().len(), 2);
}

#[test]
fn not_modified_only_marks_checked() {
    let mut db = Database::new();
    let url = "https://blog.example/rss";
    let id = db.upsert_feed("Blog", None, url).unwrap();
    let n = complete_refresh(&mut db, id, url, Some("\"v0\""), None, &response(304, ""), now()).unwrap();
    assert_eq!(n, 0);
    assert!(db.entry_records().is_empty());
    assert_eq!(db.feed_headers(id), Ok((Some("\"v0\"".to_string()), None)));
    assert!(db.feed_records()[0].last_checked_at.is_some());
    assert_eq!(db.feed_records()[0].title, "Blog");
}

#[test]
fn unparsable_body_changes_nothing() {
    let mut db = Database::new();
    let url = "https://blog.example/rss";
    let id = db.upsert_feed("Blog", None, url).unwrap();
    let r = complete_refresh(&mut db, id, url, None, None, &response(200, "<html>nope</html>"), now());
    match r {
        Err(e @ SyncError::Parse(_)) => assert!(e.message().starts_with("failed to parse feed: ")),
        other => panic!("unexpected {:?}", other),
    }
    assert!(db.entry_records().is_empty());
    assert_eq!(db.feed_records()[0].last_checked_at, None);
}
