use feedy::db::{Database, NewEntry};
use feedy::export::{export_news_markdown, render_news_markdown};
use feedy::model::Entry;
use feedy::time::UtcTime;

#[test]
fn markdown_of_entries() {
    let entries = vec![
        Entry {
            id: 1,
            title: "Hello".to_string(),
            author: None,
            url: Some("https://x.example/1".to_string()),
            published_at: Some(UtcTime { secs: 1704164645, nanos: 0 }),
            summary: Some("sum".to_string()),
            content: Some("<p>body</p>".to_string()),
            is_read: true,
            is_starred: false,
            is_hidden: false,
        },
        Entry {
            id: 2,
            title: "Bare".to_string(),
            author: None,
            url: None,
            published_at: None,
            summary: None,
            content: None,
            is_read: false,
            is_starred: true,
            is_hidden: true,
        },
    ];
    assert_eq!(
        render_news_markdown(&entries),
        "# feedy export\n\n## Hello\nLink: https://x.example/1\nPublished: 2024-01-02T03:04:05+00:00\nState: read, not-starred, visible\n\n<p>body</p>\n\n---\n\n## Bare\nState: unread, starred, hidden\n\n(no content)\n\n---\n\n"
    );
}

#[test]
fn export_counts_listed_entries() {
    let mut db = Database::new();
    let f = db.upsert_feed("A", None, "https://a.example/feed").unwrap();
    for k in ["a", "b", "c"] {
        let e = NewEntry {
            feed_id: f,
            key: k.to_string(),
            title: k.to_string(),
            author: None,
            url: None,
            published_at: None,
            updated_at: None,
            summary: Some(format!("summary {k}")),
            content: None,
        };
        db.upsert_entry(&e, UtcTime { secs: 1704164645, nanos: 0 }).unwrap();
    }
    db.toggle_hidden(2).unwrap();
    let (md, n) = export_news_markdown(&db, Some(f), false).unwrap();
    assert_eq!(n, 2);
    assert!(md.starts_with("# feedy export\n\n"));
    assert!(!md.contains("## b\n"));
    let (_, all) = export_news_markdown(&db, None, true).unwrap();
    assert_eq!(all, 3);
}
