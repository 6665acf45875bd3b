use feedy::db::Database;
use feedy::scan::parser_safe_exec;
use feedy::sync::{complete_refresh, parse_feed, FetchResponse, SyncError};
use feedy::time::UtcTime;

const REFUSAL: &str = "feed holds a time value that the parser cannot read";

fn podcast(duration: &str) -> String {
    format!(
        r#"<?xml version="1.0"?>
<rss version="2.0" xmlns:itunes="http://www.itunes.com/dtds/podcast-1.0.dtd">
  <channel>
    <title>Cast</title>
    <item>
      <title>Episode</title>
      <guid>ep-1</guid>
      <itunes:duration>{}</itunes:duration>
    </item>
  </channel>
</rss>"#,
        duration
    )
}

fn media(attr: &str) -> String {
    format!(
        r#"<?xml version="1.0"?>
<rss version="2.0" xmlns:media="http://search.yahoo.com/mrss/">
  <channel>
    <title>Clips</title>
    <item>
      <title>Clip</title>
      <guid>clip-1</guid>
      <media:content url="https://clips.example/1.mp4" {}/>
    </item>
  </channel>
</rss>"#,
        attr
    )
}

#[test]
fn plain_durations_are_safe() {
    assert!(parser_safe_exec(podcast("01:02:03").as_bytes()));
    assert!(parser_safe_exec(podcast("3600").as_bytes()));
    assert!(parser_safe_exec(podcast(" 12:34.5 ").as_bytes()));
    assert!(parser_safe_exec(podcast("").as_bytes()));
    assert!(parser_safe_exec(podcast("123456789012345").as_bytes()));
}

#[test]
fn long_digit_runs_are_unsafe() {
    assert!(!parser_safe_exec(podcast("1234567890123456").as_bytes()));
    assert!(!parser_safe_exec(podcast("123456789012345678901").as_bytes()));
    assert!(!parser_safe_exec(podcast("99999999999999999999:00").as_bytes()));
}

#[test]
fn other_duration_text_is_unsafe() {
    // Arabic-Indic digits, which the parser's pattern reads as digits.
    assert!(!parser_safe_exec(podcast("\u{661}\u{662}").as_bytes()));
    assert!(!parser_safe_exec(podcast("<![CDATA[10]]>").as_bytes()));
    assert!(!parser_safe_exec(podcast("1&#48;").as_bytes()));
    assert!(!parser_safe_exec(podcast("ten minutes").as_bytes()));
}

#[test]
fn time_attributes_are_checked() {
    assert!(parser_safe_exec(media(r#"start="10" end='20.5'"#).as_bytes()));
    assert!(!parser_safe_exec(media(r#"start="99999999999999999999""#).as_bytes()));
    assert!(!parser_safe_exec(media(r#"time = "1x""#).as_bytes()));
    // A word that merely ends in "end" is no attribute of that name.
    assert!(parser_safe_exec(media(r#"legend="abc""#).as_bytes()));
}

#[test]
fn nul_bytes_are_unsafe() {
    assert!(parser_safe_exec(b"<rss></rss>"));
    assert!(!parser_safe_exec(b"<rss>\0</rss>"));
    assert!(parser_safe_exec(b""));
}

#[test]
fn parse_feed_refuses_an_unreadable_duration() {
    assert_eq!(parse_feed(podcast("123456789012345678901").as_bytes()).err().as_deref(), Some(REFUSAL));
    assert_eq!(parse_feed(podcast("\u{661}\u{662}").as_bytes()).err().as_deref(), Some(REFUSAL));
    assert_eq!(parse_feed(media(r#"end="99999999999999999999""#).as_bytes()).err().as_deref(), Some(REFUSAL));
}

#[test]
fn parse_feed_reads_a_plain_duration() {
    let f = parse_feed(podcast("01:02:03").as_bytes()).expect("parses");
    assert_eq!(f.title.as_deref(), Some("Cast"));
    assert_eq!(f.entries.len(), 1);
    assert_eq!(f.entries[0].id, "ep-1");
    let g = parse_feed(media(r#"start="10" end="20""#).as_bytes()).expect("parses");
    assert_eq!(g.entries.len(), 1);
    assert_eq!(g.entries[0].title.as_deref(), Some("Clip"));
}

#[test]
fn refresh_refuses_an_unreadable_duration() {
    let mut db = Database::new();
    let url = "https://cast.example/rss";
    let id = db.upsert_feed("Cast", None, url).unwrap();
    let resp = FetchResponse {
        status: 200,
        etag: None,
        last_modified: None,
        body: podcast("123456789012345678901").into_bytes(),
    };
    let now = UtcTime { secs: 1704164645, nanos: 0 };
    match complete_refresh(&mut db, id, url, None, None, &resp, now) {
        Err(e @ SyncError::Parse(_)) => {
            assert_eq!(e.message(), format!("failed to parse feed: {}", REFUSAL));
        }
        other => panic!("unexpected {:?}", other),
    }
    assert!(db.entry_records().is_empty());
    assert_eq!(db.feed_records()[0].last_checked_at, None);
    assert_eq!(db.feed_records()[0].title, "Cast");
}
