use feedy::db::{Database, NewEntry};
use feedy::model::Pane;
use feedy::time::UtcTime;
use feedy::tui::{App, InputMode, Key, Request, Screen};

fn now() -> UtcTime {
    UtcTime { secs: 1704164645, nanos: 0 }
}

fn entry(feed_id: i64, key: &str, secs: i64) -> NewEntry {
    NewEntry {
        feed_id,
        key: key.to_string(),
        title: format!("post {key}"),
        author: None,
        url: Some(format!("https://x.example/{key}")),
        published_at: Some(UtcTime { secs, nanos: 0 }),
        updated_at: None,
        summary: None,
        content: None,
    }
}

/// Two feeds, "A" (two entries) and "B" (one entry).
fn sample_app(interval: Option<u64>) -> App {
    let mut db = Database::new();
    let b = db.upsert_feed("B", None, "https://b.example/feed").unwrap();
    let a = db.upsert_feed("A", None, "https://a.example/feed").unwrap();
    db.upsert_entry(&entry(a, "a1", 1_600_000_000), now()).unwrap();
    db.upsert_entry(&entry(a, "a2", 1_700_000_000), now()).unwrap();
    db.upsert_entry(&entry(b, "b1", 1_650_000_000), now()).unwrap();
    App::new(db, interval)
}

fn press(app: &mut App, key: Key) -> Request {
    app.handle_key(key, now()).expect("no database error")
}

fn type_text(app: &mut App, text: &str) {
    for c in text.chars() {
        press(app, Key::Char(c));
    }
}

#[test]
fn starts_on_first_feed() {
    let app = sample_app(None);
    assert_eq!(app.status(), "Ready");
    assert_eq!(app.screen(), Screen::Main);
    assert_eq!(app.input_mode(), InputMode::Normal);
    assert_eq!(app.pane(), Pane::Feeds);
    assert_eq!(app.feeds().iter().map(|f| f.title.clone()).collect::<Vec<_>>(), vec!["A", "B"]);
    assert_eq!(app.entries().iter().map(|e| e.title.clone()).collect::<Vec<_>>(), vec!["post a2", "post a1"]);
    assert_eq!(app.feed_labels(), vec!["A (-)".to_string(), "B (-)".to_string()]);
    assert_eq!(app.entry_labels(), vec!["[U  ] post a2".to_string(), "[U  ] post a1".to_string()]);
    assert_eq!(app.footer(), "Ready | :help for cheat sheet | :about | :q");
}

#[test]
fn moving_through_feeds_and_entries() {
    let mut app = sample_app(None);
    assert!(matches!(press(&mut app, Key::Char('j')), Request::Continue));
    assert_eq!(app.feed_idx(), 1);
    assert_eq!(app.entries().len(), 1);
    press(&mut app, Key::Down);
    assert_eq!(app.feed_idx(), 1);
    press(&mut app, Key::Char('k'));
    assert_eq!(app.feed_idx(), 0);
    assert_eq!(app.entries().len(), 2);
    press(&mut app, Key::Char('l'));
    assert_eq!(app.pane(), Pane::Entries);
    press(&mut app, Key::Char('G'));
    assert_eq!(app.entry_idx(), 1);
    assert_eq!(app.current_entry_id(), Some(1));
    press(&mut app, Key::Char('g'));
    assert_eq!(app.status(), "g pending. press g again for top");
    press(&mut app, Key::Char('g'));
    assert_eq!(app.entry_idx(), 0);
    assert_eq!(app.current_entry().map(|e| e.title.clone()), Some("post a2".to_string()));
}

#[test]
fn pane_keys_wrap_around() {
    let mut app = sample_app(None);
    press(&mut app, Key::Char('h'));
    assert_eq!(app.pane(), Pane::Preview);
    press(&mut app, Key::Right);
    assert_eq!(app.pane(), Pane::Feeds);
    press(&mut app, Key::Left);
    press(&mut app, Key::Char('l'));
    assert_eq!(app.pane(), Pane::Feeds);
}

#[test]
fn preview_scrolling() {
    let mut app = sample_app(None);
    press(&mut app, Key::PageDown);
    assert_eq!(app.preview_scroll(), 10);
    press(&mut app, Key::PageUp);
    press(&mut app, Key::PageUp);
    assert_eq!(app.preview_scroll(), 0);
    press(&mut app, Key::Char('h'));
    press(&mut app, Key::Char('j'));
    assert_eq!(app.preview_scroll(), 2);
    press(&mut app, Key::Char('G'));
    assert_eq!(app.preview_scroll(), 52);
}

#[test]
fn other_key_clears_pending_g() {
    let mut app = sample_app(None);
    press(&mut app, Key::Char('l'));
    press(&mut app, Key::Char('j'));
    press(&mut app, Key::Char('g'));
    press(&mut app, Key::Char('z'));
    press(&mut app, Key::Char('g'));
    assert_eq!(app.entry_idx(), 1);
}

#[test]
fn quit_keys() {
    let mut app = sample_app(None);
    assert!(matches!(press(&mut app, Key::Char('q')), Request::Quit));
    press(&mut app, Key::Char(':'));
    assert_eq!(app.input_mode(), InputMode::Command);
    type_text(&mut app, " QUIT ");
    assert_eq!(app.footer(), ": QUIT ");
    assert!(matches!(press(&mut app, Key::Enter), Request::Quit));
}

#[test]
fn help_and_about_pages() {
    let mut app = sample_app(None);
    press(&mut app, Key::Char('?'));
    assert_eq!(app.screen(), Screen::Help);
    assert!(matches!(press(&mut app, Key::Char('j')), Request::Continue));
    assert_eq!(app.feed_idx(), 0);
    press(&mut app, Key::Char(':'));
    assert_eq!(app.command_line(), Some(":".to_string()));
    type_text(&mut app, "about");
    press(&mut app, Key::Enter);
    assert_eq!(app.screen(), Screen::About);
    assert_eq!(app.status(), "About");
    assert_eq!(app.command_line(), None);
    // 'q' on a page goes back instead of quitting.
    assert!(matches!(press(&mut app, Key::Char('q')), Request::Continue));
    assert_eq!(app.screen(), Screen::Main);
    assert_eq!(app.status(), "Returned to main");
    press(&mut app, Key::Char(':'));
    type_text(&mut app, "help");
    press(&mut app, Key::Enter);
    press(&mut app, Key::Esc);
    assert_eq!(app.screen(), Screen::Main);
}

#[test]
fn command_line_editing() {
    let mut app = sample_app(None);
    press(&mut app, Key::Char(':'));
    type_text(&mut app, "fooo");
    press(&mut app, Key::Backspace);
    press(&mut app, Key::Char('\u{7}'));
    press(&mut app, Key::Enter);
    assert_eq!(app.status(), "Unknown command: foo");
    assert_eq!(app.input_mode(), InputMode::Normal);
    press(&mut app, Key::Char(':'));
    type_text(&mut app, "x");
    press(&mut app, Key::Esc);
    assert_eq!(app.status(), "Command canceled");
    assert_eq!(app.footer(), "Command canceled | :help for cheat sheet | :about | :q");
}

#[test]
fn commands_toggle_filters() {
    let mut app = sample_app(None);
    press(&mut app, Key::Char('l'));
    press(&mut app, Key::Char('m'));
    assert!(app.entries()[0].is_read);
    press(&mut app, Key::Char(':'));
    type_text(&mut app, "unread");
    press(&mut app, Key::Enter);
    assert_eq!(app.entries().len(), 1);
    press(&mut app, Key::Char('u'));
    assert_eq!(app.entries().len(), 2);
    press(&mut app, Key::Char('s'));
    press(&mut app, Key::Char('f'));
    assert_eq!(app.entries().len(), 1);
    assert!(app.entries()[0].is_starred);
    press(&mut app, Key::Char(':'));
    type_text(&mut app, "starred");
    press(&mut app, Key::Enter);
    assert_eq!(app.entries().len(), 2);
}

#[test]
fn hiding_and_restoring_an_entry() {
    let mut app = sample_app(None);
    press(&mut app, Key::Char('x'));
    assert_eq!(app.status(), "Toggled hidden state. Press H to show hidden entries");
    assert_eq!(app.entries().len(), 1);
    press(&mut app, Key::Char('H'));
    assert_eq!(app.status(), "Hidden entries are visible");
    assert_eq!(app.entries().len(), 2);
    assert!(app.entries()[0].is_hidden);
    press(&mut app, Key::Char('x'));
    press(&mut app, Key::Char(':'));
    type_text(&mut app, "hidden");
    press(&mut app, Key::Enter);
    assert_eq!(app.status(), "Hidden entries are hidden");
    assert_eq!(app.entries().len(), 2);
}

#[test]
fn adding_a_feed() {
    let mut app = sample_app(None);
    press(&mut app, Key::Char('a'));
    assert_eq!(app.input_mode(), InputMode::AddFeed);
    assert_eq!(app.status(), "Add feed URL and press Enter");
    type_text(&mut app, " https://c.example/feed ");
    assert_eq!(app.add_feed_box()[3], " https://c.example/feed ");
    match press(&mut app, Key::Enter) {
        Request::AddFeed { feed_id, feed_url } => {
            assert_eq!(feed_id, 3);
            assert_eq!(feed_url, "https://c.example/feed");
        }
        other => panic!("unexpected {:?}", other),
    }
    assert_eq!(app.input_mode(), InputMode::Normal);
    app.finish_add_feed(&Ok(3));
    assert_eq!(app.status(), "Added feed and synced 3 entries");
    assert_eq!(app.feeds().len(), 3);
    assert_eq!(app.feeds()[2].title, "https://c.example/feed");
    app.finish_add_feed(&Err("timeout".to_string()));
    assert_eq!(app.status(), "Added feed but sync failed: timeout");
}

#[test]
fn adding_an_invalid_feed() {
    let mut app = sample_app(None);
    press(&mut app, Key::Char('a'));
    type_text(&mut app, "ftp://c.example/feed");
    assert!(matches!(press(&mut app, Key::Enter), Request::Continue));
    assert_eq!(app.status(), "Invalid feed URL: feed URL must use http or https");
    assert_eq!(app.input_mode(), InputMode::Normal);
    press(&mut app, Key::Char('a'));
    type_text(&mut app, "x");
    press(&mut app, Key::Esc);
    assert_eq!(app.status(), "Add feed canceled");
    assert_eq!(app.feeds().len(), 2);
}

#[test]
fn deleting_the_selected_feed() {
    let mut app = sample_app(None);
    press(&mut app, Key::Char('j'));
    press(&mut app, Key::Char('D'));
    assert_eq!(app.status(), "Deleted feed: B");
    assert_eq!(app.feed_idx(), 0);
    assert_eq!(app.feeds().len(), 1);
    press(&mut app, Key::Char(':'));
    type_text(&mut app, "deletefeed");
    press(&mut app, Key::Enter);
    assert_eq!(app.status(), "Deleted feed: A");
    assert!(app.feeds().is_empty());
    assert!(app.entries().is_empty());
    press(&mut app, Key::Char('D'));
    assert_eq!(app.status(), "No feed selected");
}

#[test]
fn refresh_requests_and_outcomes() {
    let mut app = sample_app(None);
    match press(&mut app, Key::Char('r')) {
        Request::RefreshFeed { feed_id, feed_url, title } => {
            assert_eq!(feed_id, 2);
            assert_eq!(feed_url, "https://a.example/feed");
            assert_eq!(title, "A");
        }
        other => panic!("unexpected {:?}", other),
    }
    app.finish_refresh_feed("A", &Ok(2));
    assert_eq!(app.status(), "Refreshed 2 entries for A");
    app.finish_refresh_feed("A", &Err("fetch failed".to_string()));
    assert_eq!(app.status(), "Refresh failed: fetch failed");
    assert!(matches!(press(&mut app, Key::Char('R')), Request::RefreshAll));
    app.finish_refresh_all(&vec![Some(2), None, Some(3)]);
    assert_eq!(app.status(), "Refreshed with 1 failed feeds. 5 items updated");
    app.finish_refresh_all(&vec![Some(2), Some(3)]);
    assert_eq!(app.status(), "Refreshed all feeds. 5 items updated");
    press(&mut app, Key::Char(':'));
    type_text(&mut app, "refresh");
    assert!(matches!(press(&mut app, Key::Enter), Request::RefreshAll));
}

#[test]
fn opening_links() {
    let mut app = sample_app(None);
    match press(&mut app, Key::Char('o')) {
        Request::OpenUrl { url } => assert_eq!(url, "https://x.example/a2"),
        other => panic!("unexpected {:?}", other),
    }
    app.finish_open_url(&Ok(()));
    assert_eq!(app.status(), "Opened URL");
    app.finish_open_url(&Err("no browser".to_string()));
    assert_eq!(app.status(), "Failed to open URL: no browser");
}

#[test]
fn auto_refresh_timing() {
    let app = sample_app(Some(1));
    assert!(app.should_auto_refresh(None));
    assert!(!app.should_auto_refresh(Some(59)));
    assert!(app.should_auto_refresh(Some(60)));
    let mut busy = sample_app(Some(1));
    press(&mut busy, Key::Char(':'));
    assert!(!busy.should_auto_refresh(None));
    let never = sample_app(None);
    assert!(!never.should_auto_refresh(None));
}

#[test]
fn preview_of_selection() {
    let mut app = sample_app(None);
    let (header, body) = app.preview();
    assert_eq!(header[0], "post a2");
    assert!(body.is_some());
    press(&mut app, Key::Char('j'));
    press(&mut app, Key::Char('j'));
    press(&mut app, Key::Char('D'));
    press(&mut app, Key::Char('D'));
    let (header, body) = app.preview();
    assert_eq!(header, vec!["No entry selected".to_string()]);
    assert!(body.is_none());
}

#[test]
fn reload_entries_picks_up_new_rows_and_keeps_selection() {
    let mut app = sample_app(None);
    press(&mut app, Key::Char('l'));
    press(&mut app, Key::Char('j'));
    assert_eq!(app.entry_idx(), 1);
    let a = app.feeds()[0].id;
    app.db.upsert_entry(&entry(a, "a3", 1_750_000_000), now()).unwrap();
    app.reload_entries();
    assert_eq!(
        app.entries().iter().map(|e| e.title.clone()).collect::<Vec<_>>(),
        vec!["post a3", "post a2", "post a1"]
    );
    assert_eq!(app.entry_idx(), 1);
    // Reloading again changes nothing.
    app.reload_entries();
    assert_eq!(app.entries().len(), 3);
    assert_eq!(app.entry_idx(), 1);
    // With the entries gone, the selection falls back to the top.
    app.db.delete_feed("https://a.example/feed").unwrap();
    app.reload_entries();
    assert!(app.entries().is_empty());
    assert_eq!(app.entry_idx(), 0);
}
