use feedy::model::{Entry, Feed};
use feedy::screen::{
    about_lines, add_feed_box_lines, bottom_bar_area, centered_rect, entry_label, feed_label, help_lines, preview_body,
    preview_header, rendered_or_raw, Area,
};
use feedy::time::UtcTime;

fn entry() -> Entry {
    Entry {
        id: 1,
        title: "Post".to_string(),
        author: Some("Ann".to_string()),
        url: None,
        published_at: Some(UtcTime { secs: 1704164645, nanos: 0 }),
        summary: Some("summary".to_string()),
        content: Some("<p>Hello <b>world</b></p>".to_string()),
        is_read: false,
        is_starred: true,
        is_hidden: false,
    }
}

#[test]
fn feed_labels() {
    let mut f = Feed {
        id: 1,
        title: "Blog".to_string(),
        site_url: None,
        feed_url: "https://b/".to_string(),
        last_checked_at: None,
    };
    assert_eq!(feed_label(&f), "Blog (-)");
    f.last_checked_at = Some(UtcTime { secs: 1704164645, nanos: 0 });
    assert_eq!(feed_label(&f), "Blog (01-02 03:04)");
}

#[test]
fn entry_labels() {
    let mut e = entry();
    assert_eq!(entry_label(&e), "[US ] Post");
    e.is_read = true;
    e.is_starred = false;
    e.is_hidden = true;
    assert_eq!(entry_label(&e), "[  H] Post");
}

#[test]
fn preview_of_entry() {
    let e = entry();
    assert_eq!(
        preview_header(&e),
        vec!["Post".to_string(), "by Ann".to_string(), "2024-01-02T03:04:05+00:00".to_string(), String::new()]
    );
    let body = preview_body(&e);
    assert!(body.contains("Hello"));
    assert!(body.contains("world"));
    assert!(!body.contains("<p>"));
    let mut bare = entry();
    bare.content = None;
    bare.summary = None;
    bare.author = None;
    bare.published_at = None;
    assert_eq!(preview_header(&bare), vec!["Post".to_string(), String::new()]);
    assert!(preview_body(&bare).contains("(no content)"));
}

#[test]
fn raw_text_when_rendering_fails() {
    assert_eq!(rendered_or_raw("<b>x</b>", None), "<b>x</b>");
    assert_eq!(rendered_or_raw("<b>x</b>", Some("x".to_string())), "x");
}

#[test]
fn page_texts() {
    let help = help_lines();
    assert_eq!(help.len(), 46);
    assert_eq!(help[0], "Help / Cheat Sheet");
    assert_eq!(help[45], ":q or :quit   quit app");
    let about = about_lines();
    assert_eq!(about.len(), 8);
    assert_eq!(about[0], "About feedy");
    assert_eq!(
        add_feed_box_lines("https://x"),
        vec!["Enter feed URL and press Enter".to_string(), "Esc to cancel".to_string(), String::new(), "https://x".to_string()]
    );
}

#[test]
fn layout_areas() {
    let r = Area { x: 0, y: 0, width: 100, height: 50 };
    assert_eq!(bottom_bar_area(r), Area { x: 0, y: 48, width: 100, height: 2 });
    assert_eq!(bottom_bar_area(Area { x: 3, y: 4, width: 10, height: 1 }), Area { x: 3, y: 4, width: 10, height: 2 });
    assert_eq!(centered_rect(70, 20, r), Area { x: 15, y: 20, width: 70, height: 10 });
    assert_eq!(bottom_bar_area(Area { x: 0, y: 65534, width: 5, height: 1 }), Area { x: 0, y: 65534, width: 5, height: 2 });
}
