use vstd::prelude::*;
use crate::time::UtcTime;

verus! {

/// The text of an optional string.
pub open spec fn opt_text(o: Option<String>) -> Option<Seq<char>> {
    match o {
        Some(s) => Some(s@),
        None => None,
    }
}

/// The text of an optional string slice.
pub open spec fn opt_str_text(o: Option<&str>) -> Option<Seq<char>> {
    match o {
        Some(s) => Some(s@),
        None => None,
    }
}

/// A copy of an optional string.
pub fn clone_opt(o: &Option<String>) -> (r: Option<String>)
    ensures
        opt_text(r) == opt_text(*o),
{
    match o {
        Some(s) => Some(s.clone()),
        None => None,
    }
}

/// An owned copy of an optional string slice.
pub fn own_opt(o: Option<&str>) -> (r: Option<String>)
    ensures
        opt_text(r) == opt_str_text(o),
{
    match o {
        Some(s) => Some(s.to_string()),
        None => None,
    }
}

/// An active feed as the reader shows it.
#[derive(Debug, Clone)]
pub struct Feed {
    pub id: i64,
    pub title: String,
    pub site_url: Option<String>,
    pub feed_url: String,
    pub last_checked_at: Option<UtcTime>,
}

/// The plain content of a `Feed`.
pub struct FeedView {
    pub id: i64,
    pub title: Seq<char>,
    pub site_url: Option<Seq<char>>,
    pub feed_url: Seq<char>,
    pub last_checked_at: Option<UtcTime>,
}

impl View for Feed {
    type V = FeedView;

    open spec fn view(&self) -> FeedView {
        FeedView {
            id: self.id,
            title: self.title@,
            site_url: opt_text(self.site_url),
            feed_url: self.feed_url@,
            last_checked_at: self.last_checked_at,
        }
    }
}

/// An entry of a feed as the reader shows it, with its read, starred and hidden state.
#[derive(Debug, Clone)]
pub struct Entry {
    pub id: i64,
    pub title: String,
    pub author: Option<String>,
    pub url: Option<String>,
    pub published_at: Option<UtcTime>,
    pub summary: Option<String>,
    pub content: Option<String>,
    pub is_read: bool,
    pub is_starred: bool,
    pub is_hidden: bool,
}

/// The plain content of an `Entry`.
pub struct EntryView {
    pub id: i64,
    pub title: Seq<char>,
    pub author: Option<Seq<char>>,
    pub url: Option<Seq<char>>,
    pub published_at: Option<UtcTime>,
    pub summary: Option<Seq<char>>,
    pub content: Option<Seq<char>>,
    pub is_read: bool,
    pub is_starred: bool,
    pub is_hidden: bool,
}

impl View for Entry {
    type V = EntryView;

    open spec fn view(&self) -> EntryView {
        EntryView {
            id: self.id,
            title: self.title@,
            author: opt_text(self.author),
            url: opt_text(self.url),
            published_at: self.published_at,
            summary: opt_text(self.summary),
            content: opt_text(self.content),
            is_read: self.is_read,
            is_starred: self.is_starred,
            is_hidden: self.is_hidden,
        }
    }
}

/// The three panes of the reader's main screen.
#[derive(Debug, Clone, Copy, PartialEq, Eq, Structural)]
pub enum Pane {
    Feeds,
    Entries,
    Preview,
}

} // verus!
