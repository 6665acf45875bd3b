use vstd::prelude::*;
use crate::model::{opt_text, Entry, EntryView, Feed, FeedView};
use crate::export::entry_body;
use crate::text::concat;
use crate::time::{month_day_time_text, opt_valid, rfc3339_text, to_month_day_time, to_rfc3339};
use ratatui::layout::{Constraint, Direction, Layout, Rect};

verus! {

/// The width, in columns, that an entry's HTML is rendered to for the preview.
pub const PREVIEW_WIDTH: usize = 120;

/// A rectangle of the terminal, in cells.
#[derive(Debug, Clone, Copy, PartialEq, Eq, Structural)]
pub struct Area {
    pub x: u16,
    pub y: u16,
    pub width: u16,
    pub height: u16,
}

impl View for Area {
    type V = (u16, u16, u16, u16);

    open spec fn view(&self) -> (u16, u16, u16, u16) {
        (self.x, self.y, self.width, self.height)
    }
}

/// What the feeds pane shows for a feed: its title and when it was last checked (month, day,
/// hour and minute), or '-' when never.
pub open spec fn feed_label_spec(f: FeedView) -> Seq<char> {
    f.title + " ("@ + match f.last_checked_at {
        Some(t) => month_day_time_text(t.secs, t.nanos),
        None => "-"@,
    } + ")"@
}

/// The label of a feed in the feeds pane.
pub fn feed_label(f: &Feed) -> (r: String)
    requires
        opt_valid(f.last_checked_at),
    ensures
        r@ == feed_label_spec(f@),
{
    let checked = match f.last_checked_at {
        Some(t) => to_month_day_time(t),
        None => "-".to_string(),
    };
    let mut s = concat(f.title.as_str(), " (");
    s.append(checked.as_str());
    s.append(")");
    s
}

/// What the entries pane shows for an entry: three marks in brackets ('U' when unread, 'S' when
/// starred, 'H' when hidden, a space otherwise), a space and the title.
pub open spec fn entry_label_spec(e: EntryView) -> Seq<char> {
    "["@ + (if e.is_read { " "@ } else { "U"@ }) + (if e.is_starred { "S"@ } else { " "@ }) + (if e.is_hidden {
        "H"@
    } else {
        " "@
    }) + "] "@ + e.title
}

/// The label of an entry in the entries pane.
pub fn entry_label(e: &Entry) -> (r: String)
    ensures
        r@ == entry_label_spec(e@),
{
    let mut s = "[".to_string();
    s.append(if e.is_read { " " } else { "U" });
    s.append(if e.is_starred { "S" } else { " " });
    s.append(if e.is_hidden { "H" } else { " " });
    s.append("] ");
    s.append(e.title.as_str());
    s
}

/// What `html2text::from_read` makes of the HTML `html` wrapped to `width` columns, or `None`
/// when it fails.
pub uninterp spec fn html_text(html: Seq<char>, width: usize) -> Option<Seq<char>>;

/// `html2text::from_read` on the bytes of `html` at `width` columns: the text, or `None` when it
/// reports an error. It refuses a width of 0.
#[verifier::external_body]
fn html_to_text(html: &str, width: usize) -> (r: Option<String>)
    ensures
        opt_text(r) == html_text(html@, width),
        width == 0 ==> r is None,
{
    html2text::from_read(html.as_bytes(), width).ok()
}

/// The rendered text when there is one, else the raw text.
pub fn rendered_or_raw(raw: &str, rendered: Option<String>) -> (r: String)
    ensures
        r@ == match opt_text(rendered) {
            Some(t) => t,
            None => raw@,
        },
{
    match rendered {
        Some(t) => t,
        None => raw.to_string(),
    }
}

/// The body of the preview: the entry's text rendered from HTML at the preview width, or the raw
/// text when rendering fails.
pub fn preview_body(e: &Entry) -> (r: String)
    ensures
        r@ == match html_text(entry_body(e@), PREVIEW_WIDTH) {
            Some(t) => t,
            None => entry_body(e@),
        },
{
    let raw: &str = match &e.content {
        Some(c) => c.as_str(),
        None => match &e.summary {
            Some(s) => s.as_str(),
            None => "(no content)",
        },
    };
    let rendered = html_to_text(raw, PREVIEW_WIDTH);
    rendered_or_raw(raw, rendered)
}

/// The lines above the preview body: the title, "by " and the author when known, the published
/// time (RFC 3339) when known, and an empty line.
pub open spec fn preview_header_spec(e: EntryView) -> Seq<Seq<char>> {
    seq![e.title] + match e.author {
        Some(a) => seq!["by "@ + a],
        None => Seq::empty(),
    } + match e.published_at {
        Some(t) => seq![rfc3339_text(t.secs, t.nanos)],
        None => Seq::empty(),
    } + seq![""@]
}

/// The lines above the preview body of an entry.
pub fn preview_header(e: &Entry) -> (r: Vec<String>)
    requires
        opt_valid(e.published_at),
    ensures
        r@.map_values(|s: String| s@) == preview_header_spec(e@),
{
    let mut v: Vec<String> = Vec::new();
    v.push(e.title.clone());
    let ghost a = v@.map_values(|s: String| s@);
    match &e.author {
        Some(a) => v.push(concat("by ", a.as_str())),
        None => {},
    }
    let ghost b = v@.map_values(|s: String| s@);
    match e.published_at {
        Some(t) => v.push(to_rfc3339(t)),
        None => {},
    }
    let ghost c = v@.map_values(|s: String| s@);
    v.push("".to_string());
    proof {
        assert(a =~= seq![e@.title]);
        assert(b =~= a + match e@.author {
            Some(x) => seq!["by "@ + x],
            None => Seq::<Seq<char>>::empty(),
        });
        assert(c =~= b + match e@.published_at {
            Some(t) => seq![rfc3339_text(t.secs, t.nanos)],
            None => Seq::<Seq<char>>::empty(),
        });
        assert(v@.map_values(|s: String| s@) =~= c + seq![""@]);
    }
    v
}

/// The lines of the add-feed box: what to do, and what has been typed.
pub open spec fn add_feed_box_spec(input: Seq<char>) -> Seq<Seq<char>> {
    seq!["Enter feed URL and press Enter"@, "Esc to cancel"@, ""@, input]
}

/// The lines of the add-feed box around the text typed so far.
pub fn add_feed_box_lines(input: &str) -> (r: Vec<String>)
    ensures
        r@.map_values(|s: String| s@) == add_feed_box_spec(input@),
{
    let mut v: Vec<String> = Vec::new();
    v.push("Enter feed URL and press Enter".to_string());
    v.push("Esc to cancel".to_string());
    v.push("".to_string());
    v.push(input.to_string());
    assert(v@.map_values(|s: String| s@) =~= add_feed_box_spec(input@));
    v
}

/// The two rows at the bottom of `r` (the command line over the help and about pages).
pub open spec fn bottom_bar_spec(r: Area) -> Area {
    Area {
        x: r.x,
        y: (r.y + if r.height >= 2 { r.height - 2 } else { 0 }) as u16,
        width: r.width,
        height: 2,
    }
}

/// The two rows at the bottom of `r`.
pub fn bottom_bar_area(r: Area) -> (b: Area)
    requires
        r.y + (if r.height >= 2 { r.height - 2 } else { 0 }) <= u16::MAX,
    ensures
        b == bottom_bar_spec(r),
{
    Area { x: r.x, y: r.y + r.height.saturating_sub(2), width: r.width, height: 2 }
}

/// What ratatui's `Layout::areas` gives when it splits `area` (vertically, else horizontally)
/// into three parts by the percentages `p0`, `p1`, `p2`.
pub uninterp spec fn percent_split(area: (u16, u16, u16, u16), vertical: bool, p0: u16, p1: u16, p2: u16) -> (
    (u16, u16, u16, u16),
    (u16, u16, u16, u16),
    (u16, u16, u16, u16),
);

/// `Layout::default().direction(..).constraints([Percentage(p0), Percentage(p1),
/// Percentage(p2)]).areas(area)` of ratatui: the three parts, as its layout solver computes them.
#[verifier::external_body]
fn split_percent(area: Area, vertical: bool, p0: u16, p1: u16, p2: u16) -> (r: (Area, Area, Area))
    ensures
        (r.0@, r.1@, r.2@) == percent_split(area@, vertical, p0, p1, p2),
{
    let rect = Rect { x: area.x, y: area.y, width: area.width, height: area.height };
    let direction = if vertical { Direction::Vertical } else { Direction::Horizontal };
    let [a, b, c] = Layout::default().direction(direction).constraints(
        [Constraint::Percentage(p0), Constraint::Percentage(p1), Constraint::Percentage(p2)],
    ).areas(rect);
    (
        Area { x: a.x, y: a.y, width: a.width, height: a.height },
        Area { x: b.x, y: b.y, width: b.width, height: b.height },
        Area { x: c.x, y: c.y, width: c.width, height: c.height },
    )
}

/// The box `percent_x` wide and `percent_y` high (in percent of `r`) in the middle of `r`: the
/// middle row of a vertical split, then the middle column of that.
pub open spec fn centered_spec(percent_x: u16, percent_y: u16, r: Area) -> (u16, u16, u16, u16) {
    let side_y = ((100 - percent_y) / 2) as u16;
    let side_x = ((100 - percent_x) / 2) as u16;
    let row = percent_split(r@, true, side_y, percent_y, side_y).1;
    percent_split(row, false, side_x, percent_x, side_x).1
}

/// A box of the given size (in percent) centered in `r`.
pub fn centered_rect(percent_x: u16, percent_y: u16, r: Area) -> (c: Area)
    requires
        percent_x <= 100,
        percent_y <= 100,
    ensures
        c@ == centered_spec(percent_x, percent_y, r),
{
    let side_y = (100 - percent_y) / 2;
    let (_, row, _) = split_percent(r, true, side_y, percent_y, side_y);
    let side_x = (100 - percent_x) / 2;
    let (_, mid, _) = split_percent(row, false, side_x, percent_x, side_x);
    mid
}

/// The lines of the help page, a cheat sheet of the keys and commands; the first is its title.
pub open spec fn help_text() -> Seq<Seq<char>> {
    seq![
        "Help / Cheat Sheet"@,
        ""@,
        "Global"@,
        "q             quit app"@,
        "?             open help page"@,
        ":             open command line"@,
        "Esc           close help/about or cancel input"@,
        ""@,
        "Main view"@,
        "j or Down     move down in focused pane"@,
        "k or Up       move up in focused pane"@,
        "h or Left     focus previous pane"@,
        "l or Right    focus next pane"@,
        "gg            jump to top"@,
        "G             jump to bottom"@,
        "PageDown      scroll preview down"@,
        "PageUp        scroll preview up"@,
        ""@,
        "Feed and sync"@,
        "a             add feed URL in modal"@,
        "D             delete selected feed"@,
        "r             refresh current feed"@,
        "R             refresh all feeds"@,
        "o             open selected entry URL"@,
        ""@,
        "Entry state and filters"@,
        "m             toggle read"@,
        "s             toggle starred"@,
        "x             toggle hidden"@,
        "H             toggle show hidden entries"@,
        "u             toggle unread-only filter"@,
        "f             toggle starred-only filter"@,
        ""@,
        "Hidden recovery"@,
        "H -> select hidden entry -> x"@,
        ""@,
        "Command mode"@,
        ":help         open help page"@,
        ":about        open about page"@,
        ":main         return to main page"@,
        ":refresh      refresh all feeds"@,
        ":deletefeed   delete selected feed"@,
        ":hidden       toggle show hidden entries"@,
        ":unread       toggle unread-only filter"@,
        ":starred      toggle starred-only filter"@,
        ":q or :quit   quit app"@,
    ]
}

/// The lines of the help page.
pub fn help_lines() -> (r: Vec<String>)
    ensures
        r@.map_values(|s: String| s@) == help_text(),
{
    let mut v: Vec<String> = Vec::new();
    v.push("Help / Cheat Sheet".to_string());
    v.push("".to_string());
    v.push("Global".to_string());
    v.push("q             quit app".to_string());
    v.push("?             open help page".to_string());
    v.push(":             open command line".to_string());
    v.push("Esc           close help/about or cancel input".to_string());
    v.push("".to_string());
    v.push("Main view".to_string());
    v.push("j or Down     move down in focused pane".to_string());
    v.push("k or Up       move up in focused pane".to_string());
    v.push("h or Left     focus previous pane".to_string());
    v.push("l or Right    focus next pane".to_string());
    v.push("gg            jump to top".to_string());
    v.push("G             jump to bottom".to_string());
    v.push("PageDown      scroll preview down".to_string());
    v.push("PageUp        scroll preview up".to_string());
    v.push("".to_string());
    v.push("Feed and sync".to_string());
    v.push("a             add feed URL in modal".to_string());
    v.push("D             delete selected feed".to_string());
    v.push("r             refresh current feed".to_string());
    v.push("R             refresh all feeds".to_string());
    v.push("o             open selected entry URL".to_string());
    v.push("".to_string());
    v.push("Entry state and filters".to_string());
    v.push("m             toggle read".to_string());
    v.push("s             toggle starred".to_string());
    v.push("x             toggle hidden".to_string());
    v.push("H             toggle show hidden entries".to_string());
    v.push("u             toggle unread-only filter".to_string());
    v.push("f             toggle starred-only filter".to_string());
    v.push("".to_string());
    v.push("Hidden recovery".to_string());
    v.push("H -> select hidden entry -> x".to_string());
    v.push("".to_string());
    v.push("Command mode".to_string());
    v.push(":help         open help page".to_string());
    v.push(":about        open about page".to_string());
    v.push(":main         return to main page".to_string());
    v.push(":refresh      refresh all feeds".to_string());
    v.push(":deletefeed   delete selected feed".to_string());
    v.push(":hidden       toggle show hidden entries".to_string());
    v.push(":unread       toggle unread-only filter".to_string());
    v.push(":starred      toggle starred-only filter".to_string());
    v.push(":q or :quit   quit app".to_string());
    assert(v@.map_values(|s: String| s@) =~= help_text());
    v
}

/// The lines of the about page; the first is its title.
pub open spec fn about_text() -> Seq<Seq<char>> {
    seq![
        "About feedy"@,
        ""@,
        "feedy is a local-first terminal feed reader."@,
        "It supports RSS and Atom, SQLite persistence, read/star/hide state,"@,
        "OPML import/export, and keyboard-first workflows."@,
        ""@,
        "Use :help to open the cheat sheet."@,
        "Esc or q returns to main."@,
    ]
}

/// The lines of the about page.
pub fn about_lines() -> (r: Vec<String>)
    ensures
        r@.map_values(|s: String| s@) == about_text(),
{
    let mut v: Vec<String> = Vec::new();
    v.push("About feedy".to_string());
    v.push("".to_string());
    v.push("feedy is a local-first terminal feed reader.".to_string());
    v.push("It supports RSS and Atom, SQLite persistence, read/star/hide state,".to_string());
    v.push("OPML import/export, and keyboard-first workflows.".to_string());
    v.push("".to_string());
    v.push("Use :help to open the cheat sheet.".to_string());
    v.push("Esc or q returns to main.".to_string());
    assert(v@.map_values(|s: String| s@) =~= about_text());
    v
}

} // verus!
