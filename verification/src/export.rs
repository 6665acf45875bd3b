use vstd::prelude::*;
use crate::db::{Database, DbError};
use crate::model::{Entry, EntryView};
use crate::time::{opt_valid, rfc3339_text, to_rfc3339};

verus! {

/// The body the reader shows for an entry: its content, else its summary, else "(no content)".
pub open spec fn entry_body(e: EntryView) -> Seq<char> {
    match e.content {
        Some(c) => c,
        None => match e.summary {
            Some(s) => s,
            None => "(no content)"@,
        },
    }
}

/// The title line of an entry's section.
pub open spec fn md_title(e: EntryView) -> Seq<char> {
    "## "@ + e.title + "\n"@
}

/// The link line of an entry's section, when it has a link.
pub open spec fn md_link(e: EntryView) -> Seq<char> {
    match e.url {
        Some(u) => "Link: "@ + u + "\n"@,
        None => Seq::<char>::empty(),
    }
}

/// The publication line of an entry's section, when it has a publication time.
pub open spec fn md_published(e: EntryView) -> Seq<char> {
    match e.published_at {
        Some(t) => "Published: "@ + rfc3339_text(t.secs, t.nanos) + "\n"@,
        None => Seq::<char>::empty(),
    }
}

/// The state line of an entry's section, with the blank line after it.
pub open spec fn md_state(e: EntryView) -> Seq<char> {
    "State: "@ + (if e.is_read { "read"@ } else { "unread"@ }) + ", "@ + (if e.is_starred {
        "starred"@
    } else {
        "not-starred"@
    }) + ", "@ + (if e.is_hidden { "hidden"@ } else { "visible"@ }) + "\n\n"@
}

/// The Markdown section of one entry: title, link, publication time, state, body, rule.
pub open spec fn entry_markdown(e: EntryView) -> Seq<char> {
    md_title(e) + md_link(e) + md_published(e) + md_state(e) + entry_body(e) + "\n\n---\n\n"@
}

/// The sections of the entries, one after another.
pub open spec fn sections(v: Seq<EntryView>) -> Seq<char>
    decreases v.len(),
{
    if v.len() == 0 {
        Seq::empty()
    } else {
        sections(v.drop_last()) + entry_markdown(v.last())
    }
}

/// The Markdown export of the entries: a heading, then a section per entry.
pub open spec fn news_markdown(v: Seq<EntryView>) -> Seq<char> {
    "# feedy export\n\n"@ + sections(v)
}

/// Appends the title line of `e`.
fn push_title(out: &mut String, e: &Entry)
    ensures
        final(out)@ == old(out)@ + md_title(e@),
{
    out.append("## ");
    out.append(e.title.as_str());
    out.append("\n");
    assert(final(out)@ =~= old(out)@ + md_title(e@));
}

/// Appends the link line of `e`, if it has a link.
fn push_link(out: &mut String, e: &Entry)
    ensures
        final(out)@ == old(out)@ + md_link(e@),
{
    match &e.url {
        Some(u) => {
            out.append("Link: ");
            out.append(u.as_str());
            out.append("\n");
            assert(final(out)@ =~= old(out)@ + md_link(e@));
        },
        None => {
            assert(old(out)@ + md_link(e@) =~= old(out)@);
        },
    }
}

/// Appends the publication line of `e`, if it has a publication time.
fn push_published(out: &mut String, e: &Entry)
    requires
        opt_valid(e.published_at),
    ensures
        final(out)@ == old(out)@ + md_published(e@),
{
    match e.published_at {
        Some(t) => {
            out.append("Published: ");
            out.append(to_rfc3339(t).as_str());
            out.append("\n");
            assert(final(out)@ =~= old(out)@ + md_published(e@));
        },
        None => {
            assert(old(out)@ + md_published(e@) =~= old(out)@);
        },
    }
}

/// Appends the state line of `e` and the blank line after it.
fn push_state(out: &mut String, e: &Entry)
    ensures
        final(out)@ == old(out)@ + md_state(e@),
{
    out.append("State: ");
    out.append(if e.is_read { "read" } else { "unread" });
    out.append(", ");
    out.append(if e.is_starred { "starred" } else { "not-starred" });
    out.append(", ");
    out.append(if e.is_hidden { "hidden" } else { "visible" });
    out.append("\n\n");
    assert(final(out)@ =~= old(out)@ + md_state(e@));
}

/// Appends the body of `e` and the rule after it.
fn push_body(out: &mut String, e: &Entry)
    ensures
        final(out)@ == old(out)@ + entry_body(e@) + "\n\n---\n\n"@,
{
    let body: &str = match &e.content {
        Some(c) => c.as_str(),
        None => match &e.summary {
            Some(s) => s.as_str(),
            None => "(no content)",
        },
    };
    out.append(body);
    out.append("\n\n---\n\n");
}

/// Appends the Markdown section of `e` to `out`.
fn push_entry_markdown(out: &mut String, e: &Entry)
    requires
        opt_valid(e.published_at),
    ensures
        final(out)@ == old(out)@ + entry_markdown(e@),
{
    push_title(out, e);
    push_link(out, e);
    push_published(out, e);
    push_state(out, e);
    push_body(out, e);
    assert(final(out)@ =~= old(out)@ + entry_markdown(e@));
}

/// The Markdown export of the entries.
pub fn render_news_markdown(entries: &Vec<Entry>) -> (md: String)
    requires
        forall|i: int| 0 <= i < entries@.len() ==> opt_valid((#[trigger] entries@[i]).published_at),
    ensures
        md@ == news_markdown(entries@.map_values(|e: Entry| e@)),
{
    let ghost v = entries@.map_values(|e: Entry| e@);
    let mut out = String::new();
    out.append("# feedy export\n\n");
    let n = entries.len();
    let mut i: usize = 0;
    while i < n
        invariant
            n == entries@.len(),
            v == entries@.map_values(|e: Entry| e@),
            forall|i: int| 0 <= i < entries@.len() ==> opt_valid((#[trigger] entries@[i]).published_at),
            0 <= i <= n,
            out@ == "# feedy export\n\n"@ + sections(v.take(i as int)),
        decreases n - i,
    {
        push_entry_markdown(&mut out, &entries[i]);
        proof {
            assert(v.take(i + 1).drop_last() =~= v.take(i as int));
            assert(v.take(i + 1).last() == entries@[i as int]@);
        }
        i = i + 1;
    }
    assert(v.take(n as int) =~= v);
    out
}

/// The Markdown export of the entries that `list_entries` gives for the feed `feed_id` (all
/// feeds when none), read or not, starred or not, hidden ones only when `include_hidden`; and
/// how many entries it holds.
pub fn export_news_markdown(db: &Database, feed_id: Option<i64>, include_hidden: bool) -> (r: Result<
    (String, usize),
    DbError,
>)
    requires
        db.wf(),
    ensures
        r matches Ok((md, count)) && exists|v: Seq<EntryView>|
            db@.is_entry_listing(v, feed_id, false, false, include_hidden) && md@ == news_markdown(v) && count
                == v.len(),
{
    let entries = match db.list_entries(feed_id, false, false, include_hidden) {
        Ok(v) => v,
        Err(e) => return Err(e),
    };
    let md = render_news_markdown(&entries);
    let count = entries.len();
    Ok((md, count))
}

} // verus!
