use vstd::prelude::*;
use crate::db::{
    lemma_entry_id_index, lemma_entry_key_index, lemma_entry_push_wf, lemma_entry_update_wf, lemma_feed_id_index,
    lemma_feed_update_wf, lemma_feed_url_index, lemma_state_index, lemma_state_insert_wf, lemma_state_pos, lemma_state_update_wf, lemma_upsert_feed_wf,
    outside_feed, DbState, EntryStateRow, NewEntryView,
};
use crate::model::{EntryView, FeedView, Pane};
use crate::opml::{feed_outline, import_outline, import_outlines_spec, OutlineView};
use crate::export::{entry_body, entry_markdown, md_link, md_published, md_state, md_title};
use crate::screen::{html_text, PREVIEW_WIDTH};
use crate::validation::{validate_feed_url_spec, UrlErrorKind};
use crate::text::{all_white_space, int_decimal, lemma_trim_surrounded, law_parse_int_decimal, parse_i64_spec};
use crate::time::{rfc3339_text, sql_timestamp_text};
use crate::time::UtcTime;
use crate::sync::{item_entry, store_items, ParsedItemView};
use crate::text::trim_spec;
use crate::tui::{clamp_index, pane_after, pane_before, AppView, InputMode, Key, RequestView, Screen};

verus! {

/// With the state rows in increasing order of entry id and none for `entry_id`, there is a place
/// where a row for `entry_id` keeps that order.
pub proof fn lemma_state_pos_exists(s: DbState, entry_id: i64)
    requires
        forall|i: int, j: int|
            0 <= i < j < s.states.len() ==> #[trigger] s.states[i].entry_id < #[trigger] s.states[j].entry_id,
        forall|i: int| 0 <= i < s.states.len() ==> #[trigger] s.states[i].entry_id != entry_id,
    ensures
        s.is_state_pos(s.state_insert_pos(entry_id), entry_id),
    decreases s.states.len(),
{
    let n = s.states.len() as int;
    if n == 0 {
        lemma_state_pos(s, 0, entry_id);
    } else if s.states[n - 1].entry_id < entry_id {
        assert forall|k: int| 0 <= k < n implies #[trigger] s.states[k].entry_id < entry_id by {
            if k < n - 1 {
                assert(s.states[k].entry_id < s.states[n - 1].entry_id);
            }
        }
        lemma_state_pos(s, n, entry_id);
    } else {
        let t = DbState { states: s.states.drop_last(), ..s };
        assert forall|i: int, j: int| 0 <= i < j < t.states.len() implies #[trigger] t.states[i].entry_id
            < #[trigger] t.states[j].entry_id by {
            assert(s.states[i].entry_id < s.states[j].entry_id);
        }
        assert forall|i: int| 0 <= i < t.states.len() implies #[trigger] t.states[i].entry_id != entry_id by {
            assert(s.states[i].entry_id != entry_id);
        }
        lemma_state_pos_exists(t, entry_id);
        let p = t.state_insert_pos(entry_id);
        assert(t.is_state_pos(p, entry_id));
        assert(s.states[n - 1].entry_id > entry_id);
        assert forall|k: int| 0 <= k < p implies #[trigger] s.states[k].entry_id < entry_id by {
            assert(t.states[k].entry_id < entry_id);
        }
        assert forall|k: int| p <= k < n implies #[trigger] s.states[k].entry_id > entry_id by {
            if k < n - 1 {
                assert(t.states[k].entry_id > entry_id);
            }
        }
        lemma_state_pos(s, p, entry_id);
    }
}

/// Giving an existing entry its state row keeps the schema's constraints, and the row is then
/// found by the entry's id.
pub proof fn lemma_with_state(s: DbState, entry_id: i64)
    requires
        s.wf(),
        s.has_entry(entry_id),
    ensures
        s.with_state(entry_id).wf(),
        s.with_state(entry_id).state_index(entry_id) >= 0,
        s.with_state(entry_id).feeds == s.feeds,
        s.with_state(entry_id).entries == s.entries,
{
    if s.state_index(entry_id) >= 0 {
        let k = s.state_index(entry_id);
        assert(s.states[k].entry_id == entry_id);
    } else {
        assert forall|i: int| 0 <= i < s.states.len() implies #[trigger] s.states[i].entry_id != entry_id by {
            if s.states[i].entry_id == entry_id {
                assert(s.states[i].entry_id == entry_id);
            }
        }
        lemma_state_pos_exists(s, entry_id);
        let st = EntryStateRow { entry_id: entry_id, is_read: false, is_starred: false, read_at: None, starred_at: None };
        lemma_state_insert_wf(s, st);
        let t = s.with_state(entry_id);
        let p = s.state_insert_pos(entry_id);
        assert(t.states[p].entry_id == entry_id);
        lemma_state_index(t, p);
    }
}

/// `upsert_entry` keeps the schema's constraints; when it succeeds, the entry it names is the
/// one of its feed and key.
pub proof fn lemma_upsert_entry_wf(s: DbState, e: NewEntryView, now: UtcTime)
    requires
        s.wf(),
    ensures
        s.upsert_entry(e, now).0.wf(),
        s.upsert_entry(e, now).0.feeds == s.feeds,
        s.upsert_entry(e, now).1 matches Ok(id) ==> {
            let t = s.upsert_entry(e, now).0;
            let j = t.entry_key_index(e.feed_id, e.key);
            &&& j >= 0
            &&& t.entries[j].id == id
            &&& t.entries[j].feed_id == e.feed_id
            &&& t.entries[j].title == e.title
        },
{
    if s.has_feed(e.feed_id) {
        let i = s.entry_key_index(e.feed_id, e.key);
        if i >= 0 {
            let old = s.entries[i];
            let row = s.upsert_entry(e, now).0.entries[i];
            lemma_entry_update_wf(s, i, row);
            let u = DbState { entries: s.entries.update(i, row), ..s };
            assert(u.entries[i].id == old.id);
            assert(u.has_entry(old.id));
            lemma_with_state(u, old.id);
            let t = u.with_state(old.id);
            assert(t.entries[i].feed_id == e.feed_id && t.entries[i].key == e.key);
            lemma_entry_key_index(t, i);
        } else if s.next_entry_id() <= i64::MAX {
            let id = s.next_entry_id() as i64;
            let n = s.entries.len();
            let u0 = s.upsert_entry(e, now).0;
            let row = u0.entries[n as int];
            lemma_entry_push_wf(s, row);
            let u = DbState { entries: s.entries.push(row), ..s };
            assert(u.entries[n as int].id == id);
            assert(u.has_entry(id));
            lemma_with_state(u, id);
            let t = u.with_state(id);
            assert(t.entries[n as int].feed_id == e.feed_id && t.entries[n as int].key == e.key);
            lemma_entry_key_index(t, n as int);
        }
    }
}

/// Storing a feed twice under one URL keeps one row: the second call gives the first one's id
/// and adds nothing.
pub proof fn law_upsert_feed_same_url(
    s: DbState,
    title1: Seq<char>,
    site1: Option<Seq<char>>,
    title2: Seq<char>,
    site2: Option<Seq<char>>,
    url: Seq<char>,
)
    requires
        s.wf(),
        s.upsert_feed(title1, site1, url).1 is Ok,
    ensures
        ({
            let (s1, r1) = s.upsert_feed(title1, site1, url);
            let (s2, r2) = s1.upsert_feed(title2, site2, url);
            &&& r2 == r1
            &&& s2.feeds.len() == s1.feeds.len()
            &&& s2.wf()
        }),
{
    let (s1, r1) = s.upsert_feed(title1, site1, url);
    lemma_upsert_feed_wf(s, title1, site1, url);
    lemma_upsert_feed_wf(s1, title2, site2, url);
    let i = s.feed_url_index(url);
    let j = if i >= 0 { i } else { s.feeds.len() as int };
    assert(s1.feeds[j].feed_url == url);
    lemma_feed_url_index(s1, j);
}

/// Storing an entry twice under one feed and key keeps one row: the second call gives the first
/// one's id and adds no entry.
pub proof fn law_upsert_entry_same_key(s: DbState, e1: NewEntryView, e2: NewEntryView, now1: UtcTime, now2: UtcTime)
    requires
        s.wf(),
        e1.feed_id == e2.feed_id,
        e1.key == e2.key,
        s.upsert_entry(e1, now1).1 is Ok,
    ensures
        ({
            let (s1, r1) = s.upsert_entry(e1, now1);
            let (s2, r2) = s1.upsert_entry(e2, now2);
            &&& r2 == r1
            &&& s2.entries.len() == s1.entries.len()
            &&& s2.wf()
        }),
{
    let (s1, r1) = s.upsert_entry(e1, now1);
    lemma_upsert_entry_wf(s, e1, now1);
    lemma_upsert_entry_wf(s1, e2, now2);
    assert(s.has_feed(e1.feed_id));
    let m = choose|m: int| 0 <= m < s.feeds.len() && #[trigger] s.feeds[m].id == e1.feed_id;
    assert(s1.feeds[m].id == e2.feed_id);
    let j = s1.entry_key_index(e2.feed_id, e2.key);
    assert(s1.entries[j].id == s1.entries[j].id);
    let row = s1.upsert_entry(e2, now2).0.entries[j];
    lemma_entry_update_wf(s1, j, row);
    let u = DbState { entries: s1.entries.update(j, row), ..s1 };
    assert(u.entries[j].id == s1.entries[j].id);
    lemma_with_state(u, s1.entries[j].id);
}

/// Flipping the read mark twice gives the first mark back; each flip succeeds for an existing
/// entry and leaves its star alone.
pub proof fn law_toggle_read_twice(s: DbState, entry_id: i64, now1: UtcTime, now2: UtcTime)
    requires
        s.wf(),
        s.has_entry(entry_id),
    ensures
        ({
            let (s1, r1) = s.toggle_read(entry_id, now1);
            let (s2, r2) = s1.toggle_read(entry_id, now2);
            &&& r1 is Ok && r2 is Ok
            &&& s1.is_read(entry_id) == !s.is_read(entry_id)
            &&& s2.is_read(entry_id) == s.is_read(entry_id)
            &&& s1.is_starred(entry_id) == s.is_starred(entry_id)
            &&& s2.is_starred(entry_id) == s.is_starred(entry_id)
            &&& s2.entries == s.entries
        }),
{
    let (s1, r1) = s.toggle_read(entry_id, now1);
    let k = s.state_index(entry_id);
    let p = if k >= 0 {
        lemma_state_update_wf(s, k, s1.states[k]);
        k
    } else {
        assert forall|i: int| 0 <= i < s.states.len() implies #[trigger] s.states[i].entry_id != entry_id by {
            if s.states[i].entry_id == entry_id {
                assert(s.states[i].entry_id == entry_id);
            }
        }
        lemma_state_pos_exists(s, entry_id);
        lemma_state_insert_wf(s, s1.states[s.state_insert_pos(entry_id)]);
        s.state_insert_pos(entry_id)
    };
    assert(s1.states[p].entry_id == entry_id);
    lemma_state_index(s1, p);
    lemma_state_update_wf(s1, p, s1.toggle_read(entry_id, now2).0.states[p]);
    let s2 = s1.toggle_read(entry_id, now2).0;
    assert(s2.states[p].entry_id == entry_id);
    lemma_state_index(s2, p);
}

/// Flipping the star twice gives the first star back; each flip succeeds for an existing entry
/// and leaves its read mark alone.
pub proof fn law_toggle_star_twice(s: DbState, entry_id: i64, now1: UtcTime, now2: UtcTime)
    requires
        s.wf(),
        s.has_entry(entry_id),
    ensures
        ({
            let (s1, r1) = s.toggle_star(entry_id, now1);
            let (s2, r2) = s1.toggle_star(entry_id, now2);
            &&& r1 is Ok && r2 is Ok
            &&& s1.is_starred(entry_id) == !s.is_starred(entry_id)
            &&& s2.is_starred(entry_id) == s.is_starred(entry_id)
            &&& s1.is_read(entry_id) == s.is_read(entry_id)
            &&& s2.is_read(entry_id) == s.is_read(entry_id)
            &&& s2.entries == s.entries
        }),
{
    let (s1, r1) = s.toggle_star(entry_id, now1);
    let k = s.state_index(entry_id);
    let p = if k >= 0 {
        lemma_state_update_wf(s, k, s1.states[k]);
        k
    } else {
        assert forall|i: int| 0 <= i < s.states.len() implies #[trigger] s.states[i].entry_id != entry_id by {
            if s.states[i].entry_id == entry_id {
                assert(s.states[i].entry_id == entry_id);
            }
        }
        lemma_state_pos_exists(s, entry_id);
        lemma_state_insert_wf(s, s1.states[s.state_insert_pos(entry_id)]);
        s.state_insert_pos(entry_id)
    };
    assert(s1.states[p].entry_id == entry_id);
    lemma_state_index(s1, p);
    lemma_state_update_wf(s1, p, s1.toggle_star(entry_id, now2).0.states[p]);
    let s2 = s1.toggle_star(entry_id, now2).0;
    assert(s2.states[p].entry_id == entry_id);
    lemma_state_index(s2, p);
}

/// Hiding an entry and hiding it again restores the tables exactly (how a hidden entry is
/// brought back).
pub proof fn law_toggle_hidden_twice(s: DbState, entry_id: i64)
    requires
        s.wf(),
    ensures
        s.toggle_hidden(entry_id).toggle_hidden(entry_id) == s,
{
    let i = s.entry_id_index(entry_id);
    if i >= 0 {
        let s1 = s.toggle_hidden(entry_id);
        assert(s.entries[i].id == entry_id);
        assert forall|a: int, b: int| 0 <= a < b < s1.entries.len() implies #[trigger] s1.entries[a].id
            < #[trigger] s1.entries[b].id by {
            assert(s.entries[a].id < s.entries[b].id);
        }
        lemma_entry_id_index(s1, i);
        assert(s1.toggle_hidden(entry_id).entries =~= s.entries);
    }
}

/// Removing a feed keeps its row and its entries but takes it out of the feed list: no list
/// that `all_feeds` can give afterwards holds it.
pub proof fn law_remove_feed_unlists(s: DbState, key: Seq<char>, v: Seq<crate::model::FeedView>)
    requires
        s.wf(),
        s.feed_key_index(key) >= 0,
        s.remove_feed(key).0.is_feed_listing(v),
    ensures
        ({
            let id = s.feeds[s.feed_key_index(key)].id;
            let s1 = s.remove_feed(key).0;
            &&& s.remove_feed(key).1 == 1
            &&& s1.has_feed(id)
            &&& s1.entries == s.entries
            &&& s1.states == s.states
            &&& forall|j: int| 0 <= j < v.len() ==> (#[trigger] v[j]).id != id
        }),
{
    let i = s.feed_key_index(key);
    let id = s.feeds[i].id;
    let s1 = s.remove_feed(key).0;
    assert(s1.feeds[i].id == id);
    assert forall|j: int| 0 <= j < v.len() implies (#[trigger] v[j]).id != id by {
        let k = choose|k: int|
            0 <= k < s1.feeds.len() && s1.feeds[k].is_active && #[trigger] v[j] == crate::db::feed_view_of(
                #[trigger] s1.feeds[k],
            );
        if k < i {
            assert(s.feeds[k].id < s.feeds[i].id);
        } else if k > i {
            assert(s.feeds[i].id < s.feeds[k].id);
        }
    }
}

/// Deleting a feed takes it away with all its entries and their state rows; every other feed,
/// and every entry of another feed, stays.
pub proof fn law_delete_feed_removes(s: DbState, key: Seq<char>)
    requires
        s.wf(),
        s.feed_key_index(key) >= 0,
    ensures
        ({
            let i = s.feed_key_index(key);
            let id = s.feeds[i].id;
            let s1 = s.delete_feed(key).0;
            &&& s.delete_feed(key).1 == 1
            &&& !s1.has_feed(id)
            &&& forall|k: int| 0 <= k < s1.entries.len() ==> (#[trigger] s1.entries[k]).feed_id != id
            &&& forall|k: int| 0 <= k < s1.states.len() ==> !s.entry_in_feed((#[trigger] s1.states[k]).entry_id, id)
            &&& forall|k: int| 0 <= k < s.feeds.len() && k != i ==> s1.has_feed(#[trigger] s.feeds[k].id)
            &&& forall|k: int|
                0 <= k < s.entries.len() && (#[trigger] s.entries[k]).feed_id != id ==> s1.has_entry(s.entries[k].id)
        }),
{
    let i = s.feed_key_index(key);
    let id = s.feeds[i].id;
    let s1 = s.delete_feed(key).0;
    if s1.has_feed(id) {
        let k = choose|k: int| 0 <= k < s1.feeds.len() && #[trigger] s1.feeds[k].id == id;
        if k < i {
            assert(s.feeds[k].id < s.feeds[i].id);
        } else {
            assert(s1.feeds[k] == s.feeds[k + 1]);
            assert(s.feeds[i].id < s.feeds[k + 1].id);
        }
    }
    assert forall|k: int| 0 <= k < s1.entries.len() implies (#[trigger] s1.entries[k]).feed_id != id by {
        s.entries.lemma_filter_pred(outside_feed(id), k);
    }
    assert forall|k: int| 0 <= k < s1.states.len() implies !s.entry_in_feed((#[trigger] s1.states[k]).entry_id, id) by {
        s.states.lemma_filter_pred(s.state_outside_feed(id), k);
    }
    assert forall|k: int| 0 <= k < s.feeds.len() && k != i implies s1.has_feed(#[trigger] s.feeds[k].id) by {
        if k < i {
            assert(s1.feeds[k] == s.feeds[k]);
        } else {
            assert(s1.feeds[k - 1] == s.feeds[k]);
        }
    }
    assert forall|k: int| 0 <= k < s.entries.len() && (#[trigger] s.entries[k]).feed_id != id implies s1.has_entry(
        s.entries[k].id,
    ) by {
        s.entries.lemma_filter_contains(outside_feed(id), k);
        let q = choose|q: int| 0 <= q < s1.entries.len() && s1.entries[q] == s.entries[k];
        assert(s1.entries[q].id == s.entries[k].id);
    }
}

/// An index kept inside a list stays where it is when kept inside again.
pub proof fn lemma_clamp_index_idempotent(i: usize, len: nat)
    ensures
        clamp_index(clamp_index(i, len), len) == clamp_index(i, len),
{
}

/// Moving the focus left and then right (or right and then left) comes back to the same pane,
/// and three moves right go round once.
pub proof fn law_pane_cycle(p: Pane)
    ensures
        pane_after(pane_before(p)) == p,
        pane_before(pane_after(p)) == p,
        pane_after(pane_after(pane_after(p))) == p,
{
}

/// Reloading the entries a second time changes nothing.
pub proof fn law_reload_entries_idempotent(a: AppView)
    ensures
        a.reload_entries().reload_entries() == a.reload_entries(),
{
    let b = a.reload_entries();
    assert(b.selected_feed_id() == a.selected_feed_id());
    lemma_clamp_index_idempotent(a.entry_idx, b.entries.len());
    assert(b.reload_entries() =~= b);
}

/// Reloading everything a second time changes nothing.
pub proof fn law_reload_idempotent(a: AppView)
    ensures
        a.reload().reload() == a.reload(),
{
    let f = a.db.feed_listing();
    let a1 = AppView { feeds: f, feed_idx: clamp_index(a.feed_idx, f.len()), ..a };
    let b = a1.reload_entries();
    lemma_clamp_index_idempotent(a.feed_idx, f.len());
    let b1 = AppView { feeds: f, feed_idx: clamp_index(b.feed_idx, f.len()), ..b };
    assert(b1 =~= b);
    law_reload_entries_idempotent(a1);
}

/// On the main page, 'h' then 'l' (or 'l' then 'h') gives back the same view, with nothing
/// asked of the surroundings.
pub proof fn law_pane_keys_undo(a: AppView, now1: UtcTime, now2: UtcTime)
    requires
        a.input_mode == InputMode::Normal,
        a.screen == Screen::Main,
        !a.g_pending,
    ensures
        ({
            let (a1, r1) = a.handle_key(Key::Char('h'), now1);
            let (a2, r2) = a1.handle_key(Key::Char('l'), now2);
            r1 == Ok::<RequestView, crate::db::DbError>(RequestView::Continue)
                && r2 == Ok::<RequestView, crate::db::DbError>(RequestView::Continue) && a2 == a
        }),
        ({
            let (a1, r1) = a.handle_key(Key::Char('l'), now1);
            let (a2, r2) = a1.handle_key(Key::Char('h'), now2);
            r1 == Ok::<RequestView, crate::db::DbError>(RequestView::Continue)
                && r2 == Ok::<RequestView, crate::db::DbError>(RequestView::Continue) && a2 == a
        }),
{
    law_pane_cycle(a.pane);
    let (a1, r1) = a.handle_key(Key::Char('h'), now1);
    assert(a1.handle_key(Key::Char('l'), now2).0 =~= a);
    let (b1, q1) = a.handle_key(Key::Char('l'), now1);
    assert(b1.handle_key(Key::Char('h'), now2).0 =~= a);
}

/// On the main page, 'g' pressed twice jumps to the top of the focused pane (the first press
/// only marks the 'g' as pending).
pub proof fn law_gg_jumps_to_top(a: AppView, now1: UtcTime, now2: UtcTime)
    requires
        a.input_mode == InputMode::Normal,
        a.screen == Screen::Main,
        !a.g_pending,
    ensures
        ({
            let (a1, r1) = a.handle_key(Key::Char('g'), now1);
            let (a2, r2) = a1.handle_key(Key::Char('g'), now2);
            &&& r1 == Ok::<RequestView, crate::db::DbError>(RequestView::Continue)
            &&& r2 == Ok::<RequestView, crate::db::DbError>(RequestView::Continue)
            &&& a1.g_pending
            &&& a2 == (AppView { g_pending: false, status: "g pending. press g again for top"@, ..a.jump_top() })
        }),
{
    let (a1, r1) = a.handle_key(Key::Char('g'), now1);
    assert(a1 =~= AppView { g_pending: true, status: "g pending. press g again for top"@, ..a });
    let (a2, r2) = a1.handle_key(Key::Char('g'), now2);
    assert(a2 =~= AppView { g_pending: false, status: "g pending. press g again for top"@, ..a.jump_top() });
}

/// Showing hidden entries and hiding them again lists the entries as the filters were, with the
/// status line saying that hidden entries are hidden (or visible) as before; only the selected
/// position may have moved up, when the list in between was shorter.
pub proof fn law_show_hidden_twice(a: AppView)
    ensures
        ({
            let r = a.toggle_show_hidden().toggle_show_hidden();
            r == (AppView {
                status: crate::tui::hidden_status(a.include_hidden),
                entry_idx: r.entry_idx,
                ..a.reload_entries()
            })
        }),
{
    let b = AppView { include_hidden: !a.include_hidden, ..a }.reload_entries();
    let b1 = AppView { status: crate::tui::hidden_status(b.include_hidden), ..b };
    let c = AppView { include_hidden: !b1.include_hidden, ..b1 };
    assert(c.selected_feed_id() == a.selected_feed_id());
    let d = c.reload_entries();
    assert(d.entries == a.reload_entries().entries);
    assert(AppView { status: crate::tui::hidden_status(d.include_hidden), ..d } =~= AppView {
        status: crate::tui::hidden_status(a.include_hidden),
        entry_idx: d.entry_idx,
        ..a.reload_entries()
    });
}

/// On the main page, 'q' quits and changes nothing.
pub proof fn law_q_quits(a: AppView, now: UtcTime)
    requires
        a.input_mode == InputMode::Normal,
        a.screen == Screen::Main,
    ensures
        a.handle_key(Key::Char('q'), now) == (a, Ok::<RequestView, crate::db::DbError>(RequestView::Quit)),
{
}

/// The commands `q` and `quit` quit and change nothing.
pub proof fn law_quit_commands(a: AppView)
    ensures
        a.execute_command("q"@) == (a, RequestView::Quit),
        a.execute_command("quit"@) == (a, RequestView::Quit),
{
}

/// Esc on the command line leaves it: back to normal mode, the line emptied, nothing asked.
pub proof fn law_escape_cancels_command(a: AppView, now: UtcTime)
    requires
        a.input_mode == InputMode::Command,
    ensures
        ({
            let (b, r) = a.handle_key(Key::Esc, now);
            &&& r == Ok::<RequestView, crate::db::DbError>(RequestView::Continue)
            &&& b.input_mode == InputMode::Normal
            &&& b.command_input.len() == 0
            &&& b.db == a.db
        }),
{
}

/// Deleting the selected feed takes that feed (named by its id) out of the database, with all
/// its entries, and says so in the status line.
pub proof fn law_delete_selected_feed(a: AppView)
    requires
        a.db.wf(),
        a.feed_idx < a.feeds.len(),
        a.db.has_feed(a.feeds[a.feed_idx as int].id),
    ensures
        ({
            let f = a.feeds[a.feed_idx as int];
            let b = a.delete_selected_feed();
            &&& !b.db.has_feed(f.id)
            &&& forall|k: int| 0 <= k < b.db.entries.len() ==> (#[trigger] b.db.entries[k]).feed_id != f.id
            &&& b.status == "Deleted feed: "@ + f.title
        }),
{
    let f = a.feeds[a.feed_idx as int];
    law_parse_int_decimal(f.id);
    let key = int_decimal(f.id as int);
    let i = a.db.feed_key_index(key);
    assert(i == a.db.feed_id_index(f.id));
    assert(i >= 0 && a.db.feeds[i].id == f.id);
    law_delete_feed_removes(a.db, key);
}

/// What `upsert_entry` stores is what `list_entries` then shows: every list of the entries of
/// its feed (hidden ones included, no other filter) holds the entry under the returned id, with
/// the new title.
pub proof fn law_upserted_entry_listed(s: DbState, e: NewEntryView, now: UtcTime, v: Seq<crate::model::EntryView>)
    requires
        s.wf(),
        s.upsert_entry(e, now).1 is Ok,
        s.upsert_entry(e, now).0.is_entry_listing(v, Some(e.feed_id), false, false, true),
    ensures
        exists|i: int|
            0 <= i < v.len() && #[trigger] v[i].id == s.upsert_entry(e, now).1->Ok_0 && v[i].title == e.title,
{
    let (t, r) = s.upsert_entry(e, now);
    let id = r->Ok_0;
    lemma_upsert_entry_wf(s, e, now);
    let j = t.entry_key_index(e.feed_id, e.key);
    assert(t.listed_at(j, Some(e.feed_id), false, false, true));
    let i = choose|i: int| 0 <= i < v.len() && #[trigger] v[i].id == t.entries[j].id;
    let k = choose|k: int|
        0 <= k < t.entries.len() && t.entry_listed(t.entries[k], Some(e.feed_id), false, false, true) && #[trigger] v[i]
            == t.entry_view_of(#[trigger] t.entries[k]);
    if k < j {
        assert(t.entries[k].id < t.entries[j].id);
    } else if k > j {
        assert(t.entries[j].id < t.entries[k].id);
    }
}

/// What `upsert_feed` stores is what `all_feeds` then shows: every list of the feeds holds the
/// feed under the returned id, with its title, site and URL.
pub proof fn law_upserted_feed_listed(
    s: DbState,
    title: Seq<char>,
    site: Option<Seq<char>>,
    url: Seq<char>,
    v: Seq<FeedView>,
)
    requires
        s.wf(),
        s.upsert_feed(title, site, url).1 is Ok,
        s.upsert_feed(title, site, url).0.is_feed_listing(v),
    ensures
        exists|i: int|
            0 <= i < v.len() && #[trigger] v[i].id == s.upsert_feed(title, site, url).1->Ok_0 && v[i].title == title
                && v[i].site_url == site && v[i].feed_url == url,
{
    let (t, r) = s.upsert_feed(title, site, url);
    lemma_upsert_feed_wf(s, title, site, url);
    let i0 = s.feed_url_index(url);
    let jj = if i0 >= 0 { i0 } else { s.feeds.len() as int };
    assert(t.feeds[jj].id == r->Ok_0);
    assert(t.active_at(jj));
    let j = choose|j: int| 0 <= j < v.len() && #[trigger] v[j].id == t.feeds[jj].id;
    let k = choose|k: int|
        0 <= k < t.feeds.len() && t.feeds[k].is_active && #[trigger] v[j] == crate::db::feed_view_of(
            #[trigger] t.feeds[k],
        );
    if k < jj {
        assert(t.feeds[k].id < t.feeds[jj].id);
    } else if k > jj {
        assert(t.feeds[jj].id < t.feeds[k].id);
    }
}

/// Whether an active feed has this URL.
pub open spec fn has_active_url(s: DbState, url: Seq<char>) -> bool {
    exists|k: int| 0 <= k < s.feeds.len() && #[trigger] s.feeds[k].feed_url == url && s.feeds[k].is_active
}

/// The URL that importing an outline stores, when it takes the outline.
pub open spec fn outline_url(o: OutlineView) -> Option<Seq<char>> {
    match o.xml_url {
        Some(u) => match validate_feed_url_spec(u) {
            Ok(url) => Some(url),
            Err(_) => None,
        },
        None => None,
    }
}

/// Storing a feed never deactivates another: an active feed with a URL stays.
pub proof fn lemma_upsert_keeps_active(s: DbState, title: Seq<char>, site: Option<Seq<char>>, url2: Seq<char>, url: Seq<char>)
    requires
        s.wf(),
        has_active_url(s, url),
    ensures
        has_active_url(s.upsert_feed(title, site, url2).0, url),
{
    let t = s.upsert_feed(title, site, url2).0;
    let k = choose|k: int| 0 <= k < s.feeds.len() && #[trigger] s.feeds[k].feed_url == url && s.feeds[k].is_active;
    let i = s.feed_url_index(url2);
    if i >= 0 && i == k {
        assert(t.feeds[k].feed_url == url && t.feeds[k].is_active);
    } else if t.feeds.len() >= s.feeds.len() {
        assert(t.feeds[k] == s.feeds[k]);
    }
}

/// Importing the first `k` outlines leaves the tables well formed, and, when it succeeds, with
/// an active feed for every outline it took.
pub proof fn lemma_import_prefix(s: DbState, os: Seq<OutlineView>, k: nat)
    requires
        s.wf(),
        k <= os.len(),
    ensures
        import_outlines_spec(s, os, k).0.wf(),
        import_outlines_spec(s, os, k).1 is Ok ==> forall|j: int|
            0 <= j < k && (#[trigger] outline_url(os[j])) is Some ==> has_active_url(
                import_outlines_spec(s, os, k).0,
                outline_url(os[j])->Some_0,
            ),
    decreases k,
{
    if k > 0 {
        let km = (k - 1) as nat;
        lemma_import_prefix(s, os, km);
        let (s1, r1) = import_outlines_spec(s, os, km);
        if r1 is Ok {
            let o = os[km as int];
            match o.xml_url {
                None => {},
                Some(u) => match validate_feed_url_spec(u) {
                    Err(_) => {},
                    Ok(url) => {
                        let title = match o.title {
                            Some(t) => t,
                            None => match o.text {
                                Some(t) => t,
                                None => url,
                            },
                        };
                        lemma_upsert_feed_wf(s1, title, o.html_url, url);
                        let s2 = s1.upsert_feed(title, o.html_url, url).0;
                        assert(import_outlines_spec(s, os, k).0 == s2);
                        if import_outlines_spec(s, os, k).1 is Ok {
                            let i = s1.feed_url_index(url);
                            let jj = if i >= 0 { i } else { s1.feeds.len() as int };
                            assert(s2.feeds[jj].feed_url == url && s2.feeds[jj].is_active);
                            assert forall|j: int|
                                0 <= j < k && (#[trigger] outline_url(os[j])) is Some implies has_active_url(
                                    s2,
                                    outline_url(os[j])->Some_0,
                                ) by {
                                if j < km {
                                    lemma_upsert_keeps_active(s1, title, o.html_url, url, outline_url(os[j])->Some_0);
                                }
                            }
                        }
                    },
                },
            }
        }
    }
}

/// Importing a document and exporting again gives back every feed URL the import took: every
/// list of feeds that `all_feeds` can give afterwards holds each of them.
pub proof fn law_import_then_export(s: DbState, os: Seq<OutlineView>, v: Seq<FeedView>)
    requires
        s.wf(),
        import_outlines_spec(s, os, os.len()).1 is Ok,
        import_outlines_spec(s, os, os.len()).0.is_feed_listing(v),
    ensures
        forall|j: int|
            0 <= j < os.len() && (#[trigger] outline_url(os[j])) is Some ==> exists|i: int|
                0 <= i < v.len() && feed_outline(v[i]).xml_url == outline_url(os[j]),
{
    let t = import_outlines_spec(s, os, os.len()).0;
    lemma_import_prefix(s, os, os.len());
    assert forall|j: int| 0 <= j < os.len() && (#[trigger] outline_url(os[j])) is Some implies exists|i: int|
        0 <= i < v.len() && feed_outline(v[i]).xml_url == outline_url(os[j]) by {
        let url = outline_url(os[j])->Some_0;
        assert(has_active_url(t, url));
        let kk = choose|kk: int| 0 <= kk < t.feeds.len() && #[trigger] t.feeds[kk].feed_url == url && t.feeds[kk].is_active;
        assert(t.active_at(kk));
        let i = choose|i: int| 0 <= i < v.len() && #[trigger] v[i].id == t.feeds[kk].id;
        let k = choose|k: int|
            0 <= k < t.feeds.len() && t.feeds[k].is_active && #[trigger] v[i] == crate::db::feed_view_of(
                #[trigger] t.feeds[k],
            );
        if k < kk {
            assert(t.feeds[k].id < t.feeds[kk].id);
        } else if k > kk {
            assert(t.feeds[kk].id < t.feeds[k].id);
        }
        assert(feed_outline(v[i]).xml_url == Some(url));
    }
}

/// The validators that `set_feed_headers` writes for an existing feed are what `feed_headers`
/// then reads for it.
pub proof fn law_feed_headers_read_back(
    s: DbState,
    feed_id: i64,
    etag: Option<Seq<char>>,
    last_modified: Option<Seq<char>>,
    now: UtcTime,
)
    requires
        s.wf(),
        s.has_feed(feed_id),
    ensures
        s.set_feed_headers(feed_id, etag, last_modified, now).feed_headers(feed_id) == Ok::<
            (Option<Seq<char>>, Option<Seq<char>>),
            crate::db::DbError,
        >((etag, last_modified)),
{
    let k = choose|k: int| 0 <= k < s.feeds.len() && #[trigger] s.feeds[k].id == feed_id;
    assert(s.feeds[k].id == feed_id);
    let i = s.feed_id_index(feed_id);
    let t = s.set_feed_headers(feed_id, etag, last_modified, now);
    assert forall|a: int, b: int| 0 <= a < b < t.feeds.len() implies #[trigger] t.feeds[a].id < #[trigger] t.feeds[b].id by {
        assert(s.feeds[a].id < s.feeds[b].id);
    }
    assert(t.feeds[i].id == feed_id);
    lemma_feed_id_index(t, i);
}

/// A feed that `upsert_feed` adds has no validators yet.
pub proof fn law_new_feed_has_no_validators(s: DbState, title: Seq<char>, site: Option<Seq<char>>, url: Seq<char>)
    requires
        s.wf(),
        s.feed_url_index(url) == -1,
        s.upsert_feed(title, site, url).1 is Ok,
    ensures
        ({
            let (t, r) = s.upsert_feed(title, site, url);
            t.feed_headers(r->Ok_0) == Ok::<(Option<Seq<char>>, Option<Seq<char>>), crate::db::DbError>((None, None))
        }),
{
    lemma_upsert_feed_wf(s, title, site, url);
    let t = s.upsert_feed(title, site, url).0;
    lemma_feed_id_index(t, s.feeds.len() as int);
}

/// After 'g' on the main page, any other key that goes through (but 'q', which quits) clears the
/// pending 'g'; when that key leaves the page and the mode as they were, a 'g' after it starts a
/// new pending 'g' instead of jumping.
pub proof fn law_other_key_clears_pending_g(a: AppView, k: Key, now1: UtcTime, now2: UtcTime, now3: UtcTime)
    requires
        a.input_mode == InputMode::Normal,
        a.screen == Screen::Main,
        !a.g_pending,
        k != Key::Char('g'),
        k != Key::Char('q'),
        a.handle_key(Key::Char('g'), now1).0.handle_key(k, now2).1 is Ok,
    ensures
        ({
            let a1 = a.handle_key(Key::Char('g'), now1).0;
            let a2 = a1.handle_key(k, now2).0;
            &&& a1.g_pending
            &&& !a2.g_pending
            &&& a2.input_mode == InputMode::Normal && a2.screen == Screen::Main ==> a2.handle_key(Key::Char('g'), now3) == (
            AppView { g_pending: true, status: "g pending. press g again for top"@, ..a2 },
            Ok::<RequestView, crate::db::DbError>(RequestView::Continue))
        }),
{
    let a1 = a.handle_key(Key::Char('g'), now1).0;
    assert(a1 =~= AppView { g_pending: true, status: "g pending. press g again for top"@, ..a });
    let a2 = a1.handle_key(k, now2).0;
    if a2.input_mode == InputMode::Normal && a2.screen == Screen::Main {
        assert(a2.handle_key(Key::Char('g'), now3).0 =~= AppView {
            g_pending: true,
            status: "g pending. press g again for top"@,
            ..a2
        });
    }
}

/// A removed feed comes back: storing its URL again makes it active under its old id, and
/// every list that `all_feeds` then gives holds it. (`remove_feed` reads a key that is an
/// integer as an id, so the URL must not read as the id of another feed.)
pub proof fn law_remove_then_upsert_relists(
    s: DbState,
    url: Seq<char>,
    title: Seq<char>,
    site: Option<Seq<char>>,
    v: Seq<FeedView>,
)
    requires
        s.wf(),
        s.feed_url_index(url) >= 0,
        parse_i64_spec(url) is None || parse_i64_spec(url) == Some(s.feeds[s.feed_url_index(url)].id),
        s.remove_feed(url).0.upsert_feed(title, site, url).0.is_feed_listing(v),
    ensures
        ({
            let id = s.feeds[s.feed_url_index(url)].id;
            let s1 = s.remove_feed(url).0;
            &&& s.remove_feed(url).1 == 1
            &&& s1.upsert_feed(title, site, url).1 == Ok::<i64, crate::db::DbError>(id)
            &&& exists|i: int| 0 <= i < v.len() && #[trigger] v[i].id == id
        }),
{
    let i = s.feed_url_index(url);
    lemma_feed_url_index(s, i);
    lemma_feed_id_index(s, i);
    assert(s.feed_key_index(url) == i);
    let s1 = s.remove_feed(url).0;
    lemma_feed_update_wf(s, i, s1.feeds[i]);
    assert(s1.feeds[i].feed_url == url);
    lemma_feed_url_index(s1, i);
    law_upserted_feed_listed(s1, title, site, url, v);
}

/// Removing a feed leaves the entry lists as they were: a list is what `list_entries` gives
/// afterwards, for any filters, exactly when it was before.
pub proof fn law_remove_feed_keeps_entry_listings(
    s: DbState,
    key: Seq<char>,
    v: Seq<crate::model::EntryView>,
    feed_id: Option<i64>,
    unread_only: bool,
    starred_only: bool,
    include_hidden: bool,
)
    requires
        s.wf(),
    ensures
        s.remove_feed(key).0.is_entry_listing(v, feed_id, unread_only, starred_only, include_hidden)
            == s.is_entry_listing(v, feed_id, unread_only, starred_only, include_hidden),
{
    let s1 = s.remove_feed(key).0;
    assert(s1.entries == s.entries && s1.states == s.states);
    assert forall|x: i64| #[trigger] s1.state_index(x) == s.state_index(x) by {
        if s.state_index(x) >= 0 {
            lemma_state_index(s, s.state_index(x));
            let k = s.state_index(x);
            assert(s1.states[k].entry_id == x);
            let j = s1.state_index(x);
            if j != k {
                assert(s1.states[j].entry_id == x);
                if j < k {
                    assert(s.states[j].entry_id < s.states[k].entry_id);
                } else {
                    assert(s.states[k].entry_id < s.states[j].entry_id);
                }
            }
        } else if s1.state_index(x) >= 0 {
            let j = s1.state_index(x);
            assert(s.states[j].entry_id == x);
        }
    }
    assert forall|x: i64| #[trigger] s1.entry_id_index(x) == s.entry_id_index(x) by {
        if s.entry_id_index(x) >= 0 {
            let k = s.entry_id_index(x);
            lemma_entry_id_index(s, k);
            let j = s1.entry_id_index(x);
            assert(s1.entries[k].id == x);
            if j != k {
                assert(s1.entries[j].id == x);
                if j < k {
                    assert(s.entries[j].id < s.entries[k].id);
                } else {
                    assert(s.entries[k].id < s.entries[j].id);
                }
            }
        } else if s1.entry_id_index(x) >= 0 {
            let j = s1.entry_id_index(x);
            assert(s.entries[j].id == x);
        }
    }
    assert forall|x: i64| #[trigger] s1.is_read(x) == s.is_read(x) && s1.is_starred(x) == s.is_starred(x) by {
        assert(s1.state_index(x) == s.state_index(x));
    }
    assert forall|r: crate::db::EntryRow| #[trigger] s1.entry_view_of(r) == s.entry_view_of(r) by {
        assert(s1.is_read(r.id) == s.is_read(r.id));
    }
    assert forall|r: crate::db::EntryRow|
        #[trigger] s1.entry_listed(r, feed_id, unread_only, starred_only, include_hidden) == s.entry_listed(
            r,
            feed_id,
            unread_only,
            starred_only,
            include_hidden,
        ) by {
        assert(s1.is_read(r.id) == s.is_read(r.id));
    }
    if s.is_entry_listing(v, feed_id, unread_only, starred_only, include_hidden) {
        lemma_listing_transfer(s, s1, v, feed_id, unread_only, starred_only, include_hidden);
    }
    if s1.is_entry_listing(v, feed_id, unread_only, starred_only, include_hidden) {
        lemma_listing_transfer(s1, s, v, feed_id, unread_only, starred_only, include_hidden);
    }
}

/// Two states with the same entries that read and show each entry alike have the same entry
/// lists.
proof fn lemma_listing_transfer(
    s: DbState,
    t: DbState,
    v: Seq<crate::model::EntryView>,
    feed_id: Option<i64>,
    unread_only: bool,
    starred_only: bool,
    include_hidden: bool,
)
    requires
        t.entries == s.entries,
        forall|x: i64| #[trigger] t.entry_id_index(x) == s.entry_id_index(x),
        forall|r: crate::db::EntryRow| #[trigger] t.entry_view_of(r) == s.entry_view_of(r),
        forall|r: crate::db::EntryRow|
            #[trigger] t.entry_listed(r, feed_id, unread_only, starred_only, include_hidden) == s.entry_listed(
                r,
                feed_id,
                unread_only,
                starred_only,
                include_hidden,
            ),
        s.is_entry_listing(v, feed_id, unread_only, starred_only, include_hidden),
    ensures
        t.is_entry_listing(v, feed_id, unread_only, starred_only, include_hidden),
{
    assert forall|i: int| 0 <= i < v.len() implies exists|k: int|
        0 <= k < t.entries.len() && t.entry_listed(t.entries[k], feed_id, unread_only, starred_only, include_hidden)
            && #[trigger] v[i] == t.entry_view_of(#[trigger] t.entries[k]) by {
        let k = choose|k: int|
            0 <= k < s.entries.len() && s.entry_listed(s.entries[k], feed_id, unread_only, starred_only, include_hidden)
                && #[trigger] v[i] == s.entry_view_of(#[trigger] s.entries[k]);
        assert(t.entry_view_of(t.entries[k]) == s.entry_view_of(s.entries[k]));
    }
    assert forall|k: int|
        0 <= k < t.entries.len() && #[trigger] t.listed_at(k, feed_id, unread_only, starred_only, include_hidden) implies exists|i: int|
        0 <= i < v.len() && #[trigger] v[i].id == t.entries[k].id by {
        assert(t.entry_listed(t.entries[k], feed_id, unread_only, starred_only, include_hidden) == s.entry_listed(
            s.entries[k],
            feed_id,
            unread_only,
            starred_only,
            include_hidden,
        ));
        assert(s.listed_at(k, feed_id, unread_only, starred_only, include_hidden));
    }
    assert forall|i: int, j: int| 0 <= i < j < v.len() implies crate::order::row_before(
        crate::db::sort_text(t.entries[t.entry_id_index(#[trigger] v[i].id)]),
        v[i].id,
        crate::db::sort_text(t.entries[t.entry_id_index(#[trigger] v[j].id)]),
        v[j].id,
        true,
    ) by {
        assert(t.entry_id_index(v[i].id) == s.entry_id_index(v[i].id));
        assert(t.entry_id_index(v[j].id) == s.entry_id_index(v[j].id));
    }
}

/// Surrounding white space does not change how a feed URL is validated.
pub proof fn law_validate_ignores_surrounding_space(p: Seq<char>, x: Seq<char>, q: Seq<char>)
    requires
        all_white_space(p),
        all_white_space(q),
    ensures
        validate_feed_url_spec(p + x + q) == validate_feed_url_spec(x),
{
    lemma_trim_surrounded(p, x, q);
}

/// Reloading the entries: they become the list that `list_entries` gives for the selected feed
/// and the filters, the selection stays where it was when still inside the list and otherwise
/// moves to the last entry (0 for none), and nothing else changes.
pub proof fn law_reload_entries(a: AppView)
    ensures
        ({
            let b = a.reload_entries();
            &&& b.entries == a.db.entry_listing(a.selected_feed_id(), a.unread_only, a.starred_only, a.include_hidden)
            &&& b.entry_idx_ok()
            &&& a.entry_idx < b.entries.len() ==> b.entry_idx == a.entry_idx
            &&& b == (AppView { entries: b.entries, entry_idx: b.entry_idx, ..a })
        }),
{
}

/// Flipping the read of an entry: it succeeds for an existing entry, flips that entry's read
/// (recording `now` as the time it was set, clearing it when unset), keeps its star, and leaves
/// the entries, the feeds and the marks of every other entry as they were.
pub proof fn law_toggle_read_step(s: DbState, entry_id: i64, now: UtcTime)
    requires
        s.wf(),
        s.has_entry(entry_id),
    ensures
        ({
            let (t, r) = s.toggle_read(entry_id, now);
            &&& r is Ok
            &&& t.wf()
            &&& t.is_read(entry_id) == !s.is_read(entry_id)
            &&& t.is_starred(entry_id) == s.is_starred(entry_id)
            &&& t.state_index(entry_id) >= 0
            &&& t.states[t.state_index(entry_id)].read_at == if t.is_read(entry_id) {
                Some(rfc3339_text(now.secs, now.nanos))
            } else {
                None
            }
            &&& t.entries == s.entries
            &&& t.feeds == s.feeds
            &&& forall|x: i64|
                #![trigger t.is_read(x)]
                #![trigger t.is_starred(x)]
                x != entry_id ==> (t.is_read(x) == s.is_read(x) && t.is_starred(x) == s.is_starred(x))
        }),
{
    let (t, r) = s.toggle_read(entry_id, now);
    let k = s.state_index(entry_id);
    if k >= 0 {
        lemma_state_update_wf(s, k, t.states[k]);
        assert(t.states[k].entry_id == entry_id);
        lemma_state_index(t, k);
        lemma_other_states_kept(s, t, entry_id, k, false);
    } else {
        assert forall|i: int| 0 <= i < s.states.len() implies #[trigger] s.states[i].entry_id != entry_id by {
            if s.states[i].entry_id == entry_id {
                assert(s.states[i].entry_id == entry_id);
            }
        }
        lemma_state_pos_exists(s, entry_id);
        let p = s.state_insert_pos(entry_id);
        lemma_state_insert_wf(s, t.states[p]);
        assert(t.states[p].entry_id == entry_id);
        lemma_state_index(t, p);
        lemma_other_states_kept(s, t, entry_id, p, true);
    }
}

/// Flipping the star of an entry: it succeeds for an existing entry, flips that entry's star
/// (recording `now` as the time it was set, clearing it when unset), keeps its read mark, and leaves
/// the entries, the feeds and the marks of every other entry as they were.
pub proof fn law_toggle_star_step(s: DbState, entry_id: i64, now: UtcTime)
    requires
        s.wf(),
        s.has_entry(entry_id),
    ensures
        ({
            let (t, r) = s.toggle_star(entry_id, now);
            &&& r is Ok
            &&& t.wf()
            &&& t.is_starred(entry_id) == !s.is_starred(entry_id)
            &&& t.is_read(entry_id) == s.is_read(entry_id)
            &&& t.state_index(entry_id) >= 0
            &&& t.states[t.state_index(entry_id)].starred_at == if t.is_starred(entry_id) {
                Some(rfc3339_text(now.secs, now.nanos))
            } else {
                None
            }
            &&& t.entries == s.entries
            &&& t.feeds == s.feeds
            &&& forall|x: i64|
                #![trigger t.is_read(x)]
                #![trigger t.is_starred(x)]
                x != entry_id ==> (t.is_read(x) == s.is_read(x) && t.is_starred(x) == s.is_starred(x))
        }),
{
    let (t, r) = s.toggle_star(entry_id, now);
    let k = s.state_index(entry_id);
    if k >= 0 {
        lemma_state_update_wf(s, k, t.states[k]);
        assert(t.states[k].entry_id == entry_id);
        lemma_state_index(t, k);
        lemma_other_states_kept(s, t, entry_id, k, false);
    } else {
        assert forall|i: int| 0 <= i < s.states.len() implies #[trigger] s.states[i].entry_id != entry_id by {
            if s.states[i].entry_id == entry_id {
                assert(s.states[i].entry_id == entry_id);
            }
        }
        lemma_state_pos_exists(s, entry_id);
        let p = s.state_insert_pos(entry_id);
        lemma_state_insert_wf(s, t.states[p]);
        assert(t.states[p].entry_id == entry_id);
        lemma_state_index(t, p);
        lemma_other_states_kept(s, t, entry_id, p, true);
    }
}

/// When `t`'s state rows are `s`'s with the row at `p` for `entry_id` changed (or, when
/// `inserted`, added there), every other entry keeps its read mark and star.
proof fn lemma_other_states_kept(s: DbState, t: DbState, entry_id: i64, p: int, inserted: bool)
    requires
        s.wf(),
        t.wf(),
        0 <= p < t.states.len(),
        t.states[p].entry_id == entry_id,
        inserted ==> t.states.len() == s.states.len() + 1 && forall|j: int|
            0 <= j < t.states.len() && j != p ==> #[trigger] t.states[j] == if j < p { s.states[j] } else { s.states[j - 1] },
        !inserted ==> t.states.len() == s.states.len() && forall|j: int|
            0 <= j < t.states.len() && j != p ==> #[trigger] t.states[j] == s.states[j],
        !inserted ==> s.states[p].entry_id == entry_id,
    ensures
        forall|x: i64|
            #![trigger t.is_read(x)]
            #![trigger t.is_starred(x)]
            x != entry_id ==> (t.is_read(x) == s.is_read(x) && t.is_starred(x) == s.is_starred(x)),
{
    assert forall|x: i64|
        #![trigger t.is_read(x)]
        #![trigger t.is_starred(x)]
        x != entry_id implies (t.is_read(x) == s.is_read(x) && t.is_starred(x) == s.is_starred(x)) by {
        lemma_other_state_kept(s, t, entry_id, p, inserted, x);
    }
}

/// One entry other than `entry_id` keeps its state row (see `lemma_other_states_kept`).
proof fn lemma_other_state_kept(s: DbState, t: DbState, entry_id: i64, p: int, inserted: bool, x: i64)
    requires
        s.wf(),
        t.wf(),
        0 <= p < t.states.len(),
        t.states[p].entry_id == entry_id,
        inserted ==> t.states.len() == s.states.len() + 1 && forall|j: int|
            0 <= j < t.states.len() && j != p ==> #[trigger] t.states[j] == if j < p { s.states[j] } else { s.states[j - 1] },
        !inserted ==> t.states.len() == s.states.len() && forall|j: int|
            0 <= j < t.states.len() && j != p ==> #[trigger] t.states[j] == s.states[j],
        !inserted ==> s.states[p].entry_id == entry_id,
        x != entry_id,
    ensures
        t.state_index(x) >= 0 <==> s.state_index(x) >= 0,
        s.state_index(x) >= 0 ==> t.states[t.state_index(x)] == s.states[s.state_index(x)],
        t.is_read(x) == s.is_read(x),
        t.is_starred(x) == s.is_starred(x),
{
    let k = s.state_index(x);
    if k >= 0 {
        assert(s.states[k].entry_id == x);
        let j = if inserted && k >= p { k + 1 } else { k };
        if !inserted {
            assert(k != p);
        } else if k >= p {
            assert(t.states[k + 1] == s.states[k]);
        }
        assert(t.states[j] == s.states[k]);
        lemma_state_index(t, j);
    } else {
        let j = t.state_index(x);
        if j >= 0 {
            assert(t.states[j].entry_id == x);
            assert(j != p);
            let kk = if inserted && j > p { j - 1 } else { j };
            assert(s.states[kk].entry_id == x);
        }
    }
}

/// Storing an entry again under its feed and key (as every refresh does) changes only what the
/// feed says of it: the entry keeps its id, its place, when it was first fetched, whether it is
/// hidden, and its read and star marks; it takes the new title, author and link, and the new
/// times, summary and content where they are given (keeping the old ones where not). No other
/// entry changes, and the answer is the entry's id.
pub proof fn law_upsert_entry_keeps_marks(s: DbState, e: NewEntryView, now: UtcTime)
    requires
        s.wf(),
        s.entry_key_index(e.feed_id, e.key) >= 0,
    ensures
        ({
            let i = s.entry_key_index(e.feed_id, e.key);
            let old = s.entries[i];
            let (t, r) = s.upsert_entry(e, now);
            &&& r == Ok::<i64, crate::db::DbError>(old.id)
            &&& t.wf()
            &&& t.feeds == s.feeds
            &&& t.entries.len() == s.entries.len()
            &&& t.entries[i].id == old.id
            &&& t.entries[i].feed_id == old.feed_id
            &&& t.entries[i].key == old.key
            &&& t.entries[i].fetched_at == old.fetched_at
            &&& t.entries[i].is_hidden == old.is_hidden
            &&& t.entries[i].title == e.title
            &&& t.entries[i].author == e.author
            &&& t.entries[i].url == e.url
            &&& (e.summary matches Some(x) ==> t.entries[i].summary == Some(x))
            &&& (e.summary is None ==> t.entries[i].summary == old.summary)
            &&& (e.content matches Some(x) ==> t.entries[i].content == Some(x))
            &&& (e.content is None ==> t.entries[i].content == old.content)
            &&& t.is_read(old.id) == s.is_read(old.id)
            &&& t.is_starred(old.id) == s.is_starred(old.id)
            &&& forall|j: int| 0 <= j < s.entries.len() && j != i ==> #[trigger] t.entries[j] == s.entries[j]
        }),
{
    let i = s.entry_key_index(e.feed_id, e.key);
    let old = s.entries[i];
    assert(s.has_feed(old.feed_id));
    let row = s.upsert_entry(e, now).0.entries[i];
    lemma_entry_update_wf(s, i, row);
    let u = DbState { entries: s.entries.update(i, row), ..s };
    assert(u.entries[i].id == old.id);
    assert(u.has_entry(old.id));
    lemma_with_state(u, old.id);
    let t = u.with_state(old.id);
    assert(t == s.upsert_entry(e, now).0);
    if s.state_index(old.id) < 0 {
        let k = t.state_index(old.id);
        let p = u.state_insert_pos(old.id);
        assert(t.states[k].entry_id == old.id);
        assert forall|m: int| 0 <= m < s.states.len() implies #[trigger] s.states[m].entry_id != old.id by {
            if s.states[m].entry_id == old.id {
                assert(s.states[m].entry_id == old.id);
            }
        }
        assert(u.states == s.states);
        lemma_state_pos_exists(u, old.id);
        let st = EntryStateRow { entry_id: old.id, is_read: false, is_starred: false, read_at: None, starred_at: None };
        assert(u.state_index(old.id) == s.state_index(old.id));
        assert(t.states == s.states.insert(p, st));
        if k < p {
            assert(t.states[k] == s.states[k]);
        } else if k > p {
            assert(t.states[k] == s.states[k - 1]);
        }
        assert(!t.is_read(old.id) && !t.is_starred(old.id));
    }
}

/// What an entry is stored with is what it says: after storing it, the entry under its feed and
/// key has its title, and its summary and content when it gives them.
pub proof fn law_upsert_entry_stores_text(s: DbState, e: NewEntryView, now: UtcTime)
    requires
        s.wf(),
        s.upsert_entry(e, now).1 is Ok,
    ensures
        ({
            let t = s.upsert_entry(e, now).0;
            let j = t.entry_key_index(e.feed_id, e.key);
            &&& j >= 0
            &&& t.entries[j].id == s.upsert_entry(e, now).1->Ok_0
            &&& t.entries[j].title == e.title
            &&& (e.summary matches Some(x) ==> t.entries[j].summary == Some(x))
            &&& (e.content matches Some(x) ==> t.entries[j].content == Some(x))
        }),
{
    lemma_upsert_entry_wf(s, e, now);
    let t = s.upsert_entry(e, now).0;
    let i = s.entry_key_index(e.feed_id, e.key);
    if i >= 0 {
        law_upsert_entry_keeps_marks(s, e, now);
        assert(t.entries[i].feed_id == e.feed_id && t.entries[i].key == e.key);
        lemma_entry_key_index(t, i);
    } else {
        let n = s.entries.len() as int;
        assert(t.entries[n].feed_id == e.feed_id && t.entries[n].key == e.key);
        lemma_entry_key_index(t, n);
    }
}

/// The entry made of a fetched item carries the item's own text and times: its content as the
/// item gives it, its summary when not blank, its first link, its first author, and its
/// publication and update times, under the feed it was fetched for.
pub proof fn law_item_entry_keeps_item_text(feed_id: i64, it: ParsedItemView, index: nat)
    ensures
        ({
            let e = item_entry(feed_id, it, index);
            &&& e.feed_id == feed_id
            &&& e.content == it.content
            &&& (it.summary matches Some(x) ==> (trim_spec(x).len() > 0 ==> e.summary == Some(x)))
            &&& (it.links.len() > 0 ==> e.url == Some(it.links[0]))
            &&& (it.links.len() == 0 ==> e.url is None)
            &&& (it.authors.len() > 0 ==> e.author == Some(it.authors[0]))
            &&& e.published_at == it.published
            &&& e.updated_at == it.updated
            &&& (it.title matches Some(x) ==> (trim_spec(x).len() > 0 ==> e.title == x))
        }),
{
}

/// Storing items keeps the tables well formed.
proof fn lemma_store_items_wf(s: DbState, feed_id: i64, items: Seq<ParsedItemView>, k: nat, now: UtcTime)
    requires
        s.wf(),
    ensures
        store_items(s, feed_id, items, k, now).0.wf(),
    decreases k,
{
    if k > 0 {
        lemma_store_items_wf(s, feed_id, items, (k - 1) as nat, now);
        let s1 = store_items(s, feed_id, items, (k - 1) as nat, now).0;
        lemma_upsert_entry_wf(s1, item_entry(feed_id, items[k - 1], (k - 1) as nat), now);
    }
}

/// A refresh stores each item with its content: once the items up to the one at position `k`
/// are stored, the entry under that item's key holds the item's content, and its summary when
/// it has one that is not blank.
pub proof fn law_refresh_stores_item_content(
    s: DbState,
    feed_id: i64,
    items: Seq<ParsedItemView>,
    k: nat,
    now: UtcTime,
)
    requires
        s.wf(),
        k < items.len(),
        store_items(s, feed_id, items, k + 1, now).1 is Ok,
    ensures
        ({
            let t = store_items(s, feed_id, items, k + 1, now).0;
            let j = t.entry_key_index(feed_id, item_entry(feed_id, items[k as int], k).key);
            &&& j >= 0
            &&& t.entries[j].feed_id == feed_id
            &&& (items[k as int].content matches Some(c) ==> t.entries[j].content == Some(c))
            &&& (items[k as int].summary matches Some(x) ==> (trim_spec(x).len() > 0 ==> t.entries[j].summary
                == Some(x)))
        }),
{
    lemma_store_items_wf(s, feed_id, items, k, now);
    let s1 = store_items(s, feed_id, items, k, now).0;
    let e = item_entry(feed_id, items[k as int], k);
    assert(store_items(s, feed_id, items, k, now).1 is Ok);
    law_upsert_entry_stores_text(s1, e, now);
    law_item_entry_keeps_item_text(feed_id, items[k as int], k);
    lemma_upsert_entry_wf(s1, e, now);
}

/// The text shown for an entry, in the preview and in its Markdown section, is its content when
/// it has one, else its summary; "(no content)" only when it has neither.
pub proof fn law_entry_body_falls_back_to_summary(e: EntryView)
    ensures
        e.content matches Some(c) ==> entry_body(e) == c,
        e.content is None ==> (e.summary matches Some(x) ==> entry_body(e) == x),
        (e.content is None && e.summary is None) <==> entry_body(e) == "(no content)"@ && e.content
            != Some("(no content)"@) && e.summary != Some("(no content)"@),
{
}

/// An entry's Markdown section is its title, link, publication and state lines, then its
/// content (else its summary, else "(no content)"), then a rule.
pub proof fn law_markdown_section_ends_with_text(e: EntryView)
    ensures
        e.content matches Some(c) ==> entry_markdown(e) == md_title(e) + md_link(e) + md_published(e) + md_state(
            e,
        ) + c + "\n\n---\n\n"@,
        e.content is None ==> (e.summary matches Some(x) ==> entry_markdown(e) == md_title(e) + md_link(e)
            + md_published(e) + md_state(e) + x + "\n\n---\n\n"@),
        (e.content is None && e.summary is None) ==> entry_markdown(e) == md_title(e) + md_link(e) + md_published(
            e,
        ) + md_state(e) + "(no content)"@ + "\n\n---\n\n"@,
{
}

/// The preview of the selected entry shows its content when it has one, else its summary
/// (rendered from HTML where that succeeds).
pub proof fn law_preview_shows_summary(a: AppView)
    requires
        a.selected_entry() is Some,
    ensures
        ({
            let e = a.selected_entry()->Some_0;
            let shown = |t: Seq<char>| match html_text(t, PREVIEW_WIDTH) {
                Some(r) => r,
                None => t,
            };
            &&& e.content matches Some(c) ==> a.preview().1 == Some(shown(c))
            &&& e.content is None ==> (e.summary matches Some(x) ==> a.preview().1 == Some(shown(x)))
        }),
{
}

/// An outline whose `xmlUrl` is a valid feed URL is imported as an active feed at the validated
/// URL, with its `htmlUrl` as site, titled by the outline's `title`; without one, by its `text`;
/// without either, by the URL itself.
pub proof fn law_import_outline_title(s: DbState, o: OutlineView, u: Seq<char>, url: Seq<char>)
    requires
        s.wf(),
        o.xml_url == Some(u),
        validate_feed_url_spec(u) == Ok::<Seq<char>, UrlErrorKind>(url),
        s.feed_url_index(url) >= 0 || s.next_feed_id() <= i64::MAX,
    ensures
        ({
            let (t, r) = import_outline(s, o);
            let k = t.feed_url_index(url);
            &&& r == Ok::<bool, crate::db::DbError>(true)
            &&& t.wf()
            &&& k >= 0
            &&& t.feeds[k].feed_url == url
            &&& t.feeds[k].is_active
            &&& t.feeds[k].site_url == o.html_url
            &&& (o.title matches Some(x) ==> t.feeds[k].title == x)
            &&& (o.title is None ==> (o.text matches Some(x) ==> t.feeds[k].title == x))
            &&& (o.title is None && o.text is None ==> t.feeds[k].title == url)
        }),
{
    match o.title {
        Some(x) => lemma_upsert_feed_row(s, x, o.html_url, url),
        None => match o.text {
            Some(x) => lemma_upsert_feed_row(s, x, o.html_url, url),
            None => lemma_upsert_feed_row(s, url, o.html_url, url),
        },
    }
}

/// After `upsert_feed` succeeds, the feed at that URL is active with the given title and site.
proof fn lemma_upsert_feed_row(s: DbState, title: Seq<char>, site: Option<Seq<char>>, url: Seq<char>)
    requires
        s.wf(),
        s.feed_url_index(url) >= 0 || s.next_feed_id() <= i64::MAX,
    ensures
        ({
            let (t, r) = s.upsert_feed(title, site, url);
            let k = t.feed_url_index(url);
            &&& r is Ok
            &&& t.wf()
            &&& k >= 0
            &&& t.feeds[k].feed_url == url
            &&& t.feeds[k].is_active
            &&& t.feeds[k].site_url == site
            &&& t.feeds[k].title == title
        }),
{
    lemma_upsert_feed_wf(s, title, site, url);
    let t = s.upsert_feed(title, site, url).0;
    let i = s.feed_url_index(url);
    if i >= 0 {
        assert(s.feeds[i].feed_url == url);
        assert(t.feeds[i].feed_url == url);
        lemma_feed_url_index(t, i);
    } else {
        let n = s.feeds.len() as int;
        assert(t.feeds[n].feed_url == url);
        lemma_feed_url_index(t, n);
    }
}

/// On the main page with the entries pane focused, 'k' (or Up) selects the entry just above,
/// when there is one, and 'j' (or Down) the one just below, when there is one: the selection
/// moves by exactly one, the preview goes back to its top, and nothing else changes.
pub proof fn law_entry_keys_step_by_one(a: AppView, now: UtcTime)
    requires
        a.input_mode == InputMode::Normal,
        a.screen == Screen::Main,
        a.pane == Pane::Entries,
    ensures
        a.entry_idx > 0 ==> a.handle_key(Key::Char('k'), now) == (
            AppView { entry_idx: (a.entry_idx - 1) as usize, preview_scroll: 0, g_pending: false, ..a },
            Ok::<RequestView, crate::db::DbError>(RequestView::Continue),
        ),
        a.entry_idx > 0 ==> a.handle_key(Key::Up, now) == (
            AppView { entry_idx: (a.entry_idx - 1) as usize, preview_scroll: 0, g_pending: false, ..a },
            Ok::<RequestView, crate::db::DbError>(RequestView::Continue),
        ),
        a.entry_idx + 1 < a.entries.len() ==> a.handle_key(Key::Char('j'), now) == (
            AppView { entry_idx: (a.entry_idx + 1) as usize, preview_scroll: 0, g_pending: false, ..a },
            Ok::<RequestView, crate::db::DbError>(RequestView::Continue),
        ),
        a.entry_idx + 1 < a.entries.len() ==> a.handle_key(Key::Down, now) == (
            AppView { entry_idx: (a.entry_idx + 1) as usize, preview_scroll: 0, g_pending: false, ..a },
            Ok::<RequestView, crate::db::DbError>(RequestView::Continue),
        ),
        a.entry_idx == 0 ==> a.handle_key(Key::Char('k'), now) == (
            AppView { g_pending: false, ..a },
            Ok::<RequestView, crate::db::DbError>(RequestView::Continue),
        ),
{
    if a.entry_idx > 0 {
        assert(a.handle_key(Key::Char('k'), now).0 =~= AppView {
            entry_idx: (a.entry_idx - 1) as usize,
            preview_scroll: 0,
            g_pending: false,
            ..a
        });
        assert(a.handle_key(Key::Up, now).0 =~= AppView {
            entry_idx: (a.entry_idx - 1) as usize,
            preview_scroll: 0,
            g_pending: false,
            ..a
        });
    }
    if a.entry_idx + 1 < a.entries.len() {
        assert(a.handle_key(Key::Char('j'), now).0 =~= AppView {
            entry_idx: (a.entry_idx + 1) as usize,
            preview_scroll: 0,
            g_pending: false,
            ..a
        });
        assert(a.handle_key(Key::Down, now).0 =~= AppView {
            entry_idx: (a.entry_idx + 1) as usize,
            preview_scroll: 0,
            g_pending: false,
            ..a
        });
    }
    if a.entry_idx == 0 {
        assert(a.handle_key(Key::Char('k'), now).0 =~= AppView { g_pending: false, ..a });
    }
}

/// Storing an entry under a key its feed does not have yet adds one visible, unread, unstarred
/// entry after all others, with an id above every other, fetched at `now`, holding what it
/// was given; the other entries stay as they were.
pub proof fn law_upsert_entry_adds_new(s: DbState, e: NewEntryView, now: UtcTime)
    requires
        s.wf(),
        s.has_feed(e.feed_id),
        s.entry_key_index(e.feed_id, e.key) < 0,
        s.next_entry_id() <= i64::MAX,
    ensures
        ({
            let (t, r) = s.upsert_entry(e, now);
            let n = s.entries.len() as int;
            &&& r matches Ok(id) && id == t.entries[n].id
            &&& t.wf()
            &&& t.feeds == s.feeds
            &&& t.entries.len() == n + 1
            &&& forall|j: int| 0 <= j < n ==> #[trigger] t.entries[j] == s.entries[j] && s.entries[j].id < t.entries[n].id
            &&& t.entries[n].feed_id == e.feed_id
            &&& t.entries[n].key == e.key
            &&& t.entries[n].title == e.title
            &&& t.entries[n].summary == e.summary
            &&& t.entries[n].content == e.content
            &&& t.entries[n].fetched_at == sql_timestamp_text(now.secs, now.nanos)
            &&& !t.entries[n].is_hidden
            &&& !t.is_read(t.entries[n].id)
            &&& !t.is_starred(t.entries[n].id)
        }),
{
    lemma_upsert_entry_wf(s, e, now);
    let (t, r) = s.upsert_entry(e, now);
    let n = s.entries.len() as int;
    let id = t.entries[n].id;
    assert forall|j: int| 0 <= j < n implies s.entries[j].id < id by {
        if n > 0 {
            if j < n - 1 {
                assert(s.entries[j].id < s.entries[n - 1].id);
            }
        }
    }
    assert(forall|j: int| 0 <= j < n ==> #[trigger] t.entries[j] == s.entries[j]);
    assert forall|m: int| 0 <= m < s.states.len() implies #[trigger] s.states[m].entry_id != id by {
        let eid = s.states[m].entry_id;
        assert(s.has_entry(eid));
        let q = choose|q: int| 0 <= q < s.entries.len() && #[trigger] s.entries[q].id == eid;
        assert(s.entries[q].id < id);
    }
    let u = DbState { entries: s.entries.push(t.entries[n]), ..s };
    assert(u.states == s.states);
    assert(u.state_index(id) < 0);
    lemma_state_pos_exists(u, id);
    let p = u.state_insert_pos(id);
    let k = t.state_index(id);
    assert(u.has_entry(id));
    lemma_entry_push_wf(s, t.entries[n]);
    lemma_with_state(u, id);
    assert(t == u.with_state(id));
    assert(t.states[k].entry_id == id);
    if k < p {
        assert(t.states[k] == s.states[k]);
    } else if k > p {
        assert(t.states[k] == s.states[k - 1]);
    }
}

/// On the main page with the feeds pane focused, 'k' selects the feed just above and 'j' the
/// one just below, when there is one; the entries pane then lists that feed's entries with
/// the current filters, and the preview goes back to its top.
pub proof fn law_feed_keys_step_by_one(a: AppView, now: UtcTime)
    requires
        a.input_mode == InputMode::Normal,
        a.screen == Screen::Main,
        a.pane == Pane::Feeds,
    ensures
        a.feed_idx > 0 ==> ({
            let (b, r) = a.handle_key(Key::Char('k'), now);
            &&& r == Ok::<RequestView, crate::db::DbError>(RequestView::Continue)
            &&& b.feed_idx == a.feed_idx - 1
            &&& b.feeds == a.feeds
            &&& b.preview_scroll == 0
            &&& b.db == a.db
            &&& (a.feed_idx <= a.feeds.len() ==> b.entries == a.db.entry_listing(
                Some(a.feeds[a.feed_idx - 1].id),
                a.unread_only,
                a.starred_only,
                a.include_hidden,
            ))
        }),
        a.feed_idx + 1 < a.feeds.len() <= usize::MAX ==> ({
            let (b, r) = a.handle_key(Key::Char('j'), now);
            &&& r == Ok::<RequestView, crate::db::DbError>(RequestView::Continue)
            &&& b.feed_idx == a.feed_idx + 1
            &&& b.feeds == a.feeds
            &&& b.preview_scroll == 0
            &&& b.db == a.db
            &&& b.entries == a.db.entry_listing(
                Some(a.feeds[a.feed_idx + 1].id),
                a.unread_only,
                a.starred_only,
                a.include_hidden,
            )
        }),
{
    if a.feed_idx + 1 < a.feeds.len() <= usize::MAX {
        let c = AppView { feed_idx: (a.feed_idx + 1) as usize, preview_scroll: 0, ..a };
        assert(a.next() == c.reload_entries());
        assert(c.selected_feed_id() == Some(a.feeds[a.feed_idx + 1].id));
    }
}
} // verus!
