use vstd::prelude::*;
use crate::db::{Database, DbError, DbState};
use crate::model::{clone_opt, opt_text, Feed, FeedView};
use crate::text::string_from_chars;
use crate::validation::{validate_feed_url, validate_feed_url_spec};

verus! {

/// An `outline` element of an OPML body: its `text`, `title`, `xmlUrl` and `htmlUrl`
/// attributes.
#[derive(Debug, Clone)]
pub struct Outline {
    pub text: Option<String>,
    pub title: Option<String>,
    pub xml_url: Option<String>,
    pub html_url: Option<String>,
}

/// The plain content of an `Outline`.
pub struct OutlineView {
    pub text: Option<Seq<char>>,
    pub title: Option<Seq<char>>,
    pub xml_url: Option<Seq<char>>,
    pub html_url: Option<Seq<char>>,
}

impl View for Outline {
    type V = OutlineView;

    open spec fn view(&self) -> OutlineView {
        OutlineView {
            text: opt_text(self.text),
            title: opt_text(self.title),
            xml_url: opt_text(self.xml_url),
            html_url: opt_text(self.html_url),
        }
    }
}

/// What importing one outline does: an outline whose `xmlUrl` is a valid feed URL becomes a feed
/// (by `upsert_feed`) titled by its `title`, else its `text`, else the URL, with its `htmlUrl`
/// as site; the flag tells whether it was taken. Other outlines are skipped.
pub open spec fn import_outline(s: DbState, o: OutlineView) -> (DbState, Result<bool, DbError>) {
    match o.xml_url {
        None => (s, Ok(false)),
        Some(u) => match validate_feed_url_spec(u) {
            Err(_) => (s, Ok(false)),
            Ok(url) => {
                let title = match o.title {
                    Some(t) => t,
                    None => match o.text {
                        Some(t) => t,
                        None => url,
                    },
                };
                let (s1, r) = s.upsert_feed(title, o.html_url, url);
                match r {
                    Ok(_) => (s1, Ok(true)),
                    Err(e) => (s1, Err(e)),
                }
            },
        },
    }
}

/// The tables after importing the first `k` outlines in order, and how many were taken; the
/// first refusal stops it, earlier imports staying.
pub open spec fn import_outlines_spec(s: DbState, os: Seq<OutlineView>, k: nat) -> (DbState, Result<usize, DbError>)
    decreases k,
{
    if k == 0 {
        (s, Ok(0))
    } else {
        let (s1, r1) = import_outlines_spec(s, os, (k - 1) as nat);
        match r1 {
            Err(e) => (s1, Err(e)),
            Ok(c) => {
                let (s2, r2) = import_outline(s1, os[k - 1]);
                match r2 {
                    Ok(taken) => (s2, Ok((if taken { c + 1 } else { c as int }) as usize)),
                    Err(e) => (s2, Err(e)),
                }
            },
        }
    }
}

/// Once importing stops on a refusal, the later outlines change nothing.
proof fn lemma_import_stops(s: DbState, os: Seq<OutlineView>, k: nat, m: nat)
    requires
        k <= m,
        import_outlines_spec(s, os, k).1 is Err,
    ensures
        import_outlines_spec(s, os, m) == import_outlines_spec(s, os, k),
    decreases m - k,
{
    if m > k {
        lemma_import_stops(s, os, k, (m - 1) as nat);
    }
}

/// Imports the outlines of an OPML document (see `import_outline`); returns how many feeds
/// were taken.
pub fn import_opml(db: &mut Database, outlines: &Vec<Outline>) -> (r: Result<usize, DbError>)
    requires
        old(db).wf(),
    ensures
        final(db).wf(),
        (final(db)@, r) == import_outlines_spec(
            old(db)@,
            outlines@.map_values(|o: Outline| o@),
            outlines@.len() as nat,
        ),
{
    let ghost os = outlines@.map_values(|o: Outline| o@);
    let ghost s0 = db@;
    let n = outlines.len();
    let mut count: usize = 0;
    let mut i: usize = 0;
    while i < n
        invariant
            n == outlines@.len(),
            os == outlines@.map_values(|o: Outline| o@),
            s0 == old(db)@,
            db.wf(),
            0 <= i <= n,
            count <= i,
            (db@, Ok::<usize, DbError>(count)) == import_outlines_spec(s0, os, i as nat),
        decreases n - i,
    {
        let o = &outlines[i];
        assert(os[i as int] == o@);
        match &o.xml_url {
            None => {},
            Some(u) => {
                match validate_feed_url(u.as_str()) {
                    Err(_) => {},
                    Ok(url) => {
                        let title = match &o.title {
                            Some(t) => t.clone(),
                            None => match &o.text {
                                Some(t) => t.clone(),
                                None => url.clone(),
                            },
                        };
                        let site: Option<&str> = match &o.html_url {
                            Some(h) => Some(h.as_str()),
                            None => None,
                        };
                        match db.upsert_feed(title.as_str(), site, url.as_str()) {
                            Ok(_) => {
                                count = count + 1;
                            },
                            Err(e) => {
                                proof {
                                    lemma_import_stops(s0, os, (i + 1) as nat, n as nat);
                                }
                                return Err(e);
                            },
                        }
                    },
                }
            },
        }
        i = i + 1;
    }
    Ok(count)
}

/// The outline written for a feed: its title as `text` and `title`, its URL as `xmlUrl`, its
/// site as `htmlUrl`.
pub open spec fn feed_outline(f: FeedView) -> OutlineView {
    OutlineView { text: Some(f.title), title: Some(f.title), xml_url: Some(f.feed_url), html_url: f.site_url }
}

/// The outlines for the feeds, in order.
pub fn outlines_for(feeds: &Vec<Feed>) -> (r: Vec<Outline>)
    ensures
        r@.map_values(|o: Outline| o@) == feeds@.map_values(|f: Feed| feed_outline(f@)),
{
    let mut out: Vec<Outline> = Vec::new();
    let n = feeds.len();
    let mut i: usize = 0;
    while i < n
        invariant
            n == feeds@.len(),
            0 <= i <= n,
            out@.len() == i,
            forall|k: int| 0 <= k < i ==> #[trigger] out@[k]@ == feed_outline(feeds@[k]@),
        decreases n - i,
    {
        let f = &feeds[i];
        out.push(Outline {
            text: Some(f.title.clone()),
            title: Some(f.title.clone()),
            xml_url: Some(f.feed_url.clone()),
            html_url: clone_opt(&f.site_url),
        });
        i = i + 1;
    }
    assert(out@.map_values(|o: Outline| o@) =~= feeds@.map_values(|f: Feed| feed_outline(f@)));
    out
}

/// The outlines of the OPML export: one per active feed, in the order of `all_feeds`.
pub fn export_opml(db: &Database) -> (r: Result<Vec<Outline>, DbError>)
    requires
        db.wf(),
    ensures
        r matches Ok(os) && exists|v: Seq<FeedView>|
            db@.is_feed_listing(v) && os@.map_values(|o: Outline| o@) == v.map_values(|f: FeedView| feed_outline(f)),
{
    let feeds = match db.all_feeds() {
        Ok(v) => v,
        Err(e) => return Err(e),
    };
    let os = outlines_for(&feeds);
    proof {
        let v = feeds@.map_values(|f: Feed| f@);
        assert(feeds@.map_values(|f: Feed| feed_outline(f@)) =~= v.map_values(|f: FeedView| feed_outline(f)));
    }
    Ok(os)
}

/// `s` with every occurrence of `pat` removed, scanning from the left (what
/// `str::replace(pat, "")` gives for a non-empty `pat`).
pub open spec fn remove_all(s: Seq<char>, pat: Seq<char>) -> Seq<char>
    decreases s.len(),
{
    if s.len() == 0 || pat.len() == 0 {
        s
    } else if pat.len() <= s.len() && s.take(pat.len() as int) == pat {
        remove_all(s.skip(pat.len() as int), pat)
    } else {
        seq![s[0]] + remove_all(s.drop_first(), pat)
    }
}

/// Whether `pat` occurs in `s` at position `i`.
fn occurs_at(s: &Vec<char>, pat: &Vec<char>, i: usize) -> (r: bool)
    requires
        i <= s@.len(),
    ensures
        r == (pat@.len() <= s@.len() - i && s@.skip(i as int).take(pat@.len() as int) == pat@),
{
    let n = s.len();
    let m = pat.len();
    if m > n - i {
        return false;
    }
    let mut k: usize = 0;
    while k < m
        invariant
            n == s@.len(),
            m == pat@.len(),
            i + m <= n,
            0 <= k <= m,
            forall|j: int| 0 <= j < k ==> s@[i + j] == pat@[j],
        decreases m - k,
    {
        if s[i + k] != pat[k] {
            assert(s@.skip(i as int).take(m as int)[k as int] != pat@[k as int]);
            return false;
        }
        k = k + 1;
    }
    assert(s@.skip(i as int).take(m as int) =~= pat@);
    true
}

/// `s` with every occurrence of `pat` removed, from the left.
pub fn remove_all_exec(s: &str, pat: &str) -> (r: String)
    ensures
        r@ == remove_all(s@, pat@),
{
    let v = crate::text::chars_of(s);
    let p = crate::text::chars_of(pat);
    let n = v.len();
    let m = p.len();
    if m == 0 {
        return s.to_string();
    }
    let mut out: Vec<char> = Vec::new();
    let mut i: usize = 0;
    proof {
        assert(v@.skip(0) =~= v@);
        assert(out@ + remove_all(v@, p@) =~= remove_all(v@, p@));
    }
    while i < n
        invariant
            n == v@.len(),
            m == p@.len(),
            m > 0,
            v@ == s@,
            p@ == pat@,
            0 <= i <= n,
            out@ + remove_all(v@.skip(i as int), p@) == remove_all(v@, p@),
        decreases n - i,
    {
        let ghost rest = v@.skip(i as int);
        if occurs_at(&v, &p, i) {
            proof {
                assert(rest.skip(m as int) =~= v@.skip(i + m));
            }
            i = i + m;
        } else {
            proof {
                assert(rest.drop_first() =~= v@.skip(i + 1));
                assert(rest[0] == v@[i as int]);
                assert(out@.push(v@[i as int]) + remove_all(v@.skip(i + 1), p@) =~= out@ + (seq![rest[0]]
                    + remove_all(rest.drop_first(), p@)));
            }
            out.push(v[i]);
            i = i + 1;
        }
    }
    proof {
        assert(v@.skip(n as int) =~= Seq::<char>::empty());
        assert(v@.skip(0) =~= v@);
    }
    string_from_chars(&out)
}

/// The OPML document around a serialized body: the XML declaration and the `opml` element,
/// with the serializer's own `<Opml>` and `</Opml>` tags taken out of the body.
pub open spec fn opml_document_spec(body: Seq<char>) -> Seq<char> {
    "<?xml version=\"1.0\" encoding=\"UTF-8\"?>\n<opml version=\"2.0\">\n"@ + remove_all(
        remove_all(body, "<Opml>"@),
        "</Opml>"@,
    ) + "\n</opml>\n"@
}

/// The OPML document around a serialized body (see `opml_document_spec`).
pub fn opml_document(body: &str) -> (r: String)
    ensures
        r@ == opml_document_spec(body@),
{
    let inner = remove_all_exec(body, "<Opml>");
    let inner = remove_all_exec(inner.as_str(), "</Opml>");
    let mut xml = "<?xml version=\"1.0\" encoding=\"UTF-8\"?>\n<opml version=\"2.0\">\n".to_string();
    xml.append(inner.as_str());
    xml.append("\n</opml>\n");
    xml
}

} // verus!
