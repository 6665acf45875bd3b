use vstd::prelude::*;

verus! {

// The feed parser reads "normal play time" values (`<itunes:duration>` text, and the `start`,
// `end` and `time` attributes of Media RSS elements) with a pattern whose digits may be any
// Unicode digits and turns each run into a `u64` with `unwrap`, multiplying hours by 3600. A run
// of non-ASCII digits, a run too long for a `u64` or an hour count that overflows makes it
// panic. `parser_safe` holds of the bodies where every such value is plain: ASCII digits (at
// most 15 in a run), ':', '.' and white space, with no entity or CDATA in between. It looks
// wider than the parser (any element whose name ends in "duration", any such attribute on any
// element), so it holds of every body that could reach those lines with a bad value.

/// The longest run of digits a plain time value may hold.
pub const MAX_DIGITS: usize = 15;

/// XML white space.
pub open spec fn is_ws(b: u8) -> bool {
    b == 32 || b == 9 || b == 10 || b == 13
}

/// An ASCII digit.
pub open spec fn is_digit(b: u8) -> bool {
    48 <= b <= 57
}

/// A byte that a plain time value may hold besides digits: ':', '.' or white space.
pub open spec fn is_time_mark(b: u8) -> bool {
    b == 58 || b == 46 || is_ws(b)
}

/// The end of the tag name that starts at `k`: the first white space, '/' or '>'.
pub open spec fn name_end(s: Seq<u8>, k: int) -> int
    decreases s.len() - k,
{
    if k < 0 || k >= s.len() || is_ws(s[k]) || s[k] == 47 || s[k] == 62 {
        k
    } else {
        name_end(s, k + 1)
    }
}

/// The first '>' at or after `k` (the length when there is none).
pub open spec fn find_gt(s: Seq<u8>, k: int) -> int
    decreases s.len() - k,
{
    if k < 0 || k >= s.len() || s[k] == 62 {
        k
    } else {
        find_gt(s, k + 1)
    }
}

/// The text from `k` on, after `digits` digits in a row, is a plain time value closed by an end
/// tag.
pub open spec fn text_plain(s: Seq<u8>, k: int, digits: nat) -> bool
    decreases s.len() - k,
{
    if k < 0 || k >= s.len() {
        false
    } else if s[k] == 60 {
        k + 1 < s.len() && s[k + 1] == 47
    } else if is_digit(s[k]) {
        digits < MAX_DIGITS && text_plain(s, k + 1, digits + 1)
    } else if is_time_mark(s[k]) {
        text_plain(s, k + 1, 0)
    } else {
        false
    }
}

/// The attribute value from `k` on, after `digits` digits in a row, is a plain time value closed
/// by the quote `q`.
pub open spec fn value_plain(s: Seq<u8>, k: int, q: u8, digits: nat) -> bool
    decreases s.len() - k,
{
    if k < 0 || k >= s.len() {
        false
    } else if s[k] == q {
        true
    } else if is_digit(s[k]) {
        digits < MAX_DIGITS && value_plain(s, k + 1, q, digits + 1)
    } else if is_time_mark(s[k]) {
        value_plain(s, k + 1, q, 0)
    } else {
        false
    }
}

/// The first position at or after `k` that is not white space.
pub open spec fn skip_ws(s: Seq<u8>, k: int) -> int
    decreases s.len() - k,
{
    if k < 0 || k >= s.len() || !is_ws(s[k]) {
        k
    } else {
        skip_ws(s, k + 1)
    }
}

/// Whether the bytes `p` stand at position `i`.
pub open spec fn bytes_at(s: Seq<u8>, i: int, p: Seq<u8>) -> bool {
    0 <= i && i + p.len() <= s.len() && s.subrange(i, i + p.len()) == p
}

/// "duration".
pub open spec fn duration_name() -> Seq<u8> {
    seq![100u8, 117, 114, 97, 116, 105, 111, 110]
}

/// Whether the tag name from `b` to `e` is "duration" with or without a prefix.
pub open spec fn names_duration(s: Seq<u8>, b: int, e: int) -> bool {
    &&& e - b >= 8
    &&& bytes_at(s, e - 8, duration_name())
    &&& (e - 8 == b || s[e - 9] == 58)
}

/// A start tag at `i` that names a duration element has, unless it is empty, a plain time value
/// as its text.
pub open spec fn tag_ok(s: Seq<u8>, i: int) -> bool {
    (s[i] == 60 && i + 1 < s.len() && s[i + 1] != 47 && s[i + 1] != 33 && s[i + 1] != 63 && names_duration(
        s,
        i + 1,
        name_end(s, i + 1),
    )) ==> {
        let g = find_gt(s, name_end(s, i + 1));
        g >= s.len() || s[g - 1] == 47 || text_plain(s, g + 1, 0)
    }
}

/// An attribute named `p` at `i` (after white space or a prefix), when its value is quoted, has
/// a plain time value.
pub open spec fn attr_ok(s: Seq<u8>, i: int, p: Seq<u8>) -> bool {
    (i >= 1 && (is_ws(s[i - 1]) || s[i - 1] == 58) && bytes_at(s, i, p)) ==> {
        let j = skip_ws(s, i + p.len());
        (j < s.len() && s[j] == 61) ==> {
            let k = skip_ws(s, j + 1);
            (k < s.len() && (s[k] == 34 || s[k] == 39)) ==> value_plain(s, k + 1, s[k], 0)
        }
    }
}

/// "start", "end" and "time".
pub open spec fn time_attr_names() -> Seq<Seq<u8>> {
    seq![seq![115u8, 116, 97, 114, 116], seq![101u8, 110, 100], seq![116u8, 105, 109, 101]]
}

/// Whether the feed parser can read `body` without reaching a bad time value: no NUL byte (so
/// the text is in an ASCII-compatible encoding), and every duration element and every `start`,
/// `end` or `time` attribute holds a plain time value.
pub open spec fn parser_safe(body: Seq<u8>) -> bool {
    forall|i: int|
        0 <= i < body.len() ==> {
            &&& #[trigger] body[i] != 0
            &&& tag_ok(body, i)
            &&& attr_ok(body, i, time_attr_names()[0])
            &&& attr_ok(body, i, time_attr_names()[1])
            &&& attr_ok(body, i, time_attr_names()[2])
        }
}

fn name_end_exec(s: &[u8], k: usize) -> (r: usize)
    requires
        k <= s@.len(),
    ensures
        r as int == name_end(s@, k as int),
        k <= r <= s@.len(),
{
    let mut i = k;
    while i < s.len() && !(s[i] == 32 || s[i] == 9 || s[i] == 10 || s[i] == 13 || s[i] == 47 || s[i] == 62)
        invariant
            k <= i <= s@.len(),
            name_end(s@, i as int) == name_end(s@, k as int),
        decreases s@.len() - i,
    {
        i = i + 1;
    }
    i
}

fn find_gt_exec(s: &[u8], k: usize) -> (r: usize)
    requires
        k <= s@.len(),
    ensures
        r as int == find_gt(s@, k as int),
        k <= r <= s@.len(),
{
    let mut i = k;
    while i < s.len() && s[i] != 62
        invariant
            k <= i <= s@.len(),
            find_gt(s@, i as int) == find_gt(s@, k as int),
        decreases s@.len() - i,
    {
        i = i + 1;
    }
    i
}

fn skip_ws_exec(s: &[u8], k: usize) -> (r: usize)
    requires
        k <= s@.len(),
    ensures
        r as int == skip_ws(s@, k as int),
        k <= r <= s@.len(),
{
    let mut i = k;
    while i < s.len() && (s[i] == 32 || s[i] == 9 || s[i] == 10 || s[i] == 13)
        invariant
            k <= i <= s@.len(),
            skip_ws(s@, i as int) == skip_ws(s@, k as int),
        decreases s@.len() - i,
    {
        i = i + 1;
    }
    i
}

/// Whether the text from `k` on is a plain time value closed by an end tag.
fn text_plain_exec(s: &[u8], k: usize) -> (r: bool)
    ensures
        r == text_plain(s@, k as int, 0),
{
    let mut i = k;
    let mut digits: usize = 0;
    while i < s.len()
        invariant
            k <= i,
            digits <= MAX_DIGITS,
            text_plain(s@, i as int, digits as nat) == text_plain(s@, k as int, 0),
        decreases s@.len() - i,
    {
        let b = s[i];
        if b == 60 {
            return i + 1 < s.len() && s[i + 1] == 47;
        } else if 48 <= b && b <= 57 {
            if digits >= MAX_DIGITS {
                return false;
            }
            digits = digits + 1;
        } else if b == 58 || b == 46 || b == 32 || b == 9 || b == 10 || b == 13 {
            digits = 0;
        } else {
            return false;
        }
        i = i + 1;
    }
    false
}

/// Whether the attribute value from `k` on is a plain time value closed by the quote `q`.
fn value_plain_exec(s: &[u8], k: usize, q: u8) -> (r: bool)
    ensures
        r == value_plain(s@, k as int, q, 0),
{
    let mut i = k;
    let mut digits: usize = 0;
    while i < s.len()
        invariant
            k <= i,
            digits <= MAX_DIGITS,
            value_plain(s@, i as int, q, digits as nat) == value_plain(s@, k as int, q, 0),
        decreases s@.len() - i,
    {
        let b = s[i];
        if b == q {
            return true;
        } else if 48 <= b && b <= 57 {
            if digits >= MAX_DIGITS {
                return false;
            }
            digits = digits + 1;
        } else if b == 58 || b == 46 || b == 32 || b == 9 || b == 10 || b == 13 {
            digits = 0;
        } else {
            return false;
        }
        i = i + 1;
    }
    false
}

/// Whether the bytes `p` stand at position `i`.
fn bytes_at_exec(s: &[u8], i: usize, p: &Vec<u8>) -> (r: bool)
    ensures
        r == bytes_at(s@, i as int, p@),
{
    if i > s.len() || p.len() > s.len() - i {
        return false;
    }
    let mut k: usize = 0;
    while k < p.len()
        invariant
            i + p@.len() <= s@.len(),
            s@.len() <= usize::MAX,
            0 <= k <= p@.len(),
            forall|m: int| 0 <= m < k ==> s@[i + m] == p@[m],
        decreases p@.len() - k,
    {
        if s[i + k] != p[k] {
            assert(s@.subrange(i as int, i + p@.len())[k as int] != p@[k as int]);
            return false;
        }
        k = k + 1;
    }
    assert(s@.subrange(i as int, i + p@.len()) =~= p@);
    true
}

/// Whether the start tag (if any) at `i` keeps to `tag_ok`.
fn tag_ok_exec(s: &[u8], i: usize, duration: &Vec<u8>) -> (r: bool)
    requires
        i < s@.len(),
        duration@ == duration_name(),
    ensures
        r == tag_ok(s@, i as int),
{
    if !(s[i] == 60 && i + 1 < s.len() && s[i + 1] != 47 && s[i + 1] != 33 && s[i + 1] != 63) {
        return true;
    }
    let e = name_end_exec(s, i + 1);
    let named = e - (i + 1) >= 8 && bytes_at_exec(s, e - 8, duration) && (e - 8 == i + 1 || s[e - 9] == 58);
    if !named {
        return true;
    }
    let g = find_gt_exec(s, e);
    g >= s.len() || s[g - 1] == 47 || text_plain_exec(s, g + 1)
}

/// Whether the attribute (if any) named `p` at `i` keeps to `attr_ok`.
fn attr_ok_exec(s: &[u8], i: usize, p: &Vec<u8>) -> (r: bool)
    requires
        i < s@.len(),
    ensures
        r == attr_ok(s@, i as int, p@),
{
    if !(i >= 1 && (s[i - 1] == 32 || s[i - 1] == 9 || s[i - 1] == 10 || s[i - 1] == 13 || s[i - 1] == 58)
        && bytes_at_exec(s, i, p)) {
        return true;
    }
    let j = skip_ws_exec(s, i + p.len());
    if !(j < s.len() && s[j] == 61) {
        return true;
    }
    let k = skip_ws_exec(s, j + 1);
    if !(k < s.len() && (s[k] == 34 || s[k] == 39)) {
        return true;
    }
    value_plain_exec(s, k + 1, s[k])
}

/// Whether the feed parser can read `body` without reaching a bad time value (see
/// `parser_safe`).
pub fn parser_safe_exec(body: &[u8]) -> (r: bool)
    ensures
        r == parser_safe(body@),
{
    let duration: Vec<u8> = vec![100u8, 117, 114, 97, 116, 105, 111, 110];
    let start: Vec<u8> = vec![115u8, 116, 97, 114, 116];
    let end: Vec<u8> = vec![101u8, 110, 100];
    let time: Vec<u8> = vec![116u8, 105, 109, 101];
    assert(duration@ =~= duration_name());
    assert(start@ =~= time_attr_names()[0]);
    assert(end@ =~= time_attr_names()[1]);
    assert(time@ =~= time_attr_names()[2]);
    let n = body.len();
    let mut i: usize = 0;
    while i < n
        invariant
            n == body@.len(),
            0 <= i <= n,
            duration@ == duration_name(),
            start@ == time_attr_names()[0],
            end@ == time_attr_names()[1],
            time@ == time_attr_names()[2],
            forall|k: int|
                0 <= k < i ==> {
                    &&& #[trigger] body@[k] != 0
                    &&& tag_ok(body@, k)
                    &&& attr_ok(body@, k, time_attr_names()[0])
                    &&& attr_ok(body@, k, time_attr_names()[1])
                    &&& attr_ok(body@, k, time_attr_names()[2])
                },
        decreases n - i,
    {
        if body[i] == 0 || !tag_ok_exec(body, i, &duration) || !attr_ok_exec(body, i, &start) || !attr_ok_exec(
            body,
            i,
            &end,
        ) || !attr_ok_exec(body, i, &time) {
            assert(!({
                &&& body@[i as int] != 0
                &&& tag_ok(body@, i as int)
                &&& attr_ok(body@, i as int, time_attr_names()[0])
                &&& attr_ok(body@, i as int, time_attr_names()[1])
                &&& attr_ok(body@, i as int, time_attr_names()[2])
            }));
            return false;
        }
        i = i + 1;
    }
    true
}

} // verus!
