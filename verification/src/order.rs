use vstd::prelude::*;
use crate::text::{chars_lt, lemma_seq_lt_irreflexive, lemma_seq_lt_total, lemma_seq_lt_transitive, seq_lt};

verus! {

/// Whether the row with sort text `ka` and id `ia` comes before the row with `kb` and `ib`:
/// texts in code-point order (descending when `desc`), equal texts by increasing id.
pub open spec fn row_before(ka: Seq<char>, ia: i64, kb: Seq<char>, ib: i64, desc: bool) -> bool {
    if ka == kb {
        ia < ib
    } else if desc {
        seq_lt(kb, ka)
    } else {
        seq_lt(ka, kb)
    }
}

/// The row order is transitive.
pub proof fn lemma_row_before_transitive(
    ka: Seq<char>, ia: i64, kb: Seq<char>, ib: i64, kc: Seq<char>, ic: i64, desc: bool,
)
    requires
        row_before(ka, ia, kb, ib, desc),
        row_before(kb, ib, kc, ic, desc),
    ensures
        row_before(ka, ia, kc, ic, desc),
{
    if ka == kb {
    } else if kb == kc {
    } else if desc {
        lemma_seq_lt_transitive(kc, kb, ka);
        if ka == kc {
            lemma_seq_lt_irreflexive(ka);
        }
    } else {
        lemma_seq_lt_transitive(ka, kb, kc);
        if ka == kc {
            lemma_seq_lt_irreflexive(ka);
        }
    }
}

/// Any two rows are ordered one way or the other.
pub proof fn lemma_row_before_total(ka: Seq<char>, ia: i64, kb: Seq<char>, ib: i64, desc: bool)
    requires
        ia != ib,
    ensures
        row_before(ka, ia, kb, ib, desc) || row_before(kb, ib, ka, ia, desc),
{
    lemma_seq_lt_total(ka, kb);
}

/// Whether the positions `order` list rows in the order `row_before` gives.
pub open spec fn positions_sorted(keys: Seq<Seq<char>>, ids: Seq<i64>, order: Seq<usize>, desc: bool) -> bool {
    forall|i: int, j: int|
        0 <= i < j < order.len() ==> row_before(
            keys[#[trigger] order[i] as int],
            ids[order[i] as int],
            keys[#[trigger] order[j] as int],
            ids[order[j] as int],
            desc,
        )
}

/// Whether the row `(ka, ia)` comes before the row `(kb, ib)`.
fn row_before_exec(ka: &Vec<char>, ia: i64, kb: &Vec<char>, ib: i64, desc: bool) -> (r: bool)
    ensures
        r == row_before(ka@, ia, kb@, ib, desc),
{
    let a_lt_b = chars_lt(ka, kb);
    let b_lt_a = chars_lt(kb, ka);
    if !a_lt_b && !b_lt_a {
        proof {
            lemma_seq_lt_total(ka@, kb@);
        }
        ia < ib
    } else {
        proof {
            if ka@ == kb@ {
                lemma_seq_lt_irreflexive(ka@);
            }
        }
        if desc { b_lt_a } else { a_lt_b }
    }
}

/// The positions `selected`, reordered so that their rows come in `row_before` order. Ids of
/// different rows differ, so the order is the only one that sorts them.
pub fn sort_positions(
    keys: &Vec<Vec<char>>,
    ids: &Vec<i64>,
    selected: &Vec<usize>,
    desc: bool,
) -> (order: Vec<usize>)
    requires
        keys@.len() == ids@.len(),
        forall|k: int| 0 <= k < selected@.len() ==> #[trigger] selected@[k] < ids@.len(),
        forall|a: int, b: int| 0 <= a < b < selected@.len() ==> #[trigger] selected@[a] != #[trigger] selected@[b],
        forall|a: int, b: int|
            0 <= a < ids@.len() && 0 <= b < ids@.len() && a != b ==> #[trigger] ids@[a] != #[trigger] ids@[b],
    ensures
        order@.len() == selected@.len(),
        forall|x: usize| order@.contains(x) <==> selected@.contains(x),
        positions_sorted(keys@.map_values(|k: Vec<char>| k@), ids@, order@, desc),
{
    let ghost kv = keys@.map_values(|k: Vec<char>| k@);
    let mut order: Vec<usize> = Vec::new();
    let n = selected.len();
    let mut s: usize = 0;
    while s < n
        invariant
            n == selected@.len(),
            kv == keys@.map_values(|k: Vec<char>| k@),
            keys@.len() == ids@.len(),
            forall|k: int| 0 <= k < selected@.len() ==> #[trigger] selected@[k] < ids@.len(),
            forall|a: int, b: int| 0 <= a < b < selected@.len() ==> #[trigger] selected@[a] != #[trigger] selected@[b],
            forall|a: int, b: int|
                0 <= a < ids@.len() && 0 <= b < ids@.len() && a != b ==> #[trigger] ids@[a] != #[trigger] ids@[b],
            0 <= s <= n,
            order@.len() == s,
            forall|k: int| 0 <= k < order@.len() ==> #[trigger] order@[k] < ids@.len(),
            forall|x: usize| order@.contains(x) <==> selected@.take(s as int).contains(x),
            positions_sorted(kv, ids@, order@, desc),
        decreases n - s,
    {
        let x = selected[s];
        let m = order.len();
        let mut p: usize = 0;
        while p < m && row_before_exec(&keys[order[p]], ids[order[p]], &keys[x], ids[x], desc)
            invariant
                m == order@.len(),
                x < ids@.len(),
                keys@.len() == ids@.len(),
                kv == keys@.map_values(|k: Vec<char>| k@),
                forall|k: int| 0 <= k < order@.len() ==> #[trigger] order@[k] < ids@.len(),
                0 <= p <= m,
                forall|k: int| 0 <= k < p ==> row_before(
                    kv[#[trigger] order@[k] as int],
                    ids@[order@[k] as int],
                    kv[x as int],
                    ids@[x as int],
                    desc,
                ),
            decreases m - p,
        {
            p = p + 1;
        }
        proof {
            assert(selected@.take(s as int).push(x) =~= selected@.take(s + 1));
            assert(!order@.contains(x)) by {
                if order@.contains(x) {
                    let k = choose|k: int| 0 <= k < s && selected@.take(s as int)[k] == x;
                    assert(selected@[k] == selected@[s as int]);
                }
            }
            if p < m {
                let q = order@[p as int];
                assert(order@.contains(q));
                assert(q != x);
                assert(ids@[q as int] != ids@[x as int]);
                lemma_row_before_total(kv[q as int], ids@[q as int], kv[x as int], ids@[x as int], desc);
                assert forall|k: int| p <= k < m implies row_before(
                    kv[x as int],
                    ids@[x as int],
                    kv[#[trigger] order@[k] as int],
                    ids@[order@[k] as int],
                    desc,
                ) by {
                    if k > p {
                        lemma_row_before_transitive(
                            kv[x as int], ids@[x as int], kv[q as int], ids@[q as int],
                            kv[order@[k] as int], ids@[order@[k] as int], desc,
                        );
                    }
                }
            }
        }
        let ghost old_order = order@;
        order.insert(p, x);
        proof {
            let no = order@;
            assert(no =~= old_order.insert(p as int, x));
            assert forall|k: int| 0 <= k < no.len() implies #[trigger] no[k] < ids@.len() by {
                if k < p {
                    assert(no[k] == old_order[k]);
                } else if k > p {
                    assert(no[k] == old_order[k - 1]);
                }
            }
            assert forall|i: int, j: int| 0 <= i < j < no.len() implies row_before(
                kv[#[trigger] no[i] as int],
                ids@[no[i] as int],
                kv[#[trigger] no[j] as int],
                ids@[no[j] as int],
                desc,
            ) by {
                if j < p {
                    assert(no[i] == old_order[i] && no[j] == old_order[j]);
                } else if j == p {
                    assert(no[i] == old_order[i]);
                } else if i < p {
                    assert(no[i] == old_order[i] && no[j] == old_order[j - 1]);
                    lemma_row_before_transitive(
                        kv[no[i] as int], ids@[no[i] as int], kv[x as int], ids@[x as int],
                        kv[no[j] as int], ids@[no[j] as int], desc,
                    );
                } else if i == p {
                    assert(no[j] == old_order[j - 1]);
                } else {
                    assert(no[i] == old_order[i - 1] && no[j] == old_order[j - 1]);
                }
            }
            assert forall|y: usize| no.contains(y) <==> selected@.take(s + 1).contains(y) by {
                if no.contains(y) {
                    let k = choose|k: int| 0 <= k < no.len() && no[k] == y;
                    if k < p {
                        assert(old_order[k] == y);
                        assert(old_order.contains(y));
                    } else if k > p {
                        assert(old_order[k - 1] == y);
                        assert(old_order.contains(y));
                    }
                    let t = selected@.take(s as int);
                    if k == p {
                        assert(no[k] == x);
                        assert(t.push(x)[t.len() as int] == x);
                    } else {
                        let k2 = choose|k2: int| 0 <= k2 < t.len() && t[k2] == y;
                        assert(t.push(x)[k2] == y);
                    }
                    assert(t.push(x).contains(y));
                }
                if selected@.take(s + 1).contains(y) {
                    assert(selected@.take(s as int).push(x).contains(y));
                    if y == x {
                        assert(no[p as int] == x);
                    } else {
                        assert(selected@.take(s as int).contains(y));
                        assert(old_order.contains(y));
                        let k = choose|k: int| 0 <= k < old_order.len() && old_order[k] == y;
                        if k < p {
                            assert(no[k] == y);
                        } else {
                            assert(no[k + 1] == y);
                        }
                    }
                }
            }
        }
        s = s + 1;
    }
    proof {
        assert(selected@.take(n as int) =~= selected@);
    }
    order
}

} // verus!

verus! {

/// Two sequences that a strict order sorts and that hold the same elements are equal.
pub proof fn lemma_sorted_unique(a: Seq<i64>, b: Seq<i64>, lt: spec_fn(i64, i64) -> bool)
    requires
        forall|x: i64, y: i64, z: i64| #[trigger] lt(x, y) && #[trigger] lt(y, z) ==> lt(x, z),
        forall|x: i64| !#[trigger] lt(x, x),
        forall|i: int, j: int| 0 <= i < j < a.len() ==> lt(#[trigger] a[i], #[trigger] a[j]),
        forall|i: int, j: int| 0 <= i < j < b.len() ==> lt(#[trigger] b[i], #[trigger] b[j]),
        forall|x: i64| a.contains(x) <==> b.contains(x),
    ensures
        a == b,
    decreases a.len(),
{
    if a.len() == 0 {
        if b.len() > 0 {
            assert(b.contains(b[0]));
        }
        assert(a =~= b);
    } else if b.len() == 0 {
        assert(a.contains(a[0]));
    } else {
        assert(b.contains(b[0]));
        assert(a.contains(a[0]));
        let j = choose|j: int| 0 <= j < a.len() && a[j] == b[0];
        let k = choose|k: int| 0 <= k < b.len() && b[k] == a[0];
        if j != 0 {
            assert(lt(a[0], a[j]));
            if k == 0 {
                assert(lt(a[0], a[0]));
            } else {
                assert(lt(b[0], b[k]));
                assert(lt(a[0], b[0]) && lt(b[0], a[0]));
                assert(lt(a[0], a[0]));
            }
        }
        assert(a[0] == b[0]);
        let ta = a.drop_first();
        let tb = b.drop_first();
        assert forall|x: i64| ta.contains(x) <==> tb.contains(x) by {
            if ta.contains(x) {
                let p = choose|p: int| 0 <= p < ta.len() && ta[p] == x;
                assert(a[p + 1] == x);
                assert(lt(a[0], a[p + 1]));
                assert(a.contains(x));
                assert(b.contains(x));
                let q = choose|q: int| 0 <= q < b.len() && b[q] == x;
                if q == 0 {
                    assert(lt(x, x));
                }
                assert(tb[q - 1] == x);
            }
            if tb.contains(x) {
                let p = choose|p: int| 0 <= p < tb.len() && tb[p] == x;
                assert(b[p + 1] == x);
                assert(lt(b[0], b[p + 1]));
                assert(b.contains(x));
                assert(a.contains(x));
                let q = choose|q: int| 0 <= q < a.len() && a[q] == x;
                if q == 0 {
                    assert(lt(x, x));
                }
                assert(ta[q - 1] == x);
            }
        }
        assert forall|i: int, j: int| 0 <= i < j < ta.len() implies lt(#[trigger] ta[i], #[trigger] ta[j]) by {
            assert(ta[i] == a[i + 1] && ta[j] == a[j + 1]);
        }
        assert forall|i: int, j: int| 0 <= i < j < tb.len() implies lt(#[trigger] tb[i], #[trigger] tb[j]) by {
            assert(tb[i] == b[i + 1] && tb[j] == b[j + 1]);
        }
        lemma_sorted_unique(ta, tb, lt);
        assert(a =~= seq![a[0]] + ta);
        assert(b =~= seq![b[0]] + tb);
    }
}

} // verus!
