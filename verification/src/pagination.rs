//! Ordering, deduplication and pagination of escrow identifier sets.
//!
//! A page starts strictly after a given identifier and holds at most
//! `limit` entries. The lemmas at the bottom state the pagination laws:
//! pages are strictly ordered, a page shorter than its limit has
//! exhausted the listing, and feeding a page's last identifier back as
//! the next start continues the listing with no repeats and no gaps.

use vstd::prelude::*;

verus! {

/// Ascending with no repeats.
pub open spec fn strictly_sorted(s: Seq<u64>) -> bool {
    forall|i: int, j: int| 0 <= i < j < s.len() ==> s[i] < s[j]
}

/// Keeps the identifiers strictly greater than `start`.
pub open spec fn above(start: u64) -> spec_fn(u64) -> bool {
    |x: u64| x > start
}

/// The identifiers of `s` strictly greater than `start`, in order.
pub open spec fn ids_above(s: Seq<u64>, start: u64) -> Seq<u64> {
    s.filter(above(start))
}

/// One page: the first `limit` identifiers of `s` strictly greater
/// than `start`, in the order `s` gives them.
pub open spec fn page_of(s: Seq<u64>, start: u64, limit: int) -> Seq<u64> {
    let f = ids_above(s, start);
    if f.len() <= limit {
        f
    } else {
        f.take(limit)
    }
}

/// Inserts `x` into an ascending duplicate-free list, keeping it so;
/// a no-op when `x` is already present.
fn insert_sorted(r: &mut Vec<u64>, x: u64)
    requires
        strictly_sorted(old(r)@),
    ensures
        strictly_sorted(final(r)@),
        forall|y: u64| final(r)@.contains(y) <==> (old(r)@.contains(y) || y == x),
{
    let n = r.len();
    let mut p: usize = 0;
    while p < n && r[p] < x
        invariant
            n == r@.len(),
            0 <= p <= n,
            forall|k: int| 0 <= k < p ==> r@[k] < x,
        decreases n - p,
    {
        p += 1;
    }
    if p < n && r[p] == x {
        assert(r@.contains(x));
        return ;
    }
    let ghost pre = r@;
    r.insert(p, x);
    proof {
        assert(r@ =~= pre.take(p as int).push(x) + pre.skip(p as int));
        assert forall|k: int| p < k < r@.len() implies r@[k] == pre[k - 1] by {}
        assert(r@[p as int] == x);
        assert forall|i: int, j: int| 0 <= i < j < r@.len() implies r@[i] < r@[j] by {
            if j < p {
            } else if i < p && j == p {
            } else if i < p && j > p {
                assert(r@[i] == pre[i] && r@[j] == pre[j - 1]);
                if j - 1 == p {
                } else {
                    assert(pre[p as int] > x);
                }
            } else if i == p {
                assert(pre[p as int] > x);
                assert(r@[j] == pre[j - 1] && pre[j - 1] >= pre[p as int]);
            } else {
                assert(r@[i] == pre[i - 1] && r@[j] == pre[j - 1]);
            }
        }
        assert forall|y: u64| r@.contains(y) implies (pre.contains(y) || y == x) by {
            let k = choose|k: int| 0 <= k < r@.len() && r@[k] == y;
            if k < p {
                assert(pre[k] == y);
            } else if k > p {
                assert(pre[k - 1] == y);
            }
        }
        assert forall|y: u64| pre.contains(y) implies r@.contains(y) by {
            let k = choose|k: int| 0 <= k < pre.len() && pre[k] == y;
            if k < p {
                assert(r@[k] == y);
            } else {
                assert(r@[k + 1] == y);
            }
        }
        assert(r@.contains(x));
    }
}

/// The identifiers of `v` in ascending order, each once.
pub fn sorted_distinct(v: &Vec<u64>) -> (r: Vec<u64>)
    ensures
        strictly_sorted(r@),
        forall|y: u64| r@.contains(y) <==> v@.contains(y),
{
    let n = v.len();
    let mut r: Vec<u64> = Vec::new();
    let mut i: usize = 0;
    while i < n
        invariant
            n == v@.len(),
            0 <= i <= n,
            strictly_sorted(r@),
            forall|y: u64| r@.contains(y) <==> v@.take(i as int).contains(y),
        decreases n - i,
    {
        let x = v[i];
        let ghost before = r@;
        insert_sorted(&mut r, x);
        proof {
            assert(v@.take(i + 1) =~= v@.take(i as int).push(x));
            assert forall|y: u64| r@.contains(y) <==> v@.take(i + 1).contains(y) by {
                assert(r@.contains(y) <==> (before.contains(y) || y == x));
                if v@.take(i + 1).contains(y) {
                    let k = choose|k: int|
                        0 <= k < v@.take(i + 1).len() && #[trigger] v@.take(i + 1)[k] == y;
                    if k < i {
                        assert(v@.take(i as int)[k] == y);
                        assert(v@.take(i as int).contains(y));
                    } else {
                        assert(y == x);
                    }
                }
                if v@.take(i as int).contains(y) {
                    let k = choose|k: int|
                        0 <= k < v@.take(i as int).len() && #[trigger] v@.take(i as int)[k] == y;
                    assert(v@.take(i + 1)[k] == y);
                    assert(v@.take(i + 1).contains(y));
                }
                if y == x {
                    assert(v@.take(i + 1)[i as int] == x);
                    assert(v@.take(i + 1).contains(y));
                }
            }
        }
        i += 1;
    }
    proof {
        assert(v@.take(n as int) =~= v@);
    }
    r
}

/// The page of `v` strictly after `start`, holding at most `limit`.
pub fn paginate_ids(v: &Vec<u64>, start: u64, limit: usize) -> (r: Vec<u64>)
    ensures
        r@ == page_of(v@, start, limit as int),
{
    let n = v.len();
    let mut r: Vec<u64> = Vec::new();
    let mut i: usize = 0;
    while i < n && r.len() < limit
        invariant
            n == v@.len(),
            0 <= i <= n,
            r@.len() <= limit,
            r@ == ids_above(v@.take(i as int), start),
        decreases n - i,
    {
        let x = v[i];
        if x > start {
            r.push(x);
        }
        proof {
            reveal_with_fuel(Seq::filter, 2);
            assert(v@.take(i + 1).drop_last() =~= v@.take(i as int));
            assert(v@.take(i + 1).last() == v@[i as int]);
        }
        i += 1;
    }
    proof {
        broadcast use vstd::seq_lib::group_seq_properties;

        if i == n {
            assert(v@.take(n as int) =~= v@);
            Seq::<u64>::lemma_filter_len(v@, above(start));
        } else {
            let fi = ids_above(v@.take(i as int), start);
            let rest = ids_above(v@.skip(i as int), start);
            Seq::<u64>::filter_distributes_over_add(
                v@.take(i as int),
                v@.skip(i as int),
                above(start),
            );
            assert(v@.take(i as int) + v@.skip(i as int) =~= v@);
            assert(ids_above(v@, start) == fi + rest);
            assert((fi + rest).take(limit as int) =~= fi);
        }
    }
    r
}

/// Two ascending duplicate-free listings of the same identifiers are
/// the same listing.
pub proof fn lemma_strictly_sorted_equal(a: Seq<u64>, b: Seq<u64>)
    requires
        strictly_sorted(a),
        strictly_sorted(b),
        forall|x: u64| a.contains(x) <==> b.contains(x),
    ensures
        a == b,
    decreases a.len(),
{
    if a.len() == 0 {
        if b.len() > 0 {
            assert(b.contains(b[0]));
            assert(a.contains(b[0]));
        }
        assert(a =~= b);
    } else {
        assert(a.contains(a[0]));
        assert(b.contains(a[0]));
        assert(b.len() > 0);
        let i = choose|i: int| 0 <= i < b.len() && b[i] == a[0];
        if i > 0 {
            assert(b[0] < a[0]);
            assert(b.contains(b[0]));
            assert(a.contains(b[0]));
            let k = choose|k: int| 0 <= k < a.len() && a[k] == b[0];
            assert(a[k] >= a[0]);
            assert(false);
        }
        assert(b[0] == a[0]);
        let at = a.drop_first();
        let bt = b.drop_first();
        assert forall|x: u64| at.contains(x) implies bt.contains(x) by {
            let k = choose|k: int| 0 <= k < at.len() && at[k] == x;
            assert(a[k + 1] == x);
            assert(x > a[0]);
            assert(a.contains(x));
            assert(b.contains(x));
            let m = choose|m: int| 0 <= m < b.len() && b[m] == x;
            assert(m > 0);
            assert(bt[m - 1] == x);
        }
        assert forall|x: u64| bt.contains(x) implies at.contains(x) by {
            let k = choose|k: int| 0 <= k < bt.len() && bt[k] == x;
            assert(b[k + 1] == x);
            assert(x > b[0]);
            assert(b.contains(x));
            assert(a.contains(x));
            let m = choose|m: int| 0 <= m < a.len() && a[m] == x;
            assert(m > 0);
            assert(at[m - 1] == x);
        }
        lemma_strictly_sorted_equal(at, bt);
        assert(a.len() == b.len());
        assert forall|k: int| 0 <= k < a.len() implies a[k] == b[k] by {
            if k > 0 {
                assert(at[k - 1] == bt[k - 1]);
            }
        }
        assert(a =~= b);
    }
}

/// Keeping only identifiers above a bound preserves ascending order.
pub proof fn lemma_filter_strict(s: Seq<u64>, p: spec_fn(u64) -> bool)
    requires
        strictly_sorted(s),
    ensures
        strictly_sorted(s.filter(p)),
    decreases s.len(),
{
    reveal_with_fuel(Seq::filter, 2);
    if s.len() > 0 {
        let d = s.drop_last();
        lemma_filter_strict(d, p);
        if p(s.last()) {
            let f = d.filter(p);
            assert forall|i: int| 0 <= i < f.len() implies f[i] < s.last() by {
                assert(f.contains(f[i]));
                d.lemma_filter_contains_rev(p, f[i]);
                let k = choose|k: int| 0 <= k < d.len() && d[k] == f[i];
                assert(s[k] < s.last());
            }
        }
    }
}

/// Filtering with a stronger bound can go through a weaker one first.
proof fn lemma_filter_filter_stronger(s: Seq<u64>, p: spec_fn(u64) -> bool, q: spec_fn(u64) -> bool)
    requires
        forall|x: u64| #[trigger] q(x) ==> p(x),
    ensures
        s.filter(q) == s.filter(p).filter(q),
    decreases s.len(),
{
    reveal_with_fuel(Seq::filter, 3);
    if s.len() > 0 {
        let d = s.drop_last();
        lemma_filter_filter_stronger(d, p, q);
        if p(s.last()) {
            assert(s.filter(p) == d.filter(p).push(s.last()));
            assert(d.filter(p).push(s.last()).drop_last() =~= d.filter(p));
        }
    }
}

/// In an ascending duplicate-free listing, the identifiers above the
/// one at position `i` are exactly the positions after `i`.
proof fn lemma_filter_above_index(f: Seq<u64>, i: int)
    requires
        strictly_sorted(f),
        0 <= i < f.len(),
    ensures
        ids_above(f, f[i]) == f.skip(i + 1),
{
    broadcast use vstd::seq_lib::group_filter_ensures;

    lemma_filter_strict(f, above(f[i]));
    let lhs = ids_above(f, f[i]);
    let rhs = f.skip(i + 1);
    assert(strictly_sorted(rhs));
    assert forall|y: u64| lhs.contains(y) implies rhs.contains(y) by {
        let k = choose|k: int| 0 <= k < lhs.len() && lhs[k] == y;
        assert(above(f[i])(lhs[k]));
        f.lemma_filter_contains_rev(above(f[i]), y);
        let m = choose|m: int| 0 <= m < f.len() && f[m] == y;
        assert(m > i);
        assert(rhs[m - i - 1] == y);
    }
    assert forall|y: u64| rhs.contains(y) implies lhs.contains(y) by {
        let k = choose|k: int| 0 <= k < rhs.len() && rhs[k] == y;
        assert(f[k + i + 1] == y);
        assert(y > f[i]);
        assert(above(f[i])(f[k + i + 1]));
        f.lemma_filter_contains(above(f[i]), k + i + 1);
    }
    lemma_strictly_sorted_equal(lhs, rhs);
}

/// A page of an ascending duplicate-free listing is ascending and
/// duplicate-free, and every identifier on it comes from the listing,
/// strictly after the start.
pub proof fn lemma_page_strictly_sorted(s: Seq<u64>, start: u64, limit: int)
    requires
        strictly_sorted(s),
        0 <= limit,
    ensures
        strictly_sorted(page_of(s, start, limit)),
        page_of(s, start, limit).len() <= limit,
        forall|i: int|
            0 <= i < page_of(s, start, limit).len() ==> #[trigger] page_of(s, start, limit)[i]
                > start && s.contains(page_of(s, start, limit)[i]),
{
    broadcast use vstd::seq_lib::group_filter_ensures;

    lemma_filter_strict(s, above(start));
    let f = ids_above(s, start);
    let p = page_of(s, start, limit);
    assert forall|i: int| 0 <= i < p.len() implies #[trigger] p[i] > start && s.contains(p[i]) by {
        assert(p[i] == f[i]);
        assert(above(start)(f[i]));
        assert(f.contains(f[i]));
        s.lemma_filter_contains_rev(above(start), f[i]);
    }
}

/// The identifiers above a page's last entry are exactly the rest of
/// the filtered listing.
proof fn lemma_page_suffix(s: Seq<u64>, start: u64, limit: int)
    requires
        strictly_sorted(s),
        0 <= limit,
        page_of(s, start, limit).len() > 0,
    ensures
        ids_above(s, page_of(s, start, limit).last()) == ids_above(s, start).skip(
            page_of(s, start, limit).len() as int,
        ),
        page_of(s, start, limit) == ids_above(s, start).take(page_of(s, start, limit).len() as int),
        page_of(s, start, limit).last() > start,
{
    broadcast use vstd::seq_lib::group_filter_ensures;

    lemma_filter_strict(s, above(start));
    let f = ids_above(s, start);
    let p = page_of(s, start, limit);
    let m = p.len() as int;
    assert(p =~= f.take(m));
    let last = p.last();
    assert(last == f[m - 1]);
    assert(above(start)(f[m - 1]));
    assert forall|x: u64| #[trigger] above(last)(x) implies above(start)(x) by {}
    lemma_filter_filter_stronger(s, above(start), above(last));
    lemma_filter_above_index(f, m - 1);
}

/// A page shorter than its limit has exhausted the listing.
pub proof fn lemma_page_exhausts(s: Seq<u64>, start: u64, limit: int)
    requires
        0 <= limit,
        page_of(s, start, limit).len() < limit,
    ensures
        page_of(s, start, limit) == ids_above(s, start),
{
}

/// Feeding a page's last identifier back as the next start continues
/// the listing: the two pages together are exactly the one page of
/// double the limit, with no repeats and no gaps.
pub proof fn lemma_pages_chain(s: Seq<u64>, start: u64, limit: int)
    requires
        strictly_sorted(s),
        0 <= limit,
        page_of(s, start, limit).len() > 0,
    ensures
        page_of(s, start, limit) + page_of(s, page_of(s, start, limit).last(), limit) == page_of(
            s,
            start,
            limit + limit,
        ),
{
    lemma_filter_strict(s, above(start));
    let f = ids_above(s, start);
    let p1 = page_of(s, start, limit);
    let m = p1.len() as int;
    lemma_page_suffix(s, start, limit);
    let last = p1.last();
    let g = f.skip(m);
    assert(ids_above(s, last) == g);
    let p2 = page_of(s, last, limit);
    if m < limit {
        assert(p1 == f);
        assert(g =~= Seq::<u64>::empty());
        assert(p2 =~= Seq::<u64>::empty());
        assert(p1 + p2 =~= f);
        assert(f.len() <= limit + limit);
    } else {
        assert(m == limit);
        if g.len() <= limit {
            assert(p2 == g);
            assert(p1 + p2 =~= f);
            assert(f.len() <= limit + limit);
        } else {
            assert(p2 == g.take(limit));
            assert(f.len() > limit + limit);
            assert(p1 + p2 =~= f.take(limit + limit));
        }
    }
}

} // verus!
