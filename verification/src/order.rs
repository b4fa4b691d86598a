//! Ordering and pagination arithmetic over candidate id sets.
//!
//! Query results are served newest first, that is by descending id, and
//! windowed into pages of a caller-chosen size. This module holds the
//! verified sorting and windowing routines, the notion of the rank of an
//! id within a candidate set (how many candidates precede it in
//! newest-first order), and the lemmas tying a page window to ranks —
//! including the law that concatenating consecutive pages reproduces the
//! whole newest-first listing.

use vstd::prelude::*;

verus! {

broadcast use vstd::seq_lib::group_seq_properties;

/// Strictly increasing: sorted ascending with no duplicates.
pub open spec fn strictly_asc(s: Seq<i64>) -> bool {
    forall|i: int, j: int| 0 <= i < j < s.len() ==> s[i] < s[j]
}

/// Strictly decreasing: newest-first order with no duplicates.
pub open spec fn strictly_desc(s: Seq<i64>) -> bool {
    forall|i: int, j: int| 0 <= i < j < s.len() ==> s[i] > s[j]
}

/// The window of `s` that page `p` of size `n` shows: the elements with
/// positions in [n*p, n*p + n), clipped to the end of the listing.
pub open spec fn page_of(s: Seq<i64>, n: nat, p: nat) -> Seq<i64> {
    if n * p >= s.len() {
        Seq::empty()
    } else if n * p + n <= s.len() {
        s.subrange((n * p) as int, (n * p + n) as int)
    } else {
        s.subrange((n * p) as int, s.len() as int)
    }
}

/// The rank of `f` in the candidate set `c`: how many candidates come
/// before it in newest-first (descending id) order.
pub open spec fn rank_in(c: Set<i64>, f: i64) -> nat {
    Set::new(|g: i64| c.contains(g) && g > f).len()
}

/// A correct page listing: strictly newest-first, holding exactly the
/// candidates whose rank falls in page `p`'s window.
pub open spec fn is_page_listing(c: Set<i64>, n: nat, p: nat, ids: Seq<i64>) -> bool {
    &&& strictly_desc(ids)
    &&& forall|f: i64| #[trigger] ids.contains(f) <==> (c.contains(f) && n * p <= rank_in(c, f)
        < n * p + n)
}

/// A strictly descending sequence never repeats an element.
pub proof fn lemma_desc_no_dup(s: Seq<i64>)
    requires
        strictly_desc(s),
    ensures
        s.no_duplicates(),
{
    assert forall|i: int, j: int|
        0 <= i < s.len() && 0 <= j < s.len() && i != j implies s[i] != s[j] by {
        if i < j {
            assert(s[i] > s[j]);
        } else {
            assert(s[j] > s[i]);
        }
    }
}

/// In a strictly descending listing, the element at position `i` has rank
/// `i`: exactly the `i` elements before it are larger.
pub proof fn lemma_index_is_rank(s: Seq<i64>, i: int)
    requires
        strictly_desc(s),
        0 <= i < s.len(),
    ensures
        rank_in(s.to_set(), s[i]) == i,
{
    broadcast use vstd::seq_lib::seq_to_set_is_finite;

    let above = Set::new(|g: i64| s.to_set().contains(g) && g > s[i]);
    let prefix = s.subrange(0, i);
    assert forall|g: i64| above.contains(g) implies prefix.to_set().contains(g) by {
        let j = choose|j: int| 0 <= j < s.len() && s[j] == g;
        if j > i {
            assert(s[i] > s[j]);
        }
        if j != i {
            assert(prefix[j] == g);
            assert(prefix.contains(g));
        }
    }
    assert forall|g: i64| prefix.to_set().contains(g) implies above.contains(g) by {
        let j = choose|j: int| 0 <= j < prefix.len() && prefix[j] == g;
        assert(s[j] == g);
        assert(s[j] > s[i]);
        assert(s.contains(g));
    }
    assert(above =~= prefix.to_set());
    lemma_desc_no_dup(s);
    assert(prefix.no_duplicates());
    prefix.unique_seq_to_set();
}

/// In a strictly descending listing each element sits at one position
/// only, so membership plus rank pins the position down.
pub proof fn lemma_page_rank(s: Seq<i64>, n: nat, p: nat, f: i64)
    requires
        strictly_desc(s),
    ensures
        page_of(s, n, p).contains(f) <==> (s.to_set().contains(f) && n * p <= rank_in(
            s.to_set(),
            f,
        ) < n * p + n),
        strictly_desc(page_of(s, n, p)),
{
    let pg = page_of(s, n, p);
    let a = n * p;
    assert(strictly_desc(pg));
    if pg.contains(f) {
        let k = choose|k: int| 0 <= k < pg.len() && pg[k] == f;
        assert(s[a + k] == f);
        assert(s.contains(f));
        lemma_index_is_rank(s, a + k);
    }
    if s.to_set().contains(f) && a <= rank_in(s.to_set(), f) < a + n {
        let i = choose|i: int| 0 <= i < s.len() && s[i] == f;
        lemma_index_is_rank(s, i);
        assert(a <= i < a + n);
        assert(pg.len() > 0);
        assert(pg[i - a] == f);
        assert(pg.contains(f));
    }
}

/// Candidates of lower rank stand later in the descending order: a
/// strictly smaller rank means a strictly larger id.
pub proof fn lemma_rank_orders(c: Set<i64>, f: i64, g: i64)
    requires
        c.finite(),
        c.contains(f),
        c.contains(g),
        rank_in(c, f) < rank_in(c, g),
    ensures
        f > g,
{
    broadcast use vstd::set_lib::lemma_set_subset_finite;

    if f == g {
        assert(false);
    } else if f < g {
        let above_f = Set::new(|h: i64| c.contains(h) && h > f);
        let above_g = Set::new(|h: i64| c.contains(h) && h > g);
        assert(above_f.subset_of(c));
        assert(above_f.finite());
        assert(above_g.subset_of(c));
        assert(above_g.finite());
        assert(above_g.insert(g).subset_of(above_f));
        assert(!above_g.contains(g));
        vstd::set_lib::lemma_len_subset(above_g.insert(g), above_f);
        assert(above_g.insert(g).len() == above_g.len() + 1);
        assert(false);
    }
}

/// A candidate's rank is below the candidate count.
pub proof fn lemma_rank_below_card(c: Set<i64>, f: i64)
    requires
        c.finite(),
        c.contains(f),
    ensures
        rank_in(c, f) < c.len(),
{
    broadcast use vstd::set_lib::lemma_set_subset_finite;

    let above_f = Set::new(|h: i64| c.contains(h) && h > f);
    assert(above_f.subset_of(c.remove(f)));
    vstd::set_lib::lemma_len_subset(above_f, c.remove(f));
    assert(c.remove(f).len() == c.len() - 1);
}

/// Concatenating a strictly descending listing with another one that
/// holds only smaller ids is strictly descending.
proof fn lemma_desc_concat(x: Seq<i64>, y: Seq<i64>)
    requires
        strictly_desc(x),
        strictly_desc(y),
        forall|f: i64, g: i64| x.contains(f) && y.contains(g) ==> f > g,
    ensures
        strictly_desc(x + y),
{
    assert forall|i: int, j: int| 0 <= i < j < (x + y).len() implies (x + y)[i] > (x + y)[j] by {
        if j < x.len() {
        } else if i >= x.len() {
        } else {
            assert(x.contains(x[i]));
            assert(y.contains(y[j - x.len()]));
        }
    }
}

/// Law: pagination stability. For a fixed candidate set `c` and page size
/// `n`, if each of `pages[0], pages[1], ...` is a correct page listing of
/// its index, then their concatenation is itself strictly newest-first
/// and holds exactly the candidates of rank below `n` times the page
/// count — no duplicates, no omissions. Once enough pages are taken
/// (`n * pages.len() >= c.len()`), that is the entire unpaginated,
/// newest-first candidate listing. Both hypotheses come straight from
/// the query functions' contracts: each page they serve is ensured to be
/// a correct page listing of the candidate set, which is ensured finite.
pub proof fn lemma_pagination_stability(c: Set<i64>, n: nat, pages: Seq<Seq<i64>>)
    requires
        c.finite(),
        forall|p: int| 0 <= p < pages.len() ==> is_page_listing(c, n, p as nat, #[trigger] pages[p]),
    ensures
        strictly_desc(pages.flatten()),
        forall|f: i64| #[trigger] pages.flatten().contains(f) <==> (c.contains(f) && rank_in(c, f)
            < n * pages.len()),
        n * pages.len() >= c.len() ==> forall|f: i64|
            #[trigger] pages.flatten().contains(f) <==> c.contains(f),
    decreases pages.len(),
{
    if pages.len() == 0 {
        assert(pages.flatten() =~= Seq::<i64>::empty());
    } else {
        let front = pages.drop_last();
        let last = pages.last();
        let k = front.len() as int;
        lemma_pagination_stability(c, n, front);
        assert(pages =~= front.push(last));
        front.lemma_flatten_push(last);
        assert(pages.flatten() =~= front.flatten() + last);
        assert(is_page_listing(c, n, k as nat, last));
        assert(n * pages.len() == n * k + n) by (nonlinear_arith)
            requires
                pages.len() == k + 1,
        ;
        assert forall|f: i64, g: i64| front.flatten().contains(f) && last.contains(g) implies f
            > g by {
            lemma_rank_orders(c, f, g);
        }
        lemma_desc_concat(front.flatten(), last);
        assert forall|f: i64| #[trigger] (front.flatten() + last).contains(f) <==> (c.contains(f)
            && rank_in(c, f) < n * pages.len()) by {
            assert((front.flatten() + last).contains(f) <==> front.flatten().contains(f)
                || last.contains(f));
        }
        if n * pages.len() >= c.len() {
            assert forall|f: i64| #[trigger] pages.flatten().contains(f) <==> c.contains(f) by {
                if c.contains(f) {
                    lemma_rank_below_card(c, f);
                }
            }
        }
    }
}

/// Two strictly ascending listings of the same id set are the same
/// listing: sorting ascending after dropping duplicates is canonical.
pub proof fn lemma_asc_unique(x: Seq<i64>, y: Seq<i64>)
    requires
        strictly_asc(x),
        strictly_asc(y),
        forall|v: i64| #[trigger] x.contains(v) <==> y.contains(v),
    ensures
        x == y,
    decreases x.len(),
{
    if x.len() == 0 {
        if y.len() > 0 {
            assert(y.contains(y[0]));
            assert(x.contains(y[0]));
        }
        assert(x =~= y);
    } else if y.len() == 0 {
        assert(x.contains(x[0]));
        assert(y.contains(x[0]));
    } else {
        assert(x.contains(x[0]));
        assert(y.contains(y[0]));
        assert(y.contains(x[0]));
        assert(x.contains(y[0]));
        let jx = choose|j: int| 0 <= j < y.len() && y[j] == x[0];
        let iy = choose|i: int| 0 <= i < x.len() && x[i] == y[0];
        if x[0] < y[0] {
            assert(jx > 0 ==> y[0] < y[jx]);
            assert(false);
        }
        if y[0] < x[0] {
            assert(iy > 0 ==> x[0] < x[iy]);
            assert(false);
        }
        let xt = x.subrange(1, x.len() as int);
        let yt = y.subrange(1, y.len() as int);
        assert forall|v: i64| #[trigger] xt.contains(v) <==> yt.contains(v) by {
            assert(xt.contains(v) <==> (x.contains(v) && v != x[0])) by {
                if xt.contains(v) {
                    let i = choose|i: int| 0 <= i < xt.len() && xt[i] == v;
                    assert(x[i + 1] == v);
                    assert(x[0] < x[i + 1]);
                    assert(x.contains(v));
                }
                if x.contains(v) && v != x[0] {
                    let i = choose|i: int| 0 <= i < x.len() && x[i] == v;
                    assert(xt[i - 1] == v);
                    assert(xt.contains(v));
                }
            }
            assert(yt.contains(v) <==> (y.contains(v) && v != y[0])) by {
                if yt.contains(v) {
                    let i = choose|i: int| 0 <= i < yt.len() && yt[i] == v;
                    assert(y[i + 1] == v);
                    assert(y[0] < y[i + 1]);
                    assert(y.contains(v));
                }
                if y.contains(v) && v != y[0] {
                    let i = choose|i: int| 0 <= i < y.len() && y[i] == v;
                    assert(yt[i - 1] == v);
                    assert(yt.contains(v));
                }
            }
        }
        lemma_asc_unique(xt, yt);
        assert(x.len() == y.len());
        assert forall|i: int| 0 <= i < x.len() implies x[i] == y[i] by {
            if i > 0 {
                assert(xt[i - 1] == x[i]);
                assert(yt[i - 1] == y[i]);
            }
        }
        assert(x =~= y);
    }
}

/// Whether `v` holds `x`, by linear scan.
pub(crate) fn contains_id(v: &Vec<i64>, x: i64) -> (b: bool)
    ensures
        b == v@.contains(x),
{
    let mut k: usize = 0;
    while k < v.len()
        invariant
            k <= v@.len(),
            forall|j: int| 0 <= j < k ==> v@[j] != x,
        decreases v@.len() - k,
    {
        if v[k] == x {
            return true;
        }
        k += 1;
    }
    false
}

/// Whether two id sequences are element-wise equal.
pub(crate) fn ids_equal(a: &Vec<i64>, b: &Vec<i64>) -> (r: bool)
    ensures
        r <==> a@ == b@,
{
    if a.len() != b.len() {
        return false;
    }
    let mut k: usize = 0;
    while k < a.len()
        invariant
            k <= a@.len(),
            a@.len() == b@.len(),
            forall|j: int| 0 <= j < k ==> a@[j] == b@[j],
        decreases a@.len() - k,
    {
        if a[k] != b[k] {
            return false;
        }
        k += 1;
    }
    proof {
        assert(a@ =~= b@);
    }
    true
}

/// Inserts `x` into a strictly ascending sequence, keeping it strictly
/// ascending; inserting an id that is already there changes nothing.
fn insert_sorted_asc(r: &mut Vec<i64>, x: i64)
    requires
        strictly_asc(old(r)@),
    ensures
        strictly_asc(final(r)@),
        forall|y: i64| #[trigger] final(r)@.contains(y) <==> (old(r)@.contains(y) || y == x),
{
    let mut k: usize = 0;
    while k < r.len() && r[k] < x
        invariant
            r@ == old(r)@,
            k <= r@.len(),
            forall|j: int| 0 <= j < k ==> r@[j] < x,
        decreases r@.len() - k,
    {
        k += 1;
    }
    if k < r.len() && r[k] == x {
        assert(old(r)@.contains(x));
        return ;
    }
    let ghost prev = r@;
    r.insert(k, x);
    proof {
        prev.insert_ensures(k as int, x);
        assert forall|i: int, j: int| 0 <= i < j < r@.len() implies r@[i] < r@[j] by {
            if j < k {
                assert(r@[i] == prev[i] && r@[j] == prev[j]);
            } else if i < k && j == k {
                assert(r@[i] == prev[i] && prev[i] < x);
            } else if i < k && j > k {
                assert(r@[i] < x);
                assert(r@[j] == prev[j - 1]);
                assert(prev[k as int] <= prev[j - 1]);
            } else if i == k {
                assert(r@[j] == prev[j - 1]);
                assert(prev[k as int] <= prev[j - 1]);
            } else {
                assert(r@[i] == prev[i - 1] && r@[j] == prev[j - 1]);
            }
        }
        assert forall|y: i64| #[trigger] r@.contains(y) implies (prev.contains(y) || y == x) by {
            let i = choose|i: int| 0 <= i < r@.len() && r@[i] == y;
            if i < k {
                assert(prev[i] == y);
                assert(prev.contains(y));
            } else if i > k {
                assert(prev[i - 1] == y);
                assert(prev.contains(y));
            }
        }
        assert forall|y: i64| (prev.contains(y) || y == x) implies #[trigger] r@.contains(y) by {
            if y == x {
                assert(r@[k as int] == x);
            } else {
                let i = choose|i: int| 0 <= i < prev.len() && prev[i] == y;
                if i < k {
                    assert(r@[i] == y);
                } else {
                    assert(r@[i + 1] == y);
                }
            }
        }
    }
}

/// Inserts `x` into a strictly descending sequence, keeping it strictly
/// descending; inserting an id that is already there changes nothing.
fn insert_sorted_desc(r: &mut Vec<i64>, x: i64)
    requires
        strictly_desc(old(r)@),
    ensures
        strictly_desc(final(r)@),
        forall|y: i64| #[trigger] final(r)@.contains(y) <==> (old(r)@.contains(y) || y == x),
{
    let mut k: usize = 0;
    while k < r.len() && r[k] > x
        invariant
            r@ == old(r)@,
            k <= r@.len(),
            forall|j: int| 0 <= j < k ==> r@[j] > x,
        decreases r@.len() - k,
    {
        k += 1;
    }
    if k < r.len() && r[k] == x {
        assert(old(r)@.contains(x));
        return ;
    }
    let ghost prev = r@;
    r.insert(k, x);
    proof {
        prev.insert_ensures(k as int, x);
        assert forall|i: int, j: int| 0 <= i < j < r@.len() implies r@[i] > r@[j] by {
            if j < k {
                assert(r@[i] == prev[i] && r@[j] == prev[j]);
            } else if i < k && j == k {
                assert(r@[i] == prev[i] && prev[i] > x);
            } else if i < k && j > k {
                assert(r@[i] > x);
                assert(r@[j] == prev[j - 1]);
                assert(prev[k as int] >= prev[j - 1]);
            } else if i == k {
                assert(r@[j] == prev[j - 1]);
                assert(prev[k as int] >= prev[j - 1]);
            } else {
                assert(r@[i] == prev[i - 1] && r@[j] == prev[j - 1]);
            }
        }
        assert forall|y: i64| #[trigger] r@.contains(y) implies (prev.contains(y) || y == x) by {
            let i = choose|i: int| 0 <= i < r@.len() && r@[i] == y;
            if i < k {
                assert(prev[i] == y);
                assert(prev.contains(y));
            } else if i > k {
                assert(prev[i - 1] == y);
                assert(prev.contains(y));
            }
        }
        assert forall|y: i64| (prev.contains(y) || y == x) implies #[trigger] r@.contains(y) by {
            if y == x {
                assert(r@[k as int] == x);
            } else {
                let i = choose|i: int| 0 <= i < prev.len() && prev[i] == y;
                if i < k {
                    assert(r@[i] == y);
                } else {
                    assert(r@[i + 1] == y);
                }
            }
        }
    }
}

/// Sorts the given ids ascending, dropping duplicates: the result is the
/// canonical strictly ascending listing of the same id set.
pub(crate) fn sort_dedup_asc(v: &Vec<i64>) -> (r: Vec<i64>)
    ensures
        strictly_asc(r@),
        forall|y: i64| #[trigger] r@.contains(y) <==> v@.contains(y),
{
    let mut r: Vec<i64> = Vec::new();
    let mut i: usize = 0;
    while i < v.len()
        invariant
            i <= v@.len(),
            strictly_asc(r@),
            forall|y: i64| #[trigger] r@.contains(y) <==> v@.subrange(0, i as int).contains(y),
        decreases v@.len() - i,
    {
        let ghost pre = v@.subrange(0, i as int);
        insert_sorted_asc(&mut r, v[i]);
        proof {
            assert(v@.subrange(0, i + 1) =~= pre.push(v@[i as int]));
        }
        i += 1;
    }
    proof {
        assert(v@.subrange(0, v@.len() as int) =~= v@);
    }
    r
}

/// Sorts the given ids descending, dropping duplicates: the result is the
/// canonical newest-first listing of the same id set.
pub(crate) fn sort_dedup_desc(v: &Vec<i64>) -> (r: Vec<i64>)
    ensures
        strictly_desc(r@),
        forall|y: i64| #[trigger] r@.contains(y) <==> v@.contains(y),
{
    let mut r: Vec<i64> = Vec::new();
    let mut i: usize = 0;
    while i < v.len()
        invariant
            i <= v@.len(),
            strictly_desc(r@),
            forall|y: i64| #[trigger] r@.contains(y) <==> v@.subrange(0, i as int).contains(y),
        decreases v@.len() - i,
    {
        let ghost pre = v@.subrange(0, i as int);
        insert_sorted_desc(&mut r, v[i]);
        proof {
            assert(v@.subrange(0, i + 1) =~= pre.push(v@[i as int]));
        }
        i += 1;
    }
    proof {
        assert(v@.subrange(0, v@.len() as int) =~= v@);
    }
    r
}

/// Cuts the page window [amount*page, amount*page + amount) out of a
/// listing. A window that starts past the end is empty.
pub(crate) fn page_window(s: &Vec<i64>, amount: u32, page: u32) -> (r: Vec<i64>)
    ensures
        r@ == page_of(s@, amount as nat, page as nat),
{
    let n: u64 = amount as u64;
    let p: u64 = page as u64;
    let len: u64 = s.len() as u64;
    proof {
        assert((n as int) * (p as int) <= 0xffff_ffff * 0xffff_ffff) by (nonlinear_arith)
            requires
                n <= 0xffff_ffff,
                p <= 0xffff_ffff,
        ;
    }
    let start: u64 = n * p;
    let mut r: Vec<i64> = Vec::new();
    if start >= len {
        assert(r@ =~= page_of(s@, amount as nat, page as nat));
        return r;
    }
    let end: u64 = if n > len - start {
        len
    } else {
        start + n
    };
    let mut k: u64 = start;
    while k < end
        invariant
            start <= k <= end <= len,
            len == s@.len(),
            len <= usize::MAX as u64,
            r@ =~= s@.subrange(start as int, k as int),
        decreases end - k,
    {
        proof {
            assert(len <= usize::MAX as u64);
            assert(k < len);
        }
        let idx: usize = k as usize;
        r.push(s[idx]);
        proof {
            assert(r@ =~= s@.subrange(start as int, k + 1));
        }
        k += 1;
    }
    proof {
        assert(start == (amount as nat) * (page as nat));
        assert(r@ =~= page_of(s@, amount as nat, page as nat));
    }
    r
}

} // verus!
