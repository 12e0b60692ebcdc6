//! The level-independent mathematics of the reverse lookup: a stable
//! insertion sort of children by the start of their absolute range, and
//! the binary search that probes sorted children for an address.

use vstd::prelude::*;

verus! {

/// The sort key the lazy `sort_children` uses at every level: the scalar
/// start bound of the node's absolute range.
pub trait KeyedByStart: Sized {
    /// The scalar start bound of the absolute range.
    spec fn start_key(&self) -> u64;
}

/// The four addresses the lookup reads from a child node: the stored
/// absolute range (used for the containment test) and the two scalar
/// bounds (used to steer the binary search). On a consistent node the
/// range equals the scalar bounds.
pub struct Span {
    pub range_start: u64,
    pub range_end: u64,
    pub start_abs: u64,
    pub end_abs: u64,
}

/// Whether the address lies in the span's half-open absolute range.
pub open spec fn span_contains(sp: Span, addr: u64) -> bool {
    sp.range_start <= addr && addr < sp.range_end
}

/// A span whose stored range agrees with its scalar bounds and is not inverted.
pub open spec fn span_consistent(sp: Span) -> bool {
    sp.range_start == sp.start_abs && sp.range_end == sp.end_abs && sp.start_abs <= sp.end_abs
}

/// Sibling spans fit for binary search: each consistent, and pairwise
/// disjoint in ascending order.
pub open spec fn spans_searchable(s: Seq<Span>) -> bool {
    (forall|i: int| 0 <= i < s.len() ==> span_consistent(#[trigger] s[i])) && (forall|i: int, j: int|
        0 <= i < j < s.len() ==> #[trigger] s[i].end_abs <= #[trigger] s[j].start_abs)
}

/// Outcome of probing a window of sibling spans for an address.
pub enum Probe {
    /// The child at this index contains the address.
    Found(int),
    /// The address falls past this child's end but before the next
    /// child's start (or between this child's scalar bounds while
    /// outside its stored range): the structure is inconsistent here.
    Gap(int),
    /// The window was exhausted without a match.
    Missed,
}

/// The binary search over the inclusive window `[lo, hi]` of sibling
/// spans. Probes the middle span: a hit descends into that child; an
/// address below the span's start moves left (giving up at the leftmost
/// child); an address at or past its end either exposes a gap before the
/// next sibling or moves right.
pub open spec fn search_spans(s: Seq<Span>, addr: u64, lo: int, hi: int) -> Probe
    decreases hi + 1 - lo,
{
    if lo > hi {
        Probe::Missed
    } else {
        let mid = (lo + hi) / 2;
        if span_contains(s[mid], addr) {
            Probe::Found(mid)
        } else if addr < s[mid].start_abs {
            if mid == 0 {
                Probe::Missed
            } else {
                search_spans(s, addr, lo, mid - 1)
            }
        } else if addr >= s[mid].end_abs {
            if mid + 1 < s.len() && addr < s[mid + 1].start_abs {
                Probe::Gap(mid)
            } else {
                search_spans(s, addr, mid + 1, hi)
            }
        } else {
            Probe::Gap(mid)
        }
    }
}

/// Stable insertion of `x` into `s`, scanning from the right: `x` lands
/// after every element whose key does not exceed its own.
pub open spec fn insert_by_start<T: KeyedByStart>(s: Seq<T>, x: T) -> Seq<T>
    decreases s.len(),
{
    if s.len() == 0 {
        seq![x]
    } else if x.start_key() < s.last().start_key() {
        insert_by_start(s.drop_last(), x).push(s.last())
    } else {
        s.push(x)
    }
}

/// The position at which `insert_by_start` places `x`.
pub open spec fn insert_pos<T: KeyedByStart>(s: Seq<T>, x: T) -> int
    decreases s.len(),
{
    if s.len() == 0 {
        0
    } else if x.start_key() < s.last().start_key() {
        insert_pos(s.drop_last(), x)
    } else {
        s.len() as int
    }
}

/// Stable insertion sort by key: the order the lazy `sort_children`
/// establishes before a lookup descends.
pub open spec fn sort_by_start<T: KeyedByStart>(s: Seq<T>) -> Seq<T>
    decreases s.len(),
{
    if s.len() == 0 {
        Seq::empty()
    } else {
        insert_by_start(sort_by_start(s.drop_last()), s.last())
    }
}

/// Non-decreasing by key.
pub open spec fn sorted_by_start<T: KeyedByStart>(s: Seq<T>) -> bool {
    forall|i: int, j: int|
        0 <= i <= j < s.len() ==> #[trigger] s[i].start_key() <= #[trigger] s[j].start_key()
}

/// `insert_by_start` splits the sequence at `insert_pos`: everything at
/// or past that position has a key strictly above the new element's, and
/// the element just before it (if any) has a key at most the new one's.
pub proof fn lemma_insert_by_start_split<T: KeyedByStart>(s: Seq<T>, x: T)
    ensures
        0 <= insert_pos(s, x) <= s.len(),
        insert_by_start(s, x) == s.subrange(0, insert_pos(s, x)) + seq![x] + s.subrange(
            insert_pos(s, x),
            s.len() as int,
        ),
        forall|k: int| insert_pos(s, x) <= k < s.len() ==> #[trigger] s[k].start_key() > x.start_key(),
        insert_pos(s, x) > 0 ==> s[insert_pos(s, x) - 1].start_key() <= x.start_key(),
    decreases s.len(),
{
    let p = insert_pos(s, x);
    if s.len() == 0 {
        assert(insert_by_start(s, x) =~= s.subrange(0, 0) + seq![x] + s.subrange(0, 0));
    } else if x.start_key() < s.last().start_key() {
        let dl = s.drop_last();
        lemma_insert_by_start_split(dl, x);
        assert(dl.subrange(0, p) =~= s.subrange(0, p));
        assert(insert_by_start(s, x) =~= s.subrange(0, p) + seq![x] + s.subrange(
            p,
            s.len() as int,
        )) by {
            assert(dl.subrange(p, dl.len() as int).push(s.last()) =~= s.subrange(
                p,
                s.len() as int,
            ));
        }
        assert forall|k: int| p <= k < s.len() implies #[trigger] s[k].start_key()
            > x.start_key() by {
            if k < s.len() - 1 {
                assert(s[k] == dl[k]);
            }
        }
    } else {
        assert(insert_by_start(s, x) =~= s.subrange(0, p) + seq![x] + s.subrange(
            p,
            s.len() as int,
        ));
    }
}

/// Inserting into a sorted sequence keeps it sorted.
pub proof fn lemma_insert_by_start_sorted<T: KeyedByStart>(s: Seq<T>, x: T)
    requires
        sorted_by_start(s),
    ensures
        sorted_by_start(insert_by_start(s, x)),
{
    lemma_insert_by_start_split(s, x);
    let p = insert_pos(s, x);
    let r = insert_by_start(s, x);
    assert forall|i: int, j: int|
        0 <= i <= j < r.len() implies #[trigger] r[i].start_key() <= #[trigger] r[j].start_key() by {
        if i < p {
            assert(r[i] == s[i]);
        } else if i == p {
            assert(r[i] == x);
        } else {
            assert(r[i] == s[i - 1]);
        }
        if j < p {
            assert(r[j] == s[j]);
        } else if j == p {
            assert(r[j] == x);
        } else {
            assert(r[j] == s[j - 1]);
        }
        if i < p && j == p {
            assert(s[i].start_key() <= s[p - 1].start_key());
        }
    }
}

/// The sort returns a sorted sequence.
pub proof fn lemma_sort_by_start_sorted<T: KeyedByStart>(s: Seq<T>)
    ensures
        sorted_by_start(sort_by_start(s)),
    decreases s.len(),
{
    if s.len() > 0 {
        lemma_sort_by_start_sorted(s.drop_last());
        lemma_insert_by_start_sorted(sort_by_start(s.drop_last()), s.last());
    }
}

/// The sort keeps the length.
pub proof fn lemma_sort_by_start_len<T: KeyedByStart>(s: Seq<T>)
    ensures
        sort_by_start(s).len() == s.len(),
    decreases s.len(),
{
    if s.len() > 0 {
        lemma_sort_by_start_len(s.drop_last());
        lemma_insert_by_start_split(sort_by_start(s.drop_last()), s.last());
    }
}

/// Sorting an already sorted sequence changes nothing: this is what
/// makes the lazy re-sort before every lookup idempotent.
pub proof fn lemma_sort_by_start_of_sorted<T: KeyedByStart>(s: Seq<T>)
    requires
        sorted_by_start(s),
    ensures
        sort_by_start(s) == s,
    decreases s.len(),
{
    if s.len() > 0 {
        let dl = s.drop_last();
        assert(forall|i: int| 0 <= i < dl.len() ==> dl[i] == s[i]);
        lemma_sort_by_start_of_sorted(dl);
        if dl.len() == 0 {
            assert(insert_by_start(dl, s.last()) =~= s);
        } else {
            assert(dl.last().start_key() <= s.last().start_key());
            assert(insert_by_start(dl, s.last()) =~= s);
        }
    }
}

/// Sibling spans as a builder may leave them: each consistent and
/// non-empty, pairwise disjoint in whatever order they were attached.
pub open spec fn spans_disjoint(s: Seq<Span>) -> bool {
    (forall|i: int|
        0 <= i < s.len() ==> span_consistent(#[trigger] s[i]) && s[i].start_abs < s[i].end_abs)
        && (forall|i: int, j: int|
        0 <= i < s.len() && 0 <= j < s.len() && i != j ==> (#[trigger] s[i]).end_abs <= (
        #[trigger] s[j]).start_abs || s[j].end_abs <= s[i].start_abs)
}

/// Disjoint spans in ascending key order are searchable.
pub proof fn lemma_sorted_disjoint_searchable(s: Seq<Span>)
    requires
        spans_disjoint(s),
        forall|i: int, j: int|
            0 <= i <= j < s.len() ==> (#[trigger] s[i]).start_abs <= (#[trigger] s[j]).start_abs,
    ensures
        spans_searchable(s),
{
    assert forall|i: int, j: int|
        0 <= i < j < s.len() implies #[trigger] s[i].end_abs <= #[trigger] s[j].start_abs by {
        if s[j].end_abs <= s[i].start_abs {
            assert(s[j].start_abs < s[j].end_abs);
            assert(false);
        }
    }
}

/// Pairwise distinct sort keys.
pub open spec fn distinct_keys<T: KeyedByStart>(s: Seq<T>) -> bool {
    forall|i: int, j: int|
        0 <= i < j < s.len() ==> (#[trigger] s[i]).start_key() != (#[trigger] s[j]).start_key()
}

/// Every element survives an insertion, at a known position.
pub proof fn lemma_insert_by_start_keeps<T: KeyedByStart>(s: Seq<T>, x: T, i: int) -> (a: int)
    requires
        0 <= i < s.len(),
    ensures
        0 <= a < insert_by_start(s, x).len(),
        insert_by_start(s, x)[a] == s[i],
{
    lemma_insert_by_start_split(s, x);
    let p = insert_pos(s, x);
    if i < p {
        i
    } else {
        i + 1
    }
}

/// Every element of an insertion is the inserted one or one of the old.
pub proof fn lemma_insert_by_start_origin<T: KeyedByStart>(s: Seq<T>, x: T, a: int) -> (i: int)
    requires
        0 <= a < insert_by_start(s, x).len(),
    ensures
        insert_by_start(s, x)[a] == x || (0 <= i < s.len() && insert_by_start(s, x)[a] == s[i]),
{
    lemma_insert_by_start_split(s, x);
    let p = insert_pos(s, x);
    if a < p {
        a
    } else if a == p {
        0
    } else {
        a - 1
    }
}

/// Every element survives the sort, at a known position.
pub proof fn lemma_sort_by_start_elem_of<T: KeyedByStart>(s: Seq<T>, i: int) -> (a: int)
    requires
        0 <= i < s.len(),
    ensures
        0 <= a < sort_by_start(s).len(),
        sort_by_start(s)[a] == s[i],
    decreases s.len(),
{
    let dl = s.drop_last();
    let t = sort_by_start(dl);
    if i == s.len() - 1 {
        lemma_insert_by_start_split(t, s.last());
        let p = insert_pos(t, s.last());
        assert(insert_by_start(t, s.last())[p] == s.last());
        p
    } else {
        let a0 = lemma_sort_by_start_elem_of(dl, i);
        lemma_insert_by_start_keeps(t, s.last(), a0)
    }
}

/// Every element of the sort is one of the originals.
pub proof fn lemma_sort_by_start_origin<T: KeyedByStart>(s: Seq<T>, a: int) -> (i: int)
    requires
        0 <= a < sort_by_start(s).len(),
    ensures
        0 <= i < s.len(),
        sort_by_start(s)[a] == s[i],
    decreases s.len(),
{
    lemma_sort_by_start_len(s);
    let dl = s.drop_last();
    let t = sort_by_start(dl);
    let i0 = lemma_insert_by_start_origin(t, s.last(), a);
    if sort_by_start(s)[a] == s.last() {
        s.len() - 1
    } else {
        lemma_sort_by_start_origin(dl, i0)
    }
}

/// Inserting an element whose key is fresh keeps the keys distinct.
pub proof fn lemma_insert_by_start_distinct<T: KeyedByStart>(s: Seq<T>, x: T)
    requires
        distinct_keys(s),
        forall|k: int| 0 <= k < s.len() ==> (#[trigger] s[k]).start_key() != x.start_key(),
    ensures
        distinct_keys(insert_by_start(s, x)),
{
    lemma_insert_by_start_split(s, x);
    let p = insert_pos(s, x);
    let r = insert_by_start(s, x);
    assert forall|i: int, j: int|
        0 <= i < j < r.len() implies (#[trigger] r[i]).start_key() != (
    #[trigger] r[j]).start_key() by {
        if i < p {
            assert(r[i] == s[i]);
        } else if i == p {
            assert(r[i] == x);
        } else {
            assert(r[i] == s[i - 1]);
        }
        if j < p {
            assert(r[j] == s[j]);
        } else if j == p {
            assert(r[j] == x);
        } else {
            assert(r[j] == s[j - 1]);
        }
    }
}

/// The sort keeps distinct keys distinct.
pub proof fn lemma_sort_by_start_distinct<T: KeyedByStart>(s: Seq<T>)
    requires
        distinct_keys(s),
    ensures
        distinct_keys(sort_by_start(s)),
    decreases s.len(),
{
    if s.len() > 0 {
        let dl = s.drop_last();
        let t = sort_by_start(dl);
        assert(forall|i: int| 0 <= i < dl.len() ==> dl[i] == s[i]);
        lemma_sort_by_start_distinct(dl);
        lemma_sort_by_start_len(dl);
        assert forall|k: int|
            0 <= k < t.len() implies (#[trigger] t[k]).start_key() != s.last().start_key() by {
            let i = lemma_sort_by_start_origin(dl, k);
            assert(s[i].start_key() != s[s.len() - 1].start_key());
        }
        lemma_insert_by_start_distinct(t, s.last());
    }
}

/// Where the binary search lands on searchable spans: a containing span
/// is found, an interior gap is reported at its left neighbour, and an
/// address before the first span or at or past the last one is missed.
pub proof fn lemma_search_characterization(s: Seq<Span>, addr: u64, lo: int, hi: int)
    requires
        spans_searchable(s),
        0 <= lo <= hi < s.len(),
        forall|i: int| 0 <= i < lo ==> #[trigger] s[i].end_abs <= addr,
        forall|i: int| hi < i < s.len() ==> addr < #[trigger] s[i].start_abs,
        lo > 0 ==> addr >= s[lo].start_abs,
    ensures
        (match search_spans(s, addr, lo, hi) {
            Probe::Found(i) => lo <= i <= hi && span_contains(s[i], addr),
            Probe::Gap(k) => lo <= k <= hi && k + 1 < s.len() && s[k].end_abs <= addr && addr < s[k
                + 1].start_abs,
            Probe::Missed => addr < s[0].start_abs || addr >= s[s.len() - 1].end_abs,
        }),
    decreases hi + 1 - lo,
{
    let mid = (lo + hi) / 2;
    if span_contains(s[mid], addr) {
    } else if addr < s[mid].start_abs {
        if mid == 0 {
        } else {
            assert forall|i: int| mid - 1 < i < s.len() implies addr < #[trigger] s[i].start_abs by {
                if i > mid {
                    assert(s[mid].end_abs <= s[i].start_abs);
                }
            }
            lemma_search_characterization(s, addr, lo, mid - 1);
        }
    } else if addr >= s[mid].end_abs {
        if mid + 1 < s.len() && addr < s[mid + 1].start_abs {
        } else {
            if mid + 1 <= hi {
                assert forall|i: int| 0 <= i < mid + 1 implies #[trigger] s[i].end_abs <= addr by {
                    if i < mid {
                        assert(s[i].end_abs <= s[mid].start_abs);
                    }
                }
                lemma_search_characterization(s, addr, mid + 1, hi);
            } else {
                assert(mid == hi);
                if hi < s.len() - 1 {
                    assert(addr < s[hi + 1].start_abs);
                    assert(false);
                } else {
                    assert(addr >= s[s.len() - 1].end_abs);
                }
            }
        }
    } else {
        assert(span_consistent(s[mid]));
        assert(false);
    }
}

/// The top-level search on searchable spans, with the guarantees the
/// levels rely on: if any span contains the address the search finds
/// exactly that span; a gap report really is an interior gap; a miss
/// means the address lies before the first or at or past the last span.
pub proof fn lemma_search_resolves(s: Seq<Span>, addr: u64)
    requires
        spans_searchable(s),
        s.len() > 0,
    ensures
        forall|i: int|
            0 <= i < s.len() && span_contains(#[trigger] s[i], addr) ==> search_spans(
                s,
                addr,
                0,
                s.len() - 1,
            ) == Probe::Found(i),
        (match search_spans(s, addr, 0, s.len() - 1) {
            Probe::Found(i) => 0 <= i < s.len() && span_contains(s[i], addr),
            Probe::Gap(k) => 0 <= k && k + 1 < s.len() && s[k].end_abs <= addr && addr < s[k
                + 1].start_abs,
            Probe::Missed => addr < s[0].start_abs || addr >= s[s.len() - 1].end_abs,
        }),
{
    lemma_search_characterization(s, addr, 0, s.len() - 1);
    let outcome = search_spans(s, addr, 0, s.len() - 1);
    assert forall|i: int|
        0 <= i < s.len() && span_contains(#[trigger] s[i], addr) implies outcome == Probe::Found(
        i,
    ) by {
        match outcome {
            Probe::Found(f) => {
                if f != i {
                    if f < i {
                        assert(s[f].end_abs <= s[i].start_abs);
                    } else {
                        assert(s[i].end_abs <= s[f].start_abs);
                    }
                    assert(false);
                }
            },
            Probe::Gap(k) => {
                if i <= k {
                    if i < k {
                        assert(s[i].end_abs <= s[k].start_abs);
                        assert(s[k].start_abs <= s[k].end_abs);
                    }
                    assert(addr >= s[i].end_abs);
                } else {
                    assert(s[k + 1].start_abs <= s[i].start_abs) by {
                        if k + 1 < i {
                            assert(s[k + 1].end_abs <= s[i].start_abs);
                            assert(s[k + 1].start_abs <= s[k + 1].end_abs);
                        }
                    }
                }
                assert(false);
            },
            Probe::Missed => {
                if addr < s[0].start_abs {
                    assert(s[0].start_abs <= s[i].start_abs) by {
                        if 0 < i {
                            assert(s[0].end_abs <= s[i].start_abs);
                            assert(s[0].start_abs <= s[0].end_abs);
                        }
                    }
                } else {
                    assert(s[i].end_abs <= s[s.len() - 1].end_abs) by {
                        if i < s.len() - 1 {
                            assert(s[i].end_abs <= s[s.len() - 1].start_abs);
                            assert(s[s.len() - 1].start_abs <= s[s.len() - 1].end_abs);
                        }
                    }
                }
                assert(false);
            },
        }
    }
}

} // verus!
