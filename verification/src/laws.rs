//! The guarantees a lookup gives on a well-formed tree, stated and
//! proved once and for all: containment resolves to the exact chain of
//! ordinals, a range's end address never matches its own node, interior
//! gaps are detected, out-of-range addresses are rejected, and repeated
//! lookups agree.
//!
//! Well-formedness here is the builder's obligation from the data model:
//! every child lies within its parent, sibling ranges are non-empty and
//! do not overlap, and stored ranges agree with the scalar bounds. No
//! order of attachment is assumed: the lookup sorts lazily.

use vstd::prelude::*;

use crate::cmd_elements::CommandElements;
use crate::commands::cmd_after_find;
use crate::commands::cmd_find;
use crate::commands::cmd_in_range;
use crate::commands::elem_spans;
use crate::commands::Commands;
use crate::coordinates::Coordinates;
use crate::disk_offsets::OffsetLayoutsError;
use crate::file::file_after_find;
use crate::file::file_find;
use crate::file::file_in_range;
use crate::file::slice_spans;
use crate::file::File;
use crate::search::lemma_search_resolves;
use crate::search::lemma_sort_by_start_distinct;
use crate::search::lemma_sort_by_start_elem_of;
use crate::search::lemma_sort_by_start_len;
use crate::search::lemma_sort_by_start_of_sorted;
use crate::search::lemma_sort_by_start_origin;
use crate::search::lemma_sort_by_start_sorted;
use crate::search::lemma_sorted_disjoint_searchable;
use crate::search::search_spans;
use crate::search::sort_by_start;
use crate::search::sorted_by_start;
use crate::search::distinct_keys;
use crate::search::span_consistent;
use crate::search::span_contains;
use crate::search::spans_disjoint;
use crate::search::spans_searchable;
use crate::search::KeyedByStart;
use crate::search::Probe;
use crate::search::Span;
use crate::slices::cmd_spans;
use crate::slices::slice_after_find;
use crate::slices::slice_find;
use crate::slices::slice_in_range;
use crate::slices::Slices;

verus! {

/// One range lies within another.
pub open spec fn range_within(inner: std::ops::Range<u64>, outer: std::ops::Range<u64>) -> bool {
    outer.start <= inner.start && inner.end <= outer.end
}

/// A well-formed command: consistent, non-empty, pairwise disjoint
/// elements (in any order), each contained in the command's absolute range.
pub open spec fn cmd_wf(c: Commands) -> bool {
    spans_disjoint(elem_spans(c.elements@)) && (forall|k: int|
        0 <= k < c.elements@.len() ==> range_within(
            (#[trigger] c.elements@[k]).absolute_range,
            c.absolute_range,
        ))
}

/// A well-formed slice: consistent, non-empty, pairwise disjoint
/// commands (in any order), each contained in the slice's absolute range
/// and well-formed itself.
pub open spec fn slice_wf(s: Slices) -> bool {
    spans_disjoint(cmd_spans(s.commands@)) && (forall|k: int|
        0 <= k < s.commands@.len() ==> range_within(
            (#[trigger] s.commands@[k]).absolute_range,
            s.absolute_range,
        ) && cmd_wf(s.commands@[k]))
}

/// A well-formed tree: consistent, non-empty, pairwise disjoint slices
/// (in any order), each contained in the file's absolute range and
/// well-formed itself.
pub open spec fn file_wf(f: File) -> bool {
    spans_disjoint(slice_spans(f.slices@)) && (forall|k: int|
        0 <= k < f.slices@.len() ==> range_within(
            (#[trigger] f.slices@[k]).absolute_range,
            f.absolute_range,
        ) && slice_wf(f.slices@[k]))
}

/// Disjoint non-empty elements have pairwise distinct start keys, so the
/// lazy sort arranges them into searchable order.
proof fn lemma_elems_sorted_searchable(s: Seq<CommandElements>)
    requires
        spans_disjoint(elem_spans(s)),
    ensures
        sort_by_start(s).len() == s.len(),
        spans_searchable(elem_spans(sort_by_start(s))),
        distinct_keys(sort_by_start(s)),
{
    lemma_sort_by_start_len(s);
    lemma_sort_by_start_sorted(s);
    let t = sort_by_start(s);
    let sp = elem_spans(s);
    let tp = elem_spans(t);
    assert(distinct_keys(s)) by {
        assert forall|i: int, j: int|
            0 <= i < j < s.len() implies (#[trigger] s[i]).start_key() != (
        #[trigger] s[j]).start_key() by {
            assert(span_consistent(sp[i]) && sp[i].start_abs < sp[i].end_abs);
            assert(span_consistent(sp[j]) && sp[j].start_abs < sp[j].end_abs);
            assert(sp[i].end_abs <= sp[j].start_abs || sp[j].end_abs <= sp[i].start_abs);
        }
    }
    lemma_sort_by_start_distinct(s);
    assert forall|a: int|
        0 <= a < t.len() implies span_consistent(#[trigger] tp[a]) && tp[a].start_abs
        < tp[a].end_abs by {
        let i = lemma_sort_by_start_origin(s, a);
        assert(tp[a] == sp[i]);
    }
    assert forall|a: int, b: int|
        0 <= a < b < t.len() implies #[trigger] tp[a].end_abs <= #[trigger] tp[b].start_abs by {
        let i = lemma_sort_by_start_origin(s, a);
        let j = lemma_sort_by_start_origin(s, b);
        assert(tp[a] == sp[i]);
        assert(tp[b] == sp[j]);
        assert(t[a].start_key() <= t[b].start_key());
        assert(t[a].start_key() != t[b].start_key());
        if i == j {
            assert(false);
        }
        assert(sp[i].end_abs <= sp[j].start_abs || sp[j].end_abs <= sp[i].start_abs);
        if sp[j].end_abs <= sp[i].start_abs {
            assert(sp[j].start_abs < sp[j].end_abs);
            assert(false);
        }
    }
}

/// As above, for the commands of a slice.
proof fn lemma_cmds_sorted_searchable(s: Seq<Commands>)
    requires
        spans_disjoint(cmd_spans(s)),
    ensures
        sort_by_start(s).len() == s.len(),
        spans_searchable(cmd_spans(sort_by_start(s))),
        distinct_keys(sort_by_start(s)),
{
    lemma_sort_by_start_len(s);
    lemma_sort_by_start_sorted(s);
    let t = sort_by_start(s);
    let sp = cmd_spans(s);
    let tp = cmd_spans(t);
    assert(distinct_keys(s)) by {
        assert forall|i: int, j: int|
            0 <= i < j < s.len() implies (#[trigger] s[i]).start_key() != (
        #[trigger] s[j]).start_key() by {
            assert(span_consistent(sp[i]) && sp[i].start_abs < sp[i].end_abs);
            assert(span_consistent(sp[j]) && sp[j].start_abs < sp[j].end_abs);
            assert(sp[i].end_abs <= sp[j].start_abs || sp[j].end_abs <= sp[i].start_abs);
        }
    }
    lemma_sort_by_start_distinct(s);
    assert forall|a: int|
        0 <= a < t.len() implies span_consistent(#[trigger] tp[a]) && tp[a].start_abs
        < tp[a].end_abs by {
        let i = lemma_sort_by_start_origin(s, a);
        assert(tp[a] == sp[i]);
    }
    assert forall|a: int, b: int|
        0 <= a < b < t.len() implies #[trigger] tp[a].end_abs <= #[trigger] tp[b].start_abs by {
        let i = lemma_sort_by_start_origin(s, a);
        let j = lemma_sort_by_start_origin(s, b);
        assert(tp[a] == sp[i]);
        assert(tp[b] == sp[j]);
        assert(t[a].start_key() <= t[b].start_key());
        assert(t[a].start_key() != t[b].start_key());
        if i == j {
            assert(false);
        }
        assert(sp[i].end_abs <= sp[j].start_abs || sp[j].end_abs <= sp[i].start_abs);
        if sp[j].end_abs <= sp[i].start_abs {
            assert(sp[j].start_abs < sp[j].end_abs);
            assert(false);
        }
    }
}

/// As above, for the slices of a file.
proof fn lemma_slices_sorted_searchable(s: Seq<Slices>)
    requires
        spans_disjoint(slice_spans(s)),
    ensures
        sort_by_start(s).len() == s.len(),
        spans_searchable(slice_spans(sort_by_start(s))),
        distinct_keys(sort_by_start(s)),
{
    lemma_sort_by_start_len(s);
    lemma_sort_by_start_sorted(s);
    let t = sort_by_start(s);
    let sp = slice_spans(s);
    let tp = slice_spans(t);
    assert(distinct_keys(s)) by {
        assert forall|i: int, j: int|
            0 <= i < j < s.len() implies (#[trigger] s[i]).start_key() != (
        #[trigger] s[j]).start_key() by {
            assert(span_consistent(sp[i]) && sp[i].start_abs < sp[i].end_abs);
            assert(span_consistent(sp[j]) && sp[j].start_abs < sp[j].end_abs);
            assert(sp[i].end_abs <= sp[j].start_abs || sp[j].end_abs <= sp[i].start_abs);
        }
    }
    lemma_sort_by_start_distinct(s);
    assert forall|a: int|
        0 <= a < t.len() implies span_consistent(#[trigger] tp[a]) && tp[a].start_abs
        < tp[a].end_abs by {
        let i = lemma_sort_by_start_origin(s, a);
        assert(tp[a] == sp[i]);
    }
    assert forall|a: int, b: int|
        0 <= a < b < t.len() implies #[trigger] tp[a].end_abs <= #[trigger] tp[b].start_abs by {
        let i = lemma_sort_by_start_origin(s, a);
        let j = lemma_sort_by_start_origin(s, b);
        assert(tp[a] == sp[i]);
        assert(tp[b] == sp[j]);
        assert(t[a].start_key() <= t[b].start_key());
        assert(t[a].start_key() != t[b].start_key());
        if i == j {
            assert(false);
        }
        assert(sp[i].end_abs <= sp[j].start_abs || sp[j].end_abs <= sp[i].start_abs);
        if sp[j].end_abs <= sp[i].start_abs {
            assert(sp[j].start_abs < sp[j].end_abs);
            assert(false);
        }
    }
}

/// Already sorted, disjoint slices are searchable as they stand, and the
/// lazy sort leaves them unchanged.
proof fn lemma_slices_ready(s: Seq<Slices>)
    requires
        spans_disjoint(slice_spans(s)),
        sorted_by_start(s),
    ensures
        spans_searchable(slice_spans(s)),
        sort_by_start(s) == s,
{
    let sp = slice_spans(s);
    assert forall|i: int, j: int|
        0 <= i <= j < s.len() implies (#[trigger] sp[i]).start_abs <= (
    #[trigger] sp[j]).start_abs by {
        assert(s[i].start_key() <= s[j].start_key());
    }
    lemma_sorted_disjoint_searchable(sp);
    lemma_sort_by_start_of_sorted(s);
}

/// On a well-formed command, an address inside one of its elements
/// resolves to that element's ordinal.
pub proof fn lemma_cmd_find_in_element(c: Commands, addr: u64, k: int)
    requires
        cmd_wf(c),
        0 <= k < c.elements@.len(),
        c.elements@[k].absolute_range.start <= addr,
        addr < c.elements@[k].absolute_range.end,
    ensures
        cmd_in_range(c, addr),
        cmd_find(c, addr) == Ok::<Coordinates, OffsetLayoutsError>(
            Coordinates {
                slice: None,
                command: Some(c.my_ordinal),
                element: Some(c.elements@[k].my_ordinal),
            },
        ),
{
    assert(range_within(c.elements@[k].absolute_range, c.absolute_range));
    lemma_elems_sorted_searchable(c.elements@);
    let es = sort_by_start(c.elements@);
    let a = lemma_sort_by_start_elem_of(c.elements@, k);
    let sp = elem_spans(es);
    lemma_search_resolves(sp, addr);
    assert(span_contains(sp[a], addr));
    assert(search_spans(sp, addr, 0, sp.len() - 1) == Probe::Found(a));
}

/// On a well-formed slice, an address inside an element of one of its
/// commands resolves to that command's and element's ordinals.
pub proof fn lemma_slice_find_in_element(s: Slices, addr: u64, j: int, k: int)
    requires
        slice_wf(s),
        0 <= j < s.commands@.len(),
        0 <= k < s.commands@[j].elements@.len(),
        s.commands@[j].elements@[k].absolute_range.start <= addr,
        addr < s.commands@[j].elements@[k].absolute_range.end,
    ensures
        slice_in_range(s, addr),
        slice_find(s, addr) == Ok::<Coordinates, OffsetLayoutsError>(
            Coordinates {
                slice: Some(s.my_ordinal),
                command: Some(s.commands@[j].my_ordinal),
                element: Some(s.commands@[j].elements@[k].my_ordinal),
            },
        ),
{
    let c = s.commands@[j];
    lemma_cmd_find_in_element(c, addr, k);
    assert(range_within(c.absolute_range, s.absolute_range));
    lemma_cmds_sorted_searchable(s.commands@);
    let cs = sort_by_start(s.commands@);
    let a = lemma_sort_by_start_elem_of(s.commands@, j);
    let sp = cmd_spans(cs);
    lemma_search_resolves(sp, addr);
    assert(span_contains(sp[a], addr));
    assert(search_spans(sp, addr, 0, sp.len() - 1) == Probe::Found(a));
}

/// Containment: on a well-formed tree, an address inside a leaf's
/// absolute range resolves to exactly the ordinals of the slice, command
/// and element chain that contains it, in whatever order the children
/// were attached.
pub proof fn lemma_find_address_containment(f: File, addr: u64, i: int, j: int, k: int)
    requires
        file_wf(f),
        0 <= i < f.slices@.len(),
        0 <= j < f.slices@[i].commands@.len(),
        0 <= k < f.slices@[i].commands@[j].elements@.len(),
        f.slices@[i].commands@[j].elements@[k].absolute_range.start <= addr,
        addr < f.slices@[i].commands@[j].elements@[k].absolute_range.end,
    ensures
        file_in_range(f, addr),
        file_find(f, addr) == Ok::<Coordinates, OffsetLayoutsError>(
            Coordinates {
                slice: Some(f.slices@[i].my_ordinal),
                command: Some(f.slices@[i].commands@[j].my_ordinal),
                element: Some(f.slices@[i].commands@[j].elements@[k].my_ordinal),
            },
        ),
{
    let sl = f.slices@[i];
    lemma_slice_find_in_element(sl, addr, j, k);
    assert(range_within(sl.absolute_range, f.absolute_range));
    lemma_slices_sorted_searchable(f.slices@);
    let ss = sort_by_start(f.slices@);
    let a = lemma_sort_by_start_elem_of(f.slices@, i);
    let sp = slice_spans(ss);
    lemma_search_resolves(sp, addr);
    assert(span_contains(sp[a], addr));
    assert(search_spans(sp, addr, 0, sp.len() - 1) == Probe::Found(a));
}

/// A slice lookup that succeeds always reports the slice's own ordinal.
pub proof fn lemma_slice_find_ok_sets_slice(s: Slices, addr: u64)
    ensures
        (match slice_find(s, addr) {
            Ok(c) => c.slice == Some(s.my_ordinal),
            Err(_) => true,
        }),
{
}

/// Exclusivity of the range end: an address equal to a slice's absolute
/// end never resolves to that slice (half-open semantics); the lookup
/// either resolves to another slice that contains the address, or fails.
pub proof fn lemma_range_end_excluded(f: File, addr: u64, i: int)
    requires
        file_wf(f),
        0 <= i < f.slices@.len(),
        addr == f.slices@[i].absolute_range.end,
    ensures
        (match file_find(f, addr) {
            Ok(c) => exists|i2: int|
                0 <= i2 < f.slices@.len() && i2 != i && (#[trigger] f.slices@[i2]).absolute_range.start
                    <= addr && addr < f.slices@[i2].absolute_range.end && c.slice == Some(
                    f.slices@[i2].my_ordinal),
            Err(_) => true,
        }),
{
    if file_in_range(f, addr) && f.slices@.len() > 0 {
        lemma_slices_sorted_searchable(f.slices@);
        let ss = sort_by_start(f.slices@);
        let sp = slice_spans(ss);
        lemma_search_resolves(sp, addr);
        match search_spans(sp, addr, 0, sp.len() - 1) {
            Probe::Found(a) => {
                assert(span_contains(sp[a], addr));
                let i2 = lemma_sort_by_start_origin(f.slices@, a);
                assert(f.slices@[i2] == ss[a]);
                assert(span_consistent(slice_spans(f.slices@)[i]));
                assert(i2 != i);
                lemma_slice_find_ok_sets_slice(ss[a], addr);
                match slice_find(ss[a], addr) {
                    Ok(c) => {
                        let w = f.slices@[i2];
                        assert(0 <= i2 < f.slices@.len() && i2 != i && w.absolute_range.start
                            <= addr && addr < w.absolute_range.end && c.slice == Some(
                        w.my_ordinal));
                    },
                    Err(_) => {},
                }
            },
            _ => {},
        }
    }
}

/// Gap detection: on a well-formed tree whose slices stand in sorted
/// order, an in-range address lying between two adjacent slices is
/// reported as an inconsistency at the slice on the left of the gap.
pub proof fn lemma_gap_detected(f: File, addr: u64, k: int)
    requires
        file_wf(f),
        sorted_by_start(f.slices@),
        file_in_range(f, addr),
        0 <= k,
        k + 1 < f.slices@.len(),
        f.slices@[k].absolute_range.end <= addr,
        addr < f.slices@[k + 1].absolute_range.start,
    ensures
        file_find(f, addr) == Err::<Coordinates, OffsetLayoutsError>(
            OffsetLayoutsError::InconsistentStructure(addr, f.slices@[k].absolute_range),
        ),
{
    lemma_slices_ready(f.slices@);
    let sp = slice_spans(f.slices@);
    let n = sp.len();
    lemma_search_resolves(sp, addr);
    assert(span_consistent(sp[k]));
    assert(span_consistent(sp[k + 1]));
    match search_spans(sp, addr, 0, n - 1) {
        Probe::Found(i2) => {
            assert(span_contains(sp[i2], addr));
            if i2 <= k {
                if i2 < k {
                    assert(sp[i2].end_abs <= sp[k].start_abs);
                    assert(span_consistent(sp[i2]));
                }
                assert(false);
            } else {
                assert(sp[k + 1].start_abs <= sp[i2].start_abs) by {
                    if k + 1 < i2 {
                        assert(sp[k + 1].end_abs <= sp[i2].start_abs);
                    }
                }
                assert(false);
            }
        },
        Probe::Gap(k2) => {
            if k2 < k {
                assert(sp[k2 + 1].start_abs <= sp[k].start_abs) by {
                    if k2 + 1 < k {
                        assert(sp[k2 + 1].end_abs <= sp[k].start_abs);
                        assert(span_consistent(sp[k2 + 1]));
                    }
                }
                assert(sp[k].start_abs <= sp[k].end_abs);
                assert(false);
            }
            if k2 > k {
                assert(sp[k + 1].start_abs <= sp[k2].start_abs) by {
                    if k + 1 < k2 {
                        assert(sp[k + 1].end_abs <= sp[k2].start_abs);
                    }
                }
                assert(sp[k2].start_abs <= sp[k2].end_abs) by {
                    assert(span_consistent(sp[k2]));
                }
                assert(false);
            }
            assert(k2 == k);
        },
        Probe::Missed => {
            if addr < sp[0].start_abs {
                assert(sp[0].start_abs <= sp[k].start_abs) by {
                    if 0 < k {
                        assert(sp[0].end_abs <= sp[k].start_abs);
                        assert(span_consistent(sp[0]));
                    }
                }
                assert(sp[k].start_abs <= sp[k].end_abs);
                assert(false);
            } else {
                assert(sp[k + 1].start_abs <= sp[n - 1].end_abs) by {
                    if k + 1 < n - 1 {
                        assert(sp[k + 1].end_abs <= sp[n - 1].start_abs);
                        assert(span_consistent(sp[n - 1]));
                        assert(span_consistent(sp[k + 1]));
                    } else {
                        assert(span_consistent(sp[k + 1]));
                    }
                }
                assert(false);
            }
        },
    }
}

/// Out of bounds: an address outside the file's absolute range is
/// rejected with the file's own range, whatever the tree holds.
pub proof fn lemma_out_of_scope(f: File, addr: u64)
    requires
        !file_in_range(f, addr),
    ensures
        file_find(f, addr) == Err::<Coordinates, OffsetLayoutsError>(
            OffsetLayoutsError::AddressOutsideCurrentScope(addr, f.absolute_range),
        ),
{
}

/// A command lookup leaves the command in a state on which the same
/// lookup gives the same answer.
pub proof fn lemma_cmd_find_idempotent(pre: Commands, post: Commands, addr: u64)
    requires
        cmd_after_find(pre, post, addr),
    ensures
        cmd_find(post, addr) == cmd_find(pre, addr),
{
    if cmd_in_range(pre, addr) && pre.elements@.len() > 0 {
        lemma_sort_by_start_sorted(pre.elements@);
        lemma_sort_by_start_len(pre.elements@);
        lemma_sort_by_start_of_sorted(post.elements@);
    }
}

/// A slice lookup leaves the slice in a state on which the same lookup
/// gives the same answer.
pub proof fn lemma_slice_find_idempotent(pre: Slices, post: Slices, addr: u64)
    requires
        slice_after_find(pre, post, addr),
    ensures
        slice_find(post, addr) == slice_find(pre, addr),
{
    if slice_in_range(pre, addr) && pre.commands@.len() > 0 {
        let cs = sort_by_start(pre.commands@);
        lemma_sort_by_start_sorted(pre.commands@);
        lemma_sort_by_start_len(pre.commands@);
        match search_spans(cmd_spans(cs), addr, 0, cs.len() - 1) {
            Probe::Found(i) => {
                let c_post = post.commands@[i];
                assert(cmd_after_find(cs[i], c_post, addr));
                assert(cmd_spans(post.commands@) =~= cmd_spans(cs));
                assert(sorted_by_start(post.commands@)) by {
                    assert(forall|a: int|
                        0 <= a < cs.len() ==> (#[trigger] post.commands@[a]).start_key()
                            == cs[a].start_key());
                }
                lemma_sort_by_start_of_sorted(post.commands@);
                assert(search_spans(cmd_spans(post.commands@), addr, 0, post.commands@.len() - 1)
                    == Probe::Found(i));
                lemma_cmd_find_idempotent(cs[i], c_post, addr);
            },
            _ => {
                lemma_sort_by_start_of_sorted(post.commands@);
            },
        }
    }
}

/// Idempotence: a lookup leaves the tree in a state on which the same
/// lookup gives the same answer, so repeated calls with the same address
/// agree (the lazy sort is idempotent, and a lookup changes nothing
/// else).
pub proof fn lemma_find_address_idempotent(pre: File, post: File, addr: u64)
    requires
        file_after_find(pre, post, addr),
    ensures
        file_find(post, addr) == file_find(pre, addr),
{
    if file_in_range(pre, addr) && pre.slices@.len() > 0 {
        let ss = sort_by_start(pre.slices@);
        lemma_sort_by_start_sorted(pre.slices@);
        lemma_sort_by_start_len(pre.slices@);
        match search_spans(slice_spans(ss), addr, 0, ss.len() - 1) {
            Probe::Found(i) => {
                let s_post = post.slices@[i];
                assert(slice_after_find(ss[i], s_post, addr));
                assert(slice_spans(post.slices@) =~= slice_spans(ss));
                assert(sorted_by_start(post.slices@)) by {
                    assert(forall|a: int|
                        0 <= a < ss.len() ==> (#[trigger] post.slices@[a]).start_key()
                            == ss[a].start_key());
                }
                lemma_sort_by_start_of_sorted(post.slices@);
                assert(search_spans(slice_spans(post.slices@), addr, 0, post.slices@.len() - 1)
                    == Probe::Found(i));
                lemma_slice_find_idempotent(ss[i], s_post, addr);
            },
            _ => {
                lemma_sort_by_start_of_sorted(post.slices@);
            },
        }
    }
}

} // verus!
