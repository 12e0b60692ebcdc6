//! The root level: the file owns zero or more slices and composes the
//! full three-index answer of a lookup. A root records no index of its
//! own; the slice a hit descends into must report its slice index, and
//! an in-range address no slice covers is a coverage gap, not a bounds
//! error.

use std::ops::Range;
use vstd::prelude::*;

use crate::coordinates::Coordinates;
use crate::disk_offsets::DiskOffsets;
use crate::disk_offsets::OffsetLayoutsError;
use crate::search::insert_by_start;
use crate::search::lemma_insert_by_start_split;
use crate::search::lemma_sort_by_start_len;
use crate::search::lemma_sort_by_start_sorted;
use crate::search::search_spans;
use crate::search::sort_by_start;
use crate::search::sorted_by_start;
use crate::search::KeyedByStart;
use crate::search::Probe;
use crate::search::Span;
use crate::slices::slice_after_find;
use crate::slices::slice_find;
use crate::slices::slice_same_bounds;
use crate::slices::slice_span;
use crate::slices::Slices;
use crate::types::ChildrenArray;

verus! {

/// The unique root of a structure: the whole file's address space.
#[derive(Debug)]
pub struct File {
    pub start_abs_address: u64,
    pub end_abs_address: u64,
    /// Always 0 for the root.
    pub start_rel_address: u64,
    /// Equals the absolute end for the root.
    pub end_rel_address: u64,
    pub absolute_range: Range<u64>,
    /// Equals the absolute range for the root.
    pub relative_range: Range<u64>,
    /// Always 0 for the root: there is one file per structure.
    pub my_ordinal: usize,
    pub slices: Vec<Slices>,
}

/// The spans of a sequence of sibling slices.
pub open spec fn slice_spans(s: Seq<Slices>) -> Seq<Span> {
    s.map_values(|sl: Slices| slice_span(sl))
}

/// The value a fresh file holds: every address is zero, both ranges are
/// empty, and no slices are attached.
pub open spec fn file_is_empty(f: File) -> bool {
    f.start_abs_address == 0 && f.end_abs_address == 0 && f.start_rel_address == 0
        && f.end_rel_address == 0 && f.absolute_range == (Range::<u64> { start: 0, end: 0 })
        && f.relative_range == (Range::<u64> { start: 0, end: 0 }) && f.my_ordinal == 0
        && f.slices@ =~= Seq::<Slices>::empty()
}

/// Whether the address lies in the file's stored absolute range.
pub open spec fn file_in_range(f: File, addr: u64) -> bool {
    f.absolute_range.start <= addr && addr < f.absolute_range.end
}

/// What `find_address` returns on the root: out of range fails at once;
/// a file without slices is inconsistent; otherwise the slices are
/// sorted and binary-searched. A hit descends into the slice and takes
/// the full coordinates it reports; a slice that fails or reports no
/// slice index is broken; a gap between slices is an inconsistency; an
/// exhausted search means no registered slice covers the address.
pub open spec fn file_find(f: File, addr: u64) -> Result<Coordinates, OffsetLayoutsError> {
    if !file_in_range(f, addr) {
        Err(OffsetLayoutsError::AddressOutsideCurrentScope(addr, f.absolute_range))
    } else if f.slices@.len() == 0 {
        Err(OffsetLayoutsError::InconsistentStructure(addr, f.absolute_range))
    } else {
        let ss = sort_by_start(f.slices@);
        match search_spans(slice_spans(ss), addr, 0, ss.len() - 1) {
            Probe::Found(i) => match slice_find(ss[i], addr) {
                Ok(sub) => if sub.slice is Some {
                    Ok(sub)
                } else {
                    Err(OffsetLayoutsError::SliceIsBroken)
                },
                Err(_) => Err(OffsetLayoutsError::SliceIsBroken),
            },
            Probe::Gap(k) => Err(
                OffsetLayoutsError::InconsistentStructure(addr, ss[k].absolute_range),
            ),
            Probe::Missed => Err(OffsetLayoutsError::NotFound(addr)),
        }
    }
}

/// The file's own attributes are untouched by a lookup.
pub open spec fn file_same_bounds(pre: File, post: File) -> bool {
    post.start_abs_address == pre.start_abs_address && post.end_abs_address
        == pre.end_abs_address && post.start_rel_address == pre.start_rel_address
        && post.end_rel_address == pre.end_rel_address && post.absolute_range
        == pre.absolute_range && post.relative_range == pre.relative_range && post.my_ordinal
        == pre.my_ordinal
}

/// How a lookup leaves the root behind: its attributes are unchanged,
/// its slices are sorted exactly when the lookup searched them, and the
/// one slice a hit descended into is left as its own lookup leaves it.
pub open spec fn file_after_find(pre: File, post: File, addr: u64) -> bool {
    file_same_bounds(pre, post) && (if file_in_range(pre, addr) && pre.slices@.len() > 0 {
        let ss = sort_by_start(pre.slices@);
        match search_spans(slice_spans(ss), addr, 0, ss.len() - 1) {
            Probe::Found(i) => post.slices@.len() == ss.len() && (forall|j: int|
                0 <= j < ss.len() && j != i ==> post.slices@[j] == ss[j]) && slice_after_find(
                ss[i],
                post.slices@[i],
                addr,
            ),
            _ => post.slices@ == ss,
        }
    } else {
        post.slices@ == pre.slices@
    })
}

/// Stable insertion of a slice into a vector, scanning from the right.
fn place_slice(v: &mut Vec<Slices>, x: Slices)
    ensures
        final(v)@ == insert_by_start(old(v)@, x),
{
    let ghost s = v@;
    proof {
        lemma_insert_by_start_split(s, x);
    }
    let mut j: usize = v.len();
    while j > 0 && v[j - 1].start_abs_address > x.start_abs_address
        invariant
            j <= v.len(),
            v@ == s,
            forall|k: int| j <= k < s.len() ==> #[trigger] s[k].start_key() > x.start_key(),
        decreases j,
    {
        j -= 1;
    }
    proof {
        let p = insert_pos_of(s, x, j as int);
    }
    v.insert(j, x);
    proof {
        assert(v@ =~= s.subrange(0, j as int) + seq![x] + s.subrange(j as int, s.len() as int));
    }
}

/// The scan's stopping point is exactly `insert_pos`.
proof fn insert_pos_of(s: Seq<Slices>, x: Slices, j: int) -> (p: int)
    requires
        0 <= j <= s.len(),
        forall|k: int| j <= k < s.len() ==> #[trigger] s[k].start_key() > x.start_key(),
        j > 0 ==> s[j - 1].start_key() <= x.start_key(),
    ensures
        p == j,
        p == crate::search::insert_pos(s, x),
        insert_by_start(s, x) == s.subrange(0, j) + seq![x] + s.subrange(j, s.len() as int),
{
    lemma_insert_by_start_split(s, x);
    let q = crate::search::insert_pos(s, x);
    if j < q {
        assert(s[q - 1].start_key() > x.start_key());
        assert(false);
    }
    if j > q {
        assert(s[j - 1].start_key() > x.start_key());
        assert(false);
    }
    j
}

impl File {
    /// An empty file: every address is zero, both ranges are empty, and
    /// no slices are attached.
    pub fn new() -> (r: Self)
        ensures
            file_is_empty(r),
    {
        File {
            start_abs_address: 0,
            end_abs_address: 0,
            start_rel_address: 0,
            end_rel_address: 0,
            absolute_range: Range { start: 0, end: 0 },
            relative_range: Range { start: 0, end: 0 },
            my_ordinal: 0,
            slices: Vec::new(),
        }
    }

    /// A file covering `[0, file_size)`, with no slices attached yet.
    pub fn with_size(file_size: u64) -> (r: Self)
        ensures
            r.start_abs_address == 0,
            r.end_abs_address == file_size,
            r.start_rel_address == 0,
            r.end_rel_address == file_size,
            r.absolute_range == (Range::<u64> { start: 0, end: file_size }),
            r.relative_range == (Range::<u64> { start: 0, end: file_size }),
            r.my_ordinal == 0,
            r.slices@ =~= Seq::<Slices>::empty(),
    {
        File {
            start_abs_address: 0,
            end_abs_address: file_size,
            start_rel_address: 0,
            end_rel_address: file_size,
            absolute_range: Range { start: 0, end: file_size },
            relative_range: Range { start: 0, end: file_size },
            my_ordinal: 0,
            slices: Vec::new(),
        }
    }

    /// Attach a slice at the end of the file's children.
    pub fn add_slice(&mut self, slice: Slices)
        ensures
            file_same_bounds(*old(self), *final(self)),
            final(self).slices@ == old(self).slices@.push(slice),
    {
        self.slices.push(slice);
    }
}

impl Default for File {
    /// An empty file: every address is zero, both ranges are empty, and
    /// no slices are attached.
    fn default() -> (r: Self)
        ensures
            file_is_empty(r),
    {
        File::new()
    }
}

impl Clone for File {
    /// A clone carries the same attributes and slice-for-slice the same
    /// slice attributes.
    fn clone(&self) -> (r: Self)
        ensures
            file_same_bounds(*self, r),
            r.slices@.len() == self.slices@.len(),
            forall|i: int|
                0 <= i < self.slices@.len() ==> slice_same_bounds(
                    self.slices@[i],
                    #[trigger] r.slices@[i],
                ),
    {
        let slices = self.slices.clone();
        File {
            start_abs_address: self.start_abs_address,
            end_abs_address: self.end_abs_address,
            start_rel_address: self.start_rel_address,
            end_rel_address: self.end_rel_address,
            absolute_range: Range { start: self.absolute_range.start, end: self.absolute_range.end },
            relative_range: Range { start: self.relative_range.start, end: self.relative_range.end },
            my_ordinal: self.my_ordinal,
            slices,
        }
    }
}

impl DiskOffsets for File {
    fn set_start_abs_address(&mut self, start_abs: u64)
        ensures
            *final(self) == (File { start_abs_address: start_abs, ..*old(self) }),
    {
        self.start_abs_address = start_abs;
    }

    fn set_start_rel_address(&mut self, start_rel: u64)
        ensures
            *final(self) == (File { start_rel_address: start_rel, ..*old(self) }),
    {
        self.start_rel_address = start_rel;
    }

    fn set_end_abs_address(&mut self, end_abs: u64)
        ensures
            *final(self) == (File { end_abs_address: end_abs, ..*old(self) }),
    {
        self.end_abs_address = end_abs;
    }

    fn set_end_rel_address(&mut self, end_rel: u64)
        ensures
            *final(self) == (File { end_rel_address: end_rel, ..*old(self) }),
    {
        self.end_rel_address = end_rel;
    }

    fn set_absolute_range_explicit(&mut self, range: Range<u64>)
        ensures
            *final(self) == (File { absolute_range: range, ..*old(self) }),
    {
        self.absolute_range = range;
    }

    fn set_relative_range_explicit(&mut self, range: Range<u64>)
        ensures
            *final(self) == (File { relative_range: range, ..*old(self) }),
    {
        self.relative_range = range;
    }

    fn set_absolute_range_implicit(&mut self)
        ensures
            *final(self) == (File {
                absolute_range: Range {
                    start: old(self).start_abs_address,
                    end: old(self).end_abs_address,
                },
                ..*old(self)
            }),
    {
        self.absolute_range = Range { start: self.start_abs_address, end: self.end_abs_address };
    }

    /// For the root, the relative range is recomputed from the absolute
    /// scalar bounds: the root is its own parent.
    fn set_relative_range_implicit(&mut self)
        ensures
            *final(self) == (File {
                relative_range: Range {
                    start: old(self).start_abs_address,
                    end: old(self).end_abs_address,
                },
                ..*old(self)
            }),
    {
        self.relative_range = Range { start: self.start_abs_address, end: self.end_abs_address };
    }

    fn set_ordinal(&mut self, ordinal: usize)
        ensures
            *final(self) == (File { my_ordinal: ordinal, ..*old(self) }),
    {
        self.my_ordinal = ordinal;
    }

    fn get_absolute_range(&self) -> (r: Range<u64>)
        ensures
            r == self.absolute_range,
    {
        Range { start: self.absolute_range.start, end: self.absolute_range.end }
    }

    fn get_relative_range(&self) -> (r: Range<u64>)
        ensures
            r == self.relative_range,
    {
        Range { start: self.relative_range.start, end: self.relative_range.end }
    }

    fn has_children(&self) -> (r: bool)
        ensures
            r == (self.slices@.len() > 0),
    {
        self.slices.len() > 0
    }

    /// Hands out a copy of the sorted slices; the copy agrees with the
    /// file's own children slice-for-slice on every attribute.
    fn get_children(&mut self) -> (r: Option<ChildrenArray>)
        ensures
            file_after_children(*old(self), *final(self)),
            old(self).slices@.len() > 0 ==> sorted_by_start(final(self).slices@),
            (match r {
                Option::Some(ca) => old(self).slices@.len() > 0 && (match ca {
                    ChildrenArray::File(v) => v@.len() == final(self).slices@.len()
                        && sorted_by_start(v@) && (forall|i: int|
                        0 <= i < v@.len() ==> slice_same_bounds(
                            final(self).slices@[i],
                            #[trigger] v@[i],
                        )),
                    _ => false,
                }),
                Option::None => old(self).slices@.len() == 0,
            }),
    {
        if self.has_children() {
            self.sort_children();
            let children = self.slices.clone();
            proof {
                assert forall|a: int, b: int|
                    0 <= a <= b < children@.len() implies #[trigger] children@[a].start_key()
                    <= #[trigger] children@[b].start_key() by {
                    assert(slice_same_bounds(self.slices@[a], children@[a]));
                    assert(slice_same_bounds(self.slices@[b], children@[b]));
                    assert(self.slices@[a].start_key() <= self.slices@[b].start_key());
                }
            }
            Some(ChildrenArray::File(children))
        } else {
            None
        }
    }

    fn sort_children(&mut self)
        ensures
            file_same_bounds(*old(self), *final(self)),
            final(self).slices@ == sort_by_start(old(self).slices@),
            sorted_by_start(final(self).slices@),
    {
        let ghost orig = self.slices@;
        let n = self.slices.len();
        let mut sorted_vec: Vec<Slices> = Vec::new();
        let mut i: usize = 0;
        while i < n
            invariant
                i <= n,
                n == orig.len(),
                self.slices@ == orig.skip(i as int),
                file_same_bounds(*old(self), *self),
                sorted_vec@ == sort_by_start(orig.take(i as int)),
            decreases n - i,
        {
            let x = self.slices.remove(0);
            proof {
                assert(orig.skip(i as int).remove(0) =~= orig.skip(i as int + 1));
                assert(x == orig[i as int]);
                assert(orig.take(i as int + 1).drop_last() =~= orig.take(i as int));
                assert(orig.take(i as int + 1).last() == orig[i as int]);
            }
            place_slice(&mut sorted_vec, x);
            i += 1;
        }
        proof {
            assert(orig.take(n as int) =~= orig);
        }
        self.slices = sorted_vec;
        proof {
            lemma_sort_by_start_sorted(orig);
        }
    }

    fn get_max_abs_address(&self) -> (r: u64)
        ensures
            r == self.end_abs_address,
    {
        self.end_abs_address
    }

    fn get_min_abs_address(&self) -> (r: u64)
        ensures
            r == self.start_abs_address,
    {
        self.start_abs_address
    }

    fn find_address(&mut self, absolute_address: u64) -> (r: Result<
        Coordinates,
        OffsetLayoutsError,
    >)
        ensures
            r == file_find(*old(self), absolute_address),
            file_after_find(*old(self), *final(self), absolute_address),
    {
        let absolute_range = self.get_absolute_range();
        if !(absolute_range.start <= absolute_address && absolute_address < absolute_range.end) {
            return Err(
                OffsetLayoutsError::AddressOutsideCurrentScope(absolute_address, absolute_range),
            );
        }
        let mut retval = Coordinates::new();
        if self.slices.len() == 0 {
            return Err(
                OffsetLayoutsError::InconsistentStructure(absolute_address, absolute_range),
            );
        }
        self.sort_children();
        proof {
            lemma_sort_by_start_len(old(self).slices@);
        }
        let ghost ss = self.slices@;
        let ghost spans = slice_spans(ss);
        let mut start: usize = 0;
        let mut end: usize = self.slices.len() - 1;
        while start <= end
            invariant
                self.slices@ == ss,
                ss == sort_by_start(old(self).slices@),
                file_same_bounds(*old(self), *self),
                ss.len() == old(self).slices@.len(),
                ss.len() > 0,
                end < ss.len(),
                spans == slice_spans(ss),
                file_in_range(*old(self), absolute_address),
                retval == (Coordinates { slice: None, command: None, element: None }),
                search_spans(spans, absolute_address, start as int, end as int) == search_spans(
                    spans,
                    absolute_address,
                    0,
                    ss.len() - 1,
                ),
            decreases end + 1 - start,
        {
            let mid = start + (end - start) / 2;
            proof {
                assert(mid <= end);
                assert(mid as int == (start as int + end as int) / 2);
                assert(spans[mid as int] == slice_span(ss[mid as int]));
            }
            let r_start = self.slices[mid].absolute_range.start;
            let r_end = self.slices[mid].absolute_range.end;
            if r_start <= absolute_address && absolute_address < r_end {
                let mut child = self.slices.remove(mid);
                let res = child.find_address(absolute_address);
                self.slices.insert(mid, child);
                proof {
                    assert(self.slices@ =~= ss.update(mid as int, child));
                    assert(search_spans(spans, absolute_address, start as int, end as int)
                        == Probe::Found(mid as int));
                }
                match res {
                    Ok(coords) => {
                        if let Some(s) = coords.slice {
                            retval.set_slice(s);
                        } else {
                            return Err(OffsetLayoutsError::SliceIsBroken);
                        }
                        if let Some(c) = coords.command {
                            retval.set_command(c);
                        }
                        if let Some(e) = coords.element {
                            retval.set_element(e);
                        }
                        proof {
                            assert(retval == coords);
                        }
                        return Ok(retval);
                    },
                    Err(_) => {
                        return Err(OffsetLayoutsError::SliceIsBroken);
                    },
                }
            } else {
                let min = self.slices[mid].start_abs_address;
                let max = self.slices[mid].end_abs_address;
                if absolute_address < min {
                    if mid == 0 {
                        proof {
                            assert(search_spans(spans, absolute_address, start as int, end as int)
                                == Probe::Missed);
                        }
                        return Err(OffsetLayoutsError::NotFound(absolute_address));
                    }
                    end = mid - 1;
                } else if absolute_address >= max {
                    if mid < self.slices.len() - 1 {
                        let next_min = self.slices[mid + 1].start_abs_address;
                        if absolute_address < next_min {
                            proof {
                                assert(search_spans(
                                    spans,
                                    absolute_address,
                                    start as int,
                                    end as int,
                                ) == Probe::Gap(mid as int));
                            }
                            return Err(
                                OffsetLayoutsError::InconsistentStructure(
                                    absolute_address,
                                    Range { start: r_start, end: r_end },
                                ),
                            );
                        }
                    }
                    start = mid + 1;
                } else {
                    proof {
                        assert(search_spans(spans, absolute_address, start as int, end as int)
                            == Probe::Gap(mid as int));
                    }
                    return Err(
                        OffsetLayoutsError::InconsistentStructure(
                            absolute_address,
                            Range { start: r_start, end: r_end },
                        ),
                    );
                }
            }
        }
        proof {
            assert(search_spans(spans, absolute_address, start as int, end as int)
                == Probe::Missed);
        }
        Err(OffsetLayoutsError::NotFound(absolute_address))
    }

    fn set_absolutes(&mut self, start_abs: u64, end_abs: u64)
        ensures
            *final(self) == (File {
                start_abs_address: start_abs,
                end_abs_address: end_abs,
                absolute_range: Range { start: start_abs, end: end_abs },
                ..*old(self)
            }),
    {
        self.set_start_abs_address(start_abs);
        self.set_end_abs_address(end_abs);
        self.set_absolute_range_implicit();
    }

    fn set_relatives(&mut self, start_rel: u64, end_rel: u64)
        ensures
            *final(self) == (File {
                start_rel_address: start_rel,
                end_rel_address: end_rel,
                relative_range: Range {
                    start: old(self).start_abs_address,
                    end: old(self).end_abs_address,
                },
                ..*old(self)
            }),
    {
        self.set_start_rel_address(start_rel);
        self.set_end_rel_address(end_rel);
        self.set_relative_range_implicit();
    }

    fn populate_values(
        &mut self,
        start_abs: u64,
        end_abs: u64,
        start_rel: u64,
        end_rel: u64,
        ordinal: usize,
    )
        ensures
            *final(self) == (File {
                start_abs_address: start_abs,
                end_abs_address: end_abs,
                start_rel_address: start_rel,
                end_rel_address: end_rel,
                absolute_range: Range { start: start_abs, end: end_abs },
                relative_range: Range { start: start_abs, end: end_abs },
                my_ordinal: ordinal,
                ..*old(self)
            }),
    {
        self.set_absolutes(start_abs, end_abs);
        self.set_relatives(start_rel, end_rel);
        self.set_ordinal(ordinal);
    }

    fn contains_absolute_address(&self, an_address: u64) -> (r: bool)
        ensures
            r == file_in_range(*self, an_address),
    {
        let range = self.get_absolute_range();
        range.start <= an_address && an_address < range.end
    }
}

/// How `get_children` leaves the root behind: attributes unchanged, and
/// slices sorted exactly when there are any.
pub open spec fn file_after_children(pre: File, post: File) -> bool {
    file_same_bounds(pre, post) && post.slices@ == (if pre.slices@.len() > 0 {
        sort_by_start(pre.slices@)
    } else {
        pre.slices@
    })
}

} // verus!
