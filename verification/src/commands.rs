//! The command level: a command owns zero or more elements. Its lookup
//! records the command's own ordinal, sorts the elements, binary-searches
//! them for the address, and merges the element index a hit reports.

use std::ops::Range;
use vstd::prelude::*;

use crate::cmd_elements::elem_find;
use crate::cmd_elements::elem_span;
use crate::cmd_elements::CommandElements;
use crate::coordinates::Coordinates;
use crate::disk_offsets::DiskOffsets;
use crate::disk_offsets::OffsetLayoutsError;
use crate::search::insert_by_start;
use crate::search::lemma_insert_by_start_split;
use crate::search::lemma_sort_by_start_len;
use crate::search::lemma_sort_by_start_sorted;
use crate::search::search_spans;
use crate::search::sort_by_start;
use crate::search::sorted_by_start;
use crate::search::KeyedByStart;
use crate::search::Probe;
use crate::search::Span;
use crate::types::ChildrenArray;

verus! {

/// A command node, owning the leaf elements parsed out of it.
#[derive(Debug)]
pub struct Commands {
    pub start_abs_address: u64,
    pub end_abs_address: u64,
    pub start_rel_address: u64,
    pub end_rel_address: u64,
    pub absolute_range: Range<u64>,
    pub relative_range: Range<u64>,
    pub my_ordinal: usize,
    pub elements: Vec<CommandElements>,
}

impl KeyedByStart for Commands {
    open spec fn start_key(&self) -> u64 {
        self.start_abs_address
    }
}

/// The addresses the parent's binary search reads from a command.
pub open spec fn cmd_span(c: Commands) -> Span {
    Span {
        range_start: c.absolute_range.start,
        range_end: c.absolute_range.end,
        start_abs: c.start_abs_address,
        end_abs: c.end_abs_address,
    }
}

/// The spans of a sequence of sibling elements.
pub open spec fn elem_spans(s: Seq<CommandElements>) -> Seq<Span> {
    s.map_values(|e: CommandElements| elem_span(e))
}

/// The value a fresh command holds: every address is zero, both ranges
/// are empty, and no elements are attached.
pub open spec fn cmd_is_empty(c: Commands) -> bool {
    c.start_abs_address == 0 && c.end_abs_address == 0 && c.start_rel_address == 0
        && c.end_rel_address == 0 && c.absolute_range == (Range::<u64> { start: 0, end: 0 })
        && c.relative_range == (Range::<u64> { start: 0, end: 0 }) && c.my_ordinal == 0
        && c.elements@ =~= Seq::<CommandElements>::empty()
}

/// Whether the address lies in the command's stored absolute range.
pub open spec fn cmd_in_range(c: Commands, addr: u64) -> bool {
    c.absolute_range.start <= addr && addr < c.absolute_range.end
}

/// What `find_address` returns on a command: out of range fails at once;
/// otherwise the command's own ordinal is recorded and, when elements
/// exist, they are sorted and binary-searched. A hit merges the element
/// index the leaf reports; a gap between elements is an inconsistency;
/// an exhausted search keeps the coarse command-only answer.
pub open spec fn cmd_find(c: Commands, addr: u64) -> Result<Coordinates, OffsetLayoutsError> {
    if !cmd_in_range(c, addr) {
        Err(OffsetLayoutsError::AddressOutsideCurrentScope(addr, c.absolute_range))
    } else {
        let base = Coordinates { slice: None, command: Some(c.my_ordinal), element: None };
        if c.elements@.len() == 0 {
            Ok(base)
        } else {
            let es = sort_by_start(c.elements@);
            match search_spans(elem_spans(es), addr, 0, es.len() - 1) {
                Probe::Found(i) => match elem_find(es[i], addr) {
                    Ok(sub) => Ok(
                        Coordinates {
                            slice: None,
                            command: Some(c.my_ordinal),
                            element: sub.element,
                        },
                    ),
                    Err(_) => Err(OffsetLayoutsError::CommandIsBroken),
                },
                Probe::Gap(k) => Err(
                    OffsetLayoutsError::InconsistentStructure(addr, es[k].absolute_range),
                ),
                Probe::Missed => Ok(base),
            }
        }
    }
}

/// The command's own attributes are untouched by a lookup.
pub open spec fn cmd_same_bounds(pre: Commands, post: Commands) -> bool {
    post.start_abs_address == pre.start_abs_address && post.end_abs_address
        == pre.end_abs_address && post.start_rel_address == pre.start_rel_address
        && post.end_rel_address == pre.end_rel_address && post.absolute_range
        == pre.absolute_range && post.relative_range == pre.relative_range && post.my_ordinal
        == pre.my_ordinal
}

/// How a lookup leaves a command behind: its attributes are unchanged,
/// and its elements are sorted exactly when the lookup descended into
/// them (the address was in range and elements exist).
pub open spec fn cmd_after_find(pre: Commands, post: Commands, addr: u64) -> bool {
    cmd_same_bounds(pre, post) && post.elements@ == (if cmd_in_range(pre, addr)
        && pre.elements@.len() > 0 {
        sort_by_start(pre.elements@)
    } else {
        pre.elements@
    })
}

/// Stable insertion of an element into a vector, scanning from the right.
fn place_element(v: &mut Vec<CommandElements>, x: CommandElements)
    ensures
        final(v)@ == insert_by_start(old(v)@, x),
{
    let ghost s = v@;
    proof {
        lemma_insert_by_start_split(s, x);
    }
    let mut j: usize = v.len();
    while j > 0 && v[j - 1].start_abs_address > x.start_abs_address
        invariant
            j <= v.len(),
            v@ == s,
            forall|k: int| j <= k < s.len() ==> #[trigger] s[k].start_key() > x.start_key(),
        decreases j,
    {
        j -= 1;
    }
    proof {
        let p = insert_pos_of(s, x, j as int);
    }
    v.insert(j, x);
    proof {
        assert(v@ =~= s.subrange(0, j as int) + seq![x] + s.subrange(j as int, s.len() as int));
    }
}

/// The scan's stopping point is exactly `insert_pos`.
proof fn insert_pos_of(s: Seq<CommandElements>, x: CommandElements, j: int) -> (p: int)
    requires
        0 <= j <= s.len(),
        forall|k: int| j <= k < s.len() ==> #[trigger] s[k].start_key() > x.start_key(),
        j > 0 ==> s[j - 1].start_key() <= x.start_key(),
    ensures
        p == j,
        p == crate::search::insert_pos(s, x),
        insert_by_start(s, x) == s.subrange(0, j) + seq![x] + s.subrange(j, s.len() as int),
{
    lemma_insert_by_start_split(s, x);
    let q = crate::search::insert_pos(s, x);
    if j < q {
        assert(s[q - 1].start_key() > x.start_key());
        assert(false);
    }
    if j > q {
        assert(s[j - 1].start_key() > x.start_key());
        assert(false);
    }
    j
}

impl Commands {
    /// An empty command: every address is zero, both ranges are empty,
    /// and no elements are attached.
    fn new() -> (r: Self)
        ensures
            cmd_is_empty(r),
    {
        Commands {
            start_abs_address: 0,
            end_abs_address: 0,
            start_rel_address: 0,
            end_rel_address: 0,
            absolute_range: Range { start: 0, end: 0 },
            relative_range: Range { start: 0, end: 0 },
            my_ordinal: 0,
            elements: Vec::new(),
        }
    }

    /// Attach an element at the end of the command's children.
    pub fn add_element(&mut self, element: CommandElements)
        ensures
            cmd_same_bounds(*old(self), *final(self)),
            final(self).elements@ == old(self).elements@.push(element),
    {
        self.elements.push(element);
    }
}

impl Default for Commands {
    /// An empty command: every address is zero, both ranges are empty,
    /// and no elements are attached.
    fn default() -> (r: Self)
        ensures
            cmd_is_empty(r),
    {
        Commands::new()
    }
}

impl Clone for Commands {
    /// A clone carries the same attributes and the same elements.
    fn clone(&self) -> (r: Self)
        ensures
            cmd_same_bounds(*self, r),
            r.elements@ == self.elements@,
    {
        let elements = self.elements.clone();
        proof {
            assert(elements@ =~= self.elements@);
        }
        Commands {
            start_abs_address: self.start_abs_address,
            end_abs_address: self.end_abs_address,
            start_rel_address: self.start_rel_address,
            end_rel_address: self.end_rel_address,
            absolute_range: Range { start: self.absolute_range.start, end: self.absolute_range.end },
            relative_range: Range { start: self.relative_range.start, end: self.relative_range.end },
            my_ordinal: self.my_ordinal,
            elements,
        }
    }
}

impl DiskOffsets for Commands {
    fn set_start_abs_address(&mut self, start_abs: u64)
        ensures
            *final(self) == (Commands { start_abs_address: start_abs, ..*old(self) }),
    {
        self.start_abs_address = start_abs;
    }

    fn set_start_rel_address(&mut self, start_rel: u64)
        ensures
            *final(self) == (Commands { start_rel_address: start_rel, ..*old(self) }),
    {
        self.start_rel_address = start_rel;
    }

    fn set_end_abs_address(&mut self, end_abs: u64)
        ensures
            *final(self) == (Commands { end_abs_address: end_abs, ..*old(self) }),
    {
        self.end_abs_address = end_abs;
    }

    fn set_end_rel_address(&mut self, end_rel: u64)
        ensures
            *final(self) == (Commands { end_rel_address: end_rel, ..*old(self) }),
    {
        self.end_rel_address = end_rel;
    }

    fn set_absolute_range_explicit(&mut self, range: Range<u64>)
        ensures
            *final(self) == (Commands { absolute_range: range, ..*old(self) }),
    {
        self.absolute_range = range;
    }

    fn set_relative_range_explicit(&mut self, range: Range<u64>)
        ensures
            *final(self) == (Commands { relative_range: range, ..*old(self) }),
    {
        self.relative_range = range;
    }

    fn set_absolute_range_implicit(&mut self)
        ensures
            *final(self) == (Commands {
                absolute_range: Range {
                    start: old(self).start_abs_address,
                    end: old(self).end_abs_address,
                },
                ..*old(self)
            }),
    {
        self.absolute_range = Range { start: self.start_abs_address, end: self.end_abs_address };
    }

    fn set_relative_range_implicit(&mut self)
        ensures
            *final(self) == (Commands {
                relative_range: Range {
                    start: old(self).start_rel_address,
                    end: old(self).end_rel_address,
                },
                ..*old(self)
            }),
    {
        self.relative_range = Range { start: self.start_rel_address, end: self.end_rel_address };
    }

    fn set_ordinal(&mut self, ordinal: usize)
        ensures
            *final(self) == (Commands { my_ordinal: ordinal, ..*old(self) }),
    {
        self.my_ordinal = ordinal;
    }

    fn get_absolute_range(&self) -> (r: Range<u64>)
        ensures
            r == self.absolute_range,
    {
        Range { start: self.absolute_range.start, end: self.absolute_range.end }
    }

    fn get_relative_range(&self) -> (r: Range<u64>)
        ensures
            r == self.relative_range,
    {
        Range { start: self.relative_range.start, end: self.relative_range.end }
    }

    fn has_children(&self) -> (r: bool)
        ensures
            r == (self.elements@.len() > 0),
    {
        self.elements.len() > 0
    }

    /// Sorts the elements, then hands out a copy holding exactly them.
    fn get_children(&mut self) -> (r: Option<ChildrenArray>)
        ensures
            cmd_after_children(*old(self), *final(self)),
            old(self).elements@.len() > 0 ==> sorted_by_start(final(self).elements@),
            (match r {
                Option::Some(ca) => old(self).elements@.len() > 0 && (match ca {
                    ChildrenArray::Commands(v) => v@ == final(self).elements@ && sorted_by_start(
                        v@,
                    ),
                    _ => false,
                }),
                Option::None => old(self).elements@.len() == 0,
            }),
    {
        if self.has_children() {
            self.sort_children();
            let children = self.elements.clone();
            proof {
                assert(children@ =~= self.elements@);
            }
            Some(ChildrenArray::Commands(children))
        } else {
            None
        }
    }

    fn sort_children(&mut self)
        ensures
            cmd_same_bounds(*old(self), *final(self)),
            final(self).elements@ == sort_by_start(old(self).elements@),
            sorted_by_start(final(self).elements@),
    {
        let ghost orig = self.elements@;
        let n = self.elements.len();
        let mut sorted_vec: Vec<CommandElements> = Vec::new();
        let mut i: usize = 0;
        while i < n
            invariant
                i <= n,
                n == orig.len(),
                self.elements@ == orig.skip(i as int),
                cmd_same_bounds(*old(self), *self),
                sorted_vec@ == sort_by_start(orig.take(i as int)),
            decreases n - i,
        {
            let x = self.elements.remove(0);
            proof {
                assert(orig.skip(i as int).remove(0) =~= orig.skip(i as int + 1));
                assert(x == orig[i as int]);
                assert(orig.take(i as int + 1).drop_last() =~= orig.take(i as int));
                assert(orig.take(i as int + 1).last() == orig[i as int]);
            }
            place_element(&mut sorted_vec, x);
            i += 1;
        }
        proof {
            assert(orig.take(n as int) =~= orig);
        }
        self.elements = sorted_vec;
        proof {
            lemma_sort_by_start_sorted(orig);
        }
    }

    fn get_max_abs_address(&self) -> (r: u64)
        ensures
            r == self.end_abs_address,
    {
        self.end_abs_address
    }

    fn get_min_abs_address(&self) -> (r: u64)
        ensures
            r == self.start_abs_address,
    {
        self.start_abs_address
    }

    fn find_address(&mut self, absolute_address: u64) -> (r: Result<
        Coordinates,
        OffsetLayoutsError,
    >)
        ensures
            r == cmd_find(*old(self), absolute_address),
            cmd_after_find(*old(self), *final(self), absolute_address),
    {
        let absolute_range = self.get_absolute_range();
        if !(absolute_range.start <= absolute_address && absolute_address < absolute_range.end) {
            return Err(
                OffsetLayoutsError::AddressOutsideCurrentScope(absolute_address, absolute_range),
            );
        }
        let mut retval = Coordinates::new();
        retval.set_command(self.my_ordinal);
        if self.elements.len() == 0 {
            return Ok(retval);
        }
        self.sort_children();
        proof {
            lemma_sort_by_start_len(old(self).elements@);
        }
        let ghost es = self.elements@;
        let ghost spans = elem_spans(es);
        let mut start: usize = 0;
        let mut end: usize = self.elements.len() - 1;
        while start <= end
            invariant
                self.elements@ == es,
                es == sort_by_start(old(self).elements@),
                cmd_same_bounds(*old(self), *self),
                es.len() == old(self).elements@.len(),
                es.len() > 0,
                end < es.len(),
                spans == elem_spans(es),
                cmd_in_range(*old(self), absolute_address),
                retval == (Coordinates {
                    slice: None,
                    command: Some(old(self).my_ordinal),
                    element: None,
                }),
                search_spans(spans, absolute_address, start as int, end as int) == search_spans(
                    spans,
                    absolute_address,
                    0,
                    es.len() - 1,
                ),
            decreases end + 1 - start,
        {
            let mid = start + (end - start) / 2;
            proof {
                assert(mid <= end);
                assert(mid as int == (start as int + end as int) / 2);
                assert(spans[mid as int] == elem_span(es[mid as int]));
            }
            let r_start = self.elements[mid].absolute_range.start;
            let r_end = self.elements[mid].absolute_range.end;
            if r_start <= absolute_address && absolute_address < r_end {
                let mut child = self.elements.remove(mid);
                let res = child.find_address(absolute_address);
                self.elements.insert(mid, child);
                proof {
                    assert(self.elements@ =~= es);
                    assert(search_spans(spans, absolute_address, start as int, end as int)
                        == Probe::Found(mid as int));
                }
                match res {
                    Ok(coords) => {
                        if let Some(e) = coords.element {
                            retval.set_element(e);
                        }
                        return Ok(retval);
                    },
                    Err(_) => {
                        return Err(OffsetLayoutsError::CommandIsBroken);
                    },
                }
            } else {
                let min = self.elements[mid].start_abs_address;
                let max = self.elements[mid].end_abs_address;
                if absolute_address < min {
                    if mid == 0 {
                        proof {
                            assert(search_spans(spans, absolute_address, start as int, end as int)
                                == Probe::Missed);
                        }
                        return Ok(retval);
                    }
                    end = mid - 1;
                } else if absolute_address >= max {
                    if mid < self.elements.len() - 1 {
                        let next_min = self.elements[mid + 1].start_abs_address;
                        if absolute_address < next_min {
                            proof {
                                assert(search_spans(
                                    spans,
                                    absolute_address,
                                    start as int,
                                    end as int,
                                ) == Probe::Gap(mid as int));
                            }
                            return Err(
                                OffsetLayoutsError::InconsistentStructure(
                                    absolute_address,
                                    Range { start: r_start, end: r_end },
                                ),
                            );
                        }
                    }
                    start = mid + 1;
                } else {
                    proof {
                        assert(search_spans(spans, absolute_address, start as int, end as int)
                            == Probe::Gap(mid as int));
                    }
                    return Err(
                        OffsetLayoutsError::InconsistentStructure(
                            absolute_address,
                            Range { start: r_start, end: r_end },
                        ),
                    );
                }
            }
        }
        proof {
            assert(search_spans(spans, absolute_address, start as int, end as int)
                == Probe::Missed);
        }
        Ok(retval)
    }

    fn set_absolutes(&mut self, start_abs: u64, end_abs: u64)
        ensures
            *final(self) == (Commands {
                start_abs_address: start_abs,
                end_abs_address: end_abs,
                absolute_range: Range { start: start_abs, end: end_abs },
                ..*old(self)
            }),
    {
        self.set_start_abs_address(start_abs);
        self.set_end_abs_address(end_abs);
        self.set_absolute_range_implicit();
    }

    fn set_relatives(&mut self, start_rel: u64, end_rel: u64)
        ensures
            *final(self) == (Commands {
                start_rel_address: start_rel,
                end_rel_address: end_rel,
                relative_range: Range { start: start_rel, end: end_rel },
                ..*old(self)
            }),
    {
        self.set_start_rel_address(start_rel);
        self.set_end_rel_address(end_rel);
        self.set_relative_range_implicit();
    }

    fn populate_values(
        &mut self,
        start_abs: u64,
        end_abs: u64,
        start_rel: u64,
        end_rel: u64,
        ordinal: usize,
    )
        ensures
            *final(self) == (Commands {
                start_abs_address: start_abs,
                end_abs_address: end_abs,
                start_rel_address: start_rel,
                end_rel_address: end_rel,
                absolute_range: Range { start: start_abs, end: end_abs },
                relative_range: Range { start: start_rel, end: end_rel },
                my_ordinal: ordinal,
                ..*old(self)
            }),
    {
        self.set_absolutes(start_abs, end_abs);
        self.set_relatives(start_rel, end_rel);
        self.set_ordinal(ordinal);
    }

    fn contains_absolute_address(&self, an_address: u64) -> (r: bool)
        ensures
            r == cmd_in_range(*self, an_address),
    {
        let range = self.get_absolute_range();
        range.start <= an_address && an_address < range.end
    }
}

/// How `get_children` leaves a command behind: attributes unchanged, and
/// elements sorted exactly when there are any.
pub open spec fn cmd_after_children(pre: Commands, post: Commands) -> bool {
    cmd_same_bounds(pre, post) && post.elements@ == (if pre.elements@.len() > 0 {
        sort_by_start(pre.elements@)
    } else {
        pre.elements@
    })
}

} // verus!
