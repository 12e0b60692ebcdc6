//! The slice level: a slice owns zero or more commands. Its lookup
//! records the slice's own ordinal, sorts the commands, binary-searches
//! them for the address, and merges the command and element indices a
//! hit reports; a command that reports no command index is broken.

use std::ops::Range;
use vstd::prelude::*;

use crate::commands::cmd_after_find;
use crate::commands::cmd_find;
use crate::commands::cmd_same_bounds;
use crate::commands::cmd_span;
use crate::commands::Commands;
use crate::coordinates::Coordinates;
use crate::disk_offsets::DiskOffsets;
use crate::disk_offsets::OffsetLayoutsError;
use crate::search::insert_by_start;
use crate::search::lemma_insert_by_start_split;
use crate::search::lemma_sort_by_start_len;
use crate::search::lemma_sort_by_start_sorted;
use crate::search::search_spans;
use crate::search::sort_by_start;
use crate::search::sorted_by_start;
use crate::search::KeyedByStart;
use crate::search::Probe;
use crate::search::Span;
use crate::types::ChildrenArray;

verus! {

/// A slice node, owning the commands parsed out of it.
#[derive(Debug)]
pub struct Slices {
    pub start_abs_address: u64,
    pub end_abs_address: u64,
    pub start_rel_address: u64,
    pub end_rel_address: u64,
    pub absolute_range: Range<u64>,
    pub relative_range: Range<u64>,
    pub my_ordinal: usize,
    pub commands: Vec<Commands>,
}

impl KeyedByStart for Slices {
    open spec fn start_key(&self) -> u64 {
        self.start_abs_address
    }
}

/// The addresses the parent's binary search reads from a slice.
pub open spec fn slice_span(s: Slices) -> Span {
    Span {
        range_start: s.absolute_range.start,
        range_end: s.absolute_range.end,
        start_abs: s.start_abs_address,
        end_abs: s.end_abs_address,
    }
}

/// The spans of a sequence of sibling commands.
pub open spec fn cmd_spans(s: Seq<Commands>) -> Seq<Span> {
    s.map_values(|c: Commands| cmd_span(c))
}

/// The value a fresh slice holds: every address is zero, both ranges
/// are empty, and no commands are attached.
pub open spec fn slice_is_empty(s: Slices) -> bool {
    s.start_abs_address == 0 && s.end_abs_address == 0 && s.start_rel_address == 0
        && s.end_rel_address == 0 && s.absolute_range == (Range::<u64> { start: 0, end: 0 })
        && s.relative_range == (Range::<u64> { start: 0, end: 0 }) && s.my_ordinal == 0
        && s.commands@ =~= Seq::<Commands>::empty()
}

/// Whether the address lies in the slice's stored absolute range.
pub open spec fn slice_in_range(s: Slices, addr: u64) -> bool {
    s.absolute_range.start <= addr && addr < s.absolute_range.end
}

/// What `find_address` returns on a slice: out of range fails at once;
/// otherwise the slice's own ordinal is recorded and, when commands
/// exist, they are sorted and binary-searched. A hit descends into the
/// command and merges the indices it reports; a command that fails or
/// reports no command index is broken; a gap between commands is an
/// inconsistency; an exhausted search keeps the coarse slice-only answer.
pub open spec fn slice_find(s: Slices, addr: u64) -> Result<Coordinates, OffsetLayoutsError> {
    if !slice_in_range(s, addr) {
        Err(OffsetLayoutsError::AddressOutsideCurrentScope(addr, s.absolute_range))
    } else {
        let base = Coordinates { slice: Some(s.my_ordinal), command: None, element: None };
        if s.commands@.len() == 0 {
            Ok(base)
        } else {
            let cs = sort_by_start(s.commands@);
            match search_spans(cmd_spans(cs), addr, 0, cs.len() - 1) {
                Probe::Found(i) => match cmd_find(cs[i], addr) {
                    Ok(sub) => if sub.command is Some {
                        Ok(
                            Coordinates {
                                slice: Some(s.my_ordinal),
                                command: sub.command,
                                element: sub.element,
                            },
                        )
                    } else {
                        Err(OffsetLayoutsError::CommandIsBroken)
                    },
                    Err(_) => Err(OffsetLayoutsError::CommandIsBroken),
                },
                Probe::Gap(k) => Err(
                    OffsetLayoutsError::InconsistentStructure(addr, cs[k].absolute_range),
                ),
                Probe::Missed => Ok(base),
            }
        }
    }
}

/// The slice's own attributes are untouched by a lookup.
pub open spec fn slice_same_bounds(pre: Slices, post: Slices) -> bool {
    post.start_abs_address == pre.start_abs_address && post.end_abs_address
        == pre.end_abs_address && post.start_rel_address == pre.start_rel_address
        && post.end_rel_address == pre.end_rel_address && post.absolute_range
        == pre.absolute_range && post.relative_range == pre.relative_range && post.my_ordinal
        == pre.my_ordinal
}

/// How a lookup leaves a slice behind: its attributes are unchanged, its
/// commands are sorted exactly when the lookup descended into them, and
/// the one command a hit descended into is left as its own lookup leaves
/// it.
pub open spec fn slice_after_find(pre: Slices, post: Slices, addr: u64) -> bool {
    slice_same_bounds(pre, post) && (if slice_in_range(pre, addr) && pre.commands@.len() > 0 {
        let cs = sort_by_start(pre.commands@);
        match search_spans(cmd_spans(cs), addr, 0, cs.len() - 1) {
            Probe::Found(i) => post.commands@.len() == cs.len() && (forall|j: int|
                0 <= j < cs.len() && j != i ==> post.commands@[j] == cs[j]) && cmd_after_find(
                cs[i],
                post.commands@[i],
                addr,
            ),
            _ => post.commands@ == cs,
        }
    } else {
        post.commands@ == pre.commands@
    })
}

/// Stable insertion of a command into a vector, scanning from the right.
fn place_command(v: &mut Vec<Commands>, x: Commands)
    ensures
        final(v)@ == insert_by_start(old(v)@, x),
{
    let ghost s = v@;
    proof {
        lemma_insert_by_start_split(s, x);
    }
    let mut j: usize = v.len();
    while j > 0 && v[j - 1].start_abs_address > x.start_abs_address
        invariant
            j <= v.len(),
            v@ == s,
            forall|k: int| j <= k < s.len() ==> #[trigger] s[k].start_key() > x.start_key(),
        decreases j,
    {
        j -= 1;
    }
    proof {
        let p = insert_pos_of(s, x, j as int);
    }
    v.insert(j, x);
    proof {
        assert(v@ =~= s.subrange(0, j as int) + seq![x] + s.subrange(j as int, s.len() as int));
    }
}

/// The scan's stopping point is exactly `insert_pos`.
proof fn insert_pos_of(s: Seq<Commands>, x: Commands, j: int) -> (p: int)
    requires
        0 <= j <= s.len(),
        forall|k: int| j <= k < s.len() ==> #[trigger] s[k].start_key() > x.start_key(),
        j > 0 ==> s[j - 1].start_key() <= x.start_key(),
    ensures
        p == j,
        p == crate::search::insert_pos(s, x),
        insert_by_start(s, x) == s.subrange(0, j) + seq![x] + s.subrange(j, s.len() as int),
{
    lemma_insert_by_start_split(s, x);
    let q = crate::search::insert_pos(s, x);
    if j < q {
        assert(s[q - 1].start_key() > x.start_key());
        assert(false);
    }
    if j > q {
        assert(s[j - 1].start_key() > x.start_key());
        assert(false);
    }
    j
}

impl Slices {
    /// An empty slice: every address is zero, both ranges are empty, and
    /// no commands are attached.
    fn new() -> (r: Self)
        ensures
            slice_is_empty(r),
    {
        Slices {
            start_abs_address: 0,
            end_abs_address: 0,
            start_rel_address: 0,
            end_rel_address: 0,
            absolute_range: Range { start: 0, end: 0 },
            relative_range: Range { start: 0, end: 0 },
            my_ordinal: 0,
            commands: Vec::new(),
        }
    }

    /// Attach a command at the end of the slice's children.
    pub fn add_command(&mut self, command: Commands)
        ensures
            slice_same_bounds(*old(self), *final(self)),
            final(self).commands@ == old(self).commands@.push(command),
    {
        self.commands.push(command);
    }
}

impl Default for Slices {
    /// An empty slice: every address is zero, both ranges are empty, and
    /// no commands are attached.
    fn default() -> (r: Self)
        ensures
            slice_is_empty(r),
    {
        Slices::new()
    }
}

impl Clone for Slices {
    /// A clone carries the same attributes and command-for-command the
    /// same command attributes and elements.
    fn clone(&self) -> (r: Self)
        ensures
            slice_same_bounds(*self, r),
            r.commands@.len() == self.commands@.len(),
            forall|i: int|
                0 <= i < self.commands@.len() ==> cmd_same_bounds(
                    self.commands@[i],
                    #[trigger] r.commands@[i],
                ) && r.commands@[i].elements@ == self.commands@[i].elements@,
    {
        let commands = self.commands.clone();
        Slices {
            start_abs_address: self.start_abs_address,
            end_abs_address: self.end_abs_address,
            start_rel_address: self.start_rel_address,
            end_rel_address: self.end_rel_address,
            absolute_range: Range { start: self.absolute_range.start, end: self.absolute_range.end },
            relative_range: Range { start: self.relative_range.start, end: self.relative_range.end },
            my_ordinal: self.my_ordinal,
            commands,
        }
    }
}

impl DiskOffsets for Slices {
    fn set_start_abs_address(&mut self, start_abs: u64)
        ensures
            *final(self) == (Slices { start_abs_address: start_abs, ..*old(self) }),
    {
        self.start_abs_address = start_abs;
    }

    fn set_start_rel_address(&mut self, start_rel: u64)
        ensures
            *final(self) == (Slices { start_rel_address: start_rel, ..*old(self) }),
    {
        self.start_rel_address = start_rel;
    }

    fn set_end_abs_address(&mut self, end_abs: u64)
        ensures
            *final(self) == (Slices { end_abs_address: end_abs, ..*old(self) }),
    {
        self.end_abs_address = end_abs;
    }

    fn set_end_rel_address(&mut self, end_rel: u64)
        ensures
            *final(self) == (Slices { end_rel_address: end_rel, ..*old(self) }),
    {
        self.end_rel_address = end_rel;
    }

    fn set_absolute_range_explicit(&mut self, range: Range<u64>)
        ensures
            *final(self) == (Slices { absolute_range: range, ..*old(self) }),
    {
        self.absolute_range = range;
    }

    fn set_relative_range_explicit(&mut self, range: Range<u64>)
        ensures
            *final(self) == (Slices { relative_range: range, ..*old(self) }),
    {
        self.relative_range = range;
    }

    fn set_absolute_range_implicit(&mut self)
        ensures
            *final(self) == (Slices {
                absolute_range: Range {
                    start: old(self).start_abs_address,
                    end: old(self).end_abs_address,
                },
                ..*old(self)
            }),
    {
        self.absolute_range = Range { start: self.start_abs_address, end: self.end_abs_address };
    }

    fn set_relative_range_implicit(&mut self)
        ensures
            *final(self) == (Slices {
                relative_range: Range {
                    start: old(self).start_rel_address,
                    end: old(self).end_rel_address,
                },
                ..*old(self)
            }),
    {
        self.relative_range = Range { start: self.start_rel_address, end: self.end_rel_address };
    }

    fn set_ordinal(&mut self, ordinal: usize)
        ensures
            *final(self) == (Slices { my_ordinal: ordinal, ..*old(self) }),
    {
        self.my_ordinal = ordinal;
    }

    fn get_absolute_range(&self) -> (r: Range<u64>)
        ensures
            r == self.absolute_range,
    {
        Range { start: self.absolute_range.start, end: self.absolute_range.end }
    }

    fn get_relative_range(&self) -> (r: Range<u64>)
        ensures
            r == self.relative_range,
    {
        Range { start: self.relative_range.start, end: self.relative_range.end }
    }

    fn has_children(&self) -> (r: bool)
        ensures
            r == (self.commands@.len() > 0),
    {
        self.commands.len() > 0
    }

    /// Hands out a copy of the sorted commands; the copy agrees with the
    /// slice's own children command-for-command.
    fn get_children(&mut self) -> (r: Option<ChildrenArray>)
        ensures
            slice_after_children(*old(self), *final(self)),
            old(self).commands@.len() > 0 ==> sorted_by_start(final(self).commands@),
            (match r {
                Option::Some(ca) => old(self).commands@.len() > 0 && (match ca {
                    ChildrenArray::Slice(v) => v@.len() == final(self).commands@.len()
                        && sorted_by_start(v@) && (forall|i: int|
                        0 <= i < v@.len() ==> cmd_same_bounds(
                            final(self).commands@[i],
                            #[trigger] v@[i],
                        ) && v@[i].elements@ == final(self).commands@[i].elements@),
                    _ => false,
                }),
                Option::None => old(self).commands@.len() == 0,
            }),
    {
        if self.has_children() {
            self.sort_children();
            let children = self.commands.clone();
            proof {
                assert forall|a: int, b: int|
                    0 <= a <= b < children@.len() implies #[trigger] children@[a].start_key()
                    <= #[trigger] children@[b].start_key() by {
                    assert(cmd_same_bounds(self.commands@[a], children@[a]));
                    assert(cmd_same_bounds(self.commands@[b], children@[b]));
                    assert(self.commands@[a].start_key() <= self.commands@[b].start_key());
                }
            }
            Some(ChildrenArray::Slice(children))
        } else {
            None
        }
    }

    fn sort_children(&mut self)
        ensures
            slice_same_bounds(*old(self), *final(self)),
            final(self).commands@ == sort_by_start(old(self).commands@),
            sorted_by_start(final(self).commands@),
    {
        let ghost orig = self.commands@;
        let n = self.commands.len();
        let mut sorted_vec: Vec<Commands> = Vec::new();
        let mut i: usize = 0;
        while i < n
            invariant
                i <= n,
                n == orig.len(),
                self.commands@ == orig.skip(i as int),
                slice_same_bounds(*old(self), *self),
                sorted_vec@ == sort_by_start(orig.take(i as int)),
            decreases n - i,
        {
            let x = self.commands.remove(0);
            proof {
                assert(orig.skip(i as int).remove(0) =~= orig.skip(i as int + 1));
                assert(x == orig[i as int]);
                assert(orig.take(i as int + 1).drop_last() =~= orig.take(i as int));
                assert(orig.take(i as int + 1).last() == orig[i as int]);
            }
            place_command(&mut sorted_vec, x);
            i += 1;
        }
        proof {
            assert(orig.take(n as int) =~= orig);
        }
        self.commands = sorted_vec;
        proof {
            lemma_sort_by_start_sorted(orig);
        }
    }

    fn get_max_abs_address(&self) -> (r: u64)
        ensures
            r == self.end_abs_address,
    {
        self.end_abs_address
    }

    fn get_min_abs_address(&self) -> (r: u64)
        ensures
            r == self.start_abs_address,
    {
        self.start_abs_address
    }

    fn find_address(&mut self, absolute_address: u64) -> (r: Result<
        Coordinates,
        OffsetLayoutsError,
    >)
        ensures
            r == slice_find(*old(self), absolute_address),
            slice_after_find(*old(self), *final(self), absolute_address),
    {
        let absolute_range = self.get_absolute_range();
        if !(absolute_range.start <= absolute_address && absolute_address < absolute_range.end) {
            return Err(
                OffsetLayoutsError::AddressOutsideCurrentScope(absolute_address, absolute_range),
            );
        }
        let mut retval = Coordinates::new();
        retval.set_slice(self.my_ordinal);
        if self.commands.len() == 0 {
            return Ok(retval);
        }
        self.sort_children();
        proof {
            lemma_sort_by_start_len(old(self).commands@);
        }
        let ghost cs = self.commands@;
        let ghost spans = cmd_spans(cs);
        let mut start: usize = 0;
        let mut end: usize = self.commands.len() - 1;
        while start <= end
            invariant
                self.commands@ == cs,
                cs == sort_by_start(old(self).commands@),
                slice_same_bounds(*old(self), *self),
                cs.len() == old(self).commands@.len(),
                cs.len() > 0,
                end < cs.len(),
                spans == cmd_spans(cs),
                slice_in_range(*old(self), absolute_address),
                retval == (Coordinates {
                    slice: Some(old(self).my_ordinal),
                    command: None,
                    element: None,
                }),
                search_spans(spans, absolute_address, start as int, end as int) == search_spans(
                    spans,
                    absolute_address,
                    0,
                    cs.len() - 1,
                ),
            decreases end + 1 - start,
        {
            let mid = start + (end - start) / 2;
            proof {
                assert(mid <= end);
                assert(mid as int == (start as int + end as int) / 2);
                assert(spans[mid as int] == cmd_span(cs[mid as int]));
            }
            let r_start = self.commands[mid].absolute_range.start;
            let r_end = self.commands[mid].absolute_range.end;
            if r_start <= absolute_address && absolute_address < r_end {
                let mut child = self.commands.remove(mid);
                let res = child.find_address(absolute_address);
                self.commands.insert(mid, child);
                proof {
                    assert(self.commands@ =~= cs.update(mid as int, child));
                    assert(search_spans(spans, absolute_address, start as int, end as int)
                        == Probe::Found(mid as int));
                }
                match res {
                    Ok(coords) => {
                        if let Some(c) = coords.command {
                            retval.set_command(c);
                        } else {
                            return Err(OffsetLayoutsError::CommandIsBroken);
                        }
                        if let Some(e) = coords.element {
                            retval.set_element(e);
                        }
                        return Ok(retval);
                    },
                    Err(_) => {
                        return Err(OffsetLayoutsError::CommandIsBroken);
                    },
                }
            } else {
                let min = self.commands[mid].start_abs_address;
                let max = self.commands[mid].end_abs_address;
                if absolute_address < min {
                    if mid == 0 {
                        proof {
                            assert(search_spans(spans, absolute_address, start as int, end as int)
                                == Probe::Missed);
                        }
                        return Ok(retval);
                    }
                    end = mid - 1;
                } else if absolute_address >= max {
                    if mid < self.commands.len() - 1 {
                        let next_min = self.commands[mid + 1].start_abs_address;
                        if absolute_address < next_min {
                            proof {
                                assert(search_spans(
                                    spans,
                                    absolute_address,
                                    start as int,
                                    end as int,
                                ) == Probe::Gap(mid as int));
                            }
                            return Err(
                                OffsetLayoutsError::InconsistentStructure(
                                    absolute_address,
                                    Range { start: r_start, end: r_end },
                                ),
                            );
                        }
                    }
                    start = mid + 1;
                } else {
                    proof {
                        assert(search_spans(spans, absolute_address, start as int, end as int)
                            == Probe::Gap(mid as int));
                    }
                    return Err(
                        OffsetLayoutsError::InconsistentStructure(
                            absolute_address,
                            Range { start: r_start, end: r_end },
                        ),
                    );
                }
            }
        }
        proof {
            assert(search_spans(spans, absolute_address, start as int, end as int)
                == Probe::Missed);
        }
        Ok(retval)
    }

    fn set_absolutes(&mut self, start_abs: u64, end_abs: u64)
        ensures
            *final(self) == (Slices {
                start_abs_address: start_abs,
                end_abs_address: end_abs,
                absolute_range: Range { start: start_abs, end: end_abs },
                ..*old(self)
            }),
    {
        self.set_start_abs_address(start_abs);
        self.set_end_abs_address(end_abs);
        self.set_absolute_range_implicit();
    }

    fn set_relatives(&mut self, start_rel: u64, end_rel: u64)
        ensures
            *final(self) == (Slices {
                start_rel_address: start_rel,
                end_rel_address: end_rel,
                relative_range: Range { start: start_rel, end: end_rel },
                ..*old(self)
            }),
    {
        self.set_start_rel_address(start_rel);
        self.set_end_rel_address(end_rel);
        self.set_relative_range_implicit();
    }

    fn populate_values(
        &mut self,
        start_abs: u64,
        end_abs: u64,
        start_rel: u64,
        end_rel: u64,
        ordinal: usize,
    )
        ensures
            *final(self) == (Slices {
                start_abs_address: start_abs,
                end_abs_address: end_abs,
                start_rel_address: start_rel,
                end_rel_address: end_rel,
                absolute_range: Range { start: start_abs, end: end_abs },
                relative_range: Range { start: start_rel, end: end_rel },
                my_ordinal: ordinal,
                ..*old(self)
            }),
    {
        self.set_absolutes(start_abs, end_abs);
        self.set_relatives(start_rel, end_rel);
        self.set_ordinal(ordinal);
    }

    fn contains_absolute_address(&self, an_address: u64) -> (r: bool)
        ensures
            r == slice_in_range(*self, an_address),
    {
        let range = self.get_absolute_range();
        range.start <= an_address && an_address < range.end
    }
}

/// How `get_children` leaves a slice behind: attributes unchanged, and
/// commands sorted exactly when there are any.
pub open spec fn slice_after_children(pre: Slices, post: Slices) -> bool {
    slice_same_bounds(pre, post) && post.commands@ == (if pre.commands@.len() > 0 {
        sort_by_start(pre.commands@)
    } else {
        pre.commands@
    })
}

} // verus!
