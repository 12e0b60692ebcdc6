//! The leaf level: a command element owns no children, so its lookup is
//! a plain containment test on its own absolute range.

use std::ops::Range;
use vstd::prelude::*;

use crate::coordinates::Coordinates;
use crate::disk_offsets::DiskOffsets;
use crate::disk_offsets::OffsetLayoutsError;
use crate::search::KeyedByStart;
use crate::search::Span;
use crate::types::ChildrenArray;

verus! {

/// A leaf node: the finest structural unit an address can resolve to.
#[derive(Debug)]
pub struct CommandElements {
    pub start_abs_address: u64,
    pub end_abs_address: u64,
    pub start_rel_address: u64,
    pub end_rel_address: u64,
    pub absolute_range: Range<u64>,
    pub relative_range: Range<u64>,
    pub my_ordinal: usize,
}

/// The addresses the parent's binary search reads from an element.
pub open spec fn elem_span(e: CommandElements) -> Span {
    Span {
        range_start: e.absolute_range.start,
        range_end: e.absolute_range.end,
        start_abs: e.start_abs_address,
        end_abs: e.end_abs_address,
    }
}

impl KeyedByStart for CommandElements {
    open spec fn start_key(&self) -> u64 {
        self.start_abs_address
    }
}

/// What `find_address` returns on a leaf: the element's own ordinal if
/// the address lies in its absolute range, otherwise an out-of-scope
/// failure carrying that range.
pub open spec fn elem_find(e: CommandElements, addr: u64) -> Result<
    Coordinates,
    OffsetLayoutsError,
> {
    if e.absolute_range.start <= addr && addr < e.absolute_range.end {
        Ok(Coordinates { slice: None, command: None, element: Some(e.my_ordinal) })
    } else {
        Err(OffsetLayoutsError::AddressOutsideCurrentScope(addr, e.absolute_range))
    }
}

impl CommandElements {
    /// An empty leaf: every address is zero and both ranges are empty.
    fn new() -> (r: Self)
        ensures
            r == CommandElements::empty_spec(),
    {
        CommandElements {
            start_abs_address: 0,
            end_abs_address: 0,
            start_rel_address: 0,
            end_rel_address: 0,
            absolute_range: Range { start: 0, end: 0 },
            relative_range: Range { start: 0, end: 0 },
            my_ordinal: 0,
        }
    }

    /// The value a fresh leaf holds.
    pub open spec fn empty_spec() -> CommandElements {
        CommandElements {
            start_abs_address: 0,
            end_abs_address: 0,
            start_rel_address: 0,
            end_rel_address: 0,
            absolute_range: Range { start: 0, end: 0 },
            relative_range: Range { start: 0, end: 0 },
            my_ordinal: 0,
        }
    }
}

impl Default for CommandElements {
    /// An empty leaf: every address is zero and both ranges are empty.
    fn default() -> (r: Self)
        ensures
            r == CommandElements::empty_spec(),
    {
        CommandElements::new()
    }
}

impl Clone for CommandElements {
    /// A clone is indistinguishable from the original.
    fn clone(&self) -> (r: Self)
        ensures
            r == *self,
    {
        CommandElements {
            start_abs_address: self.start_abs_address,
            end_abs_address: self.end_abs_address,
            start_rel_address: self.start_rel_address,
            end_rel_address: self.end_rel_address,
            absolute_range: Range { start: self.absolute_range.start, end: self.absolute_range.end },
            relative_range: Range { start: self.relative_range.start, end: self.relative_range.end },
            my_ordinal: self.my_ordinal,
        }
    }
}

impl DiskOffsets for CommandElements {
    fn set_start_abs_address(&mut self, start_abs: u64)
        ensures
            *final(self) == (CommandElements { start_abs_address: start_abs, ..*old(self) }),
    {
        self.start_abs_address = start_abs;
    }

    fn set_start_rel_address(&mut self, start_rel: u64)
        ensures
            *final(self) == (CommandElements { start_rel_address: start_rel, ..*old(self) }),
    {
        self.start_rel_address = start_rel;
    }

    fn set_end_abs_address(&mut self, end_abs: u64)
        ensures
            *final(self) == (CommandElements { end_abs_address: end_abs, ..*old(self) }),
    {
        self.end_abs_address = end_abs;
    }

    fn set_end_rel_address(&mut self, end_rel: u64)
        ensures
            *final(self) == (CommandElements { end_rel_address: end_rel, ..*old(self) }),
    {
        self.end_rel_address = end_rel;
    }

    fn set_absolute_range_explicit(&mut self, range: Range<u64>)
        ensures
            *final(self) == (CommandElements { absolute_range: range, ..*old(self) }),
    {
        self.absolute_range = range;
    }

    fn set_relative_range_explicit(&mut self, range: Range<u64>)
        ensures
            *final(self) == (CommandElements { relative_range: range, ..*old(self) }),
    {
        self.relative_range = range;
    }

    fn set_absolute_range_implicit(&mut self)
        ensures
            *final(self) == (CommandElements {
                absolute_range: Range {
                    start: old(self).start_abs_address,
                    end: old(self).end_abs_address,
                },
                ..*old(self)
            }),
    {
        self.absolute_range = Range { start: self.start_abs_address, end: self.end_abs_address };
    }

    fn set_relative_range_implicit(&mut self)
        ensures
            *final(self) == (CommandElements {
                relative_range: Range {
                    start: old(self).start_rel_address,
                    end: old(self).end_rel_address,
                },
                ..*old(self)
            }),
    {
        self.relative_range = Range { start: self.start_rel_address, end: self.end_rel_address };
    }

    fn set_ordinal(&mut self, ordinal: usize)
        ensures
            *final(self) == (CommandElements { my_ordinal: ordinal, ..*old(self) }),
    {
        self.my_ordinal = ordinal;
    }

    fn get_absolute_range(&self) -> (r: Range<u64>)
        ensures
            r == self.absolute_range,
    {
        Range { start: self.absolute_range.start, end: self.absolute_range.end }
    }

    fn get_relative_range(&self) -> (r: Range<u64>)
        ensures
            r == self.relative_range,
    {
        Range { start: self.relative_range.start, end: self.relative_range.end }
    }

    fn has_children(&self) -> (r: bool)
        ensures
            r == false,
    {
        false
    }

    fn get_children(&mut self) -> (r: Option<ChildrenArray>)
        ensures
            *final(self) == *old(self),
            r is None,
    {
        None
    }

    fn sort_children(&mut self)
        ensures
            *final(self) == *old(self),
    {
        // by definition, an element has no children.
    }

    fn get_max_abs_address(&self) -> (r: u64)
        ensures
            r == self.end_abs_address,
    {
        self.end_abs_address
    }

    fn get_min_abs_address(&self) -> (r: u64)
        ensures
            r == self.start_abs_address,
    {
        self.start_abs_address
    }

    fn find_address(&mut self, absolute_address: u64) -> (r: Result<
        Coordinates,
        OffsetLayoutsError,
    >)
        ensures
            *final(self) == *old(self),
            r == elem_find(*old(self), absolute_address),
    {
        let absolute_range = self.get_absolute_range();
        if absolute_range.start <= absolute_address && absolute_address < absolute_range.end {
            let mut retval = Coordinates::new();
            retval.set_element(self.my_ordinal);
            Ok(retval)
        } else {
            Err(OffsetLayoutsError::AddressOutsideCurrentScope(absolute_address, absolute_range))
        }
    }

    fn set_absolutes(&mut self, start_abs: u64, end_abs: u64)
        ensures
            *final(self) == (CommandElements {
                start_abs_address: start_abs,
                end_abs_address: end_abs,
                absolute_range: Range { start: start_abs, end: end_abs },
                ..*old(self)
            }),
    {
        self.set_start_abs_address(start_abs);
        self.set_end_abs_address(end_abs);
        self.set_absolute_range_implicit();
    }

    fn set_relatives(&mut self, start_rel: u64, end_rel: u64)
        ensures
            *final(self) == (CommandElements {
                start_rel_address: start_rel,
                end_rel_address: end_rel,
                relative_range: Range { start: start_rel, end: end_rel },
                ..*old(self)
            }),
    {
        self.set_start_rel_address(start_rel);
        self.set_end_rel_address(end_rel);
        self.set_relative_range_implicit();
    }

    fn populate_values(
        &mut self,
        start_abs: u64,
        end_abs: u64,
        start_rel: u64,
        end_rel: u64,
        ordinal: usize,
    )
        ensures
            *final(self) == (CommandElements {
                start_abs_address: start_abs,
                end_abs_address: end_abs,
                start_rel_address: start_rel,
                end_rel_address: end_rel,
                absolute_range: Range { start: start_abs, end: end_abs },
                relative_range: Range { start: start_rel, end: end_rel },
                my_ordinal: ordinal,
            }),
    {
        self.set_absolutes(start_abs, end_abs);
        self.set_relatives(start_rel, end_rel);
        self.set_ordinal(ordinal);
    }

    fn contains_absolute_address(&self, an_address: u64) -> (r: bool)
        ensures
            r == (self.absolute_range.start <= an_address && an_address
                < self.absolute_range.end),
    {
        let range = self.get_absolute_range();
        range.start <= an_address && an_address < range.end
    }
}

} // verus!
