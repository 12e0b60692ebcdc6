//! The shared capability every level of the hierarchy implements:
//! range and ordinal accessors, lazy sorting of children, and the
//! recursive reverse lookup. The error taxonomy of the lookup lives
//! here as well.
//!
//! The trait declares the operations; each level states its own precise
//! contract on its implementation, since what a lookup returns depends
//! on which coordinate that level records.

use std::ops::Range;
use vstd::prelude::*;

use crate::coordinates::Coordinates;
use crate::types::ChildrenArray;

verus! {

/// A failure surfaced by `find_address`. No recovery is attempted
/// internally: either a fully merged `Coordinates` is produced, or the
/// first inconsistency met during the walk is returned.
#[derive(Debug)]
pub enum OffsetLayoutsError {
    /// The queried address is not within this node's absolute range.
    AddressOutsideCurrentScope(u64, Range<u64>),
    /// The address falls in a gap between sibling ranges, or between a
    /// child's scalar bounds while outside its stored range: the tree is
    /// malformed.
    InconsistentStructure(u64, Range<u64>),
    /// The children returned from `get_children` did not match the
    /// variant this level expects. The verified lookup never produces
    /// it; the variant remains part of the capability's vocabulary.
    InconsistentSearch,
    /// The address is within the root's range but no registered slice
    /// covers it: a coverage gap, not a bounds error.
    NotFound(u64),
    /// A slice's lookup succeeded but reported no slice index.
    SliceIsBroken,
    /// A command's lookup failed or reported no command index.
    CommandIsBroken,
}

/// The capability contract shared by `File`, `Slices`, `Commands` and
/// `CommandElements`. Every method is specified on the implementing
/// level, where the node's fields and children are visible.
pub trait DiskOffsets: Sized {
    /// Set the start of the absolute byte range (scalar bound only).
    fn set_start_abs_address(&mut self, start_abs: u64);

    /// Set the start of the relative byte range (scalar bound only).
    fn set_start_rel_address(&mut self, start_rel: u64);

    /// Set the end of the absolute byte range (scalar bound only).
    fn set_end_abs_address(&mut self, end_abs: u64);

    /// Set the end of the relative byte range (scalar bound only).
    fn set_end_rel_address(&mut self, end_rel: u64);

    /// Overwrite the stored absolute range without touching the scalar bounds.
    fn set_absolute_range_explicit(&mut self, range: Range<u64>);

    /// Overwrite the stored relative range without touching the scalar bounds.
    fn set_relative_range_explicit(&mut self, range: Range<u64>);

    /// Recompute the stored absolute range from the scalar bounds.
    fn set_absolute_range_implicit(&mut self);

    /// Recompute the stored relative range from the scalar bounds.
    fn set_relative_range_implicit(&mut self);

    /// Set the node's intended position among its siblings.
    fn set_ordinal(&mut self, ordinal: usize);

    /// The stored absolute byte range.
    fn get_absolute_range(&self) -> Range<u64>;

    /// The stored relative byte range.
    fn get_relative_range(&self) -> Range<u64>;

    /// Whether the node owns at least one child.
    fn has_children(&self) -> bool;

    /// Sort the children ascending by absolute start, then hand out a
    /// copy wrapped in the variant matching this level; nothing when
    /// there are no children.
    fn get_children(&mut self) -> Option<ChildrenArray>;

    /// Sort the children in place, ascending by the start of their
    /// absolute range. A no-op for leaves.
    fn sort_children(&mut self);

    /// The scalar end bound of the absolute range.
    fn get_max_abs_address(&self) -> u64;

    /// The scalar start bound of the absolute range.
    fn get_min_abs_address(&self) -> u64;

    /// The reverse lookup: resolve an absolute address to the indices
    /// of the children containing it, or report how the walk failed.
    fn find_address(&mut self, absolute_address: u64) -> Result<Coordinates, OffsetLayoutsError>;

    /// Set both absolute scalar bounds and recompute the stored range.
    fn set_absolutes(&mut self, start_abs: u64, end_abs: u64);

    /// Set both relative scalar bounds and recompute the stored range.
    fn set_relatives(&mut self, start_rel: u64, end_rel: u64);

    /// Populate a freshly created node: both ranges and the ordinal.
    fn populate_values(
        &mut self,
        start_abs: u64,
        end_abs: u64,
        start_rel: u64,
        end_rel: u64,
        ordinal: usize,
    );

    /// Whether the address lies in the stored absolute range.
    fn contains_absolute_address(&self, an_address: u64) -> bool;
}

} // verus!
