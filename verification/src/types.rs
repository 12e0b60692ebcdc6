//! The tagged union of the three possible child collections, so a single
//! polymorphic accessor can hand out heterogeneous children without
//! losing their level.

use vstd::prelude::*;

use crate::cmd_elements::CommandElements;
use crate::commands::Commands;
use crate::slices::Slices;

verus! {

/// Which level the children handed out by `get_children` belong to:
/// a file owns slices, a slice owns commands, a command owns elements.
#[derive(Debug, Clone)]
pub enum ChildrenArray {
    File(Vec<Slices>),
    Slice(Vec<Commands>),
    Commands(Vec<CommandElements>),
}

} // verus!
