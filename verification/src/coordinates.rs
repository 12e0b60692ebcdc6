//! The result of a completed reverse lookup: up to three optional
//! indices naming the slice, command and element that contain an address.

use vstd::prelude::*;

verus! {

/// The (slice, command, element) index triple identifying a path from
/// the root. An index is `None` when the lookup stopped above that level.
#[derive(Debug, Clone, Copy, PartialEq, Eq)]
pub struct Coordinates {
    pub slice: Option<usize>,
    pub command: Option<usize>,
    pub element: Option<usize>,
}

impl Default for Coordinates {
    /// All three indices start unset.
    fn default() -> (r: Self)
        ensures
            r == (Coordinates { slice: None, command: None, element: None }),
    {
        Coordinates { slice: None, command: None, element: None }
    }
}

impl Coordinates {
    /// All three indices start unset.
    pub fn new() -> (r: Self)
        ensures
            r == (Coordinates { slice: None, command: None, element: None }),
    {
        Coordinates { slice: None, command: None, element: None }
    }

    /// Record the containing slice's index.
    pub fn set_slice(&mut self, a_slice: usize)
        ensures
            *final(self) == (Coordinates { slice: Some(a_slice), ..*old(self) }),
    {
        self.slice = Some(a_slice)
    }

    /// Record the containing command's index.
    pub fn set_command(&mut self, a_command: usize)
        ensures
            *final(self) == (Coordinates { command: Some(a_command), ..*old(self) }),
    {
        self.command = Some(a_command)
    }

    /// Record the containing element's index.
    pub fn set_element(&mut self, an_element: usize)
        ensures
            *final(self) == (Coordinates { element: Some(an_element), ..*old(self) }),
    {
        self.element = Some(an_element)
    }
}

} // verus!
