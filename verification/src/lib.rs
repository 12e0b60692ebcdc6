//! A hierarchical index over binary-file structures that supports both
//! direct navigation (file -> slice -> command -> element) and reverse
//! lookup: given a raw byte offset, find the structural element that
//! contains it, together with the full path of indices leading there.
//!
//! The hierarchy has four fixed levels: a root [`File`] containing
//! [`Slices`], containing [`Commands`], containing [`CommandElements`]
//! (the leaves). Every level implements the [`DiskOffsets`] capability:
//! range and ordinal accessors, lazy sorting of children, and the
//! recursive binary-search lookup `find_address`.

pub mod cmd_elements;
pub mod commands;
pub mod coordinates;
pub mod disk_offsets;
pub mod file;
pub mod laws;
pub mod search;
pub mod slices;
pub mod types;

pub use cmd_elements::CommandElements;
pub use commands::Commands;
pub use coordinates::Coordinates;
pub use disk_offsets::DiskOffsets;
pub use disk_offsets::OffsetLayoutsError;
pub use file::File;
pub use slices::Slices;
pub use types::ChildrenArray;
