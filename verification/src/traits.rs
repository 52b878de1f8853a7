//! The capability traits of the synchronous access layer: what any
//! environment — real or virtual — exposes about files and directory
//! entries.

use vstd::prelude::*;

use crate::error::IoError;

verus! {

/// What a caller may learn about a file or directory without opening it.
pub trait Metadata {
    /// The entity's length in bytes.
    fn len(&self) -> u64;

    /// True exactly when the entity is a directory.
    fn is_dir(&self) -> bool;
}

/// One entry of a directory listing.
pub trait DirEntry {
    /// The description type the listing yields.
    type Metadata: Metadata;

    /// The full path of the listed entity.
    fn path(&self) -> String;

    /// The description of the listed entity.
    fn metadata(&self) -> Result<Self::Metadata, IoError>;

    /// The path's last component.
    fn file_name(&self) -> String;
}

} // verus!
