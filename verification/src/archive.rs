//! The archive formats of Conda packages.
use vstd::prelude::*;

use crate::text::ends_with;

verus! {

/// Type of a Conda package archive.
#[derive(Debug, Clone, Copy, PartialEq, Eq, Structural)]
pub enum CondaArchiveType {
    /// A `.tar.bz2` archive.
    TarBz2,
    /// A `.conda` archive.
    Conda,
}

/// The archive type that a file name or path stands for: its ending decides.
pub open spec fn archive_of_path(path: Seq<char>) -> Option<CondaArchiveType> {
    if ".conda"@.is_suffix_of(path) {
        Some(CondaArchiveType::Conda)
    } else if ".tar.bz2"@.is_suffix_of(path) {
        Some(CondaArchiveType::TarBz2)
    } else {
        None
    }
}

impl CondaArchiveType {
    /// Determines the archive type from a path; `None` if the path ends like
    /// neither.
    pub fn try_from(path: &str) -> (res: Option<CondaArchiveType>)
        ensures
            res == archive_of_path(path@),
    {
        if ends_with(path, ".conda") {
            Some(CondaArchiveType::Conda)
        } else if ends_with(path, ".tar.bz2") {
            Some(CondaArchiveType::TarBz2)
        } else {
            None
        }
    }
}

} // verus!
