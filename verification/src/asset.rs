//! Access to a fixed table of embedded assets.

use vstd::prelude::*;

use crate::file::EmbeddedFile;

verus! {

/// Types that provide access to an immutable table of embedded static
/// assets. The table itself is supplied by a collaborator — a directory
/// walk at startup, say — and is only ever read through this trait;
/// nothing here is proved of an implementation, since the records are
/// whatever the collaborator put in.
pub trait Asset {
    /// The number of embedded files, as an abstract value. Left
    /// unspecified unless an implementation chooses to pin it.
    open spec fn spec_len() -> nat {
        vstd::pervasive::arbitrary()
    }

    /// Get an embedded file by path.
    ///
    /// **Note**: The path should be relative to the embedded directory,
    /// without a leading slash.
    fn get(path: &str) -> Option<EmbeddedFile>;

    /// The relative paths of all embedded files.
    fn iter() -> Vec<String>;

    /// Return the number of embedded files.
    fn len() -> (n: usize)
        ensures
            n == Self::spec_len(),
    ;

    /// Check if the asset collection is empty.
    fn is_empty() -> (r: bool)
        ensures
            r == (Self::spec_len() == 0),
    {
        Self::len() == 0
    }
}

} // verus!
