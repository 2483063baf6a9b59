use vstd::prelude::*;

verus! {

/// Why an extraction was abandoned.
#[derive(Clone, Copy, Debug, PartialEq, Eq, Structural)]
pub enum Error {
    /// The file name carries neither of the two known extensions.
    InvalidFile,
    /// The archive could not be opened, or an entry that is needed is missing
    /// or cannot be read.
    ContainerError,
    /// The manifest is not a well-formed document, or lacks a required key.
    ManifestDecodeError,
    /// The archive holds a resource table that cannot be decoded.
    ResourceTableDecodeError,
}

pub type ExtResult<T> = Result<T, Error>;

} // verus!
