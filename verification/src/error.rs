use vstd::prelude::*;

verus! {

/// The error taxonomy of the page-blob contract.
///
/// `ContainerNotFound` is raised when an operation that needs an existing
/// container finds none; container existence is always checked before blob
/// existence, so `BlobNotFound` implies that the container was found.
/// `CapacityExceeded` is raised locally by the plain write path when a write
/// would run past the end of the blob; it carries the page count the write
/// needs and the page count the blob has. `InvalidArgument` is raised for
/// malformed inputs such as a zero resize ratio. `BackendError` stands for
/// any error the storage backend itself reports.
#[derive(Clone, Copy, Debug, PartialEq, Eq, Structural)]
pub enum PageBlobError {
    ContainerNotFound,
    BlobNotFound,
    CapacityExceeded { required: usize, available: usize },
    InvalidArgument,
    BackendError,
}

} // verus!
