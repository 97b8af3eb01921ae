use vstd::prelude::*;

use crate::error::PageBlobError;
use crate::sdk::BLOB_PAGE_SIZE;

verus! {

/// A sequence of `n` zero bytes: the content of freshly allocated pages.
pub open spec fn zero_bytes(n: nat) -> Seq<u8> {
    Seq::new(n, |i: int| 0u8)
}

/// `bytes` with the range starting at `pos` overwritten by `payload`;
/// bytes outside that range keep their old value. The length never changes.
pub open spec fn write_bytes(bytes: Seq<u8>, pos: int, payload: Seq<u8>) -> Seq<u8> {
    Seq::new(
        bytes.len(),
        |i: int|
            if pos <= i < pos + payload.len() {
                payload[i - pos]
            } else {
                bytes[i]
            },
    )
}

/// `bytes` brought to exactly `new_len` bytes: shrinking truncates from the
/// tail, growing appends zero bytes.
pub open spec fn resize_bytes(bytes: Seq<u8>, new_len: nat) -> Seq<u8> {
    if new_len <= bytes.len() {
        bytes.subrange(0, new_len as int)
    } else {
        bytes + zero_bytes((new_len - bytes.len()) as nat)
    }
}

/// Backend-reported metadata of a blob: its size in bytes.
#[derive(Clone, Copy, Debug, PartialEq, Eq, Structural)]
pub struct BlobProperties {
    pub blob_size: usize,
}

/// The page-blob contract: the operation set every concrete blob
/// implementation exposes. Container existence is always checked before blob
/// existence, so `ContainerNotFound` takes precedence over `BlobNotFound`.
/// Any operation that talks to a fallible backend may also fail with
/// `BackendError`; an implementation that never does (such as the in-memory
/// mock) strengthens these contracts with unconditional success.
pub trait MyPageBlob: Sized {
    /// Well-formedness of the handle's abstract state.
    spec fn wf(&self) -> bool;

    /// Whether the container currently exists.
    spec fn container_exists(&self) -> bool;

    /// Whether the blob currently exists.
    spec fn blob_exists(&self) -> bool;

    /// The blob's current content.
    spec fn blob_bytes(&self) -> Seq<u8>;

    fn get_container_name(&self) -> &str;

    fn get_blob_name(&self) -> &str;

    /// The backend-reported blob metadata.
    fn get_blob_properties(&self) -> (r: Result<BlobProperties, PageBlobError>)
        requires
            self.wf(),
        ensures
            !self.container_exists() ==> r == Err::<BlobProperties, PageBlobError>(
                PageBlobError::ContainerNotFound,
            ),
            self.container_exists() && !self.blob_exists() ==> r == Err::<
                BlobProperties,
                PageBlobError,
            >(PageBlobError::BlobNotFound),
            self.container_exists() && self.blob_exists() ==> r matches Ok(p) && p.blob_size
                == self.blob_bytes().len() || r == Err::<BlobProperties, PageBlobError>(
                PageBlobError::BackendError,
            ),
            r matches Ok(p) ==> self.blob_exists() && p.blob_size == self.blob_bytes().len(),
    ;

    /// Creates the blob with exactly `pages_amount` zero pages, overwriting
    /// any blob that already exists under this name.
    fn create(&mut self, pages_amount: usize) -> (r: Result<(), PageBlobError>)
        requires
            old(self).wf(),
            pages_amount * BLOB_PAGE_SIZE <= usize::MAX,
        ensures
            final(self).wf(),
            final(self).container_exists() == old(self).container_exists(),
            !old(self).container_exists() ==> r == Err::<(), PageBlobError>(
                PageBlobError::ContainerNotFound,
            ),
            old(self).container_exists() ==> r is Ok || r == Err::<(), PageBlobError>(
                PageBlobError::BackendError,
            ),
            r is Ok ==> final(self).blob_exists() && final(self).blob_bytes() == zero_bytes(
                (pages_amount * BLOB_PAGE_SIZE) as nat,
            ),
            r is Err ==> final(self).blob_exists() == old(self).blob_exists() && final(self).blob_bytes() == old(self).blob_bytes(),
    ;

    /// Creates the blob with `pages_amount` zero pages unless it already
    /// exists; an existing blob keeps its size and content. Returns the
    /// resulting page count.
    fn create_if_not_exists(&mut self, pages_amount: usize) -> (r: Result<usize, PageBlobError>)
        requires
            old(self).wf(),
            pages_amount * BLOB_PAGE_SIZE <= usize::MAX,
        ensures
            final(self).wf(),
            final(self).container_exists() == old(self).container_exists(),
            !old(self).container_exists() ==> r == Err::<usize, PageBlobError>(
                PageBlobError::ContainerNotFound,
            ),
            old(self).container_exists() ==> r is Ok || r == Err::<usize, PageBlobError>(
                PageBlobError::BackendError,
            ),
            r matches Ok(n) ==> {
                &&& final(self).blob_exists()
                &&& old(self).blob_exists() ==> final(self).blob_bytes() == old(self).blob_bytes()
                &&& !old(self).blob_exists() ==> final(self).blob_bytes() == zero_bytes(
                    (pages_amount * BLOB_PAGE_SIZE) as nat,
                )
                &&& n == final(self).blob_bytes().len() as int / (BLOB_PAGE_SIZE as int)
            },
            r is Err ==> final(self).blob_exists() == old(self).blob_exists() && final(self).blob_bytes() == old(self).blob_bytes(),
    ;

    /// The blob's current size in pages.
    fn get_available_pages_amount(&self) -> (r: Result<usize, PageBlobError>)
        requires
            self.wf(),
        ensures
            !self.container_exists() ==> r == Err::<usize, PageBlobError>(
                PageBlobError::ContainerNotFound,
            ),
            self.container_exists() && !self.blob_exists() ==> r == Err::<usize, PageBlobError>(
                PageBlobError::BlobNotFound,
            ),
            self.container_exists() && self.blob_exists() ==> r matches Ok(n) && n
                == self.blob_bytes().len() as int / (BLOB_PAGE_SIZE as int) || r == Err::<
                usize,
                PageBlobError,
            >(PageBlobError::BackendError),
            r matches Ok(n) ==> self.blob_exists() && n == self.blob_bytes().len() as int / (BLOB_PAGE_SIZE as int),
    ;

    /// Marks the container as existing; a container that already exists is
    /// left as it is.
    fn create_container_if_not_exist(&mut self) -> (r: Result<(), PageBlobError>)
        requires
            old(self).wf(),
        ensures
            final(self).wf(),
            final(self).blob_exists() == old(self).blob_exists(),
            final(self).blob_bytes() == old(self).blob_bytes(),
            r is Ok ==> final(self).container_exists(),
            r is Err ==> r == Err::<(), PageBlobError>(PageBlobError::BackendError) && final(self).container_exists() == old(self).container_exists(),
    ;

    /// Brings the blob to exactly `pages_amount` pages: shrinking truncates
    /// from the tail, growing appends zero pages.
    fn resize(&mut self, pages_amount: usize) -> (r: Result<(), PageBlobError>)
        requires
            old(self).wf(),
            pages_amount * BLOB_PAGE_SIZE <= usize::MAX,
        ensures
            final(self).wf(),
            final(self).container_exists() == old(self).container_exists(),
            final(self).blob_exists() == old(self).blob_exists(),
            !old(self).container_exists() ==> r == Err::<(), PageBlobError>(
                PageBlobError::ContainerNotFound,
            ),
            old(self).container_exists() && !old(self).blob_exists() ==> r == Err::<
                (),
                PageBlobError,
            >(PageBlobError::BlobNotFound),
            old(self).container_exists() && old(self).blob_exists() ==> r is Ok || r == Err::<
                (),
                PageBlobError,
            >(PageBlobError::BackendError),
            r is Ok ==> old(self).blob_exists() && final(self).blob_bytes() == resize_bytes(
                old(self).blob_bytes(),
                (pages_amount * BLOB_PAGE_SIZE) as nat,
            ),
            r is Err ==> final(self).blob_bytes() == old(self).blob_bytes(),
    ;

    /// Removes the blob; fails if it does not exist.
    fn delete(&mut self) -> (r: Result<(), PageBlobError>)
        requires
            old(self).wf(),
        ensures
            final(self).wf(),
            final(self).container_exists() == old(self).container_exists(),
            !old(self).container_exists() ==> r == Err::<(), PageBlobError>(
                PageBlobError::ContainerNotFound,
            ),
            old(self).container_exists() && !old(self).blob_exists() ==> r == Err::<
                (),
                PageBlobError,
            >(PageBlobError::BlobNotFound),
            old(self).container_exists() && old(self).blob_exists() ==> r is Ok || r == Err::<
                (),
                PageBlobError,
            >(PageBlobError::BackendError),
            r is Ok ==> !final(self).blob_exists() && final(self).blob_bytes() == Seq::<
                u8,
            >::empty(),
            r is Err ==> final(self).blob_exists() == old(self).blob_exists() && final(self).blob_bytes() == old(self).blob_bytes(),
    ;

    /// Removes the blob if it exists; removing an absent blob succeeds and
    /// changes nothing.
    fn delete_if_exists(&mut self) -> (r: Result<(), PageBlobError>)
        requires
            old(self).wf(),
        ensures
            final(self).wf(),
            final(self).container_exists() == old(self).container_exists(),
            r is Ok ==> !final(self).blob_exists() && final(self).blob_bytes() == Seq::<
                u8,
            >::empty(),
            r is Err ==> r == Err::<(), PageBlobError>(PageBlobError::BackendError) && final(self).blob_exists() == old(self).blob_exists() && final(self).blob_bytes() == old(self).blob_bytes(),
    ;

    /// Reads `pages_amount` pages starting at page `start_page_no`: their
    /// concatenated raw bytes. A read past the end of the blob is a backend
    /// error.
    fn get(&self, start_page_no: usize, pages_amount: usize) -> (r: Result<Vec<u8>, PageBlobError>)
        requires
            self.wf(),
            start_page_no + pages_amount <= usize::MAX,
        ensures
            !self.container_exists() ==> r == Err::<Vec<u8>, PageBlobError>(
                PageBlobError::ContainerNotFound,
            ),
            self.container_exists() && !self.blob_exists() ==> r == Err::<Vec<u8>, PageBlobError>(
                PageBlobError::BlobNotFound,
            ),
            self.container_exists() && self.blob_exists() && (start_page_no + pages_amount)
                * BLOB_PAGE_SIZE > self.blob_bytes().len() ==> r == Err::<Vec<u8>, PageBlobError>(
                PageBlobError::BackendError,
            ),
            self.container_exists() && self.blob_exists() && (start_page_no + pages_amount)
                * BLOB_PAGE_SIZE <= self.blob_bytes().len() ==> r is Ok || r == Err::<
                Vec<u8>,
                PageBlobError,
            >(PageBlobError::BackendError),
            r matches Ok(v) ==> {
                &&& self.blob_exists()
                &&& (start_page_no + pages_amount) * BLOB_PAGE_SIZE <= self.blob_bytes().len()
                &&& v@ == self.blob_bytes().subrange(
                    start_page_no * BLOB_PAGE_SIZE,
                    (start_page_no + pages_amount) * BLOB_PAGE_SIZE,
                )
            },
    ;

    /// Writes the page-aligned `payload` at page `start_page_no` in one
    /// round trip. The write must lie entirely within the blob's current
    /// pages; it never changes the blob's size.
    fn save_pages(&mut self, start_page_no: usize, payload: Vec<u8>) -> (r: Result<
        (),
        PageBlobError,
    >)
        requires
            old(self).wf(),
            payload@.len() as int % (BLOB_PAGE_SIZE as int) == 0,
            old(self).blob_exists() ==> start_page_no * BLOB_PAGE_SIZE + payload@.len() <= old(self).blob_bytes().len(),
        ensures
            final(self).wf(),
            final(self).container_exists() == old(self).container_exists(),
            final(self).blob_exists() == old(self).blob_exists(),
            final(self).blob_bytes().len() == old(self).blob_bytes().len(),
            !old(self).container_exists() ==> r == Err::<(), PageBlobError>(
                PageBlobError::ContainerNotFound,
            ),
            old(self).container_exists() && !old(self).blob_exists() ==> r == Err::<
                (),
                PageBlobError,
            >(PageBlobError::BlobNotFound),
            old(self).container_exists() && old(self).blob_exists() ==> r is Ok || r == Err::<
                (),
                PageBlobError,
            >(PageBlobError::BackendError),
            r is Ok ==> final(self).blob_bytes() == write_bytes(
                old(self).blob_bytes(),
                start_page_no * BLOB_PAGE_SIZE,
                payload@,
            ),
            r is Err ==> final(self).blob_bytes() == old(self).blob_bytes(),
    ;

    /// Reads the whole blob: all of its pages.
    fn download(&self) -> (r: Result<Vec<u8>, PageBlobError>)
        requires
            self.wf(),
        ensures
            !self.container_exists() ==> r == Err::<Vec<u8>, PageBlobError>(
                PageBlobError::ContainerNotFound,
            ),
            self.container_exists() && !self.blob_exists() ==> r == Err::<Vec<u8>, PageBlobError>(
                PageBlobError::BlobNotFound,
            ),
            self.container_exists() && self.blob_exists() ==> r is Ok || r == Err::<
                Vec<u8>,
                PageBlobError,
            >(PageBlobError::BackendError),
            r matches Ok(v) ==> self.blob_exists() && v@ == self.blob_bytes(),
    ;
}

} // verus!
