//! Page-aligned blob storage: pagination and growth arithmetic for
//! fixed-size-page blobs, a chunked writer, a per-handle size cache,
//! and an in-memory mock backend with the same semantics.

mod error;
mod mock;
mod my_page_blob;
pub mod my_page_blob_utils;
pub mod sdk;

pub use error::PageBlobError;
pub use mock::MyPageBlobMock;
pub use my_page_blob::{BlobProperties, MyPageBlob};
pub use sdk::BLOB_PAGE_SIZE;
