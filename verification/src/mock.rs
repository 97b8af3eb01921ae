use vstd::prelude::*;

use crate::error::PageBlobError;
use crate::my_page_blob::{resize_bytes, write_bytes, zero_bytes, BlobProperties, MyPageBlob};
use crate::my_page_blob_utils::{spec_grown_bytes, vec_range};
use crate::sdk::{
    get_pages_amount_after_append, get_ressize_to_pages_amount, lemma_full_pages_size_bounds,
    ressize_payload_to_fullpage, spec_full_pages_size, spec_pad, BLOB_PAGE_SIZE,
};

verus! {

/// In-memory implementation of the page-blob contract, used as the reference
/// test double. It keeps explicit container/blob existence flags and the
/// blob's pages as one flat, page-aligned byte buffer. It never fails with
/// `BackendError` on its own behalf except for an out-of-range read, so its
/// trait implementation strengthens the contract with unconditional success.
pub struct MyPageBlobMock {
    container_created: bool,
    blob_created: bool,
    pages: Vec<u8>,
}

/// `BLOB_PAGE_SIZE * (len / BLOB_PAGE_SIZE) == len` for page-aligned `len`.
proof fn lemma_aligned_len(len: int)
    requires
        len >= 0,
        len % (BLOB_PAGE_SIZE as int) == 0,
    ensures
        (BLOB_PAGE_SIZE as int) * (len / (BLOB_PAGE_SIZE as int)) == len,
{
    vstd::arithmetic::div_mod::lemma_fundamental_div_mod(len, BLOB_PAGE_SIZE as int);
}

/// `(n * BLOB_PAGE_SIZE) / BLOB_PAGE_SIZE == n` and the product is aligned.
proof fn lemma_pages_to_bytes(n: int)
    requires
        n >= 0,
    ensures
        (n * (BLOB_PAGE_SIZE as int)) / (BLOB_PAGE_SIZE as int) == n,
        (n * (BLOB_PAGE_SIZE as int)) % (BLOB_PAGE_SIZE as int) == 0,
{
    vstd::arithmetic::div_mod::lemma_fundamental_div_mod_converse_div(
        n * (BLOB_PAGE_SIZE as int),
        BLOB_PAGE_SIZE as int,
        n,
        0,
    );
    vstd::arithmetic::div_mod::lemma_mod_multiples_basic(n, BLOB_PAGE_SIZE as int);
}

impl MyPageBlobMock {
    /// A fresh mock: no container, no blob, no pages.
    pub fn new() -> (r: Self)
        ensures
            r.wf(),
            !r.container_exists(),
            !r.blob_exists(),
            r.blob_bytes() == Seq::<u8>::empty(),
    {
        let r = Self { container_created: false, blob_created: false, pages: Vec::new() };
        proof {
            assert(r.blob_bytes() =~= Seq::<u8>::empty());
        }
        r
    }

    fn check_if_container_exists(&self) -> (r: Result<(), PageBlobError>)
        ensures
            self.container_created ==> r is Ok,
            !self.container_created ==> r == Err::<(), PageBlobError>(
                PageBlobError::ContainerNotFound,
            ),
    {
        if self.container_created {
            return Ok(());
        }
        Err(PageBlobError::ContainerNotFound)
    }

    fn check_if_blob_exists(&self) -> (r: Result<(), PageBlobError>)
        ensures
            self.container_created && self.blob_created ==> r is Ok,
            !self.container_created ==> r == Err::<(), PageBlobError>(
                PageBlobError::ContainerNotFound,
            ),
            self.container_created && !self.blob_created ==> r == Err::<(), PageBlobError>(
                PageBlobError::BlobNotFound,
            ),
    {
        match self.check_if_container_exists() {
            Err(e) => {
                return Err(e);
            },
            Ok(()) => {},
        }
        if self.blob_created {
            return Ok(());
        }
        Err(PageBlobError::BlobNotFound)
    }

    /// The self-healing write against the in-memory mock: pads the payload,
    /// grows the blob to the next multiple of `resize_pages_ratio` pages
    /// when the padded write would not fit, and writes. The mock has no
    /// fallible backend behind it, so success is owed whenever the container
    /// and the blob exist and the ratio is valid; the result is the padded
    /// byte length written.
    pub fn auto_ressize_and_save_pages(
        &mut self,
        start_page_no: usize,
        payload: Vec<u8>,
        resize_pages_ratio: usize,
    ) -> (r: Result<usize, PageBlobError>)
        requires
            old(self).wf(),
            resize_pages_ratio >= 1 ==> start_page_no * BLOB_PAGE_SIZE + payload@.len()
                + BLOB_PAGE_SIZE * (resize_pages_ratio + 1) <= usize::MAX,
        ensures
            final(self).wf(),
            final(self).container_exists() == old(self).container_exists(),
            final(self).blob_exists() == old(self).blob_exists(),
            resize_pages_ratio == 0 ==> r == Err::<usize, PageBlobError>(
                PageBlobError::InvalidArgument,
            ) && final(self).blob_bytes() == old(self).blob_bytes(),
            !old(self).container_exists() && resize_pages_ratio >= 1 ==> r == Err::<
                usize,
                PageBlobError,
            >(PageBlobError::ContainerNotFound) && final(self).blob_bytes() == old(self).blob_bytes(),
            old(self).container_exists() && !old(self).blob_exists() && resize_pages_ratio >= 1
                ==> r == Err::<usize, PageBlobError>(PageBlobError::BlobNotFound) && final(self).blob_bytes() == old(self).blob_bytes(),
            old(self).container_exists() && old(self).blob_exists() && resize_pages_ratio >= 1
                ==> (r matches Ok(n) && n == spec_full_pages_size(payload@.len() as int) && final(self).blob_bytes() == write_bytes(
                spec_grown_bytes(
                    old(self).blob_bytes(),
                    start_page_no as int,
                    payload@,
                    resize_pages_ratio as int,
                ),
                start_page_no * BLOB_PAGE_SIZE,
                spec_pad(payload@),
            )),
    {
        if resize_pages_ratio == 0 {
            return Err(PageBlobError::InvalidArgument);
        }
        match self.check_if_blob_exists() {
            Err(e) => {
                return Err(e);
            },
            Ok(()) => {},
        }
        let ghost orig = payload@;
        let ghost pre_bytes = self.pages@;
        let mut payload = payload;
        ressize_payload_to_fullpage(&mut payload);
        proof {
            if orig.len() >= 1 {
                lemma_full_pages_size_bounds(orig.len() as int);
            }
            vstd::arithmetic::div_mod::lemma_div_nonincreasing(
                payload@.len() as int,
                BLOB_PAGE_SIZE as int,
            );
            vstd::arithmetic::div_mod::lemma_div_pos_is_pos(
                payload@.len() as int,
                BLOB_PAGE_SIZE as int,
            );
        }
        let result = payload.len();
        let pages_amount_after_append = get_pages_amount_after_append(
            start_page_no,
            payload.len(),
        );
        let available_pages_amount = self.pages.len() / BLOB_PAGE_SIZE;
        if pages_amount_after_append > available_pages_amount {
            let pages_amount_needed = get_ressize_to_pages_amount(
                pages_amount_after_append,
                resize_pages_ratio,
            );
            match self.resize(pages_amount_needed) {
                Ok(()) => {},
                Err(e) => {
                    return Err(e);
                },
            }
            proof {
                vstd::arithmetic::div_mod::lemma_fundamental_div_mod_converse_div(
                    pages_amount_needed * (BLOB_PAGE_SIZE as int),
                    BLOB_PAGE_SIZE as int,
                    pages_amount_needed as int,
                    0,
                );
                vstd::arithmetic::div_mod::lemma_fundamental_div_mod(
                    payload@.len() as int,
                    BLOB_PAGE_SIZE as int,
                );
            }
        } else {
            proof {
                lemma_aligned_len(pre_bytes.len() as int);
                vstd::arithmetic::div_mod::lemma_fundamental_div_mod(
                    payload@.len() as int,
                    BLOB_PAGE_SIZE as int,
                );
            }
        }
        match self.save_pages(start_page_no, payload) {
            Ok(()) => Ok(result),
            Err(e) => Err(e),
        }
    }
}

impl MyPageBlob for MyPageBlobMock {
    closed spec fn wf(&self) -> bool {
        &&& self.pages@.len() as int % (BLOB_PAGE_SIZE as int) == 0
        &&& (self.blob_created ==> self.container_created)
        &&& (!self.blob_created ==> self.pages@.len() == 0)
    }

    closed spec fn container_exists(&self) -> bool {
        self.container_created
    }

    closed spec fn blob_exists(&self) -> bool {
        self.blob_created
    }

    closed spec fn blob_bytes(&self) -> Seq<u8> {
        self.pages@
    }

    fn get_container_name(&self) -> &str {
        "Mock_CONTAINER"
    }

    fn get_blob_name(&self) -> &str {
        "Mock_BLOB"
    }

    fn get_blob_properties(&self) -> (r: Result<BlobProperties, PageBlobError>)
        ensures
            self.container_exists() && self.blob_exists() ==> r is Ok,
    {
        match self.check_if_blob_exists() {
            Err(e) => {
                return Err(e);
            },
            Ok(()) => {},
        }
        Ok(BlobProperties { blob_size: self.pages.len() })
    }

    fn create(&mut self, pages_amount: usize) -> (r: Result<(), PageBlobError>)
        ensures
            old(self).container_exists() ==> r is Ok,
    {
        match self.check_if_container_exists() {
            Err(e) => {
                return Err(e);
            },
            Ok(()) => {},
        }
        self.blob_created = true;
        self.pages.clear();
        let target = pages_amount * BLOB_PAGE_SIZE;
        self.pages.resize(target, 0u8);
        proof {
            lemma_pages_to_bytes(pages_amount as int);
            assert(self.pages@ =~= zero_bytes((pages_amount * BLOB_PAGE_SIZE) as nat));
        }
        Ok(())
    }

    fn create_if_not_exists(&mut self, pages_amount: usize) -> (r: Result<usize, PageBlobError>)
        ensures
            old(self).container_exists() ==> r is Ok,
    {
        match self.check_if_container_exists() {
            Err(e) => {
                return Err(e);
            },
            Ok(()) => {},
        }
        if self.blob_created {
            return Ok(self.pages.len() / BLOB_PAGE_SIZE);
        }
        self.blob_created = true;
        let target = pages_amount * BLOB_PAGE_SIZE;
        self.pages.resize(target, 0u8);
        proof {
            lemma_pages_to_bytes(pages_amount as int);
            assert(self.pages@ =~= zero_bytes((pages_amount * BLOB_PAGE_SIZE) as nat));
        }
        Ok(pages_amount)
    }

    fn get_available_pages_amount(&self) -> (r: Result<usize, PageBlobError>)
        ensures
            self.container_exists() && self.blob_exists() ==> r is Ok,
    {
        match self.check_if_blob_exists() {
            Err(e) => {
                return Err(e);
            },
            Ok(()) => {},
        }
        Ok(self.pages.len() / BLOB_PAGE_SIZE)
    }

    fn create_container_if_not_exist(&mut self) -> (r: Result<(), PageBlobError>)
        ensures
            r is Ok,
    {
        self.container_created = true;
        Ok(())
    }

    fn resize(&mut self, pages_amount: usize) -> (r: Result<(), PageBlobError>)
        ensures
            old(self).container_exists() && old(self).blob_exists() ==> r is Ok,
    {
        match self.check_if_blob_exists() {
            Err(e) => {
                return Err(e);
            },
            Ok(()) => {},
        }
        let target = pages_amount * BLOB_PAGE_SIZE;
        self.pages.resize(target, 0u8);
        proof {
            lemma_pages_to_bytes(pages_amount as int);
            assert(self.pages@ =~= resize_bytes(
                old(self).blob_bytes(),
                (pages_amount * BLOB_PAGE_SIZE) as nat,
            ));
        }
        Ok(())
    }

    fn delete(&mut self) -> (r: Result<(), PageBlobError>)
        ensures
            old(self).container_exists() && old(self).blob_exists() ==> r is Ok,
    {
        match self.check_if_blob_exists() {
            Err(e) => {
                return Err(e);
            },
            Ok(()) => {},
        }
        self.blob_created = false;
        self.pages.clear();
        proof {
            assert(self.blob_bytes() =~= Seq::<u8>::empty());
        }
        Ok(())
    }

    fn delete_if_exists(&mut self) -> (r: Result<(), PageBlobError>)
        ensures
            r is Ok,
    {
        self.blob_created = false;
        self.pages.clear();
        proof {
            assert(self.blob_bytes() =~= Seq::<u8>::empty());
        }
        Ok(())
    }

    fn get(&self, start_page_no: usize, pages_amount: usize) -> (r: Result<Vec<u8>, PageBlobError>)
        ensures
            self.container_exists() && self.blob_exists() && (start_page_no + pages_amount)
                * BLOB_PAGE_SIZE <= self.blob_bytes().len() ==> r is Ok,
    {
        match self.check_if_blob_exists() {
            Err(e) => {
                return Err(e);
            },
            Ok(()) => {},
        }
        proof {
            lemma_aligned_len(self.pages@.len() as int);
        }
        let available = self.pages.len() / BLOB_PAGE_SIZE;
        if start_page_no + pages_amount > available {
            return Err(PageBlobError::BackendError);
        }
        let from = start_page_no * BLOB_PAGE_SIZE;
        let to = (start_page_no + pages_amount) * BLOB_PAGE_SIZE;
        Ok(vec_range(&self.pages, from, to))
    }

    fn save_pages(&mut self, start_page_no: usize, payload: Vec<u8>) -> (r: Result<
        (),
        PageBlobError,
    >)
        ensures
            old(self).container_exists() && old(self).blob_exists() ==> r is Ok,
    {
        match self.check_if_blob_exists() {
            Err(e) => {
                return Err(e);
            },
            Ok(()) => {},
        }
        let ghost pre = self.pages@;
        let total = self.pages.len();
        let start_byte = start_page_no * BLOB_PAGE_SIZE;
        let mut i: usize = 0;
        while i < payload.len()
            invariant
                i <= payload@.len(),
                self.container_created == old(self).container_created,
                self.blob_created == old(self).blob_created,
                self.blob_created,
                self.pages@.len() == pre.len(),
                start_byte == start_page_no * BLOB_PAGE_SIZE,
                start_byte + payload@.len() <= self.pages@.len(),
                start_byte + payload@.len() <= usize::MAX,
                self.pages@ == write_bytes(pre, start_byte as int, payload@.subrange(0, i as int)),
            decreases payload@.len() - i,
        {
            let b = payload[i];
            self.pages[start_byte + i] = b;
            i = i + 1;
            proof {
                assert(self.pages@ =~= write_bytes(
                    pre,
                    start_byte as int,
                    payload@.subrange(0, i as int),
                ));
            }
        }
        proof {
            assert(payload@.subrange(0, payload@.len() as int) =~= payload@);
        }
        Ok(())
    }

    fn download(&self) -> (r: Result<Vec<u8>, PageBlobError>)
        ensures
            self.container_exists() && self.blob_exists() ==> r is Ok,
    {
        match self.check_if_blob_exists() {
            Err(e) => {
                return Err(e);
            },
            Ok(()) => {},
        }
        proof {
            lemma_aligned_len(self.pages@.len() as int);
        }
        let pages_amount = self.pages.len() / BLOB_PAGE_SIZE;
        let r = self.get(0, pages_amount);
        proof {
            if r is Ok {
                assert(self.blob_bytes().subrange(
                    0 * (BLOB_PAGE_SIZE as int),
                    (0 + pages_amount) * (BLOB_PAGE_SIZE as int),
                ) =~= self.blob_bytes());
            }
        }
        r
    }
}

} // verus!
