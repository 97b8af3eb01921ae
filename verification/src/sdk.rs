use vstd::prelude::*;

use crate::my_page_blob::zero_bytes;

verus! {

/// Size of one page in bytes. All blob sizes and write offsets are whole
/// numbers of pages; every byte length exchanged with a backend is an exact
/// multiple of this constant.
pub const BLOB_PAGE_SIZE: usize = 512;

/// The smallest multiple of `BLOB_PAGE_SIZE` that is at least `len`.
/// An empty payload needs no pages at all.
pub open spec fn spec_full_pages_size(len: int) -> int
    recommends
        len >= 0,
{
    if len <= 0 {
        0
    } else {
        ((len - 1) / (BLOB_PAGE_SIZE as int) + 1) * (BLOB_PAGE_SIZE as int)
    }
}

/// `payload` padded with zero bytes up to the next page boundary.
pub open spec fn spec_pad(payload: Seq<u8>) -> Seq<u8> {
    payload + zero_bytes((spec_full_pages_size(payload.len() as int) - payload.len()) as nat)
}

/// The page count a blob needs so that `data_len` bytes, written starting at
/// page `start_page_no`, fit entirely. `data_len` is expected to be
/// page-aligned on the write path.
pub open spec fn spec_pages_amount_after_append(start_page_no: int, data_len: int) -> int {
    start_page_no + data_len / (BLOB_PAGE_SIZE as int)
}

/// `pages_amount_needs` rounded up to the next multiple of
/// `pages_resize_ratio`: the target size of a growth step.
pub open spec fn spec_ressize_to_pages_amount(pages_amount_needs: int, pages_resize_ratio: int) -> int
    recommends
        pages_amount_needs >= 1,
        pages_resize_ratio >= 1,
{
    ((pages_amount_needs - 1) / pages_resize_ratio + 1) * pages_resize_ratio
}

/// Padding law: for a non-empty payload the padded length is page-aligned,
/// never smaller than the payload, and adds less than one full page.
pub proof fn lemma_full_pages_size_bounds(len: int)
    requires
        len >= 1,
    ensures
        spec_full_pages_size(len) % (BLOB_PAGE_SIZE as int) == 0,
        spec_full_pages_size(len) >= len,
        spec_full_pages_size(len) < len + BLOB_PAGE_SIZE,
{
    let p = BLOB_PAGE_SIZE as int;
    let q = (len - 1) / p;
    let rm = (len - 1) % p;
    vstd::arithmetic::div_mod::lemma_fundamental_div_mod(len - 1, p);
    vstd::arithmetic::div_mod::lemma_mod_division_less_than_divisor(len - 1, p);
    assert((q + 1) * p == q * p + p) by (nonlinear_arith);
    vstd::arithmetic::div_mod::lemma_mod_multiples_basic(q + 1, p);
}

/// A page-aligned length is already full: padding it again adds nothing.
pub proof fn lemma_full_pages_size_aligned(len: int)
    requires
        len >= 0,
        len % (BLOB_PAGE_SIZE as int) == 0,
    ensures
        spec_full_pages_size(len) == len,
{
    let p = BLOB_PAGE_SIZE as int;
    if len > 0 {
        let k = len / p;
        vstd::arithmetic::div_mod::lemma_fundamental_div_mod(len, p);
        assert(len == p * k);
        assert(k >= 1) by (nonlinear_arith)
            requires
                len >= 1,
                len == p * k,
                p == 512,
        ;
        assert(len - 1 == (k - 1) * p + (p - 1)) by (nonlinear_arith)
            requires
                len == p * k,
        ;
        vstd::arithmetic::div_mod::lemma_fundamental_div_mod_converse_div(len - 1, p, k - 1, p - 1);
        assert(spec_full_pages_size(len) == k * p) by (nonlinear_arith)
            requires
                (len - 1) / p == k - 1,
                spec_full_pages_size(len) == ((len - 1) / p + 1) * p,
        ;
    }
}

/// Growth law: for `pages_amount_needs >= 1` and `pages_resize_ratio >= 1`
/// the growth target is a multiple of the ratio, at least the needed page
/// count, and less than one full ratio step above it.
pub proof fn lemma_ressize_to_pages_amount_bounds(pages_amount_needs: int, pages_resize_ratio: int)
    requires
        pages_amount_needs >= 1,
        pages_resize_ratio >= 1,
    ensures
        spec_ressize_to_pages_amount(pages_amount_needs, pages_resize_ratio) % pages_resize_ratio
            == 0,
        spec_ressize_to_pages_amount(pages_amount_needs, pages_resize_ratio)
            >= pages_amount_needs,
        spec_ressize_to_pages_amount(pages_amount_needs, pages_resize_ratio)
            < pages_amount_needs + pages_resize_ratio,
{
    let q = (pages_amount_needs - 1) / pages_resize_ratio;
    let rm = (pages_amount_needs - 1) % pages_resize_ratio;
    vstd::arithmetic::div_mod::lemma_fundamental_div_mod(
        pages_amount_needs - 1,
        pages_resize_ratio,
    );
    vstd::arithmetic::div_mod::lemma_mod_division_less_than_divisor(
        pages_amount_needs - 1,
        pages_resize_ratio,
    );
    assert((q + 1) * pages_resize_ratio == pages_resize_ratio * q + pages_resize_ratio)
        by (nonlinear_arith);
    vstd::arithmetic::div_mod::lemma_mod_multiples_basic(q + 1, pages_resize_ratio);
}

/// Handle state for a remote page blob: the container and blob names and
/// the lazily filled size cache. The cache, once set, holds the blob's page
/// count as of the last operation through this handle that read or changed
/// it; it is set by create and resize, refreshed by a size query, cleared by
/// delete, and left alone by reads and page writes. An adapter around a
/// remote backend drives these transitions between its backend calls.
/// Handles are not coordinated: another handle to the same blob may observe
/// a stale cached size.
pub struct MyAzurePageBlobSdk {
    pub container_name: String,
    pub blob_name: String,
    pub pages_available: Option<usize>,
}

impl MyAzurePageBlobSdk {
    /// The cached page count: `None` until a size has been observed.
    pub open spec fn cached_pages(&self) -> Option<usize> {
        self.pages_available
    }

    /// A fresh handle with an empty size cache.
    pub fn new(container_name: String, blob_name: String) -> (r: Self)
        ensures
            r.container_name == container_name,
            r.blob_name == blob_name,
            r.cached_pages() is None,
    {
        Self { container_name, blob_name, pages_available: None }
    }

    /// The cached page count, if one is known: the read that decides whether
    /// a backend size query can be skipped.
    pub fn cached_pages_amount(&self) -> (r: Option<usize>)
        ensures
            r == self.cached_pages(),
    {
        self.pages_available
    }

    /// Records a backend-reported blob byte size, deriving and returning the
    /// page count: the cache refresh after a size query.
    pub fn note_blob_size(&mut self, blob_size: usize) -> (pages: usize)
        ensures
            pages == blob_size as int / (BLOB_PAGE_SIZE as int),
            final(self).cached_pages() == Some(pages),
            final(self).container_name == old(self).container_name,
            final(self).blob_name == old(self).blob_name,
    {
        let pages = blob_size / BLOB_PAGE_SIZE;
        self.pages_available = Some(pages);
        pages
    }

    /// Records an exact page count: the cache update after a create or a
    /// resize to that size.
    pub fn note_pages_amount(&mut self, pages_amount: usize)
        ensures
            final(self).cached_pages() == Some(pages_amount),
            final(self).container_name == old(self).container_name,
            final(self).blob_name == old(self).blob_name,
    {
        self.pages_available = Some(pages_amount);
    }

    /// Clears the cache: a deleted blob has no known size.
    pub fn note_deleted(&mut self)
        ensures
            final(self).cached_pages() is None,
            final(self).container_name == old(self).container_name,
            final(self).blob_name == old(self).blob_name,
    {
        self.pages_available = None;
    }
}

/// Appends zero bytes to `payload` until its length is a multiple of
/// `BLOB_PAGE_SIZE`. The payload is never truncated; an empty payload stays
/// empty.
pub fn ressize_payload_to_fullpage(payload: &mut Vec<u8>)
    requires
        old(payload)@.len() + BLOB_PAGE_SIZE <= usize::MAX,
    ensures
        final(payload)@ == spec_pad(old(payload)@),
        final(payload)@.len() == spec_full_pages_size(old(payload)@.len() as int),
{
    let target = get_full_pages_size(payload.len());
    proof {
        if old(payload)@.len() >= 1 {
            lemma_full_pages_size_bounds(old(payload)@.len() as int);
        }
    }
    while payload.len() < target
        invariant
            old(payload)@.len() <= payload@.len() <= target,
            target == spec_full_pages_size(old(payload)@.len() as int),
            payload@ == old(payload)@ + zero_bytes((payload@.len() - old(payload)@.len()) as nat),
        decreases target - payload@.len(),
    {
        payload.push(0);
        proof {
            assert(payload@ =~= old(payload)@ + zero_bytes(
                (payload@.len() - old(payload)@.len()) as nat,
            ));
        }
    }
    proof {
        assert(payload@ =~= spec_pad(old(payload)@));
    }
}

/// The padded byte length of a payload of `len` bytes: the smallest multiple
/// of `BLOB_PAGE_SIZE` that is at least `len`, and 0 for an empty payload.
pub fn get_full_pages_size(len: usize) -> (r: usize)
    requires
        len + BLOB_PAGE_SIZE <= usize::MAX,
    ensures
        r == spec_full_pages_size(len as int),
{
    if len == 0 {
        return 0;
    }
    proof {
        lemma_full_pages_size_bounds(len as int);
    }
    ((len - 1) / BLOB_PAGE_SIZE + 1) * BLOB_PAGE_SIZE
}

/// The page count a blob needs so that `data_len` bytes written at page
/// `start_page_no` fit entirely.
pub fn get_pages_amount_after_append(start_page_no: usize, data_len: usize) -> (r: usize)
    requires
        start_page_no + data_len as int / (BLOB_PAGE_SIZE as int) <= usize::MAX,
    ensures
        r == spec_pages_amount_after_append(start_page_no as int, data_len as int),
{
    start_page_no + data_len / BLOB_PAGE_SIZE
}

/// `pages_amount_needs` rounded up to the next multiple of
/// `pages_resize_ratio`.
pub fn get_ressize_to_pages_amount(pages_amount_needs: usize, pages_resize_ratio: usize) -> (r:
    usize)
    requires
        pages_amount_needs >= 1,
        pages_resize_ratio >= 1,
        pages_amount_needs + pages_resize_ratio <= usize::MAX,
    ensures
        r == spec_ressize_to_pages_amount(pages_amount_needs as int, pages_resize_ratio as int),
        r % pages_resize_ratio == 0,
        r >= pages_amount_needs,
        r < pages_amount_needs + pages_resize_ratio,
{
    proof {
        lemma_ressize_to_pages_amount_bounds(pages_amount_needs as int, pages_resize_ratio as int);
    }
    ((pages_amount_needs - 1) / pages_resize_ratio + 1) * pages_resize_ratio
}

} // verus!
