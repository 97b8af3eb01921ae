use vstd::prelude::*;

use crate::error::PageBlobError;
use crate::my_page_blob::{resize_bytes, write_bytes, MyPageBlob};
use crate::sdk::{
    get_pages_amount_after_append, get_ressize_to_pages_amount, lemma_full_pages_size_aligned,
    lemma_full_pages_size_bounds, ressize_payload_to_fullpage, spec_full_pages_size, spec_pad,
    spec_pages_amount_after_append, spec_ressize_to_pages_amount, BLOB_PAGE_SIZE,
};

verus! {

/// The page count a write of `payload`, padded to a page boundary and placed
/// at page `start_page_no`, needs the blob to have.
pub open spec fn spec_required_pages(start_page_no: int, payload: Seq<u8>) -> int {
    spec_pages_amount_after_append(start_page_no, spec_pad(payload).len() as int)
}

/// The page count of a blob whose content is `bytes`.
pub open spec fn spec_available_pages(bytes: Seq<u8>) -> int {
    bytes.len() as int / (BLOB_PAGE_SIZE as int)
}

/// The blob content after the growth policy has run for a write of `payload`
/// at page `start_page_no`: grown to the next multiple of `ratio` pages when
/// the padded write would not fit, and untouched otherwise.
pub open spec fn spec_grown_bytes(
    bytes: Seq<u8>,
    start_page_no: int,
    payload: Seq<u8>,
    ratio: int,
) -> Seq<u8> {
    let needed = spec_required_pages(start_page_no, payload);
    if needed > spec_available_pages(bytes) {
        resize_bytes(
            bytes,
            (spec_ressize_to_pages_amount(needed, ratio) * (BLOB_PAGE_SIZE as int)) as nat,
        )
    } else {
        bytes
    }
}

/// Writing nothing changes nothing.
pub proof fn lemma_write_bytes_empty(bytes: Seq<u8>, pos: int)
    ensures
        write_bytes(bytes, pos, Seq::<u8>::empty()) == bytes,
{
    assert(write_bytes(bytes, pos, Seq::<u8>::empty()) =~= bytes);
}

/// Chunking equivalence, one step: writing `s1` at `pos` and then `s2` right
/// behind it leaves the same bytes as writing `s1 + s2` at `pos` in one piece.
pub proof fn lemma_write_bytes_append(bytes: Seq<u8>, pos: int, s1: Seq<u8>, s2: Seq<u8>)
    ensures
        write_bytes(write_bytes(bytes, pos, s1), pos + s1.len(), s2) == write_bytes(
            bytes,
            pos,
            s1 + s2,
        ),
{
    assert(write_bytes(write_bytes(bytes, pos, s1), pos + s1.len(), s2) =~= write_bytes(
        bytes,
        pos,
        s1 + s2,
    ));
}

/// Round trip: after writing `payload` at page `start_page_no`, reading that
/// byte range back returns exactly `payload`.
pub proof fn lemma_write_then_read_round_trip(bytes: Seq<u8>, start_page_no: int, payload: Seq<u8>)
    requires
        0 <= start_page_no,
        start_page_no * (BLOB_PAGE_SIZE as int) + payload.len() <= bytes.len(),
    ensures
        write_bytes(bytes, start_page_no * (BLOB_PAGE_SIZE as int), payload).subrange(
            start_page_no * (BLOB_PAGE_SIZE as int),
            start_page_no * (BLOB_PAGE_SIZE as int) + payload.len() as int,
        ) == payload,
{
    assert(write_bytes(bytes, start_page_no * (BLOB_PAGE_SIZE as int), payload).subrange(
        start_page_no * (BLOB_PAGE_SIZE as int),
        start_page_no * (BLOB_PAGE_SIZE as int) + payload.len() as int,
    ) =~= payload);
}

/// A fresh copy of `v[from..to]`.
pub(crate) fn vec_range(v: &Vec<u8>, from: usize, to: usize) -> (r: Vec<u8>)
    requires
        from <= to <= v@.len(),
    ensures
        r@ == v@.subrange(from as int, to as int),
{
    let mut r: Vec<u8> = Vec::new();
    let mut i: usize = from;
    while i < to
        invariant
            from <= i <= to <= v@.len(),
            r@ == v@.subrange(from as int, i as int),
        decreases to - i,
    {
        r.push(v[i]);
        i = i + 1;
        proof {
            assert(r@ =~= v@.subrange(from as int, i as int));
        }
    }
    r
}

/// Writes the page-aligned `payload` at page `start_page_no`, split into
/// rounds of at most `max_pages_to_write_per_round_trip` pages each. Rounds
/// are issued strictly in increasing page order, one at a time; the bytes
/// persisted equal those of a single unchunked write of the whole payload.
/// On a backend failure the rounds already issued remain applied, so the blob
/// then holds some prefix of the payload at the target range.
pub fn write_pages<T: MyPageBlob>(
    page_blob: &mut T,
    start_page_no: usize,
    max_pages_to_write_per_round_trip: usize,
    payload: Vec<u8>,
) -> (r: Result<(), PageBlobError>)
    requires
        old(page_blob).wf(),
        old(page_blob).container_exists(),
        old(page_blob).blob_exists(),
        payload@.len() as int % (BLOB_PAGE_SIZE as int) == 0,
        max_pages_to_write_per_round_trip >= 1,
        max_pages_to_write_per_round_trip * BLOB_PAGE_SIZE <= usize::MAX,
        start_page_no * BLOB_PAGE_SIZE + payload@.len() <= old(page_blob).blob_bytes().len(),
        start_page_no * BLOB_PAGE_SIZE + payload@.len() <= usize::MAX,
    ensures
        final(page_blob).wf(),
        final(page_blob).container_exists() == old(page_blob).container_exists(),
        final(page_blob).blob_exists() == old(page_blob).blob_exists(),
        final(page_blob).blob_bytes().len() == old(page_blob).blob_bytes().len(),
        r is Ok ==> final(page_blob).blob_bytes() == write_bytes(
            old(page_blob).blob_bytes(),
            start_page_no * BLOB_PAGE_SIZE,
            payload@,
        ),
        r is Err ==> r == Err::<(), PageBlobError>(PageBlobError::BackendError) && exists|k: int|
            0 <= k <= payload@.len() && final(page_blob).blob_bytes() == write_bytes(
                old(page_blob).blob_bytes(),
                start_page_no * BLOB_PAGE_SIZE,
                payload@.subrange(0, k),
            ),
{
    let ghost pre_bytes = page_blob.blob_bytes();
    let ghost pl = payload@;
    let remain_pages_to_write = payload.len() / BLOB_PAGE_SIZE;
    if remain_pages_to_write <= max_pages_to_write_per_round_trip {
        proof {
            vstd::arithmetic::div_mod::lemma_fundamental_div_mod(
                pl.len() as int,
                BLOB_PAGE_SIZE as int,
            );
        }
        match page_blob.save_pages(start_page_no, payload) {
            Ok(()) => {
                return Ok(());
            },
            Err(e) => {
                proof {
                    assert(write_bytes(
                        pre_bytes,
                        start_page_no * BLOB_PAGE_SIZE,
                        pl.subrange(0, 0),
                    ) =~= pre_bytes);
                }
                return Err(e);
            },
        }
    }
    let max_write_chunk = max_pages_to_write_per_round_trip * BLOB_PAGE_SIZE;
    let mut pos: usize = 0;
    let mut page_no = start_page_no;
    proof {
        assert(pl.subrange(0, 0) =~= Seq::<u8>::empty());
        lemma_write_bytes_empty(pre_bytes, start_page_no * BLOB_PAGE_SIZE);
    }
    while pos < payload.len()
        invariant
            page_blob.wf(),
            page_blob.container_exists(),
            page_blob.blob_exists(),
            page_blob.container_exists() == old(page_blob).container_exists(),
            page_blob.blob_exists() == old(page_blob).blob_exists(),
            page_blob.blob_bytes().len() == pre_bytes.len(),
            pre_bytes == old(page_blob).blob_bytes(),
            pl == payload@,
            pos <= pl.len(),
            pos as int % (BLOB_PAGE_SIZE as int) == 0,
            pl.len() as int % (BLOB_PAGE_SIZE as int) == 0,
            page_no * BLOB_PAGE_SIZE == start_page_no * BLOB_PAGE_SIZE + pos,
            max_write_chunk == max_pages_to_write_per_round_trip * BLOB_PAGE_SIZE,
            max_write_chunk >= BLOB_PAGE_SIZE,
            start_page_no * BLOB_PAGE_SIZE + pl.len() <= pre_bytes.len(),
            start_page_no * BLOB_PAGE_SIZE + pl.len() <= usize::MAX,
            page_blob.blob_bytes() == write_bytes(
                pre_bytes,
                start_page_no * BLOB_PAGE_SIZE,
                pl.subrange(0, pos as int),
            ),
        decreases pl.len() - pos,
    {
        let remaining = payload.len() - pos;
        let write_amount = if remaining > max_write_chunk {
            max_write_chunk
        } else {
            remaining
        };
        proof {
            vstd::arithmetic::div_mod::lemma_sub_mod_noop(
                pl.len() as int,
                pos as int,
                BLOB_PAGE_SIZE as int,
            );
            vstd::arithmetic::div_mod::lemma_mod_multiples_basic(
                max_pages_to_write_per_round_trip as int,
                BLOB_PAGE_SIZE as int,
            );
            vstd::arithmetic::div_mod::lemma_add_mod_noop(
                pos as int,
                write_amount as int,
                BLOB_PAGE_SIZE as int,
            );
        }
        let payload_to_write = vec_range(&payload, pos, pos + write_amount);
        match page_blob.save_pages(page_no, payload_to_write) {
            Err(e) => {
                proof {
                    assert(0 <= pos as int <= pl.len());
                    assert(page_blob.blob_bytes() == write_bytes(
                        pre_bytes,
                        start_page_no * BLOB_PAGE_SIZE,
                        pl.subrange(0, pos as int),
                    ));
                }
                return Err(e);
            },
            Ok(()) => {},
        }
        proof {
            lemma_write_bytes_append(
                pre_bytes,
                start_page_no * BLOB_PAGE_SIZE,
                pl.subrange(0, pos as int),
                pl.subrange(pos as int, pos as int + write_amount as int),
            );
            assert(pl.subrange(0, pos as int) + pl.subrange(
                pos as int,
                pos as int + write_amount as int,
            ) =~= pl.subrange(0, pos as int + write_amount as int));
            vstd::arithmetic::div_mod::lemma_fundamental_div_mod(
                write_amount as int,
                BLOB_PAGE_SIZE as int,
            );
        }
        pos = pos + write_amount;
        page_no = page_no + write_amount / BLOB_PAGE_SIZE;
    }
    proof {
        assert(pl.subrange(0, pl.len() as int) =~= pl);
    }
    Ok(())
}

/// One round of a chunked write: the target page, and the byte range of the
/// payload that the round carries.
#[derive(Clone, Copy, Debug, PartialEq, Eq, Structural)]
pub struct WriteRound {
    pub page_no: usize,
    pub offset: usize,
    pub len: usize,
}

/// The ordered rounds of a chunked write of `payload_len` page-aligned bytes
/// at page `start_page_no`, each covering at most
/// `max_pages_to_write_per_round_trip` pages. A driver that must wait on
/// each backend call on its own (an asynchronous adapter, say) performs
/// exactly these rounds in order: their byte ranges chain seamlessly from
/// the start of the payload to its end, and each round's page matches its
/// byte offset.
pub fn plan_write_rounds(
    start_page_no: usize,
    max_pages_to_write_per_round_trip: usize,
    payload_len: usize,
) -> (r: Vec<WriteRound>)
    requires
        payload_len as int % (BLOB_PAGE_SIZE as int) == 0,
        max_pages_to_write_per_round_trip >= 1,
        max_pages_to_write_per_round_trip * BLOB_PAGE_SIZE <= usize::MAX,
        start_page_no * BLOB_PAGE_SIZE + payload_len <= usize::MAX,
    ensures
        r@.len() >= 1,
        r@[0].offset == 0,
        r@[r@.len() - 1].offset + r@[r@.len() - 1].len == payload_len,
        forall|i: int|
            0 <= i < r@.len() ==> (#[trigger] r@[i]).offset + r@[i].len <= payload_len && r@[i].len
                <= max_pages_to_write_per_round_trip * BLOB_PAGE_SIZE && r@[i].len as int % (
            BLOB_PAGE_SIZE as int) == 0 && r@[i].page_no * BLOB_PAGE_SIZE == start_page_no
                * BLOB_PAGE_SIZE + r@[i].offset,
        forall|i: int|
            1 <= i < r@.len() ==> (#[trigger] r@[i]).offset == r@[i - 1].offset + r@[i - 1].len,
{
    let max_write_chunk = max_pages_to_write_per_round_trip * BLOB_PAGE_SIZE;
    let mut rounds: Vec<WriteRound> = Vec::new();
    if payload_len <= max_write_chunk {
        rounds.push(WriteRound { page_no: start_page_no, offset: 0, len: payload_len });
        return rounds;
    }
    let mut pos: usize = 0;
    let mut page_no = start_page_no;
    while pos < payload_len
        invariant
            pos <= payload_len,
            pos as int % (BLOB_PAGE_SIZE as int) == 0,
            payload_len as int % (BLOB_PAGE_SIZE as int) == 0,
            page_no * BLOB_PAGE_SIZE == start_page_no * BLOB_PAGE_SIZE + pos,
            max_write_chunk == max_pages_to_write_per_round_trip * BLOB_PAGE_SIZE,
            max_write_chunk >= BLOB_PAGE_SIZE,
            start_page_no * BLOB_PAGE_SIZE + payload_len <= usize::MAX,
            pos == 0 ==> rounds@.len() == 0,
            pos > 0 ==> rounds@.len() >= 1 && rounds@[0].offset == 0 && rounds@[rounds@.len()
                - 1].offset + rounds@[rounds@.len() - 1].len == pos,
            forall|i: int|
                0 <= i < rounds@.len() ==> (#[trigger] rounds@[i]).offset + rounds@[i].len
                    <= payload_len && rounds@[i].len <= max_write_chunk && rounds@[i].len as int % (
                BLOB_PAGE_SIZE as int) == 0 && rounds@[i].page_no * BLOB_PAGE_SIZE == start_page_no
                    * BLOB_PAGE_SIZE + rounds@[i].offset,
            forall|i: int|
                1 <= i < rounds@.len() ==> (#[trigger] rounds@[i]).offset == rounds@[i - 1].offset
                    + rounds@[i - 1].len,
        decreases payload_len - pos,
    {
        let remaining = payload_len - pos;
        let len = if remaining > max_write_chunk {
            max_write_chunk
        } else {
            remaining
        };
        proof {
            vstd::arithmetic::div_mod::lemma_sub_mod_noop(
                payload_len as int,
                pos as int,
                BLOB_PAGE_SIZE as int,
            );
            vstd::arithmetic::div_mod::lemma_mod_multiples_basic(
                max_pages_to_write_per_round_trip as int,
                BLOB_PAGE_SIZE as int,
            );
            vstd::arithmetic::div_mod::lemma_add_mod_noop(
                pos as int,
                len as int,
                BLOB_PAGE_SIZE as int,
            );
            vstd::arithmetic::div_mod::lemma_fundamental_div_mod(
                len as int,
                BLOB_PAGE_SIZE as int,
            );
        }
        rounds.push(WriteRound { page_no, offset: pos, len });
        pos = pos + len;
        page_no = page_no + len / BLOB_PAGE_SIZE;
    }
    rounds
}

/// Pads `payload` to a page boundary, checks that the padded write fits
/// within the blob's current pages, and writes it through the chunked
/// writer. Returns the padded byte length written. When the write would run
/// past the end of the blob it fails with `CapacityExceeded`, carrying the
/// required and available page counts: this plain variant never grows the
/// blob.
pub fn save_pages<T: MyPageBlob>(
    page_blob: &mut T,
    start_page_no: usize,
    max_pages_to_write_per_round_trip: usize,
    payload: Vec<u8>,
) -> (r: Result<usize, PageBlobError>)
    requires
        old(page_blob).wf(),
        max_pages_to_write_per_round_trip >= 1,
        max_pages_to_write_per_round_trip * BLOB_PAGE_SIZE <= usize::MAX,
        start_page_no * BLOB_PAGE_SIZE + payload@.len() + BLOB_PAGE_SIZE <= usize::MAX,
    ensures
        final(page_blob).wf(),
        final(page_blob).container_exists() == old(page_blob).container_exists(),
        final(page_blob).blob_exists() == old(page_blob).blob_exists(),
        final(page_blob).blob_bytes().len() == old(page_blob).blob_bytes().len(),
        !old(page_blob).container_exists() ==> r == Err::<usize, PageBlobError>(
            PageBlobError::ContainerNotFound,
        ) && final(page_blob).blob_bytes() == old(page_blob).blob_bytes(),
        old(page_blob).container_exists() && !old(page_blob).blob_exists() ==> r == Err::<
            usize,
            PageBlobError,
        >(PageBlobError::BlobNotFound) && final(page_blob).blob_bytes() == old(page_blob).blob_bytes(),
        old(page_blob).container_exists() && old(page_blob).blob_exists() && spec_required_pages(
            start_page_no as int,
            payload@,
        ) > spec_available_pages(old(page_blob).blob_bytes()) ==> (r matches Err(
            PageBlobError::CapacityExceeded { required, available },
        ) && required == spec_required_pages(start_page_no as int, payload@) && available
            == spec_available_pages(old(page_blob).blob_bytes()) && final(page_blob).blob_bytes()
            == old(page_blob).blob_bytes()) || r == Err::<usize, PageBlobError>(
            PageBlobError::BackendError,
        ),
        old(page_blob).container_exists() && old(page_blob).blob_exists() && spec_required_pages(
            start_page_no as int,
            payload@,
        ) <= spec_available_pages(old(page_blob).blob_bytes()) ==> (r is Ok || r == Err::<
            usize,
            PageBlobError,
        >(PageBlobError::BackendError)),
        r matches Ok(n) ==> {
            &&& old(page_blob).container_exists() && old(page_blob).blob_exists()
            &&& n == spec_full_pages_size(payload@.len() as int)
            &&& spec_required_pages(start_page_no as int, payload@) <= spec_available_pages(
                old(page_blob).blob_bytes(),
            )
            &&& final(page_blob).blob_bytes() == write_bytes(
                old(page_blob).blob_bytes(),
                start_page_no * BLOB_PAGE_SIZE,
                spec_pad(payload@),
            )
        },
        r == Err::<usize, PageBlobError>(PageBlobError::BackendError) ==> exists|k: int|
            0 <= k <= spec_pad(payload@).len() && final(page_blob).blob_bytes() == write_bytes(
                old(page_blob).blob_bytes(),
                start_page_no * BLOB_PAGE_SIZE,
                spec_pad(payload@).subrange(0, k),
            ),
{
    let ghost orig = payload@;
    let ghost pre_bytes = old(page_blob).blob_bytes();
    let mut payload = payload;
    ressize_payload_to_fullpage(&mut payload);
    proof {
        if orig.len() >= 1 {
            lemma_full_pages_size_bounds(orig.len() as int);
        }
        vstd::arithmetic::div_mod::lemma_div_nonincreasing(
            payload@.len() as int,
            BLOB_PAGE_SIZE as int,
        );
        vstd::arithmetic::div_mod::lemma_div_pos_is_pos(
            payload@.len() as int,
            BLOB_PAGE_SIZE as int,
        );
    }
    let result = payload.len();
    let pages_amount_after_append = get_pages_amount_after_append(start_page_no, payload.len());
    let available_pages_amount = match page_blob.get_available_pages_amount() {
        Ok(n) => n,
        Err(e) => {
            proof {
                assert(spec_pad(orig).subrange(0, 0) =~= Seq::<u8>::empty());
                lemma_write_bytes_empty(pre_bytes, start_page_no * BLOB_PAGE_SIZE);
            }
            return Err(e);
        },
    };
    if pages_amount_after_append > available_pages_amount {
        return Err(
            PageBlobError::CapacityExceeded {
                required: pages_amount_after_append,
                available: available_pages_amount,
            },
        );
    }
    proof {
        vstd::arithmetic::div_mod::lemma_fundamental_div_mod(
            payload@.len() as int,
            BLOB_PAGE_SIZE as int,
        );
        vstd::arithmetic::div_mod::lemma_fundamental_div_mod(
            pre_bytes.len() as int,
            BLOB_PAGE_SIZE as int,
        );
        vstd::arithmetic::div_mod::lemma_mod_division_less_than_divisor(
            pre_bytes.len() as int,
            BLOB_PAGE_SIZE as int,
        );
    }
    match write_pages(page_blob, start_page_no, max_pages_to_write_per_round_trip, payload) {
        Ok(()) => Ok(result),
        Err(e) => Err(e),
    }
}

/// The self-healing write: pads `payload`, grows the blob to the next
/// multiple of `resize_pages_ratio` pages when the padded write would not
/// fit, and then performs the plain `save_pages`. It never fails with
/// `CapacityExceeded`: growth removes the capacity shortage before the plain
/// variant re-checks it. A zero ratio is rejected with `InvalidArgument`.
pub fn auto_ressize_and_save_pages<T: MyPageBlob>(
    page_blob: &mut T,
    start_page_no: usize,
    max_pages_to_write_single_round_trip: usize,
    payload: Vec<u8>,
    resize_pages_ratio: usize,
) -> (r: Result<usize, PageBlobError>)
    requires
        old(page_blob).wf(),
        max_pages_to_write_single_round_trip >= 1,
        max_pages_to_write_single_round_trip * BLOB_PAGE_SIZE <= usize::MAX,
        resize_pages_ratio >= 1 ==> start_page_no * BLOB_PAGE_SIZE + payload@.len()
            + BLOB_PAGE_SIZE * (resize_pages_ratio + 1) <= usize::MAX,
    ensures
        final(page_blob).wf(),
        final(page_blob).container_exists() == old(page_blob).container_exists(),
        final(page_blob).blob_exists() == old(page_blob).blob_exists(),
        resize_pages_ratio == 0 ==> r == Err::<usize, PageBlobError>(PageBlobError::InvalidArgument)
            && final(page_blob).blob_bytes() == old(page_blob).blob_bytes(),
        !old(page_blob).container_exists() && resize_pages_ratio >= 1 ==> r == Err::<
            usize,
            PageBlobError,
        >(PageBlobError::ContainerNotFound) && final(page_blob).blob_bytes() == old(page_blob).blob_bytes(),
        old(page_blob).container_exists() && !old(page_blob).blob_exists() && resize_pages_ratio
            >= 1 ==> r == Err::<usize, PageBlobError>(PageBlobError::BlobNotFound) && final(page_blob).blob_bytes() == old(page_blob).blob_bytes(),
        r matches Err(e) ==> !(e is CapacityExceeded),
        old(page_blob).container_exists() && old(page_blob).blob_exists() && resize_pages_ratio
            >= 1 ==> (r is Ok || r == Err::<usize, PageBlobError>(PageBlobError::BackendError)),
        r matches Ok(n) ==> {
            &&& old(page_blob).container_exists() && old(page_blob).blob_exists()
            &&& resize_pages_ratio >= 1
            &&& n == spec_full_pages_size(payload@.len() as int)
            &&& final(page_blob).blob_bytes() == write_bytes(
                spec_grown_bytes(
                    old(page_blob).blob_bytes(),
                    start_page_no as int,
                    payload@,
                    resize_pages_ratio as int,
                ),
                start_page_no * BLOB_PAGE_SIZE,
                spec_pad(payload@),
            )
        },
{
    if resize_pages_ratio == 0 {
        return Err(PageBlobError::InvalidArgument);
    }
    let ghost orig = payload@;
    let ghost pre_bytes = old(page_blob).blob_bytes();
    let mut payload = payload;
    ressize_payload_to_fullpage(&mut payload);
    proof {
        if orig.len() >= 1 {
            lemma_full_pages_size_bounds(orig.len() as int);
        }
        lemma_full_pages_size_aligned(payload@.len() as int);
        assert(spec_pad(payload@) =~= payload@);
        vstd::arithmetic::div_mod::lemma_div_nonincreasing(
            payload@.len() as int,
            BLOB_PAGE_SIZE as int,
        );
        vstd::arithmetic::div_mod::lemma_div_pos_is_pos(
            payload@.len() as int,
            BLOB_PAGE_SIZE as int,
        );
    }
    let pages_amount_after_append = get_pages_amount_after_append(start_page_no, payload.len());
    let available_pages_amount = match page_blob.get_available_pages_amount() {
        Ok(n) => n,
        Err(e) => {
            return Err(e);
        },
    };
    let ghost grown = spec_grown_bytes(
        pre_bytes,
        start_page_no as int,
        orig,
        resize_pages_ratio as int,
    );
    if pages_amount_after_append > available_pages_amount {
        let pages_amount_needed = get_ressize_to_pages_amount(
            pages_amount_after_append,
            resize_pages_ratio,
        );
        match page_blob.resize(pages_amount_needed) {
            Ok(()) => {},
            Err(e) => {
                return Err(e);
            },
        }
        proof {
            vstd::arithmetic::div_mod::lemma_fundamental_div_mod_converse_div(
                pages_amount_needed * (BLOB_PAGE_SIZE as int),
                BLOB_PAGE_SIZE as int,
                pages_amount_needed as int,
                0,
            );
        }
    }
    proof {
        assert(page_blob.blob_bytes() == grown);
        assert(spec_required_pages(start_page_no as int, payload@) <= spec_available_pages(
            page_blob.blob_bytes(),
        ));
    }
    match save_pages(page_blob, start_page_no, max_pages_to_write_single_round_trip, payload) {
        Ok(n) => Ok(n),
        Err(e) => Err(e),
    }
}

} // verus!
