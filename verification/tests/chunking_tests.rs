use my_azure_page_blob::my_page_blob_utils::{
    auto_ressize_and_save_pages, plan_write_rounds, save_pages, write_pages, WriteRound,
};
use my_azure_page_blob::{MyPageBlob, MyPageBlobMock, PageBlobError};

fn fresh_blob(pages: usize) -> MyPageBlobMock {
    let mut mock = MyPageBlobMock::new();
    mock.create_container_if_not_exist().unwrap();
    mock.create(pages).unwrap();
    mock
}

fn patterned(len: usize) -> Vec<u8> {
    (0..len).map(|i| (i % 239) as u8).collect()
}

#[test]
fn chunked_write_equals_single_write() {
    let payload = patterned(5 * 512);
    for max_pages in [1usize, 2, 3, 4, 100] {
        let mut chunked = fresh_blob(10);
        let mut single = fresh_blob(10);
        assert_eq!(Ok(()), write_pages(&mut chunked, 2, max_pages, payload.clone()));
        assert_eq!(Ok(()), single.save_pages(2, payload.clone()));
        assert_eq!(single.download(), chunked.download());
    }
}

#[test]
fn save_pages_pads_and_reports_padded_length() {
    let mut mock = fresh_blob(4);
    let payload = patterned(700);
    assert_eq!(Ok(1024), save_pages(&mut mock, 1, 1, payload.clone()));

    let read = mock.get(1, 2).unwrap();
    assert_eq!(payload, read[..700].to_vec());
    assert_eq!(vec![0u8; 324], read[700..].to_vec());

    // a write does not change the page count
    assert_eq!(Ok(4), mock.get_available_pages_amount());
}

#[test]
fn save_pages_fails_on_capacity_and_auto_ressize_heals_it() {
    // 3 pages needed at page 0 but only 2 available: the plain write fails
    let mut strict = fresh_blob(2);
    let payload = patterned(3 * 512);
    assert_eq!(
        Err(PageBlobError::CapacityExceeded { required: 3, available: 2 }),
        save_pages(&mut strict, 0, 8, payload.clone())
    );
    // nothing was written
    assert_eq!(Ok(vec![0u8; 1024]), strict.download());

    // the same inputs through the self-healing variant succeed
    let mut healing = fresh_blob(2);
    assert_eq!(Ok(3 * 512), auto_ressize_and_save_pages(&mut healing, 0, 8, payload.clone(), 2));
    assert_eq!(Ok(4), healing.get_available_pages_amount());
    assert_eq!(Ok(payload), healing.get(0, 3));
}

#[test]
fn auto_ressize_without_shortage_leaves_the_size_alone() {
    let mut mock = fresh_blob(6);
    let payload = patterned(2 * 512);
    assert_eq!(Ok(2 * 512), auto_ressize_and_save_pages(&mut mock, 1, 1, payload.clone(), 4));
    assert_eq!(Ok(6), mock.get_available_pages_amount());
    assert_eq!(Ok(payload), mock.get(1, 2));
}

#[test]
fn auto_ressize_rejects_a_zero_ratio() {
    let mut mock = fresh_blob(2);
    assert_eq!(
        Err(PageBlobError::InvalidArgument),
        auto_ressize_and_save_pages(&mut mock, 0, 1, vec![1u8; 512], 0)
    );
    assert_eq!(Ok(vec![0u8; 1024]), mock.download());
}

#[test]
fn save_pages_needs_container_and_blob() {
    let mut no_container = MyPageBlobMock::new();
    assert_eq!(
        Err(PageBlobError::ContainerNotFound),
        save_pages(&mut no_container, 0, 1, vec![1u8; 512])
    );

    let mut no_blob = MyPageBlobMock::new();
    no_blob.create_container_if_not_exist().unwrap();
    assert_eq!(Err(PageBlobError::BlobNotFound), save_pages(&mut no_blob, 0, 1, vec![1u8; 512]));
    assert_eq!(
        Err(PageBlobError::BlobNotFound),
        auto_ressize_and_save_pages(&mut no_blob, 0, 1, vec![1u8; 512], 2)
    );
}

#[test]
fn empty_payload_writes_nothing() {
    let mut mock = fresh_blob(2);
    assert_eq!(Ok(0), save_pages(&mut mock, 1, 1, Vec::new()));
    assert_eq!(Ok(vec![0u8; 1024]), mock.download());
}

#[test]
fn plan_covers_the_payload_in_order() {
    let rounds = plan_write_rounds(2, 2, 5 * 512);
    assert_eq!(
        vec![
            WriteRound { page_no: 2, offset: 0, len: 1024 },
            WriteRound { page_no: 4, offset: 1024, len: 1024 },
            WriteRound { page_no: 6, offset: 2048, len: 512 },
        ],
        rounds
    );

    assert_eq!(vec![WriteRound { page_no: 0, offset: 0, len: 1024 }], plan_write_rounds(0, 4, 1024));
    assert_eq!(vec![WriteRound { page_no: 3, offset: 0, len: 0 }], plan_write_rounds(3, 1, 0));
}
