use my_azure_page_blob::{MyPageBlob, MyPageBlobMock, PageBlobError};

#[test]
fn mock_state_machine() {
    let mut mock = MyPageBlobMock::new();
    assert_eq!(Err(PageBlobError::ContainerNotFound), mock.get(0, 1));

    assert_eq!(Ok(()), mock.create_container_if_not_exist());
    assert_eq!(Err(PageBlobError::BlobNotFound), mock.get(0, 1));

    assert_eq!(Ok(()), mock.create(4));
    assert_eq!(Ok(4), mock.get_available_pages_amount());

    assert_eq!(Ok(()), mock.resize(2));
    assert_eq!(Ok(2), mock.get_available_pages_amount());
    assert_eq!(Ok(vec![0u8; 1024]), mock.get(0, 2));
    assert_eq!(Err(PageBlobError::BackendError), mock.get(0, 3));
}

#[test]
fn delete_if_exists_on_never_created_blob() {
    let mut mock = MyPageBlobMock::new();
    assert_eq!(Ok(()), mock.delete_if_exists());
    assert_eq!(Err(PageBlobError::ContainerNotFound), mock.get(0, 1));

    mock.create_container_if_not_exist().unwrap();
    assert_eq!(Ok(()), mock.delete_if_exists());
    assert_eq!(Err(PageBlobError::BlobNotFound), mock.get(0, 1));
}

#[test]
fn delete_requires_an_existing_blob() {
    let mut mock = MyPageBlobMock::new();
    assert_eq!(Err(PageBlobError::ContainerNotFound), mock.delete());

    mock.create_container_if_not_exist().unwrap();
    assert_eq!(Err(PageBlobError::BlobNotFound), mock.delete());

    mock.create(2).unwrap();
    assert_eq!(Ok(()), mock.delete());
    assert_eq!(Err(PageBlobError::BlobNotFound), mock.get_available_pages_amount());
    assert_eq!(Err(PageBlobError::BlobNotFound), mock.delete());
}

#[test]
fn create_needs_the_container_first() {
    let mut mock = MyPageBlobMock::new();
    assert_eq!(Err(PageBlobError::ContainerNotFound), mock.create(1));
    assert_eq!(Err(PageBlobError::ContainerNotFound), mock.create_if_not_exists(1));
    assert_eq!(Err(PageBlobError::ContainerNotFound), mock.resize(1));
    assert_eq!(Err(PageBlobError::ContainerNotFound), mock.get_available_pages_amount());
    assert_eq!(Err(PageBlobError::ContainerNotFound), mock.download());
    assert_eq!(Err(PageBlobError::ContainerNotFound), mock.get_blob_properties());
    assert_eq!(Err(PageBlobError::ContainerNotFound), mock.save_pages(0, vec![0u8; 512]));
}

#[test]
fn create_overwrites_with_zero_pages() {
    let mut mock = MyPageBlobMock::new();
    mock.create_container_if_not_exist().unwrap();
    mock.create(2).unwrap();
    mock.save_pages(0, vec![0xAAu8; 1024]).unwrap();
    assert_eq!(Ok(vec![0xAAu8; 1024]), mock.download());

    mock.create(2).unwrap();
    assert_eq!(Ok(vec![0u8; 1024]), mock.download());
}

#[test]
fn create_if_not_exists_keeps_an_existing_blob() {
    let mut mock = MyPageBlobMock::new();
    mock.create_container_if_not_exist().unwrap();

    assert_eq!(Ok(3), mock.create_if_not_exists(3));
    mock.save_pages(0, vec![5u8; 512]).unwrap();

    // a second create_if_not_exists neither resizes nor clears
    assert_eq!(Ok(3), mock.create_if_not_exists(8));
    assert_eq!(Ok(3), mock.get_available_pages_amount());
    let mut expected = vec![5u8; 512];
    expected.extend(vec![0u8; 1024]);
    assert_eq!(Ok(expected), mock.download());
}

#[test]
fn resize_truncates_from_the_tail_and_appends_zero_pages() {
    let mut mock = MyPageBlobMock::new();
    mock.create_container_if_not_exist().unwrap();
    mock.create(2).unwrap();
    let mut payload = vec![1u8; 512];
    payload.extend(vec![2u8; 512]);
    mock.save_pages(0, payload).unwrap();

    // shrink: the tail page with the 2s goes away
    mock.resize(1).unwrap();
    assert_eq!(Ok(vec![1u8; 512]), mock.download());

    // grow: the page with the 1s stays, new pages come back zeroed
    mock.resize(3).unwrap();
    assert_eq!(Ok(3), mock.get_available_pages_amount());
    assert_eq!(Ok(vec![1u8; 512]), mock.get(0, 1));
    assert_eq!(Ok(vec![0u8; 1024]), mock.get(1, 2));
}

#[test]
fn write_then_read_round_trip() {
    let mut mock = MyPageBlobMock::new();
    mock.create_container_if_not_exist().unwrap();
    mock.create(8).unwrap();

    let payload: Vec<u8> = (0..1024u32).map(|i| (i % 251) as u8).collect();
    mock.save_pages(3, payload.clone()).unwrap();
    assert_eq!(Ok(payload), mock.get(3, 2));

    // pages around the written range keep their content
    assert_eq!(Ok(vec![0u8; 512 * 3]), mock.get(0, 3));
    assert_eq!(Ok(vec![0u8; 512 * 3]), mock.get(5, 3));
}

#[test]
fn download_returns_all_pages() {
    let mut mock = MyPageBlobMock::new();
    mock.create_container_if_not_exist().unwrap();
    mock.create(3).unwrap();
    mock.save_pages(1, vec![9u8; 512]).unwrap();

    let mut expected = vec![0u8; 512];
    expected.extend(vec![9u8; 512]);
    expected.extend(vec![0u8; 512]);
    assert_eq!(Ok(expected), mock.download());
    assert_eq!(mock.download(), mock.get(0, 3));
}

#[test]
fn blob_properties_report_the_byte_size() {
    let mut mock = MyPageBlobMock::new();
    mock.create_container_if_not_exist().unwrap();
    mock.create(4).unwrap();
    let props = mock.get_blob_properties().unwrap();
    assert_eq!(2048, props.blob_size);
}

#[test]
fn mock_names() {
    let mock = MyPageBlobMock::new();
    assert_eq!("Mock_CONTAINER", mock.get_container_name());
    assert_eq!("Mock_BLOB", mock.get_blob_name());
}

#[test]
fn mock_auto_ressize_grows_and_writes() {
    let mut mock = MyPageBlobMock::new();
    mock.create_container_if_not_exist().unwrap();
    mock.create(1).unwrap();

    // 3 pages needed at page 0, only 1 available: grows to the next
    // multiple of 2, then writes
    let payload = vec![3u8; 1500];
    assert_eq!(Ok(1536), mock.auto_ressize_and_save_pages(0, payload, 2));
    assert_eq!(Ok(4), mock.get_available_pages_amount());
    let read = mock.get(0, 3).unwrap();
    assert_eq!(vec![3u8; 1500], read[..1500].to_vec());
    assert_eq!(vec![0u8; 36], read[1500..].to_vec());

    // zero ratio is rejected outright
    assert_eq!(
        Err(PageBlobError::InvalidArgument),
        mock.auto_ressize_and_save_pages(0, vec![1u8; 512], 0)
    );
}
