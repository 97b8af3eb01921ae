use my_azure_page_blob::sdk::{
    get_full_pages_size, get_pages_amount_after_append, get_ressize_to_pages_amount,
    ressize_payload_to_fullpage, MyAzurePageBlobSdk,
};
use my_azure_page_blob::BLOB_PAGE_SIZE;

#[test]
fn get_full_page_ressize() {
    assert_eq!(512, get_full_pages_size(1));
    assert_eq!(512, get_full_pages_size(512));
    assert_eq!(1024, get_full_pages_size(513));
    assert_eq!(1024, get_full_pages_size(1024));
}

#[test]
fn test_ressize_payload_to_full_page() {
    let mut payload: Vec<u8> = Vec::new();

    payload.push(1);

    ressize_payload_to_fullpage(&mut payload);

    assert_eq!(BLOB_PAGE_SIZE, payload.len());
}

#[test]
fn test_get_pages_amount_after_append() {
    assert_eq!(3, get_pages_amount_after_append(2, 512));
}

#[test]
fn test_new_blob_size_in_pages_by_2() {
    let need_pages = 1;
    let pages_ratio = 2;

    let ressize_to_pages_amount = get_ressize_to_pages_amount(need_pages, pages_ratio);

    assert_eq!(2, ressize_to_pages_amount);

    let need_pages = 2;
    let pages_ratio = 2;

    let ressize_to_pages_amount = get_ressize_to_pages_amount(need_pages, pages_ratio);

    assert_eq!(2, ressize_to_pages_amount);

    let need_pages = 3;
    let pages_ratio = 2;

    let ressize_to_pages_amount = get_ressize_to_pages_amount(need_pages, pages_ratio);

    assert_eq!(4, ressize_to_pages_amount);

    let need_pages = 4;
    let pages_ratio = 2;

    let ressize_to_pages_amount = get_ressize_to_pages_amount(need_pages, pages_ratio);

    assert_eq!(4, ressize_to_pages_amount);
}

#[test]
fn test_new_blob_size_in_pages_by_3() {
    let need_pages = 1;
    let pages_ratio = 3;

    let ressize_to_pages_amount = get_ressize_to_pages_amount(need_pages, pages_ratio);

    assert_eq!(3, ressize_to_pages_amount);

    let need_pages = 2;
    let pages_ratio = 3;

    let ressize_to_pages_amount = get_ressize_to_pages_amount(need_pages, pages_ratio);

    assert_eq!(3, ressize_to_pages_amount);

    let need_pages = 3;
    let pages_ratio = 3;

    let ressize_to_pages_amount = get_ressize_to_pages_amount(need_pages, pages_ratio);

    assert_eq!(3, ressize_to_pages_amount);

    let need_pages = 4;
    let pages_ratio = 3;

    let ressize_to_pages_amount = get_ressize_to_pages_amount(need_pages, pages_ratio);

    assert_eq!(6, ressize_to_pages_amount);

    let need_pages = 5;
    let pages_ratio = 3;

    let ressize_to_pages_amount = get_ressize_to_pages_amount(need_pages, pages_ratio);

    assert_eq!(6, ressize_to_pages_amount);

    let need_pages = 6;
    let pages_ratio = 3;

    let ressize_to_pages_amount = get_ressize_to_pages_amount(need_pages, pages_ratio);

    assert_eq!(6, ressize_to_pages_amount);
}

#[test]
fn padding_bounds_on_sample_lengths() {
    // len >= 1: padded length is aligned, >= len, and < len + 512
    for len in [1usize, 2, 511, 512, 513, 1023, 1024, 1025, 4096] {
        let full = get_full_pages_size(len);
        assert_eq!(0, full % BLOB_PAGE_SIZE);
        assert!(full >= len);
        assert!(full < len + BLOB_PAGE_SIZE);
    }
}

#[test]
fn padding_empty_payload_is_a_no_op() {
    assert_eq!(0, get_full_pages_size(0));

    let mut payload: Vec<u8> = Vec::new();
    ressize_payload_to_fullpage(&mut payload);
    assert_eq!(0, payload.len());
}

#[test]
fn padding_is_additive_only() {
    let mut payload: Vec<u8> = vec![7u8; 513];
    ressize_payload_to_fullpage(&mut payload);
    assert_eq!(1024, payload.len());
    for i in 0..513 {
        assert_eq!(7, payload[i]);
    }
    for i in 513..1024 {
        assert_eq!(0, payload[i]);
    }

    let mut aligned: Vec<u8> = vec![9u8; 512];
    ressize_payload_to_fullpage(&mut aligned);
    assert_eq!(vec![9u8; 512], aligned);
}

#[test]
fn growth_target_bounds_on_sample_inputs() {
    for needs in 1usize..40 {
        for ratio in 1usize..9 {
            let target = get_ressize_to_pages_amount(needs, ratio);
            assert_eq!(0, target % ratio);
            assert!(target >= needs);
            assert!(target < needs + ratio);
        }
    }
}

#[test]
fn size_cache_transitions() {
    let mut sdk = MyAzurePageBlobSdk::new("the-container".to_string(), "the-blob".to_string());
    assert_eq!("the-container", sdk.container_name);
    assert_eq!("the-blob", sdk.blob_name);
    assert_eq!(None, sdk.cached_pages_amount());

    let pages = sdk.note_blob_size(2048);
    assert_eq!(4, pages);
    assert_eq!(Some(4), sdk.cached_pages_amount());

    sdk.note_pages_amount(7);
    assert_eq!(Some(7), sdk.cached_pages_amount());

    sdk.note_deleted();
    assert_eq!(None, sdk.cached_pages_amount());
}
