use iso_matrix::arch_label;
use iso_matrix::filename_from_path;
use iso_matrix::resolve_download_from_body;
use iso_matrix::ApiError;
use iso_matrix::ScrapeError;

#[test]
fn arch_table_is_exact_index() {
    assert_eq!(arch_label(0), Some("i686-UNUSED"));
    assert_eq!(arch_label(1), Some("x86_64"));
    assert_eq!(arch_label(2), Some("aarch64"));
    assert_eq!(arch_label(3), None);
    assert_eq!(arch_label(u64::MAX), None);
}

#[test]
fn non_empty_error_list_always_fails() {
    let body = "{\"ProductDownloadOptions\":[{\"Uri\":\"https://x/y.iso\",\"DownloadType\":1}],\
                \"Errors\":[{\"Key\":\"Error retrieving SKU\",\"Value\":\"Sku invalid\"}]}";
    let r = resolve_download_from_body(body, "x86_64");
    match r {
        Err(ApiError::Business(m)) => assert_eq!(m, "Error retrieving SKU: Sku invalid"),
        _ => panic!("expected the vendor-reported failure"),
    }
}

#[test]
fn error_list_joined_in_order_with_spaces() {
    let body = "{\"Errors\":[{\"Key\":\"a\",\"Value\":\"b\"},{\"Key\":\"c\",\"Value\":\"d\"}]}";
    let r = resolve_download_from_body(body, "x86_64");
    match r {
        Err(ApiError::Business(m)) => assert_eq!(m, "a: b c: d"),
        _ => panic!("expected the vendor-reported failure"),
    }
}

#[test]
fn first_matching_option_wins() {
    let body = "{\"ProductDownloadOptions\":[\
                {\"Uri\":\"https://x/arm.iso\",\"DownloadType\":2},\
                {\"Uri\":\"https://x/a.iso\",\"DownloadType\":1},\
                {\"Uri\":\"https://x/b.iso\",\"DownloadType\":1}],\
                \"DownloadExpirationDateTime\":\"2024-01-01T00:00:00Z\"}";
    let (url, ts) = resolve_download_from_body(body, "x86_64").unwrap();
    assert_eq!(url, "https://x/a.iso");
    assert_eq!(ts, 1704067200);
}

#[test]
fn out_of_table_index_alone_yields_no_matching_arch() {
    let body = "{\"ProductDownloadOptions\":[{\"Uri\":\"https://x/y.iso\",\"DownloadType\":7}]}";
    let r = resolve_download_from_body(body, "x86_64");
    assert!(matches!(r, Err(ApiError::NoMatchingArch)));
}

#[test]
fn unused_zero_index_is_never_x86_64() {
    let body = "{\"ProductDownloadOptions\":[{\"Uri\":\"https://x/y.iso\",\"DownloadType\":0}]}";
    let r = resolve_download_from_body(body, "x86_64");
    assert!(matches!(r, Err(ApiError::NoMatchingArch)));
    let ok = resolve_download_from_body(body, "i686-UNUSED").unwrap();
    assert_eq!(ok.0, "https://x/y.iso");
}

#[test]
fn malformed_body_is_a_deserialize_failure() {
    assert!(matches!(resolve_download_from_body("not json", "x86_64"), Err(ApiError::Deserialize)));
    assert!(matches!(resolve_download_from_body("[1,2]", "x86_64"), Err(ApiError::Deserialize)));
    let bad_option = "{\"ProductDownloadOptions\":[{\"Uri\":42,\"DownloadType\":1}]}";
    assert!(matches!(resolve_download_from_body(bad_option, "x86_64"), Err(ApiError::Deserialize)));
    let bad_date = "{\"ProductDownloadOptions\":[{\"Uri\":\"u\",\"DownloadType\":1}],\
                    \"DownloadExpirationDateTime\":\"yesterday\"}";
    assert!(matches!(resolve_download_from_body(bad_date, "x86_64"), Err(ApiError::Deserialize)));
}

#[test]
fn missing_expiration_reads_as_epoch() {
    let body = "{\"ProductDownloadOptions\":[{\"Uri\":\"https://x/y.iso\",\"DownloadType\":2}]}";
    let (url, ts) = resolve_download_from_body(body, "aarch64").unwrap();
    assert_eq!(url, "https://x/y.iso");
    assert_eq!(ts, 0);
}

#[test]
fn expiration_with_offset_is_converted() {
    let body = "{\"ProductDownloadOptions\":[{\"Uri\":\"u\",\"DownloadType\":1}],\
                \"DownloadExpirationDateTime\":\"2024-01-01T01:00:00+01:00\"}";
    let (_, ts) = resolve_download_from_body(body, "x86_64").unwrap();
    assert_eq!(ts, 1704067200);
}

#[test]
fn filename_is_last_path_segment() {
    assert_eq!(filename_from_path("/files/a/Win11_24H2_English_x64.iso").unwrap(),
               "Win11_24H2_English_x64.iso");
    assert_eq!(filename_from_path("/").unwrap(), "");
    assert_eq!(filename_from_path("/dir/").unwrap(), "");
}

#[test]
fn path_without_slash_has_no_filename() {
    assert!(matches!(filename_from_path("plain"), Err(ScrapeError::NoFilename)));
    assert!(matches!(filename_from_path(""), Err(ScrapeError::NoFilename)));
}

#[test]
fn api_error_messages() {
    assert_eq!(ApiError::NoMatchingArch.message(), "Could not find any valid download option");
    assert_eq!(ApiError::Business("k: v".to_string()).message(), "k: v");
    assert_eq!(ScrapeError::NoEditionId.message(),
               "Failed to parse product edition ID from response");
}
