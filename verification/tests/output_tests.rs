use iso_matrix::download_links_url;
use iso_matrix::new_permit;
use iso_matrix::permit_url;
use iso_matrix::resolution_output;
use iso_matrix::sku_info_url;
use iso_matrix::OutputValue;
use iso_matrix::ResolutionOutcome;

#[test]
fn permit_url_is_exact() {
    assert_eq!(
        permit_url("abc"),
        "https://vlscppe.microsoft.com/tags?org_id=y6jn8c31&session_id=abc"
    );
}

#[test]
fn sku_info_url_is_exact() {
    assert_eq!(
        sku_info_url("2143", "sid"),
        "https://www.microsoft.com/software-download-connector/api/getskuinformationbyproductedition\
         ?profile=606624d44113&ProductEditionId=2143&SKU=undefined&friendlyFileName=undefined\
         &Locale=en-US&sessionID=sid"
    );
}

#[test]
fn download_links_url_is_exact() {
    assert_eq!(
        download_links_url("abc", "sid"),
        "https://www.microsoft.com/software-download-connector/api/GetProductDownloadLinksBySku\
         ?profile=606624d44113&productEditionId=undefined&SKU=abc&friendlyFileName=undefined\
         &Locale=en-US&sessionID=sid"
    );
}

#[test]
fn permit_builds_fresh_session() {
    let (sid1, url1) = new_permit();
    let (sid2, _) = new_permit();
    assert_eq!(sid1.chars().count(), 36);
    assert_ne!(sid1, sid2);
    assert_eq!(url1, permit_url(&sid1));
}

#[test]
fn resolved_outcome_becomes_success_record() {
    let o = resolution_output(
        "11".to_string(),
        "x86_64".to_string(),
        "English".to_string(),
        Some("ABCD".repeat(16)),
        "abc",
        ResolutionOutcome::Resolved {
            url: "https://dl/x.iso".to_string(),
            filename: "x.iso".to_string(),
            expiration_ts: 1704067200,
        },
        1700000000,
    );
    assert_eq!(o.key, "windows-abc");
    assert_eq!(o.expiration, 1704067200);
    match o.value {
        OutputValue::Success { url } => assert_eq!(url, "https://dl/x.iso"),
        _ => panic!("expected success"),
    }
    assert_eq!(o.metadata.release, "11");
    assert_eq!(o.metadata.arch, "x86_64");
    assert_eq!(o.metadata.edition, "English");
    assert_eq!(o.metadata.filename, Some("x.iso".to_string()));
    assert_eq!(o.metadata.checksum, Some("ABCD".repeat(16)));
    assert_eq!(o.metadata.error, None);
}

#[test]
fn failed_outcome_expires_one_day_after_now() {
    let o = resolution_output(
        "11".to_string(),
        "x86_64".to_string(),
        "English".to_string(),
        None,
        "abc",
        ResolutionOutcome::Failed { error: "Error retrieving SKU: Sku invalid".to_string() },
        1700000000,
    );
    assert_eq!(o.key, "windows-abc");
    assert_eq!(o.expiration, 1700000000 + 86400);
    match o.value {
        OutputValue::Failure { error } => assert_eq!(error, "Error retrieving SKU: Sku invalid"),
        _ => panic!("expected failure"),
    }
    assert_eq!(o.metadata.filename, None);
    assert_eq!(o.metadata.checksum, None);
    assert_eq!(o.metadata.error, Some("Error retrieving SKU: Sku invalid".to_string()));
}
