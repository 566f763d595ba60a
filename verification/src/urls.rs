//! Construction of the vendor endpoints' request URLs, and the session
//! identifier they carry.

use vstd::prelude::*;

verus! {

/// Prefix of the anti-automation gate URL; the session identifier follows.
pub open spec fn spec_permit_prefix() -> Seq<char> {
    "https://vlscppe.microsoft.com/tags?org_id=y6jn8c31&session_id="@
}

/// Address of the permit endpoint for a session identifier.
pub fn permit_url(session_id: &str) -> (r: String)
    ensures
        r@ == spec_permit_prefix() + session_id@,
{
    let mut s = "https://vlscppe.microsoft.com/tags?org_id=y6jn8c31&session_id=".to_owned();
    s.append(session_id);
    s
}

/// The SKU-information URL for a product edition id and session.
pub open spec fn spec_sku_info_url(edition_id: Seq<char>, session_id: Seq<char>) -> Seq<char> {
    "https://www.microsoft.com/software-download-connector/api/getskuinformationbyproductedition?profile=606624d44113&ProductEditionId="@
        + edition_id + "&SKU=undefined&friendlyFileName=undefined&Locale=en-US&sessionID="@
        + session_id
}

pub fn sku_info_url(edition_id: &str, session_id: &str) -> (r: String)
    ensures
        r@ == spec_sku_info_url(edition_id@, session_id@),
{
    let mut s =
        "https://www.microsoft.com/software-download-connector/api/getskuinformationbyproductedition?profile=606624d44113&ProductEditionId=".to_owned();
    s.append(edition_id);
    s.append("&SKU=undefined&friendlyFileName=undefined&Locale=en-US&sessionID=");
    s.append(session_id);
    s
}

/// The download-links URL for a SKU id and session.
pub open spec fn spec_download_links_url(sku: Seq<char>, session_id: Seq<char>) -> Seq<char> {
    "https://www.microsoft.com/software-download-connector/api/GetProductDownloadLinksBySku?profile=606624d44113&productEditionId=undefined&SKU="@
        + sku + "&friendlyFileName=undefined&Locale=en-US&sessionID="@
        + session_id
}

pub fn download_links_url(sku: &str, session_id: &str) -> (r: String)
    ensures
        r@ == spec_download_links_url(sku@, session_id@),
{
    let mut s =
        "https://www.microsoft.com/software-download-connector/api/GetProductDownloadLinksBySku?profile=606624d44113&productEditionId=undefined&SKU=".to_owned();
    s.append(sku);
    s.append("&friendlyFileName=undefined&Locale=en-US&sessionID=");
    s.append(session_id);
    s
}

/// Relies on uuid::Uuid::new_v4 and its hyphenated rendering: a fresh
/// random identifier formatted as 36 characters. Nothing else holds of the
/// value: two calls may differ.
#[verifier::external_body]
fn new_session_id() -> (r: String)
    ensures
        r@.len() == 36,
{
    uuid::Uuid::new_v4().to_string()
}

/// A fresh session identifier and the address that permits it. The caller
/// sends one GET there before any other call of the same resolution; the
/// response body is discarded.
pub fn new_permit() -> (r: (String, String))
    ensures
        r.0@.len() == 36,
        r.1@ == spec_permit_prefix() + r.0@,
{
    let sid = new_session_id();
    let url = permit_url(sid.as_str());
    (sid, url)
}

} // verus!
