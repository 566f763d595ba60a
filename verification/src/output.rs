//! Assembly of the single-resolution output record: a discriminated
//! success/failure value, its metadata, and the record's expiration.

use vstd::prelude::*;

verus! {

/// Seconds in the one-day grace period a failed resolution is recorded
/// for.
pub const FAILURE_TTL_SECONDS: i64 = 86400;

/// Discriminated outcome carried by the output record.
pub enum OutputValue {
    Success { url: String },
    Failure { error: String },
}

/// Descriptive fields stored beside the outcome.
pub struct OutputMetadata {
    pub release: String,
    pub arch: String,
    pub edition: String,
    pub filename: Option<String>,
    pub checksum: Option<String>,
    pub error: Option<String>,
}

/// The full output record of one resolution.
pub struct Output {
    pub key: String,
    pub value: OutputValue,
    pub metadata: OutputMetadata,
    pub expiration: i64,
}

/// What one resolution attempt came to: a signed URL with its filename and
/// expiration, or an error message.
pub enum ResolutionOutcome {
    Resolved { url: String, filename: String, expiration_ts: i64 },
    Failed { error: String },
}

/// The output record of one resolution. A resolved outcome is recorded as
/// the success value with the response's expiration; a failed one as the
/// failure value carrying the error message, expiring one day after `now`.
/// The record's key is the SKU id under the product prefix.
pub fn resolution_output(
    release: String,
    arch: String,
    language: String,
    checksum: Option<String>,
    sku: &str,
    outcome: ResolutionOutcome,
    now_ts: i64,
) -> (o: Output)
    requires
        now_ts <= i64::MAX - FAILURE_TTL_SECONDS,
    ensures
        o.key@ == "windows-"@ + sku@,
        o.metadata.release == release,
        o.metadata.arch == arch,
        o.metadata.edition == language,
        match outcome {
            ResolutionOutcome::Resolved { url, filename, expiration_ts } => ({
                &&& o.value matches OutputValue::Success { url: u } && u == url
                &&& o.expiration == expiration_ts
                &&& o.metadata.filename == Some(filename)
                &&& o.metadata.checksum == checksum
                &&& o.metadata.error is None
            }),
            ResolutionOutcome::Failed { error } => ({
                &&& o.value matches OutputValue::Failure { error: m } && m == error
                &&& o.expiration == now_ts + FAILURE_TTL_SECONDS
                &&& o.metadata.filename is None
                &&& o.metadata.checksum is None
                &&& o.metadata.error == Some(error)
            }),
        },
{
    let mut key = "windows-".to_owned();
    key.append(sku);
    match outcome {
        ResolutionOutcome::Resolved { url, filename, expiration_ts } => Output {
            key,
            value: OutputValue::Success { url },
            metadata: OutputMetadata {
                release,
                arch,
                edition: language,
                filename: Some(filename),
                checksum,
                error: None,
            },
            expiration: expiration_ts,
        },
        ResolutionOutcome::Failed { error } => Output {
            key,
            value: OutputValue::Failure { error: error.clone() },
            metadata: OutputMetadata {
                release,
                arch,
                edition: language,
                filename: None,
                checksum: None,
                error: Some(error),
            },
            expiration: now_ts + FAILURE_TTL_SECONDS,
        },
    }
}

} // verus!
