//! Error taxonomy of the resolution pipeline.

use vstd::prelude::*;

verus! {

/// An expected pattern was absent: no edition id in the product page, or no
/// final path segment to take a filename from.
#[derive(Clone, Copy, PartialEq, Eq, Structural, Debug)]
pub enum ScrapeError {
    NoEditionId,
    NoFilename,
}

pub open spec fn spec_scrape_message(e: ScrapeError) -> Seq<char> {
    match e {
        ScrapeError::NoEditionId => "Failed to parse product edition ID from response"@,
        ScrapeError::NoFilename => "Final URL somehow has no path"@,
    }
}

impl ScrapeError {
    /// Human-readable description, for the caller's diagnostics.
    pub fn message(&self) -> (r: String)
        ensures
            r@ == spec_scrape_message(*self),
    {
        match self {
            ScrapeError::NoEditionId => "Failed to parse product edition ID from response".to_owned(),
            ScrapeError::NoFilename => "Final URL somehow has no path".to_owned(),
        }
    }
}

/// Failure of a vendor API exchange. `Business` carries the vendor's own
/// error list, already joined into one message.
#[derive(Debug)]
pub enum ApiError {
    Transport,
    Deserialize,
    Business(String),
    NoMatchingArch,
}

pub open spec fn spec_api_message(e: ApiError) -> Seq<char> {
    match e {
        ApiError::Transport => "Could not send request"@,
        ApiError::Deserialize => "Failed to deserialize download options"@,
        ApiError::Business(m) => m@,
        ApiError::NoMatchingArch => "Could not find any valid download option"@,
    }
}

impl ApiError {
    /// Human-readable description; for a vendor-reported error it is the
    /// joined error list itself.
    pub fn message(&self) -> (r: String)
        ensures
            r@ == spec_api_message(*self),
    {
        match self {
            ApiError::Transport => "Could not send request".to_owned(),
            ApiError::Deserialize => "Failed to deserialize download options".to_owned(),
            ApiError::Business(m) => m.clone(),
            ApiError::NoMatchingArch => "Could not find any valid download option".to_owned(),
        }
    }
}

/// Failure of one target's end-to-end resolution, as far as it is decided
/// by response contents rather than transport.
#[derive(Debug)]
pub enum ResolveError {
    Scrape(ScrapeError),
    Api(ApiError),
}

pub open spec fn spec_resolve_message(e: ResolveError) -> Seq<char> {
    match e {
        ResolveError::Scrape(s) => spec_scrape_message(s),
        ResolveError::Api(a) => spec_api_message(a),
    }
}

impl ResolveError {
    /// Human-readable description of the failed stage.
    pub fn message(&self) -> (r: String)
        ensures
            r@ == spec_resolve_message(*self),
    {
        match self {
            ResolveError::Scrape(s) => s.message(),
            ResolveError::Api(a) => a.message(),
        }
    }
}

} // verus!
