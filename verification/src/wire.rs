//! Reading of the vendor's JSON response bodies. The JSON grammar itself is
//! the work of an outside parser; each body's parse result is named, and
//! everything decided from it is verified against those names.

use vstd::prelude::*;

use crate::error::ApiError;
use crate::links::errors_view;
use crate::links::options_view;
use crate::links::resolve_download;
use crate::links::spec_first_match;
use crate::links::spec_join_errors;
use crate::links::DownloadLinksResponse;
use crate::links::DownloadOption;
use crate::links::VendorError;
use crate::text::pairs_view;

verus! {

/// The `(Id, Language)` pairs of a SKU-information body's `Skus` array;
/// nothing when the body does not parse as such a response.
pub uninterp spec fn sku_pairs_of(body: Seq<char>) -> Option<Seq<(Seq<char>, Seq<char>)>>;

/// The `(Uri, DownloadType)` pairs of a download-links body's
/// `ProductDownloadOptions` list (empty when the field is absent); nothing
/// when the body does not parse as such a response.
pub uninterp spec fn links_options_of(body: Seq<char>) -> Option<Seq<(Seq<char>, u64)>>;

/// The `(Key, Value)` pairs of a download-links body's `Errors` list
/// (empty when the field is absent); nothing when the body does not parse.
pub uninterp spec fn links_errors_of(body: Seq<char>) -> Option<Seq<(Seq<char>, Seq<char>)>>;

/// The `DownloadExpirationDateTime` string of a download-links body, with
/// the inner option empty when the field is absent; nothing when the body
/// does not parse.
pub uninterp spec fn links_expiration_of(body: Seq<char>) -> Option<Option<Seq<char>>>;

/// Unix timestamp denoted by an RFC 3339 date-time string; nothing when
/// the string is not one.
pub uninterp spec fn rfc3339_timestamp_of(s: Seq<char>) -> Option<int>;

/// Relies on serde_json::from_str and serde_json::Value's accessors: the
/// `Skus` array's `Id` and `Language` string fields, in array order. The
/// result depends on the body text alone.
#[verifier::external_body]
fn parse_sku_pairs(body: &str) -> (r: Option<Vec<(String, String)>>)
    ensures
        match r {
            Some(v) => sku_pairs_of(body@) == Some(pairs_view(v@)),
            None => sku_pairs_of(body@) is None,
        },
{
    let v: serde_json::Value = serde_json::from_str(body).ok()?;
    let arr = v.get("Skus")?.as_array()?;
    arr.iter().map(
        |e| Some((e.get("Id")?.as_str()?.to_string(), e.get("Language")?.as_str()?.to_string())),
    ).collect()
}

/// Relies on serde_json::from_str and serde_json::Value's accessors: the
/// `ProductDownloadOptions` list's `Uri` and `DownloadType` fields, in
/// list order, an absent list reading as empty. The result depends on the
/// body text alone.
#[verifier::external_body]
fn parse_links_options(body: &str) -> (r: Option<Vec<(String, u64)>>)
    ensures
        match r {
            Some(v) => links_options_of(body@) == Some(
                v@.map_values(|p: (String, u64)| (p.0@, p.1)),
            ),
            None => links_options_of(body@) is None,
        },
{
    let v: serde_json::Value = serde_json::from_str(body).ok()?;
    match v.get("ProductDownloadOptions") {
        None => if v.is_object() {
            Some(Vec::new())
        } else {
            None
        },
        Some(x) => x.as_array()?.iter().map(
            |e| Some((e.get("Uri")?.as_str()?.to_string(), e.get("DownloadType")?.as_u64()?)),
        ).collect(),
    }
}

/// Relies on serde_json::from_str and serde_json::Value's accessors: the
/// `Errors` list's `Key` and `Value` string fields, in list order, an
/// absent list reading as empty. The result depends on the body text
/// alone.
#[verifier::external_body]
fn parse_links_errors(body: &str) -> (r: Option<Vec<(String, String)>>)
    ensures
        match r {
            Some(v) => links_errors_of(body@) == Some(pairs_view(v@)),
            None => links_errors_of(body@) is None,
        },
{
    let v: serde_json::Value = serde_json::from_str(body).ok()?;
    match v.get("Errors") {
        None => if v.is_object() {
            Some(Vec::new())
        } else {
            None
        },
        Some(x) => x.as_array()?.iter().map(
            |e| Some((e.get("Key")?.as_str()?.to_string(), e.get("Value")?.as_str()?.to_string())),
        ).collect(),
    }
}

/// Relies on serde_json::from_str and serde_json::Value's accessors: the
/// `DownloadExpirationDateTime` string field, absent or present. The
/// result depends on the body text alone.
#[verifier::external_body]
fn parse_links_expiration(body: &str) -> (r: Option<Option<String>>)
    ensures
        match r {
            Some(Some(s)) => links_expiration_of(body@) == Some(Some(s@)),
            Some(None::<String>) => links_expiration_of(body@) == Some(None::<Seq<char>>),
            None => links_expiration_of(body@) is None,
        },
{
    let v: serde_json::Value = serde_json::from_str(body).ok()?;
    match v.get("DownloadExpirationDateTime") {
        None => if v.is_object() {
            Some(None)
        } else {
            None
        },
        Some(x) => Some(Some(x.as_str()?.to_string())),
    }
}

/// Relies on chrono::DateTime::parse_from_rfc3339 and
/// chrono::DateTime::timestamp: the Unix timestamp of an RFC 3339 string.
/// The result depends on the string alone.
#[verifier::external_body]
fn parse_rfc3339(s: &str) -> (r: Option<i64>)
    ensures
        match r {
            Some(t) => rfc3339_timestamp_of(s@) == Some(t as int),
            None => rfc3339_timestamp_of(s@) is None,
        },
{
    match chrono::DateTime::parse_from_rfc3339(s) {
        Ok(d) => Some(d.timestamp()),
        Err(_) => None,
    }
}

/// One language variant of a product edition, as the SKU API returns it.
pub struct Sku {
    pub id: String,
    pub language: String,
}

pub open spec fn skus_view(s: Seq<Sku>) -> Seq<(Seq<char>, Seq<char>)> {
    s.map_values(|k: Sku| (k.id@, k.language@))
}

/// SKUs read from a SKU-information response body. The SKU list is
/// returned exactly when the body parses as such a response; otherwise the
/// deserialization failure is.
pub fn parse_sku_response(body: &str) -> (r: Result<Vec<Sku>, ApiError>)
    ensures
        match r {
            Ok(skus) => sku_pairs_of(body@) == Some(skus_view(skus@)),
            Err(e) => (e matches ApiError::Deserialize) && sku_pairs_of(body@) is None,
        },
{
    let pairs = match parse_sku_pairs(body) {
        Some(p) => p,
        None => {
            return Err(ApiError::Deserialize);
        },
    };
    let mut skus: Vec<Sku> = Vec::new();
    let mut i: usize = 0;
    while i < pairs.len()
        invariant
            i <= pairs.len(),
            skus@.len() == i,
            forall|k: int|
                0 <= k < i ==> (#[trigger] skus@[k]).id@ == pairs@[k].0@ && skus@[k].language@
                    == pairs@[k].1@,
        decreases pairs.len() - i,
    {
        let id = pairs[i].0.clone();
        let language = pairs[i].1.clone();
        skus.push(Sku { id, language });
        i += 1;
    }
    proof {
        assert(skus_view(skus@) =~= pairs_view(pairs@));
    }
    Ok(skus)
}

/// The expiration timestamp a download-links body denotes: zero when the
/// body carries no expiration field, else the timestamp of its RFC 3339
/// string; nothing when the body or the string does not parse.
pub open spec fn spec_expiration_ts(body: Seq<char>) -> Option<int> {
    match links_expiration_of(body) {
        None => None,
        Some(None) => Some(0),
        Some(Some(s)) => rfc3339_timestamp_of(s),
    }
}

/// The body fails to parse as a download-links response.
pub open spec fn spec_links_parse_fails(body: Seq<char>) -> bool {
    ||| links_options_of(body) is None
    ||| links_errors_of(body) is None
    ||| spec_expiration_ts(body) is None
}

/// A download-links response read from a body. The three parts are
/// returned exactly when the body parses; otherwise the deserialization
/// failure is.
pub fn parse_download_response(body: &str) -> (r: Result<DownloadLinksResponse, ApiError>)
    ensures
        match r {
            Ok(resp) => ({
                &&& links_options_of(body@) == Some(options_view(resp.options@))
                &&& links_errors_of(body@) == Some(errors_view(resp.errors@))
                &&& spec_expiration_ts(body@) == Some(resp.expiration_ts as int)
            }),
            Err(e) => (e matches ApiError::Deserialize) && spec_links_parse_fails(body@),
        },
{
    let raw_options = match parse_links_options(body) {
        Some(v) => v,
        None => {
            return Err(ApiError::Deserialize);
        },
    };
    let raw_errors = match parse_links_errors(body) {
        Some(v) => v,
        None => {
            return Err(ApiError::Deserialize);
        },
    };
    let expiration_ts: i64 = match parse_links_expiration(body) {
        None => {
            return Err(ApiError::Deserialize);
        },
        Some(None) => 0,
        Some(Some(s)) => match parse_rfc3339(s.as_str()) {
            Some(t) => t,
            None => {
                return Err(ApiError::Deserialize);
            },
        },
    };
    let mut options: Vec<DownloadOption> = Vec::new();
    let mut i: usize = 0;
    while i < raw_options.len()
        invariant
            i <= raw_options.len(),
            options@.len() == i,
            forall|k: int|
                0 <= k < i ==> (#[trigger] options@[k]).uri@ == raw_options@[k].0@
                    && options@[k].download_type == raw_options@[k].1,
        decreases raw_options.len() - i,
    {
        let uri = raw_options[i].0.clone();
        let download_type = raw_options[i].1;
        options.push(DownloadOption { uri, download_type });
        i += 1;
    }
    let mut errors: Vec<VendorError> = Vec::new();
    let mut j: usize = 0;
    while j < raw_errors.len()
        invariant
            j <= raw_errors.len(),
            errors@.len() == j,
            forall|k: int|
                0 <= k < j ==> (#[trigger] errors@[k]).key@ == raw_errors@[k].0@
                    && errors@[k].value@ == raw_errors@[k].1@,
        decreases raw_errors.len() - j,
    {
        let key = raw_errors[j].0.clone();
        let value = raw_errors[j].1.clone();
        errors.push(VendorError { key, value });
        j += 1;
    }
    proof {
        assert(options_view(options@) =~= raw_options@.map_values(
            |p: (String, u64)| (p.0@, p.1),
        ));
        assert(errors_view(errors@) =~= pairs_view(raw_errors@));
    }
    Ok(DownloadLinksResponse { options, errors, expiration_ts })
}

/// The URL and expiration a download-links body decides for a requested
/// architecture: the deserialization failure when the body does not parse;
/// else the vendor-reported failure, carrying the joined error list, when
/// that list is non-empty; else the first option that maps to the
/// requested architecture, or the no-matching-architecture failure when
/// none does. The outcome is a function of the body and the architecture
/// alone.
pub fn resolve_download_from_body(body: &str, arch: &str) -> (r: Result<(String, i64), ApiError>)
    ensures
        match r {
            Ok(p) => ({
                &&& !spec_links_parse_fails(body@)
                &&& links_errors_of(body@) == Some(Seq::<(Seq<char>, Seq<char>)>::empty())
                &&& (links_options_of(body@) matches Some(opts) && spec_first_match(opts, arch@)
                    == Some(p.0@))
                &&& spec_expiration_ts(body@) == Some(p.1 as int)
            }),
            Err(e) => match e {
                ApiError::Deserialize => spec_links_parse_fails(body@),
                ApiError::Business(m) => ({
                    &&& !spec_links_parse_fails(body@)
                    &&& (links_errors_of(body@) matches Some(errs) && errs.len() > 0 && m@
                        == spec_join_errors(errs))
                }),
                ApiError::NoMatchingArch => ({
                    &&& !spec_links_parse_fails(body@)
                    &&& links_errors_of(body@) == Some(Seq::<(Seq<char>, Seq<char>)>::empty())
                    &&& (links_options_of(body@) matches Some(opts) && spec_first_match(
                        opts,
                        arch@,
                    ) is None)
                }),
                ApiError::Transport => false,
            },
        },
{
    let resp = match parse_download_response(body) {
        Ok(x) => x,
        Err(e) => {
            return Err(e);
        },
    };
    proof {
        if resp.errors@.len() == 0 {
            assert(errors_view(resp.errors@) =~= Seq::<(Seq<char>, Seq<char>)>::empty());
        }
    }
    resolve_download(&resp, arch)
}

} // verus!
