//! Interpretation of the vendor's download-link responses: the fixed
//! architecture table, the vendor error list, and the choice of a download
//! option for a requested architecture.

use vstd::prelude::*;

use crate::error::ApiError;
use crate::error::ScrapeError;
use crate::text::str_eq;

verus! {

/// The vendor encodes a target architecture as an index into a fixed,
/// ordered three-entry table; indices outside the table map to nothing.
pub open spec fn spec_arch_label(t: int) -> Option<Seq<char>> {
    if t == 0 {
        Some("i686-UNUSED"@)
    } else if t == 1 {
        Some("x86_64"@)
    } else if t == 2 {
        Some("aarch64"@)
    } else {
        None
    }
}

/// Architecture label for a vendor download-type index.
pub fn arch_label(t: u64) -> (r: Option<&'static str>)
    ensures
        match r {
            Some(s) => spec_arch_label(t as int) == Some(s@),
            None => spec_arch_label(t as int) is None,
        },
{
    if t == 0 {
        Some("i686-UNUSED")
    } else if t == 1 {
        Some("x86_64")
    } else if t == 2 {
        Some("aarch64")
    } else {
        None
    }
}

/// One entry of the response's download-option list.
pub struct DownloadOption {
    pub uri: String,
    pub download_type: u64,
}

/// One entry of the response's error list.
pub struct VendorError {
    pub key: String,
    pub value: String,
}

/// A download-links response, reduced to the values the resolution reads:
/// the option list, the vendor error list, and the expiration as a Unix
/// timestamp (zero when the response carries no expiration).
pub struct DownloadLinksResponse {
    pub options: Vec<DownloadOption>,
    pub errors: Vec<VendorError>,
    pub expiration_ts: i64,
}

pub open spec fn options_view(s: Seq<DownloadOption>) -> Seq<(Seq<char>, u64)> {
    s.map_values(|o: DownloadOption| (o.uri@, o.download_type))
}

pub open spec fn errors_view(s: Seq<VendorError>) -> Seq<(Seq<char>, Seq<char>)> {
    s.map_values(|e: VendorError| (e.key@, e.value@))
}

/// `"key: value"` for one vendor error.
pub open spec fn spec_error_line(e: (Seq<char>, Seq<char>)) -> Seq<char> {
    e.0 + ": "@ + e.1
}

pub open spec fn join_errors_from(errs: Seq<(Seq<char>, Seq<char>)>, i: int) -> Seq<char>
    decreases errs.len() - i,
{
    if i < 0 || i >= errs.len() {
        Seq::empty()
    } else if i == errs.len() - 1 {
        spec_error_line(errs[i])
    } else {
        spec_error_line(errs[i]) + " "@ + join_errors_from(errs, i + 1)
    }
}

/// The vendor's error list joined into one message: the `"key: value"`
/// lines in list order, separated by single spaces.
pub open spec fn spec_join_errors(errs: Seq<(Seq<char>, Seq<char>)>) -> Seq<char> {
    join_errors_from(errs, 0)
}

fn error_line(e: &VendorError) -> (r: String)
    ensures
        r@ == spec_error_line((e.key@, e.value@)),
{
    let mut s = e.key.clone();
    s.append(": ");
    s.append(e.value.as_str());
    assert(s@ =~= e.key@ + ": "@ + e.value@);
    s
}

/// The vendor error list joined into one message, in list order.
pub fn join_errors(errs: &Vec<VendorError>) -> (r: String)
    ensures
        r@ == spec_join_errors(errors_view(errs@)),
{
    let ghost ev = errors_view(errs@);
    let mut acc = String::new();
    let mut i = errs.len();
    while i > 0
        invariant
            i <= errs.len(),
            ev == errors_view(errs@),
            acc@ == join_errors_from(ev, i as int),
        decreases i,
    {
        i -= 1;
        assert(ev[i as int] == (errs@[i as int].key@, errs@[i as int].value@));
        let mut m = error_line(&errs[i]);
        if i + 1 < errs.len() {
            m.append(" ");
            m.append(acc.as_str());
            assert(m@ =~= spec_error_line(ev[i as int]) + " "@ + join_errors_from(ev, i + 1));
        }
        acc = m;
    }
    acc
}

pub open spec fn first_match_from(opts: Seq<(Seq<char>, u64)>, arch: Seq<char>, i: int) -> Option<
    Seq<char>,
>
    decreases opts.len() - i,
{
    if i < 0 || i >= opts.len() {
        None
    } else if spec_arch_label(opts[i].1 as int) == Some(arch) {
        Some(opts[i].0)
    } else {
        first_match_from(opts, arch, i + 1)
    }
}

/// URI of the first download option whose download-type index maps to the
/// requested architecture label, if any.
pub open spec fn spec_first_match(opts: Seq<(Seq<char>, u64)>, arch: Seq<char>) -> Option<
    Seq<char>,
> {
    first_match_from(opts, arch, 0)
}

/// The outcome a download-links response decides, for a requested
/// architecture. A non-empty vendor error list always yields the
/// vendor-reported failure, with the joined message, and never a URL; an
/// empty error list yields the first option that maps to the requested
/// architecture, together with the response's expiration, or the
/// no-matching-architecture failure when none maps.
pub fn resolve_download(resp: &DownloadLinksResponse, arch: &str) -> (r: Result<
    (String, i64),
    ApiError,
>)
    ensures
        resp.errors@.len() > 0 ==> (r matches Err(ApiError::Business(m)) && m@ == spec_join_errors(
            errors_view(resp.errors@),
        )),
        resp.errors@.len() == 0 ==> match r {
            Ok(p) => spec_first_match(options_view(resp.options@), arch@) == Some(p.0@) && p.1
                == resp.expiration_ts,
            Err(e) => (e matches ApiError::NoMatchingArch) && spec_first_match(
                options_view(resp.options@),
                arch@,
            ) is None,
        },
{
    if resp.errors.len() > 0 {
        return Err(ApiError::Business(join_errors(&resp.errors)));
    }
    let ghost ov = options_view(resp.options@);
    let mut i: usize = 0;
    while i < resp.options.len()
        invariant
            i <= resp.options.len(),
            resp.errors@.len() == 0,
            ov == options_view(resp.options@),
            first_match_from(ov, arch@, 0) == first_match_from(ov, arch@, i as int),
        decreases resp.options.len() - i,
    {
        let o = &resp.options[i];
        assert(ov[i as int] == (o.uri@, o.download_type));
        let hit = match arch_label(o.download_type) {
            Some(s) => str_eq(s, arch),
            None => false,
        };
        if hit {
            return Ok((o.uri.clone(), resp.expiration_ts));
        }
        assert(first_match_from(ov, arch@, i as int) == first_match_from(ov, arch@, i + 1));
        i += 1;
    }
    Err(ApiError::NoMatchingArch)
}

/// What follows the last `/` of a path, if the path holds one.
pub open spec fn spec_after_last_slash(p: Seq<char>) -> Option<Seq<char>>
    decreases p.len(),
{
    if p.len() == 0 {
        None
    } else if p[p.len() - 1] == '/' {
        Some(Seq::empty())
    } else {
        match spec_after_last_slash(p.drop_last()) {
            None => None,
            Some(s) => Some(s.push(p[p.len() - 1])),
        }
    }
}

proof fn lemma_after_last_slash_found(p: Seq<char>, i: int)
    requires
        1 <= i <= p.len(),
        p[i - 1] == '/',
        forall|k: int| i <= k < p.len() ==> p[k] != '/',
    ensures
        spec_after_last_slash(p) == Some(p.subrange(i, p.len() as int)),
    decreases p.len() - i,
{
    if i == p.len() {
        assert(p.subrange(i, p.len() as int) =~= Seq::empty());
    } else {
        lemma_after_last_slash_found(p.drop_last(), i);
        assert(p.subrange(i, p.len() as int) =~= p.drop_last().subrange(i, p.len() - 1).push(
            p[p.len() - 1],
        ));
    }
}

proof fn lemma_after_last_slash_none(p: Seq<char>)
    requires
        forall|k: int| 0 <= k < p.len() ==> p[k] != '/',
    ensures
        spec_after_last_slash(p) is None,
    decreases p.len(),
{
    if p.len() > 0 {
        lemma_after_last_slash_none(p.drop_last());
    }
}

/// Filename taken from a URL path: what follows the path's last `/`. A
/// path without a `/` yields the no-filename failure.
pub fn filename_from_path(path: &str) -> (r: Result<String, ScrapeError>)
    ensures
        match r {
            Ok(f) => spec_after_last_slash(path@) == Some(f@),
            Err(e) => e == ScrapeError::NoFilename && spec_after_last_slash(path@) is None,
        },
{
    let n = path.unicode_len();
    let mut i = n;
    while i > 0
        invariant
            i <= n,
            n == path@.len(),
            forall|k: int| i <= k < n ==> path@[k] != '/',
        decreases i,
    {
        let c = path.get_char(i - 1);
        if c == '/' {
            let f = path.substring_char(i, n).to_owned();
            proof {
                lemma_after_last_slash_found(path@, i as int);
            }
            return Ok(f);
        }
        i -= 1;
    }
    proof {
        lemma_after_last_slash_none(path@);
    }
    Err(ScrapeError::NoFilename)
}

} // verus!
