//! The output matrix: one row per (release, architecture, SKU), each SKU
//! joined against the product page's checksum mapping by language label.
//! The join drains the mapping, so a checksum is handed to at most one SKU.

use vstd::prelude::*;

use crate::checksums::lemma_find_key_from;
use crate::checksums::lemma_remove_keys;
use crate::checksums::spec_claim;
use crate::checksums::spec_find_key;
use crate::checksums::spec_has_key;
use crate::checksums::wf_keys;
use crate::checksums::spec_build_map;
use crate::checksums::ChecksumMap;
use crate::error::ApiError;
use crate::error::ResolveError;
use crate::error::ScrapeError;
use crate::scrape::scrape_product_page;
use crate::scrape::spec_checksum_rows;
use crate::scrape::spec_edition_id;
use crate::wire::parse_sku_response;
use crate::wire::sku_pairs_of;
use crate::wire::skus_view;
use crate::wire::Sku;

verus! {

/// One row of the output matrix.
pub struct MatrixEntry {
    pub release: String,
    pub arch: String,
    pub referer: String,
    pub language: String,
    pub product_edition_id: String,
    pub sku: String,
    pub checksum: Option<String>,
}

/// Mathematical image of a matrix row.
pub struct RowAbs {
    pub release: Seq<char>,
    pub arch: Seq<char>,
    pub referer: Seq<char>,
    pub language: Seq<char>,
    pub product_edition_id: Seq<char>,
    pub sku: Seq<char>,
    pub checksum: Option<Seq<char>>,
}

impl View for MatrixEntry {
    type V = RowAbs;

    open spec fn view(&self) -> RowAbs {
        RowAbs {
            release: self.release@,
            arch: self.arch@,
            referer: self.referer@,
            language: self.language@,
            product_edition_id: self.product_edition_id@,
            sku: self.sku@,
            checksum: match self.checksum {
                Some(c) => Some(c@),
                None => None,
            },
        }
    }
}

pub open spec fn rows_view(s: Seq<MatrixEntry>) -> Seq<RowAbs> {
    s.map_values(|e: MatrixEntry| e@)
}

/// The per-target values every row of the target repeats.
pub struct RowContext {
    pub release: Seq<char>,
    pub arch: Seq<char>,
    pub referer: Seq<char>,
    pub product_edition_id: Seq<char>,
}

pub open spec fn spec_row(
    ctx: RowContext,
    sku: (Seq<char>, Seq<char>),
    checksum: Option<Seq<char>>,
) -> RowAbs {
    RowAbs {
        release: ctx.release,
        arch: ctx.arch,
        referer: ctx.referer,
        language: sku.1,
        product_edition_id: ctx.product_edition_id,
        sku: sku.0,
        checksum: checksum,
    }
}

/// Rows and final mapping of the drain join, starting at SKU `i`: each SKU
/// in order claims the checksum of its language, if the mapping still
/// holds one.
pub open spec fn spec_join_rows(
    ctx: RowContext,
    skus: Seq<(Seq<char>, Seq<char>)>,
    m: Seq<(Seq<char>, Seq<char>)>,
    i: int,
) -> (Seq<RowAbs>, Seq<(Seq<char>, Seq<char>)>)
    decreases skus.len() - i,
{
    if i < 0 || i >= skus.len() {
        (Seq::empty(), m)
    } else {
        let c = spec_claim(m, skus[i].1);
        let rest = spec_join_rows(ctx, skus, c.1, i + 1);
        (seq![spec_row(ctx, skus[i], c.0)] + rest.0, rest.1)
    }
}

/// Law: checksums never add or remove rows. The drain join yields exactly
/// one row per SKU it visits, whatever the mapping holds.
pub proof fn lemma_join_rows_len(
    ctx: RowContext,
    skus: Seq<(Seq<char>, Seq<char>)>,
    m: Seq<(Seq<char>, Seq<char>)>,
    i: int,
)
    requires
        0 <= i <= skus.len(),
    ensures
        spec_join_rows(ctx, skus, m, i).0.len() == skus.len() - i,
    decreases skus.len() - i,
{
    if i < skus.len() {
        lemma_join_rows_len(ctx, skus, spec_claim(m, skus[i].1).1, i + 1);
    }
}

proof fn lemma_join_no_key(
    ctx: RowContext,
    skus: Seq<(Seq<char>, Seq<char>)>,
    m: Seq<(Seq<char>, Seq<char>)>,
    i: int,
    j: int,
    k: Seq<char>,
)
    requires
        0 <= i <= j < skus.len(),
        skus[j].1 == k,
        !spec_has_key(m, k),
    ensures
        spec_join_rows(ctx, skus, m, i).0[j - i].checksum is None,
    decreases j - i,
{
    let c = spec_claim(m, skus[i].1);
    if i == j {
        assert(c.0 is None);
    } else {
        lemma_join_rows_len(ctx, skus, c.1, i + 1);
        match spec_find_key(m, skus[i].1) {
            None => {
                lemma_join_no_key(ctx, skus, m, i + 1, j, k);
            },
            Some(x) => {
                lemma_find_key_from(m, skus[i].1, 0);
                lemma_remove_keys(m, x);
                lemma_join_no_key(ctx, skus, m.remove(x), i + 1, j, k);
            },
        }
    }
}

proof fn lemma_claimed_once_from(
    ctx: RowContext,
    skus: Seq<(Seq<char>, Seq<char>)>,
    m: Seq<(Seq<char>, Seq<char>)>,
    i: int,
    a: int,
    b: int,
)
    requires
        wf_keys(m),
        0 <= i <= a < b < skus.len(),
        skus[a].1 == skus[b].1,
    ensures
        spec_join_rows(ctx, skus, m, i).0[b - i].checksum is None,
    decreases a - i,
{
    let k = skus[b].1;
    let c = spec_claim(m, skus[i].1);
    lemma_join_rows_len(ctx, skus, c.1, i + 1);
    lemma_find_key_from(m, skus[i].1, 0);
    if i == a {
        match spec_find_key(m, k) {
            None => {
                lemma_join_no_key(ctx, skus, m, i + 1, b, k);
            },
            Some(x) => {
                lemma_remove_keys(m, x);
                lemma_join_no_key(ctx, skus, m.remove(x), i + 1, b, k);
            },
        }
    } else {
        match spec_find_key(m, skus[i].1) {
            None => {
                lemma_claimed_once_from(ctx, skus, m, i + 1, a, b);
            },
            Some(x) => {
                lemma_remove_keys(m, x);
                lemma_claimed_once_from(ctx, skus, m.remove(x), i + 1, a, b);
            },
        }
    }
}

/// Law: the checksum join is at-most-once. When two SKUs carry the same
/// language label, only the earlier one can claim the label's checksum;
/// the later SKU's row carries none.
pub proof fn lemma_checksum_claimed_once(
    ctx: RowContext,
    skus: Seq<(Seq<char>, Seq<char>)>,
    m: Seq<(Seq<char>, Seq<char>)>,
    a: int,
    b: int,
)
    requires
        wf_keys(m),
        0 <= a < b < skus.len(),
        skus[a].1 == skus[b].1,
    ensures
        spec_join_rows(ctx, skus, m, 0).0[b].checksum is None,
{
    lemma_claimed_once_from(ctx, skus, m, 0, a, b);
}

/// The rows of one target: one per SKU, in SKU order, each claiming its
/// language's checksum from the mapping, which the call drains
/// accordingly. Checksums never add or remove rows: there are exactly as
/// many rows as SKUs. The join compares the page's free-text labels with
/// the SKU API's language strings by plain equality; a label the two
/// sides spell differently claims nothing.
#[verifier::loop_isolation(false)]
pub fn matrix_rows(
    release: &str,
    arch: &str,
    referer: &str,
    edition_id: &str,
    skus: &Vec<Sku>,
    checksums: &mut ChecksumMap,
) -> (r: Vec<MatrixEntry>)
    requires
        wf_keys(old(checksums)@),
    ensures
        ({
            let ctx = RowContext {
                release: release@,
                arch: arch@,
                referer: referer@,
                product_edition_id: edition_id@,
            };
            let jr = spec_join_rows(ctx, skus_view(skus@), old(checksums)@, 0);
            rows_view(r@) == jr.0 && final(checksums)@ == jr.1
        }),
        r@.len() == skus@.len(),
        wf_keys(final(checksums)@),
{
    let ghost ctx = RowContext {
        release: release@,
        arch: arch@,
        referer: referer@,
        product_edition_id: edition_id@,
    };
    let ghost sv = skus_view(skus@);
    let ghost m0 = checksums@;
    let mut out: Vec<MatrixEntry> = Vec::new();
    let mut i: usize = 0;
    while i < skus.len()
        invariant
            i <= skus.len(),
            out@.len() == i,
            wf_keys(checksums@),
            spec_join_rows(ctx, sv, m0, 0).0 == rows_view(out@) + spec_join_rows(
                ctx,
                sv,
                checksums@,
                i as int,
            ).0,
            spec_join_rows(ctx, sv, m0, 0).1 == spec_join_rows(ctx, sv, checksums@, i as int).1,
        decreases skus.len() - i,
    {
        let sku = &skus[i];
        assert(sv[i as int] == (sku.id@, sku.language@));
        let ghost m_cur = checksums@;
        let ghost before = rows_view(out@);
        let claimed = checksums.claim(sku.language.as_str());
        let entry = MatrixEntry {
            release: release.to_owned(),
            arch: arch.to_owned(),
            referer: referer.to_owned(),
            language: sku.language.clone(),
            product_edition_id: edition_id.to_owned(),
            sku: sku.id.clone(),
            checksum: claimed,
        };
        assert(entry@ == spec_row(ctx, sv[i as int], spec_claim(m_cur, sv[i as int].1).0));
        out.push(entry);
        proof {
            assert(rows_view(out@) =~= before.push(entry@));
            assert(before.push(entry@) + spec_join_rows(ctx, sv, checksums@, i + 1).0 =~= before
                + (seq![entry@] + spec_join_rows(ctx, sv, checksums@, i + 1).0));
        }
        i += 1;
    }
    proof {
        assert(rows_view(out@) =~= rows_view(out@) + spec_join_rows(
            ctx,
            sv,
            checksums@,
            i as int,
        ).0);
    }
    out
}

/// One target's rows computed from its two vendor responses: the product
/// page markup and the SKU-information body. The rows are a function of
/// the two bodies and the target's fixed values alone: re-running over
/// unchanged responses reproduces them.
pub fn target_rows_from_responses(
    release: &str,
    arch: &str,
    url: &str,
    html: &str,
    sku_body: &str,
) -> (r: Result<Vec<MatrixEntry>, ResolveError>)
    ensures
        match r {
            Ok(rows) => (spec_edition_id(html@) matches Some(ed) && (sku_pairs_of(
                sku_body@,
            ) matches Some(sp) && ({
                let ctx = RowContext {
                    release: release@,
                    arch: arch@,
                    referer: url@,
                    product_edition_id: ed,
                };
                &&& rows_view(rows@) == spec_join_rows(
                    ctx,
                    sp,
                    spec_build_map(spec_checksum_rows(html@)),
                    0,
                ).0
                &&& rows@.len() == sp.len()
            }))),
            Err(e) => match e {
                ResolveError::Scrape(s) => s == ScrapeError::NoEditionId && spec_edition_id(
                    html@,
                ) is None,
                ResolveError::Api(a) => (a matches ApiError::Deserialize) && spec_edition_id(
                    html@,
                ) is Some && sku_pairs_of(sku_body@) is None,
            },
        },
{
    let scraped = match scrape_product_page(html) {
        Ok(p) => p,
        Err(e) => {
            return Err(ResolveError::Scrape(e));
        },
    };
    let (edition_id, mut checksums) = scraped;
    let skus = match parse_sku_response(sku_body) {
        Ok(s) => s,
        Err(e) => {
            return Err(ResolveError::Api(e));
        },
    };
    let rows = matrix_rows(release, arch, url, edition_id.as_str(), &skus, &mut checksums);
    Ok(rows)
}

/// The matrix of a batch: the succeeding targets' rows concatenated in
/// target order; a failed target contributes nothing.
pub open spec fn spec_flatten(parts: Seq<Option<Seq<RowAbs>>>) -> Seq<RowAbs>
    decreases parts.len(),
{
    if parts.len() == 0 {
        Seq::empty()
    } else {
        (match parts[0] {
            Some(rs) => rs,
            None => Seq::empty(),
        }) + spec_flatten(parts.drop_first())
    }
}

pub open spec fn parts_view(s: Seq<Option<Vec<MatrixEntry>>>) -> Seq<Option<Seq<RowAbs>>> {
    s.map_values(
        |p: Option<Vec<MatrixEntry>>|
            match p {
                Some(v) => Some(rows_view(v@)),
                None => None,
            },
    )
}

/// Law: matrix construction is deterministic in the targets' resolved
/// parts: equal per-target results give the same matrix, so a re-run over
/// an unchanged response set reproduces the row sequence exactly.
pub proof fn lemma_build_deterministic(a: Seq<Option<Seq<RowAbs>>>, b: Seq<Option<Seq<RowAbs>>>)
    requires
        a == b,
    ensures
        spec_flatten(a) == spec_flatten(b),
{
}

/// The matrix of a batch of per-target results, in target order.
#[verifier::loop_isolation(false)]
pub fn build_matrix(parts: Vec<Option<Vec<MatrixEntry>>>) -> (r: Vec<MatrixEntry>)
    ensures
        rows_view(r@) == spec_flatten(parts_view(parts@)),
{
    let ghost pv = parts_view(parts@);
    let mut rest = parts;
    let mut out: Vec<MatrixEntry> = Vec::new();
    while rest.len() > 0
        invariant
            spec_flatten(pv) == rows_view(out@) + spec_flatten(parts_view(rest@)),
        decreases rest.len(),
    {
        let ghost prev = rest@;
        let part = rest.remove(0);
        proof {
            assert(parts_view(rest@) =~= parts_view(prev).drop_first());
            assert(parts_view(prev)[0] == (match part {
                Some(v) => Some(rows_view(v@)),
                None => None,
            }));
        }
        match part {
            Some(mut v) => {
                let ghost ov = rows_view(out@);
                let ghost vv = rows_view(v@);
                out.append(&mut v);
                proof {
                    assert(rows_view(out@) =~= ov + vv);
                    assert((ov + vv) + spec_flatten(parts_view(rest@)) =~= ov + (vv + spec_flatten(
                        parts_view(rest@),
                    )));
                }
            },
            None => {
                proof {
                    assert(Seq::<RowAbs>::empty() + spec_flatten(parts_view(rest@)) =~= spec_flatten(
                        parts_view(rest@),
                    ));
                }
            },
        }
    }
    proof {
        assert(parts_view(rest@).len() == 0);
        assert(rows_view(out@) =~= rows_view(out@) + spec_flatten(parts_view(rest@)));
    }
    out
}

} // verus!
