//! Scraping of a product page's fallback markup: the first numeric edition
//! option, and the table rows that pair a language label with a 64-digit
//! upper-case hexadecimal checksum.

use vstd::prelude::*;

use crate::checksums::build_checksum_map;
use crate::checksums::spec_build_map;
use crate::checksums::wf_keys;
use crate::checksums::ChecksumMap;
use crate::error::ScrapeError;
use crate::text::contains_at;
use crate::text::digit_char;
use crate::text::digit_pred;
use crate::text::hex_char;
use crate::text::is_digit;
use crate::text::is_hex_upper;
use crate::text::lang_pred;
use crate::text::lang_run_end;
use crate::text::matches_at;
use crate::text::pairs_view;
use crate::text::run_end;
use crate::text::space_pred;
use crate::text::space_run_end;
use crate::text::lemma_run_end_bounds;

verus! {

/// Literal that precedes a product edition id in the page markup.
pub open spec fn edition_pat() -> Seq<char> {
    "option value=\""@
}

/// An edition id occurs at `i`: the literal, then at least one digit.
pub open spec fn edition_at(h: Seq<char>, i: int) -> bool {
    &&& matches_at(h, i, edition_pat())
    &&& i + edition_pat().len() < h.len()
    &&& is_digit(h[i + edition_pat().len()])
}

pub open spec fn first_edition_from(h: Seq<char>, i: int) -> Option<int>
    decreases h.len() - i,
{
    if i >= h.len() {
        None
    } else if edition_at(h, i) {
        Some(i)
    } else {
        first_edition_from(h, i + 1)
    }
}

/// The page's product edition id: the maximal digit run after the first
/// occurrence of the edition literal that a digit follows; nothing when the
/// page has no such occurrence.
pub open spec fn spec_edition_id(h: Seq<char>) -> Option<Seq<char>> {
    match first_edition_from(h, 0) {
        None => None,
        Some(i) => {
            let d = i + edition_pat().len();
            Some(h.subrange(d, run_end(h, d, digit_pred())))
        },
    }
}

/// Product edition id scraped from page markup.
#[verifier::loop_isolation(false)]
pub fn scrape_edition_id(html: &str) -> (r: Option<String>)
    ensures
        match r {
            Some(s) => spec_edition_id(html@) == Some(s@),
            None => spec_edition_id(html@) is None,
        },
{
    let hlen = html.unicode_len();
    let pat = "option value=\"";
    assert(pat@ == edition_pat());
    let plen = pat.unicode_len();
    let mut i: usize = 0;
    while i < hlen
        invariant
            i <= hlen,
            hlen == html@.len(),
            plen == edition_pat().len(),
            first_edition_from(html@, 0) == first_edition_from(html@, i as int),
        decreases hlen - i,
    {
        if contains_at(html, i, pat) {
            let d = i + plen;
            if d < hlen {
                let c = html.get_char(d);
                if digit_char(c) {
                    assert(edition_at(html@, i as int));
                    let de = crate::text::digit_run_end(html, d);
                    let s = html.substring_char(d, de).to_owned();
                    return Some(s);
                }
            }
        }
        assert(!edition_at(html@, i as int));
        assert(first_edition_from(html@, i as int) == first_edition_from(html@, i + 1));
        i += 1;
    }
    None
}

/// Literal that opens a checksum table row.
pub open spec fn row_pre() -> Seq<char> {
    "</tr><tr><td>"@
}

/// Forced tail of the language run: the bitness tag's leading space and
/// digits.
pub open spec fn lang_suffix() -> Seq<char> {
    " 64"@
}

/// Literal between the language cell's run and the checksum cell.
pub open spec fn row_mid() -> Seq<char> {
    "-bit</td>"@
}

pub open spec fn cell_open() -> Seq<char> {
    "<td>"@
}

pub open spec fn cell_close() -> Seq<char> {
    "</td>"@
}

pub open spec fn row_lang_start(i: int) -> int {
    i + row_pre().len()
}

/// End of the maximal run of language characters in the row's first cell.
pub open spec fn row_lang_run(h: Seq<char>, i: int) -> int {
    run_end(h, row_lang_start(i), lang_pred())
}

pub open spec fn row_ws_end(h: Seq<char>, i: int) -> int {
    run_end(h, row_lang_run(h, i) + row_mid().len(), space_pred())
}

pub open spec fn row_hex_start(h: Seq<char>, i: int) -> int {
    row_ws_end(h, i) + cell_open().len()
}

/// A checksum row occurs at `i`: the row opening, a nonempty language
/// label whose cell ends with the 64-bit tag, then (after whitespace) a
/// cell of exactly 64 upper-case hexadecimal digits.
pub open spec fn row_at(h: Seq<char>, i: int) -> bool {
    let p = row_lang_start(i);
    let re = row_lang_run(h, i);
    let hs = row_hex_start(h, i);
    &&& matches_at(h, i, row_pre())
    &&& p + 1 <= re - 3
    &&& matches_at(h, re - 3, lang_suffix())
    &&& matches_at(h, re, row_mid())
    &&& matches_at(h, row_ws_end(h, i), cell_open())
    &&& hs + 64 <= h.len()
    &&& (forall|k: int| hs <= k < hs + 64 ==> is_hex_upper(h[k]))
    &&& matches_at(h, hs + 64, cell_close())
}

/// The row's language label: the language run without the bitness tag's
/// forced tail.
pub open spec fn row_lang(h: Seq<char>, i: int) -> Seq<char> {
    h.subrange(row_lang_start(i), row_lang_run(h, i) - 3)
}

/// The row's checksum: the 64 hexadecimal digits.
pub open spec fn row_sum(h: Seq<char>, i: int) -> Seq<char> {
    h.subrange(row_hex_start(h, i), row_hex_start(h, i) + 64)
}

/// Position right after the row.
pub open spec fn row_end(h: Seq<char>, i: int) -> int {
    row_hex_start(h, i) + 64 + cell_close().len()
}

pub proof fn lemma_row_bounds(h: Seq<char>, i: int)
    requires
        row_at(h, i),
    ensures
        i < row_end(h, i) <= h.len(),
{
    lemma_run_end_bounds(h, row_lang_start(i), lang_pred());
    lemma_run_end_bounds(h, row_lang_run(h, i) + row_mid().len(), space_pred());
}

/// All checksum rows of the page, in order of occurrence; scanning resumes
/// after each row.
pub open spec fn scan_rows_from(h: Seq<char>, i: int) -> Seq<(Seq<char>, Seq<char>)>
    decreases h.len() - i,
{
    if i >= h.len() {
        Seq::empty()
    } else if row_at(h, i) && i < row_end(h, i) && row_end(h, i) <= h.len() {
        seq![(row_lang(h, i), row_sum(h, i))] + scan_rows_from(h, row_end(h, i))
    } else {
        scan_rows_from(h, i + 1)
    }
}

pub open spec fn spec_checksum_rows(h: Seq<char>) -> Seq<(Seq<char>, Seq<char>)> {
    scan_rows_from(h, 0)
}

#[verifier::loop_isolation(false)]
fn check_row(html: &str, hlen: usize, i: usize) -> (r: Option<(String, String, usize)>)
    requires
        hlen == html@.len(),
        i <= hlen,
    ensures
        match r {
            Some(t) => ({
                &&& row_at(html@, i as int)
                &&& t.0@ == row_lang(html@, i as int)
                &&& t.1@ == row_sum(html@, i as int)
                &&& t.2 == row_end(html@, i as int)
            }),
            None => !row_at(html@, i as int),
        },
{
    let pre = "</tr><tr><td>";
    assert(pre@ == row_pre());
    if !contains_at(html, i, pre) {
        return None;
    }
    let p = i + pre.unicode_len();
    let re = lang_run_end(html, p);
    if re - p < 4 {
        return None;
    }
    let suf = " 64";
    assert(suf@ == lang_suffix());
    if !contains_at(html, re - 3, suf) {
        return None;
    }
    let mid = "-bit</td>";
    assert(mid@ == row_mid());
    if !contains_at(html, re, mid) {
        return None;
    }
    let ws = space_run_end(html, re + mid.unicode_len());
    let opener = "<td>";
    assert(opener@ == cell_open());
    if !contains_at(html, ws, opener) {
        return None;
    }
    let hs = ws + opener.unicode_len();
    if hlen - hs < 64 {
        return None;
    }
    let mut k: usize = 0;
    while k < 64
        invariant
            k <= 64,
            hlen == html@.len(),
            hs + 64 <= hlen,
            hs == row_hex_start(html@, i as int),
            forall|j: int| hs <= j < hs + k ==> is_hex_upper(html@[j]),
        decreases 64 - k,
    {
        let c = html.get_char(hs + k);
        if !hex_char(c) {
            assert(!is_hex_upper(html@[hs + k]));
            return None;
        }
        k += 1;
    }
    let closer = "</td>";
    assert(closer@ == cell_close());
    if !contains_at(html, hs + 64, closer) {
        return None;
    }
    assert(row_at(html@, i as int));
    let lang = html.substring_char(p, re - 3).to_owned();
    let sum = html.substring_char(hs, hs + 64).to_owned();
    let end = hs + 64 + closer.unicode_len();
    Some((lang, sum, end))
}

/// All `(language, checksum)` rows scraped from page markup, in order of
/// occurrence. An empty result is valid: a page need not publish
/// checksums.
#[verifier::loop_isolation(false)]
pub fn scrape_checksum_rows(html: &str) -> (r: Vec<(String, String)>)
    ensures
        pairs_view(r@) == spec_checksum_rows(html@),
{
    let hlen = html.unicode_len();
    let mut rows: Vec<(String, String)> = Vec::new();
    let mut i: usize = 0;
    while i < hlen
        invariant
            i <= hlen,
            hlen == html@.len(),
            spec_checksum_rows(html@) == pairs_view(rows@) + scan_rows_from(html@, i as int),
        decreases hlen - i,
    {
        let row = check_row(html, hlen, i);
        match row {
            Some(t) => {
                proof {
                    lemma_row_bounds(html@, i as int);
                }
                let ghost before = pairs_view(rows@);
                let (lang, sum, end) = t;
                rows.push((lang, sum));
                proof {
                    assert(pairs_view(rows@) =~= before.push(
                        (row_lang(html@, i as int), row_sum(html@, i as int)),
                    ));
                    assert(before.push((row_lang(html@, i as int), row_sum(html@, i as int)))
                        + scan_rows_from(html@, end as int) =~= before + (seq![
                        (row_lang(html@, i as int), row_sum(html@, i as int)),
                    ] + scan_rows_from(html@, end as int)));
                }
                i = end;
            },
            None => {
                assert(scan_rows_from(html@, i as int) == scan_rows_from(html@, i + 1));
                i += 1;
            },
        }
    }
    proof {
        assert(scan_rows_from(html@, i as int) =~= Seq::empty());
        assert(pairs_view(rows@) =~= pairs_view(rows@) + scan_rows_from(html@, i as int));
    }
    rows
}

/// A product page's data: its edition id and the checksum mapping built
/// from its rows, later rows displacing earlier entries with the same
/// label. A page without an edition id is rejected; a page without
/// checksum rows is not, its mapping is empty.
pub fn scrape_product_page(html: &str) -> (r: Result<(String, ChecksumMap), ScrapeError>)
    ensures
        match r {
            Ok(p) => ({
                &&& spec_edition_id(html@) == Some(p.0@)
                &&& p.1@ == spec_build_map(spec_checksum_rows(html@))
                &&& wf_keys(p.1@)
            }),
            Err(e) => e == ScrapeError::NoEditionId && spec_edition_id(html@) is None,
        },
{
    let edition_id = match scrape_edition_id(html) {
        Some(s) => s,
        None => {
            return Err(ScrapeError::NoEditionId);
        },
    };
    let rows = scrape_checksum_rows(html);
    let map = build_checksum_map(&rows);
    Ok((edition_id, map))
}

} // verus!
