use iso_matrix::build_checksum_map;
use iso_matrix::build_matrix;
use iso_matrix::matrix_rows;
use iso_matrix::parse_sku_response;
use iso_matrix::target_rows_from_responses;
use iso_matrix::ChecksumMap;
use iso_matrix::MatrixEntry;

fn hash_a() -> String {
    "ABCD".repeat(16)
}

fn page(option: &str, rows: &[(&str, &str)]) -> String {
    let mut html = format!("<option value=\"{option}\">");
    for (language, hash) in rows {
        html.push_str(&format!("</tr><tr><td>{language} 64-bit</td>\n<td>{hash}</td>"));
    }
    html
}

#[test]
fn sku_json_joined_with_checksum_map() {
    let skus = parse_sku_response("{\"Skus\":[{\"Id\":\"abc\",\"Language\":\"English\"}]}").unwrap();
    assert_eq!(skus.len(), 1);
    assert_eq!(skus[0].id, "abc");
    assert_eq!(skus[0].language, "English");
    let rows = vec![("English".to_string(), hash_a())];
    let mut map = build_checksum_map(&rows);
    let entries = matrix_rows("11", "x86_64", "https://page", "2143", &skus, &mut map);
    assert_eq!(entries.len(), 1);
    let e = &entries[0];
    assert_eq!(e.release, "11");
    assert_eq!(e.arch, "x86_64");
    assert_eq!(e.referer, "https://page");
    assert_eq!(e.language, "English");
    assert_eq!(e.product_edition_id, "2143");
    assert_eq!(e.sku, "abc");
    assert_eq!(e.checksum, Some(hash_a()));
}

#[test]
fn row_count_equals_sku_count() {
    let body = "{\"Skus\":[{\"Id\":\"a\",\"Language\":\"English\"},\
                {\"Id\":\"b\",\"Language\":\"German\"},\
                {\"Id\":\"c\",\"Language\":\"French\"}]}";
    let skus = parse_sku_response(body).unwrap();
    let mut map = ChecksumMap::new();
    let entries = matrix_rows("10", "x86_64", "https://page", "1", &skus, &mut map);
    assert_eq!(entries.len(), 3);
    assert!(entries.iter().all(|e| e.checksum.is_none()));
}

#[test]
fn shared_language_claims_checksum_only_once() {
    let body = "{\"Skus\":[{\"Id\":\"a\",\"Language\":\"English\"},\
                {\"Id\":\"b\",\"Language\":\"English\"}]}";
    let skus = parse_sku_response(body).unwrap();
    let rows = vec![("English".to_string(), hash_a())];
    let mut map = build_checksum_map(&rows);
    let entries = matrix_rows("11", "x86_64", "https://page", "1", &skus, &mut map);
    assert_eq!(entries.len(), 2);
    assert_eq!(entries[0].checksum, Some(hash_a()));
    assert_eq!(entries[1].checksum, None);
}

#[test]
fn malformed_sku_body_is_rejected() {
    assert!(parse_sku_response("{}").is_err());
    assert!(parse_sku_response("{\"Skus\":[{\"Id\":\"a\"}]}").is_err());
    assert!(parse_sku_response("nope").is_err());
}

#[test]
fn empty_sku_list_gives_no_rows() {
    let skus = parse_sku_response("{\"Skus\":[]}").unwrap();
    let mut map = ChecksumMap::new();
    let entries = matrix_rows("11", "aarch64", "https://page", "1", &skus, &mut map);
    assert!(entries.is_empty());
}

fn entry_tuple(e: &MatrixEntry) -> (String, String, String, String, String, String, Option<String>) {
    (
        e.release.clone(),
        e.arch.clone(),
        e.referer.clone(),
        e.language.clone(),
        e.product_edition_id.clone(),
        e.sku.clone(),
        e.checksum.clone(),
    )
}

#[test]
fn target_rows_are_reproducible_from_unchanged_responses() {
    let html = page("2143", &[("English", &hash_a())]);
    let body = "{\"Skus\":[{\"Id\":\"abc\",\"Language\":\"English\"},\
                {\"Id\":\"def\",\"Language\":\"German\"}]}";
    let first = target_rows_from_responses("11", "x86_64", "https://page", &html, body).unwrap();
    let second = target_rows_from_responses("11", "x86_64", "https://page", &html, body).unwrap();
    let a: Vec<_> = first.iter().map(entry_tuple).collect();
    let b: Vec<_> = second.iter().map(entry_tuple).collect();
    assert_eq!(a, b);
    assert_eq!(first.len(), 2);
    assert_eq!(first[0].checksum, Some(hash_a()));
    assert_eq!(first[1].checksum, None);
}

#[test]
fn failing_target_reports_its_stage() {
    let no_option = page("", &[]).replace("<option", "<o");
    assert!(target_rows_from_responses("11", "x86_64", "u", &no_option, "{\"Skus\":[]}").is_err());
    let html = page("2143", &[]);
    assert!(target_rows_from_responses("11", "x86_64", "u", &html, "bad").is_err());
}

#[test]
fn batch_concatenates_succeeding_targets_in_order() {
    let html1 = page("2143", &[("English", &hash_a())]);
    let html2 = page("3000", &[]);
    let body1 = "{\"Skus\":[{\"Id\":\"abc\",\"Language\":\"English\"}]}";
    let body2 = "{\"Skus\":[{\"Id\":\"xyz\",\"Language\":\"German\"}]}";
    let rows1 = target_rows_from_responses("11", "x86_64", "https://p1", &html1, body1).unwrap();
    let rows2 = target_rows_from_responses("10", "x86_64", "https://p2", &html2, body2).unwrap();
    let matrix = build_matrix(vec![Some(rows1), None, Some(rows2)]);
    assert_eq!(matrix.len(), 2);
    assert_eq!(matrix[0].sku, "abc");
    assert_eq!(matrix[0].product_edition_id, "2143");
    assert_eq!(matrix[1].sku, "xyz");
    assert_eq!(matrix[1].product_edition_id, "3000");
}
