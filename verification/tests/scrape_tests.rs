use iso_matrix::scrape_checksum_rows;
use iso_matrix::scrape_edition_id;
use iso_matrix::scrape_product_page;

fn hash_a() -> String {
    "ABCD".repeat(16)
}

fn hash_b() -> String {
    "1F2E".repeat(16)
}

fn row(language: &str, hash: &str) -> String {
    format!("</tr><tr><td>{language} 64-bit</td>\n<td>{hash}</td>")
}

#[test]
fn edition_id_from_page_with_no_checksums() {
    let html = "<select><option value=\"2143\">Windows 11</option></select>";
    assert_eq!(scrape_edition_id(html), Some("2143".to_string()));
    assert!(scrape_checksum_rows(html).is_empty());
    let (edition, mut map) = scrape_product_page(html).unwrap();
    assert_eq!(edition, "2143");
    assert_eq!(map.claim("English"), None);
}

#[test]
fn edition_id_takes_first_numeric_option() {
    let html = "<option value=\"17\"><option value=\"42\">";
    assert_eq!(scrape_edition_id(html), Some("17".to_string()));
}

#[test]
fn edition_id_takes_maximal_digit_run() {
    let html = "text option value=\"98765\" more";
    assert_eq!(scrape_edition_id(html), Some("98765".to_string()));
}

#[test]
fn edition_id_requires_a_digit() {
    assert_eq!(scrape_edition_id("option value=\"x123\""), None);
    assert_eq!(scrape_edition_id("no options here"), None);
}

#[test]
fn edition_id_skips_non_numeric_option() {
    let html = "<option value=\"none\"> <option value=\"300\">";
    assert_eq!(scrape_edition_id(html), Some("300".to_string()));
}

#[test]
fn checksum_row_with_newline_between_cells() {
    let html = format!("junk {} junk", row("English", &hash_a()));
    let rows = scrape_checksum_rows(&html);
    assert_eq!(rows, vec![("English".to_string(), hash_a())]);
}

#[test]
fn checksum_rows_in_order_of_occurrence() {
    let html = format!("{}{}", row("English International", &hash_a()), row("Arabic", &hash_b()));
    let rows = scrape_checksum_rows(&html);
    assert_eq!(
        rows,
        vec![
            ("English International".to_string(), hash_a()),
            ("Arabic".to_string(), hash_b()),
        ]
    );
}

#[test]
fn checksum_language_may_hold_parentheses() {
    let html = row("Portuguese (Brazilian)", &hash_a());
    let rows = scrape_checksum_rows(&html);
    assert_eq!(rows, vec![("Portuguese (Brazilian)".to_string(), hash_a())]);
}

#[test]
fn checksum_rejects_lowercase_hash() {
    let html = row("English", &"abcd".repeat(16));
    assert!(scrape_checksum_rows(&html).is_empty());
}

#[test]
fn checksum_rejects_short_hash() {
    let mut h = hash_a();
    h.pop();
    let html = row("English", &h);
    assert!(scrape_checksum_rows(&html).is_empty());
}

#[test]
fn checksum_requires_bitness_tag() {
    let html = format!("</tr><tr><td>English 32-bit</td>\n<td>{}</td>", hash_a());
    assert!(scrape_checksum_rows(&html).is_empty());
}

#[test]
fn product_page_without_edition_id_is_rejected() {
    let html = row("English", &hash_a());
    assert!(scrape_product_page(&html).is_err());
}

#[test]
fn product_page_map_claims_each_label_once() {
    let html = format!("<option value=\"2143\">{}", row("English", &hash_a()));
    let (_, mut map) = scrape_product_page(&html).unwrap();
    assert_eq!(map.claim("English"), Some(hash_a()));
    assert_eq!(map.claim("English"), None);
}

#[test]
fn later_row_with_same_label_wins() {
    let html = format!("{}{}", row("English", &hash_a()), row("English", &hash_b()));
    let rows = scrape_checksum_rows(&html);
    assert_eq!(rows.len(), 2);
    let map = iso_matrix::build_checksum_map(&rows);
    let mut map = map;
    assert_eq!(map.claim("English"), Some(hash_b()));
    assert_eq!(map.claim("English"), None);
}
