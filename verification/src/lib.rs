//! Resolution of direct download URLs for Windows installation images.
//!
//! The vendor's consumer download service exposes no public API; its web
//! page performs a multi-step sequence of requests internally. This crate
//! holds the verified core of that sequence: scraping a product page for
//! edition ids and checksums, interpreting the SKU and download-link
//! responses, joining checksums onto SKUs, and assembling the output
//! matrix. Network transport and command-line handling live outside the
//! library and hand it plain values.

mod checksums;
mod error;
mod links;
mod matrix;
mod output;
mod scrape;
mod text;
mod urls;
mod wire;

pub use checksums::build_checksum_map;
pub use checksums::ChecksumMap;
pub use error::ApiError;
pub use error::ResolveError;
pub use error::ScrapeError;
pub use links::arch_label;
pub use links::filename_from_path;
pub use links::join_errors;
pub use links::resolve_download;
pub use links::spec_arch_label;
pub use links::DownloadLinksResponse;
pub use links::DownloadOption;
pub use links::VendorError;
pub use matrix::build_matrix;
pub use matrix::matrix_rows;
pub use matrix::target_rows_from_responses;
pub use matrix::MatrixEntry;
pub use output::resolution_output;
pub use output::Output;
pub use output::OutputMetadata;
pub use output::OutputValue;
pub use output::ResolutionOutcome;
pub use scrape::scrape_checksum_rows;
pub use scrape::scrape_edition_id;
pub use scrape::scrape_product_page;
pub use wire::resolve_download_from_body;
pub use urls::download_links_url;
pub use urls::new_permit;
pub use urls::permit_url;
pub use urls::sku_info_url;
pub use wire::parse_download_response;
pub use wire::parse_sku_response;
pub use wire::Sku;
