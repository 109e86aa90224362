//! Verified core of a nonogram fetcher for the reMarkable AppLoad launcher:
//! the frame format spoken with the frontend, the scraping rules for
//! nonograms.org, the decisions of the download worker and the sidecar
//! files that the document library reads.

pub mod text;
pub mod numbers;
pub mod protocol;
pub mod web;
pub mod scrape;
pub mod nonogram;
pub mod worker;
pub mod document;
