//! Core of a semantic image browser: the embedding store, the query
//! executor, the progress indicator, the result grid and the album
//! scraper's URL handling, each with machine-checked contracts.

pub mod engine;
pub mod img_scrape;
pub mod layout;
pub mod progress;
pub mod query;
pub mod store;
pub mod text;
pub mod ui;
