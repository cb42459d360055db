pub mod catalog;
pub mod download;
pub mod scrape;
pub mod text;
