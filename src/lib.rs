//! Catalog entries of a game launcher: display ordering, stale-path repair and
//! lazily resolved box art.

pub mod path;
pub mod lazy_image;
pub mod game;
pub mod scrape;
pub mod file_search;
