//! Search, chapter and archive logic of a command-line manga downloader.
pub mod text;
pub mod input;
pub mod extract;
pub mod archive;
pub mod cache;
