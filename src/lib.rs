//! Building the command line of the `yt-dlp` downloader from a user's choices,
//! and reading back what it prints.
pub mod download;
pub mod download_builder;
pub mod text;
pub mod utils;
