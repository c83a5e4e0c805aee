pub mod config;
pub mod digest;
pub mod download;
pub mod preprocess;
pub mod synchronise;
pub mod text;
pub mod wiki;
