//! Backs up a user's tweets from X: their text as Markdown and their media
//! files, remembering which tweets are done.
use vstd::prelude::*;

pub mod backup;
pub mod config;
pub mod datetime;
pub mod downloader;
pub mod json;
pub mod markdown_generator;
pub mod setup;
pub mod text;
pub mod tweet_parser;
pub mod updater;
pub mod x_api;

pub use config::Config;
pub use downloader::Downloader;
pub use markdown_generator::MarkdownGenerator;
pub use x_api::XApi;

verus! {

} // verus!
