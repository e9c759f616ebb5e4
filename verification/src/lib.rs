//! Top items of a few news sites, extracted from what their pages and feeds hold.
//!
//! The library never touches the network: a caller fetches the address that a
//! [`NewsSource`] names and hands the response to [`Scraper::scrap`].

pub mod error;
pub mod feed;
pub mod items;
pub mod page;
pub mod sources;
pub mod text;

pub use error::Error;
pub use sources::{Format, NewsInfo, NewsSource, Response, Scraper};
