//! The ways in which reading a source can fail.

use rss::Error as FeedError;
use vstd::prelude::*;

verus! {

/// `rss::Error`, what the feed reader gives back for a document that it cannot
/// read. Nothing is known of a value of it; it is carried to the caller as it came.
#[verifier::external_type_specification]
#[verifier::external_body]
pub struct ExFeedError(FeedError);

/// A failure as contracts see it: its kind, and the text that came with it.
pub enum Failure {
    /// The transport could not deliver the response; its account of why.
    Transport(Seq<char>),
    /// The feed reader rejected the body.
    FeedParse,
    /// A token that names no source; the token.
    UnrecognizedSource(Seq<char>),
}

/// Why no items came back.
#[derive(Debug)]
pub enum Error {
    /// The request for the source's address failed; holds the transport's account.
    HttpError(String),
    /// A token names no source; holds the token.
    ParseError(String),
    /// The body of a feed source is no feed; holds the reader's error.
    RssError(FeedError),
}

impl View for Error {
    type V = Failure;

    open spec fn view(&self) -> Failure {
        match self {
            Error::HttpError(account) => Failure::Transport(account@),
            Error::ParseError(token) => Failure::UnrecognizedSource(token@),
            Error::RssError(_) => Failure::FeedParse,
        }
    }
}

} // verus!
