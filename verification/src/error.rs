//! Errors of the client.
use vstd::prelude::*;
use crate::text::{push_str, string_of};

verus! {

/// Everything that can go wrong while talking to YouTube or using the cache.
/// Errors raised by the HTTP, I/O and JSON layers carry their message.
#[derive(Debug)]
pub enum YoutubeError {
    Network(String),
    Api(String),
    VideoUnavailable(String),
    NoTranscript(String),
    LanguageNotAvailable(String, String),
    ChannelNotFound(String),
    RateLimited,
    ParseError(String),
    Cache(String),
    Io(String),
    Json(String),
}

/// The user-facing message of an error.
pub open spec fn error_message(e: YoutubeError) -> Seq<char> {
    match e {
        YoutubeError::Network(m) => "Network error: "@ + m@,
        YoutubeError::Api(m) => "API error: "@ + m@,
        YoutubeError::VideoUnavailable(m) => "Video unavailable: "@ + m@,
        YoutubeError::NoTranscript(m) => "No transcripts available for video "@ + m@,
        YoutubeError::LanguageNotAvailable(v, m) => "Transcript language not available for video "@
            + v@ + ": "@ + m@,
        YoutubeError::ChannelNotFound(m) => "Channel not found: "@ + m@,
        YoutubeError::RateLimited => "Rate limited by YouTube (429). Retries exhausted."@,
        YoutubeError::ParseError(m) => "Failed to parse YouTube response: "@ + m@,
        YoutubeError::Cache(m) => "Cache error: "@ + m@,
        YoutubeError::Io(m) => "IO error: "@ + m@,
        YoutubeError::Json(m) => "JSON error: "@ + m@,
    }
}

impl YoutubeError {
    /// The message shown for this error.
    pub fn message(&self) -> (r: String)
        ensures
            r@ == error_message(*self),
    {
        let (prefix, m): (&str, &String) = match self {
            YoutubeError::Network(m) => ("Network error: ", m),
            YoutubeError::Api(m) => ("API error: ", m),
            YoutubeError::VideoUnavailable(m) => ("Video unavailable: ", m),
            YoutubeError::NoTranscript(m) => ("No transcripts available for video ", m),
            YoutubeError::LanguageNotAvailable(v, m) => {
                let mut r = string_of("Transcript language not available for video ");
                push_str(&mut r, v.as_str());
                push_str(&mut r, ": ");
                push_str(&mut r, m.as_str());
                return r;
            },
            YoutubeError::ChannelNotFound(m) => ("Channel not found: ", m),
            YoutubeError::RateLimited => {
                return string_of("Rate limited by YouTube (429). Retries exhausted.");
            },
            YoutubeError::ParseError(m) => ("Failed to parse YouTube response: ", m),
            YoutubeError::Cache(m) => ("Cache error: ", m),
            YoutubeError::Io(m) => ("IO error: ", m),
            YoutubeError::Json(m) => ("JSON error: ", m),
        };
        let mut r = string_of(prefix);
        push_str(&mut r, m.as_str());
        r
    }
}

} // verus!
