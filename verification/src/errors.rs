//! Application-level error kinds and their mapping to HTTP status codes.

use vstd::prelude::*;

verus! {

/// Every failure the forwarding core can report, one distinct tag each.
#[derive(Clone, Copy, PartialEq, Eq, Structural, Debug)]
pub enum AppError {
    /// A second publisher attempted to attach to a stream.
    StreamAlreadyExists,
    /// A subscriber (or a removal) arrived before any publisher was present.
    NoPublisher,
    /// A peer other than the current publisher attempted `remove_publish`.
    NotOwner,
    /// A requested transceiver count is out of bounds.
    InvalidMedia,
    /// A subscriber removal named an unknown session.
    NotFound,
    /// The configuration failed validation; fatal at startup.
    ConfigInvalid,
    /// An underlying transport failure; recoverable per peer.
    Transport,
}

impl AppError {
    /// The HTTP status code that surfaces this error to a client:
    /// conflict for a duplicate publisher, not-found for a missing
    /// publisher or session, bad-request for invalid media, and a
    /// server error for transport or startup failures.
    pub fn http_status(&self) -> (r: u16)
        ensures
            r == self.http_status_spec(),
    {
        match self {
            AppError::StreamAlreadyExists => 409,
            AppError::NoPublisher => 404,
            AppError::NotFound => 404,
            AppError::NotOwner => 403,
            AppError::InvalidMedia => 400,
            AppError::ConfigInvalid => 500,
            AppError::Transport => 500,
        }
    }

    pub open spec fn http_status_spec(&self) -> u16 {
        match self {
            AppError::StreamAlreadyExists => 409u16,
            AppError::NoPublisher => 404u16,
            AppError::NotFound => 404u16,
            AppError::NotOwner => 403u16,
            AppError::InvalidMedia => 400u16,
            AppError::ConfigInvalid => 500u16,
            AppError::Transport => 500u16,
        }
    }

    /// A short stable message for logs and WS text frames.
    pub fn message(&self) -> (r: &'static str)
        ensures
            r@ == self.message_spec(),
    {
        match self {
            AppError::StreamAlreadyExists => "stream already exists",
            AppError::NoPublisher => "publish is none",
            AppError::NotOwner => "publish not myself",
            AppError::InvalidMedia => "sendonly is more than 1",
            AppError::NotFound => "not found session",
            AppError::ConfigInvalid => "config invalid",
            AppError::Transport => "transport error",
        }
    }

    pub open spec fn message_spec(&self) -> Seq<char> {
        match self {
            AppError::StreamAlreadyExists => "stream already exists"@,
            AppError::NoPublisher => "publish is none"@,
            AppError::NotOwner => "publish not myself"@,
            AppError::InvalidMedia => "sendonly is more than 1"@,
            AppError::NotFound => "not found session"@,
            AppError::ConfigInvalid => "config invalid"@,
            AppError::Transport => "transport error"@,
        }
    }
}

} // verus!
