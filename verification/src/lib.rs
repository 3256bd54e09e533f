//! Target enumeration and probe classification for a batch
//! network-reachability scanner.
//!
//! The crate expands a target specification (one address, a small subnet,
//! or the text of an address list) into the sequence of addresses to
//! probe, classifies what an ICMP or HTTP exchange with one address gave,
//! and keeps the hand-off queue and ordered result list of a scan.
//! Sockets, files and threads are the caller's business: the functions
//! here take what an exchange produced as plain values.

use vstd::prelude::*;
use vstd::string::*;

pub mod http;
pub mod outcome;
pub mod ping;
pub mod probe;
pub mod scan;
pub mod subnet;
pub mod targets;
pub mod text;
pub mod tools;

verus! {

/// An HTTP probe that could not be carried out.
#[derive(Debug)]
pub enum HttpError {
    /// Why the request could not be sent or answered.
    ErrorMessage(String),
}

/// What an HTTP probe gives: a value, or the reason it could not be made.
pub type HttpResult<T> = Result<T, HttpError>;

impl View for HttpError {
    type V = Seq<char>;

    /// The error's message.
    open spec fn view(&self) -> Seq<char> {
        match *self {
            HttpError::ErrorMessage(message) => message@,
        }
    }
}

impl HttpError {
    /// The error's message.
    pub fn description(&self) -> (message: &str)
        ensures
            message@ == self@,
    {
        match self {
            HttpError::ErrorMessage(message) => message.as_str(),
        }
    }

    /// The error as it is shown to a reader: its message, unadorned.
    pub fn render(&self) -> (shown: String)
        ensures
            shown@ == self@,
    {
        String::from_str(self.description())
    }
}

} // verus!
