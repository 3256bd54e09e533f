//! The ICMP probe strategy: one echo request with a fixed timeout.
//!
//! A probe that could not be attempted is an error. A probe that was sent
//! and got no reply is an outcome with `success` false, never an error.
//! The ping itself is made by the caller. This module says what to make
//! of it.

use vstd::prelude::*;
use vstd::string::*;
use crate::outcome::{failure_message, failure_text, OutcomeView, ProbeOutcome};
use crate::probe::ProbeStrategy;

verus! {

/// Seconds an ICMP probe waits for its reply.
pub const PING_TIMEOUT_SECONDS: u32 = 5;

/// An ICMP probe that could not be attempted.
#[derive(Debug)]
pub enum PingError {
    /// The ping library refused the timeout or could not send; the text is
    /// its own message.
    LibOpingError(String),
    /// No socket could be opened to the target; the text names the target
    /// and the reason.
    CustomError(String),
}

/// A `PingError` with its message as a character sequence.
pub enum PingFailure {
    LibOpingError(Seq<char>),
    CustomError(Seq<char>),
}

impl View for PingError {
    type V = PingFailure;

    open spec fn view(&self) -> PingFailure {
        match *self {
            PingError::LibOpingError(message) => PingFailure::LibOpingError(message@),
            PingError::CustomError(message) => PingFailure::CustomError(message@),
        }
    }
}

impl PingFailure {
    /// The failure's message.
    pub open spec fn message(self) -> Seq<char> {
        match self {
            PingFailure::LibOpingError(message) => message,
            PingFailure::CustomError(message) => message,
        }
    }
}

impl PingError {
    /// The error's message.
    pub fn description(&self) -> (message: &str)
        ensures
            message@ == self@.message(),
    {
        match self {
            PingError::LibOpingError(message) => message.as_str(),
            PingError::CustomError(message) => message.as_str(),
        }
    }
}

/// The reply, or the lack of one, from one destination of a ping.
#[derive(Debug)]
pub struct PingReply {
    /// The destination's name as the ping library resolved it.
    pub hostname: String,
    /// The destination's address, in text.
    pub address: String,
    /// How many echo requests went unanswered: 0 or 1.
    pub dropped: u32,
    /// The round-trip time in milliseconds, as it is to be shown.
    pub latency_ms: String,
    /// Every field of the reply, as shown in verbose details.
    pub dump: String,
}

/// What came of one ping, step by step.
#[derive(Debug)]
pub enum PingExchange {
    /// The timeout could not be set; the text is the library's message.
    TimeoutRefused(String),
    /// The target could not be resolved, or no socket could be opened to
    /// it; the text is the error as it is displayed.
    HostRefused(String),
    /// The echo request could not be sent; the text is the library's
    /// message.
    SendFailed(String),
    /// The request went out; one entry for each destination.
    Sent(Vec<PingReply>),
}

/// The detail line for one reply.
pub open spec fn reply_detail(verbose: bool, reply: PingReply) -> Seq<char> {
    if reply.dropped > 0 {
        "Failure from "@ + reply.hostname@ + " - No response"@
    } else if verbose {
        "Success from "@ + reply.hostname@ + " - Response "@ + reply.dump@
    } else {
        "Success from "@ + reply.hostname@ + " - Response (address "@ + reply.address@
            + "): latency "@ + reply.latency_ms@ + " ms"@
    }
}

/// The outcome of a ping of `ip` that was sent: the last destination's
/// reply decides, and with no destination at all nothing is known.
pub open spec fn sent_outcome(verbose: bool, ip: Seq<char>, replies: Seq<PingReply>)
    -> OutcomeView {
    if replies.len() == 0 {
        OutcomeView { target: ip, success: false, detail: "Uncaught error"@ }
    } else {
        OutcomeView {
            target: ip,
            success: replies.last().dropped == 0,
            detail: reply_detail(verbose, replies.last()),
        }
    }
}

/// How the ping of `ip` is classified, given what it came to.
pub open spec fn ping_probe(verbose: bool, ip: Seq<char>, exchange: PingExchange) -> Result<
    OutcomeView,
    PingFailure,
> {
    match exchange {
        PingExchange::TimeoutRefused(message) => Err(PingFailure::LibOpingError(message@)),
        PingExchange::HostRefused(reason) => Err(
            PingFailure::CustomError(failure_message(ip, reason@)),
        ),
        PingExchange::SendFailed(message) => Err(PingFailure::LibOpingError(message@)),
        PingExchange::Sent(replies) => Ok(sent_outcome(verbose, ip, replies@)),
    }
}

/// An ICMP result with its texts as character sequences.
pub open spec fn ping_view(result: Result<ProbeOutcome, PingError>) -> Result<
    OutcomeView,
    PingFailure,
> {
    match result {
        Ok(outcome) => Ok(outcome@),
        Err(error) => Err(error@),
    }
}

/// Writes the detail line for one reply.
pub fn reply_text(verbose: bool, reply: &PingReply) -> (detail: String)
    ensures
        detail@ == reply_detail(verbose, *reply),
{
    if reply.dropped > 0 {
        let mut detail = String::from_str("Failure from ");
        detail.append(reply.hostname.as_str());
        detail.append(" - No response");
        detail
    } else if verbose {
        let mut detail = String::from_str("Success from ");
        detail.append(reply.hostname.as_str());
        detail.append(" - Response ");
        detail.append(reply.dump.as_str());
        detail
    } else {
        let mut detail = String::from_str("Success from ");
        detail.append(reply.hostname.as_str());
        detail.append(" - Response (address ");
        detail.append(reply.address.as_str());
        detail.append("): latency ");
        detail.append(reply.latency_ms.as_str());
        detail.append(" ms");
        detail
    }
}

/// Classifies one ICMP probe of `ip`.
pub fn send_ping(verbose: bool, ip: &str, exchange: PingExchange) -> (result: Result<
    ProbeOutcome,
    PingError,
>)
    ensures
        ping_view(result) == ping_probe(verbose, ip@, exchange),
{
    match exchange {
        PingExchange::TimeoutRefused(message) => Err(PingError::LibOpingError(message)),
        PingExchange::HostRefused(reason) => Err(
            PingError::CustomError(failure_text(ip, reason.as_str())),
        ),
        PingExchange::SendFailed(message) => Err(PingError::LibOpingError(message)),
        PingExchange::Sent(replies) => {
            let target = String::from_str(ip);
            let count = replies.len();
            if count == 0 {
                Ok(
                    ProbeOutcome {
                        target,
                        success: false,
                        detail: String::from_str("Uncaught error"),
                    },
                )
            } else {
                let last = &replies[count - 1];
                Ok(
                    ProbeOutcome {
                        target,
                        success: last.dropped == 0,
                        detail: reply_text(verbose, last),
                    },
                )
            }
        },
    }
}

/// The ICMP probe strategy.
pub struct Icmp;

impl ProbeStrategy for Icmp {
    type Exchange = PingExchange;

    type Failure = PingError;

    open spec fn classifies(
        verbose: bool,
        target: Seq<char>,
        exchange: PingExchange,
        result: Result<ProbeOutcome, PingError>,
    ) -> bool {
        ping_view(result) == ping_probe(verbose, target, exchange)
    }

    fn classify(verbose: bool, target: &str, exchange: PingExchange) -> (result: Result<
        ProbeOutcome,
        PingError,
    >) {
        send_ping(verbose, target, exchange)
    }
}

} // verus!
