//! The record of one probe, and the message of a probe that could not be
//! made.

use vstd::prelude::*;
use vstd::string::*;
use crate::text::occurs_at;

verus! {

/// What one probe of one target found. A probe that was made and got no
/// answer is an outcome too, with `success` false; a probe that could not
/// be made at all is an error instead.
#[derive(Debug)]
pub struct ProbeOutcome {
    /// The address that was probed.
    pub target: String,
    /// Whether the target answered.
    pub success: bool,
    /// A line for the reader: latency or status on success, the reason
    /// otherwise.
    pub detail: String,
}

/// A `ProbeOutcome` with its texts as character sequences.
pub struct OutcomeView {
    pub target: Seq<char>,
    pub success: bool,
    pub detail: Seq<char>,
}

impl View for ProbeOutcome {
    type V = OutcomeView;

    open spec fn view(&self) -> OutcomeView {
        OutcomeView { target: self.target@, success: self.success, detail: self.detail@ }
    }
}

/// The message of a probe that could not be made.
pub open spec fn failure_message(ip: Seq<char>, reason: Seq<char>) -> Seq<char> {
    "Failure from "@ + ip + " - "@ + reason
}

/// A failure message holds the target right after its opening words and
/// ends with the reason.
pub proof fn lemma_failure_names_target_and_reason(ip: Seq<char>, reason: Seq<char>)
    ensures
        occurs_at(failure_message(ip, reason), ip, "Failure from "@.len() as int),
        occurs_at(
            failure_message(ip, reason),
            reason,
            failure_message(ip, reason).len() - reason.len(),
        ),
{
    let message = failure_message(ip, reason);
    let at = "Failure from "@.len() as int;
    assert(message.subrange(at, at + ip.len()) =~= ip);
    assert(message.subrange(message.len() - reason.len(), message.len() as int) =~= reason);
}

/// Writes the message of a probe of `ip` that could not be made.
pub fn failure_text(ip: &str, reason: &str) -> (message: String)
    ensures
        message@ == failure_message(ip@, reason@),
{
    let mut message = String::from_str("Failure from ");
    message.append(ip);
    message.append(" - ");
    message.append(reason);
    message
}

} // verus!
