//! What the two probe strategies have in common.

use vstd::prelude::*;
use crate::outcome::ProbeOutcome;

verus! {

/// A way to probe one target. The exchange with the target is made
/// elsewhere; a strategy says what the exchange's result means.
pub trait ProbeStrategy {
    /// What an exchange with a target comes to.
    type Exchange;

    /// The error of a probe that could not be made.
    type Failure;

    /// Whether `result` is the strategy's reading of `exchange` with
    /// `target`.
    spec fn classifies(
        verbose: bool,
        target: Seq<char>,
        exchange: Self::Exchange,
        result: Result<ProbeOutcome, Self::Failure>,
    ) -> bool;

    /// Classifies one probe of `target`. An outcome, successful or not,
    /// names the target it is about.
    fn classify(verbose: bool, target: &str, exchange: Self::Exchange) -> (result: Result<
        ProbeOutcome,
        Self::Failure,
    >)
        ensures
            Self::classifies(verbose, target@, exchange, result),
            result matches Ok(outcome) ==> outcome.target@ == target@,
    ;
}

} // verus!
